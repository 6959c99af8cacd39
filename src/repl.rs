//! The decisions of the interactive shell; reading and printing are left to
//! the caller.

use vstd::prelude::*;
use crate::assembler::{assemble_result, errors_view, second_pass, AssemblerError, Assembler, ErrorView};
use crate::parser::{parse_program, spec_program};
use crate::scheduler::Scheduler;
use crate::symbols::SymbolTable;
use crate::text::{chars_of, str_eq};
use crate::vm::{step, VM};

verus! {

/// The commands of the interactive shell; any other line is assembly to run.
#[derive(Debug, PartialEq, Eq, Structural, Clone, Copy)]
pub enum Command {
    Quit,
    History,
    Program,
    Registers,
    ClearProgram,
    LoadFile,
    Spawn,
    Assembly,
}

/// The command a line of input names.
pub open spec fn command_of(line: Seq<char>) -> Command {
    if line == ".quit"@ {
        Command::Quit
    } else if line == ".history"@ {
        Command::History
    } else if line == ".program"@ {
        Command::Program
    } else if line == ".registers"@ {
        Command::Registers
    } else if line == ".clear_program"@ {
        Command::ClearProgram
    } else if line == ".load_file"@ {
        Command::LoadFile
    } else if line == ".spawn"@ {
        Command::Spawn
    } else {
        Command::Assembly
    }
}

/// The command a line of input names.
pub fn parse_command(line: &str) -> (r: Command)
    ensures
        r == command_of(line@),
{
    if str_eq(line, ".quit") {
        Command::Quit
    } else if str_eq(line, ".history") {
        Command::History
    } else if str_eq(line, ".program") {
        Command::Program
    } else if str_eq(line, ".registers") {
        Command::Registers
    } else if str_eq(line, ".clear_program") {
        Command::ClearProgram
    } else if str_eq(line, ".load_file") {
        Command::LoadFile
    } else if str_eq(line, ".spawn") {
        Command::Spawn
    } else {
        Command::Assembly
    }
}

/// The interactive shell's state: the lines entered, the machine, the
/// assembler and the scheduler.
pub struct REPL {
    pub command_buffer: Vec<String>,
    pub vm: VM,
    pub assembler: Assembler,
    pub scheduler: Scheduler,
}

impl REPL {
    pub fn new() -> (r: REPL)
        ensures
            r.command_buffer@.len() == 0,
            r.vm@ == VM::new_spec(),
            r.assembler.state() == crate::assembler::pass_start(),
            r.scheduler.next_pid == 0,
            r.scheduler.max_pid == 50000,
    {
        REPL { command_buffer: Vec::new(), vm: VM::new(), assembler: Assembler::new(), scheduler: Scheduler::new() }
    }

    /// Keeps a line in the history.
    pub fn record_command(&mut self, line: &str)
        ensures
            final(self).command_buffer@.len() == old(self).command_buffer@.len() + 1,
            final(self).command_buffer@.last()@ == line@,
            forall|k: int|
                0 <= k < old(self).command_buffer@.len() ==> final(self).command_buffer@[k]
                    == #[trigger] old(self).command_buffer@[k],
            final(self).vm@ == old(self).vm@,
    {
        self.command_buffer.push(line.to_owned());
    }

    /// Empties the machine's program.
    pub fn clear_program(&mut self)
        ensures
            final(self).vm@ == (crate::vm::VMState { program: Seq::empty(), ..old(self).vm@ }),
    {
        self.vm.program = Vec::new();
        assert(self.vm@.program =~= Seq::<u8>::empty());
    }

    /// Appends the bytecode of the rows of `source`, with no labels resolved,
    /// to the machine's program; says whether `source` is a program.
    pub fn load_source(&mut self, source: &str) -> (r: bool)
        ensures
            r == spec_program(source@) is Some,
            r ==> final(self).vm@ == (crate::vm::VMState {
                program: old(self).vm@.program + second_pass(spec_program(source@)->Some_0, Seq::empty()),
                ..old(self).vm@
            }),
            !r ==> final(self).vm@ == old(self).vm@,
    {
        let cs = chars_of(source);
        match parse_program(cs.as_slice()) {
            None => false,
            Some(program) => {
                let symbols = SymbolTable::new();
                assert(symbols@ =~= Seq::empty());
                let bytes = program.to_bytes(&symbols);
                self.vm.add_bytes(bytes);
                true
            },
        }
    }

    /// Runs a line of assembly: its bytecode is appended to the program and
    /// the machine executes one instruction. Says whether the line is a program;
    /// when it is not, nothing changes.
    pub fn execute_line(&mut self, line: &str) -> (r: bool)
        ensures
            r == spec_program(line@) is Some,
            r ==> final(self).vm@ == step(
                crate::vm::VMState {
                    program: old(self).vm@.program + second_pass(spec_program(line@)->Some_0, Seq::empty()),
                    ..old(self).vm@
                },
            ).0,
            !r ==> final(self).vm@ == old(self).vm@,
    {
        let ok = self.load_source(line);
        if ok {
            self.vm.run_once();
        }
        ok
    }

    /// Assembles `source` and appends the image to the machine's program; on
    /// failure, gives back the errors and changes nothing in the machine.
    pub fn assemble_into_vm(&mut self, source: &str) -> (r: Result<(), Vec<AssemblerError>>)
        requires
            source@.len() < 0x4000_0000,
        ensures
            match r {
                Ok(()) => assemble_result(source@) is Ok && final(self).vm@.program == old(
                    self,
                ).vm@.program + assemble_result(source@)->Ok_0,
                Err(es) => assemble_result(source@) == Err::<Seq<u8>, Seq<ErrorView>>(
                    errors_view(es@),
                ) && final(self).vm@ == old(self).vm@,
            },
    {
        match self.assembler.assemble(source) {
            Ok(image) => {
                self.vm.add_bytes(image);
                Ok(())
            },
            Err(errors) => Err(errors),
        }
    }
}

} // verus!
