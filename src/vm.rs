//! The register machine: its state, one step of execution, and runs.

use vstd::prelude::*;
use crate::header::{check_pie_prefix, has_pie_prefix, PIE_HEADER_LENGTH};
use crate::instruction::{opcode_of_byte, Opcode};

verus! {

/// Where execution starts: byte 65. The header takes bytes 0 to 63, so byte
/// 64 is skipped. The assembler writes its read-only data, then its code, from
/// byte 64 on, so a run of an assembled image starts at the second byte of its
/// body: inside its first instruction, or inside its data. A program meant to
/// run from here puts one byte of padding after the header.
pub const START_PC: usize = 65;

/// The state of a machine, as mathematical values.
pub struct VMState {
    pub registers: Seq<i32>,
    pub pc: int,
    pub program: Seq<u8>,
    pub heap: Seq<u8>,
    pub remainder: u32,
    pub equal_flag: bool,
    pub output: Seq<u8>,
}

pub open spec fn fits_i32(x: int) -> bool {
    i32::MIN <= x <= i32::MAX
}

pub open spec fn abs(x: int) -> int {
    if x < 0 { -x } else { x }
}

/// Division rounding toward zero.
pub open spec fn trunc_div(a: int, b: int) -> int {
    if (a < 0) == (b < 0) {
        abs(a) / abs(b)
    } else {
        -(abs(a) / abs(b))
    }
}

/// The remainder that goes with `trunc_div`: it has the sign of `a`.
pub open spec fn trunc_rem(a: int, b: int) -> int {
    if a < 0 {
        -(abs(a) % abs(b))
    } else {
        abs(a) % abs(b)
    }
}

/// A remainder stored as `u32`: a negative one wraps around.
pub open spec fn wrap_u32(r: int) -> u32 {
    if r < 0 {
        (r + 0x1_0000_0000) as u32
    } else {
        r as u32
    }
}

/// The bytes of `program` from `i` up to the first zero byte or the end.
pub open spec fn cstring_at(program: Seq<u8>, i: int) -> Seq<u8>
    decreases program.len() - i,
{
    if i < 0 || i >= program.len() || program[i] == 0 {
        Seq::empty()
    } else {
        seq![program[i]] + cstring_at(program, i + 1)
    }
}

/// Operand byte `k` (1 to 3) of the instruction at the program counter.
pub open spec fn operand(s: VMState, k: int) -> int {
    s.program[s.pc + k] as int
}

/// The state when the machine halts on the instruction at the program
/// counter: nothing changes but the counter, which moves past the opcode.
pub open spec fn halt_at(s: VMState) -> (VMState, bool) {
    (VMState { pc: s.pc + 1, ..s }, true)
}

/// The state with the program counter past the current instruction.
pub open spec fn advance(s: VMState) -> VMState {
    VMState { pc: s.pc + 4, ..s }
}

/// `LOAD r hi lo`: register `r` gets the big-endian 16-bit number `hi lo`.
pub open spec fn step_load(s: VMState) -> (VMState, bool) {
    let r = operand(s, 1);
    if r < 32 {
        (VMState { registers: s.registers.update(r, (operand(s, 2) * 256 + operand(s, 3)) as i32), ..advance(s) }, false)
    } else {
        halt_at(s)
    }
}

/// `ADD`, `SUB`, `MUL a b d`: register `d` gets `a ⊕ b`.
pub open spec fn step_arith(s: VMState, op: Opcode) -> (VMState, bool) {
    let (a, b, d) = (operand(s, 1), operand(s, 2), operand(s, 3));
    if a < 32 && b < 32 && d < 32 {
        let x = s.registers[a] as int;
        let y = s.registers[b] as int;
        let v = if op == Opcode::ADD { x + y } else if op == Opcode::SUB { x - y } else { x * y };
        if fits_i32(v) {
            (VMState { registers: s.registers.update(d, v as i32), ..advance(s) }, false)
        } else {
            halt_at(s)
        }
    } else {
        halt_at(s)
    }
}

/// `DIV a b d`: register `d` gets `a / b` rounded toward zero, and the
/// remainder is kept.
pub open spec fn step_div(s: VMState) -> (VMState, bool) {
    let (a, b, d) = (operand(s, 1), operand(s, 2), operand(s, 3));
    if a < 32 && b < 32 && d < 32 {
        let x = s.registers[a] as int;
        let y = s.registers[b] as int;
        if y != 0 && fits_i32(trunc_div(x, y)) {
            (VMState {
                registers: s.registers.update(d, trunc_div(x, y) as i32),
                remainder: wrap_u32(trunc_rem(x, y)),
                ..advance(s)
            }, false)
        } else {
            halt_at(s)
        }
    } else {
        halt_at(s)
    }
}

/// `JMP r` goes to the address in `r`; `JMPF r` and `JMPB r` move forward or
/// back by it, from the byte after `r`.
pub open spec fn step_jump(s: VMState, op: Opcode) -> (VMState, bool) {
    let r = operand(s, 1);
    if r < 32 && s.registers[r] >= 0 {
        let t = s.registers[r] as int;
        let target = if op == Opcode::JMP { t } else if op == Opcode::JMPF { s.pc + 2 + t } else { s.pc + 2 - t };
        if 0 <= target <= usize::MAX {
            (VMState { pc: target, ..s }, false)
        } else {
            halt_at(s)
        }
    } else {
        halt_at(s)
    }
}

/// The signed comparison that a comparison opcode makes.
pub open spec fn compare(op: Opcode, x: i32, y: i32) -> bool {
    if op == Opcode::EQ {
        x == y
    } else if op == Opcode::NEQ {
        x != y
    } else if op == Opcode::GT {
        x > y
    } else if op == Opcode::LT {
        x < y
    } else if op == Opcode::GTQ {
        x >= y
    } else {
        x <= y
    }
}

/// `EQ`, `NEQ`, `GT`, `LT`, `GTQ`, `LTQ a b`: the flag gets the comparison of `a` and `b`.
pub open spec fn step_compare(s: VMState, op: Opcode) -> (VMState, bool) {
    let (a, b) = (operand(s, 1), operand(s, 2));
    if a < 32 && b < 32 {
        (VMState { equal_flag: compare(op, s.registers[a], s.registers[b]), ..advance(s) }, false)
    } else {
        halt_at(s)
    }
}

/// `JEQ r` jumps to the address in `r` when the flag is set, `JNEQ r` when it is not.
pub open spec fn step_branch(s: VMState, op: Opcode) -> (VMState, bool) {
    let r = operand(s, 1);
    let take = if op == Opcode::JEQ { s.equal_flag } else { !s.equal_flag };
    if r >= 32 {
        halt_at(s)
    } else if !take {
        (advance(s), false)
    } else if s.registers[r] >= 0 {
        (VMState { pc: s.registers[r] as int, ..s }, false)
    } else {
        halt_at(s)
    }
}

/// `ALOC r`: the heap grows by as many zero bytes as `r` holds.
pub open spec fn step_aloc(s: VMState) -> (VMState, bool) {
    let r = operand(s, 1);
    if r < 32 && s.registers[r] >= 0 && s.heap.len() + s.registers[r] <= usize::MAX {
        (VMState { heap: s.heap + Seq::new(s.registers[r] as nat, |i: int| 0u8), ..advance(s) }, false)
    } else {
        halt_at(s)
    }
}

/// `INC r` and `DEC r` add one to `r` or take one from it.
pub open spec fn step_incdec(s: VMState, op: Opcode) -> (VMState, bool) {
    let r = operand(s, 1);
    if r < 32 {
        let v = if op == Opcode::INC { s.registers[r] + 1 } else { s.registers[r] - 1 };
        if fits_i32(v) {
            (VMState { registers: s.registers.update(r, v as i32), ..advance(s) }, false)
        } else {
            halt_at(s)
        }
    } else {
        halt_at(s)
    }
}

/// `PRTS r`: prints the zero-terminated string that starts `r` bytes past the header.
pub open spec fn step_prts(s: VMState) -> (VMState, bool) {
    let r = operand(s, 1);
    if r < 32 && s.registers[r] >= 0 {
        (VMState {
            output: s.output + cstring_at(s.program, PIE_HEADER_LENGTH + s.registers[r]),
            ..advance(s)
        }, false)
    } else {
        halt_at(s)
    }
}

/// The state after one instruction, and whether the machine halts there.
///
/// An instruction occupies four bytes: the opcode and three operand bytes.
/// The machine halts, leaving the state as it was but for the program
/// counter, which moves past the opcode, on `HLT`, on an unrecognized
/// opcode, on an instruction cut short by the end of the program, on a
/// register number of 32 or more, on arithmetic whose result leaves `i32`, on
/// division by zero, and on a jump or allocation by a negative amount or one
/// that leaves the address range. When the counter is past the program's end
/// it halts with nothing changed.
pub open spec fn step(s: VMState) -> (VMState, bool) {
    let p = s.pc;
    if p < 0 || p >= s.program.len() {
        (s, true)
    } else if p + 4 > s.program.len() {
        halt_at(s)
    } else {
        let op = opcode_of_byte(s.program[p]);
        match op {
            Opcode::LOAD => step_load(s),
            Opcode::ADD | Opcode::SUB | Opcode::MUL => step_arith(s, op),
            Opcode::DIV => step_div(s),
            Opcode::JMP | Opcode::JMPF | Opcode::JMPB => step_jump(s, op),
            Opcode::EQ | Opcode::NEQ | Opcode::GT | Opcode::LT | Opcode::GTQ | Opcode::LTQ => step_compare(s, op),
            Opcode::JEQ | Opcode::JNEQ => step_branch(s, op),
            Opcode::ALOC => step_aloc(s),
            Opcode::INC | Opcode::DEC => step_incdec(s, op),
            Opcode::PRTS => step_prts(s),
            _ => halt_at(s),
        }
    }
}

/// The state after at most `n` instructions, and whether the machine halted.
pub open spec fn run_steps(s: VMState, n: nat) -> (VMState, bool)
    decreases n,
{
    if n == 0 {
        (s, false)
    } else {
        let (t, done) = step(s);
        if done {
            (t, true)
        } else {
            run_steps(t, (n - 1) as nat)
        }
    }
}

pub proof fn lemma_run_steps_extend(s: VMState, n: nat)
    requires
        !run_steps(s, n).1,
    ensures
        run_steps(s, n + 1) == step(run_steps(s, n).0),
    decreases n,
{
    let (t, done) = step(s);
    if n == 0 {
        assert(run_steps(t, 0) == (t, false));
    } else if !done {
        lemma_run_steps_extend(t, (n - 1) as nat);
    }
}

/// The machine: registers, program counter, program, heap, the remainder of
/// the last division, the flag set by comparisons, and the bytes printed.
#[derive(Clone)]
pub struct VM {
    pub registers: [i32; 32],
    pub pc: usize,
    pub program: Vec<u8>,
    pub heap: Vec<u8>,
    pub remainder: u32,
    pub equal_flag: bool,
    pub output: Vec<u8>,
}

impl View for VM {
    type V = VMState;

    open spec fn view(&self) -> VMState {
        VMState {
            registers: self.registers@,
            pc: self.pc as int,
            program: self.program@,
            heap: self.heap@,
            remainder: self.remainder,
            equal_flag: self.equal_flag,
            output: self.output@,
        }
    }
}

impl VM {
    /// The state of a new machine.
    pub open spec fn new_spec() -> VMState {
        VMState {
            registers: Seq::new(32, |i: int| 0i32),
            pc: START_PC as int,
            program: Seq::empty(),
            heap: Seq::empty(),
            remainder: 0,
            equal_flag: false,
            output: Seq::empty(),
        }
    }

    /// A machine with zeroed registers, an empty program and heap, and the
    /// program counter just past the header.
    pub fn new() -> (r: VM)
        ensures
            r@ == VM::new_spec(),
    {
        let r = VM {
            registers: [0i32; 32],
            pc: START_PC,
            program: Vec::new(),
            heap: Vec::new(),
            remainder: 0,
            equal_flag: false,
            output: Vec::new(),
        };
        assert(r.registers@ =~= Seq::new(32, |i: int| 0i32));
        assert(r.program@ =~= Seq::<u8>::empty());
        assert(r.heap@ =~= Seq::<u8>::empty());
        assert(r.output@ =~= Seq::<u8>::empty());
        r
    }

    /// Runs the program until it halts. A program that does not open with the
    /// header's magic bytes is not run. The run also stops, unhalted, after
    /// `usize::MAX` instructions.
    pub fn run(&mut self)
        ensures
            !has_pie_prefix(old(self)@.program) ==> final(self)@ == old(self)@,
            has_pie_prefix(old(self)@.program) ==> exists|n: nat|
                #![trigger run_steps(old(self)@, n)]
                run_steps(old(self)@, n).0 == final(self)@ && (run_steps(old(self)@, n).1 || n == usize::MAX),
    {
        if !self.verify_header() {
            return;
        }
        let ghost start = self@;
        let mut steps: usize = 0;
        let mut done = false;
        assert(run_steps(start, 0) == (self@, false));
        while !done && steps < usize::MAX
            invariant
                run_steps(start, steps as nat) == (self@, done),
            decreases usize::MAX - steps,
        {
            proof {
                lemma_run_steps_extend(start, steps as nat);
            }
            done = self.execute_instruction();
            steps = steps + 1;
        }
        assert(run_steps(start, steps as nat).0 == self@);
    }

    /// Executes one instruction.
    pub fn run_once(&mut self)
        ensures
            final(self)@ == step(old(self)@).0,
    {
        self.execute_instruction();
    }

    /// Executes the instruction at the program counter, as `step` says, and
    /// tells whether the machine halts.
    fn execute_instruction(&mut self) -> (done: bool)
        ensures
            (final(self)@, done) == step(old(self)@),
    {
        let len = self.program.len();
        if self.pc >= len {
            return true;
        }
        let op = Opcode::from(self.program[self.pc]);
        if len - self.pc < 4 {
            self.pc = self.pc + 1;
            return true;
        }
        match op {
            Opcode::LOAD => self.exec_load(),
            Opcode::ADD | Opcode::SUB | Opcode::MUL => self.exec_arith(op),
            Opcode::DIV => self.exec_div(),
            Opcode::JMP | Opcode::JMPF | Opcode::JMPB => self.exec_jump(op),
            Opcode::EQ | Opcode::NEQ | Opcode::GT | Opcode::LT | Opcode::GTQ | Opcode::LTQ => self.exec_compare(op),
            Opcode::JEQ | Opcode::JNEQ => self.exec_branch(op),
            Opcode::ALOC => self.exec_aloc(),
            Opcode::INC | Opcode::DEC => self.exec_incdec(op),
            Opcode::PRTS => self.exec_prts(),
            _ => {
                self.pc = self.pc + 1;
                true
            },
        }
    }

    fn exec_load(&mut self) -> (done: bool)
        requires
            old(self).pc + 4 <= old(self).program@.len(),
        ensures
            (final(self)@, done) == step_load(old(self)@),
    {
        let p = self.pc;
        assert(p + 4 <= self.program.len());
        let r = self.program[p + 1];
        if r >= 32 {
            self.pc = p + 1;
            return true;
        }
        let n = (self.program[p + 2] as i32) * 256 + (self.program[p + 3] as i32);
        self.registers[r as usize] = n;
        self.pc = p + 4;
        false
    }

    fn exec_arith(&mut self, op: Opcode) -> (done: bool)
        requires
            old(self).pc + 4 <= old(self).program@.len(),
        ensures
            (final(self)@, done) == step_arith(old(self)@, op),
    {
        let p = self.pc;
        assert(p + 4 <= self.program.len());
        let (a, b, d) = (self.program[p + 1], self.program[p + 2], self.program[p + 3]);
        if a >= 32 || b >= 32 || d >= 32 {
            self.pc = p + 1;
            return true;
        }
        let x = self.registers[a as usize] as i64;
        let y = self.registers[b as usize] as i64;
        let v: i64 = if op == Opcode::ADD {
            x + y
        } else if op == Opcode::SUB {
            x - y
        } else {
            assert(-0x4000_0000_0000_0000 <= x * y <= 0x4000_0000_0000_0000) by (nonlinear_arith)
                requires
                    -0x8000_0000 <= x <= 0x8000_0000,
                    -0x8000_0000 <= y <= 0x8000_0000,
            ;
            x * y
        };
        if v < -0x8000_0000 || v > 0x7fff_ffff {
            self.pc = p + 1;
            return true;
        }
        self.registers[d as usize] = v as i32;
        self.pc = p + 4;
        false
    }

    fn exec_div(&mut self) -> (done: bool)
        requires
            old(self).pc + 4 <= old(self).program@.len(),
        ensures
            (final(self)@, done) == step_div(old(self)@),
    {
        let p = self.pc;
        assert(p + 4 <= self.program.len());
        let (a, b, d) = (self.program[p + 1], self.program[p + 2], self.program[p + 3]);
        if a >= 32 || b >= 32 || d >= 32 {
            self.pc = p + 1;
            return true;
        }
        let x = self.registers[a as usize] as i64;
        let y = self.registers[b as usize] as i64;
        if y == 0 {
            self.pc = p + 1;
            return true;
        }
        let ax: u64 = if x < 0 { (-x) as u64 } else { x as u64 };
        let ay: u64 = if y < 0 { (-y) as u64 } else { y as u64 };
        let q0 = ax / ay;
        let r0 = ax % ay;
        assert(q0 <= ax && r0 < ay) by (nonlinear_arith)
            requires
                q0 == ax / ay,
                r0 == ax % ay,
                ay > 0,
        ;
        let q: i64 = if (x < 0) == (y < 0) { q0 as i64 } else { -(q0 as i64) };
        let r: i64 = if x < 0 { -(r0 as i64) } else { r0 as i64 };
        if q < -0x8000_0000 || q > 0x7fff_ffff {
            self.pc = p + 1;
            return true;
        }
        self.registers[d as usize] = q as i32;
        self.remainder = if r < 0 { (r + 0x1_0000_0000) as u32 } else { r as u32 };
        self.pc = p + 4;
        false
    }

    fn exec_jump(&mut self, op: Opcode) -> (done: bool)
        requires
            old(self).pc + 4 <= old(self).program@.len(),
        ensures
            (final(self)@, done) == step_jump(old(self)@, op),
    {
        let p = self.pc;
        assert(p + 4 <= self.program.len());
        let r = self.program[p + 1];
        if r >= 32 || self.registers[r as usize] < 0 {
            self.pc = p + 1;
            return true;
        }
        let t = self.registers[r as usize] as usize;
        if op == Opcode::JMP {
            self.pc = t;
        } else if op == Opcode::JMPF {
            if t > usize::MAX - (p + 2) {
                self.pc = p + 1;
                return true;
            }
            self.pc = p + 2 + t;
        } else {
            if t > p + 2 {
                self.pc = p + 1;
                return true;
            }
            self.pc = p + 2 - t;
        }
        false
    }

    fn exec_compare(&mut self, op: Opcode) -> (done: bool)
        requires
            old(self).pc + 4 <= old(self).program@.len(),
        ensures
            (final(self)@, done) == step_compare(old(self)@, op),
    {
        let p = self.pc;
        assert(p + 4 <= self.program.len());
        let (a, b) = (self.program[p + 1], self.program[p + 2]);
        if a >= 32 || b >= 32 {
            self.pc = p + 1;
            return true;
        }
        let x = self.registers[a as usize];
        let y = self.registers[b as usize];
        self.equal_flag = if op == Opcode::EQ {
            x == y
        } else if op == Opcode::NEQ {
            x != y
        } else if op == Opcode::GT {
            x > y
        } else if op == Opcode::LT {
            x < y
        } else if op == Opcode::GTQ {
            x >= y
        } else {
            x <= y
        };
        self.pc = p + 4;
        false
    }

    fn exec_branch(&mut self, op: Opcode) -> (done: bool)
        requires
            old(self).pc + 4 <= old(self).program@.len(),
        ensures
            (final(self)@, done) == step_branch(old(self)@, op),
    {
        let p = self.pc;
        assert(p + 4 <= self.program.len());
        let r = self.program[p + 1];
        if r >= 32 {
            self.pc = p + 1;
            return true;
        }
        let take = if op == Opcode::JEQ { self.equal_flag } else { !self.equal_flag };
        let t = self.registers[r as usize];
        if !take {
            self.pc = p + 4;
            false
        } else if t >= 0 {
            self.pc = t as usize;
            false
        } else {
            self.pc = p + 1;
            true
        }
    }

    fn exec_aloc(&mut self) -> (done: bool)
        requires
            old(self).pc + 4 <= old(self).program@.len(),
        ensures
            (final(self)@, done) == step_aloc(old(self)@),
    {
        let p = self.pc;
        assert(p + 4 <= self.program.len());
        let r = self.program[p + 1];
        if r >= 32 || self.registers[r as usize] < 0 || self.heap.len() > usize::MAX
            - self.registers[r as usize] as usize {
            self.pc = p + 1;
            return true;
        }
        let n = self.registers[r as usize] as usize;
        let ghost before = self.heap@;
        let new_len = self.heap.len() + n;
        self.heap.resize(new_len, 0u8);
        assert(self.heap@ =~= before + Seq::new(n as nat, |i: int| 0u8)) by {
            assert forall|i: int| before.len() <= i < new_len implies self.heap@[i] == 0u8 by {
                assert(cloned::<u8>(0u8, self.heap@[i]));
            }
            assert forall|i: int| 0 <= i < before.len() implies self.heap@[i] == before[i] by {
                assert(self.heap@.subrange(0, before.len() as int)[i] == self.heap@[i]);
            }
        }
        self.pc = p + 4;
        false
    }

    fn exec_incdec(&mut self, op: Opcode) -> (done: bool)
        requires
            old(self).pc + 4 <= old(self).program@.len(),
        ensures
            (final(self)@, done) == step_incdec(old(self)@, op),
    {
        let p = self.pc;
        assert(p + 4 <= self.program.len());
        let r = self.program[p + 1];
        if r >= 32 {
            self.pc = p + 1;
            return true;
        }
        let x = self.registers[r as usize] as i64;
        let v: i64 = if op == Opcode::INC { x + 1 } else { x - 1 };
        if v < -0x8000_0000 || v > 0x7fff_ffff {
            self.pc = p + 1;
            return true;
        }
        self.registers[r as usize] = v as i32;
        self.pc = p + 4;
        false
    }

    fn exec_prts(&mut self) -> (done: bool)
        requires
            old(self).pc + 4 <= old(self).program@.len(),
        ensures
            (final(self)@, done) == step_prts(old(self)@),
    {
        let p = self.pc;
        assert(p + 4 <= self.program.len());
        let r = self.program[p + 1];
        if r >= 32 || self.registers[r as usize] < 0 {
            self.pc = p + 1;
            return true;
        }
        let start = PIE_HEADER_LENGTH + self.registers[r as usize] as usize;
        let ghost out0 = self.output@;
        let mut i = start;
        while i < self.program.len() && self.program[i] != 0
            invariant
                start <= i,
                i > start ==> i <= self.program@.len(),
                self.program@ == old(self)@.program,
                self.registers@ == old(self)@.registers,
                self.pc == p,
                self.heap@ == old(self)@.heap,
                self.remainder == old(self).remainder,
                self.equal_flag == old(self).equal_flag,
                out0 == old(self)@.output,
                out0 + cstring_at(self.program@, start as int) == self.output@ + cstring_at(
                    self.program@,
                    i as int,
                ),
            decreases self.program@.len() - i,
        {
            let c = self.program[i];
            let ghost rest = cstring_at(self.program@, i + 1);
            assert(cstring_at(self.program@, i as int) == seq![c] + rest);
            let ghost prev = self.output@;
            self.output.push(c);
            assert(self.output@ + rest =~= prev + (seq![c] + rest));
            i = i + 1;
        }
        assert(self.output@ + cstring_at(self.program@, i as int) =~= self.output@);
        self.pc = p + 4;
        false
    }

    /// Whether the program opens with the header's magic bytes.
    pub fn verify_header(&self) -> (r: bool)
        ensures
            r == has_pie_prefix(self@.program),
    {
        check_pie_prefix(self.program.as_slice())
    }

    /// Appends a byte to the program.
    pub fn add_byte(&mut self, byte: u8)
        ensures
            final(self)@ == (VMState { program: old(self)@.program.push(byte), ..old(self)@ }),
    {
        self.program.push(byte);
    }

    /// Appends bytes to the program.
    pub fn add_bytes(&mut self, bytes: Vec<u8>)
        ensures
            final(self)@ == (VMState { program: old(self)@.program + bytes@, ..old(self)@ }),
    {
        let mut i: usize = 0;
        while i < bytes.len()
            invariant
                i <= bytes@.len(),
                self@ == (VMState { program: old(self)@.program + bytes@.subrange(0, i as int), ..old(self)@ }),
            decreases bytes@.len() - i,
        {
            self.add_byte(bytes[i]);
            assert(self@.program =~= old(self)@.program + bytes@.subrange(0, i + 1));
            i = i + 1;
        }
        assert(bytes@.subrange(0, bytes@.len() as int) =~= bytes@);
    }
}

} // verus!
