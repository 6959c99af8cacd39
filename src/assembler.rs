//! The two-pass assembler: the first pass gathers labels, sections and string
//! constants; the second encodes instruction rows, four bytes each.

use vstd::prelude::*;
use vstd::string::StrSliceExecFns;
use vstd::utf8::encode_utf8;
use crate::header::{pie_header, pie_prefix, write_pie_header};
use crate::instruction::{byte_of_opcode, Opcode};
use crate::parser::{lemma_rows_len, parse_program, spec_program};
use crate::symbols::{has_name, value_of, with_offset, SymView, Symbol, SymbolTable, SymbolType};
use crate::text::{chars_of, str_eq};
use crate::token::{rows_view, AssemblerInstruction, Program, RowView, Token, TokenView};

verus! {

/// The pass an `Assembler` is in.
#[derive(Debug, PartialEq, Eq, Structural, Clone, Copy)]
pub enum AssemblerPhase {
    First,
    Second,
}

impl Default for AssemblerPhase {
    fn default() -> (r: AssemblerPhase)
        ensures
            r == AssemblerPhase::First,
    {
        AssemblerPhase::First
    }
}

/// A section of a program, as declared by a section header.
#[derive(Debug, PartialEq, Eq, Structural, Clone, Copy)]
pub enum AssemblerSection {
    Data { starting_instruction: Option<u32> },
    Code { starting_instruction: Option<u32> },
    Unknown,
}

pub open spec fn data_name() -> Seq<char> {
    seq!['d', 'a', 't', 'a']
}

pub open spec fn code_name() -> Seq<char> {
    seq!['c', 'o', 'd', 'e']
}

pub open spec fn asciiz_name() -> Seq<char> {
    seq!['a', 's', 'c', 'i', 'i', 'z']
}

/// The section that a header name declares.
pub open spec fn section_named(name: Seq<char>) -> AssemblerSection {
    if name == data_name() {
        AssemblerSection::Data { starting_instruction: None }
    } else if name == code_name() {
        AssemblerSection::Code { starting_instruction: None }
    } else {
        AssemblerSection::Unknown
    }
}

impl AssemblerSection {
    /// The section that a header name declares: `data`, `code`, or neither.
    pub fn from_name(name: &str) -> (r: AssemblerSection)
        ensures
            r == section_named(name@),
    {
        proof {
            reveal_strlit("data");
            reveal_strlit("code");
            assert("data"@ =~= data_name());
            assert("code"@ =~= code_name());
        }
        if str_eq(name, "data") {
            AssemblerSection::Data { starting_instruction: None }
        } else if str_eq(name, "code") {
            AssemblerSection::Code { starting_instruction: None }
        } else {
            AssemblerSection::Unknown
        }
    }
}

/// The errors that assembling can report.
#[derive(Debug, PartialEq, Eq, Clone)]
pub enum AssemblerError {
    /// The text is not a well-formed program.
    ParseError { error: String },
    /// A label stands before any section header.
    NoSegmentDeclarationFound { instruction: u32 },
    /// A string constant has no label on its row.
    StringConstantDeclaredWithoutLabel { instruction: u32 },
    /// A label is declared twice.
    SymbolAlreadyDeclared,
    /// A directive with operands is not one the assembler knows.
    UnknownDirectiveFound { directive: String },
    /// The program does not declare exactly two sections.
    InsufficientSections,
    /// An instruction uses a label that has no offset.
    UnresolvedLabel { name: String },
    /// An instruction names a register the machine does not have.
    RegisterOutOfRange { register: u8 },
}

/// An error as a mathematical value; a parse error's message is left out.
pub enum ErrorView {
    Parse,
    NoSegment(u32),
    NoLabel(u32),
    Duplicate,
    UnknownDirective(Seq<char>),
    InsufficientSections,
    UnresolvedLabel(Seq<char>),
    BadRegister(u8),
}

impl View for AssemblerError {
    type V = ErrorView;

    open spec fn view(&self) -> ErrorView {
        match self {
            AssemblerError::ParseError { .. } => ErrorView::Parse,
            AssemblerError::NoSegmentDeclarationFound { instruction } => ErrorView::NoSegment(*instruction),
            AssemblerError::StringConstantDeclaredWithoutLabel { instruction } => ErrorView::NoLabel(
                *instruction,
            ),
            AssemblerError::SymbolAlreadyDeclared => ErrorView::Duplicate,
            AssemblerError::UnknownDirectiveFound { directive } => ErrorView::UnknownDirective(
                directive@,
            ),
            AssemblerError::InsufficientSections => ErrorView::InsufficientSections,
            AssemblerError::UnresolvedLabel { name } => ErrorView::UnresolvedLabel(name@),
            AssemblerError::RegisterOutOfRange { register } => ErrorView::BadRegister(*register),
        }
    }
}

impl AssemblerError {
    /// A copy of this error.
    pub fn duplicate(&self) -> (r: AssemblerError)
        ensures
            r@ == self@,
    {
        match self {
            AssemblerError::ParseError { error } => AssemblerError::ParseError { error: error.clone() },
            AssemblerError::NoSegmentDeclarationFound { instruction } => {
                AssemblerError::NoSegmentDeclarationFound { instruction: *instruction }
            },
            AssemblerError::StringConstantDeclaredWithoutLabel { instruction } => {
                AssemblerError::StringConstantDeclaredWithoutLabel { instruction: *instruction }
            },
            AssemblerError::SymbolAlreadyDeclared => AssemblerError::SymbolAlreadyDeclared,
            AssemblerError::UnknownDirectiveFound { directive } => {
                AssemblerError::UnknownDirectiveFound { directive: directive.clone() }
            },
            AssemblerError::InsufficientSections => AssemblerError::InsufficientSections,
            AssemblerError::UnresolvedLabel { name } => AssemblerError::UnresolvedLabel { name: name.clone() },
            AssemblerError::RegisterOutOfRange { register } => {
                AssemblerError::RegisterOutOfRange { register: *register }
            },
        }
    }
}

pub open spec fn errors_view(es: Seq<AssemblerError>) -> Seq<ErrorView> {
    es.map_values(|e: AssemblerError| e@)
}

/// What the first pass has gathered.
pub struct PassOne {
    pub symbols: Seq<SymView>,
    pub ro: Seq<u8>,
    pub sections: Seq<AssemblerSection>,
    pub current_section: Option<AssemblerSection>,
    pub errors: Seq<ErrorView>,
    pub code_offset: int,
}

/// The state before the first pass.
pub open spec fn pass_start() -> PassOne {
    PassOne {
        symbols: Seq::empty(),
        ro: Seq::empty(),
        sections: Seq::empty(),
        current_section: None,
        errors: Seq::empty(),
        code_offset: 0,
    }
}

pub open spec fn label_name(row: RowView) -> Option<Seq<char>> {
    match row.label {
        Some(TokenView::LabelDecl(name)) => Some(name),
        _ => None,
    }
}

pub open spec fn directive_name(row: RowView) -> Option<Seq<char>> {
    match row.directive {
        Some(TokenView::Directive(name)) => Some(name),
        _ => None,
    }
}

/// The opcode of an instruction row.
pub open spec fn opcode_of_row(row: RowView) -> Option<Opcode> {
    match row.opcode {
        Some(TokenView::Op(code)) => Some(code),
        _ => None,
    }
}

pub open spec fn has_operands(row: RowView) -> bool {
    row.operand1 is Some || row.operand2 is Some || row.operand3 is Some
}

/// Where the next string constant goes in the read-only data.
pub open spec fn ro_offset(ro: Seq<u8>) -> u32 {
    (ro.len() % 0x1_0000_0000) as u32
}

/// A label declaration on row `idx`: it needs a section before it and a name
/// not yet taken; it names the code position of the row.
pub open spec fn declare_label(st: PassOne, row: RowView, idx: u32) -> PassOne {
    match label_name(row) {
        None => st,
        Some(name) => if st.current_section is None {
            PassOne { errors: st.errors.push(ErrorView::NoSegment(idx)), ..st }
        } else if has_name(st.symbols, name) {
            PassOne { errors: st.errors.push(ErrorView::Duplicate), ..st }
        } else {
            PassOne {
                symbols: st.symbols.push(
                    SymView { name, offset: Some(st.code_offset as u32), symbol_type: SymbolType::Label },
                ),
                ..st
            }
        },
    }
}

/// `.asciiz 'text'` on row `idx`: the row's label names the place where the
/// text goes in the read-only data, followed by a zero byte.
pub open spec fn declare_string(st: PassOne, row: RowView, idx: u32) -> PassOne {
    match row.operand1 {
        Some(TokenView::Str(text)) => match label_name(row) {
            Some(l) => PassOne {
                symbols: with_offset(st.symbols, l, ro_offset(st.ro)),
                ro: st.ro + encode_utf8(text) + seq![0u8],
                ..st
            },
            None => PassOne { errors: st.errors.push(ErrorView::NoLabel(idx)), ..st },
        },
        _ => st,
    }
}

/// A section header: `data` and `code` open a section; other names are skipped.
pub open spec fn declare_section(st: PassOne, name: Seq<char>) -> PassOne {
    let sec = section_named(name);
    if sec == AssemblerSection::Unknown {
        st
    } else {
        PassOne { sections: st.sections.push(sec), current_section: Some(sec), ..st }
    }
}

/// A directive on row `idx`: a section header when it has no operands, else
/// a constant declaration, of which only `asciiz` is known.
pub open spec fn handle_directive(st: PassOne, row: RowView, idx: u32) -> PassOne {
    match directive_name(row) {
        None => st,
        Some(name) => if !has_operands(row) {
            declare_section(st, name)
        } else if name == asciiz_name() {
            declare_string(st, row, idx)
        } else {
            PassOne { errors: st.errors.push(ErrorView::UnknownDirective(name)), ..st }
        },
    }
}

/// The first pass on one row, the row numbered `idx`.
pub open spec fn first_pass_row(st: PassOne, row: RowView, idx: u32) -> PassOne {
    let st2 = handle_directive(declare_label(st, row, idx), row, idx);
    if opcode_of_row(row) is Some {
        PassOne { code_offset: st2.code_offset + 4, ..st2 }
    } else {
        st2
    }
}

/// The first pass on `rows` from `st`, numbering the rows from `start`.
pub open spec fn run_first_pass(st: PassOne, rows: Seq<RowView>, start: int) -> PassOne
    decreases rows.len(),
{
    if rows.len() == 0 {
        st
    } else {
        first_pass_row(run_first_pass(st, rows.drop_last(), start), rows.last(), (start + rows.len() - 1) as u32)
    }
}

/// The first pass on a whole program.
pub open spec fn first_pass(rows: Seq<RowView>) -> PassOne {
    run_first_pass(pass_start(), rows, 0)
}

/// The bytes of one operand: a register number; the low 16 bits of an
/// integer, high byte first; the low byte of a label's offset, or zero when the
/// label has none.
pub open spec fn encode_operand(t: Option<TokenView>, syms: Seq<SymView>) -> Seq<u8> {
    match t {
        Some(TokenView::Register(r)) => seq![r],
        Some(TokenView::Integer(v)) => seq![(((v as int) % 65536) / 256) as u8, (((v as int) % 65536) % 256) as u8],
        Some(TokenView::LabelUse(name)) => seq![
            match value_of(syms, name) {
                Some(o) => (o % 256) as u8,
                None => 0u8,
            },
        ],
        _ => Seq::empty(),
    }
}

/// Bytes made exactly four long: cut after the fourth, or padded with zeros.
pub open spec fn fit4(b: Seq<u8>) -> Seq<u8> {
    if b.len() >= 4 {
        b.subrange(0, 4)
    } else {
        b + Seq::new((4 - b.len()) as nat, |i: int| 0u8)
    }
}

/// The bytes of an instruction row, always four: its opcode, then its
/// operands, padded with zeros; operand bytes that would pass the fourth byte
/// are dropped. Other rows give no bytes.
pub open spec fn encode_row(row: RowView, syms: Seq<SymView>) -> Seq<u8> {
    match opcode_of_row(row) {
        Some(op) => fit4(
            seq![byte_of_opcode(op)] + encode_operand(row.operand1, syms) + encode_operand(row.operand2, syms)
                + encode_operand(row.operand3, syms),
        ),
        None => Seq::empty(),
    }
}

/// The second pass: the bytes of every instruction row, in order.
pub open spec fn second_pass(rows: Seq<RowView>, syms: Seq<SymView>) -> Seq<u8>
    decreases rows.len(),
{
    if rows.len() == 0 {
        Seq::empty()
    } else {
        second_pass(rows.drop_last(), syms) + encode_row(rows.last(), syms)
    }
}

/// The errors that encoding an operand finds: a register number of 32 or
/// more, or a label without an offset.
pub open spec fn operand_errors(t: Option<TokenView>, syms: Seq<SymView>) -> Seq<ErrorView> {
    match t {
        Some(TokenView::Register(r)) => if r >= 32 {
            seq![ErrorView::BadRegister(r)]
        } else {
            Seq::empty()
        },
        Some(TokenView::LabelUse(name)) => if value_of(syms, name) is None {
            seq![ErrorView::UnresolvedLabel(name)]
        } else {
            Seq::empty()
        },
        _ => Seq::empty(),
    }
}

/// The errors that encoding a row finds, operand by operand.
pub open spec fn row_errors(row: RowView, syms: Seq<SymView>) -> Seq<ErrorView> {
    if opcode_of_row(row) is Some {
        operand_errors(row.operand1, syms) + operand_errors(row.operand2, syms) + operand_errors(
            row.operand3,
            syms,
        )
    } else {
        Seq::empty()
    }
}

/// The errors that encoding the rows finds, in order.
pub open spec fn emit_errors(rows: Seq<RowView>, syms: Seq<SymView>) -> Seq<ErrorView>
    decreases rows.len(),
{
    if rows.len() == 0 {
        Seq::empty()
    } else {
        emit_errors(rows.drop_last(), syms) + row_errors(rows.last(), syms)
    }
}

/// What assembling a text gives: a single parse error when the text is not a
/// program; the first pass's errors when there are any; a lone
/// `InsufficientSections` when there are not exactly two sections; the
/// errors that encoding finds when there are any; else the header, the
/// read-only data and the code.
pub open spec fn assemble_result(text: Seq<char>) -> Result<Seq<u8>, Seq<ErrorView>> {
    match spec_program(text) {
        None => Err(seq![ErrorView::Parse]),
        Some(rows) => {
            let st = first_pass(rows);
            if st.errors.len() > 0 {
                Err(st.errors)
            } else if st.sections.len() != 2 {
                Err(seq![ErrorView::InsufficientSections])
            } else if emit_errors(rows, st.symbols).len() > 0 {
                Err(emit_errors(rows, st.symbols))
            } else {
                Ok(pie_header() + st.ro + second_pass(rows, st.symbols))
            }
        },
    }
}

/// What an assembler holds after assembling a text: nothing when the text is
/// not a program; else what the first pass gathered, with
/// `InsufficientSections` added when that pass found no error but not exactly
/// two sections, or the errors that encoding finds.
pub open spec fn assemble_state(text: Seq<char>) -> PassOne {
    match spec_program(text) {
        None => pass_start(),
        Some(rows) => {
            let st = first_pass(rows);
            if st.errors.len() == 0 && st.sections.len() != 2 {
                PassOne { errors: st.errors.push(ErrorView::InsufficientSections), ..st }
            } else if st.errors.len() == 0 && emit_errors(rows, st.symbols).len() > 0 {
                PassOne { errors: emit_errors(rows, st.symbols), ..st }
            } else {
                st
            }
        },
    }
}

/// Appends `src` to `dst`.
fn push_all(dst: &mut Vec<u8>, src: &[u8])
    ensures
        final(dst)@ == old(dst)@ + src@,
{
    let mut k: usize = 0;
    while k < src.len()
        invariant
            k <= src@.len(),
            dst@ == old(dst)@ + src@.subrange(0, k as int),
        decreases src@.len() - k,
    {
        dst.push(src[k]);
        assert(dst@ =~= old(dst)@ + src@.subrange(0, k + 1));
        k = k + 1;
    }
    assert(src@.subrange(0, src@.len() as int) =~= src@);
}

/// The low 16 bits of a number in two's complement.
fn low_16_bits(v: i32) -> (r: u32)
    ensures
        r < 65536,
        r as int == (v as int) % 65536,
{
    if v >= 0 {
        (v as u32) % 65536
    } else {
        let w = (v as i64 + 0x1_0000_0000) as u32;
        proof {
            vstd::arithmetic::div_mod::lemma_mod_multiples_vanish(65536, v as int, 65536);
            assert(65536 * 65536 + v as int == w as int);
        }
        w % 65536
    }
}

/// Appends the errors that encoding one operand finds.
fn check_operand(t: &Option<Token>, symbols: &SymbolTable, errs: &mut Vec<AssemblerError>)
    ensures
        errors_view(final(errs)@) == errors_view(old(errs)@) + operand_errors(
            crate::token::opt_view(*t),
            symbols@,
        ),
{
    let ghost before = errs@;
    match t {
        Some(Token::Register { reg_num }) => {
            if *reg_num >= 32 {
                errs.push(AssemblerError::RegisterOutOfRange { register: *reg_num });
            }
        },
        Some(Token::LabelUsage { name }) => {
            if symbols.symbol_value(name.as_str()).is_none() {
                errs.push(AssemblerError::UnresolvedLabel { name: name.clone() });
            }
        },
        _ => {},
    }
    assert(errors_view(errs@) =~= errors_view(before) + operand_errors(crate::token::opt_view(*t), symbols@));
}

impl AssemblerInstruction {
    /// The bytes of this instruction row, as `encode_row` says.
    pub fn to_bytes(&self, symbols: &SymbolTable) -> (r: Vec<u8>)
        requires
            opcode_of_row(self@) is Some,
        ensures
            r@ == encode_row(self@, symbols@),
    {
        let mut results: Vec<u8> = Vec::new();
        match &self.opcode {
            Some(Token::Op { code }) => results.push(code.to_byte()),
            _ => {},
        }
        AssemblerInstruction::extract_operand(&self.operand1, symbols, &mut results);
        AssemblerInstruction::extract_operand(&self.operand2, symbols, &mut results);
        AssemblerInstruction::extract_operand(&self.operand3, symbols, &mut results);
        let ghost unpadded = results@;
        while results.len() < 4
            invariant
                unpadded.len() <= 4 ==> results@ == unpadded + Seq::new(
                    (results@.len() - unpadded.len()) as nat,
                    |i: int| 0u8,
                ),
                unpadded.len() > 4 ==> results@ == unpadded,
                results@.len() >= unpadded.len(),
                results@.len() <= 4 || results@ == unpadded,
            decreases 4 - results@.len(),
        {
            results.push(0);
            assert(results@ =~= unpadded + Seq::new((results@.len() - unpadded.len()) as nat, |i: int| 0u8));
        }
        results.truncate(4);
        assert(results@ =~= fit4(unpadded));
        results
    }

    /// Appends the bytes of one operand.
    fn extract_operand(t: &Option<Token>, symbols: &SymbolTable, results: &mut Vec<u8>)
        ensures
            final(results)@ == old(results)@ + encode_operand(crate::token::opt_view(*t), symbols@),
    {
        match t {
            Some(Token::Register { reg_num }) => {
                results.push(*reg_num);
            },
            Some(Token::IntegerOperand { value }) => {
                let low16 = low_16_bits(*value);
                results.push((low16 / 256) as u8);
                results.push((low16 % 256) as u8);
            },
            Some(Token::LabelUsage { name }) => {
                let b: u8 = match symbols.symbol_value(name.as_str()) {
                    Some(o) => (o % 256) as u8,
                    None => 0,
                };
                results.push(b);
            },
            _ => {},
        }
    }

    /// Whether the row declares a label.
    pub fn is_label(&self) -> (r: bool)
        ensures
            r == self.label.is_some(),
    {
        self.label.is_some()
    }

    /// Whether the row holds an opcode.
    pub fn is_opcode(&self) -> (r: bool)
        ensures
            r == self.opcode.is_some(),
    {
        self.opcode.is_some()
    }

    /// Whether the row holds a directive.
    pub fn is_directive(&self) -> (r: bool)
        ensures
            r == self.directive.is_some(),
    {
        self.directive.is_some()
    }

    /// Whether the row has any operand.
    pub fn has_operands(&self) -> (r: bool)
        ensures
            r == has_operands(self@),
    {
        self.operand1.is_some() || self.operand2.is_some() || self.operand3.is_some()
    }
}

/// A two-pass assembler: the first pass gathers labels, sections and string
/// constants; the second turns instruction rows into bytecode.
#[derive(Debug)]
pub struct Assembler {
    /// The pass the assembler is in.
    pub phase: AssemblerPhase,
    /// The labels declared so far.
    pub symbols: SymbolTable,
    /// The read-only data: string constants.
    pub ro: Vec<u8>,
    /// The image of the last text that assembled without errors.
    pub bytecode: Vec<u8>,
    /// The sections declared so far.
    pub sections: Vec<AssemblerSection>,
    /// The section the rows belong to.
    pub current_section: Option<AssemblerSection>,
    /// The number of the row being read.
    pub current_instruction: u32,
    /// The code position of the row being read.
    pub code_offset: u32,
    /// The errors found so far.
    pub errors: Vec<AssemblerError>,
}

impl Assembler {
    /// What the first pass has gathered, as mathematical values.
    pub open spec fn state(&self) -> PassOne {
        PassOne {
            symbols: self.symbols@,
            ro: self.ro@,
            sections: self.sections@,
            current_section: self.current_section,
            errors: errors_view(self.errors@),
            code_offset: self.code_offset as int,
        }
    }

    pub fn new() -> (r: Assembler)
        ensures
            r.state() == pass_start(),
            r.phase == AssemblerPhase::First,
            r.current_instruction == 0,
            r.bytecode@.len() == 0,
    {
        let r = Assembler {
            phase: AssemblerPhase::First,
            symbols: SymbolTable::new(),
            ro: Vec::new(),
            bytecode: Vec::new(),
            sections: Vec::new(),
            current_section: None,
            current_instruction: 0,
            code_offset: 0,
            errors: Vec::new(),
        };
        assert(r.state().symbols =~= Seq::<SymView>::empty());
        assert(r.state().errors =~= Seq::<ErrorView>::empty());
        r
    }

    /// Assembles a program text into bytecode, as `assemble_result` says.
    /// The assembler starts afresh on each text.
    pub fn assemble(&mut self, raw: &str) -> (r: Result<Vec<u8>, Vec<AssemblerError>>)
        requires
            raw@.len() < 0x4000_0000,
        ensures
            match r {
                Ok(b) => assemble_result(raw@) == Ok::<Seq<u8>, Seq<ErrorView>>(b@),
                Err(es) => assemble_result(raw@) == Err::<Seq<u8>, Seq<ErrorView>>(errors_view(es@)),
            },
            final(self).state() == assemble_state(raw@),
            r is Ok ==> final(self).bytecode@ == r->Ok_0@,
            r is Ok ==> final(self).phase == AssemblerPhase::Second,
            r is Ok ==> final(self).current_instruction == spec_program(raw@)->Some_0.len(),
    {
        *self = Assembler::new();
        let cs = chars_of(raw);
        match parse_program(cs.as_slice()) {
            None => {
                let e = AssemblerError::ParseError { error: "the text is not a well-formed program".to_owned() };
                let es = vec![e];
                assert(errors_view(es@) =~= seq![ErrorView::Parse]);
                Err(es)
            },
            Some(program) => {
                proof {
                    lemma_rows_len(cs@, 0);
                    assert(rows_view(program.instructions@).len() == program.instructions@.len());
                }
                let mut assembled = self.write_pie_header();
                self.process_first_phase(&program);
                assert(rows_view(program.instructions@) == spec_program(raw@)->Some_0);
                if self.errors.len() > 0 {
                    return Err(self.copy_errors());
                }
                if self.sections.len() != 2 {
                    self.push_error(AssemblerError::InsufficientSections);
                    let es = vec![AssemblerError::InsufficientSections];
                    assert(errors_view(es@) =~= seq![ErrorView::InsufficientSections]);
                    return Err(es);
                }
                let emit = self.emit_errors_of(&program);
                if emit.len() > 0 {
                    self.errors = emit;
                    return Err(self.copy_errors());
                }
                let body = self.process_second_phase(&program);
                push_all(&mut assembled, self.ro.as_slice());
                push_all(&mut assembled, body.as_slice());
                let mut image: Vec<u8> = Vec::new();
                push_all(&mut image, assembled.as_slice());
                self.bytecode = image;
                Ok(assembled)
            },
        }
    }

    /// The errors that encoding the rows of `p` finds, as `emit_errors` says.
    fn emit_errors_of(&self, p: &Program) -> (r: Vec<AssemblerError>)
        ensures
            errors_view(r@) == emit_errors(rows_view(p.instructions@), self.symbols@),
    {
        let ghost rows = rows_view(p.instructions@);
        let mut errs: Vec<AssemblerError> = Vec::new();
        let mut k: usize = 0;
        assert(rows.subrange(0, 0) =~= Seq::<RowView>::empty());
        assert(errors_view(errs@) =~= Seq::<ErrorView>::empty());
        while k < p.instructions.len()
            invariant
                k <= p.instructions@.len(),
                rows == rows_view(p.instructions@),
                errors_view(errs@) == emit_errors(rows.subrange(0, k as int), self.symbols@),
            decreases p.instructions@.len() - k,
        {
            let row = &p.instructions[k];
            assert(rows.subrange(0, k + 1).drop_last() =~= rows.subrange(0, k as int));
            assert(rows.subrange(0, k + 1).last() == row@);
            match &row.opcode {
                Some(Token::Op { .. }) => {
                    check_operand(&row.operand1, &self.symbols, &mut errs);
                    check_operand(&row.operand2, &self.symbols, &mut errs);
                    check_operand(&row.operand3, &self.symbols, &mut errs);
                    assert(errors_view(errs@) =~= emit_errors(rows.subrange(0, k + 1), self.symbols@));
                },
                _ => {
                    assert(errors_view(errs@) =~= emit_errors(rows.subrange(0, k + 1), self.symbols@));
                },
            }
            k = k + 1;
        }
        assert(rows.subrange(0, k as int) =~= rows);
        errs
    }

    /// A copy of the errors found so far.
    fn copy_errors(&self) -> (r: Vec<AssemblerError>)
        ensures
            errors_view(r@) == errors_view(self.errors@),
    {
        let mut r: Vec<AssemblerError> = Vec::new();
        let mut k: usize = 0;
        while k < self.errors.len()
            invariant
                k <= self.errors@.len(),
                errors_view(r@) == errors_view(self.errors@.subrange(0, k as int)),
            decreases self.errors@.len() - k,
        {
            let ghost prev = r@;
            r.push(self.errors[k].duplicate());
            assert(errors_view(r@) =~= errors_view(prev).push(self.errors@[k as int]@));
            assert(errors_view(self.errors@.subrange(0, k + 1)) =~= errors_view(
                self.errors@.subrange(0, k as int),
            ).push(self.errors@[k as int]@));
            k = k + 1;
        }
        assert(self.errors@.subrange(0, self.errors@.len() as int) =~= self.errors@);
        r
    }

    /// The first pass over a program: labels, section headers and constant
    /// declarations, row by row, as `run_first_pass` says.
    pub fn process_first_phase(&mut self, p: &Program)
        requires
            old(self).current_instruction + p.instructions@.len() < u32::MAX,
            old(self).code_offset + 4 * p.instructions@.len() <= u32::MAX,
        ensures
            final(self).state() == run_first_pass(
                old(self).state(),
                rows_view(p.instructions@),
                old(self).current_instruction as int,
            ),
            final(self).phase == AssemblerPhase::Second,
            final(self).current_instruction == old(self).current_instruction + p.instructions@.len(),
    {
        let ghost st0 = self.state();
        let ghost c0 = self.current_instruction;
        let ghost o0 = self.code_offset;
        let ghost rows = rows_view(p.instructions@);
        self.phase = AssemblerPhase::First;
        let mut k: usize = 0;
        assert(rows.subrange(0, 0) =~= Seq::<RowView>::empty());
        while k < p.instructions.len()
            invariant
                k <= p.instructions@.len(),
                rows == rows_view(p.instructions@),
                self.state() == run_first_pass(st0, rows.subrange(0, k as int), c0 as int),
                self.current_instruction == c0 + k,
                self.code_offset <= o0 + 4 * k,
                c0 + p.instructions@.len() < u32::MAX,
                o0 + 4 * p.instructions@.len() <= u32::MAX,
                self.phase == AssemblerPhase::First,
            decreases p.instructions@.len() - k,
        {
            let row = &p.instructions[k];
            self.process_label_declaration(row);
            self.process_directive(row);
            match &row.opcode {
                Some(Token::Op { .. }) => {
                    self.code_offset = self.code_offset + 4;
                },
                _ => {},
            }
            assert(rows.subrange(0, k + 1).drop_last() =~= rows.subrange(0, k as int));
            assert(rows.subrange(0, k + 1).last() == row@);
            self.current_instruction = self.current_instruction + 1;
            k = k + 1;
        }
        assert(rows.subrange(0, k as int) =~= rows);
        self.phase = AssemblerPhase::Second;
    }

    /// The second pass: the bytes of each instruction row, in order.
    pub fn process_second_phase(&mut self, p: &Program) -> (r: Vec<u8>)
        requires
            p.instructions@.len() <= u32::MAX,
        ensures
            r@ == second_pass(rows_view(p.instructions@), old(self).symbols@),
            final(self).state() == old(self).state(),
            final(self).phase == old(self).phase,
            final(self).bytecode == old(self).bytecode,
            final(self).current_instruction == p.instructions@.len(),
    {
        let code = p.to_bytes(&self.symbols);
        self.current_instruction = p.instructions.len() as u32;
        code
    }

    /// A label declaration, as `declare_label` says.
    fn process_label_declaration(&mut self, i: &AssemblerInstruction)
        ensures
            final(self).state() == declare_label(old(self).state(), i@, old(self).current_instruction),
            final(self).phase == old(self).phase,
            final(self).current_instruction == old(self).current_instruction,
    {
        match &i.label {
            Some(Token::LabelDeclaration { name }) => {
                if self.current_section.is_none() {
                    self.push_error(AssemblerError::NoSegmentDeclarationFound { instruction: self.current_instruction });
                } else if self.symbols.has_symbol(name.as_str()) {
                    self.push_error(AssemblerError::SymbolAlreadyDeclared);
                } else {
                    let sym = Symbol::new_with_offset(name.clone(), SymbolType::Label, self.code_offset);
                    self.symbols.add_symbol(sym);
                }
            },
            _ => {},
        }
    }

    fn push_error(&mut self, e: AssemblerError)
        ensures
            final(self).state() == (PassOne { errors: old(self).state().errors.push(e@), ..old(self).state() }),
            final(self).phase == old(self).phase,
            final(self).current_instruction == old(self).current_instruction,
    {
        self.errors.push(e);
        assert(errors_view(self.errors@) =~= errors_view(old(self).errors@).push(e@));
    }

    /// A directive, as `handle_directive` says.
    fn process_directive(&mut self, i: &AssemblerInstruction)
        ensures
            final(self).state() == handle_directive(old(self).state(), i@, old(self).current_instruction),
            final(self).phase == old(self).phase,
            final(self).current_instruction == old(self).current_instruction,
    {
        match &i.directive {
            Some(Token::Directive { name }) => {
                if !i.has_operands() {
                    self.process_section_header(name.as_str());
                } else {
                    proof {
                        reveal_strlit("asciiz");
                        assert("asciiz"@ =~= asciiz_name());
                    }
                    if str_eq(name.as_str(), "asciiz") {
                        self.handle_asciiz(i);
                    } else {
                        self.push_error(AssemblerError::UnknownDirectiveFound { directive: name.clone() });
                    }
                }
            },
            _ => {},
        }
    }

    /// A section header, as `declare_section` says.
    fn process_section_header(&mut self, header_name: &str)
        ensures
            final(self).state() == declare_section(old(self).state(), header_name@),
            final(self).phase == old(self).phase,
            final(self).current_instruction == old(self).current_instruction,
    {
        let new_section = AssemblerSection::from_name(header_name);
        if new_section == AssemblerSection::Unknown {
            return;
        }
        self.sections.push(new_section);
        self.current_section = Some(new_section);
    }

    /// A string constant, as `declare_string` says.
    fn handle_asciiz(&mut self, i: &AssemblerInstruction)
        ensures
            final(self).state() == declare_string(old(self).state(), i@, old(self).current_instruction),
            final(self).phase == old(self).phase,
            final(self).current_instruction == old(self).current_instruction,
    {
        match &i.operand1 {
            Some(Token::IrString { name: text }) => match &i.label {
                Some(Token::LabelDeclaration { name }) => {
                    let offset = (self.ro.len() as u64 % 0x1_0000_0000) as u32;
                    self.symbols.set_symbol_offset(name.as_str(), offset);
                    let bytes = text.as_str().as_bytes_vec();
                    push_all(&mut self.ro, bytes.as_slice());
                    self.ro.push(0);
                    assert(self.ro@ =~= old(self).ro@ + encode_utf8(text@) + seq![0u8]);
                },
                _ => {
                    self.push_error(
                        AssemblerError::StringConstantDeclaredWithoutLabel { instruction: self.current_instruction },
                    );
                },
            },
            _ => {},
        }
    }

    /// The header that opens every program image.
    pub fn write_pie_header(&self) -> (r: Vec<u8>)
        ensures
            r@ == pie_header(),
    {
        write_pie_header()
    }
}

/// Every instruction row is encoded in exactly four bytes.
pub proof fn lemma_fixed_width(row: RowView, syms: Seq<SymView>)
    requires
        opcode_of_row(row) is Some,
    ensures
        encode_row(row, syms).len() == 4,
{
}

/// The number of instruction rows in `rows`.
pub open spec fn instruction_count(rows: Seq<RowView>) -> nat
    decreases rows.len(),
{
    if rows.len() == 0 {
        0
    } else {
        instruction_count(rows.drop_last()) + if opcode_of_row(rows.last()) is Some { 1nat } else { 0nat }
    }
}

/// The code of a program takes four bytes for each instruction row.
pub proof fn lemma_code_length(rows: Seq<RowView>, syms: Seq<SymView>)
    ensures
        second_pass(rows, syms).len() == 4 * instruction_count(rows),
    decreases rows.len(),
{
    if rows.len() > 0 {
        lemma_code_length(rows.drop_last(), syms);
    }
}

/// Every program that assembles opens with the magic bytes and is at least as
/// long as the header.
pub proof fn lemma_header_presence(text: Seq<char>)
    requires
        assemble_result(text) is Ok,
    ensures
        assemble_result(text)->Ok_0.subrange(0, 4) == pie_prefix(),
        assemble_result(text)->Ok_0.len() >= 64,
{
    let b = assemble_result(text)->Ok_0;
    let rows = spec_program(text)->Some_0;
    let st = first_pass(rows);
    assert(b == pie_header() + st.ro + second_pass(rows, st.symbols));
    assert(pie_header().len() == 64);
    assert(b.subrange(0, 4) =~= pie_prefix());
}

impl Program {
    /// The bytes of every instruction row, in order, as `second_pass` says.
    pub fn to_bytes(&self, symbols: &SymbolTable) -> (r: Vec<u8>)
        ensures
            r@ == second_pass(rows_view(self.instructions@), symbols@),
    {
        let ghost rows = rows_view(self.instructions@);
        let mut program: Vec<u8> = Vec::new();
        let mut k: usize = 0;
        assert(rows.subrange(0, 0) =~= Seq::<RowView>::empty());
        while k < self.instructions.len()
            invariant
                k <= self.instructions@.len(),
                rows == rows_view(self.instructions@),
                program@ == second_pass(rows.subrange(0, k as int), symbols@),
            decreases self.instructions@.len() - k,
        {
            let row = &self.instructions[k];
            assert(rows.subrange(0, k + 1).drop_last() =~= rows.subrange(0, k as int));
            assert(rows.subrange(0, k + 1).last() == row@);
            match &row.opcode {
                Some(Token::Op { .. }) => {
                    let bytes = row.to_bytes(symbols);
                    push_all(&mut program, bytes.as_slice());
                },
                _ => {
                    assert(program@ + encode_row(row@, symbols@) =~= program@);
                },
            }
            k = k + 1;
        }
        assert(rows.subrange(0, k as int) =~= rows);
        program
    }
}

/// A program that assembles is the header, the read-only data that the
/// assembler keeps, and four bytes for each instruction row.
pub proof fn lemma_image_length(text: Seq<char>)
    requires
        assemble_result(text) is Ok,
    ensures
        assemble_result(text)->Ok_0.len() == 64 + assemble_state(text).ro.len() + 4 * instruction_count(
            spec_program(text)->Some_0,
        ),
{
    let rows = spec_program(text)->Some_0;
    let st = first_pass(rows);
    lemma_code_length(rows, st.symbols);
    assert(pie_header().len() == 64);
}

} // verus!
