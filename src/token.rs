//! Tokens and rows of assembly source, and their mathematical views.

use vstd::prelude::*;
use crate::instruction::Opcode;

verus! {

/// A token of assembly source.
#[derive(Debug, PartialEq, Eq, Clone)]
pub enum Token {
    Op { code: Opcode },
    Register { reg_num: u8 },
    IntegerOperand { value: i32 },
    LabelDeclaration { name: String },
    LabelUsage { name: String },
    Directive { name: String },
    IrString { name: String },
}

/// A token as a mathematical value.
pub enum TokenView {
    Op(Opcode),
    Register(u8),
    Integer(i32),
    LabelDecl(Seq<char>),
    LabelUse(Seq<char>),
    Directive(Seq<char>),
    Str(Seq<char>),
}

impl View for Token {
    type V = TokenView;

    open spec fn view(&self) -> TokenView {
        match self {
            Token::Op { code } => TokenView::Op(*code),
            Token::Register { reg_num } => TokenView::Register(*reg_num),
            Token::IntegerOperand { value } => TokenView::Integer(*value),
            Token::LabelDeclaration { name } => TokenView::LabelDecl(name@),
            Token::LabelUsage { name } => TokenView::LabelUse(name@),
            Token::Directive { name } => TokenView::Directive(name@),
            Token::IrString { name } => TokenView::Str(name@),
        }
    }
}

pub open spec fn opt_view(t: Option<Token>) -> Option<TokenView> {
    match t {
        Some(t) => Some(t@),
        None => None,
    }
}

/// One row of assembly: an optional label declaration, an opcode or a
/// directive, and up to three operands.
#[derive(Debug, PartialEq, Eq, Clone)]
pub struct AssemblerInstruction {
    pub opcode: Option<Token>,
    pub label: Option<Token>,
    pub directive: Option<Token>,
    pub operand1: Option<Token>,
    pub operand2: Option<Token>,
    pub operand3: Option<Token>,
}

/// A row as mathematical values.
pub struct RowView {
    pub opcode: Option<TokenView>,
    pub label: Option<TokenView>,
    pub directive: Option<TokenView>,
    pub operand1: Option<TokenView>,
    pub operand2: Option<TokenView>,
    pub operand3: Option<TokenView>,
}

impl View for AssemblerInstruction {
    type V = RowView;

    open spec fn view(&self) -> RowView {
        RowView {
            opcode: opt_view(self.opcode),
            label: opt_view(self.label),
            directive: opt_view(self.directive),
            operand1: opt_view(self.operand1),
            operand2: opt_view(self.operand2),
            operand3: opt_view(self.operand3),
        }
    }
}

/// A parsed program: its rows in source order.
#[derive(Debug, PartialEq, Eq, Clone)]
pub struct Program {
    pub instructions: Vec<AssemblerInstruction>,
}

pub open spec fn rows_view(rows: Seq<AssemblerInstruction>) -> Seq<RowView> {
    rows.map_values(|r: AssemblerInstruction| r@)
}

} // verus!
