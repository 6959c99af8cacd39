//! A toolchain for a small register machine: a two-pass assembler that turns
//! assembly text into header-prefixed bytecode, and the machine that runs it.

pub mod assembler;
pub mod header;
pub mod instruction;
pub mod parser;
pub mod repl;
pub mod scheduler;
pub mod symbols;
mod text;
pub mod token;
pub mod vm;

use vstd::prelude::*;

verus! {

} // verus!
