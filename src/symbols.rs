//! The symbol table: declared names and their byte offsets.

use vstd::prelude::*;

verus! {

/// The kinds of symbols that a program can declare.
#[derive(Debug, PartialEq, Eq, Structural, Clone, Copy)]
pub enum SymbolType {
    /// A name given to an instruction or a constant, e.g. `test1: LOAD $0 #100`.
    Label,
    Integer,
    IrString,
}

/// A named symbol with an optional byte offset.
#[derive(Debug)]
pub struct Symbol {
    pub name: String,
    pub offset: Option<u32>,
    pub symbol_type: SymbolType,
}

impl Symbol {
    /// A symbol without an offset.
    pub fn new(name: String, symbol_type: SymbolType) -> (r: Symbol)
        ensures
            r.name@ == name@,
            r.symbol_type == symbol_type,
            r.offset.is_none(),
    {
        Symbol { name, symbol_type, offset: None }
    }

    /// A symbol at the given byte offset.
    pub fn new_with_offset(name: String, symbol_type: SymbolType, offset: u32) -> (r: Symbol)
        ensures
            r.name@ == name@,
            r.symbol_type == symbol_type,
            r.offset == Some(offset),
    {
        Symbol { name, symbol_type, offset: Some(offset) }
    }
}

/// A symbol as mathematical values.
pub struct SymView {
    pub name: Seq<char>,
    pub offset: Option<u32>,
    pub symbol_type: SymbolType,
}

impl View for Symbol {
    type V = SymView;

    open spec fn view(&self) -> SymView {
        SymView { name: self.name@, offset: self.offset, symbol_type: self.symbol_type }
    }
}

pub open spec fn syms_view(syms: Seq<Symbol>) -> Seq<SymView> {
    syms.map_values(|s: Symbol| s@)
}

/// The index of the first symbol at or after `i` whose name is `name`, or the
/// length of `syms` when there is none.
pub open spec fn first_match(syms: Seq<SymView>, name: Seq<char>, i: int) -> int
    decreases syms.len() - i,
{
    if i < 0 || i >= syms.len() {
        syms.len() as int
    } else if syms[i].name == name {
        i
    } else {
        first_match(syms, name, i + 1)
    }
}

/// Whether some symbol in `syms` is named `name`.
pub open spec fn has_name(syms: Seq<SymView>, name: Seq<char>) -> bool {
    exists|k: int| 0 <= k < syms.len() && #[trigger] syms[k].name == name
}

/// The offset of the first symbol named `name`, if there is one and it has an offset.
pub open spec fn value_of(syms: Seq<SymView>, name: Seq<char>) -> Option<u32> {
    let k = first_match(syms, name, 0);
    if k < syms.len() {
        syms[k].offset
    } else {
        None
    }
}

/// `syms` with the first symbol named `name`, if any, given the offset `offset`.
pub open spec fn with_offset(syms: Seq<SymView>, name: Seq<char>, offset: u32) -> Seq<SymView> {
    let k = first_match(syms, name, 0);
    if k < syms.len() {
        syms.update(k, SymView { offset: Some(offset), ..syms[k] })
    } else {
        syms
    }
}

pub proof fn lemma_first_match(syms: Seq<SymView>, name: Seq<char>, i: int)
    requires
        0 <= i <= syms.len(),
    ensures
        i <= first_match(syms, name, i) <= syms.len(),
        first_match(syms, name, i) < syms.len() ==> syms[first_match(syms, name, i)].name == name,
        forall|k: int| i <= k < first_match(syms, name, i) ==> #[trigger] syms[k].name != name,
    decreases syms.len() - i,
{
    if i < syms.len() && syms[i].name != name {
        lemma_first_match(syms, name, i + 1);
    }
}

/// A table of the symbols a program declares, in order of declaration.
#[derive(Debug)]
pub struct SymbolTable {
    pub symbols: Vec<Symbol>,
}

impl View for SymbolTable {
    type V = Seq<SymView>;

    open spec fn view(&self) -> Seq<SymView> {
        syms_view(self.symbols@)
    }
}

impl SymbolTable {
    pub fn new() -> (r: SymbolTable)
        ensures
            r@.len() == 0,
    {
        SymbolTable { symbols: Vec::new() }
    }

    /// Appends a symbol to the table.
    pub fn add_symbol(&mut self, s: Symbol)
        ensures
            final(self)@ == old(self)@.push(s@),
    {
        self.symbols.push(s);
        assert(syms_view(self.symbols@) =~= old(self)@.push(s@));
    }

    /// The offset of the first symbol named `s`, if it has one.
    pub fn symbol_value(&self, s: &str) -> (r: Option<u32>)
        ensures
            r == value_of(self@, s@),
    {
        let k = self.find(s);
        if k < self.symbols.len() {
            self.symbols[k].offset
        } else {
            None
        }
    }

    /// Whether a symbol named `s` is in the table.
    pub fn has_symbol(&self, s: &str) -> (r: bool)
        ensures
            r == has_name(self@, s@),
    {
        let k = self.find(s);
        proof {
            lemma_first_match(self@, s@, 0);
            if has_name(self@, s@) {
                let w = choose|w: int| 0 <= w < self@.len() && #[trigger] self@[w].name == s@;
                assert(w >= first_match(self@, s@, 0));
            }
        }
        k < self.symbols.len()
    }

    /// Gives the first symbol named `s` the offset `offset`; says whether
    /// there was such a symbol.
    pub fn set_symbol_offset(&mut self, s: &str, offset: u32) -> (r: bool)
        ensures
            r == has_name(old(self)@, s@),
            final(self)@ == with_offset(old(self)@, s@, offset),
    {
        let k = self.find(s);
        proof {
            lemma_first_match(self@, s@, 0);
            if has_name(self@, s@) {
                let w = choose|w: int| 0 <= w < self@.len() && #[trigger] self@[w].name == s@;
                assert(w >= first_match(self@, s@, 0));
            }
        }
        if k < self.symbols.len() {
            let mut sym = self.symbols.remove(k);
            sym.offset = Some(offset);
            self.symbols.insert(k, sym);
            assert(syms_view(self.symbols@) =~= with_offset(old(self)@, s@, offset));
            true
        } else {
            false
        }
    }

    /// The index of the first symbol named `s`, or the table's length.
    fn find(&self, s: &str) -> (r: usize)
        ensures
            r == first_match(self@, s@, 0),
    {
        let mut i: usize = 0;
        while i < self.symbols.len()
            invariant
                i <= self.symbols@.len(),
                first_match(self@, s@, 0) == first_match(self@, s@, i as int),
            decreases self.symbols@.len() - i,
        {
            if crate::text::str_eq(self.symbols[i].name.as_str(), s) {
                return i;
            }
            i = i + 1;
        }
        i
    }
}

} // verus!
