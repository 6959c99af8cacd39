//! Opcodes: their bytes and their mnemonics.

use vstd::prelude::*;

verus! {

/// The operation codes of the machine. Each one is encoded as a single byte,
/// its position in this list; `IGL` stands for any byte or mnemonic that is not
/// recognized.
#[derive(Debug, PartialEq, Eq, Structural, Clone, Copy)]
pub enum Opcode {
    HLT,
    LOAD,
    ADD,
    SUB,
    MUL,
    DIV,
    JMP,
    JMPF,
    JMPB,
    EQ,
    NEQ,
    GT,
    LT,
    GTQ,
    LTQ,
    JEQ,
    JNEQ,
    ALOC,
    INC,
    DEC,
    PRTS,
    IGL,
}

/// Number of recognized opcodes; their bytes are `0..OPCODE_COUNT`.
pub const OPCODE_COUNT: u8 = 21;

/// The opcode a byte decodes to.
pub open spec fn opcode_of_byte(b: u8) -> Opcode {
    match b {
        0 => Opcode::HLT,
        1 => Opcode::LOAD,
        2 => Opcode::ADD,
        3 => Opcode::SUB,
        4 => Opcode::MUL,
        5 => Opcode::DIV,
        6 => Opcode::JMP,
        7 => Opcode::JMPF,
        8 => Opcode::JMPB,
        9 => Opcode::EQ,
        10 => Opcode::NEQ,
        11 => Opcode::GT,
        12 => Opcode::LT,
        13 => Opcode::GTQ,
        14 => Opcode::LTQ,
        15 => Opcode::JEQ,
        16 => Opcode::JNEQ,
        17 => Opcode::ALOC,
        18 => Opcode::INC,
        19 => Opcode::DEC,
        20 => Opcode::PRTS,
        _ => Opcode::IGL,
    }
}

/// The byte an opcode is encoded as: its position in the list of variants.
pub open spec fn byte_of_opcode(op: Opcode) -> u8 {
    match op {
        Opcode::HLT => 0,
        Opcode::LOAD => 1,
        Opcode::ADD => 2,
        Opcode::SUB => 3,
        Opcode::MUL => 4,
        Opcode::DIV => 5,
        Opcode::JMP => 6,
        Opcode::JMPF => 7,
        Opcode::JMPB => 8,
        Opcode::EQ => 9,
        Opcode::NEQ => 10,
        Opcode::GT => 11,
        Opcode::LT => 12,
        Opcode::GTQ => 13,
        Opcode::LTQ => 14,
        Opcode::JEQ => 15,
        Opcode::JNEQ => 16,
        Opcode::ALOC => 17,
        Opcode::INC => 18,
        Opcode::DEC => 19,
        Opcode::PRTS => 20,
        Opcode::IGL => 21,
    }
}

/// The lower-case mnemonic of an opcode (empty for `IGL`).
pub open spec fn mnemonic(op: Opcode) -> Seq<char> {
    match op {
        Opcode::HLT => seq!['h', 'l', 't'],
        Opcode::LOAD => seq!['l', 'o', 'a', 'd'],
        Opcode::ADD => seq!['a', 'd', 'd'],
        Opcode::SUB => seq!['s', 'u', 'b'],
        Opcode::MUL => seq!['m', 'u', 'l'],
        Opcode::DIV => seq!['d', 'i', 'v'],
        Opcode::JMP => seq!['j', 'm', 'p'],
        Opcode::JMPF => seq!['j', 'm', 'p', 'f'],
        Opcode::JMPB => seq!['j', 'm', 'p', 'b'],
        Opcode::EQ => seq!['e', 'q'],
        Opcode::NEQ => seq!['n', 'e', 'q'],
        Opcode::GT => seq!['g', 't'],
        Opcode::LT => seq!['l', 't'],
        Opcode::GTQ => seq!['g', 't', 'q'],
        Opcode::LTQ => seq!['l', 't', 'q'],
        Opcode::JEQ => seq!['j', 'e', 'q'],
        Opcode::JNEQ => seq!['j', 'n', 'e', 'q'],
        Opcode::ALOC => seq!['a', 'l', 'o', 'c'],
        Opcode::INC => seq!['i', 'n', 'c'],
        Opcode::DEC => seq!['d', 'e', 'c'],
        Opcode::PRTS => seq!['p', 'r', 't', 's'],
        Opcode::IGL => Seq::empty(),
    }
}

/// ASCII upper-case letters folded to lower case; every other character kept.
pub open spec fn fold_char(c: char) -> char {
    if 'A' <= c && c <= 'Z' {
        ((c as u8) + 32) as char
    } else {
        c
    }
}

/// ASCII lower-case letters raised to upper case; every other character kept.
pub open spec fn raise_char(c: char) -> char {
    if 'a' <= c && c <= 'z' {
        ((c as u8) - 32) as char
    } else {
        c
    }
}

pub open spec fn fold_seq(s: Seq<char>) -> Seq<char> {
    s.map_values(|c: char| fold_char(c))
}

pub open spec fn raise_seq(s: Seq<char>) -> Seq<char> {
    s.map_values(|c: char| raise_char(c))
}

/// The opcode that a mnemonic names, whatever the case of its letters:
/// the recognized opcode whose mnemonic is the text in lower case, else `IGL`.
pub open spec fn opcode_of_text(s: Seq<char>) -> Opcode {
    if exists|x: Opcode| x != Opcode::IGL && #[trigger] mnemonic(x) == fold_seq(s) {
        choose|x: Opcode| x != Opcode::IGL && #[trigger] mnemonic(x) == fold_seq(s)
    } else {
        Opcode::IGL
    }
}

impl vstd::std_specs::convert::FromSpecImpl<u8> for Opcode {
    open spec fn obeys_from_spec() -> bool {
        true
    }

    open spec fn from_spec(v: u8) -> Opcode {
        opcode_of_byte(v)
    }
}

impl From<u8> for Opcode {
    fn from(v: u8) -> (r: Opcode)
        ensures
            r == opcode_of_byte(v),
    {
        match v {
            0 => Opcode::HLT,
            1 => Opcode::LOAD,
            2 => Opcode::ADD,
            3 => Opcode::SUB,
            4 => Opcode::MUL,
            5 => Opcode::DIV,
            6 => Opcode::JMP,
            7 => Opcode::JMPF,
            8 => Opcode::JMPB,
            9 => Opcode::EQ,
            10 => Opcode::NEQ,
            11 => Opcode::GT,
            12 => Opcode::LT,
            13 => Opcode::GTQ,
            14 => Opcode::LTQ,
            15 => Opcode::JEQ,
            16 => Opcode::JNEQ,
            17 => Opcode::ALOC,
            18 => Opcode::INC,
            19 => Opcode::DEC,
            20 => Opcode::PRTS,
            _ => Opcode::IGL,
        }
    }
}

impl Opcode {
    /// The byte this opcode is encoded as.
    pub fn to_byte(self) -> (r: u8)
        ensures
            r == byte_of_opcode(self),
    {
        match self {
            Opcode::HLT => 0,
            Opcode::LOAD => 1,
            Opcode::ADD => 2,
            Opcode::SUB => 3,
            Opcode::MUL => 4,
            Opcode::DIV => 5,
            Opcode::JMP => 6,
            Opcode::JMPF => 7,
            Opcode::JMPB => 8,
            Opcode::EQ => 9,
            Opcode::NEQ => 10,
            Opcode::GT => 11,
            Opcode::LT => 12,
            Opcode::GTQ => 13,
            Opcode::LTQ => 14,
            Opcode::JEQ => 15,
            Opcode::JNEQ => 16,
            Opcode::ALOC => 17,
            Opcode::INC => 18,
            Opcode::DEC => 19,
            Opcode::PRTS => 20,
            Opcode::IGL => 21,
        }
    }

    /// The opcode named by a mnemonic, compared without regard to case;
    /// `IGL` where no opcode has that mnemonic.
    pub fn from_text(s: &str) -> (r: Opcode)
        ensures
            r == opcode_of_text(s@),
    {
        let cs = crate::text::chars_of(s);
        Opcode::from_chars(&cs)
    }

    /// As `from_text`, on a slice of characters.
    pub fn from_chars(s: &[char]) -> (r: Opcode)
        ensures
            r == opcode_of_text(s@),
    {
        let mut lower: Vec<char> = Vec::new();
        let mut i: usize = 0;
        while i < s.len()
            invariant
                i <= s@.len(),
                lower@ == fold_seq(s@.subrange(0, i as int)),
            decreases s@.len() - i,
        {
            lower.push(fold_ascii(s[i]));
            assert(fold_seq(s@.subrange(0, i + 1)) =~= fold_seq(s@.subrange(0, i as int)).push(
                fold_char(s@[i as int]),
            ));
            i = i + 1;
        }
        assert(s@.subrange(0, s@.len() as int) =~= s@);
        let mut b: u8 = 0;
        while b < OPCODE_COUNT
            invariant
                b <= 21,
                lower@ == fold_seq(s@),
                forall|k: u8| k < b ==> mnemonic(#[trigger] opcode_of_byte(k)) != lower@,
            decreases 21 - b,
        {
            let op = Opcode::from(b);
            let m = mnemonic_chars(op);
            if eq_chars(&m, &lower) {
                proof {
                    let x = choose|x: Opcode| x != Opcode::IGL && #[trigger] mnemonic(x) == fold_seq(s@);
                    lemma_mnemonic_injective(x, op);
                }
                return op;
            }
            b = b + 1;
        }
        proof {
            if exists|x: Opcode| x != Opcode::IGL && #[trigger] mnemonic(x) == fold_seq(s@) {
                let x = choose|x: Opcode| x != Opcode::IGL && #[trigger] mnemonic(x) == fold_seq(s@);
                lemma_byte_round_trip(x);
                assert(mnemonic(opcode_of_byte(byte_of_opcode(x))) != lower@);
            }
        }
        Opcode::IGL
    }
}

/// `fold_char` on one character.
pub fn fold_ascii(c: char) -> (r: char)
    ensures
        r == fold_char(c),
{
    if 'A' <= c && c <= 'Z' {
        ((c as u8) + 32) as char
    } else {
        c
    }
}

/// The mnemonic of an opcode, as characters.
fn mnemonic_chars(op: Opcode) -> (r: Vec<char>)
    ensures
        r@ == mnemonic(op),
{
    match op {
        Opcode::HLT => vec!['h', 'l', 't'],
        Opcode::LOAD => vec!['l', 'o', 'a', 'd'],
        Opcode::ADD => vec!['a', 'd', 'd'],
        Opcode::SUB => vec!['s', 'u', 'b'],
        Opcode::MUL => vec!['m', 'u', 'l'],
        Opcode::DIV => vec!['d', 'i', 'v'],
        Opcode::JMP => vec!['j', 'm', 'p'],
        Opcode::JMPF => vec!['j', 'm', 'p', 'f'],
        Opcode::JMPB => vec!['j', 'm', 'p', 'b'],
        Opcode::EQ => vec!['e', 'q'],
        Opcode::NEQ => vec!['n', 'e', 'q'],
        Opcode::GT => vec!['g', 't'],
        Opcode::LT => vec!['l', 't'],
        Opcode::GTQ => vec!['g', 't', 'q'],
        Opcode::LTQ => vec!['l', 't', 'q'],
        Opcode::JEQ => vec!['j', 'e', 'q'],
        Opcode::JNEQ => vec!['j', 'n', 'e', 'q'],
        Opcode::ALOC => vec!['a', 'l', 'o', 'c'],
        Opcode::INC => vec!['i', 'n', 'c'],
        Opcode::DEC => vec!['d', 'e', 'c'],
        Opcode::PRTS => vec!['p', 'r', 't', 's'],
        Opcode::IGL => Vec::new(),
    }
}

/// Whether two character sequences are equal.
pub fn eq_chars(a: &[char], b: &[char]) -> (r: bool)
    ensures
        r == (a@ == b@),
{
    if a.len() != b.len() {
        return false;
    }
    let mut i: usize = 0;
    while i < a.len()
        invariant
            a@.len() == b@.len(),
            i <= a@.len(),
            forall|k: int| 0 <= k < i ==> a@[k] == b@[k],
        decreases a@.len() - i,
    {
        if a[i] != b[i] {
            return false;
        }
        i = i + 1;
    }
    assert(a@ =~= b@);
    true
}

/// Decoding the encoding of a recognized opcode gives it back.
pub proof fn lemma_byte_round_trip(op: Opcode)
    requires
        op != Opcode::IGL,
    ensures
        opcode_of_byte(byte_of_opcode(op)) == op,
        byte_of_opcode(op) < 21,
{
}

/// Every byte outside `0..21` decodes to `IGL`.
pub proof fn lemma_total_decode(b: u8)
    requires
        b >= 21,
    ensures
        opcode_of_byte(b) == Opcode::IGL,
{
}

/// Distinct opcodes have distinct mnemonics.
proof fn lemma_mnemonic_injective(x: Opcode, y: Opcode)
    requires
        mnemonic(x) == mnemonic(y),
    ensures
        x == y,
{
    let mx = mnemonic(x);
    let my = mnemonic(y);
    assert(mx.len() == my.len());
    if mx.len() > 0 {
        assert(mx[0] == my[0]);
        assert(mx[mx.len() - 1] == my[my.len() - 1]);
    }
}

/// A mnemonic names its opcode when written in lower case or in upper case,
/// and the opcode's byte decodes back to it.
pub proof fn lemma_opcode_round_trip(op: Opcode)
    requires
        op != Opcode::IGL,
    ensures
        opcode_of_byte(byte_of_opcode(op)) == op,
        opcode_of_text(mnemonic(op)) == op,
        opcode_of_text(raise_seq(mnemonic(op))) == op,
{
    let m = mnemonic(op);
    assert forall|i: int| 0 <= i < m.len() implies 'a' <= #[trigger] m[i] <= 'z' by {}
    assert(fold_seq(m) =~= m);
    assert(fold_seq(raise_seq(m)) =~= m);
    let x = choose|x: Opcode| x != Opcode::IGL && #[trigger] mnemonic(x) == m;
    lemma_mnemonic_injective(x, op);
}

/// An instruction of the machine, by its opcode.
#[derive(Debug, PartialEq, Eq, Structural)]
pub struct Instruction {
    pub opcode: Opcode,
}

impl Instruction {
    pub fn new(opcode: Opcode) -> (r: Instruction)
        ensures
            r.opcode == opcode,
    {
        Instruction { opcode }
    }
}

} // verus!
