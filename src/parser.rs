//! The grammar of assembly source, over characters and positions.

use vstd::prelude::*;
use crate::instruction::{opcode_of_text, Opcode};
use crate::text::string_of;
use crate::token::{opt_view, rows_view, AssemblerInstruction, Program, RowView, Token, TokenView};

verus! {

pub open spec fn is_ws(c: char) -> bool {
    c == ' ' || c == '\t' || c == '\n' || c == '\r'
}

pub open spec fn is_digit(c: char) -> bool {
    '0' <= c && c <= '9'
}

pub open spec fn is_ident_start(c: char) -> bool {
    ('a' <= c && c <= 'z') || ('A' <= c && c <= 'Z') || c == '_'
}

pub open spec fn is_ident_char(c: char) -> bool {
    is_ident_start(c) || is_digit(c)
}

/// The first position at or after `i` that does not hold whitespace.
pub open spec fn skip_ws(s: Seq<char>, i: int) -> int
    decreases s.len() - i,
{
    if 0 <= i < s.len() && is_ws(s[i]) {
        skip_ws(s, i + 1)
    } else {
        i
    }
}

/// The first position at or after `i` that does not hold a decimal digit.
pub open spec fn digits_end(s: Seq<char>, i: int) -> int
    decreases s.len() - i,
{
    if 0 <= i < s.len() && is_digit(s[i]) {
        digits_end(s, i + 1)
    } else {
        i
    }
}

/// The first position at or after `i` that does not hold an identifier character.
pub open spec fn ident_end(s: Seq<char>, i: int) -> int
    decreases s.len() - i,
{
    if 0 <= i < s.len() && is_ident_char(s[i]) {
        ident_end(s, i + 1)
    } else {
        i
    }
}

/// The first position at or after `i` that holds a single quote, or the end.
pub open spec fn quote_end(s: Seq<char>, i: int) -> int
    decreases s.len() - i,
{
    if 0 <= i < s.len() && s[i] != '\'' {
        quote_end(s, i + 1)
    } else {
        i
    }
}

/// The number written in decimal by the digits `s[a..b]`.
pub open spec fn dec_value(s: Seq<char>, a: int, b: int) -> int
    decreases b - a,
{
    if b <= a {
        0
    } else {
        dec_value(s, a, b - 1) * 10 + (s[b - 1] as int - '0' as int)
    }
}

/// The decimal number that starts at `i`, if there is at least one digit and
/// the number is at most `limit`; with the position after it.
pub open spec fn spec_number(s: Seq<char>, i: int, limit: int) -> Option<(int, int)> {
    let e = digits_end(s, i);
    if e > i && dec_value(s, i, e) <= limit {
        Some((dec_value(s, i, e), e))
    } else {
        None
    }
}

/// Whether an identifier starts at `i`.
pub open spec fn ident_at(s: Seq<char>, i: int) -> bool {
    0 <= i < s.len() && is_ident_start(s[i])
}

/// A label declaration `name:` at `i`: the name and the position after the colon.
pub open spec fn spec_label_decl(s: Seq<char>, i: int) -> Option<(Seq<char>, int)> {
    let e = ident_end(s, i);
    if ident_at(s, i) && e < s.len() && s[e] == ':' {
        Some((s.subrange(i, e), e + 1))
    } else {
        None
    }
}

/// The opcode (an identifier) or directive (`.` and an identifier) at `i`.
pub open spec fn spec_head(s: Seq<char>, i: int) -> Option<(TokenView, int)> {
    if 0 <= i < s.len() && s[i] == '.' && ident_at(s, i + 1) {
        Some((TokenView::Directive(s.subrange(i + 1, ident_end(s, i + 1))), ident_end(s, i + 1)))
    } else if ident_at(s, i) {
        Some((TokenView::Op(opcode_of_text(s.subrange(i, ident_end(s, i)))), ident_end(s, i)))
    } else {
        None
    }
}

/// The operand at `i`: `$` and a register number up to 255, `#` and a number
/// that fits `i32`, `@` and a label name, or a string between single quotes.
pub open spec fn spec_operand(s: Seq<char>, i: int) -> Option<(TokenView, int)> {
    if i < 0 || i >= s.len() {
        None
    } else if s[i] == '$' {
        match spec_number(s, i + 1, 255) {
            Some((v, e)) => Some((TokenView::Register(v as u8), e)),
            None => None,
        }
    } else if s[i] == '#' {
        match spec_number(s, i + 1, i32::MAX as int) {
            Some((v, e)) => Some((TokenView::Integer(v as i32), e)),
            None => None,
        }
    } else if s[i] == '@' && ident_at(s, i + 1) {
        Some((TokenView::LabelUse(s.subrange(i + 1, ident_end(s, i + 1))), ident_end(s, i + 1)))
    } else if s[i] == '\'' && quote_end(s, i + 1) < s.len() {
        Some((TokenView::Str(s.subrange(i + 1, quote_end(s, i + 1))), quote_end(s, i + 1) + 1))
    } else {
        None
    }
}

/// Up to `n` operands from `i`, each after optional whitespace; with the
/// position after the last one read.
pub open spec fn spec_operands(s: Seq<char>, i: int, n: nat) -> (Seq<TokenView>, int)
    decreases n,
{
    if n == 0 {
        (Seq::empty(), i)
    } else {
        match spec_operand(s, skip_ws(s, i)) {
            None => (Seq::empty(), i),
            Some((t, k)) => {
                let (rest, e) = spec_operands(s, k, (n - 1) as nat);
                (seq![t] + rest, e)
            },
        }
    }
}

pub open spec fn nth_or_none(ops: Seq<TokenView>, k: int) -> Option<TokenView> {
    if k < ops.len() {
        Some(ops[k])
    } else {
        None
    }
}

/// The row that starts at `i`, and the position after it and the whitespace
/// that follows it.
pub open spec fn spec_row(s: Seq<char>, i: int) -> Option<(RowView, int)> {
    let (label, j) = match spec_label_decl(s, i) {
        Some((name, e)) => (Some(TokenView::LabelDecl(name)), skip_ws(s, e)),
        None => (None, i),
    };
    match spec_head(s, j) {
        None => None,
        Some((head, k)) => {
            let (ops, e) = spec_operands(s, k, 3);
            let is_op = head is Op;
            Some((
                RowView {
                    opcode: if is_op { Some(head) } else { None },
                    label: label,
                    directive: if is_op { None } else { Some(head) },
                    operand1: nth_or_none(ops, 0),
                    operand2: nth_or_none(ops, 1),
                    operand3: nth_or_none(ops, 2),
                },
                skip_ws(s, e),
            ))
        },
    }
}

/// The rows from `i` to the end of `s`, separated and surrounded by
/// whitespace; `None` when some part of the input is not a row.
pub open spec fn spec_rows(s: Seq<char>, i: int) -> Option<Seq<RowView>>
    decreases s.len() - i,
{
    let j = skip_ws(s, i);
    if j < i || j >= s.len() {
        Some(Seq::empty())
    } else {
        match spec_row(s, j) {
            None => None,
            Some((row, k)) => if k <= j || k > s.len() {
                None
            } else {
                match spec_rows(s, k) {
                    None => None,
                    Some(rest) => Some(seq![row] + rest),
                }
            },
        }
    }
}

/// The program that a source text holds, if the whole text is rows.
pub open spec fn spec_program(s: Seq<char>) -> Option<Seq<RowView>> {
    spec_rows(s, 0)
}

pub open spec fn opt_pair_view(r: Option<(Token, usize)>) -> Option<(TokenView, int)> {
    match r {
        Some((t, k)) => Some((t@, k as int)),
        None => None,
    }
}

proof fn lemma_skip_ws(s: Seq<char>, i: int)
    requires
        0 <= i <= s.len(),
    ensures
        i <= skip_ws(s, i) <= s.len(),
    decreases s.len() - i,
{
    if i < s.len() && is_ws(s[i]) {
        lemma_skip_ws(s, i + 1);
    }
}

proof fn lemma_ident_end(s: Seq<char>, i: int)
    requires
        0 <= i <= s.len(),
    ensures
        i <= ident_end(s, i) <= s.len(),
    decreases s.len() - i,
{
    if i < s.len() && is_ident_char(s[i]) {
        lemma_ident_end(s, i + 1);
    }
}

proof fn lemma_quote_end(s: Seq<char>, i: int)
    requires
        0 <= i <= s.len(),
    ensures
        i <= quote_end(s, i) <= s.len(),
    decreases s.len() - i,
{
    if i < s.len() && s[i] != '\'' {
        lemma_quote_end(s, i + 1);
    }
}

proof fn lemma_digits_end(s: Seq<char>, i: int)
    requires
        0 <= i <= s.len(),
    ensures
        i <= digits_end(s, i) <= s.len(),
        forall|k: int| i <= k < digits_end(s, i) ==> is_digit(#[trigger] s[k]),
    decreases s.len() - i,
{
    if i < s.len() && is_digit(s[i]) {
        lemma_digits_end(s, i + 1);
    }
}

/// A longer run of digits never has a smaller value.
proof fn lemma_dec_value_grows(s: Seq<char>, a: int, b: int, c: int)
    requires
        a <= b <= c <= s.len(),
        0 <= a,
        forall|k: int| a <= k < c ==> is_digit(#[trigger] s[k]),
    ensures
        0 <= dec_value(s, a, b) <= dec_value(s, a, c),
    decreases c - a,
{
    if c > b {
        lemma_dec_value_grows(s, a, b, c - 1);
    } else if b > a {
        lemma_dec_value_grows(s, a, b - 1, b - 1);
    }
}

/// The position of the first non-whitespace character at or after `i`.
fn skip_whitespace(s: &[char], i: usize) -> (r: usize)
    requires
        i <= s@.len(),
    ensures
        r == skip_ws(s@, i as int),
        i <= r <= s@.len(),
{
    let mut j = i;
    while j < s.len() && (s[j] == ' ' || s[j] == '\t' || s[j] == '\n' || s[j] == '\r')
        invariant
            i <= j <= s@.len(),
            skip_ws(s@, i as int) == skip_ws(s@, j as int),
        decreases s@.len() - j,
    {
        j = j + 1;
    }
    j
}

fn scan_ident(s: &[char], i: usize) -> (r: usize)
    requires
        i <= s@.len(),
    ensures
        r == ident_end(s@, i as int),
        i <= r <= s@.len(),
{
    let mut j = i;
    while j < s.len() && (('a' <= s[j] && s[j] <= 'z') || ('A' <= s[j] && s[j] <= 'Z') || s[j] == '_'
        || ('0' <= s[j] && s[j] <= '9'))
        invariant
            i <= j <= s@.len(),
            ident_end(s@, i as int) == ident_end(s@, j as int),
        decreases s@.len() - j,
    {
        j = j + 1;
    }
    j
}

fn scan_quote(s: &[char], i: usize) -> (r: usize)
    requires
        i <= s@.len(),
    ensures
        r == quote_end(s@, i as int),
        i <= r <= s@.len(),
{
    let mut j = i;
    while j < s.len() && s[j] != '\''
        invariant
            i <= j <= s@.len(),
            quote_end(s@, i as int) == quote_end(s@, j as int),
        decreases s@.len() - j,
    {
        j = j + 1;
    }
    j
}

fn is_ident_start_char(c: char) -> (r: bool)
    ensures
        r == is_ident_start(c),
{
    ('a' <= c && c <= 'z') || ('A' <= c && c <= 'Z') || c == '_'
}

/// The characters `s[a..b]`.
fn chars_range(s: &[char], a: usize, b: usize) -> (r: Vec<char>)
    requires
        a <= b <= s@.len(),
    ensures
        r@ == s@.subrange(a as int, b as int),
{
    let mut cs: Vec<char> = Vec::new();
    let mut k = a;
    while k < b
        invariant
            a <= k <= b,
            b <= s@.len(),
            cs@ == s@.subrange(a as int, k as int),
        decreases b - k,
    {
        cs.push(s[k]);
        assert(cs@ =~= s@.subrange(a as int, k + 1));
        k = k + 1;
    }
    cs
}

/// The characters `s[a..b]` as a string.
fn string_of_range(s: &[char], a: usize, b: usize) -> (r: String)
    requires
        a <= b <= s@.len(),
    ensures
        r@ == s@.subrange(a as int, b as int),
{
    let cs = chars_range(s, a, b);
    string_of(cs.as_slice())
}

/// The decimal number at `i`, as `spec_number` says.
fn parse_number(s: &[char], i: usize, limit: u64) -> (r: Option<(u64, usize)>)
    requires
        i <= s@.len(),
        limit <= i32::MAX,
    ensures
        match r {
            Some((v, e)) => spec_number(s@, i as int, limit as int) == Some((v as int, e as int)) && i
                < e <= s@.len(),
            None => spec_number(s@, i as int, limit as int).is_none(),
        },
{
    proof {
        lemma_digits_end(s@, i as int);
    }
    let mut j = i;
    let mut v: u64 = 0;
    while j < s.len() && '0' <= s[j] && s[j] <= '9'
        invariant
            i <= j <= digits_end(s@, i as int),
            digits_end(s@, i as int) == digits_end(s@, j as int),
            v as int == dec_value(s@, i as int, j as int),
            v <= limit,
            limit <= i32::MAX,
            forall|k: int| i <= k < digits_end(s@, i as int) ==> is_digit(#[trigger] s@[k]),
            digits_end(s@, i as int) <= s@.len(),
        decreases s@.len() - j,
    {
        proof {
            lemma_digits_end(s@, j + 1);
        }
        let d = (s[j] as u32 - '0' as u32) as u64;
        let w = v * 10 + d;
        if w > limit {
            proof {
                lemma_dec_value_grows(s@, i as int, j + 1, digits_end(s@, i as int));
            }
            return None;
        }
        v = w;
        j = j + 1;
    }
    if j == i {
        return None;
    }
    Some((v, j))
}

/// The operand at `i`, as `spec_operand` says.
pub fn parse_operand(s: &[char], i: usize) -> (r: Option<(Token, usize)>)
    requires
        i <= s@.len(),
    ensures
        opt_pair_view(r) == spec_operand(s@, i as int),
        match r {
            Some((_, k)) => i < k <= s@.len(),
            None => true,
        },
{
    if i >= s.len() {
        return None;
    }
    let c = s[i];
    if c == '$' {
        match parse_number(s, i + 1, 255) {
            Some((v, e)) => Some((Token::Register { reg_num: v as u8 }, e)),
            None => None,
        }
    } else if c == '#' {
        match parse_number(s, i + 1, 0x7fff_ffff) {
            Some((v, e)) => Some((Token::IntegerOperand { value: v as i32 }, e)),
            None => None,
        }
    } else if c == '@' && i + 1 < s.len() && is_ident_start_char(s[i + 1]) {
        let e = scan_ident(s, i + 1);
        Some((Token::LabelUsage { name: string_of_range(s, i + 1, e) }, e))
    } else if c == '\'' {
        let e = scan_quote(s, i + 1);
        if e < s.len() {
            Some((Token::IrString { name: string_of_range(s, i + 1, e) }, e + 1))
        } else {
            None
        }
    } else {
        None
    }
}

/// The next operand after optional whitespace, if any: `spec_operands` with one to read.
fn next_operand(s: &[char], i: usize) -> (r: Option<(Token, usize)>)
    requires
        i <= s@.len(),
    ensures
        opt_pair_view(r) == spec_operand(s@, skip_ws(s@, i as int)),
        match r {
            Some((_, k)) => i < k <= s@.len(),
            None => true,
        },
{
    let j = skip_whitespace(s, i);
    parse_operand(s, j)
}

/// The row at `i`, as `spec_row` says.
pub fn parse_instruction(s: &[char], i: usize) -> (r: Option<(AssemblerInstruction, usize)>)
    requires
        i <= s@.len(),
    ensures
        match r {
            Some((row, k)) => spec_row(s@, i as int) == Some((row@, k as int)) && k <= s@.len(),
            None => spec_row(s@, i as int).is_none(),
        },
{
    // An optional label declaration.
    let mut label: Option<Token> = None;
    let mut j = i;
    if i < s.len() && is_ident_start_char(s[i]) {
        let e = scan_ident(s, i);
        if e < s.len() && s[e] == ':' {
            label = Some(Token::LabelDeclaration { name: string_of_range(s, i, e) });
            j = skip_whitespace(s, e + 1);
        }
    }
    // The opcode or directive.
    let mut opcode: Option<Token> = None;
    let mut directive: Option<Token> = None;
    let k;
    if j < s.len() && s[j] == '.' && j + 1 < s.len() && is_ident_start_char(s[j + 1]) {
        let e = scan_ident(s, j + 1);
        directive = Some(Token::Directive { name: string_of_range(s, j + 1, e) });
        k = e;
    } else if j < s.len() && is_ident_start_char(s[j]) {
        let e = scan_ident(s, j);
        let word = chars_range(s, j, e);
        let code = Opcode::from_chars(word.as_slice());
        opcode = Some(Token::Op { code });
        k = e;
    } else {
        return None;
    }
    // Up to three operands.
    let ghost ops = spec_operands(s@, k as int, 3);
    proof {
        reveal_with_fuel(spec_operands, 4);
    }
    let mut end = k;
    let mut operand1: Option<Token> = None;
    let mut operand2: Option<Token> = None;
    let mut operand3: Option<Token> = None;
    match next_operand(s, end) {
        Some((t1, e1)) => {
            operand1 = Some(t1);
            end = e1;
            match next_operand(s, end) {
                Some((t2, e2)) => {
                    operand2 = Some(t2);
                    end = e2;
                    match next_operand(s, end) {
                        Some((t3, e3)) => {
                            operand3 = Some(t3);
                            end = e3;
                            assert(spec_operands(s@, e3 as int, 0) == (Seq::<TokenView>::empty(), e3 as int));
                            assert(ops.0 =~= seq![t1@, t2@, t3@]);
                        },
                        None => {
                            assert(ops.0 =~= seq![t1@, t2@]);
                        },
                    }
                },
                None => {
                    assert(ops.0 =~= seq![t1@]);
                },
            }
        },
        None => {},
    }
    assert(ops.1 == end as int);
    assert(nth_or_none(ops.0, 0) == opt_view(operand1));
    assert(nth_or_none(ops.0, 1) == opt_view(operand2));
    assert(nth_or_none(ops.0, 2) == opt_view(operand3));
    let row = AssemblerInstruction { opcode, label, directive, operand1, operand2, operand3 };
    let end = skip_whitespace(s, end);
    Some((row, end))
}

/// `rows` put in front of the rows that `rest` holds, if it holds any.
pub open spec fn prepend(rows: Seq<RowView>, rest: Option<Seq<RowView>>) -> Option<Seq<RowView>> {
    match rest {
        Some(r) => Some(rows + r),
        None => None,
    }
}

/// The program that `s` holds, as `spec_program` says: `None` when some part of
/// the text is not a row.
pub fn parse_program(s: &[char]) -> (r: Option<Program>)
    ensures
        match r {
            Some(p) => spec_program(s@) == Some(rows_view(p.instructions@)),
            None => spec_program(s@).is_none(),
        },
{
    let mut rows: Vec<AssemblerInstruction> = Vec::new();
    let mut i: usize = 0;
    assert(rows_view(rows@) =~= Seq::<RowView>::empty());
    assert(prepend(Seq::empty(), spec_rows(s@, 0)) =~= spec_rows(s@, 0)) by {
        if let Some(r) = spec_rows(s@, 0) {
            assert(Seq::<RowView>::empty() + r =~= r);
        }
    }
    while i < s.len()
        invariant
            i <= s@.len(),
            spec_program(s@) == prepend(rows_view(rows@), spec_rows(s@, i as int)),
        decreases s@.len() - i,
    {
        let j = skip_whitespace(s, i);
        if j >= s.len() {
            assert(spec_rows(s@, i as int) == Some(Seq::<RowView>::empty()));
            assert(rows_view(rows@) + Seq::<RowView>::empty() =~= rows_view(rows@));
            return Some(Program { instructions: rows });
        }
        match parse_instruction(s, j) {
            None => {
                return None;
            },
            Some((row, k)) => {
                if k <= j {
                    return None;
                }
                let ghost before = rows_view(rows@);
                proof {
                    if let Some(rest) = spec_rows(s@, k as int) {
                        assert(before + (seq![row@] + rest) =~= before.push(row@) + rest);
                    }
                }
                rows.push(row);
                assert(rows_view(rows@) =~= before.push(row@));
                i = k;
            },
        }
    }
    assert(spec_rows(s@, i as int) == Some(Seq::<RowView>::empty()));
    assert(rows_view(rows@) + Seq::<RowView>::empty() =~= rows_view(rows@));
    Some(Program { instructions: rows })
}

/// A text holds no more rows than characters.
pub proof fn lemma_rows_len(s: Seq<char>, i: int)
    requires
        0 <= i <= s.len(),
    ensures
        spec_rows(s, i) is Some ==> spec_rows(s, i)->Some_0.len() <= s.len() - i,
    decreases s.len() - i,
{
    let j = skip_ws(s, i);
    lemma_skip_ws(s, i);
    if j < s.len() {
        if let Some((row, k)) = spec_row(s, j) {
            if j < k <= s.len() {
                lemma_rows_len(s, k);
            }
        }
    }
}

} // verus!
