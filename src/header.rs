//! The header that opens every program image.

use vstd::prelude::*;

verus! {

/// Length in bytes of the header that starts every program image.
pub const PIE_HEADER_LENGTH: usize = 64;

/// The four magic bytes that open the header: `-21-` in ASCII.
pub open spec fn pie_prefix() -> Seq<u8> {
    seq![45u8, 50u8, 49u8, 45u8]
}

/// The whole header: the magic bytes, then zeros up to `PIE_HEADER_LENGTH`.
pub open spec fn pie_header() -> Seq<u8> {
    pie_prefix() + Seq::new(60, |i: int| 0u8)
}

/// Whether `program` opens with the magic bytes.
pub open spec fn has_pie_prefix(program: Seq<u8>) -> bool {
    program.len() >= 4 && program.subrange(0, 4) == pie_prefix()
}

/// The header, as bytes.
pub fn write_pie_header() -> (r: Vec<u8>)
    ensures
        r@ == pie_header(),
{
    let mut header: Vec<u8> = vec![45u8, 50u8, 49u8, 45u8];
    while header.len() < PIE_HEADER_LENGTH
        invariant
            4 <= header@.len() <= 64,
            header@ == pie_prefix() + Seq::new((header@.len() - 4) as nat, |i: int| 0u8),
        decreases 64 - header@.len(),
    {
        header.push(0);
        assert(header@ =~= pie_prefix() + Seq::new((header@.len() - 4) as nat, |i: int| 0u8));
    }
    assert(header@ =~= pie_header());
    header
}

/// Whether the bytes open with the magic bytes.
pub fn check_pie_prefix(program: &[u8]) -> (r: bool)
    ensures
        r == has_pie_prefix(program@),
{
    if program.len() < 4 {
        return false;
    }
    let ok = program[0] == 45 && program[1] == 50 && program[2] == 49 && program[3] == 45;
    proof {
        if ok {
            assert(program@.subrange(0, 4) =~= pie_prefix());
        } else {
            if program@.subrange(0, 4) == pie_prefix() {
                assert(program@.subrange(0, 4)[0] == program@[0]);
                assert(program@.subrange(0, 4)[1] == program@[1]);
                assert(program@.subrange(0, 4)[2] == program@[2]);
                assert(program@.subrange(0, 4)[3] == program@[3]);
            }
        }
    }
    ok
}

} // verus!
