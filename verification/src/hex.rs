//! Fixed-width lower-case hexadecimal rendering of 64-bit values.

use vstd::prelude::*;
use crate::text::push_char;

verus! {

/// The lower-case hexadecimal digit for a value below sixteen.
pub open spec fn hex_digit(d: u64) -> char {
    seq!['0', '1', '2', '3', '4', '5', '6', '7', '8', '9', 'a', 'b', 'c', 'd', 'e', 'f'][d as int]
}

/// Whether `c` is one of the sixteen lower-case hexadecimal digits.
pub open spec fn is_hex_digit(c: char) -> bool {
    ('0' <= c && c <= '9') || ('a' <= c && c <= 'f')
}

/// The four bits of `h` that make its `i`-th hexadecimal digit, counted from
/// the most significant one.
pub open spec fn nibble(h: u64, i: int) -> u64 {
    (h >> ((60 - 4 * i) as u64)) & 0xf
}

/// `h` written as exactly sixteen lower-case hexadecimal digits, most
/// significant first, padded with zeros on the left.
pub open spec fn hex16(h: u64) -> Seq<char> {
    Seq::new(16, |i: int| hex_digit(nibble(h, i)))
}

/// Every digit of `hex16` is a hexadecimal digit, and there are sixteen.
pub proof fn lemma_hex16_shape(h: u64)
    ensures
        hex16(h).len() == 16,
        forall|i: int| 0 <= i < 16 ==> is_hex_digit(#[trigger] hex16(h)[i]),
{
    assert forall|i: int| 0 <= i < 16 implies is_hex_digit(#[trigger] hex16(h)[i]) by {
        let s = (60 - 4 * i) as u64;
        assert(((h >> s) & 0xf) < 16) by (bit_vector);
    }
}

fn hex_char(d: u8) -> (c: char)
    requires
        d < 16,
    ensures
        c == hex_digit(d as u64),
{
    if d < 10 {
        (48u8 + d) as char
    } else {
        (87u8 + d) as char
    }
}

/// Renders `h` as sixteen lower-case hexadecimal digits.
pub fn to_hex16(h: u64) -> (r: String)
    ensures
        r@ == hex16(h),
{
    let mut out = String::new();
    let mut i: u32 = 0;
    while i < 16
        invariant
            i <= 16,
            out@.len() == i,
            forall|k: int| 0 <= k < i ==> out@[k] == hex_digit(nibble(h, k)),
        decreases 16 - i,
    {
        let shift: u32 = 60 - 4 * i;
        let d: u64 = (h >> shift) & 0xf;
        assert(d < 16) by (bit_vector)
            requires
                d == (h >> shift) & 0xf,
        ;
        assert(d == nibble(h, i as int));
        push_char(&mut out, hex_char(d as u8));
        i = i + 1;
    }
    assert(out@ =~= hex16(h));
    out
}

} // verus!
