//! Reading an unsigned decimal number.
//!
//! A number is an optional `+` followed by one or more ASCII digits, with
//! nothing before or after, and must fit in 64 bits.

use vstd::prelude::*;

verus! {

/// Whether `c` is an ASCII digit.
pub open spec fn is_digit(c: char) -> bool {
    '0' <= c && c <= '9'
}

/// The value of a digit; zero for any other character.
pub open spec fn digit_value(c: char) -> nat {
    if is_digit(c) {
        (c as int - '0' as int) as nat
    } else {
        0
    }
}

/// Whether every character of `s` is an ASCII digit.
pub open spec fn all_digits(s: Seq<char>) -> bool {
    forall|i: int| 0 <= i < s.len() ==> is_digit(#[trigger] s[i])
}

/// The number that the digits of `s` write in base ten.
pub open spec fn decimal_value(s: Seq<char>) -> nat
    decreases s.len(),
{
    if s.len() == 0 {
        0
    } else {
        decimal_value(s.drop_last()) * 10 + digit_value(s.last())
    }
}

/// `s` without one leading `+`.
pub open spec fn unsigned_part(s: Seq<char>) -> Seq<char> {
    if s.len() > 0 && s[0] == '+' {
        s.skip(1)
    } else {
        s
    }
}

/// The number that `s` writes, if it writes one that fits in 64 bits.
pub open spec fn parsed_u64(s: Seq<char>) -> Option<u64> {
    let d = unsigned_part(s);
    if d.len() > 0 && all_digits(d) && decimal_value(d) <= u64::MAX {
        Some(decimal_value(d) as u64)
    } else {
        None
    }
}

/// A prefix of a digit string never writes a larger number than the whole.
pub proof fn lemma_decimal_prefix(s: Seq<char>, k: int)
    requires
        0 <= k <= s.len(),
    ensures
        decimal_value(s.take(k)) <= decimal_value(s),
    decreases s.len(),
{
    if k == s.len() {
        assert(s.take(k) =~= s);
    } else {
        assert(s.drop_last().take(k) =~= s.take(k));
        lemma_decimal_prefix(s.drop_last(), k);
    }
}

/// Reads the number that `s` writes.
pub fn parse_u64(s: &str) -> (r: Option<u64>)
    ensures
        r == parsed_u64(s@),
{
    let mut value: u64 = 0;
    let mut any = false;
    let mut first = true;
    assert(s@.take(0) =~= Seq::<char>::empty());
    for c in it: s.chars()
        invariant
            it.seq() == s@,
            first == (it.index() == 0),
            all_digits(unsigned_part(s@.take(it.index() as int))),
            value == decimal_value(unsigned_part(s@.take(it.index() as int))),
            any == (unsigned_part(s@.take(it.index() as int)).len() > 0),
    {
        let ghost idx = it.index() as int;
        let ghost seen = unsigned_part(s@.take(idx));
        let ghost whole = unsigned_part(s@);
        let ghost off = s@.len() - whole.len();
        assert(s@.take(idx + 1) =~= s@.take(idx).push(c));
        if first && c == '+' {
            assert(unsigned_part(s@.take(idx + 1)) =~= Seq::<char>::empty());
        } else {
            assert(unsigned_part(s@.take(idx + 1)) =~= seen.push(c));
            assert(seen.push(c).drop_last() =~= seen);
            assert(whole.take(seen.len() as int + 1) =~= seen.push(c));
            if !('0' <= c && c <= '9') {
                assert(whole[seen.len() as int] == c);
                return None;
            }
            let digit: u64 = (c as u32 - 48) as u64;
            assert(digit == digit_value(c));
            if value > 1844674407370955161 || (value == 1844674407370955161 && digit > 5) {
                proof {
                    lemma_decimal_prefix(whole, seen.len() as int + 1);
                }
                return None;
            }
            value = value * 10 + digit;
            any = true;
        }
        first = false;
    }
    assert(s@.take(s@.len() as int) =~= s@);
    if any {
        Some(value)
    } else {
        None
    }
}

} // verus!
