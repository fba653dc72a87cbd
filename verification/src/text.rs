//! Small helpers on strings that the rest of the library shares.

use vstd::prelude::*;
use vstd::utf8::{encode_utf8, encode_utf8_decode_utf8};

verus! {

/// The texts that a sequence of strings holds, in order.
pub open spec fn views(strings: Seq<String>) -> Seq<Seq<char>> {
    strings.map_values(|s: String| s@)
}

/// The first place at which `key` stands in `keys`.
pub open spec fn first_index(keys: Seq<Seq<char>>, key: Seq<char>) -> Option<int>
    decreases keys.len(),
{
    if keys.len() == 0 {
        None
    } else {
        match first_index(keys.drop_last(), key) {
            Some(i) => Some(i),
            None => if keys.last() == key {
                Some(keys.len() - 1)
            } else {
                None
            },
        }
    }
}

/// What `first_index` finds is the key, and the key stands nowhere before.
pub proof fn lemma_first_index_found(keys: Seq<Seq<char>>, key: Seq<char>, i: int)
    requires
        0 <= i < keys.len(),
        keys[i] == key,
        forall|k: int| 0 <= k < i ==> keys[k] != key,
    ensures
        first_index(keys, key) == Some(i),
    decreases keys.len(),
{
    if i < keys.len() - 1 {
        lemma_first_index_found(keys.drop_last(), key, i);
    } else {
        lemma_first_index_absent(keys.drop_last(), key);
    }
}

/// A key that stands nowhere is not found.
pub proof fn lemma_first_index_absent(keys: Seq<Seq<char>>, key: Seq<char>)
    requires
        forall|k: int| 0 <= k < keys.len() ==> keys[k] != key,
    ensures
        first_index(keys, key) is None,
    decreases keys.len(),
{
    if keys.len() > 0 {
        lemma_first_index_absent(keys.drop_last(), key);
    }
}

/// Appends one character to a string.
///
/// Trusted: calls `String::push` of the standard library, which appends the
/// given character to the end of the string and changes nothing else.
#[verifier::external_body]
pub(crate) fn push_char(s: &mut String, c: char)
    ensures
        final(s)@ == old(s)@.push(c),
{
    s.push(c)
}

/// Whether two string slices hold the same text.
pub fn str_eq(a: &str, b: &str) -> (r: bool)
    ensures
        r == (a@ == b@),
{
    let x = a.as_bytes();
    let y = b.as_bytes();
    proof {
        encode_utf8_decode_utf8(a@);
        encode_utf8_decode_utf8(b@);
    }
    if x.len() != y.len() {
        return false;
    }
    let mut i: usize = 0;
    while i < x.len()
        invariant
            i <= x.len(),
            x@ == encode_utf8(a@),
            y@ == encode_utf8(b@),
            x@.len() == y@.len(),
            forall|k: int| 0 <= k < i ==> x@[k] == y@[k],
        decreases x.len() - i,
    {
        if x[i] != y[i] {
            return false;
        }
        i = i + 1;
    }
    assert(x@ =~= y@);
    true
}

/// Whether `c` is white space: whether it is one of the twenty-five
/// characters with the Unicode property `White_Space`. These are the
/// controls from tab to carriage return, the space, the next-line control,
/// the no-break space, the Ogham space mark, the spaces from en quad to hair
/// space, the line and the paragraph separator, the narrow no-break space,
/// the medium mathematical space and the ideographic space.
pub open spec fn white_space(c: char) -> bool {
    let u = c as u32;
    ||| 0x09 <= u <= 0x0d
    ||| u == 0x20
    ||| u == 0x85
    ||| u == 0xa0
    ||| u == 0x1680
    ||| 0x2000 <= u <= 0x200a
    ||| u == 0x2028
    ||| u == 0x2029
    ||| u == 0x202f
    ||| u == 0x205f
    ||| u == 0x3000
}

/// Whether `c` is white space.
///
/// Trusted: calls `char::is_whitespace` of the standard library, which is
/// true exactly of the characters with the Unicode property `White_Space`.
/// The contract writes these characters out.
#[verifier::external_body]
pub(crate) fn is_whitespace(c: char) -> (r: bool)
    ensures
        r == white_space(c),
{
    c.is_whitespace()
}

/// Whether `line` holds nothing but white space.
pub open spec fn blank(line: Seq<char>) -> bool {
    forall|i: int| 0 <= i < line.len() ==> white_space(#[trigger] line[i])
}

/// Whether `line` holds nothing but white space.
pub fn is_blank(line: &str) -> (r: bool)
    ensures
        r == blank(line@),
{
    for c in it: line.chars()
        invariant
            it.seq() == line@,
            forall|i: int| 0 <= i < it.index() ==> white_space(#[trigger] line@[i]),
    {
        if !is_whitespace(c) {
            assert(!white_space(line@[it.index() as int]));
            return false;
        }
    }
    true
}

} // verus!
