//! The search addresses of the registry.

use vstd::prelude::*;
use vstd::string::StringExecFns;
use vstd::utf8::encode_utf8;

verus! {

/// Whether byte `b` stands for itself in a percent-encoded text: an ASCII
/// letter, a digit, or one of `-`, `.`, `_`, `~`.
pub open spec fn unreserved(b: u8) -> bool {
    ||| 0x30 <= b <= 0x39
    ||| 0x41 <= b <= 0x5a
    ||| 0x61 <= b <= 0x7a
    ||| b == 0x2d
    ||| b == 0x2e
    ||| b == 0x5f
    ||| b == 0x7e
}

/// The upper-case hexadecimal digit for a value below sixteen.
pub open spec fn upper_hex_digit(d: u8) -> char {
    seq!['0', '1', '2', '3', '4', '5', '6', '7', '8', '9', 'A', 'B', 'C', 'D', 'E', 'F'][d as int]
}

/// One byte, percent-encoded.
pub open spec fn percent_encoded_byte(b: u8) -> Seq<char> {
    if unreserved(b) {
        seq![b as char]
    } else {
        seq!['%', upper_hex_digit(b >> 4), upper_hex_digit(b & 15)]
    }
}

/// A byte string, percent-encoded byte by byte.
pub open spec fn percent_encoded(bytes: Seq<u8>) -> Seq<char>
    decreases bytes.len(),
{
    if bytes.len() == 0 {
        seq![]
    } else {
        percent_encoded_byte(bytes[0]) + percent_encoded(bytes.skip(1))
    }
}

/// The percent-encoded form of a text: that of its UTF-8 bytes.
pub open spec fn encoded_phrase(phrase: Seq<char>) -> Seq<char> {
    percent_encoded(encode_utf8(phrase))
}

/// Percent-encodes `phrase`.
///
/// Trusted: calls `urlencoding::encode`, which walks the UTF-8 bytes of its
/// argument, copies each unreserved byte and writes every other byte as `%`
/// and two upper-case hexadecimal digits.
#[verifier::external_body]
pub(crate) fn percent_encode(phrase: &str) -> (r: String)
    ensures
        r@ == encoded_phrase(phrase@),
{
    urlencoding::encode(phrase).into_owned()
}

/// The address of a search for an already encoded phrase: below `base`, with
/// the phrase between double quotes where `quoted`, and restricted to the
/// single best match where `single`.
pub open spec fn search_url(base: Seq<char>, encoded: Seq<char>, quoted: bool, single: bool) -> Seq<
    char,
> {
    let phrase = if quoted {
        seq!['"'] + encoded + seq!['"']
    } else {
        encoded
    };
    let mode = if single {
        "&single_search"@
    } else {
        Seq::<char>::empty()
    };
    base + "/v2/organizations?affiliation="@ + phrase + mode
}

/// Builds the address of a search.
pub fn build_search_url(base: &str, encoded: &str, quoted: bool, single: bool) -> (url: String)
    ensures
        url@ == search_url(base@, encoded@, quoted, single),
{
    let mut url = base.to_owned();
    url.append("/v2/organizations?affiliation=");
    let ghost head = url@;
    if quoted {
        crate::text::push_char(&mut url, '"');
        url.append(encoded);
        crate::text::push_char(&mut url, '"');
        assert(url@ =~= head + (seq!['"'] + encoded@ + seq!['"']));
    } else {
        url.append(encoded);
    }
    let ghost body = url@;
    if single {
        url.append("&single_search");
    } else {
        assert(body + Seq::<char>::empty() =~= body);
    }
    url
}

} // verus!
