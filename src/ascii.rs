//! Byte-level helpers shared by the header codecs.

use vstd::prelude::*;
use vstd::slice::slice_subrange;
use vstd::utf8::{encode_utf8, is_ascii_chars, is_ascii_chars_encode_utf8};

verus! {

/// A byte of the 7-bit ASCII range.
pub open spec fn is_ascii_byte(b: u8) -> bool {
    b < 128
}

/// Every byte of `s` is ASCII.
pub open spec fn all_ascii(s: Seq<u8>) -> bool {
    forall|i: int| 0 <= i < s.len() ==> is_ascii_byte(#[trigger] s[i])
}

/// The characters that an ASCII byte string spells.
pub open spec fn ascii_text(s: Seq<u8>) -> Seq<char> {
    s.map_values(|b: u8| b as char)
}

/// ASCII bytes spell ASCII characters, whose UTF-8 encoding is those bytes.
pub proof fn lemma_ascii_text_bytes(b: Seq<u8>)
    requires
        all_ascii(b),
    ensures
        is_ascii_chars(ascii_text(b)),
        encode_utf8(ascii_text(b)) == b,
{
    let t = ascii_text(b);
    assert forall|i: int| 0 <= i < t.len() implies '\0' <= #[trigger] t[i] <= '\u{7f}' by {
        assert(t[i] == b[i] as char);
        assert(b[i] < 128);
    }
    is_ascii_chars_encode_utf8(t);
    assert forall|i: int| 0 <= i < b.len() implies #[trigger] encode_utf8(t)[i] == b[i] by {
        assert(encode_utf8(t)[i] == t[i] as u8);
        assert(t[i] == b[i] as char);
    }
    assert(encode_utf8(t) =~= b);
}

/// The byte strings that a list of vectors holds.
pub open spec fn byte_strings(v: Seq<Vec<u8>>) -> Seq<Seq<u8>> {
    v.map_values(|x: Vec<u8>| x@)
}

/// What `u8::is_ascii_whitespace` accepts: space, tab, line feed, form feed
/// and carriage return.
pub open spec fn is_ascii_space(b: u8) -> bool {
    b == 0x20 || b == 0x09 || b == 0x0a || b == 0x0c || b == 0x0d
}

/// `s` without its leading ASCII whitespace.
pub open spec fn trim_start(s: Seq<u8>) -> Seq<u8>
    decreases s.len(),
{
    if s.len() > 0 && is_ascii_space(s[0]) {
        trim_start(s.drop_first())
    } else {
        s
    }
}

/// `s` without its trailing ASCII whitespace.
pub open spec fn trim_end(s: Seq<u8>) -> Seq<u8>
    decreases s.len(),
{
    if s.len() > 0 && is_ascii_space(s.last()) {
        trim_end(s.drop_last())
    } else {
        s
    }
}

/// `s` without the ASCII whitespace around it.
pub open spec fn trim(s: Seq<u8>) -> Seq<u8> {
    trim_end(trim_start(s))
}

/// `s` is at least two bytes long, and starts and ends with a double quote.
pub open spec fn is_quoted(s: Seq<u8>) -> bool {
    s.len() >= 2 && s[0] == 0x22u8 && s[s.len() - 1] == 0x22u8
}

/// `s` without its first and last byte (the quotes of a quoted string).
pub open spec fn unquote(s: Seq<u8>) -> Seq<u8> {
    s.subrange(1, s.len() - 1)
}

/// Checks that every byte of `s` is ASCII.
pub fn bytes_are_ascii(s: &[u8]) -> (r: bool)
    ensures
        r == all_ascii(s@),
{
    let mut i: usize = 0;
    while i < s.len()
        invariant
            i <= s@.len(),
            forall|j: int| 0 <= j < i ==> is_ascii_byte(#[trigger] s@[j]),
        decreases s@.len() - i,
    {
        if s[i] >= 128 {
            return false;
        }
        i = i + 1;
    }
    true
}

/// Compares two byte strings.
pub fn bytes_eq(a: &[u8], b: &[u8]) -> (r: bool)
    ensures
        r == (a@ == b@),
{
    if a.len() != b.len() {
        return false;
    }
    let mut i: usize = 0;
    while i < a.len()
        invariant
            a@.len() == b@.len(),
            i <= a@.len(),
            forall|j: int| 0 <= j < i ==> a@[j] == b@[j],
        decreases a@.len() - i,
    {
        if a[i] != b[i] {
            return false;
        }
        i = i + 1;
    }
    assert(a@ =~= b@);
    true
}

/// Removes the ASCII whitespace around `s`.
pub fn trim_ascii_space(s: &[u8]) -> (r: &[u8])
    ensures
        r@ == trim(s@),
{
    let mut lo: usize = 0;
    assert(s@.subrange(0, s@.len() as int) =~= s@);
    while lo < s.len() && (s[lo] == 0x20 || s[lo] == 0x09 || s[lo] == 0x0a || s[lo] == 0x0c
        || s[lo] == 0x0d)
        invariant
            lo <= s@.len(),
            trim_start(s@) == trim_start(s@.subrange(lo as int, s@.len() as int)),
        decreases s@.len() - lo,
    {
        assert(s@.subrange(lo as int, s@.len() as int).drop_first() =~= s@.subrange(
            lo + 1,
            s@.len() as int,
        ));
        lo = lo + 1;
    }
    assert(s@.subrange(0, s@.len() as int) =~= s@);
    let mut hi: usize = s.len();
    while hi > lo && (s[hi - 1] == 0x20 || s[hi - 1] == 0x09 || s[hi - 1] == 0x0a || s[hi - 1]
        == 0x0c || s[hi - 1] == 0x0d)
        invariant
            lo <= hi <= s@.len(),
            trim_start(s@) == s@.subrange(lo as int, s@.len() as int),
            trim(s@) == trim_end(s@.subrange(lo as int, hi as int)),
        decreases hi,
    {
        assert(s@.subrange(lo as int, hi as int).drop_last() =~= s@.subrange(
            lo as int,
            hi - 1,
        ));
        hi = hi - 1;
    }
    slice_subrange(s, lo, hi)
}

/// Relies on `std::str::from_utf8`: ASCII bytes are valid UTF-8, and each of
/// them stands for the character with the same code.
#[verifier::external_body]
pub(crate) fn ascii_str(b: &[u8]) -> (r: &str)
    requires
        all_ascii(b@),
    ensures
        r@ == ascii_text(b@),
{
    std::str::from_utf8(b).unwrap()
}

} // verus!
