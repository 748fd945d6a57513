//! The `ETag` header: an entity tag, strong or weak.

use vstd::prelude::*;
use vstd::slice::slice_subrange;
use vstd::string::{StringExecFns, StringSliceAdditionalSpecFns};
use vstd::utf8::{encode_utf8, is_ascii_chars, is_ascii_chars_encode_utf8, is_ascii_chars_nat_bound};

use crate::ascii::{
    all_ascii, ascii_str, ascii_text, bytes_are_ascii, bytes_eq, is_quoted, lemma_ascii_text_bytes,
    unquote,
};

verus! {

/// What an entity tag is: its weak marker and the bytes between its quotes.
pub struct ETagView {
    pub weak: bool,
    pub tag: Seq<u8>,
}

/// `v` starts with the weak marker `W/`.
pub open spec fn has_weak_prefix(v: Seq<u8>) -> bool {
    v.len() >= 2 && v[0] == 0x57u8 && v[1] == 0x2fu8
}

/// The part of a header value that follows the weak marker, if any.
pub open spec fn etag_body(v: Seq<u8>) -> Seq<u8> {
    if has_weak_prefix(v) {
        v.skip(2)
    } else {
        v
    }
}

/// The entity tag that a header value spells: `"<tag>"` or `W/"<tag>"`, all ASCII.
pub open spec fn decode_etag(v: Seq<u8>) -> Option<ETagView> {
    let body = etag_body(v);
    if is_quoted(body) && all_ascii(body) {
        Some(ETagView { weak: has_weak_prefix(v), tag: unquote(body) })
    } else {
        None
    }
}

/// The header value of an entity tag: the tag in double quotes, after `W/` if weak.
pub open spec fn encode_etag(e: ETagView) -> Seq<u8> {
    let quoted = seq![0x22u8] + e.tag + seq![0x22u8];
    if e.weak {
        seq![0x57u8, 0x2fu8] + quoted
    } else {
        quoted
    }
}

/// Decoding the header value of a tag gives back the same tag.
pub proof fn lemma_etag_round_trip(e: ETagView)
    requires
        all_ascii(e.tag),
    ensures
        decode_etag(encode_etag(e)) == Some(e),
{
    let quoted = seq![0x22u8] + e.tag + seq![0x22u8];
    let v = encode_etag(e);
    assert(etag_body(v) =~= quoted);
    assert(unquote(quoted) =~= e.tag);
    assert(all_ascii(quoted)) by {
        assert forall|i: int| 0 <= i < quoted.len() implies #[trigger] quoted[i] < 128 by {
            if 0 < i < quoted.len() - 1 {
                assert(quoted[i] == e.tag[i - 1]);
            }
        }
    }
}

/// An entity tag. Its tag is ASCII.
#[derive(Debug)]
pub struct ETag {
    weak: bool,
    tag: String,
}

impl View for ETag {
    type V = ETagView;

    closed spec fn view(&self) -> ETagView {
        ETagView { weak: self.weak, tag: encode_utf8(self.tag@) }
    }
}

/// A string of the ASCII bytes `b`.
fn ascii_string(b: &[u8]) -> (r: String)
    requires
        all_ascii(b@),
    ensures
        encode_utf8(r@) == b@,
        r@ == ascii_text(b@),
{
    proof {
        lemma_ascii_text_bytes(b@);
    }
    <String as StringExecFns>::from_str(ascii_str(b))
}

impl Clone for ETag {
    fn clone(&self) -> (r: ETag)
        ensures
            r@ == self@,
    {
        proof {
            use_type_invariant(self);
        }
        ETag { weak: self.weak, tag: self.tag.clone() }
    }
}

impl ETag {
    #[verifier::type_invariant]
    spec fn inv(&self) -> bool {
        is_ascii_chars(self.tag@)
    }

    /// The tag's bytes are ASCII.
    proof fn lemma_tag_ascii(tag: String)
        requires
            is_ascii_chars(tag@),
        ensures
            all_ascii(encode_utf8(tag@)),
    {
        is_ascii_chars_encode_utf8(tag@);
        is_ascii_chars_nat_bound(tag@);
        assert forall|i: int| 0 <= i < encode_utf8(tag@).len() implies #[trigger] encode_utf8(
            tag@,
        )[i] < 128 by {
            assert(encode_utf8(tag@)[i] == tag@[i] as u8);
        }
    }

    /// A tag from its parts.
    pub(crate) fn from_parts(weak: bool, tag: &[u8]) -> (r: ETag)
        requires
            all_ascii(tag@),
        ensures
            r@ == (ETagView { weak, tag: tag@ }),
    {
        ETag { weak, tag: ascii_string(tag) }
    }

    /// Validates a header value and reads the entity tag in it.
    pub fn from_header_value(value: &[u8]) -> (r: Option<ETag>)
        ensures
            r is Some <==> decode_etag(value@) is Some,
            r matches Some(e) ==> decode_etag(value@) == Some(e@),
    {
        let weak = value.len() >= 2 && value[0] == 0x57u8 && value[1] == 0x2fu8;
        let start: usize = if weak {
            2
        } else {
            0
        };
        let n = value.len();
        if n < start + 2 || value[start] != 0x22u8 || value[n - 1] != 0x22u8 {
            return None;
        }
        let body = slice_subrange(value, start, n);
        assert(body@ =~= etag_body(value@));
        if !bytes_are_ascii(body) {
            return None;
        }
        let tag = slice_subrange(value, start + 1, n - 1);
        proof {
            assert(tag@ =~= unquote(body@));
            assert(all_ascii(tag@)) by {
                assert forall|i: int| 0 <= i < tag@.len() implies #[trigger] tag@[i] < 128 by {
                    assert(tag@[i] == body@[i + 1]);
                }
            }
        }
        Some(Self::from_parts(weak, tag))
    }

    /// Creates a strong entity tag, or nothing when `value` is not ASCII.
    pub fn new(value: &str) -> (r: Option<ETag>)
        ensures
            r is Some <==> value.is_ascii(),
            r matches Some(e) ==> !e@.weak && e@.tag == value.spec_bytes() && all_ascii(e@.tag),
    {
        Self::with_marker(value, false)
    }

    /// Creates a weak entity tag, or nothing when `value` is not ASCII.
    pub fn weak(value: &str) -> (r: Option<ETag>)
        ensures
            r is Some <==> value.is_ascii(),
            r matches Some(e) ==> e@.weak && e@.tag == value.spec_bytes() && all_ascii(e@.tag),
    {
        Self::with_marker(value, true)
    }

    fn with_marker(value: &str, weak: bool) -> (r: Option<ETag>)
        ensures
            r is Some <==> value.is_ascii(),
            r matches Some(e) ==> e@.weak == weak && e@.tag == value.spec_bytes() && all_ascii(
                e@.tag,
            ),
    {
        if !value.is_ascii() {
            return None;
        }
        proof {
            broadcast use vstd::string::is_ascii_spec_bytes, vstd::utf8::is_ascii_chars_nat_bound;

            assert forall|i: int| 0 <= i < value.spec_bytes().len() implies #[trigger] value.spec_bytes()[i] < 128 by {
                assert(value.spec_bytes()[i] == value@[i] as u8);
            }
        }
        Some(ETag { weak, tag: <String as StringExecFns>::from_str(value) })
    }

    /// Whether the tag is weak.
    pub fn is_weak(&self) -> (r: bool)
        ensures
            r == self@.weak,
    {
        self.weak
    }

    /// The entity tag's value, without quotes and weak marker; it is ASCII.
    pub fn value(&self) -> (r: &str)
        ensures
            r.spec_bytes() == self@.tag,
            r.is_ascii(),
            all_ascii(self@.tag),
    {
        proof {
            use_type_invariant(self);
            Self::lemma_tag_ascii(self.tag);
        }
        self.tag.as_str()
    }

    /// The entity tag's value as bytes; they are ASCII.
    pub fn tag_bytes(&self) -> (r: &[u8])
        ensures
            r@ == self@.tag,
            all_ascii(r@),
    {
        proof {
            use_type_invariant(self);
            Self::lemma_tag_ascii(self.tag);
        }
        self.tag.as_str().as_bytes()
    }

    /// Weak comparison: the tags agree, whatever their weak markers.
    pub fn weak_eq(&self, value: &[u8]) -> (r: bool)
        ensures
            r == (self@.tag == value@),
    {
        bytes_eq(self.tag_bytes(), value)
    }

    /// The header value that carries this tag.
    pub fn to_header_value(&self) -> (r: Vec<u8>)
        ensures
            r@ == encode_etag(self@),
    {
        let tag = self.tag_bytes();
        let mut out: Vec<u8> = Vec::new();
        if self.weak {
            out.push(0x57u8);
            out.push(0x2fu8);
        }
        out.push(0x22u8);
        let mut i: usize = 0;
        while i < tag.len()
            invariant
                i <= tag@.len(),
                tag@ == self@.tag,
                out@ == (if self@.weak {
                    seq![0x57u8, 0x2fu8]
                } else {
                    Seq::<u8>::empty()
                }) + seq![0x22u8] + tag@.take(i as int),
            decreases tag@.len() - i,
        {
            out.push(tag[i]);
            assert(tag@.take(i + 1) =~= tag@.take(i as int).push(tag@[i as int]));
            i = i + 1;
        }
        out.push(0x22u8);
        assert(tag@.take(tag@.len() as int) =~= tag@);
        assert(out@ =~= encode_etag(self@));
        out
    }
}

} // verus!
