//! The `If-None-Match` header: a wildcard, or a list of entity tags.

use vstd::prelude::*;
use vstd::slice::{slice_subrange, slice_to_vec};

use crate::ascii::{all_ascii, byte_strings, bytes_are_ascii, is_quoted, trim, trim_ascii_space, unquote};
use crate::etag::ETag;

verus! {

/// Offset of the first comma in `s`, or its length when it holds none.
pub open spec fn comma_pos(s: Seq<u8>) -> nat
    decreases s.len(),
{
    if s.len() == 0 || s[0] == 0x2cu8 {
        0
    } else {
        1 + comma_pos(s.drop_first())
    }
}

/// The pieces of `s` between commas, in order (one piece when it holds none).
pub open spec fn split_commas(s: Seq<u8>) -> Seq<Seq<u8>>
    decreases s.len(),
{
    let k = comma_pos(s);
    if k < s.len() {
        seq![s.take(k as int)] + split_commas(s.skip((k + 1) as int))
    } else {
        seq![s]
    }
}

/// A list piece that is, once trimmed, a quoted ASCII string.
pub open spec fn piece_ok(p: Seq<u8>) -> bool {
    is_quoted(trim(p)) && all_ascii(trim(p))
}

/// Every comma-separated piece of `s` is a quoted ASCII string.
pub open spec fn tags_valid(s: Seq<u8>) -> bool {
    forall|i: int| 0 <= i < split_commas(s).len() ==> piece_ok(#[trigger] split_commas(s)[i])
}

/// The entity tags of a list, each trimmed and without its quotes.
pub open spec fn tag_list(s: Seq<u8>) -> Seq<Seq<u8>> {
    split_commas(s).map_values(|p: Seq<u8>| unquote(trim(p)))
}

/// What an `If-None-Match` header holds.
pub enum IfNoneMatchView {
    /// `*`: matches whatever entity tag.
    Any,
    /// A valid list of entity tags, as it was written.
    Tags(Seq<u8>),
}

/// The header value `*`.
pub open spec fn is_wildcard(v: Seq<u8>) -> bool {
    v.len() == 1 && v[0] == 0x2au8
}

/// What a header value decodes to: the wildcard, or a list whose every piece
/// is a quoted ASCII string; nothing as soon as one piece is not.
pub open spec fn decode_if_none_match(v: Seq<u8>) -> Option<IfNoneMatchView> {
    if is_wildcard(v) {
        Some(IfNoneMatchView::Any)
    } else if tags_valid(v) {
        Some(IfNoneMatchView::Tags(v))
    } else {
        None
    }
}

/// The header value that carries a decoded `If-None-Match`.
pub open spec fn encode_if_none_match(h: IfNoneMatchView) -> Seq<u8> {
    match h {
        IfNoneMatchView::Any => seq![0x2au8],
        IfNoneMatchView::Tags(v) => v,
    }
}

/// The condition passes when none of the listed tags weakly matches `tag`;
/// it never passes for the wildcard.
pub open spec fn if_none_match_passes(h: IfNoneMatchView, tag: Seq<u8>) -> bool {
    match h {
        IfNoneMatchView::Any => false,
        IfNoneMatchView::Tags(v) => forall|i: int|
            0 <= i < tag_list(v).len() ==> #[trigger] tag_list(v)[i] != tag,
    }
}

/// Decoding is all or nothing: a list with one piece that is not a quoted
/// ASCII string decodes to nothing, whatever the other pieces are.
pub proof fn lemma_one_bad_piece_rejects_all(v: Seq<u8>, i: int)
    requires
        !is_wildcard(v),
        0 <= i < split_commas(v).len(),
        !piece_ok(split_commas(v)[i]),
    ensures
        decode_if_none_match(v) is None,
{
}

proof fn lemma_comma_pos_at(s: Seq<u8>, k: int)
    requires
        0 <= k <= s.len(),
        k < s.len() ==> s[k] == 0x2cu8,
        forall|j: int| 0 <= j < k ==> s[j] != 0x2cu8,
    ensures
        comma_pos(s) == k,
    decreases k,
{
    if k > 0 {
        lemma_comma_pos_at(s.drop_first(), k - 1);
    }
}

/// Unfolds `split_commas` on the part of `s` from `start`, whose first piece
/// ends at `end`.
proof fn lemma_split_step(s: Seq<u8>, start: int, end: int)
    requires
        0 <= start <= end <= s.len(),
        end < s.len() ==> s[end] == 0x2cu8,
        forall|j: int| start <= j < end ==> s[j] != 0x2cu8,
    ensures
        end < s.len() ==> split_commas(s.skip(start)) == seq![s.subrange(start, end)]
            + split_commas(s.skip(end + 1)),
        end == s.len() ==> split_commas(s.skip(start)) == seq![s.subrange(start, end)],
{
    let t = s.skip(start);
    lemma_comma_pos_at(t, end - start);
    if end < s.len() {
        assert(t.take(end - start) =~= s.subrange(start, end));
        assert(t.skip(end - start + 1) =~= s.skip(end + 1));
    } else {
        assert(t =~= s.subrange(start, end));
    }
}

/// Finds the end of the list piece that starts at `start`.
fn piece_end(v: &[u8], start: usize) -> (end: usize)
    requires
        start <= v@.len(),
    ensures
        start <= end <= v@.len(),
        end < v@.len() ==> v@[end as int] == 0x2cu8,
        forall|j: int| start <= j < end ==> v@[j] != 0x2cu8,
{
    let mut end = start;
    while end < v.len() && v[end] != 0x2cu8
        invariant
            start <= end <= v@.len(),
            forall|j: int| start <= j < end ==> v@[j] != 0x2cu8,
        decreases v@.len() - end,
    {
        end = end + 1;
    }
    end
}

/// Checks that every comma-separated piece of `v` is a quoted ASCII string.
fn list_is_valid(v: &[u8]) -> (r: bool)
    ensures
        r == tags_valid(v@),
{
    let mut start: usize = 0;
    let ghost mut done: Seq<Seq<u8>> = seq![];
    assert(v@.skip(0) =~= v@);
    loop
        invariant
            start <= v@.len(),
            split_commas(v@) == done + split_commas(v@.skip(start as int)),
            forall|i: int| 0 <= i < done.len() ==> piece_ok(#[trigger] done[i]),
        decreases v@.len() - start,
    {
        let end = piece_end(v, start);
        proof {
            lemma_split_step(v@, start as int, end as int);
        }
        let raw = slice_subrange(v, start, end);
        let piece = trim_ascii_space(raw);
        let n = piece.len();
        let ok = n >= 2 && piece[0] == 0x22u8 && piece[n - 1] == 0x22u8 && bytes_are_ascii(piece);
        assert(split_commas(v@)[done.len() as int] == raw@);
        if !ok {
            assert(!piece_ok(raw@));
            return false;
        }
        if end == v.len() {
            assert forall|i: int| 0 <= i < split_commas(v@).len() implies piece_ok(
                #[trigger] split_commas(v@)[i],
            ) by {
                if i < done.len() {
                    assert(split_commas(v@)[i] == done[i]);
                }
            }
            return true;
        }
        proof {
            assert(split_commas(v@) == done.push(raw@) + split_commas(v@.skip(end + 1)));
            done = done.push(raw@);
        }
        start = end + 1;
    }
}

enum Inner {
    Any,
    Tags(Vec<u8>),
}

/// An `If-None-Match` header.
pub struct IfNoneMatch {
    inner: Inner,
}

impl View for IfNoneMatch {
    type V = IfNoneMatchView;

    closed spec fn view(&self) -> IfNoneMatchView {
        match self.inner {
            Inner::Any => IfNoneMatchView::Any,
            Inner::Tags(v) => IfNoneMatchView::Tags(v@),
        }
    }
}

impl IfNoneMatch {
    #[verifier::type_invariant]
    spec fn inv(&self) -> bool {
        match self.inner {
            Inner::Any => true,
            Inner::Tags(v) => tags_valid(v@),
        }
    }

    /// Validates a header value and reads the `If-None-Match` condition in it.
    pub fn from_header_value(value: &[u8]) -> (r: Option<IfNoneMatch>)
        ensures
            r is Some <==> decode_if_none_match(value@) is Some,
            r matches Some(h) ==> decode_if_none_match(value@) == Some(h@),
    {
        if value.len() == 1 && value[0] == 0x2au8 {
            return Some(Self::any());
        }
        if !list_is_valid(value) {
            return None;
        }
        Some(IfNoneMatch { inner: Inner::Tags(slice_to_vec(value)) })
    }

    /// An `If-None-Match` header that matches any entity tag.
    pub fn any() -> (r: IfNoneMatch)
        ensures
            r@ == IfNoneMatchView::Any,
    {
        IfNoneMatch { inner: Inner::Any }
    }

    /// Whether the condition passes for a resource whose entity tag is `etag`.
    pub fn condition_passes(&self, etag: &ETag) -> (r: bool)
        ensures
            r == if_none_match_passes(self@, etag@.tag),
    {
        match self.etags() {
            None => false,
            Some(tags) => {
                let ghost list = tag_list(self@->Tags_0);
                let mut i: usize = 0;
                while i < tags.len()
                    invariant
                        byte_strings(tags@) == list,
                        list == tag_list(self@->Tags_0),
                        self@ == IfNoneMatchView::Tags(self@->Tags_0),
                        i <= list.len(),
                        forall|j: int| 0 <= j < i ==> #[trigger] list[j] != etag@.tag,
                    decreases list.len() - i,
                {
                    assert(tags@[i as int]@ == list[i as int]);
                    if etag.weak_eq(tags[i].as_slice()) {
                        assert(tag_list(self@->Tags_0)[i as int] == etag@.tag);
                        return false;
                    }
                    i = i + 1;
                }
                true
            },
        }
    }

    /// The listed entity tags, without quotes; nothing for the wildcard.
    pub fn etags(&self) -> (r: Option<Vec<Vec<u8>>>)
        ensures
            r is None <==> self@ is Any,
            r matches Some(tags) ==> self@ is Tags && byte_strings(tags@) == tag_list(self@->Tags_0),
    {
        proof {
            use_type_invariant(self);
        }
        match &self.inner {
            Inner::Any => None,
            Inner::Tags(raw) => {
                let v = raw.as_slice();
                let mut out: Vec<Vec<u8>> = Vec::new();
                let mut start: usize = 0;
                let ghost mut done: Seq<Seq<u8>> = seq![];
                assert(v@.skip(0) =~= v@);
                loop
                    invariant
                        start <= v@.len(),
                        tags_valid(v@),
                        self@ == IfNoneMatchView::Tags(v@),
                        split_commas(v@) == done + split_commas(v@.skip(start as int)),
                        byte_strings(out@) == done.map_values(|p: Seq<u8>| unquote(trim(p))),
                    decreases v@.len() - start,
                {
                    let end = piece_end(v, start);
                    proof {
                        lemma_split_step(v@, start as int, end as int);
                    }
                    let raw_piece = slice_subrange(v, start, end);
                    let piece = trim_ascii_space(raw_piece);
                    assert(split_commas(v@)[done.len() as int] == raw_piece@);
                    assert(piece_ok(split_commas(v@)[done.len() as int]));
                    let tag = slice_to_vec(slice_subrange(piece, 1, piece.len() - 1));
                    assert(tag@ == unquote(trim(raw_piece@)));
                    let ghost before = byte_strings(out@);
                    out.push(tag);
                    proof {
                        assert(byte_strings(out@) =~= before.push(tag@));
                        assert(byte_strings(out@) =~= done.push(raw_piece@).map_values(
                            |p: Seq<u8>| unquote(trim(p)),
                        ));
                    }
                    if end == v.len() {
                        assert(split_commas(v@) =~= done.push(raw_piece@));
                        return Some(out);
                    }
                    proof {
                        assert(split_commas(v@) == done.push(raw_piece@) + split_commas(
                            v@.skip(end + 1),
                        ));
                        done = done.push(raw_piece@);
                    }
                    start = end + 1;
                }
            },
        }
    }

    /// The header value that carries this condition.
    pub fn to_header_value(&self) -> (r: Vec<u8>)
        ensures
            r@ == encode_if_none_match(self@),
    {
        match &self.inner {
            Inner::Any => {
                let mut out: Vec<u8> = Vec::new();
                out.push(0x2au8);
                assert(out@ =~= seq![0x2au8]);
                out
            },
            Inner::Tags(raw) => slice_to_vec(raw.as_slice()),
        }
    }
}

} // verus!
