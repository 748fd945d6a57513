//! The conditional evaluator: whether a cached copy is still valid.

use vstd::prelude::*;

use crate::dates::{IfModifiedSince, LastModified};
use crate::etag::{ETag, ETagView};
use crate::if_none_match::{if_none_match_passes, IfNoneMatch, IfNoneMatchView};
use crate::metadata::Metadata;

verus! {

/// The outcome of the conditional checks.
#[derive(Clone, Copy, Debug, PartialEq, Eq, Structural)]
pub enum Evaluation {
    /// Serve the resource.
    Pass,
    /// The client's copy is still valid.
    NotModified,
}

/// The `If-None-Match` check fails: both the header and the resource's tag
/// are there, and one listed tag weakly matches it (or the header is `*`).
pub open spec fn etag_check_fails(inm: Option<IfNoneMatchView>, etag: Option<ETagView>) -> bool {
    match (inm, etag) {
        (Some(h), Some(e)) => !if_none_match_passes(h, e.tag),
        _ => false,
    }
}

/// The `If-Modified-Since` check fails: both dates are there, and the
/// resource did not change after the threshold.
pub open spec fn date_check_fails(ims: Option<u64>, last_modified: Option<u64>) -> bool {
    match (ims, last_modified) {
        (Some(t), Some(m)) => !(m > t),
        _ => false,
    }
}

/// The checks in HTTP's order: when both the `If-None-Match` header and the
/// resource's tag are there, that check alone decides; otherwise the
/// `If-Modified-Since` check does, when both dates are there; otherwise the
/// resource is served.
pub open spec fn evaluation_of(
    inm: Option<IfNoneMatchView>,
    ims: Option<u64>,
    etag: Option<ETagView>,
    last_modified: Option<u64>,
) -> Evaluation {
    if inm is Some && etag is Some {
        if etag_check_fails(inm, etag) {
            Evaluation::NotModified
        } else {
            Evaluation::Pass
        }
    } else if date_check_fails(ims, last_modified) {
        Evaluation::NotModified
    } else {
        Evaluation::Pass
    }
}

/// The view of an optional entity tag.
pub open spec fn etag_view(e: Option<ETag>) -> Option<ETagView> {
    match e {
        Some(t) => Some(t@),
        None => None,
    }
}

/// The view of an optional `Last-Modified`.
pub open spec fn last_modified_view(m: Option<LastModified>) -> Option<u64> {
    match m {
        Some(t) => Some(t@),
        None => None,
    }
}

/// The view of an optional `If-None-Match`.
pub open spec fn if_none_match_view(h: Option<&IfNoneMatch>) -> Option<IfNoneMatchView> {
    match h {
        Some(x) => Some(x@),
        None => None,
    }
}

/// The view of an optional `If-Modified-Since`.
pub open spec fn if_modified_since_view(h: Option<&IfModifiedSince>) -> Option<u64> {
    match h {
        Some(x) => Some(x@),
        None => None,
    }
}

/// Decides between serving the resource and answering "not modified".
pub fn evaluate(
    if_none_match: Option<&IfNoneMatch>,
    if_modified_since: Option<&IfModifiedSince>,
    metadata: &Metadata,
) -> (r: Evaluation)
    ensures
        r == evaluation_of(
            if_none_match_view(if_none_match),
            if_modified_since_view(if_modified_since),
            etag_view(metadata.etag),
            last_modified_view(metadata.last_modified),
        ),
{
    if let Some(h) = if_none_match {
        if let Some(etag) = &metadata.etag {
            if !h.condition_passes(etag) {
                return Evaluation::NotModified;
            }
            return Evaluation::Pass;
        }
    }
    if let Some(h) = if_modified_since {
        if let Some(last_modified) = &metadata.last_modified {
            if !h.condition_passes(last_modified) {
                return Evaluation::NotModified;
            }
        }
    }
    Evaluation::Pass
}

/// A weak and a strong entity tag with the same value are equal to the
/// evaluator.
pub proof fn lemma_weak_tag_matches_strong(
    inm: Option<IfNoneMatchView>,
    ims: Option<u64>,
    tag: Seq<u8>,
    last_modified: Option<u64>,
)
    ensures
        evaluation_of(inm, ims, Some(ETagView { weak: true, tag }), last_modified)
            == evaluation_of(inm, ims, Some(ETagView { weak: false, tag }), last_modified),
{
}

/// Without an `If-None-Match` to decide, a resource modified strictly after
/// the `If-Modified-Since` threshold passes, and any other is not modified.
pub proof fn lemma_modified_since(threshold: u64, last_modified: u64, etag: Option<ETagView>)
    ensures
        evaluation_of(None, Some(threshold), etag, Some(last_modified)) == (if last_modified
            > threshold {
            Evaluation::Pass
        } else {
            Evaluation::NotModified
        }),
{
}

/// When the request has an `If-None-Match` and the resource a tag, that check
/// decides alone: `If-Modified-Since` is not consulted.
pub proof fn lemma_etag_check_decides(
    inm: IfNoneMatchView,
    ims: Option<u64>,
    etag: ETagView,
    last_modified: Option<u64>,
)
    ensures
        evaluation_of(Some(inm), ims, Some(etag), last_modified) == (if if_none_match_passes(
            inm,
            etag.tag,
        ) {
            Evaluation::Pass
        } else {
            Evaluation::NotModified
        }),
{
}

/// A request that lists the resource's own tag is answered "not modified",
/// whatever its weak markers and dates.
pub proof fn lemma_listed_tag_not_modified(
    list: Seq<u8>,
    i: int,
    ims: Option<u64>,
    etag: ETagView,
    last_modified: Option<u64>,
)
    requires
        0 <= i < crate::if_none_match::tag_list(list).len(),
        crate::if_none_match::tag_list(list)[i] == etag.tag,
    ensures
        evaluation_of(Some(IfNoneMatchView::Tags(list)), ims, Some(etag), last_modified)
            == Evaluation::NotModified,
{
    assert(!if_none_match_passes(IfNoneMatchView::Tags(list), etag.tag));
}

} // verus!
