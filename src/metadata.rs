//! What is known of an asset besides its bytes, and how it is derived.

use std::hash::Hasher;

use vstd::prelude::*;

use crate::content_type::ContentType;
use crate::dates::LastModified;
use crate::etag::{ETag, ETagView};

verus! {

/// The metadata of an asset.
#[derive(Clone, Debug)]
pub struct Metadata {
    /// MIME type of the resource.
    pub content_type: ContentType,
    /// The entity tag to match against `If-None-Match`, if any.
    pub etag: Option<ETag>,
    /// When the resource last changed, to compare with `If-Modified-Since`, if known.
    pub last_modified: Option<LastModified>,
}

/// What the metadata of an asset holds.
pub struct MetadataView {
    pub content_type: Seq<char>,
    pub etag: Option<ETagView>,
    pub last_modified: Option<u64>,
}

impl View for Metadata {
    type V = MetadataView;

    open spec fn view(&self) -> MetadataView {
        MetadataView {
            content_type: self.content_type@,
            etag: match self.etag {
                Some(e) => Some(e@),
                None => None,
            },
            last_modified: match self.last_modified {
                Some(t) => Some(t@),
                None => None,
            },
        }
    }
}

/// The text of the first MIME type that `mime_guess` knows for the extension
/// of `path`; nothing when it knows none.
pub uninterp spec fn guessed_mime(path: Seq<char>) -> Option<Seq<char>>;

/// Relies on `mime_guess::from_path` and `MimeGuess::first`: the first MIME
/// type registered for the path's extension, written as text.
#[verifier::external_body]
fn guess_mime(path: &str) -> (r: Option<String>)
    ensures
        match r {
            Some(t) => guessed_mime(path@) == Some(t@),
            None => guessed_mime(path@) is None,
        },
{
    mime_guess::from_path(path).first().map(|m| m.to_string())
}

/// The content type of a file: what its extension suggests, or
/// `application/octet-stream` when it suggests nothing.
pub fn content_type(path: &str) -> (r: ContentType)
    ensures
        match guessed_mime(path@) {
            Some(t) => r@ == t,
            None => r@ == "application/octet-stream"@,
        },
{
    match guess_mime(path) {
        Some(text) => ContentType::from_text(text),
        None => ContentType::octet_stream(),
    }
}

/// Relies on `rapidhash::fast::RapidHasher` with its default seed. Its output
/// differs between targets, so nothing is claimed of it.
#[verifier::external_body]
fn content_hash(content: &[u8]) -> (r: u64) {
    let mut hasher = rapidhash::fast::RapidHasher::default_const();
    hasher.write(content);
    hasher.finish()
}

/// The lower-case hexadecimal digit of a value below 16.
pub open spec fn hex_digit(d: u64) -> u8 {
    if d < 10 {
        (48 + d) as u8
    } else {
        (87 + d) as u8
    }
}

/// The 4 bits of `h` that the `i`-th hexadecimal digit, from the most
/// significant one, stands for.
pub open spec fn nibble(h: u64, i: int) -> u64 {
    (h >> ((60 - 4 * i) as u64)) & 15u64
}

/// `h` in 16 lower-case hexadecimal digits, zero-padded.
pub open spec fn hex16(h: u64) -> Seq<u8> {
    Seq::new(16, |i: int| hex_digit(nibble(h, i)))
}

/// The strong entity tag whose value is `hash` in 16 hexadecimal digits.
pub fn etag_for_hash(hash: u64) -> (r: ETag)
    ensures
        r@ == (ETagView { weak: false, tag: hex16(hash) }),
{
    let mut tag: Vec<u8> = Vec::new();
    let mut i: u64 = 0;
    while i < 16
        invariant
            i <= 16,
            tag@ == hex16(hash).take(i as int),
            forall|j: int| 0 <= j < tag@.len() ==> #[trigger] tag@[j] < 128,
        decreases 16 - i,
    {
        let shift: u64 = 60 - 4 * i;
        let d: u64 = (hash >> shift) & 15;
        assert(d < 16) by (bit_vector)
            requires
                d == (hash >> shift) & 15,
        ;
        assert(d == nibble(hash, i as int));
        let c: u8 = if d < 10 {
            (48 + d) as u8
        } else {
            (87 + d) as u8
        };
        tag.push(c);
        assert(tag@ =~= hex16(hash).take(i + 1));
        i = i + 1;
    }
    assert(tag@ =~= hex16(hash));
    ETag::from_parts(false, tag.as_slice())
}

/// The entity tag of some content: a strong tag of 16 hexadecimal digits,
/// from a fast non-cryptographic hash of the bytes.
pub fn etag(content: &[u8]) -> (r: ETag)
    ensures
        !r@.weak,
        exists|h: u64| r@.tag == hex16(h),
{
    let hash = content_hash(content);
    etag_for_hash(hash)
}

} // verus!
