//! The responses that a request can end in.

use vstd::prelude::*;
use vstd::slice::slice_to_vec;
use vstd::utf8::encode_utf8;

use crate::dates::encode_http_date;
use crate::etag::encode_etag;
use crate::headers::{HeaderMap, HeaderName};
use crate::metadata::{Metadata, MetadataView};

verus! {

/// `200 OK`.
pub const STATUS_OK: u16 = 200;

/// `304 Not Modified`.
pub const STATUS_NOT_MODIFIED: u16 = 304;

/// `404 Not Found`.
pub const STATUS_NOT_FOUND: u16 = 404;

/// `405 Method Not Allowed`.
pub const STATUS_METHOD_NOT_ALLOWED: u16 = 405;

/// `500 Internal Server Error`.
pub const STATUS_INTERNAL_SERVER_ERROR: u16 = 500;

/// What a response's body carries.
#[derive(Clone, Copy, Debug, PartialEq, Eq, Structural)]
pub enum BodySource {
    /// Nothing.
    Empty,
    /// The resolved asset's content, streamed.
    Content,
}

/// The status, headers and body source of a response.
pub struct ResponseHead {
    pub status: u16,
    pub headers: HeaderMap,
    pub body: BodySource,
}

/// What a response head holds.
pub struct ResponseHeadView {
    pub status: u16,
    pub headers: Seq<(HeaderName, Seq<u8>)>,
    pub body: BodySource,
}

impl View for ResponseHead {
    type V = ResponseHeadView;

    open spec fn view(&self) -> ResponseHeadView {
        ResponseHeadView { status: self.status, headers: self.headers@, body: self.body }
    }
}

/// The value of `Cache-Control` that keeps a response out of caches.
pub open spec fn no_store_value() -> Seq<u8> {
    encode_utf8("no-store"@)
}

/// The value of `Allow`: the methods served here.
pub open spec fn allow_value() -> Seq<u8> {
    encode_utf8("GET, HEAD"@)
}

/// A head with an empty body and the given fields.
pub open spec fn empty_head(status: u16, headers: Seq<(HeaderName, Seq<u8>)>) -> ResponseHeadView {
    ResponseHeadView { status, headers, body: BodySource::Empty }
}

/// The headers of a successful response: `Content-Type`, then `ETag` and
/// `Last-Modified` where the asset has them.
pub open spec fn ok_headers(m: MetadataView) -> Seq<(HeaderName, Seq<u8>)> {
    let ct = seq![(HeaderName::ContentType, encode_utf8(m.content_type))];
    let with_etag = match m.etag {
        Some(e) => ct.push((HeaderName::ETag, encode_etag(e))),
        None => ct,
    };
    match m.last_modified {
        Some(t) => with_etag.push((HeaderName::LastModified, encode_http_date(t))),
        None => with_etag,
    }
}

/// `Cache-Control: no-store`, alone.
pub open spec fn no_store_headers() -> Seq<(HeaderName, Seq<u8>)> {
    seq![(HeaderName::CacheControl, no_store_value())]
}

/// A header map that holds `Cache-Control: no-store` alone.
pub fn no_store_header() -> (r: HeaderMap)
    ensures
        r@ == no_store_headers(),
{
    let mut headers = HeaderMap::new();
    headers.insert(HeaderName::CacheControl, slice_to_vec("no-store".as_bytes()));
    headers
}

/// `405 Method Not Allowed`, with `Allow: GET, HEAD`.
pub fn method_not_allowed() -> (r: ResponseHead)
    ensures
        r@ == empty_head(STATUS_METHOD_NOT_ALLOWED, seq![(HeaderName::Allow, allow_value())]),
{
    let mut headers = HeaderMap::new();
    headers.insert(HeaderName::Allow, slice_to_vec("GET, HEAD".as_bytes()));
    ResponseHead { status: STATUS_METHOD_NOT_ALLOWED, headers, body: BodySource::Empty }
}

/// `404 Not Found`, kept out of caches.
pub fn not_found_response() -> (r: ResponseHead)
    ensures
        r@ == empty_head(STATUS_NOT_FOUND, no_store_headers()),
{
    ResponseHead { status: STATUS_NOT_FOUND, headers: no_store_header(), body: BodySource::Empty }
}

/// `500 Internal Server Error`, kept out of caches; nothing of the error shows.
pub fn server_error_response() -> (r: ResponseHead)
    ensures
        r@ == empty_head(STATUS_INTERNAL_SERVER_ERROR, no_store_headers()),
{
    ResponseHead {
        status: STATUS_INTERNAL_SERVER_ERROR,
        headers: no_store_header(),
        body: BodySource::Empty,
    }
}

/// `304 Not Modified`, without headers.
pub fn not_modified_response() -> (r: ResponseHead)
    ensures
        r@ == empty_head(STATUS_NOT_MODIFIED, Seq::empty()),
{
    ResponseHead { status: STATUS_NOT_MODIFIED, headers: HeaderMap::new(), body: BodySource::Empty }
}

/// `200 OK` for an asset: its content type and validators as headers, and
/// its content as the body unless `head_only` (a `HEAD` request).
pub fn ok_response(metadata: &Metadata, head_only: bool) -> (r: ResponseHead)
    ensures
        r@ == (ResponseHeadView {
            status: STATUS_OK,
            headers: ok_headers(metadata@),
            body: if head_only {
                BodySource::Empty
            } else {
                BodySource::Content
            },
        }),
{
    let mut headers = HeaderMap::new();
    headers.insert(HeaderName::ContentType, metadata.content_type.to_header_value());
    if let Some(etag) = &metadata.etag {
        headers.insert(HeaderName::ETag, etag.to_header_value());
    }
    if let Some(last_modified) = &metadata.last_modified {
        headers.insert(HeaderName::LastModified, last_modified.to_header_value());
    }
    let body = if head_only {
        BodySource::Empty
    } else {
        BodySource::Content
    };
    ResponseHead { status: STATUS_OK, headers, body }
}

} // verus!
