//! Serving of bundled binary assets as HTTP responses, with conditional
//! caching (`ETag`, `Last-Modified`, `If-None-Match`, `If-Modified-Since`)
//! and an optional fallback for missing resources.
//!
//! Everything here works on plain values: header values are byte strings,
//! points in time are seconds since the UNIX epoch, and the request flow is a
//! state machine that tells its driver which asynchronous step to take next.

pub mod ascii;
pub mod assets;
pub mod conditional;
pub mod content_type;
pub mod dates;
pub mod etag;
pub mod headers;
pub mod if_none_match;
pub mod metadata;
pub mod response;
pub mod serve;

pub use assets::{directory_entry, normalize_path_with_index, Asset, AssetTable, Entry, ResolveError, TableEntry};
pub use conditional::{evaluate, Evaluation};
pub use content_type::ContentType;
pub use dates::{IfModifiedSince, LastModified};
pub use etag::{ETag, ETagView};
pub use headers::{Header, HeaderField, HeaderMap, HeaderMapExt, HeaderName};
pub use if_none_match::{IfNoneMatch, IfNoneMatchView};
pub use metadata::{content_type, etag, etag_for_hash, Metadata, MetadataView};
pub use response::{BodySource, ResponseHead, ResponseHeadView};
pub use serve::{Action, EmbedExt, Event, Method, NotFoundPage, Phase, RequestFlow};
