//! The `Content-Type` header: a MIME type.

use vstd::prelude::*;
use vstd::utf8::encode_utf8;

use crate::ascii::{ascii_str, ascii_text, is_ascii_byte};
use crate::dates::{all_visible_ascii, bytes_are_visible_ascii, is_visible_ascii};

verus! {

/// The text of the MIME type that `mime` reads from `s` and writes back;
/// nothing when `s` is no MIME type.
pub uninterp spec fn parsed_mime(s: Seq<char>) -> Option<Seq<char>>;

/// What a header value that holds a MIME type decodes to.
pub open spec fn decode_content_type(v: Seq<u8>) -> Option<Seq<char>> {
    if all_visible_ascii(v) {
        parsed_mime(ascii_text(v))
    } else {
        None
    }
}

#[verifier::external_type_specification]
#[verifier::external_body]
pub struct ExMimeFromStrError(mime::FromStrError);

/// Relies on `mime`'s `FromStr` for `Mime`, and on its `Display`, which
/// writes the parsed type's text.
#[verifier::external_body]
fn parse_mime(s: &str) -> (r: Result<String, mime::FromStrError>)
    ensures
        match r {
            Ok(t) => parsed_mime(s@) == Some(t@),
            Err(_) => parsed_mime(s@) is None,
        },
{
    s.parse::<mime::Mime>().map(|m| m.to_string())
}

/// Relies on `mime::APPLICATION_OCTET_STREAM`, the type of arbitrary bytes.
#[verifier::external_body]
fn octet_stream_text() -> (r: String)
    ensures
        r@ == "application/octet-stream"@,
{
    mime::APPLICATION_OCTET_STREAM.to_string()
}

/// A `Content-Type` header, kept as the text of its MIME type.
#[derive(Clone, Debug)]
pub struct ContentType {
    text: String,
}

impl View for ContentType {
    type V = Seq<char>;

    closed spec fn view(&self) -> Seq<char> {
        self.text@
    }
}

impl ContentType {
    /// The type of arbitrary bytes, `application/octet-stream`.
    pub fn octet_stream() -> (r: ContentType)
        ensures
            r@ == "application/octet-stream"@,
    {
        ContentType { text: octet_stream_text() }
    }

    /// Reads a MIME type; nothing when `mime` is not one.
    pub fn from_str(mime: &str) -> (r: Option<ContentType>)
        ensures
            match r {
                Some(c) => parsed_mime(mime@) == Some(c@),
                None => parsed_mime(mime@) is None,
            },
    {
        match parse_mime(mime) {
            Ok(text) => Some(ContentType { text }),
            Err(_) => None,
        }
    }

    /// A content type from a text that is already a MIME type's.
    pub(crate) fn from_text(text: String) -> (r: ContentType)
        ensures
            r@ == text@,
    {
        ContentType { text }
    }

    /// The MIME type's text.
    pub fn as_str(&self) -> (r: &str)
        ensures
            r@ == self@,
    {
        self.text.as_str()
    }

    /// Reads the MIME type in a header value.
    pub fn from_header_value(value: &[u8]) -> (r: Option<ContentType>)
        ensures
            match r {
                Some(c) => decode_content_type(value@) == Some(c@),
                None => decode_content_type(value@) is None,
            },
    {
        if !bytes_are_visible_ascii(value) {
            return None;
        }
        assert forall|j: int| 0 <= j < value@.len() implies is_ascii_byte(#[trigger] value@[j]) by {
            assert(is_visible_ascii(value@[j]));
        }
        Self::from_str(ascii_str(value))
    }

    /// The header value: the MIME type's text.
    pub fn to_header_value(&self) -> (r: Vec<u8>)
        ensures
            r@ == encode_utf8(self@),
    {
        vstd::slice::slice_to_vec(self.text.as_str().as_bytes())
    }
}

} // verus!
