//! The date headers: `Last-Modified` and `If-Modified-Since`.
//!
//! A point in time is a count of whole seconds since the UNIX epoch, the
//! precision of an HTTP date.

use vstd::prelude::*;
use vstd::utf8::{encode_utf8, is_ascii_chars, is_ascii_chars_encode_utf8};

use crate::ascii::{ascii_str, ascii_text, is_ascii_byte};

verus! {

/// The first second that an HTTP date cannot express: 10000-01-01T00:00:00Z.
pub const HTTP_DATE_END: u64 = 253402300800;

/// A byte that may stand in a header value read as text: visible ASCII or tab.
pub open spec fn is_visible_ascii(b: u8) -> bool {
    (32 <= b && b < 127) || b == 9
}

/// Every byte of `s` is visible ASCII or tab.
pub open spec fn all_visible_ascii(s: Seq<u8>) -> bool {
    forall|i: int| 0 <= i < s.len() ==> is_visible_ascii(#[trigger] s[i])
}

/// The second, counted from the UNIX epoch, that the HTTP date `s` names;
/// nothing when `s` is not an HTTP date.
pub uninterp spec fn http_date_seconds(s: Seq<char>) -> Option<u64>;

/// The HTTP date (IMF-fixdate) of a second counted from the UNIX epoch.
pub uninterp spec fn http_date_text(secs: u64) -> Seq<char>;

/// What a header value that holds an HTTP date decodes to.
pub open spec fn decode_http_date(v: Seq<u8>) -> Option<u64> {
    if all_visible_ascii(v) {
        http_date_seconds(ascii_text(v))
    } else {
        None
    }
}

/// The header value of an HTTP date.
pub open spec fn encode_http_date(secs: u64) -> Seq<u8> {
    encode_utf8(http_date_text(secs))
}

#[verifier::external_type_specification]
#[verifier::external_body]
pub struct ExHttpDateError(httpdate::Error);

/// Relies on `httpdate::parse_http_date`: it reads the three HTTP date
/// formats, with years 1970 to 9999, to the second.
#[verifier::external_body]
fn parse_http_date(s: &str) -> (r: Result<u64, httpdate::Error>)
    ensures
        match r {
            Ok(t) => http_date_seconds(s@) == Some(t) && t < HTTP_DATE_END,
            Err(_) => http_date_seconds(s@) is None,
        },
{
    httpdate::parse_http_date(s).map(
        |t| t.duration_since(std::time::UNIX_EPOCH).unwrap_or_default().as_secs(),
    )
}

/// Relies on `httpdate::fmt_http_date`: it writes a point in time as an
/// IMF-fixdate of fixed visible ASCII characters, which `parse_http_date`
/// reads back to the same second (a date is valid only if it round-trips),
/// and panics from the year 10000 on.
#[verifier::external_body]
fn fmt_http_date(secs: u64) -> (r: String)
    requires
        secs < HTTP_DATE_END,
    ensures
        r@ == http_date_text(secs),
        http_date_seconds(r@) == Some(secs),
        forall|i: int| 0 <= i < r@.len() ==> ' ' <= #[trigger] r@[i] <= '~',
{
    httpdate::fmt_http_date(std::time::UNIX_EPOCH + std::time::Duration::from_secs(secs))
}

/// Checks that every byte of `s` is visible ASCII or tab.
pub(crate) fn bytes_are_visible_ascii(s: &[u8]) -> (r: bool)
    ensures
        r == all_visible_ascii(s@),
{
    let mut i: usize = 0;
    while i < s.len()
        invariant
            i <= s@.len(),
            forall|j: int| 0 <= j < i ==> is_visible_ascii(#[trigger] s@[j]),
        decreases s@.len() - i,
    {
        let b = s[i];
        if !((32 <= b && b < 127) || b == 9) {
            return false;
        }
        i = i + 1;
    }
    true
}

/// Reads the HTTP date in a header value.
fn decode_date(value: &[u8]) -> (r: Option<u64>)
    ensures
        r == decode_http_date(value@),
        r matches Some(t) ==> t < HTTP_DATE_END,
{
    if !bytes_are_visible_ascii(value) {
        return None;
    }
    assert forall|i: int| 0 <= i < value@.len() implies is_ascii_byte(#[trigger] value@[i]) by {
        assert(is_visible_ascii(value@[i]));
    }
    match parse_http_date(ascii_str(value)) {
        Ok(t) => Some(t),
        Err(_) => None,
    }
}

/// Writes an HTTP date as a header value; reading it back gives the same
/// second.
fn encode_date(secs: u64) -> (r: Vec<u8>)
    requires
        secs < HTTP_DATE_END,
    ensures
        r@ == encode_http_date(secs),
        decode_http_date(r@) == Some(secs),
{
    let text = fmt_http_date(secs);
    let r = vstd::slice::slice_to_vec(text.as_str().as_bytes());
    proof {
        let t = text@;
        assert(is_ascii_chars(t)) by {
            assert forall|i: int| 0 <= i < t.len() implies '\0' <= #[trigger] t[i] <= '\u{7f}' by {
                assert(' ' <= t[i] <= '~');
            }
        }
        is_ascii_chars_encode_utf8(t);
        assert forall|i: int| 0 <= i < r@.len() implies is_visible_ascii(#[trigger] r@[i]) by {
            assert(r@[i] == t[i] as u8);
            assert(' ' <= t[i] <= '~');
        }
        assert(ascii_text(r@) =~= t) by {
            assert forall|i: int| 0 <= i < t.len() implies ascii_text(r@)[i] == t[i] by {
                assert(r@[i] == t[i] as u8);
                assert(' ' <= t[i] <= '~');
            }
        }
    }
    r
}

/// A `Last-Modified` header: when the resource last changed.
#[derive(Clone, Copy, Debug)]
pub struct LastModified {
    secs: u64,
}

impl View for LastModified {
    type V = u64;

    closed spec fn view(&self) -> u64 {
        self.secs
    }
}

impl LastModified {
    #[verifier::type_invariant]
    spec fn inv(&self) -> bool {
        self.secs < HTTP_DATE_END
    }

    /// The point `seconds` after the UNIX epoch, when an HTTP date can express it.
    pub fn from_unix_timestamp(seconds: u64) -> (r: Option<LastModified>)
        ensures
            r is Some <==> seconds < HTTP_DATE_END,
            r matches Some(m) ==> m@ == seconds,
    {
        if seconds < HTTP_DATE_END {
            Some(LastModified { secs: seconds })
        } else {
            None
        }
    }

    /// Seconds since the UNIX epoch.
    pub fn unix_timestamp(&self) -> (r: u64)
        ensures
            r == self@,
            r < HTTP_DATE_END,
    {
        proof {
            use_type_invariant(self);
        }
        self.secs
    }

    /// Reads the HTTP date in a header value.
    pub fn from_header_value(value: &[u8]) -> (r: Option<LastModified>)
        ensures
            match r {
                Some(m) => decode_http_date(value@) == Some(m@),
                None => decode_http_date(value@) is None,
            },
    {
        match decode_date(value) {
            Some(t) => Some(LastModified { secs: t }),
            None => None,
        }
    }

    /// The header value: the HTTP date of this point, which decodes back to it.
    pub fn to_header_value(&self) -> (r: Vec<u8>)
        ensures
            r@ == encode_http_date(self@),
            decode_http_date(r@) == Some(self@),
    {
        encode_date(self.unix_timestamp())
    }
}

/// An `If-Modified-Since` header: the point after which a change is news.
#[derive(Clone, Copy, Debug)]
pub struct IfModifiedSince {
    secs: u64,
}

impl View for IfModifiedSince {
    type V = u64;

    closed spec fn view(&self) -> u64 {
        self.secs
    }
}

impl IfModifiedSince {
    #[verifier::type_invariant]
    spec fn inv(&self) -> bool {
        self.secs < HTTP_DATE_END
    }

    /// The condition passes when the resource changed strictly after this point.
    pub fn condition_passes(&self, last_modified: &LastModified) -> (r: bool)
        ensures
            r == (last_modified@ > self@),
    {
        last_modified.unix_timestamp() > self.secs
    }

    /// The threshold in seconds since the UNIX epoch.
    pub fn unix_timestamp(&self) -> (r: u64)
        ensures
            r == self@,
            r < HTTP_DATE_END,
    {
        proof {
            use_type_invariant(self);
        }
        self.secs
    }

    /// Reads the HTTP date in a header value.
    pub fn from_header_value(value: &[u8]) -> (r: Option<IfModifiedSince>)
        ensures
            match r {
                Some(m) => decode_http_date(value@) == Some(m@),
                None => decode_http_date(value@) is None,
            },
    {
        match decode_date(value) {
            Some(t) => Some(IfModifiedSince { secs: t }),
            None => None,
        }
    }

    /// The header value: the HTTP date of this point, which decodes back to it.
    pub fn to_header_value(&self) -> (r: Vec<u8>)
        ensures
            r@ == encode_http_date(self@),
            decode_http_date(r@) == Some(self@),
    {
        encode_date(self.unix_timestamp())
    }
}

} // verus!
