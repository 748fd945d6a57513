//! Typed headers: each header type knows its name, how to read its value and
//! how to write it; a header map holds values by name.

use vstd::prelude::*;
use vstd::slice::slice_to_vec;
use vstd::utf8::encode_utf8;

use crate::content_type::{decode_content_type, ContentType};
use crate::dates::{decode_http_date, encode_http_date, IfModifiedSince, LastModified};
use crate::etag::{decode_etag, encode_etag, ETag};
use crate::if_none_match::{decode_if_none_match, encode_if_none_match, IfNoneMatch};

verus! {

/// The headers that requests and responses carry here.
#[derive(Clone, Copy, Debug, PartialEq, Eq, Structural)]
pub enum HeaderName {
    ContentType,
    ETag,
    LastModified,
    IfNoneMatch,
    IfModifiedSince,
    Allow,
    CacheControl,
}

/// A header's name on the wire, in lower case.
pub open spec fn header_name_text(n: HeaderName) -> Seq<char> {
    match n {
        HeaderName::ContentType => "content-type"@,
        HeaderName::ETag => "etag"@,
        HeaderName::LastModified => "last-modified"@,
        HeaderName::IfNoneMatch => "if-none-match"@,
        HeaderName::IfModifiedSince => "if-modified-since"@,
        HeaderName::Allow => "allow"@,
        HeaderName::CacheControl => "cache-control"@,
    }
}

impl HeaderName {
    /// The header's name on the wire, in lower case.
    pub fn as_str(&self) -> (r: &'static str)
        ensures
            r@ == header_name_text(*self),
    {
        match self {
            HeaderName::ContentType => "content-type",
            HeaderName::ETag => "etag",
            HeaderName::LastModified => "last-modified",
            HeaderName::IfNoneMatch => "if-none-match",
            HeaderName::IfModifiedSince => "if-modified-since",
            HeaderName::Allow => "allow",
            HeaderName::CacheControl => "cache-control",
        }
    }
}

/// A type that represents an HTTP header.
pub trait Header: Sized + View {
    /// The header's name.
    spec fn spec_name() -> HeaderName;

    /// What a header value decodes to.
    spec fn spec_decode(value: Seq<u8>) -> Option<Self::V>;

    /// The header value that carries a header.
    spec fn spec_encode(h: Self::V) -> Seq<u8>;

    /// The name of the header.
    fn header_name() -> (r: HeaderName)
        ensures
            r == Self::spec_name(),
    ;

    /// Decodes the header from a header value.
    fn decode(value: &[u8]) -> (r: Option<Self>)
        ensures
            match r {
                Some(h) => Self::spec_decode(value@) == Some(h@),
                None => Self::spec_decode(value@) is None,
            },
    ;

    /// Encodes the header into a header value.
    fn encode(self) -> (r: Vec<u8>)
        ensures
            r@ == Self::spec_encode(self@),
    ;
}

impl Header for ETag {
    open spec fn spec_name() -> HeaderName {
        HeaderName::ETag
    }

    open spec fn spec_decode(value: Seq<u8>) -> Option<Self::V> {
        decode_etag(value)
    }

    open spec fn spec_encode(h: Self::V) -> Seq<u8> {
        encode_etag(h)
    }

    fn header_name() -> (r: HeaderName) {
        HeaderName::ETag
    }

    fn decode(value: &[u8]) -> (r: Option<Self>) {
        ETag::from_header_value(value)
    }

    fn encode(self) -> (r: Vec<u8>) {
        self.to_header_value()
    }
}

impl Header for IfNoneMatch {
    open spec fn spec_name() -> HeaderName {
        HeaderName::IfNoneMatch
    }

    open spec fn spec_decode(value: Seq<u8>) -> Option<Self::V> {
        decode_if_none_match(value)
    }

    open spec fn spec_encode(h: Self::V) -> Seq<u8> {
        encode_if_none_match(h)
    }

    fn header_name() -> (r: HeaderName) {
        HeaderName::IfNoneMatch
    }

    fn decode(value: &[u8]) -> (r: Option<Self>) {
        IfNoneMatch::from_header_value(value)
    }

    fn encode(self) -> (r: Vec<u8>) {
        self.to_header_value()
    }
}

impl Header for LastModified {
    open spec fn spec_name() -> HeaderName {
        HeaderName::LastModified
    }

    open spec fn spec_decode(value: Seq<u8>) -> Option<Self::V> {
        decode_http_date(value)
    }

    open spec fn spec_encode(h: Self::V) -> Seq<u8> {
        encode_http_date(h)
    }

    fn header_name() -> (r: HeaderName) {
        HeaderName::LastModified
    }

    fn decode(value: &[u8]) -> (r: Option<Self>) {
        LastModified::from_header_value(value)
    }

    fn encode(self) -> (r: Vec<u8>) {
        self.to_header_value()
    }
}

impl Header for IfModifiedSince {
    open spec fn spec_name() -> HeaderName {
        HeaderName::IfModifiedSince
    }

    open spec fn spec_decode(value: Seq<u8>) -> Option<Self::V> {
        decode_http_date(value)
    }

    open spec fn spec_encode(h: Self::V) -> Seq<u8> {
        encode_http_date(h)
    }

    fn header_name() -> (r: HeaderName) {
        HeaderName::IfModifiedSince
    }

    fn decode(value: &[u8]) -> (r: Option<Self>) {
        IfModifiedSince::from_header_value(value)
    }

    fn encode(self) -> (r: Vec<u8>) {
        self.to_header_value()
    }
}

impl Header for ContentType {
    open spec fn spec_name() -> HeaderName {
        HeaderName::ContentType
    }

    open spec fn spec_decode(value: Seq<u8>) -> Option<Self::V> {
        decode_content_type(value)
    }

    open spec fn spec_encode(h: Self::V) -> Seq<u8> {
        encode_utf8(h)
    }

    fn header_name() -> (r: HeaderName) {
        HeaderName::ContentType
    }

    fn decode(value: &[u8]) -> (r: Option<Self>) {
        ContentType::from_header_value(value)
    }

    fn encode(self) -> (r: Vec<u8>) {
        self.to_header_value()
    }
}

/// The value that the first field named `name` holds.
pub open spec fn header_lookup(fields: Seq<(HeaderName, Seq<u8>)>, name: HeaderName) -> Option<
    Seq<u8>,
>
    decreases fields.len(),
{
    if fields.len() == 0 {
        None
    } else if fields[0].0 == name {
        Some(fields[0].1)
    } else {
        header_lookup(fields.drop_first(), name)
    }
}

/// The fields after setting `name` to `value`: the first field of that name
/// takes the value, or a new field goes at the end.
pub open spec fn header_insert(
    fields: Seq<(HeaderName, Seq<u8>)>,
    name: HeaderName,
    value: Seq<u8>,
) -> Seq<(HeaderName, Seq<u8>)>
    decreases fields.len(),
{
    if fields.len() == 0 {
        seq![(name, value)]
    } else if fields[0].0 == name {
        fields.update(0, (name, value))
    } else {
        seq![fields[0]] + header_insert(fields.drop_first(), name, value)
    }
}

/// After setting a header, reading it gives the value set, and the other
/// headers keep theirs.
pub proof fn lemma_lookup_after_insert(
    fields: Seq<(HeaderName, Seq<u8>)>,
    name: HeaderName,
    value: Seq<u8>,
    other: HeaderName,
)
    ensures
        header_lookup(header_insert(fields, name, value), name) == Some(value),
        other != name ==> header_lookup(header_insert(fields, name, value), other)
            == header_lookup(fields, other),
    decreases fields.len(),
{
    let ins = header_insert(fields, name, value);
    if fields.len() > 0 && fields[0].0 != name {
        lemma_lookup_after_insert(fields.drop_first(), name, value, other);
        assert(ins[0] == fields[0]);
        assert(ins.drop_first() =~= header_insert(fields.drop_first(), name, value));
        if fields[0].0 != other {
            assert(header_lookup(ins, other) == header_lookup(ins.drop_first(), other));
        }
    } else if fields.len() > 0 {
        assert(ins[0] == (name, value));
        assert(ins.drop_first() =~= fields.drop_first());
        if other != name {
            assert(header_lookup(ins, other) == header_lookup(ins.drop_first(), other));
        }
    } else {
        assert(ins.drop_first() =~= Seq::<(HeaderName, Seq<u8>)>::empty());
    }
}

/// One header field: a name and its value.
pub struct HeaderField {
    pub name: HeaderName,
    pub value: Vec<u8>,
}

/// The fields of a list of header fields, as names and byte strings.
pub open spec fn field_views(fields: Seq<HeaderField>) -> Seq<(HeaderName, Seq<u8>)> {
    fields.map_values(|f: HeaderField| (f.name, f.value@))
}

/// No two fields share a name.
pub open spec fn names_unique(fields: Seq<(HeaderName, Seq<u8>)>) -> bool {
    forall|i: int, j: int| 0 <= i < j < fields.len() ==> fields[i].0 != fields[j].0
}

/// Header fields in order, at most one for each name.
///
/// The request flow reads and writes header values as bytes, which an
/// `http::HeaderMap` would keep out of reach of its contracts; the driver
/// copies the fields it needs between the two.
pub struct HeaderMap {
    fields: Vec<HeaderField>,
}

impl View for HeaderMap {
    type V = Seq<(HeaderName, Seq<u8>)>;

    closed spec fn view(&self) -> Seq<(HeaderName, Seq<u8>)> {
        field_views(self.fields@)
    }
}

impl HeaderMap {
    #[verifier::type_invariant]
    spec fn inv(&self) -> bool {
        names_unique(field_views(self.fields@))
    }

    /// A map without fields.
    pub fn new() -> (r: HeaderMap)
        ensures
            r@ == Seq::<(HeaderName, Seq<u8>)>::empty(),
    {
        let r = HeaderMap { fields: Vec::new() };
        assert(r@ =~= Seq::<(HeaderName, Seq<u8>)>::empty());
        r
    }

    /// The value of the first field named `name`.
    pub fn get(&self, name: HeaderName) -> (r: Option<&[u8]>)
        ensures
            match r {
                Some(v) => header_lookup(self@, name) == Some(v@),
                None => header_lookup(self@, name) is None,
            },
    {
        let mut i: usize = 0;
        assert(self@.skip(0) =~= self@);
        while i < self.fields.len()
            invariant
                i <= self.fields@.len(),
                header_lookup(self@, name) == header_lookup(self@.skip(i as int), name),
            decreases self.fields@.len() - i,
        {
            assert(self@.skip(i as int).drop_first() =~= self@.skip(i + 1));
            if self.fields[i].name == name {
                return Some(self.fields[i].value.as_slice());
            }
            i = i + 1;
        }
        None
    }

    /// Sets `name` to `value`, in place of the first field of that name.
    pub fn insert(&mut self, name: HeaderName, value: Vec<u8>)
        ensures
            final(self)@ == header_insert(old(self)@, name, value@),
            (forall|j: int| 0 <= j < old(self)@.len() ==> (#[trigger] old(self)@[j]).0 != name)
                ==> final(self)@ == old(self)@.push((name, value@)),
            names_unique(final(self)@),
    {
        proof {
            use_type_invariant(&*self);
        }
        let ghost start = self@;
        let n = self.fields.len();
        let mut i: usize = 0;
        while i < n && self.fields[i].name != name
            invariant
                n == self.fields@.len(),
                i <= n,
                self@ == start,
                forall|j: int| 0 <= j < i ==> (#[trigger] start[j]).0 != name,
            decreases n - i,
        {
            assert(start[i as int].0 == self.fields@[i as int].name);
            i = i + 1;
        }
        if i < n {
            assert(start[i as int].0 == self.fields@[i as int].name);
        }
        proof {
            lemma_insert_at(start, name, value@, i as int);
        }
        let mut fields: Vec<HeaderField> = Vec::new();
        assert(field_views(fields@) =~= Seq::<(HeaderName, Seq<u8>)>::empty());
        copy_fields(&self.fields, 0, i, &mut fields);
        fields.push(HeaderField { name, value });
        assert(field_views(fields@) =~= start.take(i as int).push((name, value@)));
        let ghost result = if i < n {
            start.update(i as int, (name, value@))
        } else {
            start.push((name, value@))
        };
        if i < n {
            copy_fields(&self.fields, i + 1, n, &mut fields);
        }
        assert(field_views(fields@) =~= result);
        assert(names_unique(result)) by {
            assert forall|a: int, b: int| 0 <= a < b < result.len() implies result[a].0
                != result[b].0 by {
                if a != i && b != i && b < start.len() {
                    assert(result[a] == start[a] && result[b] == start[b]);
                } else if b != i && b < start.len() {
                    assert(result[b] == start[b]);
                } else if a != i && a < start.len() {
                    assert(result[a] == start[a]);
                }
            }
        }
        *self = HeaderMap { fields };
    }

    /// The fields, in order.
    pub fn fields(&self) -> (r: &Vec<HeaderField>)
        ensures
            field_views(r@) == self@,
            names_unique(self@),
    {
        proof {
            use_type_invariant(self);
        }
        &self.fields
    }
}

/// Appends copies of the fields of `src` from `from` up to `to`.
fn copy_fields(src: &Vec<HeaderField>, from: usize, to: usize, out: &mut Vec<HeaderField>)
    requires
        from <= to <= src@.len(),
    ensures
        field_views(final(out)@) == field_views(old(out)@) + field_views(src@).subrange(
            from as int,
            to as int,
        ),
{
    let mut k = from;
    while k < to
        invariant
            from <= k <= to <= src@.len(),
            field_views(out@) == field_views(old(out)@) + field_views(src@).subrange(
                from as int,
                k as int,
            ),
        decreases to - k,
    {
        let f = &src[k];
        let ghost prev = field_views(out@);
        let copy = HeaderField { name: f.name, value: slice_to_vec(f.value.as_slice()) };
        let ghost cv = (copy.name, copy.value@);
        assert(field_views(src@)[k as int] == cv);
        out.push(copy);
        assert(field_views(out@) =~= prev.push(cv));
        assert(field_views(out@) =~= field_views(old(out)@) + field_views(src@).subrange(
            from as int,
            k + 1,
        ));
        k = k + 1;
    }
}

proof fn lemma_insert_at(
    fields: Seq<(HeaderName, Seq<u8>)>,
    name: HeaderName,
    value: Seq<u8>,
    i: int,
)
    requires
        0 <= i <= fields.len(),
        forall|j: int| 0 <= j < i ==> (#[trigger] fields[j]).0 != name,
        i < fields.len() ==> fields[i].0 == name,
    ensures
        i < fields.len() ==> header_insert(fields, name, value) == fields.update(i, (name, value)),
        i == fields.len() ==> header_insert(fields, name, value) == fields.push((name, value)),
    decreases i,
{
    if i > 0 {
        lemma_insert_at(fields.drop_first(), name, value, i - 1);
        if i < fields.len() {
            assert(seq![fields[0]] + fields.drop_first().update(i - 1, (name, value))
                =~= fields.update(i, (name, value)));
        } else {
            assert(seq![fields[0]] + fields.drop_first().push((name, value)) =~= fields.push(
                (name, value),
            ));
        }
    }
}

/// Typed access to the fields of a header map.
pub trait HeaderMapExt {
    /// The map's fields, as names and byte strings.
    spec fn header_fields(&self) -> Seq<(HeaderName, Seq<u8>)>;

    /// Reads a typed header: nothing when it is absent or does not decode.
    fn typed_get<H: Header>(&self) -> (r: Option<H>)
        ensures
            match header_lookup(self.header_fields(), H::spec_name()) {
                Some(v) => match r {
                    Some(h) => H::spec_decode(v) == Some(h@),
                    None => H::spec_decode(v) is None,
                },
                None => r is None,
            },
    ;

    /// Sets a typed header: afterwards it is the one field of its name.
    fn typed_insert<H: Header>(&mut self, header: H)
        ensures
            final(self).header_fields() == header_insert(
                old(self).header_fields(),
                H::spec_name(),
                H::spec_encode(header@),
            ),
            names_unique(final(self).header_fields()),
            header_lookup(final(self).header_fields(), H::spec_name()) == Some(
                H::spec_encode(header@),
            ),
    ;
}

impl HeaderMapExt for HeaderMap {
    open spec fn header_fields(&self) -> Seq<(HeaderName, Seq<u8>)> {
        self@
    }

    fn typed_get<H: Header>(&self) -> (r: Option<H>) {
        match self.get(H::header_name()) {
            Some(value) => H::decode(value),
            None => None,
        }
    }

    fn typed_insert<H: Header>(&mut self, header: H) {
        let name = H::header_name();
        let value = header.encode();
        let ghost before = self@;
        self.insert(name, value);
        proof {
            lemma_lookup_after_insert(before, name, value@, name);
        }
    }
}

} // verus!
