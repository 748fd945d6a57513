use tower_embed::{ContentType, ETag, Header, HeaderMap, HeaderMapExt, HeaderName, IfModifiedSince, IfNoneMatch, LastModified};

#[test]
fn etag_from_non_ascii_string() {
    assert!(ETag::new("välue").is_none());
}

#[test]
fn invalid_header_value() {
    let header_value = http::HeaderValue::from_static("abc");
    assert!(ETag::from_header_value(header_value.as_bytes()).is_none());
}

#[test]
fn weak_etag_detection() {
    let header_value = http::HeaderValue::from_static("\"xyzzy\"");
    let etag = ETag::from_header_value(header_value.as_bytes()).unwrap();
    assert!(!etag.is_weak());

    let header_value = http::HeaderValue::from_static("W/\"xyzzy\"");
    let etag = ETag::from_header_value(header_value.as_bytes()).unwrap();
    assert!(etag.is_weak());
}

#[test]
fn valid_if_none_match() {
    let header_value = http::HeaderValue::from_static("*");
    assert!(IfNoneMatch::from_header_value(header_value.as_bytes()).is_some());

    let header_value = http::HeaderValue::from_static(r#""etag""#);
    assert!(IfNoneMatch::from_header_value(header_value.as_bytes()).is_some());

    let header_value = http::HeaderValue::from_static(r#""etag1","etag2""#);
    assert!(IfNoneMatch::from_header_value(header_value.as_bytes()).is_some());

    let header_value = http::HeaderValue::from_static(r#""etag1", "etag2""#);
    assert!(IfNoneMatch::from_header_value(header_value.as_bytes()).is_some());
}

#[test]
fn condition_fails() {
    let etag = ETag::new("etag").unwrap();
    let weak_etag = ETag::weak("etag").unwrap();

    let if_none_match = {
        let header_value = http::HeaderValue::from_static(r#""etag""#);
        IfNoneMatch::from_header_value(header_value.as_bytes()).unwrap()
    };
    assert!(!if_none_match.condition_passes(&etag));
    assert!(!if_none_match.condition_passes(&weak_etag));

    let if_none_match = {
        let header_value = http::HeaderValue::from_static(r#""unmatched","etag""#);
        IfNoneMatch::from_header_value(header_value.as_bytes()).unwrap()
    };
    assert!(!if_none_match.condition_passes(&etag));
    assert!(!if_none_match.condition_passes(&weak_etag));

    let if_none_match = IfNoneMatch::any();
    assert!(!if_none_match.condition_passes(&etag));
}

#[test]
fn condition_passes() {
    let etag = ETag::new("etag").unwrap();
    let weak_etag = ETag::weak("etag").unwrap();

    let if_none_match = {
        let header_value = http::HeaderValue::from_static(r#""unmatched""#);
        IfNoneMatch::from_header_value(header_value.as_bytes()).unwrap()
    };

    assert!(if_none_match.condition_passes(&etag));
    assert!(if_none_match.condition_passes(&weak_etag));
}

#[test]
fn etag_round_trip_strong_and_weak() {
    for tag in ["abc", "", "a\"b", "0123456789abcdef"] {
        let strong = ETag::new(tag).unwrap();
        let encoded = strong.to_header_value();
        assert_eq!(encoded, format!("\"{tag}\"").into_bytes());
        let decoded = ETag::from_header_value(&encoded).unwrap();
        assert_eq!(decoded.value(), tag);
        assert!(!decoded.is_weak());

        let weak = ETag::weak(tag).unwrap();
        let encoded = weak.encode();
        assert_eq!(encoded, format!("W/\"{tag}\"").into_bytes());
        let decoded = ETag::decode(&encoded).unwrap();
        assert_eq!(decoded.value(), tag);
        assert!(decoded.is_weak());
    }
}

#[test]
fn etag_rejects_malformed_values() {
    assert!(ETag::from_header_value(b"\"").is_none());
    assert!(ETag::from_header_value(b"W/\"").is_none());
    assert!(ETag::from_header_value(b"W/abc").is_none());
    assert!(ETag::from_header_value(b"\"abc").is_none());
    assert!(ETag::from_header_value(b"\"v\xc3\xa4lue\"").is_none());
    assert!(ETag::from_header_value(b"").is_none());
    let empty = ETag::from_header_value(b"\"\"").unwrap();
    assert_eq!(empty.value(), "");
}

#[test]
fn etag_weak_eq_ignores_marker() {
    let weak = ETag::weak("x").unwrap();
    let strong = ETag::new("x").unwrap();
    assert!(weak.weak_eq(b"x"));
    assert!(strong.weak_eq(b"x"));
    assert!(!strong.weak_eq(b"y"));
    assert_eq!(strong.tag_bytes(), b"x");
    let copy = weak.clone();
    assert!(copy.is_weak());
    assert_eq!(copy.value(), "x");
}

#[test]
fn if_none_match_is_all_or_nothing() {
    assert!(IfNoneMatch::from_header_value(br#""a", bad"#).is_none());
    assert!(IfNoneMatch::from_header_value(br#""a", """#).is_some());
    assert!(IfNoneMatch::from_header_value(br#""a",,"b""#).is_none());
    assert!(IfNoneMatch::from_header_value(b"").is_none());
    assert!(IfNoneMatch::from_header_value(br#""""#).is_some());
    assert!(IfNoneMatch::from_header_value(br#"""#).is_none());
    assert!(IfNoneMatch::from_header_value(b"**").is_none());
}

#[test]
fn if_none_match_lists_trimmed_tags() {
    let h = IfNoneMatch::from_header_value(b" \"a\" ,\t\"bc\"").unwrap();
    assert_eq!(h.etags().unwrap(), vec![b"a".to_vec(), b"bc".to_vec()]);
    assert!(IfNoneMatch::any().etags().is_none());
    assert_eq!(h.to_header_value(), b" \"a\" ,\t\"bc\"".to_vec());
    assert_eq!(IfNoneMatch::any().encode(), b"*".to_vec());
    let etag = ETag::new("bc").unwrap();
    assert!(!h.condition_passes(&etag));
}

#[test]
fn last_modified_bounds_and_dates() {
    assert_eq!(LastModified::from_unix_timestamp(0).unwrap().unix_timestamp(), 0);
    assert!(LastModified::from_unix_timestamp(253402300799).is_some());
    assert!(LastModified::from_unix_timestamp(253402300800).is_none());
    assert!(LastModified::from_unix_timestamp(u64::MAX).is_none());

    let epoch = LastModified::from_unix_timestamp(0).unwrap();
    assert_eq!(epoch.to_header_value(), b"Thu, 01 Jan 1970 00:00:00 GMT".to_vec());
    let later = LastModified::from_unix_timestamp(1431704061).unwrap();
    assert_eq!(later.encode(), b"Fri, 15 May 2015 15:34:21 GMT".to_vec());

    for secs in [0u64, 1431704061, 951782400, 253402300799] {
        let encoded = LastModified::from_unix_timestamp(secs).unwrap().to_header_value();
        assert_eq!(LastModified::from_header_value(&encoded).unwrap().unix_timestamp(), secs);
    }
    let parsed = LastModified::from_header_value(b"Fri, 15 May 2015 15:34:21 GMT").unwrap();
    assert_eq!(parsed.unix_timestamp(), 1431704061);
    let parsed = LastModified::decode(b"Friday, 15-May-15 15:34:21 GMT").unwrap();
    assert_eq!(parsed.unix_timestamp(), 1431704061);
    assert!(LastModified::from_header_value(b"yesterday").is_none());
    assert!(LastModified::from_header_value(b"Fri, 15 May 2015 15:34:21 GMT\x01").is_none());
}

#[test]
fn if_modified_since_compares_strictly() {
    let threshold = IfModifiedSince::from_header_value(b"Thu, 01 Jan 1970 00:01:40 GMT").unwrap();
    assert_eq!(threshold.unix_timestamp(), 100);
    assert_eq!(threshold.to_header_value(), b"Thu, 01 Jan 1970 00:01:40 GMT".to_vec());
    assert!(threshold.condition_passes(&LastModified::from_unix_timestamp(101).unwrap()));
    assert!(!threshold.condition_passes(&LastModified::from_unix_timestamp(100).unwrap()));
    assert!(!threshold.condition_passes(&LastModified::from_unix_timestamp(99).unwrap()));
    assert!(IfModifiedSince::decode(b"not a date").is_none());
}

#[test]
fn content_type_parses_and_falls_back() {
    assert_eq!(ContentType::octet_stream().as_str(), "application/octet-stream");
    assert_eq!(ContentType::from_str("text/html").unwrap().as_str(), "text/html");
    assert_eq!(ContentType::from_str("Text/HTML").unwrap().as_str(), "text/html");
    assert!(ContentType::from_str("not a mime").is_none());
    let decoded = ContentType::from_header_value(b"text/plain; charset=utf-8").unwrap();
    assert_eq!(decoded.encode(), b"text/plain; charset=utf-8".to_vec());
    assert!(ContentType::from_header_value(b"text/\xffplain").is_none());
    assert_eq!(ContentType::header_name(), HeaderName::ContentType);
}

#[test]
fn header_names_on_the_wire() {
    assert_eq!(HeaderName::ContentType.as_str(), "content-type");
    assert_eq!(HeaderName::ETag.as_str(), "etag");
    assert_eq!(HeaderName::LastModified.as_str(), "last-modified");
    assert_eq!(HeaderName::IfNoneMatch.as_str(), "if-none-match");
    assert_eq!(HeaderName::IfModifiedSince.as_str(), "if-modified-since");
    assert_eq!(HeaderName::Allow.as_str(), "allow");
    assert_eq!(HeaderName::CacheControl.as_str(), "cache-control");
}

#[test]
fn header_map_typed_access() {
    let mut map = HeaderMap::new();
    assert!(map.typed_get::<ETag>().is_none());
    map.typed_insert(ETag::new("one").unwrap());
    map.typed_insert(LastModified::from_unix_timestamp(0).unwrap());
    map.typed_insert(ETag::weak("two").unwrap());
    assert_eq!(map.fields().len(), 2);
    let etag: ETag = map.typed_get().unwrap();
    assert!(etag.is_weak());
    assert_eq!(etag.value(), "two");
    assert_eq!(map.get(HeaderName::LastModified).unwrap(), b"Thu, 01 Jan 1970 00:00:00 GMT");
    map.insert(HeaderName::IfNoneMatch, b"bad".to_vec());
    assert!(map.typed_get::<IfNoneMatch>().is_none());
    assert!(map.get(HeaderName::Allow).is_none());
}
