use tower_embed::{
    content_type, directory_entry, etag, etag_for_hash, evaluate, normalize_path_with_index, Action, Asset, AssetTable,
    BodySource, ContentType, ETag, EmbedExt, Entry, Evaluation, Event, HeaderMap, HeaderName,
    IfModifiedSince, IfNoneMatch, LastModified, Metadata, Method, NotFoundPage, Phase,
    RequestFlow, ResolveError, TableEntry,
};


fn metadata(tag: Option<&str>, last_modified: Option<u64>) -> Metadata {
    Metadata {
        content_type: ContentType::from_str("text/html").unwrap(),
        etag: tag.map(|t| ETag::new(t).unwrap()),
        last_modified: last_modified.map(|s| LastModified::from_unix_timestamp(s).unwrap()),
    }
}

fn headers(fields: &[(HeaderName, &[u8])]) -> HeaderMap {
    let mut map = HeaderMap::new();
    for (name, value) in fields {
        map.insert(*name, value.to_vec());
    }
    map
}

fn field_list(map: &HeaderMap) -> Vec<(HeaderName, Vec<u8>)> {
    map.fields().iter().map(|f| (f.name, f.value.clone())).collect()
}

fn file(path: &str, body: &[u8]) -> TableEntry {
    TableEntry {
        path: path.to_string(),
        entry: Entry::File(Asset { content: body.to_vec(), metadata: metadata(Some("t"), None) }),
    }
}

fn redirect(path: &str, target: &str) -> TableEntry {
    TableEntry { path: path.to_string(), entry: Entry::Redirect(target.to_string()) }
}

#[test]
fn etag_match_is_not_modified() {
    let inm = IfNoneMatch::from_header_value(br#""abc""#).unwrap();
    assert_eq!(evaluate(Some(&inm), None, &metadata(Some("abc"), None)), Evaluation::NotModified);
    let inm = IfNoneMatch::from_header_value(br#""xyz""#).unwrap();
    assert_eq!(evaluate(Some(&inm), None, &metadata(Some("abc"), None)), Evaluation::Pass);
}

#[test]
fn weak_and_strong_tags_are_equal_to_the_evaluator() {
    let inm = IfNoneMatch::from_header_value(br#"W/"x""#);
    assert!(inm.is_none());
    let inm = IfNoneMatch::from_header_value(br#""x""#).unwrap();
    let mut weak = metadata(None, None);
    weak.etag = Some(ETag::weak("x").unwrap());
    assert_eq!(evaluate(Some(&inm), None, &weak), Evaluation::NotModified);
    assert_eq!(evaluate(Some(&inm), None, &metadata(Some("x"), None)), Evaluation::NotModified);
}

#[test]
fn etag_check_decides_before_dates() {
    let inm = IfNoneMatch::from_header_value(br#""xyz""#).unwrap();
    let ims = IfModifiedSince::from_header_value(b"Thu, 01 Jan 1970 00:16:40 GMT").unwrap();
    let meta = metadata(Some("abc"), Some(1000));
    assert_eq!(evaluate(Some(&inm), Some(&ims), &meta), Evaluation::Pass);
    let inm = IfNoneMatch::from_header_value(br#""abc""#).unwrap();
    let fresh = metadata(Some("abc"), Some(5000));
    assert_eq!(evaluate(Some(&inm), Some(&ims), &fresh), Evaluation::NotModified);
    let untagged = metadata(None, Some(1000));
    assert_eq!(evaluate(Some(&inm), Some(&ims), &untagged), Evaluation::NotModified);
}

#[test]
fn modified_since_threshold() {
    let ims = IfModifiedSince::from_header_value(b"Thu, 01 Jan 1970 00:01:40 GMT").unwrap();
    assert_eq!(evaluate(None, Some(&ims), &metadata(None, Some(101))), Evaluation::Pass);
    assert_eq!(evaluate(None, Some(&ims), &metadata(None, Some(100))), Evaluation::NotModified);
    assert_eq!(evaluate(None, Some(&ims), &metadata(None, Some(5))), Evaluation::NotModified);
    assert_eq!(evaluate(None, Some(&ims), &metadata(None, None)), Evaluation::Pass);
}

#[test]
fn missing_validators_skip_the_checks() {
    let inm = IfNoneMatch::any();
    assert_eq!(evaluate(Some(&inm), None, &metadata(None, None)), Evaluation::Pass);
    assert_eq!(evaluate(Some(&inm), None, &metadata(Some("a"), None)), Evaluation::NotModified);
    assert_eq!(evaluate(None, None, &metadata(Some("a"), Some(7))), Evaluation::Pass);
}

#[test]
fn directory_paths_resolve_to_index() {
    assert_eq!(normalize_path_with_index("/", "index.html"), "index.html");
    assert_eq!(normalize_path_with_index("", "index.html"), "index.html");
    assert_eq!(normalize_path_with_index("docs/", "index.html"), "docs/index.html");
    assert_eq!(normalize_path_with_index("/docs/", "index.html"), "docs/index.html");
    assert_eq!(normalize_path_with_index("//a", "index.html"), "/a");
    assert_eq!(normalize_path_with_index("/a.css", "index.html"), "a.css");
    assert_eq!(normalize_path_with_index("/é/", "i"), "é/i");

    let table = AssetTable::new(
        "index.html".to_string(),
        vec![file("index.html", b"root"), file("docs/index.html", b"docs")],
    );
    assert_eq!(table.resolve("/").unwrap().content, b"root");
    assert_eq!(table.resolve("index.html").unwrap().content, b"root");
    assert_eq!(table.resolve("docs/").unwrap().content, b"docs");
    assert_eq!(table.resolve("docs/index.html").unwrap().content, b"docs");
    assert_eq!(table.index(), "index.html");
    assert_eq!(table.resolve_normalized(&"docs/index.html".to_string()).unwrap().content, b"docs");
    assert!(matches!(table.resolve_normalized(&"/index.html".to_string()), Err(ResolveError::NotFound)));
    assert!(matches!(table.resolve_normalized(&"docs/".to_string()), Err(ResolveError::NotFound)));
}

#[test]
fn directory_without_slash_resolves_like_with_it() {
    let root = directory_entry(String::new(), "index.html");
    assert!(matches!(root.entry, Entry::Redirect(ref t) if t == "index.html"));
    let table = AssetTable::new(
        "index.html".to_string(),
        vec![
            root,
            file("index.html", b"root"),
            directory_entry("d".to_string(), "index.html"),
            file("d/index.html", b"dir"),
        ],
    );
    for path in ["/d", "/d/", "/d/index.html", "d"] {
        assert_eq!(table.resolve(path).unwrap().content, b"dir");
    }
    for path in ["", "/", "/index.html"] {
        assert_eq!(table.resolve(path).unwrap().content, b"root");
    }
}

#[test]
fn table_follows_redirects_and_stops_on_cycles() {
    let table = AssetTable::new(
        "index.html".to_string(),
        vec![
            redirect("docs", "docs/index.html"),
            file("docs/index.html", b"docs"),
            redirect("loop", "loop"),
            redirect("dangling", "nowhere"),
            file("a.txt", b"first"),
            file("a.txt", b"second"),
        ],
    );
    assert_eq!(table.resolve("/docs").unwrap().content, b"docs");
    assert_eq!(table.resolve("/a.txt").unwrap().content, b"first");
    assert!(matches!(table.resolve("/loop"), Err(ResolveError::NotFound)));
    assert!(matches!(table.resolve("/dangling"), Err(ResolveError::NotFound)));
    assert!(matches!(table.resolve("/missing"), Err(ResolveError::NotFound)));
}

#[test]
fn post_is_method_not_allowed() {
    for path in ["/", "/index.html", "/missing", ""] {
        let (flow, action) = RequestFlow::start(Method::Other, path, HeaderMap::new(), true, "index.html");
        assert_eq!(flow.phase(), Phase::Completed);
        match action {
            Action::Respond(head) => {
                assert_eq!(head.status, 405);
                assert_eq!(field_list(&head.headers), vec![(HeaderName::Allow, b"GET, HEAD".to_vec())]);
                assert_eq!(head.body, BodySource::Empty);
            }
            _ => panic!("expected a response"),
        }
    }
}

#[test]
fn not_found_without_fallback_is_404() {
    let (mut flow, action) = RequestFlow::start(Method::Get, "/missing", HeaderMap::new(), false, "index.html");
    assert!(matches!(action, Action::Resolve(ref p) if p == "missing"));
    match flow.step(Event::Resolved(Err(ResolveError::NotFound))) {
        Action::Respond(head) => {
            assert_eq!(head.status, 404);
            assert_eq!(field_list(&head.headers), vec![(HeaderName::CacheControl, b"no-store".to_vec())]);
            assert_eq!(head.body, BodySource::Empty);
        }
        _ => panic!("expected a response"),
    }
    assert_eq!(flow.phase(), Phase::Completed);
}

#[test]
fn not_found_with_fallback_forwards_once() {
    let (mut flow, _) = RequestFlow::start(Method::Get, "/missing", HeaderMap::new(), true, "index.html");
    assert!(matches!(flow.step(Event::Resolved(Err(ResolveError::NotFound))), Action::AwaitFallbackReady));
    assert_eq!(flow.phase(), Phase::AwaitingFallbackReady);
    assert!(matches!(flow.step(Event::FallbackResponded), Action::Ignore));
    assert!(matches!(flow.step(Event::FallbackReady), Action::CallFallback));
    assert!(matches!(flow.step(Event::FallbackReady), Action::Ignore));
    match flow.step(Event::FallbackResponded) {
        Action::ForwardFallback(extra) => {
            assert_eq!(field_list(&extra), vec![(HeaderName::CacheControl, b"no-store".to_vec())]);
        }
        _ => panic!("expected the fallback's response"),
    }
    assert_eq!(flow.phase(), Phase::Completed);
}

#[test]
fn other_resolution_error_is_500() {
    let (mut flow, _) = RequestFlow::start(Method::Head, "/x", HeaderMap::new(), true, "index.html");
    match flow.step(Event::Resolved(Err(ResolveError::Other))) {
        Action::Respond(head) => {
            assert_eq!(head.status, 500);
            assert_eq!(field_list(&head.headers), vec![(HeaderName::CacheControl, b"no-store".to_vec())]);
            assert_eq!(head.body, BodySource::Empty);
        }
        _ => panic!("expected a response"),
    }
}

#[test]
fn success_carries_validators() {
    let meta = metadata(Some("abc"), Some(0));
    let (mut flow, _) = RequestFlow::start(Method::Get, "/a.html", HeaderMap::new(), false, "index.html");
    match flow.step(Event::Resolved(Ok(&meta))) {
        Action::Respond(head) => {
            assert_eq!(head.status, 200);
            assert_eq!(head.body, BodySource::Content);
            assert_eq!(
                field_list(&head.headers),
                vec![
                    (HeaderName::ContentType, b"text/html".to_vec()),
                    (HeaderName::ETag, b"\"abc\"".to_vec()),
                    (HeaderName::LastModified, b"Thu, 01 Jan 1970 00:00:00 GMT".to_vec()),
                ]
            );
        }
        _ => panic!("expected a response"),
    }

    let bare = metadata(None, None);
    let (mut flow, _) = RequestFlow::start(Method::Head, "/a.html", HeaderMap::new(), false, "index.html");
    match flow.step(Event::Resolved(Ok(&bare))) {
        Action::Respond(head) => {
            assert_eq!(head.status, 200);
            assert_eq!(head.body, BodySource::Empty);
            assert_eq!(field_list(&head.headers), vec![(HeaderName::ContentType, b"text/html".to_vec())]);
        }
        _ => panic!("expected a response"),
    }
}

#[test]
fn request_validators_give_304() {
    let meta = metadata(Some("abc"), Some(1000));
    let req = headers(&[(HeaderName::IfNoneMatch, br#""zzz", "abc""#)]);
    let (mut flow, _) = RequestFlow::start(Method::Get, "/a", req, false, "index.html");
    match flow.step(Event::Resolved(Ok(&meta))) {
        Action::Respond(head) => {
            assert_eq!(head.status, 304);
            assert!(head.headers.fields().is_empty());
            assert_eq!(head.body, BodySource::Empty);
        }
        _ => panic!("expected a response"),
    }

    let req = headers(&[(HeaderName::IfModifiedSince, b"Thu, 01 Jan 1970 00:16:40 GMT")]);
    let (mut flow, _) = RequestFlow::start(Method::Get, "/a", req, false, "index.html");
    assert!(matches!(flow.step(Event::Resolved(Ok(&meta))), Action::Respond(ref h) if h.status == 304));

    let req = headers(&[(HeaderName::IfNoneMatch, b"\"abc\", bad")]);
    let (mut flow, _) = RequestFlow::start(Method::Get, "/a", req, false, "index.html");
    assert!(matches!(flow.step(Event::Resolved(Ok(&meta))), Action::Respond(ref h) if h.status == 200));
}

#[test]
fn not_found_page_resolves_its_path() {
    let page = NotFoundPage::new("404.html".to_string());
    assert_eq!(page.page(), "404.html");
    let (flow, action) = page.start(Method::Get, HeaderMap::new(), "index.html");
    assert_eq!(flow.phase(), Phase::AwaitingResolution);
    assert!(matches!(action, Action::Resolve(ref p) if p == "404.html"));
    for method in [Method::Other, Method::Head] {
        let (flow, action) = page.start(method, HeaderMap::new(), "index.html");
        assert_eq!(flow.phase(), Phase::AwaitingResolution);
        assert!(matches!(action, Action::Resolve(ref p) if p == "404.html"));
    }
    let page = AssetTable::not_found_page("errors/");
    assert_eq!(page.page(), "errors/");
}

#[test]
fn derived_metadata() {
    assert_eq!(content_type("style.css").as_str(), "text/css");
    assert_eq!(content_type("page.html").as_str(), "text/html");
    assert_eq!(content_type("no_extension").as_str(), "application/octet-stream");
    assert_eq!(etag_for_hash(0x0123456789abcdef).value(), "0123456789abcdef");
    assert_eq!(etag_for_hash(0).value(), "0000000000000000");
    assert_eq!(etag_for_hash(u64::MAX).value(), "ffffffffffffffff");
    let tag = etag(b"hello");
    assert!(!tag.is_weak());
    assert_eq!(tag.value().len(), 16);
    assert!(tag.value().bytes().all(|b| b.is_ascii_hexdigit() && !b.is_ascii_uppercase()));
    assert_eq!(etag(b"hello").value(), tag.value());
    assert_ne!(etag(b"hello").value(), etag(b"world").value());
}
