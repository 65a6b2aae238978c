use authproxy::headers::{
    copy_headers_filtered, copy_response_headers_filtered, hop_by_hop_header, is_cors_header,
    HeaderEntry, Headers,
};

fn entry(name: &str, value: &[u8]) -> HeaderEntry {
    HeaderEntry { name: name.to_string(), value: value.to_vec() }
}

fn names(h: &Headers) -> Vec<String> {
    h.entries.iter().map(|e| e.name.clone()).collect()
}

fn value_of<'a>(h: &'a Headers, name: &str) -> Option<&'a Vec<u8>> {
    h.get_value(name)
}

#[test]
fn hop_by_hop_names_match_case_insensitively() {
    assert!(hop_by_hop_header("connection"));
    assert!(hop_by_hop_header("Connection"));
    assert!(hop_by_hop_header("TRANSFER-ENCODING"));
    assert!(hop_by_hop_header("te"));
    assert!(hop_by_hop_header("Trailer"));
    assert!(hop_by_hop_header("proxy-authenticate"));
    assert!(hop_by_hop_header("Proxy-Authorization"));
    assert!(hop_by_hop_header("Upgrade"));
    assert!(hop_by_hop_header("Host"));
    assert!(!hop_by_hop_header("content-type"));
    assert!(!hop_by_hop_header("authorization"));
    assert!(!hop_by_hop_header("x-connection"));
}

#[test]
fn cors_names_match_case_insensitively() {
    assert!(is_cors_header("access-control-allow-origin"));
    assert!(is_cors_header("Access-Control-Allow-Methods"));
    assert!(is_cors_header("ACCESS-CONTROL-ALLOW-HEADERS"));
    assert!(is_cors_header("access-control-max-age"));
    assert!(is_cors_header("access-control-expose-headers"));
    assert!(is_cors_header("access-control-allow-credentials"));
    assert!(is_cors_header("access-control-request-method"));
    assert!(is_cors_header("access-control-request-headers"));
    assert!(!is_cors_header("origin"));
    assert!(!is_cors_header("content-type"));
}

#[test]
fn request_copy_drops_hop_by_hop_and_authorization() {
    let src = Headers {
        entries: vec![
            entry("connection", b"keep-alive"),
            entry("Authorization", b"Bearer caller-secret"),
            entry("content-type", b"application/json"),
            entry("Host", b"example.com"),
            entry("accept", b"*/*"),
        ],
    };
    let mut dst = Headers::new();
    copy_headers_filtered(&src, &mut dst);
    assert_eq!(names(&dst), vec!["content-type".to_string(), "accept".to_string()]);
    assert_eq!(value_of(&dst, "content-type").unwrap().as_slice(), b"application/json");
}

#[test]
fn request_copy_preserves_repeated_names_in_order() {
    let src = Headers {
        entries: vec![
            entry("x-tag", b"first"),
            entry("accept", b"*/*"),
            entry("x-tag", b"second"),
        ],
    };
    let mut dst = Headers::new();
    copy_headers_filtered(&src, &mut dst);
    assert_eq!(dst.len(), 3);
    assert_eq!(
        names(&dst),
        vec!["x-tag".to_string(), "accept".to_string(), "x-tag".to_string()]
    );
    assert_eq!(dst.entries[0].value, b"first".to_vec());
    assert_eq!(dst.entries[2].value, b"second".to_vec());
    // the first value is what a point lookup sees
    assert_eq!(value_of(&dst, "x-tag").unwrap().as_slice(), b"first");
}

#[test]
fn response_copy_preserves_every_repeated_header() {
    let src = Headers {
        entries: vec![
            entry("set-cookie", b"a=1"),
            entry("content-type", b"application/json"),
            entry("set-cookie", b"b=2"),
        ],
    };
    let mut dst = Headers::new();
    copy_response_headers_filtered(&src, &mut dst);
    assert_eq!(dst.len(), 3);
    assert_eq!(
        names(&dst),
        vec![
            "set-cookie".to_string(),
            "content-type".to_string(),
            "set-cookie".to_string()
        ]
    );
    assert_eq!(dst.entries[0].value, b"a=1".to_vec());
    assert_eq!(dst.entries[2].value, b"b=2".to_vec());
}

#[test]
fn request_copy_silently_drops_untransmissible_values() {
    let src = Headers {
        entries: vec![
            entry("x-bad", b"line\nbreak"),
            entry("x-high", &[0x80, 0xff]),
            entry("x-tab", b"a\tb"),
        ],
    };
    let mut dst = Headers::new();
    copy_headers_filtered(&src, &mut dst);
    // a control byte is rejected by the transport, high bytes and tab are not
    assert!(value_of(&dst, "x-bad").is_none());
    assert_eq!(value_of(&dst, "x-high").unwrap(), &vec![0x80u8, 0xff]);
    assert_eq!(value_of(&dst, "x-tab").unwrap().as_slice(), b"a\tb");
}

#[test]
fn response_copy_strips_cors_and_hop_by_hop() {
    let src = Headers {
        entries: vec![
            entry("Access-Control-Allow-Origin", b"https://upstream.example"),
            entry("access-control-max-age", b"60"),
            entry("transfer-encoding", b"chunked"),
            entry("content-type", b"text/event-stream"),
            entry("x-request-id", b"abc123"),
        ],
    };
    let mut dst = Headers::new();
    copy_response_headers_filtered(&src, &mut dst);
    assert_eq!(
        names(&dst),
        vec!["content-type".to_string(), "x-request-id".to_string()]
    );
}

#[test]
fn insert_replaces_every_entry_with_that_name() {
    let mut h = Headers {
        entries: vec![
            entry("x-a", b"1"),
            entry("X-A", b"2"),
            entry("x-b", b"3"),
        ],
    };
    h.insert("x-a".to_string(), b"4".to_vec());
    assert_eq!(h.len(), 2);
    assert_eq!(names(&h), vec!["x-b".to_string(), "x-a".to_string()]);
    assert_eq!(value_of(&h, "x-a").unwrap().as_slice(), b"4");
}

#[test]
fn get_value_returns_first_match_case_insensitively() {
    let h = Headers {
        entries: vec![
            entry("X-Tag", b"one"),
            entry("x-tag", b"two"),
        ],
    };
    assert_eq!(h.get_value("x-TAG").unwrap().as_slice(), b"one");
    assert!(h.get_value("missing").is_none());
}
