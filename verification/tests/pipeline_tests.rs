use authproxy::auth::is_authorized;
use authproxy::headers::{HeaderEntry, Headers};
use authproxy::pipeline::{
    build_outbound_headers, build_relay_response, build_upstream_url, fault_response,
    plan_request, ProxyConfig, RequestPlan, TransportFault,
};

fn entry(name: &str, value: &[u8]) -> HeaderEntry {
    HeaderEntry { name: name.to_string(), value: value.to_vec() }
}

fn config() -> ProxyConfig {
    ProxyConfig {
        service_token: "svc-secret".to_string(),
        openai_api_key: "sk-upstream".to_string(),
    }
}

fn with_auth(value: &[u8]) -> Headers {
    Headers { entries: vec![entry("authorization", value), entry("accept", b"*/*")] }
}

#[test]
fn authorized_accepts_exact_bearer_token() {
    assert!(is_authorized(&with_auth(b"Bearer svc-secret"), "svc-secret"));
}

#[test]
fn authorized_rejects_missing_wrong_or_malformed_token() {
    let no_header = Headers { entries: vec![entry("accept", b"*/*")] };
    assert!(!is_authorized(&no_header, "svc-secret"));
    assert!(!is_authorized(&with_auth(b"Bearer other"), "svc-secret"));
    assert!(!is_authorized(&with_auth(b"bearer svc-secret"), "svc-secret"));
    assert!(!is_authorized(&with_auth(b"Bearer  svc-secret"), "svc-secret"));
    assert!(!is_authorized(&with_auth(b"svc-secret"), "svc-secret"));
    assert!(!is_authorized(&with_auth(b"Bearer svc-secret "), "svc-secret"));
    // a value the transport cannot read back as a string never authorizes
    assert!(!is_authorized(&with_auth(&[0x80, 0x81]), "svc-secret"));
}

#[test]
fn upstream_url_preserves_tail_and_query() {
    let url = build_upstream_url("chat/completions", Some("foo=bar"));
    assert_eq!(url, "https://api.openai.com/v1/chat/completions?foo=bar");
    let url = build_upstream_url("models", None);
    assert_eq!(url, "https://api.openai.com/v1/models");
    let url = build_upstream_url("", None);
    assert_eq!(url, "https://api.openai.com/v1/");
}

#[test]
fn options_request_short_circuits_to_preflight() {
    let cfg = config();
    // no authorization header at all: preflight still answers
    let headers = Headers { entries: vec![] };
    match plan_request(&cfg, "OPTIONS", "chat/completions", None, &headers) {
        RequestPlan::Preflight { status, headers } => {
            assert_eq!(status, 204);
            assert_eq!(headers.len(), 4);
            assert_eq!(headers.get_value("access-control-allow-origin").unwrap().as_slice(), b"*");
            assert_eq!(
                headers.get_value("access-control-allow-methods").unwrap().as_slice(),
                b"GET, POST, PUT, DELETE, OPTIONS, PATCH"
            );
            assert_eq!(
                headers.get_value("access-control-allow-headers").unwrap().as_slice(),
                b"Authorization, Content-Type, Accept, X-Requested-With"
            );
            assert_eq!(headers.get_value("access-control-max-age").unwrap().as_slice(), b"86400");
        },
        _ => panic!("expected a preflight answer"),
    }
}

#[test]
fn unauthorized_request_is_rejected_with_401() {
    let cfg = config();
    let headers = with_auth(b"Bearer wrong");
    match plan_request(&cfg, "POST", "chat/completions", None, &headers) {
        RequestPlan::Reject { status, message } => {
            assert_eq!(status, 401);
            assert_eq!(message, "unauthorized: missing or invalid bearer token");
        },
        _ => panic!("expected a rejection"),
    }
}

#[test]
fn authorized_request_is_forwarded_with_exact_url() {
    let cfg = config();
    let headers = with_auth(b"Bearer svc-secret");
    match plan_request(&cfg, "POST", "chat/completions", Some("foo=bar"), &headers) {
        RequestPlan::Forward { url } => {
            assert_eq!(url, "https://api.openai.com/v1/chat/completions?foo=bar");
        },
        _ => panic!("expected a forward"),
    }
}

#[test]
fn unparsable_target_is_rejected_with_500() {
    let cfg = config();
    let headers = with_auth(b"Bearer svc-secret");
    match plan_request(&cfg, "POST", "chat completions", None, &headers) {
        RequestPlan::Reject { status, message } => {
            assert_eq!(status, 500);
            assert_eq!(message, "uri parse error");
        },
        _ => panic!("expected a rejection"),
    }
}

#[test]
fn outbound_headers_carry_upstream_credential_only() {
    let cfg = config();
    let inbound = Headers {
        entries: vec![
            entry("Authorization", b"Bearer svc-secret"),
            entry("connection", b"keep-alive"),
            entry("content-type", b"application/json"),
        ],
    };
    let out = build_outbound_headers(&cfg, &inbound).unwrap();
    assert_eq!(out.get_value("authorization").unwrap().as_slice(), b"Bearer sk-upstream");
    assert!(out.get_value("connection").is_none());
    assert_eq!(out.get_value("content-type").unwrap().as_slice(), b"application/json");
    // the caller's token appears nowhere
    for e in &out.entries {
        assert_ne!(e.value, b"Bearer svc-secret".to_vec());
    }
}

#[test]
fn untransmissible_upstream_credential_fails_with_500() {
    let cfg = ProxyConfig {
        service_token: "svc-secret".to_string(),
        openai_api_key: "bad\nkey".to_string(),
    };
    let inbound = Headers { entries: vec![] };
    match build_outbound_headers(&cfg, &inbound) {
        Err((status, message)) => {
            assert_eq!(status, 500);
            assert_eq!(message, "hdr error");
        },
        Ok(_) => panic!("expected a failure"),
    }
}

#[test]
fn relay_response_passes_status_and_replaces_cors() {
    let upstream = Headers {
        entries: vec![
            entry("access-control-allow-origin", b"https://upstream.example"),
            entry("transfer-encoding", b"chunked"),
            entry("content-type", b"text/event-stream"),
        ],
    };
    let (status, h) = build_relay_response(200, &upstream);
    assert_eq!(status, 200);
    assert_eq!(h.get_value("access-control-allow-origin").unwrap().as_slice(), b"*");
    assert_eq!(
        h.get_value("access-control-allow-methods").unwrap().as_slice(),
        b"GET, POST, PUT, DELETE, OPTIONS, PATCH"
    );
    assert_eq!(
        h.get_value("access-control-allow-headers").unwrap().as_slice(),
        b"Authorization, Content-Type, Accept, X-Requested-With"
    );
    assert_eq!(h.get_value("content-type").unwrap().as_slice(), b"text/event-stream");
    assert!(h.get_value("transfer-encoding").is_none());
    // exactly one allow-origin entry: the proxy's own
    let occurrences = h
        .entries
        .iter()
        .filter(|e| e.name.eq_ignore_ascii_case("access-control-allow-origin"))
        .count();
    assert_eq!(occurrences, 1);
}

#[test]
fn error_statuses_follow_the_fault() {
    let (status, message) = fault_response(&TransportFault::BodyRead);
    assert_eq!(status, 400);
    assert_eq!(message, "read body error");
    let (status, message) = fault_response(&TransportFault::UpstreamSend);
    assert_eq!(status, 502);
    assert_eq!(message, "upstream send error");
}

#[test]
fn status_other_than_success_passes_through() {
    let upstream = Headers { entries: vec![entry("content-type", b"application/json")] };
    let (status, _) = build_relay_response(429, &upstream);
    assert_eq!(status, 429);
}
