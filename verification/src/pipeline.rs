//! The request pipeline: the decisions the proxy takes for one inbound
//! request, in the order it takes them. The surrounding server performs the
//! I/O between the stages (reading the inbound body, sending upstream,
//! relaying chunks) and feeds each outcome back in.

use vstd::prelude::*;
use vstd::string::{StringExecFns, StringSliceAdditionalSpecFns};
use vstd::utf8::encode_utf8;
use crate::auth::{authorized_spec, bearer_prefix, is_authorized};
use crate::cors::{add_cors_headers, cors_headers_view, preflight_headers_view, preflight_response};
use crate::headers::{
    copy_headers_filtered, copy_request_spec, copy_response_headers_filtered, copy_response_spec,
    insert_view, valid_header_value, Headers,
};

verus! {

/// The process-wide read-only configuration: the secret the callers must
/// present, and the secret presented to the upstream API.
pub struct ProxyConfig {
    pub service_token: String,
    pub openai_api_key: String,
}

/// The fixed origin every request is forwarded to.
pub open spec fn upstream_origin_view() -> Seq<char> {
    "https://api.openai.com"@
}

/// The absolute upstream URL: fixed origin, `/v1/` plus the caller's path
/// tail taken verbatim, and the caller's query string if one was present.
pub open spec fn upstream_url_view(tail: Seq<char>, query: Option<Seq<char>>) -> Seq<char> {
    upstream_origin_view() + "/v1/"@ + tail + (match query {
        Some(q) => "?"@ + q,
        None => Seq::<char>::empty(),
    })
}

/// The view of an optional query string.
pub open spec fn query_view(query: Option<&str>) -> Option<Seq<char>> {
    match query {
        Some(q) => Some(q@),
        None => None,
    }
}

/// Builds the absolute upstream URL from the matched path tail and query.
pub fn build_upstream_url(tail: &str, query: Option<&str>) -> (r: String)
    ensures
        r@ == upstream_url_view(tail@, query_view(query)),
{
    let mut s = String::from_str("https://api.openai.com");
    s.append("/v1/");
    s.append(tail);
    match query {
        Some(q) => {
            s.append("?");
            s.append(q);
            proof {
                assert(s@ =~= upstream_url_view(tail@, query_view(query)));
            }
        },
        None => {
            proof {
                assert(s@ =~= upstream_url_view(tail@, query_view(query)));
            }
        },
    }
    s
}

/// Whether a string is accepted by the URI parser of the `http` crate.
pub uninterp spec fn uri_accepts(s: Seq<char>) -> bool;

/// Relies on `http::Uri`'s `FromStr` implementation: whether a string
/// parses as a URI is a function of the string alone.
#[verifier::external_body]
fn parse_uri_ok(s: &str) -> (r: bool)
    ensures
        r == uri_accepts(s@),
{
    s.parse::<http::Uri>().is_ok()
}

/// What the proxy decides before any upstream work: answer the preflight,
/// reject the request, or forward it to the given URL.
pub enum RequestPlan {
    Preflight { status: u16, headers: Headers },
    Reject { status: u16, message: String },
    Forward { url: String },
}

/// The first stage of handling one request, before the inbound body is
/// read: preflight short-circuit, authentication, and URL construction.
pub fn plan_request(
    cfg: &ProxyConfig,
    method: &str,
    tail: &str,
    query: Option<&str>,
    headers: &Headers,
) -> (r: RequestPlan)
    ensures
        ({
            let url = upstream_url_view(tail@, query_view(query));
            let authorized = authorized_spec(headers@, encode_utf8(cfg.service_token@));
            &&& (method@ == "OPTIONS"@ ==> (r matches RequestPlan::Preflight { status, headers: h }
                && status == 204 && h@ == preflight_headers_view()))
            &&& (method@ != "OPTIONS"@ && !authorized ==> (r matches RequestPlan::Reject {
                status,
                message,
            } && status == 401 && message@ == "unauthorized: missing or invalid bearer token"@))
            &&& (method@ != "OPTIONS"@ && authorized && !uri_accepts(url)
                ==> (r matches RequestPlan::Reject { status, message } && status == 500
                && message@ == "uri parse error"@))
            &&& (method@ != "OPTIONS"@ && authorized && uri_accepts(url)
                ==> (r matches RequestPlan::Forward { url: u } && u@ == url))
        }),
{
    if crate::text::str_eq(method, "OPTIONS") {
        let (status, headers) = preflight_response();
        return RequestPlan::Preflight { status, headers };
    }
    if !is_authorized(headers, cfg.service_token.as_str()) {
        return RequestPlan::Reject {
            status: 401,
            message: String::from_str("unauthorized: missing or invalid bearer token"),
        };
    }
    let url = build_upstream_url(tail, query);
    if !parse_uri_ok(url.as_str()) {
        return RequestPlan::Reject { status: 500, message: String::from_str("uri parse error") };
    }
    RequestPlan::Forward { url }
}

fn push_bytes(dst: &mut Vec<u8>, src: &Vec<u8>)
    ensures
        final(dst)@ == old(dst)@ + src@,
{
    let n = src.len();
    let mut i: usize = 0;
    while i < n
        invariant
            n == src@.len(),
            i <= n,
            dst@ == old(dst)@ + src@.subrange(0, i as int),
        decreases n - i,
    {
        dst.push(src[i]);
        proof {
            assert(old(dst)@ + src@.subrange(0, (i + 1) as int) =~= (old(dst)@ + src@.subrange(
                0,
                i as int,
            )).push(src@[i as int]));
        }
        i += 1;
    }
    proof {
        assert(src@.subrange(0, n as int) =~= src@);
    }
}

/// The headers sent upstream: the inbound headers with hop-by-hop entries
/// and the caller's credential removed, and the upstream credential
/// inserted as the authorization header.
pub open spec fn outbound_headers_view(inbound: Seq<crate::headers::HeaderView>, key_bytes: Seq<u8>)
    -> Seq<crate::headers::HeaderView> {
    insert_view(
        copy_request_spec(Seq::empty(), inbound),
        "authorization"@,
        bearer_prefix() + key_bytes,
    )
}

/// The second stage, once the inbound body was read: build the upstream
/// header set. Fails only when the configured upstream credential cannot be
/// carried in a header value.
pub fn build_outbound_headers(cfg: &ProxyConfig, inbound: &Headers) -> (r: Result<
    Headers,
    (u16, String),
>)
    ensures
        ({
            let auth_value = bearer_prefix() + encode_utf8(cfg.openai_api_key@);
            &&& (valid_header_value(auth_value) ==> (r matches Ok(h) && h@ == outbound_headers_view(
                inbound@,
                encode_utf8(cfg.openai_api_key@),
            )))
            &&& (!valid_header_value(auth_value) ==> (r matches Err((status, message))
                && status == 500 && message@ == "hdr error"@))
        }),
{
    let mut auth_value = vstd::slice::slice_to_vec("Bearer ".as_bytes());
    let key_bytes = vstd::slice::slice_to_vec(cfg.openai_api_key.as_str().as_bytes());
    push_bytes(&mut auth_value, &key_bytes);
    match crate::headers::clone_valid_value(&auth_value) {
        Some(w) => {
            let mut h = Headers::new();
            copy_headers_filtered(inbound, &mut h);
            h.insert(String::from_str("authorization"), w);
            Ok(h)
        },
        None => Err((500, String::from_str("hdr error"))),
    }
}

/// A failure of the I/O that surrounds the pipeline: the inbound body could
/// not be read, or the upstream call could not be completed.
pub enum TransportFault {
    BodyRead,
    UpstreamSend,
}

/// Maps a transport failure to the status the caller sees: 400 when the
/// inbound body could not be read, 502 when the upstream was unreachable.
pub fn fault_response(f: &TransportFault) -> (r: (u16, String))
    ensures
        f is BodyRead ==> r.0 == 400 && r.1@ == "read body error"@,
        f is UpstreamSend ==> r.0 == 502 && r.1@ == "upstream send error"@,
{
    match f {
        TransportFault::BodyRead => (400, String::from_str("read body error")),
        TransportFault::UpstreamSend => (502, String::from_str("upstream send error")),
    }
}

/// The third stage, on an upstream response: the status is passed through
/// verbatim; the upstream headers are relayed without hop-by-hop and CORS
/// entries, and the proxy's own CORS policy is added on top.
pub fn build_relay_response(status: u16, upstream_headers: &Headers) -> (r: (u16, Headers))
    ensures
        r.0 == status,
        r.1@ == cors_headers_view(copy_response_spec(Seq::empty(), upstream_headers@)),
{
    let mut h = Headers::new();
    copy_response_headers_filtered(upstream_headers, &mut h);
    add_cors_headers(&mut h);
    (status, h)
}

} // verus!
