//! CORS handling: the preflight answer and the headers the proxy injects
//! into every relayed response.

use vstd::prelude::*;
use vstd::string::{StringExecFns, StringSliceAdditionalSpecFns};
use crate::headers::{insert_view, HeaderView, Headers};

verus! {

/// The proxy's own CORS policy inserted into a header collection:
/// allow-origin `*`, the allowed methods, and the allowed request headers,
/// in that order, each replacing any same-named entry.
pub open spec fn cors_headers_view(s: Seq<HeaderView>) -> Seq<HeaderView> {
    insert_view(
        insert_view(
            insert_view(s, "access-control-allow-origin"@, "*".spec_bytes()),
            "access-control-allow-methods"@,
            "GET, POST, PUT, DELETE, OPTIONS, PATCH".spec_bytes(),
        ),
        "access-control-allow-headers"@,
        "Authorization, Content-Type, Accept, X-Requested-With".spec_bytes(),
    )
}

/// The headers of a preflight answer: the proxy's CORS policy plus a
/// max-age of one day.
pub open spec fn preflight_headers_view() -> Seq<HeaderView> {
    insert_view(
        cors_headers_view(Seq::<HeaderView>::empty()),
        "access-control-max-age"@,
        "86400".spec_bytes(),
    )
}

/// Annotates a response with the proxy's CORS policy, overriding whatever
/// same-named headers were present.
pub fn add_cors_headers(dst: &mut Headers)
    ensures
        final(dst)@ == cors_headers_view(old(dst)@),
{
    dst.insert(
        String::from_str("access-control-allow-origin"),
        vstd::slice::slice_to_vec("*".as_bytes()),
    );
    dst.insert(
        String::from_str("access-control-allow-methods"),
        vstd::slice::slice_to_vec("GET, POST, PUT, DELETE, OPTIONS, PATCH".as_bytes()),
    );
    dst.insert(
        String::from_str("access-control-allow-headers"),
        vstd::slice::slice_to_vec(
            "Authorization, Content-Type, Accept, X-Requested-With".as_bytes(),
        ),
    );
}

/// The complete preflight answer: status 204, no body, and the four CORS
/// headers. It short-circuits the pipeline before authentication, since
/// preflight requests never carry credentials.
pub fn preflight_response() -> (r: (u16, Headers))
    ensures
        r.0 == 204,
        r.1@ == preflight_headers_view(),
{
    let mut h = Headers::new();
    add_cors_headers(&mut h);
    h.insert(
        String::from_str("access-control-max-age"),
        vstd::slice::slice_to_vec("86400".as_bytes()),
    );
    (204, h)
}

} // verus!
