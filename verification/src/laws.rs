//! Library-wide laws of the header pipeline, proved once and for all
//! inputs: hop-by-hop headers never cross the proxy, the caller's
//! credential never reaches upstream, and the relayed response carries
//! exactly the proxy's own CORS policy.

use vstd::prelude::*;
use vstd::string::StringSliceAdditionalSpecFns;
use crate::headers::{
    copy_request_spec, copy_response_spec, drop_name, first_value, has_name, insert_view,
    is_cors_header_name, is_hop_by_hop_name, keep_for_request, keep_for_response,
    lemma_drop_name_id, lemma_drop_name_no_name, lemma_first_value_skip,
    lemma_insert_keeps_absent, lemma_push_keeps_absent, name_eq, HeaderView,
};
use crate::auth::bearer_prefix;
use crate::cors::{cors_headers_view, preflight_headers_view};
use crate::pipeline::outbound_headers_view;
use crate::text::{lower, lower_char};

verus! {

pub proof fn lemma_copy_request_excludes(dst: Seq<HeaderView>, src: Seq<HeaderView>, n: Seq<char>)
    requires
        !has_name(dst, n),
        is_hop_by_hop_name(n) || name_eq(n, "authorization"@),
    ensures
        !has_name(copy_request_spec(dst, src), n),
    decreases src.len(),
{
    if src.len() > 0 {
        lemma_copy_request_excludes(dst, src.drop_last(), n);
        let prev = copy_request_spec(dst, src.drop_last());
        let e = src.last();
        if keep_for_request(e) {
            if name_eq(e.0, n) {
                assert(is_hop_by_hop_name(n) ==> is_hop_by_hop_name(e.0));
                assert(name_eq(n, "authorization"@) ==> name_eq(e.0, "authorization"@));
                assert(false);
            }
            lemma_push_keeps_absent(prev, e, n);
        }
    }
}

pub proof fn lemma_copy_response_excludes(dst: Seq<HeaderView>, src: Seq<HeaderView>, n: Seq<char>)
    requires
        !has_name(dst, n),
        is_hop_by_hop_name(n) || is_cors_header_name(n),
    ensures
        !has_name(copy_response_spec(dst, src), n),
    decreases src.len(),
{
    if src.len() > 0 {
        lemma_copy_response_excludes(dst, src.drop_last(), n);
        let prev = copy_response_spec(dst, src.drop_last());
        let e = src.last();
        if keep_for_response(e) {
            if name_eq(e.0, n) {
                assert(is_hop_by_hop_name(n) ==> is_hop_by_hop_name(e.0));
                assert(is_cors_header_name(n) ==> is_cors_header_name(e.0));
                assert(false);
            }
            lemma_push_keeps_absent(prev, e, n);
        }
    }
}

/// Law: no header with a hop-by-hop name ever stands among the headers
/// sent upstream, whatever the inbound request carried.
pub proof fn lemma_hop_by_hop_not_forwarded(
    inbound: Seq<HeaderView>,
    key_bytes: Seq<u8>,
    n: Seq<char>,
)
    requires
        is_hop_by_hop_name(n),
    ensures
        !has_name(outbound_headers_view(inbound, key_bytes), n),
{
    let c = copy_request_spec(Seq::<HeaderView>::empty(), inbound);
    lemma_copy_request_excludes(Seq::<HeaderView>::empty(), inbound, n);
    reveal_strlit("authorization");
    reveal_strlit("connection");
    reveal_strlit("proxy-authenticate");
    reveal_strlit("proxy-authorization");
    reveal_strlit("te");
    reveal_strlit("trailer");
    reveal_strlit("transfer-encoding");
    reveal_strlit("upgrade");
    reveal_strlit("host");
    assert(lower("authorization"@).len() == 13);
    assert(lower("connection"@).len() == 10);
    assert(lower("proxy-authenticate"@).len() == 18);
    assert(lower("proxy-authorization"@).len() == 19);
    assert(lower("te"@).len() == 2);
    assert(lower("trailer"@).len() == 7);
    assert(lower("transfer-encoding"@).len() == 17);
    assert(lower("upgrade"@).len() == 7);
    assert(lower("host"@).len() == 4);
    assert(!name_eq("authorization"@, n));
    lemma_insert_keeps_absent(c, "authorization"@, bearer_prefix() + key_bytes, n);
}

/// Law: the caller's authorization header never reaches upstream: the
/// outbound authorization value is `Bearer ` plus the upstream secret,
/// whatever the caller sent.
pub proof fn lemma_outbound_authorization(inbound: Seq<HeaderView>, key_bytes: Seq<u8>)
    ensures
        first_value(outbound_headers_view(inbound, key_bytes), "authorization"@) == Some(
            bearer_prefix() + key_bytes,
        ),
{
    let c = copy_request_spec(Seq::<HeaderView>::empty(), inbound);
    let e = ("authorization"@, bearer_prefix() + key_bytes);
    let d = drop_name(c, "authorization"@);
    lemma_drop_name_no_name(c, "authorization"@);
    assert(d.push(e) =~= d + seq![e]);
    lemma_first_value_skip(d, seq![e], "authorization"@);
    assert(seq![e][0] == e);
    assert(first_value(seq![e], "authorization"@) == Some(e.1));
}

/// Law: no header with a hop-by-hop name ever stands on the response
/// relayed to the caller, whatever the upstream answered.
pub proof fn lemma_hop_by_hop_not_relayed(upstream: Seq<HeaderView>, n: Seq<char>)
    requires
        is_hop_by_hop_name(n),
    ensures
        !has_name(cors_headers_view(copy_response_spec(Seq::<HeaderView>::empty(), upstream)), n),
{
    let base = copy_response_spec(Seq::<HeaderView>::empty(), upstream);
    lemma_copy_response_excludes(Seq::<HeaderView>::empty(), upstream, n);
    reveal_strlit("access-control-allow-origin");
    reveal_strlit("access-control-allow-methods");
    reveal_strlit("access-control-allow-headers");
    reveal_strlit("connection");
    reveal_strlit("proxy-authenticate");
    reveal_strlit("proxy-authorization");
    reveal_strlit("te");
    reveal_strlit("trailer");
    reveal_strlit("transfer-encoding");
    reveal_strlit("upgrade");
    reveal_strlit("host");
    let no = "access-control-allow-origin"@;
    let nm = "access-control-allow-methods"@;
    let nh = "access-control-allow-headers"@;
    assert(lower(no).len() == 27);
    assert(lower(nm).len() == 28);
    assert(lower(nh).len() == 28);
    assert(lower("connection"@).len() == 10);
    assert(lower("proxy-authenticate"@).len() == 18);
    assert(lower("proxy-authorization"@).len() == 19);
    assert(lower("te"@).len() == 2);
    assert(lower("trailer"@).len() == 7);
    assert(lower("transfer-encoding"@).len() == 17);
    assert(lower("upgrade"@).len() == 7);
    assert(lower("host"@).len() == 4);
    assert(!name_eq(no, n));
    assert(!name_eq(nm, n));
    assert(!name_eq(nh, n));
    let s1 = insert_view(base, no, "*".spec_bytes());
    lemma_insert_keeps_absent(base, no, "*".spec_bytes(), n);
    let s2 = insert_view(s1, nm, "GET, POST, PUT, DELETE, OPTIONS, PATCH".spec_bytes());
    lemma_insert_keeps_absent(s1, nm, "GET, POST, PUT, DELETE, OPTIONS, PATCH".spec_bytes(), n);
    lemma_insert_keeps_absent(
        s2,
        nh,
        "Authorization, Content-Type, Accept, X-Requested-With".spec_bytes(),
        n,
    );
}

proof fn lemma_cors_names_distinct()
    ensures
        !name_eq("access-control-allow-origin"@, "access-control-allow-methods"@),
        !name_eq("access-control-allow-origin"@, "access-control-allow-headers"@),
        !name_eq("access-control-allow-methods"@, "access-control-allow-headers"@),
        !name_eq("access-control-max-age"@, "access-control-allow-origin"@),
        !name_eq("access-control-max-age"@, "access-control-allow-methods"@),
        !name_eq("access-control-max-age"@, "access-control-allow-headers"@),
{
    reveal_strlit("access-control-allow-origin");
    reveal_strlit("access-control-allow-methods");
    reveal_strlit("access-control-allow-headers");
    reveal_strlit("access-control-max-age");
    let no = "access-control-allow-origin"@;
    let nm = "access-control-allow-methods"@;
    let nh = "access-control-allow-headers"@;
    let na = "access-control-max-age"@;
    assert(lower(no).len() == 27);
    assert(lower(nm).len() == 28);
    assert(lower(nh).len() == 28);
    assert(lower(na).len() == 22);
    if lower(nm) == lower(nh) {
        assert(lower(nm)[21] == lower_char(nm[21]));
        assert(lower(nh)[21] == lower_char(nh[21]));
        assert(nm[21] == 'm');
        assert(nh[21] == 'h');
        assert(false);
    }
}

/// Law: the response relayed to the caller carries the proxy's own CORS
/// policy: its allow-origin, allow-methods and allow-headers values are
/// exactly the configured ones, and nothing the upstream said about CORS
/// survives (see `lemma_upstream_cors_stripped`).
pub proof fn lemma_response_cors_values(upstream: Seq<HeaderView>)
    ensures
        ({
            let r = cors_headers_view(copy_response_spec(Seq::<HeaderView>::empty(), upstream));
            &&& first_value(r, "access-control-allow-origin"@) == Some("*".spec_bytes())
            &&& first_value(r, "access-control-allow-methods"@) == Some(
                "GET, POST, PUT, DELETE, OPTIONS, PATCH".spec_bytes(),
            )
            &&& first_value(r, "access-control-allow-headers"@) == Some(
                "Authorization, Content-Type, Accept, X-Requested-With".spec_bytes(),
            )
        }),
{
    let base = copy_response_spec(Seq::<HeaderView>::empty(), upstream);
    let no = "access-control-allow-origin"@;
    let nm = "access-control-allow-methods"@;
    let nh = "access-control-allow-headers"@;
    let o = (no, "*".spec_bytes());
    let m = (nm, "GET, POST, PUT, DELETE, OPTIONS, PATCH".spec_bytes());
    let h = (nh, "Authorization, Content-Type, Accept, X-Requested-With".spec_bytes());
    lemma_cors_names_distinct();
    assert(is_cors_header_name(no));
    assert(is_cors_header_name(nm));
    assert(is_cors_header_name(nh));
    lemma_copy_response_excludes(Seq::<HeaderView>::empty(), upstream, no);
    lemma_copy_response_excludes(Seq::<HeaderView>::empty(), upstream, nm);
    lemma_copy_response_excludes(Seq::<HeaderView>::empty(), upstream, nh);
    lemma_drop_name_id(base, no);
    let s1 = base.push(o);
    assert(insert_view(base, no, o.1) == s1);
    assert forall|i: int| 0 <= i < s1.len() implies !name_eq(s1[i].0, nm) by {
        if i < base.len() {
            assert(!name_eq(base[i].0, nm));
        }
    }
    lemma_drop_name_id(s1, nm);
    let s2 = s1.push(m);
    assert(insert_view(s1, nm, m.1) == s2);
    assert forall|i: int| 0 <= i < s2.len() implies !name_eq(s2[i].0, nh) by {
        if i < base.len() {
            assert(!name_eq(base[i].0, nh));
        }
    }
    lemma_drop_name_id(s2, nh);
    let r = s2.push(h);
    assert(cors_headers_view(base) == r);
    assert(r =~= base + seq![o, m, h]);
    let t = seq![o, m, h];
    lemma_first_value_skip(base, t, no);
    lemma_first_value_skip(base, t, nm);
    lemma_first_value_skip(base, t, nh);
    assert(t[0] == o);
    assert(t.drop_first() =~= seq![m, h]);
    assert(seq![m, h][0] == m);
    assert(seq![m, h].drop_first() =~= seq![h]);
    assert(seq![h][0] == h);
    assert(first_value(t, no) == Some(o.1));
    assert(first_value(t, nm) == first_value(seq![m, h], nm));
    assert(first_value(seq![m, h], nm) == Some(m.1));
    assert(first_value(t, nh) == first_value(seq![m, h], nh));
    assert(first_value(seq![m, h], nh) == first_value(seq![h], nh));
    assert(first_value(seq![h], nh) == Some(h.1));
}

/// Law: whatever CORS headers the upstream response carried, none of them
/// survives the response filter: the only CORS entries on the relayed
/// response are the ones the proxy itself inserted.
pub proof fn lemma_upstream_cors_stripped(upstream: Seq<HeaderView>, n: Seq<char>)
    requires
        is_cors_header_name(n),
        !name_eq(n, "access-control-allow-origin"@),
        !name_eq(n, "access-control-allow-methods"@),
        !name_eq(n, "access-control-allow-headers"@),
    ensures
        !has_name(cors_headers_view(copy_response_spec(Seq::<HeaderView>::empty(), upstream)), n),
{
    let base = copy_response_spec(Seq::<HeaderView>::empty(), upstream);
    lemma_copy_response_excludes(Seq::<HeaderView>::empty(), upstream, n);
    let no = "access-control-allow-origin"@;
    let nm = "access-control-allow-methods"@;
    let nh = "access-control-allow-headers"@;
    let s1 = insert_view(base, no, "*".spec_bytes());
    lemma_insert_keeps_absent(base, no, "*".spec_bytes(), n);
    let s2 = insert_view(s1, nm, "GET, POST, PUT, DELETE, OPTIONS, PATCH".spec_bytes());
    lemma_insert_keeps_absent(s1, nm, "GET, POST, PUT, DELETE, OPTIONS, PATCH".spec_bytes(), n);
    lemma_insert_keeps_absent(
        s2,
        nh,
        "Authorization, Content-Type, Accept, X-Requested-With".spec_bytes(),
        n,
    );
}

/// Law: the preflight answer carries exactly the four configured CORS
/// headers, with their configured values.
pub proof fn lemma_preflight_headers()
    ensures
        first_value(preflight_headers_view(), "access-control-allow-origin"@) == Some(
            "*".spec_bytes(),
        ),
        first_value(preflight_headers_view(), "access-control-allow-methods"@) == Some(
            "GET, POST, PUT, DELETE, OPTIONS, PATCH".spec_bytes(),
        ),
        first_value(preflight_headers_view(), "access-control-allow-headers"@) == Some(
            "Authorization, Content-Type, Accept, X-Requested-With".spec_bytes(),
        ),
        first_value(preflight_headers_view(), "access-control-max-age"@) == Some(
            "86400".spec_bytes(),
        ),
{
    let no = "access-control-allow-origin"@;
    let nm = "access-control-allow-methods"@;
    let nh = "access-control-allow-headers"@;
    let na = "access-control-max-age"@;
    let o = (no, "*".spec_bytes());
    let m = (nm, "GET, POST, PUT, DELETE, OPTIONS, PATCH".spec_bytes());
    let h = (nh, "Authorization, Content-Type, Accept, X-Requested-With".spec_bytes());
    let a = (na, "86400".spec_bytes());
    lemma_cors_names_distinct();
    let base = Seq::<HeaderView>::empty();
    lemma_drop_name_id(base, no);
    let s1 = base.push(o);
    assert(insert_view(base, no, o.1) == s1);
    assert forall|i: int| 0 <= i < s1.len() implies !name_eq(s1[i].0, nm) by {}
    lemma_drop_name_id(s1, nm);
    let s2 = s1.push(m);
    assert(insert_view(s1, nm, m.1) == s2);
    assert forall|i: int| 0 <= i < s2.len() implies !name_eq(s2[i].0, nh) by {}
    lemma_drop_name_id(s2, nh);
    let s3 = s2.push(h);
    assert(cors_headers_view(base) == s3);
    assert forall|i: int| 0 <= i < s3.len() implies !name_eq(s3[i].0, na) by {}
    lemma_drop_name_id(s3, na);
    let r = s3.push(a);
    assert(preflight_headers_view() == r);
    assert(r =~= seq![o, m, h, a]);
    let t = seq![o, m, h, a];
    assert(t[0] == o);
    assert(t.drop_first() =~= seq![m, h, a]);
    assert(seq![m, h, a][0] == m);
    assert(seq![m, h, a].drop_first() =~= seq![h, a]);
    assert(seq![h, a][0] == h);
    assert(seq![h, a].drop_first() =~= seq![a]);
    assert(seq![a][0] == a);
    assert(first_value(t, no) == Some(o.1));
    assert(first_value(t, nm) == first_value(seq![m, h, a], nm));
    assert(first_value(seq![m, h, a], nm) == Some(m.1));
    assert(first_value(t, nh) == first_value(seq![m, h, a], nh));
    assert(first_value(seq![m, h, a], nh) == first_value(seq![h, a], nh));
    assert(first_value(seq![h, a], nh) == Some(h.1));
    assert(first_value(t, na) == first_value(seq![m, h, a], na));
    assert(first_value(seq![m, h, a], na) == first_value(seq![h, a], na));
    assert(first_value(seq![h, a], na) == first_value(seq![a], na));
    assert(first_value(seq![a], na) == Some(a.1));
}

} // verus!
