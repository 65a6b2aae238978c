//! Header model and the two filtering directions of the proxy.
//!
//! A header collection is a sequence of (name, value) entries: names are
//! strings compared ASCII-case-insensitively, values are raw byte strings,
//! and repeated names are allowed. `append` adds an entry and keeps every
//! existing one; `insert` mirrors the replace-semantics of an HTTP header
//! map's `insert` and is used only where the proxy overwrites a header it
//! owns (the outbound credential and the injected CORS policy). The two
//! copy functions append, so every forwarded entry of a repeated name
//! survives in source order.

use vstd::prelude::*;
use vstd::string::StringSliceAdditionalSpecFns;
use crate::text::{eq_ignore_case_spec, str_eq_ignore_case};

verus! {

/// The mathematical view of one header entry: name characters and value bytes.
pub type HeaderView = (Seq<char>, Seq<u8>);

/// Case-insensitive header-name equality.
pub open spec fn name_eq(a: Seq<char>, b: Seq<char>) -> bool {
    eq_ignore_case_spec(a, b)
}

/// A byte that an HTTP header value may carry: 32..=255 except 127 (DEL),
/// or horizontal tab.
pub open spec fn valid_value_byte(b: u8) -> bool {
    b == 9 || (32 <= b && b != 127)
}

/// A byte string acceptable as an HTTP header value.
pub open spec fn valid_header_value(v: Seq<u8>) -> bool {
    forall|i: int| 0 <= i < v.len() ==> valid_value_byte(#[trigger] v[i])
}

/// A visible-ASCII byte (or tab): the bytes on which a header value can be
/// read back as a string.
pub open spec fn visible_ascii_byte(b: u8) -> bool {
    b == 9 || (32 <= b && b < 127)
}

/// A header value made only of visible ASCII (or tab) bytes.
pub open spec fn visible_ascii_value(v: Seq<u8>) -> bool {
    forall|i: int| 0 <= i < v.len() ==> visible_ascii_byte(#[trigger] v[i])
}

pub struct HeaderEntry {
    pub name: String,
    pub value: Vec<u8>,
}

impl View for HeaderEntry {
    type V = HeaderView;

    open spec fn view(&self) -> HeaderView {
        (self.name@, self.value@)
    }
}

pub struct Headers {
    pub entries: Vec<HeaderEntry>,
}

impl View for Headers {
    type V = Seq<HeaderView>;

    open spec fn view(&self) -> Seq<HeaderView> {
        Seq::new(self.entries@.len(), |i: int| self.entries@[i]@)
    }
}

/// The sequence with every entry named `n` removed (case-insensitively).
pub open spec fn drop_name(s: Seq<HeaderView>, n: Seq<char>) -> Seq<HeaderView>
    decreases s.len(),
{
    if s.len() == 0 {
        s
    } else if name_eq(s.last().0, n) {
        drop_name(s.drop_last(), n)
    } else {
        drop_name(s.drop_last(), n).push(s.last())
    }
}

/// Replace-insert: every entry named `n` is removed, then `(n, v)` is appended.
pub open spec fn insert_view(s: Seq<HeaderView>, n: Seq<char>, v: Seq<u8>) -> Seq<HeaderView> {
    drop_name(s, n).push((n, v))
}

/// The value of the first entry named `n`, if any.
pub open spec fn first_value(s: Seq<HeaderView>, n: Seq<char>) -> Option<Seq<u8>>
    decreases s.len(),
{
    if s.len() == 0 {
        None
    } else if name_eq(s[0].0, n) {
        Some(s[0].1)
    } else {
        first_value(s.drop_first(), n)
    }
}

/// `dst` followed by every entry of `src` that the request direction
/// forwards, in source order; entries with repeated names are all kept.
pub open spec fn copy_request_spec(dst: Seq<HeaderView>, src: Seq<HeaderView>) -> Seq<HeaderView>
    decreases src.len(),
{
    if src.len() == 0 {
        dst
    } else {
        let prev = copy_request_spec(dst, src.drop_last());
        if keep_for_request(src.last()) {
            prev.push(src.last())
        } else {
            prev
        }
    }
}

/// `dst` followed by every entry of `src` that the response direction
/// relays, in source order; entries with repeated names are all kept.
pub open spec fn copy_response_spec(dst: Seq<HeaderView>, src: Seq<HeaderView>) -> Seq<HeaderView>
    decreases src.len(),
{
    if src.len() == 0 {
        dst
    } else {
        let prev = copy_response_spec(dst, src.drop_last());
        if keep_for_response(src.last()) {
            prev.push(src.last())
        } else {
            prev
        }
    }
}

/// Some entry of the collection carries this name (case-insensitively).
pub open spec fn has_name(s: Seq<HeaderView>, n: Seq<char>) -> bool {
    exists|i: int| 0 <= i < s.len() && name_eq((#[trigger] s[i]).0, n)
}

pub proof fn lemma_drop_name_no_name(s: Seq<HeaderView>, n: Seq<char>)
    ensures
        !has_name(drop_name(s, n), n),
    decreases s.len(),
{
    if s.len() > 0 {
        lemma_drop_name_no_name(s.drop_last(), n);
        if !name_eq(s.last().0, n) {
            let d = drop_name(s.drop_last(), n).push(s.last());
            assert forall|i: int| 0 <= i < d.len() implies !name_eq(d[i].0, n) by {
                if i < d.len() - 1 {
                    assert(!name_eq(drop_name(s.drop_last(), n)[i].0, n));
                }
            }
        }
    }
}

pub proof fn lemma_drop_name_keeps_absent(s: Seq<HeaderView>, n: Seq<char>, m: Seq<char>)
    requires
        !has_name(s, m),
    ensures
        !has_name(drop_name(s, n), m),
    decreases s.len(),
{
    if s.len() > 0 {
        assert(!has_name(s.drop_last(), m));
        lemma_drop_name_keeps_absent(s.drop_last(), n, m);
        if !name_eq(s.last().0, n) {
            let d = drop_name(s.drop_last(), n).push(s.last());
            assert(!name_eq(s.last().0, m));
            assert forall|i: int| 0 <= i < d.len() implies !name_eq(d[i].0, m) by {
                if i < d.len() - 1 {
                    assert(!name_eq(drop_name(s.drop_last(), n)[i].0, m));
                }
            }
        }
    }
}

pub proof fn lemma_drop_name_id(s: Seq<HeaderView>, n: Seq<char>)
    requires
        !has_name(s, n),
    ensures
        drop_name(s, n) == s,
    decreases s.len(),
{
    if s.len() > 0 {
        assert(!has_name(s.drop_last(), n));
        lemma_drop_name_id(s.drop_last(), n);
        assert(!name_eq(s.last().0, n));
        assert(drop_name(s, n) =~= s.drop_last().push(s.last()));
        assert(s.drop_last().push(s.last()) =~= s);
    }
}

pub proof fn lemma_insert_keeps_absent(s: Seq<HeaderView>, n: Seq<char>, v: Seq<u8>, m: Seq<char>)
    requires
        !has_name(s, m),
        !name_eq(n, m),
    ensures
        !has_name(insert_view(s, n, v), m),
{
    lemma_drop_name_keeps_absent(s, n, m);
    let d = drop_name(s, n);
    assert forall|i: int| 0 <= i < d.push((n, v)).len() implies !name_eq(
        d.push((n, v))[i].0,
        m,
    ) by {
        if i < d.len() {
            assert(!name_eq(d[i].0, m));
        }
    }
}

pub proof fn lemma_push_keeps_absent(s: Seq<HeaderView>, e: HeaderView, m: Seq<char>)
    requires
        !has_name(s, m),
        !name_eq(e.0, m),
    ensures
        !has_name(s.push(e), m),
{
    assert forall|i: int| 0 <= i < s.push(e).len() implies !name_eq(s.push(e)[i].0, m) by {
        if i < s.len() {
            assert(!name_eq(s[i].0, m));
        }
    }
}

pub proof fn lemma_first_value_skip(s: Seq<HeaderView>, t: Seq<HeaderView>, m: Seq<char>)
    requires
        !has_name(s, m),
    ensures
        first_value(s + t, m) == first_value(t, m),
    decreases s.len(),
{
    if s.len() == 0 {
        assert(s + t =~= t);
    } else {
        assert(name_eq(s[0].0, m) ==> has_name(s, m));
        assert((s + t)[0] == s[0]);
        assert(!has_name(s.drop_first(), m));
        lemma_first_value_skip(s.drop_first(), t, m);
        assert((s + t).drop_first() =~= s.drop_first() + t);
    }
}

/// A hop-by-hop header name: scoped to one transport connection, never
/// forwarded across the proxy in either direction.
pub open spec fn is_hop_by_hop_name(n: Seq<char>) -> bool {
    ||| name_eq(n, "connection"@)
    ||| name_eq(n, "proxy-authenticate"@)
    ||| name_eq(n, "proxy-authorization"@)
    ||| name_eq(n, "te"@)
    ||| name_eq(n, "trailer"@)
    ||| name_eq(n, "transfer-encoding"@)
    ||| name_eq(n, "upgrade"@)
    ||| name_eq(n, "host"@)
}

/// A CORS request/response header name: stripped from upstream responses
/// because the proxy injects its own CORS policy.
pub open spec fn is_cors_header_name(n: Seq<char>) -> bool {
    ||| name_eq(n, "access-control-allow-origin"@)
    ||| name_eq(n, "access-control-allow-methods"@)
    ||| name_eq(n, "access-control-allow-headers"@)
    ||| name_eq(n, "access-control-max-age"@)
    ||| name_eq(n, "access-control-expose-headers"@)
    ||| name_eq(n, "access-control-allow-credentials"@)
    ||| name_eq(n, "access-control-request-method"@)
    ||| name_eq(n, "access-control-request-headers"@)
}

/// An entry forwarded upstream: not hop-by-hop, not the caller's
/// authorization header (that one is replaced), and with a transmissible value.
pub open spec fn keep_for_request(e: HeaderView) -> bool {
    &&& !is_hop_by_hop_name(e.0)
    &&& !name_eq(e.0, "authorization"@)
    &&& valid_header_value(e.1)
}

/// An entry relayed back to the caller: not hop-by-hop, not a CORS header,
/// and with a transmissible value.
pub open spec fn keep_for_response(e: HeaderView) -> bool {
    &&& !is_hop_by_hop_name(e.0)
    &&& !is_cors_header_name(e.0)
    &&& valid_header_value(e.1)
}

pub fn hop_by_hop_header(name: &str) -> (r: bool)
    ensures
        r == is_hop_by_hop_name(name@),
{
    ||| str_eq_ignore_case(name, "connection")
    ||| str_eq_ignore_case(name, "proxy-authenticate")
    ||| str_eq_ignore_case(name, "proxy-authorization")
    ||| str_eq_ignore_case(name, "te")
    ||| str_eq_ignore_case(name, "trailer")
    ||| str_eq_ignore_case(name, "transfer-encoding")
    ||| str_eq_ignore_case(name, "upgrade")
    ||| str_eq_ignore_case(name, "host")
}

pub fn is_cors_header(name: &str) -> (r: bool)
    ensures
        r == is_cors_header_name(name@),
{
    ||| str_eq_ignore_case(name, "access-control-allow-origin")
    ||| str_eq_ignore_case(name, "access-control-allow-methods")
    ||| str_eq_ignore_case(name, "access-control-allow-headers")
    ||| str_eq_ignore_case(name, "access-control-max-age")
    ||| str_eq_ignore_case(name, "access-control-expose-headers")
    ||| str_eq_ignore_case(name, "access-control-allow-credentials")
    ||| str_eq_ignore_case(name, "access-control-request-method")
    ||| str_eq_ignore_case(name, "access-control-request-headers")
}

/// Relies on `http::HeaderValue::from_bytes`: it returns `Ok` exactly when
/// every byte is in 32..=255 except 127 (DEL), or is a tab, and the accepted
/// value carries the input bytes unchanged.
#[verifier::external_body]
pub(crate) fn clone_valid_value(v: &Vec<u8>) -> (r: Option<Vec<u8>>)
    ensures
        r is Some <==> valid_header_value(v@),
        r matches Some(w) ==> w@ == v@,
{
    match http::HeaderValue::from_bytes(v.as_slice()) {
        Ok(h) => Some(h.as_bytes().to_vec()),
        Err(_) => None,
    }
}

fn clone_entry(e: &HeaderEntry) -> (r: HeaderEntry)
    ensures
        r@ == e@,
{
    HeaderEntry { name: e.name.clone(), value: vstd::slice::slice_to_vec(e.value.as_slice()) }
}

impl Headers {
    pub fn new() -> (r: Headers)
        ensures
            r@ == Seq::<HeaderView>::empty(),
    {
        let r = Headers { entries: Vec::new() };
        proof {
            assert(r@ =~= Seq::<HeaderView>::empty());
        }
        r
    }

    pub fn len(&self) -> (r: usize)
        ensures
            r == self@.len(),
    {
        self.entries.len()
    }

    /// Replace-insert, as an HTTP header map's `insert`: drops every entry
    /// with this name, then appends the new entry.
    pub fn insert(&mut self, name: String, value: Vec<u8>)
        ensures
            final(self)@ == insert_view(old(self)@, name@, value@),
    {
        let ghost orig: Seq<HeaderView> = self@;
        let mut kept: Vec<HeaderEntry> = Vec::new();
        let n = self.entries.len();
        let mut i: usize = 0;
        while i < n
            invariant
                n == self.entries.len(),
                self@ == orig,
                i <= n,
                Seq::new(kept@.len(), |k: int| kept@[k]@) == drop_name(
                    orig.subrange(0, i as int),
                    name@,
                ),
            decreases n - i,
        {
            let e = &self.entries[i];
            let matches_name = str_eq_ignore_case(e.name.as_str(), name.as_str());
            proof {
                let s1 = orig.subrange(0, (i + 1) as int);
                assert(s1.drop_last() =~= orig.subrange(0, i as int));
                assert(s1.last() == orig[i as int]);
                assert(orig[i as int] == e@);
            }
            if !matches_name {
                kept.push(clone_entry(e));
                proof {
                    assert(Seq::new(kept@.len(), |k: int| kept@[k]@) =~= drop_name(
                        orig.subrange(0, i as int),
                        name@,
                    ).push(e@));
                }
            }
            i += 1;
        }
        proof {
            assert(orig.subrange(0, n as int) =~= orig);
        }
        let ghost new_name: Seq<char> = name@;
        let ghost new_value: Seq<u8> = value@;
        kept.push(HeaderEntry { name, value });
        self.entries = kept;
        proof {
            assert(self@ =~= insert_view(orig, new_name, new_value));
        }
    }

    /// Appends an entry, keeping every existing one: repeated names are
    /// allowed, as in an HTTP header map's `append`.
    pub fn append(&mut self, name: String, value: Vec<u8>)
        ensures
            final(self)@ == old(self)@.push((name@, value@)),
    {
        let ghost new_name: Seq<char> = name@;
        let ghost new_value: Seq<u8> = value@;
        self.entries.push(HeaderEntry { name, value });
        proof {
            assert(self@ =~= old(self)@.push((new_name, new_value)));
        }
    }

    /// The value of the first entry with this name, as an HTTP header map's
    /// `get`.
    pub fn get_value<'a>(&'a self, name: &str) -> (r: Option<&'a Vec<u8>>)
        ensures
            match r {
                Some(v) => first_value(self@, name@) == Some(v@),
                None => first_value(self@, name@) is None,
            },
    {
        let n = self.entries.len();
        proof {
            assert(self@.subrange(0, n as int) =~= self@);
        }
        let mut i: usize = 0;
        while i < n
            invariant
                n == self.entries.len(),
                i <= n,
                first_value(self@, name@) == first_value(
                    self@.subrange(i as int, n as int),
                    name@,
                ),
            decreases n - i,
        {
            let e = &self.entries[i];
            proof {
                let tail = self@.subrange(i as int, n as int);
                assert(tail[0] == self@[i as int]);
                assert(tail.drop_first() =~= self@.subrange((i + 1) as int, n as int));
            }
            if str_eq_ignore_case(e.name.as_str(), name) {
                return Some(&e.value);
            }
            i += 1;
        }
        proof {
            assert(self@.subrange(n as int, n as int) =~= Seq::<HeaderView>::empty());
        }
        None
    }
}

/// Request-direction copy: forwards every entry except hop-by-hop headers
/// and the caller's authorization header, in source order with repeated
/// names preserved; values the transport would reject are silently dropped.
pub fn copy_headers_filtered(src: &Headers, dst: &mut Headers)
    ensures
        final(dst)@ == copy_request_spec(old(dst)@, src@),
{
    let n = src.entries.len();
    let mut i: usize = 0;
    while i < n
        invariant
            n == src.entries.len(),
            i <= n,
            dst@ == copy_request_spec(old(dst)@, src@.subrange(0, i as int)),
        decreases n - i,
    {
        let e = &src.entries[i];
        proof {
            let s1 = src@.subrange(0, (i + 1) as int);
            assert(s1.drop_last() =~= src@.subrange(0, i as int));
            assert(s1.last() == src@[i as int]);
            assert(src@[i as int] == e@);
        }
        if !hop_by_hop_header(e.name.as_str())
            && !str_eq_ignore_case(e.name.as_str(), "authorization") {
            match clone_valid_value(&e.value) {
                Some(w) => {
                    dst.append(e.name.clone(), w);
                },
                None => {},
            }
        }
        i += 1;
    }
    proof {
        assert(src@.subrange(0, n as int) =~= src@);
    }
}

/// Response-direction copy: relays every entry except hop-by-hop headers
/// and CORS headers (the proxy injects its own), in source order with
/// repeated names preserved; values the transport would reject are silently
/// dropped.
pub fn copy_response_headers_filtered(src: &Headers, dst: &mut Headers)
    ensures
        final(dst)@ == copy_response_spec(old(dst)@, src@),
{
    let n = src.entries.len();
    let mut i: usize = 0;
    while i < n
        invariant
            n == src.entries.len(),
            i <= n,
            dst@ == copy_response_spec(old(dst)@, src@.subrange(0, i as int)),
        decreases n - i,
    {
        let e = &src.entries[i];
        proof {
            let s1 = src@.subrange(0, (i + 1) as int);
            assert(s1.drop_last() =~= src@.subrange(0, i as int));
            assert(s1.last() == src@[i as int]);
            assert(src@[i as int] == e@);
        }
        if !hop_by_hop_header(e.name.as_str()) && !is_cors_header(e.name.as_str()) {
            match clone_valid_value(&e.value) {
                Some(w) => {
                    dst.append(e.name.clone(), w);
                },
                None => {},
            }
        }
        i += 1;
    }
    proof {
        assert(src@.subrange(0, n as int) =~= src@);
    }
}

} // verus!
