//! Bearer-token authentication of inbound requests.

use vstd::prelude::*;
use vstd::string::StringSliceAdditionalSpecFns;
use crate::headers::{
    first_value, visible_ascii_byte, visible_ascii_value, HeaderView, Headers,
};

verus! {

/// The literal `Bearer ` prefix of an authorization header value, as UTF-8
/// bytes.
pub open spec fn bearer_prefix() -> Seq<u8> {
    "Bearer ".spec_bytes()
}

/// A request is authorized exactly when its first authorization header
/// exists, can be read back as a string (visible ASCII bytes only), and
/// equals `Bearer ` followed by the configured service secret.
pub open spec fn authorized_spec(h: Seq<HeaderView>, token_bytes: Seq<u8>) -> bool {
    match first_value(h, "authorization"@) {
        Some(v) => visible_ascii_value(v) && v == bearer_prefix() + token_bytes,
        None => false,
    }
}

/// Pure predicate deciding the authentication check; no upstream work
/// depends on anything but its result.
pub fn is_authorized(headers: &Headers, expected_token: &str) -> (r: bool)
    ensures
        r == authorized_spec(headers@, expected_token.spec_bytes()),
{
    let v = match headers.get_value("authorization") {
        Some(v) => v,
        None => {
            return false;
        },
    };
    let m = v.len();
    let mut i: usize = 0;
    while i < m
        invariant
            first_value(headers@, "authorization"@) == Some(v@),
            m == v@.len(),
            i <= m,
            forall|j: int| 0 <= j < i ==> visible_ascii_byte(#[trigger] v@[j]),
        decreases m - i,
    {
        let b = v[i];
        if !(b == 9 || (32 <= b && b < 127)) {
            assert(!visible_ascii_byte(v@[i as int]));
            return false;
        }
        i += 1;
    }
    assert(visible_ascii_value(v@));
    let bp = vstd::slice::slice_to_vec("Bearer ".as_bytes());
    let tb = vstd::slice::slice_to_vec(expected_token.as_bytes());
    let ghost target: Seq<u8> = bearer_prefix() + expected_token.spec_bytes();
    let pl = bp.len();
    let tl = tb.len();
    if m < pl || m - pl != tl {
        assert(v@ != target);
        return false;
    }
    let mut j: usize = 0;
    while j < pl
        invariant
            first_value(headers@, "authorization"@) == Some(v@),
            target == bearer_prefix() + expected_token.spec_bytes(),
            m == v@.len(),
            pl == bp@.len(),
            tl == tb@.len(),
            m == pl + tl,
            bp@ == bearer_prefix(),
            tb@ == expected_token.spec_bytes(),
            j <= pl,
            forall|k: int| 0 <= k < j ==> v@[k] == bp@[k],
        decreases pl - j,
    {
        if v[j] != bp[j] {
            assert(v@[j as int] != target[j as int]);
            return false;
        }
        j += 1;
    }
    let mut k: usize = 0;
    while k < tl
        invariant
            first_value(headers@, "authorization"@) == Some(v@),
            target == bearer_prefix() + expected_token.spec_bytes(),
            m == v@.len(),
            pl == bp@.len(),
            tl == tb@.len(),
            m == pl + tl,
            bp@ == bearer_prefix(),
            tb@ == expected_token.spec_bytes(),
            forall|x: int| 0 <= x < pl ==> v@[x] == bp@[x],
            k <= tl,
            forall|x: int| 0 <= x < k ==> v@[pl + x] == tb@[x],
        decreases tl - k,
    {
        if v[pl + k] != tb[k] {
            assert(v@[pl + k as int] != target[pl + k as int]);
            return false;
        }
        k += 1;
    }
    proof {
        assert(v@ =~= target);
    }
    true
}

} // verus!
