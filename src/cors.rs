//! The cross-origin policy that every response carries.

use crate::text::{chars_of, owned};
use vstd::prelude::*;

verus! {

/// The one origin that may read the responses from a browser.
pub const ALLOWED_ORIGIN: &'static str = "https://satisfactory-calculator.com";

/// The name under which the response filter is registered.
pub const CORS_FILTER_NAME: &'static str = "Add CORS headers to responses";

/// A header name and its value.
pub type HeaderPair = (String, String);

/// A header as mathematical values: its name and its value.
pub type HeaderView = (Seq<char>, Seq<char>);

/// Headers as mathematical values.
pub open spec fn headers_view(hs: Seq<HeaderPair>) -> Seq<HeaderView> {
    hs.map_values(|h: HeaderPair| (h.0@, h.1@))
}

/// An ASCII upper-case letter.
pub open spec fn is_ascii_upper(c: char) -> bool {
    'A' <= c <= 'Z'
}

/// Two characters that are equal once ASCII letters are put in lower case.
pub open spec fn same_letter(c: char, d: char) -> bool {
    ||| c == d
    ||| is_ascii_upper(c) && c as u32 + 32 == d as u32
    ||| is_ascii_upper(d) && d as u32 + 32 == c as u32
}

/// Header names are compared without regard to ASCII case.
pub open spec fn same_header_name(a: Seq<char>, b: Seq<char>) -> bool {
    a.len() == b.len() && forall|i: int| 0 <= i < a.len() ==> same_letter(a[i], b[i])
}

/// `hs` without the headers named `name`, the others kept in order.
pub open spec fn without_header(hs: Seq<HeaderView>, name: Seq<char>) -> Seq<HeaderView>
    decreases hs.len(),
{
    if hs.len() == 0 {
        hs
    } else if same_header_name(hs.last().0, name) {
        without_header(hs.drop_last(), name)
    } else {
        without_header(hs.drop_last(), name).push(hs.last())
    }
}

/// `hs` with the header `name` set to `value`, replacing any earlier value.
pub open spec fn with_header(hs: Seq<HeaderView>, name: Seq<char>, value: Seq<char>) -> Seq<
    HeaderView,
> {
    without_header(hs, name).push((name, value))
}

/// The four headers of the policy, in the order they are set.
pub open spec fn cors_headers() -> Seq<HeaderView> {
    seq![
        ("Access-Control-Allow-Origin"@, ALLOWED_ORIGIN@),
        ("Access-Control-Allow-Methods"@, "POST, GET, PATCH, OPTIONS"@),
        ("Access-Control-Allow-Headers"@, "*"@),
        ("Access-Control-Allow-Credentials"@, "true"@),
    ]
}

/// `hs` with every header of the policy set.
pub open spec fn with_cors(hs: Seq<HeaderView>) -> Seq<HeaderView> {
    let p = cors_headers();
    with_header(
        with_header(with_header(with_header(hs, p[0].0, p[0].1), p[1].0, p[1].1), p[2].0, p[2].1),
        p[3].0,
        p[3].1,
    )
}

proof fn lemma_without_keeps(hs: Seq<HeaderView>, name: Seq<char>, h: HeaderView)
    requires
        hs.contains(h),
        !same_header_name(h.0, name),
    ensures
        without_header(hs, name).contains(h),
    decreases hs.len(),
{
    let w = without_header(hs, name);
    if hs.last() == h {
        assert(w.last() == h);
    } else {
        let i = choose|i: int| 0 <= i < hs.len() && hs[i] == h;
        assert(hs.drop_last()[i] == h);
        lemma_without_keeps(hs.drop_last(), name, h);
        let rest = without_header(hs.drop_last(), name);
        let k = choose|k: int| 0 <= k < rest.len() && rest[k] == h;
        if !same_header_name(hs.last().0, name) {
            assert(w[k] == h);
        }
    }
}

/// Whatever headers a response had, once the policy is applied it carries
/// `Access-Control-Allow-Origin` with the allowed origin.
pub proof fn lemma_cors_allows_origin(hs: Seq<HeaderView>)
    ensures
        with_cors(hs).contains(("Access-Control-Allow-Origin"@, ALLOWED_ORIGIN@)),
{
    reveal_strlit("Access-Control-Allow-Origin");
    reveal_strlit("Access-Control-Allow-Methods");
    reveal_strlit("Access-Control-Allow-Headers");
    reveal_strlit("Access-Control-Allow-Credentials");
    let p = cors_headers();
    let h = p[0];
    let s1 = with_header(hs, p[0].0, p[0].1);
    assert(s1.last() == h);
    assert(s1.contains(h));
    let s2 = with_header(s1, p[1].0, p[1].1);
    lemma_without_keeps(s1, p[1].0, h);
    assert(s2.contains(h)) by {
        let kept = without_header(s1, p[1].0);
        let k = choose|k: int| 0 <= k < kept.len() && kept[k] == h;
        assert(s2[k] == h);
    }
    let s3 = with_header(s2, p[2].0, p[2].1);
    lemma_without_keeps(s2, p[2].0, h);
    assert(s3.contains(h)) by {
        let kept = without_header(s2, p[2].0);
        let k = choose|k: int| 0 <= k < kept.len() && kept[k] == h;
        assert(s3[k] == h);
    }
    let s4 = with_header(s3, p[3].0, p[3].1);
    lemma_without_keeps(s3, p[3].0, h);
    assert(s4.contains(h)) by {
        let kept = without_header(s3, p[3].0);
        let k = choose|k: int| 0 <= k < kept.len() && kept[k] == h;
        assert(s4[k] == h);
    }
}

/// Whether two header names are the same, ignoring ASCII case.
pub fn header_names_match(a: &str, b: &str) -> (r: bool)
    ensures
        r == same_header_name(a@, b@),
{
    let x = chars_of(a);
    let y = chars_of(b);
    if x.len() != y.len() {
        return false;
    }
    let mut i: usize = 0;
    while i < x.len()
        invariant
            x@ == a@,
            y@ == b@,
            x.len() == y.len(),
            i <= x.len(),
            forall|j: int| 0 <= j < i ==> same_letter(x@[j], y@[j]),
        decreases x.len() - i,
    {
        let c = x[i];
        let d = y[i];
        let same = c == d || ('A' <= c && c <= 'Z' && c as u32 + 32 == d as u32) || ('A' <= d
            && d <= 'Z' && d as u32 + 32 == c as u32);
        if !same {
            return false;
        }
        i = i + 1;
    }
    true
}

/// Sets the header `name` to `value`: every header of that name, in any
/// case, is removed, and the new one is added at the end.
pub fn set_header(headers: &mut Vec<HeaderPair>, name: &str, value: &str)
    ensures
        headers_view(final(headers)@) == with_header(headers_view(old(headers)@), name@, value@),
{
    let ghost before = headers_view(headers@);
    let mut kept: Vec<HeaderPair> = Vec::new();
    let mut i: usize = 0;
    while i < headers.len()
        invariant
            before == headers_view(headers@),
            i <= headers.len(),
            headers_view(kept@) == without_header(before.take(i as int), name@),
        decreases headers.len() - i,
    {
        let matched = header_names_match(headers[i].0.as_str(), name);
        assert(before.take(i + 1).drop_last() =~= before.take(i as int));
        if !matched {
            let h = (headers[i].0.clone(), headers[i].1.clone());
            kept.push(h);
            assert(headers_view(kept@) =~= without_header(before.take(i + 1), name@));
        }
        i = i + 1;
    }
    assert(before.take(headers.len() as int) =~= before);
    kept.push((owned(name), owned(value)));
    assert(headers_view(kept@) =~= with_header(before, name@, value@));
    *headers = kept;
}

/// The response filter that applies the cross-origin policy.
pub struct CORS;

impl CORS {
    /// Sets the four headers of the policy on a response's headers, replacing
    /// any value they had: whatever the route or the status, the response then
    /// names the allowed origin.
    pub fn on_response(&self, headers: &mut Vec<HeaderPair>)
        ensures
            headers_view(final(headers)@) == with_cors(headers_view(old(headers)@)),
            headers_view(final(headers)@).contains(
                ("Access-Control-Allow-Origin"@, ALLOWED_ORIGIN@),
            ),
    {
        set_header(headers, "Access-Control-Allow-Origin", ALLOWED_ORIGIN);
        set_header(headers, "Access-Control-Allow-Methods", "POST, GET, PATCH, OPTIONS");
        set_header(headers, "Access-Control-Allow-Headers", "*");
        set_header(headers, "Access-Control-Allow-Credentials", "true");
        assert(headers_view(headers@) =~= with_cors(headers_view(old(headers)@)));
        proof {
            lemma_cors_allows_origin(headers_view(old(headers)@));
        }
    }
}

/// Answers a preflight request on any path: an empty body with status 200,
/// to which the response filter adds the policy.
pub fn all_options() {
}

} // verus!
