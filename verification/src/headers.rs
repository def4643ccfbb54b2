//! Header-list operations: case-insensitive lookup, the hop-by-hop set, and
//! the rewrite applied to requests that are proxied downstream.

use vstd::prelude::*;

use crate::model::{hview, Header, Request};
use crate::text::{eq_ignore_case, seq_eq_ignore_case};

verus! {

/// The value of the first header in `hs` whose name equals `name`
/// ASCII-case-insensitively, if any.
pub open spec fn lookup_header(hs: Seq<(Seq<char>, Seq<char>)>, name: Seq<char>) -> Option<
    Seq<char>,
>
    decreases hs.len(),
{
    if hs.len() == 0 {
        None
    } else if seq_eq_ignore_case(hs[0].0, name) {
        Some(hs[0].1)
    } else {
        lookup_header(hs.drop_first(), name)
    }
}

/// `hs` holds a header named `name` (ASCII-case-insensitively).
pub open spec fn has_header(hs: Seq<(Seq<char>, Seq<char>)>, name: Seq<char>) -> bool {
    lookup_header(hs, name) is Some
}

/// Pins `lookup_header` down by the position of the first matching name.
pub proof fn lemma_lookup_header_at(hs: Seq<(Seq<char>, Seq<char>)>, name: Seq<char>, i: int)
    requires
        0 <= i <= hs.len(),
        forall|j: int| 0 <= j < i ==> !seq_eq_ignore_case(hs[j].0, name),
        i < hs.len() ==> seq_eq_ignore_case(hs[i].0, name),
    ensures
        lookup_header(hs, name) == if i < hs.len() {
            Some(hs[i].1)
        } else {
            None::<Seq<char>>
        },
    decreases hs.len(),
{
    if hs.len() == 0 {
    } else if i == 0 {
    } else {
        assert(!seq_eq_ignore_case(hs[0].0, name));
        assert forall|j: int| 0 <= j < i - 1 implies !seq_eq_ignore_case(
            hs.drop_first()[j].0,
            name,
        ) by {
            assert(hs.drop_first()[j] == hs[j + 1]);
        }
        if i - 1 < hs.drop_first().len() {
            assert(hs.drop_first()[i - 1] == hs[i]);
        }
        lemma_lookup_header_at(hs.drop_first(), name, i - 1);
    }
}

/// A lookup passes over a block of headers none of whose names match.
pub proof fn lemma_lookup_header_skip(
    a: Seq<(Seq<char>, Seq<char>)>,
    b: Seq<(Seq<char>, Seq<char>)>,
    name: Seq<char>,
)
    requires
        forall|j: int| 0 <= j < a.len() ==> !seq_eq_ignore_case(a[j].0, name),
    ensures
        lookup_header(a + b, name) == lookup_header(b, name),
    decreases a.len(),
{
    if a.len() == 0 {
        assert(a + b =~= b);
    } else {
        assert((a + b)[0] == a[0]);
        assert((a + b).drop_first() =~= a.drop_first() + b);
        assert forall|j: int| 0 <= j < a.drop_first().len() implies !seq_eq_ignore_case(
            a.drop_first()[j].0,
            name,
        ) by {
            assert(a.drop_first()[j] == a[j + 1]);
        }
        lemma_lookup_header_skip(a.drop_first(), b, name);
    }
}

/// Finds the first header named `name` (ASCII-case-insensitively) and hands
/// back a copy of its value.
pub fn find_header_value(headers: &Vec<Header>, name: &str) -> (r: Option<String>)
    ensures
        match r {
            Some(v) => lookup_header(hview(headers@), name@) == Some(v@),
            None => lookup_header(hview(headers@), name@) is None,
        },
{
    let n: usize = headers.len();
    let mut i: usize = 0;
    while i < n
        invariant
            0 <= i <= n,
            n == headers@.len(),
            forall|j: int| 0 <= j < i ==> !seq_eq_ignore_case(headers@[j].name@, name@),
        decreases n - i,
    {
        let h: &Header = &headers[i];
        if eq_ignore_case(h.name.as_str(), name) {
            proof {
                assert forall|j: int| 0 <= j < i implies !seq_eq_ignore_case(
                    hview(headers@)[j].0,
                    name@,
                ) by {
                    assert(hview(headers@)[j].0 == headers@[j].name@);
                }
                assert(hview(headers@)[i as int].0 == headers@[i as int].name@);
                lemma_lookup_header_at(hview(headers@), name@, i as int);
            }
            return Some(h.value.clone());
        }
        i = i + 1;
    }
    proof {
        assert forall|j: int| 0 <= j < n implies !seq_eq_ignore_case(
            hview(headers@)[j].0,
            name@,
        ) by {
            assert(hview(headers@)[j].0 == headers@[j].name@);
        }
        lemma_lookup_header_at(hview(headers@), name@, n as int);
    }
    None
}

/// Whether some header in `headers` is named `name`, compared
/// ASCII-case-insensitively.
pub fn contains_header(headers: &Vec<Header>, name: &str) -> (r: bool)
    ensures
        r == has_header(hview(headers@), name@),
{
    match find_header_value(headers, name) {
        Some(_) => true,
        None => false,
    }
}

/// The hop-by-hop header names, which a proxy must not forward.
pub open spec fn is_hop_by_hop(name: Seq<char>) -> bool {
    ||| seq_eq_ignore_case(name, "keep-alive"@)
    ||| seq_eq_ignore_case(name, "transfer-encoding"@)
    ||| seq_eq_ignore_case(name, "te"@)
    ||| seq_eq_ignore_case(name, "connection"@)
    ||| seq_eq_ignore_case(name, "trailer"@)
    ||| seq_eq_ignore_case(name, "upgrade"@)
    ||| seq_eq_ignore_case(name, "proxy-authorization"@)
    ||| seq_eq_ignore_case(name, "proxy-authenticate"@)
}

/// Decides whether `name` is a hop-by-hop header name.
pub fn is_hop_by_hop_name(name: &str) -> (r: bool)
    ensures
        r == is_hop_by_hop(name@),
{
    eq_ignore_case(name, "keep-alive") || eq_ignore_case(name, "transfer-encoding")
        || eq_ignore_case(name, "te") || eq_ignore_case(name, "connection") || eq_ignore_case(
        name,
        "trailer",
    ) || eq_ignore_case(name, "upgrade") || eq_ignore_case(name, "proxy-authorization")
        || eq_ignore_case(name, "proxy-authenticate")
}

/// A request header that survives the rewrite: not hop-by-hop and not one of
/// the names the rewrite sets itself.
pub open spec fn forwardable(name: Seq<char>) -> bool {
    &&& !is_hop_by_hop(name)
    &&& !seq_eq_ignore_case(name, "host"@)
    &&& !seq_eq_ignore_case(name, "x-no-proxy"@)
}

/// The headers the rewrite keeps, in their original order.
pub open spec fn kept_headers(hs: Seq<(Seq<char>, Seq<char>)>) -> Seq<(Seq<char>, Seq<char>)>
    decreases hs.len(),
{
    if hs.len() == 0 {
        Seq::empty()
    } else if forwardable(hs.last().0) {
        kept_headers(hs.drop_last()).push(hs.last())
    } else {
        kept_headers(hs.drop_last())
    }
}

/// The headers of a proxied request: the forwardable originals, then `host`
/// pinned to the host identity, then the loop-prevention flag.
pub open spec fn adjusted_headers(hs: Seq<(Seq<char>, Seq<char>)>, host: Seq<char>) -> Seq<
    (Seq<char>, Seq<char>),
> {
    kept_headers(hs) + seq![("host"@, host), ("x-no-proxy"@, "true"@)]
}

/// Every header the rewrite keeps is forwardable.
pub proof fn lemma_kept_headers_forwardable(hs: Seq<(Seq<char>, Seq<char>)>, i: int)
    requires
        0 <= i < kept_headers(hs).len(),
    ensures
        forwardable(kept_headers(hs)[i].0),
    decreases hs.len(),
{
    if hs.len() > 0 {
        if forwardable(hs.last().0) {
            if i < kept_headers(hs.drop_last()).len() {
                lemma_kept_headers_forwardable(hs.drop_last(), i);
            }
        } else {
            lemma_kept_headers_forwardable(hs.drop_last(), i);
        }
    }
}

/// Hop-by-hop discipline: whatever the client sent, no header of a proxied
/// request has a hop-by-hop name.
pub proof fn lemma_hop_by_hop_stripped(hs: Seq<(Seq<char>, Seq<char>)>, host: Seq<char>, i: int)
    requires
        0 <= i < adjusted_headers(hs, host).len(),
    ensures
        !is_hop_by_hop(adjusted_headers(hs, host)[i].0),
{
    let kept = kept_headers(hs);
    if i < kept.len() {
        assert(adjusted_headers(hs, host)[i] == kept[i]);
        lemma_kept_headers_forwardable(hs, i);
    } else {
        reveal_strlit("host");
        reveal_strlit("x-no-proxy");
        reveal_strlit("keep-alive");
        reveal_strlit("transfer-encoding");
        reveal_strlit("te");
        reveal_strlit("connection");
        reveal_strlit("trailer");
        reveal_strlit("upgrade");
        reveal_strlit("proxy-authorization");
        reveal_strlit("proxy-authenticate");
        assert(crate::text::lower_code("x-no-proxy"@[0]) != crate::text::lower_code(
            "keep-alive"@[0],
        ));
        assert(crate::text::lower_code("x-no-proxy"@[0]) != crate::text::lower_code(
            "connection"@[0],
        ));
    }
}

/// Host rewrite: a proxied request carries exactly the host identity as its
/// `host` header.
pub proof fn lemma_host_rewritten(hs: Seq<(Seq<char>, Seq<char>)>, host: Seq<char>)
    ensures
        lookup_header(adjusted_headers(hs, host), "host"@) == Some(host),
{
    let kept = kept_headers(hs);
    let tail = seq![("host"@, host), ("x-no-proxy"@, "true"@)];
    assert forall|j: int| 0 <= j < kept.len() implies !seq_eq_ignore_case(kept[j].0, "host"@) by {
        lemma_kept_headers_forwardable(hs, j);
    }
    lemma_lookup_header_skip(kept, tail, "host"@);
    assert(seq_eq_ignore_case(tail[0].0, "host"@));
}

/// Loop prevention: a proxied request carries `x-no-proxy: true`.
pub proof fn lemma_no_proxy_set(hs: Seq<(Seq<char>, Seq<char>)>, host: Seq<char>)
    ensures
        lookup_header(adjusted_headers(hs, host), "x-no-proxy"@) == Some("true"@),
{
    let kept = kept_headers(hs);
    let tail = seq![("host"@, host), ("x-no-proxy"@, "true"@)];
    assert forall|j: int| 0 <= j < kept.len() implies !seq_eq_ignore_case(
        kept[j].0,
        "x-no-proxy"@,
    ) by {
        lemma_kept_headers_forwardable(hs, j);
    }
    lemma_lookup_header_skip(kept, tail, "x-no-proxy"@);
    reveal_strlit("host");
    reveal_strlit("x-no-proxy");
    assert(!seq_eq_ignore_case(tail[0].0, "x-no-proxy"@));
    assert(tail.drop_first() =~= seq![("x-no-proxy"@, "true"@)]);
    assert(seq_eq_ignore_case("x-no-proxy"@, "x-no-proxy"@));
    assert(lookup_header(seq![("x-no-proxy"@, "true"@)], "x-no-proxy"@) == Some("true"@));
    assert(lookup_header(tail, "x-no-proxy"@) == Some("true"@));
}

/// Copies a header list, entry by entry.
pub fn clone_headers(headers: &Vec<Header>) -> (r: Vec<Header>)
    ensures
        r@ == headers@,
{
    let n: usize = headers.len();
    let mut out: Vec<Header> = Vec::new();
    let mut i: usize = 0;
    while i < n
        invariant
            0 <= i <= n,
            n == headers@.len(),
            out@ == headers@.take(i as int),
        decreases n - i,
    {
        let h: &Header = &headers[i];
        out.push(Header { name: h.name.clone(), value: h.value.clone() });
        proof {
            assert(out@ =~= headers@.take(i + 1));
        }
        i = i + 1;
    }
    proof {
        assert(headers@.take(n as int) =~= headers@);
    }
    out
}

/// Rewrites the headers of a request that is being proxied downstream:
/// strips the hop-by-hop set, pins `host` to the host identity, and inserts
/// the loop-prevention header.
pub fn adjust_proxied_headers(req: &mut Request, host_authority: &str)
    ensures
        hview(final(req).headers@) == adjusted_headers(
            hview(old(req).headers@),
            host_authority@,
        ),
        final(req).version == old(req).version,
        final(req).method == old(req).method,
        final(req).scheme == old(req).scheme,
        final(req).authority == old(req).authority,
        final(req).path == old(req).path,
        final(req).query == old(req).query,
{
    let n: usize = req.headers.len();
    let mut out: Vec<Header> = Vec::new();
    let mut i: usize = 0;
    while i < n
        invariant
            0 <= i <= n,
            n == req.headers@.len(),
            *req == *old(req),
            hview(out@) == kept_headers(hview(req.headers@).take(i as int)),
        decreases n - i,
    {
        let ghost hv = hview(req.headers@);
        let ghost out_before = hview(out@);
        let h: &Header = &req.headers[i];
        let keep: bool = !is_hop_by_hop_name(h.name.as_str()) && !eq_ignore_case(
            h.name.as_str(),
            "host",
        ) && !eq_ignore_case(h.name.as_str(), "x-no-proxy");
        proof {
            assert(hv[i as int] == (h.name@, h.value@));
            assert(hv.take(i + 1).drop_last() =~= hv.take(i as int));
            assert(hv.take(i + 1).last() == hv[i as int]);
        }
        if keep {
            out.push(Header { name: h.name.clone(), value: h.value.clone() });
            proof {
                assert(hview(out@) =~= out_before.push(hv[i as int]));
            }
        }
        i = i + 1;
    }
    proof {
        assert(hview(req.headers@).take(n as int) =~= hview(req.headers@));
    }
    let ghost kept_done = hview(out@);
    out.push(Header::new("host", host_authority));
    out.push(Header::new("x-no-proxy", "true"));
    proof {
        assert(hview(out@) =~= kept_done + seq![
            ("host"@, host_authority@),
            ("x-no-proxy"@, "true"@),
        ]);
    }
    req.headers = out;
}

} // verus!
