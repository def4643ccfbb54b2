//! Host identity extraction: which name, if any, a request uses to select a
//! backend.

use vstd::prelude::*;
use vstd::string::StrSliceExecFns;
use vstd::string::StringExecFns;

use crate::headers::{find_header_value, lookup_header};
use crate::model::{hview, Request};
use crate::text::{find_char, first_index_of, is_ipv4_literal, is_ipv4_literal_str, str_eq};

verus! {

/// The raw host a request names: the `host` header when present, otherwise
/// the URI authority (the HTTP/2 pseudo-authority).
pub open spec fn raw_host(req: Request) -> Option<Seq<char>> {
    match lookup_header(hview(req.headers@), "host"@) {
        Some(v) => Some(v),
        None => match req.authority {
            Some(a) => Some(a@),
            None => None,
        },
    }
}

/// `s` with everything from the first colon on removed.
pub open spec fn strip_port(s: Seq<char>) -> Seq<char> {
    s.take(first_index_of(s, ':'))
}

/// The host identity of a request: the raw host, port-stripped, unless it is
/// the literal `localhost` or an IPv4 literal, which address the proxy
/// itself and never select a backend. No textual IPv6 literal survives port
/// stripping, since every such literal contains a colon.
pub open spec fn host_identity(req: Request) -> Option<Seq<char>> {
    match raw_host(req) {
        None => None,
        Some(h) => {
            let t = strip_port(h);
            if t == "localhost"@ || is_ipv4_literal(t) {
                None
            } else {
                Some(t)
            }
        },
    }
}

/// Extracts the host identity of a request, as `host_identity` describes it.
pub fn get_host(req: &Request) -> (r: Option<String>)
    ensures
        match r {
            Some(h) => host_identity(*req) == Some(h@),
            None => host_identity(*req) is None,
        },
{
    let raw: Option<String> = match find_header_value(&req.headers, "host") {
        Some(v) => Some(v),
        None => match &req.authority {
            Some(a) => Some(a.clone()),
            None => None,
        },
    };
    match raw {
        None => None,
        Some(h) => {
            let stripped: &str = match find_char(h.as_str(), ':') {
                Some(i) => h.as_str().substring_char(0, i),
                None => h.as_str(),
            };
            proof {
                crate::text::lemma_first_index_of(h@, ':');
                assert(stripped@ =~= strip_port(h@));
            }
            if str_eq(stripped, "localhost") {
                None
            } else if is_ipv4_literal_str(stripped) {
                None
            } else {
                Some(String::from_str(stripped))
            }
        },
    }
}

} // verus!
