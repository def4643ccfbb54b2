//! The upstream side of a proxied request: classification of a downstream
//! call's outcome into the response handed back, and the timeout the
//! transport applies.

use vstd::prelude::*;
use vstd::string::StringExecFns;

use crate::model::{hview, Header, Response};

verus! {

/// What a downstream call came to: a response, or one of the transport
/// failures the proxy distinguishes.
pub enum UpstreamOutcome {
    Success(Response),
    ConnectFailure,
    Timeout,
    OtherFailure,
}

/// The headers of a synthesized gateway response.
pub open spec fn synthesized_headers() -> Seq<(Seq<char>, Seq<char>)> {
    seq![("content-type"@, "text/plain; charset=utf-8"@)]
}

/// The response owed for a downstream outcome: the downstream response
/// itself on success, otherwise a synthesized plain-text response with the
/// matching gateway status — 503 for a connect failure, 504 for a timeout,
/// 500 for any other transport failure.
pub open spec fn upstream_response_spec(outcome: UpstreamOutcome, r: Response) -> bool {
    match outcome {
        UpstreamOutcome::Success(dr) => r == dr,
        UpstreamOutcome::ConnectFailure => r.status == 503 && r.body@
            == "Cannot connect to backend"@ && hview(r.headers@) == synthesized_headers()
            && r.context is None,
        UpstreamOutcome::Timeout => r.status == 504 && r.body@ == "Request timeout"@ && hview(
            r.headers@,
        ) == synthesized_headers() && r.context is None,
        UpstreamOutcome::OtherFailure => r.status == 500 && r.body@
            == "Unhandled error, see logs"@ && hview(r.headers@) == synthesized_headers()
            && r.context is None,
    }
}

/// Builds a synthesized plain-text gateway response.
fn synthesize(status: u16, body: &str) -> (r: Response)
    ensures
        r.status == status,
        r.body@ == body@,
        hview(r.headers@) == synthesized_headers(),
        r.context is None,
{
    let mut headers: Vec<Header> = Vec::new();
    headers.push(Header::new("content-type", "text/plain; charset=utf-8"));
    proof {
        assert(hview(headers@) =~= synthesized_headers());
    }
    Response { status: status, headers: headers, body: String::from_str(body), context: None }
}

/// Maps a downstream outcome to the response the upstream client hands
/// back. It never fails: every transport failure becomes a gateway
/// response, and the client never retries.
pub fn upstream_response(outcome: UpstreamOutcome) -> (r: Response)
    ensures
        upstream_response_spec(outcome, r),
{
    match outcome {
        UpstreamOutcome::Success(dr) => dr,
        UpstreamOutcome::ConnectFailure => synthesize(503, "Cannot connect to backend"),
        UpstreamOutcome::Timeout => synthesize(504, "Request timeout"),
        UpstreamOutcome::OtherFailure => synthesize(500, "Unhandled error, see logs"),
    }
}

/// The wall-clock deadline the upstream transport applies to one downstream
/// call, in milliseconds: the configured value, or 60 when none is
/// configured.
pub fn effective_timeout_ms(timeout: Option<u64>) -> (r: u64)
    ensures
        r == (match timeout {
            Some(t) => t,
            None => 60u64,
        }),
{
    match timeout {
        Some(t) => t,
        None => 60,
    }
}

} // verus!
