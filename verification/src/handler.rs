//! The per-request proxy handler: version gate, host extraction, internal
//! endpoint dispatch, routing, request rewrite, and response annotation.

use vstd::prelude::*;
use vstd::string::StringExecFns;

use crate::client::{upstream_response, UpstreamOutcome};
use crate::headers::{
    adjust_proxied_headers, adjusted_headers, clone_headers, contains_header, has_header,
    lemma_hop_by_hop_stripped, lemma_host_rewritten, lemma_no_proxy_set, lookup_header,
};
use crate::host::{get_host, host_identity};
use crate::metrics::encode_metrics;
use crate::model::{
    hview, sview, version_allowed, version_text, Backend, Header, Method, ProxyState, Request,
    Response, ResponseContext, Version,
};
use crate::routing::{registry_wf, router, spec_route, spec_route_state};
use crate::text::{seq_eq_ignore_case, str_eq};

verus! {

/// `req` carries the loop-prevention header.
pub open spec fn req_no_proxy(req: Request) -> bool {
    has_header(hview(req.headers@), "x-no-proxy"@)
}

/// What the dispatch stage decides for a request.
#[allow(dead_code)]
pub enum Dispatch {
    BadVersion,
    Status,
    Metrics,
    NoHost,
    Proxy,
}

/// The dispatch decision for a request: the version gate first, then the
/// internal endpoints (reachable only with the loop-prevention header), then
/// the host requirement — a request without a host identity is answered
/// with the host rejection whether or not it carries the flag — and
/// everything else is proxied.
pub open spec fn dispatch_of(req: Request) -> Dispatch {
    if !version_allowed(req.version) {
        Dispatch::BadVersion
    } else if req.method == Method::Get && req.path@ == "/status"@ && req_no_proxy(req) {
        Dispatch::Status
    } else if req.method == Method::Get && req.path@ == "/metrics"@ && req_no_proxy(req) {
        Dispatch::Metrics
    } else if host_identity(req) is None {
        Dispatch::NoHost
    } else {
        Dispatch::Proxy
    }
}

/// A final response with the given status and body, no context attached.
pub open spec fn plain_response(r: Response, status: int, body: Seq<char>) -> bool {
    r.status == status && r.body@ == body && r.context is None
}

/// The body of the version-gate rejection.
pub open spec fn unsupported_version_body(v: Version) -> Seq<char> {
    "Unsupported HTTP version: "@ + version_text(v)
}

/// The `/metrics` payload owed for an encoder outcome: the rendered text
/// with its content type on success, a 500 naming the error otherwise.
pub open spec fn metrics_response_spec(enc: Result<String, String>, r: Response) -> bool {
    r.context is None && match enc {
        Ok(s) => r.status == 200 && r.body@ == s@ && lookup_header(
            hview(r.headers@),
            "content-type"@,
        ) == Some("text/plain; charset=utf-8"@),
        Err(m) => r.status == 500 && r.body@ == "Error encoding metrics: "@ + m@,
    }
}

/// The rewritten upstream request: same method, path and query, plain-http
/// scheme, the chosen backend location as authority, HTTP/1.1, and the
/// rewritten header list.
pub open spec fn forwarded_request_spec(
    orig: Request,
    host: Seq<char>,
    location: Seq<char>,
    fwd: Request,
) -> bool {
    &&& fwd.version == Version::Http11
    &&& fwd.method == orig.method
    &&& (fwd.scheme matches Some(s) && s@ == "http"@)
    &&& (fwd.authority matches Some(a) && a@ == location)
    &&& fwd.path@ == orig.path@
    &&& (match (fwd.query, orig.query) {
        (Some(a), Some(b)) => a@ == b@,
        (None, None) => true,
        _ => false,
    })
    &&& hview(fwd.headers@) == adjusted_headers(hview(orig.headers@), host)
}

/// What the handler decides for one request: a final response, or a
/// rewritten request to forward to the chosen backend location.
pub enum Plan {
    Respond(Response),
    Forward { request: Request, backend_location: String },
}

/// Turns a response into a 400 rejection carrying `message`, keeping its
/// headers and context.
pub fn bad_request_handler(response: Response, message: String) -> (r: Response)
    ensures
        r.status == 400,
        r.body@ == message@,
        r.headers@ == response.headers@,
        r.context == response.context,
{
    Response {
        status: 400,
        headers: response.headers,
        body: message,
        context: response.context,
    }
}

/// The `/status` liveness response.
pub fn status_response() -> (r: Response)
    ensures
        plain_response(r, 200, "The proxy is running"@),
        r.headers@.len() == 0,
{
    Response {
        status: 200,
        headers: Vec::new(),
        body: String::from_str("The proxy is running"),
        context: None,
    }
}

/// Shapes the `/metrics` payload for an encoder outcome.
pub fn metrics_response(enc: Result<String, String>) -> (r: Response)
    ensures
        metrics_response_spec(enc, r),
{
    match enc {
        Ok(s) => {
            let mut headers: Vec<Header> = Vec::new();
            headers.push(Header::new("content-type", "text/plain; charset=utf-8"));
            proof {
                assert(hview(headers@) =~= seq![
                    ("content-type"@, "text/plain; charset=utf-8"@),
                ]);
                assert(seq_eq_ignore_case("content-type"@, "content-type"@));
            }
            Response { status: 200, headers: headers, body: s, context: None }
        },
        Err(m) => {
            let mut body: String = String::from_str("Error encoding metrics: ");
            body.append(m.as_str());
            Response { status: 500, headers: Vec::new(), body: body, context: None }
        },
    }
}

/// The `/metrics` endpoint: renders the process metrics and shapes the
/// outcome, whatever the encoder returned.
pub fn metrics_endpoint_response() -> (r: Response)
    ensures
        exists|enc: Result<String, String>| metrics_response_spec(enc, r),
        r.context is None,
        r.status == 200 || r.status == 500,
{
    let enc: Result<String, String> = encode_metrics();
    let ghost genc = enc;
    let r = metrics_response(enc);
    proof {
        assert(metrics_response_spec(genc, r));
    }
    r
}

/// The rejection of a request without a host identity.
pub fn not_found_host_response() -> (r: Response)
    ensures
        plain_response(r, 404, "Host header not defined"@),
        r.headers@.len() == 0,
{
    Response {
        status: 404,
        headers: Vec::new(),
        body: String::from_str("Host header not defined"),
        context: None,
    }
}

/// The per-request state machine. It always produces a plan and never
/// fails: a final response for the version gate, the internal endpoints,
/// the host rejection and an unmatched host, or the rewritten request for
/// the routed backend location. Only a routing decision for a load-balanced
/// backend moves the shared state.
pub fn proxy_handler(backends: &Vec<Backend>, state: &mut ProxyState, req: &Request) -> (p: Plan)
    requires
        registry_wf(backends@),
        old(state).wf(backends@),
    ensures
        final(state).wf(backends@),
        (dispatch_of(*req) matches Dispatch::BadVersion ==> (p matches Plan::Respond(r)
            && plain_response(r, 400, unsupported_version_body(req.version)))),
        (dispatch_of(*req) matches Dispatch::Status ==> (p matches Plan::Respond(r)
            && plain_response(r, 200, "The proxy is running"@))),
        (dispatch_of(*req) matches Dispatch::Metrics ==> (p matches Plan::Respond(r) && (exists|
            enc: Result<String, String>,
        | metrics_response_spec(enc, r)) && r.context is None && (r.status == 200 || r.status
            == 500))),
        (dispatch_of(*req) matches Dispatch::NoHost ==> (p matches Plan::Respond(r)
            && plain_response(r, 404, "Host header not defined"@))),
        (dispatch_of(*req) matches Dispatch::Proxy ==> (match spec_route(
            backends@,
            sview(old(state).backends@),
            host_identity(*req)->0,
        ) {
            None => p matches Plan::Respond(r) && plain_response(r, 404, Seq::<char>::empty()),
            Some(loc) => p matches Plan::Forward { request, backend_location }
                && backend_location@ == loc && forwarded_request_spec(
                *req,
                host_identity(*req)->0,
                loc,
                request,
            ),
        })),
        (dispatch_of(*req) matches Dispatch::Proxy ==> sview(final(state).backends@)
            == spec_route_state(
            backends@,
            sview(old(state).backends@),
            host_identity(*req)->0,
        )),
        (!(dispatch_of(*req) matches Dispatch::Proxy) ==> final(state).backends@ == old(
            state,
        ).backends@),
        ((p matches Plan::Respond(r) && r.status == 400) ==> dispatch_of(
            *req,
        ) matches Dispatch::BadVersion),
{
    let response = Response::new_empty();
    if !req.version.is_allowed() {
        let mut msg: String = String::from_str("Unsupported HTTP version: ");
        msg.append(req.version.as_str());
        return Plan::Respond(bad_request_handler(response, msg));
    }
    let host_authority: Option<String> = get_host(req);
    let no_proxy: bool = contains_header(&req.headers, "x-no-proxy");
    let is_get: bool = match req.method {
        Method::Get => true,
        _ => false,
    };
    if is_get && no_proxy && str_eq(req.path.as_str(), "/status") {
        return Plan::Respond(status_response());
    }
    if is_get && no_proxy && str_eq(req.path.as_str(), "/metrics") {
        return Plan::Respond(metrics_endpoint_response());
    }
    let host: String = match host_authority {
        None => {
            return Plan::Respond(not_found_host_response());
        },
        Some(h) => h,
    };
    let backend_location: Option<String> = router(backends, state, host.as_str());
    match backend_location {
        None => Plan::Respond(
            Response { status: 404, headers: Vec::new(), body: String::new(), context: None },
        ),
        Some(loc) => {
            let mut fwd = Request {
                version: Version::Http11,
                method: req.method,
                scheme: Some(String::from_str("http")),
                authority: Some(loc.clone()),
                path: req.path.clone(),
                query: match &req.query {
                    Some(q) => Some(q.clone()),
                    None => None,
                },
                headers: clone_headers(&req.headers),
            };
            adjust_proxied_headers(&mut fwd, host.as_str());
            Plan::Forward { request: fwd, backend_location: loc }
        },
    }
}

/// Attaches the response context naming the backend location that served
/// (or failed to serve) a proxied request; everything else is untouched.
pub fn annotate_response(response: Response, backend_location: String) -> (r: Response)
    ensures
        r.status == response.status,
        r.headers@ == response.headers@,
        r.body@ == response.body@,
        (r.context matches Some(c) && c.backend_location@ == backend_location@),
{
    Response {
        status: response.status,
        headers: response.headers,
        body: response.body,
        context: Some(ResponseContext { backend_location: backend_location }),
    }
}

/// Completes a forwarded request: classifies the downstream outcome and
/// annotates the result with the chosen backend location, so the response
/// always reaches the metrics layer labelled.
pub fn finish_forwarded(outcome: UpstreamOutcome, backend_location: String) -> (r: Response)
    ensures
        (r.context matches Some(c) && c.backend_location@ == backend_location@),
        (outcome matches UpstreamOutcome::Success(dr) ==> r.status == dr.status && r.body@
            == dr.body@ && r.headers@ == dr.headers@),
        (outcome matches UpstreamOutcome::ConnectFailure ==> r.status == 503 && r.body@
            == "Cannot connect to backend"@),
        (outcome matches UpstreamOutcome::Timeout ==> r.status == 504 && r.body@
            == "Request timeout"@),
        (outcome matches UpstreamOutcome::OtherFailure ==> r.status == 500 && r.body@
            == "Unhandled error, see logs"@),
{
    let resp = upstream_response(outcome);
    annotate_response(resp, backend_location)
}

/// Version gate both ways: a version is accepted exactly when the dispatch
/// is not the 400 rejection with the diagnostic body.
pub proof fn lemma_version_gate(req: Request)
    ensures
        version_allowed(req.version) <==> !(dispatch_of(req) matches Dispatch::BadVersion),
{
}

/// Host discipline: past the version gate, a request without a host
/// identity that does not hit an internal endpoint is dispatched to the
/// host rejection.
pub proof fn lemma_host_discipline(req: Request)
    requires
        version_allowed(req.version),
        host_identity(req) is None,
        !(req.method == Method::Get && req.path@ == "/status"@ && req_no_proxy(req)),
        !(req.method == Method::Get && req.path@ == "/metrics"@ && req_no_proxy(req)),
    ensures
        dispatch_of(req) matches Dispatch::NoHost,
{
}

/// Loop prevention, outbound half: every request the proxy forwards carries
/// the loop-prevention header.
pub proof fn lemma_loop_prevention_forward(
    orig: Request,
    host: Seq<char>,
    location: Seq<char>,
    fwd: Request,
)
    requires
        forwarded_request_spec(orig, host, location, fwd),
    ensures
        req_no_proxy(fwd),
        lookup_header(hview(fwd.headers@), "x-no-proxy"@) == Some("true"@),
{
    lemma_no_proxy_set(hview(orig.headers@), host);
}

/// Loop prevention, inbound half: a request without the loop-prevention
/// header is never served an internal endpoint.
pub proof fn lemma_loop_prevention_ingress(req: Request)
    requires
        !req_no_proxy(req),
    ensures
        !(dispatch_of(req) matches Dispatch::Status),
        !(dispatch_of(req) matches Dispatch::Metrics),
{
}

/// Header strip at the handler level: no header of a forwarded request has
/// a hop-by-hop name.
pub proof fn lemma_forwarded_no_hop_by_hop(
    orig: Request,
    host: Seq<char>,
    location: Seq<char>,
    fwd: Request,
    i: int,
)
    requires
        forwarded_request_spec(orig, host, location, fwd),
        0 <= i < hview(fwd.headers@).len(),
    ensures
        !crate::headers::is_hop_by_hop(hview(fwd.headers@)[i].0),
{
    lemma_hop_by_hop_stripped(hview(orig.headers@), host, i);
}

/// Host rewrite at the handler level: the forwarded request's `host` header
/// is exactly the host identity the handler extracted.
pub proof fn lemma_forwarded_host(
    orig: Request,
    host: Seq<char>,
    location: Seq<char>,
    fwd: Request,
)
    requires
        forwarded_request_spec(orig, host, location, fwd),
    ensures
        lookup_header(hview(fwd.headers@), "host"@) == Some(host),
{
    lemma_host_rewritten(hview(orig.headers@), host);
}

} // verus!

