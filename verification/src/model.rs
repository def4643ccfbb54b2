//! The data model of the proxy core: protocol versions, methods, header
//! lists, requests and responses as the pipeline reads them, backend
//! declarations, and the shared routing state.

use vstd::prelude::*;
use vstd::string::StringExecFns;

verus! {

/// The HTTP protocol version of a request.
#[derive(Clone, Copy, Debug, PartialEq, Eq, Structural)]
pub enum Version {
    Http09,
    Http10,
    Http11,
    Http2,
    Http3,
}

/// The textual form of a version, as it appears in diagnostics.
pub open spec fn version_text(v: Version) -> Seq<char> {
    match v {
        Version::Http09 => "HTTP/0.9"@,
        Version::Http10 => "HTTP/1.0"@,
        Version::Http11 => "HTTP/1.1"@,
        Version::Http2 => "HTTP/2.0"@,
        Version::Http3 => "HTTP/3.0"@,
    }
}

/// The versions the proxy accepts from clients.
pub open spec fn version_allowed(v: Version) -> bool {
    v == Version::Http10 || v == Version::Http11 || v == Version::Http2
}

impl Version {
    /// The textual form of this version.
    pub fn as_str(&self) -> (r: &'static str)
        ensures
            r@ == version_text(*self),
    {
        match self {
            Version::Http09 => "HTTP/0.9",
            Version::Http10 => "HTTP/1.0",
            Version::Http11 => "HTTP/1.1",
            Version::Http2 => "HTTP/2.0",
            Version::Http3 => "HTTP/3.0",
        }
    }

    /// Whether the proxy accepts this version from clients.
    pub fn is_allowed(&self) -> (r: bool)
        ensures
            r == version_allowed(*self),
    {
        match self {
            Version::Http10 => true,
            Version::Http11 => true,
            Version::Http2 => true,
            Version::Http09 => false,
            Version::Http3 => false,
        }
    }
}

/// The HTTP method of a request.
#[derive(Clone, Copy, Debug, PartialEq, Eq, Structural)]
pub enum Method {
    Get,
    Head,
    Post,
    Put,
    Delete,
    Options,
    Patch,
    Connect,
    Trace,
    Other,
}

/// One request or response header.
#[derive(Debug)]
pub struct Header {
    pub name: String,
    pub value: String,
}

impl Header {
    /// Builds a header from plain string slices.
    pub fn new(name: &str, value: &str) -> (h: Header)
        ensures
            h.name@ == name@,
            h.value@ == value@,
    {
        Header { name: String::from_str(name), value: String::from_str(value) }
    }
}

/// The view of a header list: a sequence of (name, value) character pairs.
pub open spec fn hview(hs: Seq<Header>) -> Seq<(Seq<char>, Seq<char>)> {
    hs.map_values(|h: Header| (h.name@, h.value@))
}

/// An inbound or outbound request, reduced to the parts the pipeline reads:
/// the body never influences a routing or rewriting decision and stays with
/// the transport.
#[derive(Debug)]
pub struct Request {
    pub version: Version,
    pub method: Method,
    pub scheme: Option<String>,
    pub authority: Option<String>,
    pub path: String,
    pub query: Option<String>,
    pub headers: Vec<Header>,
}

/// Marks a response as produced by (or on behalf of) a downstream call and
/// names the backend location that served it; the metrics layer reads it and
/// its absence excludes a response from the request metrics.
#[derive(Debug)]
pub struct ResponseContext {
    pub backend_location: String,
}

/// A response as the pipeline shapes it.
#[derive(Debug)]
pub struct Response {
    pub status: u16,
    pub headers: Vec<Header>,
    pub body: String,
    pub context: Option<ResponseContext>,
}

impl Response {
    /// An empty 200 response, the handler's starting point.
    pub fn new_empty() -> (r: Response)
        ensures
            r.status == 200,
            r.headers@.len() == 0,
            r.body@.len() == 0,
            r.context is None,
    {
        Response { status: 200, headers: Vec::new(), body: String::new(), context: None }
    }
}

/// One declared backend: a host name to match, and either a single location
/// or an ordered list of locations to balance over.
#[derive(Debug)]
pub struct Backend {
    pub name: Option<String>,
    pub location: Option<String>,
    pub backend_type: Option<String>,
    pub locations: Option<Vec<String>>,
}

/// `b` is declared load-balanced.
pub open spec fn is_loadbalanced(b: Backend) -> bool {
    b.backend_type matches Some(t) && t@ == "loadbalanced"@
}

/// The round-robin cursor of one load-balanced backend; -1 means no request
/// has been served yet.
#[derive(Debug)]
pub struct BackendState {
    pub rr_count: isize,
}

/// The routing state kept for one backend name: a cursor for load-balanced
/// backends, nothing for single-location ones.
#[derive(Debug)]
pub struct StateEntry {
    pub name: String,
    pub state: Option<BackendState>,
}

/// The shared routing state: one entry per declared backend name, kept as
/// an association list with map discipline — names are unique by
/// construction and lookup goes by name.
#[derive(Debug)]
pub struct ProxyState {
    pub backends: Vec<StateEntry>,
}

/// The view of the routing state: (name, cursor) pairs, where the cursor is
/// absent for entries that do not balance.
pub open spec fn sview(st: Seq<StateEntry>) -> Seq<(Seq<char>, Option<int>)> {
    st.map_values(
        |e: StateEntry|
            (
                e.name@,
                match e.state {
                    Some(bs) => Some(bs.rr_count as int),
                    None => None,
                },
            ),
    )
}

} // verus!
