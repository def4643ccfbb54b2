use brachyura::client::{effective_timeout_ms, UpstreamOutcome};
use brachyura::handler::{finish_forwarded, metrics_response, status_response, Plan};
use brachyura::metrics::metric_labels;
use brachyura::{
    adjust_proxied_headers, bad_request_handler, get_host, proxy_handler, Backend, Header, Method,
    ProxyState, Request, Response, Version,
};

fn header(name: &str, value: &str) -> Header {
    Header { name: name.to_string(), value: value.to_string() }
}

fn request(
    version: Version,
    method: Method,
    path: &str,
    authority: Option<&str>,
    headers: Vec<Header>,
) -> Request {
    Request {
        version,
        method,
        scheme: Some("https".to_string()),
        authority: authority.map(|a| a.to_string()),
        path: path.to_string(),
        query: None,
        headers,
    }
}

fn single(name: &str, location: &str) -> Backend {
    Backend {
        name: Some(name.to_string()),
        location: Some(location.to_string()),
        backend_type: None,
        locations: None,
    }
}

fn loadbalanced(name: &str, locations: &[&str]) -> Backend {
    Backend {
        name: Some(name.to_string()),
        location: None,
        backend_type: Some("loadbalanced".to_string()),
        locations: Some(locations.iter().map(|l| l.to_string()).collect()),
    }
}

fn downstream(status: u16, body: &str) -> Response {
    Response { status, headers: Vec::new(), body: body.to_string(), context: None }
}

fn header_value(headers: &[Header], name: &str) -> Option<String> {
    headers
        .iter()
        .find(|h| h.name.eq_ignore_ascii_case(name))
        .map(|h| h.value.clone())
}

#[test]
fn test_get_host_http1() {
    let request = request(
        Version::Http10,
        Method::Get,
        "/test",
        Some("localhost:4000"),
        vec![header("host", "test.home")],
    );
    let host = get_host(&request);
    assert_eq!(host.unwrap(), "test.home");
}

#[test]
fn test_get_host_http1_none() {
    let request = request(
        Version::Http10,
        Method::Get,
        "/test",
        Some("localhost:4000"),
        vec![],
    );
    let host = get_host(&request);
    assert_eq!(host, None);
}

#[test]
fn test_get_host_http2() {
    let request = request(
        Version::Http2,
        Method::Get,
        "/test",
        Some("localhost:4000"),
        vec![header("host", "test.home")],
    );
    let host = get_host(&request);
    assert_eq!(host.unwrap(), "test.home");
}

#[test]
fn test_get_host_http2_none() {
    let request = request(
        Version::Http2,
        Method::Get,
        "/test",
        Some("localhost:4000"),
        vec![],
    );
    let host = get_host(&request);
    assert_eq!(host, None);
}

#[test]
fn get_host_strips_port_and_rejects_ip_literals() {
    let with_port = request(
        Version::Http11,
        Method::Get,
        "/",
        None,
        vec![header("host", "test.home:443")],
    );
    assert_eq!(get_host(&with_port).unwrap(), "test.home");

    let ip = request(
        Version::Http11,
        Method::Get,
        "/",
        None,
        vec![header("host", "127.0.0.1:4000")],
    );
    assert_eq!(get_host(&ip), None);

    let localhost = request(
        Version::Http11,
        Method::Get,
        "/",
        None,
        vec![header("host", "localhost")],
    );
    assert_eq!(get_host(&localhost), None);

    let nothing = request(Version::Http11, Method::Get, "/", None, vec![]);
    assert_eq!(get_host(&nothing), None);
}

#[test]
fn test_adjust_proxied_headers() {
    let mut req = request(
        Version::Http11,
        Method::Post,
        "/test",
        None,
        vec![header("host", "test_host"), header("proxy-authenticate", "true")],
    );
    adjust_proxied_headers(&mut req, "test");
    assert!(req.headers.iter().count() == 2);
    assert!(req.headers.iter().any(|h| h.name == "host"));
    assert!(req.headers.iter().any(|h| h.name == "x-no-proxy"));
    assert_eq!(header_value(&req.headers, "host").unwrap(), "test");
}

#[test]
fn adjust_proxied_headers_strips_hop_by_hop() {
    let mut req = request(
        Version::Http11,
        Method::Get,
        "/test",
        None,
        vec![
            header("Keep-Alive", "timeout=5"),
            header("Transfer-Encoding", "chunked"),
            header("TE", "trailers"),
            header("Connection", "close"),
            header("Trailer", "Expires"),
            header("Upgrade", "h2c"),
            header("Proxy-Authorization", "Basic x"),
            header("Proxy-Authenticate", "Basic"),
            header("accept", "text/html"),
        ],
    );
    adjust_proxied_headers(&mut req, "test.home");
    let names: Vec<String> = req.headers.iter().map(|h| h.name.to_ascii_lowercase()).collect();
    assert_eq!(names, vec!["accept", "host", "x-no-proxy"]);
    assert_eq!(header_value(&req.headers, "x-no-proxy").unwrap(), "true");
}

#[test]
fn test_bad_request_handler() {
    let original_response = downstream(200, "test");
    let response = bad_request_handler(original_response, "test error".to_string());
    assert_eq!(response.status, 400);
    assert_eq!(response.body, "test error");
}

#[test]
fn proxied_request_reaches_backend_and_counts() {
    let config = vec![single("test.home", "127.0.0.1:8000")];
    let mut state = ProxyState::new(&config);
    let req = request(
        Version::Http11,
        Method::Get,
        "/test",
        None,
        vec![header("host", "test.home")],
    );
    match proxy_handler(&config, &mut state, &req) {
        Plan::Forward { request: fwd, backend_location } => {
            assert_eq!(backend_location, "127.0.0.1:8000");
            assert!(matches!(fwd.version, Version::Http11));
            assert_eq!(fwd.scheme.as_deref(), Some("http"));
            assert_eq!(fwd.authority.as_deref(), Some("127.0.0.1:8000"));
            assert_eq!(fwd.path, "/test");
            assert_eq!(header_value(&fwd.headers, "host").unwrap(), "test.home");
            assert_eq!(header_value(&fwd.headers, "x-no-proxy").unwrap(), "true");

            let outcome = UpstreamOutcome::Success(downstream(200, "This is the mock backend!"));
            let resp = finish_forwarded(outcome, backend_location);
            assert_eq!(resp.status, 200);
            assert_eq!(resp.body, "This is the mock backend!");
            let labels = metric_labels(&resp).unwrap();
            assert_eq!(labels.status, "200");
            assert_eq!(labels.backend, "127.0.0.1:8000");
        }
        Plan::Respond(_) => panic!("expected a forwarded request"),
    }
}

#[test]
fn missing_host_is_rejected_without_metrics() {
    let config = vec![single("test.home", "127.0.0.1:8000")];
    let mut state = ProxyState::new(&config);
    let req = request(Version::Http11, Method::Get, "/test", None, vec![]);
    match proxy_handler(&config, &mut state, &req) {
        Plan::Respond(resp) => {
            assert_eq!(resp.status, 404);
            assert_eq!(resp.body, "Host header not defined");
            assert!(metric_labels(&resp).is_none());
        }
        Plan::Forward { .. } => panic!("expected a final response"),
    }
}

#[test]
fn status_endpoint_answers_internally() {
    let config = vec![single("test.home", "127.0.0.1:8000")];
    let mut state = ProxyState::new(&config);
    let req = request(
        Version::Http11,
        Method::Get,
        "/status",
        None,
        vec![header("x-no-proxy", "true")],
    );
    match proxy_handler(&config, &mut state, &req) {
        Plan::Respond(resp) => {
            assert_eq!(resp.status, 200);
            assert_eq!(resp.body, "The proxy is running");
            assert!(resp.context.is_none());
            assert!(metric_labels(&resp).is_none());
        }
        Plan::Forward { .. } => panic!("expected a final response"),
    }
}

#[test]
fn status_path_without_flag_is_not_internal() {
    let config = vec![single("test.home", "127.0.0.1:8000")];
    let mut state = ProxyState::new(&config);
    let req = request(
        Version::Http11,
        Method::Get,
        "/status",
        None,
        vec![header("host", "test.home")],
    );
    match proxy_handler(&config, &mut state, &req) {
        Plan::Forward { backend_location, .. } => {
            assert_eq!(backend_location, "127.0.0.1:8000");
        }
        Plan::Respond(_) => panic!("expected the request to be proxied"),
    }
}

#[test]
fn connect_failure_becomes_503_with_metrics() {
    let resp = finish_forwarded(UpstreamOutcome::ConnectFailure, "127.0.0.1:8000".to_string());
    assert_eq!(resp.status, 503);
    assert_eq!(resp.body, "Cannot connect to backend");
    let labels = metric_labels(&resp).unwrap();
    assert_eq!(labels.status, "503");
    assert_eq!(labels.backend, "127.0.0.1:8000");
}

#[test]
fn timeout_becomes_504_with_metrics() {
    assert_eq!(effective_timeout_ms(Some(500)), 500);
    assert_eq!(effective_timeout_ms(None), 60);
    let resp = finish_forwarded(UpstreamOutcome::Timeout, "127.0.0.1:8000".to_string());
    assert_eq!(resp.status, 504);
    assert_eq!(resp.body, "Request timeout");
    let labels = metric_labels(&resp).unwrap();
    assert_eq!(labels.status, "504");
}

#[test]
fn other_failure_becomes_500() {
    let resp = finish_forwarded(UpstreamOutcome::OtherFailure, "127.0.0.1:8000".to_string());
    assert_eq!(resp.status, 500);
    assert_eq!(resp.body, "Unhandled error, see logs");
    assert_eq!(metric_labels(&resp).unwrap().status, "500");
}

#[test]
fn load_balanced_requests_alternate_backends() {
    let config = vec![loadbalanced("test-lb.home", &["127.0.0.1:8000", "127.0.0.1:8001"])];
    let mut state = ProxyState::new(&config);
    let mut locations = Vec::new();
    for _ in 0..2 {
        let req = request(
            Version::Http11,
            Method::Get,
            "/test",
            None,
            vec![header("host", "test-lb.home")],
        );
        match proxy_handler(&config, &mut state, &req) {
            Plan::Forward { backend_location, .. } => locations.push(backend_location),
            Plan::Respond(_) => panic!("expected a forwarded request"),
        }
    }
    assert_eq!(locations, vec!["127.0.0.1:8000", "127.0.0.1:8001"]);
}

#[test]
fn unsupported_version_is_rejected() {
    let config = vec![single("test.home", "127.0.0.1:8000")];
    let mut state = ProxyState::new(&config);
    let req = request(
        Version::Http3,
        Method::Get,
        "/test",
        None,
        vec![header("host", "test.home")],
    );
    match proxy_handler(&config, &mut state, &req) {
        Plan::Respond(resp) => {
            assert_eq!(resp.status, 400);
            assert!(resp.body.starts_with("Unsupported HTTP version:"));
            assert_eq!(resp.body, "Unsupported HTTP version: HTTP/3.0");
            assert!(metric_labels(&resp).is_none());
        }
        Plan::Forward { .. } => panic!("expected a final response"),
    }
}

#[test]
fn unmatched_host_is_404_with_empty_body() {
    let config = vec![single("test.home", "127.0.0.1:8000")];
    let mut state = ProxyState::new(&config);
    let req = request(
        Version::Http11,
        Method::Get,
        "/test",
        None,
        vec![header("host", "other.home")],
    );
    match proxy_handler(&config, &mut state, &req) {
        Plan::Respond(resp) => {
            assert_eq!(resp.status, 404);
            assert_eq!(resp.body, "");
            assert!(metric_labels(&resp).is_none());
        }
        Plan::Forward { .. } => panic!("expected a final response"),
    }
}

#[test]
fn downstream_response_passes_through_annotated() {
    let outcome = UpstreamOutcome::Success(downstream(418, "teapot"));
    let resp = finish_forwarded(outcome, "127.0.0.1:8000".to_string());
    assert_eq!(resp.status, 418);
    assert_eq!(resp.body, "teapot");
    assert_eq!(resp.context.unwrap().backend_location, "127.0.0.1:8000");
}

#[test]
fn status_response_shape() {
    let resp = status_response();
    assert_eq!(resp.status, 200);
    assert_eq!(resp.body, "The proxy is running");
    assert!(resp.context.is_none());
}

#[test]
fn metrics_response_wraps_encoder_outcomes() {
    let ok = metrics_response(Ok("# HELP x\n".to_string()));
    assert_eq!(ok.status, 200);
    assert_eq!(ok.body, "# HELP x\n");
    assert_eq!(
        header_value(&ok.headers, "content-type").unwrap(),
        "text/plain; charset=utf-8"
    );
    assert!(ok.context.is_none());

    let err = metrics_response(Err("boom".to_string()));
    assert_eq!(err.status, 500);
    assert_eq!(err.body, "Error encoding metrics: boom");
    assert!(err.context.is_none());
}

#[test]
fn no_proxy_flag_still_forwards_non_internal_requests() {
    let config = vec![single("test.home", "127.0.0.1:8000")];
    let mut state = ProxyState::new(&config);
    let req = request(
        Version::Http11,
        Method::Get,
        "/test",
        None,
        vec![header("host", "test.home"), header("x-no-proxy", "true")],
    );
    match proxy_handler(&config, &mut state, &req) {
        Plan::Forward { request: fwd, backend_location } => {
            assert_eq!(backend_location, "127.0.0.1:8000");
            assert_eq!(header_value(&fwd.headers, "x-no-proxy").unwrap(), "true");
        }
        Plan::Respond(_) => panic!("expected the request to be proxied"),
    }
}
