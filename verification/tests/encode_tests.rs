use brachyura::encode_metrics;
use brachyura::handler::metrics_endpoint_response;

#[test]
fn test_encode_metrics() {
    let counter = prometheus::IntCounterVec::new(
        prometheus::Opts::new("http_request_total", "Number of http requests received"),
        &["status", "backend"],
    )
    .unwrap();
    prometheus::default_registry()
        .register(Box::new(counter.clone()))
        .unwrap();
    counter.with_label_values(&["200", "test"]).inc_by(1);
    assert!(encode_metrics().unwrap().contains(
        "# HELP http_request_total Number of http requests received\n\
                # TYPE http_request_total counter\nhttp_request_total"
    ));
}

#[test]
fn metrics_endpoint_serves_encoded_text() {
    let resp = metrics_endpoint_response();
    assert_eq!(resp.status, 200);
    assert!(resp.context.is_none());
    assert!(resp
        .headers
        .iter()
        .any(|h| h.name == "content-type" && h.value == "text/plain; charset=utf-8"));
}
