use brachyura::metrics::metric_labels;
use brachyura::{Response, ResponseContext};

fn annotated(status: u16, backend: &str) -> Response {
    Response {
        status,
        headers: Vec::new(),
        body: String::new(),
        context: Some(ResponseContext { backend_location: backend.to_string() }),
    }
}

#[test]
fn test_metrics_struct() {
    let counter = prometheus::IntCounterVec::new(
        prometheus::Opts::new("http_request_total", "Number of http requests received"),
        &["status", "backend"],
    )
    .unwrap();
    prometheus::default_registry()
        .register(Box::new(counter.clone()))
        .unwrap();
    counter.with_label_values(&["200", "test"]).inc_by(1);
    assert!(counter.with_label_values(&["200", "test"]).get() >= 1);
}

#[test]
fn metric_labels_for_annotated_response() {
    let labels = metric_labels(&annotated(200, "127.0.0.1:8000")).unwrap();
    assert_eq!(labels.status, "200");
    assert_eq!(labels.backend, "127.0.0.1:8000");

    let labels = metric_labels(&annotated(504, "10.0.0.2:80")).unwrap();
    assert_eq!(labels.status, "504");
    assert_eq!(labels.backend, "10.0.0.2:80");
}

#[test]
fn metric_labels_absent_without_context() {
    let plain = Response {
        status: 200,
        headers: Vec::new(),
        body: "The proxy is running".to_string(),
        context: None,
    };
    assert!(metric_labels(&plain).is_none());
}
