//! Request metrics: the label pair recorded for a completed proxy
//! transaction, and the text rendering of the process-wide metric registry.

use vstd::prelude::*;

use crate::model::Response;
use crate::text::{dec_str, dec_u16};

verus! {

/// The labels of one recorded request: the numeric status as a decimal
/// string, and the backend location exactly as the router returned it.
pub struct MetricLabels {
    pub status: String,
    pub backend: String,
}

/// The labels to record for a response: present with exactly one label pair
/// when the response carries a context, absent otherwise — so internal
/// endpoints never reach the request metrics.
pub fn metric_labels(response: &Response) -> (r: Option<MetricLabels>)
    ensures
        match r {
            Some(l) => response.context matches Some(c) && l.status@ == dec_str(
                response.status as int,
            ) && l.backend@ == c.backend_location@,
            None => response.context is None,
        },
{
    match &response.context {
        None => None,
        Some(c) => Some(
            MetricLabels {
                status: dec_u16(response.status),
                backend: c.backend_location.clone(),
            },
        ),
    }
}

/// Renders the process-wide metric registry in the Prometheus text
/// exposition format.
///
/// Relies on `prometheus::gather` and
/// `prometheus::TextEncoder::encode_to_string`: the gathered families are
/// whatever the process has registered and observed so far, so nothing is
/// promised of the rendered text.
#[verifier::external_body]
pub fn encode_metrics() -> (r: Result<String, String>) {
    let families = prometheus::gather();
    match prometheus::TextEncoder::new().encode_to_string(&families) {
        Ok(s) => Ok(s),
        Err(e) => Err(format!("{e}")),
    }
}

} // verus!
