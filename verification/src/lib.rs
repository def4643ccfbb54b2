//! A TLS-terminating reverse proxy core: host-based routing with round-robin
//! load balancing, the per-request proxying state machine, downstream failure
//! classification, and request-metric labelling.
//!
//! The modules here hold the request-processing pipeline itself; listening
//! sockets, TLS, and the HTTP transport live outside and hand these functions
//! plain values.

pub mod client;
pub mod handler;
pub mod headers;
pub mod host;
pub mod metrics;
pub mod model;
pub mod routing;
pub mod text;

pub use crate::model::Backend;
pub use crate::model::BackendState;
pub use crate::model::Header;
pub use crate::model::Method;
pub use crate::model::ProxyState;
pub use crate::model::Request;
pub use crate::model::Response;
pub use crate::model::ResponseContext;
pub use crate::model::StateEntry;
pub use crate::model::Version;

pub use crate::handler::bad_request_handler;
pub use crate::handler::proxy_handler;
pub use crate::handler::Plan;
pub use crate::headers::adjust_proxied_headers;
pub use crate::host::get_host;
pub use crate::metrics::encode_metrics;
pub use crate::routing::router;
