//! Connection pools: who may connect, which connection carries a request, and
//! which connections stay.

pub mod admission;
pub mod bounds;
pub mod choice_laws;
pub mod connection_set;
pub mod entries;
pub mod fields;
pub mod http1_or_2_pool;
pub mod http1_pool;
pub mod http1_request;
pub mod http2_connections;
pub mod http2_failure;
pub mod http2_keys;
pub mod http2_pool;
pub mod http2_request;
pub mod http3_connections;
pub mod http3_pool;
pub mod http3_request;
pub mod key;
pub mod laws;
pub mod negotiated;
pub mod negotiated_request;
pub mod plan;
pub mod request_laws;
pub mod session_search;
pub mod spread;
pub mod stream_count;
