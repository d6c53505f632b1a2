//! Session logic of an HTTP client that behaves as browsers do.

pub mod alt_svc;
pub mod ascii;
pub mod client_hints;
pub mod cookies;
pub mod endpoint;
pub mod endpoint_laws;
pub mod error;
pub mod host;
pub mod lru;
pub mod policy;
pub mod pool;
pub mod session;
pub mod sse;
pub mod text;
pub mod text_laws;
pub mod time;
pub mod timeout;
pub mod websocket;
pub mod websocket_laws;
