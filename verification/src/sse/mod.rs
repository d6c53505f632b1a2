//! Server-sent events: decoding, and reconnecting to a source.

pub mod decoder;
pub mod event_laws;
pub mod event_source;
pub mod laws;
pub mod request;
pub mod response;
pub mod source_laws;
pub mod stream;
pub mod types;
