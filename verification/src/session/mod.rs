//! A client: its options, and the state that its requests share.

pub mod builder;
pub mod client;
pub mod laws;
pub mod options;
