//! A bounded in-memory cookie jar and its persistence.

pub mod jar;
pub mod jar_laws;
pub mod laws;
pub mod model;
pub mod outside;
pub mod rule_laws;
pub mod rules;
pub mod snapshot;
pub mod snapshot_laws;
pub mod state;
pub mod types;
