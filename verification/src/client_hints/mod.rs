//! Client hints: which a server asked for, and where requests carry them.

pub mod context;
pub mod fields;
pub mod laws;
pub mod slot_laws;
pub mod slots;
pub mod store;
pub mod types;
