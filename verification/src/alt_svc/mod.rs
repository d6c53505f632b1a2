//! Alternative services: what origins advertise, and how it is remembered.

pub mod field;
pub mod field_laws;
pub mod https_records;
pub mod laws;
pub mod policy;
pub mod rdata;
pub mod record_laws;
pub mod snapshot;
pub mod store;
pub mod store_laws;
pub mod target;
