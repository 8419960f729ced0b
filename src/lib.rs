//! An in-memory store of tasks and users, with whole-store snapshots for
//! persistence and the request decisions of a small task service.
pub mod store;
pub mod snapshot;
pub mod service;
pub mod laws;
