//! An in-memory snapshot store for network records, with a verified
//! query and aggregation layer.
//!
//! The crate owns a dataset of [`models::Network`] records that is read
//! concurrently and replaced wholesale by a periodic refresh. Filtering,
//! pagination, search and the aggregation views are pure functions over a
//! snapshot, each with a contract pinning down its result.

pub mod error;
pub mod models;
pub mod query;
pub mod refresh;
pub mod stats;
pub mod store;
pub mod text;
