//! Verified core of a SurrealDB-backed task queue for apalis: the decisions
//! that the storage takes between its database round trips.
use vstd::prelude::*;

pub mod ack;
pub mod claim;
pub mod errors;
pub mod fetcher;
pub mod ids;
pub mod push;
pub mod queues;
pub mod row;
pub mod shared;
pub mod sink;
pub mod stats;
pub mod status;
pub mod text;
pub mod tx;
pub mod wait;

verus! {

/// Name of the table that holds the jobs.
pub const JOBS_TABLE: &'static str = "jobs";

/// Name of the table that holds the registered workers.
pub const WORKERS_TABLE: &'static str = "workers";

pub use crate::fetcher::SurrealFetcher;

} // verus!
