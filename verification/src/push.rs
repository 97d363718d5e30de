//! The fields under which a pushed task is stored.
use vstd::prelude::*;

use crate::ids::{push_task_id, ulid_encode};

verus! {

/// A point in time as SurrealDB stores it.
#[verifier::external_type_specification]
#[verifier::external_body]
pub struct ExDatetime(surrealdb::types::Datetime);

/// Whether chrono's `Utc.timestamp_opt`, behind surrealdb's
/// `Datetime::from_timestamp`, can hold this many seconds since the epoch.
pub uninterp spec fn timestamp_in_range(seconds: i64) -> bool;

/// The seconds since the epoch that chrono's `DateTime::timestamp` gives for
/// a datetime.
pub uninterp spec fn datetime_seconds(at: surrealdb::types::Datetime) -> i64;

/// `Datetime::from_timestamp` of surrealdb, with no nanoseconds: a datetime
/// when chrono can hold the instant, none otherwise. For UTC chrono's
/// `timestamp_opt` gives a single answer or none; the datetime it gives
/// counts back to the same seconds.
#[verifier::external_body]
fn datetime_from_timestamp(seconds: i64) -> (r: Option<surrealdb::types::Datetime>)
    ensures
        r is Some <==> timestamp_in_range(seconds),
        r matches Some(at) ==> datetime_seconds(at) == seconds,
{
    surrealdb::types::Datetime::from_timestamp(seconds, 0)
}

/// `Datetime::now` of surrealdb: the current time. Nothing is stated of it:
/// it depends on the clock.
#[verifier::external_body]
fn datetime_now() -> (r: surrealdb::types::Datetime) {
    surrealdb::types::Datetime::now()
}

/// The fields under which a pushed task is stored, besides its payload, its
/// metadata and its idempotency key.
pub struct PushFields {
    /// The task's id, as text.
    pub id: String,
    /// The queue it is pushed to.
    pub queue: String,
    /// How many attempts it gets.
    pub max_attempts: i64,
    /// When it may run: its own time, or now where that time cannot be held.
    pub run_at: surrealdb::types::Datetime,
    /// Its priority.
    pub priority: i64,
}

/// The stored fields of a task pushed to `queue`: its own id, or a fresh one;
/// the counters widened; its run-at time read as seconds since the epoch
/// (the unsigned count reinterpreted as signed, as a cast does), or now where
/// that instant cannot be held.
pub fn push_fields(queue: &str, task_id: Option<u128>, run_at: u64, max_attempts: i32, priority: i32) -> (r: PushFields)
    ensures
        r.queue@ == queue@,
        r.max_attempts == max_attempts as i64,
        r.priority == priority as i64,
        r.id@.len() == 26,
        task_id matches Some(v) ==> r.id@ == ulid_encode(v),
        exists|v: u128| r.id@ == ulid_encode(v),
        timestamp_in_range(run_at as i64) ==> datetime_seconds(r.run_at) == run_at as i64,
{
    let id = push_task_id(task_id);
    let seconds = run_at as i64;
    let at = match datetime_from_timestamp(seconds) {
        Some(at) => at,
        None => datetime_now(),
    };
    PushFields {
        id,
        queue: queue.to_owned(),
        max_attempts: max_attempts as i64,
        run_at: at,
        priority: priority as i64,
    }
}

} // verus!
