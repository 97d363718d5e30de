//! Turning stored rows into the values a task or a worker listing carries.
use vstd::prelude::*;

use crate::errors::SurrealError;

verus! {

/// The key of a stored record id.
#[verifier::external_type_specification]
#[verifier::external_body]
pub struct ExRecordIdKey(surrealdb::types::RecordIdKey);

/// The kind of key a record id has; a string key with its text.
#[derive(Debug)]
pub enum RecordKey {
    Number(i64),
    Text(String),
    Uuid,
    Array,
    Object,
    Range,
}

/// The model of a record key: its kind, with the number or the text it holds.
pub enum RecordKeyView {
    Number(i64),
    Text(Seq<char>),
    Uuid,
    Array,
    Object,
    Range,
}

impl View for RecordKey {
    type V = RecordKeyView;

    open spec fn view(&self) -> RecordKeyView {
        match self {
            RecordKey::Number(n) => RecordKeyView::Number(*n),
            RecordKey::Text(s) => RecordKeyView::Text(s@),
            RecordKey::Uuid => RecordKeyView::Uuid,
            RecordKey::Array => RecordKeyView::Array,
            RecordKey::Object => RecordKeyView::Object,
            RecordKey::Range => RecordKeyView::Range,
        }
    }
}

/// What surrealdb's `RecordIdKey` is, told apart by variant: the number of a
/// number key, the text of a string key, the kind of any other.
pub uninterp spec fn key_kind(key: surrealdb::types::RecordIdKey) -> RecordKeyView;

/// `RecordIdKey` of surrealdb, its variants told apart one arm each; the
/// number or the text of a key is carried over, the other keys only by kind.
/// The claim is that the result is the one named by `key_kind`: the match
/// moves fields only.
#[verifier::external_body]
fn record_key(key: surrealdb::types::RecordIdKey) -> (r: RecordKey)
    ensures
        r@ == key_kind(key),
{
    match key {
        surrealdb::types::RecordIdKey::Number(n) => RecordKey::Number(n),
        surrealdb::types::RecordIdKey::String(s) => RecordKey::Text(s),
        surrealdb::types::RecordIdKey::Uuid(_) => RecordKey::Uuid,
        surrealdb::types::RecordIdKey::Array(_) => RecordKey::Array,
        surrealdb::types::RecordIdKey::Object(_) => RecordKey::Object,
        surrealdb::types::RecordIdKey::Range(_) => RecordKey::Range,
    }
}

/// `r` is the task id that a key of this kind holds: its text for a string
/// key, `MissingTaskId` for any other.
pub open spec fn task_id_in(key: RecordKeyView, r: Result<String, SurrealError>) -> bool {
    match key {
        RecordKeyView::Text(t) => r matches Ok(s) && s@ == t,
        _ => r == Err::<String, SurrealError>(SurrealError::MissingTaskId),
    }
}

/// The task id that a record key holds: only a string key is one.
pub fn task_id_from_key(key: RecordKey) -> (r: Result<String, SurrealError>)
    ensures
        r == task_id_from_key_spec(key),
        task_id_in(key@, r),
{
    match key {
        RecordKey::Text(s) => Ok(s),
        _ => Err(SurrealError::MissingTaskId),
    }
}

/// The task id of a stored job's record key: its text for a string key,
/// `MissingTaskId` for any other.
pub fn task_id_of(key: surrealdb::types::RecordIdKey) -> (r: Result<String, SurrealError>)
    ensures
        task_id_in(key_kind(key), r),
{
    let k = record_key(key);
    task_id_from_key(k)
}

/// The task id that a record key holds, as a spec.
pub open spec fn task_id_from_key_spec(key: RecordKey) -> Result<String, SurrealError> {
    match key {
        RecordKey::Text(s) => Ok(s),
        _ => Err(SurrealError::MissingTaskId),
    }
}

/// The counters of a stored job, as the task row carries them: each stored
/// integer reinterpreted as an unsigned count, as a cast does; the
/// priority always present.
pub fn row_counters(attempts: i64, max_attempts: Option<i64>, priority: i64) -> (r: (usize, Option<usize>, Option<usize>))
    ensures
        r.0 == attempts as usize,
        r.1 == match max_attempts {
            Some(m) => Some(m as usize),
            None => None::<usize>,
        },
        r.2 == Some(priority as usize),
{
    let m = match max_attempts {
        Some(v) => Some(#[verifier::truncate] (v as usize)),
        None => None,
    };
    (#[verifier::truncate] (attempts as usize), m, Some(#[verifier::truncate] (priority as usize)))
}

/// A registered worker as stored, its times as Unix seconds.
pub struct WorkerRecord {
    pub name: String,
    pub queue: String,
    pub storage_name: String,
    pub layers: Option<String>,
    pub started_at: i64,
    pub last_seen: i64,
}

/// A running worker as the board lists it.
pub struct RunningWorkerInfo {
    pub id: String,
    pub queue: String,
    pub backend: String,
    pub started_at: u64,
    pub last_heartbeat: u64,
    pub layers: String,
}

/// The listing of a stored worker: its name is its id, its storage its
/// backend, its times reinterpreted as unsigned, its layers empty if unknown.
pub fn running_worker(row: WorkerRecord) -> (r: RunningWorkerInfo)
    ensures
        r.id == row.name,
        r.queue == row.queue,
        r.backend == row.storage_name,
        r.started_at == row.started_at as u64,
        r.last_heartbeat == row.last_seen as u64,
        match row.layers {
            Some(l) => r.layers == l,
            None => r.layers@ == Seq::<char>::empty(),
        },
{
    let layers = match row.layers {
        Some(l) => l,
        None => String::new(),
    };
    RunningWorkerInfo {
        id: row.name,
        queue: row.queue,
        backend: row.storage_name,
        started_at: #[verifier::truncate] (row.started_at as u64),
        last_heartbeat: #[verifier::truncate] (row.last_seen as u64),
        layers,
    }
}

} // verus!
