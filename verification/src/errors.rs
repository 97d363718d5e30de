//! The error type of the storage.
use vstd::prelude::*;
use vstd::string::*;

use crate::tx::{error_message, error_text};

verus! {

/// The error that a SurrealDB client reports.
#[verifier::external_type_specification]
#[verifier::external_body]
pub struct ExDatabaseError(surrealdb::Error);

/// The error that turning a database row into a task reports.
#[verifier::external_type_specification]
#[verifier::external_body]
pub struct ExFromRowError(apalis_sql::from_row::FromRowError);

/// The `Display` text of apalis-sql's `FromRowError`.
pub uninterp spec fn row_error_text(err: apalis_sql::from_row::FromRowError) -> Seq<char>;

/// `Display` of apalis-sql's `FromRowError`, through `to_string`: its derived
/// format writes "Column not found: " and the column's name, or "Decode
/// error: " and the text of the boxed cause. The claim is that the text is the
/// one named by `row_error_text`.
#[verifier::external_body]
fn row_error_message(err: &apalis_sql::from_row::FromRowError) -> (r: String)
    ensures
        r@ == row_error_text(*err),
{
    err.to_string()
}

/// Everything that can go wrong in the storage.
#[derive(Debug)]
#[non_exhaustive]
pub enum SurrealError {
    /// The database refused a statement or could not be reached.
    Database(surrealdb::Error),
    /// A task payload or a stored value could not be decoded.
    Decode(String),
    /// A stored row could not be turned into a task.
    Row(apalis_sql::from_row::FromRowError),
    /// No task with this id (held by this worker) exists.
    TaskNotFound(String),
    /// A worker with this name is registered already.
    WorkerAlreadyExists(String),
    /// No worker with this name is registered.
    WorkerNotFound(String),
    /// The task carries no record id.
    MissingTaskId,
    /// The task carries no worker that locked it.
    MissingWorkerContext,
}

/// `text` followed by `detail`.
fn joined(text: &str, detail: &str) -> (r: String)
    ensures
        r@ == text@ + detail@,
{
    let mut r = text.to_owned();
    r.append(detail);
    r
}

impl SurrealError {
    /// The message of the error: a database or row error speaks for itself
    /// (a database error's text is its message, a row error's its `Display`
    /// text); the others name what went
    /// wrong, with the id or name concerned.
    pub fn describe(&self) -> (r: String)
        ensures
            self matches SurrealError::Database(e) ==> r@ == error_text(*e),
            self matches SurrealError::Row(e) ==> r@ == row_error_text(*e),
            self matches SurrealError::Decode(m) ==> r@ == "Failed to decode task: "@ + m@,
            self matches SurrealError::TaskNotFound(m) ==> r@ == "Task not found: "@ + m@,
            self matches SurrealError::WorkerAlreadyExists(m) ==> r@ == "Worker already exists: "@ + m@,
            self matches SurrealError::WorkerNotFound(m) ==> r@ == "Worker not found: "@ + m@,
            self is MissingTaskId ==> r@ == "Task is missing a record id"@,
            self is MissingWorkerContext ==> r@ == "Task is missing its worker context"@,
    {
        match self {
            SurrealError::Database(e) => error_message(e),
            SurrealError::Decode(m) => joined("Failed to decode task: ", m.as_str()),
            SurrealError::Row(e) => row_error_message(e),
            SurrealError::TaskNotFound(m) => joined("Task not found: ", m.as_str()),
            SurrealError::WorkerAlreadyExists(m) => joined("Worker already exists: ", m.as_str()),
            SurrealError::WorkerNotFound(m) => joined("Worker not found: ", m.as_str()),
            SurrealError::MissingTaskId => "Task is missing a record id".to_owned(),
            SurrealError::MissingWorkerContext => "Task is missing its worker context".to_owned(),
        }
    }
}

} // verus!
