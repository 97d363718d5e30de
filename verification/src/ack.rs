//! The checks around acknowledging, locking and heartbeating: what a missing
//! piece of context or an update that touched no row turns into.
use vstd::prelude::*;
use vstd::string::*;

use crate::errors::SurrealError;

verus! {

/// What acknowledging a task needs, in the order it is checked: the task's
/// id, the worker that locked it, and its serialized result.
pub open spec fn ack_checked<I, J>(
    task_id: Option<I>,
    worker: Option<String>,
    result: Result<J, String>,
) -> Result<(I, String, J), SurrealError> {
    match task_id {
        None => Err(SurrealError::MissingTaskId),
        Some(t) => match worker {
            None => Err(SurrealError::MissingWorkerContext),
            Some(w) => match result {
                Err(m) => Err(SurrealError::Decode(m)),
                Ok(j) => Ok((t, w, j)),
            },
        },
    }
}

/// Gather what acknowledging a task needs: a task without an id, without the
/// worker that locked it, or whose result could not be serialized (the
/// message given) cannot be acknowledged.
pub fn check_ack<I, J>(task_id: Option<I>, worker: Option<String>, result: Result<J, String>) -> (r: Result<(I, String, J), SurrealError>)
    ensures
        r == ack_checked(task_id, worker, result),
{
    match task_id {
        None => Err(SurrealError::MissingTaskId),
        Some(t) => match worker {
            None => Err(SurrealError::MissingWorkerContext),
            Some(w) => match result {
                Err(m) => Err(SurrealError::Decode(m)),
                Ok(j) => Ok((t, w, j)),
            },
        },
    }
}

/// The id of a task about to be locked; a task without one cannot be.
pub fn require_task_id<I>(task_id: Option<I>) -> (r: Result<I, SurrealError>)
    ensures
        match task_id {
            Some(t) => r == Ok::<I, SurrealError>(t),
            None => r == Err::<I, SurrealError>(SurrealError::MissingTaskId),
        },
{
    match task_id {
        Some(t) => Ok(t),
        None => Err(SurrealError::MissingTaskId),
    }
}

/// An update of a task guarded on its worker: when it touched no row, the
/// task (with this id) is not held by the worker, or does not exist.
pub fn require_updated(rows: usize, task_id: String) -> (r: Result<(), SurrealError>)
    ensures
        rows == 0 ==> r == Err::<(), SurrealError>(SurrealError::TaskNotFound(task_id)),
        rows > 0 ==> r is Ok,
{
    if rows == 0 {
        Err(SurrealError::TaskNotFound(task_id))
    } else {
        Ok(())
    }
}

/// The text naming a worker instance: `name (instance id)`.
pub open spec fn instance_text(name: Seq<char>, instance: Seq<char>) -> Seq<char> {
    name + " (instance "@ + instance + ")"@
}

/// A heartbeat that touched no row: the worker is not registered.
pub fn require_refreshed(rows: usize, worker_name: &str, instance: &str) -> (r: Result<(), SurrealError>)
    ensures
        rows == 0 ==> (r matches Err(SurrealError::WorkerNotFound(m)) && m@ == instance_text(worker_name@, instance@)),
        rows > 0 ==> r is Ok,
{
    if rows == 0 {
        let mut m = worker_name.to_owned();
        m.append(" (instance ");
        m.append(instance);
        m.append(")");
        Err(SurrealError::WorkerNotFound(m))
    } else {
        Ok(())
    }
}

/// The statement errors of a registration: the first one reported, if any.
pub fn first_error(errors: Vec<surrealdb::Error>) -> (r: Result<(), SurrealError>)
    ensures
        errors@.len() == 0 ==> r is Ok,
        errors@.len() > 0 ==> r == Err::<(), SurrealError>(SurrealError::Database(errors@[0])),
{
    let mut errors = errors;
    if errors.len() == 0 {
        Ok(())
    } else {
        Err(SurrealError::Database(errors.swap_remove(0)))
    }
}

} // verus!
