//! The lifecycle status of a task, and the status a finished attempt earns.
use vstd::prelude::*;
use std::str::FromStr;

verus! {

/// The state a task is in.
#[derive(Clone, Copy, Debug, PartialEq, Eq, Structural)]
pub enum TaskStatus {
    /// Waiting to be claimed.
    Pending,
    /// Claimed by a worker, not yet started.
    Queued,
    /// Being processed.
    Running,
    /// Finished successfully.
    Done,
    /// Failed; picked up again while attempts are left.
    Failed,
    /// Given up on.
    Killed,
}

/// The name under which a status is stored.
pub open spec fn status_name(s: TaskStatus) -> Seq<char> {
    match s {
        TaskStatus::Pending => "Pending"@,
        TaskStatus::Queued => "Queued"@,
        TaskStatus::Running => "Running"@,
        TaskStatus::Done => "Done"@,
        TaskStatus::Failed => "Failed"@,
        TaskStatus::Killed => "Killed"@,
    }
}

/// The status stored under a name, if the name is one.
pub open spec fn status_named(name: Seq<char>) -> Option<TaskStatus> {
    if name == "Pending"@ {
        Some(TaskStatus::Pending)
    } else if name == "Queued"@ {
        Some(TaskStatus::Queued)
    } else if name == "Running"@ {
        Some(TaskStatus::Running)
    } else if name == "Done"@ {
        Some(TaskStatus::Done)
    } else if name == "Failed"@ {
        Some(TaskStatus::Failed)
    } else if name == "Killed"@ {
        Some(TaskStatus::Killed)
    } else {
        None
    }
}

/// `Display` of apalis' `Status`, on the status with the same name: its
/// source writes the variant's name, so the text is the name.
#[verifier::external_body]
fn status_display(s: TaskStatus) -> (r: String)
    ensures
        r@ == status_name(s),
{
    let status = match s {
        TaskStatus::Pending => apalis_core::task::status::Status::Pending,
        TaskStatus::Queued => apalis_core::task::status::Status::Queued,
        TaskStatus::Running => apalis_core::task::status::Status::Running,
        TaskStatus::Done => apalis_core::task::status::Status::Done,
        TaskStatus::Failed => apalis_core::task::status::Status::Failed,
        TaskStatus::Killed => apalis_core::task::status::Status::Killed,
    };
    status.to_string()
}

/// The message of apalis' `StatusError` for a name that names no status.
pub open spec fn unknown_state_text(name: Seq<char>) -> Seq<char> {
    "Unknown state: "@ + name
}

/// `FromStr` of apalis' `Status`: its source accepts exactly the six
/// variant names and refuses every other text with `UnknownState`, whose
/// `Display` text is "Unknown state: " followed by the text.
#[verifier::external_body]
fn status_parse(name: &str) -> (r: Result<TaskStatus, String>)
    ensures
        match status_named(name@) {
            Some(st) => r == Ok::<TaskStatus, String>(st),
            None => r matches Err(m) && m@ == unknown_state_text(name@),
        },
{
    match apalis_core::task::status::Status::from_str(name) {
        Ok(apalis_core::task::status::Status::Pending) => Ok(TaskStatus::Pending),
        Ok(apalis_core::task::status::Status::Queued) => Ok(TaskStatus::Queued),
        Ok(apalis_core::task::status::Status::Running) => Ok(TaskStatus::Running),
        Ok(apalis_core::task::status::Status::Done) => Ok(TaskStatus::Done),
        Ok(apalis_core::task::status::Status::Failed) => Ok(TaskStatus::Failed),
        Ok(apalis_core::task::status::Status::Killed) => Ok(TaskStatus::Killed),
        Ok(other) => Err(other.to_string()),
        Err(e) => Err(e.to_string()),
    }
}

impl TaskStatus {
    /// The name under which the status is stored.
    pub fn name(self) -> (r: String)
        ensures
            r@ == status_name(self),
    {
        status_display(self)
    }

    /// The status stored under `name`, or the message that refuses a text
    /// that names none.
    pub fn parse(name: &str) -> (r: Result<TaskStatus, String>)
        ensures
            match status_named(name@) {
                Some(st) => r == Ok::<TaskStatus, String>(st),
                None => r matches Err(m) && m@ == unknown_state_text(name@),
            },
    {
        status_parse(name)
    }

    /// The status stored under `name`; `None` for a text that names none.
    pub fn from_name(name: &str) -> (r: Option<TaskStatus>)
        ensures
            r == status_named(name@),
    {
        match status_parse(name) {
            Ok(st) => Some(st),
            Err(_) => None,
        }
    }
}

/// The status that an attempt earns: `Done` when it succeeded; when it failed,
/// `Killed` if the attempts are used up (the maximum, read as an unsigned
/// count, is at most the attempt number) or the task asked to be aborted,
/// `Failed` otherwise, so that it runs again.
pub open spec fn earned_status(succeeded: bool, max_attempts: i32, attempt: usize, aborted: bool) -> TaskStatus {
    if succeeded {
        TaskStatus::Done
    } else if (max_attempts as usize) <= attempt {
        TaskStatus::Killed
    } else if aborted {
        TaskStatus::Killed
    } else {
        TaskStatus::Failed
    }
}

/// Decide the terminal status from the task outcome and remaining attempts.
pub fn calculate_status(succeeded: bool, max_attempts: i32, attempt: usize, aborted: bool) -> (r: TaskStatus)
    ensures
        r == earned_status(succeeded, max_attempts, attempt, aborted),
        r == TaskStatus::Done <==> succeeded,
        r == TaskStatus::Done || r == TaskStatus::Failed || r == TaskStatus::Killed,
{
    if succeeded {
        TaskStatus::Done
    } else if (max_attempts as usize) <= attempt {
        TaskStatus::Killed
    } else if aborted {
        TaskStatus::Killed
    } else {
        TaskStatus::Failed
    }
}

/// The status that a listing filters on: the one asked for, `Pending` by default.
pub fn filter_status_name(status: Option<TaskStatus>) -> (r: String)
    ensures
        r@ == status_name(
            match status {
                Some(s) => s,
                None => TaskStatus::Pending,
            },
        ),
{
    match status {
        Some(s) => s.name(),
        None => TaskStatus::Pending.name(),
    }
}

/// A failed attempt is never `Done`, and once the attempt number reaches the
/// maximum (a non-negative one) the task is killed rather than retried.
pub proof fn law_exhausted_attempts_kill(max_attempts: i32, attempt: usize, aborted: bool)
    requires
        0 <= max_attempts,
        max_attempts as int <= attempt as int,
    ensures
        earned_status(false, max_attempts, attempt, aborted) == TaskStatus::Killed,
{
}

/// A failed attempt with attempts left, that did not ask to abort, leaves the
/// task `Failed`, so that the next claim picks it up again.
pub proof fn law_failure_with_attempts_left_retries(max_attempts: i32, attempt: usize)
    requires
        0 <= max_attempts,
        attempt < max_attempts,
    ensures
        earned_status(false, max_attempts, attempt, false) == TaskStatus::Failed,
{
}

/// A failed attempt that asked to abort kills the task, whatever its
/// attempt number and maximum: it is never retried.
pub proof fn law_abort_kills(max_attempts: i32, attempt: usize)
    ensures
        earned_status(false, max_attempts, attempt, true) == TaskStatus::Killed,
{
}

/// A failed attempt that did not ask to abort kills the task exactly when
/// the maximum, read as an unsigned count (a negative one as a huge count),
/// is at most the attempt number; otherwise the task is `Failed` and runs
/// again.
pub proof fn law_failure_kills_only_when_exhausted(max_attempts: i32, attempt: usize)
    ensures
        (earned_status(false, max_attempts, attempt, false) == TaskStatus::Killed) == ((max_attempts as usize) <= attempt),
        (earned_status(false, max_attempts, attempt, false) == TaskStatus::Failed) == (attempt < (max_attempts as usize)),
{
}

/// A successful attempt is `Done`, whatever its attempt number, maximum or
/// abort request.
pub proof fn law_success_is_done(max_attempts: i32, attempt: usize, aborted: bool)
    ensures
        earned_status(true, max_attempts, attempt, aborted) == TaskStatus::Done,
{
}

/// Names and statuses convert both ways: the stored name of a status reads
/// back as that status.
pub proof fn law_status_name_round_trip(s: TaskStatus)
    ensures
        status_named(status_name(s)) == Some(s),
{
    reveal_strlit("Pending");
    reveal_strlit("Queued");
    reveal_strlit("Running");
    reveal_strlit("Done");
    reveal_strlit("Failed");
    reveal_strlit("Killed");
    assert("Pending"@[0] == 'P');
    assert("Queued"@[0] == 'Q');
    assert("Running"@[0] == 'R');
    assert("Done"@[0] == 'D');
    assert("Failed"@[0] == 'F');
    assert("Killed"@[0] == 'K');
}

} // verus!
