//! Upload task status.
//!
//! A task starts as `Processing` and moves exactly once to a terminal
//! status: `Completed`, or `Failed` with a non-empty reason.

use vstd::prelude::*;

verus! {

/// The status of one upload task.
pub enum TaskStatus {
    Processing,
    Completed,
    Failed(String),
}

/// The mathematical value of a `TaskStatus`.
pub enum StatusSpec {
    Processing,
    Completed,
    Failed(Seq<char>),
}

impl View for TaskStatus {
    type V = StatusSpec;

    open spec fn view(&self) -> StatusSpec {
        match self {
            TaskStatus::Processing => StatusSpec::Processing,
            TaskStatus::Completed => StatusSpec::Completed,
            TaskStatus::Failed(reason) => StatusSpec::Failed(reason@),
        }
    }
}

/// A terminal status is one from which no further transition occurs.
pub open spec fn is_terminal(s: StatusSpec) -> bool {
    s is Completed || s is Failed
}

/// The label a status carries in responses.
pub open spec fn status_label_chars(s: StatusSpec) -> Seq<char> {
    match s {
        StatusSpec::Processing => "processing"@,
        StatusSpec::Completed => "completed"@,
        StatusSpec::Failed(_) => "failed"@,
    }
}

impl TaskStatus {
    /// An owned copy with the same value.
    pub fn dup(&self) -> (r: TaskStatus)
        ensures
            r@ == self@,
    {
        match self {
            TaskStatus::Processing => TaskStatus::Processing,
            TaskStatus::Completed => TaskStatus::Completed,
            TaskStatus::Failed(reason) => TaskStatus::Failed(reason.clone()),
        }
    }

    /// The label of this status: `processing`, `completed` or `failed`.
    pub fn label(&self) -> (r: &'static str)
        ensures
            r@ == status_label_chars(self@),
    {
        match self {
            TaskStatus::Processing => "processing",
            TaskStatus::Completed => "completed",
            TaskStatus::Failed(_) => "failed",
        }
    }
}

/// The value of an optional reason string.
pub open spec fn opt_chars(e: Option<String>) -> Option<Seq<char>> {
    match e {
        None => None,
        Some(s) => Some(s@),
    }
}

/// The status a task reaches once its background write has finished:
/// `Completed` on success, else `Failed` with the reported reason, which
/// is never left empty.
pub open spec fn spec_terminal_status(e: Option<Seq<char>>) -> StatusSpec {
    match e {
        None => StatusSpec::Completed,
        Some(reason) => StatusSpec::Failed(
            if reason.len() > 0 {
                reason
            } else {
                "write failed"@
            },
        ),
    }
}

/// The terminal status of a task whose background write has finished:
/// `Completed` on success, else `Failed` with the reported reason, which is
/// never left empty.
pub fn terminal_status(write_error: Option<String>) -> (r: TaskStatus)
    ensures
        r@ == spec_terminal_status(opt_chars(write_error)),
        is_terminal(r@),
        r@ matches StatusSpec::Failed(reason) ==> reason.len() > 0,
{
    proof {
        reveal_strlit("write failed");
    }
    match write_error {
        None => TaskStatus::Completed,
        Some(reason) => {
            if reason.as_str().is_empty() {
                TaskStatus::Failed("write failed".to_owned())
            } else {
                TaskStatus::Failed(reason)
            }
        },
    }
}

} // verus!
