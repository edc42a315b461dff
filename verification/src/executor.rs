//! The download executor's decisions: skip-or-fetch for each task, and
//! what to do with the destination file after an attempt. The fetches,
//! directory creation and the fixed pacing delay between attempts are
//! plain I/O and live with the caller; the decisions are made here.

use vstd::prelude::*;

verus! {

/// What to do with one download task, given whether its destination path
/// already exists.
#[derive(Debug, Clone, Copy, PartialEq, Eq, Structural)]
pub enum ExecutorAction {
    /// The destination exists: a prior run fetched it; do nothing.
    Skip,
    /// Create the missing ancestor directories and fetch the resource.
    Fetch,
}

/// Decides one task of a batch: a task whose destination already exists is
/// skipped, every other task is fetched. Idempotent resume rests on this:
/// re-running over a completed tree fetches nothing.
pub fn decide_download(dest_exists: bool) -> (r: ExecutorAction)
    ensures
        r == (if dest_exists {
            ExecutorAction::Skip
        } else {
            ExecutorAction::Fetch
        }),
{
    if dest_exists {
        ExecutorAction::Skip
    } else {
        ExecutorAction::Fetch
    }
}

/// What to do with the destination file once a fetch attempt finished.
#[derive(Debug, Clone, Copy, PartialEq, Eq, Structural)]
pub enum FileDisposition {
    /// The body was copied in full: the file stays.
    KeepFinal,
    /// The transfer failed: the partial artifact is removed, the task is
    /// left unfulfilled, and the batch continues.
    RemovePartial,
}

/// Decides the fate of the destination file after a fetch attempt: a file
/// is finalized only after a fully successful copy; otherwise no partial
/// artifact may be left in place. A transport failure never aborts the
/// batch.
pub fn finalize_download(copied_ok: bool) -> (r: FileDisposition)
    ensures
        r == (if copied_ok {
            FileDisposition::KeepFinal
        } else {
            FileDisposition::RemovePartial
        }),
{
    if copied_ok {
        FileDisposition::KeepFinal
    } else {
        FileDisposition::RemovePartial
    }
}

} // verus!
