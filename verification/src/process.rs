//! Supervising a sandboxed process: the per-stream output budget, what the
//! supervisor does at each look at the process, and the failures it reports.

use vstd::prelude::*;

use crate::outcome::{Failure, Outcome};
use crate::sandbox::{failed, OUTPUT_LIMIT};
use crate::text::{owned, push_text};

verus! {

/// Whether a stream holding `held` bytes may take `count` more within the
/// per-stream output budget.
pub fn room_for(held: usize, count: usize) -> (r: bool)
    ensures
        r == (held + count <= OUTPUT_LIMIT),
{
    held <= OUTPUT_LIMIT && count <= OUTPUT_LIMIT - held
}

/// A stream that outgrew its budget.
pub fn output_limit() -> (r: Failure)
    ensures
        failed(r, Outcome::Error, "proof-output-limit"@, "sandbox output exceeded the 128 KiB per-stream limit"@),
{
    Failure::error("proof-output-limit", owned("sandbox output exceeded the 128 KiB per-stream limit"))
}

/// A process whose output pipe was never opened.
pub fn missing_pipe(message: &str) -> (r: Failure)
    ensures
        failed(r, Outcome::Error, "process-io"@, message@),
{
    Failure::error("process-io", owned(message))
}

/// A sandbox that could not be launched, with the system's reason.
pub fn launch_failure(reason: &str) -> (r: Failure)
    ensures
        failed(r, Outcome::Unsupported, "sandbox-unavailable"@, "cannot launch sandbox: "@ + reason@),
{
    let mut message = owned("cannot launch sandbox: ");
    push_text(&mut message, reason);
    Failure::unsupported("sandbox-unavailable", message)
}

/// What the supervisor does after one look at a running process.
pub enum Watch {
    /// Stop the process and report this failure.
    Stop(Failure),
    /// The process has exited; collect its status.
    Finished,
    /// Look again shortly.
    Wait,
}

/// One look at a running process: a stream over budget stops it first, then
/// an expired deadline; otherwise an exited process is finished.
pub fn watch(exceeded: bool, expired: bool, exited: bool) -> (r: Watch)
    ensures
        exceeded ==> (r matches Watch::Stop(f) && failed(f, Outcome::Error, "proof-output-limit"@,
            "sandbox output exceeded the 128 KiB per-stream limit"@)),
        !exceeded && expired ==> (r matches Watch::Stop(f) && failed(f, Outcome::Timeout, "timeout"@,
            "sandbox exceeded the consumer's total wall-clock budget"@)),
        !exceeded && !expired && exited ==> r is Finished,
        !exceeded && !expired && !exited ==> r is Wait,
{
    if exceeded {
        Watch::Stop(output_limit())
    } else if expired {
        Watch::Stop(Failure::timeout("sandbox exceeded the consumer's total wall-clock budget"))
    } else if exited {
        Watch::Finished
    } else {
        Watch::Wait
    }
}

/// A failure to wait for the process, with the system's reason.
pub fn wait_failure(reason: String) -> (r: Failure)
    ensures
        r.outcome == Outcome::Error && r.code@ == "process-wait"@ && r.message == reason && r.details is Null,
{
    Failure::error("process-wait", reason)
}

/// A failure to read a stream, with the system's reason (or the reader's
/// own failure when it has none).
pub fn output_failure(reason: Option<String>) -> (r: Failure)
    ensures
        r.outcome == Outcome::Error && r.code@ == "process-output"@ && r.details is Null,
        reason matches Some(m) ==> r.message == m,
        reason is None ==> r.message@ == "output reader failed"@,
{
    match reason {
        Some(m) => Failure::error("process-output", m),
        None => Failure::error("process-output", owned("output reader failed")),
    }
}

} // verus!
