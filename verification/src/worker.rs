//! The engine worker's command protocol: the header of each request, and how
//! a reply is taken (an engine-level internal failure ends the session).

use vstd::prelude::*;

use crate::json::{append_decimal, decimal, keys, object, optional_string, string, text_is, value_at, Json};
use crate::session::{exit_code, terminal, ErrorContext, Failure, Report};
use crate::text::{owned, push_text, text_equal};

verus! {

/// A request to the engine worker.
#[derive(Clone, Copy, PartialEq, Eq, Structural, Debug)]
pub enum Request {
    /// Compile a module: the byte lengths of its WAT and source that follow.
    Compile { wat_bytes: u64, source_bytes: u64, submission: u64 },
    /// Execute the prepared module.
    Execute,
    /// Execute with host injections of this many bytes that follow.
    ExecuteInputs(u64),
    /// Push typed values of this many bytes that follow.
    Push(u64),
    /// Suspend the live operand slots in one frame.
    Park,
    /// Restore that frame.
    Restore,
    /// Observe one stack slot.
    Observe(u32),
    /// Project a certified handle to its subject.
    Project(u32),
    /// End the session.
    Shutdown,
}

/// The header line of a request.
pub open spec fn header_text(r: Request) -> Seq<char> {
    match r {
        Request::Compile { wat_bytes, source_bytes, submission } => "compile "@ + decimal(wat_bytes as nat) + " "@
            + decimal(source_bytes as nat) + " "@ + decimal(submission as nat) + "\n"@,
        Request::Execute => "execute\n"@,
        Request::ExecuteInputs(n) => "execute "@ + decimal(n as nat) + "\n"@,
        Request::Push(n) => "push "@ + decimal(n as nat) + "\n"@,
        Request::Park => "park\n"@,
        Request::Restore => "restore\n"@,
        Request::Observe(i) => "observe "@ + decimal(i as nat) + "\n"@,
        Request::Project(h) => "project "@ + decimal(h as nat) + "\n"@,
        Request::Shutdown => "shutdown\n"@,
    }
}

/// The header line of a request.
pub fn header(request: Request) -> (r: String)
    ensures
        r@ == header_text(request),
{
    match request {
        Request::Compile { wat_bytes, source_bytes, submission } => {
            let mut h = owned("compile ");
            append_decimal(wat_bytes, &mut h);
            push_text(&mut h, " ");
            append_decimal(source_bytes, &mut h);
            push_text(&mut h, " ");
            append_decimal(submission, &mut h);
            push_text(&mut h, "\n");
            h
        },
        Request::Execute => owned("execute\n"),
        Request::ExecuteInputs(n) => {
            let mut h = owned("execute ");
            append_decimal(n, &mut h);
            push_text(&mut h, "\n");
            h
        },
        Request::Push(n) => {
            let mut h = owned("push ");
            append_decimal(n, &mut h);
            push_text(&mut h, "\n");
            h
        },
        Request::Park => owned("park\n"),
        Request::Restore => owned("restore\n"),
        Request::Observe(i) => {
            let mut h = owned("observe ");
            append_decimal(i as u64, &mut h);
            push_text(&mut h, "\n");
            h
        },
        Request::Project(handle) => {
            let mut h = owned("project ");
            append_decimal(handle as u64, &mut h);
            push_text(&mut h, "\n");
            h
        },
        Request::Shutdown => owned("shutdown\n"),
    }
}

/// A failure of the engine worker with the given message.
pub open spec fn engine_failure(f: Failure, message: Seq<char>) -> bool {
    f.context.stage@ == "wasm"@ && f.context.outcome@ == "internal-failure"@ && f.message@ == message
}

/// Takes a reply: an `internal-failure` report becomes a failure carrying the
/// engine's own diagnostic. The flag says whether the session is over: after
/// any failure, or after a terminal report.
pub fn accept_reply(reply: Result<Report, Failure>) -> (r: (Result<Report, Failure>, bool))
    ensures
        match reply {
            Ok(report) => if report.outcome@ == "internal-failure"@ {
                r.0 matches Err(f) && engine_failure(f, report.json@) && r.1
            } else {
                r.0 matches Ok(same) && same.outcome@ == report.outcome@ && same.json@ == report.json@
                    && r.1 == terminal(report.outcome@)
            },
            Err(f) => r.0 matches Err(g) && g.context == f.context && g.message@ == f.message@ && r.1,
        },
{
    match reply {
        Ok(report) => {
            if text_equal(report.outcome.as_str(), "internal-failure") {
                let f = Failure::new(ErrorContext { stage: "wasm", outcome: "internal-failure" }, report.json);
                (Err(f), true)
            } else {
                let failed = report.is_terminal();
                (Ok(report), failed)
            }
        },
        Err(f) => (Err(f), true),
    }
}

/// The worker's first reply must report it ready; otherwise the engine is
/// unsupported here, with the reply as the diagnostic.
pub fn ready(first: Report) -> (r: Result<(), Failure>)
    ensures
        first.outcome@ == "ready"@ ==> r is Ok,
        first.outcome@ != "ready"@ ==> (r matches Err(f) && f.context.stage@ == "wasm"@
            && f.context.outcome@ == "unsupported"@ && f.message == first.json),
{
    if text_equal(first.outcome.as_str(), "ready") {
        Ok(())
    } else {
        Err(Failure::new(ErrorContext { stage: "wasm", outcome: "unsupported" }, first.json))
    }
}

/// The worker must acknowledge shutdown with `closed`.
pub fn closed(reply: Result<Report, Failure>) -> (r: Result<(), Failure>)
    ensures
        match reply {
            Ok(report) => if report.outcome@ == "closed"@ { r is Ok } else {
                r matches Err(f) && engine_failure(f, "invalid bounded engine-worker protocol"@)
            },
            Err(f) => r matches Err(g) && g.context == f.context && g.message@ == f.message@,
        },
{
    match reply {
        Ok(report) => if text_equal(report.outcome.as_str(), "closed") {
            Ok(())
        } else {
            Err(crate::framing::protocol_error())
        },
        Err(f) => Err(f),
    }
}

/// The worker's configuration: the engine selection and ABI documents,
/// whether to optimize, and where artifacts are retained.
pub fn configuration(selection: &str, abi: &str, optimized: bool, artifacts: Option<&str>) -> (r: String)
    ensures
        exists|j: Json| {
            &&& #[trigger] crate::json::encoded(j) == r@
            &&& keys(j) == seq!["selection"@, "abi"@, "optimized"@, "artifacts"@]
            &&& text_is(value_at(j, 0), selection@)
            &&& text_is(value_at(j, 1), abi@)
            &&& value_at(j, 2) == Json::Bool(optimized)
            &&& (match artifacts {
                Some(a) => text_is(value_at(j, 3), a@),
                None => value_at(j, 3) is Null,
            })
        },
{
    let j = object(vec![
        ("selection", string(selection)),
        ("abi", string(abi)),
        ("optimized", Json::Bool(optimized)),
        ("artifacts", optional_string(artifacts)),
    ]);
    assert(keys(j) =~= seq!["selection"@, "abi"@, "optimized"@, "artifacts"@]);
    j.encode()
}

} // verus!
