//! Reports of the `run`, `compile` and `session` commands: one JSON line per
//! submission, and the exit status each outcome selects.

use vstd::prelude::*;

use crate::json::{decimal, encoded, encoded_entries, encoded_entry, keys, null_text, object, quoted, string, text_is, value_at, Json};
use crate::text::{owned, text_equal};

verus! {

/// The stage and outcome of a session diagnostic.
#[derive(Clone, Copy)]
pub struct ErrorContext {
    pub stage: &'static str,
    pub outcome: &'static str,
}

/// A failure that ends the command with a diagnostic report.
pub struct Failure {
    pub context: ErrorContext,
    pub message: String,
}

/// The frontend's closed diagnostic kinds.
#[derive(Clone, Copy, PartialEq, Eq, Structural, Debug)]
pub enum DiagnosticKind {
    Invalid,
    Unsupported,
    Exhausted,
    Internal,
}

/// The frontend stage that refused a submission.
#[derive(Clone, Copy, PartialEq, Eq, Structural, Debug)]
pub enum Stage {
    Parse,
    Resolve,
    Check,
    Acceptance,
}

/// The independent compiler's closed diagnostic set.
#[derive(Clone, Copy, PartialEq, Eq, Structural, Debug)]
pub enum BackendDiagnostic {
    Invalid,
    Exhausted,
    Unsupported,
    Defective,
}

/// A byte range of the submitted source.
#[derive(Clone, Copy, PartialEq, Eq, Structural, Debug)]
pub struct Span {
    pub start: u32,
    pub end: u32,
}

/// A frontend refusal: where it happened, its kind, its message and span.
pub struct SourceError {
    pub stage: Stage,
    pub kind: DiagnosticKind,
    pub message: String,
    pub span: Span,
}

pub open spec fn kind_text(kind: DiagnosticKind) -> Seq<char> {
    match kind {
        DiagnosticKind::Invalid => "reject"@,
        DiagnosticKind::Unsupported => "unsupported"@,
        DiagnosticKind::Exhausted => "exhausted"@,
        DiagnosticKind::Internal => "internal-failure"@,
    }
}

pub open spec fn stage_text(stage: Stage) -> Seq<char> {
    match stage {
        Stage::Parse => "parse"@,
        Stage::Resolve => "resolve"@,
        Stage::Check => "check"@,
        Stage::Acceptance => "acceptance"@,
    }
}

/// The outcome a frontend refusal reports: invalid input is named by the
/// stage that refused it; other kinds keep their own name.
pub open spec fn source_outcome_text(stage: Stage, kind: DiagnosticKind) -> Seq<char> {
    if kind == DiagnosticKind::Invalid {
        match stage {
            Stage::Resolve => "unbound-word"@,
            Stage::Check => "type-reject"@,
            _ => "reject"@,
        }
    } else {
        kind_text(kind)
    }
}

pub open spec fn backend_outcome_text(d: BackendDiagnostic) -> Seq<char> {
    match d {
        BackendDiagnostic::Invalid => "reject"@,
        BackendDiagnostic::Unsupported => "unsupported"@,
        BackendDiagnostic::Exhausted => "exhausted"@,
        BackendDiagnostic::Defective => "internal-failure"@,
    }
}

/// The exit status of a report outcome.
pub open spec fn exit_code(outcome: Seq<char>) -> u8 {
    if outcome == "normal"@ || outcome == "defined"@ || outcome == "ready"@ {
        0
    } else if outcome == "unsupported"@ {
        4
    } else if outcome == "exhausted"@ || outcome == "runtime-exhausted"@ {
        5
    } else if outcome == "trap"@ {
        1
    } else {
        2
    }
}

/// Outcomes that end a session.
pub open spec fn terminal(outcome: Seq<char>) -> bool {
    outcome == "trap"@ || outcome == "runtime-exhausted"@ || outcome == "internal-failure"@
}

fn diagnostic_kind(kind: DiagnosticKind) -> (r: &'static str)
    ensures
        r@ == kind_text(kind),
{
    match kind {
        DiagnosticKind::Invalid => "reject",
        DiagnosticKind::Unsupported => "unsupported",
        DiagnosticKind::Exhausted => "exhausted",
        DiagnosticKind::Internal => "internal-failure",
    }
}

fn source_stage(stage: Stage) -> (r: &'static str)
    ensures
        r@ == stage_text(stage),
{
    match stage {
        Stage::Parse => "parse",
        Stage::Resolve => "resolve",
        Stage::Check => "check",
        Stage::Acceptance => "acceptance",
    }
}

fn source_outcome(stage: Stage, kind: DiagnosticKind) -> (r: &'static str)
    ensures
        r@ == source_outcome_text(stage, kind),
{
    if kind == DiagnosticKind::Invalid {
        return match stage {
            Stage::Resolve => "unbound-word",
            Stage::Check => "type-reject",
            Stage::Parse | Stage::Acceptance => "reject",
        };
    }
    diagnostic_kind(kind)
}

/// The exit status a report outcome selects.
pub fn exit(outcome: &str) -> (r: u8)
    ensures
        r == exit_code(outcome@),
{
    if text_equal(outcome, "normal") || text_equal(outcome, "defined") || text_equal(outcome, "ready") {
        0
    } else if text_equal(outcome, "unsupported") {
        4
    } else if text_equal(outcome, "exhausted") || text_equal(outcome, "runtime-exhausted") {
        5
    } else if text_equal(outcome, "trap") {
        1
    } else {
        2
    }
}

impl Failure {
    pub fn new(context: ErrorContext, message: String) -> (r: Failure)
        ensures
            r.context == context,
            r.message == message,
    {
        Failure { context, message }
    }

    /// A frontend refusal as a failure of the stage that refused.
    pub fn source(error: &SourceError) -> (r: Failure)
        ensures
            r.context.stage@ == stage_text(error.stage),
            r.context.outcome@ == source_outcome_text(error.stage, error.kind),
            r.message@ == error.message@,
    {
        Failure::new(
            ErrorContext { stage: source_stage(error.stage), outcome: source_outcome(error.stage, error.kind) },
            error.message.clone(),
        )
    }

    /// An independent-compilation refusal.
    pub fn backend(error: BackendDiagnostic) -> (r: Failure)
        ensures
            r.context.stage@ == "acceptance"@,
            r.context.outcome@ == backend_outcome_text(error),
            r.message@ == "independent source compilation refused"@,
    {
        let outcome = match error {
            BackendDiagnostic::Invalid => "reject",
            BackendDiagnostic::Unsupported => "unsupported",
            BackendDiagnostic::Exhausted => "exhausted",
            BackendDiagnostic::Defective => "internal-failure",
        };
        Failure::new(ErrorContext { stage: "acceptance", outcome }, owned("independent source compilation refused"))
    }

    pub fn exit(&self) -> (r: u8)
        ensures
            r == exit_code(self.context.outcome@),
    {
        exit(self.context.outcome)
    }
}

/// One submission's report: its outcome and its JSON line.
pub struct Report {
    pub outcome: String,
    pub json: String,
}

/// The JSON object of a report made before any execution.
pub open spec fn static_object(j: Json, stage: Seq<char>, outcome: Seq<char>, message: Seq<char>, submission: u64, span: Option<Span>) -> bool {
    &&& keys(j) == seq![
        "schema"@, "profile"@, "backend"@, "submission"@, "stage"@, "outcome"@, "diagnostic"@,
        "source_span"@, "guest_requests"@, "protected_operations"@, "candidate_prepare_requests"@,
        "prior_stack"@, "prior_namespace"@, "prior_session"@,
    ]
    &&& text_is(value_at(j, 0), "noble-core-report/v1"@)
    &&& text_is(value_at(j, 1), "Core-Bootstrap"@)
    &&& text_is(value_at(j, 2), "managed-linear-memory"@)
    &&& value_at(j, 3) == Json::Number(submission)
    &&& text_is(value_at(j, 4), stage)
    &&& text_is(value_at(j, 5), outcome)
    &&& text_is(value_at(j, 6), message)
    &&& encoded(value_at(j, 7)) == span_text(span)
    &&& value_at(j, 8) == Json::Number(0)
    &&& value_at(j, 9) == Json::Number(0)
    &&& value_at(j, 10) == Json::Number(0)
    &&& text_is(value_at(j, 11), "unchanged"@)
    &&& text_is(value_at(j, 12), if outcome == "defined"@ { "extended"@ } else { "unchanged"@ })
    &&& text_is(value_at(j, 13), if outcome == "defined"@ { "definition-installed"@ } else { "unchanged"@ })
}

/// The JSON text of an optional source span.
pub open spec fn span_text(span: Option<Span>) -> Seq<char> {
    match span {
        Some(s) => seq!['{'] + quoted("start"@) + seq![':'] + decimal(s.start as nat) + seq![','] + quoted("end"@)
            + seq![':'] + decimal(s.end as nat) + seq!['}'],
        None => null_text(),
    }
}

fn source_span(span: Option<Span>) -> (r: Json)
    ensures
        encoded(r) == span_text(span),
{
    match span {
        Some(span) => {
            let entries = vec![("start", Json::Number(span.start as u64)), ("end", Json::Number(span.end as u64))];
            proof {
                assert(entries@.drop_last() =~= seq![entries@[0]]);
                assert(encoded_entries(entries@) == encoded_entries(entries@.drop_last()) + seq![','] + encoded_entry(entries@[1]));
                assert(encoded_entry(entries@[0]) == quoted("start"@) + seq![':'] + decimal(span.start as nat));
                assert(encoded_entry(entries@[1]) == quoted("end"@) + seq![':'] + decimal(span.end as nat));
            }
            let r = object(entries);
            assert(encoded(r) =~= span_text(Some(span)));
            r
        },
        None => Json::Null,
    }
}

impl Report {
    fn static_report(context: ErrorContext, message: &str, submission: u64, span: Option<Span>) -> (r: Report)
        ensures
            r.outcome@ == context.outcome@,
            exists|j: Json| static_object(j, context.stage@, context.outcome@, message@, submission, span) && r.json@ == encoded(j),
    {
        let defined = text_equal(context.outcome, "defined");
        let j = object(vec![
            ("schema", string("noble-core-report/v1")),
            ("profile", string("Core-Bootstrap")),
            ("backend", string("managed-linear-memory")),
            ("submission", Json::Number(submission)),
            ("stage", string(context.stage)),
            ("outcome", string(context.outcome)),
            ("diagnostic", string(message)),
            ("source_span", source_span(span)),
            ("guest_requests", Json::Number(0)),
            ("protected_operations", Json::Number(0)),
            ("candidate_prepare_requests", Json::Number(0)),
            ("prior_stack", string("unchanged")),
            ("prior_namespace", string(if defined { "extended" } else { "unchanged" })),
            ("prior_session", string(if defined { "definition-installed" } else { "unchanged" })),
        ]);
        assert(keys(j) =~= seq![
            "schema"@, "profile"@, "backend"@, "submission"@, "stage"@, "outcome"@, "diagnostic"@,
            "source_span"@, "guest_requests"@, "protected_operations"@, "candidate_prepare_requests"@,
            "prior_stack"@, "prior_namespace"@, "prior_session"@,
        ]);
        assert(text_is(value_at(j, 4), context.stage@));
        assert(encoded(value_at(j, 7)) == span_text(span));
        assert(text_is(value_at(j, 12), if context.outcome@ == "defined"@ { "extended"@ } else { "unchanged"@ }));
        assert(static_object(j, context.stage@, context.outcome@, message@, submission, span));
        Report { outcome: owned(context.outcome), json: j.encode() }
    }

    /// The report of a failure that ends the command.
    pub fn failure(failure: &Failure) -> (r: Report)
        ensures
            r.outcome@ == failure.context.outcome@,
            exists|j: Json| static_object(j, failure.context.stage@, failure.context.outcome@, failure.message@, 0, None) && r.json@ == encoded(j),
    {
        Report::static_report(failure.context, failure.message.as_str(), 0, None)
    }

    /// The report of a frontend refusal; the session continues.
    pub fn source_error(error: &SourceError, submission: u64) -> (r: Report)
        ensures
            r.outcome@ == source_outcome_text(error.stage, error.kind),
            exists|j: Json| static_object(j, stage_text(error.stage), source_outcome_text(error.stage, error.kind), error.message@, submission, Some(error.span))
                && r.json@ == encoded(j),
    {
        Report::static_report(
            ErrorContext { stage: source_stage(error.stage), outcome: source_outcome(error.stage, error.kind) },
            error.message.as_str(),
            submission,
            Some(error.span),
        )
    }

    /// The report of an independent-compilation refusal.
    pub fn backend_error(error: BackendDiagnostic, submission: u64) -> (r: Report)
        ensures
            r.outcome@ == backend_outcome_text(error),
            exists|j: Json| static_object(j, "acceptance"@, backend_outcome_text(error), "independent source compilation refused"@, submission, None)
                && r.json@ == encoded(j),
    {
        let failure = Failure::backend(error);
        Report::static_report(failure.context, failure.message.as_str(), submission, None)
    }

    /// The report of an installed definition; its body is not executed.
    pub fn defined(submission: u64) -> (r: Report)
        ensures
            r.outcome@ == "defined"@,
            exists|j: Json| static_object(j, "check"@, "defined"@, "definition installed; body not executed"@, submission, None)
                && r.json@ == encoded(j),
    {
        Report::static_report(
            ErrorContext { stage: "check", outcome: "defined" },
            "definition installed; body not executed",
            submission,
            None,
        )
    }

    pub fn exit(&self) -> (r: u8)
        ensures
            r == exit_code(self.outcome@),
    {
        exit(self.outcome.as_str())
    }

    pub fn is_terminal(&self) -> (r: bool)
        ensures
            r == terminal(self.outcome@),
    {
        let o = self.outcome.as_str();
        text_equal(o, "trap") || text_equal(o, "runtime-exhausted") || text_equal(o, "internal-failure")
    }
}

/// The exit status of a session after one more report, and whether that
/// report ends the session: the worst status so far wins.
pub fn session_step(exit: u8, report: &Report) -> (r: (u8, bool))
    ensures
        r.0 == (if exit_code(report.outcome@) > exit { exit_code(report.outcome@) } else { exit }),
        r.1 == terminal(report.outcome@),
{
    let this = report.exit();
    (if this > exit { this } else { exit }, report.is_terminal())
}

/// The number of the next submission; the counter never wraps.
pub fn next_submission(count: u64) -> (r: Result<u64, Failure>)
    ensures
        count < u64::MAX ==> r == Ok::<u64, Failure>((count + 1) as u64),
        count == u64::MAX ==> (r matches Err(f) && f.context.stage@ == "session"@
            && f.context.outcome@ == "exhausted"@ && f.message@ == "submission counter exhausted"@),
{
    if count == u64::MAX {
        return Err(Failure::new(ErrorContext { stage: "session", outcome: "exhausted" }, owned("submission counter exhausted")));
    }
    Ok(count + 1)
}

/// A prepared submission commits only once the engine has reported it
/// `ready`: every earlier refusal leaves the frontend and compiler as they
/// were.
pub fn commits(prepared: &Report) -> (r: bool)
    ensures
        r == (prepared.outcome@ == "ready"@),
{
    text_equal(prepared.outcome.as_str(), "ready")
}

/// One of the two commits of an accepted submission.
#[derive(Clone, Copy, PartialEq, Eq, Structural, Debug)]
pub enum Commit {
    Compiler,
    Frontend,
}

/// The commits that follow the engine's prepare reply, in order: none
/// unless it is `ready`; then the compiler's, then the frontend's.
pub fn commit_order(prepared: &Report) -> (r: Vec<Commit>)
    ensures
        r@ == if prepared.outcome@ == "ready"@ { seq![Commit::Compiler, Commit::Frontend] } else { Seq::<Commit>::empty() },
{
    if commits(prepared) {
        vec![Commit::Compiler, Commit::Frontend]
    } else {
        Vec::new()
    }
}

/// The session stack after a submission: its output types when the engine
/// reported it `ready` and then executed it `normal`ly, the prior stack
/// otherwise.
pub open spec fn next_stack<T>(prior: Seq<T>, output: Seq<T>, prepared: Seq<char>, executed: Option<Seq<char>>) -> Seq<T> {
    if prepared == "ready"@ && executed == Some("normal"@) {
        output
    } else {
        prior
    }
}

/// The outcome of an execution report, if the submission was executed.
pub open spec fn executed_outcome(executed: Option<&Report>) -> Option<Seq<char>> {
    match executed {
        Some(e) => Some(e.outcome@),
        None => None,
    }
}

/// The session stack after a submission whose prepare reply is `prepared`
/// and whose execution report, if it ran, is `executed`.
pub fn stack_after<T>(prior: Vec<T>, output: Vec<T>, prepared: &Report, executed: Option<&Report>) -> (r: Vec<T>)
    ensures
        r@ == next_stack(prior@, output@, prepared.outcome@, executed_outcome(executed)),
{
    match executed {
        Some(e) => if commits(prepared) && text_equal(e.outcome.as_str(), "normal") {
            output
        } else {
            prior
        },
        None => prior,
    }
}

/// A static refusal preserves the session: a submission that the engine did
/// not report `ready`, or that did not execute `normal`ly, leaves the stack
/// as it was; only a normal execution replaces it, by the output types.
pub proof fn law_static_refusal_preserves_stack<T>(prior: Seq<T>, output: Seq<T>, prepared: Seq<char>, executed: Option<Seq<char>>)
    ensures
        prepared != "ready"@ ==> next_stack(prior, output, prepared, executed) == prior,
        executed != Some("normal"@) ==> next_stack(prior, output, prepared, executed) == prior,
        prepared == "ready"@ && executed == Some("normal"@) ==> next_stack(prior, output, prepared, executed) == output,
{
}

/// The files that retain submission `number`: its source and its report.
pub fn retained_names(number: u64) -> (r: (String, String))
    ensures
        r.0@ == decimal(number as nat) + ".noble"@,
        r.1@ == decimal(number as nat) + ".json"@,
{
    let mut source = String::new();
    crate::json::append_decimal(number, &mut source);
    crate::text::push_text(&mut source, ".noble");
    let mut report = String::new();
    crate::json::append_decimal(number, &mut report);
    crate::text::push_text(&mut report, ".json");
    (source, report)
}

/// The exit status of a session that has reported `outcomes`: the worst
/// status among them, 0 for none (`session_step` folded over the reports).
pub open spec fn session_status(outcomes: Seq<Seq<char>>) -> u8
    decreases outcomes.len(),
{
    if outcomes.len() == 0 {
        0
    } else {
        let before = session_status(outcomes.drop_last());
        let this = exit_code(outcomes.last());
        if this > before { this } else { before }
    }
}

/// A session succeeds exactly when every submission succeeded: its exit
/// status is 0 if and only if each report is `normal`, `defined` or `ready`,
/// so a script that only installs definitions exits with success.
pub proof fn law_success_is_normal_defined_or_ready(outcomes: Seq<Seq<char>>)
    ensures
        session_status(outcomes) == 0 <==> forall|i: int| 0 <= i < outcomes.len()
            ==> (#[trigger] outcomes[i] == "normal"@ || outcomes[i] == "defined"@ || outcomes[i] == "ready"@),
    decreases outcomes.len(),
{
    if outcomes.len() > 0 {
        let before = outcomes.drop_last();
        law_success_is_normal_defined_or_ready(before);
        let last = outcomes.last();
        assert(outcomes[outcomes.len() - 1] == last);
        assert(forall|i: int| 0 <= i < before.len() ==> #[trigger] before[i] == outcomes[i]);
        let good = |x: Seq<char>| x == "normal"@ || x == "defined"@ || x == "ready"@;
        if !good(last) {
            assert(exit_code(last) > 0) by {
                reveal_strlit("unsupported");
                reveal_strlit("exhausted");
                reveal_strlit("runtime-exhausted");
                reveal_strlit("trap");
            }
            assert(session_status(outcomes) > 0);
            assert(!good(outcomes[outcomes.len() - 1]));
        } else {
            assert(exit_code(last) == 0);
            assert(session_status(outcomes) == session_status(before));
            if session_status(outcomes) != 0 {
                let i = choose|i: int| 0 <= i < before.len() && !good(#[trigger] before[i]);
                assert(!good(outcomes[i]));
            } else {
                assert forall|i: int| 0 <= i < outcomes.len() implies good(#[trigger] outcomes[i]) by {
                    if i < before.len() {
                        assert(before[i] == outcomes[i]);
                    }
                }
            }
        }
    }
}

/// The status of a failed submission says how it failed: a trap 1, an
/// unsupported program 4, an exhausted budget 5, any other refusal 2; and
/// an outcome that ends the session never reports success.
pub proof fn law_failure_statuses(outcome: Seq<char>)
    ensures
        outcome == "trap"@ ==> exit_code(outcome) == 1,
        outcome == "unsupported"@ ==> exit_code(outcome) == 4,
        outcome == "exhausted"@ || outcome == "runtime-exhausted"@ ==> exit_code(outcome) == 5,
        !(outcome == "normal"@ || outcome == "defined"@ || outcome == "ready"@ || outcome == "trap"@
            || outcome == "unsupported"@ || outcome == "exhausted"@ || outcome == "runtime-exhausted"@)
            ==> exit_code(outcome) == 2,
        terminal(outcome) ==> exit_code(outcome) != 0,
{
    reveal_strlit("normal");
    reveal_strlit("defined");
    reveal_strlit("ready");
    reveal_strlit("trap");
    reveal_strlit("unsupported");
    reveal_strlit("exhausted");
    reveal_strlit("runtime-exhausted");
    reveal_strlit("internal-failure");
    assert("trap"@.len() == 4 && "normal"@.len() == 6 && "ready"@.len() == 5 && "defined"@.len() == 7);
    assert("unsupported"@.len() == 11 && "exhausted"@.len() == 9 && "runtime-exhausted"@.len() == 17);
    assert("internal-failure"@.len() == 16);
    assert("defined"@[0] == 'd' && "unsupported"@[0] == 'u' && "exhausted"@[0] == 'e');
}

} // verus!
