//! The report of `verify` and `explain-proof`: one JSON document stating the
//! outcome, the prepared contract, the assumptions of any accepted claim, what
//! the command does not establish, and the consumer's policy.

use vstd::prelude::*;

use crate::json::{encoded, hex, hex_text, keys, object, optional_string, string, strings, text_is, value_at, Json};
use crate::outcome::{failure_json, Failure, Outcome};
use crate::text::owned;
use crate::utf8::decode;
use crate::verify_arguments::DEFAULT_TIMEOUT;
use vstd::utf8::{decode_utf8, valid_utf8};

verus! {

pub const SOURCE_LIMIT: usize = 1_048_576;
pub const PROOF_LIMIT: usize = 524_288;
pub const PROOF_WIRE_LIMIT: usize = 8_388_608;

pub const RECHECK_METHOD: &'static str = "Bounded JSON declaration decoding into fresh kernel constructors, consumer-selected definitions, exact theorem type and transitive axiom traversal; no producer binary artifacts loaded by the consumer.";
pub const CLAIM_SCOPE: &'static str = "Pure normal-return partial correctness with allocation/quota abstraction; no termination, abnormal-outcome safety, runtime applicability, host-state, or Wasm claim.";
pub const REFINEMENT_SCOPE: &'static str = "Rust frontend/exporter and ordinary kernel refinement are separate Aeneas obligations; application acceptance does not establish them.";
pub const CORRESPONDENCE_SCOPE: &'static str = "No Wasm, compilation, loading, runtime replay, or MC2 evidence is accepted here.";
pub const SANDBOX_POLICY: &'static str = "bubblewrap; all namespaces; no network; read-only inputs; fixed writable artifact files; memory/CPU/file/output limits";

/// The state of a `verify` or `explain-proof` report as the command runs.
pub struct Report {
    pub outcome: Outcome,
    pub command: &'static str,
    pub source_path: String,
    pub source: Option<String>,
    pub invalid_source_bytes: Option<String>,
    pub generated: Option<String>,
    pub proof_wire: Option<String>,
    pub subject: Json,
    pub ordinary_typing: Json,
    pub library: Json,
    pub proof_request: Json,
    pub theorem: Option<&'static str>,
    pub axioms: Option<Vec<String>>,
    pub rechecked: bool,
    pub diagnostics: Vec<Json>,
    pub timeout_ms: u64,
    pub emitted: Option<String>,
    pub tools: Json,
}

/// An optional text: a JSON string holding it, or `null`.
pub open spec fn optional_text(j: Json, t: Option<Seq<char>>) -> bool {
    match t {
        Some(s) => text_is(j, s),
        None => j is Null,
    }
}

/// The characters of an optional string.
pub open spec fn text_view(t: Option<String>) -> Option<Seq<char>> {
    match t {
        Some(s) => Some(s@),
        None => None,
    }
}

/// A JSON array of the given strings.
pub open spec fn text_array(j: Json, t: Seq<Seq<char>>) -> bool {
    j matches Json::Array(items) && items@.len() == t.len()
        && forall|i: int| 0 <= i < t.len() ==> text_is(#[trigger] items@[i], t[i])
}

/// The axioms an accepted claim may rest on.
pub open spec fn allowed_axioms() -> Seq<Seq<char>> {
    seq!["propext"@, "Classical.choice"@, "Quot.sound"@]
}

/// The premises every accepted claim is relative to.
pub open spec fn semantic_premises() -> Seq<Seq<char>> {
    seq![
        "universally quantified typed input stack and ghost parameters"@,
        "the exact exported requires predicate"@,
        "normal-return Exec of the exact accepted program"@,
    ]
}

/// What remains to be established after the command.
pub open spec fn outstanding(rechecked: bool) -> Seq<Seq<char>> {
    if rechecked {
        seq!["implementation refinement (separate verification lane)"@, "backend correspondence (outside MC1)"@]
    } else {
        seq![
            "application claim or refutation"@,
            "implementation refinement (separate verification lane)"@,
            "backend correspondence (outside MC1)"@,
        ]
    }
}

/// The assumptions of a claim: the allowed axioms, those the accepted proof
/// used, the semantic premises and the claim's scope.
pub open spec fn assumptions_json(j: Json, axioms: Option<Vec<String>>) -> bool {
    &&& keys(j) == seq!["allowed_axioms"@, "accepted_transitive_axioms"@, "semantic_premises"@, "scope"@]
    &&& text_array(value_at(j, 0), allowed_axioms())
    &&& match axioms {
        Some(a) => text_array(value_at(j, 1), a@.map_values(|s: String| s@)),
        None => value_at(j, 1) is Null,
    }
    &&& text_array(value_at(j, 2), semantic_premises())
    &&& text_is(value_at(j, 3), CLAIM_SCOPE@)
}

/// An object stating a status and its scope.
pub open spec fn status_json(j: Json, status: Seq<char>, scope: Seq<char>) -> bool {
    &&& keys(j) == seq!["status"@, "scope"@]
    &&& text_is(value_at(j, 0), status)
    &&& text_is(value_at(j, 1), scope)
}

/// The consumer's policy: the pinned toolchain, the budgets and the tools.
pub open spec fn policy_json(j: Json, timeout_ms: u64, tools: Json) -> bool {
    &&& keys(j) == seq![
        "lean_toolchain"@, "lean_commit"@, "timeout_ms"@, "proof_source_bytes"@, "process_output_bytes_per_stream"@,
        "artifact_bytes_per_file"@, "sandbox"@, "trusted_tools"@,
    ]
    &&& text_is(value_at(j, 0), crate::sandbox::PIN@)
    &&& text_is(value_at(j, 1), crate::sandbox::COMMIT@)
    &&& value_at(j, 2) == Json::Number(timeout_ms)
    &&& value_at(j, 3) == Json::Number(PROOF_LIMIT as u64)
    &&& value_at(j, 4) == Json::Number(crate::sandbox::OUTPUT_LIMIT as u64)
    &&& value_at(j, 5) == Json::Number(crate::sandbox::ARTIFACT_LIMIT)
    &&& text_is(value_at(j, 6), SANDBOX_POLICY@)
    &&& encoded(value_at(j, 7)) == encoded(tools)
}

/// The member names of a report, in order.
pub open spec fn report_keys() -> Seq<Seq<char>> {
    seq![
        "schema"@, "command"@, "outcome"@, "source_path"@, "source"@, "invalid_source_bytes_hex"@,
        "generated_statement"@, "proof_declarations"@, "claim_kind"@, "subject"@, "ordinary_typing"@,
        "assumptions"@, "rule_library_revision"@, "proof_request"@, "theorem"@, "independent_recheck"@,
        "recheck_method"@, "implementation_refinement"@, "backend_correspondence"@, "outstanding_obligations"@,
        "consumer_policy"@, "diagnostics"@, "emitted"@,
    ]
}

/// Two lists of JSON values with the same encodings, in order.
pub open spec fn same_values(a: Seq<Json>, b: Seq<Json>) -> bool {
    a.len() == b.len() && forall|i: int| 0 <= i < a.len() ==> encoded(#[trigger] a[i]) == encoded(b[i])
}

/// A copy of a list of JSON values.
pub fn copy_all(values: &Vec<Json>) -> (r: Vec<Json>)
    ensures
        same_values(r@, values@),
{
    let mut out: Vec<Json> = Vec::new();
    let mut i: usize = 0;
    while i < values.len()
        invariant
            i <= values@.len(),
            out@.len() == i,
            forall|k: int| 0 <= k < i ==> encoded(#[trigger] out@[k]) == encoded(values@[k]),
        decreases values@.len() - i,
    {
        out.push(values[i].copy());
        i = i + 1;
    }
    out
}

/// A JSON array of strings.
fn string_array(values: &Vec<String>) -> (r: Json)
    ensures
        text_array(r, values@.map_values(|s: String| s@)),
{
    let mut out: Vec<Json> = Vec::new();
    let mut i: usize = 0;
    while i < values.len()
        invariant
            i <= values@.len(),
            out@.len() == i,
            forall|k: int| 0 <= k < i ==> text_is(#[trigger] out@[k], values@[k]@),
        decreases values@.len() - i,
    {
        out.push(string(values[i].as_str()));
        i = i + 1;
    }
    Json::Array(out)
}

/// A JSON array of string literals.
fn literal_array(values: &[&str]) -> (r: Json)
    ensures
        text_array(r, values@.map_values(|s: &str| s@)),
{
    let r = strings(values);
    proof {
        let items = r->Array_0@;
        assert forall|i: int| 0 <= i < values@.len() implies text_is(#[trigger] items[i], values@.map_values(|s: &str| s@)[i]) by {
            assert(text_is(items[i], values@[i]@));
        }
    }
    r
}

impl Report {
    /// A report that has done nothing yet.
    pub fn new() -> (r: Report)
        ensures
            r.outcome == Outcome::NotRun,
            r.command@ == "verify"@,
            r.source_path@.len() == 0,
            r.source is None && r.invalid_source_bytes is None && r.generated is None && r.proof_wire is None,
            r.subject is Null,
            text_is(r.ordinary_typing, "not-run"@),
            r.library is Null && r.proof_request is Null,
            r.theorem is None && r.axioms is None,
            !r.rechecked,
            r.diagnostics@.len() == 0,
            r.timeout_ms == DEFAULT_TIMEOUT,
            r.emitted is None,
            r.tools is Null,
    {
        Report {
            outcome: Outcome::NotRun,
            command: "verify",
            source_path: String::new(),
            source: None,
            invalid_source_bytes: None,
            generated: None,
            proof_wire: None,
            subject: Json::Null,
            ordinary_typing: string("not-run"),
            library: Json::Null,
            proof_request: Json::Null,
            theorem: None,
            axioms: None,
            rechecked: false,
            diagnostics: Vec::new(),
            timeout_ms: DEFAULT_TIMEOUT,
            emitted: None,
            tools: Json::Null,
        }
    }

    /// Records a failure: its outcome becomes the report's, and its
    /// diagnostic is appended.
    pub fn fail(&mut self, error: Failure)
        ensures
            final(self).outcome == error.outcome,
            final(self).diagnostics@.len() == old(self).diagnostics@.len() + 1,
            final(self).diagnostics@.subrange(0, old(self).diagnostics@.len() as int) == old(self).diagnostics@,
            failure_json(final(self).diagnostics@.last(), error.code@, error.message@, error.details),
            final(self).command == old(self).command,
            final(self).source_path == old(self).source_path,
            final(self).rechecked == old(self).rechecked,
            final(self).timeout_ms == old(self).timeout_ms,
    {
        self.outcome = error.outcome;
        let ghost before = self.diagnostics@;
        self.diagnostics.push(error.json());
        assert(self.diagnostics@.subrange(0, before.len() as int) =~= before);
    }

    /// The complete report document.
    pub fn json(&self) -> (r: Json)
        ensures
            keys(r) == report_keys(),
            text_is(value_at(r, 0), "noble-mc1-report/v1"@),
            text_is(value_at(r, 1), self.command@),
            text_is(value_at(r, 2), self.outcome.spec_name()),
            text_is(value_at(r, 3), self.source_path@),
            optional_text(value_at(r, 4), text_view(self.source)),
            optional_text(value_at(r, 5), text_view(self.invalid_source_bytes)),
            optional_text(value_at(r, 6), text_view(self.generated)),
            optional_text(value_at(r, 7), text_view(self.proof_wire)),
            text_is(value_at(r, 8), "partial-correctness"@),
            encoded(value_at(r, 9)) == encoded(self.subject),
            encoded(value_at(r, 10)) == encoded(self.ordinary_typing),
            assumptions_json(value_at(r, 11), self.axioms),
            encoded(value_at(r, 12)) == encoded(self.library),
            encoded(value_at(r, 13)) == encoded(self.proof_request),
            optional_text(value_at(r, 14), match self.theorem { Some(t) => Some(t@), None => None }),
            value_at(r, 15) == Json::Bool(self.rechecked),
            text_is(value_at(r, 16), RECHECK_METHOD@),
            status_json(value_at(r, 17), "not-checked-by-this-command"@, REFINEMENT_SCOPE@),
            status_json(value_at(r, 18), "not-claimed"@, CORRESPONDENCE_SCOPE@),
            text_array(value_at(r, 19), outstanding(self.rechecked)),
            policy_json(value_at(r, 20), self.timeout_ms, self.tools),
            value_at(r, 21) matches Json::Array(items) && same_values(items@, self.diagnostics@),
            optional_text(value_at(r, 22), text_view(self.emitted)),
    {
        let accepted = match &self.axioms {
            Some(axioms) => string_array(axioms),
            None => Json::Null,
        };
        let allowed = literal_array(&["propext", "Classical.choice", "Quot.sound"]);
        let premises = literal_array(&[
            "universally quantified typed input stack and ghost parameters",
            "the exact exported requires predicate",
            "normal-return Exec of the exact accepted program",
        ]);
        let assumptions = object(vec![
            ("allowed_axioms", allowed),
            ("accepted_transitive_axioms", accepted),
            ("semantic_premises", premises),
            ("scope", string(CLAIM_SCOPE)),
        ]);
        assert(keys(assumptions) =~= seq!["allowed_axioms"@, "accepted_transitive_axioms"@, "semantic_premises"@, "scope"@]);
        let refinement = object(vec![("status", string("not-checked-by-this-command")), ("scope", string(REFINEMENT_SCOPE))]);
        assert(keys(refinement) =~= seq!["status"@, "scope"@]);
        let correspondence = object(vec![("status", string("not-claimed")), ("scope", string(CORRESPONDENCE_SCOPE))]);
        assert(keys(correspondence) =~= seq!["status"@, "scope"@]);
        let obligations = if self.rechecked {
            literal_array(&["implementation refinement (separate verification lane)", "backend correspondence (outside MC1)"])
        } else {
            literal_array(&[
                "application claim or refutation",
                "implementation refinement (separate verification lane)",
                "backend correspondence (outside MC1)",
            ])
        };
        let policy = object(vec![
            ("lean_toolchain", string(crate::sandbox::PIN)),
            ("lean_commit", string(crate::sandbox::COMMIT)),
            ("timeout_ms", Json::Number(self.timeout_ms)),
            ("proof_source_bytes", Json::Number(PROOF_LIMIT as u64)),
            ("process_output_bytes_per_stream", Json::Number(crate::sandbox::OUTPUT_LIMIT as u64)),
            ("artifact_bytes_per_file", Json::Number(crate::sandbox::ARTIFACT_LIMIT)),
            ("sandbox", string(SANDBOX_POLICY)),
            ("trusted_tools", self.tools.copy()),
        ]);
        assert(keys(policy) =~= seq![
            "lean_toolchain"@, "lean_commit"@, "timeout_ms"@, "proof_source_bytes"@, "process_output_bytes_per_stream"@,
            "artifact_bytes_per_file"@, "sandbox"@, "trusted_tools"@,
        ]);
        let r = object(vec![
            ("schema", string("noble-mc1-report/v1")),
            ("command", string(self.command)),
            ("outcome", string(self.outcome.name())),
            ("source_path", string(self.source_path.as_str())),
            ("source", optional_text_json(&self.source)),
            ("invalid_source_bytes_hex", optional_text_json(&self.invalid_source_bytes)),
            ("generated_statement", optional_text_json(&self.generated)),
            ("proof_declarations", optional_text_json(&self.proof_wire)),
            ("claim_kind", string("partial-correctness")),
            ("subject", self.subject.copy()),
            ("ordinary_typing", self.ordinary_typing.copy()),
            ("assumptions", assumptions),
            ("rule_library_revision", self.library.copy()),
            ("proof_request", self.proof_request.copy()),
            ("theorem", optional_string(self.theorem)),
            ("independent_recheck", Json::Bool(self.rechecked)),
            ("recheck_method", string(RECHECK_METHOD)),
            ("implementation_refinement", refinement),
            ("backend_correspondence", correspondence),
            ("outstanding_obligations", obligations),
            ("consumer_policy", policy),
            ("diagnostics", Json::Array(copy_all(&self.diagnostics))),
            ("emitted", optional_text_json(&self.emitted)),
        ]);
        assert(keys(r) =~= report_keys());
        proof {
            assert(seq!["propext", "Classical.choice", "Quot.sound"].map_values(|s: &str| s@) =~= allowed_axioms());
        }
        r
    }
}

/// A JSON string holding an optional text, or `null`.
fn optional_text_json(t: &Option<String>) -> (r: Json)
    ensures
        optional_text(r, text_view(*t)),
{
    match t {
        Some(s) => string(s.as_str()),
        None => Json::Null,
    }
}

/// The request for an application claim or its refutation.
pub fn proof_request(path: &str, is_refutation: bool) -> (r: Json)
    ensures
        keys(r) == seq!["source_path"@, "kind"@, "theorem"@, "expected_type"@],
        text_is(value_at(r, 0), path@),
        text_is(value_at(r, 1), if is_refutation { "refutation"@ } else { "proof"@ }),
        text_is(value_at(r, 2), if is_refutation { "MC1Proof.refutation"@ } else { "MC1Proof.proof"@ }),
        text_is(value_at(r, 3), if is_refutation { "Not MC1Obligation.claim"@ } else { "MC1Obligation.claim"@ }),
{
    let r = object(vec![
        ("source_path", string(path)),
        ("kind", string(if is_refutation { "refutation" } else { "proof" })),
        ("theorem", string(if is_refutation { "MC1Proof.refutation" } else { "MC1Proof.proof" })),
        ("expected_type", string(if is_refutation { "Not MC1Obligation.claim" } else { "MC1Obligation.claim" })),
    ]);
    assert(keys(r) =~= seq!["source_path"@, "kind"@, "theorem"@, "expected_type"@]);
    r
}

/// The ordinary typing of an accepted contract, with the frontend's summary
/// of what it typed.
pub fn accepted_typing(checked: &str) -> (r: Json)
    ensures
        keys(r) == seq!["outcome"@, "checked"@],
        text_is(value_at(r, 0), "accepted"@),
        text_is(value_at(r, 1), checked@),
{
    let r = object(vec![("outcome", string("accepted")), ("checked", string(checked))]);
    assert(keys(r) =~= seq!["outcome"@, "checked"@]);
    r
}

/// The library entry of a report when the rule library is unavailable.
pub fn unavailable_library(error: &Failure) -> (r: Json)
    ensures
        keys(r) == seq!["status"@, "diagnostic"@],
        text_is(value_at(r, 0), "unavailable"@),
        failure_json(value_at(r, 1), error.code@, error.message@, error.details),
{
    let r = object(vec![("status", string("unavailable")), ("diagnostic", error.json())]);
    assert(keys(r) =~= seq!["status"@, "diagnostic"@]);
    r
}

impl Report {
    /// Records the contract's bytes: its text when UTF-8, else their
    /// hexadecimal spelling.
    pub fn record_source(&mut self, bytes: &[u8])
        ensures
            valid_utf8(bytes@) ==> text_view(final(self).source) == Some(decode_utf8(bytes@))
                && final(self).invalid_source_bytes == old(self).invalid_source_bytes,
            !valid_utf8(bytes@) ==> text_view(final(self).invalid_source_bytes) == Some(hex_text(bytes@))
                && final(self).source == old(self).source,
            final(self).outcome == old(self).outcome,
            final(self).diagnostics == old(self).diagnostics,
    {
        match decode(bytes) {
            Some(text) => self.source = Some(text),
            None => self.invalid_source_bytes = Some(hex(bytes)),
        }
    }

    /// No evidence was supplied: the claim is unknown and no proof process ran.
    pub fn evidence_missing(&mut self)
        ensures
            final(self).outcome == Outcome::Unknown,
            final(self).diagnostics@.len() == old(self).diagnostics@.len() + 1,
            final(self).diagnostics@.subrange(0, old(self).diagnostics@.len() as int) == old(self).diagnostics@,
            failure_json(final(self).diagnostics@.last(), "evidence-missing"@,
                "no application proof or refutation was supplied; no proof process ran"@, Json::Null),
    {
        self.outcome = Outcome::Unknown;
        let failure = Failure::error("evidence-missing", owned("no application proof or refutation was supplied; no proof process ran"));
        let ghost before = self.diagnostics@;
        self.diagnostics.push(failure.json());
        assert(self.diagnostics@.subrange(0, before.len() as int) =~= before);
    }

    /// Records an accepted claim or refutation: the outcome, the theorem, the
    /// axioms it rests on, its exported declarations and the tools that
    /// checked it.
    pub fn record_acceptance(&mut self, axioms: Vec<String>, wire: String, tools: Json, is_refutation: bool)
        ensures
            final(self).outcome == if is_refutation { Outcome::Disproved } else { Outcome::Proved },
            final(self).theorem matches Some(t) && t@ == if is_refutation { "MC1Proof.refutation"@ } else { "MC1Proof.proof"@ },
            final(self).axioms == Some(axioms),
            final(self).proof_wire == Some(wire),
            final(self).rechecked,
            final(self).tools == tools,
            final(self).diagnostics == old(self).diagnostics,
            final(self).source == old(self).source,
            final(self).command == old(self).command,
    {
        self.outcome = if is_refutation { Outcome::Disproved } else { Outcome::Proved };
        self.theorem = Some(if is_refutation { "MC1Proof.refutation" } else { "MC1Proof.proof" });
        self.axioms = Some(axioms);
        self.proof_wire = Some(wire);
        self.rechecked = true;
        self.tools = tools;
    }
}

/// The exit status, output and error output of a sandboxed process.
pub fn transcript_json(transcript: &crate::sandbox::Transcript) -> (r: Json)
    ensures
        keys(r) == seq!["exit_status"@, "stdout"@, "stderr"@],
        text_is(value_at(r, 0), transcript.status@),
        text_is(value_at(r, 1), transcript.stdout@),
        text_is(value_at(r, 2), transcript.stderr@),
{
    let r = object(vec![
        ("exit_status", string(transcript.status.as_str())),
        ("stdout", string(transcript.stdout.as_str())),
        ("stderr", string(transcript.stderr.as_str())),
    ]);
    assert(keys(r) =~= seq!["exit_status"@, "stdout"@, "stderr"@]);
    r
}

/// A successful process, or the failure of the stage it ran: a process
/// ended by `SIGXCPU` (signal 24) exhausted its CPU time.
pub fn require_success(transcript: crate::sandbox::Transcript, code: &'static str, message: &str) -> (r: Result<crate::sandbox::Transcript, Failure>)
    ensures
        transcript.succeeded ==> r == Ok::<crate::sandbox::Transcript, Failure>(transcript),
        !transcript.succeeded && transcript.signal == Some(24i32) ==> (r matches Err(f) && f.outcome == Outcome::Timeout
            && f.code@ == "timeout"@ && f.message@ == "sandbox exhausted its CPU-time limit"@
            && keys(f.details) == seq!["exit_status"@, "stdout"@, "stderr"@]
            && text_is(value_at(f.details, 0), transcript.status@)
            && text_is(value_at(f.details, 1), transcript.stdout@)
            && text_is(value_at(f.details, 2), transcript.stderr@)),
        !transcript.succeeded && transcript.signal != Some(24i32) ==> (r matches Err(f) && f.outcome == Outcome::Error
            && f.code == code && f.message@ == message@
            && keys(f.details) == seq!["exit_status"@, "stdout"@, "stderr"@]
            && text_is(value_at(f.details, 0), transcript.status@)
            && text_is(value_at(f.details, 1), transcript.stdout@)
            && text_is(value_at(f.details, 2), transcript.stderr@)),
{
    if transcript.succeeded {
        return Ok(transcript);
    }
    let details = transcript_json(&transcript);
    let mut error = match transcript.signal {
        Some(s) => if s == 24 {
            Failure::timeout("sandbox exhausted its CPU-time limit")
        } else {
            Failure::error(code, owned(message))
        },
        None => Failure::error(code, owned(message)),
    };
    error.details = details;
    Err(error)
}

/// Checks the toolchain probe (`lean --version` inside the sandbox): it must
/// succeed and report the pinned release and commit.
pub fn probe_toolchain(probe: crate::sandbox::Transcript) -> (r: Result<crate::sandbox::Transcript, Failure>)
    ensures
        !probe.succeeded ==> (r matches Err(f) && f.outcome == Outcome::Unsupported
            && f.code@ == "sandbox-unavailable"@ && f.message@ == "sandbox/toolchain launch failed; no proof code ran"@
            && keys(f.details) == seq!["exit_status"@, "stdout"@, "stderr"@]),
        probe.succeeded && !(crate::text::contains(probe.stdout@, "version 4.31.0,"@)
            && crate::text::contains(probe.stdout@, crate::sandbox::COMMIT@)) ==> (r matches Err(f)
            && f.outcome == Outcome::Unsupported && f.code@ == "toolchain-mismatch"@
            && f.message@ == "selected Lean executable does not report the pinned release and commit"@
            && keys(f.details) == seq!["exit_status"@, "stdout"@, "stderr"@]),
        probe.succeeded && crate::text::contains(probe.stdout@, "version 4.31.0,"@)
            && crate::text::contains(probe.stdout@, crate::sandbox::COMMIT@) ==> r == Ok::<crate::sandbox::Transcript, Failure>(probe),
{
    if !probe.succeeded {
        let mut failure = Failure::unsupported("sandbox-unavailable", owned("sandbox/toolchain launch failed; no proof code ran"));
        failure.details = transcript_json(&probe);
        return Err(failure);
    }
    let out = crate::text::chars_of(probe.stdout.as_str());
    let release = crate::text::chars_of("version 4.31.0,");
    let commit = crate::text::chars_of(crate::sandbox::COMMIT);
    if !crate::text::contains_chars(out.as_slice(), release.as_slice()) || !crate::text::contains_chars(out.as_slice(), commit.as_slice()) {
        let mut failure = Failure::unsupported("toolchain-mismatch",
            owned("selected Lean executable does not report the pinned release and commit"));
        failure.details = transcript_json(&probe);
        return Err(failure);
    }
    Ok(probe)
}

/// The trusted tools of an accepted claim: the sandbox's executables, its
/// aggregate limits and the Lean version it reported (trimmed).
pub fn tools(sandbox: &crate::sandbox::Environment, version: &str) -> (r: Json)
    ensures
        keys(r) == seq!["lean"@, "bubblewrap"@, "prlimit"@, "systemd_run"@, "aggregate_memory_bytes"@, "aggregate_tasks"@, "lean_version"@],
        text_is(value_at(r, 0), sandbox.lean@),
        text_is(value_at(r, 1), sandbox.bwrap@),
        text_is(value_at(r, 2), sandbox.prlimit@),
        text_is(value_at(r, 3), sandbox.systemd_run@),
        value_at(r, 4) == Json::Number(crate::sandbox::MEMORY_LIMIT),
        value_at(r, 5) == Json::Number(64),
        text_is(value_at(r, 6), crate::number::trim(version@)),
{
    let spelled = crate::text::chars_of(version);
    let end = crate::number::trimmed_length(spelled.as_slice());
    let start = crate::number::leading_space(spelled.as_slice(), end);
    let trimmed = crate::text::string_of(spelled.as_slice(), start, end);
    let r = object(vec![
        ("lean", string(sandbox.lean.as_str())),
        ("bubblewrap", string(sandbox.bwrap.as_str())),
        ("prlimit", string(sandbox.prlimit.as_str())),
        ("systemd_run", string(sandbox.systemd_run.as_str())),
        ("aggregate_memory_bytes", Json::Number(crate::sandbox::MEMORY_LIMIT)),
        ("aggregate_tasks", Json::Number(64)),
        ("lean_version", Json::String(trimmed)),
    ]);
    assert(keys(r) =~= seq!["lean"@, "bubblewrap"@, "prlimit"@, "systemd_run"@, "aggregate_memory_bytes"@, "aggregate_tasks"@, "lean_version"@]);
    r
}

/// The failure of a contract the frontend would not prepare, by the kind of
/// its diagnostic.
pub open spec fn preparation_outcome(kind: crate::session::DiagnosticKind) -> (Outcome, Seq<char>) {
    match kind {
        crate::session::DiagnosticKind::Unsupported => (Outcome::Unsupported, "contract-unsupported"@),
        crate::session::DiagnosticKind::Invalid => (Outcome::Error, "contract-invalid"@),
        crate::session::DiagnosticKind::Exhausted => (Outcome::Error, "preparation-limit"@),
        crate::session::DiagnosticKind::Internal => (Outcome::Error, "preparation-internal"@),
    }
}

impl Report {
    /// Reports a contract the frontend refused: its ordinary typing (when the
    /// contract got that far) and the failure, located by its source span.
    pub fn preparation_failure(&mut self, kind: crate::session::DiagnosticKind, message: String,
        span: crate::session::Span, checked: Option<String>) -> (f: Failure)
        ensures
            match checked {
                Some(c) => keys(final(self).ordinary_typing) == seq!["outcome"@, "checked"@]
                    && text_is(value_at(final(self).ordinary_typing, 0), "accepted"@)
                    && text_is(value_at(final(self).ordinary_typing, 1), c@),
                None => text_is(final(self).ordinary_typing, "not-accepted"@),
            },
            f.outcome == preparation_outcome(kind).0,
            f.code@ == preparation_outcome(kind).1,
            f.message == message,
            keys(f.details) == seq!["start"@, "end"@],
            value_at(f.details, 0) == Json::Number(span.start as u64),
            value_at(f.details, 1) == Json::Number(span.end as u64),
            final(self).outcome == old(self).outcome,
            final(self).diagnostics == old(self).diagnostics,
    {
        self.ordinary_typing = match &checked {
            Some(c) => accepted_typing(c.as_str()),
            None => string("not-accepted"),
        };
        let mut failure = match kind {
            crate::session::DiagnosticKind::Unsupported => Failure::unsupported("contract-unsupported", message),
            crate::session::DiagnosticKind::Invalid => Failure::error("contract-invalid", message),
            crate::session::DiagnosticKind::Exhausted => Failure::error("preparation-limit", message),
            crate::session::DiagnosticKind::Internal => Failure::error("preparation-internal", message),
        };
        let details = object(vec![("start", Json::Number(span.start as u64)), ("end", Json::Number(span.end as u64))]);
        assert(keys(details) =~= seq!["start"@, "end"@]);
        failure.details = details;
        failure
    }
}

} // verus!
