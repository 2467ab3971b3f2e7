//! The report of `build --require-proof`: whether the artifact is released,
//! the identity of its subject and claim, the evidence, and what the build
//! does not establish.

use vstd::prelude::*;

use crate::admission::{refusal_json, Evidence, Refusal};
use crate::digest::{fold_spec, hex16, hex_u64, statement_fold, FNV_OFFSET};
use crate::json::{append_decimal, decimal, encoded, keys, object, optional_string, string, text_is, value_at, Json};
use crate::outcome::{failure_json, Failure, Outcome};
use crate::text::{owned, push_text};
use crate::verify_arguments::DEFAULT_TIMEOUT;
use crate::verify_report::{copy_all, optional_text, same_values, text_array, text_view};

verus! {

/// The consumer-selected policy revision evidence is checked against.
pub const POLICY_REVISION: u32 = 1;

pub const CLASS_PROOF: &'static str = "LeanExact";
pub const CLASS_REFUTATION: &'static str = "LeanRefutation";

/// Whether the artifact may be released, why, and the core's identities of
/// a released claim.
pub struct ReleaseDecision {
    pub allowed: bool,
    pub reason: String,
    pub refusals: Vec<String>,
    pub core_subject: Option<u64>,
    pub core_statement: Option<u64>,
    pub core_contract: Option<u32>,
    pub core_evidence: Option<u32>,
}

/// A decision that releases nothing and records no identity.
pub open spec fn plain_decision(d: ReleaseDecision, allowed: bool, reason: Seq<char>) -> bool {
    &&& d.allowed == allowed
    &&& d.reason@ == reason
    &&& d.refusals@.len() == 0
    &&& d.core_subject is None && d.core_statement is None
    &&& d.core_contract is None && d.core_evidence is None
}

/// A number, or `null` when absent.
pub fn number_or_null(value: Option<u64>) -> (r: Json)
    ensures
        value matches Some(v) ==> r == Json::Number(v),
        value is None ==> r is Null,
{
    match value {
        Some(v) => Json::Number(v),
        None => Json::Null,
    }
}

/// An optional 32-bit number as JSON.
fn index_or_null(value: Option<u32>) -> (r: Json)
    ensures
        value matches Some(v) ==> r == Json::Number(v as u64),
        value is None ==> r is Null,
{
    match value {
        Some(v) => Json::Number(v as u64),
        None => Json::Null,
    }
}

/// An optional digest as JSON text.
pub open spec fn digest_json(j: Json, value: Option<u64>) -> bool {
    match value {
        Some(v) => text_is(j, hex16(v)),
        None => j is Null,
    }
}

/// The report entry of a release decision under the core's rule-set version.
pub open spec fn decision_json(r: Json, d: ReleaseDecision, ruleset: u32) -> bool {
    &&& keys(r) == seq!["allowed"@, "reason"@, "refusals"@, "core_subject_identity"@, "core_statement_digest"@,
        "core_contract_index"@, "core_evidence_index"@, "policy_revision"@, "ruleset"@]
    &&& value_at(r, 0) == Json::Bool(d.allowed)
    &&& text_is(value_at(r, 1), d.reason@)
    &&& text_array(value_at(r, 2), d.refusals@.map_values(|s: String| s@))
    &&& digest_json(value_at(r, 3), d.core_subject)
    &&& digest_json(value_at(r, 4), d.core_statement)
    &&& value_at(r, 5) == match d.core_contract { Some(c) => Json::Number(c as u64), None => Json::Null }
    &&& value_at(r, 6) == match d.core_evidence { Some(e) => Json::Number(e as u64), None => Json::Null }
    &&& value_at(r, 7) == Json::Number(POLICY_REVISION as u64)
    &&& value_at(r, 8) == Json::Number(ruleset as u64)
}

impl ReleaseDecision {
    /// A decision that blocks release for the given reason.
    pub fn blocked(reason: &str) -> (r: ReleaseDecision)
        ensures
            plain_decision(r, false, reason@),
    {
        ReleaseDecision {
            allowed: false,
            reason: owned(reason),
            refusals: Vec::new(),
            core_subject: None,
            core_statement: None,
            core_contract: None,
            core_evidence: None,
        }
    }

    /// The decision as its report entry.
    pub fn json(&self, ruleset: u32) -> (r: Json)
        ensures
            decision_json(r, *self, ruleset),
    {
        let mut refusals: Vec<Json> = Vec::new();
        let mut i: usize = 0;
        while i < self.refusals.len()
            invariant
                i <= self.refusals@.len(),
                refusals@.len() == i,
                forall|k: int| 0 <= k < i ==> text_is(#[trigger] refusals@[k], self.refusals@[k]@),
            decreases self.refusals@.len() - i,
        {
            refusals.push(string(self.refusals[i].as_str()));
            i = i + 1;
        }
        let r = object(vec![
            ("allowed", Json::Bool(self.allowed)),
            ("reason", string(self.reason.as_str())),
            ("refusals", Json::Array(refusals)),
            ("core_subject_identity", hex_u64(self.core_subject)),
            ("core_statement_digest", hex_u64(self.core_statement)),
            ("core_contract_index", index_or_null(self.core_contract)),
            ("core_evidence_index", index_or_null(self.core_evidence)),
            ("policy_revision", Json::Number(POLICY_REVISION as u64)),
            ("ruleset", Json::Number(ruleset as u64)),
        ]);
        assert(keys(r) =~= seq!["allowed"@, "reason"@, "refusals"@, "core_subject_identity"@, "core_statement_digest"@,
            "core_contract_index"@, "core_evidence_index"@, "policy_revision"@, "ruleset"@]);
        r
    }
}

/// A decision that releases the artifact for the given reason.
pub fn allowed(reason: &str) -> (r: ReleaseDecision)
    ensures
        plain_decision(r, true, reason@),
{
    ReleaseDecision {
        allowed: true,
        reason: owned(reason),
        refusals: Vec::new(),
        core_subject: None,
        core_statement: None,
        core_contract: None,
        core_evidence: None,
    }
}

pub const BUILD_EVIDENCE: &'static str = "PO-17: artifact.wat is the independently accepted noble-wasm lowering of SOURCE; artifact.wasm is assembled and validated by the selected wasm-tools path.";
pub const LOADING_EVIDENCE: &'static str = "PO-18: the assembly path instantiates the module in the selected Node runtime; this command records that loading ran, not a refinement proof.";
pub const ARTIFACT_SCOPE: &'static str = "Build/loading evidence for the declared fragment only. It never establishes that emitted Wasm refines the certified semantics.";

/// The status of the artifact record for the artifact sizes known.
pub open spec fn artifact_status(wat_bytes: Option<u64>, wasm_bytes: Option<u64>) -> Seq<char> {
    match (wat_bytes, wasm_bytes) {
        (Some(_), Some(_)) => "recorded-trusted-build"@,
        (Some(_), None) => "recorded-trusted-build-without-wasm"@,
        _ => "not-recorded"@,
    }
}

/// The artifact-correspondence record (PO-17/18): always present, so that the
/// report never omits that the emitted Wasm is build evidence only.
pub fn artifact_correspondence(wat_bytes: Option<u64>, wasm_bytes: Option<u64>) -> (r: Json)
    ensures
        keys(r) == seq!["status"@, "build_evidence"@, "loading_evidence"@, "verified_backend_claimed"@, "scope"@,
            "wat_bytes"@, "wasm_bytes"@],
        text_is(value_at(r, 0), artifact_status(wat_bytes, wasm_bytes)),
        text_is(value_at(r, 1), BUILD_EVIDENCE@),
        text_is(value_at(r, 2), LOADING_EVIDENCE@),
        value_at(r, 3) == Json::Bool(false),
        text_is(value_at(r, 4), ARTIFACT_SCOPE@),
        value_at(r, 5) == match wat_bytes { Some(n) => Json::Number(n), None => Json::Null },
        value_at(r, 6) == match wasm_bytes { Some(n) => Json::Number(n), None => Json::Null },
{
    let status = match (wat_bytes, wasm_bytes) {
        (Some(_), Some(_)) => "recorded-trusted-build",
        (Some(_), None) => "recorded-trusted-build-without-wasm",
        _ => "not-recorded",
    };
    let r = object(vec![
        ("status", string(status)),
        ("build_evidence", string(BUILD_EVIDENCE)),
        ("loading_evidence", string(LOADING_EVIDENCE)),
        ("verified_backend_claimed", Json::Bool(false)),
        ("scope", string(ARTIFACT_SCOPE)),
        ("wat_bytes", number_or_null(wat_bytes)),
        ("wasm_bytes", number_or_null(wasm_bytes)),
    ]);
    assert(keys(r) =~= seq!["status"@, "build_evidence"@, "loading_evidence"@, "verified_backend_claimed"@, "scope"@,
        "wat_bytes"@, "wasm_bytes"@]);
    r
}

/// The state of a build report as the command runs.
pub struct Document {
    pub outcome: Outcome,
    pub require_proof: bool,
    pub source_path: String,
    pub contract_path: String,
    pub release: ReleaseDecision,
    pub subject: Json,
    pub statement_digest: Option<u64>,
    pub candidate_digest: Option<u64>,
    pub evidence_class: Option<&'static str>,
    pub evidence_supplied: bool,
    pub independent_recheck: bool,
    pub accepted_axioms: Option<Vec<String>>,
    pub declaration_bytes: u64,
    pub tools: Json,
    pub artifacts: Json,
    pub diagnostics: Vec<Json>,
    pub timeout_ms: u64,
    pub emitted: Option<String>,
}

pub const SUBJECT_BASIS: &'static str = "exact statement/subject digest recomputed by the deterministic core from the retained preparation; release.core_subject_identity repeats it for a released claim";
pub const STATEMENT_BASIS: &'static str = "fold over the exported Lean claim statement bytes only";
pub const EVIDENCE_CHECKS: &'static str = "isolated Lean producer plus independent consumer declaration replay; producer status text never establishes acceptance";

/// What the build leaves for other lanes.
pub open spec fn build_obligations() -> Seq<Seq<char>> {
    seq![
        "implementation refinement of the frontend and contracts core (separate Charon/Aeneas lane)"@,
        "backend correspondence between emitted Wasm and the certified fragment (not claimed here)"@,
        "runtime certified invocation and companion session operations (noble companions)"@,
    ]
}

/// What the build does not claim.
pub open spec fn non_claims() -> Seq<Seq<char>> {
    seq![
        "host/resource protocols remain open"@,
        "native async remains open"@,
        "components remain open"@,
        "general refinement inference remains open"@,
        "proof markets remain open"@,
        "portable canonical encodings remain open"@,
        "verified backend correspondence is not claimed"@,
        "general termination and whole-language preservation remain open"@,
    ]
}

/// The member names of a build report, in order.
pub open spec fn document_keys() -> Seq<Seq<char>> {
    seq![
        "schema"@, "command"@, "candidate_body_started"@, "guest_requests"@, "protected_operations"@, "outcome"@,
        "proof_required"@, "source_path"@, "contract_path"@, "release"@, "subject_identity"@,
        "claim_statement_digest"@, "evidence"@, "subject"@, "context"@, "toolchain"@, "artifact_correspondence"@,
        "outstanding_obligations"@, "non_claims"@, "diagnostics"@, "emitted"@,
    ]
}

/// Two reports agree on what the command was asked to do and on the artifact
/// record: the fields no recording step changes.
pub open spec fn same_setting(a: Document, b: Document) -> bool {
    &&& a.require_proof == b.require_proof
    &&& a.source_path == b.source_path
    &&& a.contract_path == b.contract_path
    &&& a.artifacts == b.artifacts
    &&& a.timeout_ms == b.timeout_ms
    &&& a.emitted == b.emitted
}

/// Two reports agree on the subject and the evidence recorded.
pub open spec fn same_findings(a: Document, b: Document) -> bool {
    &&& a.subject == b.subject
    &&& a.statement_digest == b.statement_digest
    &&& a.candidate_digest == b.candidate_digest
    &&& a.evidence_class == b.evidence_class
    &&& a.evidence_supplied == b.evidence_supplied
    &&& a.independent_recheck == b.independent_recheck
    &&& a.accepted_axioms == b.accepted_axioms
    &&& a.declaration_bytes == b.declaration_bytes
    &&& a.tools == b.tools
}

/// A digest entry: the digest and what it is computed over.
pub open spec fn digest_entry(j: Json, digest: Option<u64>, basis: Seq<char>) -> bool {
    &&& keys(j) == seq!["digest"@, "basis"@]
    &&& digest_json(value_at(j, 0), digest)
    &&& text_is(value_at(j, 1), basis)
}

/// The evidence entry of a build report.
pub open spec fn evidence_entry(j: Json, d: Document) -> bool {
    &&& keys(j) == seq!["supplied"@, "class"@, "independent_recheck"@, "declaration_bytes"@,
        "accepted_transitive_axioms"@, "checks"@]
    &&& value_at(j, 0) == Json::Bool(d.evidence_supplied)
    &&& optional_text(value_at(j, 1), match d.evidence_class { Some(c) => Some(c@), None => None })
    &&& value_at(j, 2) == Json::Bool(d.independent_recheck)
    &&& value_at(j, 3) == Json::Number(d.declaration_bytes)
    &&& match d.accepted_axioms {
        Some(a) => text_array(value_at(j, 4), a@.map_values(|s: String| s@)),
        None => value_at(j, 4) is Null,
    }
    &&& text_is(value_at(j, 5), EVIDENCE_CHECKS@)
}

/// A JSON array of strings.
fn string_array(values: &Vec<String>) -> (r: Json)
    ensures
        text_array(r, values@.map_values(|s: String| s@)),
{
    let mut out: Vec<Json> = Vec::new();
    let mut i: usize = 0;
    while i < values.len()
        invariant
            i <= values@.len(),
            out@.len() == i,
            forall|k: int| 0 <= k < i ==> text_is(#[trigger] out@[k], values@[k]@),
        decreases values@.len() - i,
    {
        out.push(string(values[i].as_str()));
        i = i + 1;
    }
    Json::Array(out)
}

/// A JSON array of string literals.
fn literal_array(values: &[&str]) -> (r: Json)
    ensures
        text_array(r, values@.map_values(|s: &str| s@)),
{
    let r = crate::json::strings(values);
    proof {
        let items = r->Array_0@;
        assert forall|i: int| 0 <= i < values@.len() implies text_is(#[trigger] items[i], values@.map_values(|s: &str| s@)[i]) by {
            assert(text_is(items[i], values@[i]@));
        }
    }
    r
}

impl Document {
    /// A report of a build that has done nothing yet.
    pub fn new() -> (r: Document)
        ensures
            r.outcome == Outcome::NotRun,
            !r.require_proof,
            r.source_path@.len() == 0 && r.contract_path@.len() == 0,
            plain_decision(r.release, false, "no evidence was offered"@),
            r.subject is Null,
            r.statement_digest is None && r.candidate_digest is None,
            r.evidence_class is None,
            !r.evidence_supplied && !r.independent_recheck,
            r.accepted_axioms is None,
            r.declaration_bytes == 0,
            r.tools is Null,
            keys(r.artifacts) == seq!["status"@, "build_evidence"@, "loading_evidence"@, "verified_backend_claimed"@,
                "scope"@, "wat_bytes"@, "wasm_bytes"@],
            text_is(value_at(r.artifacts, 0), "not-recorded"@),
            r.diagnostics@.len() == 0,
            r.timeout_ms == DEFAULT_TIMEOUT,
            r.emitted is None,
    {
        Document {
            outcome: Outcome::NotRun,
            require_proof: false,
            source_path: String::new(),
            contract_path: String::new(),
            release: ReleaseDecision::blocked("no evidence was offered"),
            subject: Json::Null,
            statement_digest: None,
            candidate_digest: None,
            evidence_class: None,
            evidence_supplied: false,
            independent_recheck: false,
            accepted_axioms: None,
            declaration_bytes: 0,
            tools: Json::Null,
            artifacts: artifact_correspondence(None, None),
            diagnostics: Vec::new(),
            timeout_ms: DEFAULT_TIMEOUT,
            emitted: None,
        }
    }

    /// Records a failure: its outcome becomes the build's, release is
    /// blocked, and its diagnostic is appended.
    pub fn fail(&mut self, error: Failure)
        ensures
            final(self).outcome == error.outcome,
            plain_decision(final(self).release, false, "the build failed"@),
            final(self).diagnostics@.len() == old(self).diagnostics@.len() + 1,
            final(self).diagnostics@.subrange(0, old(self).diagnostics@.len() as int) == old(self).diagnostics@,
            failure_json(final(self).diagnostics@.last(), error.code@, error.message@, error.details),
            same_setting(*final(self), *old(self)),
            same_findings(*final(self), *old(self)),
    {
        self.outcome = error.outcome;
        self.release = ReleaseDecision::blocked("the build failed");
        let ghost before = self.diagnostics@;
        self.diagnostics.push(error.json());
        assert(self.diagnostics@.subrange(0, before.len() as int) =~= before);
    }

    /// Records the evidence file offered, if any: its size and its class.
    pub fn record_offer(&mut self, evidence_bytes: Option<u64>, is_refutation: bool)
        ensures
            final(self).evidence_supplied == evidence_bytes is Some,
            final(self).declaration_bytes == match evidence_bytes { Some(n) => n, None => 0 },
            match evidence_bytes {
                None => final(self).evidence_class is None,
                Some(_) => final(self).evidence_class matches Some(c)
                    && c@ == if is_refutation { CLASS_REFUTATION@ } else { CLASS_PROOF@ },
            },
            final(self).outcome == old(self).outcome,
            final(self).diagnostics == old(self).diagnostics,
            final(self).release == old(self).release,
            final(self).subject == old(self).subject,
            final(self).statement_digest == old(self).statement_digest,
            final(self).candidate_digest == old(self).candidate_digest,
            final(self).independent_recheck == old(self).independent_recheck,
            final(self).accepted_axioms == old(self).accepted_axioms,
            final(self).tools == old(self).tools,
            same_setting(*final(self), *old(self)),
    {
        self.evidence_supplied = evidence_bytes.is_some();
        self.declaration_bytes = match evidence_bytes {
            Some(n) => n,
            None => 0,
        };
        self.evidence_class = match evidence_bytes {
            None => None,
            Some(_) => if is_refutation { Some(CLASS_REFUTATION) } else { Some(CLASS_PROOF) },
        };
    }

    /// Records that the consumer refused the contract or its evidence.
    pub fn record_refusal(&mut self, refusal: &Refusal)
        ensures
            final(self).outcome == refusal.outcome,
            final(self).diagnostics@.len() == old(self).diagnostics@.len() + 1,
            final(self).diagnostics@.subrange(0, old(self).diagnostics@.len() as int) == old(self).diagnostics@,
            failure_json(final(self).diagnostics@.last(), refusal.code@, refusal.message@, refusal.details),
            plain_decision(final(self).release, false, "the consumer did not accept a claim about the exact subject"@),
            same_setting(*final(self), *old(self)),
            same_findings(*final(self), *old(self)),
    {
        self.outcome = refusal.outcome;
        let ghost before = self.diagnostics@;
        self.diagnostics.push(refusal_json(refusal));
        assert(self.diagnostics@.subrange(0, before.len() as int) =~= before);
        self.release = ReleaseDecision::blocked("the consumer did not accept a claim about the exact subject");
    }

    /// Records the admitted contract: its subject description, the fold of
    /// its exported statement, the core's digest of it, and any evidence
    /// the consumer accepted.
    pub fn record_application(&mut self, subject: Json, statement: &[u8], candidate_digest: u64, evidence: Option<Evidence>)
        ensures
            final(self).subject == subject,
            final(self).statement_digest == Some(fold_spec(FNV_OFFSET, statement@)),
            final(self).candidate_digest == Some(candidate_digest),
            match evidence {
                Some(e) => final(self).independent_recheck && final(self).tools == e.tools
                    && final(self).accepted_axioms == Some(e.axioms),
                None => final(self).independent_recheck == old(self).independent_recheck
                    && final(self).tools == old(self).tools && final(self).accepted_axioms == old(self).accepted_axioms,
            },
            final(self).outcome == old(self).outcome,
            final(self).diagnostics == old(self).diagnostics,
            final(self).release == old(self).release,
            final(self).evidence_class == old(self).evidence_class,
            final(self).evidence_supplied == old(self).evidence_supplied,
            final(self).declaration_bytes == old(self).declaration_bytes,
            same_setting(*final(self), *old(self)),
    {
        self.subject = subject;
        self.statement_digest = Some(statement_fold(statement));
        self.candidate_digest = Some(candidate_digest);
        match evidence {
            Some(checked) => {
                self.independent_recheck = true;
                self.tools = checked.tools;
                self.accepted_axioms = Some(checked.axioms);
            },
            None => {},
        }
    }

    /// No evidence was offered: nothing ran, and release follows whether a
    /// proof is required.
    pub fn record_without_evidence(&mut self, require_proof: bool)
        ensures
            final(self).outcome == Outcome::NotRun,
            require_proof ==> plain_decision(final(self).release, false, "proof required but no evidence offer was supplied"@),
            !require_proof ==> plain_decision(final(self).release, true, "permissive build; no proof was required"@),
            final(self).diagnostics == old(self).diagnostics,
            same_setting(*final(self), *old(self)),
            same_findings(*final(self), *old(self)),
    {
        self.outcome = Outcome::NotRun;
        self.release = if require_proof {
            ReleaseDecision::blocked("proof required but no evidence offer was supplied")
        } else {
            allowed("permissive build; no proof was required")
        };
    }

    /// The complete build report; `ruleset` is the core's rule-set version.
    pub fn json(&self, ruleset: u32) -> (r: Json)
        ensures
            keys(r) == document_keys(),
            text_is(value_at(r, 0), "noble-mc2-build/v1"@),
            text_is(value_at(r, 1), "build"@),
            value_at(r, 2) == Json::Bool(false),
            value_at(r, 3) == Json::Number(0),
            value_at(r, 4) == Json::Number(0),
            text_is(value_at(r, 5), self.outcome.spec_name()),
            value_at(r, 6) == Json::Bool(self.require_proof),
            text_is(value_at(r, 7), self.source_path@),
            text_is(value_at(r, 8), self.contract_path@),
            decision_json(value_at(r, 9), self.release, ruleset),
            digest_entry(value_at(r, 10), self.candidate_digest, SUBJECT_BASIS@),
            digest_entry(value_at(r, 11), self.statement_digest, STATEMENT_BASIS@),
            evidence_entry(value_at(r, 12), *self),
            encoded(value_at(r, 13)) == encoded(self.subject),
            keys(value_at(r, 14)) == seq!["policy_revision"@, "ruleset"@],
            value_at(value_at(r, 14), 0) == Json::Number(POLICY_REVISION as u64),
            value_at(value_at(r, 14), 1) == Json::Number(ruleset as u64),
            encoded(value_at(r, 15)) == encoded(self.tools),
            encoded(value_at(r, 16)) == encoded(self.artifacts),
            text_array(value_at(r, 17), build_obligations()),
            text_array(value_at(r, 18), non_claims()),
            value_at(r, 19) matches Json::Array(items) && same_values(items@, self.diagnostics@),
            optional_text(value_at(r, 20), text_view(self.emitted)),
    {
        let subject_identity = object(vec![("digest", hex_u64(self.candidate_digest)), ("basis", string(SUBJECT_BASIS))]);
        assert(keys(subject_identity) =~= seq!["digest"@, "basis"@]);
        let claim_digest = object(vec![("digest", hex_u64(self.statement_digest)), ("basis", string(STATEMENT_BASIS))]);
        assert(keys(claim_digest) =~= seq!["digest"@, "basis"@]);
        let axioms = match &self.accepted_axioms {
            Some(a) => string_array(a),
            None => Json::Null,
        };
        let evidence = object(vec![
            ("supplied", Json::Bool(self.evidence_supplied)),
            ("class", optional_string(self.evidence_class)),
            ("independent_recheck", Json::Bool(self.independent_recheck)),
            ("declaration_bytes", Json::Number(self.declaration_bytes)),
            ("accepted_transitive_axioms", axioms),
            ("checks", string(EVIDENCE_CHECKS)),
        ]);
        assert(keys(evidence) =~= seq!["supplied"@, "class"@, "independent_recheck"@, "declaration_bytes"@,
            "accepted_transitive_axioms"@, "checks"@]);
        let context = object(vec![
            ("policy_revision", Json::Number(POLICY_REVISION as u64)),
            ("ruleset", Json::Number(ruleset as u64)),
        ]);
        assert(keys(context) =~= seq!["policy_revision"@, "ruleset"@]);
        let obligations = literal_array(&[
            "implementation refinement of the frontend and contracts core (separate Charon/Aeneas lane)",
            "backend correspondence between emitted Wasm and the certified fragment (not claimed here)",
            "runtime certified invocation and companion session operations (noble companions)",
        ]);
        let claims = literal_array(&[
            "host/resource protocols remain open",
            "native async remains open",
            "components remain open",
            "general refinement inference remains open",
            "proof markets remain open",
            "portable canonical encodings remain open",
            "verified backend correspondence is not claimed",
            "general termination and whole-language preservation remain open",
        ]);
        let emitted = match &self.emitted {
            Some(e) => string(e.as_str()),
            None => Json::Null,
        };
        let r = object(vec![
            ("schema", string("noble-mc2-build/v1")),
            ("command", string("build")),
            ("candidate_body_started", Json::Bool(false)),
            ("guest_requests", Json::Number(0)),
            ("protected_operations", Json::Number(0)),
            ("outcome", string(self.outcome.name())),
            ("proof_required", Json::Bool(self.require_proof)),
            ("source_path", string(self.source_path.as_str())),
            ("contract_path", string(self.contract_path.as_str())),
            ("release", self.release.json(ruleset)),
            ("subject_identity", subject_identity),
            ("claim_statement_digest", claim_digest),
            ("evidence", evidence),
            ("subject", self.subject.copy()),
            ("context", context),
            ("toolchain", self.tools.copy()),
            ("artifact_correspondence", self.artifacts.copy()),
            ("outstanding_obligations", obligations),
            ("non_claims", claims),
            ("diagnostics", Json::Array(copy_all(&self.diagnostics))),
            ("emitted", emitted),
        ]);
        assert(keys(r) =~= document_keys());
        r
    }
}

/// The deterministic core's outcome of an admission.
#[derive(Clone, Copy, PartialEq, Eq, Structural, Debug)]
pub enum ClaimOutcome {
    Proved,
    Disproved,
    Unknown,
    Timeout,
    Unsupported,
    Error,
    NotRun,
}

/// The report outcome of a core outcome.
pub open spec fn report_outcome(o: ClaimOutcome) -> Outcome {
    match o {
        ClaimOutcome::Proved => Outcome::Proved,
        ClaimOutcome::Disproved => Outcome::Disproved,
        ClaimOutcome::Unknown => Outcome::Unknown,
        ClaimOutcome::Timeout => Outcome::Timeout,
        ClaimOutcome::Unsupported => Outcome::Unsupported,
        ClaimOutcome::Error => Outcome::Error,
        ClaimOutcome::NotRun => Outcome::NotRun,
    }
}

/// The name the deterministic core gives each of its outcomes.
pub open spec fn claim_name(o: ClaimOutcome) -> Seq<char> {
    match o {
        ClaimOutcome::Proved => "proved"@,
        ClaimOutcome::Disproved => "disproved"@,
        ClaimOutcome::Unknown => "unknown"@,
        ClaimOutcome::Timeout => "timeout"@,
        ClaimOutcome::Unsupported => "unsupported"@,
        ClaimOutcome::Error => "error"@,
        ClaimOutcome::NotRun => "not-run"@,
    }
}

/// The build report keeps the core's outcome: the report names every core
/// outcome by its own name, so no two core outcomes are reported alike.
pub proof fn law_report_keeps_core_outcome(o: ClaimOutcome, p: ClaimOutcome)
    ensures
        report_outcome(o).spec_name() == claim_name(o),
        report_outcome(o) == report_outcome(p) ==> o == p,
{
    reveal_strlit("proved");
    reveal_strlit("disproved");
    reveal_strlit("unknown");
    reveal_strlit("timeout");
    reveal_strlit("unsupported");
    reveal_strlit("error");
    reveal_strlit("not-run");
}

pub fn outcome_of(o: ClaimOutcome) -> (r: Outcome)
    ensures
        r == report_outcome(o),
{
    match o {
        ClaimOutcome::Proved => Outcome::Proved,
        ClaimOutcome::Disproved => Outcome::Disproved,
        ClaimOutcome::Unknown => Outcome::Unknown,
        ClaimOutcome::Timeout => Outcome::Timeout,
        ClaimOutcome::Unsupported => Outcome::Unsupported,
        ClaimOutcome::Error => Outcome::Error,
        ClaimOutcome::NotRun => Outcome::NotRun,
    }
}

/// The core's admission decision: its outcome (and that outcome's code),
/// the codes of its refusals, and the contract and evidence it retained.
pub struct Admission {
    pub outcome: ClaimOutcome,
    pub code: String,
    pub refusals: Vec<String>,
    pub contract: Option<u32>,
    pub evidence: Option<u32>,
}

/// Binding accepted evidence to the compiled artifact: the released
/// identities, or the code of the core's refusal.
pub enum Binding {
    Released { subject: u64, statement: u64, contract: u32, evidence: u32 },
    Refused(String),
}

/// The evidence to bind before release: that of a proved admission.
pub fn needs_binding(admission: &Admission) -> (r: Option<u32>)
    ensures
        r == (if admission.outcome == ClaimOutcome::Proved { admission.evidence } else { None }),
{
    if admission.outcome == ClaimOutcome::Proved {
        admission.evidence
    } else {
        None
    }
}

/// The codes of a list of refusals.
pub open spec fn codes(v: Seq<String>) -> Seq<Seq<char>> {
    v.map_values(|s: String| s@)
}

impl Document {
    /// Records the core's admission decision and, for a proved claim, the
    /// binding of its evidence to the artifact: release only for an
    /// applicable accepted proved claim.
    pub fn record_admission(&mut self, admission: Admission, binding: Option<Binding>)
        requires
            admission.outcome == ClaimOutcome::Proved && admission.evidence is Some ==> binding is Some,
        ensures
            admission.outcome != ClaimOutcome::Proved ==> {
                &&& final(self).outcome == report_outcome(admission.outcome)
                &&& !final(self).release.allowed
                &&& final(self).release.reason@ == "release requires an applicable accepted proved claim; the core reported `"@
                    + admission.code@ + "`"@
                &&& codes(final(self).release.refusals@) == codes(admission.refusals@)
                &&& final(self).release.core_subject is None && final(self).release.core_statement is None
                &&& final(self).release.core_contract == admission.contract
                &&& final(self).release.core_evidence == admission.evidence
                &&& final(self).diagnostics == old(self).diagnostics
            },
            admission.outcome == ClaimOutcome::Proved && admission.evidence is None ==> {
                &&& final(self).outcome == Outcome::Proved
                &&& !final(self).release.allowed
                &&& final(self).release.reason@ == "admission reported proved without an accepted evidence entry"@
                &&& codes(final(self).release.refusals@) == codes(admission.refusals@)
                &&& final(self).release.core_subject is None && final(self).release.core_statement is None
                &&& final(self).release.core_contract == admission.contract
                &&& final(self).release.core_evidence is None
                &&& final(self).diagnostics == old(self).diagnostics
            },
            admission.outcome == ClaimOutcome::Proved && admission.evidence is Some ==> match binding {
                Some(Binding::Released { subject, statement, contract, evidence }) => {
                    &&& final(self).outcome == Outcome::Proved
                    &&& final(self).release.allowed
                    &&& final(self).release.reason@ == "independently checked evidence binds the compiled subject, claim, context and policy revision "@
                        + decimal(POLICY_REVISION as nat)
                    &&& codes(final(self).release.refusals@) == codes(admission.refusals@)
                    &&& final(self).release.core_subject == Some(subject)
                    &&& final(self).release.core_statement == Some(statement)
                    &&& final(self).release.core_contract == Some(contract)
                    &&& final(self).release.core_evidence == Some(evidence)
                    &&& final(self).diagnostics == old(self).diagnostics
                },
                Some(Binding::Refused(code)) => {
                    &&& final(self).outcome == Outcome::Unknown
                    &&& !final(self).release.allowed
                    &&& final(self).release.reason@ == "admitted evidence is not applicable to the exact subject, claim or current policy revision: "@ + code@
                    &&& codes(final(self).release.refusals@) == codes(admission.refusals@).push(code@)
                    &&& final(self).release.core_subject is None
                    &&& final(self).release.core_statement == old(self).statement_digest
                    &&& final(self).release.core_contract == admission.contract
                    &&& final(self).release.core_evidence == admission.evidence
                    &&& final(self).diagnostics@.len() == old(self).diagnostics@.len() + 1
                    &&& final(self).diagnostics@.subrange(0, old(self).diagnostics@.len() as int) == old(self).diagnostics@
                    &&& keys(final(self).diagnostics@.last()) == seq!["code"@, "message"@]
                    &&& text_is(value_at(final(self).diagnostics@.last(), 0), code@)
                    &&& text_is(value_at(final(self).diagnostics@.last(), 1),
                        "the compiled artifact does not satisfy the accepted evidence binding"@)
                },
                None => false,
            },
            final(self).release.allowed ==> admission.outcome == ClaimOutcome::Proved && admission.evidence is Some
                && binding matches Some(Binding::Released { .. }),
            same_setting(*final(self), *old(self)),
            same_findings(*final(self), *old(self)),
    {
        self.outcome = outcome_of(admission.outcome);
        let Admission { outcome, code, refusals, contract, evidence } = admission;
        if outcome == ClaimOutcome::Proved {
            match evidence {
                None => {
                    self.release = ReleaseDecision {
                        allowed: false,
                        reason: owned("admission reported proved without an accepted evidence entry"),
                        refusals,
                        core_subject: None,
                        core_statement: None,
                        core_contract: contract,
                        core_evidence: None,
                    };
                },
                Some(e) => match binding {
                    Some(Binding::Released { subject, statement, contract: bound_contract, evidence: bound_evidence }) => {
                        let mut reason = owned("independently checked evidence binds the compiled subject, claim, context and policy revision ");
                        append_decimal(POLICY_REVISION as u64, &mut reason);
                        self.release = ReleaseDecision {
                            allowed: true,
                            reason,
                            refusals,
                            core_subject: Some(subject),
                            core_statement: Some(statement),
                            core_contract: Some(bound_contract),
                            core_evidence: Some(bound_evidence),
                        };
                    },
                    Some(Binding::Refused(refused_code)) => {
                        let mut refused = refusals;
                        let ghost before = codes(refused@);
                        refused.push(owned(refused_code.as_str()));
                        assert(codes(refused@) =~= before.push(refused_code@));
                        self.outcome = Outcome::Unknown;
                        let diagnostic = object(vec![
                            ("code", string(refused_code.as_str())),
                            ("message", string("the compiled artifact does not satisfy the accepted evidence binding")),
                        ]);
                        assert(keys(diagnostic) =~= seq!["code"@, "message"@]);
                        let ghost prior = self.diagnostics@;
                        self.diagnostics.push(diagnostic);
                        assert(self.diagnostics@.subrange(0, prior.len() as int) =~= prior);
                        let mut reason = owned("admitted evidence is not applicable to the exact subject, claim or current policy revision: ");
                        push_text(&mut reason, refused_code.as_str());
                        self.release = ReleaseDecision {
                            allowed: false,
                            reason,
                            refusals: refused,
                            core_subject: None,
                            core_statement: self.statement_digest,
                            core_contract: contract,
                            core_evidence: Some(e),
                        };
                    },
                    None => {},
                },
            }
        } else {
            let mut reason = owned("release requires an applicable accepted proved claim; the core reported `");
            push_text(&mut reason, code.as_str());
            push_text(&mut reason, "`");
            self.release = ReleaseDecision {
                allowed: false,
                reason,
                refusals,
                core_subject: None,
                core_statement: None,
                core_contract: contract,
                core_evidence: evidence,
            };
        }
    }
}

/// The evidence offer a build hands to admission: a non-empty evidence file,
/// as a proof or a refutation; an empty or absent file offers nothing.
pub fn build_offer(evidence: &Option<Vec<u8>>, is_refutation: bool) -> (r: Option<(&[u8], bool)>)
    ensures
        match evidence {
            Some(bytes) => if bytes@.len() > 0 {
                r matches Some((b, refutes)) && b@ == bytes@ && refutes == is_refutation
            } else {
                r is None
            },
            None => r is None,
        },
{
    match evidence {
        Some(bytes) => if bytes.len() > 0 {
            Some((bytes.as_slice(), is_refutation))
        } else {
            None
        },
        None => None,
    }
}

/// An artifact source the frontend would not prepare: an exhausted budget is
/// inconclusive, anything else an error. `kind_name` is the diagnostic
/// kind's printed name.
pub fn source_refused(kind: crate::session::DiagnosticKind, kind_name: &str) -> (r: Failure)
    ensures
        kind == crate::session::DiagnosticKind::Exhausted ==> r.outcome == Outcome::Unknown && r.code@ == "preparation-exhausted"@,
        kind != crate::session::DiagnosticKind::Exhausted ==> r.outcome == Outcome::Error && r.code@ == "artifact-source"@,
        r.message@ == "artifact source not accepted: "@ + kind_name@,
        r.details is Null,
{
    let mut message = owned("artifact source not accepted: ");
    push_text(&mut message, kind_name);
    let mut failure = Failure::error("artifact-source", message);
    match kind {
        crate::session::DiagnosticKind::Exhausted => {
            failure.outcome = Outcome::Unknown;
            failure.code = "preparation-exhausted";
        },
        _ => {},
    }
    failure
}

/// An artifact source that defines rather than computes.
pub fn definition_refused() -> (r: Failure)
    ensures
        crate::sandbox::failed(r, Outcome::Error, "artifact-source"@, "artifact source is a definition, not an expression"@),
{
    Failure::error("artifact-source", owned("artifact source is a definition, not an expression"))
}

/// An artifact source the independent compiler rejected: an exhausted
/// budget is inconclusive, anything else an error.
pub fn lowering_refused(error: crate::session::BackendDiagnostic) -> (r: Failure)
    ensures
        error == crate::session::BackendDiagnostic::Exhausted ==> r.outcome == Outcome::Unknown && r.code@ == "preparation-exhausted"@,
        error != crate::session::BackendDiagnostic::Exhausted ==> r.outcome == Outcome::Error && r.code@ == "artifact-lowering"@,
        r.message@ == "the independent compiler rejected the artifact source"@,
        r.details is Null,
{
    let mut failure = Failure::error("artifact-lowering", owned("the independent compiler rejected the artifact source"));
    match error {
        crate::session::BackendDiagnostic::Exhausted => {
            failure.outcome = Outcome::Unknown;
            failure.code = "preparation-exhausted";
        },
        _ => {},
    }
    failure
}

/// An artifact the worker could not assemble.
pub fn assembly_refused(message: String) -> (r: Failure)
    ensures
        r.outcome == Outcome::Unsupported && r.code@ == "artifact-assembly"@ && r.message == message && r.details is Null,
{
    Failure::unsupported("artifact-assembly", message)
}

} // verus!
