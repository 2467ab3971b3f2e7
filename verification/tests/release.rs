use lib::admission::{Evidence, Refusal};
use lib::artifacts::{
    build_files, byte_limit, emitted_files, finish_slot, guest_path, output_mounts, output_slots, read_mount, within_limit,
    SlotFate,
};
use lib::build_report::{
    allowed, artifact_correspondence, needs_binding, number_or_null, outcome_of, Admission, Binding, ClaimOutcome, Document,
    ReleaseDecision, CLASS_PROOF, CLASS_REFUTATION,
};
use lib::json::{string, Json};
use lib::build_report::{assembly_refused, build_offer, definition_refused, lowering_refused, source_refused};
use lib::outcome::{Failure, Outcome};
use lib::process::{launch_failure, missing_pipe, output_failure, output_limit, room_for, wait_failure, watch, Watch};
use lib::session::{BackendDiagnostic, DiagnosticKind};
use lib::session::{ErrorContext, Failure as EngineFailure, Report as EngineReport};
use lib::worker::{accept_reply, closed, configuration, header, ready, Request};

fn admission(outcome: ClaimOutcome, code: &str, evidence: Option<u32>) -> Admission {
    Admission {
        outcome,
        code: code.to_string(),
        refusals: vec!["first".to_string()],
        contract: Some(4),
        evidence,
    }
}

#[test]
fn release_decisions_as_entries() {
    let d = ReleaseDecision::blocked("no");
    assert!(!d.allowed);
    assert_eq!(
        d.json(3).encode(),
        r#"{"allowed":false,"reason":"no","refusals":[],"core_subject_identity":null,"core_statement_digest":null,"core_contract_index":null,"core_evidence_index":null,"policy_revision":1,"ruleset":3}"#
    );
    let a = allowed("yes");
    assert!(a.allowed);
    assert_eq!(a.reason, "yes");
    let full = ReleaseDecision {
        allowed: true,
        reason: "r".to_string(),
        refusals: vec!["x".to_string(), "y".to_string()],
        core_subject: Some(0xab),
        core_statement: Some(1),
        core_contract: Some(2),
        core_evidence: Some(3),
    };
    assert_eq!(
        full.json(0).encode(),
        r#"{"allowed":true,"reason":"r","refusals":["x","y"],"core_subject_identity":"00000000000000ab","core_statement_digest":"0000000000000001","core_contract_index":2,"core_evidence_index":3,"policy_revision":1,"ruleset":0}"#
    );
    assert!(matches!(number_or_null(None), Json::Null));
    assert_eq!(number_or_null(Some(5)).encode(), "5");
}

#[test]
fn artifact_record_statuses() {
    let both = artifact_correspondence(Some(10), Some(20)).encode();
    assert!(both.starts_with(r#"{"status":"recorded-trusted-build","build_evidence":"PO-17: "#));
    assert!(both.ends_with(r#""verified_backend_claimed":false,"scope":"Build/loading evidence for the declared fragment only. It never establishes that emitted Wasm refines the certified semantics.","wat_bytes":10,"wasm_bytes":20}"#));
    let wat = artifact_correspondence(Some(10), None).encode();
    assert!(wat.starts_with(r#"{"status":"recorded-trusted-build-without-wasm""#));
    assert!(wat.ends_with(r#""wat_bytes":10,"wasm_bytes":null}"#));
    let none = artifact_correspondence(None, Some(3)).encode();
    assert!(none.starts_with(r#"{"status":"not-recorded""#));
}

#[test]
fn a_new_build_document() {
    let d = Document::new();
    assert_eq!(d.outcome, Outcome::NotRun);
    assert!(!d.release.allowed);
    assert_eq!(d.release.reason, "no evidence was offered");
    let text = d.json(2).encode();
    assert!(text.starts_with(
        r#"{"schema":"noble-mc2-build/v1","command":"build","candidate_body_started":false,"guest_requests":0,"protected_operations":0,"outcome":"not-run","proof_required":false,"source_path":"","contract_path":"","release":{"allowed":false,"reason":"no evidence was offered""#
    ));
    assert!(text.contains(r#""evidence":{"supplied":false,"class":null,"independent_recheck":false,"declaration_bytes":0,"accepted_transitive_axioms":null,"#));
    assert!(text.contains(r#""context":{"policy_revision":1,"ruleset":2}"#));
    assert!(text.contains(r#""subject_identity":{"digest":null,"#));
    assert!(text.ends_with(r#""diagnostics":[],"emitted":null}"#));
    assert!(text.contains(
        r#""release":{"allowed":false,"reason":"no evidence was offered","refusals":[],"core_subject_identity":null,"core_statement_digest":null,"core_contract_index":null,"core_evidence_index":null,"policy_revision":1,"ruleset":2},"#
    ));
    assert!(text.contains(&format!(r#""release":{},"#, d.release.json(2).encode())));
}

#[test]
fn offers_failures_and_refusals() {
    let mut d = Document::new();
    d.record_offer(Some(12), true);
    assert!(d.evidence_supplied);
    assert_eq!(d.declaration_bytes, 12);
    assert_eq!(d.evidence_class, Some(CLASS_REFUTATION));
    d.record_offer(Some(1), false);
    assert_eq!(d.evidence_class, Some(CLASS_PROOF));
    d.record_offer(None, false);
    assert!(!d.evidence_supplied);
    assert_eq!(d.evidence_class, None);
    d.source_path = "s.noble".to_string();
    d.fail(Failure::error("x", "y".to_string()));
    assert_eq!(d.outcome, Outcome::Error);
    assert_eq!(d.source_path, "s.noble");
    assert_eq!(d.declaration_bytes, 0);
    assert_eq!(d.release.reason, "the build failed");
    let r = Refusal::new(Outcome::Unknown, "missing", "m".to_string());
    d.record_refusal(&r);
    assert_eq!(d.outcome, Outcome::Unknown);
    assert_eq!(d.release.reason, "the consumer did not accept a claim about the exact subject");
    assert_eq!(d.diagnostics.len(), 2);
    assert_eq!(d.diagnostics[1].encode(), r#"{"code":"missing","message":"m","details":null}"#);
}

#[test]
fn applications_and_missing_evidence() {
    let mut d = Document::new();
    d.record_application(string("s"), b"a", 9, Some(Evidence { axioms: vec!["propext".to_string()], tools: string("t") }));
    assert_eq!(d.statement_digest, Some(0xaf63dc4c8601ec8c));
    assert_eq!(d.candidate_digest, Some(9));
    assert!(d.independent_recheck);
    let text = d.json(1).encode();
    assert!(text.contains(r#""subject_identity":{"digest":"0000000000000009","#));
    assert!(text.contains(r#""claim_statement_digest":{"digest":"af63dc4c8601ec8c","#));
    assert!(text.contains(r#""accepted_transitive_axioms":["propext"]"#));
    assert!(text.contains(r#""toolchain":"t""#));
    let mut p = Document::new();
    p.record_without_evidence(true);
    assert!(!p.release.allowed);
    assert_eq!(p.release.reason, "proof required but no evidence offer was supplied");
    let mut q = Document::new();
    q.record_without_evidence(false);
    assert!(q.release.allowed);
    assert_eq!(q.release.reason, "permissive build; no proof was required");
}

#[test]
fn admissions_release_only_bound_proofs() {
    let mut d = Document::new();
    d.record_admission(admission(ClaimOutcome::Unknown, "exhausted-replay", None), None);
    assert_eq!(d.outcome, Outcome::Unknown);
    assert!(!d.release.allowed);
    assert_eq!(d.release.reason, "release requires an applicable accepted proved claim; the core reported `exhausted-replay`");
    assert_eq!(d.release.refusals, vec!["first".to_string()]);
    assert_eq!(d.release.core_contract, Some(4));

    let mut d = Document::new();
    d.record_admission(admission(ClaimOutcome::Proved, "proved", None), None);
    assert_eq!(d.outcome, Outcome::Proved);
    assert!(!d.release.allowed);
    assert_eq!(d.release.reason, "admission reported proved without an accepted evidence entry");

    let mut d = Document::new();
    d.record_admission(
        admission(ClaimOutcome::Proved, "proved", Some(6)),
        Some(Binding::Released { subject: 1, statement: 2, contract: 3, evidence: 6 }),
    );
    assert_eq!(d.outcome, Outcome::Proved);
    assert!(d.release.allowed);
    assert_eq!(
        d.release.reason,
        "independently checked evidence binds the compiled subject, claim, context and policy revision 1"
    );
    assert_eq!((d.release.core_subject, d.release.core_statement), (Some(1), Some(2)));
    assert_eq!((d.release.core_contract, d.release.core_evidence), (Some(3), Some(6)));

    let mut d = Document::new();
    d.record_application(Json::Null, b"a", 0, None);
    d.record_admission(admission(ClaimOutcome::Proved, "proved", Some(6)), Some(Binding::Refused("stale-context".to_string())));
    assert_eq!(d.outcome, Outcome::Unknown);
    assert!(!d.release.allowed);
    assert_eq!(
        d.release.reason,
        "admitted evidence is not applicable to the exact subject, claim or current policy revision: stale-context"
    );
    assert_eq!(d.release.refusals, vec!["first".to_string(), "stale-context".to_string()]);
    assert_eq!(d.release.core_statement, Some(0xaf63dc4c8601ec8c));
    assert_eq!(
        d.diagnostics.last().unwrap().encode(),
        r#"{"code":"stale-context","message":"the compiled artifact does not satisfy the accepted evidence binding"}"#
    );
}

#[test]
fn outcomes_and_bindings() {
    assert_eq!(outcome_of(ClaimOutcome::Proved), Outcome::Proved);
    assert_eq!(outcome_of(ClaimOutcome::Disproved), Outcome::Disproved);
    assert_eq!(outcome_of(ClaimOutcome::Timeout), Outcome::Timeout);
    assert_eq!(outcome_of(ClaimOutcome::NotRun), Outcome::NotRun);
    assert_eq!(needs_binding(&admission(ClaimOutcome::Proved, "", Some(2))), Some(2));
    assert_eq!(needs_binding(&admission(ClaimOutcome::Proved, "", None)), None);
    assert_eq!(needs_binding(&admission(ClaimOutcome::Error, "", Some(2))), None);
}

#[test]
fn mounts_and_slots() {
    let m = read_mount("/h", "/g");
    assert_eq!((m.host.as_str(), m.guest.as_str(), m.writable), ("/h", "/g", false));
    assert_eq!(guest_path("/work", "A.lean"), "/work/A.lean");
    let slots = output_slots("Proof");
    assert_eq!(slots, vec!["Proof.olean", "Proof.ir", "Proof.olean.server", "Proof.olean.private"]);
    let mounts = output_mounts(vec![read_mount("/a", "/b")], "/out", &slots[..2], "/lib");
    assert_eq!(mounts.len(), 3);
    assert_eq!((mounts[0].host.as_str(), mounts[0].writable), ("/a", false));
    assert_eq!((mounts[1].host.as_str(), mounts[1].guest.as_str(), mounts[1].writable), ("/out/Proof.olean", "/lib/Proof.olean", true));
    assert_eq!(mounts[2].guest, "/lib/Proof.ir");
}

#[test]
fn finished_slots_and_limits() {
    assert_eq!(finish_slot(true, true, 5).ok(), Some(SlotFate::Keep));
    assert_eq!(finish_slot(false, true, 0).ok(), Some(SlotFate::Remove));
    let f = finish_slot(true, true, 0).err().unwrap();
    assert_eq!((f.code, f.message.as_str()), ("proof-artifact", "Lean exited without producing its object file"));
    let f = finish_slot(false, false, 1).err().unwrap();
    assert_eq!(f.message, "invalid or oversized Lean artifact");
    assert!(finish_slot(false, true, 33_554_433).is_err());
    assert!(finish_slot(false, true, 33_554_432).is_ok());
    let f = byte_limit("proof", 10);
    assert_eq!((f.outcome, f.code, f.message.as_str()), (Outcome::Error, "input-byte-limit", "proof exceeds 10 bytes"));
    assert!(within_limit("source", 4, 4).is_ok());
    let f = within_limit("source", 4, 5).err().unwrap();
    assert_eq!(f.message, "source exceeds 4 bytes");
}

#[test]
fn emission_file_lists() {
    assert_eq!(
        emitted_files(true, true, true, true),
        vec!["contract.noble", "MC1Obligation.lean", "MC1Proof.lean", "MC1Proof.json"]
    );
    assert_eq!(emitted_files(false, true, false, true), vec!["MC1Obligation.lean", "MC1Proof.json"]);
    assert!(emitted_files(false, false, false, false).is_empty());
    assert_eq!(
        build_files(true, true, true, true, true),
        vec!["contract.noble", "wrapper.noble", "artifact.wat", "artifact.wasm", "proof.lean"]
    );
    assert_eq!(build_files(false, true, true, true, true), vec!["contract.noble", "proof.lean"]);
    assert_eq!(build_files(true, false, true, false, false), vec!["contract.noble", "artifact.wat"]);
}

fn engine_report(outcome: &str) -> EngineReport {
    EngineReport { outcome: outcome.to_string(), json: format!("{{\"outcome\":\"{}\"}}", outcome) }
}

#[test]
fn worker_headers() {
    assert_eq!(header(Request::Compile { wat_bytes: 10, source_bytes: 2, submission: 7 }), "compile 10 2 7\n");
    assert_eq!(header(Request::Execute), "execute\n");
    assert_eq!(header(Request::ExecuteInputs(3)), "execute 3\n");
    assert_eq!(header(Request::Push(0)), "push 0\n");
    assert_eq!(header(Request::Park), "park\n");
    assert_eq!(header(Request::Restore), "restore\n");
    assert_eq!(header(Request::Observe(4)), "observe 4\n");
    assert_eq!(header(Request::Project(u32::MAX)), "project 4294967295\n");
    assert_eq!(header(Request::Shutdown), "shutdown\n");
}

#[test]
fn worker_replies() {
    let (r, over) = accept_reply(Ok(engine_report("returned")));
    assert!(!over);
    assert_eq!(r.ok().unwrap().outcome, "returned");
    let (r, over) = accept_reply(Ok(engine_report("trap")));
    assert!(over);
    assert!(r.is_ok());
    let (r, over) = accept_reply(Ok(engine_report("internal-failure")));
    assert!(over);
    let f = r.err().unwrap();
    assert_eq!((f.context.stage, f.context.outcome), ("wasm", "internal-failure"));
    assert_eq!(f.message, "{\"outcome\":\"internal-failure\"}");
    let e = EngineFailure::new(ErrorContext { stage: "io", outcome: "internal-failure" }, "gone".to_string());
    let (r, over) = accept_reply(Err(e));
    assert!(over);
    assert_eq!(r.err().unwrap().message, "gone");
    assert!(ready(engine_report("ready")).is_ok());
    let f = ready(engine_report("busy")).err().unwrap();
    assert_eq!((f.context.stage, f.context.outcome), ("wasm", "unsupported"));
    assert!(closed(Ok(engine_report("closed"))).is_ok());
    let f = closed(Ok(engine_report("open"))).err().unwrap();
    assert_eq!(f.message, "invalid bounded engine-worker protocol");
}

#[test]
fn worker_configuration() {
    assert_eq!(
        configuration("{}", "[]", true, Some("/tmp/a")),
        r#"{"selection":"{}","abi":"[]","optimized":true,"artifacts":"/tmp/a"}"#
    );
    assert_eq!(configuration("s", "a", false, None), r#"{"selection":"s","abi":"a","optimized":false,"artifacts":null}"#);
}

#[test]
fn build_offers_and_artifact_failures() {
    assert_eq!(build_offer(&Some(b"p".to_vec()), true), Some((&b"p"[..], true)));
    assert_eq!(build_offer(&Some(vec![]), true), None);
    assert_eq!(build_offer(&None, false), None);
    let f = source_refused(DiagnosticKind::Exhausted, "Exhausted");
    assert_eq!((f.outcome, f.code, f.message.as_str()), (Outcome::Unknown, "preparation-exhausted", "artifact source not accepted: Exhausted"));
    let f = source_refused(DiagnosticKind::Invalid, "Invalid");
    assert_eq!((f.outcome, f.code), (Outcome::Error, "artifact-source"));
    let f = definition_refused();
    assert_eq!(f.message, "artifact source is a definition, not an expression");
    let f = lowering_refused(BackendDiagnostic::Exhausted);
    assert_eq!((f.outcome, f.code), (Outcome::Unknown, "preparation-exhausted"));
    let f = lowering_refused(BackendDiagnostic::Invalid);
    assert_eq!((f.outcome, f.code, f.message.as_str()), (Outcome::Error, "artifact-lowering", "the independent compiler rejected the artifact source"));
    let f = assembly_refused("no tool".to_string());
    assert_eq!((f.outcome, f.code, f.message.as_str()), (Outcome::Unsupported, "artifact-assembly", "no tool"));
}

#[test]
fn process_supervision() {
    assert!(room_for(0, 131_072));
    assert!(!room_for(1, 131_072));
    assert!(room_for(131_000, 72));
    assert!(!room_for(200_000, 0));
    assert_eq!(output_limit().message, "sandbox output exceeded the 128 KiB per-stream limit");
    assert_eq!(missing_pipe("missing stdout pipe").code, "process-io");
    let f = launch_failure("no bwrap");
    assert_eq!((f.outcome, f.code, f.message.as_str()), (Outcome::Unsupported, "sandbox-unavailable", "cannot launch sandbox: no bwrap"));
    assert!(matches!(watch(true, true, true), Watch::Stop(f) if f.code == "proof-output-limit"));
    assert!(matches!(watch(false, true, true), Watch::Stop(f) if f.outcome == Outcome::Timeout
        && f.message == "sandbox exceeded the consumer's total wall-clock budget"));
    assert!(matches!(watch(false, false, true), Watch::Finished));
    assert!(matches!(watch(false, false, false), Watch::Wait));
    assert_eq!(wait_failure("gone".to_string()).code, "process-wait");
    assert_eq!(output_failure(None).message, "output reader failed");
    assert_eq!(output_failure(Some("eof".to_string())).message, "eof");
}
