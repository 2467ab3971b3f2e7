use lib::admission::{
    accepted_class, no_tools, offer, preparation_refusal, proof_source, refusal_json, tools_of, Evidence, Offer, Payload,
    Refusal,
};
use lib::companions::EvidenceClass;
use lib::json::{object, string, Json};
use lib::outcome::{Failure, Outcome};
use lib::sandbox::{Environment, Transcript, COMMIT};
use lib::session::{DiagnosticKind, Span};
use lib::verify_report::{
    accepted_typing, copy_all, probe_toolchain, proof_request, require_success, tools, transcript_json,
    unavailable_library, Report,
};

fn transcript(succeeded: bool, signal: Option<i32>, stdout: &str) -> Transcript {
    Transcript {
        succeeded,
        signal,
        status: "exit status: 1".to_string(),
        stdout: stdout.to_string(),
        stderr: "err".to_string(),
    }
}

fn environment() -> Environment {
    Environment {
        lean: "/opt/lean/bin/lean".to_string(),
        bwrap: "/usr/bin/bwrap".to_string(),
        prlimit: "/usr/bin/prlimit".to_string(),
        systemd_run: "/usr/bin/systemd-run".to_string(),
        lean_root: "/opt/lean".to_string(),
        runtime_directory: "/run".to_string(),
        runtime_roots: vec![],
    }
}

#[test]
fn a_new_report_has_done_nothing() {
    let r = Report::new();
    assert_eq!(r.outcome, Outcome::NotRun);
    assert_eq!(r.command, "verify");
    let text = r.json().encode();
    assert!(text.starts_with(
        r#"{"schema":"noble-mc1-report/v1","command":"verify","outcome":"not-run","source_path":"","source":null,"invalid_source_bytes_hex":null,"generated_statement":null,"proof_declarations":null,"claim_kind":"partial-correctness","subject":null,"ordinary_typing":"not-run","assumptions":{"allowed_axioms":["propext","Classical.choice","Quot.sound"],"accepted_transitive_axioms":null,"#
    ));
    assert!(text.contains(r#""independent_recheck":false"#));
    assert!(text.contains(
        r#""outstanding_obligations":["application claim or refutation","implementation refinement (separate verification lane)","backend correspondence (outside MC1)"]"#
    ));
    assert!(text.contains(r#""lean_toolchain":"leanprover/lean4:v4.31.0","lean_commit":"68218e876d2a38b1985b8590fff244a83c321783","timeout_ms":120000,"proof_source_bytes":524288,"process_output_bytes_per_stream":131072,"artifact_bytes_per_file":33554432"#));
    assert!(text.ends_with(r#""trusted_tools":null},"diagnostics":[],"emitted":null}"#));
}

#[test]
fn failures_are_recorded_in_order() {
    let mut r = Report::new();
    r.fail(Failure::error("usage", "first".to_string()));
    r.evidence_missing();
    assert_eq!(r.outcome, Outcome::Unknown);
    assert_eq!(r.diagnostics.len(), 2);
    assert_eq!(r.diagnostics[0].encode(), r#"{"code":"usage","message":"first","details":null}"#);
    assert_eq!(
        r.diagnostics[1].encode(),
        r#"{"code":"evidence-missing","message":"no application proof or refutation was supplied; no proof process ran","details":null}"#
    );
    assert!(r.json().encode().contains(r#""outcome":"unknown""#));
}

#[test]
fn sources_are_text_or_hex() {
    let mut r = Report::new();
    r.record_source(b"fn f");
    assert_eq!(r.source.as_deref(), Some("fn f"));
    let mut r = Report::new();
    r.record_source(&[0xff, 0x00]);
    assert_eq!(r.source, None);
    assert_eq!(r.invalid_source_bytes.as_deref(), Some("ff00"));
}

#[test]
fn acceptance_records_the_theorem() {
    let mut r = Report::new();
    r.record_acceptance(vec!["propext".to_string()], "wire".to_string(), string("t"), true);
    assert_eq!(r.outcome, Outcome::Disproved);
    assert_eq!(r.theorem, Some("MC1Proof.refutation"));
    assert!(r.rechecked);
    let text = r.json().encode();
    assert!(text.contains(r#""accepted_transitive_axioms":["propext"]"#));
    assert!(text.contains(r#""proof_declarations":"wire""#));
    assert!(text.contains(r#""theorem":"MC1Proof.refutation","independent_recheck":true"#));
    assert!(text.contains(
        r#""outstanding_obligations":["implementation refinement (separate verification lane)","backend correspondence (outside MC1)"]"#
    ));
    let mut p = Report::new();
    p.record_acceptance(vec![], String::new(), Json::Null, false);
    assert_eq!(p.outcome, Outcome::Proved);
    assert_eq!(p.theorem, Some("MC1Proof.proof"));
}

#[test]
fn request_and_typing_entries() {
    assert_eq!(
        proof_request("p.lean", false).encode(),
        r#"{"source_path":"p.lean","kind":"proof","theorem":"MC1Proof.proof","expected_type":"MC1Obligation.claim"}"#
    );
    assert_eq!(
        proof_request("r.lean", true).encode(),
        r#"{"source_path":"r.lean","kind":"refutation","theorem":"MC1Proof.refutation","expected_type":"Not MC1Obligation.claim"}"#
    );
    assert_eq!(accepted_typing("f : I64").encode(), r#"{"outcome":"accepted","checked":"f : I64"}"#);
    let f = Failure::error("library", "gone".to_string());
    assert_eq!(
        unavailable_library(&f).encode(),
        r#"{"status":"unavailable","diagnostic":{"code":"library","message":"gone","details":null}}"#
    );
}

#[test]
fn processes_succeed_time_out_or_fail() {
    let t = transcript(false, None, "out");
    assert_eq!(transcript_json(&t).encode(), r#"{"exit_status":"exit status: 1","stdout":"out","stderr":"err"}"#);
    assert!(require_success(transcript(true, None, ""), "lean", "failed").is_ok());
    let f = require_success(transcript(false, Some(24), "o"), "lean", "failed").err().unwrap();
    assert_eq!(f.outcome, Outcome::Timeout);
    assert_eq!(f.code, "timeout");
    assert_eq!(f.message, "sandbox exhausted its CPU-time limit");
    assert_eq!(f.details.encode(), r#"{"exit_status":"exit status: 1","stdout":"o","stderr":"err"}"#);
    let f = require_success(transcript(false, Some(9), ""), "lean", "failed").err().unwrap();
    assert_eq!((f.outcome, f.code, f.message.as_str()), (Outcome::Error, "lean", "failed"));
    let f = require_success(transcript(false, None, ""), "lean", "failed").err().unwrap();
    assert_eq!(f.outcome, Outcome::Error);
}

#[test]
fn the_toolchain_probe_must_report_the_pin() {
    let good = format!("Lean (version 4.31.0, x86_64, commit {}, Release)", COMMIT);
    assert!(probe_toolchain(transcript(true, None, &good)).is_ok());
    let f = probe_toolchain(transcript(true, None, "Lean (version 4.30.0, commit x)")).err().unwrap();
    assert_eq!((f.outcome, f.code), (Outcome::Unsupported, "toolchain-mismatch"));
    assert_eq!(f.message, "selected Lean executable does not report the pinned release and commit");
    let f = probe_toolchain(transcript(false, None, &good)).err().unwrap();
    assert_eq!((f.outcome, f.code), (Outcome::Unsupported, "sandbox-unavailable"));
    assert_eq!(f.message, "sandbox/toolchain launch failed; no proof code ran");
}

#[test]
fn trusted_tools_entry() {
    assert_eq!(
        tools(&environment(), "  Lean 4.31.0\n").encode(),
        r#"{"lean":"/opt/lean/bin/lean","bubblewrap":"/usr/bin/bwrap","prlimit":"/usr/bin/prlimit","systemd_run":"/usr/bin/systemd-run","aggregate_memory_bytes":2147483648,"aggregate_tasks":64,"lean_version":"Lean 4.31.0"}"#
    );
}

#[test]
fn preparation_failures_by_kind() {
    let mut r = Report::new();
    let f = r.preparation_failure(DiagnosticKind::Invalid, "bad".to_string(), Span { start: 3, end: 9 }, Some("x".to_string()));
    assert_eq!((f.outcome, f.code), (Outcome::Error, "contract-invalid"));
    assert_eq!(f.details.encode(), r#"{"start":3,"end":9}"#);
    assert_eq!(r.ordinary_typing.encode(), r#"{"outcome":"accepted","checked":"x"}"#);
    let f = r.preparation_failure(DiagnosticKind::Unsupported, "u".to_string(), Span { start: 0, end: 0 }, None);
    assert_eq!((f.outcome, f.code), (Outcome::Unsupported, "contract-unsupported"));
    assert_eq!(r.ordinary_typing.encode(), r#""not-accepted""#);
    let f = r.preparation_failure(DiagnosticKind::Exhausted, "e".to_string(), Span { start: 0, end: 0 }, None);
    assert_eq!(f.code, "preparation-limit");
    let f = r.preparation_failure(DiagnosticKind::Internal, "i".to_string(), Span { start: 0, end: 0 }, None);
    assert_eq!(f.code, "preparation-internal");
}

#[test]
fn copies_keep_encodings() {
    let values = vec![Json::Number(1), string("a"), Json::Array(vec![Json::Null])];
    let copied = copy_all(&values);
    assert_eq!(copied.len(), 3);
    for (a, b) in values.iter().zip(copied.iter()) {
        assert_eq!(a.encode(), b.encode());
    }
}

#[test]
fn admission_refusals_and_offers() {
    let r = preparation_refusal(DiagnosticKind::Unsupported, "m".to_string(), true);
    assert_eq!((r.outcome, r.code, r.claim_outcome()), (Outcome::Unsupported, "contract-unsupported", "unsupported"));
    assert!(r.ordinary_typing);
    assert!(!r.verification_ran);
    let v = Refusal::verification(Failure::timeout("late"));
    assert_eq!((v.outcome, v.code, v.claim_outcome()), (Outcome::Timeout, "timeout", "timeout"));
    assert!(v.verification_ran);
    assert_eq!(refusal_json(&v).encode(), r#"{"code":"timeout","message":"late","details":null}"#);
    let o = offer(Some((b"theorem", true)));
    assert!(o.refutation);
    assert_eq!(o.class, EvidenceClass::LeanRefutation);
    assert_eq!(proof_source(&o).ok(), Some("theorem".to_string()));
    let empty = offer(None);
    assert_eq!(empty.class, EvidenceClass::LeanExact);
    assert_eq!(proof_source(&empty).ok(), Some(String::new()));
    let bad = offer(Some((&[0xc3], false)));
    let f = proof_source(&bad).err().unwrap();
    assert_eq!((f.code, f.message.as_str()), ("proof-encoding", "proof source must be UTF-8"));
    let live = Offer { class: EvidenceClass::LeanExact, refutation: false, payload: Payload::Resource };
    let f = proof_source(&live).err().unwrap();
    assert_eq!(f.code, "live-capability-in-evidence");
    let service = Offer { class: EvidenceClass::Replay, refutation: false, payload: Payload::ServiceCapability };
    assert!(proof_source(&service).is_err());
    assert_eq!(accepted_class(true), EvidenceClass::LeanRefutation);
    assert_eq!(accepted_class(false), EvidenceClass::LeanExact);
    assert!(matches!(no_tools(), Json::Null));
    let e = Evidence { axioms: vec![], tools: string("t") };
    assert_eq!(tools_of(&e).encode(), r#""t""#);
}
