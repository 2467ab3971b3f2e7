use lib::admission::{Evidence, Refusal};
use lib::certification::{
    certify_report, compose_accepted, compose_refused, contract_index, instance_report, invoke_report, top_program,
    Composition, Handles, Invocation,
};
use lib::companions::{EvidenceClass, Refused};
use lib::json::string;
use lib::outcome::Outcome;
use lib::reader::{parse, Value};
use lib::session::{commit_order, commits, stack_after, Commit, Report};
use lib::retained::{
    contract_refused, contract_report, derive_refused, derive_report, evidence_ids, retain, rule_of, Decision, Record, Rule,
};
use lib::slots::{
    companion_at, drop_chain, dropped, identity_matches, observation, observation_index, parked, program_at,
    park_confirmed, program_position, programs_to_record, projection, push_confirmed, pushed_handle, record_position,
    removal, restore_confirmed, restored, stack_read, unretained_program,
};

fn value(text: &str) -> Value {
    parse(text).unwrap()
}

fn refused<T>(r: Result<T, Refused>) -> Refused {
    match r {
        Ok(_) => panic!("expected a refusal"),
        Err(f) => f,
    }
}

fn ok<T>(r: Result<T, Refused>) -> T {
    match r {
        Ok(v) => v,
        Err(f) => panic!("refused: {} {} {}", f.outcome, f.code, f.message),
    }
}

const STACK: &str = r#"{"stack":[{"type":"Program","handle":3},{"type":"Certified","handle":7,"identity":"42","contract":{"index":1},"evidence":{"index":2}},{"type":"I64","value":"1"},{"type":"Certified","handle":8,"contract":{"index":1}}]}"#;

#[test]
fn certified_slots_are_read_before_projection() {
    let v = value(STACK);
    let c = ok(companion_at(&v, 1));
    assert_eq!((c.handle, c.identity.as_str(), c.contract, c.evidence), (7, "42", 1, 2));
    let f = refused(companion_at(&v, 0));
    assert_eq!((f.outcome, f.code.as_str()), ("malformed", "stack-type"));
    assert_eq!(f.message, "slot 0 is a Program, not a companion");
    let f = refused(companion_at(&v, 4));
    assert_eq!((f.code.as_str(), f.message.as_str()), ("stack-index", "stack has no slot 4"));
    let f = refused(companion_at(&v, 3));
    assert_eq!((f.code.as_str(), f.message.as_str()), ("script", "companion evidence has no index"));
    let big = value(r#"{"stack":[{"type":"Certified","handle":4294967296,"contract":{"index":1},"evidence":{"index":2}}]}"#);
    assert_eq!(refused(companion_at(&big, 0)).message, "companion handle exceeds the engine handle domain");
    let none = value(r#"{"stack":[{"type":"Certified","contract":{"index":1},"evidence":{"index":2}}]}"#);
    assert_eq!(refused(companion_at(&none, 0)).message, "companion slot has no handle");
    assert_eq!(refused(companion_at(&value("{}"), 0)).message, "reply has no stack");
}

#[test]
fn projection_replies() {
    assert_eq!(ok(projection("projected", r#"{"subject":12}"#)), 12);
    let f = refused(projection("trap", r#"{"subject":12}"#));
    assert_eq!((f.outcome, f.code.as_str(), f.message.as_str()), ("refused", "projection-failed", "the guest could not project the companion"));
    assert_eq!(refused(projection("projected", "{}")).message, "projection returned no subject");
    assert_eq!(refused(projection("projected", "{")).code, "engine-report");
}

#[test]
fn program_slots_and_positions() {
    let v = value(STACK);
    assert_eq!(ok(program_at(&v, 0)), 3);
    let f = refused(program_at(&v, 2));
    assert_eq!(f.message, "slot 2 is a I64, not a program");
    let f = refused(program_at(&v, 9));
    assert_eq!((f.code.as_str(), f.message.as_str()), ("script", "stack has no slot 9"));
    let u = unretained_program(5);
    assert_eq!((u.outcome, u.code.as_str(), u.message.as_str()), ("malformed", "stack-type", "program handle 5 is not retained"));
    let entries = vec![
        ("I64".to_string(), Some(3)),
        ("Program".to_string(), Some(4)),
        ("Program".to_string(), Some(3)),
        ("Program".to_string(), Some(3)),
    ];
    assert_eq!(program_position(&entries, 3), Some(2));
    assert_eq!(program_position(&entries, 9), None);
}

#[test]
fn observation_replies() {
    assert!(removal(&value(r#"{"outcome":"normal"}"#)).is_ok());
    assert_eq!(refused(removal(&value(r#"{"outcome":"trap"}"#))).message, "could not remove the temporary observation slot");
    assert_eq!(ok(observation_index(5)), 5);
    assert_eq!(
        refused(observation_index(4_294_967_296)).message,
        "observation index exceeds the engine index domain"
    );
    assert_eq!(ok(observation("observed", r#"{"events":[{"kind":3,"value":"9"}]}"#)), vec![(3, 9)]);
    let f = refused(observation("trap", r#"{"events":[]}"#));
    assert_eq!((f.code.as_str(), f.message.as_str()), ("observation-failed", "the guest could not observe the subject"));
}

#[test]
fn identities_and_records() {
    assert!(identity_matches("42", 42));
    assert!(identity_matches("+42", 42));
    assert!(!identity_matches("42", 43));
    assert!(!identity_matches("x", 0));
    assert_eq!(ok(record_position(&[4, 2, 2], 2)), 1);
    let f = refused(record_position(&[4], 2));
    assert_eq!((f.outcome, f.code.as_str(), f.message.as_str()), ("refused", "unknown-contract", "no retained contract 2"));
}

#[test]
fn certify_reports() {
    assert_eq!(ok(contract_index(Some("7"), None)), 7);
    assert_eq!(refused(contract_index(Some("x"), Some(1))).message, "'x' is not a contract index");
    assert_eq!(ok(contract_index(None, Some(3))), 3);
    let f = refused(contract_index(None, None));
    assert_eq!((f.code.as_str(), f.message.as_str()), ("unknown-contract", "no contract has been admitted"));
    assert_eq!(
        certify_report(3, 0xab, 9, 1, 2).encode(),
        r#"{"schema":"noble-companions-report/v1","operation":"certify","outcome":"certified","subject_handle":3,"subject_identity":"171","certified_handle":9,"contract_reference":1,"evidence_reference":2,"behavioral_certification_claimed":true,"prover_calls":0,"candidate_prepare_requests":0}"#
    );
}

#[test]
fn instance_reports() {
    let handles = Handles { contract: 5, evidence: 6, certified: 7 };
    let r = instance_report(1, 2, -3, 4, 8, handles, Some((10, string("out")))).encode();
    assert_eq!(
        r,
        r#"{"schema":"noble-companions-report/v1","operation":"instantiate","outcome":"each-instance-bound-and-certified","program_identity":"1","statement":"2","capture":"-3","builder_handle":4,"instance_handle":8,"contract_handle":5,"evidence_handle":6,"certified_handle":7,"same_compiled_builder":true,"literal_specialization_sufficient":false,"prover_calls":0,"candidate_prepare_requests":0,"argument":"10","output":"out"}"#
    );
    let handles = Handles { contract: 5, evidence: 6, certified: 7 };
    let r = instance_report(1, 2, 3, 4, 8, handles, None).encode();
    assert!(r.ends_with(r#""candidate_prepare_requests":0}"#));
}

fn invocation() -> Invocation {
    Invocation {
        template: "nonnegative".to_string(),
        wrapper: "w".to_string(),
        subject: 3,
        identity: "42".to_string(),
        identity_changed: false,
    }
}

#[test]
fn invoke_reports() {
    let accepted = value(r#"{"stack":[{"type":"Sum","variant":"right","value":{"type":"I64","value":"5"}}],"guest_requests":1,"protected_operations":0}"#);
    let r = ok(invoke_report(&accepted, &invocation())).encode();
    assert_eq!(
        r,
        r#"{"schema":"noble-companions-report/v1","operation":"invoke","outcome":"certified-invocation","guard_template":"nonnegative","guard_erased":false,"verified_backend_claimed":false,"underlying_program_identity_changed":false,"subject_handle":3,"subject_identity":"42","artifact_correspondence":"recorded-trusted-build","host_authority":"independently-checked-resource-free","wrapper_source":"w","conditional_theorem_valid":true,"output":"{\"type\":\"I64\",\"value\":\"5\"}","runtime_return":"right","candidate_body_started":true,"prover_calls":0,"candidate_prepare_requests":0,"guest_requests":1,"protected_operations":0,"wrapper_executions":1}"#
    );
    let rejected = value(r#"{"stack":[{"type":"Sum","variant":"left"}],"guest_requests":0,"protected_operations":0}"#);
    let r = ok(invoke_report(&rejected, &invocation())).encode();
    assert!(r.contains(r#""outcome":"precondition-reject""#));
    assert!(r.contains(r#""candidate_body_started":false"#));
    let other = value(r#"{"stack":[{"type":"I64"}],"guest_requests":0,"protected_operations":0}"#);
    assert_eq!(
        refused(invoke_report(&other, &invocation())).message,
        "guard wrapper returned neither rejection nor invocation"
    );
    let missing = value(r#"{"stack":[{"variant":"left"}],"guest_requests":0}"#);
    assert_eq!(refused(invoke_report(&missing, &invocation())).message, "runtime omitted protected_operations");
}

#[test]
fn compose_reports() {
    assert_eq!(
        compose_refused("stale-context", "stale-context", 9).encode(),
        r#"{"schema":"noble-companions-report/v1","operation":"compose","outcome":"stale-context","ordinary_composition_valid":true,"new_certified_status":false,"diagnostic":{"code":"stale-context","message":"the core withheld certification"},"composed_handle":9,"prover_calls":0,"guest_requests":0,"protected_operations":0}"#
    );
    let c = Composition { statement: 1, subject_identity: 2, composed: 3, evidence: 4, contract: 5, increment: -2 };
    let reply = value(r#"{"stack":[{"type":"I64","value":"7"}],"guest_requests":0,"protected_operations":0}"#);
    let r = ok(compose_accepted(&c, Handles { contract: 10, evidence: 11, certified: 12 }, &reply)).encode();
    assert_eq!(
        r,
        r#"{"schema":"noble-companions-report/v1","operation":"compose","outcome":"certified-composition","statement":"1","subject_identity":"2","composed_handle":3,"contract_handle":10,"evidence_handle":11,"certified_handle":12,"evidence_reference":4,"contract_reference":5,"output":"{\"type\":\"I64\",\"value\":\"7\"}","claim_kind":"partial-correctness","increment_by":"-2","guest_requests":0,"protected_operations":0,"underlying_recipe_matches_plain_compose":true,"assumptions_dropped":false,"prover_calls":0,"candidate_prepare_requests":0}"#
    );
    let missing = value(r#"{"stack":[]}"#);
    assert_eq!(
        refused(compose_accepted(&c, Handles { contract: 0, evidence: 0, certified: 0 }, &missing)).message,
        "runtime omitted guest_requests"
    );
}

#[test]
fn top_programs() {
    let v = value(r#"{"stack":[{"type":"I64"},{"type":"Program","handle":6}]}"#);
    assert_eq!(ok(top_program(&v, true)), 6);
    let f = refused(top_program(&v, false));
    assert_eq!(f.message, "no committed type for the top slot");
    let f = refused(top_program(&value(r#"{"stack":[{"type":"I64"}]}"#), true));
    assert_eq!(f.message, "top slot is a I64, not a program");
    let f = refused(top_program(&value(r#"{"stack":[]}"#), true));
    assert_eq!((f.code.as_str(), f.message.as_str()), ("engine-report", "reply has an empty stack"));
    let f = refused(top_program(&value(r#"{"stack":[{"type":"Program"}]}"#), true));
    assert_eq!(f.message, "top program slot has no handle");
}

fn decision(contract: Option<u32>, refusals: &[&str]) -> Decision {
    Decision {
        outcome: "proved".to_string(),
        contract,
        statement: 0x10,
        evidence: Some(3),
        refusals: refusals.iter().map(|s| s.to_string()).collect(),
    }
}

#[test]
fn contract_reports() {
    let e = Evidence { axioms: vec![], tools: string("lean") };
    let r = contract_report(&decision(Some(2), &["stale-context"]), Some(&e)).encode();
    assert_eq!(
        r,
        r#"{"schema":"noble-companions-report/v1","operation":"contract","outcome":"proved","contract_reference":2,"statement":"16","evidence_reference":3,"evidence_class":"lean-exact","ordinary_typing":true,"independent_recheck":true,"claim_kind":"partial-correctness","prover_calls":1,"toolchain":"lean","guest_requests":0,"protected_operations":0,"candidate_body_started":false,"refusal":"stale-context"}"#
    );
    let r = contract_report(&decision(None, &[]), None).encode();
    assert!(r.contains(r#""contract_reference":null"#));
    assert!(r.contains(r#""evidence_class":"replay""#));
    assert!(r.contains(r#""prover_calls":0,"toolchain":null"#));
    let refusal = Refusal::new(Outcome::Unknown, "evidence-missing", "none".to_string());
    assert_eq!(
        contract_refused(&refusal).encode(),
        r#"{"schema":"noble-companions-report/v1","operation":"contract","outcome":"unknown","diagnostic":{"code":"evidence-missing","message":"none","details":null},"ordinary_typing":false,"prover_calls":0,"toolchain":null,"guest_requests":0,"protected_operations":0,"candidate_body_started":false}"#
    );
}

#[test]
fn records_are_revised_in_place() {
    let mut records: Vec<Record> = Vec::new();
    retain(&mut records, &decision(None, &[]), true);
    assert!(records.is_empty());
    retain(&mut records, &decision(Some(1), &[]), false);
    retain(&mut records, &decision(Some(2), &[]), false);
    assert_eq!(records.len(), 2);
    let mut again = decision(Some(1), &[]);
    again.statement = 0x99;
    again.evidence = Some(8);
    retain(&mut records, &again, true);
    assert_eq!(records.len(), 2);
    assert_eq!(
        records[0],
        Record { contract: 1, statement: 0x99, evidence: Some(8), class: Some(EvidenceClass::LeanExact) }
    );
    assert_eq!(records[1].contract, 2);
    assert_eq!(records[1].class, Some(EvidenceClass::Replay));
}

#[test]
fn derivation_words() {
    assert_eq!(ok(rule_of("admit-lean")), Rule::AdmitLean);
    assert_eq!(ok(rule_of("compose")), Rule::Compose);
    assert_eq!(ok(rule_of("instantiate")), Rule::Instantiate);
    assert_eq!(ok(rule_of("guard")), Rule::Guard);
    assert_eq!(ok(rule_of("project")), Rule::Project);
    assert_eq!(ok(rule_of("invoke")), Rule::Invoke);
    let f = refused(rule_of("magic"));
    assert_eq!((f.outcome, f.code.as_str(), f.message.as_str()), ("refused", "unknown-rule", "'magic' is not a v1 rule"));
    assert_eq!(ok(evidence_ids(&["1".to_string(), "2".to_string()])), vec![1, 2]);
    assert!(ok(evidence_ids(&[])).is_empty());
    let f = refused(evidence_ids(&["1".to_string(), "x".to_string(), "y".to_string()]));
    assert_eq!(f.message, "'x' is not an evidence id");
    assert_eq!(
        derive_report("compose", 4, 2, 1).encode(),
        r#"{"schema":"noble-companions-report/v1","operation":"derive","outcome":"minted","rule":"compose","evidence_reference":4,"contract_reference":2,"statement":"1","prover_calls":0,"candidate_prepare_requests":0,"guest_requests":0}"#
    );
    let d = derive_refused("exhausted-replay", "compose");
    assert_eq!((d.outcome, d.code.as_str(), d.message.as_str()), ("exhausted-replay", "exhausted-replay", "the compose derivation was refused"));
    assert_eq!(derive_refused("odd", "guard").outcome, "refused");
}

#[test]
fn stack_frames_and_cells() {
    assert_eq!(drop_chain(0), "");
    assert_eq!(drop_chain(1), "drop");
    assert_eq!(drop_chain(3), "drop drop drop");
    assert!(dropped(&value(r#"{"outcome":"normal"}"#)).is_ok());
    assert_eq!(refused(dropped(&value(r#"{"outcome":"trap"}"#))).message, "the guest did not drop the parked stack: trap");
    assert_eq!(refused(dropped(&value("{}"))).message, "the guest did not drop the parked stack: no outcome");
    assert!(stack_read("pushed", r#"{"stack":[]}"#).is_ok());
    assert_eq!(refused(stack_read("refused", "{}")).code, "stack-read");
    assert_eq!(ok(pushed_handle("pushed", r#"{"stack":[{"handle":1},{"handle":9}]}"#)), 9);
    assert_eq!(refused(pushed_handle("pushed", r#"{"stack":[]}"#)).message, "the injected cell has no handle");
    assert_eq!(refused(pushed_handle("refused", r#"{"stack":[]}"#)).code, "injection-refused");
    assert!(parked("parked", r#"{"stack_length":2}"#, 2).is_ok());
    let f = refused(parked("parked", r#"{"stack_length":1}"#, 2));
    assert_eq!((f.outcome, f.code.as_str()), ("internal-failure", "session-model"));
    assert!(parked("other", r#"{"stack_length":2}"#, 2).is_err());
    assert!(restored("restored", r#"{"stack":[{},{}]}"#, 2).is_ok());
    assert_eq!(refused(restored("restored", r#"{"stack":[{}]}"#, 2)).message, "engine did not restore the parked frame");
    assert_eq!(refused(restored("trap", r#"{"stack":[]}"#, 0)).message, "engine did not restore the parked frame");
    assert_eq!(refused(restored("restored", "{}", 0)).message, "reply has no stack");
    let entries = vec![
        ("Program".to_string(), Some(5)),
        ("I64".to_string(), None),
        ("Program".to_string(), Some(6)),
        ("Program".to_string(), Some(5)),
        ("Program".to_string(), Some(7)),
        ("Program".to_string(), None),
    ];
    assert_eq!(programs_to_record(&entries, 4, &[6]), vec![(0, 5)]);
    assert_eq!(programs_to_record(&entries, 6, &[]), vec![(0, 5), (2, 6), (4, 7)]);
}

fn reply_of(outcome: &str) -> Report {
    Report { outcome: outcome.to_string(), json: String::new() }
}

#[test]
fn only_a_ready_prepare_commits() {
    assert!(commits(&reply_of("ready")));
    assert!(!commits(&reply_of("source-error")));
    assert!(!commits(&reply_of("static-refusal")));
    assert_eq!(commit_order(&reply_of("ready")), vec![Commit::Compiler, Commit::Frontend]);
    assert!(commit_order(&reply_of("backend-error")).is_empty());
}

#[test]
fn static_refusal_preserves_the_stack() {
    let prior = vec![1u8, 2];
    let output = vec![7u8];
    assert_eq!(stack_after(prior.clone(), output.clone(), &reply_of("ready"), Some(&reply_of("normal"))), vec![7]);
    assert_eq!(stack_after(prior.clone(), output.clone(), &reply_of("ready"), Some(&reply_of("trap"))), vec![1, 2]);
    assert_eq!(stack_after(prior.clone(), output.clone(), &reply_of("static-refusal"), None), vec![1, 2]);
    assert_eq!(stack_after(prior.clone(), output.clone(), &reply_of("static-refusal"), Some(&reply_of("normal"))), vec![1, 2]);
    assert_eq!(stack_after(prior, output, &reply_of("ready"), None), vec![1, 2]);
}

#[test]
fn confirmed_stack_changes() {
    let mut stack = vec![10u8];
    assert_eq!(ok(push_confirmed(&mut stack, 11, "pushed", r#"{"stack":[{"handle":1},{"handle":9}]}"#)), 9);
    assert_eq!(stack, vec![10, 11]);
    assert!(push_confirmed(&mut stack, 12, "refused", r#"{"stack":[]}"#).is_err());
    assert_eq!(stack, vec![10, 11]);
    assert!(park_confirmed(&mut stack, "parked", r#"{"stack_length":1}"#).is_err());
    assert_eq!(stack, vec![10, 11]);
    let frame = ok(park_confirmed(&mut stack, "parked", r#"{"stack_length":2}"#));
    assert_eq!(frame, vec![10, 11]);
    assert!(stack.is_empty());
    assert!(restore_confirmed(&mut stack, frame.clone(), "restored", r#"{"stack":[{}]}"#).is_err());
    assert!(stack.is_empty());
    assert!(restore_confirmed(&mut stack, frame, "restored", r#"{"stack":[{},{}]}"#).is_ok());
    assert_eq!(stack, vec![10, 11]);
}
