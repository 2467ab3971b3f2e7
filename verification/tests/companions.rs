use lib::companion_reports::{
    certified_injection, contract_injection, evidence_injection, i64_injection, index_of, injection_frame, inspect_report,
    integer_of, nested_number, parse_report, policy, program_injection, project_report, reflection_events,
    refusal_line, runtime_count, slots, stack_json, stack_report, submit_report, top_payload, top_value,
};
use lib::companion_values::{append_signed, text_of};
use lib::companions::{
    backend_diagnostic, dispatch, evidence_class_name, operation_name, parse_options, refusal_outcome, require,
    script_line, tokens, EvidenceClass, Refused,
};
use lib::json::Json;
use lib::reader::{parse, Value};
use lib::session::BackendDiagnostic;

fn ok<T>(r: Result<T, Refused>) -> T {
    match r {
        Ok(v) => v,
        Err(f) => panic!("refused: {} {} {}", f.outcome, f.code, f.message),
    }
}

fn refused<T>(r: Result<T, Refused>) -> Refused {
    match r {
        Ok(_) => panic!("expected a refusal"),
        Err(f) => f,
    }
}

fn value(text: &str) -> Value {
    parse(text).unwrap()
}

fn args(words: &[&str]) -> Vec<Vec<u8>> {
    words.iter().map(|w| w.as_bytes().to_vec()).collect()
}

#[test]
fn operation_names_and_unknown_tokens() {
    for name in [
        "contract", "submit", "plain", "stack", "policy", "project", "inspect", "certify", "compose", "instantiate",
        "invoke", "derive",
    ] {
        assert_eq!(operation_name(name), name);
    }
    assert_eq!(operation_name("Submit"), "unknown");
    assert_eq!(operation_name(""), "unknown");
}

#[test]
fn dispatch_checks_arity() {
    assert_eq!(ok(dispatch("stack", 0)), "stack");
    assert_eq!(ok(dispatch("compose", 3)), "compose");
    assert_eq!(ok(dispatch("invoke", 5)), "invoke");
    let f = refused(dispatch("compose", 2));
    assert_eq!(f.outcome, "malformed");
    assert_eq!(f.code, "script");
    assert_eq!(f.message, "expected at least 3 argument(s), found 2");
    let f = refused(dispatch("submit", 0));
    assert_eq!(f.message, "expected at least 1 argument(s), found 0");
    let f = refused(dispatch("frob", 4));
    assert_eq!(f.message, "unknown operation 'frob'");
    assert_eq!(f.code, "script");
}

#[test]
fn require_counts_arguments() {
    assert!(require(2, 2).is_ok());
    let f = refused(require(1, 2));
    assert_eq!(f.message, "expected at least 2 argument(s), found 1");
}

#[test]
fn refusal_outcomes_keep_named_codes() {
    assert_eq!(refusal_outcome("stale-context"), "stale-context");
    assert_eq!(refusal_outcome("unknown-evidence"), "unknown-evidence");
    assert_eq!(refusal_outcome("something-else"), "refused");
    let d = Refused::declined("forged-status");
    assert_eq!(d.outcome, "forged-status");
    assert_eq!(d.code, "forged-status");
    assert_eq!(d.message, "the deterministic core declined");
    let d = Refused::declined("odd");
    assert_eq!(d.outcome, "refused");
}

#[test]
fn tokens_split_on_ascii_whitespace() {
    assert_eq!(tokens("  a  b\tc "), vec!["a".to_string(), "b".to_string(), "c".to_string()]);
    assert!(tokens("   ").is_empty());
}

#[test]
fn script_lines_against_the_budget() {
    assert_eq!(script_line(10, b"abcdefghijk"), Err("script exceeds 1048576 bytes".to_string()));
    assert_eq!(script_line(100, b"  # comment"), Ok((89, None)));
    assert_eq!(script_line(100, b"   "), Ok((97, None)));
    assert_eq!(
        script_line(100, b" submit  x.nb "),
        Ok((86, Some(vec!["submit".to_string(), "x.nb".to_string()])))
    );
    assert!(script_line(100, &[0xff]).is_err());
}

#[test]
fn companion_options_decode() {
    assert_eq!(parse_options(&args(&["companions"])), Ok((120_000, false)));
    assert_eq!(parse_options(&args(&["companions", "--timeout-ms", "5", "--opt", "on"])), Ok((5, true)));
    assert_eq!(parse_options(&args(&["companions", "--opt", "on", "--opt", "off"])), Ok((120_000, false)));
    assert_eq!(
        parse_options(&args(&["companions", "--timeout-ms", "600001"])),
        Err(("--timeout-ms is above 600000".to_string(), None))
    );
    assert_eq!(parse_options(&args(&["companions", "--timeout-ms"])), Err(("--timeout-ms needs a value".to_string(), None)));
    assert_eq!(
        parse_options(&args(&["companions", "--timeout-ms", "abc"])),
        Err(("--timeout-ms needs an integer".to_string(), None))
    );
    assert_eq!(parse_options(&args(&["companions", "--opt", "maybe"])), Err(("--opt needs on or off".to_string(), None)));
    assert_eq!(parse_options(&args(&["companions", "--x"])), Err(("unexpected argument".to_string(), Some(1))));
    assert_eq!(parse_options(&args(&["companions", "--opt", "on", "y"])), Err(("unexpected argument".to_string(), Some(3))));
}

#[test]
fn class_and_diagnostic_names() {
    assert_eq!(evidence_class_name(EvidenceClass::LeanExact), "lean-exact");
    assert_eq!(evidence_class_name(EvidenceClass::Replay), "replay");
    assert_eq!(evidence_class_name(EvidenceClass::LeanRefutation), "lean-refutation");
    assert_eq!(evidence_class_name(EvidenceClass::Assumption), "assumption");
    assert_eq!(backend_diagnostic(BackendDiagnostic::Invalid), "the candidate is invalid");
    assert_eq!(backend_diagnostic(BackendDiagnostic::Exhausted), "the compilation budget is exhausted");
    assert_eq!(backend_diagnostic(BackendDiagnostic::Unsupported), "the candidate is outside Core-Bootstrap");
    assert_eq!(backend_diagnostic(BackendDiagnostic::Defective), "the compiler refused a defective module");
}

#[test]
fn signed_numbers_and_public_detail() {
    let mut out = String::from("=");
    append_signed(-42, &mut out);
    append_signed(7, &mut out);
    assert_eq!(out, "=-427");
    let mut out = String::new();
    append_signed(i64::MIN, &mut out);
    assert_eq!(out, "-9223372036854775808");
    let v = value(r#"{"b":[true,null,"x"],"handle":5,"a":-1}"#);
    assert_eq!(text_of(&v), r#"{"a":-1,"b":[true,null,"x"]}"#);
    let v = value(r#"[{"handle":1},{"handle":2,"z":{"handle":3}}]"#);
    assert_eq!(text_of(&v), r#"[{},{"z":{}}]"#);
}

#[test]
fn report_lines_and_refusal_lines() {
    assert_eq!(
        lib::companion_reports::line("stack", "reported", vec![]).encode(),
        r#"{"schema":"noble-companions-report/v1","operation":"stack","outcome":"reported"}"#
    );
    let r = refusal_line("submit", &Refused::script("bad".to_string()));
    assert_eq!(
        r.encode(),
        r#"{"schema":"noble-companions-report/v1","operation":"submit","outcome":"malformed","diagnostic":{"code":"script","message":"bad"},"prover_calls":0,"guest_requests":0,"protected_operations":0,"implicit_evidence_fetches":0,"candidate_body_started":false}"#);
}

#[test]
fn stack_indices_and_signed_integers() {
    assert_eq!(ok(index_of("2", 3)), 2);
    let f = refused(index_of("3", 3));
    assert_eq!(f.outcome, "malformed");
    assert_eq!(f.code, "stack-index");
    assert_eq!(f.message, "stack index 3 is outside the 3-slot stack");
    let f = refused(index_of("x", 3));
    assert_eq!(f.code, "script");
    assert_eq!(f.message, "'x' is not a stack index");
    assert_eq!(ok(integer_of("-5")), -5);
    assert_eq!(ok(integer_of("+5")), 5);
    assert_eq!(ok(integer_of("-9223372036854775808")), i64::MIN);
    assert_eq!(ok(integer_of("9223372036854775807")), i64::MAX);
    let f = refused(integer_of("9223372036854775808"));
    assert_eq!(f.message, "'9223372036854775808' is not a signed 64-bit integer");
    assert!(integer_of("-+5").is_err());
    assert!(integer_of("-").is_err());
    assert!(integer_of("").is_err());
}

#[test]
fn injected_cells_are_exact() {
    assert_eq!(i64_injection(-3).encode(), r#"{"type":"I64","value":"-3"}"#);
    assert_eq!(program_injection(9).encode(), r#"{"type":"Program","handle":9}"#);
    assert_eq!(
        contract_injection(1, 18446744073709551615, 4).encode(),
        r#"{"type":"Contract","index":1,"statement":"18446744073709551615","claim_kind":1,"revision":4}"#
    );
    assert_eq!(
        evidence_injection(2, 3, 5, 7).encode(),
        r#"{"type":"Evidence","index":2,"class":3,"ruleset":5,"contract":7}"#
    );
    assert_eq!(
        certified_injection(1, 2, 3, 44).encode(),
        r#"{"type":"Certified","subject":1,"contract":2,"evidence":3,"identity":"44"}"#
    );
    assert_eq!(injection_frame(&[]), "[]");
    assert_eq!(
        injection_frame(&[i64_injection(1), program_injection(2)]),
        r#"[{"type":"I64","value":"1"},{"type":"Program","handle":2}]"#
    );
}

#[test]
fn reply_counts_and_nested_numbers() {
    let v = value(r#"{"guest_requests":3,"contract":{"index":7,"big":4294967296},"neg":-1}"#);
    assert_eq!(ok(runtime_count(&v, "guest_requests")).encode(), "3");
    let f = refused(runtime_count(&v, "protected_operations"));
    assert_eq!(f.message, "runtime omitted protected_operations");
    assert!(runtime_count(&v, "neg").is_err());
    assert_eq!(ok(nested_number(&v, "contract", "index")), 7);
    let f = refused(nested_number(&v, "contract", "big"));
    assert_eq!(f.message, "companion contract has no big");
    let f = refused(nested_number(&v, "evidence", "index"));
    assert_eq!(f.message, "companion evidence has no index");
}

const REPLY: &str = r#"{"outcome":"returned","stack":[{"type":"I64","value":"5","handle":1},{"type":"Sum","value":{"tag":1,"handle":9},"handle":2}],"module":{"name":"m","handle":4},"guest_requests":2,"protected_operations":1,"events":[{"kind":1,"value":"10"},{"kind":2,"value":"18446744073709551615"}]}"#;

#[test]
fn stack_slots_and_top_values() {
    let v = value(REPLY);
    let s = ok(slots(&v));
    assert_eq!(s, vec![("I64".to_string(), Some(1)), ("Sum".to_string(), Some(2))]);
    assert_eq!(
        ok(stack_json(&v)).encode(),
        r#"[{"type":"I64","handle":1,"detail":"{\"type\":\"I64\",\"value\":\"5\"}"},{"type":"Sum","handle":2,"detail":"{\"type\":\"Sum\",\"value\":{\"tag\":1}}"}]"#
    );
    assert_eq!(top_value(&v).encode(), r#""{\"type\":\"Sum\",\"value\":{\"tag\":1}}""#);
    assert_eq!(top_payload(&v).encode(), r#""{\"tag\":1}""#);
    let empty = value(r#"{"stack":[]}"#);
    assert!(matches!(top_value(&empty), Json::Null));
    assert!(matches!(top_payload(&empty), Json::Null));
    let none = value(r#"{"outcome":"x"}"#);
    let f = refused(slots(&none));
    assert_eq!((f.outcome, f.code.as_str(), f.message.as_str()), ("malformed", "engine-report", "reply has no stack"));
    assert!(stack_json(&none).is_err());
}

#[test]
fn reflection_events_in_order() {
    let v = value(REPLY);
    assert_eq!(ok(reflection_events(&v)), vec![(1, 10), (2, u64::MAX)]);
    let f = refused(reflection_events(&value(r#"{"events":[{"kind":1}]}"#)));
    assert_eq!((f.code.as_str(), f.message.as_str()), ("engine-report", "event without value"));
    let f = refused(reflection_events(&value(r#"{"events":[{"value":"1"}]}"#)));
    assert_eq!(f.message, "event without kind");
    let f = refused(reflection_events(&value(r#"{"events":[{"kind":1,"value":"x"}]}"#)));
    assert_eq!(f.message, "event value is not an unsigned 64-bit integer");
    let f = refused(reflection_events(&value(r#"{"events":[{"kind":4294967296,"value":"1"}]}"#)));
    assert_eq!((f.code.as_str(), f.message.as_str()), ("script", "event kind exceeds the engine kind domain"));
    let f = refused(reflection_events(&value(r#"{}"#)));
    assert_eq!(f.message, "reply has no events");
}

#[test]
fn engine_replies_are_parsed_or_refused() {
    assert!(parse_report(REPLY).is_ok());
    let f = refused(parse_report("{"));
    assert_eq!(f.code, "engine-report");
}

#[test]
fn submit_and_plain_reports() {
    let v = value(REPLY);
    let r = ok(submit_report(false, &v)).encode();
    assert!(r.starts_with(r#"{"schema":"noble-companions-report/v1","operation":"submit","outcome":"returned","stack":["#));
    assert!(r.ends_with(r#""module":"{\"name\":\"m\"}","guest_requests":2,"protected_operations":1,"behavioral_certification_claimed":false,"contract_profile":"available","prover_calls":0,"candidate_prepare_requests":0}"#));
    let p = ok(submit_report(true, &v)).encode();
    assert!(p.contains(r#""operation":"plain""#));
    assert!(p.contains(r#""contract_profile":"absent""#));
    let f = refused(submit_report(false, &value(r#"{"stack":[]}"#)));
    assert_eq!(f.message, "runtime omitted module provenance");
    let f = refused(submit_report(false, &value(r#"{"stack":[],"module":null}"#)));
    assert_eq!(f.message, "runtime omitted guest_requests");
    let f = refused(submit_report(false, &value(r#"{"stack":[],"module":null,"guest_requests":0}"#)));
    assert_eq!(f.message, "runtime omitted protected_operations");
    let f = refused(submit_report(false, &value(r#"{}"#)));
    assert_eq!(f.message, "reply has no stack");
}

#[test]
fn stack_policy_inspect_project_reports() {
    let v = value(r#"{"stack":[{"type":"Program","handle":3}]}"#);
    assert_eq!(
        ok(stack_report(&v)).encode(),
        r#"{"schema":"noble-companions-report/v1","operation":"stack","outcome":"reported","stack":[{"type":"Program","handle":3,"detail":"{\"type\":\"Program\"}"}],"guest_requests":0,"protected_operations":0}"#
    );
    let (revision, report) = ok(policy("7"));
    assert_eq!(revision, 7);
    assert_eq!(
        report.encode(),
        r#"{"schema":"noble-companions-report/v1","operation":"policy","outcome":"selected","policy_revision":7,"prover_calls":0,"guest_requests":0}"#
    );
    let f = refused(policy("4294967296"));
    assert_eq!(f.message, "'4294967296' is not a policy revision");
    assert_eq!(
        ok(inspect_report(0, &v)).encode(),
        r#"{"schema":"noble-companions-report/v1","operation":"inspect","outcome":"inspected","type":"Program","detail":"{\"type\":\"Program\"}","implicit_evidence_fetches":0,"authority_created":false,"prover_calls":0}"#
    );
    let f = refused(inspect_report(1, &v));
    assert_eq!(f.message, "stack has no slot 1");
    assert_eq!(
        project_report(3, 2, "abc").encode(),
        r#"{"schema":"noble-companions-report/v1","operation":"project","outcome":"projected","subject_handle":3,"contract_reference":2,"subject_identity":"abc","identity_unchanged":true,"prover_calls":0,"guest_requests":0}"#
    );
}

#[test]
fn public_text_reads_back() {
    let v = parse(r#"{"a":[1,-2,"x\u0001\"\\é",null,true,[]],"b":{"c":false,"d":{}},"e":-9223372036854775808}"#).unwrap();
    let text = text_of(&v);
    let again = parse(&text).unwrap();
    assert_eq!(text_of(&again), text);
    assert!(matches!(&again, Value::Object(entries) if entries.len() == 3 && entries[0].0 == "a"));
    match (&v, &again) {
        (Value::Object(x), Value::Object(y)) => {
            assert_eq!(x.len(), y.len());
            for (p, q) in x.iter().zip(y.iter()) {
                assert_eq!(p.0, q.0);
                assert_eq!(text_of(&p.1), text_of(&q.1));
            }
        }
        _ => panic!("expected objects"),
    }
    let s = parse(r#""tab\tline\nquote\"""#).unwrap();
    assert!(matches!(parse(&text_of(&s)).unwrap(), Value::Text(t) if t == "tab\tline\nquote\""));
}
