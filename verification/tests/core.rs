use lib::digest::{digest_text, fold, hex_digits, hex_u64, statement_fold, FNV_OFFSET};
use lib::evidence::{acceptance_output, rejection_code};
use lib::framing::{bounded, frame_length, io_error, read_line, reply, reply_header, LineStep};
use lib::json::{hex, object, optional_string, quote_json, string, strings, Json};
use lib::outcome::{Failure, Outcome};
use lib::reader::{parse, Value};
use lib::session::{
    exit, next_submission, retained_names, session_step, BackendDiagnostic, DiagnosticKind, ErrorContext,
    Failure as CoreFailure, Report, SourceError, Span, Stage,
};
use lib::utf8::{decode, is_utf8};

#[test]
fn outcome_names_and_exit_statuses() {
    let all = [
        (Outcome::Proved, "proved", 0),
        (Outcome::Disproved, "disproved", 1),
        (Outcome::Error, "error", 2),
        (Outcome::Unknown, "unknown", 3),
        (Outcome::Unsupported, "unsupported", 4),
        (Outcome::Timeout, "timeout", 124),
        (Outcome::NotRun, "not-run", 0),
    ];
    for (outcome, name, status) in all {
        assert_eq!(outcome.name(), name);
        assert_eq!(outcome.exit(), status);
    }
}

#[test]
fn failure_json_has_code_message_details() {
    let f = Failure::error("usage", "bad".to_string());
    assert_eq!(f.json().encode(), r#"{"code":"usage","message":"bad","details":null}"#);
    let t = Failure::timeout("late");
    assert_eq!(t.outcome, Outcome::Timeout);
    assert_eq!(t.code, "timeout");
    assert_eq!(Failure::unsupported("x", "y".to_string()).outcome, Outcome::Unsupported);
}

#[test]
fn json_encoding_is_exact() {
    let j = object(vec![
        ("a", Json::Number(12)),
        ("b", string("q\"\\\n\u{1}")),
        ("c", Json::Array(vec![Json::Bool(true), Json::Null, Json::Bool(false)])),
        ("d", optional_string(None)),
        ("e", strings(&["x", "y"])),
    ]);
    assert_eq!(j.encode(), "{\"a\":12,\"b\":\"q\\\"\\\\\\n\\u0001\",\"c\":[true,null,false],\"d\":null,\"e\":[\"x\",\"y\"]}");
    let mut out = String::from(">");
    quote_json("\t\r\u{8}\u{c}/é", &mut out);
    assert_eq!(out, ">\"\\t\\r\\u0008\\u000c/é\"");
    assert_eq!(hex(&[0, 15, 16, 255]), "000f10ff");
    assert_eq!(Json::Array(vec![]).encode(), "[]");
    assert_eq!(object(vec![]).encode(), "{}");
    assert_eq!(Json::Number(u64::MAX).encode(), "18446744073709551615");
}

#[test]
fn reader_reads_values_and_orders_keys() {
    let v = parse(" {\"b\": [1, -2, true], \"a\": \"x\\u0041\", \"b\": null} ").ok().unwrap();
    assert!(matches!(v.member("b"), Some(Value::Null)));
    assert_eq!(v.member("a").and_then(Value::text), Some("xA"));
    match &v {
        Value::Object(entries) => {
            assert_eq!(entries.len(), 2);
            assert_eq!(entries[0].0, "a");
            assert_eq!(entries[1].0, "b");
        }
        _ => panic!("not an object"),
    }
    let n = parse("[-9223372036854775808, 9223372036854775807, 0]").ok().unwrap();
    let items = n.items().unwrap();
    assert_eq!(items[0].number(), Some(i64::MIN));
    assert_eq!(items[1].index(), Some(i64::MAX as u64));
    assert_eq!(items[0].index(), None);
}

#[test]
fn reader_refusals() {
    assert_eq!(parse("[1] x").err().unwrap(), "trailing bytes after the report document");
    assert_eq!(parse("9223372036854775808").err().unwrap(), "report number is outside signed 64-bit");
    assert_eq!(parse("tru").err().unwrap(), "report document has an invalid literal");
    assert_eq!(parse("\"abc").err().unwrap(), "unterminated report string");
    assert_eq!(parse("\"\\q\"").err().unwrap(), "report document has an invalid string escape");
    assert_eq!(parse("\"\\ud800\"").err().unwrap(), "unicode escape is not a scalar value");
    assert_eq!(parse("[1,").err().unwrap(), "report array is unterminated");
    let deep = format!("{}{}", "[".repeat(33), "]".repeat(33));
    assert_eq!(parse(&deep).err().unwrap(), "report document nesting exceeds the reader bound");
    let shallow = format!("{}{}", "[".repeat(32), "]".repeat(32));
    assert!(parse(&shallow).is_ok());
    let big = " ".repeat(4_194_305);
    assert_eq!(parse(&big).err().unwrap(), "report document exceeds the reader bound");
}

#[test]
fn digests() {
    assert_eq!(statement_fold(b""), FNV_OFFSET);
    assert_eq!(statement_fold(b"a"), 0xaf63dc4c8601ec8c);
    assert_eq!(fold(FNV_OFFSET, b"foobar"), 0x85944171f73967e8);
    assert_eq!(digest_text(0), "0");
    assert_eq!(digest_text(0xab), "171");
    assert_eq!(digest_text(u64::MAX), "18446744073709551615");
    assert_eq!(digest_text(12345).parse::<u64>(), Ok(12345));
    assert_eq!(hex_digits(0xab), "00000000000000ab");
    assert_eq!(hex_digits(u64::MAX), "ffffffffffffffff");
    assert_eq!(hex_u64(Some(1)).encode(), "\"0000000000000001\"");
    assert_eq!(hex_u64(None).encode(), "null");
}

#[test]
fn recheck_acceptance() {
    let ok = acceptance_output("NOBLE-MC1-ACCEPT\naxiom:propext\r\naxiom:Quot.sound\n").ok().unwrap();
    assert_eq!(ok, vec!["propext".to_string(), "Quot.sound".to_string()]);
    assert_eq!(acceptance_output("NOBLE-MC1-ACCEPT").ok().unwrap(), Vec::<String>::new());
    let f = acceptance_output("no").err().unwrap();
    assert_eq!(f.code, "consumer-protocol");
    assert_eq!(f.message, "trusted checker did not report acceptance");
    assert_eq!(acceptance_output("NOBLE-MC1-ACCEPT\naxiom:sorryAx").err().unwrap().message, "unapproved or duplicate axiom output");
    assert_eq!(acceptance_output("NOBLE-MC1-ACCEPT\naxiom:propext\naxiom:propext").err().unwrap().message, "duplicate axiom output");
    assert_eq!(acceptance_output("NOBLE-MC1-ACCEPT\nhello").err().unwrap().message, "unexpected trusted-checker output");
}

#[test]
fn rejection_codes_by_first_marker() {
    assert_eq!(rejection_code("x MC1_TYPE_MISMATCH y MC1_THEOREM_MISSING"), "theorem-missing");
    assert_eq!(rejection_code("MC1_TYPE_MISMATCH"), "theorem-type-mismatch");
    assert_eq!(rejection_code("..MC1_AXIOM_REJECTED"), "forbidden-axiom");
    assert_eq!(rejection_code("MC1_DEPENDENCY_LIMIT"), "dependency-limit");
    assert_eq!(rejection_code(""), "independent-recheck-rejected");
}

#[test]
fn session_reports() {
    let defined = Report::defined(3);
    assert_eq!(defined.outcome, "defined");
    assert_eq!(defined.json, "{\"schema\":\"noble-core-report/v1\",\"profile\":\"Core-Bootstrap\",\"backend\":\"managed-linear-memory\",\"submission\":3,\"stage\":\"check\",\"outcome\":\"defined\",\"diagnostic\":\"definition installed; body not executed\",\"source_span\":null,\"guest_requests\":0,\"protected_operations\":0,\"candidate_prepare_requests\":0,\"prior_stack\":\"unchanged\",\"prior_namespace\":\"extended\",\"prior_session\":\"definition-installed\"}");
    let error = SourceError { stage: Stage::Check, kind: DiagnosticKind::Invalid, message: "no".to_string(), span: Span { start: 1, end: 4 } };
    let report = Report::source_error(&error, 2);
    assert_eq!(report.outcome, "type-reject");
    assert!(report.json.contains("\"source_span\":{\"start\":1,\"end\":4}"));
    assert!(report.json.contains("\"prior_namespace\":\"unchanged\""));
    let f = CoreFailure::source(&SourceError { stage: Stage::Resolve, kind: DiagnosticKind::Invalid, message: "w".to_string(), span: Span { start: 0, end: 0 } });
    assert_eq!(f.context.outcome, "unbound-word");
    assert_eq!(f.context.stage, "resolve");
    let b = CoreFailure::backend(BackendDiagnostic::Defective);
    assert_eq!(b.context.outcome, "internal-failure");
    assert_eq!(b.message, "independent source compilation refused");
    assert_eq!(Report::backend_error(BackendDiagnostic::Invalid, 1).outcome, "reject");
    let failed = Report::failure(&CoreFailure::new(ErrorContext { stage: "shell", outcome: "internal-failure" }, "disk".to_string()));
    assert!(failed.json.contains("\"submission\":0"));
    assert!(failed.is_terminal());
}

#[test]
fn exit_statuses_and_session_end() {
    assert_eq!(exit("normal"), 0);
    assert_eq!(exit("ready"), 0);
    assert_eq!(exit("unsupported"), 4);
    assert_eq!(exit("runtime-exhausted"), 5);
    assert_eq!(exit("trap"), 1);
    assert_eq!(exit("reject"), 2);
    let trap = Report { outcome: "trap".to_string(), json: String::new() };
    assert_eq!(session_step(4, &trap), (4, true));
    let normal = Report { outcome: "normal".to_string(), json: String::new() };
    assert_eq!(session_step(0, &normal), (0, false));
    let reject = Report { outcome: "reject".to_string(), json: String::new() };
    assert_eq!(session_step(1, &reject), (2, false));
    assert_eq!(next_submission(7).ok(), Some(8));
    assert_eq!(next_submission(u64::MAX).err().unwrap().message, "submission counter exhausted");
    assert_eq!(retained_names(12), ("12.noble".to_string(), "12.json".to_string()));
}

#[test]
fn line_reading_under_a_budget() {
    let mut line = Vec::new();
    assert_eq!(read_line(&mut line, b"ab", 10).ok(), Some(LineStep::Partial(2)));
    assert_eq!(read_line(&mut line, b"c\nrest", 10).ok(), Some(LineStep::Complete(2)));
    assert_eq!(line, b"abc\n".to_vec());
    let mut empty = Vec::new();
    assert_eq!(read_line(&mut empty, b"", 10).ok(), Some(LineStep::Ended));
    let mut long = Vec::new();
    let f = read_line(&mut long, b"0123456789\n", 10).err().unwrap();
    assert_eq!(f.context.outcome, "exhausted");
    assert_eq!(f.message, "source byte limit exceeded");
    let mut exact = Vec::new();
    assert_eq!(read_line(&mut exact, b"012345678\n", 10).ok(), Some(LineStep::Complete(10)));
}

#[test]
fn frame_headers() {
    assert_eq!(frame_length(b"12\n", 100).ok(), Some(12));
    assert_eq!(frame_length(b"+7 \t\n", 100).ok(), Some(7));
    assert_eq!(frame_length(b"101\n", 100).err().unwrap().context.outcome, "exhausted");
    let f = frame_length(b" 1\n", 100).err().unwrap();
    assert_eq!(f.message, "invalid source frame byte count");
    assert_eq!(f.context.outcome, "invalid-input");
    assert!(frame_length(b"4294967296\n", u32::MAX).is_err());
    assert!(frame_length(&[0xff, b'1'], 100).is_err());
    assert!(bounded(vec![1, 2, 3], 3).is_ok());
    assert_eq!(bounded(vec![1, 2, 3, 4], 3).err().unwrap().context.outcome, "exhausted");
    assert_eq!(io_error("gone".to_string()).context.stage, "shell");
}

#[test]
fn reply_headers_and_bodies() {
    let (outcome, count) = reply_header(b"normal 12\n").ok().unwrap();
    assert_eq!(outcome, "normal");
    assert_eq!(count, 12);
    assert!(reply_header(b"normal\n").is_err());
    assert!(reply_header(b"normal 1 2\n").is_err());
    assert!(reply_header(b"normal 4194305\n").is_err());
    assert_eq!(reply_header(b"\tready  4194304 ").ok().unwrap().1, 4_194_304);
    let r = reply("ready".to_string(), b"{}").ok().unwrap();
    assert_eq!(r.json, "{}");
    assert_eq!(reply("ready".to_string(), &[0xc0]).err().unwrap().message, "invalid bounded engine-worker protocol");
}

#[test]
fn utf8_decoding() {
    assert_eq!(decode("héllo €".as_bytes()), Some("héllo €".to_string()));
    assert_eq!(decode(&[0xed, 0xa0, 0x80]), None);
    assert_eq!(decode(&[0xc0, 0x80]), None);
    assert!(is_utf8("𝄞".as_bytes()));
    assert!(!is_utf8(&[0xf8]));
}
