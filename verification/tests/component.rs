use lib::component::{
    assembly, backend, bindings, bundle_files, compiled, diagnostic, effect_accepted, effect_claim, export_source_name, mode,
    refusal, selection, source_argument, tool_pin, tool_step, usage, Mode, Operation, Resource, World, USAGE, WASM_TOOLS,
};
use lib::experiment::{
    diagnostic_message, experiment, owner_slot_representations, owner_slot_verdict, Experiment, Representation,
    REJECTION_LINE,
};
use lib::outcome::{Failure, Outcome};
use lib::pipeline::{
    checker_mount, compile_arguments, export_arguments, export_mounts, export_source, exporter_mounts, obligation_mounts,
    replay_arguments, replay_mounts, rule_mounts, run_failure, search_path, submission_mounts, Run, Workspace,
};
use lib::sandbox::Transcript;
use lib::session::{BackendDiagnostic, DiagnosticKind};
use lib::subject::{definitions, describe, excerpt_of, expressions, named_types, predicate, Definition, Expression, NamedType, PreparedContract};

fn args(words: &[&str]) -> Vec<Vec<u8>> {
    words.iter().map(|w| w.as_bytes().to_vec()).collect()
}

fn failure<T>(r: Result<T, Failure>) -> Failure {
    match r {
        Ok(_) => panic!("expected a failure"),
        Err(f) => f,
    }
}

#[test]
fn component_selection_and_modes() {
    let s = selection(&args(&["component", "bindings", "a.wit", "w"])).ok().unwrap();
    assert_eq!((s.mode.as_str(), s.wit_path.as_slice(), s.world.as_str()), ("bindings", &b"a.wit"[..], "w"));
    let f = failure(selection(&args(&["component", "bindings", "a.wit"])));
    assert_eq!((f.outcome, f.code, f.message.as_str()), (Outcome::Error, "component-arguments", USAGE));
    assert!(selection(&args(&["component"])).is_err());
    let mut bad = args(&["component", "bindings", "a.wit", "w"]);
    bad[3] = vec![0xff];
    assert!(selection(&bad).is_err());
    bad[3] = b"w".to_vec();
    bad[2] = vec![0xff];
    assert_eq!(selection(&bad).ok().unwrap().wit_path, vec![0xff]);
    assert_eq!(mode("bindings", 4).ok(), Some(Mode::Bindings));
    assert!(mode("bindings", 5).is_err());
    assert_eq!(mode("check-effect", 5).ok(), Some(Mode::CheckEffect));
    assert_eq!(mode("compile", 69).ok(), Some(Mode::Compile));
    assert!(mode("compile", 70).is_err());
    assert!(mode("compile", 4).is_err());
    assert!(mode("other", 5).is_err());
    assert_eq!(usage().message, USAGE);
}

#[test]
fn effect_claims_and_sources() {
    let (word, claimed) = effect_claim(&args(&["component", "check-effect", "a.wit", "w", "read", "io", "net"])).ok().unwrap();
    assert_eq!(word, "read");
    assert_eq!(claimed, vec!["io".to_string(), "net".to_string()]);
    let (word, claimed) = effect_claim(&args(&["component", "check-effect", "a.wit", "w", "read"])).ok().unwrap();
    assert_eq!((word.as_str(), claimed.len()), ("read", 0));
    let mut bad = args(&["component", "check-effect", "a.wit", "w", "read", "io"]);
    bad[5] = vec![0xc3];
    assert!(effect_claim(&bad).is_err());
    assert_eq!(source_argument(b"add=src/add.noble").ok(), Some(("add".to_string(), "src/add.noble".to_string())));
    assert_eq!(source_argument(b"a=b=c").ok(), Some(("a".to_string(), "b=c".to_string())));
    assert!(source_argument(b"=x").is_err());
    assert!(source_argument(b"x=").is_err());
    assert!(source_argument(b"x").is_err());
    assert!(source_argument(&[0xff, b'=', b'x']).is_err());
    assert_eq!(export_source_name(12), "export-12.noble");
}

#[test]
fn checker_and_lowering_failures() {
    let f = diagnostic(DiagnosticKind::Unsupported, "Resolve", "no such world");
    assert_eq!((f.outcome, f.code, f.message.as_str()), (Outcome::Unsupported, "component-check", "Resolve: no such world"));
    assert_eq!(diagnostic(DiagnosticKind::Invalid, "Parse", "x").outcome, Outcome::Error);
    assert_eq!(diagnostic(DiagnosticKind::Exhausted, "Parse", "x").outcome, Outcome::Error);
    assert_eq!(diagnostic(DiagnosticKind::Internal, "Parse", "x").outcome, Outcome::Error);
    let f = backend(BackendDiagnostic::Unsupported);
    assert_eq!((f.outcome, f.code, f.message.as_str()), (Outcome::Unsupported, "component-lowering", "unsupported component source lowering"));
    assert_eq!(backend(BackendDiagnostic::Invalid).message, "component export or environment rejected");
    assert_eq!(backend(BackendDiagnostic::Exhausted).message, "component preparation budget exhausted");
    assert_eq!(backend(BackendDiagnostic::Defective).message, "component lowering invariant failed");
}

fn world() -> World {
    World {
        identity: "w@1".to_string(),
        profile: "sync".to_string(),
        imports: vec![Operation {
            identity: "host.read".to_string(),
            word: "read".to_string(),
            export_name: "read".to_string(),
            input_types: vec!["I64".to_string()],
            output_types: vec![],
            parameters: vec!["S64".to_string()],
            results: vec![],
            effect: true,
        }],
        exports: vec![],
        resources: vec![Resource { identity: "file".to_string(), kind: 2 }],
        build_context: vec![0xab, 0x01],
    }
}

#[test]
fn component_reports() {
    assert_eq!(
        bindings(&world()).encode(),
        r#"{"schema":"noble-component/v1","profile":"sync","outcome":"typed-bindings","world":"w@1","imports":[{"identity":"host.read","word":"read","export":"read","input_types":["I64"],"output_types":[],"wit_parameters":["S64"],"wit_results":[],"effects":["host.read"]}],"exports":[],"resources":[{"identity":"file","kind":2,"data":false,"capture":false}],"build_context_hex":"ab01","component_emitted":false}"#
    );
    assert_eq!(
        effect_accepted().encode(),
        r#"{"schema":"noble-component/v1","outcome":"accepted","component_emitted":false,"guest_requests":0}"#
    );
    let (doc, exit) = refusal(&usage());
    assert_eq!(exit, 2);
    assert!(doc.encode().starts_with(r#"{"schema":"noble-component/v1","outcome":"error","diagnostic":{"code":"component-arguments","#));
    assert!(doc.encode().ends_with(r#""details":null},"component_emitted":false}"#));
    let (_, exit) = refusal(&backend(BackendDiagnostic::Unsupported));
    assert_eq!(exit, 4);
    let text = compiled(&world(), &[1, 2], &["add".to_string(), "sub".to_string()], 300, "/tmp/out").encode();
    assert_eq!(
        text,
        format!(
            r#"{{"schema":"noble-component/v1","profile":"sync","outcome":"compiled","world":"w@1","component_emitted":true,"independent_kernel_check":true,"build_context_hex":"0102","component_bytes":300,"exports":[{{"name":"add","source":"export-0.noble"}},{{"name":"sub","source":"export-1.noble"}}],"output":"/tmp/out","assembler":"{}","abi":"wasm-tools-1.245.1-sync-memory32-utf8"}}"#,
            WASM_TOOLS
        )
    );
}

fn transcript(succeeded: bool, stdout: &str, stderr: &str) -> Transcript {
    Transcript {
        succeeded,
        signal: None,
        status: String::new(),
        stdout: stdout.to_string(),
        stderr: stderr.to_string(),
    }
}

#[test]
fn the_assembler_is_pinned_and_checked() {
    assert!(tool_pin("wasm-tools 1.245.1\n").is_ok());
    let f = failure(tool_pin("wasm-tools 1.245.0"));
    assert_eq!((f.outcome, f.code, f.message.as_str()), (Outcome::Unsupported, "component-tool-pin", "Component-Sync-Bootstrap requires wasm-tools 1.245.1"));
    assert!(tool_step(transcript(true, "", "")).is_ok());
    let f = failure(tool_step(transcript(false, "", "bad wat")));
    assert_eq!((f.code, f.message.as_str()), ("component-assembly", "bad wat"));
    let steps = assembly("w");
    assert_eq!(steps.len(), 4);
    assert_eq!(steps[0], vec!["parse", "module.wat", "-o", "core.wasm"]);
    assert_eq!(
        steps[1],
        vec!["component", "embed", "--world", "w", "--encoding", "utf8", "world.wit", "core.wasm", "-o", "embedded.wasm"]
    );
    assert_eq!(steps[2], vec!["component", "new", "embedded.wasm", "-o", "component.wasm"]);
    assert_eq!(steps[3], vec!["validate", "component.wasm"]);
    assert_eq!(bundle_files(), vec!["world.wit", "module.wat", "core.wasm", "component.wasm", "report.json"]);
}

#[test]
fn experiment_selection() {
    assert_eq!(experiment(&args(&["wasm-experiment", "wasm-gc"])), Ok(Experiment::Compile(Representation::WasmGc)));
    assert_eq!(
        experiment(&args(&["wasm-experiment", "managed-linear-memory"])),
        Ok(Experiment::Compile(Representation::ManagedLinearMemory))
    );
    assert_eq!(experiment(&args(&["wasm-experiment", "reject-owner-slot"])), Ok(Experiment::RejectOwnerSlot));
    assert_eq!(experiment(&args(&["wasm-experiment"])), Err(lib::experiment::USAGE));
    assert_eq!(experiment(&args(&["wasm-experiment", "gc", "x"])), Err(lib::experiment::USAGE));
    assert_eq!(experiment(&args(&["wasm-experiment", "gc"])), Err(lib::experiment::USAGE));
    assert_eq!(diagnostic_message(BackendDiagnostic::Invalid), "M3 backend rejected an invalid candidate");
    assert_eq!(diagnostic_message(BackendDiagnostic::Exhausted), "M3 backend preparation quota exhausted");
    assert_eq!(diagnostic_message(BackendDiagnostic::Unsupported), "M3 backend does not support this vocabulary");
    assert_eq!(diagnostic_message(BackendDiagnostic::Defective), "M3 backend detected a defective environment");
}

#[test]
fn owner_slot_negative_control() {
    assert_eq!(owner_slot_representations(), vec![Representation::WasmGc, Representation::ManagedLinearMemory]);
    let both = [Err(BackendDiagnostic::Invalid), Err(BackendDiagnostic::Invalid)];
    assert_eq!(owner_slot_verdict(&both), Ok(REJECTION_LINE));
    assert_eq!(
        REJECTION_LINE,
        r#"{"stage":"backend-interface-check","outcome":"reject","artifact_emitted":false,"guest_requests":0,"protected_operations":0}"#
    );
    let accepted = [Err(BackendDiagnostic::Invalid), Ok(())];
    assert_eq!(owner_slot_verdict(&accepted), Err("owner-slot adaptation was not rejected as invalid"));
    let other = [Err(BackendDiagnostic::Exhausted), Err(BackendDiagnostic::Invalid)];
    assert!(owner_slot_verdict(&other).is_err());
}

fn prepared() -> PreparedContract {
    PreparedContract {
        name: "inc".to_string(),
        candidate_format: 1,
        semantic_revision: 0,
        inputs: vec![NamedType { name: "x".to_string(), ty: "I64".to_string() }],
        outputs: vec![NamedType { name: "y".to_string(), ty: "I64".to_string() }],
        params: vec![],
        definitions: vec![Definition { name: "d".to_string(), ty: "Prop".to_string(), body: 1 }],
        expressions: vec![
            Expression { kind: "Var".to_string(), ty: "I64".to_string(), start: 0, end: 3 },
            Expression { kind: "Ge".to_string(), ty: "Bool".to_string(), start: 4, end: 10 },
            Expression { kind: "Bad".to_string(), ty: "Bool".to_string(), start: 5, end: 2 },
        ],
        requires: 1,
        ensures: 2,
        candidate: "Candidate { .. }".to_string(),
        request: "Request { .. }".to_string(),
    }
}

#[test]
fn subject_descriptions() {
    let p = prepared();
    let source = b"abc x >= 0 and more";
    assert_eq!(excerpt_of(&p.expressions, source, 1), Some("x >= 0".to_string()));
    assert_eq!(excerpt_of(&p.expressions, source, 2), None);
    assert_eq!(excerpt_of(&p.expressions, source, 3), None);
    assert_eq!(excerpt_of(&p.expressions, b"abc", 1), None);
    assert_eq!(excerpt_of(&p.expressions, &[0xff, 0xfe, 0xfd], 0), None);
    assert_eq!(predicate(&p.expressions, source, 1).encode(), r#"{"expression":1,"source":"x >= 0"}"#);
    assert_eq!(predicate(&p.expressions, source, 7).encode(), r#"{"expression":7,"source":null}"#);
    assert_eq!(named_types(&p.inputs).encode(), r#"[{"name":"x","type":"I64"}]"#);
    assert_eq!(definitions(&p.definitions).encode(), r#"[{"name":"d","type":"Prop","body":1}]"#);
    assert!(expressions(&p.expressions).encode().starts_with(r#"[{"kind":"Var","type":"I64","span":{"start":0,"end":3}},"#));
    assert_eq!(
        describe(&p, source).encode(),
        r#"{"name":"inc","candidate_format":1,"semantic_revision":0,"inputs":[{"name":"x","type":"I64"}],"outputs":[{"name":"y","type":"I64"}],"ghost_parameters":[],"logical_definitions":[{"name":"d","type":"Prop","body":1}],"requires":{"expression":1,"source":"x >= 0"},"ensures":{"expression":2,"source":null},"typed_ir":[{"kind":"Var","type":"I64","span":{"start":0,"end":3}},{"kind":"Ge","type":"Bool","span":{"start":4,"end":10}},{"kind":"Bad","type":"Bool","span":{"start":5,"end":2}}],"accepted_candidate":"Candidate { .. }","acceptance_request":"Request { .. }","stack_order":"bottom-first; the last entry is top"}"#
    );
}

fn workspace() -> Workspace {
    Workspace {
        sources: "/w/src".to_string(),
        library: "/w/lib".to_string(),
        obligation: "/w/obl".to_string(),
        submission: "/w/sub".to_string(),
        producer: "/w/prod".to_string(),
        consumer: "/w/cons".to_string(),
        checker: "/w/chk".to_string(),
    }
}

fn binds(m: &[lib::sandbox::Mount]) -> Vec<(String, String, bool)> {
    m.iter().map(|m| (m.host.clone(), m.guest.clone(), m.writable)).collect()
}

fn ro(host: &str, guest: &str) -> (String, String, bool) {
    (host.to_string(), guest.to_string(), false)
}

#[test]
fn lean_runs() {
    let w = workspace();
    assert_eq!(
        compile_arguments("/inputs/A.lean", "/inputs", "/out/A.olean"),
        vec!["-R", "/checker", "-j", "2", "--run", "/checker/NobleCompile.lean", "/inputs/A.lean", "/inputs", "/out/A.olean"]
    );
    assert_eq!(binds(&[checker_mount(&w)]), vec![ro("/w/chk", "/checker")]);
    assert_eq!(binds(&rule_mounts(&w)), vec![ro("/w/src", "/inputs"), ro("/w/lib", "/out")]);
    assert_eq!(binds(&obligation_mounts(&w)), vec![ro("/w/lib", "/library"), ro("/w/obl", "/obligation")]);
    assert_eq!(
        binds(&submission_mounts(&w)),
        vec![ro("/w/lib", "/library"), ro("/w/obl", "/obligation"), ro("/w/sub", "/inputs"), ro("/w/prod", "/out")]
    );
    assert_eq!(export_source(false), "import NobleProducer\nimport MC1Proof\n\n#mc1_export MC1Proof.proof\n");
    assert_eq!(export_source(true), "import NobleProducer\nimport MC1Proof\n\n#mc1_export MC1Proof.refutation\n");
    assert_eq!(export_arguments(), vec!["-R", "/inputs", "-j", "2", "/inputs/ExportProof.lean"]);
    let m = export_mounts("/t/s", "/t/a", &w, "/t/a/MC1Proof.json");
    assert_eq!(
        binds(&m),
        vec![
            ro("/t/s", "/inputs"),
            ro("/t/a", "/out"),
            ro("/w/lib", "/library"),
            ro("/w/obl", "/obligation"),
            ro("/w/prod", "/producer"),
            ("/t/a/MC1Proof.json".to_string(), "/out/MC1Proof.json".to_string(), true),
        ]
    );
    assert_eq!(binds(&exporter_mounts("/t/s", "/t/a")), vec![ro("/t/s", "/inputs"), ro("/t/a", "/out")]);
    assert_eq!(
        replay_arguments(true),
        vec!["-R", "/checker", "-j", "2", "--run", "/checker/NobleConsumer.lean", "refutation", "/producer/MC1Proof.json"]
    );
    assert_eq!(replay_arguments(false)[6], "proof");
    assert_eq!(
        binds(&replay_mounts(&w)),
        vec![ro("/w/lib", "/library"), ro("/w/obl", "/obligation"), ro("/w/cons", "/producer"), ro("/w/chk", "/checker")]
    );
    assert_eq!(search_path(Run::RuleLibrary), "/out");
    assert_eq!(search_path(Run::Exporter), "/out");
    assert_eq!(search_path(Run::Obligation), "/library:/obligation");
    assert_eq!(search_path(Run::Submission), "/library:/obligation");
    assert_eq!(search_path(Run::Export), "/out:/library:/obligation:/producer");
    assert_eq!(run_failure(Run::Submission), ("proof-rejected", "proof elaboration failed; this is not a disproof"));
    assert_eq!(run_failure(Run::RuleLibrary).0, "rule-library-build");
    assert_eq!(run_failure(Run::Obligation).0, "obligation-build");
    assert_eq!(run_failure(Run::Exporter).0, "proof-export-build");
    assert_eq!(run_failure(Run::Export).0, "proof-export-rejected");
}
