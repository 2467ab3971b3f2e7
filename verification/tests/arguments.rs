use lib::arguments::{parse, InputType, Limits, USAGE};
use lib::build_arguments;
use lib::cli::{input_error_message, parse_budget, route, Command, InputError};
use lib::verify_arguments::{self, Refusal};

fn args(words: &[&str]) -> Vec<Vec<u8>> {
    words.iter().map(|w| w.as_bytes().to_vec()).collect()
}

fn maximum() -> Limits {
    Limits { bytes: 65_536, nodes: 16_384, depth: 64, work: 2_000_000 }
}

#[test]
fn run_takes_source_and_options() {
    let options = parse(&args(&["run", "main.noble", "--opt", "on", "--emit", "out"]), maximum()).ok().unwrap();
    assert_eq!(options.source, Some(b"main.noble".to_vec()));
    assert!(options.optimized);
    assert_eq!(options.emit, Some(b"out".to_vec()));
    assert!(!options.compile_only);
    assert!(!options.framed);
    assert_eq!(options.limits, maximum());
}

#[test]
fn session_accepts_framed_but_run_does_not() {
    let options = parse(&args(&["session", "--framed"]), maximum()).ok().unwrap();
    assert!(options.framed);
    assert!(options.source.is_none());
    let refused = parse(&args(&["run", "main.noble", "--framed"]), maximum()).err().unwrap();
    assert_eq!(refused.message, USAGE);
    assert_eq!(refused.context.stage, "arguments");
    assert_eq!(refused.context.outcome, "invalid-input");
}

#[test]
fn compile_collects_input_types_in_order() {
    let options = parse(&args(&["compile", "f.noble", "--input-type", "I64", "--input-type", "Text"]), maximum()).ok().unwrap();
    assert!(options.compile_only);
    assert_eq!(options.inputs, vec![InputType::I64, InputType::Text]);
    assert!(parse(&args(&["run", "f.noble", "--input-type", "I64"]), maximum()).is_err());
    assert!(parse(&args(&["compile", "f.noble", "--input-type", "Float"]), maximum()).is_err());
}

#[test]
fn limits_may_lower_but_not_raise_the_budget() {
    let options = parse(&args(&["run", "f", "--source-bytes", "100", "--source-depth", "+7"]), maximum()).ok().unwrap();
    assert_eq!(options.limits.bytes, 100);
    assert_eq!(options.limits.depth, 7);
    assert_eq!(options.limits.nodes, 16_384);
    assert!(parse(&args(&["run", "f", "--source-bytes", "65537"]), maximum()).is_err());
    assert!(parse(&args(&["run", "f", "--source-work", "-1"]), maximum()).is_err());
    assert!(parse(&args(&["run", "f", "--source-nodes", ""]), maximum()).is_err());
}

#[test]
fn repeated_or_incomplete_flags_are_usage_errors() {
    assert!(parse(&args(&["run", "f", "--opt", "on", "--opt", "off"]), maximum()).is_err());
    assert!(parse(&args(&["run", "f", "--opt"]), maximum()).is_err());
    assert!(parse(&args(&["run"]), maximum()).is_err());
    assert!(parse(&args(&["session", ""]), maximum()).is_err());
    assert!(parse(&args(&["run", "f", "--unknown", "x"]), maximum()).is_err());
}

#[test]
fn paths_keep_their_bytes() {
    let raw = vec![b"run".to_vec(), vec![0xff, 0x2f, 0x61], b"--emit".to_vec(), vec![0xfe]];
    let options = parse(&raw, maximum()).ok().unwrap();
    assert_eq!(options.source, Some(vec![0xff, 0x2f, 0x61]));
    assert_eq!(options.emit, Some(vec![0xfe]));
    let bad_flag = vec![b"run".to_vec(), b"f".to_vec(), vec![0xff], b"on".to_vec()];
    assert!(parse(&bad_flag, maximum()).is_err());
}

#[test]
fn verify_defaults_and_overrides() {
    let o = verify_arguments::parse(&args(&["verify", "c.noble"])).ok().unwrap();
    assert!(!o.is_explanation);
    assert_eq!(o.contract, b"c.noble".to_vec());
    assert_eq!(o.timeout_ms, 120_000);
    assert!(o.proof.is_none() && o.emit.is_none());
    let o = verify_arguments::parse(&args(&["verify", "c", "--refutation", "r.lean", "--timeout-ms", "600000", "--emit", "d"])).ok().unwrap();
    assert!(o.is_refutation);
    assert_eq!(o.proof, Some(b"r.lean".to_vec()));
    assert_eq!(o.timeout_ms, 600_000);
    assert_eq!(o.emit, Some(b"d".to_vec()));
}

#[test]
fn verify_refusals() {
    let f = verify_arguments::parse(&args(&["verify", "c", "--timeout-ms", "0"])).err().unwrap();
    assert_eq!(f.code, "invalid-timeout");
    assert_eq!(f.message, "timeout must be an integer from 1 through 600000 ms");
    let f = verify_arguments::parse(&args(&["verify", "c", "--timeout-ms", "600001"])).err().unwrap();
    assert_eq!(f.code, "invalid-timeout");
    let f = verify_arguments::parse(&args(&["verify", "c", "--proof", "a", "--refutation", "b"])).err().unwrap();
    assert_eq!(f.code, "usage");
    assert_eq!(f.message, verify_arguments::USAGE);
    assert!(verify_arguments::parse(&args(&["explain-proof", "c", "--emit", "d"])).is_err());
    assert!(verify_arguments::parse(&args(&["verify"])).is_err());
    assert!(verify_arguments::parse(&args(&["verify", "c", "--emit"])).is_err());
    let o = verify_arguments::parse(&args(&["explain-proof", "c"])).ok().unwrap();
    assert!(o.is_explanation);
    assert_eq!(verify_arguments::timeout(b"abc").err().unwrap().code, "invalid-timeout");
    assert_eq!(verify_arguments::timeout(b"1").ok(), Some(1));
    let _ = Refusal::Usage;
}

#[test]
fn build_options_in_any_order() {
    let o = build_arguments::parse(&args(&["build", "--contract", "c", "src.noble", "--require-proof", "--proof", "p", "--out", "o"])).ok().unwrap();
    assert!(o.require_proof);
    assert_eq!(o.source, b"src.noble".to_vec());
    assert_eq!(o.contract, b"c".to_vec());
    assert_eq!(o.evidence, Some(b"p".to_vec()));
    assert!(!o.is_refutation);
    assert_eq!(o.out, Some(b"o".to_vec()));
    assert_eq!(o.timeout_ms, 120_000);
}

#[test]
fn build_refusals() {
    let f = build_arguments::parse(&args(&["build", "a", "b", "--contract", "c"])).err().unwrap();
    assert_eq!(f.code, "usage");
    assert_eq!(f.message, build_arguments::USAGE);
    assert!(build_arguments::parse(&args(&["build", "--contract", "c"])).is_err());
    assert!(build_arguments::parse(&args(&["build", "s"])).is_err());
    assert!(build_arguments::parse(&args(&["build", "s", "--contract", "c", "--proof", "p", "--refutation", "r"])).is_err());
    assert!(build_arguments::parse(&args(&["build", "s", "--contract", "c", "--bogus"])).is_err());
    let f = build_arguments::parse(&args(&["build", "s", "--contract", "c", "--timeout-ms", "x"])).err().unwrap();
    assert_eq!(f.code, "invalid-timeout");
    assert!(build_arguments::parse(&args(&["build", "s", "--contract"])).is_err());
}

#[test]
fn routes_by_first_argument() {
    assert_eq!(route(&args(&["run", "x"])), Command::Source);
    assert_eq!(route(&args(&["session"])), Command::Source);
    assert_eq!(route(&args(&["verify"])), Command::Verify);
    assert_eq!(route(&args(&["explain-proof"])), Command::Verify);
    assert_eq!(route(&args(&["build"])), Command::Build);
    assert_eq!(route(&args(&["companions"])), Command::Companions);
    assert_eq!(route(&args(&["component"])), Command::Component);
    assert_eq!(route(&args(&["wasm-experiment"])), Command::Backend);
    assert_eq!(route(&args(&["--help"])), Command::Help);
    assert_eq!(route(&args(&[])), Command::Budget);
    assert_eq!(route(&args(&["--internal-budget-smoke", "3"])), Command::Budget);
}

#[test]
fn budget_smoke_route() {
    assert_eq!(parse_budget(&args(&["--internal-budget-smoke", "4294967295"])), Ok(4_294_967_295));
    assert_eq!(parse_budget(&args(&["--internal-budget-smoke", "4294967296"])), Err(InputError::Budget));
    assert_eq!(parse_budget(&args(&["--internal-budget-smoke"])), Err(InputError::Budget));
    assert_eq!(parse_budget(&args(&["--internal-budget-smoke", "1", "2"])), Err(InputError::Usage));
    assert_eq!(parse_budget(&args(&["other", "1"])), Err(InputError::Usage));
    assert_eq!(parse_budget(&args(&[])), Err(InputError::Usage));
    assert_eq!(input_error_message(InputError::Usage), "usage: noble --internal-budget-smoke <u32>");
    assert_eq!(input_error_message(InputError::Budget), "budget must be an unsigned 32-bit integer");
}
