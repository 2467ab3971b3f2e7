//! Companion sessions: the script grammar, the refusals that end one
//! operation while keeping the session usable, and the options of the
//! `companions` command.
//!
//! A script holds one operation per line; `#` starts a comment. Every
//! operation prints exactly one report line; a refusal prints a refusal line.

use vstd::prelude::*;

use crate::arguments::{argument_is, raw, text};
use crate::json::{append_decimal, decimal};
use crate::number::{ascii_words, leading_space, parse_unsigned, parsed, split_ascii_words, trim, trimmed_length};
use crate::session::BackendDiagnostic;
use crate::text::{chars_of, owned, push_text, string_of, text_equal};
use crate::utf8::decode;
use vstd::utf8::{decode_utf8, valid_utf8};

verus! {

pub const USAGE: &'static str = "usage:
  noble companions [--timeout-ms N] [--opt on|off] < SCRIPT
Script operations (one per line; '#' starts a comment):
  contract PATH [PROOF_PATH]      prepare and admit one contract (+ optional proof)
  submit PATH                     execute one source submission in the session
  plain PATH                      execute source with no contract profile at all
  stack                           report the current session stack
  project INDEX                   project a Certified companion to its subject
  inspect INDEX                   read retained companion metadata only
  certify INDEX [CONTRACT_ID]      bind a Program slot to an admitted contract
  compose LEFT RIGHT ARGUMENT     certified composition of two companions
  instantiate INDEX CAPTURE [ARG]  instantiate a builder; optionally run its result
  invoke INDEX ARGUMENT           guard-checked certified invocation
  policy REVISION                 select a policy; invalidate old evidence
  derive RULE CONTRACT_ID SUBJECT_INDEX EVIDENCE_ID...
                                  submit an explicit bounded replay offer
Exit status is 2 for malformed input or I/O failure; every accepted script
prints its per-operation outcomes and exits 0. The Lean kernel runs only for
'contract PATH PROOF_PATH'.";

/// Whole-script budget; larger scripts are refused rather than truncated.
pub const SCRIPT_LIMIT: u32 = 1_048_576;
pub const SOURCE_LIMIT: usize = 65_536;
pub const PROOF_LIMIT: usize = 524_288;
pub const DEFAULT_TIMEOUT_MS: u64 = 120_000;
pub const MAX_TIMEOUT_MS: u64 = 600_000;
/// The claim kind companion values carry: partial correctness.
pub const CLAIM_PARTIAL_CORRECTNESS: u32 = 1;

/// A refusal that ends one operation but keeps the session usable.
pub struct Refused {
    pub outcome: &'static str,
    pub code: String,
    pub message: String,
}

/// A malformed-script refusal with the given message.
pub open spec fn script_refusal(r: Refused, message: Seq<char>) -> bool {
    r.outcome@ == "malformed"@ && r.code@ == "script"@ && r.message@ == message
}

impl Refused {
    pub fn new(outcome: &'static str, code: String, message: String) -> (r: Refused)
        ensures
            r.outcome == outcome,
            r.code == code,
            r.message == message,
    {
        Refused { outcome, code, message }
    }

    /// A malformed script line.
    pub fn script(message: String) -> (r: Refused)
        ensures
            script_refusal(r, message@),
    {
        Refused::new("malformed", owned("script"), message)
    }

    /// A failure of the engine worker, under the worker's own outcome.
    pub fn engine(failure: crate::session::Failure) -> (r: Refused)
        ensures
            r.outcome == failure.context.outcome,
            r.code@ == "engine"@,
            r.message == failure.message,
    {
        Refused::new(failure.context.outcome, owned("engine"), failure.message)
    }

    /// A refusal of the deterministic core, by the core's refusal code.
    pub fn declined(code: &str) -> (r: Refused)
        ensures
            r.outcome@ == refusal_outcome_spec(code@),
            r.code@ == code@,
            r.message@ == "the deterministic core declined"@,
    {
        Refused::new(refusal_outcome(code), owned(code), owned("the deterministic core declined"))
    }
}

/// The refusal codes the specification names; each is its own outcome.
pub open spec fn named_refusals() -> Seq<Seq<char>> {
    seq![
        "unresolved-implication"@, "stale-context"@, "mismatched-subject"@, "mismatched-claim"@,
        "mismatched-context"@, "forged-status"@, "wrong-instantiation"@, "exhausted-replay"@,
        "exhausted-registry"@, "unsupported-guard-template"@, "unsupported-evidence-class"@,
        "ineligible-ghost"@, "live-capability-in-evidence"@, "correspondence-mismatch"@,
        "unknown-contract"@, "unknown-evidence"@,
    ]
}

/// The outcome of a core refusal: a named refusal keeps its code, every
/// other refusal is `refused`.
pub open spec fn refusal_outcome_spec(code: Seq<char>) -> Seq<char> {
    if named_refusals().contains(code) {
        code
    } else {
        "refused"@
    }
}

/// The outcome spelling of a core refusal code.
pub fn refusal_outcome(code: &str) -> (r: &'static str)
    ensures
        r@ == refusal_outcome_spec(code@),
{
    let named: Vec<&'static str> = vec![
        "unresolved-implication", "stale-context", "mismatched-subject", "mismatched-claim",
        "mismatched-context", "forged-status", "wrong-instantiation", "exhausted-replay",
        "exhausted-registry", "unsupported-guard-template", "unsupported-evidence-class",
        "ineligible-ghost", "live-capability-in-evidence", "correspondence-mismatch",
        "unknown-contract", "unknown-evidence",
    ];
    let ghost views = named@.map_values(|s: &str| s@);
    assert(views =~= named_refusals());
    let mut i: usize = 0;
    while i < named.len()
        invariant
            views == named@.map_values(|s: &str| s@),
            views == named_refusals(),
            i <= named@.len(),
            forall|k: int| 0 <= k < i ==> views[k] != code@,
        decreases named@.len() - i,
    {
        if text_equal(named[i], code) {
            proof {
                assert(views[i as int] == code@);
                assert(named_refusals().contains(code@));
            }
            return named[i];
        }
        i = i + 1;
    }
    "refused"
}

/// At least `minimum` arguments.
pub fn require(count: usize, minimum: usize) -> (r: Result<(), Refused>)
    ensures
        count >= minimum ==> r is Ok,
        count < minimum ==> (r matches Err(f) && script_refusal(f,
            "expected at least "@ + decimal(minimum as nat) + " argument(s), found "@ + decimal(count as nat))),
{
    if count < minimum {
        let mut message = owned("expected at least ");
        append_decimal(minimum as u64, &mut message);
        push_text(&mut message, " argument(s), found ");
        append_decimal(count as u64, &mut message);
        return Err(Refused::script(message));
    }
    Ok(())
}

/// Whether `token` names a script operation.
pub open spec fn is_operation(t: Seq<char>) -> bool {
    ||| t == "contract"@
    ||| t == "submit"@
    ||| t == "plain"@
    ||| t == "stack"@
    ||| t == "policy"@
    ||| t == "project"@
    ||| t == "inspect"@
    ||| t == "certify"@
    ||| t == "compose"@
    ||| t == "instantiate"@
    ||| t == "invoke"@
    ||| t == "derive"@
}

/// The report's operation name for a script token.
pub fn operation_name(token: &str) -> (r: &'static str)
    ensures
        is_operation(token@) ==> r@ == token@,
        !is_operation(token@) ==> r@ == "unknown"@,
{
    if text_equal(token, "contract") {
        "contract"
    } else if text_equal(token, "submit") {
        "submit"
    } else if text_equal(token, "plain") {
        "plain"
    } else if text_equal(token, "stack") {
        "stack"
    } else if text_equal(token, "policy") {
        "policy"
    } else if text_equal(token, "project") {
        "project"
    } else if text_equal(token, "inspect") {
        "inspect"
    } else if text_equal(token, "certify") {
        "certify"
    } else if text_equal(token, "compose") {
        "compose"
    } else if text_equal(token, "instantiate") {
        "instantiate"
    } else if text_equal(token, "invoke") {
        "invoke"
    } else if text_equal(token, "derive") {
        "derive"
    } else {
        "unknown"
    }
}

/// The least number of arguments an operation takes.
pub open spec fn arity(token: Seq<char>) -> nat {
    if token == "compose"@ || token == "derive"@ {
        3
    } else if token == "instantiate"@ || token == "invoke"@ {
        2
    } else if token == "stack"@ {
        0
    } else {
        1
    }
}

/// The documented least argument counts of the script operations:
/// `compose` and `derive` take three, `instantiate` and `invoke` two,
/// `stack` none, and every other operation one; an operation is accepted
/// with any count at least its own.
pub proof fn law_operation_arity(count: nat)
    ensures
        count >= arity("compose"@) <==> count >= 3,
        count >= arity("derive"@) <==> count >= 3,
        count >= arity("instantiate"@) <==> count >= 2,
        count >= arity("invoke"@) <==> count >= 2,
        count >= arity("stack"@) <==> count >= 0,
        count >= arity("contract"@) <==> count >= 1,
        count >= arity("submit"@) <==> count >= 1,
        count >= arity("plain"@) <==> count >= 1,
        count >= arity("policy"@) <==> count >= 1,
        count >= arity("project"@) <==> count >= 1,
        count >= arity("inspect"@) <==> count >= 1,
        count >= arity("certify"@) <==> count >= 1,
{
    reveal_strlit("compose");
    reveal_strlit("derive");
    reveal_strlit("instantiate");
    reveal_strlit("invoke");
    reveal_strlit("stack");
    reveal_strlit("contract");
    reveal_strlit("submit");
    reveal_strlit("plain");
    reveal_strlit("policy");
    reveal_strlit("project");
    reveal_strlit("inspect");
    reveal_strlit("certify");
    assert("instantiate"@.len() == 11 && "compose"@.len() == 7 && "derive"@.len() == 6);
    assert("invoke"@.len() == 6 && "invoke"@[0] == 'i' && "derive"@[0] == 'd');
    assert("stack"@.len() == 5 && "contract"@.len() == 8 && "submit"@.len() == 6 && "plain"@.len() == 5);
    assert("policy"@.len() == 6 && "project"@.len() == 7 && "inspect"@.len() == 7 && "certify"@.len() == 7);
    assert("submit"@[0] == 's' && "policy"@[0] == 'p' && "plain"@[0] == 'p' && "stack"@[0] == 's');
    assert("project"@[0] == 'p' && "inspect"@[0] == 'i' && "certify"@[0] == 'c' && "compose"@[1] == 'o');
    assert("certify"@[1] == 'e');
}

/// Checks that a line names an operation with enough arguments; the
/// operation's name on success.
pub fn dispatch(operation: &str, count: usize) -> (r: Result<&'static str, Refused>)
    ensures
        !is_operation(operation@) ==> (r matches Err(f) && script_refusal(f, "unknown operation '"@ + operation@ + "'"@)),
        is_operation(operation@) ==> match r {
            Ok(name) => name@ == operation@ && count >= arity(operation@),
            Err(f) => count < arity(operation@) && script_refusal(f,
                "expected at least "@ + decimal(arity(operation@)) + " argument(s), found "@ + decimal(count as nat)),
        },
{
    let name = operation_name(operation);
    proof {
        reveal_strlit("unknown");
        reveal_strlit("contract");
        reveal_strlit("submit");
        reveal_strlit("plain");
        reveal_strlit("stack");
        reveal_strlit("policy");
        reveal_strlit("project");
        reveal_strlit("inspect");
        reveal_strlit("certify");
        reveal_strlit("compose");
        reveal_strlit("instantiate");
        reveal_strlit("invoke");
        reveal_strlit("derive");
        assert(!is_operation("unknown"@)) by {
            assert("unknown"@.len() == 7 && "unknown"@[0] == 'u');
            assert("project"@[0] == 'p' && "inspect"@[0] == 'i' && "certify"@[0] == 'c' && "compose"@[0] == 'c');
        }
    }
    if text_equal(name, "unknown") {
        let mut message = owned("unknown operation '");
        push_text(&mut message, operation);
        push_text(&mut message, "'");
        return Err(Refused::script(message));
    }
    let least: usize = if text_equal(name, "compose") || text_equal(name, "derive") {
        3
    } else if text_equal(name, "instantiate") || text_equal(name, "invoke") {
        2
    } else if text_equal(name, "stack") {
        0
    } else {
        1
    };
    match require(count, least) {
        Ok(()) => Ok(name),
        Err(f) => Err(f),
    }
}

/// The words of a script line.
pub fn tokens(line: &str) -> (r: Vec<String>)
    ensures
        r@.len() == ascii_words(line@).len(),
        forall|i: int| 0 <= i < r@.len() ==> (#[trigger] r@[i])@ == ascii_words(line@)[i],
{
    let spelled = chars_of(line);
    let words = split_ascii_words(spelled.as_slice());
    let mut r: Vec<String> = Vec::new();
    let mut i: usize = 0;
    while i < words.len()
        invariant
            words@.len() == ascii_words(line@).len(),
            forall|k: int| 0 <= k < words@.len() ==> (#[trigger] words@[k])@ == ascii_words(line@)[k],
            i <= words@.len(),
            r@.len() == i,
            forall|k: int| 0 <= k < i ==> (#[trigger] r@[k])@ == ascii_words(line@)[k],
        decreases words@.len() - i,
    {
        let word = string_of(words[i].as_slice(), 0, words[i].len());
        assert(words@[i as int]@.subrange(0, words@[i as int]@.len() as int) =~= words@[i as int]@);
        r.push(word);
        i = i + 1;
    }
    r
}

/// The operation words of one script line read with `remaining` script
/// bytes left: `None` for a blank or comment line.
pub open spec fn script_words(bytes: Seq<u8>) -> Option<Seq<Seq<char>>> {
    let t = trim(decode_utf8(bytes));
    if t.len() == 0 || t[0] == '#' {
        None
    } else {
        Some(ascii_words(t))
    }
}

/// Reads one script line against the remaining script budget: the budget
/// left after it and its words, if it holds an operation.
pub fn script_line(remaining: u32, bytes: &[u8]) -> (r: Result<(u32, Option<Vec<String>>), String>)
    ensures
        bytes@.len() > remaining ==> (r matches Err(m) && m@ == "script exceeds "@ + decimal(SCRIPT_LIMIT as nat) + " bytes"@),
        bytes@.len() <= remaining && !valid_utf8(bytes@) ==> r is Err,
        bytes@.len() <= remaining && valid_utf8(bytes@) ==> (r matches Ok((left, words)) && left == remaining - bytes@.len()
            && match script_words(bytes@) {
                None => words is None,
                Some(w) => words matches Some(v) && v@.len() == w.len()
                    && forall|i: int| 0 <= i < w.len() ==> (#[trigger] v@[i])@ == w[i],
            }),
{
    if bytes.len() as u64 > remaining as u64 {
        let mut message = owned("script exceeds ");
        append_decimal(SCRIPT_LIMIT as u64, &mut message);
        push_text(&mut message, " bytes");
        return Err(message);
    }
    let left = remaining - bytes.len() as u32;
    let line = match decode(bytes) {
        Some(line) => line,
        None => return Err(owned("invalid UTF-8 in script line")),
    };
    let spelled = chars_of(line.as_str());
    let end = trimmed_length(spelled.as_slice());
    let start = leading_space(spelled.as_slice(), end);
    if start == end || spelled[start] == '#' {
        return Ok((left, None));
    }
    let trimmed = string_of(spelled.as_slice(), start, end);
    Ok((left, Some(tokens(trimmed.as_str()))))
}

/// The options of the `companions` command: the proof budget and whether
/// the engine optimizes.
pub open spec fn companion_options(args: Seq<Seq<u8>>, at: int, timeout_ms: u64, optimized: bool) -> Result<(u64, bool), (Seq<char>, Option<int>)>
    decreases args.len() - at,
{
    if at < 1 || at >= args.len() {
        Ok((timeout_ms, optimized))
    } else {
        let token = text(args[at]);
        if token == Some("--timeout-ms"@) {
            if at + 1 >= args.len() {
                Err(("--timeout-ms needs a value"@, None))
            } else {
                match text(args[at + 1]) {
                    Some(t) => match parsed(t, u64::MAX as nat) {
                        Some(n) => if n <= MAX_TIMEOUT_MS {
                            companion_options(args, at + 2, n as u64, optimized)
                        } else {
                            Err(("--timeout-ms is above 600000"@, None))
                        },
                        None => Err(("--timeout-ms needs an integer"@, None)),
                    },
                    None => Err(("--timeout-ms needs an integer"@, None)),
                }
            }
        } else if token == Some("--opt"@) {
            if at + 1 < args.len() && text(args[at + 1]) == Some("on"@) {
                companion_options(args, at + 2, timeout_ms, true)
            } else if at + 1 < args.len() && text(args[at + 1]) == Some("off"@) {
                companion_options(args, at + 2, timeout_ms, false)
            } else {
                Err(("--opt needs on or off"@, None))
            }
        } else {
            Err(("unexpected argument"@, Some(at)))
        }
    }
}

/// Decodes the options of `companions` (the first argument is the command).
/// A refusal carries its message and, for an unexpected argument, the
/// argument's position, so that the caller can name it with the usage text.
pub fn parse_options(arguments: &[Vec<u8>]) -> (r: Result<(u64, bool), (String, Option<usize>)>)
    ensures
        match companion_options(raw(arguments@), 1, DEFAULT_TIMEOUT_MS, false) {
            Ok(v) => r == Ok::<(u64, bool), (String, Option<usize>)>(v),
            Err((m, p)) => r matches Err((e, q)) && e@ == m && match p {
                Some(i) => q == Some(i as usize),
                None => q is None,
            },
        },
{
    let ghost args = raw(arguments@);
    let n = arguments.len();
    let mut timeout_ms = DEFAULT_TIMEOUT_MS;
    let mut optimized = false;
    let mut at: usize = 1;
    proof {
        reveal_strlit("--timeout-ms");
        reveal_strlit("--opt");
    }
    while at < n
        invariant
            n == arguments@.len() == args.len(),
            args == raw(arguments@),
            forall|k: int| 0 <= k < n ==> (#[trigger] arguments@[k])@ == args[k],
            1 <= at,
            companion_options(args, 1, DEFAULT_TIMEOUT_MS, false) == companion_options(args, at as int, timeout_ms, optimized),
        decreases n - at,
    {
        assert(arguments@[at as int]@ == args[at as int]);
        let token = arguments[at].as_slice();
        if argument_is(token, "--timeout-ms") {
            if at + 1 >= n {
                return Err((owned("--timeout-ms needs a value"), None));
            }
            assert(arguments@[at + 1]@ == args[at + 1]);
            let value = match decode(arguments[at + 1].as_slice()) {
                Some(v) => v,
                None => return Err((owned("--timeout-ms needs an integer"), None)),
            };
            let spelled = chars_of(value.as_str());
            match parse_unsigned(spelled.as_slice(), 0xffff_ffff_ffff_ffffu64) {
                Some(v) => {
                    if v > MAX_TIMEOUT_MS {
                        return Err((owned("--timeout-ms is above 600000"), None));
                    }
                    timeout_ms = v;
                },
                None => return Err((owned("--timeout-ms needs an integer"), None)),
            }
        } else if argument_is(token, "--opt") {
            if at + 1 < n && argument_is(arguments[at + 1].as_slice(), "on") {
                assert(arguments@[at + 1]@ == args[at + 1]);
                optimized = true;
            } else if at + 1 < n && argument_is(arguments[at + 1].as_slice(), "off") {
                assert(arguments@[at + 1]@ == args[at + 1]);
                optimized = false;
            } else {
                proof {
                    if at + 1 < n {
                        assert(arguments@[at + 1]@ == args[at + 1]);
                    }
                }
                return Err((owned("--opt needs on or off"), None));
            }
        } else {
            return Err((owned("unexpected argument"), Some(at)));
        }
        at = at + 2;
    }
    Ok((timeout_ms, optimized))
}

/// An evidence class the core distinguishes.
#[derive(Clone, Copy, PartialEq, Eq, Structural, Debug)]
pub enum EvidenceClass {
    LeanExact,
    Replay,
    LeanRefutation,
    Assumption,
}

pub fn evidence_class_name(class: EvidenceClass) -> (r: &'static str)
    ensures
        class == EvidenceClass::LeanExact ==> r@ == "lean-exact"@,
        class == EvidenceClass::Replay ==> r@ == "replay"@,
        class == EvidenceClass::LeanRefutation ==> r@ == "lean-refutation"@,
        class == EvidenceClass::Assumption ==> r@ == "assumption"@,
{
    match class {
        EvidenceClass::LeanExact => "lean-exact",
        EvidenceClass::Replay => "replay",
        EvidenceClass::LeanRefutation => "lean-refutation",
        EvidenceClass::Assumption => "assumption",
    }
}

/// The compiler's closed diagnostic set as report text.
pub fn backend_diagnostic(diagnostic: BackendDiagnostic) -> (r: &'static str)
    ensures
        diagnostic == BackendDiagnostic::Invalid ==> r@ == "the candidate is invalid"@,
        diagnostic == BackendDiagnostic::Exhausted ==> r@ == "the compilation budget is exhausted"@,
        diagnostic == BackendDiagnostic::Unsupported ==> r@ == "the candidate is outside Core-Bootstrap"@,
        diagnostic == BackendDiagnostic::Defective ==> r@ == "the compiler refused a defective module"@,
{
    match diagnostic {
        BackendDiagnostic::Invalid => "the candidate is invalid",
        BackendDiagnostic::Exhausted => "the compilation budget is exhausted",
        BackendDiagnostic::Unsupported => "the candidate is outside Core-Bootstrap",
        BackendDiagnostic::Defective => "the compiler refused a defective module",
    }
}

} // verus!
