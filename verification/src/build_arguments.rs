//! Decoding the arguments of `build --require-proof`, independent of
//! preparation or proof execution.
//!
//! Grammar: `noble build --require-proof SOURCE --contract FILE
//! [--proof FILE | --refutation FILE] [--out NEW_DIR] [--timeout-ms N]`.
//! SOURCE is the single positional operand; options may follow `build` in any
//! order; each occurs at most once and `--proof`/`--refutation` share one
//! mutually exclusive slot.

use vstd::prelude::*;

use crate::arguments::{argument_is, bytes_of, raw, text};
use crate::outcome::{Failure, Outcome};
use crate::text::{chars_of, owned, starts_with};
use crate::utf8::decode;
use crate::verify_arguments::{timeout, timeout_value, Refusal, DEFAULT_TIMEOUT};

verus! {

pub const USAGE: &'static str = "usage:
  noble build --require-proof SOURCE --contract FILE [--proof FILE | --refutation FILE]
              [--out NEW_DIR] [--timeout-ms N]
  noble companions

build --require-proof compiles SOURCE, prepares the contract, and releases the
artifact only for an applicable accepted `proved` claim whose evidence binds the
exact subject, claim assumptions, semantic/toolchain context and current policy
revision. SOURCE must export one inert program quotation, for example [ 1 + ];
its complete interface and recipe must match the contract subject. The build
does not invoke that program. SOURCE is the single positional operand; `--contract` names the
contract file; options may follow `build` in any order. Each option occurs at
most once and `--proof`/`--refutation` are mutually exclusive.
disproved, unknown, timeout, unsupported, error and not-run all block release
and remain distinguishable in the report; tests and review records never satisfy
a required proof. `--out` creates a new directory (never overwriting) and writes
report.json, wrapper.noble, contract.noble, artifact.wat, artifact.wasm and
proof.lean when present. The emitted Wasm is build/loading evidence (PO-17/18),
never a verified backend correspondence. Exit status follows VC-TOOL-02:
proved 0, disproved 1, error 2, unknown 3, unsupported 4, timeout 124, not-run 0.";

/// The failure that reports a refused build command line.
pub open spec fn build_refused_with(f: Failure, why: Refusal) -> bool {
    &&& f.outcome == Outcome::Error
    &&& f.details is Null
    &&& match why {
        Refusal::Usage => f.code@ == "usage"@ && f.message@ == USAGE@,
        Refusal::InvalidTimeout => f.code@ == "invalid-timeout"@
            && f.message@ == "timeout must be an integer from 1 through 600000 ms"@,
    }
}

pub fn usage() -> (r: Failure)
    ensures
        build_refused_with(r, Refusal::Usage),
{
    Failure::error("usage", owned(USAGE))
}

/// The decoded options of `build`.
pub struct Options {
    pub require_proof: bool,
    pub source: Vec<u8>,
    pub contract: Vec<u8>,
    pub evidence: Option<Vec<u8>>,
    pub is_refutation: bool,
    pub out: Option<Vec<u8>>,
    pub timeout_ms: u64,
}

/// The build options while they are gathered.
pub struct Gathered {
    pub require_proof: bool,
    pub source: Option<Seq<u8>>,
    pub contract: Option<Seq<u8>>,
    pub evidence: Option<Seq<u8>>,
    pub is_refutation: bool,
    pub out: Option<Seq<u8>>,
    pub timeout_ms: u64,
    pub has_timeout: bool,
}

/// An argument that names an option: UTF-8 text beginning with `--`.
pub open spec fn option_name(a: Seq<u8>) -> Option<Seq<char>> {
    match text(a) {
        Some(t) => if t.len() >= 2 && t[0] == '-' && t[1] == '-' { Some(t) } else { None },
        None => None,
    }
}

/// The options gathered from position `index` on.
pub open spec fn build_flags(args: Seq<Seq<u8>>, index: int, g: Gathered) -> Result<Gathered, Refusal>
    decreases args.len() - index,
{
    if index < 1 || index >= args.len() {
        Ok(g)
    } else {
        match option_name(args[index]) {
            None => if g.source is Some {
                Err(Refusal::Usage)
            } else {
                build_flags(args, index + 1, Gathered { source: Some(args[index]), ..g })
            },
            Some(name) => if name == "--require-proof"@ && !g.require_proof {
                build_flags(args, index + 1, Gathered { require_proof: true, ..g })
            } else if name == "--contract"@ && g.contract is None {
                if index + 1 >= args.len() {
                    Err(Refusal::Usage)
                } else {
                    build_flags(args, index + 2, Gathered { contract: Some(args[index + 1]), ..g })
                }
            } else if (name == "--proof"@ || name == "--refutation"@) && g.evidence is None {
                if index + 1 >= args.len() {
                    Err(Refusal::Usage)
                } else {
                    build_flags(args, index + 2,
                        Gathered { is_refutation: name == "--refutation"@, evidence: Some(args[index + 1]), ..g })
                }
            } else if name == "--out"@ && g.out is None {
                if index + 1 >= args.len() {
                    Err(Refusal::Usage)
                } else {
                    build_flags(args, index + 2, Gathered { out: Some(args[index + 1]), ..g })
                }
            } else if name == "--timeout-ms"@ && !g.has_timeout {
                if index + 1 >= args.len() {
                    Err(Refusal::Usage)
                } else {
                    match timeout_value(args[index + 1]) {
                        Some(ms) => build_flags(args, index + 2, Gathered { timeout_ms: ms, has_timeout: true, ..g }),
                        None => Err(Refusal::InvalidTimeout),
                    }
                }
            } else {
                Err(Refusal::Usage)
            },
        }
    }
}

/// The gathered options of a build command line; the source and the contract
/// must both be given.
pub open spec fn build_spec(args: Seq<Seq<u8>>) -> Result<Gathered, Refusal> {
    let empty = Gathered {
        require_proof: false,
        source: None,
        contract: None,
        evidence: None,
        is_refutation: false,
        out: None,
        timeout_ms: DEFAULT_TIMEOUT,
        has_timeout: false,
    };
    match build_flags(args, 1, empty) {
        Ok(g) => if g.source is None || g.contract is None { Err(Refusal::Usage) } else { Ok(g) },
        Err(why) => Err(why),
    }
}

/// Whether an argument names an option, and the text of it when it does.
fn name_of(a: &[u8]) -> (r: Option<String>)
    ensures
        match option_name(a@) {
            Some(t) => r matches Some(s) && s@ == t,
            None => r is None,
        },
{
    let t = match decode(a) {
        Some(t) => t,
        None => return None,
    };
    let spelled = chars_of(t.as_str());
    let dashes = chars_of("--");
    proof {
        reveal_strlit("--");
    }
    if starts_with(spelled.as_slice(), dashes.as_slice()) {
        proof {
            assert(spelled@.subrange(0, 2)[0] == spelled@[0]);
            assert(spelled@.subrange(0, 2)[1] == spelled@[1]);
        }
        Some(t)
    } else {
        proof {
            if spelled@.len() >= 2 && spelled@[0] == '-' && spelled@[1] == '-' {
                assert(spelled@.subrange(0, 2) =~= dashes@);
            }
        }
        None
    }
}

/// Decodes a `build` command line (the first argument is the command).
pub fn parse(arguments: &[Vec<u8>]) -> (r: Result<Options, Failure>)
    ensures
        match build_spec(raw(arguments@)) {
            Ok(g) => r matches Ok(o) && Some(o.source@) == g.source && Some(o.contract@) == g.contract
                && o.require_proof == g.require_proof && crate::arguments::path_view(o.evidence) == g.evidence
                && o.is_refutation == g.is_refutation && crate::arguments::path_view(o.out) == g.out
                && o.timeout_ms == g.timeout_ms,
            Err(why) => r matches Err(f) && build_refused_with(f, why),
        },
{
    let ghost args = raw(arguments@);
    let n = arguments.len();
    let mut require_proof = false;
    let mut source: Option<Vec<u8>> = None;
    let mut contract: Option<Vec<u8>> = None;
    let mut evidence: Option<Vec<u8>> = None;
    let mut is_refutation = false;
    let mut out: Option<Vec<u8>> = None;
    let mut timeout_ms = DEFAULT_TIMEOUT;
    let mut has_timeout = false;
    let mut index: usize = 1;
    proof {
        reveal_strlit("--require-proof");
        reveal_strlit("--contract");
        reveal_strlit("--proof");
        reveal_strlit("--refutation");
        reveal_strlit("--out");
        reveal_strlit("--timeout-ms");
    }
    while index < n
        invariant
            n == arguments@.len() == args.len(),
            args == raw(arguments@),
            forall|k: int| 0 <= k < n ==> (#[trigger] arguments@[k])@ == args[k],
            1 <= index,
            build_flags(args, 1, Gathered {
                require_proof: false, source: None, contract: None, evidence: None, is_refutation: false,
                out: None, timeout_ms: DEFAULT_TIMEOUT, has_timeout: false,
            }) == build_flags(args, index as int, Gathered {
                require_proof, source: crate::arguments::path_view(source), contract: crate::arguments::path_view(contract),
                evidence: crate::arguments::path_view(evidence), is_refutation, out: crate::arguments::path_view(out),
                timeout_ms, has_timeout,
            }),
        decreases n - index,
    {
        assert(arguments@[index as int]@ == args[index as int]);
        let current = arguments[index].as_slice();
        match name_of(current) {
            None => {
                if source.is_some() {
                    return Err(usage());
                }
                source = Some(bytes_of(current));
                index = index + 1;
            },
            Some(name) => {
                let is_require = crate::text::text_equal(name.as_str(), "--require-proof");
                let is_contract = crate::text::text_equal(name.as_str(), "--contract");
                let is_proof = crate::text::text_equal(name.as_str(), "--proof");
                let is_refuting = crate::text::text_equal(name.as_str(), "--refutation");
                let is_out = crate::text::text_equal(name.as_str(), "--out");
                let is_timeout = crate::text::text_equal(name.as_str(), "--timeout-ms");
                if is_require && !require_proof {
                    require_proof = true;
                    index = index + 1;
                } else if is_contract && contract.is_none() {
                    if index + 1 >= n {
                        return Err(usage());
                    }
                    assert(arguments@[index + 1]@ == args[index + 1]);
                    contract = Some(bytes_of(arguments[index + 1].as_slice()));
                    index = index + 2;
                } else if (is_proof || is_refuting) && evidence.is_none() {
                    if index + 1 >= n {
                        return Err(usage());
                    }
                    assert(arguments@[index + 1]@ == args[index + 1]);
                    is_refutation = is_refuting;
                    evidence = Some(bytes_of(arguments[index + 1].as_slice()));
                    index = index + 2;
                } else if is_out && out.is_none() {
                    if index + 1 >= n {
                        return Err(usage());
                    }
                    assert(arguments@[index + 1]@ == args[index + 1]);
                    out = Some(bytes_of(arguments[index + 1].as_slice()));
                    index = index + 2;
                } else if is_timeout && !has_timeout {
                    if index + 1 >= n {
                        return Err(usage());
                    }
                    assert(arguments@[index + 1]@ == args[index + 1]);
                    timeout_ms = match timeout(arguments[index + 1].as_slice()) {
                        Ok(ms) => ms,
                        Err(f) => return Err(f),
                    };
                    has_timeout = true;
                    index = index + 2;
                } else {
                    return Err(usage());
                }
            },
        }
    }
    let source = match source {
        Some(s) => s,
        None => return Err(usage()),
    };
    let contract = match contract {
        Some(c) => c,
        None => return Err(usage()),
    };
    Ok(Options { require_proof, source, contract, evidence, is_refutation, out, timeout_ms })
}

} // verus!
