//! Decoding the arguments of `verify` and `explain-proof`, independent of
//! contract preparation or process execution. Paths keep their raw bytes.

use vstd::prelude::*;

use crate::arguments::{argument_is, bytes_of, raw, text};
use crate::number::{parse_unsigned, parsed};
use crate::outcome::{Failure, Outcome};
use crate::text::{chars_of, owned};
use crate::utf8::decode;

verus! {

pub const USAGE: &'static str = "usage:
  noble verify CONTRACT [--emit DIR] [--proof FILE | --refutation FILE] [--timeout-ms N]
  noble explain-proof CONTRACT
  noble --internal-budget-smoke <u32>

Consumer configuration (absolute paths): NOBLE_LEAN, NOBLE_BWRAP,
NOBLE_PRLIMIT, NOBLE_SYSTEMD_RUN, NOBLE_CONTRACT_LIBRARY
(and NOBLE_NIX_STORE for a Nix toolchain).
Lean must be release 4.31.0.
Default proof budget: 120000 ms; maximum: 600000 ms. Missing evidence is unknown.
Explanation never executes Lean. Proof source runs only in a Linux bubblewrap
sandbox with no network, credentials, or writable host directories.
Proof checking requires an active user systemd manager and XDG_RUNTIME_DIR.
--emit creates a new directory; existing destinations are never overwritten.";

pub const DEFAULT_TIMEOUT: u64 = 120_000;
pub const MAX_TIMEOUT: u64 = 600_000;

/// Why a command line was refused.
#[derive(Clone, Copy, PartialEq, Eq, Structural, Debug)]
pub enum Refusal {
    Usage,
    InvalidTimeout,
}

/// The failure that reports a refused command line.
pub open spec fn refused_with(f: Failure, why: Refusal) -> bool {
    &&& f.outcome == Outcome::Error
    &&& f.details is Null
    &&& match why {
        Refusal::Usage => f.code@ == "usage"@ && f.message@ == USAGE@,
        Refusal::InvalidTimeout => f.code@ == "invalid-timeout"@
            && f.message@ == "timeout must be an integer from 1 through 600000 ms"@,
    }
}

pub fn usage() -> (r: Failure)
    ensures
        refused_with(r, Refusal::Usage),
{
    Failure::error("usage", owned(USAGE))
}

pub fn invalid_timeout() -> (r: Failure)
    ensures
        refused_with(r, Refusal::InvalidTimeout),
{
    Failure::error("invalid-timeout", owned("timeout must be an integer from 1 through 600000 ms"))
}

/// A proof budget in milliseconds: a decimal number from 1 through 600000.
pub open spec fn timeout_value(value: Seq<u8>) -> Option<u64> {
    match text(value) {
        None => None,
        Some(t) => match parsed(t, u64::MAX as nat) {
            Some(n) => if 0 < n <= MAX_TIMEOUT { Some(n as u64) } else { None },
            None => None,
        },
    }
}

/// Reads a proof budget.
pub fn timeout(value: &[u8]) -> (r: Result<u64, Failure>)
    ensures
        match timeout_value(value@) {
            Some(n) => r == Ok::<u64, Failure>(n),
            None => r matches Err(f) && refused_with(f, Refusal::InvalidTimeout),
        },
{
    let t = match decode(value) {
        Some(t) => t,
        None => return Err(invalid_timeout()),
    };
    let spelled = chars_of(t.as_str());
    match parse_unsigned(spelled.as_slice(), 0xffff_ffff_ffff_ffffu64) {
        Some(n) => if n > 0 && n <= MAX_TIMEOUT { Ok(n) } else { Err(invalid_timeout()) },
        None => Err(invalid_timeout()),
    }
}

/// The decoded options of `verify` or `explain-proof`.
pub struct Options {
    pub is_explanation: bool,
    pub contract: Vec<u8>,
    pub emit: Option<Vec<u8>>,
    pub proof: Option<Vec<u8>>,
    pub is_refutation: bool,
    pub timeout_ms: u64,
}

pub struct OptionsView {
    pub is_explanation: bool,
    pub contract: Seq<u8>,
    pub emit: Option<Seq<u8>>,
    pub proof: Option<Seq<u8>>,
    pub is_refutation: bool,
    pub timeout_ms: u64,
}

impl View for Options {
    type V = OptionsView;

    open spec fn view(&self) -> OptionsView {
        OptionsView {
            is_explanation: self.is_explanation,
            contract: self.contract@,
            emit: crate::arguments::path_view(self.emit),
            proof: crate::arguments::path_view(self.proof),
            is_refutation: self.is_refutation,
            timeout_ms: self.timeout_ms,
        }
    }
}

/// The options after the flags from `index`: flag and value pairs, each flag
/// at most once, `--proof` and `--refutation` sharing one slot. An explanation
/// takes no flags.
pub open spec fn verify_flags(args: Seq<Seq<u8>>, index: int, o: OptionsView, has_timeout: bool) -> Result<OptionsView, Refusal>
    decreases args.len() - index,
{
    if index < 0 || index >= args.len() {
        Ok(o)
    } else if o.is_explanation || index + 1 >= args.len() {
        Err(Refusal::Usage)
    } else {
        let value = args[index + 1];
        let name = text(args[index]);
        if name == Some("--emit"@) && o.emit is None {
            verify_flags(args, index + 2, OptionsView { emit: Some(value), ..o }, has_timeout)
        } else if (name == Some("--proof"@) || name == Some("--refutation"@)) && o.proof is None {
            verify_flags(args, index + 2,
                OptionsView { is_refutation: name == Some("--refutation"@), proof: Some(value), ..o }, has_timeout)
        } else if name == Some("--timeout-ms"@) && !has_timeout {
            match timeout_value(value) {
                Some(ms) => verify_flags(args, index + 2, OptionsView { timeout_ms: ms, ..o }, true),
                None => Err(Refusal::InvalidTimeout),
            }
        } else {
            Err(Refusal::Usage)
        }
    }
}

/// The options of a `verify` or `explain-proof` command line.
pub open spec fn verify_spec(args: Seq<Seq<u8>>) -> Result<OptionsView, Refusal> {
    if args.len() < 2 {
        Err(Refusal::Usage)
    } else {
        verify_flags(args, 2, OptionsView {
            is_explanation: text(args[0]) == Some("explain-proof"@),
            contract: args[1],
            emit: None,
            proof: None,
            is_refutation: false,
            timeout_ms: DEFAULT_TIMEOUT,
        }, false)
    }
}

/// Decodes a `verify` or `explain-proof` command line (the first argument
/// names the command).
pub fn parse(arguments: &[Vec<u8>]) -> (r: Result<Options, Failure>)
    ensures
        match verify_spec(raw(arguments@)) {
            Ok(v) => r matches Ok(o) && o@ == v,
            Err(why) => r matches Err(f) && refused_with(f, why),
        },
{
    let ghost args = raw(arguments@);
    let n = arguments.len();
    if n < 2 {
        return Err(usage());
    }
    let is_explanation = argument_is(arguments[0].as_slice(), "explain-proof");
    let mut options = Options {
        is_explanation,
        contract: bytes_of(arguments[1].as_slice()),
        emit: None,
        proof: None,
        is_refutation: false,
        timeout_ms: DEFAULT_TIMEOUT,
    };
    let mut has_timeout = false;
    let mut index: usize = 2;
    while index < n
        invariant
            n == arguments@.len() == args.len(),
            args == raw(arguments@),
            forall|k: int| 0 <= k < n ==> (#[trigger] arguments@[k])@ == args[k],
            2 <= index,
            verify_spec(args) == verify_flags(args, index as int, options@, has_timeout),
        decreases n - index,
    {
        if options.is_explanation || index + 1 >= n {
            return Err(usage());
        }
        assert(arguments@[index as int]@ == args[index as int]);
        assert(arguments@[index + 1]@ == args[index + 1]);
        let name = arguments[index].as_slice();
        let value = arguments[index + 1].as_slice();
        let is_emit = argument_is(name, "--emit");
        let is_proof = argument_is(name, "--proof");
        let is_refutation = argument_is(name, "--refutation");
        let is_timeout = argument_is(name, "--timeout-ms");
        proof {
            reveal_strlit("--emit");
            reveal_strlit("--proof");
            reveal_strlit("--refutation");
            reveal_strlit("--timeout-ms");
        }
        if is_emit && options.emit.is_none() {
            options.emit = Some(bytes_of(value));
        } else if (is_proof || is_refutation) && options.proof.is_none() {
            options.is_refutation = is_refutation;
            options.proof = Some(bytes_of(value));
        } else if is_timeout && !has_timeout {
            options.timeout_ms = match timeout(value) {
                Ok(ms) => ms,
                Err(f) => return Err(f),
            };
            has_timeout = true;
        } else {
            return Err(usage());
        }
        index = index + 2;
    }
    Ok(options)
}

/// The file after a proof flag: `v` follows a `--refutation` flag (when
/// `refutes`) or a `--proof` flag (otherwise) at some position from `from`.
pub open spec fn evidence_flag(args: Seq<Seq<u8>>, from: int, v: Seq<u8>, refutes: bool) -> bool {
    exists|k: int| from <= k && k + 1 < args.len()
        && #[trigger] text(args[k]) == Some(if refutes { "--refutation"@ } else { "--proof"@ })
        && args[k + 1] == v
}

proof fn lemma_evidence_flags(args: Seq<Seq<u8>>, index: int, o: OptionsView, has_timeout: bool)
    requires
        index >= 0,
    ensures
        verify_flags(args, index, o, has_timeout) matches Ok(r) ==> (r.proof == o.proof && r.is_refutation == o.is_refutation)
            || (r.proof matches Some(v) && evidence_flag(args, index, v, r.is_refutation)),
    decreases args.len() - index,
{
    if index < args.len() && !o.is_explanation && index + 1 < args.len() {
        let value = args[index + 1];
        let name = text(args[index]);
        if name == Some("--emit"@) && o.emit is None {
            lemma_evidence_flags(args, index + 2, OptionsView { emit: Some(value), ..o }, has_timeout);
        } else if (name == Some("--proof"@) || name == Some("--refutation"@)) && o.proof is None {
            let next = OptionsView { is_refutation: name == Some("--refutation"@), proof: Some(value), ..o };
            lemma_evidence_flags(args, index + 2, next, has_timeout);
            if let Ok(r) = verify_flags(args, index, o, has_timeout) {
                if r.proof == next.proof && r.is_refutation == next.is_refutation {
                    assert(text(args[index]) == Some(if r.is_refutation { "--refutation"@ } else { "--proof"@ }));
                    assert(evidence_flag(args, index, value, r.is_refutation));
                } else {
                    let v = r.proof->Some_0;
                    let k = choose|k: int| index + 2 <= k && k + 1 < args.len()
                        && #[trigger] text(args[k]) == Some(if r.is_refutation { "--refutation"@ } else { "--proof"@ })
                        && args[k + 1] == v;
                    assert(evidence_flag(args, index, v, r.is_refutation));
                }
            }
        } else if name == Some("--timeout-ms"@) && !has_timeout {
            if let Some(ms) = timeout_value(value) {
                lemma_evidence_flags(args, index + 2, OptionsView { timeout_ms: ms, ..o }, true);
            }
        }
        if let Ok(r) = verify_flags(args, index, o, has_timeout) {
            if !(r.proof == o.proof && r.is_refutation == o.is_refutation) {
                if !(name == Some("--proof"@) || name == Some("--refutation"@)) || o.proof is Some {
                    let v = r.proof->Some_0;
                    let k = choose|k: int| index + 2 <= k && k + 1 < args.len()
                        && #[trigger] text(args[k]) == Some(if r.is_refutation { "--refutation"@ } else { "--proof"@ })
                        && args[k + 1] == v;
                    assert(evidence_flag(args, index, v, r.is_refutation));
                }
            }
        }
    }
}

/// A decoded command line checks its evidence file as a refutation exactly
/// when that file was given with `--refutation`, and as a proof when it was
/// given with `--proof`; without evidence nothing is a refutation.
pub proof fn law_refutation_only_by_its_flag(args: Seq<Seq<u8>>)
    ensures
        verify_spec(args) matches Ok(o) ==> match o.proof {
            Some(v) => evidence_flag(args, 2, v, o.is_refutation),
            None => !o.is_refutation,
        },
{
    if args.len() >= 2 {
        let start = OptionsView {
            is_explanation: text(args[0]) == Some("explain-proof"@),
            contract: args[1],
            emit: None,
            proof: None,
            is_refutation: false,
            timeout_ms: DEFAULT_TIMEOUT,
        };
        lemma_evidence_flags(args, 2, start, false);
    }
}

} // verus!
