//! The experimental backend command: which representation it compiles, the
//! messages of the backend's refusals, and the negative control that an
//! owner-slot adaptation is rejected by every representation.

use vstd::prelude::*;

use crate::arguments::{argument_is, raw, text};
use crate::session::BackendDiagnostic;

verus! {

pub const USAGE: &'static str = "noble wasm-experiment <wasm-gc|managed-linear-memory|reject-owner-slot>";

/// A memory representation the experimental backend lowers to.
#[derive(Clone, Copy, PartialEq, Eq, Structural, Debug)]
pub enum Representation {
    WasmGc,
    ManagedLinearMemory,
}

/// What the experimental command runs.
#[derive(Clone, Copy, PartialEq, Eq, Structural, Debug)]
pub enum Experiment {
    /// Compile the bundled vocabulary with one representation.
    Compile(Representation),
    /// Check that every representation rejects an owner-slot adaptation.
    RejectOwnerSlot,
}

/// The experiment a command line (the command word first) selects.
pub open spec fn experiment_spec(args: Seq<Seq<u8>>) -> Option<Experiment> {
    if args.len() != 2 {
        None
    } else if text(args[1]) == Some("reject-owner-slot"@) {
        Some(Experiment::RejectOwnerSlot)
    } else if text(args[1]) == Some("wasm-gc"@) {
        Some(Experiment::Compile(Representation::WasmGc))
    } else if text(args[1]) == Some("managed-linear-memory"@) {
        Some(Experiment::Compile(Representation::ManagedLinearMemory))
    } else {
        None
    }
}

/// Decodes the experimental command; anything else is refused with its usage.
pub fn experiment(arguments: &[Vec<u8>]) -> (r: Result<Experiment, &'static str>)
    ensures
        match experiment_spec(raw(arguments@)) {
            Some(e) => r == Ok::<Experiment, &'static str>(e),
            None => r == Err::<Experiment, &'static str>(USAGE),
        },
{
    if arguments.len() != 2 {
        return Err(USAGE);
    }
    assert(raw(arguments@)[1] == arguments@[1]@);
    let name = arguments[1].as_slice();
    if argument_is(name, "reject-owner-slot") {
        Ok(Experiment::RejectOwnerSlot)
    } else if argument_is(name, "wasm-gc") {
        Ok(Experiment::Compile(Representation::WasmGc))
    } else if argument_is(name, "managed-linear-memory") {
        Ok(Experiment::Compile(Representation::ManagedLinearMemory))
    } else {
        Err(USAGE)
    }
}

/// The message of a backend refusal.
pub fn diagnostic_message(error: BackendDiagnostic) -> (r: &'static str)
    ensures
        error == BackendDiagnostic::Invalid ==> r@ == "M3 backend rejected an invalid candidate"@,
        error == BackendDiagnostic::Exhausted ==> r@ == "M3 backend preparation quota exhausted"@,
        error == BackendDiagnostic::Unsupported ==> r@ == "M3 backend does not support this vocabulary"@,
        error == BackendDiagnostic::Defective ==> r@ == "M3 backend detected a defective environment"@,
{
    match error {
        BackendDiagnostic::Invalid => "M3 backend rejected an invalid candidate",
        BackendDiagnostic::Exhausted => "M3 backend preparation quota exhausted",
        BackendDiagnostic::Unsupported => "M3 backend does not support this vocabulary",
        BackendDiagnostic::Defective => "M3 backend detected a defective environment",
    }
}

/// The representations the negative control compiles, in order.
pub fn owner_slot_representations() -> (r: Vec<Representation>)
    ensures
        r@ == seq![Representation::WasmGc, Representation::ManagedLinearMemory],
{
    let r = vec![Representation::WasmGc, Representation::ManagedLinearMemory];
    assert(r@ =~= seq![Representation::WasmGc, Representation::ManagedLinearMemory]);
    r
}

pub const REJECTION_LINE: &'static str = "{\"stage\":\"backend-interface-check\",\"outcome\":\"reject\",\"artifact_emitted\":false,\"guest_requests\":0,\"protected_operations\":0}";

/// Whether a compile result is a rejection of the candidate as invalid.
pub open spec fn rejected_invalid(result: Result<(), BackendDiagnostic>) -> bool {
    result == Err::<(), BackendDiagnostic>(BackendDiagnostic::Invalid)
}

/// The verdict of the negative control from the backend's answer for each
/// representation: the rejection line when every one refused the candidate
/// as invalid, and a failure when any accepted it or refused it otherwise.
pub fn owner_slot_verdict(results: &[Result<(), BackendDiagnostic>]) -> (r: Result<&'static str, &'static str>)
    ensures
        (forall|i: int| 0 <= i < results@.len() ==> rejected_invalid(#[trigger] results@[i]))
            ==> r == Ok::<&'static str, &'static str>(REJECTION_LINE),
        !(forall|i: int| 0 <= i < results@.len() ==> rejected_invalid(#[trigger] results@[i]))
            ==> (r matches Err(m) && m@ == "owner-slot adaptation was not rejected as invalid"@),
{
    let mut i: usize = 0;
    while i < results.len()
        invariant
            i <= results@.len(),
            forall|k: int| 0 <= k < i ==> rejected_invalid(#[trigger] results@[k]),
        decreases results@.len() - i,
    {
        match results[i] {
            Err(BackendDiagnostic::Invalid) => {},
            _ => {
                return Err("owner-slot adaptation was not rejected as invalid");
            },
        }
        i = i + 1;
    }
    Ok(REJECTION_LINE)
}

} // verus!
