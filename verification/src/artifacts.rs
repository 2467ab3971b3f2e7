//! Files around a proof run: the mounts a sandboxed compile sees, the
//! writable output slots Lean may fill, how a finished slot is judged, the
//! byte budget of an input, and what an emission directory receives.

use vstd::prelude::*;

use crate::json::{append_decimal, decimal};
use crate::outcome::{Failure, Outcome};
use crate::sandbox::{failed, views, Mount};
use crate::text::{owned, push_text};

verus! {

/// A read-only mount of `host` at `guest`.
pub fn read_mount(host: &str, guest: &str) -> (r: Mount)
    ensures
        r.host@ == host@,
        r.guest@ == guest@,
        !r.writable,
{
    Mount { host: owned(host), guest: owned(guest), writable: false }
}

/// The path inside the sandbox of a generated file below `root`.
pub fn guest_path(root: &str, relative: &str) -> (r: String)
    ensures
        r@ == root@ + "/"@ + relative@,
{
    let mut r = owned(root);
    push_text(&mut r, "/");
    push_text(&mut r, relative);
    r
}

/// The files Lean may write for the object file `stem.olean`: the object,
/// its IR, and its server and private companions.
pub open spec fn slot_names(stem: Seq<char>) -> Seq<Seq<char>> {
    seq![stem + ".olean"@, stem + ".ir"@, stem + ".olean.server"@, stem + ".olean.private"@]
}

/// The output slots of the object file `stem.olean`, relative to the output
/// directory.
pub fn output_slots(stem: &str) -> (r: Vec<String>)
    ensures
        views(r@) == slot_names(stem@),
{
    let mut object_file = owned(stem);
    push_text(&mut object_file, ".olean");
    let mut ir = owned(stem);
    push_text(&mut ir, ".ir");
    let mut server = owned(stem);
    push_text(&mut server, ".olean.server");
    let mut private = owned(stem);
    push_text(&mut private, ".olean.private");
    let r = vec![object_file, ir, server, private];
    assert(views(r@) =~= slot_names(stem@));
    r
}

/// The mounts of a compile: those given, then each output slot writable at
/// its place below `guest`.
pub fn output_mounts(mounts: Vec<Mount>, root: &str, slots: &[String], guest: &str) -> (r: Vec<Mount>)
    ensures
        r@.len() == mounts@.len() + slots@.len(),
        r@.subrange(0, mounts@.len() as int) == mounts@,
        forall|i: int| 0 <= i < slots@.len() ==> {
            &&& (#[trigger] r@[mounts@.len() + i]).host@ == root@ + "/"@ + slots@[i]@
            &&& r@[mounts@.len() + i].guest@ == guest@ + "/"@ + slots@[i]@
            &&& r@[mounts@.len() + i].writable
        },
{
    let mut r = mounts;
    let ghost start = r@;
    let mut i: usize = 0;
    while i < slots.len()
        invariant
            i <= slots@.len(),
            r@.len() == start.len() + i,
            r@.subrange(0, start.len() as int) == start,
            start == mounts@,
            forall|k: int| 0 <= k < i ==> {
                &&& (#[trigger] r@[start.len() + k]).host@ == root@ + "/"@ + slots@[k]@
                &&& r@[start.len() + k].guest@ == guest@ + "/"@ + slots@[k]@
                &&& r@[start.len() + k].writable
            },
        decreases slots@.len() - i,
    {
        let host = guest_path(root, slots[i].as_str());
        let inside = guest_path(guest, slots[i].as_str());
        let ghost before = r@;
        r.push(Mount { host, guest: inside, writable: true });
        assert(r@.subrange(0, start.len() as int) =~= before.subrange(0, start.len() as int));
        i = i + 1;
    }
    r
}

/// What is done with an output slot once Lean has finished.
#[derive(Clone, Copy, PartialEq, Eq, Structural, Debug)]
pub enum SlotFate {
    /// The slot holds output: keep it.
    Keep,
    /// The slot is empty and not the object file: remove it.
    Remove,
}

/// Judges an output slot from its metadata: it must be a regular file within
/// the artifact budget, and the object file itself must not be empty.
pub fn finish_slot(is_main: bool, is_file: bool, length: u64) -> (r: Result<SlotFate, Failure>)
    ensures
        !is_file || length > crate::sandbox::ARTIFACT_LIMIT ==> (r matches Err(f) && failed(f, Outcome::Error,
            "proof-artifact"@, "invalid or oversized Lean artifact"@)),
        is_file && length <= crate::sandbox::ARTIFACT_LIMIT && length != 0 ==> r == Ok::<SlotFate, Failure>(SlotFate::Keep),
        is_file && length == 0 && is_main ==> (r matches Err(f) && failed(f, Outcome::Error,
            "proof-artifact"@, "Lean exited without producing its object file"@)),
        is_file && length == 0 && !is_main ==> r == Ok::<SlotFate, Failure>(SlotFate::Remove),
{
    if !is_file || length > crate::sandbox::ARTIFACT_LIMIT {
        return Err(Failure::error("proof-artifact", owned("invalid or oversized Lean artifact")));
    }
    if length != 0 {
        return Ok(SlotFate::Keep);
    }
    if is_main {
        return Err(Failure::error("proof-artifact", owned("Lean exited without producing its object file")));
    }
    Ok(SlotFate::Remove)
}

/// An input larger than its budget.
pub fn byte_limit(kind: &str, limit: usize) -> (r: Failure)
    ensures
        failed(r, Outcome::Error, "input-byte-limit"@, kind@ + " exceeds "@ + decimal(limit as nat) + " bytes"@),
{
    let mut message = owned(kind);
    push_text(&mut message, " exceeds ");
    append_decimal(limit as u64, &mut message);
    push_text(&mut message, " bytes");
    Failure::error("input-byte-limit", message)
}

/// Checks an input against its budget, before reading (by its reported
/// length) and after (by what was read).
pub fn within_limit(kind: &str, limit: usize, length: u64) -> (r: Result<(), Failure>)
    ensures
        length <= limit ==> r is Ok,
        length > limit ==> (r matches Err(f) && failed(f, Outcome::Error, "input-byte-limit"@,
            kind@ + " exceeds "@ + decimal(limit as nat) + " bytes"@)),
{
    if length > limit as u64 {
        return Err(byte_limit(kind, limit));
    }
    Ok(())
}

/// The file names an emission of `verify` writes before its report, in
/// order: the contract, the generated statement, the proof and the exported
/// declarations, each when present.
pub fn emitted_files(has_source: bool, has_generated: bool, has_proof: bool, has_wire: bool) -> (r: Vec<&'static str>)
    ensures
        r@.map_values(|s: &str| s@) == (if has_source { seq!["contract.noble"@] } else { Seq::empty() })
            + (if has_generated { seq!["MC1Obligation.lean"@] } else { Seq::empty() })
            + (if has_proof { seq!["MC1Proof.lean"@] } else { Seq::empty() })
            + (if has_wire { seq!["MC1Proof.json"@] } else { Seq::empty() }),
{
    let mut r: Vec<&'static str> = Vec::new();
    let ghost s0 = r@.map_values(|s: &str| s@);
    if has_source {
        r.push("contract.noble");
    }
    let ghost s1 = r@.map_values(|s: &str| s@);
    assert(s1 =~= s0 + (if has_source { seq!["contract.noble"@] } else { Seq::empty() }));
    if has_generated {
        r.push("MC1Obligation.lean");
    }
    let ghost s2 = r@.map_values(|s: &str| s@);
    assert(s2 =~= s1 + (if has_generated { seq!["MC1Obligation.lean"@] } else { Seq::empty() }));
    if has_proof {
        r.push("MC1Proof.lean");
    }
    let ghost s3 = r@.map_values(|s: &str| s@);
    assert(s3 =~= s2 + (if has_proof { seq!["MC1Proof.lean"@] } else { Seq::empty() }));
    if has_wire {
        r.push("MC1Proof.json");
    }
    assert(r@.map_values(|s: &str| s@) =~= s3 + (if has_wire { seq!["MC1Proof.json"@] } else { Seq::empty() }));
    r
}

/// The file names a build emission writes before its report, in order: the
/// contract always; the wrapper, WAT and Wasm only when release was allowed;
/// the proof when one was offered.
pub fn build_files(allowed: bool, has_wrapper: bool, has_wat: bool, has_wasm: bool, has_proof: bool) -> (r: Vec<&'static str>)
    ensures
        r@.map_values(|s: &str| s@) == seq!["contract.noble"@]
            + (if allowed && has_wrapper { seq!["wrapper.noble"@] } else { Seq::empty() })
            + (if allowed && has_wat { seq!["artifact.wat"@] } else { Seq::empty() })
            + (if allowed && has_wasm { seq!["artifact.wasm"@] } else { Seq::empty() })
            + (if has_proof { seq!["proof.lean"@] } else { Seq::empty() }),
{
    let mut r: Vec<&'static str> = vec!["contract.noble"];
    let ghost s0 = r@.map_values(|s: &str| s@);
    assert(s0 =~= seq!["contract.noble"@]);
    if allowed && has_wrapper {
        r.push("wrapper.noble");
    }
    let ghost s1 = r@.map_values(|s: &str| s@);
    assert(s1 =~= s0 + (if allowed && has_wrapper { seq!["wrapper.noble"@] } else { Seq::empty() }));
    if allowed && has_wat {
        r.push("artifact.wat");
    }
    let ghost s2 = r@.map_values(|s: &str| s@);
    assert(s2 =~= s1 + (if allowed && has_wat { seq!["artifact.wat"@] } else { Seq::empty() }));
    if allowed && has_wasm {
        r.push("artifact.wasm");
    }
    let ghost s3 = r@.map_values(|s: &str| s@);
    assert(s3 =~= s2 + (if allowed && has_wasm { seq!["artifact.wasm"@] } else { Seq::empty() }));
    if has_proof {
        r.push("proof.lean");
    }
    assert(r@.map_values(|s: &str| s@) =~= s3 + (if has_proof { seq!["proof.lean"@] } else { Seq::empty() }));
    r
}

} // verus!
