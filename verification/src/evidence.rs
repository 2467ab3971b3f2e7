//! Reading the independent Lean recheck: its acceptance marker, the axioms
//! the accepted proof depends on, and the diagnostic markers of a refusal.

use vstd::prelude::*;

use crate::outcome::{Failure, Outcome};
use crate::text::{chars_equal, chars_of, contains, contains_chars, lines, lines_spec, owned, starts_with, string_of};

verus! {

/// The axioms an accepted proof may depend on.
pub open spec fn approved(name: Seq<char>) -> bool {
    name == "propext"@ || name == "Classical.choice"@ || name == "Quot.sound"@
}

pub open spec fn accept_marker() -> Seq<char> {
    "NOBLE-MC1-ACCEPT"@
}

pub open spec fn axiom_prefix() -> Seq<char> {
    "axiom:"@
}

/// The outcome of the recheck's axiom lines from `i`, given those read so far:
/// the axioms, or the message of the protocol violation.
pub open spec fn axioms_from(lines: Seq<Seq<char>>, i: int, read: Seq<Seq<char>>) -> Result<Seq<Seq<char>>, Seq<char>>
    decreases lines.len() - i,
{
    if i >= lines.len() || i < 0 {
        Ok(read)
    } else {
        let line = lines[i];
        let p = axiom_prefix();
        if !(p.len() <= line.len() && line.subrange(0, p.len() as int) == p) {
            Err("unexpected trusted-checker output"@)
        } else {
            let entry = line.subrange(p.len() as int, line.len() as int);
            if !approved(entry) || read.len() >= 3 {
                Err("unapproved or duplicate axiom output"@)
            } else if read.contains(entry) {
                Err("duplicate axiom output"@)
            } else {
                axioms_from(lines, i + 1, read.push(entry))
            }
        }
    }
}

/// The outcome of the recheck's complete output.
pub open spec fn verdict(output: Seq<char>) -> Result<Seq<Seq<char>>, Seq<char>> {
    let ls = lines_spec(output);
    if ls.len() == 0 || ls[0] != accept_marker() {
        Err("trusted checker did not report acceptance"@)
    } else {
        axioms_from(ls, 1, Seq::empty())
    }
}

/// A list of at most three distinct approved axioms.
pub open spec fn axiom_list(axioms: Seq<Seq<char>>) -> bool {
    &&& axioms.len() <= 3
    &&& forall|i: int| 0 <= i < axioms.len() ==> approved(#[trigger] axioms[i])
    &&& forall|i: int, j: int| 0 <= i < j < axioms.len() ==> axioms[i] != axioms[j]
}

proof fn lemma_axioms_from(lines: Seq<Seq<char>>, i: int, read: Seq<Seq<char>>)
    requires
        axiom_list(read),
    ensures
        axioms_from(lines, i, read) matches Ok(axioms) ==> axiom_list(axioms),
    decreases lines.len() - i,
{
    if 0 <= i < lines.len() {
        let line = lines[i];
        let p = axiom_prefix();
        if p.len() <= line.len() && line.subrange(0, p.len() as int) == p {
            let entry = line.subrange(p.len() as int, line.len() as int);
            if approved(entry) && read.len() < 3 && !read.contains(entry) {
                let next = read.push(entry);
                assert forall|a: int, b: int| 0 <= a < b < next.len() implies next[a] != next[b] by {
                    if b == next.len() - 1 {
                        assert(next[a] == read[a]);
                    }
                }
                lemma_axioms_from(lines, i + 1, next);
            }
        }
    }
}

/// Law: an accepted recheck names at most three distinct approved axioms.
pub proof fn law_accepted_axioms_are_approved(output: Seq<char>)
    ensures
        verdict(output) matches Ok(axioms) ==> axiom_list(axioms),
{
    let ls = lines_spec(output);
    if ls.len() > 0 && ls[0] == accept_marker() {
        lemma_axioms_from(ls, 1, Seq::empty());
    }
}

fn protocol_error(message: &str) -> (r: Failure)
    ensures
        r.outcome == Outcome::Error,
        r.code@ == "consumer-protocol"@,
        r.message@ == message@,
        r.details is Null,
{
    Failure::error("consumer-protocol", owned(message))
}

/// The axioms the independent recheck reports for an accepted proof, or the
/// protocol violation in its output.
pub fn acceptance_output(output: &str) -> (r: Result<Vec<String>, Failure>)
    ensures
        match verdict(output@) {
            Ok(axioms) => r matches Ok(v) && v@.len() == axioms.len()
                && forall|i: int| 0 <= i < axioms.len() ==> (#[trigger] v@[i])@ == axioms[i],
            Err(message) => r matches Err(f) && f.outcome == Outcome::Error && f.code@ == "consumer-protocol"@
                && f.message@ == message,
        },
{
    let text = chars_of(output);
    let all = lines(text.as_slice());
    let marker = chars_of("NOBLE-MC1-ACCEPT");
    if all.len() == 0 || !chars_equal(all[0].as_slice(), marker.as_slice()) {
        return Err(protocol_error("trusted checker did not report acceptance"));
    }
    let prefix = chars_of("axiom:");
    let propext = chars_of("propext");
    let choice = chars_of("Classical.choice");
    let quot = chars_of("Quot.sound");
    let mut axioms: Vec<String> = Vec::new();
    let mut found: Vec<Vec<char>> = Vec::new();
    let mut i: usize = 1;
    proof {
        assert(found@.map_values(|f: Vec<char>| f@) =~= Seq::<Seq<char>>::empty());
    }
    while i < all.len()
        invariant
            all@.len() == lines_spec(output@).len(),
            forall|k: int| 0 <= k < all@.len() ==> (#[trigger] all@[k])@ == lines_spec(output@)[k],
            lines_spec(output@).len() > 0 && lines_spec(output@)[0] == accept_marker(),
            1 <= i <= all@.len(),
            prefix@ == axiom_prefix(),
            propext@ == "propext"@,
            choice@ == "Classical.choice"@,
            quot@ == "Quot.sound"@,
            axioms@.len() == found@.len(),
            forall|k: int| 0 <= k < found@.len() ==> (#[trigger] axioms@[k])@ == found@[k]@,
            axioms_from(lines_spec(output@), 1, Seq::empty())
                == axioms_from(lines_spec(output@), i as int, found@.map_values(|f: Vec<char>| f@)),
        decreases all@.len() - i,
    {
        let line = &all[i];
        let ghost read = found@.map_values(|f: Vec<char>| f@);
        if !starts_with(line.as_slice(), prefix.as_slice()) {
            return Err(protocol_error("unexpected trusted-checker output"));
        }
        let entry = string_of(line.as_slice(), prefix.len(), line.len());
        let name = chars_of(entry.as_str());
        let is_approved = chars_equal(name.as_slice(), propext.as_slice()) || chars_equal(name.as_slice(), choice.as_slice())
            || chars_equal(name.as_slice(), quot.as_slice());
        if !is_approved || found.len() >= 3 {
            return Err(protocol_error("unapproved or duplicate axiom output"));
        }
        let mut k: usize = 0;
        let mut duplicate = false;
        while k < found.len() && !duplicate
            invariant
                k <= found@.len(),
                read == found@.map_values(|f: Vec<char>| f@),
                duplicate ==> read.contains(name@),
                !duplicate ==> forall|m: int| 0 <= m < k ==> (#[trigger] found@[m])@ != name@,
            decreases found@.len() - k,
        {
            if chars_equal(found[k].as_slice(), name.as_slice()) {
                proof {
                    assert(read[k as int] == found@[k as int]@);
                }
                duplicate = true;
            }
            k = k + 1;
        }
        if duplicate {
            return Err(protocol_error("duplicate axiom output"));
        }
        proof {
            assert(!read.contains(name@)) by {
                if read.contains(name@) {
                    let m = choose|m: int| 0 <= m < read.len() && read[m] == name@;
                    assert(found@[m]@ == read[m]);
                }
            }
        }
        axioms.push(entry);
        found.push(name);
        proof {
            assert(found@.map_values(|f: Vec<char>| f@) =~= read.push(name@));
        }
        i = i + 1;
    }
    proof {
        assert(found@.map_values(|f: Vec<char>| f@).len() == found@.len());
        assert forall|k: int| 0 <= k < found@.len() implies (#[trigger] axioms@[k])@ == found@.map_values(|f: Vec<char>| f@)[k] by {}
    }
    Ok(axioms)
}

/// The diagnostic markers of the independent recheck and the codes they select.
pub open spec fn rejection_code_spec(stderr: Seq<char>) -> Seq<char> {
    if contains(stderr, "MC1_THEOREM_MISSING"@) {
        "theorem-missing"@
    } else if contains(stderr, "MC1_TYPE_MISMATCH"@) {
        "theorem-type-mismatch"@
    } else if contains(stderr, "MC1_AXIOM_REJECTED"@) {
        "forbidden-axiom"@
    } else if contains(stderr, "MC1_DEPENDENCY_LIMIT"@) {
        "dependency-limit"@
    } else {
        "independent-recheck-rejected"@
    }
}

/// The refusal code selected by the first marker found in the recheck's
/// diagnostics.
pub fn rejection_code(stderr: &str) -> (r: &'static str)
    ensures
        r@ == rejection_code_spec(stderr@),
{
    let text = chars_of(stderr);
    if contains_chars(text.as_slice(), chars_of("MC1_THEOREM_MISSING").as_slice()) {
        "theorem-missing"
    } else if contains_chars(text.as_slice(), chars_of("MC1_TYPE_MISMATCH").as_slice()) {
        "theorem-type-mismatch"
    } else if contains_chars(text.as_slice(), chars_of("MC1_AXIOM_REJECTED").as_slice()) {
        "forbidden-axiom"
    } else if contains_chars(text.as_slice(), chars_of("MC1_DEPENDENCY_LIMIT").as_slice()) {
        "dependency-limit"
    } else {
        "independent-recheck-rejected"
    }
}

} // verus!
