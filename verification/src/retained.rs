//! The contracts a companion session retains: the report of a `contract`
//! operation, the one record kept per admitted contract, and the parts of a
//! `derive` offer read from the script.

use vstd::prelude::*;

use crate::admission::{refusal_json, tools_of, Evidence, Refusal};
use crate::companion_reports::{line, report_line};
use crate::companions::{evidence_class_name, refusal_outcome, refusal_outcome_spec, script_refusal, EvidenceClass, Refused};
use crate::digest::digest_text;
use crate::json::{decimal, encoded, string, text_is, Json};
use crate::number::{parse_unsigned, parsed};
use crate::outcome::failure_json;
use crate::slots::refusal_is;
use crate::text::{chars_of, owned, push_text, text_equal};

verus! {

/// The core's decision on an admitted contract: its outcome code, the
/// contract and evidence it retained, the statement's digest, and the codes
/// of its refusals.
pub struct Decision {
    pub outcome: String,
    pub contract: Option<u32>,
    pub statement: u64,
    pub evidence: Option<u32>,
    pub refusals: Vec<String>,
}

/// The retained record of one admitted contract.
#[derive(Clone, Copy, PartialEq, Eq, Structural, Debug)]
pub struct Record {
    pub contract: u32,
    pub statement: u64,
    pub evidence: Option<u32>,
    pub class: Option<EvidenceClass>,
}

/// The class of evidence a contract is retained with: exact when the
/// consumer rechecked a proof, replay otherwise.
pub open spec fn retained_class(rechecked: bool) -> EvidenceClass {
    if rechecked { EvidenceClass::LeanExact } else { EvidenceClass::Replay }
}

/// The name of an evidence class.
pub open spec fn class_name(c: EvidenceClass) -> Seq<char> {
    match c {
        EvidenceClass::LeanExact => "lean-exact"@,
        EvidenceClass::Replay => "replay"@,
        EvidenceClass::LeanRefutation => "lean-refutation"@,
        EvidenceClass::Assumption => "assumption"@,
    }
}

/// An optional index as JSON.
pub open spec fn index_json(v: Option<u32>) -> Json {
    match v {
        Some(n) => Json::Number(n as u64),
        None => Json::Null,
    }
}

fn index_or_null(v: Option<u32>) -> (r: Json)
    ensures
        r == index_json(v),
{
    match v {
        Some(n) => Json::Number(n as u64),
        None => Json::Null,
    }
}

/// The entries of a `contract` report before its refusals.
pub open spec fn admission_fields(entries: Seq<(&'static str, Json)>, d: Decision, evidence: Option<Evidence>) -> bool {
    &&& entries[3] == ("contract_reference", index_json(d.contract))
    &&& entries[4].0@ == "statement"@ && text_is(entries[4].1, decimal(d.statement as nat))
    &&& entries[5] == ("evidence_reference", index_json(d.evidence))
    &&& entries[6].0@ == "evidence_class"@ && text_is(entries[6].1, class_name(retained_class(evidence is Some)))
    &&& entries[7] == ("ordinary_typing", Json::Bool(true))
    &&& entries[8] == ("independent_recheck", Json::Bool(evidence is Some))
    &&& entries[9].0@ == "claim_kind"@ && text_is(entries[9].1, "partial-correctness"@)
    &&& entries[10] == ("prover_calls", Json::Number(if evidence is Some { 1 } else { 0 }))
    &&& entries[11].0@ == "toolchain"@ && match evidence {
        Some(e) => encoded(entries[11].1) == encoded(e.tools),
        None => entries[11].1 is Null,
    }
    &&& entries[12] == ("guest_requests", Json::Number(0))
    &&& entries[13] == ("protected_operations", Json::Number(0))
    &&& entries[14] == ("candidate_body_started", Json::Bool(false))
}

/// The report of an admitted contract: the decision, the evidence the
/// consumer rechecked (if any), then one `refusal` entry per refusal code.
pub fn contract_report(decision: &Decision, evidence: Option<&Evidence>) -> (r: Json)
    ensures
        r matches Json::Object(entries) && entries@.len() == 15 + decision.refusals@.len()
            && report_line(r, "contract"@, decision.outcome@, entries@.subrange(3, entries@.len() as int))
            && admission_fields(entries@, *decision, match evidence { Some(e) => Some(*e), None => None })
            && forall|k: int| 0 <= k < decision.refusals@.len() ==> {
                &&& (#[trigger] entries@[15 + k]).0@ == "refusal"@
                &&& text_is(entries@[15 + k].1, decision.refusals@[k]@)
            },
{
    let rechecked = evidence.is_some();
    let class = if rechecked { EvidenceClass::LeanExact } else { EvidenceClass::Replay };
    let toolchain = match evidence {
        Some(e) => tools_of(e),
        None => Json::Null,
    };
    let mut extras = vec![
        ("contract_reference", index_or_null(decision.contract)),
        ("statement", Json::String(digest_text(decision.statement))),
        ("evidence_reference", index_or_null(decision.evidence)),
        ("evidence_class", string(evidence_class_name(class))),
        ("ordinary_typing", Json::Bool(true)),
        ("independent_recheck", Json::Bool(rechecked)),
        ("claim_kind", string("partial-correctness")),
        ("prover_calls", Json::Number(if rechecked { 1 } else { 0 })),
        ("toolchain", toolchain),
        ("guest_requests", Json::Number(0)),
        ("protected_operations", Json::Number(0)),
        ("candidate_body_started", Json::Bool(false)),
    ];
    let mut at: usize = 0;
    while at < decision.refusals.len()
        invariant
            at <= decision.refusals@.len(),
            extras@.len() == 12 + at,
            forall|k: int| 0 <= k < at ==> {
                &&& (#[trigger] extras@[12 + k]).0@ == "refusal"@
                &&& text_is(extras@[12 + k].1, decision.refusals@[k]@)
            },
            extras@[0] == ("contract_reference", index_json(decision.contract)),
            extras@[1].0@ == "statement"@ && text_is(extras@[1].1, decimal(decision.statement as nat)),
            extras@[2] == ("evidence_reference", index_json(decision.evidence)),
            extras@[3].0@ == "evidence_class"@ && text_is(extras@[3].1, class_name(retained_class(rechecked))),
            extras@[4] == ("ordinary_typing", Json::Bool(true)),
            extras@[5] == ("independent_recheck", Json::Bool(rechecked)),
            extras@[6].0@ == "claim_kind"@ && text_is(extras@[6].1, "partial-correctness"@),
            extras@[7] == ("prover_calls", Json::Number(if rechecked { 1 } else { 0 })),
            extras@[8].0@ == "toolchain"@ && match evidence {
                Some(e) => encoded(extras@[8].1) == encoded(e.tools),
                None => extras@[8].1 is Null,
            },
            extras@[9] == ("guest_requests", Json::Number(0)),
            extras@[10] == ("protected_operations", Json::Number(0)),
            extras@[11] == ("candidate_body_started", Json::Bool(false)),
            rechecked == evidence is Some,
        decreases decision.refusals@.len() - at,
    {
        extras.push(("refusal", string(decision.refusals[at].as_str())));
        at = at + 1;
    }
    let ghost e = extras@;
    let r = line("contract", decision.outcome.as_str(), extras);
    proof {
        let entries = r->Object_0@;
        assert(entries.subrange(3, entries.len() as int) == e);
        assert forall|k: int| 3 <= k < entries.len() implies entries[k] == e[k - 3] by {
            assert(entries.subrange(3, entries.len() as int)[k - 3] == entries[k]);
        }
        assert forall|k: int| 0 <= k < decision.refusals@.len() implies {
            &&& (#[trigger] entries[15 + k]).0@ == "refusal"@
            &&& text_is(entries[15 + k].1, decision.refusals@[k]@)
        } by {
            assert(entries[15 + k] == e[12 + k]);
        }
    }
    r
}

/// The report of a contract the consumer refused: its diagnostic, whether
/// the ordinary subject still typed, and whether verification ran.
pub fn contract_refused(refusal: &Refusal) -> (r: Json)
    ensures
        r matches Json::Object(entries) && entries@.len() == 10
            && report_line(r, "contract"@, refusal.outcome.spec_name(), entries@.subrange(3, 10))
            && entries@[3].0@ == "diagnostic"@ && failure_json(entries@[3].1, refusal.code@, refusal.message@, refusal.details)
            && entries@[4] == ("ordinary_typing", Json::Bool(refusal.ordinary_typing))
            && entries@[5] == ("prover_calls", Json::Number(if refusal.verification_ran { 1 } else { 0 }))
            && entries@[6] == ("toolchain", Json::Null)
            && entries@[7] == ("guest_requests", Json::Number(0))
            && entries@[8] == ("protected_operations", Json::Number(0))
            && entries@[9] == ("candidate_body_started", Json::Bool(false)),
{
    let extras = vec![
        ("diagnostic", refusal_json(refusal)),
        ("ordinary_typing", Json::Bool(refusal.ordinary_typing)),
        ("prover_calls", Json::Number(if refusal.verification_ran { 1 } else { 0 })),
        ("toolchain", Json::Null),
        ("guest_requests", Json::Number(0)),
        ("protected_operations", Json::Number(0)),
        ("candidate_body_started", Json::Bool(false)),
    ];
    let ghost e = extras@;
    let r = line("contract", refusal.claim_outcome(), extras);
    proof {
        let entries = r->Object_0@;
        assert(entries.subrange(3, 10) == e);
        assert forall|k: int| 3 <= k < 10 implies entries[k] == e[k - 3] by {
            assert(entries.subrange(3, 10)[k - 3] == entries[k]);
        }
    }
    r
}

/// No two records retain the same contract.
pub open spec fn one_per_contract(records: Seq<Record>) -> bool {
    forall|i: int, j: int| 0 <= i < records.len() && 0 <= j < records.len() && i != j
        ==> #[trigger] records[i].contract != #[trigger] records[j].contract
}

/// The record of a contract among retained records, if there is one.
pub open spec fn retains(records: Seq<Record>, contract: u32) -> bool {
    exists|i: int| 0 <= i < records.len() && #[trigger] records[i].contract == contract
}

/// The record a decision retains for its contract.
pub open spec fn retained_record(d: Decision, contract: u32, rechecked: bool) -> Record {
    Record { contract, statement: d.statement, evidence: d.evidence, class: Some(retained_class(rechecked)) }
}

/// Retains the decision's contract: a contract admitted again has its
/// record revised in place, so a later `certify` cannot bind a stale one;
/// a new contract gets a record at the end. A decision without a contract
/// changes nothing.
pub fn retain(records: &mut Vec<Record>, decision: &Decision, rechecked: bool)
    ensures
        decision.contract is None ==> final(records)@ == old(records)@,
        decision.contract matches Some(c) ==> {
            &&& retains(old(records)@, c) ==> exists|i: int| 0 <= i < old(records)@.len()
                && old(records)@[i].contract == c
                && (forall|k: int| 0 <= k < i ==> (#[trigger] old(records)@[k]).contract != c)
                && final(records)@ == old(records)@.update(i, retained_record(*decision, c, rechecked))
            &&& !retains(old(records)@, c) ==> final(records)@ == old(records)@.push(retained_record(*decision, c, rechecked))
        },
        one_per_contract(old(records)@) ==> one_per_contract(final(records)@),
        decision.contract matches Some(c) ==> exists|i: int| 0 <= i < final(records)@.len()
            && #[trigger] final(records)@[i] == retained_record(*decision, c, rechecked),
{
    let c = match decision.contract {
        Some(c) => c,
        None => return,
    };
    let record = Record {
        contract: c,
        statement: decision.statement,
        evidence: decision.evidence,
        class: Some(if rechecked { EvidenceClass::LeanExact } else { EvidenceClass::Replay }),
    };
    let mut i: usize = 0;
    while i < records.len()
        invariant
            i <= records@.len(),
            records@ == old(records)@,
            decision.contract == Some(c),
            record == retained_record(*decision, c, rechecked),
            forall|k: int| 0 <= k < i ==> (#[trigger] records@[k]).contract != c,
        decreases records@.len() - i,
    {
        if records[i].contract == c {
            records.set(i, record);
            assert(old(records)@[i as int].contract == c);
            proof {
                if one_per_contract(old(records)@) {
                    lemma_retain_unique(old(records)@, records@, *decision, rechecked);
                }
                assert(records@[i as int] == retained_record(*decision, c, rechecked));
            }
            return;
        }
        i = i + 1;
    }
    records.push(record);
    proof {
        assert(!retains(old(records)@, c));
        if one_per_contract(old(records)@) {
            lemma_retain_unique(old(records)@, records@, *decision, rechecked);
        }
        assert(records@[old(records)@.len() as int] == retained_record(*decision, c, rechecked));
    }
}

/// Revising a record in place or adding a record for a new contract keeps
/// one record per contract.
proof fn lemma_retain_unique(before: Seq<Record>, after: Seq<Record>, decision: Decision, rechecked: bool)
    requires
        one_per_contract(before),
        decision.contract is None ==> after == before,
        decision.contract matches Some(c) ==> {
            &&& retains(before, c) ==> exists|i: int| 0 <= i < before.len() && before[i].contract == c
                && (forall|k: int| 0 <= k < i ==> (#[trigger] before[k]).contract != c)
                && after == before.update(i, retained_record(decision, c, rechecked))
            &&& !retains(before, c) ==> after == before.push(retained_record(decision, c, rechecked))
        },
    ensures
        one_per_contract(after),
        decision.contract matches Some(c) ==> exists|i: int| 0 <= i < after.len()
            && #[trigger] after[i] == retained_record(decision, c, rechecked),
{
    match decision.contract {
        None => {},
        Some(c) => {
            if retains(before, c) {
                let i = choose|i: int| 0 <= i < before.len() && before[i].contract == c
                    && (forall|k: int| 0 <= k < i ==> (#[trigger] before[k]).contract != c)
                    && after == before.update(i, retained_record(decision, c, rechecked));
                assert(after[i] == retained_record(decision, c, rechecked));
                assert forall|a: int, b: int| 0 <= a < after.len() && 0 <= b < after.len() && a != b
                    implies #[trigger] after[a].contract != #[trigger] after[b].contract by {
                    if a != i && b != i {
                        assert(after[a] == before[a] && after[b] == before[b]);
                    } else if a == i {
                        assert(after[b] == before[b]);
                        assert(before[b].contract != before[i].contract);
                    } else {
                        assert(after[a] == before[a]);
                        assert(before[a].contract != before[i].contract);
                    }
                }
            } else {
                let n = before.len() as int;
                assert(after[n] == retained_record(decision, c, rechecked));
                assert forall|a: int, b: int| 0 <= a < after.len() && 0 <= b < after.len() && a != b
                    implies #[trigger] after[a].contract != #[trigger] after[b].contract by {
                    if a < n && b < n {
                        assert(after[a] == before[a] && after[b] == before[b]);
                    } else if a == n {
                        assert(after[b] == before[b]);
                        assert(!(0 <= b < before.len() && before[b].contract == c));
                    } else {
                        assert(after[a] == before[a]);
                        assert(!(0 <= a < before.len() && before[a].contract == c));
                    }
                }
            }
        },
    }
}

/// A derivation rule of the first rule set.
#[derive(Clone, Copy, PartialEq, Eq, Structural, Debug)]
pub enum Rule {
    AdmitLean,
    Compose,
    Instantiate,
    Guard,
    Project,
    Invoke,
}

/// The rule a script word names.
pub open spec fn rule_spec(name: Seq<char>) -> Option<Rule> {
    if name == "admit-lean"@ {
        Some(Rule::AdmitLean)
    } else if name == "compose"@ {
        Some(Rule::Compose)
    } else if name == "instantiate"@ {
        Some(Rule::Instantiate)
    } else if name == "guard"@ {
        Some(Rule::Guard)
    } else if name == "project"@ {
        Some(Rule::Project)
    } else if name == "invoke"@ {
        Some(Rule::Invoke)
    } else {
        None
    }
}

/// The rule a `derive` operation names.
pub fn rule_of(name: &str) -> (r: Result<Rule, Refused>)
    ensures
        match rule_spec(name@) {
            Some(rule) => r == Ok::<Rule, Refused>(rule),
            None => r matches Err(f) && refusal_is(f, "refused"@, "unknown-rule"@, "'"@ + name@ + "' is not a v1 rule"@),
        },
{
    if text_equal(name, "admit-lean") {
        Ok(Rule::AdmitLean)
    } else if text_equal(name, "compose") {
        Ok(Rule::Compose)
    } else if text_equal(name, "instantiate") {
        Ok(Rule::Instantiate)
    } else if text_equal(name, "guard") {
        Ok(Rule::Guard)
    } else if text_equal(name, "project") {
        Ok(Rule::Project)
    } else if text_equal(name, "invoke") {
        Ok(Rule::Invoke)
    } else {
        let mut message = owned("'");
        push_text(&mut message, name);
        push_text(&mut message, "' is not a v1 rule");
        Err(Refused::new("refused", owned("unknown-rule"), message))
    }
}

/// The premises a `derive` offer names: every word an evidence index.
pub fn evidence_ids(tokens: &[String]) -> (r: Result<Vec<u32>, Refused>)
    ensures
        (forall|i: int| 0 <= i < tokens@.len() ==> #[trigger] parsed(tokens@[i]@, u32::MAX as nat) is Some) ==> (r matches Ok(ids)
            && ids@.len() == tokens@.len()
            && forall|i: int| 0 <= i < tokens@.len() ==> parsed(tokens@[i]@, u32::MAX as nat) == Some((#[trigger] ids@[i]) as nat)),
        !(forall|i: int| 0 <= i < tokens@.len() ==> #[trigger] parsed(tokens@[i]@, u32::MAX as nat) is Some) ==> (r matches Err(f)
            && exists|i: int| 0 <= i < tokens@.len() && parsed(tokens@[i]@, u32::MAX as nat) is None
                && (forall|k: int| 0 <= k < i ==> #[trigger] parsed(tokens@[k]@, u32::MAX as nat) is Some)
                && script_refusal(f, "'"@ + tokens@[i]@ + "' is not an evidence id"@)),
{
    let mut ids: Vec<u32> = Vec::new();
    let mut at: usize = 0;
    while at < tokens.len()
        invariant
            at <= tokens@.len(),
            ids@.len() == at,
            forall|k: int| 0 <= k < at ==> parsed(tokens@[k]@, u32::MAX as nat) == Some((#[trigger] ids@[k]) as nat),
        decreases tokens@.len() - at,
    {
        let spelled = chars_of(tokens[at].as_str());
        match parse_unsigned(spelled.as_slice(), 0xffff_ffffu64) {
            Some(n) => ids.push(n as u32),
            None => {
                let mut message = owned("'");
                push_text(&mut message, tokens[at].as_str());
                push_text(&mut message, "' is not an evidence id");
                proof {
                    assert(parsed(tokens@[at as int]@, u32::MAX as nat) is None);
                    assert forall|k: int| 0 <= k < at implies #[trigger] parsed(tokens@[k]@, u32::MAX as nat) is Some by {
                        assert(parsed(tokens@[k]@, u32::MAX as nat) == Some(ids@[k] as nat));
                    }
                }
                return Err(Refused::script(message));
            },
        }
        at = at + 1;
    }
    assert forall|i: int| 0 <= i < tokens@.len() implies #[trigger] parsed(tokens@[i]@, u32::MAX as nat) is Some by {
        assert(parsed(tokens@[i]@, u32::MAX as nat) == Some(ids@[i] as nat));
    }
    Ok(ids)
}

/// The report of evidence a derivation minted.
pub fn derive_report(rule: &str, evidence: u32, contract: u32, statement: u64) -> (r: Json)
    ensures
        r matches Json::Object(entries) && entries@.len() == 10
            && report_line(r, "derive"@, "minted"@, entries@.subrange(3, 10))
            && entries@[3].0@ == "rule"@ && text_is(entries@[3].1, rule@)
            && entries@[4] == ("evidence_reference", Json::Number(evidence as u64))
            && entries@[5] == ("contract_reference", Json::Number(contract as u64))
            && entries@[6].0@ == "statement"@ && text_is(entries@[6].1, decimal(statement as nat))
            && entries@[7] == ("prover_calls", Json::Number(0))
            && entries@[8] == ("candidate_prepare_requests", Json::Number(0))
            && entries@[9] == ("guest_requests", Json::Number(0)),
{
    let extras = vec![
        ("rule", string(rule)),
        ("evidence_reference", Json::Number(evidence as u64)),
        ("contract_reference", Json::Number(contract as u64)),
        ("statement", Json::String(digest_text(statement))),
        ("prover_calls", Json::Number(0)),
        ("candidate_prepare_requests", Json::Number(0)),
        ("guest_requests", Json::Number(0)),
    ];
    let ghost e = extras@;
    let r = line("derive", "minted", extras);
    proof {
        let entries = r->Object_0@;
        assert(entries.subrange(3, 10) == e);
        assert forall|k: int| 3 <= k < 10 implies entries[k] == e[k - 3] by {
            assert(entries.subrange(3, 10)[k - 3] == entries[k]);
        }
    }
    r
}

/// The refusal of a derivation the core declined, by the core's code.
pub fn derive_refused(code: &str, rule: &str) -> (r: Refused)
    ensures
        refusal_is(r, refusal_outcome_spec(code@), code@, "the "@ + rule@ + " derivation was refused"@),
{
    let mut message = owned("the ");
    push_text(&mut message, rule);
    push_text(&mut message, " derivation was refused");
    Refused::new(refusal_outcome(code), owned(code), message)
}

} // verus!
