//! The reports of the operations that certify, instantiate, invoke and
//! compose companions, and the checks they make of the engine's replies
//! along the way.

use vstd::prelude::*;

use crate::companion_reports::{
    index_in, line, member, payload_spec, report_line, runtime_count, slot_type, slots, stack_of, top_payload, top_value,
};
use crate::companion_values::{append_signed, detail, signed_decimal};
use crate::companions::{script_refusal, Refused};
use crate::digest::digest_text;
use crate::json::{decimal, string, text_is, Json};
use crate::number::{parse_unsigned, parsed};
use crate::reader::Value;
use crate::slots::{refusal_is, text_or_empty};
use crate::text::{chars_of, owned, push_text, text_equal};

verus! {

/// The contract a `certify` operation binds: the index its optional token
/// names, or else the most recently admitted contract.
pub fn contract_index(token: Option<&str>, last: Option<u32>) -> (r: Result<u32, Refused>)
    ensures
        token matches Some(t) ==> match parsed(t@, u32::MAX as nat) {
            Some(n) => r == Ok::<u32, Refused>(n as u32),
            None => r matches Err(f) && script_refusal(f, "'"@ + t@ + "' is not a contract index"@),
        },
        token is None ==> match last {
            Some(c) => r == Ok::<u32, Refused>(c),
            None => r matches Err(f) && refusal_is(f, "refused"@, "unknown-contract"@, "no contract has been admitted"@),
        },
{
    match token {
        Some(t) => {
            let spelled = chars_of(t);
            match parse_unsigned(spelled.as_slice(), 0xffff_ffffu64) {
                Some(n) => Ok(n as u32),
                None => {
                    let mut message = owned("'");
                    push_text(&mut message, t);
                    push_text(&mut message, "' is not a contract index");
                    Err(Refused::script(message))
                },
            }
        },
        None => match last {
            Some(c) => Ok(c),
            None => Err(Refused::new("refused", owned("unknown-contract"), owned("no contract has been admitted"))),
        },
    }
}

/// The report of `certify`: the subject, the identity the core bound, the
/// new certified cell, and the contract and evidence it rests on.
pub fn certify_report(subject: u64, identity: u64, certified: u64, contract: u32, evidence: u32) -> (r: Json)
    ensures
        r matches Json::Object(entries) && entries@.len() == 11
            && report_line(r, "certify"@, "certified"@, entries@.subrange(3, 11))
            && entries@[3] == ("subject_handle", Json::Number(subject))
            && entries@[4].0@ == "subject_identity"@ && text_is(entries@[4].1, decimal(identity as nat))
            && entries@[5] == ("certified_handle", Json::Number(certified))
            && entries@[6] == ("contract_reference", Json::Number(contract as u64))
            && entries@[7] == ("evidence_reference", Json::Number(evidence as u64))
            && entries@[8] == ("behavioral_certification_claimed", Json::Bool(true))
            && entries@[9] == ("prover_calls", Json::Number(0))
            && entries@[10] == ("candidate_prepare_requests", Json::Number(0)),
{
    let extras = vec![
        ("subject_handle", Json::Number(subject)),
        ("subject_identity", Json::String(digest_text(identity))),
        ("certified_handle", Json::Number(certified)),
        ("contract_reference", Json::Number(contract as u64)),
        ("evidence_reference", Json::Number(evidence as u64)),
        ("behavioral_certification_claimed", Json::Bool(true)),
        ("prover_calls", Json::Number(0)),
        ("candidate_prepare_requests", Json::Number(0)),
    ];
    let ghost e = extras@;
    let r = line("certify", "certified", extras);
    proof {
        let entries = r->Object_0@;
        assert(entries.subrange(3, 11) == e);
        assert(entries[3] == e[0]);
        assert(entries[4] == e[1]);
        assert(entries[5] == e[2]);
        assert(entries[6] == e[3]);
        assert(entries[7] == e[4]);
        assert(entries[8] == e[5]);
        assert(entries[9] == e[6]);
        assert(entries[10] == e[7]);
    }
    r
}

/// The cells published for a new companion: its contract, evidence and
/// certified handles.
pub struct Handles {
    pub contract: u64,
    pub evidence: u64,
    pub certified: u64,
}

/// The entries every instantiation report carries.
pub open spec fn instance_fields(entries: Seq<(&'static str, Json)>, program_identity: u64, statement: u64, capture: i64,
    builder: u64, instance: u64, handles: Handles) -> bool {
    &&& entries[3].0@ == "program_identity"@ && text_is(entries[3].1, decimal(program_identity as nat))
    &&& entries[4].0@ == "statement"@ && text_is(entries[4].1, decimal(statement as nat))
    &&& entries[5].0@ == "capture"@ && text_is(entries[5].1, signed_decimal(capture as int))
    &&& entries[6] == ("builder_handle", Json::Number(builder))
    &&& entries[7] == ("instance_handle", Json::Number(instance))
    &&& entries[8] == ("contract_handle", Json::Number(handles.contract))
    &&& entries[9] == ("evidence_handle", Json::Number(handles.evidence))
    &&& entries[10] == ("certified_handle", Json::Number(handles.certified))
    &&& entries[11] == ("same_compiled_builder", Json::Bool(true))
    &&& entries[12] == ("literal_specialization_sufficient", Json::Bool(false))
    &&& entries[13] == ("prover_calls", Json::Number(0))
    &&& entries[14] == ("candidate_prepare_requests", Json::Number(0))
}

/// The signed decimal text of a number, as JSON.
fn signed_text(n: i64) -> (r: Json)
    ensures
        text_is(r, signed_decimal(n as int)),
{
    let mut s = String::new();
    append_signed(n, &mut s);
    Json::String(s)
}

/// The report of `instantiate`: each instance is bound and certified, and,
/// when an argument was given, what the instance returned for it.
pub fn instance_report(program_identity: u64, statement: u64, capture: i64, builder: u64, instance: u64,
    handles: Handles, run: Option<(i64, Json)>) -> (r: Json)
    ensures
        r matches Json::Object(entries) && entries@.len() == (if run is Some { 17int } else { 15int })
            && report_line(r, "instantiate"@, "each-instance-bound-and-certified"@, entries@.subrange(3, entries@.len() as int))
            && instance_fields(entries@, program_identity, statement, capture, builder, instance, handles)
            && (run matches Some((argument, output)) ==> {
                &&& entries@[15].0@ == "argument"@ && text_is(entries@[15].1, signed_decimal(argument as int))
                &&& entries@[16].0@ == "output"@ && entries@[16].1 == output
            }),
{
    let mut extras = vec![
        ("program_identity", Json::String(digest_text(program_identity))),
        ("statement", Json::String(digest_text(statement))),
        ("capture", signed_text(capture)),
        ("builder_handle", Json::Number(builder)),
        ("instance_handle", Json::Number(instance)),
        ("contract_handle", Json::Number(handles.contract)),
        ("evidence_handle", Json::Number(handles.evidence)),
        ("certified_handle", Json::Number(handles.certified)),
        ("same_compiled_builder", Json::Bool(true)),
        ("literal_specialization_sufficient", Json::Bool(false)),
        ("prover_calls", Json::Number(0)),
        ("candidate_prepare_requests", Json::Number(0)),
    ];
    match run {
        Some((argument, output)) => {
            extras.push(("argument", signed_text(argument)));
            extras.push(("output", output));
        },
        None => {},
    }
    let ghost e = extras@;
    let r = line("instantiate", "each-instance-bound-and-certified", extras);
    proof {
        let entries = r->Object_0@;
        assert(entries.subrange(3, entries.len() as int) == e);
        assert forall|k: int| 3 <= k < entries.len() implies entries[k] == e[k - 3] by {
            assert(entries.subrange(3, entries.len() as int)[k - 3] == entries[k]);
        }
    }
    r
}

/// The variant of the top stack slot of a reply, or nothing.
pub open spec fn top_variant(report: Value) -> Seq<char> {
    match stack_of(report) {
        Some(items) => if items.len() > 0 { text_or_empty(member(items.last(), "variant"@)) } else { Seq::empty() },
        None => Seq::empty(),
    }
}

fn variant_of(report: &Value) -> (r: String)
    ensures
        r@ == top_variant(*report),
{
    let items = match report.member("stack") {
        Some(v) => match v.items() {
            Some(items) => items,
            None => return String::new(),
        },
        None => return String::new(),
    };
    if items.len() == 0 {
        return String::new();
    }
    match items[items.len() - 1].member("variant") {
        Some(v) => match v.text() {
            Some(t) => owned(t),
            None => String::new(),
        },
        None => String::new(),
    }
}

/// What the session knows of a guarded invocation besides the reply.
pub struct Invocation {
    /// The guard template's code.
    pub template: String,
    /// The source of the guard wrapper that ran.
    pub wrapper: String,
    pub subject: u64,
    pub identity: String,
    /// Whether the companion's subject changed across the call.
    pub identity_changed: bool,
}

/// The provenance entries of an invocation report.
pub open spec fn invocation_provenance(entries: Seq<(&'static str, Json)>, i: Invocation) -> bool {
    &&& entries[3].0@ == "guard_template"@ && text_is(entries[3].1, i.template@)
    &&& entries[4] == ("guard_erased", Json::Bool(false))
    &&& entries[5] == ("verified_backend_claimed", Json::Bool(false))
    &&& entries[6] == ("underlying_program_identity_changed", Json::Bool(i.identity_changed))
    &&& entries[7] == ("subject_handle", Json::Number(i.subject))
    &&& entries[8].0@ == "subject_identity"@ && text_is(entries[8].1, i.identity@)
    &&& entries[9].0@ == "artifact_correspondence"@ && text_is(entries[9].1, "recorded-trusted-build"@)
    &&& entries[10].0@ == "host_authority"@ && text_is(entries[10].1, "independently-checked-resource-free"@)
    &&& entries[11].0@ == "wrapper_source"@ && text_is(entries[11].1, i.wrapper@)
    &&& entries[12] == ("conditional_theorem_valid", Json::Bool(true))
}

/// The report of `invoke` from the guard wrapper's reply: `right` is a
/// certified invocation whose body ran, `left` a precondition rejection;
/// anything else refuses the operation.
pub fn invoke_report(report: &Value, invocation: &Invocation) -> (r: Result<Json, Refused>)
    ensures
        top_variant(*report) != "left"@ && top_variant(*report) != "right"@ ==> (r matches Err(f)
            && script_refusal(f, "guard wrapper returned neither rejection nor invocation"@)),
        (top_variant(*report) == "left"@ || top_variant(*report) == "right"@)
            && index_in(member(*report, "guest_requests"@)) is None ==> (r matches Err(f)
            && script_refusal(f, "runtime omitted "@ + "guest_requests"@)),
        (top_variant(*report) == "left"@ || top_variant(*report) == "right"@)
            && index_in(member(*report, "guest_requests"@)) is Some
            && index_in(member(*report, "protected_operations"@)) is None ==> (r matches Err(f)
            && script_refusal(f, "runtime omitted "@ + "protected_operations"@)),
        (top_variant(*report) == "left"@ || top_variant(*report) == "right"@)
            && index_in(member(*report, "guest_requests"@)) is Some
            && index_in(member(*report, "protected_operations"@)) is Some ==> (r matches Ok(Json::Object(entries))
            && entries@.len() == 21
            && report_line(Json::Object(entries), "invoke"@,
                if top_variant(*report) == "right"@ { "certified-invocation"@ } else { "precondition-reject"@ },
                entries@.subrange(3, 21))
            && invocation_provenance(entries@, *invocation)
            && entries@[13].0@ == "output"@ && match payload_spec(*report) {
                Some(t) => text_is(entries@[13].1, t),
                None => entries@[13].1 is Null,
            }
            && entries@[14].0@ == "runtime_return"@ && text_is(entries@[14].1, top_variant(*report))
            && entries@[15] == ("candidate_body_started", Json::Bool(top_variant(*report) == "right"@))
            && entries@[16] == ("prover_calls", Json::Number(0))
            && entries@[17] == ("candidate_prepare_requests", Json::Number(0))
            && entries@[18] == ("guest_requests", Json::Number(index_in(member(*report, "guest_requests"@))->0))
            && entries@[19] == ("protected_operations", Json::Number(index_in(member(*report, "protected_operations"@))->0))
            && entries@[20] == ("wrapper_executions", Json::Number(1))),
{
    let variant = variant_of(report);
    let is_left = text_equal(variant.as_str(), "left");
    let is_right = text_equal(variant.as_str(), "right");
    if !is_left && !is_right {
        return Err(Refused::script(owned("guard wrapper returned neither rejection nor invocation")));
    }
    let output = top_payload(report);
    let guest = match runtime_count(report, "guest_requests") {
        Ok(j) => j,
        Err(f) => return Err(f),
    };
    let protected = match runtime_count(report, "protected_operations") {
        Ok(j) => j,
        Err(f) => return Err(f),
    };
    let extras = vec![
        ("guard_template", string(invocation.template.as_str())),
        ("guard_erased", Json::Bool(false)),
        ("verified_backend_claimed", Json::Bool(false)),
        ("underlying_program_identity_changed", Json::Bool(invocation.identity_changed)),
        ("subject_handle", Json::Number(invocation.subject)),
        ("subject_identity", string(invocation.identity.as_str())),
        ("artifact_correspondence", string("recorded-trusted-build")),
        ("host_authority", string("independently-checked-resource-free")),
        ("wrapper_source", string(invocation.wrapper.as_str())),
        ("conditional_theorem_valid", Json::Bool(true)),
        ("output", output),
        ("runtime_return", string(variant.as_str())),
        ("candidate_body_started", Json::Bool(is_right)),
        ("prover_calls", Json::Number(0)),
        ("candidate_prepare_requests", Json::Number(0)),
        ("guest_requests", guest),
        ("protected_operations", protected),
        ("wrapper_executions", Json::Number(1)),
    ];
    let ghost e = extras@;
    let r = line("invoke", if is_right { "certified-invocation" } else { "precondition-reject" }, extras);
    proof {
        let entries = r->Object_0@;
        assert(entries.subrange(3, 21) == e);
        assert forall|k: int| 3 <= k < 21 implies entries[k] == e[k - 3] by {
            assert(entries.subrange(3, 21)[k - 3] == entries[k]);
        }
    }
    Ok(r)
}

/// The report of a composition the core refused: the ordinary composition
/// stands, but no certified status is created.
pub fn compose_refused(outcome: &str, code: &str, handle: u64) -> (r: Json)
    ensures
        r matches Json::Object(entries) && entries@.len() == 10
            && report_line(r, "compose"@, outcome@, entries@.subrange(3, 10))
            && entries@[3] == ("ordinary_composition_valid", Json::Bool(true))
            && entries@[4] == ("new_certified_status", Json::Bool(false))
            && entries@[5].0@ == "diagnostic"@ && crate::json::keys(entries@[5].1) == seq!["code"@, "message"@]
            && text_is(crate::json::value_at(entries@[5].1, 0), code@)
            && text_is(crate::json::value_at(entries@[5].1, 1), "the core withheld certification"@)
            && entries@[6] == ("composed_handle", Json::Number(handle))
            && entries@[7] == ("prover_calls", Json::Number(0))
            && entries@[8] == ("guest_requests", Json::Number(0))
            && entries@[9] == ("protected_operations", Json::Number(0)),
{
    let diagnostic = crate::json::object(vec![("code", string(code)), ("message", string("the core withheld certification"))]);
    assert(crate::json::keys(diagnostic) =~= seq!["code"@, "message"@]);
    let extras = vec![
        ("ordinary_composition_valid", Json::Bool(true)),
        ("new_certified_status", Json::Bool(false)),
        ("diagnostic", diagnostic),
        ("composed_handle", Json::Number(handle)),
        ("prover_calls", Json::Number(0)),
        ("guest_requests", Json::Number(0)),
        ("protected_operations", Json::Number(0)),
    ];
    let ghost e = extras@;
    let r = line("compose", outcome, extras);
    proof {
        let entries = r->Object_0@;
        assert(entries.subrange(3, 10) == e);
        assert forall|k: int| 3 <= k < 10 implies entries[k] == e[k - 3] by {
            assert(entries.subrange(3, 10)[k - 3] == entries[k]);
        }
    }
    r
}

/// What a certified composition derived: the statement, the composed
/// subject's identity and handle, and the evidence and contract the core
/// minted.
pub struct Composition {
    pub statement: u64,
    pub subject_identity: u64,
    pub composed: u64,
    pub evidence: u32,
    pub contract: u32,
    pub increment: i64,
}

/// The provenance entries of a composition report.
pub open spec fn composition_provenance(entries: Seq<(&'static str, Json)>, c: Composition, handles: Handles) -> bool {
    &&& entries[3].0@ == "statement"@ && text_is(entries[3].1, decimal(c.statement as nat))
    &&& entries[4].0@ == "subject_identity"@ && text_is(entries[4].1, decimal(c.subject_identity as nat))
    &&& entries[5] == ("composed_handle", Json::Number(c.composed))
    &&& entries[6] == ("contract_handle", Json::Number(handles.contract))
    &&& entries[7] == ("evidence_handle", Json::Number(handles.evidence))
    &&& entries[8] == ("certified_handle", Json::Number(handles.certified))
    &&& entries[9] == ("evidence_reference", Json::Number(c.evidence as u64))
    &&& entries[10] == ("contract_reference", Json::Number(c.contract as u64))
}

/// The report of a certified composition, with what the composed program
/// returned.
pub fn compose_accepted(composition: &Composition, handles: Handles, report: &Value) -> (r: Result<Json, Refused>)
    ensures
        index_in(member(*report, "guest_requests"@)) is None ==> (r matches Err(f)
            && script_refusal(f, "runtime omitted "@ + "guest_requests"@)),
        index_in(member(*report, "guest_requests"@)) is Some
            && index_in(member(*report, "protected_operations"@)) is None ==> (r matches Err(f)
            && script_refusal(f, "runtime omitted "@ + "protected_operations"@)),
        index_in(member(*report, "guest_requests"@)) is Some
            && index_in(member(*report, "protected_operations"@)) is Some ==> (r matches Ok(Json::Object(entries))
            && entries@.len() == 20
            && report_line(Json::Object(entries), "compose"@, "certified-composition"@, entries@.subrange(3, 20))
            && composition_provenance(entries@, *composition, handles)
            && entries@[11].0@ == "output"@ && match stack_of(*report) {
                Some(items) => if items.len() > 0 { text_is(entries@[11].1, detail(items.last())) } else { entries@[11].1 is Null },
                None => entries@[11].1 is Null,
            }
            && entries@[12].0@ == "claim_kind"@ && text_is(entries@[12].1, "partial-correctness"@)
            && entries@[13].0@ == "increment_by"@ && text_is(entries@[13].1, signed_decimal(composition.increment as int))
            && entries@[14] == ("guest_requests", Json::Number(index_in(member(*report, "guest_requests"@))->0))
            && entries@[15] == ("protected_operations", Json::Number(index_in(member(*report, "protected_operations"@))->0))
            && entries@[16] == ("underlying_recipe_matches_plain_compose", Json::Bool(true))
            && entries@[17] == ("assumptions_dropped", Json::Bool(false))
            && entries@[18] == ("prover_calls", Json::Number(0))
            && entries@[19] == ("candidate_prepare_requests", Json::Number(0))),
{
    let output = top_value(report);
    let guest = match runtime_count(report, "guest_requests") {
        Ok(j) => j,
        Err(f) => return Err(f),
    };
    let protected = match runtime_count(report, "protected_operations") {
        Ok(j) => j,
        Err(f) => return Err(f),
    };
    let extras = vec![
        ("statement", Json::String(digest_text(composition.statement))),
        ("subject_identity", Json::String(digest_text(composition.subject_identity))),
        ("composed_handle", Json::Number(composition.composed)),
        ("contract_handle", Json::Number(handles.contract)),
        ("evidence_handle", Json::Number(handles.evidence)),
        ("certified_handle", Json::Number(handles.certified)),
        ("evidence_reference", Json::Number(composition.evidence as u64)),
        ("contract_reference", Json::Number(composition.contract as u64)),
        ("output", output),
        ("claim_kind", string("partial-correctness")),
        ("increment_by", signed_text(composition.increment)),
        ("guest_requests", guest),
        ("protected_operations", protected),
        ("underlying_recipe_matches_plain_compose", Json::Bool(true)),
        ("assumptions_dropped", Json::Bool(false)),
        ("prover_calls", Json::Number(0)),
        ("candidate_prepare_requests", Json::Number(0)),
    ];
    let ghost e = extras@;
    let r = line("compose", "certified-composition", extras);
    proof {
        let entries = r->Object_0@;
        assert(entries.subrange(3, 20) == e);
        assert forall|k: int| 3 <= k < 20 implies entries[k] == e[k - 3] by {
            assert(entries.subrange(3, 20)[k - 3] == entries[k]);
        }
    }
    Ok(r)
}

/// The top slot of a reply as a program: its cell handle, or the refusal of
/// the first thing wrong with it. `committed` says whether the session
/// holds a committed type for the top slot.
pub open spec fn top_program_spec(report: Value, committed: bool) -> Result<u64, (Seq<char>, Seq<char>, Seq<char>)> {
    match stack_of(report) {
        None => Err(("malformed"@, "engine-report"@, "reply has no stack"@)),
        Some(items) => if items.len() == 0 {
            Err(("malformed"@, "engine-report"@, "reply has an empty stack"@))
        } else if slot_type(items.last()) != "Program"@ {
            Err(("malformed"@, "stack-type"@, "top slot is a "@ + slot_type(items.last()) + ", not a program"@))
        } else if !committed {
            Err(("malformed"@, "stack-type"@, "no committed type for the top slot"@))
        } else {
            match index_in(member(items.last(), "handle"@)) {
                None => Err(("malformed"@, "script"@, "top program slot has no handle"@)),
                Some(h) => Ok(h),
            }
        },
    }
}

/// The cell handle of the program a run left on top of the stack.
pub fn top_program(report: &Value, committed: bool) -> (r: Result<u64, Refused>)
    ensures
        match top_program_spec(*report, committed) {
            Ok(h) => r == Ok::<u64, Refused>(h),
            Err((outcome, code, message)) => r matches Err(f) && refusal_is(f, outcome, code, message),
        },
{
    let entries = match slots(report) {
        Ok(entries) => entries,
        Err(f) => return Err(f),
    };
    if entries.len() == 0 {
        return Err(Refused::new("malformed", owned("engine-report"), owned("reply has an empty stack")));
    }
    let last = entries.len() - 1;
    if !text_equal(entries[last].0.as_str(), "Program") {
        let mut message = owned("top slot is a ");
        push_text(&mut message, entries[last].0.as_str());
        push_text(&mut message, ", not a program");
        return Err(Refused::new("malformed", owned("stack-type"), message));
    }
    if !committed {
        return Err(Refused::new("malformed", owned("stack-type"), owned("no committed type for the top slot")));
    }
    match entries[last].1 {
        Some(h) => Ok(h),
        None => Err(Refused::script(owned("top program slot has no handle"))),
    }
}

} // verus!
