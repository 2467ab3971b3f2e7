//! The report lines of companion operations: the common header, refusals,
//! stack indices and numbers read from script words, the cells injected into
//! the guest, and what the reports read from the engine's replies.

use vstd::prelude::*;

use crate::companion_values::{detail, signed_decimal, text_of, append_signed};
use crate::companions::{script_refusal, Refused, CLAIM_PARTIAL_CORRECTNESS};
use crate::json::{append_decimal, append_value, decimal, encoded, encoded_items, keys, object, string, text_is, value_at, Json};
use crate::number::{all_digits, digits_value, parse_unsigned, parsed};
use crate::reader::{member_of, Value};
use crate::text::{chars_of, owned, push_char, push_text, string_of};

verus! {

/// A report line: the schema, the operation, its outcome, then the
/// operation's own fields in order.
pub open spec fn report_line(j: Json, operation: Seq<char>, outcome: Seq<char>, extras: Seq<(&'static str, Json)>) -> bool {
    j matches Json::Object(entries) && entries@.len() == extras.len() + 3
        && entries@[0].0@ == "schema"@ && text_is(entries@[0].1, "noble-companions-report/v1"@)
        && entries@[1].0@ == "operation"@ && text_is(entries@[1].1, operation)
        && entries@[2].0@ == "outcome"@ && text_is(entries@[2].1, outcome)
        && entries@.subrange(3, entries@.len() as int) == extras
}

/// One report line.
pub fn line(operation: &str, outcome: &str, extras: Vec<(&'static str, Json)>) -> (r: Json)
    ensures
        report_line(r, operation@, outcome@, extras@),
{
    let mut entries: Vec<(&'static str, Json)> = Vec::new();
    entries.push(("schema", string("noble-companions-report/v1")));
    entries.push(("operation", string(operation)));
    entries.push(("outcome", string(outcome)));
    let mut rest = extras;
    entries.append(&mut rest);
    assert(entries@.subrange(3, entries@.len() as int) =~= extras@);
    Json::Object(entries)
}

/// The diagnostic of a refusal.
pub open spec fn refusal_diagnostic(j: Json, refusal: Refused) -> bool {
    &&& keys(j) == seq!["code"@, "message"@]
    &&& text_is(value_at(j, 0), refusal.code@)
    &&& text_is(value_at(j, 1), refusal.message@)
}

/// The report line of a refused operation: its diagnostic, and no prover
/// call, guest request, protected operation or evidence fetch.
pub fn refusal_line(operation: &str, refusal: &Refused) -> (r: Json)
    ensures
        r matches Json::Object(entries) && entries@.len() == 9
            && report_line(r, operation@, refusal.outcome@, entries@.subrange(3, 9))
            && entries@[3].0@ == "diagnostic"@ && refusal_diagnostic(entries@[3].1, *refusal)
            && entries@[4] == ("prover_calls", Json::Number(0))
            && entries@[5] == ("guest_requests", Json::Number(0))
            && entries@[6] == ("protected_operations", Json::Number(0))
            && entries@[7] == ("implicit_evidence_fetches", Json::Number(0))
            && entries@[8] == ("candidate_body_started", Json::Bool(false)),
{
    let diagnostic = object(vec![("code", string(refusal.code.as_str())), ("message", string(refusal.message.as_str()))]);
    assert(keys(diagnostic) =~= seq!["code"@, "message"@]);
    let extras = vec![
        ("diagnostic", diagnostic),
        ("prover_calls", Json::Number(0)),
        ("guest_requests", Json::Number(0)),
        ("protected_operations", Json::Number(0)),
        ("implicit_evidence_fetches", Json::Number(0)),
        ("candidate_body_started", Json::Bool(false)),
    ];
    let ghost e = extras@;
    let r = line(operation, refusal.outcome, extras);
    proof {
        let entries = r->Object_0@;
        assert(entries.subrange(3, 9) == e);
        assert(entries[3] == e[0]);
        assert(entries[4] == e[1]);
        assert(entries[5] == e[2]);
        assert(entries[6] == e[3]);
        assert(entries[7] == e[4]);
        assert(entries[8] == e[5]);
    }
    r
}

/// A stack index read from a script word: `FromStr` for `usize`, below the
/// stack height.
pub fn index_of(token: &str, height: usize) -> (r: Result<usize, Refused>)
    ensures
        parsed(token@, usize::MAX as nat) is None ==> (r matches Err(f)
            && script_refusal(f, "'"@ + token@ + "' is not a stack index"@)),
        parsed(token@, usize::MAX as nat) matches Some(n) ==> (n >= height ==> (r matches Err(f)
            && f.outcome@ == "malformed"@ && f.code@ == "stack-index"@
            && f.message@ == "stack index "@ + decimal(n) + " is outside the "@ + decimal(height as nat) + "-slot stack"@)),
        parsed(token@, usize::MAX as nat) matches Some(n) ==> (n < height ==> (r matches Ok(i) && i == n)),
{
    let spelled = chars_of(token);
    let index = match parse_unsigned(spelled.as_slice(), usize::MAX as u64) {
        Some(i) => i,
        None => {
            let mut message = owned("'");
            push_text(&mut message, token);
            push_text(&mut message, "' is not a stack index");
            return Err(Refused::script(message));
        },
    };
    if index >= height as u64 {
        let mut message = owned("stack index ");
        append_decimal(index, &mut message);
        push_text(&mut message, " is outside the ");
        append_decimal(height as u64, &mut message);
        push_text(&mut message, "-slot stack");
        return Err(Refused::new("malformed", owned("stack-index"), message));
    }
    Ok(index as usize)
}

/// `FromStr` for `i64`: an optional sign, then decimal digits, in range.
pub open spec fn parsed_signed(t: Seq<char>) -> Option<int> {
    if t.len() > 0 && t[0] == '-' {
        let d = t.subrange(1, t.len() as int);
        if d.len() == 0 || !all_digits(d) || digits_value(d) > 0x8000_0000_0000_0000 {
            None
        } else {
            Some(-(digits_value(d) as int))
        }
    } else {
        match parsed(t, 0x7fff_ffff_ffff_ffff) {
            Some(n) => Some(n as int),
            None => None,
        }
    }
}

/// A signed 64-bit integer read from a script word.
pub fn integer_of(token: &str) -> (r: Result<i64, Refused>)
    ensures
        parsed_signed(token@) matches Some(n) ==> (r matches Ok(v) && v == n),
        parsed_signed(token@) is None ==> (r matches Err(f)
            && script_refusal(f, "'"@ + token@ + "' is not a signed 64-bit integer"@)),
{
    let spelled = chars_of(token);
    let n = spelled.len();
    let value: Option<i64> = if n > 0 && spelled[0] == '-' {
        if n > 1 && spelled[1] == '+' {
            proof {
                let d = token@.subrange(1, token@.len() as int);
                assert(d[0] == '+');
                assert(!all_digits(d));
            }
            None
        } else {
            let rest = string_of(spelled.as_slice(), 1, n);
            let digits = chars_of(rest.as_str());
            proof {
                let d = token@.subrange(1, token@.len() as int);
                assert(digits@ == d);
                assert(crate::number::unsigned_digits(d) == d);
            }
            match parse_unsigned(digits.as_slice(), 0x8000_0000_0000_0000u64) {
                Some(m) => Some((-(m as i128)) as i64),
                None => None,
            }
        }
    } else {
        match parse_unsigned(spelled.as_slice(), 0x7fff_ffff_ffff_ffffu64) {
            Some(m) => Some(m as i64),
            None => None,
        }
    };
    match value {
        Some(v) => Ok(v),
        None => {
            let mut message = owned("'");
            push_text(&mut message, token);
            push_text(&mut message, "' is not a signed 64-bit integer");
            Err(Refused::script(message))
        },
    }
}

/// The member of a parsed object.
pub open spec fn member(v: Value, name: Seq<char>) -> Option<Value> {
    match v {
        Value::Object(entries) => member_of(entries@, name),
        _ => None,
    }
}

/// The items of an array value.
pub open spec fn items_of(v: Option<Value>) -> Option<Seq<Value>> {
    match v {
        Some(Value::Array(items)) => Some(items@),
        _ => None,
    }
}

/// The text of a string value.
pub open spec fn text_in(v: Option<Value>) -> Option<Seq<char>> {
    match v {
        Some(Value::Text(s)) => Some(s@),
        _ => None,
    }
}

/// The unsigned number of a number value.
pub open spec fn index_in(v: Option<Value>) -> Option<u64> {
    match v {
        Some(Value::Number(n)) => if n >= 0 { Some(n as u64) } else { None },
        _ => None,
    }
}

/// A count the runtime reported in a reply.
pub fn runtime_count(report: &Value, field: &str) -> (r: Result<Json, Refused>)
    ensures
        index_in(member(*report, field@)) matches Some(n) ==> r == Ok::<Json, Refused>(Json::Number(n)),
        index_in(member(*report, field@)) is None ==> (r matches Err(f)
            && script_refusal(f, "runtime omitted "@ + field@)),
{
    let found = match report.member(field) {
        Some(v) => v.index(),
        None => None,
    };
    match found {
        Some(n) => Ok(Json::Number(n)),
        None => {
            let mut message = owned("runtime omitted ");
            push_text(&mut message, field);
            Err(Refused::script(message))
        },
    }
}

/// A nested unsigned 32-bit number of a companion's description.
pub fn nested_number(value: &Value, outer: &str, inner: &str) -> (r: Result<u32, Refused>)
    ensures
        ({
            let found = match member(*value, outer@) {
                Some(o) => index_in(member(o, inner@)),
                None => None,
            };
            match found {
                Some(n) => if n <= u32::MAX { r == Ok::<u32, Refused>(n as u32) } else {
                    r matches Err(f) && script_refusal(f, "companion "@ + outer@ + " has no "@ + inner@)
                },
                None => r matches Err(f) && script_refusal(f, "companion "@ + outer@ + " has no "@ + inner@),
            }
        }),
{
    let found = match value.member(outer) {
        Some(o) => match o.member(inner) {
            Some(i) => i.index(),
            None => None,
        },
        None => None,
    };
    match found {
        Some(n) => if n <= 0xffff_ffffu64 {
            return Ok(n as u32);
        },
        None => {},
    }
    let mut message = owned("companion ");
    push_text(&mut message, outer);
    push_text(&mut message, " has no ");
    push_text(&mut message, inner);
    Err(Refused::script(message))
}

/// The guest cell of a signed 64-bit value.
pub fn i64_injection(value: i64) -> (r: Json)
    ensures
        keys(r) == seq!["type"@, "value"@],
        text_is(value_at(r, 0), "I64"@),
        text_is(value_at(r, 1), signed_decimal(value as int)),
{
    let mut spelled = String::new();
    append_signed(value, &mut spelled);
    let r = object(vec![("type", string("I64")), ("value", Json::String(spelled))]);
    assert(keys(r) =~= seq!["type"@, "value"@]);
    r
}

/// The guest cell of a program handle.
pub fn program_injection(handle: u64) -> (r: Json)
    ensures
        keys(r) == seq!["type"@, "handle"@],
        text_is(value_at(r, 0), "Program"@),
        value_at(r, 1) == Json::Number(handle),
{
    let r = object(vec![("type", string("Program")), ("handle", Json::Number(handle))]);
    assert(keys(r) =~= seq!["type"@, "handle"@]);
    r
}

/// The guest cell of an admitted contract.
pub fn contract_injection(index: u32, statement: u64, revision: u32) -> (r: Json)
    ensures
        keys(r) == seq!["type"@, "index"@, "statement"@, "claim_kind"@, "revision"@],
        text_is(value_at(r, 0), "Contract"@),
        value_at(r, 1) == Json::Number(index as u64),
        text_is(value_at(r, 2), decimal(statement as nat)),
        value_at(r, 3) == Json::Number(CLAIM_PARTIAL_CORRECTNESS as u64),
        value_at(r, 4) == Json::Number(revision as u64),
{
    let mut spelled = String::new();
    append_decimal(statement, &mut spelled);
    let r = object(vec![
        ("type", string("Contract")),
        ("index", Json::Number(index as u64)),
        ("statement", Json::String(spelled)),
        ("claim_kind", Json::Number(CLAIM_PARTIAL_CORRECTNESS as u64)),
        ("revision", Json::Number(revision as u64)),
    ]);
    assert(keys(r) =~= seq!["type"@, "index"@, "statement"@, "claim_kind"@, "revision"@]);
    r
}

/// The guest cell of retained evidence: its index, the code of its class,
/// the rule set and its contract.
pub fn evidence_injection(index: u32, class_code: u32, ruleset: u32, contract: u64) -> (r: Json)
    ensures
        keys(r) == seq!["type"@, "index"@, "class"@, "ruleset"@, "contract"@],
        text_is(value_at(r, 0), "Evidence"@),
        value_at(r, 1) == Json::Number(index as u64),
        value_at(r, 2) == Json::Number(class_code as u64),
        value_at(r, 3) == Json::Number(ruleset as u64),
        value_at(r, 4) == Json::Number(contract),
{
    let r = object(vec![
        ("type", string("Evidence")),
        ("index", Json::Number(index as u64)),
        ("class", Json::Number(class_code as u64)),
        ("ruleset", Json::Number(ruleset as u64)),
        ("contract", Json::Number(contract)),
    ]);
    assert(keys(r) =~= seq!["type"@, "index"@, "class"@, "ruleset"@, "contract"@]);
    r
}

/// The guest cell of a certified companion.
pub fn certified_injection(subject: u64, contract: u64, evidence: u64, identity: u64) -> (r: Json)
    ensures
        keys(r) == seq!["type"@, "subject"@, "contract"@, "evidence"@, "identity"@],
        text_is(value_at(r, 0), "Certified"@),
        value_at(r, 1) == Json::Number(subject),
        value_at(r, 2) == Json::Number(contract),
        value_at(r, 3) == Json::Number(evidence),
        text_is(value_at(r, 4), decimal(identity as nat)),
{
    let mut spelled = String::new();
    append_decimal(identity, &mut spelled);
    let r = object(vec![
        ("type", string("Certified")),
        ("subject", Json::Number(subject)),
        ("contract", Json::Number(contract)),
        ("evidence", Json::Number(evidence)),
        ("identity", Json::String(spelled)),
    ]);
    assert(keys(r) =~= seq!["type"@, "subject"@, "contract"@, "evidence"@, "identity"@]);
    r
}

/// The JSON array of cells handed to the guest in one frame.
pub fn injection_frame(values: &[Json]) -> (r: String)
    ensures
        r@ == seq!['['] + encoded_items(values@) + seq![']'],
{
    let mut out = String::new();
    push_char(&mut out, '[');
    let mut i: usize = 0;
    while i < values.len()
        invariant
            i <= values@.len(),
            out@ == seq!['['] + encoded_items(values@.subrange(0, i as int)),
        decreases values@.len() - i,
    {
        if i > 0 {
            push_char(&mut out, ',');
        }
        append_value(&values[i], &mut out);
        proof {
            let prefix = values@.subrange(0, i + 1);
            assert(prefix.drop_last() =~= values@.subrange(0, i as int));
            assert(prefix.last() == values@[i as int]);
            if i == 0 {
                assert(encoded_items(prefix) == encoded(values@[0]));
            }
        }
        i = i + 1;
    }
    assert(values@.subrange(0, i as int) =~= values@);
    push_char(&mut out, ']');
    out
}

/// The stack of an engine reply.
pub open spec fn stack_of(report: Value) -> Option<Seq<Value>> {
    items_of(member(report, "stack"@))
}

/// The stack of a reply, read from the reply.
fn stack(report: &Value) -> (r: Option<&[Value]>)
    ensures
        match stack_of(*report) {
            Some(items) => r matches Some(s) && s@ == items,
            None => r is None,
        },
{
    match report.member("stack") {
        Some(v) => v.items(),
        None => None,
    }
}

/// The text of a slot's `type`, or nothing.
pub open spec fn slot_type(entry: Value) -> Seq<char> {
    match text_in(member(entry, "type"@)) {
        Some(t) => t,
        None => Seq::empty(),
    }
}

fn type_of(entry: &Value) -> (r: String)
    ensures
        r@ == slot_type(*entry),
{
    match entry.member("type") {
        Some(v) => match v.text() {
            Some(t) => owned(t),
            None => String::new(),
        },
        None => String::new(),
    }
}

fn handle_of(entry: &Value) -> (r: Option<u64>)
    ensures
        r == index_in(member(*entry, "handle"@)),
{
    match entry.member("handle") {
        Some(v) => v.index(),
        None => None,
    }
}

/// A reply without a stack.
pub open spec fn no_stack(f: Refused) -> bool {
    f.outcome@ == "malformed"@ && f.code@ == "engine-report"@ && f.message@ == "reply has no stack"@
}

/// The value a guard-checked invocation returned: the public text of the
/// top stack slot, or of its payload when the slot is a `Sum`.
pub open spec fn payload_spec(report: Value) -> Option<Seq<char>> {
    match stack_of(report) {
        None => None,
        Some(items) => if items.len() == 0 {
            None
        } else {
            let entry = items.last();
            if text_in(member(entry, "type"@)) == Some("Sum"@) && member(entry, "value"@) is Some {
                Some(detail(member(entry, "value"@)->0))
            } else {
                Some(detail(entry))
            }
        },
    }
}

pub fn top_payload(report: &Value) -> (r: Json)
    ensures
        match payload_spec(*report) {
            Some(t) => text_is(r, t),
            None => r is Null,
        },
{
    let items = match stack(report) {
        Some(items) => items,
        None => return Json::Null,
    };
    if items.len() == 0 {
        return Json::Null;
    }
    let entry = &items[items.len() - 1];
    let is_sum = match entry.member("type") {
        Some(t) => match t.text() {
            Some(text) => crate::text::text_equal(text, "Sum"),
            None => false,
        },
        None => false,
    };
    if is_sum {
        match entry.member("value") {
            Some(value) => return Json::String(text_of(value)),
            None => {},
        }
    }
    Json::String(text_of(entry))
}

/// The public text of the top stack slot, or `null` for an empty stack.
pub fn top_value(report: &Value) -> (r: Json)
    ensures
        match stack_of(*report) {
            Some(items) => if items.len() > 0 { text_is(r, detail(items.last())) } else { r is Null },
            None => r is Null,
        },
{
    match stack(report) {
        Some(items) => if items.len() > 0 {
            Json::String(text_of(&items[items.len() - 1]))
        } else {
            Json::Null
        },
        None => Json::Null,
    }
}

/// Each stack slot as its type name and cell handle.
pub fn slots(report: &Value) -> (r: Result<Vec<(String, Option<u64>)>, Refused>)
    ensures
        match stack_of(*report) {
            None => r matches Err(f) && no_stack(f),
            Some(items) => r matches Ok(v) && v@.len() == items.len() && forall|i: int| 0 <= i < items.len()
                ==> (#[trigger] v@[i]).0@ == slot_type(items[i]) && v@[i].1 == index_in(member(items[i], "handle"@)),
        },
{
    let items = match stack(report) {
        Some(items) => items,
        None => return Err(Refused::new("malformed", owned("engine-report"), owned("reply has no stack"))),
    };
    let mut out: Vec<(String, Option<u64>)> = Vec::new();
    let mut i: usize = 0;
    while i < items.len()
        invariant
            i <= items@.len(),
            out@.len() == i,
            forall|k: int| 0 <= k < i ==> (#[trigger] out@[k]).0@ == slot_type(items@[k])
                && out@[k].1 == index_in(member(items@[k], "handle"@)),
        decreases items@.len() - i,
    {
        out.push((type_of(&items[i]), handle_of(&items[i])));
        i = i + 1;
    }
    Ok(out)
}

/// The report entry of one stack slot.
pub open spec fn slot_json(j: Json, entry: Value) -> bool {
    &&& keys(j) == seq!["type"@, "handle"@, "detail"@]
    &&& text_is(value_at(j, 0), slot_type(entry))
    &&& value_at(j, 1) == match index_in(member(entry, "handle"@)) {
        Some(h) => Json::Number(h),
        None => Json::Null,
    }
    &&& text_is(value_at(j, 2), detail(entry))
}

/// The reply's stack as report entries: type, handle and public detail.
pub fn stack_json(report: &Value) -> (r: Result<Json, Refused>)
    ensures
        match stack_of(*report) {
            None => r matches Err(f) && no_stack(f),
            Some(items) => r matches Ok(Json::Array(v)) && v@.len() == items.len()
                && forall|i: int| 0 <= i < items.len() ==> slot_json(#[trigger] v@[i], items[i]),
        },
{
    let items = match stack(report) {
        Some(items) => items,
        None => return Err(Refused::new("malformed", owned("engine-report"), owned("reply has no stack"))),
    };
    let mut out: Vec<Json> = Vec::new();
    let mut i: usize = 0;
    while i < items.len()
        invariant
            i <= items@.len(),
            out@.len() == i,
            forall|k: int| 0 <= k < i ==> slot_json(#[trigger] out@[k], items@[k]),
        decreases items@.len() - i,
    {
        let entry = &items[i];
        let handle = match handle_of(entry) {
            Some(h) => Json::Number(h),
            None => Json::Null,
        };
        let j = object(vec![("type", Json::String(type_of(entry))), ("handle", handle), ("detail", Json::String(text_of(entry)))]);
        assert(keys(j) =~= seq!["type"@, "handle"@, "detail"@]);
        out.push(j);
        i = i + 1;
    }
    Ok(Json::Array(out))
}

/// An engine-report refusal with the given message.
pub open spec fn engine_report(f: Refused, message: Seq<char>) -> bool {
    f.outcome@ == "malformed"@ && f.code@ == "engine-report"@ && f.message@ == message
}

/// The reflection event of one reply entry: its kind and its value, or the
/// refusal of the first missing or invalid field.
/// A refusal is marked as a script refusal (rather than an engine-report one)
/// by the flag beside its message.
pub open spec fn event_of(entry: Value) -> Result<(u32, u64), (bool, Seq<char>)> {
    match index_in(member(entry, "kind"@)) {
        None => Err((false, "event without kind"@)),
        Some(kind) => match text_in(member(entry, "value"@)) {
            None => Err((false, "event without value"@)),
            Some(raw) => match parsed(raw, u64::MAX as nat) {
                None => Err((false, "event value is not an unsigned 64-bit integer"@)),
                Some(value) => if kind <= u32::MAX {
                    Ok((kind as u32, value as u64))
                } else {
                    Err((true, "event kind exceeds the engine kind domain"@))
                },
            },
        },
    }
}

/// The events of the entries from `i`, or the message of the first invalid one.
pub open spec fn events_from(items: Seq<Value>, i: int) -> Result<Seq<(u32, u64)>, (bool, Seq<char>)>
    decreases items.len() - i,
{
    if i < 0 || i >= items.len() {
        Ok(Seq::empty())
    } else {
        match event_of(items[i]) {
            Err(m) => Err(m),
            Ok(e) => match events_from(items, i + 1) {
                Ok(rest) => Ok(seq![e] + rest),
                Err(m) => Err(m),
            },
        }
    }
}

/// Events read so far, before those still to be read.
pub open spec fn after(read: Seq<(u32, u64)>, rest: Result<Seq<(u32, u64)>, (bool, Seq<char>)>) -> Result<Seq<(u32, u64)>, (bool, Seq<char>)> {
    match rest {
        Ok(es) => Ok(read + es),
        Err(m) => Err(m),
    }
}

/// The refusal of an invalid event entry.
pub open spec fn event_refusal(f: Refused, why: (bool, Seq<char>)) -> bool {
    if why.0 {
        script_refusal(f, why.1)
    } else {
        engine_report(f, why.1)
    }
}

/// The reflection events of a reply, in order; the first invalid event
/// refuses them all.
pub fn reflection_events(report: &Value) -> (r: Result<Vec<(u32, u64)>, Refused>)
    ensures
        match items_of(member(*report, "events"@)) {
            None => r matches Err(f) && engine_report(f, "reply has no events"@),
            Some(items) => match events_from(items, 0) {
                Ok(es) => r matches Ok(v) && v@ == es,
                Err(m) => r matches Err(f) && event_refusal(f, m),
            },
        },
{
    let items = match report.member("events") {
        Some(v) => match v.items() {
            Some(items) => items,
            None => return Err(Refused::new("malformed", owned("engine-report"), owned("reply has no events"))),
        },
        None => return Err(Refused::new("malformed", owned("engine-report"), owned("reply has no events"))),
    };
    let mut out: Vec<(u32, u64)> = Vec::new();
    let mut i: usize = 0;
    while i < items.len()
        invariant
            i <= items@.len(),
            items_of(member(*report, "events"@)) == Some(items@),
            events_from(items@, 0) == after(out@, events_from(items@, i as int)),
        decreases items@.len() - i,
    {
        let entry = &items[i];
        let kind = match entry.member("kind") {
            Some(v) => v.index(),
            None => None,
        };
        let kind = match kind {
            Some(k) => k,
            None => return Err(Refused::new("malformed", owned("engine-report"), owned("event without kind"))),
        };
        let raw = match entry.member("value") {
            Some(v) => v.text(),
            None => None,
        };
        let raw = match raw {
            Some(t) => t,
            None => return Err(Refused::new("malformed", owned("engine-report"), owned("event without value"))),
        };
        let spelled = chars_of(raw);
        let value = match parse_unsigned(spelled.as_slice(), 0xffff_ffff_ffff_ffffu64) {
            Some(v) => v,
            None => return Err(Refused::new("malformed", owned("engine-report"),
                owned("event value is not an unsigned 64-bit integer"))),
        };
        if kind > 0xffff_ffffu64 {
            return Err(Refused::script(owned("event kind exceeds the engine kind domain")));
        }
        let ghost before = out@;
        out.push((kind as u32, value));
        proof {
            match events_from(items@, i + 1) {
                Ok(rest) => {
                    assert(before + (seq![(kind as u32, value)] + rest) =~= out@ + rest);
                },
                Err(m) => {},
            }
        }
        i = i + 1;
    }
    assert(out@ + Seq::<(u32, u64)>::empty() =~= out@);
    Ok(out)
}

/// Reads an engine reply document; a malformed reply refuses the operation.
pub fn parse_report(document: &str) -> (r: Result<Value, Refused>)
    ensures
        match crate::reader::read_document(vstd::utf8::encode_utf8(document@)) {
            crate::reader::Step::Done(d, _) => r matches Ok(v) && v@ == d,
            crate::reader::Step::Failed(m) => r matches Err(f) && engine_report(f, m),
        },
{
    match crate::reader::parse(document) {
        Ok(v) => Ok(v),
        Err(message) => Err(Refused::new("malformed", owned("engine-report"), message)),
    }
}

/// The outcome text of a reply, or nothing.
pub open spec fn reply_outcome(report: Value) -> Seq<char> {
    match text_in(member(report, "outcome"@)) {
        Some(t) => t,
        None => Seq::empty(),
    }
}

/// The report entries of a whole stack.
pub open spec fn stack_entries(j: Json, items: Seq<Value>) -> bool {
    j matches Json::Array(v) && v@.len() == items.len()
        && forall|i: int| 0 <= i < v@.len() ==> slot_json(#[trigger] v@[i], items[i])
}

/// The report of `submit` (or `plain`, with no contract profile) from the
/// engine's reply: the refusal of the first field the reply lacks, or the
/// line with the stack, the output, the module provenance and the counts.
pub fn submit_report(plain: bool, report: &Value) -> (r: Result<Json, Refused>)
    ensures
        stack_of(*report) is None ==> (r matches Err(f) && no_stack(f)),
        stack_of(*report) is Some && member(*report, "module"@) is None ==> (r matches Err(f)
            && script_refusal(f, "runtime omitted module provenance"@)),
        stack_of(*report) is Some && member(*report, "module"@) is Some
            && index_in(member(*report, "guest_requests"@)) is None ==> (r matches Err(f)
            && script_refusal(f, "runtime omitted "@ + "guest_requests"@)),
        stack_of(*report) is Some && member(*report, "module"@) is Some
            && index_in(member(*report, "guest_requests"@)) is Some
            && index_in(member(*report, "protected_operations"@)) is None ==> (r matches Err(f)
            && script_refusal(f, "runtime omitted "@ + "protected_operations"@)),
        stack_of(*report) is Some && member(*report, "module"@) is Some
            && index_in(member(*report, "guest_requests"@)) is Some
            && index_in(member(*report, "protected_operations"@)) is Some ==> (r matches Ok(Json::Object(entries))
            && entries@.len() == 12
            && report_line(Json::Object(entries), if plain { "plain"@ } else { "submit"@ }, reply_outcome(*report), entries@.subrange(3, 12))
            && entries@[3].0@ == "stack"@ && stack_entries(entries@[3].1, stack_of(*report)->0)
            && entries@[4].0@ == "output"@
                && (if stack_of(*report)->0.len() > 0 { text_is(entries@[4].1, detail(stack_of(*report)->0.last())) } else { entries@[4].1 is Null })
            && entries@[5].0@ == "module"@ && text_is(entries@[5].1, detail(member(*report, "module"@)->0))
            && entries@[6] == ("guest_requests", Json::Number(index_in(member(*report, "guest_requests"@))->0))
            && entries@[7] == ("protected_operations", Json::Number(index_in(member(*report, "protected_operations"@))->0))
            && entries@[8] == ("behavioral_certification_claimed", Json::Bool(false))
            && entries@[9].0@ == "contract_profile"@ && text_is(entries@[9].1, if plain { "absent"@ } else { "available"@ })
            && entries@[10] == ("prover_calls", Json::Number(0))
            && entries@[11] == ("candidate_prepare_requests", Json::Number(0))),
{
    let outcome = match report.member("outcome") {
        Some(v) => match v.text() {
            Some(t) => owned(t),
            None => String::new(),
        },
        None => String::new(),
    };
    let stack = match stack_json(report) {
        Ok(j) => j,
        Err(f) => return Err(f),
    };
    let output = top_value(report);
    let module = match report.member("module") {
        Some(m) => Json::String(text_of(m)),
        None => return Err(Refused::script(owned("runtime omitted module provenance"))),
    };
    let guest = match runtime_count(report, "guest_requests") {
        Ok(j) => j,
        Err(f) => return Err(f),
    };
    let protected = match runtime_count(report, "protected_operations") {
        Ok(j) => j,
        Err(f) => return Err(f),
    };
    let extras = vec![
        ("stack", stack),
        ("output", output),
        ("module", module),
        ("guest_requests", guest),
        ("protected_operations", protected),
        ("behavioral_certification_claimed", Json::Bool(false)),
        ("contract_profile", string(if plain { "absent" } else { "available" })),
        ("prover_calls", Json::Number(0)),
        ("candidate_prepare_requests", Json::Number(0)),
    ];
    let ghost e = extras@;
    let r = line(if plain { "plain" } else { "submit" }, outcome.as_str(), extras);
    proof {
        let entries = r->Object_0@;
        assert(entries.subrange(3, 12) == e);
        assert(entries[3] == e[0]);
        assert(entries[4] == e[1]);
        assert(entries[5] == e[2]);
        assert(entries[6] == e[3]);
        assert(entries[7] == e[4]);
        assert(entries[8] == e[5]);
        assert(entries[9] == e[6]);
        assert(entries[10] == e[7]);
        assert(entries[11] == e[8]);
    }
    Ok(r)
}

/// The report of `stack` from the engine's reply.
pub fn stack_report(report: &Value) -> (r: Result<Json, Refused>)
    ensures
        stack_of(*report) is None ==> (r matches Err(f) && no_stack(f)),
        stack_of(*report) is Some ==> (r matches Ok(Json::Object(entries)) && entries@.len() == 6
            && report_line(Json::Object(entries), "stack"@, "reported"@, entries@.subrange(3, 6))
            && entries@[3].0@ == "stack"@ && stack_entries(entries@[3].1, stack_of(*report)->0)
            && entries@[4] == ("guest_requests", Json::Number(0))
            && entries@[5] == ("protected_operations", Json::Number(0))),
{
    let stack = match stack_json(report) {
        Ok(j) => j,
        Err(f) => return Err(f),
    };
    let extras = vec![("stack", stack), ("guest_requests", Json::Number(0)), ("protected_operations", Json::Number(0))];
    let ghost e = extras@;
    let r = line("stack", "reported", extras);
    proof {
        let entries = r->Object_0@;
        assert(entries.subrange(3, 6) == e);
        assert(entries[3] == e[0]);
        assert(entries[4] == e[1]);
        assert(entries[5] == e[2]);
    }
    Ok(r)
}

/// The policy revision a `policy` operation selects, and its report.
pub fn policy(token: &str) -> (r: Result<(u32, Json), Refused>)
    ensures
        parsed(token@, u32::MAX as nat) is None ==> (r matches Err(f)
            && script_refusal(f, "'"@ + token@ + "' is not a policy revision"@)),
        parsed(token@, u32::MAX as nat) matches Some(n) ==> (r matches Ok((revision, Json::Object(entries))) && revision == n
            && entries@.len() == 6
            && report_line(Json::Object(entries), "policy"@, "selected"@, entries@.subrange(3, 6))
            && entries@[3] == ("policy_revision", Json::Number(n as u64))
            && entries@[4] == ("prover_calls", Json::Number(0))
            && entries@[5] == ("guest_requests", Json::Number(0))),
{
    let spelled = chars_of(token);
    let revision = match parse_unsigned(spelled.as_slice(), 0xffff_ffffu64) {
        Some(n) => n as u32,
        None => {
            let mut message = owned("'");
            push_text(&mut message, token);
            push_text(&mut message, "' is not a policy revision");
            return Err(Refused::script(message));
        },
    };
    let extras = vec![
        ("policy_revision", Json::Number(revision as u64)),
        ("prover_calls", Json::Number(0)),
        ("guest_requests", Json::Number(0)),
    ];
    let ghost e = extras@;
    let r = line("policy", "selected", extras);
    proof {
        let entries = r->Object_0@;
        assert(entries.subrange(3, 6) == e);
        assert(entries[3] == e[0]);
        assert(entries[4] == e[1]);
        assert(entries[5] == e[2]);
    }
    Ok((revision, r))
}

/// The report of `inspect` for the slot at `index` of the engine's stack:
/// retained metadata only, with no fetch and no authority created.
pub fn inspect_report(index: usize, report: &Value) -> (r: Result<Json, Refused>)
    ensures
        !(stack_of(*report) matches Some(items) && index < items.len()) ==> (r matches Err(f)
            && script_refusal(f, "stack has no slot "@ + decimal(index as nat))),
        stack_of(*report) matches Some(items) ==> (index < items.len() ==> (r matches Ok(Json::Object(entries))
            && entries@.len() == 8
            && report_line(Json::Object(entries), "inspect"@, "inspected"@, entries@.subrange(3, 8))
            && entries@[3].0@ == "type"@ && text_is(entries@[3].1, slot_type(items[index as int]))
            && entries@[4].0@ == "detail"@ && text_is(entries@[4].1, detail(items[index as int]))
            && entries@[5] == ("implicit_evidence_fetches", Json::Number(0))
            && entries@[6] == ("authority_created", Json::Bool(false))
            && entries@[7] == ("prover_calls", Json::Number(0)))),
{
    let entry = match stack(report) {
        Some(items) => if index < items.len() {
            &items[index]
        } else {
            let mut message = owned("stack has no slot ");
            append_decimal(index as u64, &mut message);
            return Err(Refused::script(message));
        },
        None => {
            let mut message = owned("stack has no slot ");
            append_decimal(index as u64, &mut message);
            return Err(Refused::script(message));
        },
    };
    let extras = vec![
        ("type", Json::String(type_of(entry))),
        ("detail", Json::String(text_of(entry))),
        ("implicit_evidence_fetches", Json::Number(0)),
        ("authority_created", Json::Bool(false)),
        ("prover_calls", Json::Number(0)),
    ];
    let ghost e = extras@;
    let r = line("inspect", "inspected", extras);
    proof {
        let entries = r->Object_0@;
        assert(entries.subrange(3, 8) == e);
        assert(entries[3] == e[0]);
        assert(entries[4] == e[1]);
        assert(entries[5] == e[2]);
        assert(entries[6] == e[3]);
        assert(entries[7] == e[4]);
    }
    Ok(r)
}

/// The report of `project`: the subject a certified companion projects to,
/// its contract and identity, unchanged.
pub fn project_report(subject: u64, contract: u32, identity: &str) -> (r: Json)
    ensures
        r matches Json::Object(entries) && entries@.len() == 9
            && report_line(r, "project"@, "projected"@, entries@.subrange(3, 9))
            && entries@[3] == ("subject_handle", Json::Number(subject))
            && entries@[4] == ("contract_reference", Json::Number(contract as u64))
            && entries@[5].0@ == "subject_identity"@ && text_is(entries@[5].1, identity@)
            && entries@[6] == ("identity_unchanged", Json::Bool(true))
            && entries@[7] == ("prover_calls", Json::Number(0))
            && entries@[8] == ("guest_requests", Json::Number(0)),
{
    let extras = vec![
        ("subject_handle", Json::Number(subject)),
        ("contract_reference", Json::Number(contract as u64)),
        ("subject_identity", string(identity)),
        ("identity_unchanged", Json::Bool(true)),
        ("prover_calls", Json::Number(0)),
        ("guest_requests", Json::Number(0)),
    ];
    let ghost e = extras@;
    let r = line("project", "projected", extras);
    proof {
        let entries = r->Object_0@;
        assert(entries.subrange(3, 9) == e);
        assert(entries[3] == e[0]);
        assert(entries[4] == e[1]);
        assert(entries[5] == e[2]);
        assert(entries[6] == e[3]);
        assert(entries[7] == e[4]);
        assert(entries[8] == e[5]);
    }
    r
}

} // verus!
