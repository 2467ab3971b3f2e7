//! Reading companion and program slots out of the engine's stack reports:
//! which slot an operation addresses, what a certified slot carries, and the
//! replies to projection and observation requests.

use vstd::prelude::*;

use crate::companion_reports::{
    engine_report, events_from, index_in, items_of, member, parse_report, reflection_events, slot_type, slots,
    stack_of, text_in, event_refusal, nested_number,
};
use crate::companions::{script_refusal, Refused};
use crate::json::{append_decimal, decimal};
use crate::number::{parse_unsigned, parsed};
use crate::reader::{read_document, Step, Value};
use crate::text::{chars_of, owned, push_text, text_equal};

verus! {

/// A refusal with the given outcome, code and message.
pub open spec fn refusal_is(f: Refused, outcome: Seq<char>, code: Seq<char>, message: Seq<char>) -> bool {
    f.outcome@ == outcome && f.code@ == code && f.message@ == message
}

/// The 32-bit number under `inner` of the member `outer`, if there is one.
pub open spec fn nested_index(v: Value, outer: Seq<char>, inner: Seq<char>) -> Option<u32> {
    match member(v, outer) {
        Some(o) => match index_in(member(o, inner)) {
            Some(n) => if n <= u32::MAX { Some(n as u32) } else { None },
            None => None,
        },
        None => None,
    }
}

/// A certified companion as its stack slot describes it: the cell handle to
/// project, the identity it carries, and its contract and evidence indices.
pub struct Companion {
    pub handle: u32,
    pub identity: String,
    pub contract: u32,
    pub evidence: u32,
}

/// The text of a member, or nothing.
pub open spec fn text_or_empty(v: Option<Value>) -> Seq<char> {
    match text_in(v) {
        Some(t) => t,
        None => Seq::empty(),
    }
}

/// What the certified slot at `index` of a stack report holds, or the
/// refusal of the first thing that is wrong with it.
pub open spec fn companion_spec(report: Value, index: int) -> Result<(u32, Seq<char>, u32, u32), (Seq<char>, Seq<char>, Seq<char>)> {
    match stack_of(report) {
        None => Err(("malformed"@, "engine-report"@, "reply has no stack"@)),
        Some(items) => if index >= items.len() {
            Err(("malformed"@, "stack-index"@, "stack has no slot "@ + decimal(index as nat)))
        } else {
            let entry = items[index];
            if slot_type(entry) != "Certified"@ {
                Err(("malformed"@, "stack-type"@, "slot "@ + decimal(index as nat) + " is a "@ + slot_type(entry) + ", not a companion"@))
            } else {
                match nested_index(entry, "contract"@, "index"@) {
                    None => Err(("malformed"@, "script"@, "companion contract has no index"@)),
                    Some(contract) => match nested_index(entry, "evidence"@, "index"@) {
                        None => Err(("malformed"@, "script"@, "companion evidence has no index"@)),
                        Some(evidence) => match index_in(member(entry, "handle"@)) {
                            None => Err(("malformed"@, "script"@, "companion slot has no handle"@)),
                            Some(h) => if h > u32::MAX {
                                Err(("malformed"@, "script"@, "companion handle exceeds the engine handle domain"@))
                            } else {
                                Ok((h as u32, text_or_empty(member(entry, "identity"@)), contract, evidence))
                            },
                        },
                    },
                }
            }
        },
    }
}

/// Whether a result reports what a spec result says: the same value, or a
/// refusal with the same outcome, code and message.
pub open spec fn reports_companion(r: Result<Companion, Refused>, s: Result<(u32, Seq<char>, u32, u32), (Seq<char>, Seq<char>, Seq<char>)>) -> bool {
    match s {
        Ok((handle, identity, contract, evidence)) => r matches Ok(c) && c.handle == handle && c.identity@ == identity
            && c.contract == contract && c.evidence == evidence,
        Err((outcome, code, message)) => r matches Err(f) && refusal_is(f, outcome, code, message),
    }
}

/// Reads the certified companion at `index` of a stack report, before the
/// session asks the guest to project it.
pub fn companion_at(report: &Value, index: usize) -> (r: Result<Companion, Refused>)
    ensures
        reports_companion(r, companion_spec(*report, index as int)),
{
    let entries = match slots(report) {
        Ok(entries) => entries,
        Err(f) => return Err(f),
    };
    let ghost items = stack_of(*report)->0;
    if index >= entries.len() {
        let mut message = owned("stack has no slot ");
        append_decimal(index as u64, &mut message);
        return Err(Refused::new("malformed", owned("stack-index"), message));
    }
    if !text_equal(entries[index].0.as_str(), "Certified") {
        let mut message = owned("slot ");
        append_decimal(index as u64, &mut message);
        push_text(&mut message, " is a ");
        push_text(&mut message, entries[index].0.as_str());
        push_text(&mut message, ", not a companion");
        return Err(Refused::new("malformed", owned("stack-type"), message));
    }
    let raw = match report.member("stack") {
        Some(v) => match v.items() {
            Some(items) => &items[index],
            None => return Err(Refused::script(owned("missing stack entry"))),
        },
        None => return Err(Refused::script(owned("missing stack entry"))),
    };
    assert(*raw == items[index as int]);
    let identity = match raw.member("identity") {
        Some(v) => match v.text() {
            Some(t) => owned(t),
            None => String::new(),
        },
        None => String::new(),
    };
    proof {
        reveal_strlit("companion ");
        reveal_strlit("contract");
        reveal_strlit("evidence");
        reveal_strlit(" has no ");
        reveal_strlit("index");
        reveal_strlit("companion contract has no index");
        reveal_strlit("companion evidence has no index");
        assert("companion "@ + "contract"@ + " has no "@ + "index"@ =~= "companion contract has no index"@);
        assert("companion "@ + "evidence"@ + " has no "@ + "index"@ =~= "companion evidence has no index"@);
    }
    let contract = match nested_number(raw, "contract", "index") {
        Ok(n) => n,
        Err(f) => return Err(f),
    };
    let evidence = match nested_number(raw, "evidence", "index") {
        Ok(n) => n,
        Err(f) => return Err(f),
    };
    let handle = match entries[index].1 {
        Some(h) => h,
        None => return Err(Refused::script(owned("companion slot has no handle"))),
    };
    if handle > 0xffff_ffffu64 {
        return Err(Refused::script(owned("companion handle exceeds the engine handle domain")));
    }
    Ok(Companion { handle: handle as u32, identity, contract, evidence })
}

/// The engine's parsed reply document, or the message it was refused with.
pub open spec fn reply_document(json: Seq<char>) -> Step<crate::reader::Data> {
    read_document(vstd::utf8::encode_utf8(json))
}

/// The subject handle a projection reply carries: the reply must parse,
/// report `projected`, and name its subject.
pub fn projection(outcome: &str, json: &str) -> (r: Result<u64, Refused>)
    ensures
        reply_document(json@) matches Step::Failed(m) ==> (r matches Err(f) && engine_report(f, m)),
        reply_document(json@) is Done && outcome@ != "projected"@ ==> (r matches Err(f)
            && refusal_is(f, "refused"@, "projection-failed"@, "the guest could not project the companion"@)),
        reply_document(json@) is Done && outcome@ == "projected"@ ==> (exists|v: Value| {
            &&& #[trigger] v@ == reply_document(json@)->Done_0
            &&& match index_in(member(v, "subject"@)) {
                Some(s) => r == Ok::<u64, Refused>(s),
                None => r matches Err(f) && script_refusal(f, "projection returned no subject"@),
            }
        }),
{
    let projected = match parse_report(json) {
        Ok(v) => v,
        Err(f) => return Err(f),
    };
    if !text_equal(outcome, "projected") {
        return Err(Refused::new("refused", owned("projection-failed"), owned("the guest could not project the companion")));
    }
    match projected.member("subject") {
        Some(s) => match s.index() {
            Some(subject) => Ok(subject),
            None => Err(Refused::script(owned("projection returned no subject"))),
        },
        None => Err(Refused::script(owned("projection returned no subject"))),
    }
}

/// What the program slot at `index` of a stack report holds: its cell
/// handle, or the refusal of the first thing that is wrong with it.
pub open spec fn program_spec(report: Value, index: int) -> Result<u64, (Seq<char>, Seq<char>, Seq<char>)> {
    match stack_of(report) {
        None => Err(("malformed"@, "engine-report"@, "reply has no stack"@)),
        Some(items) => if index >= items.len() {
            Err(("malformed"@, "script"@, "stack has no slot "@ + decimal(index as nat)))
        } else if slot_type(items[index]) != "Program"@ {
            Err(("malformed"@, "stack-type"@, "slot "@ + decimal(index as nat) + " is a "@ + slot_type(items[index]) + ", not a program"@))
        } else {
            match index_in(member(items[index], "handle"@)) {
                None => Err(("malformed"@, "script"@, "program slot has no handle"@)),
                Some(h) => Ok(h),
            }
        },
    }
}

/// The cell handle of the program slot at `index` of a stack report.
pub fn program_at(report: &Value, index: usize) -> (r: Result<u64, Refused>)
    ensures
        match program_spec(*report, index as int) {
            Ok(h) => r == Ok::<u64, Refused>(h),
            Err((outcome, code, message)) => r matches Err(f) && refusal_is(f, outcome, code, message),
        },
{
    let entries = match slots(report) {
        Ok(entries) => entries,
        Err(f) => return Err(f),
    };
    if index >= entries.len() {
        let mut message = owned("stack has no slot ");
        append_decimal(index as u64, &mut message);
        return Err(Refused::script(message));
    }
    if !text_equal(entries[index].0.as_str(), "Program") {
        let mut message = owned("slot ");
        append_decimal(index as u64, &mut message);
        push_text(&mut message, " is a ");
        push_text(&mut message, entries[index].0.as_str());
        push_text(&mut message, ", not a program");
        return Err(Refused::new("malformed", owned("stack-type"), message));
    }
    match entries[index].1 {
        Some(h) => Ok(h),
        None => Err(Refused::script(owned("program slot has no handle"))),
    }
}

/// A program handle whose type the session did not retain.
pub fn unretained_program(handle: u64) -> (r: Refused)
    ensures
        refusal_is(r, "malformed"@, "stack-type"@, "program handle "@ + decimal(handle as nat) + " is not retained"@),
{
    let mut message = owned("program handle ");
    append_decimal(handle, &mut message);
    push_text(&mut message, " is not retained");
    Refused::new("malformed", owned("stack-type"), message)
}

/// Whether a slot is the program cell with the given handle.
pub open spec fn is_program(entry: (String, Option<u64>), handle: u64) -> bool {
    entry.0@ == "Program"@ && entry.1 == Some(handle)
}

/// Where the program cell with the given handle already stands on the
/// stack: the first such slot, if any.
pub fn program_position(entries: &[(String, Option<u64>)], handle: u64) -> (r: Option<usize>)
    ensures
        match r {
            Some(i) => i < entries@.len() && is_program(entries@[i as int], handle)
                && forall|k: int| 0 <= k < i ==> !is_program(#[trigger] entries@[k], handle),
            None => forall|k: int| 0 <= k < entries@.len() ==> !is_program(#[trigger] entries@[k], handle),
        },
{
    let mut i: usize = 0;
    while i < entries.len()
        invariant
            i <= entries@.len(),
            forall|k: int| 0 <= k < i ==> !is_program(#[trigger] entries@[k], handle),
        decreases entries@.len() - i,
    {
        if text_equal(entries[i].0.as_str(), "Program") && entries[i].1 == Some(handle) {
            return Some(i);
        }
        i = i + 1;
    }
    None
}

/// Checks the reply to removing a temporary observation slot: it must
/// report a normal return.
pub fn removal(report: &Value) -> (r: Result<(), Refused>)
    ensures
        text_in(member(*report, "outcome"@)) == Some("normal"@) ==> r is Ok,
        text_in(member(*report, "outcome"@)) != Some("normal"@) ==> (r matches Err(f)
            && script_refusal(f, "could not remove the temporary observation slot"@)),
{
    let normal = match report.member("outcome") {
        Some(v) => match v.text() {
            Some(t) => text_equal(t, "normal"),
            None => false,
        },
        None => false,
    };
    if normal {
        Ok(())
    } else {
        Err(Refused::script(owned("could not remove the temporary observation slot")))
    }
}

/// The stack position of an observation, in the engine's index domain.
pub fn observation_index(at: usize) -> (r: Result<u32, Refused>)
    ensures
        at <= u32::MAX ==> r == Ok::<u32, Refused>(at as u32),
        at > u32::MAX ==> (r matches Err(f) && script_refusal(f, "observation index exceeds the engine index domain"@)),
{
    if at as u64 > 0xffff_ffffu64 {
        return Err(Refused::script(owned("observation index exceeds the engine index domain")));
    }
    Ok(at as u32)
}

/// The reflection events of an observation reply: the reply must parse and
/// report `observed`.
pub fn observation(outcome: &str, json: &str) -> (r: Result<Vec<(u32, u64)>, Refused>)
    ensures
        reply_document(json@) matches Step::Failed(m) ==> (r matches Err(f) && engine_report(f, m)),
        reply_document(json@) is Done && outcome@ != "observed"@ ==> (r matches Err(f)
            && refusal_is(f, "refused"@, "observation-failed"@, "the guest could not observe the subject"@)),
        reply_document(json@) is Done && outcome@ == "observed"@ ==> (exists|v: Value| {
            &&& #[trigger] v@ == reply_document(json@)->Done_0
            &&& match items_of(member(v, "events"@)) {
                None => r matches Err(f) && engine_report(f, "reply has no events"@),
                Some(items) => match events_from(items, 0) {
                    Ok(es) => r matches Ok(e) && e@ == es,
                    Err(m) => r matches Err(f) && event_refusal(f, m),
                },
            }
        }),
{
    let report = match parse_report(json) {
        Ok(v) => v,
        Err(f) => return Err(f),
    };
    if !text_equal(outcome, "observed") {
        return Err(Refused::new("refused", owned("observation-failed"), owned("the guest could not observe the subject")));
    }
    reflection_events(&report)
}

/// Whether the identity a companion carries names the identity the core
/// bound: it must read as an unsigned 64-bit number equal to it.
pub fn identity_matches(identity: &str, bound: u64) -> (r: bool)
    ensures
        r == (parsed(identity@, u64::MAX as nat) == Some(bound as nat)),
{
    let spelled = chars_of(identity);
    match parse_unsigned(spelled.as_slice(), 0xffff_ffff_ffff_ffffu64) {
        Some(n) => n == bound,
        None => false,
    }
}

/// Where the retained record of a contract stands among the retained
/// records' contract indices: the first match, or the refusal of an unknown
/// contract.
pub fn record_position(contracts: &[u32], index: u32) -> (r: Result<usize, Refused>)
    ensures
        match r {
            Ok(i) => i < contracts@.len() && contracts@[i as int] == index
                && forall|k: int| 0 <= k < i ==> #[trigger] contracts@[k] != index,
            Err(f) => (forall|k: int| 0 <= k < contracts@.len() ==> #[trigger] contracts@[k] != index)
                && refusal_is(f, "refused"@, "unknown-contract"@, "no retained contract "@ + decimal(index as nat)),
        },
{
    let mut i: usize = 0;
    while i < contracts.len()
        invariant
            i <= contracts@.len(),
            forall|k: int| 0 <= k < i ==> #[trigger] contracts@[k] != index,
        decreases contracts@.len() - i,
    {
        if contracts[i] == index {
            return Ok(i);
        }
        i = i + 1;
    }
    let mut message = owned("no retained contract ");
    append_decimal(index as u64, &mut message);
    Err(Refused::new("refused", owned("unknown-contract"), message))
}

/// The source that drops `depth` cells: `drop` that many times, separated
/// by spaces.
pub open spec fn drop_text(depth: nat) -> Seq<char>
    decreases depth,
{
    if depth == 0 {
        Seq::empty()
    } else if depth == 1 {
        "drop"@
    } else {
        drop_text((depth - 1) as nat) + " drop"@
    }
}

/// The source of the chain that drops the whole session stack.
pub fn drop_chain(depth: usize) -> (r: String)
    ensures
        r@ == drop_text(depth as nat),
{
    let mut source = String::new();
    let mut step: usize = 0;
    while step < depth
        invariant
            step <= depth,
            source@ == drop_text(step as nat),
        decreases depth - step,
    {
        if step > 0 {
            push_text(&mut source, " ");
        }
        push_text(&mut source, "drop");
        proof {
            reveal_strlit("drop");
            reveal_strlit(" ");
            if step > 0 {
                assert(" "@ + "drop"@ =~= " drop"@) by {
                    reveal_strlit(" drop");
                }
            }
        }
        step = step + 1;
    }
    source
}

/// Checks the reply to dropping the session stack: it must report a normal
/// return, else the outcome it reported (or that it reported none) is the
/// refusal's message.
pub fn dropped(report: &Value) -> (r: Result<(), Refused>)
    ensures
        text_in(member(*report, "outcome"@)) == Some("normal"@) ==> r is Ok,
        text_in(member(*report, "outcome"@)) != Some("normal"@) ==> (r matches Err(f)
            && refusal_is(f, "refused"@, "session-drop"@, "the guest did not drop the parked stack: "@
                + match text_in(member(*report, "outcome"@)) { Some(t) => t, None => "no outcome"@ })),
{
    let outcome = match report.member("outcome") {
        Some(v) => v.text(),
        None => None,
    };
    match outcome {
        Some(t) => if text_equal(t, "normal") {
            return Ok(());
        },
        None => {},
    }
    let mut message = owned("the guest did not drop the parked stack: ");
    match outcome {
        Some(t) => push_text(&mut message, t),
        None => push_text(&mut message, "no outcome"),
    }
    Err(Refused::new("refused", owned("session-drop"), message))
}

/// The stack the guest reports after an empty push: the reply must parse
/// and report `pushed`.
pub fn stack_read(outcome: &str, json: &str) -> (r: Result<Value, Refused>)
    ensures
        reply_document(json@) matches Step::Failed(m) ==> (r matches Err(f) && engine_report(f, m)),
        reply_document(json@) is Done && outcome@ != "pushed"@ ==> (r matches Err(f)
            && refusal_is(f, "refused"@, "stack-read"@, "the guest could not report its stack"@)),
        reply_document(json@) is Done && outcome@ == "pushed"@ ==> (r matches Ok(v) && v@ == reply_document(json@)->Done_0),
{
    let report = match parse_report(json) {
        Ok(v) => v,
        Err(f) => return Err(f),
    };
    if !text_equal(outcome, "pushed") {
        return Err(Refused::new("refused", owned("stack-read"), owned("the guest could not report its stack")));
    }
    Ok(report)
}

/// The handle of the handle member of the last slot of a stack, if any.
pub open spec fn last_handle(report: Value) -> Option<u64> {
    match stack_of(report) {
        Some(items) => if items.len() > 0 { index_in(member(items.last(), "handle"@)) } else { None },
        None => None,
    }
}

/// What the reply to an injection decides: the new cell's handle, or the refusal.
pub open spec fn pushed_reply(outcome: Seq<char>, json: Seq<char>, r: Result<u64, Refused>) -> bool {
    &&& reply_document(json) matches Step::Failed(m) ==> (r matches Err(f) && engine_report(f, m))
    &&& reply_document(json) is Done && outcome != "pushed"@ ==> (r matches Err(f)
            && refusal_is(f, "refused"@, "injection-refused"@, "the guest refused the injected companion"@))
    &&& reply_document(json) is Done && outcome == "pushed"@ ==> (exists|v: Value| {
            &&& #[trigger] v@ == reply_document(json)->Done_0
            &&& match last_handle(v) {
                Some(h) => r == Ok::<u64, Refused>(h),
                None => r matches Err(f) && script_refusal(f, "the injected cell has no handle"@),
            }
        })
}

/// The handle of a cell the guest accepted: the reply must parse, report
/// `pushed`, and show the new cell's handle on top of the stack.
pub fn pushed_handle(outcome: &str, json: &str) -> (r: Result<u64, Refused>)
    ensures
        pushed_reply(outcome@, json@, r),
{
    let report = match parse_report(json) {
        Ok(v) => v,
        Err(f) => return Err(f),
    };
    if !text_equal(outcome, "pushed") {
        return Err(Refused::new("refused", owned("injection-refused"), owned("the guest refused the injected companion")));
    }
    let handle = match report.member("stack") {
        Some(s) => match s.items() {
            Some(items) => if items.len() > 0 {
                match items[items.len() - 1].member("handle") {
                    Some(h) => h.index(),
                    None => None,
                }
            } else {
                None
            },
            None => None,
        },
        None => None,
    };
    match handle {
        Some(h) => Ok(h),
        None => Err(Refused::script(owned("the injected cell has no handle"))),
    }
}

/// What the reply to parking the stack decides.
pub open spec fn parked_reply(outcome: Seq<char>, json: Seq<char>, depth: usize, r: Result<(), Refused>) -> bool {
    &&& reply_document(json) matches Step::Failed(m) ==> (r matches Err(f) && engine_report(f, m))
    &&& reply_document(json) is Done ==> (exists|v: Value| {
            &&& #[trigger] v@ == reply_document(json)->Done_0
            &&& if outcome == "parked"@ && index_in(member(v, "stack_length"@)) == Some(depth as u64) {
                r is Ok
            } else {
                r matches Err(f) && refusal_is(f, "internal-failure"@, "session-model"@,
                    "the live stack disagrees with the session model"@)
            }
        })
}

/// Checks the reply to parking the stack: it must parse, report `parked`,
/// and hold as many cells as the session's model of the stack.
pub fn parked(outcome: &str, json: &str, depth: usize) -> (r: Result<(), Refused>)
    ensures
        parked_reply(outcome@, json@, depth, r),
{
    let report = match parse_report(json) {
        Ok(v) => v,
        Err(f) => return Err(f),
    };
    let length = match report.member("stack_length") {
        Some(v) => v.index(),
        None => None,
    };
    if !text_equal(outcome, "parked") || length != Some(depth as u64) {
        return Err(Refused::new("internal-failure", owned("session-model"), owned("the live stack disagrees with the session model")));
    }
    Ok(())
}

/// What the reply to restoring a parked frame decides.
pub open spec fn restored_reply(outcome: Seq<char>, json: Seq<char>, depth: usize, r: Result<(), Refused>) -> bool {
    &&& reply_document(json) matches Step::Failed(m) ==> (r matches Err(f) && engine_report(f, m))
    &&& reply_document(json) is Done && outcome != "restored"@ ==> (r matches Err(f)
            && script_refusal(f, "engine did not restore the parked frame"@))
    &&& reply_document(json) is Done && outcome == "restored"@ ==> (exists|v: Value| {
            &&& #[trigger] v@ == reply_document(json)->Done_0
            &&& match stack_of(v) {
                None => r matches Err(f) && refusal_is(f, "malformed"@, "engine-report"@, "reply has no stack"@),
                Some(items) => if items.len() == depth {
                    r is Ok
                } else {
                    r matches Err(f) && script_refusal(f, "engine did not restore the parked frame"@)
                },
            }
        })
}

/// Checks the reply to restoring a parked frame: it must parse, report
/// `restored`, and hold exactly the parked cells.
pub fn restored(outcome: &str, json: &str, depth: usize) -> (r: Result<(), Refused>)
    ensures
        restored_reply(outcome@, json@, depth, r),
{
    let report = match parse_report(json) {
        Ok(v) => v,
        Err(f) => return Err(f),
    };
    if !text_equal(outcome, "restored") {
        return Err(Refused::script(owned("engine did not restore the parked frame")));
    }
    let entries = match slots(&report) {
        Ok(entries) => entries,
        Err(f) => return Err(f),
    };
    if entries.len() != depth {
        return Err(Refused::script(owned("engine did not restore the parked frame")));
    }
    Ok(())
}

/// Records an injected cell in the session's model of the stack: its type
/// goes on top only once the engine has confirmed the push, and the model is
/// unchanged by a refused one.
pub fn push_confirmed<T>(stack: &mut Vec<T>, item: T, outcome: &str, json: &str) -> (r: Result<u64, Refused>)
    ensures
        pushed_reply(outcome@, json@, r),
        r is Ok ==> final(stack)@ == old(stack)@.push(item),
        r is Err ==> final(stack)@ == old(stack)@,
{
    let handle = pushed_handle(outcome, json);
    if handle.is_ok() {
        stack.push(item);
    }
    handle
}

/// Parks the session's model of the stack once the engine has confirmed it
/// parked a stack of the same depth: the parked types are handed back and the
/// model starts empty. A refused park leaves the model unchanged.
pub fn park_confirmed<T>(stack: &mut Vec<T>, outcome: &str, json: &str) -> (r: Result<Vec<T>, Refused>)
    ensures
        parked_reply(outcome@, json@, old(stack)@.len() as usize, match r { Ok(_) => Ok(()), Err(f) => Err(f) }),
        r matches Ok(frame) ==> frame@ == old(stack)@ && final(stack)@.len() == 0,
        r is Err ==> final(stack)@ == old(stack)@,
{
    match parked(outcome, json, stack.len()) {
        Ok(()) => {
            let mut frame: Vec<T> = Vec::new();
            std::mem::swap(stack, &mut frame);
            Ok(frame)
        },
        Err(f) => Err(f),
    }
}

/// Restores a parked frame into the session's model of the stack once the
/// engine has confirmed it holds exactly the parked cells; a refused restore
/// leaves the model unchanged.
pub fn restore_confirmed<T>(stack: &mut Vec<T>, frame: Vec<T>, outcome: &str, json: &str) -> (r: Result<(), Refused>)
    ensures
        restored_reply(outcome@, json@, frame@.len() as usize, r),
        r is Ok ==> final(stack)@ == frame@,
        r is Err ==> final(stack)@ == old(stack)@,
{
    let checked = restored(outcome, json, frame.len());
    if checked.is_ok() {
        *stack = frame;
    }
    checked
}

/// Whether a handle is among the known ones.
pub open spec fn known(handles: Seq<u64>, h: u64) -> bool {
    exists|k: int| 0 <= k < handles.len() && handles[k] == h
}

/// The program cells of a reported stack whose types the session should now
/// remember: each slot below `typed` (the slots the session has types for)
/// holding a program whose handle is not yet known, at its first place.
pub fn programs_to_record(entries: &[(String, Option<u64>)], typed: usize, handles: &[u64]) -> (r: Vec<(usize, u64)>)
    ensures
        forall|i: int| 0 <= i < r@.len() ==> {
            &&& (#[trigger] r@[i]).0 < entries@.len() && r@[i].0 < typed
            &&& is_program(entries@[r@[i].0 as int], r@[i].1)
            &&& !known(handles@, r@[i].1)
        },
        forall|i: int, j: int| 0 <= i < j < r@.len() ==> #[trigger] r@[i].0 < #[trigger] r@[j].0 && r@[i].1 != r@[j].1,
        forall|k: int| 0 <= k < entries@.len() && k < typed && entries@[k].0@ == "Program"@
            && (entries@[k].1 matches Some(h) && !known(handles@, h))
            ==> exists|i: int| 0 <= i < r@.len() && (#[trigger] r@[i]).1 == entries@[k].1->0,
{
    let mut r: Vec<(usize, u64)> = Vec::new();
    let mut at: usize = 0;
    while at < entries.len()
        invariant
            at <= entries@.len(),
            forall|i: int| 0 <= i < r@.len() ==> {
                &&& (#[trigger] r@[i]).0 < at && r@[i].0 < typed
                &&& is_program(entries@[r@[i].0 as int], r@[i].1)
                &&& !known(handles@, r@[i].1)
            },
            forall|i: int, j: int| 0 <= i < j < r@.len() ==> #[trigger] r@[i].0 < #[trigger] r@[j].0 && r@[i].1 != r@[j].1,
            forall|k: int| 0 <= k < at && k < typed && entries@[k].0@ == "Program"@
                && (entries@[k].1 matches Some(h) && !known(handles@, h))
                ==> exists|i: int| 0 <= i < r@.len() && (#[trigger] r@[i]).1 == entries@[k].1->0,
        decreases entries@.len() - at,
    {
        let ghost r0 = r@;
        if at < typed && text_equal(entries[at].0.as_str(), "Program") {
            match entries[at].1 {
                Some(h) => {
                    let mut seen = false;
                    let mut k: usize = 0;
                    while k < handles.len()
                        invariant
                            k <= handles@.len(),
                            seen == exists|m: int| 0 <= m < k && handles@[m] == h,
                        decreases handles@.len() - k,
                    {
                        if handles[k] == h {
                            seen = true;
                        }
                        k = k + 1;
                    }
                    let mut j: usize = 0;
                    while j < r.len()
                        invariant
                            j <= r@.len(),
                            seen ==> (known(handles@, h) || exists|m: int| 0 <= m < r@.len() && r@[m].1 == h),
                            !seen ==> !known(handles@, h) && forall|m: int| 0 <= m < j ==> r@[m].1 != h,
                        decreases r@.len() - j,
                    {
                        if r[j].1 == h {
                            seen = true;
                        }
                        j = j + 1;
                    }
                    if !seen {
                        let ghost before = r@;
                        r.push((at, h));
                        assert(r@.subrange(0, before.len() as int) =~= before);
                        proof {
                            assert forall|i: int, j2: int| 0 <= i < j2 < r@.len() implies #[trigger] r@[i].0 < #[trigger] r@[j2].0 && r@[i].1 != r@[j2].1 by {
                                if j2 == r@.len() - 1 {
                                    assert(r@[i] == before[i]);
                                }
                            }
                        }
                    }
                },
                None => {},
            }
        }
        proof {
            assert(r@ == r0 || (r@.len() == r0.len() + 1 && r@.subrange(0, r0.len() as int) == r0
                && r@.last() == (at, entries@[at as int].1->0)));
            assert forall|k: int| 0 <= k < at + 1 && k < typed && entries@[k].0@ == "Program"@
                && (entries@[k].1 matches Some(h) && !known(handles@, h))
                implies exists|i: int| 0 <= i < r@.len() && (#[trigger] r@[i]).1 == entries@[k].1->0 by {
                if k < at {
                    let i = choose|i: int| 0 <= i < r0.len() && (#[trigger] r0[i]).1 == entries@[k].1->0;
                    assert(r@[i] == r0[i]);
                } else if r@ != r0 {
                    assert(r@[r0.len() as int].1 == entries@[k].1->0);
                }
            }
        }
        at = at + 1;
    }
    r
}

} // verus!
