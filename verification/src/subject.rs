//! The description of a prepared contract in a report: its typed interface,
//! logical definitions, the source text of its predicates, and its typed
//! expressions. Types and terms arrive already printed.

use vstd::prelude::*;

use crate::json::{keys, object, string, text_is, value_at, Json};
use crate::utf8::decode;
use crate::verify_report::optional_text;
use vstd::utf8::{decode_utf8, valid_utf8};

verus! {

/// A named value and its printed type.
pub struct NamedType {
    pub name: String,
    pub ty: String,
}

/// A logical definition: its name, printed type and body expression.
pub struct Definition {
    pub name: String,
    pub ty: String,
    pub body: u32,
}

/// A typed expression: its printed kind and type, and its source span.
pub struct Expression {
    pub kind: String,
    pub ty: String,
    pub start: u32,
    pub end: u32,
}

/// What a report reads of a prepared contract.
pub struct PreparedContract {
    pub name: String,
    pub candidate_format: u32,
    pub semantic_revision: u32,
    pub inputs: Vec<NamedType>,
    pub outputs: Vec<NamedType>,
    pub params: Vec<NamedType>,
    pub definitions: Vec<Definition>,
    pub expressions: Vec<Expression>,
    /// The expression of the precondition.
    pub requires: u32,
    /// The expression of the postcondition.
    pub ensures: u32,
    /// The accepted candidate, printed.
    pub candidate: String,
    /// The acceptance request, printed.
    pub request: String,
}

/// The report entries of named types, in order.
pub open spec fn named_types_json(j: Json, values: Seq<NamedType>) -> bool {
    j matches Json::Array(items) && items@.len() == values.len() && forall|i: int| 0 <= i < values.len() ==> {
        &&& keys(#[trigger] items@[i]) == seq!["name"@, "type"@]
        &&& text_is(value_at(items@[i], 0), values[i].name@)
        &&& text_is(value_at(items@[i], 1), values[i].ty@)
    }
}

/// The report entries of logical definitions, in order.
pub open spec fn definitions_json(j: Json, values: Seq<Definition>) -> bool {
    j matches Json::Array(items) && items@.len() == values.len() && forall|i: int| 0 <= i < values.len() ==> {
        &&& keys(#[trigger] items@[i]) == seq!["name"@, "type"@, "body"@]
        &&& text_is(value_at(items@[i], 0), values[i].name@)
        &&& text_is(value_at(items@[i], 1), values[i].ty@)
        &&& value_at(items@[i], 2) == Json::Number(values[i].body as u64)
    }
}

/// The report entry of a span.
pub open spec fn span_json(j: Json, start: u32, end: u32) -> bool {
    &&& keys(j) == seq!["start"@, "end"@]
    &&& value_at(j, 0) == Json::Number(start as u64)
    &&& value_at(j, 1) == Json::Number(end as u64)
}

/// The report entries of typed expressions, in order.
pub open spec fn expressions_json(j: Json, values: Seq<Expression>) -> bool {
    j matches Json::Array(items) && items@.len() == values.len() && forall|i: int| 0 <= i < values.len() ==> {
        &&& keys(#[trigger] items@[i]) == seq!["kind"@, "type"@, "span"@]
        &&& text_is(value_at(items@[i], 0), values[i].kind@)
        &&& text_is(value_at(items@[i], 1), values[i].ty@)
        &&& span_json(value_at(items@[i], 2), values[i].start, values[i].end)
    }
}

/// The source text of expression `index`: its span must lie within the
/// source and hold UTF-8.
pub open spec fn excerpt(expressions: Seq<Expression>, source: Seq<u8>, index: u32) -> Option<Seq<char>> {
    if index < expressions.len() {
        let e = expressions[index as int];
        if e.start <= e.end && e.end <= source.len() && valid_utf8(source.subrange(e.start as int, e.end as int)) {
            Some(decode_utf8(source.subrange(e.start as int, e.end as int)))
        } else {
            None
        }
    } else {
        None
    }
}

/// The report entry of a predicate.
pub open spec fn predicate_json(j: Json, expressions: Seq<Expression>, source: Seq<u8>, index: u32) -> bool {
    &&& keys(j) == seq!["expression"@, "source"@]
    &&& value_at(j, 0) == Json::Number(index as u64)
    &&& optional_text(value_at(j, 1), excerpt(expressions, source, index))
}

/// Named types as report entries.
pub fn named_types(values: &[NamedType]) -> (r: Json)
    ensures
        named_types_json(r, values@),
{
    let mut out: Vec<Json> = Vec::new();
    let mut i: usize = 0;
    while i < values.len()
        invariant
            i <= values@.len(),
            out@.len() == i,
            forall|k: int| 0 <= k < i ==> {
                &&& keys(#[trigger] out@[k]) == seq!["name"@, "type"@]
                &&& text_is(value_at(out@[k], 0), values@[k].name@)
                &&& text_is(value_at(out@[k], 1), values@[k].ty@)
            },
        decreases values@.len() - i,
    {
        let j = object(vec![("name", string(values[i].name.as_str())), ("type", string(values[i].ty.as_str()))]);
        assert(keys(j) =~= seq!["name"@, "type"@]);
        out.push(j);
        i = i + 1;
    }
    Json::Array(out)
}

/// Logical definitions as report entries.
pub fn definitions(values: &[Definition]) -> (r: Json)
    ensures
        definitions_json(r, values@),
{
    let mut out: Vec<Json> = Vec::new();
    let mut i: usize = 0;
    while i < values.len()
        invariant
            i <= values@.len(),
            out@.len() == i,
            forall|k: int| 0 <= k < i ==> {
                &&& keys(#[trigger] out@[k]) == seq!["name"@, "type"@, "body"@]
                &&& text_is(value_at(out@[k], 0), values@[k].name@)
                &&& text_is(value_at(out@[k], 1), values@[k].ty@)
                &&& value_at(out@[k], 2) == Json::Number(values@[k].body as u64)
            },
        decreases values@.len() - i,
    {
        let j = object(vec![
            ("name", string(values[i].name.as_str())),
            ("type", string(values[i].ty.as_str())),
            ("body", Json::Number(values[i].body as u64)),
        ]);
        assert(keys(j) =~= seq!["name"@, "type"@, "body"@]);
        out.push(j);
        i = i + 1;
    }
    Json::Array(out)
}

/// Typed expressions as report entries.
pub fn expressions(values: &[Expression]) -> (r: Json)
    ensures
        expressions_json(r, values@),
{
    let mut out: Vec<Json> = Vec::new();
    let mut i: usize = 0;
    while i < values.len()
        invariant
            i <= values@.len(),
            out@.len() == i,
            forall|k: int| 0 <= k < i ==> {
                &&& keys(#[trigger] out@[k]) == seq!["kind"@, "type"@, "span"@]
                &&& text_is(value_at(out@[k], 0), values@[k].kind@)
                &&& text_is(value_at(out@[k], 1), values@[k].ty@)
                &&& span_json(value_at(out@[k], 2), values@[k].start, values@[k].end)
            },
        decreases values@.len() - i,
    {
        let e = &values[i];
        let span = object(vec![("start", Json::Number(e.start as u64)), ("end", Json::Number(e.end as u64))]);
        assert(keys(span) =~= seq!["start"@, "end"@]);
        let j = object(vec![("kind", string(e.kind.as_str())), ("type", string(e.ty.as_str())), ("span", span)]);
        assert(keys(j) =~= seq!["kind"@, "type"@, "span"@]);
        out.push(j);
        i = i + 1;
    }
    Json::Array(out)
}

/// The source text of an expression, when its span reads as UTF-8 text
/// within the source.
pub fn excerpt_of(expressions: &[Expression], source: &[u8], index: u32) -> (r: Option<String>)
    ensures
        match excerpt(expressions@, source@, index) {
            Some(t) => r matches Some(s) && s@ == t,
            None => r is None,
        },
{
    if index as usize >= expressions.len() {
        return None;
    }
    let e = &expressions[index as usize];
    if e.start > e.end || e.end as usize > source.len() {
        return None;
    }
    let bytes = vstd::slice::slice_subrange(source, e.start as usize, e.end as usize);
    decode(bytes)
}

/// The report entry of the predicate at expression `index`: the index and
/// its source text, or `null` when the text cannot be recovered.
pub fn predicate(expressions: &[Expression], source: &[u8], index: u32) -> (r: Json)
    ensures
        predicate_json(r, expressions@, source@, index),
{
    let text = excerpt_of(expressions, source, index);
    let r = object(vec![
        ("expression", Json::Number(index as u64)),
        ("source", match &text {
            Some(t) => string(t.as_str()),
            None => Json::Null,
        }),
    ]);
    assert(keys(r) =~= seq!["expression"@, "source"@]);
    r
}

/// The member names of a contract description, in order.
pub open spec fn description_keys() -> Seq<Seq<char>> {
    seq![
        "name"@, "candidate_format"@, "semantic_revision"@, "inputs"@, "outputs"@, "ghost_parameters"@,
        "logical_definitions"@, "requires"@, "ensures"@, "typed_ir"@, "accepted_candidate"@, "acceptance_request"@,
        "stack_order"@,
    ]
}

/// The description of a prepared contract whose source is `source`.
pub fn describe(prepared: &PreparedContract, source: &[u8]) -> (r: Json)
    ensures
        keys(r) == description_keys(),
        text_is(value_at(r, 0), prepared.name@),
        value_at(r, 1) == Json::Number(prepared.candidate_format as u64),
        value_at(r, 2) == Json::Number(prepared.semantic_revision as u64),
        named_types_json(value_at(r, 3), prepared.inputs@),
        named_types_json(value_at(r, 4), prepared.outputs@),
        named_types_json(value_at(r, 5), prepared.params@),
        definitions_json(value_at(r, 6), prepared.definitions@),
        predicate_json(value_at(r, 7), prepared.expressions@, source@, prepared.requires),
        predicate_json(value_at(r, 8), prepared.expressions@, source@, prepared.ensures),
        expressions_json(value_at(r, 9), prepared.expressions@),
        text_is(value_at(r, 10), prepared.candidate@),
        text_is(value_at(r, 11), prepared.request@),
        text_is(value_at(r, 12), "bottom-first; the last entry is top"@),
{
    let r = object(vec![
        ("name", string(prepared.name.as_str())),
        ("candidate_format", Json::Number(prepared.candidate_format as u64)),
        ("semantic_revision", Json::Number(prepared.semantic_revision as u64)),
        ("inputs", named_types(prepared.inputs.as_slice())),
        ("outputs", named_types(prepared.outputs.as_slice())),
        ("ghost_parameters", named_types(prepared.params.as_slice())),
        ("logical_definitions", definitions(prepared.definitions.as_slice())),
        ("requires", predicate(prepared.expressions.as_slice(), source, prepared.requires)),
        ("ensures", predicate(prepared.expressions.as_slice(), source, prepared.ensures)),
        ("typed_ir", expressions(prepared.expressions.as_slice())),
        ("accepted_candidate", string(prepared.candidate.as_str())),
        ("acceptance_request", string(prepared.request.as_str())),
        ("stack_order", string("bottom-first; the last entry is top")),
    ]);
    assert(keys(r) =~= description_keys());
    r
}

} // verus!
