//! The `component` command: decoding its arguments, the failures of the
//! component checker and lowering, the typed-bindings and compiled reports,
//! and the decisions around the pinned assembler.

use vstd::prelude::*;

use crate::arguments::{raw, text};
use crate::json::{append_decimal, decimal, hex, keys, object, string, text_is, value_at, Json};
use crate::number::trim;
use crate::outcome::{failure_json, Failure, Outcome};
use crate::sandbox::{failed, Transcript};
use crate::session::{BackendDiagnostic, DiagnosticKind};
use crate::text::{chars_of, owned, owned_all, push_text, string_of, text_equal};
use crate::utf8::decode;
use crate::verify_report::text_array;

verus! {

pub const USAGE: &'static str = "usage:
  noble component bindings WIT WORLD
  noble component check-effect WIT WORLD WORD CLAIMED_EFFECT ...
  noble component compile WIT WORLD NEW_DIR EXPORT=SOURCE ...

Component-Sync-Bootstrap generates typed WIT bindings and independently checks
all export bodies before emitting a component. Every selected world export must
be supplied exactly once. Exports use isolated parameter/result stacks; async
and borrowed exports are rejected. NEW_DIR must not exist. Host resource and
authorization contracts remain the responsibility of the linked host profile.";

/// Largest WIT or export source read.
pub const INPUT_LIMIT: usize = 65_536;
/// Largest assembled artifact read back.
pub const ARTIFACT_LIMIT: usize = 4_194_304;
/// Most arguments `check-effect` and `compile` accept.
pub const MAX_ARGUMENTS: usize = 69;

pub const WASM_TOOLS: &'static str = "/nix/store/2n9b5yzj7n8jlnglp60gd5nmfjnf4xhf-wasm-tools-1.245.1/bin/wasm-tools";

/// The usage refusal of the `component` command.
pub fn usage() -> (r: Failure)
    ensures
        failed(r, Outcome::Error, "component-arguments"@, USAGE@),
{
    Failure::error("component-arguments", owned(USAGE))
}

/// The text of argument `index`, when there is one and it is UTF-8.
pub open spec fn argument_text(args: Seq<Seq<u8>>, index: int) -> Option<Seq<char>> {
    if 0 <= index < args.len() {
        text(args[index])
    } else {
        None
    }
}

/// The argument at `index` as text.
fn text_at(arguments: &[Vec<u8>], index: usize) -> (r: Result<String, Failure>)
    ensures
        match argument_text(raw(arguments@), index as int) {
            Some(t) => r matches Ok(s) && s@ == t,
            None => r matches Err(f) && failed(f, Outcome::Error, "component-arguments"@, USAGE@),
        },
{
    if index >= arguments.len() {
        return Err(usage());
    }
    assert(raw(arguments@)[index as int] == arguments@[index as int]@);
    match decode(arguments[index].as_slice()) {
        Some(s) => Ok(s),
        None => Err(usage()),
    }
}

/// What every `component` command names before its WIT file is read: the
/// mode word, the WIT path and the selected world.
pub struct Selection {
    pub mode: String,
    pub wit_path: Vec<u8>,
    pub world: String,
}

/// Decodes the mode, WIT path and world of a `component` command (the
/// first argument is the command itself).
pub fn selection(arguments: &[Vec<u8>]) -> (r: Result<Selection, Failure>)
    ensures
        ({
            let args = raw(arguments@);
            if argument_text(args, 1) is Some && args.len() > 2 && argument_text(args, 3) is Some {
                r matches Ok(s) && s.mode@ == argument_text(args, 1)->0 && s.wit_path@ == args[2]
                    && s.world@ == argument_text(args, 3)->0
            } else {
                r matches Err(f) && failed(f, Outcome::Error, "component-arguments"@, USAGE@)
            }
        }),
{
    let mode = match text_at(arguments, 1) {
        Ok(m) => m,
        Err(f) => return Err(f),
    };
    if arguments.len() <= 2 {
        return Err(usage());
    }
    let wit_path = crate::arguments::bytes_of(arguments[2].as_slice());
    let world = match text_at(arguments, 3) {
        Ok(w) => w,
        Err(f) => return Err(f),
    };
    Ok(Selection { mode, wit_path, world })
}

/// What a `component` command does once its world is read.
#[derive(Clone, Copy, PartialEq, Eq, Structural, Debug)]
pub enum Mode {
    Bindings,
    CheckEffect,
    Compile,
}

/// The mode a command selects with `count` arguments, if it is one.
pub open spec fn mode_spec(mode: Seq<char>, count: nat) -> Option<Mode> {
    if mode == "bindings"@ && count == 4 {
        Some(Mode::Bindings)
    } else if mode == "check-effect"@ && 5 <= count <= MAX_ARGUMENTS {
        Some(Mode::CheckEffect)
    } else if mode == "compile"@ && 5 <= count <= MAX_ARGUMENTS {
        Some(Mode::Compile)
    } else {
        None
    }
}

/// The mode of a command with `count` arguments, or its usage refusal.
pub fn mode(word: &str, count: usize) -> (r: Result<Mode, Failure>)
    ensures
        match mode_spec(word@, count as nat) {
            Some(m) => r == Ok::<Mode, Failure>(m),
            None => r matches Err(f) && failed(f, Outcome::Error, "component-arguments"@, USAGE@),
        },
{
    if text_equal(word, "bindings") && count == 4 {
        Ok(Mode::Bindings)
    } else if text_equal(word, "check-effect") && 5 <= count && count <= MAX_ARGUMENTS {
        Ok(Mode::CheckEffect)
    } else if text_equal(word, "compile") && 5 <= count && count <= MAX_ARGUMENTS {
        Ok(Mode::Compile)
    } else {
        Err(usage())
    }
}

/// The import word and the claimed effects of `check-effect`: every
/// argument from the fifth on must be text.
pub fn effect_claim(arguments: &[Vec<u8>]) -> (r: Result<(String, Vec<String>), Failure>)
    requires
        arguments@.len() >= 5,
    ensures
        ({
            let args = raw(arguments@);
            if forall|i: int| 4 <= i < args.len() ==> #[trigger] text(args[i]) is Some {
                r matches Ok((word, claimed)) && word@ == text(args[4])->0 && claimed@.len() == args.len() - 5
                    && forall|i: int| 0 <= i < claimed@.len() ==> (#[trigger] claimed@[i])@ == text(args[i + 5])->0
            } else {
                r matches Err(f) && failed(f, Outcome::Error, "component-arguments"@, USAGE@)
            }
        }),
{
    let ghost args = raw(arguments@);
    let word = match text_at(arguments, 4) {
        Ok(w) => w,
        Err(f) => return Err(f),
    };
    let mut claimed: Vec<String> = Vec::new();
    let mut i: usize = 5;
    while i < arguments.len()
        invariant
            5 <= i <= arguments@.len(),
            args == raw(arguments@),
            text(args[4]) is Some,
            word@ == text(args[4])->0,
            claimed@.len() == i - 5,
            forall|k: int| 4 <= k < i ==> #[trigger] text(args[k]) is Some,
            forall|k: int| 0 <= k < claimed@.len() ==> (#[trigger] claimed@[k])@ == text(args[k + 5])->0,
        decreases arguments@.len() - i,
    {
        let t = match text_at(arguments, i) {
            Ok(t) => t,
            Err(f) => return Err(f),
        };
        claimed.push(t);
        i = i + 1;
    }
    Ok((word, claimed))
}

/// The position of the first `=` from `i` on.
pub open spec fn equals_from(t: Seq<char>, i: int) -> Option<int>
    decreases t.len() - i,
{
    if i < 0 || i >= t.len() {
        None
    } else if t[i] == '=' {
        Some(i)
    } else {
        equals_from(t, i + 1)
    }
}

/// An `EXPORT=SOURCE` argument split at its first `=`; both sides must be
/// non-empty.
pub open spec fn source_spec(argument: Seq<u8>) -> Option<(Seq<char>, Seq<char>)> {
    match text(argument) {
        None => None,
        Some(t) => match equals_from(t, 0) {
            None => None,
            Some(i) => {
                let name = t.subrange(0, i);
                let path = t.subrange(i + 1, t.len() as int);
                if name.len() == 0 || path.len() == 0 {
                    None
                } else {
                    Some((name, path))
                }
            },
        },
    }
}

/// The export name and source path of an `EXPORT=SOURCE` argument.
pub fn source_argument(argument: &[u8]) -> (r: Result<(String, String), Failure>)
    ensures
        match source_spec(argument@) {
            Some((name, path)) => r matches Ok((n, p)) && n@ == name && p@ == path,
            None => r matches Err(f) && failed(f, Outcome::Error, "component-arguments"@, USAGE@),
        },
{
    let t = match decode(argument) {
        Some(t) => t,
        None => return Err(usage()),
    };
    let spelled = chars_of(t.as_str());
    let n = spelled.len();
    let mut i: usize = 0;
    while i < n
        invariant
            n == spelled@.len(),
            spelled@ == t@,
            i <= n,
            equals_from(spelled@, 0) == equals_from(spelled@, i as int),
        ensures
            i <= n,
            equals_from(spelled@, 0) == equals_from(spelled@, i as int),
            i < n ==> spelled@[i as int] == '=',
        decreases n - i,
    {
        if spelled[i] == '=' {
            break;
        }
        i = i + 1;
    }
    if i == n {
        return Err(usage());
    }
    if i == 0 || i + 1 == n {
        return Err(usage());
    }
    let name = string_of(spelled.as_slice(), 0, i);
    let path = string_of(spelled.as_slice(), i + 1, n);
    Ok((name, path))
}

/// The file an export's source is kept under in the emitted bundle.
pub fn export_source_name(index: usize) -> (r: String)
    ensures
        r@ == "export-"@ + decimal(index as nat) + ".noble"@,
{
    let mut r = owned("export-");
    append_decimal(index as u64, &mut r);
    push_text(&mut r, ".noble");
    r
}

/// A failure of the component checker: the checker's stage, printed, and
/// its message make the failure's message.
pub fn diagnostic(kind: DiagnosticKind, stage: &str, message: &str) -> (r: Failure)
    ensures
        failed(r, if kind == DiagnosticKind::Unsupported { Outcome::Unsupported } else { Outcome::Error },
            "component-check"@, stage@ + ": "@ + message@),
{
    let mut text = owned(stage);
    push_text(&mut text, ": ");
    push_text(&mut text, message);
    match kind {
        DiagnosticKind::Unsupported => Failure::unsupported("component-check", text),
        _ => Failure::error("component-check", text),
    }
}

/// A failure of component lowering.
pub fn backend(error: BackendDiagnostic) -> (r: Failure)
    ensures
        error == BackendDiagnostic::Unsupported ==> failed(r, Outcome::Unsupported, "component-lowering"@,
            "unsupported component source lowering"@),
        error == BackendDiagnostic::Invalid ==> failed(r, Outcome::Error, "component-lowering"@,
            "component export or environment rejected"@),
        error == BackendDiagnostic::Exhausted ==> failed(r, Outcome::Error, "component-lowering"@,
            "component preparation budget exhausted"@),
        error == BackendDiagnostic::Defective ==> failed(r, Outcome::Error, "component-lowering"@,
            "component lowering invariant failed"@),
{
    match error {
        BackendDiagnostic::Unsupported => Failure::unsupported("component-lowering", owned("unsupported component source lowering")),
        BackendDiagnostic::Invalid => Failure::error("component-lowering", owned("component export or environment rejected")),
        BackendDiagnostic::Exhausted => Failure::error("component-lowering", owned("component preparation budget exhausted")),
        BackendDiagnostic::Defective => Failure::error("component-lowering", owned("component lowering invariant failed")),
    }
}

/// One operation of a world: its identity, word and export name, its
/// printed stack types and WIT types, and whether it has an effect.
pub struct Operation {
    pub identity: String,
    pub word: String,
    pub export_name: String,
    pub input_types: Vec<String>,
    pub output_types: Vec<String>,
    pub parameters: Vec<String>,
    pub results: Vec<String>,
    pub effect: bool,
}

/// A resource of a world: its identity and kind.
pub struct Resource {
    pub identity: String,
    pub kind: u32,
}

/// What the reports read of a checked world.
pub struct World {
    pub identity: String,
    /// The profile the world was checked under.
    pub profile: String,
    pub imports: Vec<Operation>,
    pub exports: Vec<Operation>,
    pub resources: Vec<Resource>,
    pub build_context: Vec<u8>,
}

/// The characters of each string.
pub open spec fn texts(v: Seq<String>) -> Seq<Seq<char>> {
    v.map_values(|s: String| s@)
}

/// A JSON array of the given strings.
fn string_array(values: &[String]) -> (r: Json)
    ensures
        text_array(r, texts(values@)),
{
    let mut out: Vec<Json> = Vec::new();
    let mut i: usize = 0;
    while i < values.len()
        invariant
            i <= values@.len(),
            out@.len() == i,
            forall|k: int| 0 <= k < i ==> text_is(#[trigger] out@[k], values@[k]@),
        decreases values@.len() - i,
    {
        out.push(string(values[i].as_str()));
        i = i + 1;
    }
    Json::Array(out)
}

/// The report entry of an operation.
pub open spec fn operation_json(j: Json, o: Operation) -> bool {
    &&& keys(j) == seq!["identity"@, "word"@, "export"@, "input_types"@, "output_types"@, "wit_parameters"@,
        "wit_results"@, "effects"@]
    &&& text_is(value_at(j, 0), o.identity@)
    &&& text_is(value_at(j, 1), o.word@)
    &&& text_is(value_at(j, 2), o.export_name@)
    &&& text_array(value_at(j, 3), texts(o.input_types@))
    &&& text_array(value_at(j, 4), texts(o.output_types@))
    &&& text_array(value_at(j, 5), texts(o.parameters@))
    &&& text_array(value_at(j, 6), texts(o.results@))
    &&& text_array(value_at(j, 7), if o.effect { seq![o.identity@] } else { Seq::empty() })
}

/// An operation as its report entry: an effectful operation lists its own
/// identity as its effect.
pub fn operation(o: &Operation) -> (r: Json)
    ensures
        operation_json(r, *o),
{
    let effects = if o.effect {
        let e = vec![string(o.identity.as_str())];
        Json::Array(e)
    } else {
        Json::Array(Vec::new())
    };
    let r = object(vec![
        ("identity", string(o.identity.as_str())),
        ("word", string(o.word.as_str())),
        ("export", string(o.export_name.as_str())),
        ("input_types", string_array(o.input_types.as_slice())),
        ("output_types", string_array(o.output_types.as_slice())),
        ("wit_parameters", string_array(o.parameters.as_slice())),
        ("wit_results", string_array(o.results.as_slice())),
        ("effects", effects),
    ]);
    assert(keys(r) =~= seq!["identity"@, "word"@, "export"@, "input_types"@, "output_types"@, "wit_parameters"@,
        "wit_results"@, "effects"@]);
    r
}

/// Report entries of operations, in order.
pub open spec fn operations_json(j: Json, ops: Seq<Operation>) -> bool {
    j matches Json::Array(items) && items@.len() == ops.len()
        && forall|i: int| 0 <= i < ops.len() ==> operation_json(#[trigger] items@[i], ops[i])
}

fn operations(ops: &[Operation]) -> (r: Json)
    ensures
        operations_json(r, ops@),
{
    let mut out: Vec<Json> = Vec::new();
    let mut i: usize = 0;
    while i < ops.len()
        invariant
            i <= ops@.len(),
            out@.len() == i,
            forall|k: int| 0 <= k < i ==> operation_json(#[trigger] out@[k], ops@[k]),
        decreases ops@.len() - i,
    {
        out.push(operation(&ops[i]));
        i = i + 1;
    }
    Json::Array(out)
}

/// The report entry of a resource: it carries neither data nor a capture.
pub open spec fn resource_json(j: Json, r: Resource) -> bool {
    &&& keys(j) == seq!["identity"@, "kind"@, "data"@, "capture"@]
    &&& text_is(value_at(j, 0), r.identity@)
    &&& value_at(j, 1) == Json::Number(r.kind as u64)
    &&& value_at(j, 2) == Json::Bool(false)
    &&& value_at(j, 3) == Json::Bool(false)
}

fn resources(values: &[Resource]) -> (r: Json)
    ensures
        r matches Json::Array(items) && items@.len() == values@.len()
            && forall|i: int| 0 <= i < values@.len() ==> resource_json(#[trigger] items@[i], values@[i]),
{
    let mut out: Vec<Json> = Vec::new();
    let mut i: usize = 0;
    while i < values.len()
        invariant
            i <= values@.len(),
            out@.len() == i,
            forall|k: int| 0 <= k < i ==> resource_json(#[trigger] out@[k], values@[k]),
        decreases values@.len() - i,
    {
        let j = object(vec![
            ("identity", string(values[i].identity.as_str())),
            ("kind", Json::Number(values[i].kind as u64)),
            ("data", Json::Bool(false)),
            ("capture", Json::Bool(false)),
        ]);
        assert(keys(j) =~= seq!["identity"@, "kind"@, "data"@, "capture"@]);
        out.push(j);
        i = i + 1;
    }
    Json::Array(out)
}

/// The typed-bindings report of a world: its operations and resources, and
/// that no component was emitted.
pub fn bindings(world: &World) -> (r: Json)
    ensures
        keys(r) == seq!["schema"@, "profile"@, "outcome"@, "world"@, "imports"@, "exports"@, "resources"@,
            "build_context_hex"@, "component_emitted"@],
        text_is(value_at(r, 0), "noble-component/v1"@),
        text_is(value_at(r, 1), world.profile@),
        text_is(value_at(r, 2), "typed-bindings"@),
        text_is(value_at(r, 3), world.identity@),
        operations_json(value_at(r, 4), world.imports@),
        operations_json(value_at(r, 5), world.exports@),
        value_at(r, 6) matches Json::Array(items) && items@.len() == world.resources@.len()
            && forall|i: int| 0 <= i < world.resources@.len() ==> resource_json(#[trigger] items@[i], world.resources@[i]),
        text_is(value_at(r, 7), crate::json::hex_text(world.build_context@)),
        value_at(r, 8) == Json::Bool(false),
{
    let r = object(vec![
        ("schema", string("noble-component/v1")),
        ("profile", string(world.profile.as_str())),
        ("outcome", string("typed-bindings")),
        ("world", string(world.identity.as_str())),
        ("imports", operations(world.imports.as_slice())),
        ("exports", operations(world.exports.as_slice())),
        ("resources", resources(world.resources.as_slice())),
        ("build_context_hex", Json::String(hex(world.build_context.as_slice()))),
        ("component_emitted", Json::Bool(false)),
    ]);
    assert(keys(r) =~= seq!["schema"@, "profile"@, "outcome"@, "world"@, "imports"@, "exports"@, "resources"@,
        "build_context_hex"@, "component_emitted"@]);
    r
}

/// The report of an accepted effect claim: nothing was emitted and the guest
/// was never asked anything.
pub fn effect_accepted() -> (r: Json)
    ensures
        keys(r) == seq!["schema"@, "outcome"@, "component_emitted"@, "guest_requests"@],
        text_is(value_at(r, 0), "noble-component/v1"@),
        text_is(value_at(r, 1), "accepted"@),
        value_at(r, 2) == Json::Bool(false),
        value_at(r, 3) == Json::Number(0),
{
    let r = object(vec![
        ("schema", string("noble-component/v1")),
        ("outcome", string("accepted")),
        ("component_emitted", Json::Bool(false)),
        ("guest_requests", Json::Number(0)),
    ]);
    assert(keys(r) =~= seq!["schema"@, "outcome"@, "component_emitted"@, "guest_requests"@]);
    r
}

/// The report of a refused `component` command and its exit status.
pub fn refusal(error: &Failure) -> (r: (Json, u8))
    ensures
        keys(r.0) == seq!["schema"@, "outcome"@, "diagnostic"@, "component_emitted"@],
        text_is(value_at(r.0, 0), "noble-component/v1"@),
        text_is(value_at(r.0, 1), error.outcome.spec_name()),
        failure_json(value_at(r.0, 2), error.code@, error.message@, error.details),
        value_at(r.0, 3) == Json::Bool(false),
        r.1 == error.outcome.spec_exit(),
{
    let r = object(vec![
        ("schema", string("noble-component/v1")),
        ("outcome", string(error.outcome.name())),
        ("diagnostic", error.json()),
        ("component_emitted", Json::Bool(false)),
    ]);
    assert(keys(r) =~= seq!["schema"@, "outcome"@, "diagnostic"@, "component_emitted"@]);
    (r, error.outcome.exit())
}

/// The report entry of an emitted export: its name and the file holding
/// its source.
pub open spec fn export_json(j: Json, name: Seq<char>, index: int) -> bool {
    &&& keys(j) == seq!["name"@, "source"@]
    &&& text_is(value_at(j, 0), name)
    &&& text_is(value_at(j, 1), "export-"@ + decimal(index as nat) + ".noble"@)
}

/// The report of a compiled component: the world, the lowering's build
/// context, the component's size, each export and where its source was
/// kept, the output directory, and the pinned assembler.
pub fn compiled(world: &World, build_context: &[u8], exports: &[String], component_bytes: usize, output: &str) -> (r: Json)
    ensures
        keys(r) == seq!["schema"@, "profile"@, "outcome"@, "world"@, "component_emitted"@,
            "independent_kernel_check"@, "build_context_hex"@, "component_bytes"@, "exports"@, "output"@, "assembler"@,
            "abi"@],
        text_is(value_at(r, 0), "noble-component/v1"@),
        text_is(value_at(r, 1), world.profile@),
        text_is(value_at(r, 2), "compiled"@),
        text_is(value_at(r, 3), world.identity@),
        value_at(r, 4) == Json::Bool(true),
        value_at(r, 5) == Json::Bool(true),
        text_is(value_at(r, 6), crate::json::hex_text(build_context@)),
        value_at(r, 7) == Json::Number(component_bytes as u64),
        value_at(r, 8) matches Json::Array(items) && items@.len() == exports@.len()
            && forall|i: int| 0 <= i < exports@.len() ==> export_json(#[trigger] items@[i], exports@[i]@, i),
        text_is(value_at(r, 9), output@),
        text_is(value_at(r, 10), WASM_TOOLS@),
        text_is(value_at(r, 11), "wasm-tools-1.245.1-sync-memory32-utf8"@),
{
    let mut listed: Vec<Json> = Vec::new();
    let mut i: usize = 0;
    while i < exports.len()
        invariant
            i <= exports@.len(),
            listed@.len() == i,
            forall|k: int| 0 <= k < i ==> export_json(#[trigger] listed@[k], exports@[k]@, k),
        decreases exports@.len() - i,
    {
        let j = object(vec![("name", string(exports[i].as_str())), ("source", Json::String(export_source_name(i)))]);
        assert(keys(j) =~= seq!["name"@, "source"@]);
        listed.push(j);
        i = i + 1;
    }
    let r = object(vec![
        ("schema", string("noble-component/v1")),
        ("profile", string(world.profile.as_str())),
        ("outcome", string("compiled")),
        ("world", string(world.identity.as_str())),
        ("component_emitted", Json::Bool(true)),
        ("independent_kernel_check", Json::Bool(true)),
        ("build_context_hex", Json::String(hex(build_context))),
        ("component_bytes", Json::Number(component_bytes as u64)),
        ("exports", Json::Array(listed)),
        ("output", string(output)),
        ("assembler", string(WASM_TOOLS)),
        ("abi", string("wasm-tools-1.245.1-sync-memory32-utf8")),
    ]);
    assert(keys(r) =~= seq!["schema"@, "profile"@, "outcome"@, "world"@, "component_emitted"@,
        "independent_kernel_check"@, "build_context_hex"@, "component_bytes"@, "exports"@, "output"@, "assembler"@,
        "abi"@]);
    r
}

/// The assembler must report its pinned release.
pub fn tool_pin(version_output: &str) -> (r: Result<(), Failure>)
    ensures
        trim(version_output@) == "wasm-tools 1.245.1"@ ==> r is Ok,
        trim(version_output@) != "wasm-tools 1.245.1"@ ==> (r matches Err(f) && failed(f, Outcome::Unsupported,
            "component-tool-pin"@, "Component-Sync-Bootstrap requires wasm-tools 1.245.1"@)),
{
    let spelled = chars_of(version_output);
    let end = crate::number::trimmed_length(spelled.as_slice());
    let start = crate::number::leading_space(spelled.as_slice(), end);
    let trimmed = string_of(spelled.as_slice(), start, end);
    if text_equal(trimmed.as_str(), "wasm-tools 1.245.1") {
        Ok(())
    } else {
        Err(Failure::unsupported("component-tool-pin", owned("Component-Sync-Bootstrap requires wasm-tools 1.245.1")))
    }
}

/// An assembler run must succeed; its error output is the failure's message.
pub fn tool_step(transcript: Transcript) -> (r: Result<Transcript, Failure>)
    ensures
        transcript.succeeded ==> r == Ok::<Transcript, Failure>(transcript),
        !transcript.succeeded ==> (r matches Err(f) && failed(f, Outcome::Error, "component-assembly"@, transcript.stderr@)),
{
    if transcript.succeeded {
        Ok(transcript)
    } else {
        Err(Failure::error("component-assembly", transcript.stderr))
    }
}

/// The assembler runs that turn `module.wat` into a validated component of
/// `world`, in order.
pub open spec fn assembly_spec(world: Seq<char>) -> Seq<Seq<Seq<char>>> {
    seq![
        seq!["parse"@, "module.wat"@, "-o"@, "core.wasm"@],
        seq!["component"@, "embed"@, "--world"@, world, "--encoding"@, "utf8"@, "world.wit"@, "core.wasm"@, "-o"@,
            "embedded.wasm"@],
        seq!["component"@, "new"@, "embedded.wasm"@, "-o"@, "component.wasm"@],
        seq!["validate"@, "component.wasm"@],
    ]
}

/// The argument lists of the assembler runs, in order.
pub fn assembly(world: &str) -> (r: Vec<Vec<String>>)
    ensures
        r@.len() == 4,
        forall|i: int| 0 <= i < 4 ==> texts((#[trigger] r@[i])@) == assembly_spec(world@)[i],
{
    let parse = owned_all(&["parse", "module.wat", "-o", "core.wasm"]);
    let embed = owned_all(&["component", "embed", "--world", world, "--encoding", "utf8", "world.wit", "core.wasm", "-o", "embedded.wasm"]);
    let new = owned_all(&["component", "new", "embedded.wasm", "-o", "component.wasm"]);
    let validate = owned_all(&["validate", "component.wasm"]);
    let r = vec![parse, embed, new, validate];
    proof {
        assert(texts(r@[0]@) =~= assembly_spec(world@)[0]);
        assert(texts(r@[1]@) =~= assembly_spec(world@)[1]);
        assert(texts(r@[2]@) =~= assembly_spec(world@)[2]);
        assert(texts(r@[3]@) =~= assembly_spec(world@)[3]);
    }
    r
}

/// The files of an emitted component bundle, in the order they are written:
/// the WIT, the lowered module, the core and component binaries, the report.
pub fn bundle_files() -> (r: Vec<&'static str>)
    ensures
        r@.map_values(|s: &str| s@) == seq!["world.wit"@, "module.wat"@, "core.wasm"@, "component.wasm"@, "report.json"@],
{
    let r = vec!["world.wit", "module.wat", "core.wasm", "component.wasm", "report.json"];
    assert(r@.map_values(|s: &str| s@) =~= seq!["world.wit"@, "module.wat"@, "core.wasm"@, "component.wasm"@, "report.json"@]);
    r
}

} // verus!
