//! Decoding the arguments of `run`, `compile` and `session`. Arguments are
//! raw operating-system bytes; paths keep them, flag names and values must be
//! UTF-8.

use vstd::prelude::*;

use crate::number::{parse_unsigned, parsed};
use crate::session::{ErrorContext, Failure};
use crate::text::{owned, text_equal};
use crate::utf8::decode;
use vstd::utf8::{decode_utf8, valid_utf8};

verus! {

pub const USAGE: &'static str = "usage:
  noble run SOURCE [--opt off|on] [--emit NEW_DIR]
  noble compile SOURCE [--input-type I64|Bool|Text|Unit ...]
  noble session [--framed] [--opt off|on] [--emit NEW_DIR]
  Preparation limits: --source-bytes N --source-nodes N --source-depth N --source-work N

Core-Bootstrap uses the selected managed-linear-memory backend.
run checks one complete file before executing any of it.
session reads one source submission per line; --framed reads a decimal byte count,
newline, then exactly that many source bytes (permits multiline and invalid UTF-8).
Reports are JSON lines, ordered bottom-to-top. A static refusal preserves the
session; a runtime trap or exhausted execution limit ends it with its effect prefix.
--emit retains source, WAT, Wasm, tool bindings and runtime observations in a new
directory. No file is overwritten. Missing or incompatible tools fail closed.
compile emits independently accepted WAT, not an execution report; input types
are ordered bottom-to-top and values are supplied only after module compilation.";

/// The frontend's preparation budgets.
#[derive(Clone, Copy, PartialEq, Eq, Structural, Debug)]
pub struct Limits {
    pub bytes: u32,
    pub nodes: u32,
    pub depth: u32,
    pub work: u32,
}

/// A value type a compiled module takes as input.
#[derive(Clone, Copy, PartialEq, Eq, Structural, Debug)]
pub enum InputType {
    I64,
    Bool,
    Text,
    Unit,
}

/// The decoded options of a source command.
pub struct Options {
    pub source: Option<Vec<u8>>,
    pub compile_only: bool,
    pub inputs: Vec<InputType>,
    pub framed: bool,
    pub optimized: bool,
    pub emit: Option<Vec<u8>>,
    pub limits: Limits,
}

/// The options as plain values.
pub struct OptionsView {
    pub source: Option<Seq<u8>>,
    pub compile_only: bool,
    pub inputs: Seq<InputType>,
    pub framed: bool,
    pub optimized: bool,
    pub emit: Option<Seq<u8>>,
    pub limits: Limits,
}

/// The bytes of an optional path.
pub open spec fn path_view(p: Option<Vec<u8>>) -> Option<Seq<u8>> {
    match p {
        Some(v) => Some(v@),
        None => None,
    }
}

impl View for Options {
    type V = OptionsView;

    open spec fn view(&self) -> OptionsView {
        OptionsView {
            source: path_view(self.source),
            compile_only: self.compile_only,
            inputs: self.inputs@,
            framed: self.framed,
            optimized: self.optimized,
            emit: path_view(self.emit),
            limits: self.limits,
        }
    }
}

/// The bytes of each argument.
pub open spec fn raw(arguments: Seq<Vec<u8>>) -> Seq<Seq<u8>> {
    arguments.map_values(|a: Vec<u8>| a@)
}

/// An argument as text, when it is UTF-8 (`OsStr::to_str`).
pub open spec fn text(a: Seq<u8>) -> Option<Seq<char>> {
    if valid_utf8(a) {
        Some(decode_utf8(a))
    } else {
        None
    }
}

/// The input type a flag value names.
pub open spec fn input_type(t: Seq<char>) -> Option<InputType> {
    if t == "I64"@ {
        Some(InputType::I64)
    } else if t == "Bool"@ {
        Some(InputType::Bool)
    } else if t == "Text"@ {
        Some(InputType::Text)
    } else if t == "Unit"@ {
        Some(InputType::Unit)
    } else {
        None
    }
}

/// A budget override: a decimal number no larger than the default budget.
pub open spec fn limit_value(value: Seq<u8>, maximum: u32) -> Option<u32> {
    match text(value) {
        None => None,
        Some(t) => match parsed(t, u32::MAX as nat) {
            Some(n) => if n <= maximum { Some(n as u32) } else { None },
            None => None,
        },
    }
}

/// The options after the flag `name` with `value`, or `None` for a usage error.
pub open spec fn set_option(o: OptionsView, name: Seq<char>, value: Seq<u8>, maximum: Limits) -> Option<OptionsView> {
    if name == "--input-type"@ && o.compile_only {
        match text(value) {
            Some(t) => match input_type(t) {
                Some(ty) => if o.inputs.len() >= 128 { None } else { Some(OptionsView { inputs: o.inputs.push(ty), ..o }) },
                None => None,
            },
            None => None,
        }
    } else if name == "--opt"@ {
        match text(value) {
            Some(t) => if t == "off"@ {
                Some(OptionsView { optimized: false, ..o })
            } else if t == "on"@ {
                Some(OptionsView { optimized: true, ..o })
            } else {
                None
            },
            None => None,
        }
    } else if name == "--emit"@ {
        Some(OptionsView { emit: Some(value), ..o })
    } else if name == "--source-bytes"@ {
        match limit_value(value, maximum.bytes) {
            Some(n) => Some(OptionsView { limits: Limits { bytes: n, ..o.limits }, ..o }),
            None => None,
        }
    } else if name == "--source-nodes"@ {
        match limit_value(value, maximum.nodes) {
            Some(n) => Some(OptionsView { limits: Limits { nodes: n, ..o.limits }, ..o }),
            None => None,
        }
    } else if name == "--source-depth"@ {
        match limit_value(value, maximum.depth) {
            Some(n) => Some(OptionsView { limits: Limits { depth: n, ..o.limits }, ..o }),
            None => None,
        }
    } else if name == "--source-work"@ {
        match limit_value(value, maximum.work) {
            Some(n) => Some(OptionsView { limits: Limits { work: n, ..o.limits }, ..o }),
            None => None,
        }
    } else {
        None
    }
}

/// The flags from position `at`, given the names already used (`seen`):
/// each flag but `--input-type` at most once and at most seven of them, and
/// the empty name never.
pub open spec fn parse_flags(args: Seq<Seq<u8>>, at: int, seen: Seq<Seq<char>>, o: OptionsView, is_session: bool, maximum: Limits) -> Option<OptionsView>
    decreases args.len() - at,
{
    if at < 0 || at >= args.len() {
        Some(o)
    } else {
        match text(args[at]) {
            None => None,
            Some(name) => {
                let repeatable = name == "--input-type"@;
                if !repeatable && (name.len() == 0 || seen.contains(name) || seen.len() >= 7) {
                    None
                } else {
                    let used = if repeatable { seen } else { seen.push(name) };
                    if name == "--framed"@ && is_session {
                        parse_flags(args, at + 1, used, OptionsView { framed: true, ..o }, is_session, maximum)
                    } else if at + 1 >= args.len() {
                        None
                    } else {
                        match set_option(o, name, args[at + 1], maximum) {
                            None => None,
                            Some(next) => parse_flags(args, at + 2, used, next, is_session, maximum),
                        }
                    }
                }
            },
        }
    }
}

/// The options of a source command line, or `None` for a usage error. The
/// command is the first argument; all but `session` take a source path next.
pub open spec fn parse_spec(args: Seq<Seq<u8>>, maximum: Limits) -> Option<OptionsView> {
    let is_session = args.len() > 0 && text(args[0]) == Some("session"@);
    let initial = OptionsView {
        source: None,
        compile_only: args.len() > 0 && text(args[0]) == Some("compile"@),
        inputs: Seq::empty(),
        framed: false,
        optimized: false,
        emit: None,
        limits: maximum,
    };
    if is_session {
        parse_flags(args, 1, Seq::empty(), initial, true, maximum)
    } else if args.len() < 2 {
        None
    } else {
        parse_flags(args, 2, Seq::empty(), OptionsView { source: Some(args[1]), ..initial }, false, maximum)
    }
}

/// A usage failure of a source command.
pub open spec fn is_usage(f: Failure) -> bool {
    &&& f.context.stage@ == "arguments"@
    &&& f.context.outcome@ == "invalid-input"@
    &&& f.message@ == USAGE@
}

pub fn usage() -> (r: Failure)
    ensures
        is_usage(r),
{
    Failure::new(ErrorContext { stage: "arguments", outcome: "invalid-input" }, owned(USAGE))
}

/// A copy of some bytes.
pub fn bytes_of(v: &[u8]) -> (r: Vec<u8>)
    ensures
        r@ == v@,
{
    let mut r: Vec<u8> = Vec::new();
    let mut i: usize = 0;
    while i < v.len()
        invariant
            i <= v@.len(),
            r@ == v@.subrange(0, i as int),
        decreases v@.len() - i,
    {
        r.push(v[i]);
        assert(r@ =~= v@.subrange(0, i + 1));
        i = i + 1;
    }
    assert(v@.subrange(0, v@.len() as int) =~= v@);
    r
}

/// Whether an argument is exactly the given text.
pub fn argument_is(a: &[u8], t: &str) -> (r: bool)
    ensures
        r == (text(a@) == Some(t@)),
{
    match decode(a) {
        Some(s) => text_equal(s.as_str(), t),
        None => false,
    }
}

fn limit(value: &[u8], maximum: u32) -> (r: Option<u32>)
    ensures
        r == limit_value(value@, maximum),
{
    let t = match decode(value) {
        Some(t) => t,
        None => return None,
    };
    let spelled = crate::text::chars_of(t.as_str());
    match parse_unsigned(spelled.as_slice(), 0xffff_ffffu64) {
        Some(n) => if n <= maximum as u64 { Some(n as u32) } else { None },
        None => None,
    }
}

/// Applies the flag `name` with `value`; false (and the options unchanged
/// in the sense that they are discarded) on a usage error.
fn set(options: &mut Options, name: &str, value: &[u8], maximum: Limits) -> (ok: bool)
    ensures
        ok == set_option(old(options)@, name@, value@, maximum) is Some,
        ok ==> set_option(old(options)@, name@, value@, maximum) == Some(final(options)@),
{
    if text_equal(name, "--input-type") && options.compile_only {
        let ty = if argument_is(value, "I64") {
            InputType::I64
        } else if argument_is(value, "Bool") {
            InputType::Bool
        } else if argument_is(value, "Text") {
            InputType::Text
        } else if argument_is(value, "Unit") {
            InputType::Unit
        } else {
            proof {
                reveal_strlit("I64");
                reveal_strlit("Bool");
                reveal_strlit("Text");
                reveal_strlit("Unit");
            }
            return false;
        };
        if options.inputs.len() >= 128 {
            return false;
        }
        options.inputs.push(ty);
        true
    } else if text_equal(name, "--opt") {
        if argument_is(value, "off") {
            options.optimized = false;
            true
        } else if argument_is(value, "on") {
            options.optimized = true;
            true
        } else {
            false
        }
    } else if text_equal(name, "--emit") {
        options.emit = Some(bytes_of(value));
        true
    } else if text_equal(name, "--source-bytes") {
        match limit(value, maximum.bytes) {
            Some(n) => {
                options.limits.bytes = n;
                true
            },
            None => false,
        }
    } else if text_equal(name, "--source-nodes") {
        match limit(value, maximum.nodes) {
            Some(n) => {
                options.limits.nodes = n;
                true
            },
            None => false,
        }
    } else if text_equal(name, "--source-depth") {
        match limit(value, maximum.depth) {
            Some(n) => {
                options.limits.depth = n;
                true
            },
            None => false,
        }
    } else if text_equal(name, "--source-work") {
        match limit(value, maximum.work) {
            Some(n) => {
                options.limits.work = n;
                true
            },
            None => false,
        }
    } else {
        false
    }
}

/// Whether `name` is among the names already used.
fn used(seen: &Vec<Vec<char>>, name: &[char]) -> (r: bool)
    ensures
        r == seen@.map_values(|n: Vec<char>| n@).contains(name@),
{
    let ghost names = seen@.map_values(|n: Vec<char>| n@);
    let mut i: usize = 0;
    while i < seen.len()
        invariant
            names == seen@.map_values(|n: Vec<char>| n@),
            i <= seen@.len(),
            forall|k: int| 0 <= k < i ==> (#[trigger] seen@[k])@ != name@,
        decreases seen@.len() - i,
    {
        if crate::text::chars_equal(seen[i].as_slice(), name) {
            assert(names[i as int] == name@);
            return true;
        }
        i = i + 1;
    }
    assert forall|k: int| 0 <= k < names.len() implies names[k] != name@ by {
        assert(names[k] == seen@[k]@);
    }
    false
}

/// Decodes the arguments of `run`, `compile` or `session` (the first
/// argument names the command), with `maximum` the frontend's default
/// budgets, which overrides may lower but not raise.
pub fn parse(arguments: &[Vec<u8>], maximum: Limits) -> (r: Result<Options, Failure>)
    ensures
        match parse_spec(raw(arguments@), maximum) {
            Some(v) => r matches Ok(o) && o@ == v,
            None => r matches Err(f) && is_usage(f),
        },
{
    let ghost args = raw(arguments@);
    let n = arguments.len();
    let is_session = n > 0 && argument_is(arguments[0].as_slice(), "session");
    let compile_only = n > 0 && argument_is(arguments[0].as_slice(), "compile");
    let mut options = Options {
        source: None,
        compile_only,
        inputs: Vec::new(),
        framed: false,
        optimized: false,
        emit: None,
        limits: maximum,
    };
    let mut at: usize = 1;
    if !is_session {
        if n < 2 {
            return Err(usage());
        }
        options.source = Some(bytes_of(arguments[1].as_slice()));
        at = 2;
    }
    assert(options@.inputs =~= Seq::<InputType>::empty());
    let mut seen: Vec<Vec<char>> = Vec::new();
    assert(seen@.map_values(|n: Vec<char>| n@) =~= Seq::<Seq<char>>::empty());
    while at < n
        invariant
            n == arguments@.len() == args.len(),
            args == raw(arguments@),
            forall|k: int| 0 <= k < n ==> (#[trigger] arguments@[k])@ == args[k],
            at <= n,
            options.compile_only == (args.len() > 0 && text(args[0]) == Some("compile"@)),
            parse_spec(args, maximum) == parse_flags(args, at as int, seen@.map_values(|n: Vec<char>| n@),
                options@, is_session, maximum),
        decreases n - at,
    {
        assert(arguments@[at as int]@ == args[at as int]);
        let name = match decode(arguments[at].as_slice()) {
            Some(name) => name,
            None => return Err(usage()),
        };
        let ghost names = seen@.map_values(|n: Vec<char>| n@);
        let spelled = crate::text::chars_of(name.as_str());
        let repeatable = text_equal(name.as_str(), "--input-type");
        if !repeatable {
            if spelled.len() == 0 || used(&seen, spelled.as_slice()) || seen.len() >= 7 {
                return Err(usage());
            }
            seen.push(spelled);
            assert(seen@.map_values(|n: Vec<char>| n@) =~= names.push(name@));
        }
        at = at + 1;
        if text_equal(name.as_str(), "--framed") && is_session {
            options.framed = true;
        } else {
            if at >= n {
                return Err(usage());
            }
            assert(arguments@[at as int]@ == args[at as int]);
            if !set(&mut options, name.as_str(), arguments[at].as_slice(), maximum) {
                return Err(usage());
            }
            at = at + 1;
        }
    }
    Ok(options)
}

} // verus!
