//! Routing a command line to its command, and the internal budget smoke
//! route that takes the rest.

use vstd::prelude::*;

use crate::arguments::{argument_is, raw, text};
use crate::number::{parse_unsigned, parsed};
use crate::text::chars_of;
use crate::utf8::decode;

verus! {

/// The command a command line selects by its first argument.
#[derive(Clone, Copy, PartialEq, Eq, Structural, Debug)]
pub enum Command {
    Component,
    Source,
    Backend,
    Verify,
    Build,
    Companions,
    Help,
    Budget,
}

/// The command that the first argument names; anything else is the budget
/// smoke route.
pub open spec fn command_of(args: Seq<Seq<u8>>) -> Command {
    if args.len() == 0 {
        Command::Budget
    } else {
        let first = text(args[0]);
        if first == Some("component"@) {
            Command::Component
        } else if first == Some("run"@) || first == Some("session"@) || first == Some("compile"@) {
            Command::Source
        } else if first == Some("wasm-experiment"@) {
            Command::Backend
        } else if first == Some("verify"@) || first == Some("explain-proof"@) {
            Command::Verify
        } else if first == Some("build"@) {
            Command::Build
        } else if first == Some("companions"@) {
            Command::Companions
        } else if first == Some("--help"@) {
            Command::Help
        } else {
            Command::Budget
        }
    }
}

/// Selects the command of a command line (without the program name).
pub fn route(arguments: &[Vec<u8>]) -> (r: Command)
    ensures
        r == command_of(raw(arguments@)),
{
    if arguments.len() == 0 {
        return Command::Budget;
    }
    let first = arguments[0].as_slice();
    assert(raw(arguments@)[0] == arguments@[0]@);
    if argument_is(first, "component") {
        Command::Component
    } else if argument_is(first, "run") || argument_is(first, "session") || argument_is(first, "compile") {
        Command::Source
    } else if argument_is(first, "wasm-experiment") {
        Command::Backend
    } else if argument_is(first, "verify") || argument_is(first, "explain-proof") {
        Command::Verify
    } else if argument_is(first, "build") {
        Command::Build
    } else if argument_is(first, "companions") {
        Command::Companions
    } else if argument_is(first, "--help") {
        Command::Help
    } else {
        Command::Budget
    }
}

/// Why the budget smoke route refused its arguments.
#[derive(Clone, Copy, PartialEq, Eq, Structural, Debug)]
pub enum InputError {
    Usage,
    Budget,
}

/// The budget the smoke route reads: exactly the route name and one unsigned
/// 32-bit decimal number.
pub open spec fn budget_spec(args: Seq<Seq<u8>>) -> Result<u32, InputError> {
    if args.len() == 0 || args.len() > 2 || text(args[0]) != Some("--internal-budget-smoke"@) {
        Err(InputError::Usage)
    } else if args.len() == 1 {
        Err(InputError::Budget)
    } else {
        match text(args[1]) {
            Some(t) => match parsed(t, u32::MAX as nat) {
                Some(n) => Ok(n as u32),
                None => Err(InputError::Budget),
            },
            None => Err(InputError::Budget),
        }
    }
}

/// Reads the arguments of the budget smoke route.
pub fn parse_budget(arguments: &[Vec<u8>]) -> (r: Result<u32, InputError>)
    ensures
        r == budget_spec(raw(arguments@)),
{
    let n = arguments.len();
    if n == 0 || n > 2 || !argument_is(arguments[0].as_slice(), "--internal-budget-smoke") {
        return Err(InputError::Usage);
    }
    if n == 1 {
        return Err(InputError::Budget);
    }
    assert(raw(arguments@)[1] == arguments@[1]@);
    let t = match decode(arguments[1].as_slice()) {
        Some(t) => t,
        None => return Err(InputError::Budget),
    };
    let spelled = chars_of(t.as_str());
    match parse_unsigned(spelled.as_slice(), 0xffff_ffffu64) {
        Some(b) => Ok(b as u32),
        None => Err(InputError::Budget),
    }
}

/// The message of a refused smoke-route command line.
pub fn input_error_message(error: InputError) -> (r: &'static str)
    ensures
        error == InputError::Usage ==> r@ == "usage: noble --internal-budget-smoke <u32>"@,
        error == InputError::Budget ==> r@ == "budget must be an unsigned 32-bit integer"@,
{
    match error {
        InputError::Usage => "usage: noble --internal-budget-smoke <u32>",
        InputError::Budget => "budget must be an unsigned 32-bit integer",
    }
}

} // verus!
