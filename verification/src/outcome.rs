//! The seven closed verification outcomes and the diagnostic carrier shared by
//! `verify`, `build`, `component` and contract admission.

use vstd::prelude::*;

use crate::json::{encoded, keys, object, string, text_is, value_at, Json};
use crate::text::owned;

verus! {

/// The protocol has seven closed outcomes; additions must select a name and
/// exit code.
#[derive(Clone, Copy, PartialEq, Eq, Structural, Debug)]
pub enum Outcome {
    Proved,
    Disproved,
    Unknown,
    Timeout,
    Unsupported,
    Error,
    NotRun,
}

impl Outcome {
    pub open spec fn spec_name(self) -> Seq<char> {
        match self {
            Outcome::Proved => "proved"@,
            Outcome::Disproved => "disproved"@,
            Outcome::Unknown => "unknown"@,
            Outcome::Timeout => "timeout"@,
            Outcome::Unsupported => "unsupported"@,
            Outcome::Error => "error"@,
            Outcome::NotRun => "not-run"@,
        }
    }

    /// The exit status of each outcome: proved 0, disproved 1, error 2,
    /// unknown 3, unsupported 4, timeout 124, not-run 0.
    pub open spec fn spec_exit(self) -> u8 {
        match self {
            Outcome::Proved | Outcome::NotRun => 0,
            Outcome::Disproved => 1,
            Outcome::Error => 2,
            Outcome::Unknown => 3,
            Outcome::Unsupported => 4,
            Outcome::Timeout => 124,
        }
    }

    pub fn name(self) -> (r: &'static str)
        ensures
            r@ == self.spec_name(),
    {
        match self {
            Outcome::Proved => "proved",
            Outcome::Disproved => "disproved",
            Outcome::Unknown => "unknown",
            Outcome::Timeout => "timeout",
            Outcome::Unsupported => "unsupported",
            Outcome::Error => "error",
            Outcome::NotRun => "not-run",
        }
    }

    pub fn exit(self) -> (r: u8)
        ensures
            r == self.spec_exit(),
    {
        match self {
            Outcome::Proved | Outcome::NotRun => 0,
            Outcome::Disproved => 1,
            Outcome::Error => 2,
            Outcome::Unknown => 3,
            Outcome::Unsupported => 4,
            Outcome::Timeout => 124,
        }
    }
}

/// Law: distinct outcomes have distinct names, so reports keep every outcome
/// distinguishable.
pub proof fn law_outcome_names_distinct(a: Outcome, b: Outcome)
    requires
        a != b,
    ensures
        a.spec_name() != b.spec_name(),
{
    reveal_strlit("proved");
    reveal_strlit("disproved");
    reveal_strlit("unknown");
    reveal_strlit("timeout");
    reveal_strlit("unsupported");
    reveal_strlit("error");
    reveal_strlit("not-run");
    assert(a.spec_name().len() != b.spec_name().len() || a.spec_name()[0] != b.spec_name()[0]
        || a.spec_name()[1] != b.spec_name()[1] || a.spec_name()[2] != b.spec_name()[2]);
}

/// A refusal or failure: its outcome, a stable code, a message and details.
pub struct Failure {
    pub outcome: Outcome,
    pub code: &'static str,
    pub message: String,
    pub details: Json,
}

/// `j` is the diagnostic object of `f`: its code, message and details.
pub open spec fn failure_json(j: Json, code: Seq<char>, message: Seq<char>, details: Json) -> bool {
    &&& keys(j) == seq!["code"@, "message"@, "details"@]
    &&& text_is(value_at(j, 0), code)
    &&& text_is(value_at(j, 1), message)
    &&& encoded(value_at(j, 2)) == encoded(details)
}

impl Failure {
    pub fn error(code: &'static str, message: String) -> (r: Failure)
        ensures
            r.outcome == Outcome::Error,
            r.code == code,
            r.message == message,
            r.details is Null,
    {
        Failure { outcome: Outcome::Error, code, message, details: Json::Null }
    }

    pub fn unsupported(code: &'static str, message: String) -> (r: Failure)
        ensures
            r.outcome == Outcome::Unsupported,
            r.code == code,
            r.message == message,
            r.details is Null,
    {
        Failure { outcome: Outcome::Unsupported, code, message, details: Json::Null }
    }

    pub fn timeout(message: &str) -> (r: Failure)
        ensures
            r.outcome == Outcome::Timeout,
            r.code@ == "timeout"@,
            r.message@ == message@,
            r.details is Null,
    {
        Failure { outcome: Outcome::Timeout, code: "timeout", message: owned(message), details: Json::Null }
    }

    pub fn json(&self) -> (r: Json)
        ensures
            failure_json(r, self.code@, self.message@, self.details),
    {
        let r = object(vec![
            ("code", string(self.code)),
            ("message", string(self.message.as_str())),
            ("details", self.details.copy()),
        ]);
        assert(keys(r) =~= seq!["code"@, "message"@, "details"@]);
        r
    }
}

} // verus!
