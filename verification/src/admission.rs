//! Shared consumer-side contract admission: the refusals that keep the
//! protocol's seven outcomes, what an evidence offer holds, and the report
//! entries of a refusal or of accepted evidence.

use vstd::prelude::*;

use crate::companions::EvidenceClass;
use crate::json::{encoded, keys, object, string, text_is, value_at, Json};
use crate::outcome::{failure_json, Failure, Outcome};
use crate::session::DiagnosticKind;
use crate::text::owned;
use crate::utf8::decode;
use crate::verify_report::preparation_outcome;
use vstd::utf8::{decode_utf8, valid_utf8};

verus! {

/// Evidence the consumer's own independent recheck accepted.
pub struct Evidence {
    pub axioms: Vec<String>,
    pub tools: Json,
}

/// Why admission did not accept evidence: one of the seven outcomes (a
/// missing proof is `unknown`, a rejected proof term `error`, an unavailable
/// sandbox `unsupported`, an expired budget `timeout`), none a claim about
/// the proposition.
pub struct Refusal {
    pub outcome: Outcome,
    pub code: &'static str,
    pub message: String,
    pub details: Json,
    pub verification_ran: bool,
    /// Whether the ordinary subject still typed despite the refusal.
    pub ordinary_typing: bool,
}

impl Refusal {
    pub fn new(outcome: Outcome, code: &'static str, message: String) -> (r: Refusal)
        ensures
            r.outcome == outcome,
            r.code == code,
            r.message == message,
            r.details is Null,
            !r.verification_ran,
            !r.ordinary_typing,
    {
        Refusal { outcome, code, message, details: Json::Null, verification_ran: false, ordinary_typing: false }
    }

    /// A failure of the verification pipeline, keeping its own outcome,
    /// code, message and details.
    pub fn verification(failure: Failure) -> (r: Refusal)
        ensures
            r.outcome == failure.outcome,
            r.code == failure.code,
            r.message == failure.message,
            r.details == failure.details,
            r.verification_ran,
            r.ordinary_typing,
    {
        Refusal {
            outcome: failure.outcome,
            code: failure.code,
            message: failure.message,
            details: failure.details,
            verification_ran: true,
            ordinary_typing: true,
        }
    }

    /// The seven-outcome spelling of this refusal.
    pub fn claim_outcome(&self) -> (r: &'static str)
        ensures
            r@ == self.outcome.spec_name(),
    {
        self.outcome.name()
    }
}

/// The refusal of a contract the frontend would not prepare.
pub fn preparation_refusal(kind: DiagnosticKind, message: String, has_ordinary_typing: bool) -> (r: Refusal)
    ensures
        r.outcome == preparation_outcome(kind).0,
        r.code@ == preparation_outcome(kind).1,
        r.message == message,
        r.details is Null,
        !r.verification_ran,
        r.ordinary_typing == has_ordinary_typing,
{
    let mut refusal = match kind {
        DiagnosticKind::Unsupported => Refusal::new(Outcome::Unsupported, "contract-unsupported", message),
        DiagnosticKind::Invalid => Refusal::new(Outcome::Error, "contract-invalid", message),
        DiagnosticKind::Exhausted => Refusal::new(Outcome::Error, "preparation-limit", message),
        DiagnosticKind::Internal => Refusal::new(Outcome::Error, "preparation-internal", message),
    };
    refusal.ordinary_typing = has_ordinary_typing;
    refusal
}

/// What an evidence offer carries.
pub enum Payload {
    /// Inert proof data: the declaration's bytes.
    Declaration(Vec<u8>),
    /// A live resource.
    Resource,
    /// A live service capability.
    ServiceCapability,
}

/// An evidence offer: its class, whether it refutes, and its payload.
pub struct Offer {
    pub class: EvidenceClass,
    pub refutation: bool,
    pub payload: Payload,
}

/// An offer of the given bytes as a proof, or as a refutation.
pub open spec fn offers(o: Offer, bytes: Seq<u8>, is_refutation: bool) -> bool {
    &&& o.refutation == is_refutation
    &&& o.class == (if is_refutation { EvidenceClass::LeanRefutation } else { EvidenceClass::LeanExact })
    &&& o.payload matches Payload::Declaration(d)
    &&& d@ == bytes
}

/// The offer made for an optional proof: a refutation or exact proof of its
/// bytes, or an empty exact offer when there is none.
pub fn offer(evidence: Option<(&[u8], bool)>) -> (r: Offer)
    ensures
        evidence matches Some((bytes, is_refutation)) ==> offers(r, bytes@, is_refutation),
        evidence is None ==> offers(r, Seq::empty(), false),
{
    let (declaration, is_refutation) = match evidence {
        Some((bytes, is_refutation)) => (crate::arguments::bytes_of(bytes), is_refutation),
        None => (Vec::new(), false),
    };
    Offer {
        class: if is_refutation { EvidenceClass::LeanRefutation } else { EvidenceClass::LeanExact },
        refutation: is_refutation,
        payload: Payload::Declaration(declaration),
    }
}

/// The proof source an offer carries: only inert UTF-8 declarations.
pub fn proof_source(offer: &Offer) -> (r: Result<String, Failure>)
    ensures
        !(offer.payload is Declaration) ==> (r matches Err(f) && f.outcome == Outcome::Error
            && f.code@ == "live-capability-in-evidence"@ && f.message@ == "evidence must contain only inert proof data"@),
        offer.payload matches Payload::Declaration(d) ==> (!valid_utf8(d@) ==> (r matches Err(f)
            && f.outcome == Outcome::Error && f.code@ == "proof-encoding"@ && f.message@ == "proof source must be UTF-8"@)),
        offer.payload matches Payload::Declaration(d) ==> (valid_utf8(d@) ==> (r matches Ok(s) && s@ == decode_utf8(d@))),
{
    match &offer.payload {
        Payload::Declaration(bytes) => match decode(bytes.as_slice()) {
            Some(s) => Ok(s),
            None => Err(Failure::error("proof-encoding", owned("proof source must be UTF-8"))),
        },
        _ => Err(Failure::error("live-capability-in-evidence", owned("evidence must contain only inert proof data"))),
    }
}

/// The class of evidence the recheck accepted.
pub fn accepted_class(refutation: bool) -> (r: EvidenceClass)
    ensures
        r == if refutation { EvidenceClass::LeanRefutation } else { EvidenceClass::LeanExact },
{
    if refutation { EvidenceClass::LeanRefutation } else { EvidenceClass::LeanExact }
}

/// The toolchain identities of a report where no proof ran.
pub fn no_tools() -> (r: Json)
    ensures
        r is Null,
{
    Json::Null
}

/// The toolchain identities of accepted evidence.
pub fn tools_of(evidence: &Evidence) -> (r: Json)
    ensures
        encoded(r) == encoded(evidence.tools),
{
    evidence.tools.copy()
}

/// A refusal as a diagnostic entry.
pub fn refusal_json(refusal: &Refusal) -> (r: Json)
    ensures
        failure_json(r, refusal.code@, refusal.message@, refusal.details),
{
    let r = object(vec![
        ("code", string(refusal.code)),
        ("message", string(refusal.message.as_str())),
        ("details", refusal.details.copy()),
    ]);
    assert(keys(r) =~= seq!["code"@, "message"@, "details"@]);
    r
}

} // verus!
