//! Bounded input framing: reading one line under a byte budget, the decimal
//! frame header of a framed session, the byte budget of a source file, and the
//! reply header of the engine worker's protocol.

use vstd::prelude::*;

use crate::number::{parse_unsigned, parsed, split_words, trim_end, trimmed_length, words};
use crate::session::{ErrorContext, Failure, Report};
use crate::text::{chars_of, owned, string_of};
use crate::utf8::decode;
use vstd::utf8::{decode_utf8, valid_utf8};

verus! {

/// The largest reply body the engine worker may announce.
pub const OUTPUT_BYTES: u32 = 4_194_304;

/// Input beyond the byte budget.
pub fn exhausted() -> (r: Failure)
    ensures
        r.context.stage@ == "parse"@,
        r.context.outcome@ == "exhausted"@,
        r.message@ == "source byte limit exceeded"@,
{
    Failure::new(ErrorContext { stage: "parse", outcome: "exhausted" }, owned("source byte limit exceeded"))
}

/// An input or output error of the shell, with the error's own text.
pub fn io_error(message: String) -> (r: Failure)
    ensures
        r.context.stage@ == "shell"@,
        r.context.outcome@ == "internal-failure"@,
        r.message == message,
{
    Failure::new(ErrorContext { stage: "shell", outcome: "internal-failure" }, message)
}

/// What one look at the buffered input decided.
#[derive(PartialEq, Eq, Structural, Debug)]
pub enum LineStep {
    /// The input has ended; the line is what was gathered (none if nothing).
    Ended,
    /// This many bytes were taken into the line, which is not complete yet.
    Partial(usize),
    /// This many bytes were taken into the line, which now ends in a newline.
    Complete(usize),
}

/// The number of bytes a line takes from `available`: through the first
/// newline, or all of them.
pub open spec fn line_take(available: Seq<u8>) -> int {
    if exists|i: int| 0 <= i < available.len() && available[i] == 10u8 {
        (choose|i: int| 0 <= i < available.len() && available[i] == 10u8
            && forall|k: int| 0 <= k < i ==> available[k] != 10u8) + 1
    } else {
        available.len() as int
    }
}

/// One step of reading a line of at most `limit` bytes: `line` holds what was
/// gathered so far, `available` is the buffered input. The bytes the step takes
/// are to be consumed from the input.
pub fn read_line(line: &mut Vec<u8>, available: &[u8], limit: u32) -> (r: Result<LineStep, Failure>)
    requires
        old(line)@.len() <= limit,
    ensures
        available@.len() == 0 ==> r == Ok::<LineStep, Failure>(LineStep::Ended) && final(line)@ == old(line)@,
        available@.len() > 0 && old(line)@.len() + line_take(available@) > limit ==> (r matches Err(f)
            && f.context.stage@ == "parse"@ && f.context.outcome@ == "exhausted"@
            && f.message@ == "source byte limit exceeded"@),
        available@.len() > 0 && old(line)@.len() + line_take(available@) <= limit ==> {
            &&& final(line)@ == old(line)@ + available@.subrange(0, line_take(available@))
            &&& if available@[line_take(available@) - 1] == 10u8 {
                r == Ok::<LineStep, Failure>(LineStep::Complete(line_take(available@) as usize))
            } else {
                r == Ok::<LineStep, Failure>(LineStep::Partial(line_take(available@) as usize))
            }
        },
        r is Ok ==> final(line)@.len() <= limit,
{
    let n = available.len();
    if n == 0 {
        return Ok(LineStep::Ended);
    }
    let mut count: usize = 0;
    while count < n && available[count] != 10u8
        invariant
            n == available@.len(),
            count <= n,
            forall|k: int| 0 <= k < count ==> available@[k] != 10u8,
        decreases n - count,
    {
        count = count + 1;
    }
    proof {
        if count < n {
            assert(exists|i: int| 0 <= i < available@.len() && available@[i] == 10u8);
            let c = choose|i: int| 0 <= i < available@.len() && available@[i] == 10u8
                && forall|k: int| 0 <= k < i ==> available@[k] != 10u8;
            assert(available@[count as int] == 10u8);
            if c < count {
                assert(available@[c] != 10u8);
            }
            if c > count {
                assert(available@[count as int] != 10u8);
            }
            assert(c == count);
        } else {
            assert(!exists|i: int| 0 <= i < available@.len() && available@[i] == 10u8);
        }
    }
    let take = if count < n { count + 1 } else { n };
    assert(take == line_take(available@));
    if take as u64 > limit as u64 - line.len() as u64 {
        return Err(exhausted());
    }
    let mut i: usize = 0;
    let ghost start = line@;
    while i < take
        invariant
            take <= n == available@.len(),
            i <= take,
            line@ == start + available@.subrange(0, i as int),
        decreases take - i,
    {
        line.push(available[i]);
        assert(line@ =~= start + available@.subrange(0, i + 1));
        i = i + 1;
    }
    if available[take - 1] == 10u8 {
        Ok(LineStep::Complete(take))
    } else {
        Ok(LineStep::Partial(take))
    }
}

/// The byte count a frame header announces: UTF-8 text holding an unsigned
/// 32-bit decimal number, perhaps followed by whitespace.
pub open spec fn frame_count(header: Seq<u8>) -> Option<nat> {
    if !valid_utf8(header) {
        None
    } else {
        parsed(trim_end(decode_utf8(header)), u32::MAX as nat)
    }
}

/// The length of the frame that `header` announces, within `limit` bytes.
pub fn frame_length(header: &[u8], limit: u32) -> (r: Result<usize, Failure>)
    ensures
        frame_count(header@) is None ==> (r matches Err(f) && f.context.stage@ == "parse"@
            && f.context.outcome@ == "invalid-input"@ && f.message@ == "invalid source frame byte count"@),
        frame_count(header@) matches Some(n) ==> (n > limit ==> (r matches Err(f)
            && f.context.stage@ == "parse"@ && f.context.outcome@ == "exhausted"@)),
        frame_count(header@) matches Some(n) ==> (n <= limit ==> (r matches Ok(count) && count == n)),
{
    let invalid = Failure::new(ErrorContext { stage: "parse", outcome: "invalid-input" }, owned("invalid source frame byte count"));
    let text = match decode(header) {
        Some(text) => text,
        None => return Err(invalid),
    };
    let spelled = chars_of(text.as_str());
    let kept = trimmed_length(spelled.as_slice());
    let trimmed = string_of(spelled.as_slice(), 0, kept);
    let digits = chars_of(trimmed.as_str());
    let count = match parse_unsigned(digits.as_slice(), 0xffff_ffffu64) {
        Some(count) => count,
        None => return Err(invalid),
    };
    if count > limit as u64 {
        return Err(exhausted());
    }
    Ok(count as usize)
}

/// A whole file's bytes, read up to one byte past `limit`, provided they fit.
pub fn bounded(source: Vec<u8>, limit: u32) -> (r: Result<Vec<u8>, Failure>)
    ensures
        source@.len() <= limit ==> r == Ok::<Vec<u8>, Failure>(source),
        source@.len() > limit ==> (r matches Err(f) && f.context.stage@ == "parse"@
            && f.context.outcome@ == "exhausted"@),
{
    if source.len() as u64 > limit as u64 {
        return Err(exhausted());
    }
    Ok(source)
}

/// The engine worker broke its bounded protocol.
pub fn protocol_error() -> (r: Failure)
    ensures
        r.context.stage@ == "wasm"@,
        r.context.outcome@ == "internal-failure"@,
        r.message@ == "invalid bounded engine-worker protocol"@,
{
    Failure::new(ErrorContext { stage: "wasm", outcome: "internal-failure" }, owned("invalid bounded engine-worker protocol"))
}

/// The outcome and body length a reply header announces: two words, the
/// second an unsigned 32-bit number no larger than the reply limit.
pub open spec fn reply_announces(header: Seq<u8>) -> Option<(Seq<char>, nat)> {
    if !valid_utf8(header) {
        None
    } else {
        let w = words(decode_utf8(header));
        if w.len() != 2 {
            None
        } else {
            match parsed(w[1], u32::MAX as nat) {
                Some(n) => if n <= OUTPUT_BYTES { Some((w[0], n)) } else { None },
                None => None,
            }
        }
    }
}

/// Reads a reply header of the engine worker.
pub fn reply_header(header: &[u8]) -> (r: Result<(String, usize), Failure>)
    ensures
        reply_announces(header@) is None ==> (r matches Err(f) && f.context.stage@ == "wasm"@
            && f.context.outcome@ == "internal-failure"@ && f.message@ == "invalid bounded engine-worker protocol"@),
        reply_announces(header@) matches Some((outcome, n)) ==> (r matches Ok((o, count)) && o@ == outcome
            && count == n),
{
    let text = match decode(header) {
        Some(text) => text,
        None => return Err(protocol_error()),
    };
    let spelled = chars_of(text.as_str());
    let w = split_words(spelled.as_slice());
    if w.len() != 2 {
        return Err(protocol_error());
    }
    let count = match parse_unsigned(w[1].as_slice(), 0xffff_ffffu64) {
        Some(count) => count,
        None => return Err(protocol_error()),
    };
    if count > OUTPUT_BYTES as u64 {
        return Err(protocol_error());
    }
    Ok((string_of(w[0].as_slice(), 0, w[0].len()), count as usize))
}

/// The report a reply carries: its outcome and its JSON body, which must be
/// UTF-8.
pub fn reply(outcome: String, body: &[u8]) -> (r: Result<Report, Failure>)
    ensures
        !valid_utf8(body@) ==> (r matches Err(f) && f.context.stage@ == "wasm"@
            && f.context.outcome@ == "internal-failure"@),
        valid_utf8(body@) ==> (r matches Ok(report) && report.outcome == outcome && report.json@ == decode_utf8(body@)),
{
    match decode(body) {
        Some(json) => Ok(Report { outcome, json }),
        None => Err(protocol_error()),
    }
}

} // verus!
