//! UTF-8 validation and decoding over raw bytes, proved against vstd's
//! `valid_utf8` / `decode_utf8` definitions.

use vstd::prelude::*;
use vstd::utf8::*;

use crate::text::{char_from_u32, push_char};

verus! {

broadcast use vstd::seq::group_seq_axioms;

/// The bytes of `bytes` from position `at` onwards.
pub open spec fn suffix(bytes: Seq<u8>, at: int) -> Seq<u8> {
    bytes.subrange(at, bytes.len() as int)
}

/// Decodes the scalar that starts at `at`, returning its code point and its
/// encoded length, or `None` when the bytes there are not a well-formed
/// UTF-8 scalar encoding.
pub fn scalar_at(bytes: &[u8], at: usize) -> (r: Option<(u32, usize)>)
    requires
        at < bytes@.len(),
    ensures
        r is Some <==> valid_first_scalar(suffix(bytes@, at as int)),
        r matches Some((code, len)) ==> {
            &&& code == decode_first_scalar(suffix(bytes@, at as int))
            &&& len == length_of_first_scalar(suffix(bytes@, at as int))
            &&& 1 <= len <= 4
            &&& at + len <= bytes@.len()
            &&& is_scalar(code)
        },
{
    let ghost s = suffix(bytes@, at as int);
    let n = bytes.len();
    let b0 = bytes[at];
    assert(s[0] == b0);
    if b0 <= 0x7f {
        assert((b0 & 0x7f) as u32 <= 0x7f) by (bit_vector);
        return Some(((b0 & 0x7f) as u32, 1));
    }
    if 0xc0 <= b0 && b0 <= 0xdf {
        if n - at < 2 {
            return None;
        }
        let b1 = bytes[at + 1];
        assert(s[1] == b1);
        if !(0x80 <= b1 && b1 <= 0xbf) {
            return None;
        }
        let code = (((b0 & 0x1f) as u32) << 6) | ((b1 & 0x3f) as u32);
        assert((((b0 & 0x1f) as u32) << 6) | ((b1 & 0x3f) as u32) <= 0x7ff) by (bit_vector);
        if code < 0x80 {
            return None;
        }
        return Some((code, 2));
    }
    if 0xe0 <= b0 && b0 <= 0xef {
        if n - at < 3 {
            return None;
        }
        let b1 = bytes[at + 1];
        let b2 = bytes[at + 2];
        assert(s[1] == b1 && s[2] == b2);
        if !(0x80 <= b1 && b1 <= 0xbf) || !(0x80 <= b2 && b2 <= 0xbf) {
            return None;
        }
        let code = (((b0 & 0x0f) as u32) << 12) | (((b1 & 0x3f) as u32) << 6) | ((b2 & 0x3f) as u32);
        assert((((b0 & 0x0f) as u32) << 12) | (((b1 & 0x3f) as u32) << 6) | ((b2 & 0x3f) as u32) <= 0xffff) by (bit_vector);
        if code < 0x800 || (0xD800 <= code && code <= 0xDFFF) {
            return None;
        }
        return Some((code, 3));
    }
    if 0xf0 <= b0 && b0 <= 0xf7 {
        if n - at < 4 {
            return None;
        }
        let b1 = bytes[at + 1];
        let b2 = bytes[at + 2];
        let b3 = bytes[at + 3];
        assert(s[1] == b1 && s[2] == b2 && s[3] == b3);
        if !(0x80 <= b1 && b1 <= 0xbf) || !(0x80 <= b2 && b2 <= 0xbf) || !(0x80 <= b3 && b3 <= 0xbf) {
            return None;
        }
        let code = (((b0 & 0x07) as u32) << 18) | (((b1 & 0x3f) as u32) << 12) | (((b2 & 0x3f) as u32) << 6) | ((b3 & 0x3f) as u32);
        if code < 0x10000 || code > 0x10ffff || (0xD800 <= code && code <= 0xDFFF) {
            return None;
        }
        return Some((code, 4));
    }
    None
}

/// Popping the first scalar of a suffix leaves the next suffix.
pub proof fn lemma_pop_suffix(bytes: Seq<u8>, at: int)
    requires
        0 <= at < bytes.len(),
        valid_first_scalar(suffix(bytes, at)),
    ensures
        pop_first_scalar(suffix(bytes, at)) =~= suffix(bytes, at + length_of_first_scalar(suffix(bytes, at))),
        at + length_of_first_scalar(suffix(bytes, at)) <= bytes.len(),
{
}

/// Whether `bytes` is well-formed UTF-8 (`std::str::from_utf8(..).is_ok()`).
pub fn is_utf8(bytes: &[u8]) -> (r: bool)
    ensures
        r == valid_utf8(bytes@),
{
    assert(suffix(bytes@, 0) =~= bytes@);
    is_utf8_from(bytes, 0)
}

/// Whether the bytes from `start` onwards are well-formed UTF-8.
pub fn is_utf8_from(bytes: &[u8], start: usize) -> (r: bool)
    requires
        start <= bytes@.len(),
    ensures
        r == valid_utf8(suffix(bytes@, start as int)),
{
    let n = bytes.len();
    let mut at: usize = start;
    while at < n
        invariant
            n == bytes@.len(),
            start <= at <= n,
            valid_utf8(suffix(bytes@, start as int)) == valid_utf8(suffix(bytes@, at as int)),
        decreases n - at,
    {
        match scalar_at(bytes, at) {
            None => {
                return false;
            },
            Some((_, len)) => {
                proof {
                    lemma_pop_suffix(bytes@, at as int);
                }
                at = at + len;
            },
        }
    }
    assert(suffix(bytes@, at as int).len() == 0);
    true
}

/// Decodes `bytes` into a `String` when they are well-formed UTF-8
/// (`std::str::from_utf8`).
pub fn decode(bytes: &[u8]) -> (r: Option<String>)
    ensures
        r is Some <==> valid_utf8(bytes@),
        r matches Some(s) ==> s@ == decode_utf8(bytes@),
{
    let n = bytes.len();
    let mut at: usize = 0;
    let mut out = String::new();
    assert(suffix(bytes@, 0) =~= bytes@);
    while at < n
        invariant
            n == bytes@.len(),
            at <= n,
            valid_utf8(bytes@) == valid_utf8(suffix(bytes@, at as int)),
            valid_utf8(bytes@) ==> decode_utf8(bytes@) == out@ + decode_utf8(suffix(bytes@, at as int)),
        decreases n - at,
    {
        match scalar_at(bytes, at) {
            None => {
                return None;
            },
            Some((code, len)) => {
                proof {
                    lemma_pop_suffix(bytes@, at as int);
                }
                let c = match char_from_u32(code) {
                    Some(c) => c,
                    None => {
                        return None;
                    },
                };
                proof {
                    vstd::utf8::char_u32_cast(c, code);
                    if valid_utf8(bytes@) {
                        let s = suffix(bytes@, at as int);
                        assert(decode_utf8(s) == seq![c] + decode_utf8(pop_first_scalar(s)));
                    }
                }
                let ghost before = out@;
                push_char(&mut out, c);
                proof {
                    if valid_utf8(bytes@) {
                        let rest = decode_utf8(suffix(bytes@, (at + len) as int));
                        assert(before + (seq![c] + rest) =~= out@ + rest);
                    }
                }
                at = at + len;
            },
        }
    }
    assert(suffix(bytes@, at as int).len() == 0);
    Some(out)
}

} // verus!
