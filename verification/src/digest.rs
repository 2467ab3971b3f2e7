//! Statement digests: a 64-bit FNV-1a fold, its decimal spelling for report
//! fields and its fixed-width hexadecimal spelling for the build report.

use vstd::prelude::*;

use crate::json::{append_decimal, decimal, digit_char, Json, text_is};
use crate::text::push_char;

verus! {

pub const FNV_OFFSET: u64 = 0xcbf2_9ce4_8422_2325;
pub const FNV_PRIME: u64 = 0x0000_0100_0000_01b3;

/// The FNV-1a fold of `bytes` from `hash`.
pub open spec fn fold_spec(hash: u64, bytes: Seq<u8>) -> u64
    decreases bytes.len(),
{
    if bytes.len() == 0 {
        hash
    } else {
        let h = fold_spec(hash, bytes.drop_last()) ^ (bytes.last() as u64);
        ((h as int * FNV_PRIME as int) % 0x1_0000_0000_0000_0000) as u64
    }
}

/// Folds `bytes` into `hash`, one byte at a time.
pub fn fold(hash: u64, bytes: &[u8]) -> (r: u64)
    ensures
        r == fold_spec(hash, bytes@),
{
    let mut hash = hash;
    let ghost start = hash;
    let mut byte_index: usize = 0;
    while byte_index < bytes.len()
        invariant
            byte_index <= bytes@.len(),
            hash == fold_spec(start, bytes@.subrange(0, byte_index as int)),
        decreases bytes@.len() - byte_index,
    {
        assert(bytes@.subrange(0, byte_index + 1).drop_last() =~= bytes@.subrange(0, byte_index as int));
        hash = hash ^ (bytes[byte_index] as u64);
        hash = hash.wrapping_mul(FNV_PRIME);
        byte_index = byte_index + 1;
    }
    assert(bytes@.subrange(0, bytes@.len() as int) =~= bytes@);
    hash
}

/// The digest of an exported claim statement.
pub fn statement_fold(statement: &[u8]) -> (r: u64)
    ensures
        r == fold_spec(FNV_OFFSET, statement@),
{
    fold(FNV_OFFSET, statement)
}

/// The sixteen lower-case hexadecimal digits of `value`, most significant first.
pub open spec fn hex16(value: u64) -> Seq<char> {
    Seq::new(16, |i: int| digit_char(((value as int) / pow16(15 - i)) % 16))
}

pub open spec fn pow16(e: int) -> int
    decreases e,
{
    if e <= 0 {
        1
    } else {
        16 * pow16(e - 1)
    }
}

/// One contract's statement digest as a decimal string, for report fields.
pub fn digest_text(digest: u64) -> (r: String)
    ensures
        r@ == decimal(digest as nat),
{
    let mut r = String::new();
    append_decimal(digest, &mut r);
    r
}

/// A digest as sixteen lower-case hexadecimal digits, most significant first.
pub fn hex_digits(digest: u64) -> (r: String)
    ensures
        r@ == hex16(digest),
{
    let mut r = String::new();
    let mut i: usize = 0;
    while i < 16
        invariant
            i <= 16,
            r@.len() == i,
            forall|j: int| 0 <= j < i ==> #[trigger] r@[j] == hex16(digest)[j],
        decreases 16 - i,
    {
        let shift = (60 - 4 * i) as u64;
        let d = ((digest >> shift) & 15) as u8;
        proof {
            lemma_nibble(digest, i as int);
        }
        let c = if d < 10 { (48 + d) as char } else { (87 + d) as char };
        push_char(&mut r, c);
        i = i + 1;
    }
    assert(r@ =~= hex16(digest));
    r
}

proof fn lemma_nibble(v: u64, i: int)
    requires
        0 <= i < 16,
    ensures
        ((v >> ((60 - 4 * i) as u64)) & 15) as int == ((v as int) / pow16(15 - i)) % 16,
{
    reveal_with_fuel(pow16, 16);
    let s = (60 - 4 * i) as u64;
    assert((v >> s) & 15 == (v >> s) % 16) by (bit_vector);
    lemma_shift_div(v, s, 15 - i);
}

proof fn lemma_pow16_positive(e: int)
    ensures
        pow16(e) > 0,
    decreases e,
{
    if e > 0 {
        lemma_pow16_positive(e - 1);
    }
}

proof fn lemma_shift_div(v: u64, s: u64, e: int)
    requires
        0 <= e < 16,
        s == 4 * e,
    ensures
        (v >> s) as int == (v as int) / pow16(e),
    decreases e,
{
    if e == 0 {
        assert(v >> 0u64 == v) by (bit_vector);
    } else {
        let t = (s - 4) as u64;
        lemma_shift_div(v, t, e - 1);
        assert(v >> s == (v >> t) / 16) by (bit_vector)
            requires s == t + 4, s <= 60;
        lemma_pow16_positive(e - 1);
        vstd::arithmetic::div_mod::lemma_div_denominator(v as int, pow16(e - 1), 16);
        assert(pow16(e) == 16 * pow16(e - 1));
        assert(pow16(e - 1) * 16 == pow16(e));
    }
}

/// A digest as JSON: its hexadecimal text, or `null` when absent.
pub fn hex_u64(value: Option<u64>) -> (r: Json)
    ensures
        value matches Some(v) ==> text_is(r, hex16(v)),
        value is None ==> r is Null,
{
    match value {
        Some(value) => Json::String(hex_digits(value)),
        None => Json::Null,
    }
}

} // verus!
