//! Minimal bounded JSON reader for engine-worker replies.
//!
//! Runtime reports arrive as JSON documents produced by the selected engine.
//! Every read is bounded and every mismatch is a diagnostic rather than a
//! panic. The reader accepts ordinary JSON only: no comments, no trailing
//! data. Numbers are signed 64-bit integers; objects keep one entry per key in
//! byte order of the keys, the last occurrence of a key winning.

use vstd::prelude::*;
use vstd::utf8::*;

use crate::text::{char_from_u32, owned, push_char, text_equal};
use crate::utf8::{scalar_at, suffix};

verus! {

broadcast use vstd::seq::group_seq_axioms;

/// Largest reply document this reader accepts.
pub const DOCUMENT_LIMIT: usize = 4_194_304;

/// Deepest accepted nesting; deeper documents fail closed.
pub const DEPTH_LIMIT: usize = 32;

/// One parsed JSON value.
pub enum Value {
    Null,
    Bool(bool),
    Number(i64),
    Text(String),
    Array(Vec<Value>),
    /// Entries in ascending byte order of their keys, one per key.
    Object(Vec<(String, Value)>),
}

/// The mathematical content of a parsed value.
pub enum Data {
    Null,
    Bool(bool),
    Number(int),
    Text(Seq<char>),
    Array(Seq<Data>),
    Object(Seq<(Seq<char>, Data)>),
}

impl View for Value {
    type V = Data;

    open spec fn view(&self) -> Data
        decreases self,
    {
        match self {
            Value::Null => Data::Null,
            Value::Bool(b) => Data::Bool(*b),
            Value::Number(n) => Data::Number(*n as int),
            Value::Text(s) => Data::Text(s@),
            Value::Array(items) => Data::Array(item_data(items@)),
            Value::Object(entries) => Data::Object(entry_data(entries@)),
        }
    }
}

pub open spec fn item_data(items: Seq<Value>) -> Seq<Data>
    decreases items,
{
    if items.len() == 0 {
        Seq::empty()
    } else {
        item_data(items.drop_last()).push(items.last()@)
    }
}

pub open spec fn entry_data(entries: Seq<(String, Value)>) -> Seq<(Seq<char>, Data)>
    decreases entries,
{
    if entries.len() == 0 {
        Seq::empty()
    } else {
        entry_data(entries.drop_last()).push((entries.last().0@, entries.last().1@))
    }
}

/// Byte-wise lexicographic order, the order of `str`.
pub open spec fn bytes_before(a: Seq<u8>, b: Seq<u8>) -> bool
    decreases a.len(),
{
    if b.len() == 0 {
        false
    } else if a.len() == 0 {
        true
    } else if a[0] != b[0] {
        a[0] < b[0]
    } else {
        bytes_before(a.drop_first(), b.drop_first())
    }
}

/// Key order: the byte order of the keys' UTF-8 encodings.
pub open spec fn key_before(a: Seq<char>, b: Seq<char>) -> bool {
    bytes_before(encode_utf8(a), encode_utf8(b))
}

/// Records `key: value` in an ordered entry list, replacing an equal key.
pub open spec fn insert_entry(entries: Seq<(Seq<char>, Data)>, key: Seq<char>, value: Data) -> Seq<(Seq<char>, Data)>
    decreases entries.len(),
{
    if entries.len() == 0 {
        seq![(key, value)]
    } else if entries[0].0 == key {
        entries.update(0, (key, value))
    } else if key_before(key, entries[0].0) {
        seq![(key, value)] + entries
    } else {
        seq![entries[0]] + insert_entry(entries.drop_first(), key, value)
    }
}

/// A reader diagnostic or a parsed item with the position after it.
pub enum Step<T> {
    Done(T, int),
    Failed(Seq<char>),
}

pub open spec fn is_space(b: u8) -> bool {
    b == 0x20 || b == 0x0a || b == 0x09 || b == 0x0d
}

pub open spec fn is_digit(b: u8) -> bool {
    0x30 <= b <= 0x39
}

/// The position after the whitespace starting at `at`.
pub open spec fn skip(b: Seq<u8>, at: int) -> int
    decreases b.len() - at,
{
    if 0 <= at < b.len() && is_space(b[at]) {
        skip(b, at + 1)
    } else {
        at
    }
}

pub proof fn lemma_skip(b: Seq<u8>, at: int)
    requires
        0 <= at <= b.len(),
    ensures
        at <= skip(b, at) <= b.len(),
    decreases b.len() - at,
{
    if at < b.len() && is_space(b[at]) {
        lemma_skip(b, at + 1);
    }
}

/// JSON whitespace between tokens is exactly space, tab, line feed and
/// carriage return: the reader passes over each of those bytes, wherever it
/// stands, and stops at any other byte.
pub proof fn law_whitespace_is_json_whitespace(b: Seq<u8>, at: int)
    requires
        0 <= at < b.len(),
    ensures
        (b[at] == 0x20u8 || b[at] == 0x09u8 || b[at] == 0x0au8 || b[at] == 0x0du8) ==> skip(b, at) == skip(b, at + 1),
        !(b[at] == 0x20u8 || b[at] == 0x09u8 || b[at] == 0x0au8 || b[at] == 0x0du8) ==> skip(b, at) == at,
{
}

pub open spec fn byte_at(b: Seq<u8>, at: int) -> Option<u8> {
    if 0 <= at < b.len() {
        Some(b[at])
    } else {
        None
    }
}

pub open spec fn msg_unexpected() -> Seq<char> {
    "report document has an unexpected byte"@
}

pub open spec fn msg_literal() -> Seq<char> {
    "report document has an invalid literal"@
}

pub open spec fn msg_depth() -> Seq<char> {
    "report document nesting exceeds the reader bound"@
}

pub open spec fn msg_value() -> Seq<char> {
    "report document has an invalid value"@
}

pub open spec fn msg_number() -> Seq<char> {
    "report document has an invalid number"@
}

pub open spec fn msg_range() -> Seq<char> {
    "report number is outside signed 64-bit"@
}

pub open spec fn msg_array_byte() -> Seq<char> {
    "report array has an unexpected byte"@
}

pub open spec fn msg_array_open() -> Seq<char> {
    "report array is unterminated"@
}

pub open spec fn msg_object_byte() -> Seq<char> {
    "report object has an unexpected byte"@
}

pub open spec fn msg_object_open() -> Seq<char> {
    "report object is unterminated"@
}

pub open spec fn msg_too_large() -> Seq<char> {
    "report document exceeds the reader bound"@
}

pub open spec fn msg_trailing() -> Seq<char> {
    "trailing bytes after the report document"@
}

pub open spec fn msg_truncated_escape() -> Seq<char> {
    "truncated string escape"@
}

pub open spec fn msg_bad_escape() -> Seq<char> {
    "report document has an invalid string escape"@
}

pub open spec fn msg_bad_utf8() -> Seq<char> {
    "invalid UTF-8 in report string"@
}

pub open spec fn msg_unterminated_string() -> Seq<char> {
    "unterminated report string"@
}

pub open spec fn msg_truncated_unicode() -> Seq<char> {
    "truncated unicode escape"@
}

pub open spec fn msg_unicode() -> Seq<char> {
    "invalid unicode escape"@
}

pub open spec fn msg_unicode_digits() -> Seq<char> {
    "invalid unicode escape digits"@
}

pub open spec fn msg_not_scalar() -> Seq<char> {
    "unicode escape is not a scalar value"@
}

/// Whether `word` occurs at `at`.
pub open spec fn has_word(b: Seq<u8>, at: int, word: Seq<u8>) -> bool {
    at + word.len() <= b.len() && b.subrange(at, at + word.len()) == word
}

pub open spec fn hex_value(c: char) -> int {
    if '0' <= c <= '9' {
        c as int - 48
    } else if 'a' <= c <= 'f' {
        c as int - 87
    } else {
        c as int - 55
    }
}

pub open spec fn is_hex(c: char) -> bool {
    ('0' <= c <= '9') || ('a' <= c <= 'f') || ('A' <= c <= 'F')
}

pub open spec fn all_hex(t: Seq<char>) -> bool {
    forall|i: int| 0 <= i < t.len() ==> is_hex(#[trigger] t[i])
}

/// The value of a string of hexadecimal digits.
pub open spec fn hex_number(t: Seq<char>) -> int
    decreases t.len(),
{
    if t.len() == 0 {
        0
    } else {
        hex_number(t.drop_last()) * 16 + hex_value(t.last())
    }
}

/// The result of `u32::from_str_radix(t, 16)` when it fits: an optional
/// `+` followed by at least one hexadecimal digit.
pub open spec fn radix16(t: Seq<char>) -> Option<int> {
    if t.len() > 0 && t[0] == '+' {
        if t.len() > 1 && all_hex(t.drop_first()) {
            Some(hex_number(t.drop_first()))
        } else {
            None
        }
    } else if t.len() > 0 && all_hex(t) {
        Some(hex_number(t))
    } else {
        None
    }
}

/// A `\uXXXX` escape whose four bytes start at `at`.
pub open spec fn unicode_escape(b: Seq<u8>, at: int) -> Step<char> {
    if at + 4 > b.len() {
        Step::Failed(msg_truncated_unicode())
    } else if !valid_utf8(b.subrange(at, at + 4)) {
        Step::Failed(msg_unicode())
    } else {
        match radix16(decode_utf8(b.subrange(at, at + 4))) {
            None => Step::Failed(msg_unicode_digits()),
            Some(code) => if is_scalar(code as u32) {
                Step::Done(code as u32 as char, at + 4)
            } else {
                Step::Failed(msg_not_scalar())
            },
        }
    }
}

/// The body of a string literal from `at`, with the characters read so far.
pub open spec fn string_body(b: Seq<u8>, at: int, read: Seq<char>) -> Step<Seq<char>>
    decreases b.len() - at,
{
    if at < 0 || at >= b.len() {
        Step::Failed(msg_unterminated_string())
    } else if b[at] == 0x22 {
        Step::Done(read, at + 1)
    } else if b[at] == 0x5c {
        if at + 1 >= b.len() {
            Step::Failed(msg_truncated_escape())
        } else {
            let e = b[at + 1];
            if e == 0x22 {
                string_body(b, at + 2, read.push('"'))
            } else if e == 0x5c {
                string_body(b, at + 2, read.push('\\'))
            } else if e == 0x2f {
                string_body(b, at + 2, read.push('/'))
            } else if e == 0x62 {
                string_body(b, at + 2, read.push('\u{8}'))
            } else if e == 0x66 {
                string_body(b, at + 2, read.push('\u{c}'))
            } else if e == 0x6e {
                string_body(b, at + 2, read.push('\n'))
            } else if e == 0x72 {
                string_body(b, at + 2, read.push('\r'))
            } else if e == 0x74 {
                string_body(b, at + 2, read.push('\t'))
            } else if e == 0x75 {
                match unicode_escape(b, at + 2) {
                    Step::Done(c, next) => string_body(b, next, read.push(c)),
                    Step::Failed(m) => Step::Failed(m),
                }
            } else {
                Step::Failed(msg_bad_escape())
            }
        }
    } else if !valid_utf8(suffix(b, at)) {
        Step::Failed(msg_bad_utf8())
    } else {
        string_body(
            b,
            at + length_of_first_scalar(suffix(b, at)),
            read.push(decode_first_scalar(suffix(b, at)) as char),
        )
    }
}

/// A string literal starting at `at`.
pub open spec fn string_at(b: Seq<u8>, at: int) -> Step<Seq<char>> {
    if byte_at(b, at) == Some(0x22u8) {
        string_body(b, at + 1, Seq::empty())
    } else {
        Step::Failed(msg_unexpected())
    }
}

pub proof fn lemma_string_body(b: Seq<u8>, at: int, read: Seq<char>)
    requires
        0 <= at,
    ensures
        string_body(b, at, read) matches Step::Done(_, end) ==> at < end <= b.len(),
    decreases b.len() - at,
{
    if 0 <= at < b.len() && b[at] != 0x22 {
        if b[at] == 0x5c {
            if at + 1 < b.len() {
                let e = b[at + 1];
                if e == 0x75 {
                    if let Step::Done(c, next) = unicode_escape(b, at + 2) {
                        lemma_string_body(b, next, read.push(c));
                    }
                } else if e == 0x22 || e == 0x5c || e == 0x2f || e == 0x62 || e == 0x66 || e == 0x6e || e == 0x72 || e == 0x74 {
                    let c = if e == 0x22 { '"' } else if e == 0x5c { '\\' } else if e == 0x2f { '/' }
                        else if e == 0x62 { '\u{8}' } else if e == 0x66 { '\u{c}' } else if e == 0x6e { '\n' }
                        else if e == 0x72 { '\r' } else { '\t' };
                    lemma_string_body(b, at + 2, read.push(c));
                }
            }
        } else if valid_utf8(suffix(b, at)) {
            let s = suffix(b, at);
            lemma_string_body(b, at + length_of_first_scalar(s), read.push(decode_first_scalar(s) as char));
        }
    }
}

pub proof fn lemma_string_at(b: Seq<u8>, at: int)
    requires
        0 <= at,
    ensures
        string_at(b, at) matches Step::Done(_, end) ==> at < end <= b.len(),
{
    if byte_at(b, at) == Some(0x22u8) {
        lemma_string_body(b, at + 1, Seq::empty());
    }
}

/// The position after the decimal digits starting at `at`.
pub open spec fn digits_end(b: Seq<u8>, at: int) -> int
    decreases b.len() - at,
{
    if 0 <= at < b.len() && is_digit(b[at]) {
        digits_end(b, at + 1)
    } else {
        at
    }
}

/// The value of a run of decimal digit bytes.
pub open spec fn digits_value(d: Seq<u8>) -> int
    decreases d.len(),
{
    if d.len() == 0 {
        0
    } else {
        digits_value(d.drop_last()) * 10 + (d.last() - 0x30)
    }
}

/// A number: an optional minus sign and decimal digits that fit in `i64`.
pub open spec fn number_at(b: Seq<u8>, at: int) -> Step<Data> {
    let negative = byte_at(b, at) == Some(0x2du8);
    let first = if negative { at + 1 } else { at };
    let end = digits_end(b, first);
    if end == first {
        Step::Failed(msg_number())
    } else {
        let magnitude = digits_value(b.subrange(first, end));
        let value = if negative { -magnitude } else { magnitude };
        if i64::MIN <= value <= i64::MAX {
            Step::Done(Data::Number(value), end)
        } else {
            Step::Failed(msg_range())
        }
    }
}

pub open spec fn null_word() -> Seq<u8> {
    seq![0x6eu8, 0x75, 0x6c, 0x6c]
}

pub open spec fn true_word() -> Seq<u8> {
    seq![0x74u8, 0x72, 0x75, 0x65]
}

pub open spec fn false_word() -> Seq<u8> {
    seq![0x66u8, 0x61, 0x6c, 0x73, 0x65]
}

/// One JSON value starting at `at`, nested `depth` containers deep.
pub open spec fn value_at(b: Seq<u8>, at: int, depth: int) -> Step<Data>
    decreases b.len() - at, 1int,
{
    if depth >= DEPTH_LIMIT {
        Step::Failed(msg_depth())
    } else {
        match byte_at(b, at) {
            Some(c) => if c == 0x6e {
                if has_word(b, at, null_word()) { Step::Done(Data::Null, at + 4) } else { Step::Failed(msg_literal()) }
            } else if c == 0x74 {
                if has_word(b, at, true_word()) { Step::Done(Data::Bool(true), at + 4) } else { Step::Failed(msg_literal()) }
            } else if c == 0x66 {
                if has_word(b, at, false_word()) { Step::Done(Data::Bool(false), at + 5) } else { Step::Failed(msg_literal()) }
            } else if c == 0x22 {
                match string_at(b, at) {
                    Step::Done(s, end) => Step::Done(Data::Text(s), end),
                    Step::Failed(m) => Step::Failed(m),
                }
            } else if c == 0x5b {
                array_at(b, at, depth)
            } else if c == 0x7b {
                object_at(b, at, depth)
            } else if c == 0x2d || is_digit(c) {
                number_at(b, at)
            } else {
                Step::Failed(msg_value())
            },
            None => Step::Failed(msg_value()),
        }
    }
}

/// An array whose opening bracket is at `at`.
pub open spec fn array_at(b: Seq<u8>, at: int, depth: int) -> Step<Data>
    decreases b.len() - at, 0int,
{
    if 0 <= at < b.len() {
        let first = skip(b, at + 1);
        proof {
            lemma_skip(b, at + 1);
        }
        if byte_at(b, first) == Some(0x5du8) {
            Step::Done(Data::Array(Seq::empty()), first + 1)
        } else {
            array_items(b, first, depth + 1, Seq::empty())
        }
    } else {
        Step::Failed(msg_unexpected())
    }
}

/// The remaining items of an array, the next one starting at `at`.
pub open spec fn array_items(b: Seq<u8>, at: int, depth: int, items: Seq<Data>) -> Step<Data>
    decreases b.len() - at, 2int,
{
    if !(0 <= at < b.len() && items.len() < b.len()) {
        Step::Failed(msg_array_open())
    } else {
        match value_at(b, at, depth) {
            Step::Failed(m) => Step::Failed(m),
            Step::Done(v, end) => if end <= at || end > b.len() {
                Step::Failed(msg_array_open())
            } else {
                let next = skip(b, end);
                proof {
                    lemma_skip(b, end);
                }
                match byte_at(b, next) {
                    Some(c) => if c == 0x2c {
                        proof {
                            lemma_skip(b, next + 1);
                        }
                        array_items(b, skip(b, next + 1), depth, items.push(v))
                    } else if c == 0x5d {
                        Step::Done(Data::Array(items.push(v)), next + 1)
                    } else {
                        Step::Failed(msg_array_byte())
                    },
                    None => Step::Failed(msg_array_byte()),
                }
            },
        }
    }
}

/// An object whose opening brace is at `at`.
pub open spec fn object_at(b: Seq<u8>, at: int, depth: int) -> Step<Data>
    decreases b.len() - at, 0int,
{
    if 0 <= at < b.len() {
        let first = skip(b, at + 1);
        proof {
            lemma_skip(b, at + 1);
        }
        if byte_at(b, first) == Some(0x7du8) {
            Step::Done(Data::Object(Seq::empty()), first + 1)
        } else {
            object_items(b, first, depth + 1, Seq::empty())
        }
    } else {
        Step::Failed(msg_unexpected())
    }
}

/// The remaining members of an object, the next one starting at `at`.
pub open spec fn object_items(b: Seq<u8>, at: int, depth: int, entries: Seq<(Seq<char>, Data)>) -> Step<Data>
    decreases b.len() - at, 2int,
{
    if !(0 <= at < b.len() && entries.len() < b.len()) {
        Step::Failed(msg_object_open())
    } else {
        let key_at = skip(b, at);
        proof {
            lemma_skip(b, at);
            lemma_string_at(b, key_at);
        }
        match string_at(b, key_at) {
            Step::Failed(m) => Step::Failed(m),
            Step::Done(key, after_key) => {
                let colon = skip(b, after_key);
                proof {
                    lemma_skip(b, after_key);
                }
                if byte_at(b, colon) != Some(0x3au8) {
                    Step::Failed(msg_unexpected())
                } else {
                    let value_start = skip(b, colon + 1);
                    proof {
                        lemma_skip(b, colon + 1);
                    }
                    match value_at(b, value_start, depth) {
                        Step::Failed(m) => Step::Failed(m),
                        Step::Done(v, end) => if end <= value_start || end > b.len() {
                            Step::Failed(msg_object_open())
                        } else {
                            let recorded = insert_entry(entries, key, v);
                            let next = skip(b, end);
                            proof {
                                lemma_skip(b, end);
                            }
                            match byte_at(b, next) {
                                Some(c) => if c == 0x2c {
                                    object_items(b, next + 1, depth, recorded)
                                } else if c == 0x7d {
                                    Step::Done(Data::Object(recorded), next + 1)
                                } else {
                                    Step::Failed(msg_object_byte())
                                },
                                None => Step::Failed(msg_object_byte()),
                            }
                        },
                    }
                }
            },
        }
    }
}

pub proof fn lemma_number_at(b: Seq<u8>, at: int)
    requires
        0 <= at,
    ensures
        number_at(b, at) matches Step::Done(_, end) ==> at < end <= b.len(),
{
    let first = if byte_at(b, at) == Some(0x2du8) { at + 1 } else { at };
    lemma_digits_end(b, first);
}

pub proof fn lemma_digits_end(b: Seq<u8>, at: int)
    ensures
        at <= digits_end(b, at),
        0 <= at <= b.len() ==> digits_end(b, at) <= b.len(),
        forall|i: int| at <= i < digits_end(b, at) ==> is_digit(#[trigger] b[i]),
        0 <= digits_end(b, at) < b.len() ==> !is_digit(b[digits_end(b, at)]),
    decreases b.len() - at,
{
    if 0 <= at < b.len() && is_digit(b[at]) {
        lemma_digits_end(b, at + 1);
    }
}

/// A value that is read successfully occupies at least one byte.
#[verifier::spinoff_prover]
#[verifier::rlimit(40)]
pub proof fn lemma_value_at(b: Seq<u8>, at: int, depth: int)
    requires
        0 <= at,
    ensures
        value_at(b, at, depth) matches Step::Done(_, end) ==> at < end <= b.len(),
    decreases b.len() - at, 1int,
{
    if depth < DEPTH_LIMIT && 0 <= at < b.len() {
        let c = b[at];
        if c == 0x22 {
            lemma_string_at(b, at);
        } else if c == 0x5b {
            lemma_array_at(b, at, depth);
        } else if c == 0x7b {
            lemma_object_at(b, at, depth);
        } else if c == 0x2d || is_digit(c) {
            lemma_number_at(b, at);
        }
    }
}

pub proof fn lemma_array_at(b: Seq<u8>, at: int, depth: int)
    requires
        0 <= at,
    ensures
        array_at(b, at, depth) matches Step::Done(_, end) ==> at < end <= b.len(),
    decreases b.len() - at, 0int,
{
    if 0 <= at < b.len() {
        lemma_skip(b, at + 1);
        let first = skip(b, at + 1);
        if byte_at(b, first) != Some(0x5du8) {
            lemma_array_items(b, first, depth + 1, Seq::empty());
        }
    }
}

pub proof fn lemma_array_items(b: Seq<u8>, at: int, depth: int, items: Seq<Data>)
    requires
        0 <= at,
    ensures
        array_items(b, at, depth, items) matches Step::Done(_, end) ==> at < end <= b.len(),
    decreases b.len() - at, 2int,
{
    if 0 <= at < b.len() && items.len() < b.len() {
        if let Step::Done(v, end) = value_at(b, at, depth) {
            if at < end <= b.len() {
                lemma_skip(b, end);
                let next = skip(b, end);
                if byte_at(b, next) == Some(0x2cu8) {
                    lemma_skip(b, next + 1);
                    lemma_array_items(b, skip(b, next + 1), depth, items.push(v));
                }
            }
        }
    }
}

pub proof fn lemma_object_at(b: Seq<u8>, at: int, depth: int)
    requires
        0 <= at,
    ensures
        object_at(b, at, depth) matches Step::Done(_, end) ==> at < end <= b.len(),
    decreases b.len() - at, 0int,
{
    if 0 <= at < b.len() {
        lemma_skip(b, at + 1);
        let first = skip(b, at + 1);
        if byte_at(b, first) != Some(0x7du8) {
            lemma_object_items(b, first, depth + 1, Seq::empty());
        }
    }
}

pub proof fn lemma_object_items(b: Seq<u8>, at: int, depth: int, entries: Seq<(Seq<char>, Data)>)
    requires
        0 <= at,
    ensures
        object_items(b, at, depth, entries) matches Step::Done(_, end) ==> at < end <= b.len(),
    decreases b.len() - at, 2int,
{
    if 0 <= at < b.len() && entries.len() < b.len() {
        lemma_skip(b, at);
        let key_at = skip(b, at);
        lemma_string_at(b, key_at);
        if let Step::Done(key, after_key) = string_at(b, key_at) {
            lemma_skip(b, after_key);
            let colon = skip(b, after_key);
            if byte_at(b, colon) == Some(0x3au8) {
                lemma_skip(b, colon + 1);
                let value_start = skip(b, colon + 1);
                if let Step::Done(v, end) = value_at(b, value_start, depth) {
                    if value_start < end <= b.len() {
                        lemma_skip(b, end);
                        let next = skip(b, end);
                        if byte_at(b, next) == Some(0x2cu8) {
                            lemma_object_items(b, next + 1, depth, insert_entry(entries, key, v));
                        }
                    }
                }
            }
        }
    }
}

/// Reading never fails for want of the guard that every value occupies bytes.
pub proof fn lemma_value_guards(b: Seq<u8>, at: int, depth: int)
    requires
        0 <= at,
    ensures
        value_at(b, at, depth) matches Step::Done(_, end) ==> !(end <= at || end > b.len()),
{
    lemma_value_at(b, at, depth);
}

/// A complete document: one value surrounded by optional whitespace.
pub open spec fn read_document(b: Seq<u8>) -> Step<Data> {
    if b.len() > DOCUMENT_LIMIT {
        Step::Failed(msg_too_large())
    } else {
        match value_at(b, skip(b, 0), 0) {
            Step::Failed(m) => Step::Failed(m),
            Step::Done(v, end) => if skip(b, end) != b.len() {
                Step::Failed(msg_trailing())
            } else {
                Step::Done(v, b.len() as int)
            },
        }
    }
}

/// One bounded parse step's outcome.
pub type Parsed = Result<Value, String>;

/// The value stored under the first entry whose key is `name`.
pub open spec fn member_of(entries: Seq<(String, Value)>, name: Seq<char>) -> Option<Value>
    decreases entries.len(),
{
    if entries.len() == 0 {
        None
    } else if entries[0].0@ == name {
        Some(entries[0].1)
    } else {
        member_of(entries.drop_first(), name)
    }
}

impl Value {
    pub fn text(&self) -> (r: Option<&str>)
        ensures
            self matches Value::Text(s) ==> r matches Some(t) && t@ == s@,
            !(self is Text) ==> r is None,
    {
        match self {
            Value::Text(value) => Some(value.as_str()),
            _ => None,
        }
    }

    pub fn number(&self) -> (r: Option<i64>)
        ensures
            self matches Value::Number(n) ==> r == Some(*n),
            !(self is Number) ==> r is None,
    {
        match self {
            Value::Number(value) => Some(*value),
            _ => None,
        }
    }

    /// An unsigned handle or index; negative numbers are refused.
    pub fn index(&self) -> (r: Option<u64>)
        ensures
            r == (match self {
                Value::Number(n) => if n >= 0 { Some(n as u64) } else { None },
                _ => None,
            }),
    {
        match self.number() {
            Some(value) => if value >= 0 {
                Some(value as u64)
            } else {
                None
            },
            None => None,
        }
    }

    pub fn member(&self, name: &str) -> (r: Option<&Value>)
        ensures
            r is Some <==> (self matches Value::Object(entries) && member_of(entries@, name@) is Some),
            r matches Some(v) ==> (self matches Value::Object(entries) && member_of(entries@, name@) == Some(*v)),
    {
        match self {
            Value::Object(entries) => {
                let mut i: usize = 0;
                assert(entries@.subrange(0, entries@.len() as int) =~= entries@);
                while i < entries.len()
                    invariant
                        *self == Value::Object(*entries),
                        i <= entries@.len(),
                        member_of(entries@, name@) == member_of(entries@.subrange(i as int, entries@.len() as int), name@),
                    decreases entries@.len() - i,
                {
                    let ghost rest = entries@.subrange(i as int, entries@.len() as int);
                    assert(rest[0] == entries@[i as int]);
                    assert(rest.drop_first() =~= entries@.subrange(i + 1, entries@.len() as int));
                    if text_equal(entries[i].0.as_str(), name) {
                        return Some(&entries[i].1);
                    }
                    i = i + 1;
                }
                None
            },
            _ => None,
        }
    }

    pub fn items(&self) -> (r: Option<&[Value]>)
        ensures
            self matches Value::Array(items) ==> r matches Some(s) && s@ == items@,
            !(self is Array) ==> r is None,
    {
        match self {
            Value::Array(values) => Some(values.as_slice()),
            _ => None,
        }
    }
}

/// Whether an executable result reports the same outcome as a reading step.
pub open spec fn reports<T, M>(r: Result<T, String>, step: Step<M>, model: spec_fn(T) -> M) -> bool {
    match step {
        Step::Done(m, _) => r matches Ok(v) && model(v) == m,
        Step::Failed(msg) => r matches Err(e) && e@ == msg,
    }
}

pub open spec fn end_of<M>(step: Step<M>) -> int {
    match step {
        Step::Done(_, end) => end,
        Step::Failed(_) => 0,
    }
}

/// A bound on a value of `count` hexadecimal digits.
pub open spec fn hex_bound(count: int) -> int {
    if count <= 0 {
        1
    } else if count == 1 {
        16
    } else if count == 2 {
        256
    } else if count == 3 {
        4096
    } else {
        65536
    }
}

/// Hexadecimal value of at most four characters (`u32::from_str_radix(t, 16)`).
fn radix16_short(t: &str) -> (r: Option<u32>)
    requires
        t@.len() <= 4,
    ensures
        r matches Some(v) ==> radix16(t@) == Some(v as int),
        r is None ==> radix16(t@) is None,
{
    let mut plus = false;
    let mut valid = true;
    let mut count: usize = 0;
    let mut acc: u32 = 0;
    for c in it: t.chars()
        invariant
            it.seq() == t@,
            it.index() <= t@.len(),
            t@.len() <= 4,
            plus == (it.index() > 0 && t@[0] == '+'),
            count == if plus { it.index() - 1 } else { it.index() as int },
            valid == all_hex(if plus { t@.subrange(1, it.index() as int) } else { t@.subrange(0, it.index() as int) }),
            valid ==> acc == hex_number(if plus { t@.subrange(1, it.index() as int) } else { t@.subrange(0, it.index() as int) }),
            valid ==> acc < hex_bound(count as int),
    {
        let ghost i = it.index();
        let ghost before = if plus { t@.subrange(1, i as int) } else { t@.subrange(0, i as int) };
        if !plus && count == 0 && c == '+' {
            plus = true;
            assert(t@.subrange(1, 1) =~= Seq::<char>::empty());
        } else {
            let ghost after = if plus { t@.subrange(1, i + 1) } else { t@.subrange(0, i + 1) };
            assert(after.drop_last() =~= before);
            assert(after.last() == c);
            if valid && (('0' <= c && c <= '9') || ('a' <= c && c <= 'f') || ('A' <= c && c <= 'F')) {
                let v: u32 = if '0' <= c && c <= '9' {
                    (c as u32) - 48
                } else if 'a' <= c && c <= 'f' {
                    (c as u32) - 87
                } else {
                    (c as u32) - 55
                };
                assert(v == hex_value(c));
                acc = acc * 16 + v;
                assert forall|j: int| 0 <= j < after.len() implies is_hex(#[trigger] after[j]) by {
                    if j < after.len() - 1 {
                        assert(after[j] == before[j]);
                    }
                }
            } else {
                if valid {
                    assert(!is_hex(after[after.len() - 1]));
                }
                valid = false;
            }
            count = count + 1;
        }
    }
    let ghost body = if plus { t@.subrange(1, t@.len() as int) } else { t@.subrange(0, t@.len() as int) };
    assert(t@.subrange(0, t@.len() as int) =~= t@);
    assert(t@.len() > 0 ==> t@.drop_first() =~= t@.subrange(1, t@.len() as int));
    if valid && count > 0 {
        Some(acc)
    } else {
        None
    }
}

/// Decoded scalars never outnumber their bytes.
pub proof fn lemma_decode_len(bytes: Seq<u8>)
    requires
        valid_utf8(bytes),
    ensures
        decode_utf8(bytes).len() <= bytes.len(),
    decreases bytes.len(),
{
    if bytes.len() > 0 {
        lemma_decode_len(pop_first_scalar(bytes));
    }
}

pub proof fn lemma_item_data(items: Seq<Value>)
    ensures
        item_data(items).len() == items.len(),
        forall|i: int| 0 <= i < items.len() ==> #[trigger] item_data(items)[i] == items[i]@,
    decreases items.len(),
{
    if items.len() > 0 {
        lemma_item_data(items.drop_last());
        assert(item_data(items) == item_data(items.drop_last()).push(items.last()@));
        assert forall|i: int| 0 <= i < items.len() implies #[trigger] item_data(items)[i] == items[i]@ by {
            if i < items.len() - 1 {
                assert(items.drop_last()[i] == items[i]);
            }
        }
    }
}

pub proof fn lemma_entry_data(entries: Seq<(String, Value)>)
    ensures
        entry_data(entries).len() == entries.len(),
        forall|i: int| 0 <= i < entries.len() ==> #[trigger] entry_data(entries)[i] == (entries[i].0@, entries[i].1@),
    decreases entries.len(),
{
    if entries.len() > 0 {
        lemma_entry_data(entries.drop_last());
        assert(entry_data(entries) == entry_data(entries.drop_last()).push((entries.last().0@, entries.last().1@)));
        assert forall|i: int| 0 <= i < entries.len() implies #[trigger] entry_data(entries)[i] == (entries[i].0@, entries[i].1@) by {
            if i < entries.len() - 1 {
                assert(entries.drop_last()[i] == entries[i]);
            }
        }
    }
}

/// Inserting past a prefix of smaller, different keys leaves that prefix.
pub proof fn lemma_insert_after(entries: Seq<(Seq<char>, Data)>, key: Seq<char>, value: Data, i: int)
    requires
        0 <= i <= entries.len(),
        forall|j: int| 0 <= j < i ==> #[trigger] entries[j].0 != key && !key_before(key, entries[j].0),
    ensures
        insert_entry(entries, key, value) == entries.subrange(0, i) + insert_entry(entries.subrange(i, entries.len() as int), key, value),
    decreases i,
{
    if i == 0 {
        assert(entries.subrange(0, 0) + insert_entry(entries.subrange(0, entries.len() as int), key, value) =~= insert_entry(entries, key, value)) by {
            assert(entries.subrange(0, entries.len() as int) =~= entries);
        }
    } else {
        let rest = entries.drop_first();
        assert forall|j: int| 0 <= j < i - 1 implies #[trigger] rest[j].0 != key && !key_before(key, rest[j].0) by {
            assert(rest[j] == entries[j + 1]);
        }
        lemma_insert_after(rest, key, value, i - 1);
        assert(rest.subrange(i - 1, rest.len() as int) =~= entries.subrange(i, entries.len() as int));
        assert(seq![entries[0]] + rest.subrange(0, i - 1) =~= entries.subrange(0, i));
    }
}

/// Bytes that agree on a common prefix compare as their remainders do.
pub proof fn lemma_bytes_before_prefix(a: Seq<u8>, b: Seq<u8>, i: int)
    requires
        0 <= i <= a.len(),
        i <= b.len(),
        forall|j: int| 0 <= j < i ==> a[j] == b[j],
    ensures
        bytes_before(a, b) == bytes_before(a.subrange(i, a.len() as int), b.subrange(i, b.len() as int)),
    decreases i,
{
    if i == 0 {
        assert(a.subrange(0, a.len() as int) =~= a);
        assert(b.subrange(0, b.len() as int) =~= b);
    } else {
        lemma_bytes_before_prefix(a.drop_first(), b.drop_first(), i - 1);
        assert(a.drop_first().subrange(i - 1, a.len() - 1) =~= a.subrange(i, a.len() as int));
        assert(b.drop_first().subrange(i - 1, b.len() - 1) =~= b.subrange(i, b.len() as int));
    }
}

/// Compares two keys: whether they are equal, and whether `a` sorts first.
pub(crate) fn compare_keys(a: &String, b: &String) -> (r: (bool, bool))
    ensures
        r.0 == (a@ == b@),
        r.1 == key_before(a@, b@),
{
    let x = a.as_str().as_bytes();
    let y = b.as_str().as_bytes();
    let mut i: usize = 0;
    while i < x.len() && i < y.len() && x[i] == y[i]
        invariant
            i <= x@.len(),
            i <= y@.len(),
            forall|j: int| 0 <= j < i ==> x@[j] == y@[j],
        decreases x@.len() - i,
    {
        i = i + 1;
    }
    proof {
        lemma_bytes_before_prefix(x@, y@, i as int);
        vstd::utf8::encode_utf8_decode_utf8(a@);
        vstd::utf8::encode_utf8_decode_utf8(b@);
        if i == x@.len() && i == y@.len() {
            assert(x@ =~= y@);
        }
    }
    let equal = i == x.len() && i == y.len();
    let before = if i == y.len() {
        false
    } else if i == x.len() {
        true
    } else {
        x[i] < y[i]
    };
    (equal, before)
}

/// Records `key: value`, keeping the entries ordered by key.
fn insert_member(entries: &mut Vec<(String, Value)>, key: String, value: Value)
    ensures
        entry_data(final(entries)@) == insert_entry(entry_data(old(entries)@), key@, value@),
{
    let ghost data = entry_data(entries@);
    proof {
        lemma_entry_data(entries@);
    }
    let mut i: usize = 0;
    while i < entries.len()
        invariant
            entries@ == old(entries)@,
            data == entry_data(entries@),
            data.len() == entries@.len(),
            forall|j: int| 0 <= j < entries@.len() ==> #[trigger] data[j] == (entries@[j].0@, entries@[j].1@),
            i <= entries@.len(),
            forall|j: int| 0 <= j < i ==> #[trigger] data[j].0 != key@ && !key_before(key@, data[j].0),
        decreases entries@.len() - i,
    {
        let (equal, before) = compare_keys(&key, &entries[i].0);
        if equal || before {
            proof {
                lemma_insert_after(data, key@, value@, i as int);
                let rest = data.subrange(i as int, data.len() as int);
                assert(rest[0] == data[i as int]);
            }
            let ghost old_entries = entries@;
            if equal {
                entries.set(i, (key, value));
            } else {
                entries.insert(i, (key, value));
            }
            proof {
                lemma_entry_data(entries@);
                let rest = data.subrange(i as int, data.len() as int);
                assert(entry_data(entries@) =~= data.subrange(0, i as int) + insert_entry(rest, key@, value@));
            }
            return;
        }
        i = i + 1;
    }
    proof {
        lemma_insert_after(data, key@, value@, i as int);
        assert(data.subrange(i as int, data.len() as int) =~= Seq::<(Seq<char>, Data)>::empty());
    }
    entries.push((key, value));
    proof {
        lemma_entry_data(entries@);
        assert(entry_data(entries@) =~= data.subrange(0, i as int) + seq![(key@, value@)]);
    }
}

struct Cursor<'a> {
    bytes: &'a [u8],
    at: usize,
}

impl<'a> Cursor<'a> {
    spec fn wf(&self) -> bool {
        self.at <= self.bytes@.len()
    }

    fn skip_space(&mut self)
        requires
            old(self).wf(),
        ensures
            final(self).wf(),
            final(self).bytes == old(self).bytes,
            final(self).at == skip(old(self).bytes@, old(self).at as int),
            old(self).at <= final(self).at <= final(self).bytes@.len(),
    {
        proof {
            lemma_skip(self.bytes@, self.at as int);
        }
        while self.at < self.bytes.len() && (self.bytes[self.at] == 0x20 || self.bytes[self.at] == 0x0a
            || self.bytes[self.at] == 0x09 || self.bytes[self.at] == 0x0d)
            invariant
                self.wf(),
                self.bytes == old(self).bytes,
                skip(self.bytes@, self.at as int) == skip(old(self).bytes@, old(self).at as int),
            decreases self.bytes@.len() - self.at,
        {
            self.at = self.at + 1;
        }
    }

    fn peek(&self) -> (r: Option<u8>)
        ensures
            r == byte_at(self.bytes@, self.at as int),
    {
        if self.at < self.bytes.len() {
            Some(self.bytes[self.at])
        } else {
            None
        }
    }

    fn expect(&mut self, byte: u8) -> (r: Result<(), String>)
        requires
            old(self).wf(),
        ensures
            final(self).wf(),
            final(self).bytes == old(self).bytes,
            byte_at(old(self).bytes@, old(self).at as int) == Some(byte) ==> r is Ok && final(self).at == old(self).at + 1,
            byte_at(old(self).bytes@, old(self).at as int) != Some(byte) ==> (r matches Err(e) && e@ == msg_unexpected()),
    {
        if self.at < self.bytes.len() && self.bytes[self.at] == byte {
            self.at = self.at + 1;
            Ok(())
        } else {
            Err(owned("report document has an unexpected byte"))
        }
    }

    fn literal(&mut self, word: &[u8]) -> (r: Result<(), String>)
        requires
            old(self).wf(),
        ensures
            final(self).wf(),
            final(self).bytes == old(self).bytes,
            has_word(old(self).bytes@, old(self).at as int, word@) ==> r is Ok && final(self).at == old(self).at + word@.len(),
            !has_word(old(self).bytes@, old(self).at as int, word@) ==> (r matches Err(e) && e@ == msg_literal()),
    {
        let n = self.bytes.len();
        if word.len() > n - self.at {
            return Err(owned("report document has an invalid literal"));
        }
        let mut i: usize = 0;
        while i < word.len()
            invariant
                self.wf(),
                n == self.bytes@.len(),
                self.at + word@.len() <= n,
                i <= word@.len(),
                forall|j: int| 0 <= j < i ==> self.bytes@[self.at + j] == word@[j],
            decreases word@.len() - i,
        {
            if self.bytes[self.at + i] != word[i] {
                proof {
                    assert(self.bytes@.subrange(self.at as int, self.at + word@.len())[i as int] != word@[i as int]);
                }
                return Err(owned("report document has an invalid literal"));
            }
            i = i + 1;
        }
        assert(self.bytes@.subrange(self.at as int, self.at + word@.len()) =~= word@);
        self.at = self.at + word.len();
        Ok(())
    }

    fn unicode_escape(&mut self) -> (r: Result<char, String>)
        requires
            old(self).wf(),
        ensures
            final(self).wf(),
            final(self).bytes == old(self).bytes,
            reports(r, unicode_escape(old(self).bytes@, old(self).at as int), |c: char| c),
            r is Ok ==> final(self).at == end_of(unicode_escape(old(self).bytes@, old(self).at as int)),
    {
        let n = self.bytes.len();
        if n - self.at < 4 {
            return Err(owned("truncated unicode escape"));
        }
        let mut window: Vec<u8> = Vec::new();
        window.push(self.bytes[self.at]);
        window.push(self.bytes[self.at + 1]);
        window.push(self.bytes[self.at + 2]);
        window.push(self.bytes[self.at + 3]);
        assert(window@ =~= self.bytes@.subrange(self.at as int, self.at + 4));
        let text = match crate::utf8::decode(window.as_slice()) {
            Some(text) => text,
            None => {
                return Err(owned("invalid unicode escape"));
            },
        };
        proof {
            lemma_decode_len(window@);
        }
        self.at = self.at + 4;
        let code = match radix16_short(text.as_str()) {
            Some(code) => code,
            None => {
                return Err(owned("invalid unicode escape digits"));
            },
        };
        match char_from_u32(code) {
            Some(c) => {
                proof {
                    vstd::utf8::char_u32_cast(c, code);
                }
                Ok(c)
            },
            None => Err(owned("unicode escape is not a scalar value")),
        }
    }

    fn string(&mut self) -> (r: Result<String, String>)
        requires
            old(self).wf(),
        ensures
            final(self).wf(),
            final(self).bytes == old(self).bytes,
            reports(r, string_at(old(self).bytes@, old(self).at as int), |s: String| s@),
            r is Ok ==> final(self).at == end_of(string_at(old(self).bytes@, old(self).at as int)),
    {
        let ghost b = self.bytes@;
        let ghost start = self.at as int;
        match self.expect(0x22) {
            Ok(()) => {},
            Err(e) => {
                return Err(e);
            },
        }
        let mut out = String::new();
        let n = self.bytes.len();
        while self.at < n
            invariant
                self.wf(),
                self.bytes == old(self).bytes,
                self.bytes@ == b,
                b == old(self).bytes@,
                start == old(self).at,
                n == b.len(),
                string_body(b, self.at as int, out@) == string_at(b, start),
            decreases n - self.at,
        {
            let byte = self.bytes[self.at];
            if byte == 0x22 {
                self.at = self.at + 1;
                return Ok(out);
            } else if byte == 0x5c {
                self.at = self.at + 1;
                if self.at >= n {
                    return Err(owned("truncated string escape"));
                }
                let escape = self.bytes[self.at];
                self.at = self.at + 1;
                if escape == 0x22 {
                    push_char(&mut out, '"');
                } else if escape == 0x5c {
                    push_char(&mut out, '\\');
                } else if escape == 0x2f {
                    push_char(&mut out, '/');
                } else if escape == 0x62 {
                    push_char(&mut out, '\u{8}');
                } else if escape == 0x66 {
                    push_char(&mut out, '\u{c}');
                } else if escape == 0x6e {
                    push_char(&mut out, '\n');
                } else if escape == 0x72 {
                    push_char(&mut out, '\r');
                } else if escape == 0x74 {
                    push_char(&mut out, '\t');
                } else if escape == 0x75 {
                    match self.unicode_escape() {
                        Ok(c) => push_char(&mut out, c),
                        Err(e) => {
                            return Err(e);
                        },
                    }
                } else {
                    return Err(owned("report document has an invalid string escape"));
                }
            } else {
                if !crate::utf8::is_utf8_from(self.bytes, self.at) {
                    return Err(owned("invalid UTF-8 in report string"));
                }
                match scalar_at(self.bytes, self.at) {
                    Some((code, len)) => {
                        match char_from_u32(code) {
                            Some(c) => {
                                proof {
                                    vstd::utf8::char_u32_cast(c, code);
                                }
                                push_char(&mut out, c);
                            },
                            None => {
                                return Err(owned("invalid UTF-8 in report string"));
                            },
                        }
                        self.at = self.at + len;
                    },
                    None => {
                        return Err(owned("invalid UTF-8 in report string"));
                    },
                }
            }
        }
        Err(owned("unterminated report string"))
    }

    fn number(&mut self) -> (r: Parsed)
        requires
            old(self).wf(),
        ensures
            final(self).wf(),
            final(self).bytes == old(self).bytes,
            reports(r, number_at(old(self).bytes@, old(self).at as int), |v: Value| v@),
            r is Ok ==> final(self).at == end_of(number_at(old(self).bytes@, old(self).at as int)),
    {
        let ghost b = self.bytes@;
        let ghost start = self.at as int;
        let n = self.bytes.len();
        let negative = self.at < n && self.bytes[self.at] == 0x2d;
        if negative {
            self.at = self.at + 1;
        }
        let first = self.at;
        let mut magnitude: u64 = 0;
        let mut over = false;
        proof {
            lemma_digits_end(b, first as int);
        }
        while self.at < n && 0x30 <= self.bytes[self.at] && self.bytes[self.at] <= 0x39
            invariant
                self.wf(),
                self.bytes == old(self).bytes,
                self.bytes@ == b,
                n == b.len(),
                first <= self.at <= n,
                digits_end(b, self.at as int) == digits_end(b, first as int),
                !over ==> magnitude == digits_value(b.subrange(first as int, self.at as int)),
                over ==> digits_value(b.subrange(first as int, self.at as int)) > u64::MAX,
            decreases n - self.at,
        {
            let d = (self.bytes[self.at] - 0x30) as u64;
            let ghost before = b.subrange(first as int, self.at as int);
            let ghost after = b.subrange(first as int, self.at + 1);
            assert(after.drop_last() =~= before);
            assert(digits_value(after) == digits_value(before) * 10 + d);
            if !over {
                if magnitude > (u64::MAX - d) / 10 {
                    over = true;
                } else {
                    magnitude = magnitude * 10 + d;
                }
            }
            self.at = self.at + 1;
        }
        if self.at == first {
            return Err(owned("report document has an invalid number"));
        }
        let ghost end = self.at as int;
        assert(end == digits_end(b, first as int));
        assert(first == (if byte_at(b, start) == Some(0x2du8) { start + 1 } else { start }));
        if negative {
            if over || magnitude > 9223372036854775808 {
                return Err(owned("report number is outside signed 64-bit"));
            }
            let value: i64 = if magnitude == 9223372036854775808 {
                i64::MIN
            } else {
                -(magnitude as i64)
            };
            Ok(Value::Number(value))
        } else {
            if over || magnitude > 9223372036854775807 {
                return Err(owned("report number is outside signed 64-bit"));
            }
            Ok(Value::Number(magnitude as i64))
        }
    }

    fn value(&mut self, depth: usize) -> (r: Parsed)
        requires
            old(self).wf(),
        ensures
            final(self).wf(),
            final(self).bytes == old(self).bytes,
            reports(r, value_at(old(self).bytes@, old(self).at as int, depth as int), |v: Value| v@),
            r is Ok ==> final(self).at == end_of(value_at(old(self).bytes@, old(self).at as int, depth as int)),
        decreases old(self).bytes@.len() - old(self).at, 1int,
    {
        if depth >= DEPTH_LIMIT {
            return Err(owned("report document nesting exceeds the reader bound"));
        }
        if self.at >= self.bytes.len() {
            return Err(owned("report document has an invalid value"));
        }
        let c = self.bytes[self.at];
        if c == 0x6e {
            let word: [u8; 4] = [0x6e, 0x75, 0x6c, 0x6c];
            assert(word@ =~= null_word());
            match self.literal(&word) {
                Ok(()) => Ok(Value::Null),
                Err(e) => Err(e),
            }
        } else if c == 0x74 {
            let word: [u8; 4] = [0x74, 0x72, 0x75, 0x65];
            assert(word@ =~= true_word());
            match self.literal(&word) {
                Ok(()) => Ok(Value::Bool(true)),
                Err(e) => Err(e),
            }
        } else if c == 0x66 {
            let word: [u8; 5] = [0x66, 0x61, 0x6c, 0x73, 0x65];
            assert(word@ =~= false_word());
            match self.literal(&word) {
                Ok(()) => Ok(Value::Bool(false)),
                Err(e) => Err(e),
            }
        } else if c == 0x22 {
            match self.string() {
                Ok(text) => Ok(Value::Text(text)),
                Err(e) => Err(e),
            }
        } else if c == 0x5b {
            self.array(depth)
        } else if c == 0x7b {
            self.object(depth)
        } else if c == 0x2d || (0x30 <= c && c <= 0x39) {
            self.number()
        } else {
            Err(owned("report document has an invalid value"))
        }
    }

    fn array(&mut self, depth: usize) -> (r: Parsed)
        requires
            old(self).wf(),
            old(self).at < old(self).bytes@.len(),
            old(self).bytes@[old(self).at as int] == 0x5b,
            depth < DEPTH_LIMIT,
        ensures
            final(self).wf(),
            final(self).bytes == old(self).bytes,
            reports(r, array_at(old(self).bytes@, old(self).at as int, depth as int), |v: Value| v@),
            r is Ok ==> final(self).at == end_of(array_at(old(self).bytes@, old(self).at as int, depth as int)),
        decreases old(self).bytes@.len() - old(self).at, 0int,
    {
        let ghost b = self.bytes@;
        let ghost start = self.at as int;
        let n = self.bytes.len();
        self.at = self.at + 1;
        let mut items: Vec<Value> = Vec::new();
        self.skip_space();
        if self.at < n && self.bytes[self.at] == 0x5d {
            self.at = self.at + 1;
            assert(item_data(items@) =~= Seq::<Data>::empty());
            return Ok(Value::Array(items));
        }
        let child_depth = depth + 1;
        assert(item_data(items@) =~= Seq::<Data>::empty());
        proof {
            lemma_item_data(items@);
        }
        while self.at < n && items.len() < n
            invariant
                self.wf(),
                self.bytes == old(self).bytes,
                self.bytes@ == b,
                b == old(self).bytes@,
                start == old(self).at,
                n == b.len(),
                start < self.at,
                child_depth == depth + 1,
                item_data(items@).len() == items@.len(),
                array_items(b, self.at as int, child_depth as int, item_data(items@)) == array_at(b, start, depth as int),
            decreases n - self.at,
        {
            let ghost at = self.at as int;
            proof {
                lemma_value_at(b, at, child_depth as int);
            }
            let item = match self.value(child_depth) {
                Ok(item) => item,
                Err(e) => {
                    return Err(e);
                },
            };
            let ghost end = self.at as int;
            let ghost data = item@;
            let ghost d0 = item_data(items@);
            let ghost pre = items@;
            assert(value_at(b, at, child_depth as int) == Step::Done(data, end));
            items.push(item);
            proof {
                assert(items@.drop_last() =~= pre);
                assert(item_data(items@) == item_data(items@.drop_last()).push(items@.last()@));
                assert(item_data(items@) =~= d0.push(data));
            }
            self.skip_space();
            if self.at < n && self.bytes[self.at] == 0x2c {
                self.at = self.at + 1;
                self.skip_space();
            } else if self.at < n && self.bytes[self.at] == 0x5d {
                self.at = self.at + 1;
                return Ok(Value::Array(items));
            } else {
                return Err(owned("report array has an unexpected byte"));
            }
        }
        Err(owned("report array is unterminated"))
    }

    fn object(&mut self, depth: usize) -> (r: Parsed)
        requires
            old(self).wf(),
            old(self).at < old(self).bytes@.len(),
            old(self).bytes@[old(self).at as int] == 0x7b,
            depth < DEPTH_LIMIT,
        ensures
            final(self).wf(),
            final(self).bytes == old(self).bytes,
            reports(r, object_at(old(self).bytes@, old(self).at as int, depth as int), |v: Value| v@),
            r is Ok ==> final(self).at == end_of(object_at(old(self).bytes@, old(self).at as int, depth as int)),
        decreases old(self).bytes@.len() - old(self).at, 0int,
    {
        let ghost b = self.bytes@;
        let ghost start = self.at as int;
        let n = self.bytes.len();
        self.at = self.at + 1;
        let mut entries: Vec<(String, Value)> = Vec::new();
        self.skip_space();
        assert(entry_data(entries@) =~= Seq::<(Seq<char>, Data)>::empty());
        if self.at < n && self.bytes[self.at] == 0x7d {
            self.at = self.at + 1;
            return Ok(Value::Object(entries));
        }
        let child_depth = depth + 1;
        proof {
            lemma_entry_data(entries@);
        }
        while self.at < n && entries.len() < n
            invariant
                self.wf(),
                self.bytes == old(self).bytes,
                self.bytes@ == b,
                b == old(self).bytes@,
                start == old(self).at,
                n == b.len(),
                start < self.at,
                child_depth == depth + 1,
                entry_data(entries@).len() == entries@.len(),
                object_items(b, self.at as int, child_depth as int, entry_data(entries@)) == object_at(b, start, depth as int),
            decreases n - self.at,
        {
            let ghost at = self.at as int;
            proof {
                lemma_entry_data(entries@);
            }
            self.skip_space();
            proof {
                lemma_string_at(b, self.at as int);
            }
            let key = match self.string() {
                Ok(key) => key,
                Err(e) => {
                    return Err(e);
                },
            };
            self.skip_space();
            match self.expect(0x3a) {
                Ok(()) => {},
                Err(e) => {
                    return Err(e);
                },
            }
            self.skip_space();
            proof {
                lemma_value_at(b, self.at as int, child_depth as int);
            }
            let item = match self.value(child_depth) {
                Ok(item) => item,
                Err(e) => {
                    return Err(e);
                },
            };
            insert_member(&mut entries, key, item);
            proof {
                lemma_entry_data(entries@);
            }
            self.skip_space();
            if self.at < n && self.bytes[self.at] == 0x2c {
                self.at = self.at + 1;
            } else if self.at < n && self.bytes[self.at] == 0x7d {
                self.at = self.at + 1;
                return Ok(Value::Object(entries));
            } else {
                return Err(owned("report object has an unexpected byte"));
            }
        }
        Err(owned("report object is unterminated"))
    }
}

/// Parse one complete bounded JSON document.
pub fn parse(document: &str) -> (r: Parsed)
    ensures
        reports(r, read_document(encode_utf8(document@)), |v: Value| v@),
{
    let bytes = document.as_bytes();
    if bytes.len() > DOCUMENT_LIMIT {
        return Err(owned("report document exceeds the reader bound"));
    }
    let mut cursor = Cursor { bytes, at: 0 };
    cursor.skip_space();
    let value = match cursor.value(0) {
        Ok(value) => value,
        Err(e) => {
            return Err(e);
        },
    };
    cursor.skip_space();
    if cursor.at != cursor.bytes.len() {
        return Err(owned("trailing bytes after the report document"));
    }
    Ok(value)
}

} // verus!
verus! {

/// Whether `d` nests containers at most `room` deep.
pub open spec fn fits(d: Data, room: int) -> bool
    decreases d,
{
    match d {
        Data::Array(items) => room >= 1 && forall|i: int| 0 <= i < items.len() ==> fits(#[trigger] items[i], room - 1),
        Data::Object(entries) => room >= 1 && forall|i: int| 0 <= i < entries.len() ==> fits(#[trigger] entries[i].1, room - 1),
        _ => room >= 0,
    }
}

pub open spec fn all_fit(entries: Seq<(Seq<char>, Data)>, room: int) -> bool {
    forall|i: int| 0 <= i < entries.len() ==> fits(#[trigger] entries[i].1, room)
}

proof fn lemma_insert_fits(entries: Seq<(Seq<char>, Data)>, key: Seq<char>, value: Data, room: int)
    requires
        all_fit(entries, room),
        fits(value, room),
    ensures
        all_fit(insert_entry(entries, key, value), room),
    decreases entries.len(),
{
    if entries.len() > 0 && entries[0].0 != key && !key_before(key, entries[0].0) {
        let rest = entries.drop_first();
        assert forall|i: int| 0 <= i < rest.len() implies fits(#[trigger] rest[i].1, room) by {
            assert(rest[i] == entries[i + 1]);
        }
        lemma_insert_fits(rest, key, value, room);
        let r = insert_entry(rest, key, value);
        assert forall|i: int| 0 <= i < r.len() + 1 implies fits(#[trigger] (seq![entries[0]] + r)[i].1, room) by {
            if i > 0 {
                assert((seq![entries[0]] + r)[i] == r[i - 1]);
            }
        }
    } else if entries.len() > 0 && entries[0].0 != key {
        let r = seq![(key, value)] + entries;
        assert forall|i: int| 0 <= i < r.len() implies fits(#[trigger] r[i].1, room) by {
            if i > 0 {
                assert(r[i] == entries[i - 1]);
            }
        }
    }
}

/// Every value the reader accepts at nesting `depth` leaves no more than
/// `DEPTH_LIMIT - depth` levels of containers inside it.
pub proof fn lemma_value_fits(b: Seq<u8>, at: int, depth: int)
    requires
        0 <= at,
        0 <= depth,
    ensures
        value_at(b, at, depth) matches Step::Done(v, _) ==> fits(v, DEPTH_LIMIT - depth),
    decreases b.len() - at, 1int,
{
    if depth < DEPTH_LIMIT && 0 <= at < b.len() {
        let c = b[at];
        if c == 0x5b {
            lemma_array_fits(b, at, depth);
        } else if c == 0x7b {
            lemma_object_fits(b, at, depth);
        } else if c == 0x2d || is_digit(c) {
        }
    }
}

proof fn lemma_array_fits(b: Seq<u8>, at: int, depth: int)
    requires
        0 <= at,
        0 <= depth < DEPTH_LIMIT,
    ensures
        array_at(b, at, depth) matches Step::Done(v, _) ==> fits(v, DEPTH_LIMIT - depth),
    decreases b.len() - at, 0int,
{
    if 0 <= at < b.len() {
        lemma_skip(b, at + 1);
        let first = skip(b, at + 1);
        if byte_at(b, first) != Some(0x5du8) {
            lemma_array_items_fit(b, first, depth + 1, Seq::empty());
        }
    }
}

proof fn lemma_array_items_fit(b: Seq<u8>, at: int, depth: int, items: Seq<Data>)
    requires
        0 <= at,
        1 <= depth,
        forall|i: int| 0 <= i < items.len() ==> fits(#[trigger] items[i], DEPTH_LIMIT - depth),
    ensures
        array_items(b, at, depth, items) matches Step::Done(v, _) ==> fits(v, DEPTH_LIMIT - depth + 1),
    decreases b.len() - at, 2int,
{
    if 0 <= at < b.len() && items.len() < b.len() {
        lemma_value_fits(b, at, depth);
        if let Step::Done(v, end) = value_at(b, at, depth) {
            if at < end <= b.len() {
                lemma_skip(b, end);
                let next = skip(b, end);
                let grown = items.push(v);
                assert forall|i: int| 0 <= i < grown.len() implies fits(#[trigger] grown[i], DEPTH_LIMIT - depth) by {
                    if i < items.len() {
                        assert(grown[i] == items[i]);
                    }
                }
                if byte_at(b, next) == Some(0x2cu8) {
                    lemma_skip(b, next + 1);
                    lemma_array_items_fit(b, skip(b, next + 1), depth, grown);
                }
            }
        }
    }
}

proof fn lemma_object_fits(b: Seq<u8>, at: int, depth: int)
    requires
        0 <= at,
        0 <= depth < DEPTH_LIMIT,
    ensures
        object_at(b, at, depth) matches Step::Done(v, _) ==> fits(v, DEPTH_LIMIT - depth),
    decreases b.len() - at, 0int,
{
    if 0 <= at < b.len() {
        lemma_skip(b, at + 1);
        let first = skip(b, at + 1);
        if byte_at(b, first) != Some(0x7du8) {
            lemma_object_items_fit(b, first, depth + 1, Seq::empty());
        }
    }
}

proof fn lemma_object_items_fit(b: Seq<u8>, at: int, depth: int, entries: Seq<(Seq<char>, Data)>)
    requires
        0 <= at,
        1 <= depth,
        all_fit(entries, DEPTH_LIMIT - depth),
    ensures
        object_items(b, at, depth, entries) matches Step::Done(v, _) ==> fits(v, DEPTH_LIMIT - depth + 1),
    decreases b.len() - at, 2int,
{
    if 0 <= at < b.len() && entries.len() < b.len() {
        lemma_skip(b, at);
        let key_at = skip(b, at);
        lemma_string_at(b, key_at);
        if let Step::Done(key, after_key) = string_at(b, key_at) {
            lemma_skip(b, after_key);
            let colon = skip(b, after_key);
            if byte_at(b, colon) == Some(0x3au8) {
                lemma_skip(b, colon + 1);
                let value_start = skip(b, colon + 1);
                lemma_value_fits(b, value_start, depth);
                if let Step::Done(v, end) = value_at(b, value_start, depth) {
                    if value_start < end <= b.len() {
                        lemma_insert_fits(entries, key, v, DEPTH_LIMIT - depth);
                        lemma_skip(b, end);
                        let next = skip(b, end);
                        if byte_at(b, next) == Some(0x2cu8) {
                            lemma_object_items_fit(b, next + 1, depth, insert_entry(entries, key, v));
                        }
                    }
                }
            }
        }
    }
}

/// Law: no accepted reply nests containers more than `DEPTH_LIMIT` deep;
/// deeper documents fail closed.
pub proof fn law_nesting_is_bounded(document: Seq<u8>)
    ensures
        read_document(document) matches Step::Done(v, _) ==> fits(v, DEPTH_LIMIT as int),
{
    if document.len() <= DOCUMENT_LIMIT {
        lemma_skip(document, 0);
        lemma_value_fits(document, skip(document, 0), 0);
    }
}

} // verus!

verus! {

/// Law: a document larger than the reader bound is refused before any byte
/// of it is interpreted.
pub proof fn law_oversized_document_refused(document: Seq<u8>)
    requires
        document.len() > DOCUMENT_LIMIT,
    ensures
        read_document(document) == Step::<Data>::Failed(msg_too_large()),
{
}

/// Law: an accepted document is consumed entirely; bytes other than
/// whitespace after its value are refused.
pub proof fn law_no_trailing_data(document: Seq<u8>)
    ensures
        read_document(document) matches Step::Done(_, end) ==> end == document.len(),
        document.len() <= DOCUMENT_LIMIT ==> (value_at(document, skip(document, 0), 0) matches Step::Done(_, end)
            && skip(document, end) != document.len() ==> read_document(document) == Step::<Data>::Failed(msg_trailing())),
{
}

} // verus!
