//! Deterministic JSON encoding for the fixed report schemas.

use vstd::prelude::*;

use crate::text::{push_char, push_text};

verus! {

broadcast use vstd::seq::group_seq_axioms;

/// A JSON document under construction. Object keys are fixed schema names and
/// keep their insertion order.
pub enum Json {
    Null,
    Bool(bool),
    Number(u64),
    String(String),
    Array(Vec<Json>),
    Object(Vec<(&'static str, Json)>),
}

/// The ASCII character of a decimal or hexadecimal digit value (lower case).
pub open spec fn digit_char(d: int) -> char {
    if d < 10 {
        (48 + d) as char
    } else {
        (87 + d) as char
    }
}

/// The shortest decimal spelling of `n`.
pub open spec fn decimal(n: nat) -> Seq<char>
    decreases n,
{
    if n < 10 {
        seq![digit_char(n as int)]
    } else {
        decimal(n / 10).push(digit_char((n % 10) as int))
    }
}

/// Two lower-case hexadecimal digits of a byte.
pub open spec fn hex_byte(b: u8) -> Seq<char> {
    seq![digit_char(b as int / 16), digit_char(b as int % 16)]
}

/// Lower-case hexadecimal spelling of a byte string, two digits per byte.
pub open spec fn hex_text(bytes: Seq<u8>) -> Seq<char>
    decreases bytes.len(),
{
    if bytes.len() == 0 {
        Seq::empty()
    } else {
        hex_text(bytes.drop_last()) + hex_byte(bytes.last())
    }
}

/// The JSON string-body spelling of one character.
pub open spec fn escape_char(c: char) -> Seq<char> {
    if c == '"' {
        seq!['\\', '"']
    } else if c == '\\' {
        seq!['\\', '\\']
    } else if c == '\n' {
        seq!['\\', 'n']
    } else if c == '\r' {
        seq!['\\', 'r']
    } else if c == '\t' {
        seq!['\\', 't']
    } else if (c as u32) < 0x20 {
        seq!['\\', 'u', '0', '0'] + hex_byte(c as u8)
    } else {
        seq![c]
    }
}

/// The escaped body of a JSON string.
pub open spec fn escaped(s: Seq<char>) -> Seq<char>
    decreases s.len(),
{
    if s.len() == 0 {
        Seq::empty()
    } else {
        escaped(s.drop_last()) + escape_char(s.last())
    }
}

/// A quoted JSON string literal.
pub open spec fn quoted(s: Seq<char>) -> Seq<char> {
    seq!['"'] + escaped(s) + seq!['"']
}

pub open spec fn null_text() -> Seq<char> {
    seq!['n', 'u', 'l', 'l']
}

pub open spec fn bool_text(b: bool) -> Seq<char> {
    if b {
        seq!['t', 'r', 'u', 'e']
    } else {
        seq!['f', 'a', 'l', 's', 'e']
    }
}

/// The encoding of a JSON value.
pub open spec fn encoded(j: Json) -> Seq<char>
    decreases j,
{
    match j {
        Json::Null => null_text(),
        Json::Bool(b) => bool_text(b),
        Json::Number(n) => decimal(n as nat),
        Json::String(s) => quoted(s@),
        Json::Array(items) => seq!['['] + encoded_items(items@) + seq![']'],
        Json::Object(entries) => seq!['{'] + encoded_entries(entries@) + seq!['}'],
    }
}

/// Comma-separated encodings of array items.
pub open spec fn encoded_items(items: Seq<Json>) -> Seq<char>
    decreases items,
{
    if items.len() == 0 {
        Seq::empty()
    } else if items.len() == 1 {
        encoded(items[0])
    } else {
        encoded_items(items.drop_last()) + seq![','] + encoded(items.last())
    }
}

/// One `"key":value` member.
pub open spec fn encoded_entry(entry: (&'static str, Json)) -> Seq<char>
    decreases entry,
{
    quoted(entry.0@) + seq![':'] + encoded(entry.1)
}

/// Comma-separated encodings of object members, in order.
pub open spec fn encoded_entries(entries: Seq<(&'static str, Json)>) -> Seq<char>
    decreases entries,
{
    if entries.len() == 0 {
        Seq::empty()
    } else if entries.len() == 1 {
        encoded_entry(entries[0])
    } else {
        encoded_entries(entries.drop_last()) + seq![','] + encoded_entry(entries.last())
    }
}

/// The character of a digit value below sixteen.
fn digit(d: u8) -> (c: char)
    requires
        d < 16,
    ensures
        c == digit_char(d as int),
{
    if d < 10 {
        (48 + d) as char
    } else {
        (87 + d) as char
    }
}

/// Appends the decimal spelling of `n`.
pub(crate) fn append_decimal(n: u64, out: &mut String)
    ensures
        final(out)@ == old(out)@ + decimal(n as nat),
    decreases n,
{
    if n >= 10 {
        append_decimal(n / 10, out);
    }
    push_char(out, digit((n % 10) as u8));
    assert(decimal(n as nat) == if n < 10 { seq![digit_char(n as int)] } else { decimal((n / 10) as nat).push(digit_char((n % 10) as int)) });
}

/// Appends the two hexadecimal digits of a byte.
fn append_hex_byte(b: u8, out: &mut String)
    ensures
        final(out)@ == old(out)@ + hex_byte(b),
{
    push_char(out, digit(b / 16));
    push_char(out, digit(b % 16));
}

/// Lower-case hexadecimal spelling of `bytes`.
pub fn hex(bytes: &[u8]) -> (r: String)
    ensures
        r@ == hex_text(bytes@),
{
    let mut result = String::new();
    let mut i: usize = 0;
    while i < bytes.len()
        invariant
            i <= bytes@.len(),
            result@ == hex_text(bytes@.subrange(0, i as int)),
        decreases bytes@.len() - i,
    {
        append_hex_byte(bytes[i], &mut result);
        assert(bytes@.subrange(0, i + 1).drop_last() =~= bytes@.subrange(0, i as int));
        i = i + 1;
    }
    assert(bytes@.subrange(0, i as int) =~= bytes@);
    result
}

/// Appends the escaped spelling of one character.
fn append_escaped(c: char, out: &mut String)
    ensures
        final(out)@ == old(out)@ + escape_char(c),
{
    if c == '"' {
        push_char(out, '\\');
        push_char(out, '"');
    } else if c == '\\' {
        push_char(out, '\\');
        push_char(out, '\\');
    } else if c == '\n' {
        push_char(out, '\\');
        push_char(out, 'n');
    } else if c == '\r' {
        push_char(out, '\\');
        push_char(out, 'r');
    } else if c == '\t' {
        push_char(out, '\\');
        push_char(out, 't');
    } else if (c as u32) < 0x20 {
        push_char(out, '\\');
        push_char(out, 'u');
        push_char(out, '0');
        push_char(out, '0');
        append_hex_byte(c as u8, out);
    } else {
        push_char(out, c);
    }
}

/// Appends `value` as a quoted JSON string literal.
pub fn quote_json(value: &str, output: &mut String)
    ensures
        final(output)@ == old(output)@ + quoted(value@),
{
    let ghost start = output@;
    push_char(output, '"');
    for c in it: value.chars()
        invariant
            it.seq() == value@,
            it.index() <= value@.len(),
            output@ == start + seq!['"'] + escaped(value@.subrange(0, it.index() as int)),
    {
        let ghost i = it.index();
        append_escaped(c, output);
        proof {
            assert(value@.subrange(0, i + 1).drop_last() =~= value@.subrange(0, i));
            assert(value@.subrange(0, i + 1).last() == c);
        }
    }
    assert(value@.subrange(0, value@.len() as int) =~= value@);
    push_char(output, '"');
}

impl Json {
    /// The complete JSON text of this value.
    pub fn encode(&self) -> (r: String)
        ensures
            r@ == encoded(*self),
    {
        let mut output = String::new();
        append_value(self, &mut output);
        output
    }
}

/// Appends the encoding of `value`.
pub fn append_value(value: &Json, output: &mut String)
    ensures
        final(output)@ == old(output)@ + encoded(*value),
    decreases value,
{
    match value {
        Json::Null => {
            push_char(output, 'n');
            push_char(output, 'u');
            push_char(output, 'l');
            push_char(output, 'l');
        },
        Json::Bool(b) => {
            if *b {
                push_char(output, 't');
                push_char(output, 'r');
                push_char(output, 'u');
                push_char(output, 'e');
            } else {
                push_char(output, 'f');
                push_char(output, 'a');
                push_char(output, 'l');
                push_char(output, 's');
                push_char(output, 'e');
            }
        },
        Json::Number(n) => append_decimal(*n, output),
        Json::String(text) => quote_json(text.as_str(), output),
        Json::Array(items) => {
            let ghost start = output@;
            push_char(output, '[');
            let mut i: usize = 0;
            while i < items.len()
                invariant
                    i <= items@.len(),
                    *value == Json::Array(*items),
                    output@ == start + seq!['['] + encoded_items(items@.subrange(0, i as int)),
                decreases items@.len() - i,
            {
                if i > 0 {
                    push_char(output, ',');
                }
                proof {
                    assert(decreases_to!(*value => (*value)->Array_0));
                    assert(decreases_to!(*items => items@));
                    assert(decreases_to!(items@ => items@[i as int]));
                }
                append_value(&items[i], output);
                proof {
                    let prefix = items@.subrange(0, i + 1);
                    assert(prefix.drop_last() =~= items@.subrange(0, i as int));
                    assert(prefix.last() == items@[i as int]);
                    if i == 0 {
                        assert(encoded_items(prefix) == encoded(items@[0]));
                    }
                }
                i = i + 1;
            }
            assert(items@.subrange(0, i as int) =~= items@);
            push_char(output, ']');
        },
        Json::Object(entries) => {
            let ghost start = output@;
            push_char(output, '{');
            let mut i: usize = 0;
            while i < entries.len()
                invariant
                    i <= entries@.len(),
                    *value == Json::Object(*entries),
                    output@ == start + seq!['{'] + encoded_entries(entries@.subrange(0, i as int)),
                decreases entries@.len() - i,
            {
                let ghost before = output@;
                if i > 0 {
                    push_char(output, ',');
                }
                let ghost separated = output@;
                let entry = &entries[i];
                quote_json(entry.0, output);
                push_char(output, ':');
                proof {
                    assert(decreases_to!(*value => (*value)->Object_0));
                    assert(decreases_to!(*entries => entries@));
                    assert(decreases_to!(entries@ => entries@[i as int]));
                    assert(decreases_to!(entries@[i as int] => entries@[i as int].1));
                }
                append_value(&entry.1, output);
                proof {
                    let prefix = entries@.subrange(0, i + 1);
                    assert(prefix.drop_last() =~= entries@.subrange(0, i as int));
                    assert(prefix.last() == entries@[i as int]);
                    assert(encoded_entry(entries@[i as int]) == quoted(entry.0@) + seq![':'] + encoded(entry.1));
                    assert(output@ =~= separated + encoded_entry(entries@[i as int]));
                    if i == 0 {
                        assert(encoded_entries(prefix) == encoded_entry(entries@[0]));
                        assert(separated == before);
                    } else {
                        assert(separated == before + seq![',']);
                    }
                }
                i = i + 1;
            }
            assert(entries@.subrange(0, i as int) =~= entries@);
            push_char(output, '}');
        },
    }
}

} // verus!

verus! {

/// `j` is a JSON string holding `t`.
pub open spec fn text_is(j: Json, t: Seq<char>) -> bool {
    j matches Json::String(s) && s@ == t
}

/// The first member of an object named `key`.
pub open spec fn field(j: Json, key: Seq<char>) -> Option<Json> {
    match j {
        Json::Object(entries) => first_field(entries@, key),
        _ => None,
    }
}

pub open spec fn first_field(entries: Seq<(&'static str, Json)>, key: Seq<char>) -> Option<Json>
    decreases entries.len(),
{
    if entries.len() == 0 {
        None
    } else if entries[0].0@ == key {
        Some(entries[0].1)
    } else {
        first_field(entries.drop_first(), key)
    }
}

/// The value of the member at position `i` of an object.
pub open spec fn value_at(j: Json, i: int) -> Json {
    match j {
        Json::Object(entries) => entries@[i].1,
        _ => Json::Null,
    }
}

/// The member names of an object, in order.
pub open spec fn keys(j: Json) -> Seq<Seq<char>> {
    match j {
        Json::Object(entries) => entries@.map_values(|e: (&'static str, Json)| e.0@),
        _ => Seq::empty(),
    }
}

/// An object with the given members, in order.
pub fn object(entries: Vec<(&'static str, Json)>) -> (r: Json)
    ensures
        r == Json::Object(entries),
{
    Json::Object(entries)
}

/// A JSON string.
pub fn string(value: &str) -> (r: Json)
    ensures
        text_is(r, value@),
{
    Json::String(crate::text::owned(value))
}

/// A JSON string, or `null` when there is no value.
pub fn optional_string(value: Option<&str>) -> (r: Json)
    ensures
        value matches Some(t) ==> text_is(r, t@),
        value is None ==> r is Null,
{
    match value {
        Some(value) => string(value),
        None => Json::Null,
    }
}

/// A JSON array of strings.
pub fn strings(values: &[&str]) -> (r: Json)
    ensures
        r matches Json::Array(items) && items@.len() == values@.len()
            && forall|i: int| 0 <= i < values@.len() ==> text_is(#[trigger] items@[i], values@[i]@),
{
    let mut items: Vec<Json> = Vec::new();
    let mut i: usize = 0;
    while i < values.len()
        invariant
            i <= values@.len(),
            items@.len() == i,
            forall|j: int| 0 <= j < i ==> text_is(#[trigger] items@[j], values@[j]@),
        decreases values@.len() - i,
    {
        items.push(string(values[i]));
        i = i + 1;
    }
    Json::Array(items)
}

impl Json {
    /// An equal copy of this value.
    pub fn copy(&self) -> (r: Json)
        ensures
            encoded(r) == encoded(*self),
            r is Null <==> self is Null,
        decreases self,
    {
        match self {
            Json::Null => Json::Null,
            Json::Bool(b) => Json::Bool(*b),
            Json::Number(n) => Json::Number(*n),
            Json::String(s) => Json::String(s.clone()),
            Json::Array(items) => {
                let mut out: Vec<Json> = Vec::new();
                let mut i: usize = 0;
                while i < items.len()
                    invariant
                        *self == Json::Array(*items),
                        i <= items@.len(),
                        out@.len() == i,
                        forall|j: int| 0 <= j < i ==> encoded(#[trigger] out@[j]) == encoded(items@[j]),
                    decreases items@.len() - i,
                {
                    proof {
                        assert(decreases_to!(*self => (*self)->Array_0));
                        assert(decreases_to!(*items => items@));
                        assert(decreases_to!(items@ => items@[i as int]));
                    }
                    out.push(items[i].copy());
                    i = i + 1;
                }
                proof {
                    lemma_items_encoding(out@, items@);
                }
                Json::Array(out)
            },
            Json::Object(entries) => {
                let mut out: Vec<(&'static str, Json)> = Vec::new();
                let mut i: usize = 0;
                while i < entries.len()
                    invariant
                        *self == Json::Object(*entries),
                        i <= entries@.len(),
                        out@.len() == i,
                        forall|j: int| 0 <= j < i ==> (#[trigger] out@[j]).0 == entries@[j].0 && encoded(out@[j].1) == encoded(entries@[j].1),
                    decreases entries@.len() - i,
                {
                    proof {
                        assert(decreases_to!(*self => (*self)->Object_0));
                        assert(decreases_to!(*entries => entries@));
                        assert(decreases_to!(entries@ => entries@[i as int]));
                        assert(decreases_to!(entries@[i as int] => entries@[i as int].1));
                    }
                    let value = entries[i].1.copy();
                    out.push((entries[i].0, value));
                    i = i + 1;
                }
                proof {
                    lemma_entries_encoding(out@, entries@);
                }
                Json::Object(out)
            },
        }
    }
}

proof fn lemma_items_encoding(a: Seq<Json>, b: Seq<Json>)
    requires
        a.len() == b.len(),
        forall|j: int| 0 <= j < a.len() ==> encoded(#[trigger] a[j]) == encoded(b[j]),
    ensures
        encoded_items(a) == encoded_items(b),
    decreases a.len(),
{
    if a.len() > 1 {
        lemma_items_encoding(a.drop_last(), b.drop_last());
    }
}

proof fn lemma_entries_encoding(a: Seq<(&'static str, Json)>, b: Seq<(&'static str, Json)>)
    requires
        a.len() == b.len(),
        forall|j: int| 0 <= j < a.len() ==> (#[trigger] a[j]).0 == b[j].0 && encoded(a[j].1) == encoded(b[j].1),
    ensures
        encoded_entries(a) == encoded_entries(b),
    decreases a.len(),
{
    if a.len() > 0 {
        assert(encoded_entry(a.last()) == quoted(a.last().0@) + seq![':'] + encoded(a.last().1));
        assert(encoded_entry(b.last()) == quoted(b.last().0@) + seq![':'] + encoded(b.last().1));
        assert(encoded_entry(a[0]) == quoted(a[0].0@) + seq![':'] + encoded(a[0].1));
        assert(encoded_entry(b[0]) == quoted(b[0].0@) + seq![':'] + encoded(b[0].1));
    }
    if a.len() > 1 {
        lemma_entries_encoding(a.drop_last(), b.drop_last());
    }
}

} // verus!
