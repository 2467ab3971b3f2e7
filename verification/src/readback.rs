//! Reading back the public text of a value: the JSON text `text_of` writes
//! for a value without `handle` members parses to that value again.

use vstd::prelude::*;
use vstd::utf8::*;

use crate::companion_values::{detail, detail_items, detail_members, signed_decimal};
use crate::json::{bool_text, decimal, digit_char, escape_char, escaped, hex_byte, null_text, quoted};
use crate::reader::{
    array_at, array_items, object_at, object_items, read_document, value_at, DEPTH_LIMIT, DOCUMENT_LIMIT,
    all_hex, bytes_before, digits_end, digits_value, entry_data, false_word, hex_number, hex_value,
    insert_entry, is_digit, is_hex, item_data, key_before, null_word, number_at, radix16, skip, string_at,
    string_body, true_word, unicode_escape, Data, Step, Value,
};
use crate::utf8::suffix;

verus! {

/// Every character is ASCII.
pub open spec fn ascii(t: Seq<char>) -> bool {
    forall|i: int| 0 <= i < t.len() ==> (#[trigger] t[i] as u32) < 128
}

/// The bytes of an ASCII text.
pub open spec fn ascii_bytes(t: Seq<char>) -> Seq<u8> {
    Seq::new(t.len(), |i: int| t[i] as u32 as u8)
}

proof fn lemma_enc_concat(x: Seq<char>, y: Seq<char>)
    ensures
        encode_utf8(x + y) == encode_utf8(x) + encode_utf8(y),
    decreases x.len(),
{
    if x.len() == 0 {
        assert(x + y =~= y);
        assert(encode_utf8(x) + encode_utf8(y) =~= encode_utf8(y));
    } else {
        assert((x + y)[0] == x[0]);
        assert((x + y).drop_first() =~= x.drop_first() + y);
        lemma_enc_concat(x.drop_first(), y);
        assert(encode_utf8(x + y) =~= encode_utf8(x) + encode_utf8(y));
    }
}

proof fn lemma_enc_ascii(t: Seq<char>)
    requires
        ascii(t),
    ensures
        encode_utf8(t) == ascii_bytes(t),
    decreases t.len(),
{
    if t.len() == 0 {
        assert(encode_utf8(t) =~= ascii_bytes(t));
    } else {
        let c = t[0] as u32;
        assert(c < 128);
        assert(leading_byte_width_1(c) == c as u8) by (bit_vector)
            requires c < 128;
        lemma_enc_ascii(t.drop_first());
        assert(encode_utf8(t) =~= ascii_bytes(t));
    }
}

/// The position of `a`'s end in the encoded document.
pub open spec fn at_end(a: Seq<char>) -> int {
    encode_utf8(a).len() as int
}

/// An ASCII text `t` at the end of `a` stands in the encoded document as its
/// own bytes.
proof fn lemma_ascii_at(a: Seq<char>, t: Seq<char>, r: Seq<char>)
    requires
        ascii(t),
    ensures
        encode_utf8(a + t + r).len() == at_end(a) + t.len() + encode_utf8(r).len(),
        encode_utf8(a + t + r).subrange(at_end(a), at_end(a) + t.len()) == ascii_bytes(t),
        forall|i: int| 0 <= i < t.len() ==> #[trigger] encode_utf8(a + t + r)[at_end(a) + i] == t[i] as u32 as u8,
        at_end(a + t) == at_end(a) + t.len(),
{
    lemma_enc_concat(a + t, r);
    lemma_enc_concat(a, t);
    lemma_enc_ascii(t);
    let b = encode_utf8(a + t + r);
    assert(b =~= encode_utf8(a) + ascii_bytes(t) + encode_utf8(r));
    assert(b.subrange(at_end(a), at_end(a) + t.len()) =~= ascii_bytes(t));
}

/// The encoded document after the end of `a`.
proof fn lemma_rest(a: Seq<char>, r: Seq<char>)
    ensures
        encode_utf8(a + r).subrange(at_end(a), encode_utf8(a + r).len() as int) == encode_utf8(r),
        encode_utf8(a + r).len() == at_end(a) + encode_utf8(r).len(),
{
    lemma_enc_concat(a, r);
    assert(encode_utf8(a + r).subrange(at_end(a), encode_utf8(a + r).len() as int) =~= encode_utf8(r));
}

/// The text that follows a value never continues it: it is empty or starts
/// with an ASCII character other than a digit or a space.
pub open spec fn stops(r: Seq<char>) -> bool {
    unspaced(r) && (r.len() > 0 ==> !(48 <= (r[0] as u32) <= 57))
}

/// Text that is empty or starts with an ASCII character other than a space.
pub open spec fn unspaced(r: Seq<char>) -> bool {
    r.len() > 0 ==> {
        let c = r[0] as u32;
        c < 128 && c != 32 && c != 10 && c != 9 && c != 13
    }
}

/// The byte after the end of `a` is the first character of `r`, when `r`
/// starts with an ASCII character.
proof fn lemma_next_byte(a: Seq<char>, r: Seq<char>)
    requires
        r.len() > 0,
        (r[0] as u32) < 128,
    ensures
        encode_utf8(a + r).len() > at_end(a),
        encode_utf8(a + r)[at_end(a)] == r[0] as u32 as u8,
{
    let t = seq![r[0]];
    assert(t[0] == r[0]);
    lemma_ascii_at(a, t, r.drop_first());
    assert(a + t + r.drop_first() =~= a + r);
    assert(encode_utf8(a + t + r.drop_first())[at_end(a) + 0] == t[0] as u32 as u8);
}

/// Whitespace is skipped only where there is some.
proof fn lemma_no_space(a: Seq<char>, r: Seq<char>)
    requires
        unspaced(r),
    ensures
        skip(encode_utf8(a + r), at_end(a)) == at_end(a),
{
    lemma_rest(a, r);
    if r.len() > 0 {
        lemma_next_byte(a, r);
        let c = r[0] as u32;
        assert((c as u8) as u32 == c) by (bit_vector) requires c < 128;
    }
}

/// The digit characters of a decimal spelling.
proof fn lemma_decimal_ascii(n: nat)
    ensures
        ascii(decimal(n)),
        decimal(n).len() > 0,
        forall|i: int| 0 <= i < decimal(n).len() ==> '0' <= #[trigger] decimal(n)[i] <= '9',
        digits_value(ascii_bytes(decimal(n))) == n,
    decreases n,
{
    if n < 10 {
        assert(decimal(n) == seq![digit_char(n as int)]);
        assert(digit_char(n as int) as u32 == 48 + n);
        let d = ascii_bytes(decimal(n));
        assert(d.drop_last() =~= Seq::<u8>::empty());
        assert(d.last() == (48 + n) as u8);
        assert(digits_value(d.drop_last()) == 0);
        assert(digits_value(d) == digits_value(d.drop_last()) * 10 + (d.last() - 0x30));
    } else {
        lemma_decimal_ascii(n / 10);
        let p = decimal(n / 10);
        let c = digit_char((n % 10) as int);
        assert(decimal(n) == p.push(c));
        assert(c as u32 == 48 + n % 10);
        assert(ascii_bytes(decimal(n)).drop_last() =~= ascii_bytes(p));
        let d = ascii_bytes(decimal(n));
        assert(d.last() == (48 + n % 10) as u8);
        assert(digits_value(d) == digits_value(d.drop_last()) * 10 + (d.last() - 0x30));
        assert(digits_value(d) == (n / 10) * 10 + n % 10);
    }
}

/// Decimal digits end where the text after them stops.
proof fn lemma_digits_end(b: Seq<u8>, from: int, end: int)
    requires
        0 <= from <= end <= b.len(),
        forall|i: int| from <= i < end ==> is_digit(#[trigger] b[i]),
        end < b.len() ==> !is_digit(b[end]),
    ensures
        digits_end(b, from) == end,
    decreases end - from,
{
    if from < end {
        lemma_digits_end(b, from + 1, end);
    }
}

/// A number spelled at the end of `a` reads back as that number.
proof fn lemma_number(a: Seq<char>, n: i64, r: Seq<char>)
    requires
        stops(r),
    ensures
        number_at(encode_utf8(a + signed_decimal(n as int) + r), at_end(a))
            == Step::Done(Data::Number(n as int), at_end(a + signed_decimal(n as int))),
        ascii(signed_decimal(n as int)),
        signed_decimal(n as int).len() > 0,
        signed_decimal(n as int)[0] == '-' || '0' <= signed_decimal(n as int)[0] <= '9',
{
    let t = signed_decimal(n as int);
    let b = encode_utf8(a + t + r);
    let m: nat = if n < 0 { (-(n as int)) as nat } else { n as nat };
    lemma_decimal_ascii(m);
    let digits = decimal(m);
    let start = if n < 0 { at_end(a) + 1 } else { at_end(a) };
    if n < 0 {
        assert(t == seq!['-'] + digits);
    } else {
        assert(t == digits);
    }
    assert(ascii(t));
    lemma_ascii_at(a, t, r);
    let end = at_end(a) + t.len();
    assert forall|i: int| start <= i < end implies is_digit(#[trigger] b[i]) by {
        assert(b[at_end(a) + (i - at_end(a))] == t[i - at_end(a)] as u32 as u8);
        if n < 0 {
            assert(t[i - at_end(a)] == digits[i - at_end(a) - 1]);
        }
    }
    lemma_rest(a + t, r);
    if r.len() > 0 {
        lemma_next_byte(a + t, r);
    }
    lemma_digits_end(b, start, end);
    assert(b.subrange(start, end) =~= ascii_bytes(digits)) by {
        assert forall|i: int| 0 <= i < digits.len() implies b.subrange(start, end)[i] == ascii_bytes(digits)[i] by {
            assert(b[at_end(a) + (start - at_end(a) + i)] == t[start - at_end(a) + i] as u32 as u8);
            if n < 0 {
                assert(t[1 + i] == digits[i]);
            }
        }
    }
    if n < 0 {
        assert(b[at_end(a) + 0] == t[0] as u32 as u8);
    } else {
        assert(b[at_end(a) + 0] == t[0] as u32 as u8);
        assert('0' <= digits[0] <= '9');
    }
}

/// The escaped body of a string, from its first character.
proof fn lemma_escaped_front(s: Seq<char>)
    requires
        s.len() > 0,
    ensures
        escaped(s) == escape_char(s[0]) + escaped(s.drop_first()),
    decreases s.len(),
{
    if s.len() == 1 {
        assert(s.drop_last() =~= Seq::<char>::empty());
        assert(s.drop_first() =~= Seq::<char>::empty());
        assert(escaped(s) =~= escape_char(s[0]) + escaped(s.drop_first()));
    } else {
        lemma_escaped_front(s.drop_last());
        assert(s.drop_last()[0] == s[0]);
        assert(s.drop_last().drop_first() =~= s.drop_first().drop_last());
        assert(s.drop_first().last() == s.last());
        assert(escaped(s.drop_first()) == escaped(s.drop_first().drop_last()) + escape_char(s.drop_first().last()));
        assert(escaped(s) =~= escape_char(s[0]) + escaped(s.drop_first()));
    }
}

/// A hexadecimal digit character and its value.
proof fn lemma_hex_digit(d: int)
    requires
        0 <= d < 16,
    ensures
        is_hex(digit_char(d)),
        hex_value(digit_char(d)) == d,
        (digit_char(d) as u32) < 128,
{
}

/// The escape of a character, as the reader takes it back.
proof fn lemma_escape_ascii(c: char)
    requires
        c == '"' || c == '\\' || c == '\n' || c == '\r' || c == '\t' || (c as u32) < 0x20,
    ensures
        ascii(escape_char(c)),
        escape_char(c).len() >= 2,
        escape_char(c)[0] == '\\',
{
    if !(c == '"' || c == '\\' || c == '\n' || c == '\r' || c == '\t') {
        let h = hex_byte(c as u8);
        lemma_hex_digit((c as u8) as int / 16);
        lemma_hex_digit((c as u8) as int % 16);
        assert(escape_char(c) == seq!['\\', 'u', '0', '0'] + h);
        assert forall|i: int| 0 <= i < escape_char(c).len() implies (#[trigger] escape_char(c)[i] as u32) < 128 by {
            if i >= 4 {
                assert(escape_char(c)[i] == h[i - 4]);
            }
        }
    }
}

/// A `\u00XX` escape reads back as its character.
proof fn lemma_unicode(a: Seq<char>, c: char, r: Seq<char>)
    requires
        (c as u32) < 0x20,
        c != '\n' && c != '\r' && c != '\t',
    ensures
        unicode_escape(encode_utf8(a + escape_char(c) + r), at_end(a) + 2)
            == Step::Done(c, at_end(a) + 6),
{
    let e = escape_char(c);
    let byte = c as u8;
    let hi = byte as int / 16;
    let lo = byte as int % 16;
    lemma_hex_digit(hi);
    lemma_hex_digit(lo);
    let h = hex_byte(byte);
    assert(e == seq!['\\', 'u', '0', '0'] + h);
    lemma_escape_ascii(c);
    lemma_ascii_at(a, e, r);
    let b = encode_utf8(a + e + r);
    let p = at_end(a);
    let digits = seq!['0', '0', h[0], h[1]];
    assert(ascii(digits));
    lemma_enc_ascii(digits);
    assert(b.subrange(p + 2, p + 6) =~= encode_utf8(digits)) by {
        assert forall|i: int| 0 <= i < 4 implies b.subrange(p + 2, p + 6)[i] == encode_utf8(digits)[i] by {
            assert(b[p + (2 + i)] == e[2 + i] as u32 as u8);
        }
    }
    encode_utf8_valid_utf8(digits);
    encode_utf8_decode_utf8(digits);
    assert(all_hex(digits));
    reveal_with_fuel(hex_number, 5);
    assert(digits.drop_last() =~= seq!['0', '0', h[0]]);
    assert(digits.drop_last().drop_last() =~= seq!['0', '0']);
    assert(digits.drop_last().drop_last().drop_last() =~= seq!['0']);
    assert(digits.drop_last().drop_last().drop_last().drop_last() =~= Seq::<char>::empty());
    assert(hex_number(digits) == hi * 16 + lo);
    assert(radix16(digits) == Some(c as u32 as int));
    char_u32_cast(c, c as u32);
}

/// The body of a string literal, up to its closing quote, reads back as the
/// characters escaped in it.
proof fn lemma_string_body(a: Seq<char>, s: Seq<char>, r: Seq<char>, read: Seq<char>)
    requires
        r.len() > 0,
        r[0] == '"',
    ensures
        string_body(encode_utf8(a + escaped(s) + r), at_end(a), read)
            == Step::Done(read + s, at_end(a + escaped(s)) + 1),
    decreases s.len(),
{
    let b = encode_utf8(a + escaped(s) + r);
    let p = at_end(a);
    lemma_rest(a, escaped(s) + r);
    assert(a + escaped(s) + r =~= a + (escaped(s) + r));
    if s.len() == 0 {
        assert(escaped(s) =~= Seq::<char>::empty());
        assert(a + escaped(s) =~= a);
        lemma_next_byte(a, escaped(s) + r);
        assert((escaped(s) + r)[0] == '"');
        assert(read + s =~= read);
    } else {
        let c = s[0];
        let e = escape_char(c);
        let rest = s.drop_first();
        lemma_escaped_front(s);
        let a2 = a + e;
        assert(a + escaped(s) + r =~= a2 + escaped(rest) + r);
        assert(a + escaped(s) =~= a2 + escaped(rest));
        assert(read.push(c) + rest =~= read + s);
        lemma_string_body(a2, rest, r, read.push(c));
        if c == '"' || c == '\\' || c == '\n' || c == '\r' || c == '\t' || (c as u32) < 0x20 {
            lemma_escape_ascii(c);
            lemma_ascii_at(a, e, escaped(rest) + r);
            assert(a + e + (escaped(rest) + r) =~= a2 + escaped(rest) + r);
            assert(b[p + 0] == e[0] as u32 as u8);
            assert(b[p + 1] == e[1] as u32 as u8);
            if c == '"' || c == '\\' || c == '\n' || c == '\r' || c == '\t' {
                assert(e.len() == 2);
            } else {
                lemma_unicode(a, c, escaped(rest) + r);
                assert(e.len() == 6);
            }
        } else {
            assert(e == seq![c]);
            let x = e + escaped(rest) + r;
            assert(a + x =~= a + escaped(s) + r);
            lemma_rest(a, x);
            assert(suffix(b, p) == encode_utf8(x));
            assert(x[0] == c);
            encode_utf8_first_scalar(x);
            encode_utf8_valid_utf8(x);
            char_u32_cast(c, c as u32);
            lemma_enc_concat(a, e);
            assert(e.drop_first() =~= Seq::<char>::empty());
            assert(encode_utf8(e.drop_first()) =~= Seq::<u8>::empty());
            assert(encode_utf8(e) == encode_scalar(e[0] as u32) + encode_utf8(e.drop_first()));
            assert(encode_utf8(e) =~= encode_scalar(c as u32));
            let v = c as u32;
            assert(encode_utf8(x)[0] == encode_scalar(v)[0]);
            assert(v >= 0x20 && v != 0x22 && v != 0x5c);
            char_is_scalar(c);
            if has_width_1_encoding(v) {
                assert(leading_byte_width_1(v) == v as u8) by (bit_vector) requires v < 128;
                assert((v as u8) as u32 == v) by (bit_vector) requires v < 128;
            } else if has_width_2_encoding(v) {
                assert(leading_byte_width_2(v) >= 0xC0) by (bit_vector);
            } else if has_width_3_encoding(v) {
                assert(leading_byte_width_3(v) >= 0xE0) by (bit_vector);
            } else {
                assert(leading_byte_width_4(v) >= 0xF0) by (bit_vector);
            }
            assert(b[p] == encode_utf8(x)[0]);
        }
    }
}

/// A quoted string reads back as its characters.
proof fn lemma_string(a: Seq<char>, s: Seq<char>, r: Seq<char>)
    ensures
        string_at(encode_utf8(a + quoted(s) + r), at_end(a)) == Step::Done(s, at_end(a + quoted(s))),
{
    let q = seq!['"'];
    let a1 = a + q;
    assert(a + quoted(s) + r =~= a1 + escaped(s) + (q + r));
    assert(a + quoted(s) =~= a1 + escaped(s) + q);
    lemma_next_byte(a, quoted(s) + r);
    assert(a + (quoted(s) + r) =~= a + quoted(s) + r);
    assert((quoted(s) + r)[0] == '"');
    lemma_ascii_at(a, q, escaped(s) + (q + r));
    lemma_string_body(a1, s, q + r, Seq::empty());
    assert(Seq::<char>::empty() + s =~= s);
    lemma_ascii_at(a1 + escaped(s), q, Seq::<char>::empty());
    assert(a1 + escaped(s) + q + Seq::<char>::empty() =~= a1 + escaped(s) + q);
}

/// Keys in strictly ascending byte order, as the reader keeps an object.
pub open spec fn keys_ascending(entries: Seq<(String, Value)>) -> bool {
    forall|i: int, j: int| 0 <= i < j < entries.len() ==> key_before(#[trigger] entries[i].0@, #[trigger] entries[j].0@)
}

/// A value the reader takes back from its public text: nested at most as
/// deep as the reader allows from `depth`, its objects with keys in ascending
/// order and no `handle` member (the public text leaves those out).
pub open spec fn readable(v: Value, depth: int) -> bool
    decreases v,
{
    &&& 0 <= depth < DEPTH_LIMIT as int
    &&& match v {
        Value::Array(items) => readable_items(items@, depth + 1),
        Value::Object(entries) => keys_ascending(entries@) && readable_entries(entries@, depth + 1),
        _ => true,
    }
}

pub open spec fn readable_items(items: Seq<Value>, depth: int) -> bool
    decreases items,
{
    if items.len() == 0 {
        true
    } else {
        readable_items(items.drop_last(), depth) && readable(items.last(), depth)
    }
}

pub open spec fn readable_entries(entries: Seq<(String, Value)>, depth: int) -> bool
    decreases entries,
{
    if entries.len() == 0 {
        true
    } else {
        readable_entries(entries.drop_last(), depth) && entries.last().0@ != "handle"@
            && readable(entries.last().1, depth)
    }
}

/// The characters a value's public text can start with: a literal, a
/// number, a string, an array or an object.
pub open spec fn opens(c: char) -> bool {
    let x = c as u32;
    x == 0x6e || x == 0x74 || x == 0x66 || x == 0x2d || (0x30 <= x <= 0x39) || x == 0x22 || x == 0x5b || x == 0x7b
}

proof fn lemma_readable_items(items: Seq<Value>, depth: int)
    ensures
        readable_items(items, depth) <==> forall|i: int| 0 <= i < items.len() ==> readable(#[trigger] items[i], depth),
    decreases items.len(),
{
    if items.len() > 0 {
        lemma_readable_items(items.drop_last(), depth);
        if readable_items(items, depth) {
            assert forall|i: int| 0 <= i < items.len() implies readable(#[trigger] items[i], depth) by {
                if i < items.len() - 1 {
                    assert(items.drop_last()[i] == items[i]);
                }
            }
        }
        if forall|i: int| 0 <= i < items.len() ==> readable(#[trigger] items[i], depth) {
            assert forall|i: int| 0 <= i < items.drop_last().len() implies readable(#[trigger] items.drop_last()[i], depth) by {
                assert(items.drop_last()[i] == items[i]);
            }
            assert(readable(items[items.len() - 1], depth));
        }
    }
}

proof fn lemma_readable_entries(entries: Seq<(String, Value)>, depth: int)
    ensures
        readable_entries(entries, depth) <==> forall|i: int| 0 <= i < entries.len()
            ==> (#[trigger] entries[i]).0@ != "handle"@ && readable(entries[i].1, depth),
    decreases entries.len(),
{
    if entries.len() > 0 {
        lemma_readable_entries(entries.drop_last(), depth);
        if readable_entries(entries, depth) {
            assert forall|i: int| 0 <= i < entries.len() implies (#[trigger] entries[i]).0@ != "handle"@
                && readable(entries[i].1, depth) by {
                if i < entries.len() - 1 {
                    assert(entries.drop_last()[i] == entries[i]);
                }
            }
        }
        if forall|i: int| 0 <= i < entries.len() ==> (#[trigger] entries[i]).0@ != "handle"@ && readable(entries[i].1, depth) {
            assert forall|i: int| 0 <= i < entries.drop_last().len() implies (#[trigger] entries.drop_last()[i]).0@ != "handle"@
                && readable(entries.drop_last()[i].1, depth) by {
                assert(entries.drop_last()[i] == entries[i]);
            }
            assert(entries[entries.len() - 1] == entries.last());
        }
    }
}

/// The public text of array items, from the first.
proof fn lemma_items_front(items: Seq<Value>)
    requires
        items.len() > 0,
    ensures
        items.len() == 1 ==> detail_items(items) == detail(items[0]),
        items.len() > 1 ==> detail_items(items) == detail(items[0]) + seq![','] + detail_items(items.drop_first()),
        item_data(items) == seq![items[0]@] + item_data(items.drop_first()),
    decreases items.len(),
{
    if items.len() == 1 {
        assert(items.drop_first() =~= Seq::<Value>::empty());
        assert(items.drop_last() =~= Seq::<Value>::empty());
        assert(item_data(items) =~= seq![items[0]@] + item_data(items.drop_first()));
    } else {
        lemma_items_front(items.drop_last());
        assert(items.drop_last()[0] == items[0]);
        assert(items.drop_last().drop_first() =~= items.drop_first().drop_last());
        assert(items.drop_first().last() == items.last());
        if items.len() == 2 {
            assert(items.drop_first().drop_last() =~= Seq::<Value>::empty());
            assert(detail_items(items.drop_first()) == detail(items.drop_first()[0]));
            assert(detail_items(items) =~= detail(items[0]) + seq![','] + detail_items(items.drop_first()));
        } else {
            assert(detail_items(items) =~= detail(items[0]) + seq![','] + detail_items(items.drop_first()));
        }
        assert(item_data(items) == item_data(items.drop_last()).push(items.last()@));
        assert(item_data(items.drop_first()) == item_data(items.drop_first().drop_last()).push(items.drop_first().last()@));
        assert(item_data(items) =~= seq![items[0]@] + item_data(items.drop_first()));
    }
}

/// One member's public text.
pub open spec fn member_text(e: (String, Value)) -> Seq<char> {
    quoted(e.0@) + seq![':'] + detail(e.1)
}

/// The public text of object members without `handle`, from the first.
proof fn lemma_members_front(entries: Seq<(String, Value)>)
    requires
        entries.len() > 0,
        forall|i: int| 0 <= i < entries.len() ==> (#[trigger] entries[i]).0@ != "handle"@,
    ensures
        detail_members(entries).len() > 0,
        entries.len() == 1 ==> detail_members(entries) == member_text(entries[0]),
        entries.len() > 1 ==> detail_members(entries) == member_text(entries[0]) + seq![','] + detail_members(entries.drop_first()),
        entry_data(entries) == seq![(entries[0].0@, entries[0].1@)] + entry_data(entries.drop_first()),
    decreases entries.len(),
{
    let last = entries.last();
    assert(entries[entries.len() - 1] == last);
    if entries.len() == 1 {
        assert(entries.drop_first() =~= Seq::<(String, Value)>::empty());
        assert(entries.drop_last() =~= Seq::<(String, Value)>::empty());
        assert(detail_members(entries) =~= member_text(entries[0]));
        assert(entry_data(entries) =~= seq![(entries[0].0@, entries[0].1@)] + entry_data(entries.drop_first()));
    } else {
        assert forall|i: int| 0 <= i < entries.drop_last().len() implies (#[trigger] entries.drop_last()[i]).0@ != "handle"@ by {
            assert(entries.drop_last()[i] == entries[i]);
        }
        lemma_members_front(entries.drop_last());
        assert(entries.drop_last()[0] == entries[0]);
        assert(entries.drop_last().drop_first() =~= entries.drop_first().drop_last());
        assert(entries.drop_first().last() == last);
        assert(detail_members(entries) == detail_members(entries.drop_last()) + seq![','] + member_text(last));
        if entries.len() == 2 {
            assert(entries.drop_first().drop_last() =~= Seq::<(String, Value)>::empty());
            assert(detail_members(entries.drop_first().drop_last()).len() == 0);
            assert(last.0@ != "handle"@);
            assert(detail_members(entries.drop_first()) == member_text(last));
            assert(detail_members(entries) =~= member_text(entries[0]) + seq![','] + detail_members(entries.drop_first()));
        } else {
            assert forall|i: int| 0 <= i < entries.drop_first().len() implies (#[trigger] entries.drop_first()[i]).0@ != "handle"@ by {
                assert(entries.drop_first()[i] == entries[i + 1]);
            }
            assert forall|i: int| 0 <= i < entries.drop_first().drop_last().len() implies (#[trigger] entries.drop_first().drop_last()[i]).0@ != "handle"@ by {
                assert(entries.drop_first().drop_last()[i] == entries[i + 1]);
            }
            lemma_members_front(entries.drop_first().drop_last());
            assert(detail_members(entries.drop_first()) == detail_members(entries.drop_first().drop_last()) + seq![','] + member_text(last));
            assert(detail_members(entries) =~= member_text(entries[0]) + seq![','] + detail_members(entries.drop_first()));
        }
        assert(entry_data(entries) == entry_data(entries.drop_last()).push((last.0@, last.1@)));
        assert(entry_data(entries.drop_first()) == entry_data(entries.drop_first().drop_last())
            .push((entries.drop_first().last().0@, entries.drop_first().last().1@)));
        assert(entry_data(entries) =~= seq![(entries[0].0@, entries[0].1@)] + entry_data(entries.drop_first()));
    }
}

proof fn lemma_bytes_before_irreflexive(a: Seq<u8>)
    ensures
        !bytes_before(a, a),
    decreases a.len(),
{
    if a.len() > 0 {
        lemma_bytes_before_irreflexive(a.drop_first());
    }
}

proof fn lemma_bytes_before_asymmetric(a: Seq<u8>, b: Seq<u8>)
    requires
        bytes_before(a, b),
    ensures
        !bytes_before(b, a),
    decreases a.len(),
{
    if a.len() > 0 && b.len() > 0 && a[0] == b[0] {
        lemma_bytes_before_asymmetric(a.drop_first(), b.drop_first());
    }
}

/// Recording a key after every key already recorded appends it.
proof fn lemma_insert_last(entries: Seq<(Seq<char>, Data)>, key: Seq<char>, value: Data)
    requires
        forall|i: int| 0 <= i < entries.len() ==> key_before(#[trigger] entries[i].0, key),
    ensures
        insert_entry(entries, key, value) == entries.push((key, value)),
    decreases entries.len(),
{
    if entries.len() > 0 {
        assert(key_before(entries[0].0, key));
        lemma_bytes_before_irreflexive(encode_utf8(key));
        lemma_bytes_before_asymmetric(encode_utf8(entries[0].0), encode_utf8(key));
        assert(entries[0].0 != key);
        assert forall|i: int| 0 <= i < entries.drop_first().len() implies key_before(#[trigger] entries.drop_first()[i].0, key) by {
            assert(entries.drop_first()[i] == entries[i + 1]);
        }
        lemma_insert_last(entries.drop_first(), key, value);
        assert(seq![entries[0]] + entries.drop_first().push((key, value)) =~= entries.push((key, value)));
    }
}

proof fn lemma_enc_nonempty(t: Seq<char>)
    requires
        t.len() > 0,
    ensures
        encode_utf8(t).len() > 0,
{
    assert(encode_utf8(t) == encode_scalar(t[0] as u32) + encode_utf8(t.drop_first()));
}

/// The end of `a + t` lies after the end of `a` when `t` is not empty.
proof fn lemma_after(a: Seq<char>, t: Seq<char>)
    ensures
        at_end(a + t) == at_end(a) + encode_utf8(t).len(),
        t.len() > 0 ==> at_end(a + t) > at_end(a),
{
    lemma_enc_concat(a, t);
    if t.len() > 0 {
        lemma_enc_nonempty(t);
    }
}

/// One ASCII character more after `a`.
proof fn lemma_after_ascii(a: Seq<char>, c: char)
    requires
        (c as u32) < 128,
    ensures
        at_end(a + seq![c]) == at_end(a) + 1,
{
    let t = seq![c];
    assert(t[0] == c);
    lemma_ascii_at(a, t, Seq::<char>::empty());
}

/// One step of the reader over an array item that the closing bracket ends.
proof fn lemma_array_last(b: Seq<u8>, at: int, depth: int, read: Seq<Data>, v: Data, e: int)
    requires
        0 <= at < e < b.len(),
        read.len() < b.len(),
        value_at(b, at, depth) == Step::Done(v, e),
        skip(b, e) == e,
        b[e] == 0x5d,
    ensures
        array_items(b, at, depth, read) == Step::Done(Data::Array(read.push(v)), e + 1),
{
}

/// One step of the reader over an array item that a comma follows.
proof fn lemma_array_next(b: Seq<u8>, at: int, depth: int, read: Seq<Data>, v: Data, e: int)
    requires
        0 <= at < e < b.len(),
        read.len() < b.len(),
        value_at(b, at, depth) == Step::Done(v, e),
        skip(b, e) == e,
        b[e] == 0x2c,
        skip(b, e + 1) == e + 1,
    ensures
        array_items(b, at, depth, read) == array_items(b, e + 1, depth, read.push(v)),
{
}

/// The reader at an opening bracket.
proof fn lemma_array_open(b: Seq<u8>, at: int, depth: int)
    requires
        0 <= depth < DEPTH_LIMIT as int,
        0 <= at,
        at + 1 < b.len(),
        b[at] == 0x5b,
        skip(b, at + 1) == at + 1,
    ensures
        b[at + 1] == 0x5d ==> value_at(b, at, depth) == Step::Done(Data::Array(Seq::empty()), at + 2),
        b[at + 1] != 0x5d ==> value_at(b, at, depth) == array_items(b, at + 1, depth + 1, Seq::empty()),
{
    assert(value_at(b, at, depth) == array_at(b, at, depth));
}

/// The reader at an opening brace.
proof fn lemma_object_open(b: Seq<u8>, at: int, depth: int)
    requires
        0 <= depth < DEPTH_LIMIT as int,
        0 <= at,
        at + 1 < b.len(),
        b[at] == 0x7b,
        skip(b, at + 1) == at + 1,
    ensures
        b[at + 1] == 0x7d ==> value_at(b, at, depth) == Step::Done(Data::Object(Seq::empty()), at + 2),
        b[at + 1] != 0x7d ==> value_at(b, at, depth) == object_items(b, at + 1, depth + 1, Seq::empty()),
{
    assert(value_at(b, at, depth) == object_at(b, at, depth));
}

/// One step of the reader over an object member.
proof fn lemma_object_member(b: Seq<u8>, at: int, depth: int, read: Seq<(Seq<char>, Data)>, key: Seq<char>,
    colon: int, v: Data, e: int)
    requires
        0 <= at < colon,
        colon + 1 < e < b.len(),
        read.len() < b.len(),
        skip(b, at) == at,
        string_at(b, at) == Step::Done(key, colon),
        skip(b, colon) == colon,
        b[colon] == 0x3a,
        skip(b, colon + 1) == colon + 1,
        value_at(b, colon + 1, depth) == Step::Done(v, e),
        skip(b, e) == e,
        b[e] == 0x2c || b[e] == 0x7d,
    ensures
        b[e] == 0x7d ==> object_items(b, at, depth, read) == Step::Done(Data::Object(insert_entry(read, key, v)), e + 1),
        b[e] == 0x2c ==> object_items(b, at, depth, read) == object_items(b, e + 1, depth, insert_entry(read, key, v)),
{
    crate::reader::lemma_skip(b, at);
}

/// A scalar's public text reads back as the scalar.
proof fn lemma_scalar(a: Seq<char>, v: Value, r: Seq<char>, depth: int)
    requires
        readable(v, depth),
        stops(r),
        !(v is Array) && !(v is Object),
    ensures
        value_at(encode_utf8(a + detail(v) + r), at_end(a), depth) == Step::Done(v@, at_end(a + detail(v))),
        detail(v).len() > 0,
        opens(detail(v)[0]),
{
    let t = detail(v);
    let b = encode_utf8(a + t + r);
    let p = at_end(a);
    match v {
        Value::Null => {
            assert(ascii(null_text()));
            lemma_ascii_at(a, t, r);
            assert(ascii_bytes(null_text()) =~= null_word());
            assert(b[p + 0] == t[0] as u32 as u8);
        },
        Value::Bool(x) => {
            assert(ascii(bool_text(x)));
            lemma_ascii_at(a, t, r);
            if x {
                assert(ascii_bytes(bool_text(x)) =~= true_word());
            } else {
                assert(ascii_bytes(bool_text(x)) =~= false_word());
            }
            assert(b[p + 0] == t[0] as u32 as u8);
        },
        Value::Number(n) => {
            lemma_number(a, n, r);
            lemma_ascii_at(a, t, r);
            assert(b[p + 0] == t[0] as u32 as u8);
        },
        Value::Text(text) => {
            lemma_string(a, text@, r);
            assert(quoted(text@)[0] == '"');
            lemma_ascii_at(a, seq!['"'], quoted(text@).drop_first() + r);
            assert(a + seq!['"'] + (quoted(text@).drop_first() + r) =~= a + t + r);
            assert(b[p + 0] == '"' as u32 as u8);
        },
        _ => {},
    }
}

/// A readable value's public text, at the end of `a` and followed by text
/// that stops it, reads back as the value.
proof fn lemma_value(a: Seq<char>, v: Value, r: Seq<char>, depth: int)
    requires
        readable(v, depth),
        stops(r),
    ensures
        value_at(encode_utf8(a + detail(v) + r), at_end(a), depth) == Step::Done(v@, at_end(a + detail(v))),
        detail(v).len() > 0,
        opens(detail(v)[0]),
    decreases v, 2int,
{
    match v {
        Value::Array(items) => lemma_array(a, v, r, depth),
        Value::Object(entries) => lemma_object(a, v, r, depth),
        _ => lemma_scalar(a, v, r, depth),
    }
}

#[verifier::spinoff_prover]
#[verifier::rlimit(50)]
proof fn lemma_array(a: Seq<char>, v: Value, r: Seq<char>, depth: int)
    requires
        readable(v, depth),
        stops(r),
        v is Array,
    ensures
        value_at(encode_utf8(a + detail(v) + r), at_end(a), depth) == Step::Done(v@, at_end(a + detail(v))),
        detail(v).len() > 0,
        opens(detail(v)[0]),
    decreases v, 1int,
{
    let items = v->Array_0;
    let t = detail(v);
    let b = encode_utf8(a + t + r);
    let p = at_end(a);
    let open = seq!['['];
    let a1 = a + open;
    let inner = detail_items(items@);
    let close = seq![']'] + r;
    assert(t == open + inner + seq![']']);
    assert(a + t + r =~= a1 + inner + close);
    lemma_ascii_at(a, open, inner + close);
    assert(a + open + (inner + close) =~= a1 + inner + close);
    assert(b[p + 0] == '[' as u32 as u8);
    lemma_after_ascii(a, '[');
    lemma_after(a1, inner);
    lemma_after_ascii(a1 + inner, ']');
    assert(a + t =~= a1 + inner + seq![']']);
    lemma_readable_items(items@, depth + 1);
    let x = inner + close;
    assert(a1 + x =~= a1 + inner + close);
    if items@.len() == 0 {
        assert(inner =~= Seq::<char>::empty());
        assert(a1 + inner =~= a1);
        assert(x =~= close);
        lemma_no_space(a1, close);
        lemma_next_byte(a1, close);
        assert(encode_utf8(a1 + close) == b);
        assert(b[p + 1] == 0x5d);
        lemma_array_open(b, p, depth);
        assert(item_data(items@) =~= Seq::<Data>::empty());
        assert(at_end(a + t) == p + 2);
    } else {
        assert(decreases_to!(v => v->Array_0));
        assert(decreases_to!(items => items@));
        lemma_items(a1, items@, close, depth + 1, Seq::empty());
        lemma_items_front(items@);
        lemma_value(a1, items@[0], seq![','], depth + 1);
        assert(opens(inner[0])) by {
            if items@.len() > 1 {
                assert(inner[0] == detail(items@[0])[0]);
            }
        }
        lemma_no_space(a1, x);
        lemma_next_byte(a1, x);
        assert(encode_utf8(a1 + x) == b);
        assert(at_end(a1) == p + 1);
        assert(skip(b, p + 1) == p + 1);
        assert(b[p + 1] == inner[0] as u32 as u8);
        assert(b[p + 1] != 0x5d);
        lemma_array_open(b, p, depth);
        assert(value_at(b, p, depth) == array_items(b, p + 1, depth + 1, Seq::empty()));
        assert(a1 + inner + close =~= a + t + r);
        assert(Seq::<Data>::empty() + item_data(items@) =~= item_data(items@));
    }
}

#[verifier::spinoff_prover]
#[verifier::rlimit(50)]
proof fn lemma_object(a: Seq<char>, v: Value, r: Seq<char>, depth: int)
    requires
        readable(v, depth),
        stops(r),
        v is Object,
    ensures
        value_at(encode_utf8(a + detail(v) + r), at_end(a), depth) == Step::Done(v@, at_end(a + detail(v))),
        detail(v).len() > 0,
        opens(detail(v)[0]),
    decreases v, 1int,
{
    let entries = v->Object_0;
    let t = detail(v);
    let b = encode_utf8(a + t + r);
    let p = at_end(a);
    let open = seq!['{'];
    let a1 = a + open;
    let inner = detail_members(entries@);
    let close = seq!['}'] + r;
    assert(t == open + inner + seq!['}']);
    assert(a + t + r =~= a1 + inner + close);
    lemma_ascii_at(a, open, inner + close);
    assert(a + open + (inner + close) =~= a1 + inner + close);
    assert(b[p + 0] == '{' as u32 as u8);
    lemma_after_ascii(a, '{');
    lemma_after(a1, inner);
    lemma_after_ascii(a1 + inner, '}');
    assert(a + t =~= a1 + inner + seq!['}']);
    lemma_readable_entries(entries@, depth + 1);
    let x = inner + close;
    assert(a1 + x =~= a1 + inner + close);
    if entries@.len() == 0 {
        assert(inner =~= Seq::<char>::empty());
        assert(a1 + inner =~= a1);
        assert(x =~= close);
        lemma_no_space(a1, close);
        lemma_next_byte(a1, close);
        assert(encode_utf8(a1 + close) == b);
        assert(b[p + 1] == 0x7d);
        lemma_object_open(b, p, depth);
        assert(entry_data(entries@) =~= Seq::<(Seq<char>, Data)>::empty());
        assert(at_end(a + t) == p + 2);
    } else {
        assert(decreases_to!(v => v->Object_0));
        assert(decreases_to!(entries => entries@));
        lemma_members(a1, entries@, close, depth + 1, Seq::empty());
        lemma_members_front(entries@);
        assert(inner[0] == '"') by {
            if entries@.len() > 1 {
                assert(inner[0] == member_text(entries@[0])[0]);
            }
        }
        lemma_no_space(a1, x);
        lemma_next_byte(a1, x);
        assert(encode_utf8(a1 + x) == b);
        assert(at_end(a1) == p + 1);
        assert(skip(b, p + 1) == p + 1);
        assert(b[p + 1] == inner[0] as u32 as u8);
        assert(b[p + 1] != 0x7d);
        lemma_object_open(b, p, depth);
        assert(value_at(b, p, depth) == object_items(b, p + 1, depth + 1, Seq::empty()));
        assert(a1 + inner + close =~= a + t + r);
        assert(Seq::<(Seq<char>, Data)>::empty() + entry_data(entries@) =~= entry_data(entries@));
    }
}

/// The items of an array, from the first, read back after the items
/// already read (`read`), up to the closing bracket.
#[verifier::spinoff_prover]
#[verifier::rlimit(50)]
proof fn lemma_items(a: Seq<char>, items: Seq<Value>, r: Seq<char>, depth: int, read: Seq<Data>)
    requires
        items.len() > 0,
        forall|i: int| 0 <= i < items.len() ==> readable(#[trigger] items[i], depth),
        r.len() > 0 && r[0] == ']',
        read.len() < at_end(a),
    ensures
        array_items(encode_utf8(a + detail_items(items) + r), at_end(a), depth, read)
            == Step::Done(Data::Array(read + item_data(items)), at_end(a + detail_items(items)) + 1),
    decreases items, 0int,
{
    let v0 = items[0];
    let rest = items.drop_first();
    lemma_items_front(items);
    let b = encode_utf8(a + detail_items(items) + r);
    let p = at_end(a);
    assert(readable(items[0], depth));
    if items.len() == 1 {
        assert(a + detail_items(items) + r =~= a + detail(v0) + r);
        lemma_value(a, v0, r, depth);
        let a0 = a + detail(v0);
        let e = at_end(a0);
        lemma_after(a, detail(v0));
        lemma_rest(a0, r);
        lemma_next_byte(a0, r);
        lemma_no_space(a0, r);
        lemma_array_last(b, p, depth, read, v0@, e);
        assert(a + detail_items(items) =~= a0);
        assert(rest =~= Seq::<Value>::empty());
        assert(read.push(v0@) =~= read + item_data(items));
    } else {
        let r1 = seq![','] + detail_items(rest) + r;
        assert(a + detail_items(items) + r =~= a + detail(v0) + r1);
        assert(stops(r1));
        lemma_value(a, v0, r1, depth);
        let a0 = a + detail(v0);
        let e = at_end(a0);
        lemma_after(a, detail(v0));
        lemma_rest(a0, r1);
        lemma_next_byte(a0, r1);
        lemma_no_space(a0, r1);
        let a2 = a0 + seq![','];
        lemma_after_ascii(a0, ',');
        assert(a0 + r1 =~= a2 + detail_items(rest) + r);
        assert forall|i: int| 0 <= i < rest.len() implies readable(#[trigger] rest[i], depth) by {
            assert(rest[i] == items[i + 1]);
        }
        lemma_items_front(rest);
        assert(rest[0] == items[1]);
        let x = detail_items(rest) + r;
        lemma_value(a2, rest[0], seq![','], depth);
        assert(opens(x[0])) by {
            if rest.len() > 1 {
                assert(detail_items(rest)[0] == detail(rest[0])[0]);
            }
        }
        assert(a2 + x =~= a2 + detail_items(rest) + r);
        lemma_no_space(a2, x);
        assert(a2 + x =~= a + detail_items(items) + r);
        assert(encode_utf8(a2 + x) == b);
        assert(skip(b, e + 1) == e + 1);
        assert(b[e] == 0x2c);
        lemma_array_next(b, p, depth, read, v0@, e);
        assert(decreases_to!(items => items.subrange(1, items.len() as int)));
        assert(rest =~= items.subrange(1, items.len() as int));
        lemma_items(a2, rest, r, depth, read.push(v0@));
        assert(a2 + detail_items(rest) =~= a + detail_items(items));
        assert(read.push(v0@) + item_data(rest) =~= read + item_data(items));
    }
}

/// The members of an object, from the first, read back after the members
/// already recorded (`read`), up to the closing brace.
#[verifier::spinoff_prover]
#[verifier::rlimit(50)]
proof fn lemma_members(a: Seq<char>, entries: Seq<(String, Value)>, r: Seq<char>, depth: int, read: Seq<(Seq<char>, Data)>)
    requires
        entries.len() > 0,
        forall|i: int| 0 <= i < entries.len() ==> (#[trigger] entries[i]).0@ != "handle"@ && readable(entries[i].1, depth),
        keys_ascending(entries),
        forall|i: int, j: int| 0 <= i < read.len() && 0 <= j < entries.len() ==> key_before(#[trigger] read[i].0, #[trigger] entries[j].0@),
        r.len() > 0 && r[0] == '}',
        read.len() < at_end(a),
    ensures
        object_items(encode_utf8(a + detail_members(entries) + r), at_end(a), depth, read)
            == Step::Done(Data::Object(read + entry_data(entries)), at_end(a + detail_members(entries)) + 1),
    decreases entries, 0int,
{
    let e0 = entries[0];
    let key = e0.0@;
    let rest = entries.drop_first();
    lemma_members_front(entries);
    let b = encode_utf8(a + detail_members(entries) + r);
    let p = at_end(a);
    let r1 = if entries.len() == 1 { r } else { seq![','] + detail_members(rest) + r };
    let after_value = seq![':'] + detail(e0.1) + r1;
    assert(a + detail_members(entries) + r =~= a + quoted(key) + after_value);
    // the key
    lemma_string(a, key, after_value);
    let kx = quoted(key) + after_value;
    assert(a + kx =~= a + quoted(key) + after_value);
    assert(kx[0] == '"');
    lemma_no_space(a, kx);
    let ak = a + quoted(key);
    lemma_after(a, quoted(key));
    // the colon
    lemma_next_byte(ak, after_value);
    assert(ak + after_value =~= a + quoted(key) + after_value);
    lemma_no_space(ak, after_value);
    let a3 = ak + seq![':'];
    lemma_after_ascii(ak, ':');
    assert(ak + after_value =~= a3 + detail(e0.1) + r1);
    // the value
    assert(stops(r1)) by {
        if entries.len() > 1 {
            assert(r1[0] == ',');
        }
    }
    assert(readable(entries[0].1, depth));
    lemma_value(a3, e0.1, r1, depth);
    let x = detail(e0.1) + r1;
    assert(a3 + x =~= a3 + detail(e0.1) + r1);
    lemma_no_space(a3, x);
    assert(a3 + x =~= a + detail_members(entries) + r);
    assert(encode_utf8(a3 + x) == b);
    assert(skip(b, at_end(ak) + 1) == at_end(ak) + 1);
    let a0 = a3 + detail(e0.1);
    lemma_after(a3, detail(e0.1));
    lemma_rest(a0, r1);
    lemma_next_byte(a0, r1);
    lemma_no_space(a0, r1);
    let e = at_end(a0);
    lemma_object_member(b, p, depth, read, key, at_end(ak), e0.1@, e);
    assert forall|i: int| 0 <= i < read.len() implies key_before(#[trigger] read[i].0, key) by {
        assert(key_before(read[i].0, entries[0].0@));
    }
    lemma_insert_last(read, key, e0.1@);
    assert(a0 =~= a + member_text(e0));
    if entries.len() == 1 {
        assert(rest =~= Seq::<(String, Value)>::empty());
        assert(a + detail_members(entries) =~= a0);
        assert(read.push((key, e0.1@)) =~= read + entry_data(entries));
    } else {
        let a2 = a0 + seq![','];
        lemma_after_ascii(a0, ',');
        assert(a0 + r1 =~= a2 + detail_members(rest) + r);
        assert forall|i: int| 0 <= i < rest.len() implies (#[trigger] rest[i]).0@ != "handle"@ && readable(rest[i].1, depth) by {
            assert(rest[i] == entries[i + 1]);
        }
        assert(keys_ascending(rest)) by {
            assert forall|i: int, j: int| 0 <= i < j < rest.len() implies key_before(#[trigger] rest[i].0@, #[trigger] rest[j].0@) by {
                assert(rest[i] == entries[i + 1]);
                assert(rest[j] == entries[j + 1]);
            }
        }
        let recorded = read.push((key, e0.1@));
        assert forall|i: int, j: int| 0 <= i < recorded.len() && 0 <= j < rest.len() implies key_before(#[trigger] recorded[i].0, #[trigger] rest[j].0@) by {
            assert(rest[j] == entries[j + 1]);
            if i < read.len() {
                assert(recorded[i] == read[i]);
            } else {
                assert(key_before(entries[0].0@, entries[j + 1].0@));
            }
        }
        assert(decreases_to!(entries => entries.subrange(1, entries.len() as int)));
        assert(rest =~= entries.subrange(1, entries.len() as int));
        lemma_members(a2, rest, r, depth, recorded);
        assert(a2 + detail_members(rest) =~= a + detail_members(entries));
        assert(recorded + entry_data(rest) =~= read + entry_data(entries));
    }
}

/// Reading back the public text of a value gives the value again: a value
/// whose objects keep their keys in ascending byte order, that has no
/// `handle` member, is nested at most as deep as the reader allows, and
/// whose text fits the reader's bound reads back as itself.
pub proof fn law_public_text_reads_back(v: Value)
    requires
        readable(v, 0),
        encode_utf8(detail(v)).len() <= DOCUMENT_LIMIT,
    ensures
        read_document(encode_utf8(detail(v))) == Step::Done(v@, encode_utf8(detail(v)).len() as int),
{
    let t = detail(v);
    let e = Seq::<char>::empty();
    assert(e + t + e =~= t);
    assert(e + t =~= t);
    lemma_value(e, v, e, 0);
    lemma_no_space(e, t);
    lemma_no_space(t, e);
    assert(t + e =~= t);
    assert(encode_utf8(e).len() == 0);
}

} // verus!
