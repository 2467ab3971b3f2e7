//! The public detail of the engine's observations: a parsed value written
//! back as JSON text with every cell handle left out, and the stack slots,
//! events and payloads the companion reports read from a reply.

use vstd::prelude::*;

use crate::json::{append_decimal, bool_text, decimal, null_text, quote_json, quoted};
use crate::reader::{member_of, Value};
use crate::text::{push_char, text_equal};

verus! {

/// The decimal spelling of a signed number.
pub open spec fn signed_decimal(n: int) -> Seq<char> {
    if n < 0 {
        seq!['-'] + decimal((-n) as nat)
    } else {
        decimal(n as nat)
    }
}

/// Appends the decimal spelling of a signed number (`i64::to_string`).
pub fn append_signed(n: i64, out: &mut String)
    ensures
        final(out)@ == old(out)@ + signed_decimal(n as int),
{
    if n < 0 {
        push_char(out, '-');
        let magnitude: u64 = (-(n as i128)) as u64;
        append_decimal(magnitude, out);
    } else {
        append_decimal(n as u64, out);
    }
}

/// The public JSON text of a parsed value: cell handles are omitted at
/// every depth.
pub open spec fn detail(v: Value) -> Seq<char>
    decreases v,
{
    match v {
        Value::Null => null_text(),
        Value::Bool(b) => bool_text(b),
        Value::Number(n) => signed_decimal(n as int),
        Value::Text(s) => quoted(s@),
        Value::Array(items) => seq!['['] + detail_items(items@) + seq![']'],
        Value::Object(entries) => seq!['{'] + detail_members(entries@) + seq!['}'],
    }
}

/// Comma-separated public texts of array items.
pub open spec fn detail_items(items: Seq<Value>) -> Seq<char>
    decreases items,
{
    if items.len() == 0 {
        Seq::empty()
    } else if items.len() == 1 {
        detail(items[0])
    } else {
        detail_items(items.drop_last()) + seq![','] + detail(items.last())
    }
}

/// Comma-separated `"key":value` members, leaving out every `handle`.
pub open spec fn detail_members(entries: Seq<(String, Value)>) -> Seq<char>
    decreases entries,
{
    if entries.len() == 0 {
        Seq::empty()
    } else {
        let previous = detail_members(entries.drop_last());
        let last = entries.last();
        if last.0@ == "handle"@ {
            previous
        } else if previous.len() == 0 {
            quoted(last.0@) + seq![':'] + detail(last.1)
        } else {
            previous + seq![','] + quoted(last.0@) + seq![':'] + detail(last.1)
        }
    }
}

/// Appends the public JSON text of `value`.
pub fn append_detail(value: &Value, out: &mut String)
    ensures
        final(out)@ == old(out)@ + detail(*value),
    decreases value,
{
    match value {
        Value::Null => {
            push_char(out, 'n');
            push_char(out, 'u');
            push_char(out, 'l');
            push_char(out, 'l');
        },
        Value::Bool(b) => {
            if *b {
                push_char(out, 't');
                push_char(out, 'r');
                push_char(out, 'u');
                push_char(out, 'e');
            } else {
                push_char(out, 'f');
                push_char(out, 'a');
                push_char(out, 'l');
                push_char(out, 's');
                push_char(out, 'e');
            }
        },
        Value::Number(n) => append_signed(*n, out),
        Value::Text(text) => quote_json(text.as_str(), out),
        Value::Array(items) => {
            let ghost start = out@;
            push_char(out, '[');
            let mut i: usize = 0;
            while i < items.len()
                invariant
                    i <= items@.len(),
                    *value == Value::Array(*items),
                    out@ == start + seq!['['] + detail_items(items@.subrange(0, i as int)),
                decreases items@.len() - i,
            {
                if i > 0 {
                    push_char(out, ',');
                }
                proof {
                    assert(decreases_to!(*value => (*value)->Array_0));
                    assert(decreases_to!(*items => items@));
                    assert(decreases_to!(items@ => items@[i as int]));
                }
                append_detail(&items[i], out);
                proof {
                    let prefix = items@.subrange(0, i + 1);
                    assert(prefix.drop_last() =~= items@.subrange(0, i as int));
                    assert(prefix.last() == items@[i as int]);
                    if i == 0 {
                        assert(detail_items(prefix) == detail(items@[0]));
                    }
                }
                i = i + 1;
            }
            assert(items@.subrange(0, i as int) =~= items@);
            push_char(out, ']');
        },
        Value::Object(entries) => {
            let ghost start = out@;
            push_char(out, '{');
            let mut i: usize = 0;
            let mut any_kept = false;
            while i < entries.len()
                invariant
                    i <= entries@.len(),
                    *value == Value::Object(*entries),
                    any_kept == (detail_members(entries@.subrange(0, i as int)).len() > 0),
                    out@ == start + seq!['{'] + detail_members(entries@.subrange(0, i as int)),
                decreases entries@.len() - i,
            {
                let entry = &entries[i];
                let ghost prefix = entries@.subrange(0, i + 1);
                proof {
                    assert(prefix.drop_last() =~= entries@.subrange(0, i as int));
                    assert(prefix.last() == entries@[i as int]);
                }
                if text_equal(entry.0.as_str(), "handle") {
                    assert(detail_members(prefix) == detail_members(entries@.subrange(0, i as int)));
                } else {
                    let ghost kept = detail_members(entries@.subrange(0, i as int));
                    let ghost before = out@;
                    if any_kept {
                        push_char(out, ',');
                    }
                    let ghost separated = out@;
                    quote_json(entry.0.as_str(), out);
                    push_char(out, ':');
                    proof {
                        assert(decreases_to!(*value => (*value)->Object_0));
                        assert(decreases_to!(*entries => entries@));
                        assert(decreases_to!(entries@ => entries@[i as int]));
                        assert(decreases_to!(entries@[i as int] => entries@[i as int].1));
                    }
                    append_detail(&entry.1, out);
                    proof {
                        assert(detail_members(prefix).len() > 0);
                        assert(out@ =~= start + seq!['{'] + detail_members(prefix));
                    }
                    any_kept = true;
                }
                i = i + 1;
            }
            assert(entries@.subrange(0, i as int) =~= entries@);
            push_char(out, '}');
        },
    }
}

/// The public JSON text of a parsed value.
pub fn text_of(value: &Value) -> (r: String)
    ensures
        r@ == detail(*value),
{
    let mut out = String::new();
    append_detail(value, &mut out);
    out
}

} // verus!
