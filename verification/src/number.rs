//! Decimal numbers and whitespace as the standard library reads them:
//! `char::is_whitespace`, `str::trim_end`, `str::split_whitespace` and
//! `FromStr` for unsigned integers.

use vstd::prelude::*;

verus! {

/// `char::is_whitespace`: the Unicode `White_Space` characters.
pub open spec fn whitespace(c: char) -> bool {
    let n = c as u32;
    ||| 9 <= n <= 13
    ||| n == 32
    ||| n == 0x85
    ||| n == 0xA0
    ||| n == 0x1680
    ||| 0x2000 <= n <= 0x200A
    ||| n == 0x2028
    ||| n == 0x2029
    ||| n == 0x202F
    ||| n == 0x205F
    ||| n == 0x3000
}

pub fn is_whitespace(c: char) -> (r: bool)
    ensures
        r == whitespace(c),
{
    let n = c as u32;
    (9 <= n && n <= 13) || n == 32 || n == 0x85 || n == 0xA0 || n == 0x1680 || (0x2000 <= n && n <= 0x200A)
        || n == 0x2028 || n == 0x2029 || n == 0x202F || n == 0x205F || n == 0x3000
}

/// `str::trim_end`: the text without its trailing whitespace.
pub open spec fn trim_end(s: Seq<char>) -> Seq<char>
    decreases s.len(),
{
    if s.len() > 0 && whitespace(s.last()) {
        trim_end(s.drop_last())
    } else {
        s
    }
}

/// The length of `s` without its trailing whitespace.
pub fn trimmed_length(s: &[char]) -> (n: usize)
    ensures
        n <= s@.len(),
        s@.subrange(0, n as int) == trim_end(s@),
{
    let mut n = s.len();
    assert(s@.subrange(0, n as int) =~= s@);
    while n > 0 && is_whitespace(s[n - 1])
        invariant
            n <= s@.len(),
            trim_end(s@.subrange(0, n as int)) == trim_end(s@),
        decreases n,
    {
        assert(s@.subrange(0, n as int).drop_last() =~= s@.subrange(0, n - 1));
        n = n - 1;
    }
    n
}

/// Whether every character is an ASCII decimal digit.
pub open spec fn all_digits(d: Seq<char>) -> bool {
    forall|i: int| 0 <= i < d.len() ==> '0' <= #[trigger] d[i] <= '9'
}

/// The value of a string of decimal digits.
pub open spec fn digits_value(d: Seq<char>) -> nat
    decreases d.len(),
{
    if d.len() == 0 {
        0
    } else {
        digits_value(d.drop_last()) * 10 + (d.last() as nat - 48) as nat
    }
}

/// The digits of a number as `FromStr` for an unsigned type reads them: an
/// optional `+` before them.
pub open spec fn unsigned_digits(t: Seq<char>) -> Seq<char> {
    if t.len() > 0 && t[0] == '+' {
        t.subrange(1, t.len() as int)
    } else {
        t
    }
}

/// `FromStr` for an unsigned type whose largest value is `max`.
pub open spec fn parsed(t: Seq<char>, max: nat) -> Option<nat> {
    let d = unsigned_digits(t);
    if d.len() == 0 || !all_digits(d) || digits_value(d) > max {
        None
    } else {
        Some(digits_value(d))
    }
}

proof fn lemma_digits_grow(d: Seq<char>, i: int)
    requires
        all_digits(d),
        0 <= i <= d.len(),
    ensures
        digits_value(d.subrange(0, i)) <= digits_value(d),
    decreases d.len() - i,
{
    if i < d.len() {
        lemma_digits_grow(d, i + 1);
        let p = d.subrange(0, i + 1);
        assert(p.drop_last() =~= d.subrange(0, i));
        assert(p.last() == d[i]);
    } else {
        assert(d.subrange(0, i) =~= d);
    }
}

/// Reads an unsigned number no larger than `max` (`FromStr`).
pub fn parse_unsigned(t: &[char], max: u64) -> (r: Option<u64>)
    ensures
        match parsed(t@, max as nat) {
            Some(v) => r == Some(v as u64),
            None => r is None,
        },
{
    let n = t.len();
    let start: usize = if n > 0 && t[0] == '+' { 1 } else { 0 };
    let ghost d = unsigned_digits(t@);
    assert(d =~= t@.subrange(start as int, n as int));
    if start == n {
        return None;
    }
    let mut value: u128 = 0;
    let mut i = start;
    while i < n
        invariant
            n == t@.len(),
            start <= i <= n,
            d == t@.subrange(start as int, n as int),
            d == unsigned_digits(t@),
            forall|k: int| 0 <= k < i - start ==> '0' <= #[trigger] d[k] <= '9',
            value == digits_value(d.subrange(0, i - start)),
            value <= max,
        decreases n - i,
    {
        let c = t[i];
        if c < '0' || c > '9' {
            assert(!all_digits(d)) by {
                assert(d[i - start] == c);
            }
            return None;
        }
        let digit = (c as u32 - 48) as u128;
        let next = value * 10 + digit;
        proof {
            let p = d.subrange(0, i - start + 1);
            assert(p.drop_last() =~= d.subrange(0, i - start));
            assert(p.last() == c);
        }
        if next > max as u128 {
            proof {
                if all_digits(d) {
                    lemma_digits_grow(d, i - start + 1);
                }
            }
            return None;
        }
        value = next;
        i = i + 1;
    }
    assert(d.subrange(0, n - start) =~= d);
    Some(value as u64)
}

/// The first whitespace at or after `from`, or the length when there is none.
pub open spec fn next_space(s: Seq<char>, from: int) -> int
    decreases s.len() - from,
{
    if from >= s.len() || from < 0 {
        s.len() as int
    } else if whitespace(s[from]) {
        from
    } else {
        next_space(s, from + 1)
    }
}

pub proof fn lemma_next_space(s: Seq<char>, from: int)
    requires
        0 <= from <= s.len(),
    ensures
        from <= next_space(s, from) <= s.len(),
        next_space(s, from) < s.len() ==> whitespace(s[next_space(s, from)]),
        forall|i: int| from <= i < next_space(s, from) ==> !whitespace(s[i]),
    decreases s.len() - from,
{
    if from < s.len() && !whitespace(s[from]) {
        lemma_next_space(s, from + 1);
    }
}

/// The whitespace-separated words of `s` from `from` (`str::split_whitespace`).
pub open spec fn words_from(s: Seq<char>, from: int) -> Seq<Seq<char>>
    decreases s.len() - from,
{
    if from < 0 || from >= s.len() {
        Seq::empty()
    } else {
        let end = next_space(s, from);
        proof {
            lemma_next_space(s, from);
        }
        let word = s.subrange(from, end);
        let rest = if end < s.len() {
            words_from(s, end + 1)
        } else {
            Seq::empty()
        };
        if word.len() == 0 {
            rest
        } else {
            seq![word] + rest
        }
    }
}

/// The whitespace-separated words of `s` (`str::split_whitespace`).
pub open spec fn words(s: Seq<char>) -> Seq<Seq<char>> {
    words_from(s, 0)
}

/// The whitespace-separated words of `s`.
pub fn split_words(s: &[char]) -> (r: Vec<Vec<char>>)
    ensures
        r@.len() == words(s@).len(),
        forall|i: int| 0 <= i < r@.len() ==> (#[trigger] r@[i])@ == words(s@)[i],
{
    let mut r: Vec<Vec<char>> = Vec::new();
    let n = s.len();
    let mut from: usize = 0;
    while from < n
        invariant
            n == s@.len(),
            from <= n,
            words(s@) =~= r@.map_values(|w: Vec<char>| w@) + words_from(s@, from as int),
        decreases n - from,
    {
        proof {
            lemma_next_space(s@, from as int);
        }
        let mut end = from;
        let mut word: Vec<char> = Vec::new();
        while end < n && !is_whitespace(s[end])
            invariant
                n == s@.len(),
                from <= end <= n,
                next_space(s@, end as int) == next_space(s@, from as int),
                word@ == s@.subrange(from as int, end as int),
            decreases n - end,
        {
            word.push(s[end]);
            assert(word@ =~= s@.subrange(from as int, end + 1));
            end = end + 1;
        }
        let ghost before = r@;
        if word.len() > 0 {
            r.push(word);
            proof {
                assert(r@.map_values(|w: Vec<char>| w@) =~= before.map_values(|w: Vec<char>| w@).push(s@.subrange(from as int, end as int)));
            }
        }
        if end < n {
            from = end + 1;
        } else {
            from = n;
        }
    }
    proof {
        assert(r@.map_values(|w: Vec<char>| w@).len() == r@.len());
        assert forall|i: int| 0 <= i < r@.len() implies (#[trigger] r@[i])@ == words(s@)[i] by {
            assert(r@.map_values(|w: Vec<char>| w@)[i] == r@[i]@);
        }
    }
    r
}

/// `str::trim_start`: the text without its leading whitespace.
pub open spec fn trim_start(s: Seq<char>) -> Seq<char>
    decreases s.len(),
{
    if s.len() > 0 && whitespace(s[0]) {
        trim_start(s.drop_first())
    } else {
        s
    }
}

/// `str::trim`: the text without leading or trailing whitespace.
pub open spec fn trim(s: Seq<char>) -> Seq<char> {
    trim_start(trim_end(s))
}

/// The number of leading whitespace characters of `s[..end]`.
pub fn leading_space(s: &[char], end: usize) -> (n: usize)
    requires
        end <= s@.len(),
    ensures
        n <= end,
        s@.subrange(n as int, end as int) == trim_start(s@.subrange(0, end as int)),
{
    let mut n: usize = 0;
    assert(s@.subrange(0, end as int).subrange(0, end as int) =~= s@.subrange(0, end as int));
    while n < end && is_whitespace(s[n])
        invariant
            n <= end <= s@.len(),
            trim_start(s@.subrange(n as int, end as int)) == trim_start(s@.subrange(0, end as int)),
        decreases end - n,
    {
        assert(s@.subrange(n as int, end as int).drop_first() =~= s@.subrange(n + 1, end as int));
        n = n + 1;
    }
    n
}

/// `u8::is_ascii_whitespace` for a character: space, tab, line feed, form
/// feed or carriage return.
pub open spec fn ascii_space(c: char) -> bool {
    c == ' ' || c == '\t' || c == '\n' || c == '\x0C' || c == '\r'
}

/// The first ASCII whitespace at or after `from`, or the length.
pub open spec fn next_ascii_space(s: Seq<char>, from: int) -> int
    decreases s.len() - from,
{
    if from >= s.len() || from < 0 {
        s.len() as int
    } else if ascii_space(s[from]) {
        from
    } else {
        next_ascii_space(s, from + 1)
    }
}

pub proof fn lemma_next_ascii_space(s: Seq<char>, from: int)
    requires
        0 <= from <= s.len(),
    ensures
        from <= next_ascii_space(s, from) <= s.len(),
        next_ascii_space(s, from) < s.len() ==> ascii_space(s[next_ascii_space(s, from)]),
        forall|i: int| from <= i < next_ascii_space(s, from) ==> !ascii_space(s[i]),
    decreases s.len() - from,
{
    if from < s.len() && !ascii_space(s[from]) {
        lemma_next_ascii_space(s, from + 1);
    }
}

/// The ASCII-whitespace-separated words of `s` from `from`
/// (`str::split_ascii_whitespace`).
pub open spec fn ascii_words_from(s: Seq<char>, from: int) -> Seq<Seq<char>>
    decreases s.len() - from,
{
    if from < 0 || from >= s.len() {
        Seq::empty()
    } else {
        let end = next_ascii_space(s, from);
        proof {
            lemma_next_ascii_space(s, from);
        }
        let word = s.subrange(from, end);
        let rest = if end < s.len() {
            ascii_words_from(s, end + 1)
        } else {
            Seq::empty()
        };
        if word.len() == 0 {
            rest
        } else {
            seq![word] + rest
        }
    }
}

/// The ASCII-whitespace-separated words of `s`.
pub open spec fn ascii_words(s: Seq<char>) -> Seq<Seq<char>> {
    ascii_words_from(s, 0)
}

/// The ASCII-whitespace-separated words of `s`.
pub fn split_ascii_words(s: &[char]) -> (r: Vec<Vec<char>>)
    ensures
        r@.len() == ascii_words(s@).len(),
        forall|i: int| 0 <= i < r@.len() ==> (#[trigger] r@[i])@ == ascii_words(s@)[i],
{
    let mut r: Vec<Vec<char>> = Vec::new();
    let n = s.len();
    let mut from: usize = 0;
    while from < n
        invariant
            n == s@.len(),
            from <= n,
            ascii_words(s@) =~= r@.map_values(|w: Vec<char>| w@) + ascii_words_from(s@, from as int),
        decreases n - from,
    {
        proof {
            lemma_next_ascii_space(s@, from as int);
        }
        let mut end = from;
        let mut word: Vec<char> = Vec::new();
        while end < n && !(s[end] == ' ' || s[end] == '\t' || s[end] == '\n' || s[end] == '\x0C' || s[end] == '\r')
            invariant
                n == s@.len(),
                from <= end <= n,
                next_ascii_space(s@, end as int) == next_ascii_space(s@, from as int),
                word@ == s@.subrange(from as int, end as int),
            decreases n - end,
        {
            word.push(s[end]);
            assert(word@ =~= s@.subrange(from as int, end + 1));
            end = end + 1;
        }
        let ghost before = r@;
        if word.len() > 0 {
            r.push(word);
            proof {
                assert(r@.map_values(|w: Vec<char>| w@) =~= before.map_values(|w: Vec<char>| w@).push(s@.subrange(from as int, end as int)));
            }
        }
        if end < n {
            from = end + 1;
        } else {
            from = n;
        }
    }
    proof {
        assert(r@.map_values(|w: Vec<char>| w@).len() == r@.len());
        assert forall|i: int| 0 <= i < r@.len() implies (#[trigger] r@[i])@ == ascii_words(s@)[i] by {
            assert(r@.map_values(|w: Vec<char>| w@)[i] == r@[i]@);
        }
    }
    r
}

} // verus!
