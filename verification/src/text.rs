//! Small string primitives shared by the encoders and decoders.

use vstd::prelude::*;

verus! {

/// Appends one character with std's `String::push`. Trusted, not proved:
/// the contract claims that the string afterwards holds its former
/// characters followed by `c`, as std documents.
#[verifier::external_body]
pub(crate) fn push_char(s: &mut String, c: char)
    ensures
        final(s)@ == old(s)@.push(c),
{
    s.push(c);
}

/// Appends a string slice, by vstd's `append` on `String`.
pub(crate) fn push_text(s: &mut String, t: &str)
    ensures
        final(s)@ == old(s)@ + t@,
{
    s.append(t);
}

/// The character with the given code point, by std's `char::from_u32`.
/// Trusted, not proved: the contract claims a character exactly for a
/// Unicode scalar value (not a surrogate, at most 0x10FFFF), and that it has
/// that code point, as std documents.
#[verifier::external_body]
pub(crate) fn char_from_u32(code: u32) -> (r: Option<char>)
    ensures
        r is Some <==> vstd::utf8::is_scalar(code),
        r matches Some(c) ==> c as u32 == code,
{
    char::from_u32(code)
}

/// Whether two string slices hold the same characters.
pub fn text_equal(a: &str, b: &str) -> (r: bool)
    ensures
        r == (a@ == b@),
{
    let x = a.as_bytes();
    let y = b.as_bytes();
    proof {
        vstd::utf8::encode_utf8_decode_utf8(a@);
        vstd::utf8::encode_utf8_decode_utf8(b@);
        assert(x@ == vstd::utf8::encode_utf8(a@));
        assert(y@ == vstd::utf8::encode_utf8(b@));
    }
    if x.len() != y.len() {
        return false;
    }
    let mut i: usize = 0;
    while i < x.len()
        invariant
            x@ == vstd::utf8::encode_utf8(a@),
            y@ == vstd::utf8::encode_utf8(b@),
            x@.len() == y@.len(),
            i <= x@.len(),
            forall|j: int| 0 <= j < i ==> x@[j] == y@[j],
        decreases x@.len() - i,
    {
        if x[i] != y[i] {
            assert(x@ != y@);
            return false;
        }
        i = i + 1;
    }
    assert(x@ =~= y@);
    true
}

/// An owned copy of a string slice.
pub fn owned(t: &str) -> (s: String)
    ensures
        s@ == t@,
{
    t.to_owned()
}

} // verus!

verus! {

/// The characters of a string slice.
pub fn chars_of(s: &str) -> (v: Vec<char>)
    ensures
        v@ == s@,
{
    let mut v: Vec<char> = Vec::new();
    for c in it: s.chars()
        invariant
            it.seq() == s@,
            it.index() <= s@.len(),
            v@ == s@.subrange(0, it.index() as int),
    {
        let ghost i = it.index();
        v.push(c);
        assert(v@ =~= s@.subrange(0, i + 1));
    }
    assert(v@ =~= s@);
    v
}

/// A string holding `v[from..to]`.
pub fn string_of(v: &[char], from: usize, to: usize) -> (s: String)
    requires
        from <= to <= v@.len(),
    ensures
        s@ == v@.subrange(from as int, to as int),
{
    let mut s = String::new();
    let mut i = from;
    while i < to
        invariant
            from <= i <= to <= v@.len(),
            s@ == v@.subrange(from as int, i as int),
        decreases to - i,
    {
        push_char(&mut s, v[i]);
        assert(s@ =~= v@.subrange(from as int, i + 1));
        i = i + 1;
    }
    s
}

/// One line as `str::lines` yields it: a line ended by a newline loses one
/// trailing carriage return.
pub open spec fn strip_cr(line: Seq<char>) -> Seq<char> {
    if line.len() > 0 && line.last() == '\r' {
        line.drop_last()
    } else {
        line
    }
}

/// The first newline at or after `from`, or the length when there is none.
pub open spec fn next_newline(s: Seq<char>, from: int) -> int
    decreases s.len() - from,
{
    if from >= s.len() || from < 0 {
        s.len() as int
    } else if s[from] == '\n' {
        from
    } else {
        next_newline(s, from + 1)
    }
}

/// The lines of `s` from position `from`, as `str::lines` yields them.
pub open spec fn lines_from(s: Seq<char>, from: int) -> Seq<Seq<char>>
    decreases s.len() - from,
{
    if from >= s.len() || from < 0 {
        Seq::empty()
    } else {
        let end = next_newline(s, from);
        if end >= s.len() {
            seq![s.subrange(from, s.len() as int)]
        } else {
            proof {
                lemma_next_newline(s, from);
            }
            seq![strip_cr(s.subrange(from, end))] + lines_from(s, end + 1)
        }
    }
}

pub proof fn lemma_next_newline(s: Seq<char>, from: int)
    requires
        0 <= from,
    ensures
        from <= next_newline(s, from) <= s.len() || (from > s.len() && next_newline(s, from) == s.len()),
        next_newline(s, from) < s.len() ==> s[next_newline(s, from)] == '\n',
        forall|i: int| from <= i < next_newline(s, from) ==> s[i] != '\n',
    decreases s.len() - from,
{
    if from < s.len() && s[from] != '\n' {
        lemma_next_newline(s, from + 1);
    }
}

/// The lines of `s` (`str::lines`).
pub open spec fn lines_spec(s: Seq<char>) -> Seq<Seq<char>> {
    lines_from(s, 0)
}

/// The lines of `s` (`str::lines`), each as characters.
pub fn lines(s: &[char]) -> (r: Vec<Vec<char>>)
    ensures
        r@.len() == lines_spec(s@).len(),
        forall|i: int| 0 <= i < r@.len() ==> (#[trigger] r@[i])@ == lines_spec(s@)[i],
{
    let mut r: Vec<Vec<char>> = Vec::new();
    let mut from: usize = 0;
    let n = s.len();
    while from < n
        invariant
            n == s@.len(),
            from <= n,
            lines_spec(s@) =~= r@.map_values(|l: Vec<char>| l@) + lines_from(s@, from as int),
        decreases n - from,
    {
        let mut end = from;
        proof {
            lemma_next_newline(s@, from as int);
        }
        while end < n && s[end] != '\n'
            invariant
                n == s@.len(),
                from <= end <= n,
                next_newline(s@, end as int) == next_newline(s@, from as int),
            decreases n - end,
        {
            end = end + 1;
        }
        let mut line: Vec<char> = Vec::new();
        let mut i = from;
        let stop = if end < n && end > from && s[end - 1] == '\r' { end - 1 } else { end };
        while i < stop
            invariant
                from <= i <= stop <= end <= n == s@.len(),
                line@ == s@.subrange(from as int, i as int),
            decreases stop - i,
        {
            line.push(s[i]);
            assert(line@ =~= s@.subrange(from as int, i + 1));
            i = i + 1;
        }
        let ghost before = r@;
        r.push(line);
        proof {
            let piece = s@.subrange(from as int, end as int);
            if end < n {
                assert(strip_cr(piece) =~= line@);
            } else {
                assert(line@ =~= s@.subrange(from as int, n as int));
            }
            assert(r@.map_values(|l: Vec<char>| l@) =~= before.map_values(|l: Vec<char>| l@).push(line@));
        }
        if end < n {
            from = end + 1;
        } else {
            from = n;
        }
    }
    proof {
        assert(r@.map_values(|l: Vec<char>| l@).len() == r@.len());
        assert forall|i: int| 0 <= i < r@.len() implies (#[trigger] r@[i])@ == lines_spec(s@)[i] by {
            assert(r@.map_values(|l: Vec<char>| l@)[i] == r@[i]@);
        }
    }
    r
}

/// The lines of a text, each as a string (the host asks of each listed path
/// whether it is a directory).
pub fn lines_of(s: &str) -> (r: Vec<String>)
    ensures
        r@.len() == lines_spec(s@).len(),
        forall|i: int| 0 <= i < r@.len() ==> (#[trigger] r@[i])@ == lines_spec(s@)[i],
{
    let spelled = chars_of(s);
    let all = lines(spelled.as_slice());
    let mut r: Vec<String> = Vec::new();
    let mut i: usize = 0;
    while i < all.len()
        invariant
            spelled@ == s@,
            all@.len() == lines_spec(s@).len(),
            forall|k: int| 0 <= k < all@.len() ==> (#[trigger] all@[k])@ == lines_spec(s@)[k],
            i <= all@.len(),
            r@.len() == i,
            forall|k: int| 0 <= k < i ==> (#[trigger] r@[k])@ == lines_spec(s@)[k],
        decreases all@.len() - i,
    {
        let line = string_of(all[i].as_slice(), 0, all[i].len());
        proof {
            assert(all@[i as int]@.subrange(0, all@[i as int]@.len() as int) =~= all@[i as int]@);
        }
        r.push(line);
        i = i + 1;
    }
    r
}

/// Whether `v` begins with `prefix`.
pub fn starts_with(v: &[char], prefix: &[char]) -> (r: bool)
    ensures
        r == (prefix@.len() <= v@.len() && v@.subrange(0, prefix@.len() as int) == prefix@),
{
    if prefix.len() > v.len() {
        return false;
    }
    let mut i: usize = 0;
    while i < prefix.len()
        invariant
            prefix@.len() <= v@.len(),
            i <= prefix@.len(),
            forall|j: int| 0 <= j < i ==> v@[j] == prefix@[j],
        decreases prefix@.len() - i,
    {
        if v[i] != prefix[i] {
            assert(v@.subrange(0, prefix@.len() as int)[i as int] != prefix@[i as int]);
            return false;
        }
        i = i + 1;
    }
    assert(v@.subrange(0, prefix@.len() as int) =~= prefix@);
    true
}

/// Whether two character sequences are equal.
pub fn chars_equal(a: &[char], b: &[char]) -> (r: bool)
    ensures
        r == (a@ == b@),
{
    if a.len() != b.len() {
        return false;
    }
    let r = starts_with(a, b);
    assert(a@.subrange(0, b@.len() as int) =~= a@);
    r
}

} // verus!

verus! {

/// Whether `needle` occurs in `s` at position `i`.
pub open spec fn occurs_at(s: Seq<char>, needle: Seq<char>, i: int) -> bool {
    0 <= i && i + needle.len() <= s.len() && s.subrange(i, i + needle.len()) == needle
}

/// Whether `needle` occurs in `s` (`str::contains`).
pub open spec fn contains(s: Seq<char>, needle: Seq<char>) -> bool {
    exists|i: int| occurs_at(s, needle, i)
}

/// Whether `needle` occurs in `s`.
pub fn contains_chars(s: &[char], needle: &[char]) -> (r: bool)
    ensures
        r == contains(s@, needle@),
{
    if needle.len() > s.len() {
        return false;
    }
    let n = s.len();
    let last = n - needle.len();
    let mut i: usize = 0;
    while i <= last
        invariant
            last == s@.len() - needle@.len(),
            n == s@.len(),
            needle@.len() <= s@.len(),
            i <= last + 1,
            forall|j: int| 0 <= j < i ==> !occurs_at(s@, needle@, j),
        decreases last + 1 - i,
    {
        let mut k: usize = 0;
        let mut same = true;
        while k < needle.len()
            invariant
                i <= last,
                n == s@.len(),
                needle@.len() <= s@.len(),
                last == s@.len() - needle@.len(),
                k <= needle@.len(),
                same == (forall|j: int| 0 <= j < k ==> s@[i + j] == needle@[j]),
            decreases needle@.len() - k,
        {
            if s[i + k] != needle[k] {
                same = false;
            }
            k = k + 1;
        }
        if same {
            assert(s@.subrange(i as int, i + needle@.len()) =~= needle@);
            assert(occurs_at(s@, needle@, i as int));
            return true;
        } else {
            assert forall|j: int| 0 <= j < i + 1 implies !occurs_at(s@, needle@, j) by {
                if j == i {
                    if occurs_at(s@, needle@, j) {
                        assert forall|m: int| 0 <= m < needle@.len() implies s@[i + m] == needle@[m] by {
                            assert(s@.subrange(j, j + needle@.len())[m] == s@[i + m]);
                        }
                    }
                }
            }
        }
        if i == last {
            assert(forall|j: int| !occurs_at(s@, needle@, j));
            return false;
        }
        i = i + 1;
    }
    assert(forall|j: int| !occurs_at(s@, needle@, j));
    false
}

/// Owned copies of string literals, in order.
pub fn owned_all(words: &[&str]) -> (r: Vec<String>)
    ensures
        r@.map_values(|s: String| s@) == words@.map_values(|s: &str| s@),
{
    let mut r: Vec<String> = Vec::new();
    let mut i: usize = 0;
    while i < words.len()
        invariant
            i <= words@.len(),
            r@.len() == i,
            forall|k: int| 0 <= k < i ==> (#[trigger] r@[k])@ == words@[k]@,
        decreases words@.len() - i,
    {
        r.push(owned(words[i]));
        i = i + 1;
    }
    assert(r@.map_values(|s: String| s@) =~= words@.map_values(|s: &str| s@));
    r
}

} // verus!
