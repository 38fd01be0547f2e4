//! Text as sequences of characters: conversion, trimming and the first line.

use vstd::prelude::*;

verus! {

/// `String::push` appends one character at the end of the string.
pub assume_specification[ String::push ](s: &mut String, ch: char)
    ensures
        final(s)@ == old(s)@.push(ch),
;

/// The characters of `s`, in order.
pub fn to_chars(s: &str) -> (v: Vec<char>)
    ensures
        v@ == s@,
{
    let mut v: Vec<char> = Vec::new();
    for c in it: s.chars()
        invariant
            v@ == it.seq().take(it.index() as int),
            it.seq() == s@,
    {
        v.push(c);
    }
    v
}

/// The string made of `chars[from..to]`.
pub fn from_chars(chars: &Vec<char>, from: usize, to: usize) -> (s: String)
    requires
        from <= to <= chars.len(),
    ensures
        s@ == chars@.subrange(from as int, to as int),
{
    let mut s = String::new();
    let mut i: usize = from;
    while i < to
        invariant
            from <= i <= to <= chars.len(),
            s@ == chars@.subrange(from as int, i as int),
        decreases to - i,
    {
        s.push(chars[i]);
        i += 1;
        assert(chars@.subrange(from as int, i as int) == chars@.subrange(
            from as int,
            i - 1,
        ).push(chars@[i - 1]));
    }
    s
}

/// Whether `c` is white space: the code points that Unicode gives the
/// property White_Space.
pub open spec fn is_space(c: char) -> bool {
    let n = c as u32;
    ||| 0x09 <= n <= 0x0D
    ||| n == 0x20
    ||| n == 0x85
    ||| n == 0xA0
    ||| n == 0x1680
    ||| 0x2000 <= n <= 0x200A
    ||| n == 0x2028
    ||| n == 0x2029
    ||| n == 0x202F
    ||| n == 0x205F
    ||| n == 0x3000
}

/// How many characters `s` begins with that all satisfy `p`: the index of the
/// first one that does not, or the length of `s`.
pub open spec fn run_len(s: Seq<char>, p: spec_fn(char) -> bool) -> nat
    decreases s.len(),
{
    if s.len() > 0 && p(s[0]) {
        1 + run_len(s.drop_first(), p)
    } else {
        0
    }
}

/// How many characters of white space `s` begins with.
pub open spec fn leading_space(s: Seq<char>) -> nat {
    run_len(s, |c: char| is_space(c))
}

/// How many characters of white space `s` ends with.
pub open spec fn trailing_space(s: Seq<char>) -> nat
    decreases s.len(),
{
    if s.len() > 0 && is_space(s.last()) {
        1 + trailing_space(s.drop_last())
    } else {
        0
    }
}

/// `s` without the white space around it.
pub open spec fn trimmed(s: Seq<char>) -> Seq<char> {
    let rest = s.skip(leading_space(s) as int);
    rest.take(rest.len() - trailing_space(rest))
}

/// How many characters stand before the first carriage return of `s`; its
/// length where it has none.
pub open spec fn line_end(s: Seq<char>) -> nat {
    run_len(s, |c: char| c != '\r')
}

/// What stands before the first carriage return of `s`; all of `s` where it
/// has none.
pub open spec fn first_line(s: Seq<char>) -> Seq<char> {
    s.take(line_end(s) as int)
}

/// A run ends within the text; all before its end satisfies `p`, and what
/// stands at its end, if anything, does not.
pub proof fn lemma_run_len(s: Seq<char>, p: spec_fn(char) -> bool)
    ensures
        run_len(s, p) <= s.len(),
        forall|i: int| 0 <= i < run_len(s, p) ==> p(#[trigger] s[i]),
        run_len(s, p) < s.len() ==> !p(s[run_len(s, p) as int]),
    decreases s.len(),
{
    if s.len() > 0 && p(s[0]) {
        let rest = s.drop_first();
        lemma_run_len(rest, p);
        assert forall|i: int| 0 <= i < run_len(s, p) implies p(#[trigger] s[i]) by {
            if i > 0 {
                assert(s[i] == rest[i - 1]);
            }
        }
        if run_len(s, p) < s.len() {
            assert(s[run_len(s, p) as int] == rest[run_len(rest, p) as int]);
        }
    }
}

/// The length of a run is the one index before which all satisfies `p` and at
/// which, if the text goes that far, something stands that does not.
pub proof fn lemma_run_len_is(s: Seq<char>, p: spec_fn(char) -> bool, n: int)
    requires
        0 <= n <= s.len(),
        forall|i: int| 0 <= i < n ==> p(#[trigger] s[i]),
        n < s.len() ==> !p(s[n]),
    ensures
        run_len(s, p) == n,
{
    lemma_run_len(s, p);
    let m = run_len(s, p) as int;
    if m < n {
        assert(p(s[m]));
    } else if n < m {
        assert(p(s[n]));
    }
}

/// Trailing white space ends within the text; all behind its start is white
/// space, and what stands before its start, if anything, is not.
pub proof fn lemma_trailing_space(s: Seq<char>)
    ensures
        trailing_space(s) <= s.len(),
        forall|i: int| s.len() - trailing_space(s) <= i < s.len() ==> is_space(#[trigger] s[i]),
        trailing_space(s) < s.len() ==> !is_space(s[s.len() - trailing_space(s) - 1]),
    decreases s.len(),
{
    if s.len() > 0 && is_space(s.last()) {
        let rest = s.drop_last();
        lemma_trailing_space(rest);
        assert forall|i: int| s.len() - trailing_space(s) <= i < s.len() implies is_space(
            #[trigger] s[i],
        ) by {
            if i < s.len() - 1 {
                assert(s[i] == rest[i]);
            }
        }
        if trailing_space(s) < s.len() {
            assert(s[s.len() - trailing_space(s) - 1] == rest[rest.len() - trailing_space(rest)
                - 1]);
        }
    }
}

/// The count of trailing white space is the one distance from the end behind
/// which all is white space and before which, if anything, something else
/// stands.
pub proof fn lemma_trailing_space_is(s: Seq<char>, n: int)
    requires
        0 <= n <= s.len(),
        forall|i: int| s.len() - n <= i < s.len() ==> is_space(#[trigger] s[i]),
        n < s.len() ==> !is_space(s[s.len() - n - 1]),
    ensures
        trailing_space(s) == n,
{
    lemma_trailing_space(s);
    let m = trailing_space(s) as int;
    if m < n {
        assert(is_space(s[s.len() - m - 1]));
    } else if n < m {
        assert(is_space(s[s.len() - n - 1]));
    }
}

/// Trimmed text is empty, or begins and ends with something that is not
/// white space; trimming it again changes nothing.
pub proof fn lemma_trimmed(s: Seq<char>)
    ensures
        trimmed(s).len() <= s.len(),
        trimmed(s).len() > 0 ==> !is_space(trimmed(s)[0]) && !is_space(trimmed(s).last()),
        trimmed(trimmed(s)) == trimmed(s),
{
    lemma_run_len(s, |c: char| is_space(c));
    let rest = s.skip(leading_space(s) as int);
    lemma_trailing_space(rest);
    let t = trimmed(s);
    if rest.len() > 0 {
        assert(rest[0] == s[leading_space(s) as int]);
        assert(trailing_space(rest) < rest.len());
        assert(t[0] == rest[0]);
        assert(t.last() == rest[rest.len() - trailing_space(rest) - 1]);
    }
    lemma_unspaced_is_trimmed(t);
}

/// Text that is empty, or begins and ends with something that is not white
/// space, is its own trimmed form.
pub proof fn lemma_unspaced_is_trimmed(s: Seq<char>)
    requires
        s.len() > 0 ==> !is_space(s[0]) && !is_space(s.last()),
    ensures
        trimmed(s) == s,
{
    assert(leading_space(s) == 0);
    assert(s.skip(0) == s);
    assert(trailing_space(s) == 0);
    assert(s.take(s.len() as int) == s);
}

/// A first line holds no carriage return. Text that holds none is its own
/// first line, so taking the first line twice is taking it once.
pub proof fn lemma_first_line(s: Seq<char>)
    ensures
        !first_line(s).contains('\r'),
        !s.contains('\r') ==> first_line(s) == s,
        first_line(first_line(s)) == first_line(s),
{
    let not_break = |c: char| c != '\r';
    lemma_run_len(s, not_break);
    let l = first_line(s);
    if l.contains('\r') {
        let i = choose|i: int| 0 <= i < l.len() && l[i] == '\r';
        assert(not_break(s[i]));
    }
    if !s.contains('\r') {
        if line_end(s) < s.len() {
            assert(s.contains(s[line_end(s) as int]));
        }
        assert(s.take(s.len() as int) == s);
    }
    assert forall|i: int| 0 <= i < l.len() implies not_break(#[trigger] l[i]) by {
        assert(l[i] == s[i]);
    }
    lemma_run_len_is(l, not_break, l.len() as int);
    assert(l.take(l.len() as int) == l);
}

/// Whether `c` is white space.
pub fn is_whitespace(c: char) -> (b: bool)
    ensures
        b == is_space(c),
{
    let n: u32 = c as u32;
    (0x09 <= n && n <= 0x0D) || n == 0x20 || n == 0x85 || n == 0xA0 || n == 0x1680 || (0x2000
        <= n && n <= 0x200A) || n == 0x2028 || n == 0x2029 || n == 0x202F || n == 0x205F || n
        == 0x3000
}

/// `s` without the white space around it.
pub fn trim(s: &str) -> (t: String)
    ensures
        t@ == trimmed(s@),
{
    let chars = to_chars(s);
    let mut start: usize = 0;
    while start < chars.len() && is_whitespace(chars[start])
        invariant
            start <= chars.len(),
            forall|i: int| 0 <= i < start ==> is_space(#[trigger] chars@[i]),
        decreases chars.len() - start,
    {
        start += 1;
    }
    let mut end: usize = chars.len();
    while end > start && is_whitespace(chars[end - 1])
        invariant
            start <= end <= chars.len(),
            forall|i: int| end <= i < chars.len() ==> is_space(#[trigger] chars@[i]),
        decreases end,
    {
        end -= 1;
    }
    proof {
        lemma_run_len_is(chars@, |c: char| is_space(c), start as int);
        let rest = chars@.skip(start as int);
        assert forall|i: int| rest.len() - (chars.len() - end) <= i < rest.len() implies is_space(
            #[trigger] rest[i],
        ) by {
            assert(rest[i] == chars@[i + start]);
        }
        if end > start {
            assert(rest[rest.len() - (chars.len() - end) - 1] == chars@[end - 1]);
        }
        lemma_trailing_space_is(rest, chars.len() - end);
        assert(rest.take(end - start) == chars@.subrange(start as int, end as int));
    }
    from_chars(&chars, start, end)
}

/// `s` without its first character, where that character is `c`.
pub fn strip_first(s: &str, c: char) -> (rest: Option<String>)
    ensures
        match rest {
            Some(rest) => s@.len() > 0 && s@[0] == c && rest@ == s@.skip(1),
            None => s@.len() == 0 || s@[0] != c,
        },
{
    let chars = to_chars(s);
    let n = chars.len();
    if n > 0 && chars[0] == c {
        assert(chars@.subrange(1, n as int) == s@.skip(1));
        Some(from_chars(&chars, 1, n))
    } else {
        None
    }
}

/// What stands before the first carriage return of `s`; `s` itself where it
/// has none.
pub fn display_line(s: String) -> (line: String)
    ensures
        line@ == first_line(s@),
{
    let chars = to_chars(s.as_str());
    let mut end: usize = 0;
    while end < chars.len() && chars[end] != '\r'
        invariant
            end <= chars.len(),
            forall|i: int| 0 <= i < end ==> #[trigger] chars@[i] != '\r',
        decreases chars.len() - end,
    {
        end += 1;
    }
    proof {
        lemma_run_len_is(chars@, |c: char| c != '\r', end as int);
    }
    if end == chars.len() {
        assert(s@.take(s@.len() as int) == s@);
        s
    } else {
        assert(chars@.take(end as int) == chars@.subrange(0, end as int));
        from_chars(&chars, 0, end)
    }
}

} // verus!
