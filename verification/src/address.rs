//! Column letters: the bijective base-26 numbering A, B, .., Z, AA, AB, ..
//!
//! No letter stands for zero: `A` is 1 and `Z` is 26, so `AA` is 27. Stored
//! addresses count columns from zero, so the column at index `c` is labelled
//! with the letters of `c + 1`.

use crate::text::{from_chars, to_chars};
use vstd::prelude::*;

verus! {

/// Whether `c` is one of the letters `A` to `Z`.
pub open spec fn is_column_letter(c: char) -> bool {
    'A' <= c <= 'Z'
}

/// Whether `s` is made of the letters `A` to `Z` alone. The empty text is.
pub open spec fn is_column_letters(s: Seq<char>) -> bool {
    forall|i: int| 0 <= i < s.len() ==> is_column_letter(#[trigger] s[i])
}

/// The value of a letter: 1 for `A`, 26 for `Z`.
pub open spec fn letter_value(c: char) -> int {
    c as int - 'A' as int + 1
}

/// The letter whose value is `v`, for `v` from 1 to 26.
pub open spec fn letter_of(v: int) -> char {
    ('A' as int + v - 1) as char
}

/// The letters of column number `n`, counted from 1. Zero has no letters.
pub open spec fn encode_column(n: nat) -> Seq<char>
    decreases n,
{
    if n == 0 {
        Seq::empty()
    } else {
        encode_column(((n - 1) / 26) as nat).push(letter_of((n - 1) % 26 + 1))
    }
}

/// The column number, counted from 1, that the letters `s` stand for.
pub open spec fn decode_column(s: Seq<char>) -> nat
    decreases s.len(),
{
    if s.len() == 0 {
        0
    } else {
        (decode_column(s.drop_last()) * 26 + letter_value(s.last())) as nat
    }
}

/// The letters of a number are letters `A` to `Z`, and at least one of them
/// unless the number is zero.
pub proof fn lemma_encode_letters(n: nat)
    ensures
        is_column_letters(encode_column(n)),
        n > 0 ==> encode_column(n).len() > 0,
    decreases n,
{
    if n > 0 {
        lemma_encode_letters(((n - 1) / 26) as nat);
    }
}

/// Decoding undoes encoding: every column number is found again from its
/// letters.
pub proof fn lemma_decode_encode(n: nat)
    ensures
        decode_column(encode_column(n)) == n,
    decreases n,
{
    if n > 0 {
        let q = ((n - 1) / 26) as nat;
        let s = encode_column(n);
        lemma_decode_encode(q);
        assert(s.drop_last() == encode_column(q));
    }
}

/// Encoding undoes decoding: letters `A` to `Z` are found again from the
/// number they stand for, so the two numberings correspond one to one.
pub proof fn lemma_encode_decode(s: Seq<char>)
    requires
        is_column_letters(s),
    ensures
        encode_column(decode_column(s)) == s,
    decreases s.len(),
{
    if s.len() > 0 {
        let d = decode_column(s.drop_last());
        let v = letter_value(s.last());
        lemma_encode_decode(s.drop_last());
        assert(1 <= v <= 26);
        let n = decode_column(s);
        assert(n == d * 26 + v);
        assert((n - 1) / 26 == d && (n - 1) % 26 == v - 1);
        assert(letter_of(v) == s.last());
        assert(s.drop_last().push(s.last()) == s);
    }
}

/// Appending letters never lowers the number: a prefix stands for no more
/// than the whole.
pub proof fn lemma_decode_prefix(s: Seq<char>, k: int)
    requires
        is_column_letters(s),
        0 <= k <= s.len(),
    ensures
        decode_column(s.take(k)) <= decode_column(s),
        k > 0 ==> decode_column(s.take(k)) >= 1,
    decreases s.len() - k,
{
    if k < s.len() {
        lemma_decode_prefix(s, k + 1);
        let longer = s.take(k + 1);
        assert(longer.drop_last() == s.take(k));
        assert(longer.last() == s[k]);
        assert(is_column_letter(s[k]));
    } else {
        assert(s.take(k) == s);
        if k > 0 {
            assert(is_column_letter(s.last()));
        }
    }
}

/// The letters that label column number `col`, counted from 1: `A` for 1,
/// `Z` for 26, `AA` for 27.
pub fn col_to_letters(col: usize) -> (text: String)
    requires
        col >= 1,
    ensures
        text@ == encode_column(col as nat),
{
    let mut scratch: usize = col - 1;
    let mut letters: Vec<char> = Vec::new();
    loop
        invariant_except_break
            encode_column(col as nat) == encode_column((scratch + 1) as nat) + letters@,
        ensures
            letters@ == encode_column(col as nat),
        decreases scratch,
    {
        let current: u8 = (scratch % 26) as u8;
        let ghost lower = letters@;
        letters.insert(0, (current + 65) as char);
        proof {
            let before = encode_column((scratch + 1) as nat);
            let higher = encode_column((scratch / 26) as nat);
            assert(before == higher.push(letter_of(current + 1)));
            assert(letter_of(current + 1) == (current + 65) as char);
            assert(before + lower == higher + letters@);
        }
        scratch /= 26;
        if scratch == 0 {
            assert(Seq::<char>::empty() + letters@ == letters@);
            break ;
        }
        scratch -= 1;
    }
    let n = letters.len();
    let text = from_chars(&letters, 0, n);
    assert(letters@.subrange(0, n as int) == letters@);
    text
}

/// The zero-based column that the letters `chars[from..to]` stand for, or
/// `None` where it is beyond the address range.
pub fn column_of(chars: &Vec<char>, from: usize, to: usize) -> (col: Option<u32>)
    requires
        from < to <= chars.len(),
        is_column_letters(chars@.subrange(from as int, to as int)),
    ensures
        match col {
            Some(c) => c == decode_column(chars@.subrange(from as int, to as int)) - 1,
            None => decode_column(chars@.subrange(from as int, to as int)) - 1 > u32::MAX,
        },
{
    let ghost letters = chars@.subrange(from as int, to as int);
    let mut value: u64 = 0;
    let mut i: usize = from;
    while i < to
        invariant
            from <= i <= to <= chars.len(),
            letters == chars@.subrange(from as int, to as int),
            is_column_letters(letters),
            value == decode_column(letters.take(i - from)),
            value <= 0x1_0000_0000,
        decreases to - i,
    {
        let c = chars[i];
        assert(c == letters[i - from]);
        assert(is_column_letter(c));
        let v: u64 = (c as u32 - 'A' as u32 + 1) as u64;
        proof {
            let longer = letters.take(i - from + 1);
            assert(longer.drop_last() == letters.take(i - from));
            assert(longer.last() == c);
            lemma_decode_prefix(letters, i - from + 1);
        }
        value = value * 26 + v;
        if value > 0x1_0000_0000 {
            return None;
        }
        i += 1;
    }
    proof {
        assert(letters.take(to - from) == letters);
        lemma_decode_prefix(letters, to - from);
    }
    Some((value - 1) as u32)
}

/// The zero-based column that the letters `s` stand for: 0 for `A`, 25 for
/// `Z`, 26 for `AA`.
pub fn str_to_col(s: &str) -> (col: u32)
    requires
        s@.len() > 0,
        is_column_letters(s@),
        decode_column(s@) - 1 <= u32::MAX,
    ensures
        col == decode_column(s@) - 1,
{
    let chars = to_chars(s);
    let n = chars.len();
    assert(chars@.subrange(0, n as int) == s@);
    column_of(&chars, 0, n).unwrap()
}

} // verus!
