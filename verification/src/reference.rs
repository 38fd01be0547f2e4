//! The reference grammar: one absolute cell address, written as column
//! letters followed by a row number.
//!
//! `LETTERS DIGITS`, with `LETTERS` one or more of `A` to `Z` and `DIGITS`
//! one or more of `0` to `9`, and nothing before, between or after. Rows are
//! written from 1, so `A1` is the cell at column 0, row 0, and a row written
//! as 0 names no cell.

use crate::address::{column_of, decode_column, is_column_letter};
use crate::sheet::CellIdx;
use crate::text::{lemma_run_len_is, run_len, to_chars};
use vstd::prelude::*;

verus! {

/// What a text is under the reference grammar.
#[derive(Clone, Copy, PartialEq, Eq, Debug, Structural)]
pub enum Reference {
    /// The text does not have the form of an address.
    NotAReference,
    /// The text has the form of an address, but its row is 0 or its row or
    /// column lies beyond the address range.
    InvalidAddress,
    /// The text is the address of this cell.
    Target(CellIdx),
}

/// Whether `c` is one of the digits `0` to `9`.
pub open spec fn is_digit(c: char) -> bool {
    '0' <= c <= '9'
}

/// Whether `s` is made of the digits `0` to `9` alone. The empty text is.
pub open spec fn is_digits(s: Seq<char>) -> bool {
    forall|i: int| 0 <= i < s.len() ==> is_digit(#[trigger] s[i])
}

/// The number that the decimal digits `s` stand for.
pub open spec fn decimal_value(s: Seq<char>) -> nat
    decreases s.len(),
{
    if s.len() == 0 {
        0
    } else {
        (decimal_value(s.drop_last()) * 10 + (s.last() as int - '0' as int)) as nat
    }
}

/// How many column letters `s` begins with.
pub open spec fn letters_len(s: Seq<char>) -> nat {
    run_len(s, |c: char| is_column_letter(c))
}

/// Whether `s` has the form `LETTERS DIGITS`.
pub open spec fn is_reference(s: Seq<char>) -> bool {
    &&& 0 < letters_len(s) < s.len()
    &&& is_digits(s.skip(letters_len(s) as int))
}

/// The one-based column number written in a text of the form `LETTERS DIGITS`.
pub open spec fn written_column(s: Seq<char>) -> nat {
    decode_column(s.take(letters_len(s) as int))
}

/// The one-based row number written in a text of the form `LETTERS DIGITS`.
pub open spec fn written_row(s: Seq<char>) -> nat {
    decimal_value(s.skip(letters_len(s) as int))
}

/// What the text `s` is under the reference grammar. An address is valid
/// when its row is written as 1 or more and both row and column, counted
/// from zero, fit the address range.
pub open spec fn parse_reference(s: Seq<char>) -> Reference {
    if !is_reference(s) {
        Reference::NotAReference
    } else if written_row(s) == 0 || written_row(s) - 1 > u32::MAX || written_column(s) - 1
        > u32::MAX {
        Reference::InvalidAddress
    } else {
        Reference::Target(
            CellIdx { col: (written_column(s) - 1) as u32, row: (written_row(s) - 1) as u32 },
        )
    }
}

/// Appending digits never lowers the number: a prefix stands for no more
/// than the whole.
pub proof fn lemma_decimal_prefix(s: Seq<char>, k: int)
    requires
        is_digits(s),
        0 <= k <= s.len(),
    ensures
        decimal_value(s.take(k)) <= decimal_value(s),
    decreases s.len() - k,
{
    if k < s.len() {
        lemma_decimal_prefix(s, k + 1);
        let longer = s.take(k + 1);
        assert(longer.drop_last() == s.take(k));
        assert(longer.last() == s[k]);
        assert(is_digit(s[k]));
    } else {
        assert(s.take(k) == s);
    }
}

/// The zero-based row that the digits `chars[from..]` stand for; `None`
/// where they stand for 0 or for a row beyond the address range.
fn row_of(chars: &Vec<char>, from: usize) -> (row: Option<u32>)
    requires
        from <= chars.len(),
        is_digits(chars@.skip(from as int)),
    ensures
        match row {
            Some(r) => r == decimal_value(chars@.skip(from as int)) - 1,
            None => decimal_value(chars@.skip(from as int)) == 0 || decimal_value(
                chars@.skip(from as int),
            ) - 1 > u32::MAX,
        },
{
    let ghost digits = chars@.skip(from as int);
    let mut value: u64 = 0;
    let mut i: usize = from;
    while i < chars.len()
        invariant
            from <= i <= chars.len(),
            digits == chars@.skip(from as int),
            is_digits(digits),
            value == decimal_value(digits.take(i - from)),
            value <= 0x1_0000_0000,
        decreases chars.len() - i,
    {
        let c = chars[i];
        assert(c == digits[i - from]);
        assert(is_digit(c));
        let d: u64 = (c as u32 - '0' as u32) as u64;
        proof {
            let longer = digits.take(i - from + 1);
            assert(longer.drop_last() == digits.take(i - from));
            assert(longer.last() == c);
            lemma_decimal_prefix(digits, i - from + 1);
        }
        value = value * 10 + d;
        if value > 0x1_0000_0000 {
            return None;
        }
        i += 1;
    }
    assert(digits.take(chars.len() - from) == digits);
    if value == 0 {
        None
    } else {
        Some((value - 1) as u32)
    }
}

/// Reads `text` under the reference grammar.
pub fn parse(text: &str) -> (parsed: Reference)
    ensures
        parsed == parse_reference(text@),
{
    let chars = to_chars(text);
    let n = chars.len();
    let ghost letter = |c: char| is_column_letter(c);
    let mut k: usize = 0;
    while k < n && 'A' <= chars[k] && chars[k] <= 'Z'
        invariant
            k <= n == chars.len(),
            forall|i: int| 0 <= i < k ==> is_column_letter(#[trigger] chars@[i]),
        decreases n - k,
    {
        k += 1;
    }
    proof {
        assert forall|i: int| 0 <= i < k implies letter(#[trigger] chars@[i]) by {
            assert(is_column_letter(chars@[i]));
        }
        lemma_run_len_is(chars@, letter, k as int);
    }
    if k == 0 || k == n {
        return Reference::NotAReference;
    }
    let mut j: usize = k;
    while j < n && '0' <= chars[j] && chars[j] <= '9'
        invariant
            k <= j <= n == chars.len(),
            forall|i: int| k <= i < j ==> is_digit(#[trigger] chars@[i]),
        decreases n - j,
    {
        j += 1;
    }
    let ghost digits = chars@.skip(k as int);
    if j < n {
        assert(!is_digit(digits[j - k]));
        return Reference::NotAReference;
    }
    assert forall|i: int| 0 <= i < digits.len() implies is_digit(#[trigger] digits[i]) by {
        assert(digits[i] == chars@[i + k]);
    }
    assert(chars@.subrange(0, k as int) == chars@.take(k as int));
    let col = column_of(&chars, 0, k);
    let row = row_of(&chars, k);
    match (col, row) {
        (Some(col), Some(row)) => Reference::Target(CellIdx { col, row }),
        _ => Reference::InvalidAddress,
    }
}

} // verus!
