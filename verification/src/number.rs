//! Numeric literals: which texts denote a number, and which integer.

use vstd::prelude::*;
use crate::strings::{is_ascii_digit, occurrences};

verus! {

/// The number that the ASCII digit `c` stands for.
pub open spec fn digit_value(c: char) -> nat
    recommends
        is_ascii_digit(c),
{
    (c as int - '0' as int) as nat
}

/// Every character of `text` is an ASCII digit.
pub open spec fn all_ascii_digits(text: Seq<char>) -> bool {
    forall|i: int| 0 <= i < text.len() ==> is_ascii_digit(#[trigger] text[i])
}

/// The number that a text of ASCII digits denotes in base ten.
pub open spec fn decimal_value(digits: Seq<char>) -> nat
    decreases digits.len(),
{
    if digits.len() == 0 {
        0
    } else {
        10 * decimal_value(digits.drop_last()) + digit_value(digits.last())
    }
}

/// The value of an integer literal: `text` is one or more ASCII digits and the
/// number they denote fits into 64 bits with a sign. Any other text has none.
pub open spec fn integer_literal(text: Seq<char>) -> Option<i64> {
    if text.len() > 0 && all_ascii_digits(text) && decimal_value(text) <= i64::MAX {
        Some(decimal_value(text) as i64)
    } else {
        None
    }
}

/// `text` is a floating-point literal: ASCII digits around exactly one `.`, with
/// at least one digit. Every such text is accepted by `f64`'s `FromStr`.
pub open spec fn is_float_literal(text: Seq<char>) -> bool {
    &&& text.len() >= 2
    &&& occurrences(text, '.') == 1
    &&& forall|i: int| 0 <= i < text.len() ==> is_ascii_digit(#[trigger] text[i]) || text[i] == '.'
}

/// A longer text of digits denotes at least as much as any of its prefixes.
pub proof fn lemma_decimal_value_grows(digits: Seq<char>, k: int)
    requires
        0 <= k <= digits.len(),
    ensures
        decimal_value(digits.take(k)) <= decimal_value(digits),
    decreases digits.len(),
{
    if k == digits.len() {
        assert(digits.take(k) =~= digits);
    } else {
        lemma_decimal_value_grows(digits.drop_last(), k);
        assert(digits.drop_last().take(k) =~= digits.take(k));
    }
}

/// Reads an integer literal.
pub fn parse_integer(text: &str) -> (value: Option<i64>)
    ensures
        value == integer_literal(text@),
{
    let mut acc: i64 = 0;
    let mut any: bool = false;
    for c in it: text.chars()
        invariant
            it.seq() == text@,
            any == (it.index() > 0),
            all_ascii_digits(text@.take(it.index())),
            acc == decimal_value(text@.take(it.index())),
    {
        let ghost k = it.index();
        proof {
            assert(text@.take(k + 1).drop_last() =~= text@.take(k));
            assert(text@.take(k + 1).last() == c);
            lemma_decimal_value_grows(text@, k + 1);
        }
        if !(c >= '0' && c <= '9') {
            return None;
        }
        let d: i64 = (c as u32 - '0' as u32) as i64;
        if acc > (i64::MAX - d) / 10 {
            return None;
        }
        acc = acc * 10 + d;
        any = true;
    }
    proof {
        assert(text@.take(text@.len() as int) =~= text@);
    }
    if any {
        Some(acc)
    } else {
        None
    }
}

/// Tells whether `text` is a floating-point literal.
pub fn check_float_literal(text: &str) -> (ok: bool)
    ensures
        ok == is_float_literal(text@),
{
    let mut count: usize = 0;
    let mut dot: bool = false;
    let mut second_dot: bool = false;
    let mut clean: bool = true;
    for c in it: text.chars()
        invariant
            it.seq() == text@,
            count == if it.index() < 2 { it.index() } else { 2 },
            dot == (occurrences(text@.take(it.index()), '.') >= 1),
            second_dot == (occurrences(text@.take(it.index()), '.') >= 2),
            clean == (forall|i: int|
                0 <= i < it.index() ==> is_ascii_digit(#[trigger] text@[i]) || text@[i] == '.'),
    {
        let ghost k = it.index();
        proof {
            assert(text@.take(k + 1).drop_last() =~= text@.take(k));
            assert(text@.take(k + 1).last() == c);
        }
        if c == '.' {
            if dot {
                second_dot = true;
            }
            dot = true;
        } else if !(c >= '0' && c <= '9') {
            clean = false;
        }
        if count < 2 {
            count += 1;
        }
    }
    proof {
        assert(text@.take(text@.len() as int) =~= text@);
    }
    count == 2 && dot && !second_dot && clean
}

} // verus!
