//! What the standard library's strings do, as far as the lexer relies on it.

use vstd::prelude::*;

verus! {

/// `String::push` appends one character to the end of the string.
pub assume_specification[ String::push ](s: &mut String, ch: char)
    ensures
        final(s)@ == old(s)@.push(ch),
;

/// Two string slices are equal exactly when they hold the same characters in
/// the same order.
pub assume_specification[ <str as PartialEq>::eq ](a: &str, b: &str) -> (r: bool)
    ensures
        r == (a@ == b@),
;

/// `c` is one of the ten ASCII digits.
pub open spec fn is_ascii_digit(c: char) -> bool {
    '0' <= c <= '9'
}

/// How often `c` occurs in `text`.
pub open spec fn occurrences(text: Seq<char>, c: char) -> nat
    decreases text.len(),
{
    if text.len() == 0 {
        0
    } else {
        occurrences(text.drop_last(), c) + if text.last() == c {
            1nat
        } else {
            0nat
        }
    }
}

/// A text holds a character as often as its two parts together.
pub proof fn lemma_occurrences_concat(first: Seq<char>, second: Seq<char>, c: char)
    ensures
        occurrences(first + second, c) == occurrences(first, c) + occurrences(second, c),
    decreases second.len(),
{
    if second.len() == 0 {
        assert(first + second =~= first);
    } else {
        lemma_occurrences_concat(first, second.drop_last(), c);
        assert((first + second).drop_last() =~= first + second.drop_last());
    }
}

/// A text holds a character as often as the text after its first character,
/// and once more where that first character is the one counted.
pub proof fn lemma_occurrences_first(text: Seq<char>, c: char)
    requires
        text.len() > 0,
    ensures
        occurrences(text, c) == occurrences(text.drop_first(), c) + if text[0] == c {
            1nat
        } else {
            0nat
        },
{
    let first = seq![text[0]];
    assert(first.drop_last() =~= Seq::<char>::empty());
    assert(occurrences(first.drop_last(), c) == 0);
    assert(text =~= first + text.drop_first());
    lemma_occurrences_concat(first, text.drop_first(), c);
}

/// A string of the one character `c`.
pub fn one_char(c: char) -> (r: String)
    ensures
        r@ == seq![c],
{
    let mut s = String::new();
    s.push(c);
    assert(s@ =~= seq![c]);
    s
}

/// A string of the two characters `a` and `b`.
pub fn two_chars(a: char, b: char) -> (r: String)
    ensures
        r@ == seq![a, b],
{
    let mut s = String::new();
    s.push(a);
    s.push(b);
    assert(s@ =~= seq![a, b]);
    s
}

} // verus!
