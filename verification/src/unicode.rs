//! Unicode character properties, and the characters of a text together with them.

use vstd::prelude::*;

verus! {

/// Whether `c` has the Unicode `Alphabetic` property.
pub uninterp spec fn unicode_alphabetic(c: char) -> bool;

/// Whether `c` is in one of the Unicode general categories for numbers
/// (`Nd`, `Nl`, `No`).
pub uninterp spec fn unicode_numeric(c: char) -> bool;

/// `char::is_alphabetic` looks `c` up in the Unicode tables that the standard
/// library was built with. The tables are not written out here: the answer is
/// only given its name.
pub assume_specification[ char::is_alphabetic ](c: char) -> (r: bool)
    ensures
        r == unicode_alphabetic(c),
;

/// `char::is_numeric` looks `c` up in the Unicode tables that the standard
/// library was built with. The tables are not written out here: the answer is
/// only given its name.
pub assume_specification[ char::is_numeric ](c: char) -> (r: bool)
    ensures
        r == unicode_numeric(c),
;

/// One character of the input with the two Unicode properties that the lexer
/// consults. A character counts as alphanumeric when it is alphabetic or numeric.
#[derive(Clone, Copy, Debug, PartialEq, Eq)]
pub struct Symbol {
    pub ch: char,
    pub alphabetic: bool,
    pub numeric: bool,
}

/// The symbol that stands for `c` in a text.
pub open spec fn symbol_of(c: char) -> Symbol {
    Symbol { ch: c, alphabetic: unicode_alphabetic(c), numeric: unicode_numeric(c) }
}

/// The symbols of a text, character by character.
pub open spec fn symbols_of(text: Seq<char>) -> Seq<Symbol> {
    Seq::new(text.len(), |i: int| symbol_of(text[i]))
}

/// The characters of a run of symbols.
pub open spec fn chars_of(symbols: Seq<Symbol>) -> Seq<char> {
    Seq::new(symbols.len(), |i: int| symbols[i].ch)
}

/// The characters of the symbols of a text are the text.
pub proof fn lemma_chars_of_symbols(text: Seq<char>)
    ensures
        chars_of(symbols_of(text)) == text,
{
    assert(chars_of(symbols_of(text)) =~= text);
}

impl Symbol {
    /// Looks up the properties of `c`.
    pub fn classify(c: char) -> (r: Symbol)
        ensures
            r == symbol_of(c),
    {
        Symbol { ch: c, alphabetic: c.is_alphabetic(), numeric: c.is_numeric() }
    }

    /// Classifies every character of `text`, in order.
    pub fn classify_text(text: &str) -> (r: Vec<Symbol>)
        ensures
            r@ == symbols_of(text@),
    {
        let mut symbols: Vec<Symbol> = Vec::new();
        for c in it: text.chars()
            invariant
                it.seq() == text@,
                symbols@ == symbols_of(text@.take(it.index())),
        {
            symbols.push(Symbol::classify(c));
            assert(symbols@ =~= symbols_of(text@.take(it.index() + 1)));
        }
        assert(text@.take(text@.len() as int) =~= text@);
        symbols
    }
}

} // verus!
