//! What the lexer makes of an input: the token or failure found at each
//! position, the tokens of the whole, and the line and column of a position.

use vstd::prelude::*;
use crate::error::{Fault, LexerErrorView};
use crate::number::{integer_literal, is_float_literal};
use crate::strings::occurrences;
use crate::token::{word_token, TokenView};
use crate::unicode::{chars_of, Symbol};

verus! {

/// The runs of symbols that the lexer takes as a whole.
#[derive(Clone, Copy, Debug, PartialEq, Eq)]
pub enum Run {
    /// A line comment: everything before the next newline.
    Comment,
    /// The contents of a string literal: everything before the next `"`.
    Quoted,
    /// A word: alphabetic and numeric characters and `_`.
    Word,
    /// The digits of a numeric literal: numeric characters other than `.`.
    Digits,
}

impl Run {
    /// Whether `symbol` continues a run of this kind.
    pub open spec fn admits(self, symbol: Symbol) -> bool {
        match self {
            Run::Comment => symbol.ch != '\n',
            Run::Quoted => symbol.ch != '"',
            Run::Word => symbol.alphabetic || symbol.numeric || symbol.ch == '_',
            Run::Digits => symbol.numeric && symbol.ch != '.',
        }
    }

    /// Whether `symbol` continues a run of this kind.
    pub fn accepts(self, symbol: Symbol) -> (yes: bool)
        ensures
            yes == self.admits(symbol),
    {
        match self {
            Run::Comment => symbol.ch != '\n',
            Run::Quoted => symbol.ch != '"',
            Run::Word => symbol.alphabetic || symbol.numeric || symbol.ch == '_',
            Run::Digits => symbol.numeric && symbol.ch != '.',
        }
    }
}

/// Where the run that starts at `from` ends: the first position from there on
/// whose symbol the run does not admit, or the end of the input.
pub open spec fn run_end(input: Seq<Symbol>, from: int, run: Run) -> int
    decreases input.len() - from,
{
    if 0 <= from < input.len() && run.admits(input[from]) {
        run_end(input, from + 1, run)
    } else {
        from
    }
}

/// The characters of the input from `from` up to `to`.
pub open spec fn lexeme(input: Seq<Symbol>, from: int, to: int) -> Seq<char> {
    chars_of(input.subrange(from, to))
}

/// Whether the symbol after `pos` is the character `c`.
pub open spec fn followed_by(input: Seq<Symbol>, pos: int, c: char) -> bool {
    pos + 1 < input.len() && input[pos + 1].ch == c
}

/// What the lexer finds at one position.
pub enum Scan {
    /// Nothing to report; the scan goes on at `next`.
    Skip { next: int },
    /// A token; the scan goes on at `next`.
    Emit { token: TokenView, next: int },
    /// A failure, found with the cursor at `at`.
    Fail { fault: Fault, at: int },
}

/// An operator, alone or with the `=` that follows it.
pub open spec fn scan_comparison(input: Seq<Symbol>, pos: int) -> Scan {
    if followed_by(input, pos, '=') {
        Scan::Emit { token: TokenView::Op(seq![input[pos].ch, '=']), next: pos + 2 }
    } else {
        Scan::Emit { token: TokenView::Op(seq![input[pos].ch]), next: pos + 1 }
    }
}

/// A string literal: the characters between the opening quote at `pos` and the
/// next quote, or the end of the input where there is none.
pub open spec fn scan_string(input: Seq<Symbol>, pos: int) -> Scan {
    let close = run_end(input, pos + 1, Run::Quoted);
    Scan::Emit {
        token: TokenView::Str(lexeme(input, pos + 1, close)),
        next: if close < input.len() {
            close + 1
        } else {
            close
        },
    }
}

/// A word: a keyword, a type name or an identifier.
pub open spec fn scan_word(input: Seq<Symbol>, pos: int) -> Scan {
    let end = run_end(input, pos, Run::Word);
    Scan::Emit { token: word_token(lexeme(input, pos, end)), next: end }
}

/// A numeric literal: digits, possibly followed by a `.` and more digits. A
/// second `.` right after those is a failure at that `.`; a text without a
/// value is a failure at the end of the literal.
pub open spec fn scan_number(input: Seq<Symbol>, pos: int) -> Scan {
    let whole = run_end(input, pos, Run::Digits);
    if whole < input.len() && input[whole].ch == '.' {
        let end = run_end(input, whole + 1, Run::Digits);
        let text = lexeme(input, pos, end);
        if end < input.len() && input[end].ch == '.' {
            Scan::Fail { fault: Fault::MultipleDecimalPoints, at: end }
        } else if is_float_literal(text) {
            Scan::Emit { token: TokenView::Float(text), next: end }
        } else {
            Scan::Fail { fault: Fault::InvalidFloat(text), at: end }
        }
    } else {
        let text = lexeme(input, pos, whole);
        match integer_literal(text) {
            Some(value) => Scan::Emit { token: TokenView::Int(value), next: whole },
            None => Scan::Fail { fault: Fault::InvalidInteger(text), at: whole },
        }
    }
}

/// What the lexer finds at `pos`, by the character there and, for operators of
/// two characters, the one after it.
pub open spec fn scan_at(input: Seq<Symbol>, pos: int) -> Scan
    recommends
        0 <= pos < input.len(),
{
    let c = input[pos].ch;
    if c == ' ' || c == '\r' || c == '\t' {
        Scan::Skip { next: pos + 1 }
    } else if c == '\n' {
        Scan::Emit { token: TokenView::Newline, next: pos + 1 }
    } else if c == ':' {
        Scan::Emit { token: TokenView::Colon, next: pos + 1 }
    } else if c == '(' {
        Scan::Emit { token: TokenView::LParen, next: pos + 1 }
    } else if c == ')' {
        Scan::Emit { token: TokenView::RParen, next: pos + 1 }
    } else if c == ',' {
        Scan::Emit { token: TokenView::Comma, next: pos + 1 }
    } else if c == '=' {
        if followed_by(input, pos, '=') {
            Scan::Emit { token: TokenView::Op(seq!['=', '=']), next: pos + 2 }
        } else {
            Scan::Emit { token: TokenView::Assign, next: pos + 1 }
        }
    } else if c == '>' || c == '<' || c == '!' {
        scan_comparison(input, pos)
    } else if c == '+' || c == '*' || c == '/' {
        Scan::Emit { token: TokenView::Op(seq![c]), next: pos + 1 }
    } else if c == '-' {
        if followed_by(input, pos, '>') {
            Scan::Emit { token: TokenView::Arrow, next: pos + 2 }
        } else {
            Scan::Emit { token: TokenView::Op(seq!['-']), next: pos + 1 }
        }
    } else if c == '#' {
        Scan::Skip { next: run_end(input, pos, Run::Comment) }
    } else if c == '"' {
        scan_string(input, pos)
    } else if input[pos].alphabetic {
        scan_word(input, pos)
    } else if input[pos].numeric {
        scan_number(input, pos)
    } else {
        Scan::Fail { fault: Fault::UnknownCharacter(c), at: pos }
    }
}

/// A failure and the position of the cursor when it was found.
pub struct Failure {
    pub fault: Fault,
    pub at: int,
}

/// `tokens` in front of what a scan of the rest gave.
pub open spec fn after(tokens: Seq<TokenView>, rest: Result<Seq<TokenView>, Failure>) -> Result<
    Seq<TokenView>,
    Failure,
> {
    match rest {
        Ok(more) => Ok(tokens + more),
        Err(failure) => Err(failure),
    }
}

/// The tokens of the input from `pos` to its end, in order, or the first
/// failure on the way.
pub open spec fn lex(input: Seq<Symbol>, pos: int) -> Result<Seq<TokenView>, Failure>
    decreases input.len() - pos,
{
    if 0 <= pos < input.len() {
        proof {
            lemma_scan_advances(input, pos);
        }
        match scan_at(input, pos) {
            Scan::Skip { next } => lex(input, next),
            Scan::Emit { token, next } => after(seq![token], lex(input, next)),
            Scan::Fail { fault, at } => Err(Failure { fault, at }),
        }
    } else {
        Ok(Seq::empty())
    }
}

/// The 1-based line of a position: one more than the newlines before it.
pub open spec fn line_at(input: Seq<Symbol>, pos: int) -> nat {
    1 + occurrences(lexeme(input, 0, pos), '\n')
}

/// Where the line of a position starts: after the last newline before the
/// position, or at the start of the input where there is none.
pub open spec fn line_start(input: Seq<Symbol>, pos: int) -> int
    decreases pos,
{
    if pos <= 0 {
        0
    } else if input[pos - 1].ch == '\n' {
        pos
    } else {
        line_start(input, pos - 1)
    }
}

/// The 1-based column of a position: one more than its distance from the start
/// of its line.
pub open spec fn column_at(input: Seq<Symbol>, pos: int) -> nat {
    (pos - line_start(input, pos) + 1) as nat
}

impl Failure {
    /// The error that reports the failure: its message, with the line and
    /// column of the position at which it was found.
    pub open spec fn report(self, input: Seq<Symbol>) -> LexerErrorView {
        self.fault.at(line_at(input, self.at), column_at(input, self.at))
    }
}

/// A run ends at or after its start and within the input; it admits every
/// symbol before its end, and not the one at its end.
pub proof fn lemma_run_end(input: Seq<Symbol>, from: int, run: Run)
    requires
        0 <= from <= input.len(),
    ensures
        from <= run_end(input, from, run) <= input.len(),
        forall|i: int| from <= i < run_end(input, from, run) ==> run.admits(#[trigger] input[i]),
        run_end(input, from, run) < input.len() ==> !run.admits(
            input[run_end(input, from, run)],
        ),
    decreases input.len() - from,
{
    if from < input.len() && run.admits(input[from]) {
        lemma_run_end(input, from + 1, run);
    }
}

/// Whatever is found at a position, the scan goes on after it and within the
/// input, or fails at or after it and within the input.
pub proof fn lemma_scan_advances(input: Seq<Symbol>, pos: int)
    requires
        0 <= pos < input.len(),
    ensures
        match scan_at(input, pos) {
            Scan::Skip { next } => pos < next <= input.len(),
            Scan::Emit { token, next } => pos < next <= input.len(),
            Scan::Fail { fault, at } => pos <= at <= input.len(),
        },
{
    lemma_run_end(input, pos, Run::Comment);
    lemma_run_end(input, pos + 1, Run::Quoted);
    lemma_run_end(input, pos, Run::Word);
    lemma_run_end(input, pos, Run::Digits);
    let whole = run_end(input, pos, Run::Digits);
    if whole < input.len() {
        lemma_run_end(input, whole + 1, Run::Digits);
    }
}

/// Line and column are at least 1 and at most one more than the position.
pub proof fn lemma_position_bounds(input: Seq<Symbol>, pos: int)
    requires
        0 <= pos <= input.len(),
    ensures
        1 <= line_at(input, pos) <= pos + 1,
        1 <= column_at(input, pos) <= pos + 1,
        0 <= line_start(input, pos) <= pos,
    decreases pos,
{
    if pos > 0 {
        lemma_position_bounds(input, pos - 1);
        lemma_position_step(input, pos - 1);
    } else {
        assert(lexeme(input, 0, 0) =~= Seq::<char>::empty());
    }
}

/// Passing a newline leads to column 1 of the next line; passing any other
/// character leads one column further in the same line.
pub proof fn lemma_position_step(input: Seq<Symbol>, pos: int)
    requires
        0 <= pos < input.len(),
    ensures
        input[pos].ch == '\n' ==> line_at(input, pos + 1) == line_at(input, pos) + 1 && column_at(
            input,
            pos + 1,
        ) == 1,
        input[pos].ch != '\n' ==> line_at(input, pos + 1) == line_at(input, pos) && column_at(
            input,
            pos + 1,
        ) == column_at(input, pos) + 1,
{
    assert(lexeme(input, 0, pos + 1).drop_last() =~= lexeme(input, 0, pos));
    assert(lexeme(input, 0, pos + 1).last() == input[pos].ch);
    lemma_line_start_bounds(input, pos);
}

/// A line starts at or before each of its positions.
pub proof fn lemma_line_start_bounds(input: Seq<Symbol>, pos: int)
    requires
        0 <= pos,
    ensures
        0 <= line_start(input, pos) <= pos,
    decreases pos,
{
    if pos > 0 {
        lemma_line_start_bounds(input, pos - 1);
    }
}

/// Nothing in front of a result is that result.
pub proof fn lemma_after_nothing(rest: Result<Seq<TokenView>, Failure>)
    ensures
        after(Seq::empty(), rest) == rest,
{
    if let Ok(more) = rest {
        assert(Seq::<TokenView>::empty() + more =~= more);
    }
}

/// Tokens in front of one token in front of a result are all of them in front
/// of that result.
pub proof fn lemma_after_after(
    tokens: Seq<TokenView>,
    token: TokenView,
    rest: Result<Seq<TokenView>, Failure>,
)
    ensures
        after(tokens, after(seq![token], rest)) == after(tokens.push(token), rest),
{
    if let Ok(more) = rest {
        assert(tokens + (seq![token] + more) =~= tokens.push(token) + more);
    }
}

} // verus!
