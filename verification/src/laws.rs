//! Laws of the lexer: what holds of every input.

use vstd::prelude::*;
use crate::grammar::{
    lemma_position_bounds, lemma_run_end, lemma_scan_advances, lex, lexeme, run_end, scan_at,
    Failure, Run, Scan,
};
use crate::lexer::LexerView;
use crate::strings::{lemma_occurrences_first, occurrences};
use crate::token::TokenView;
use crate::unicode::{chars_of, lemma_chars_of_symbols, symbols_of, Symbol};

verus! {

/// `c` is a space, a tab, a carriage return or a newline.
pub open spec fn is_blank_or_newline(c: char) -> bool {
    c == ' ' || c == '\t' || c == '\r' || c == '\n'
}

/// `count` newline tokens and nothing else.
pub open spec fn newline_tokens(count: nat) -> Seq<TokenView> {
    Seq::new(count, |i: int| TokenView::Newline)
}

/// From a position on which only blank space and newlines follow, the tokens
/// are one newline token for each newline that follows.
proof fn lemma_blank_rest(input: Seq<Symbol>, pos: int)
    requires
        0 <= pos <= input.len(),
        forall|i: int| pos <= i < input.len() ==> is_blank_or_newline(#[trigger] input[i].ch),
    ensures
        lex(input, pos) == Ok::<Seq<TokenView>, Failure>(
            newline_tokens(occurrences(lexeme(input, pos, input.len() as int), '\n')),
        ),
    decreases input.len() - pos,
{
    let end = input.len() as int;
    if pos < end {
        lemma_blank_rest(input, pos + 1);
        let rest = occurrences(lexeme(input, pos + 1, end), '\n');
        assert(is_blank_or_newline(input[pos].ch));
        assert(lexeme(input, pos, end).drop_first() =~= lexeme(input, pos + 1, end));
        lemma_occurrences_first(lexeme(input, pos, end), '\n');
        if input[pos].ch == '\n' {
            assert(seq![TokenView::Newline] + newline_tokens(rest) =~= newline_tokens(rest + 1));
        }
    } else {
        assert(lexeme(input, pos, end) =~= Seq::<char>::empty());
        assert(newline_tokens(0) =~= Seq::<TokenView>::empty());
    }
}

/// An input of nothing but spaces, tabs, carriage returns and newlines is
/// lexed without failure, and its tokens are one newline token for each of its
/// newlines and nothing else.
pub proof fn law_blank_input(input: Seq<Symbol>)
    requires
        forall|i: int| 0 <= i < input.len() ==> is_blank_or_newline(#[trigger] input[i].ch),
    ensures
        lex(input, 0) == Ok::<Seq<TokenView>, Failure>(
            newline_tokens(occurrences(chars_of(input), '\n')),
        ),
{
    lemma_blank_rest(input, 0);
    assert(lexeme(input, 0, input.len() as int) =~= chars_of(input));
}

/// A text of nothing but spaces, tabs, carriage returns and newlines is lexed
/// without failure, and its tokens are one newline token for each of its
/// newlines and nothing else.
pub proof fn law_blank_text(text: Seq<char>)
    requires
        forall|i: int| 0 <= i < text.len() ==> is_blank_or_newline(#[trigger] text[i]),
    ensures
        lex(symbols_of(text), 0) == Ok::<Seq<TokenView>, Failure>(
            newline_tokens(occurrences(text, '\n')),
        ),
{
    let input = symbols_of(text);
    assert forall|i: int| 0 <= i < input.len() implies is_blank_or_newline(
        #[trigger] input[i].ch,
    ) by {
        assert(is_blank_or_newline(text[i]));
    }
    law_blank_input(input);
    lemma_chars_of_symbols(text);
}

/// What a scan gives depends on nothing but the input and the position of the
/// cursor: from equal states it gives the same tokens, or fails with the same
/// error at the same position, however often it is asked.
pub proof fn law_same_state_same_outcome(first: LexerView, second: LexerView)
    requires
        first == second,
    ensures
        lex(first.input, first.pos) == lex(second.input, second.pos),
        lex(first.input, first.pos) matches Err(failure) ==> failure.report(first.input)
            == failure.report(second.input),
{
}

/// A token found at a position is well formed.
proof fn lemma_scanned_token_well_formed(input: Seq<Symbol>, pos: int)
    requires
        0 <= pos < input.len(),
    ensures
        scan_at(input, pos) matches Scan::Emit { token, next } ==> token.well_formed(),
{
    lemma_run_end(input, pos, Run::Word);
    lemma_run_end(input, pos, Run::Digits);
}

/// Every token that the lexer gives is well formed.
pub proof fn law_tokens_well_formed(input: Seq<Symbol>, pos: int)
    requires
        0 <= pos <= input.len(),
    ensures
        lex(input, pos) matches Ok(tokens) ==> forall|i: int|
            0 <= i < tokens.len() ==> (#[trigger] tokens[i]).well_formed(),
    decreases input.len() - pos,
{
    if pos < input.len() {
        lemma_scan_advances(input, pos);
        lemma_scanned_token_well_formed(input, pos);
        match scan_at(input, pos) {
            Scan::Skip { next } => {
                law_tokens_well_formed(input, next);
            },
            Scan::Emit { token, next } => {
                law_tokens_well_formed(input, next);
            },
            Scan::Fail { fault, at } => {},
        }
    }
}

/// A failure is found at or after the position from which the scan started
/// and within the input, and it is reported with a line and a column that
/// are at least 1.
pub proof fn law_failure_within_input(input: Seq<Symbol>, pos: int)
    requires
        0 <= pos <= input.len(),
    ensures
        lex(input, pos) matches Err(failure) ==> pos <= failure.at <= input.len()
            && failure.report(input).line >= 1 && failure.report(input).column >= 1,
    decreases input.len() - pos,
{
    if pos < input.len() {
        lemma_scan_advances(input, pos);
        match scan_at(input, pos) {
            Scan::Skip { next } => {
                law_failure_within_input(input, next);
            },
            Scan::Emit { token, next } => {
                law_failure_within_input(input, next);
            },
            Scan::Fail { fault, at } => {
                lemma_position_bounds(input, at);
            },
        }
    }
}

/// What was found, with every position in it moved on by `by`.
pub open spec fn scan_moved(scan: Scan, by: int) -> Scan {
    match scan {
        Scan::Skip { next } => Scan::Skip { next: next + by },
        Scan::Emit { token, next } => Scan::Emit { token, next: next + by },
        Scan::Fail { fault, at } => Scan::Fail { fault, at: at + by },
    }
}

/// The outcome of a scan, with the position of a failure moved on by `by`.
pub open spec fn outcome_moved(outcome: Result<Seq<TokenView>, Failure>, by: int) -> Result<
    Seq<TokenView>,
    Failure,
> {
    match outcome {
        Ok(tokens) => Ok(tokens),
        Err(failure) => Err(Failure { fault: failure.fault, at: failure.at + by }),
    }
}

/// The input from `from` on.
pub open spec fn rest_of(input: Seq<Symbol>, from: int) -> Seq<Symbol> {
    input.subrange(from, input.len() as int)
}

/// A run ends where it ends in the rest of the input alone.
proof fn lemma_run_end_in_rest(input: Seq<Symbol>, from: int, pos: int, run: Run)
    requires
        0 <= from <= pos <= input.len(),
    ensures
        run_end(input, pos, run) == run_end(rest_of(input, from), pos - from, run) + from,
    decreases input.len() - pos,
{
    if pos < input.len() && run.admits(input[pos]) {
        lemma_run_end_in_rest(input, from, pos + 1, run);
    }
}

/// The characters between two positions are those between them in the rest of
/// the input alone.
proof fn lemma_lexeme_in_rest(input: Seq<Symbol>, from: int, start: int, end: int)
    requires
        0 <= from <= start <= end <= input.len(),
    ensures
        lexeme(input, start, end) == lexeme(rest_of(input, from), start - from, end - from),
{
    assert(lexeme(input, start, end) =~= lexeme(rest_of(input, from), start - from, end - from));
}

/// What is found at a position is what is found there in the rest of the input
/// alone.
proof fn lemma_scan_in_rest(input: Seq<Symbol>, from: int, pos: int)
    requires
        0 <= from <= pos < input.len(),
    ensures
        scan_at(input, pos) == scan_moved(scan_at(rest_of(input, from), pos - from), from),
{
    let rest = rest_of(input, from);
    let end = input.len() as int;
    assert(rest[pos - from] == input[pos]);
    if pos + 1 < end {
        assert(rest[pos + 1 - from] == input[pos + 1]);
    }
    lemma_run_end_in_rest(input, from, pos, Run::Comment);
    lemma_run_end_in_rest(input, from, pos + 1, Run::Quoted);
    lemma_run_end_in_rest(input, from, pos, Run::Word);
    lemma_run_end_in_rest(input, from, pos, Run::Digits);
    lemma_run_end(input, pos + 1, Run::Quoted);
    lemma_run_end(input, pos, Run::Word);
    lemma_run_end(input, pos, Run::Digits);
    let close = run_end(input, pos + 1, Run::Quoted);
    lemma_lexeme_in_rest(input, from, pos + 1, close);
    let word = run_end(input, pos, Run::Word);
    lemma_lexeme_in_rest(input, from, pos, word);
    let whole = run_end(input, pos, Run::Digits);
    lemma_lexeme_in_rest(input, from, pos, whole);
    if whole < end {
        assert(rest[whole - from] == input[whole]);
        lemma_run_end_in_rest(input, from, whole + 1, Run::Digits);
        lemma_run_end(input, whole + 1, Run::Digits);
        let last = run_end(input, whole + 1, Run::Digits);
        lemma_lexeme_in_rest(input, from, pos, last);
        if last < end {
            assert(rest[last - from] == input[last]);
        }
    }
}

/// From a position within the rest of the input, the tokens are those of that
/// rest alone.
proof fn lemma_lex_in_rest(input: Seq<Symbol>, from: int, pos: int)
    requires
        0 <= from <= pos <= input.len(),
    ensures
        lex(input, pos) == outcome_moved(lex(rest_of(input, from), pos - from), from),
    decreases input.len() - pos,
{
    if pos < input.len() {
        lemma_scan_advances(input, pos);
        lemma_scan_in_rest(input, from, pos);
        match scan_at(input, pos) {
            Scan::Skip { next } => {
                lemma_lex_in_rest(input, from, next);
            },
            Scan::Emit { token, next } => {
                lemma_lex_in_rest(input, from, next);
            },
            Scan::Fail { fault, at } => {},
        }
    }
}

/// A scan keeps nothing of what it has passed: from any position, the tokens
/// are those of the rest of the input taken alone, and a failure is the same
/// failure at the same distance.
pub proof fn law_scan_keeps_no_state(input: Seq<Symbol>, pos: int)
    requires
        0 <= pos <= input.len(),
    ensures
        lex(input, pos) == outcome_moved(lex(rest_of(input, pos), 0), pos),
{
    lemma_lex_in_rest(input, pos, pos);
}

} // verus!
