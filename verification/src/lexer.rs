//! The lexer: a cursor over the input, and the scan that turns it into tokens.

use vstd::prelude::*;
use crate::error::LexerError;
use crate::grammar::{
    after, column_at, followed_by, lemma_after_after, lemma_after_nothing, lemma_position_bounds,
    lemma_position_step, lemma_run_end, lemma_scan_advances, lex, lexeme, line_at, run_end,
    scan_at, scan_number, scan_string, scan_word, Failure, Run, Scan,
};
use crate::number::{check_float_literal, parse_integer};
use crate::strings::{one_char, two_chars};
use crate::token::{Token, TokenView};
use crate::unicode::{symbols_of, Symbol};

verus! {

/// A position in the input with its line and column.
#[derive(Clone, Copy)]
struct Cursor {
    pos: usize,
    line: usize,
    column: usize,
}

/// A lexer: the input and a cursor into it.
///
/// The cursor only moves forward, one symbol at a time, and its line and column
/// are always those of its position.
pub struct Lexer {
    input: Vec<Symbol>,
    cursor: Cursor,
}

/// The mathematical value of a [`Lexer`]: its input and the position of its
/// cursor.
pub struct LexerView {
    pub input: Seq<Symbol>,
    pub pos: int,
}

impl LexerView {
    /// The cursor is at the end of the input.
    pub open spec fn at_end(self) -> bool {
        self.pos == self.input.len()
    }

    /// The line of the cursor.
    pub open spec fn line(self) -> nat {
        line_at(self.input, self.pos)
    }

    /// The column of the cursor.
    pub open spec fn column(self) -> nat {
        column_at(self.input, self.pos)
    }
}

impl View for Lexer {
    type V = LexerView;

    closed spec fn view(&self) -> LexerView {
        LexerView { input: self.input@, pos: self.cursor.pos as int }
    }
}

impl Lexer {
    #[verifier::type_invariant]
    spec fn well_formed(self) -> bool {
        &&& self.input.len() < usize::MAX
        &&& self.cursor.pos <= self.input.len()
        &&& self.cursor.line == line_at(self.input@, self.cursor.pos as int)
        &&& self.cursor.column == column_at(self.input@, self.cursor.pos as int)
    }

    /// A lexer at the start of `input`, each character with its Unicode
    /// properties. The input must be shorter than `usize::MAX` characters, so
    /// that every line and column can be counted.
    pub fn new(input: String) -> (lexer: Lexer)
        requires
            input@.len() < usize::MAX,
        ensures
            lexer@.input == symbols_of(input@),
            lexer@.pos == 0,
            lexer@.line() == 1,
            lexer@.column() == 1,
    {
        Lexer::from_symbols(Symbol::classify_text(input.as_str()))
    }

    /// A lexer at the start of `input`, whose symbols are taken as they are.
    /// The input must be shorter than `usize::MAX` symbols, so that every line
    /// and column can be counted.
    pub fn from_symbols(input: Vec<Symbol>) -> (lexer: Lexer)
        requires
            input.len() < usize::MAX,
        ensures
            lexer@.input == input@,
            lexer@.pos == 0,
            lexer@.line() == 1,
            lexer@.column() == 1,
    {
        proof {
            assert(lexeme(input@, 0, 0) =~= Seq::<char>::empty());
        }
        Lexer { input, cursor: Cursor { pos: 0, line: 1, column: 1 } }
    }

    /// The position of the cursor: the number of symbols consumed.
    pub fn position(&self) -> (pos: usize)
        ensures
            pos == self@.pos,
            pos <= self@.input.len(),
    {
        proof {
            use_type_invariant(self);
        }
        self.cursor.pos
    }

    /// The 1-based line of the cursor.
    pub fn line(&self) -> (line: usize)
        ensures
            line == self@.line(),
    {
        proof {
            use_type_invariant(self);
        }
        self.cursor.line
    }

    /// The 1-based column of the cursor.
    pub fn column(&self) -> (column: usize)
        ensures
            column == self@.column(),
    {
        proof {
            use_type_invariant(self);
        }
        self.cursor.column
    }

    /// Consumes one symbol, if any is left. After a newline the cursor is in
    /// column 1 of the next line; after any other character, one column further
    /// in the same line.
    pub fn advance(&mut self)
        ensures
            final(self)@.input == old(self)@.input,
            old(self)@.at_end() ==> final(self)@.pos == old(self)@.pos,
            !old(self)@.at_end() ==> final(self)@.pos == old(self)@.pos + 1,
            !old(self)@.at_end() && old(self)@.input[old(self)@.pos].ch == '\n' ==> (
                final(self)@.line() == old(self)@.line() + 1 && final(self)@.column() == 1),
            !old(self)@.at_end() && old(self)@.input[old(self)@.pos].ch != '\n' ==> (
                final(self)@.line() == old(self)@.line()
                    && final(self)@.column() == old(self)@.column() + 1),
    {
        proof {
            use_type_invariant(&*self);
        }
        let at = self.cursor;
        if at.pos < self.input.len() {
            proof {
                lemma_position_bounds(self.input@, at.pos as int);
                lemma_position_step(self.input@, at.pos as int);
            }
            if self.input[at.pos].ch == '\n' {
                self.cursor = Cursor { pos: at.pos + 1, line: at.line + 1, column: 1 };
            } else {
                self.cursor = Cursor { pos: at.pos + 1, line: at.line, column: at.column + 1 };
            }
        }
    }

    /// The symbol under the cursor.
    fn current(&self) -> (symbol: Symbol)
        requires
            !self@.at_end(),
        ensures
            symbol == self@.input[self@.pos],
            0 <= self@.pos < self@.input.len(),
    {
        proof {
            use_type_invariant(self);
        }
        self.input[self.cursor.pos]
    }

    /// Whether the cursor has reached the end of the input.
    fn done(&self) -> (done: bool)
        ensures
            done == self@.at_end(),
            0 <= self@.pos <= self@.input.len(),
    {
        proof {
            use_type_invariant(self);
        }
        self.cursor.pos >= self.input.len()
    }

    /// Whether the symbol under the cursor is the character `c`.
    fn at_char(&self, c: char) -> (yes: bool)
        ensures
            yes == (!self@.at_end() && self@.input[self@.pos].ch == c),
            0 <= self@.pos <= self@.input.len(),
    {
        proof {
            use_type_invariant(self);
        }
        self.cursor.pos < self.input.len() && self.input[self.cursor.pos].ch == c
    }

    /// Whether the symbol after the one under the cursor is the character `c`.
    fn next_is(&self, c: char) -> (yes: bool)
        ensures
            yes == followed_by(self@.input, self@.pos, c),
    {
        proof {
            use_type_invariant(self);
        }
        self.cursor.pos + 1 < self.input.len() && self.input[self.cursor.pos + 1].ch == c
    }

    /// Consumes the run that starts under the cursor.
    fn skip_run(&mut self, run: Run)
        ensures
            final(self)@.input == old(self)@.input,
            final(self)@.pos == run_end(old(self)@.input, old(self)@.pos, run),
    {
        while !self.done() && run.accepts(self.current())
            invariant
                self@.input == old(self)@.input,
                run_end(self@.input, self@.pos, run) == run_end(
                    old(self)@.input,
                    old(self)@.pos,
                    run,
                ),
            decreases self@.input.len() - self@.pos,
        {
            self.advance();
        }
    }

    /// Consumes the run that starts under the cursor and appends its characters
    /// to `text`.
    fn take_run(&mut self, run: Run, text: &mut String)
        ensures
            final(self)@.input == old(self)@.input,
            final(self)@.pos == run_end(old(self)@.input, old(self)@.pos, run),
            final(text)@ == old(text)@ + lexeme(
                old(self)@.input,
                old(self)@.pos,
                final(self)@.pos,
            ),
    {
        proof {
            use_type_invariant(&*self);
            assert(text@ =~= old(text)@ + lexeme(self@.input, self@.pos, self@.pos));
        }
        while !self.done() && run.accepts(self.current())
            invariant
                self@.input == old(self)@.input,
                old(self)@.pos <= self@.pos <= self@.input.len(),
                run_end(self@.input, self@.pos, run) == run_end(
                    old(self)@.input,
                    old(self)@.pos,
                    run,
                ),
                text@ == old(text)@ + lexeme(self@.input, old(self)@.pos, self@.pos),
            decreases self@.input.len() - self@.pos,
        {
            let ghost before = self@.pos;
            text.push(self.current().ch);
            self.advance();
            proof {
                assert(lexeme(self@.input, old(self)@.pos, before + 1) =~= lexeme(
                    self@.input,
                    old(self)@.pos,
                    before,
                ).push(self@.input[before].ch));
                assert(text@ =~= old(text)@ + lexeme(self@.input, old(self)@.pos, self@.pos));
            }
        }
    }

    /// Reads the string literal whose opening quote is under the cursor.
    fn read_string(&mut self) -> (token: Token)
        requires
            !old(self)@.at_end(),
        ensures
            final(self)@.input == old(self)@.input,
            scan_string(old(self)@.input, old(self)@.pos) == (Scan::Emit {
                token: token@,
                next: final(self)@.pos,
            }),
    {
        proof {
            use_type_invariant(&*self);
            lemma_run_end(self@.input, self@.pos + 1, Run::Quoted);
        }
        self.advance();
        let mut contents = String::new();
        self.take_run(Run::Quoted, &mut contents);
        self.advance();
        assert(contents@ =~= lexeme(
            old(self)@.input,
            old(self)@.pos + 1,
            run_end(old(self)@.input, old(self)@.pos + 1, Run::Quoted),
        ));
        Token::Str(contents)
    }

    /// Reads the word that starts under the cursor.
    fn read_word(&mut self) -> (token: Token)
        ensures
            final(self)@.input == old(self)@.input,
            scan_word(old(self)@.input, old(self)@.pos) == (Scan::Emit {
                token: token@,
                next: final(self)@.pos,
            }),
    {
        let mut word = String::new();
        self.take_run(Run::Word, &mut word);
        assert(word@ =~= lexeme(old(self)@.input, old(self)@.pos, self@.pos));
        Token::from_word(word)
    }

    /// The line and column of the cursor, for an error found there.
    fn here(&self) -> (place: (usize, usize))
        ensures
            place.0 == self@.line(),
            place.1 == self@.column(),
    {
        (self.line(), self.column())
    }

    /// Reads the numeric literal that starts under the cursor.
    fn read_number(&mut self) -> (found: Result<Token, LexerError>)
        requires
            !old(self)@.at_end(),
        ensures
            final(self)@.input == old(self)@.input,
            match scan_number(old(self)@.input, old(self)@.pos) {
                Scan::Skip { next } => false,
                Scan::Emit { token, next } => found matches Ok(t) && t@ == token
                    && final(self)@.pos == next,
                Scan::Fail { fault, at } => found matches Err(e) && e@ == (Failure {
                    fault,
                    at,
                }).report(old(self)@.input) && final(self)@.pos == at,
            },
    {
        let ghost input = self@.input;
        let ghost start = self@.pos;
        proof {
            use_type_invariant(&*self);
            lemma_run_end(input, start, Run::Digits);
        }
        let mut text = String::new();
        self.take_run(Run::Digits, &mut text);
        let ghost whole = self@.pos;
        assert(text@ =~= lexeme(input, start, whole));
        if self.at_char('.') {
            text.push('.');
            self.advance();
            proof {
                lemma_run_end(input, whole + 1, Run::Digits);
            }
            self.take_run(Run::Digits, &mut text);
            let ghost end = self@.pos;
            assert(text@ =~= lexeme(input, start, end));
            let (line, column) = self.here();
            if self.at_char('.') {
                Err(LexerError::multiple_decimal_points(line, column))
            } else if check_float_literal(text.as_str()) {
                Ok(Token::Float(text))
            } else {
                Err(LexerError::invalid_float(text.as_str(), line, column))
            }
        } else {
            let (line, column) = self.here();
            match parse_integer(text.as_str()) {
                Some(value) => Ok(Token::Int(value)),
                None => Err(LexerError::invalid_integer(text.as_str(), line, column)),
            }
        }
    }

    /// Scans what starts under the cursor: a token, or blank space or a comment,
    /// which give none.
    fn scan(&mut self) -> (found: Result<Option<Token>, LexerError>)
        requires
            !old(self)@.at_end(),
        ensures
            final(self)@.input == old(self)@.input,
            match scan_at(old(self)@.input, old(self)@.pos) {
                Scan::Skip { next } => found matches Ok(None) && final(self)@.pos == next,
                Scan::Emit { token, next } => found matches Ok(Some(t)) && t@ == token
                    && final(self)@.pos == next,
                Scan::Fail { fault, at } => found matches Err(e) && e@ == (Failure {
                    fault,
                    at,
                }).report(old(self)@.input) && final(self)@.pos == at,
            },
    {
        let symbol = self.current();
        let c = symbol.ch;
        match c {
            ' ' | '\r' | '\t' => {
                self.advance();
                Ok(None)
            },
            '\n' => {
                self.advance();
                Ok(Some(Token::Newline))
            },
            ':' => {
                self.advance();
                Ok(Some(Token::Colon))
            },
            '=' => {
                if self.next_is('=') {
                    self.advance();
                    self.advance();
                    Ok(Some(Token::Op(two_chars('=', '='))))
                } else {
                    self.advance();
                    Ok(Some(Token::Assign))
                }
            },
            '(' => {
                self.advance();
                Ok(Some(Token::LParen))
            },
            ')' => {
                self.advance();
                Ok(Some(Token::RParen))
            },
            ',' => {
                self.advance();
                Ok(Some(Token::Comma))
            },
            '>' | '<' | '!' => {
                if self.next_is('=') {
                    self.advance();
                    self.advance();
                    Ok(Some(Token::Op(two_chars(c, '='))))
                } else {
                    self.advance();
                    Ok(Some(Token::Op(one_char(c))))
                }
            },
            '+' | '*' | '/' => {
                self.advance();
                Ok(Some(Token::Op(one_char(c))))
            },
            '-' => {
                if self.next_is('>') {
                    self.advance();
                    self.advance();
                    Ok(Some(Token::Arrow))
                } else {
                    self.advance();
                    Ok(Some(Token::Op(one_char('-'))))
                }
            },
            '#' => {
                self.skip_run(Run::Comment);
                Ok(None)
            },
            '"' => Ok(Some(self.read_string())),
            _ if symbol.alphabetic => Ok(Some(self.read_word())),
            _ if symbol.numeric => {
                match self.read_number() {
                    Ok(token) => Ok(Some(token)),
                    Err(error) => Err(error),
                }
            },
            _ => {
                let (line, column) = self.here();
                Err(LexerError::unknown_character(c, line, column))
            },
        }
    }

    /// Scans the input from the cursor to its end.
    ///
    /// Gives the tokens in the order of the input, and leaves the cursor at the
    /// end; or gives the first failure, with the line and column at which it
    /// was found, and leaves the cursor there.
    pub fn tokenize(&mut self) -> (result: Result<Vec<Token>, LexerError>)
        ensures
            final(self)@.input == old(self)@.input,
            match lex(old(self)@.input, old(self)@.pos) {
                Ok(tokens) => result matches Ok(found) && found.deep_view() == tokens
                    && final(self)@.at_end(),
                Err(failure) => result matches Err(error) && error@ == failure.report(
                    old(self)@.input,
                ) && final(self)@.pos == failure.at,
            },
    {
        let mut tokens: Vec<Token> = Vec::new();
        proof {
            use_type_invariant(&*self);
            assert(tokens.deep_view() =~= Seq::<TokenView>::empty());
            lemma_after_nothing(lex(self@.input, self@.pos));
        }
        while !self.done()
            invariant
                self@.input == old(self)@.input,
                0 <= self@.pos <= self@.input.len(),
                lex(old(self)@.input, old(self)@.pos) == after(
                    tokens.deep_view(),
                    lex(self@.input, self@.pos),
                ),
            decreases self@.input.len() - self@.pos,
        {
            let ghost before = self@.pos;
            let ghost so_far = tokens.deep_view();
            proof {
                lemma_scan_advances(self@.input, before);
            }
            match self.scan() {
                Ok(None) => {},
                Ok(Some(token)) => {
                    proof {
                        lemma_after_after(so_far, token@, lex(self@.input, self@.pos));
                    }
                    tokens.push(token);
                    assert(tokens.deep_view() =~= so_far.push(token@));
                },
                Err(error) => {
                    return Err(error);
                },
            }
        }
        proof {
            assert(tokens.deep_view() + Seq::<TokenView>::empty() =~= tokens.deep_view());
        }
        Ok(tokens)
    }
}

} // verus!
