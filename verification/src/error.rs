//! Why and where lexing stopped.

use vstd::prelude::*;
use vstd::string::StringExecFns;

verus! {

/// The first failure of a scan, with the 1-based line and column of the cursor
/// at the moment it was found.
#[derive(Debug)]
pub struct LexerError {
    pub message: String,
    pub line: usize,
    pub column: usize,
}

/// The mathematical value of a [`LexerError`].
pub struct LexerErrorView {
    pub message: Seq<char>,
    pub line: nat,
    pub column: nat,
}

impl View for LexerError {
    type V = LexerErrorView;

    open spec fn view(&self) -> LexerErrorView {
        LexerErrorView {
            message: self.message@,
            line: self.line as nat,
            column: self.column as nat,
        }
    }
}

/// The ways in which a scan fails.
pub enum Fault {
    /// A character with which no token starts.
    UnknownCharacter(char),
    /// A second `.` in a numeric literal.
    MultipleDecimalPoints,
    /// A numeric literal with a `.` whose text is no floating-point literal.
    InvalidFloat(Seq<char>),
    /// A numeric literal without a `.` whose text has no 64-bit value.
    InvalidInteger(Seq<char>),
}

impl Fault {
    /// The message that reports the fault.
    pub open spec fn message(self) -> Seq<char> {
        match self {
            Fault::UnknownCharacter(c) => "Unknown character: "@.push(c),
            Fault::MultipleDecimalPoints => "Invalid number: multiple decimal points"@,
            Fault::InvalidFloat(text) => "Invalid float: "@ + text,
            Fault::InvalidInteger(text) => "Invalid integer: "@ + text,
        }
    }

    /// The error that reports the fault at a line and column.
    pub open spec fn at(self, line: nat, column: nat) -> LexerErrorView {
        LexerErrorView { message: self.message(), line, column }
    }
}

impl LexerError {
    /// Reports a character with which no token starts.
    pub fn unknown_character(c: char, line: usize, column: usize) -> (e: LexerError)
        ensures
            e@ == Fault::UnknownCharacter(c).at(line as nat, column as nat),
    {
        let mut message = String::from_str("Unknown character: ");
        message.push(c);
        LexerError { message, line, column }
    }

    /// Reports a second `.` in a numeric literal.
    pub fn multiple_decimal_points(line: usize, column: usize) -> (e: LexerError)
        ensures
            e@ == Fault::MultipleDecimalPoints.at(line as nat, column as nat),
    {
        LexerError {
            message: String::from_str("Invalid number: multiple decimal points"),
            line,
            column,
        }
    }

    /// Reports a numeric literal with a `.` that is no floating-point literal.
    pub fn invalid_float(text: &str, line: usize, column: usize) -> (e: LexerError)
        ensures
            e@ == Fault::InvalidFloat(text@).at(line as nat, column as nat),
    {
        let mut message = String::from_str("Invalid float: ");
        message.append(text);
        LexerError { message, line, column }
    }

    /// Reports a numeric literal without a `.` that has no 64-bit value.
    pub fn invalid_integer(text: &str, line: usize, column: usize) -> (e: LexerError)
        ensures
            e@ == Fault::InvalidInteger(text@).at(line as nat, column as nat),
    {
        let mut message = String::from_str("Invalid integer: ");
        message.append(text);
        LexerError { message, line, column }
    }
}

} // verus!
