//! The tokens of the language.

use vstd::prelude::*;
use crate::number::is_float_literal;

verus! {

/// One classified unit of source text.
///
/// `Float` carries the text of the literal, which [`crate::number::is_float_literal`]
/// describes; turning it into a binary floating-point value is left to the consumer.
/// `Type` carries one of `int`, `float` and `string`, and `Op` one of the operators
/// `+ - * / == != < <= > >= !`.
#[derive(Debug, PartialEq, Eq)]
pub enum Token {
    Var,
    Val,
    Def,
    Pub,
    Print,
    Return,
    If,
    Else,
    Ident(String),
    Int(i64),
    Float(String),
    Str(String),
    Type(String),
    Op(String),
    Arrow,
    Colon,
    Assign,
    LParen,
    RParen,
    Comma,
    Newline,
}

/// The mathematical value of a [`Token`]: the same variants, with texts as
/// sequences of characters.
pub enum TokenView {
    Var,
    Val,
    Def,
    Pub,
    Print,
    Return,
    If,
    Else,
    Ident(Seq<char>),
    Int(i64),
    Float(Seq<char>),
    Str(Seq<char>),
    Type(Seq<char>),
    Op(Seq<char>),
    Arrow,
    Colon,
    Assign,
    LParen,
    RParen,
    Comma,
    Newline,
}

impl View for Token {
    type V = TokenView;

    open spec fn view(&self) -> TokenView {
        match self {
            Token::Var => TokenView::Var,
            Token::Val => TokenView::Val,
            Token::Def => TokenView::Def,
            Token::Pub => TokenView::Pub,
            Token::Print => TokenView::Print,
            Token::Return => TokenView::Return,
            Token::If => TokenView::If,
            Token::Else => TokenView::Else,
            Token::Ident(name) => TokenView::Ident(name@),
            Token::Int(value) => TokenView::Int(*value),
            Token::Float(text) => TokenView::Float(text@),
            Token::Str(contents) => TokenView::Str(contents@),
            Token::Type(name) => TokenView::Type(name@),
            Token::Op(symbol) => TokenView::Op(symbol@),
            Token::Arrow => TokenView::Arrow,
            Token::Colon => TokenView::Colon,
            Token::Assign => TokenView::Assign,
            Token::LParen => TokenView::LParen,
            Token::RParen => TokenView::RParen,
            Token::Comma => TokenView::Comma,
            Token::Newline => TokenView::Newline,
        }
    }
}

impl DeepView for Token {
    type V = TokenView;

    open spec fn deep_view(&self) -> TokenView {
        self@
    }
}

impl Clone for Token {
    fn clone(&self) -> (copy: Token)
        ensures
            copy@ == self@,
    {
        match self {
            Token::Var => Token::Var,
            Token::Val => Token::Val,
            Token::Def => Token::Def,
            Token::Pub => Token::Pub,
            Token::Print => Token::Print,
            Token::Return => Token::Return,
            Token::If => Token::If,
            Token::Else => Token::Else,
            Token::Ident(name) => Token::Ident(name.clone()),
            Token::Int(value) => Token::Int(*value),
            Token::Float(text) => Token::Float(text.clone()),
            Token::Str(contents) => Token::Str(contents.clone()),
            Token::Type(name) => Token::Type(name.clone()),
            Token::Op(symbol) => Token::Op(symbol.clone()),
            Token::Arrow => Token::Arrow,
            Token::Colon => Token::Colon,
            Token::Assign => Token::Assign,
            Token::LParen => Token::LParen,
            Token::RParen => Token::RParen,
            Token::Comma => Token::Comma,
            Token::Newline => Token::Newline,
        }
    }
}

/// The token that a word stands for: a keyword, a type name, or else an
/// identifier of that name.
pub open spec fn word_token(word: Seq<char>) -> TokenView {
    if word == "var"@ {
        TokenView::Var
    } else if word == "val"@ {
        TokenView::Val
    } else if word == "def"@ {
        TokenView::Def
    } else if word == "if"@ {
        TokenView::If
    } else if word == "else"@ {
        TokenView::Else
    } else if word == "pub"@ {
        TokenView::Pub
    } else if word == "return"@ {
        TokenView::Return
    } else if word == "print"@ {
        TokenView::Print
    } else if word == "int"@ || word == "float"@ || word == "string"@ {
        TokenView::Type(word)
    } else {
        TokenView::Ident(word)
    }
}

/// `symbol` is one of the operators `+ - * / == != < <= > >= !`.
pub open spec fn is_operator(symbol: Seq<char>) -> bool {
    ||| symbol == seq!['+']
    ||| symbol == seq!['-']
    ||| symbol == seq!['*']
    ||| symbol == seq!['/']
    ||| symbol == seq!['=', '=']
    ||| symbol == seq!['!', '=']
    ||| symbol == seq!['<']
    ||| symbol == seq!['<', '=']
    ||| symbol == seq!['>']
    ||| symbol == seq!['>', '=']
    ||| symbol == seq!['!']
}

impl TokenView {
    /// What holds of every token that the lexer gives: an identifier has a
    /// name, which is no keyword and no type name; an integer is not negative;
    /// a float is a floating-point literal; a type is one of the three type
    /// names; an operator is one of the eleven operators.
    pub open spec fn well_formed(self) -> bool {
        match self {
            TokenView::Ident(name) => name.len() > 0 && word_token(name) == TokenView::Ident(name),
            TokenView::Int(value) => value >= 0,
            TokenView::Float(text) => is_float_literal(text),
            TokenView::Type(name) => name == "int"@ || name == "float"@ || name == "string"@,
            TokenView::Op(symbol) => is_operator(symbol),
            _ => true,
        }
    }
}

impl Token {
    /// Tells keywords and type names from identifiers.
    pub fn from_word(word: String) -> (token: Token)
        ensures
            token@ == word_token(word@),
    {
        let w = word.as_str();
        if w.eq("var") {
            Token::Var
        } else if w.eq("val") {
            Token::Val
        } else if w.eq("def") {
            Token::Def
        } else if w.eq("if") {
            Token::If
        } else if w.eq("else") {
            Token::Else
        } else if w.eq("pub") {
            Token::Pub
        } else if w.eq("return") {
            Token::Return
        } else if w.eq("print") {
            Token::Print
        } else if w.eq("int") || w.eq("float") || w.eq("string") {
            Token::Type(word)
        } else {
            Token::Ident(word)
        }
    }
}

} // verus!
