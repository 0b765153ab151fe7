use redline_core::grammar::Run;
use redline_core::number::{check_float_literal, parse_integer};
use redline_core::strings::{one_char, two_chars};
use redline_core::{Lexer, LexerError, Symbol, Token};

fn plain(ch: char) -> Symbol {
    Symbol { ch, alphabetic: false, numeric: false }
}

fn letter(ch: char) -> Symbol {
    Symbol { ch, alphabetic: true, numeric: false }
}

fn digit(ch: char) -> Symbol {
    Symbol { ch, alphabetic: false, numeric: true }
}

#[test]
fn integer_literals_have_their_decimal_value() {
    assert_eq!(parse_integer("0"), Some(0));
    assert_eq!(parse_integer("7"), Some(7));
    assert_eq!(parse_integer("0012"), Some(12));
    assert_eq!(parse_integer("4096"), Some(4096));
    assert_eq!(parse_integer("9223372036854775807"), Some(9223372036854775807));
}

#[test]
fn integer_literals_stop_at_the_largest_signed_value() {
    assert_eq!(parse_integer("9223372036854775808"), None);
    assert_eq!(parse_integer("9223372036854775810"), None);
    assert_eq!(parse_integer("18446744073709551616"), None);
    assert_eq!(parse_integer("100000000000000000000000000000000000000000"), None);
}

#[test]
fn integer_literals_are_ascii_digits_only() {
    assert_eq!(parse_integer(""), None);
    assert_eq!(parse_integer("12a"), None);
    assert_eq!(parse_integer("a12"), None);
    assert_eq!(parse_integer("1 2"), None);
    assert_eq!(parse_integer("+5"), None);
    assert_eq!(parse_integer("-5"), None);
    assert_eq!(parse_integer("1.5"), None);
    assert_eq!(parse_integer("\u{0663}"), None);
    assert_eq!(parse_integer("1\u{0663}"), None);
}

#[test]
fn integer_literals_agree_with_the_standard_parser() {
    for text in [
        "0",
        "1",
        "42",
        "000",
        "0000000000000000000000000000000000001",
        "999999999999999999",
        "9223372036854775806",
        "9223372036854775807",
        "9223372036854775808",
        "9999999999999999999",
        "123456789012345678901234567890",
        "12x",
        "\u{0661}\u{0662}",
        "\u{00b2}",
    ] {
        assert_eq!(parse_integer(text), text.parse::<i64>().ok(), "{}", text);
    }
}

#[test]
fn float_literals_are_digits_around_one_point() {
    assert!(check_float_literal("3.14"));
    assert!(check_float_literal("0.0"));
    assert!(check_float_literal("1."));
    assert!(check_float_literal(".5"));
    assert!(check_float_literal("000123.456000"));
    assert!(!check_float_literal(""));
    assert!(!check_float_literal("."));
    assert!(!check_float_literal("1"));
    assert!(!check_float_literal("12"));
    assert!(!check_float_literal("1.2.3"));
    assert!(!check_float_literal("1..2"));
    assert!(!check_float_literal(".."));
    assert!(!check_float_literal("1.5e3"));
    assert!(!check_float_literal("-1.5"));
    assert!(!check_float_literal("1.\u{0663}"));
    assert!(!check_float_literal("\u{0663}.5"));
    assert!(!check_float_literal("1,5"));
}

#[test]
fn float_literals_are_accepted_by_the_standard_parser() {
    for text in ["3.14", "0.0", "1.", ".5", "000123.456000", "123456789012345678901234567890.5"] {
        assert!(check_float_literal(text), "{}", text);
        assert!(text.parse::<f64>().is_ok(), "{}", text);
    }
    assert_eq!("3.14".parse::<f64>(), Ok(3.14));
    assert_eq!("1.".parse::<f64>(), Ok(1.0));
}

#[test]
fn numeric_texts_with_one_point_agree_with_the_standard_parser() {
    for text in ["1.5", "1.", "10.25", "\u{0663}.5", "1.\u{0663}", "\u{00bd}.", "7.\u{2460}"] {
        assert_eq!(check_float_literal(text), text.parse::<f64>().is_ok(), "{}", text);
    }
}

#[test]
fn words_become_keywords_types_or_identifiers() {
    assert_eq!(Token::from_word("var".to_string()), Token::Var);
    assert_eq!(Token::from_word("val".to_string()), Token::Val);
    assert_eq!(Token::from_word("def".to_string()), Token::Def);
    assert_eq!(Token::from_word("if".to_string()), Token::If);
    assert_eq!(Token::from_word("else".to_string()), Token::Else);
    assert_eq!(Token::from_word("pub".to_string()), Token::Pub);
    assert_eq!(Token::from_word("return".to_string()), Token::Return);
    assert_eq!(Token::from_word("print".to_string()), Token::Print);
    assert_eq!(Token::from_word("int".to_string()), Token::Type("int".to_string()));
    assert_eq!(Token::from_word("float".to_string()), Token::Type("float".to_string()));
    assert_eq!(Token::from_word("string".to_string()), Token::Type("string".to_string()));
    assert_eq!(Token::from_word("integer".to_string()), Token::Ident("integer".to_string()));
    assert_eq!(Token::from_word("VAR".to_string()), Token::Ident("VAR".to_string()));
    assert_eq!(Token::from_word("".to_string()), Token::Ident("".to_string()));
}

#[test]
fn tokens_are_equal_by_variant_and_payload() {
    assert_eq!(Token::Int(5), Token::Int(5));
    assert_ne!(Token::Int(5), Token::Int(6));
    assert_ne!(Token::Ident("int".to_string()), Token::Type("int".to_string()));
    assert_ne!(Token::Str("a".to_string()), Token::Ident("a".to_string()));
    assert_ne!(Token::Var, Token::Val);
    let token = Token::Op("<=".to_string());
    assert_eq!(token.clone(), token);
    assert_eq!(Token::Float("1.5".to_string()).clone(), Token::Float("1.5".to_string()));
    assert_eq!(Token::Newline.clone(), Token::Newline);
}

#[test]
fn error_messages() {
    let error = LexerError::unknown_character('@', 3, 7);
    assert_eq!((error.message.as_str(), error.line, error.column), ("Unknown character: @", 3, 7));
    let error = LexerError::multiple_decimal_points(1, 4);
    assert_eq!(
        (error.message.as_str(), error.line, error.column),
        ("Invalid number: multiple decimal points", 1, 4)
    );
    let error = LexerError::invalid_float("1.\u{0663}", 2, 9);
    assert_eq!((error.message.as_str(), error.line, error.column), ("Invalid float: 1.\u{0663}", 2, 9));
    let error = LexerError::invalid_integer("99999999999999999999", 5, 21);
    assert_eq!(
        (error.message.as_str(), error.line, error.column),
        ("Invalid integer: 99999999999999999999", 5, 21)
    );
}

#[test]
fn short_strings() {
    assert_eq!(one_char('+'), "+");
    assert_eq!(two_chars('<', '='), "<=");
    assert_eq!(two_chars('\u{e9}', '\u{4eac}'), "\u{e9}\u{4eac}");
}

#[test]
fn characters_are_classified_by_their_unicode_properties() {
    assert_eq!(Symbol::classify('a'), letter('a'));
    assert_eq!(Symbol::classify('Z'), letter('Z'));
    assert_eq!(Symbol::classify('\u{e9}'), letter('\u{e9}'));
    assert_eq!(Symbol::classify('\u{4eac}'), letter('\u{4eac}'));
    assert_eq!(Symbol::classify('0'), digit('0'));
    assert_eq!(Symbol::classify('9'), digit('9'));
    assert_eq!(Symbol::classify('\u{0663}'), digit('\u{0663}'));
    assert_eq!(Symbol::classify('\u{00bd}'), digit('\u{00bd}'));
    assert_eq!(Symbol::classify('_'), plain('_'));
    assert_eq!(Symbol::classify('.'), plain('.'));
    assert_eq!(Symbol::classify(' '), plain(' '));
    assert_eq!(Symbol::classify('\n'), plain('\n'));
    assert_eq!(Symbol::classify('@'), plain('@'));
    assert_eq!(Symbol::classify('\u{1f49d}'), plain('\u{1f49d}'));
}

#[test]
fn a_text_is_classified_character_by_character() {
    assert_eq!(Symbol::classify_text(""), vec![]);
    assert_eq!(
        Symbol::classify_text("a1 \u{e9}\n"),
        vec![letter('a'), digit('1'), plain(' '), letter('\u{e9}'), plain('\n')]
    );
}

#[test]
fn runs_accept_their_characters() {
    assert!(Run::Comment.accepts(plain('"')));
    assert!(Run::Comment.accepts(letter('a')));
    assert!(!Run::Comment.accepts(plain('\n')));
    assert!(Run::Quoted.accepts(plain('\n')));
    assert!(Run::Quoted.accepts(plain('\\')));
    assert!(!Run::Quoted.accepts(plain('"')));
    assert!(Run::Word.accepts(letter('a')));
    assert!(Run::Word.accepts(digit('1')));
    assert!(Run::Word.accepts(plain('_')));
    assert!(!Run::Word.accepts(plain('-')));
    assert!(!Run::Word.accepts(plain('.')));
    assert!(Run::Digits.accepts(digit('1')));
    assert!(!Run::Digits.accepts(plain('.')));
    assert!(!Run::Digits.accepts(digit('.')));
    assert!(!Run::Digits.accepts(letter('a')));
}

#[test]
fn the_cursor_starts_at_line_one_column_one() {
    let lexer = Lexer::new("abc".to_string());
    assert_eq!((lexer.position(), lexer.line(), lexer.column()), (0, 1, 1));
    let lexer = Lexer::from_symbols(vec![]);
    assert_eq!((lexer.position(), lexer.line(), lexer.column()), (0, 1, 1));
}

#[test]
fn advancing_counts_lines_and_columns() {
    let mut lexer = Lexer::new("ab\n\nc".to_string());
    lexer.advance();
    assert_eq!((lexer.position(), lexer.line(), lexer.column()), (1, 1, 2));
    lexer.advance();
    assert_eq!((lexer.position(), lexer.line(), lexer.column()), (2, 1, 3));
    lexer.advance();
    assert_eq!((lexer.position(), lexer.line(), lexer.column()), (3, 2, 1));
    lexer.advance();
    assert_eq!((lexer.position(), lexer.line(), lexer.column()), (4, 3, 1));
    lexer.advance();
    assert_eq!((lexer.position(), lexer.line(), lexer.column()), (5, 3, 2));
}

#[test]
fn advancing_at_the_end_changes_nothing() {
    let mut lexer = Lexer::new("a\n".to_string());
    lexer.advance();
    lexer.advance();
    assert_eq!((lexer.position(), lexer.line(), lexer.column()), (2, 2, 1));
    lexer.advance();
    assert_eq!((lexer.position(), lexer.line(), lexer.column()), (2, 2, 1));
    let mut empty = Lexer::new(String::new());
    empty.advance();
    assert_eq!((empty.position(), empty.line(), empty.column()), (0, 1, 1));
}

#[test]
fn given_symbols_are_taken_as_they_are() {
    let mut lexer = Lexer::from_symbols(vec![plain('x')]);
    let error = lexer.tokenize().unwrap_err();
    assert_eq!((error.message.as_str(), error.line, error.column), ("Unknown character: x", 1, 1));

    let mut lexer = Lexer::from_symbols(vec![letter('$'), digit('1'), plain('_'), plain(' '), letter('x')]);
    assert_eq!(
        lexer.tokenize().ok(),
        Some(vec![Token::Ident("$1_".to_string()), Token::Ident("x".to_string())])
    );

    let mut lexer = Lexer::from_symbols(vec![letter(' '), digit('+'), letter('\n')]);
    assert_eq!(lexer.tokenize().ok(), Some(vec![Token::Op("+".to_string()), Token::Newline]));
}

#[test]
fn a_point_that_counts_as_numeric_starts_a_float() {
    let mut lexer = Lexer::from_symbols(vec![digit('.'), digit('5')]);
    assert_eq!(lexer.tokenize().ok(), Some(vec![Token::Float(".5".to_string())]));

    let mut lexer = Lexer::from_symbols(vec![digit('.')]);
    let error = lexer.tokenize().unwrap_err();
    assert_eq!((error.message.as_str(), error.line, error.column), ("Invalid float: .", 1, 2));

    let mut lexer = Lexer::from_symbols(vec![digit('.'), digit('.')]);
    let error = lexer.tokenize().unwrap_err();
    assert_eq!(
        (error.message.as_str(), error.line, error.column),
        ("Invalid number: multiple decimal points", 1, 2)
    );
}

#[test]
fn a_digit_that_is_no_ascii_digit_has_no_value() {
    let mut lexer = Lexer::from_symbols(vec![digit('x'), digit('1')]);
    let error = lexer.tokenize().unwrap_err();
    assert_eq!((error.message.as_str(), error.line, error.column), ("Invalid integer: x1", 1, 3));
}
