//! The scanner: from text to tokens.

use lox_interpreter::scanner::{scan, ScanError};
use lox_interpreter::token::{Token, TokenType};

fn kinds(source: &str) -> Vec<TokenType> {
    scan(source).expect("the text scans").iter().map(|t| t.token_type).collect()
}

fn plain(kind: TokenType, lexeme: &str) -> Token {
    Token::new(kind, lexeme.to_string(), None)
}

fn end() -> Token {
    plain(TokenType::EOF, "")
}

#[test]
fn an_empty_text_is_one_eof() {
    assert_eq!(scan(""), Ok(vec![end()]));
    assert_eq!(scan(" \t\r\n "), Ok(vec![end()]));
}

#[test]
fn punctuation_has_its_kinds() {
    assert_eq!(
        kinds("+ - * / % ( ) { } , . ;"),
        vec![
            TokenType::Plus,
            TokenType::Minus,
            TokenType::Star,
            TokenType::Slash,
            TokenType::Percent,
            TokenType::LeftParen,
            TokenType::RightParen,
            TokenType::LeftBrace,
            TokenType::RightBrace,
            TokenType::Comma,
            TokenType::Dot,
            TokenType::Semicolon,
            TokenType::EOF,
        ]
    );
}

#[test]
fn an_equal_sign_pairs_with_what_is_before_it() {
    assert_eq!(
        kinds("! != = == < <= > >="),
        vec![
            TokenType::Bang,
            TokenType::BangEqual,
            TokenType::Equal,
            TokenType::EqualEqual,
            TokenType::Less,
            TokenType::LessEqual,
            TokenType::Greater,
            TokenType::GreaterEqual,
            TokenType::EOF,
        ]
    );
    assert_eq!(
        scan("a<=b"),
        Ok(vec![
            plain(TokenType::Identifier, "a"),
            plain(TokenType::LessEqual, "<="),
            plain(TokenType::Identifier, "b"),
            end(),
        ])
    );
    assert_eq!(
        kinds("==="),
        vec![TokenType::EqualEqual, TokenType::Equal, TokenType::EOF]
    );
    assert_eq!(kinds("!"), vec![TokenType::Bang, TokenType::EOF]);
}

#[test]
fn keywords_are_whole_words() {
    assert_eq!(
        kinds("and or var class fun if else while for return print true false nil"),
        vec![
            TokenType::And,
            TokenType::Or,
            TokenType::Var,
            TokenType::Class,
            TokenType::Fun,
            TokenType::If,
            TokenType::Else,
            TokenType::While,
            TokenType::For,
            TokenType::Return,
            TokenType::Print,
            TokenType::True,
            TokenType::False,
            TokenType::Nil,
            TokenType::EOF,
        ]
    );
    assert_eq!(
        scan("android nil_ _x1 If"),
        Ok(vec![
            plain(TokenType::Identifier, "android"),
            plain(TokenType::Identifier, "nil_"),
            plain(TokenType::Identifier, "_x1"),
            plain(TokenType::Identifier, "If"),
            end(),
        ])
    );
}

#[test]
fn numbers_carry_their_digits() {
    assert_eq!(
        scan("007 42a"),
        Ok(vec![
            Token::new(TokenType::Number, "007".to_string(), Some("007".to_string())),
            Token::new(TokenType::Number, "42".to_string(), Some("42".to_string())),
            plain(TokenType::Identifier, "a"),
            end(),
        ])
    );
    assert_eq!(kinds("1.5"), vec![TokenType::Number, TokenType::Dot, TokenType::Number, TokenType::EOF]);
    assert_eq!(kinds("-3"), vec![TokenType::Minus, TokenType::Number, TokenType::EOF]);
}

#[test]
fn strings_carry_their_contents_without_the_quotes() {
    assert_eq!(
        scan("\"hi there\" \"\""),
        Ok(vec![
            Token::new(TokenType::String, "\"hi there\"".to_string(), Some("hi there".to_string())),
            Token::new(TokenType::String, "\"\"".to_string(), Some(String::new())),
            end(),
        ])
    );
    assert_eq!(
        scan("\"two\nlines // no comment\""),
        Ok(vec![
            Token::new(
                TokenType::String,
                "\"two\nlines // no comment\"".to_string(),
                Some("two\nlines // no comment".to_string())
            ),
            end(),
        ])
    );
}

#[test]
fn strings_may_hold_any_characters() {
    assert_eq!(
        scan("print \"h\u{e9}llo \u{4e16}\u{754c}\";"),
        Ok(vec![
            plain(TokenType::Print, "print"),
            Token::new(
                TokenType::String,
                "\"h\u{e9}llo \u{4e16}\u{754c}\"".to_string(),
                Some("h\u{e9}llo \u{4e16}\u{754c}".to_string())
            ),
            plain(TokenType::Semicolon, ";"),
            end(),
        ])
    );
}

#[test]
fn comments_run_to_the_end_of_the_line() {
    assert_eq!(
        kinds("1 // one\n/ 2 // two"),
        vec![TokenType::Number, TokenType::Slash, TokenType::Number, TokenType::EOF]
    );
    assert_eq!(kinds("// only a comment"), vec![TokenType::EOF]);
    assert_eq!(kinds("//"), vec![TokenType::EOF]);
    assert_eq!(kinds("a /b"), vec![TokenType::Identifier, TokenType::Slash, TokenType::Identifier, TokenType::EOF]);
}

#[test]
fn a_stray_character_is_an_error() {
    assert_eq!(scan("a @ b"), Err(ScanError { found: '@', position: 2 }));
    assert_eq!(scan("#"), Err(ScanError { found: '#', position: 0 }));
    assert_eq!(scan("x = \u{e9};"), Err(ScanError { found: '\u{e9}', position: 4 }));
}

#[test]
fn a_string_that_never_ends_is_an_error_at_its_quote() {
    assert_eq!(scan("print \"abc"), Err(ScanError { found: '"', position: 6 }));
    assert_eq!(scan("\""), Err(ScanError { found: '"', position: 0 }));
}

#[test]
fn positions_count_characters() {
    assert_eq!(scan("\"\u{e9}\u{e9}\" @"), Err(ScanError { found: '@', position: 5 }));
}

#[test]
fn eof_is_the_last_token_and_no_other() {
    let tokens = scan("var a = 1; // done").expect("the text scans");
    assert_eq!(tokens.last().map(|t| t.token_type), Some(TokenType::EOF));
    assert!(tokens[..tokens.len() - 1].iter().all(|t| t.token_type != TokenType::EOF));
    assert!(tokens[..tokens.len() - 1].iter().all(|t| !t.lexeme.is_empty()));
    assert_eq!(tokens.len(), 6);
}
