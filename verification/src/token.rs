//! The token contract between a scanner and the parser.

use vstd::prelude::*;

verus! {

/// The closed set of token kinds.
#[derive(Clone, Copy, Debug, PartialEq, Eq, Structural)]
pub enum TokenType {
    Number,
    String,
    Identifier,
    True,
    False,
    Nil,
    Plus,
    Minus,
    Star,
    Slash,
    Percent,
    Bang,
    BangEqual,
    Equal,
    EqualEqual,
    Greater,
    GreaterEqual,
    Less,
    LessEqual,
    And,
    Or,
    LeftParen,
    RightParen,
    LeftBrace,
    RightBrace,
    Comma,
    Dot,
    Semicolon,
    Var,
    Class,
    Fun,
    If,
    Else,
    While,
    For,
    Return,
    Print,
    EOF,
}

/// One token: its kind, the source lexeme, and the literal payload that
/// string and number tokens carry.
#[derive(Debug, PartialEq, Eq)]
pub struct Token {
    pub token_type: TokenType,
    pub lexeme: String,
    pub literal: Option<String>,
}

/// The mathematical content of a [`Token`].
pub struct TokenView {
    pub kind: TokenType,
    pub lexeme: Seq<char>,
    pub literal: Option<Seq<char>>,
}

impl TokenView {
    /// The text the parser takes from a token: the literal payload where there
    /// is one, the lexeme otherwise.
    pub open spec fn text(self) -> Seq<char> {
        match self.literal {
            Some(l) => l,
            None => self.lexeme,
        }
    }
}

impl View for Token {
    type V = TokenView;

    open spec fn view(&self) -> TokenView {
        TokenView {
            kind: self.token_type,
            lexeme: self.lexeme@,
            literal: match self.literal {
                Some(l) => Some(l@),
                None => None,
            },
        }
    }
}

/// The views of a run of tokens.
pub open spec fn view_tokens(tokens: Seq<Token>) -> Seq<TokenView> {
    tokens.map_values(|t: Token| t@)
}

impl Token {
    /// A token of the given kind, lexeme and literal payload.
    pub fn new(token_type: TokenType, lexeme: String, literal: Option<String>) -> (t: Token)
        ensures
            t@ == (TokenView {
                kind: token_type,
                lexeme: lexeme@,
                literal: match literal {
                    Some(l) => Some(l@),
                    None => None,
                },
            }),
    {
        Token { token_type, lexeme, literal }
    }

    /// The token's text: the literal payload where there is one, the lexeme
    /// otherwise.
    pub fn text(&self) -> (s: String)
        ensures
            s@ == self@.text(),
    {
        match &self.literal {
            Some(l) => l.clone(),
            None => self.lexeme.clone(),
        }
    }
}

} // verus!
