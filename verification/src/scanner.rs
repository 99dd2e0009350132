//! The scanner: source text to the tokens the parser takes.
//!
//! Blanks and `//` comments separate tokens and leave none. A number is a
//! run of digits; a word is a run of letters, digits and `_` that starts
//! with no digit, and is a keyword or an identifier; a string stands between
//! two `"` and has no escapes. Numbers and strings carry their text as the
//! literal, a string without its quotes. The tokens end with one `EOF`.

use crate::numeral::{all_digits, is_digit};
use crate::token::{view_tokens, Token, TokenType, TokenView};
use vstd::prelude::*;
use vstd::string::StrSliceExecFns;
use vstd::string::StringExecFns;

verus! {

/// A character that starts no token, and its place among the characters of
/// the source. A `"` whose string never ends starts none.
#[derive(Clone, Copy, Debug, PartialEq, Eq, Structural)]
pub struct ScanError {
    pub found: char,
    pub position: usize,
}

/// The runs of characters that the scanner takes as a whole.
#[derive(Clone, Copy, Debug, PartialEq, Eq, Structural)]
pub enum Run {
    /// The digits of a number.
    Digits,
    /// The letters, digits and `_` of a word.
    Word,
    /// A comment, up to the end of its line.
    Comment,
    /// The contents of a string, up to its closing `"`.
    Text,
}

/// Whether `c` separates tokens.
pub open spec fn is_blank(c: char) -> bool {
    c == ' ' || c == '\t' || c == '\r' || c == '\n'
}

/// Whether a word can start with `c`.
pub open spec fn is_letter(c: char) -> bool {
    'a' <= c <= 'z' || 'A' <= c <= 'Z' || c == '_'
}

/// Whether the run `run` goes on over `c`.
pub open spec fn in_run(run: Run, c: char) -> bool {
    match run {
        Run::Digits => is_digit(c),
        Run::Word => is_letter(c) || is_digit(c),
        Run::Comment => c != '\n',
        Run::Text => c != '"',
    }
}

/// Where the run `run` that is at `pos` ends: the place of the first
/// character from `pos` on that it does not go on over, or the end of the
/// text.
pub open spec fn run_end(cs: Seq<char>, pos: int, run: Run) -> int
    decreases cs.len() - pos,
{
    if 0 <= pos < cs.len() && in_run(run, cs[pos]) {
        run_end(cs, pos + 1, run)
    } else {
        pos
    }
}

/// The kind of the word `word`: that of the keyword it is, or `Identifier`.
pub open spec fn word_kind(word: Seq<char>) -> TokenType {
    if word == seq!['a', 'n', 'd'] {
        TokenType::And
    } else if word == seq!['o', 'r'] {
        TokenType::Or
    } else if word == seq!['v', 'a', 'r'] {
        TokenType::Var
    } else if word == seq!['c', 'l', 'a', 's', 's'] {
        TokenType::Class
    } else if word == seq!['f', 'u', 'n'] {
        TokenType::Fun
    } else if word == seq!['i', 'f'] {
        TokenType::If
    } else if word == seq!['e', 'l', 's', 'e'] {
        TokenType::Else
    } else if word == seq!['w', 'h', 'i', 'l', 'e'] {
        TokenType::While
    } else if word == seq!['f', 'o', 'r'] {
        TokenType::For
    } else if word == seq!['r', 'e', 't', 'u', 'r', 'n'] {
        TokenType::Return
    } else if word == seq!['p', 'r', 'i', 'n', 't'] {
        TokenType::Print
    } else if word == seq!['t', 'r', 'u', 'e'] {
        TokenType::True
    } else if word == seq!['f', 'a', 'l', 's', 'e'] {
        TokenType::False
    } else if word == seq!['n', 'i', 'l'] {
        TokenType::Nil
    } else {
        TokenType::Identifier
    }
}

/// The kind and the width of the punctuation that starts with `c`, where
/// `paired` says whether a `=` follows; `None` where `c` starts none.
pub open spec fn punctuation(c: char, paired: bool) -> Option<(TokenType, int)> {
    if c == '+' {
        Some((TokenType::Plus, 1))
    } else if c == '-' {
        Some((TokenType::Minus, 1))
    } else if c == '*' {
        Some((TokenType::Star, 1))
    } else if c == '/' {
        Some((TokenType::Slash, 1))
    } else if c == '%' {
        Some((TokenType::Percent, 1))
    } else if c == '(' {
        Some((TokenType::LeftParen, 1))
    } else if c == ')' {
        Some((TokenType::RightParen, 1))
    } else if c == '{' {
        Some((TokenType::LeftBrace, 1))
    } else if c == '}' {
        Some((TokenType::RightBrace, 1))
    } else if c == ',' {
        Some((TokenType::Comma, 1))
    } else if c == '.' {
        Some((TokenType::Dot, 1))
    } else if c == ';' {
        Some((TokenType::Semicolon, 1))
    } else if c == '!' {
        if paired {
            Some((TokenType::BangEqual, 2))
        } else {
            Some((TokenType::Bang, 1))
        }
    } else if c == '=' {
        if paired {
            Some((TokenType::EqualEqual, 2))
        } else {
            Some((TokenType::Equal, 1))
        }
    } else if c == '<' {
        if paired {
            Some((TokenType::LessEqual, 2))
        } else {
            Some((TokenType::Less, 1))
        }
    } else if c == '>' {
        if paired {
            Some((TokenType::GreaterEqual, 2))
        } else {
            Some((TokenType::Greater, 1))
        }
    } else {
        None
    }
}

/// The token of the kind `kind` written `lexeme`, without a literal.
pub open spec fn plain_token(kind: TokenType, lexeme: Seq<char>) -> TokenView {
    TokenView { kind, lexeme, literal: None }
}

/// What stands at `pos`, a place in the text: a token and the place behind
/// it; nothing to keep and the place behind it; or no token.
pub enum Lexeme {
    Token { token: TokenView, next: int },
    Skip { next: int },
    Stray,
}

/// What stands at `pos`, a place in the text `cs`.
pub open spec fn lexeme_at(cs: Seq<char>, pos: int) -> Lexeme {
    let c = cs[pos];
    let paired = pos + 1 < cs.len() && cs[pos + 1] == '=';
    if is_blank(c) {
        Lexeme::Skip { next: pos + 1 }
    } else if c == '/' && pos + 1 < cs.len() && cs[pos + 1] == '/' {
        Lexeme::Skip { next: run_end(cs, pos, Run::Comment) }
    } else if is_digit(c) {
        let end = run_end(cs, pos, Run::Digits);
        Lexeme::Token {
            token: TokenView {
                kind: TokenType::Number,
                lexeme: cs.subrange(pos, end),
                literal: Some(cs.subrange(pos, end)),
            },
            next: end,
        }
    } else if is_letter(c) {
        let end = run_end(cs, pos, Run::Word);
        Lexeme::Token {
            token: plain_token(word_kind(cs.subrange(pos, end)), cs.subrange(pos, end)),
            next: end,
        }
    } else if c == '"' {
        let end = run_end(cs, pos + 1, Run::Text);
        if end < cs.len() {
            Lexeme::Token {
                token: TokenView {
                    kind: TokenType::String,
                    lexeme: cs.subrange(pos, end + 1),
                    literal: Some(cs.subrange(pos + 1, end)),
                },
                next: end + 1,
            }
        } else {
            Lexeme::Stray
        }
    } else {
        match punctuation(c, paired) {
            Some((kind, width)) => Lexeme::Token {
                token: plain_token(kind, cs.subrange(pos, pos + width)),
                next: pos + width,
            },
            None => Lexeme::Stray,
        }
    }
}

/// The `EOF` token.
pub open spec fn end_token() -> TokenView {
    plain_token(TokenType::EOF, Seq::empty())
}

/// The tokens of the text `cs` from `pos` on, behind those in `acc`, and the
/// `EOF` token behind them all; or the first character that starts no
/// token.
pub open spec fn scan_from(cs: Seq<char>, pos: int, acc: Seq<TokenView>) -> Result<
    Seq<TokenView>,
    ScanError,
>
    decreases cs.len() - pos,
{
    if !(0 <= pos < cs.len()) {
        Ok(acc.push(end_token()))
    } else {
        match lexeme_at(cs, pos) {
            Lexeme::Token { token, next } => if pos < next <= cs.len() {
                scan_from(cs, next, acc.push(token))
            } else {
                Err(ScanError { found: cs[pos], position: pos as usize })
            },
            Lexeme::Skip { next } => if pos < next <= cs.len() {
                scan_from(cs, next, acc)
            } else {
                Err(ScanError { found: cs[pos], position: pos as usize })
            },
            Lexeme::Stray => Err(ScanError { found: cs[pos], position: pos as usize }),
        }
    }
}

/// The tokens of the text `cs`.
pub open spec fn scan_text(cs: Seq<char>) -> Result<Seq<TokenView>, ScanError> {
    scan_from(cs, 0, Seq::empty())
}

/// A run ends at or behind where it is looked for, within the text, and
/// goes on over every character up to its end.
pub proof fn lemma_run_end(cs: Seq<char>, pos: int, run: Run)
    requires
        0 <= pos <= cs.len(),
    ensures
        pos <= run_end(cs, pos, run) <= cs.len(),
        forall|i: int| pos <= i < run_end(cs, pos, run) ==> in_run(run, #[trigger] cs[i]),
        run_end(cs, pos, run) < cs.len() ==> !in_run(run, cs[run_end(cs, pos, run)]),
        pos < cs.len() && in_run(run, cs[pos]) ==> pos < run_end(cs, pos, run),
    decreases cs.len() - pos,
{
    if pos < cs.len() && in_run(run, cs[pos]) {
        lemma_run_end(cs, pos + 1, run);
    }
}

/// What stands at a place in the text ends behind that place, within the
/// text: the scanner always moves on.
pub proof fn lemma_lexeme_advances(cs: Seq<char>, pos: int)
    requires
        0 <= pos < cs.len(),
    ensures
        lexeme_at(cs, pos) matches Lexeme::Token { next, .. } ==> pos < next <= cs.len(),
        lexeme_at(cs, pos) matches Lexeme::Skip { next } ==> pos < next <= cs.len(),
{
    lemma_run_end(cs, pos, Run::Comment);
    lemma_run_end(cs, pos, Run::Digits);
    lemma_run_end(cs, pos, Run::Word);
    lemma_run_end(cs, pos + 1, Run::Text);
}

/// What the parser may rely on in a token of the scanner: a number carries
/// its digits as the literal, a string its contents between the quotes, and
/// no other token has a literal; and no token but the last is `EOF`.
pub open spec fn keeps_contract(t: TokenView) -> bool {
    match t.kind {
        TokenType::EOF => false,
        TokenType::Number => t.literal == Some(t.lexeme) && t.lexeme.len() > 0 && all_digits(
            t.lexeme,
        ),
        TokenType::String => t.literal matches Some(text) && t.lexeme == seq!['"'] + text
            + seq!['"'] && !text.contains('"'),
        _ => t.literal is None && t.lexeme.len() > 0,
    }
}

/// A token of the scanner keeps the contract.
pub proof fn lemma_lexeme_keeps_contract(cs: Seq<char>, pos: int)
    requires
        0 <= pos < cs.len(),
    ensures
        lexeme_at(cs, pos) matches Lexeme::Token { token, .. } ==> keeps_contract(token),
{
    lemma_run_end(cs, pos, Run::Digits);
    lemma_run_end(cs, pos, Run::Word);
    lemma_run_end(cs, pos + 1, Run::Text);
    if let Lexeme::Token { token, next } = lexeme_at(cs, pos) {
        let c = cs[pos];
        if is_blank(c) || (c == '/' && pos + 1 < cs.len() && cs[pos + 1] == '/') {
        } else if is_digit(c) {
            let digits = cs.subrange(pos, next);
            assert forall|i: int| 0 <= i < digits.len() implies is_digit(#[trigger] digits[i]) by {
                assert(in_run(Run::Digits, cs[pos + i]));
            }
        } else if is_letter(c) {
            let word = cs.subrange(pos, next);
            assert(word[0] == c);
            assert(word_kind(word) != TokenType::EOF);
            assert(word_kind(word) != TokenType::Number);
            assert(word_kind(word) != TokenType::String);
        } else if c == '"' {
            let end = next - 1;
            let text = cs.subrange(pos + 1, end);
            assert(token.lexeme =~= seq!['"'] + text + seq!['"']);
            assert forall|i: int| 0 <= i < text.len() implies text[i] != '"' by {
                assert(in_run(Run::Text, cs[pos + 1 + i]));
            }
        } else {
            let paired = pos + 1 < cs.len() && cs[pos + 1] == '=';
            assert(punctuation(c, paired) is Some);
        }
    }
}

/// The scanner's tokens keep the contract: behind tokens that keep it, the
/// scanner puts tokens that keep it, and one `EOF`, last.
pub proof fn lemma_scan_keeps_contract(cs: Seq<char>, pos: int, acc: Seq<TokenView>)
    requires
        forall|i: int| 0 <= i < acc.len() ==> keeps_contract(#[trigger] acc[i]),
    ensures
        scan_from(cs, pos, acc) matches Ok(ts) ==> ts.len() > 0 && ts.last() == end_token()
            && forall|i: int| 0 <= i < ts.len() - 1 ==> keeps_contract(#[trigger] ts[i]),
    decreases cs.len() - pos,
{
    if 0 <= pos < cs.len() {
        lemma_lexeme_keeps_contract(cs, pos);
        match lexeme_at(cs, pos) {
            Lexeme::Token { token, next } => {
                if pos < next <= cs.len() {
                    lemma_scan_keeps_contract(cs, next, acc.push(token));
                }
            },
            Lexeme::Skip { next } => {
                if pos < next <= cs.len() {
                    lemma_scan_keeps_contract(cs, next, acc);
                }
            },
            Lexeme::Stray => {},
        }
    }
}

/// The token contract: the tokens of a text end with one `EOF`, and each
/// token before it carries what the parser reads from it.
pub proof fn law_scanned_tokens_keep_the_contract(cs: Seq<char>)
    ensures
        scan_text(cs) matches Ok(ts) ==> ts.len() > 0 && ts.last().kind == TokenType::EOF
            && forall|i: int| 0 <= i < ts.len() - 1 ==> keeps_contract(#[trigger] ts[i]),
{
    lemma_scan_keeps_contract(cs, 0, Seq::empty());
}

/// An error of the scanner names a character of the text that starts no
/// token.
pub proof fn law_scan_error_names_a_stray_character(cs: Seq<char>, pos: int, acc: Seq<TokenView>)
    requires
        cs.len() <= usize::MAX,
    ensures
        scan_from(cs, pos, acc) matches Err(e) ==> e.position < cs.len() && e.found
            == cs[e.position as int] && lexeme_at(cs, e.position as int) is Stray,
    decreases cs.len() - pos,
{
    if 0 <= pos < cs.len() {
        lemma_lexeme_advances(cs, pos);
        match lexeme_at(cs, pos) {
            Lexeme::Token { token, next } => {
                law_scan_error_names_a_stray_character(cs, next, acc.push(token));
            },
            Lexeme::Skip { next } => {
                law_scan_error_names_a_stray_character(cs, next, acc);
            },
            Lexeme::Stray => {},
        }
    }
}

/// The character at the place `i` of `source`; `ascii` says that the text
/// is known to be ASCII, where a character is a byte.
fn char_at(source: &str, i: usize, ascii: bool) -> (c: char)
    requires
        i < source@.len(),
        ascii ==> source.is_ascii(),
    ensures
        c == source@[i as int],
{
    if ascii {
        source.get_ascii(i) as char
    } else {
        source.get_char(i)
    }
}

/// The characters of `source` from the place `from` up to `to`.
fn slice(source: &str, from: usize, to: usize, ascii: bool) -> (s: String)
    requires
        from <= to <= source@.len(),
        ascii ==> source.is_ascii(),
    ensures
        s@ == source@.subrange(from as int, to as int),
{
    if ascii {
        String::from_str(source.substring_ascii(from, to))
    } else {
        String::from_str(source.substring_char(from, to))
    }
}

/// Whether the run `run` goes on over `c`.
fn goes_on(run: Run, c: char) -> (b: bool)
    ensures
        b == in_run(run, c),
{
    let digit = '0' <= c && c <= '9';
    match run {
        Run::Digits => digit,
        Run::Word => ('a' <= c && c <= 'z') || ('A' <= c && c <= 'Z') || c == '_' || digit,
        Run::Comment => c != '\n',
        Run::Text => c != '"',
    }
}

/// Where the run `run` that is at `from` ends.
fn find_run_end(source: &str, from: usize, n: usize, run: Run, ascii: bool) -> (end: usize)
    requires
        from <= n,
        n == source@.len(),
        ascii ==> source.is_ascii(),
    ensures
        end == run_end(source@, from as int, run),
        from <= end <= n,
{
    let mut end = from;
    loop
        invariant
            from <= end <= n,
            n == source@.len(),
            ascii ==> source.is_ascii(),
            run_end(source@, end as int, run) == run_end(source@, from as int, run),
        decreases n - end,
    {
        if end >= n {
            return end;
        }
        if !goes_on(run, char_at(source, end, ascii)) {
            return end;
        }
        end += 1;
    }
}

/// The kind of the word `word`: that of the keyword it is, or `Identifier`.
fn kind_of_word(word: &String) -> (k: TokenType)
    ensures
        k == word_kind(word@),
{
    proof {
        reveal_strlit("and");
        reveal_strlit("or");
        reveal_strlit("var");
        reveal_strlit("class");
        reveal_strlit("fun");
        reveal_strlit("if");
        reveal_strlit("else");
        reveal_strlit("while");
        reveal_strlit("for");
        reveal_strlit("return");
        reveal_strlit("print");
        reveal_strlit("true");
        reveal_strlit("false");
        reveal_strlit("nil");
        assert("and"@ =~= seq!['a', 'n', 'd']);
        assert("or"@ =~= seq!['o', 'r']);
        assert("var"@ =~= seq!['v', 'a', 'r']);
        assert("class"@ =~= seq!['c', 'l', 'a', 's', 's']);
        assert("fun"@ =~= seq!['f', 'u', 'n']);
        assert("if"@ =~= seq!['i', 'f']);
        assert("else"@ =~= seq!['e', 'l', 's', 'e']);
        assert("while"@ =~= seq!['w', 'h', 'i', 'l', 'e']);
        assert("for"@ =~= seq!['f', 'o', 'r']);
        assert("return"@ =~= seq!['r', 'e', 't', 'u', 'r', 'n']);
        assert("print"@ =~= seq!['p', 'r', 'i', 'n', 't']);
        assert("true"@ =~= seq!['t', 'r', 'u', 'e']);
        assert("false"@ =~= seq!['f', 'a', 'l', 's', 'e']);
        assert("nil"@ =~= seq!['n', 'i', 'l']);
    }
    if *word == String::from_str("and") {
        TokenType::And
    } else if *word == String::from_str("or") {
        TokenType::Or
    } else if *word == String::from_str("var") {
        TokenType::Var
    } else if *word == String::from_str("class") {
        TokenType::Class
    } else if *word == String::from_str("fun") {
        TokenType::Fun
    } else if *word == String::from_str("if") {
        TokenType::If
    } else if *word == String::from_str("else") {
        TokenType::Else
    } else if *word == String::from_str("while") {
        TokenType::While
    } else if *word == String::from_str("for") {
        TokenType::For
    } else if *word == String::from_str("return") {
        TokenType::Return
    } else if *word == String::from_str("print") {
        TokenType::Print
    } else if *word == String::from_str("true") {
        TokenType::True
    } else if *word == String::from_str("false") {
        TokenType::False
    } else if *word == String::from_str("nil") {
        TokenType::Nil
    } else {
        TokenType::Identifier
    }
}

/// The kind and the width of the punctuation that starts with `c`.
fn punctuation_of(c: char, paired: bool) -> (r: Option<(TokenType, usize)>)
    ensures
        match r {
            Some((kind, width)) => punctuation(c, paired) == Some((kind, width as int)),
            None => punctuation(c, paired) is None,
        },
{
    if c == '+' {
        Some((TokenType::Plus, 1))
    } else if c == '-' {
        Some((TokenType::Minus, 1))
    } else if c == '*' {
        Some((TokenType::Star, 1))
    } else if c == '/' {
        Some((TokenType::Slash, 1))
    } else if c == '%' {
        Some((TokenType::Percent, 1))
    } else if c == '(' {
        Some((TokenType::LeftParen, 1))
    } else if c == ')' {
        Some((TokenType::RightParen, 1))
    } else if c == '{' {
        Some((TokenType::LeftBrace, 1))
    } else if c == '}' {
        Some((TokenType::RightBrace, 1))
    } else if c == ',' {
        Some((TokenType::Comma, 1))
    } else if c == '.' {
        Some((TokenType::Dot, 1))
    } else if c == ';' {
        Some((TokenType::Semicolon, 1))
    } else if c == '!' {
        if paired {
            Some((TokenType::BangEqual, 2))
        } else {
            Some((TokenType::Bang, 1))
        }
    } else if c == '=' {
        if paired {
            Some((TokenType::EqualEqual, 2))
        } else {
            Some((TokenType::Equal, 1))
        }
    } else if c == '<' {
        if paired {
            Some((TokenType::LessEqual, 2))
        } else {
            Some((TokenType::Less, 1))
        }
    } else if c == '>' {
        if paired {
            Some((TokenType::GreaterEqual, 2))
        } else {
            Some((TokenType::Greater, 1))
        }
    } else {
        None
    }
}

/// The token that stands at the place `pos` of `source` and the place
/// behind it; `None` and the place behind what stands there where that is no
/// token; or the error where nothing can stand there.
fn scan_one(source: &str, pos: usize, n: usize, ascii: bool) -> (r: Result<
    (Option<Token>, usize),
    ScanError,
>)
    requires
        pos < n,
        n == source@.len(),
        ascii ==> source.is_ascii(),
    ensures
        match r {
            Ok((Some(token), next)) => lexeme_at(source@, pos as int) == (Lexeme::Token {
                token: token@,
                next: next as int,
            }),
            Ok((None, next)) => lexeme_at(source@, pos as int) == (Lexeme::Skip {
                next: next as int,
            }),
            Err(e) => lexeme_at(source@, pos as int) is Stray && e == (ScanError {
                found: source@[pos as int],
                position: pos,
            }),
        },
        r matches Ok((_, next)) ==> pos < next <= n,
{
    proof {
        lemma_lexeme_advances(source@, pos as int);
    }
    let c = char_at(source, pos, ascii);
    let follower = if pos + 1 < n {
        Some(char_at(source, pos + 1, ascii))
    } else {
        None
    };
    let paired = match follower {
        Some(f) => f == '=',
        None => false,
    };
    let commented = match follower {
        Some(f) => f == '/',
        None => false,
    };
    if c == ' ' || c == '\t' || c == '\r' || c == '\n' {
        Ok((None, pos + 1))
    } else if c == '/' && commented {
        Ok((None, find_run_end(source, pos, n, Run::Comment, ascii)))
    } else if '0' <= c && c <= '9' {
        let end = find_run_end(source, pos, n, Run::Digits, ascii);
        let digits = slice(source, pos, end, ascii);
        let literal = digits.clone();
        Ok((Some(Token::new(TokenType::Number, digits, Some(literal))), end))
    } else if ('a' <= c && c <= 'z') || ('A' <= c && c <= 'Z') || c == '_' {
        let end = find_run_end(source, pos, n, Run::Word, ascii);
        let word = slice(source, pos, end, ascii);
        let kind = kind_of_word(&word);
        Ok((Some(Token::new(kind, word, None)), end))
    } else if c == '"' {
        let end = find_run_end(source, pos + 1, n, Run::Text, ascii);
        if end < n {
            let lexeme = slice(source, pos, end + 1, ascii);
            let contents = slice(source, pos + 1, end, ascii);
            Ok((Some(Token::new(TokenType::String, lexeme, Some(contents))), end + 1))
        } else {
            Err(ScanError { found: c, position: pos })
        }
    } else {
        match punctuation_of(c, paired) {
            Some((kind, width)) => {
                let lexeme = slice(source, pos, pos + width, ascii);
                Ok((Some(Token::new(kind, lexeme, None)), pos + width))
            },
            None => Err(ScanError { found: c, position: pos }),
        }
    }
}

/// Scans `source`: its tokens and an `EOF` token behind them, or the first
/// character that starts no token.
pub fn scan(source: &str) -> (r: Result<Vec<Token>, ScanError>)
    ensures
        match r {
            Ok(tokens) => scan_text(source@) == Ok::<Seq<TokenView>, ScanError>(
                view_tokens(tokens@),
            ),
            Err(e) => scan_text(source@) == Err::<Seq<TokenView>, ScanError>(e),
        },
{
    let n = source.unicode_len();
    let ascii = source.is_ascii();
    let mut tokens: Vec<Token> = Vec::new();
    let mut pos: usize = 0;
    assert(view_tokens(tokens@) =~= Seq::empty());
    while pos < n
        invariant
            pos <= n,
            n == source@.len(),
            ascii ==> source.is_ascii(),
            scan_from(source@, pos as int, view_tokens(tokens@)) == scan_text(source@),
        decreases n - pos,
    {
        match scan_one(source, pos, n, ascii) {
            Err(e) => {
                return Err(e);
            },
            Ok((found, next)) => {
                match found {
                    Some(token) => {
                        let ghost before = view_tokens(tokens@);
                        let ghost token_view = token@;
                        tokens.push(token);
                        assert(view_tokens(tokens@) =~= before.push(token_view));
                    },
                    None => {},
                }
                pos = next;
            },
        }
    }
    let ghost before = view_tokens(tokens@);
    let end = Token::new(TokenType::EOF, String::new(), None);
    tokens.push(end);
    assert(view_tokens(tokens@) =~= before.push(end_token()));
    Ok(tokens)
}

} // verus!
