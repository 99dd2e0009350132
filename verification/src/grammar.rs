//! The grammar, as functions from a token sequence and a position to the tree
//! that starts there and the position behind it.
//!
//! ```text
//! program        := declaration*
//! declaration    := varDecl | classDecl | statement
//! varDecl        := "var" IDENT ("=" expression)? ";"
//! classDecl      := "class" IDENT "{" function* "}"
//! function       := IDENT "(" params? ")" block
//! params         := IDENT ("," IDENT)*
//! statement      := printStmt | ifStmt | funDecl | whileStmt
//!                 | forStmt | block | returnStmt | exprStmt
//! printStmt      := "print" expression ";"
//! ifStmt         := "if" "(" expression ")" block ("else" block)?
//! funDecl        := "fun" function
//! whileStmt      := "while" "(" expression ")" declaration
//! forStmt        := "for" "(" (varDecl | exprStmt | ";")
//!                   expression? ";" expression? ")" declaration
//! block          := "{" declaration* "}"
//! returnStmt     := "return" expression? ";"
//! exprStmt       := expression ";"
//! expression     := assignment
//! assignment     := logic_or ("=" assignment)?
//! logic_or       := logic_and ("or" logic_and)*
//! logic_and      := equality ("and" equality)*
//! equality       := comparison (("==" | "!=") comparison)*
//! comparison     := term (("<" | "<=" | ">" | ">=") term)*
//! term           := factor (("+" | "-") factor)*
//! factor         := unary (("*" | "/" | "%") unary)*
//! unary          := ("!" | "-") unary | call
//! call           := primary ("(" args? ")" | "." IDENT)*
//! args           := expression ("," expression)*
//! primary        := NUMBER | STRING | "true" | "false" | "nil"
//!                 | "(" expression ")" | IDENT
//! ```
//!
//! The first violation ends the parse: its error names what the production
//! wanted, the kind of the token found, and that token's position.

use crate::expressions::expression::ExprView;
use crate::statements::statement::{FunctionView, StmtView};
use crate::token::{TokenType, TokenView};
use vstd::prelude::*;

verus! {

/// What a production wanted where it failed.
#[derive(Clone, Copy, Debug, PartialEq, Eq, Structural)]
pub enum Expected {
    /// A token of this kind.
    Token(TokenType),
    /// The start of an expression.
    Expression,
    /// A variable on the left of `=`.
    Variable,
    /// At most [`MAX_ARGUMENTS`] arguments in one call.
    FewerArguments,
}

/// A syntax error: what was expected, the kind of the token found, and the
/// position of that token.
#[derive(Clone, Copy, Debug, PartialEq, Eq, Structural)]
pub struct ParseError {
    pub expected: Expected,
    pub found: TokenType,
    pub position: usize,
}

/// The most arguments one call may have.
pub const MAX_ARGUMENTS: usize = 255;

/// The outcome of one production: the tree and the position behind it, or the
/// error.
pub type Parsed<T> = Result<(T, int), ParseError>;

/// The kind of the token at `pos`; `EOF` beyond the end.
pub open spec fn kind_at(ts: Seq<TokenView>, pos: int) -> TokenType {
    if 0 <= pos < ts.len() {
        ts[pos].kind
    } else {
        TokenType::EOF
    }
}

/// The error of a production that wanted `expected` at `pos`.
pub open spec fn failure(ts: Seq<TokenView>, pos: int, expected: Expected) -> ParseError {
    ParseError { expected, found: kind_at(ts, pos), position: pos as usize }
}

/// Whether a production that started at `pos` and ended at `next` consumed at
/// least one token and stayed within the sequence. Every production that
/// builds a tree does (see `law_parsed_expression_is_spelled` and
/// `law_parsed_declaration_is_spelled` in `sound`); the grammar functions
/// test it where they go on from `next`, which is what makes them
/// well-founded, and the error in the other branch is never returned.
pub open spec fn advances(ts: Seq<TokenView>, pos: int, next: int) -> bool {
    pos < next <= ts.len()
}

/// The binary levels of the expression grammar, loosest first.
pub open spec fn level_or() -> int { 0 }
pub open spec fn level_and() -> int { 1 }
pub open spec fn level_equality() -> int { 2 }
pub open spec fn level_comparison() -> int { 3 }
pub open spec fn level_term() -> int { 4 }
pub open spec fn level_factor() -> int { 5 }

/// Whether `kind` is an operator of the binary level `level`.
pub open spec fn is_operator(level: int, kind: TokenType) -> bool {
    if level == 0 {
        kind == TokenType::Or
    } else if level == 1 {
        kind == TokenType::And
    } else if level == 2 {
        kind == TokenType::BangEqual || kind == TokenType::EqualEqual
    } else if level == 3 {
        kind == TokenType::Greater || kind == TokenType::GreaterEqual || kind == TokenType::Less
            || kind == TokenType::LessEqual
    } else if level == 4 {
        kind == TokenType::Minus || kind == TokenType::Plus
    } else if level == 5 {
        kind == TokenType::Slash || kind == TokenType::Star || kind == TokenType::Percent
    } else {
        false
    }
}

/// The node for an operator of level `level` applied to two operands.
pub open spec fn join(level: int, op: TokenType, lhs: ExprView, rhs: ExprView) -> ExprView {
    if level < 2 {
        ExprView::Logical { op, lhs: Box::new(lhs), rhs: Box::new(rhs) }
    } else {
        ExprView::Binary { op, lhs: Box::new(lhs), rhs: Box::new(rhs) }
    }
}

/// `primary`.
pub open spec fn parse_primary(ts: Seq<TokenView>, pos: int) -> Parsed<ExprView>
    decreases ts.len() - pos, 0int,
{
    match kind_at(ts, pos) {
        TokenType::False | TokenType::True | TokenType::Nil | TokenType::String | TokenType::Number => Ok(
            (ExprView::Literal { kind: ts[pos].kind, text: ts[pos].text() }, pos + 1),
        ),
        TokenType::Identifier => Ok((ExprView::Variable { name: ts[pos].lexeme }, pos + 1)),
        TokenType::LeftParen => match parse_expression(ts, pos + 1) {
            Err(e) => Err(e),
            Ok((inner, p)) => if kind_at(ts, p) == TokenType::RightParen {
                Ok((ExprView::Grouping { inner: Box::new(inner) }, p + 1))
            } else {
                Err(failure(ts, p, Expected::Token(TokenType::RightParen)))
            },
        },
        _ => Err(failure(ts, pos, Expected::Expression)),
    }
}

/// `args`, from `pos` on, behind the arguments in `acc`.
pub open spec fn parse_argument_list(ts: Seq<TokenView>, pos: int, acc: Seq<ExprView>) -> Parsed<
    Seq<ExprView>,
>
    decreases ts.len() - pos, 21int,
{
    match parse_expression(ts, pos) {
        Err(e) => Err(e),
        Ok((arg, p)) => if kind_at(ts, p) != TokenType::Comma {
            Ok((acc.push(arg), p))
        } else if acc.len() + 1 >= MAX_ARGUMENTS {
            Err(failure(ts, p, Expected::FewerArguments))
        } else if advances(ts, pos, p) {
            parse_argument_list(ts, p + 1, acc.push(arg))
        } else {
            Err(failure(ts, p, Expected::Expression))
        },
    }
}

/// `args?`: nothing before a `)`, else `args`.
pub open spec fn parse_arguments(ts: Seq<TokenView>, pos: int) -> Parsed<Seq<ExprView>>
    decreases ts.len() - pos, 22int,
{
    if kind_at(ts, pos) == TokenType::RightParen {
        Ok((Seq::empty(), pos))
    } else {
        parse_argument_list(ts, pos, Seq::empty())
    }
}

/// The calls and property accesses that follow `callee` from `pos` on.
pub open spec fn parse_call_rest(ts: Seq<TokenView>, pos: int, callee: ExprView) -> Parsed<ExprView>
    decreases ts.len() - pos, 23int,
{
    match kind_at(ts, pos) {
        TokenType::LeftParen => match parse_arguments(ts, pos + 1) {
            Err(e) => Err(e),
            Ok((args, p)) => if kind_at(ts, p) != TokenType::RightParen {
                Err(failure(ts, p, Expected::Token(TokenType::RightParen)))
            } else if pos < p {
                parse_call_rest(ts, p + 1, ExprView::Call { callee: Box::new(callee), args })
            } else {
                Err(failure(ts, p, Expected::Expression))
            },
        },
        TokenType::Dot => if kind_at(ts, pos + 1) == TokenType::Identifier {
            parse_call_rest(
                ts,
                pos + 2,
                ExprView::Get { object: Box::new(callee), name: ts[pos + 1].lexeme },
            )
        } else {
            Err(failure(ts, pos + 1, Expected::Token(TokenType::Identifier)))
        },
        _ => Ok((callee, pos)),
    }
}

/// `call`.
pub open spec fn parse_call(ts: Seq<TokenView>, pos: int) -> Parsed<ExprView>
    decreases ts.len() - pos, 1int,
{
    match parse_primary(ts, pos) {
        Err(e) => Err(e),
        Ok((callee, p)) => if advances(ts, pos, p) {
            parse_call_rest(ts, p, callee)
        } else {
            Err(failure(ts, p, Expected::Expression))
        },
    }
}

/// `unary`.
pub open spec fn parse_unary(ts: Seq<TokenView>, pos: int) -> Parsed<ExprView>
    decreases ts.len() - pos, 2int,
{
    if kind_at(ts, pos) == TokenType::Bang || kind_at(ts, pos) == TokenType::Minus {
        match parse_unary(ts, pos + 1) {
            Err(e) => Err(e),
            Ok((operand, p)) => Ok(
                (ExprView::Unary { op: ts[pos].kind, operand: Box::new(operand) }, p),
            ),
        }
    } else {
        parse_call(ts, pos)
    }
}

/// The operand of the binary level `level`: the next tighter level, `unary`
/// below `factor`.
pub open spec fn parse_operand(ts: Seq<TokenView>, pos: int, level: int) -> Parsed<ExprView>
    decreases ts.len() - pos, (if 0 <= level < 5 { 15 - 2 * level } else { 3int }),
{
    if 0 <= level < 5 {
        parse_binary(ts, pos, level + 1)
    } else {
        parse_unary(ts, pos)
    }
}

/// The operators of level `level` and their right operands that follow `lhs`
/// from `pos` on, joined to the left.
pub open spec fn parse_binary_rest(ts: Seq<TokenView>, pos: int, level: int, lhs: ExprView) -> Parsed<
    ExprView,
>
    decreases ts.len() - pos, 24int,
{
    if 0 <= level <= 5 && is_operator(level, kind_at(ts, pos)) {
        match parse_operand(ts, pos + 1, level) {
            Err(e) => Err(e),
            Ok((rhs, p)) => if advances(ts, pos, p) {
                parse_binary_rest(ts, p, level, join(level, ts[pos].kind, lhs, rhs))
            } else {
                Err(failure(ts, p, Expected::Expression))
            },
        }
    } else {
        Ok((lhs, pos))
    }
}

/// One binary level: `logic_or` at level 0 down to `factor` at level 5.
pub open spec fn parse_binary(ts: Seq<TokenView>, pos: int, level: int) -> Parsed<ExprView>
    decreases ts.len() - pos, (if 0 <= level <= 5 { 16 - 2 * level } else { 3int }),
{
    if 0 <= level <= 5 {
        match parse_operand(ts, pos, level) {
            Err(e) => Err(e),
            Ok((lhs, p)) => if advances(ts, pos, p) {
                parse_binary_rest(ts, p, level, lhs)
            } else {
                Err(failure(ts, p, Expected::Expression))
            },
        }
    } else {
        parse_unary(ts, pos)
    }
}

/// `assignment`.
pub open spec fn parse_assignment(ts: Seq<TokenView>, pos: int) -> Parsed<ExprView>
    decreases ts.len() - pos, 19int,
{
    match parse_binary(ts, pos, 0) {
        Err(e) => Err(e),
        Ok((lhs, p)) => if kind_at(ts, p) != TokenType::Equal {
            Ok((lhs, p))
        } else if !(lhs is Variable) {
            Err(failure(ts, p, Expected::Variable))
        } else if advances(ts, pos, p) {
            match parse_assignment(ts, p + 1) {
                Err(e) => Err(e),
                Ok((value, q)) => Ok(
                    (ExprView::Assign { name: lhs->Variable_name, value: Box::new(value) }, q),
                ),
            }
        } else {
            Err(failure(ts, p, Expected::Expression))
        },
    }
}

/// `expression`.
pub open spec fn parse_expression(ts: Seq<TokenView>, pos: int) -> Parsed<ExprView>
    decreases ts.len() - pos, 20int,
{
    parse_assignment(ts, pos)
}

/// Whether the token at `pos` has the kind `kind`; if not, the error that says
/// so.
pub open spec fn expect(ts: Seq<TokenView>, pos: int, kind: TokenType) -> Result<(), ParseError> {
    if kind_at(ts, pos) == kind {
        Ok(())
    } else {
        Err(failure(ts, pos, Expected::Token(kind)))
    }
}

/// `exprStmt`.
#[verifier::opaque]
pub open spec fn parse_expression_statement(ts: Seq<TokenView>, pos: int) -> Parsed<StmtView> {
    match parse_expression(ts, pos) {
        Err(e) => Err(e),
        Ok((expr, p)) => match expect(ts, p, TokenType::Semicolon) {
            Err(e) => Err(e),
            Ok(_) => Ok((StmtView::Expr { expr }, p + 1)),
        },
    }
}

/// `printStmt`.
#[verifier::opaque]
pub open spec fn parse_print(ts: Seq<TokenView>, pos: int) -> Parsed<StmtView> {
    match expect(ts, pos, TokenType::Print) {
        Err(e) => Err(e),
        Ok(_) => match parse_expression(ts, pos + 1) {
            Err(e) => Err(e),
            Ok((expr, p)) => match expect(ts, p, TokenType::Semicolon) {
                Err(e) => Err(e),
                Ok(_) => Ok((StmtView::Print { expr }, p + 1)),
            },
        },
    }
}

/// `returnStmt`.
#[verifier::opaque]
pub open spec fn parse_return(ts: Seq<TokenView>, pos: int) -> Parsed<StmtView> {
    match expect(ts, pos, TokenType::Return) {
        Err(e) => Err(e),
        Ok(_) => if kind_at(ts, pos + 1) == TokenType::Semicolon {
            Ok((StmtView::Return { expr: None }, pos + 2))
        } else {
            match parse_expression(ts, pos + 1) {
                Err(e) => Err(e),
                Ok((expr, p)) => match expect(ts, p, TokenType::Semicolon) {
                    Err(e) => Err(e),
                    Ok(_) => Ok((StmtView::Return { expr: Some(expr) }, p + 1)),
                },
            }
        },
    }
}

/// `varDecl`.
#[verifier::opaque]
pub open spec fn parse_var_declaration(ts: Seq<TokenView>, pos: int) -> Parsed<StmtView> {
    match expect(ts, pos, TokenType::Var) {
        Err(e) => Err(e),
        Ok(_) => match expect(ts, pos + 1, TokenType::Identifier) {
            Err(e) => Err(e),
            Ok(_) => if kind_at(ts, pos + 2) == TokenType::Equal {
                match parse_expression(ts, pos + 3) {
                    Err(e) => Err(e),
                    Ok((init, p)) => match expect(ts, p, TokenType::Semicolon) {
                        Err(e) => Err(e),
                        Ok(_) => Ok(
                            (StmtView::VarDecl { name: ts[pos + 1].lexeme, init: Some(init) }, p + 1),
                        ),
                    },
                }
            } else {
                match expect(ts, pos + 2, TokenType::Semicolon) {
                    Err(e) => Err(e),
                    Ok(_) => Ok((StmtView::VarDecl { name: ts[pos + 1].lexeme, init: None }, pos + 3)),
                }
            },
        },
    }
}

/// `params`, from `pos` on, behind the names in `acc`.
pub open spec fn parse_param_list(ts: Seq<TokenView>, pos: int, acc: Seq<Seq<char>>) -> Parsed<
    Seq<Seq<char>>,
>
    decreases ts.len() - pos,
{
    match expect(ts, pos, TokenType::Identifier) {
        Err(e) => Err(e),
        Ok(_) => if kind_at(ts, pos + 1) == TokenType::Comma {
            parse_param_list(ts, pos + 2, acc.push(ts[pos].lexeme))
        } else {
            Ok((acc.push(ts[pos].lexeme), pos + 1))
        },
    }
}

/// `params?`: nothing before a `)`, else `params`.
#[verifier::opaque]
pub open spec fn parse_params(ts: Seq<TokenView>, pos: int) -> Parsed<Seq<Seq<char>>> {
    if kind_at(ts, pos) == TokenType::RightParen {
        Ok((Seq::empty(), pos))
    } else {
        parse_param_list(ts, pos, Seq::empty())
    }
}

/// The first clause of a `for`: `;`, a `varDecl` or an `exprStmt`.
#[verifier::opaque]
pub open spec fn parse_for_initializer(ts: Seq<TokenView>, pos: int) -> Parsed<Option<Box<StmtView>>> {
    match kind_at(ts, pos) {
        TokenType::Semicolon => Ok((None, pos + 1)),
        TokenType::Var => match parse_var_declaration(ts, pos) {
            Err(e) => Err(e),
            Ok((s, p)) => Ok((Some(Box::new(s)), p)),
        },
        _ => match parse_expression_statement(ts, pos) {
            Err(e) => Err(e),
            Ok((s, p)) => Ok((Some(Box::new(s)), p)),
        },
    }
}

/// The second clause of a `for`: an optional expression and its `;`.
#[verifier::opaque]
pub open spec fn parse_for_condition(ts: Seq<TokenView>, pos: int) -> Parsed<Option<ExprView>> {
    if kind_at(ts, pos) == TokenType::Semicolon {
        Ok((None, pos + 1))
    } else {
        match parse_expression(ts, pos) {
            Err(e) => Err(e),
            Ok((cond, p)) => match expect(ts, p, TokenType::Semicolon) {
                Err(e) => Err(e),
                Ok(_) => Ok((Some(cond), p + 1)),
            },
        }
    }
}

/// The third clause of a `for`: an optional expression and the `)`.
#[verifier::opaque]
pub open spec fn parse_for_step(ts: Seq<TokenView>, pos: int) -> Parsed<Option<ExprView>> {
    if kind_at(ts, pos) == TokenType::RightParen {
        Ok((None, pos + 1))
    } else {
        match parse_expression(ts, pos) {
            Err(e) => Err(e),
            Ok((step, p)) => match expect(ts, p, TokenType::RightParen) {
                Err(e) => Err(e),
                Ok(_) => Ok((Some(step), p + 1)),
            },
        }
    }
}

/// The head of a `for`, up to and with its `)`: the three clauses.
#[verifier::opaque]
pub open spec fn parse_for_head(ts: Seq<TokenView>, pos: int) -> Parsed<
    (Option<Box<StmtView>>, Option<ExprView>, Option<ExprView>),
> {
    match expect(ts, pos, TokenType::For) {
        Err(e) => Err(e),
        Ok(_) => match expect(ts, pos + 1, TokenType::LeftParen) {
            Err(e) => Err(e),
            Ok(_) => match parse_for_initializer(ts, pos + 2) {
                Err(e) => Err(e),
                Ok((init, p)) => match parse_for_condition(ts, p) {
                    Err(e) => Err(e),
                    Ok((cond, q)) => match parse_for_step(ts, q) {
                        Err(e) => Err(e),
                        Ok((step, r)) => Ok(((init, cond, step), r)),
                    },
                },
            },
        },
    }
}

/// The head of an `if` or a `while`, up to and with its `)`: the keyword
/// `keyword` and the condition in parentheses.
#[verifier::opaque]
pub open spec fn parse_condition(ts: Seq<TokenView>, pos: int, keyword: TokenType) -> Parsed<
    ExprView,
> {
    match expect(ts, pos, keyword) {
        Err(e) => Err(e),
        Ok(_) => match expect(ts, pos + 1, TokenType::LeftParen) {
            Err(e) => Err(e),
            Ok(_) => match parse_expression(ts, pos + 2) {
                Err(e) => Err(e),
                Ok((cond, p)) => match expect(ts, p, TokenType::RightParen) {
                    Err(e) => Err(e),
                    Ok(_) => Ok((cond, p + 1)),
                },
            },
        },
    }
}

/// The head of a `function`, up to and with its `)`: the name and the
/// parameter names.
#[verifier::opaque]
pub open spec fn parse_signature(ts: Seq<TokenView>, pos: int) -> Parsed<(Seq<char>, Seq<Seq<char>>)> {
    match expect(ts, pos, TokenType::Identifier) {
        Err(e) => Err(e),
        Ok(_) => match expect(ts, pos + 1, TokenType::LeftParen) {
            Err(e) => Err(e),
            Ok(_) => match parse_params(ts, pos + 2) {
                Err(e) => Err(e),
                Ok((params, p)) => match expect(ts, p, TokenType::RightParen) {
                    Err(e) => Err(e),
                    Ok(_) => Ok(((ts[pos].lexeme, params), p + 1)),
                },
            },
        },
    }
}

/// The declarations of a block from `pos` on, behind those in `acc`, and the
/// closing `}`.
pub open spec fn parse_block_items(ts: Seq<TokenView>, pos: int, acc: Seq<StmtView>) -> Parsed<
    Seq<StmtView>,
>
    decreases ts.len() - pos, 5int,
{
    if kind_at(ts, pos) == TokenType::RightBrace {
        Ok((acc, pos + 1))
    } else if kind_at(ts, pos) == TokenType::EOF {
        Err(failure(ts, pos, Expected::Token(TokenType::RightBrace)))
    } else {
        match parse_declaration(ts, pos) {
            Err(e) => Err(e),
            Ok((s, p)) => if advances(ts, pos, p) {
                parse_block_items(ts, p, acc.push(s))
            } else {
                Err(failure(ts, p, Expected::Token(TokenType::RightBrace)))
            },
        }
    }
}

/// `block`: the statements between the braces.
pub open spec fn parse_block(ts: Seq<TokenView>, pos: int) -> Parsed<Seq<StmtView>>
    decreases ts.len() - pos, 1int,
{
    match expect(ts, pos, TokenType::LeftBrace) {
        Err(e) => Err(e),
        Ok(_) => parse_block_items(ts, pos + 1, Seq::empty()),
    }
}

/// `function`.
pub open spec fn parse_function(ts: Seq<TokenView>, pos: int) -> Parsed<FunctionView>
    decreases ts.len() - pos, 1int,
{
    match parse_signature(ts, pos) {
        Err(e) => Err(e),
        Ok(((name, params), p)) => if advances(ts, pos, p) {
            match parse_block(ts, p) {
                Err(e) => Err(e),
                Ok((body, q)) => Ok((FunctionView { name, params, body }, q)),
            }
        } else {
            Err(failure(ts, p, Expected::Token(TokenType::LeftBrace)))
        },
    }
}

/// `function*`, from `pos` on, behind the methods in `acc`.
pub open spec fn parse_methods(ts: Seq<TokenView>, pos: int, acc: Seq<FunctionView>) -> Parsed<
    Seq<FunctionView>,
>
    decreases ts.len() - pos, 2int,
{
    if kind_at(ts, pos) == TokenType::Identifier {
        match parse_function(ts, pos) {
            Err(e) => Err(e),
            Ok((f, p)) => if advances(ts, pos, p) {
                parse_methods(ts, p, acc.push(f))
            } else {
                Err(failure(ts, p, Expected::Token(TokenType::RightBrace)))
            },
        }
    } else {
        Ok((acc, pos))
    }
}

/// `classDecl`.
pub open spec fn parse_class_declaration(ts: Seq<TokenView>, pos: int) -> Parsed<StmtView>
    decreases ts.len() - pos, 3int,
{
    match expect(ts, pos, TokenType::Class) {
        Err(e) => Err(e),
        Ok(_) => match expect(ts, pos + 1, TokenType::Identifier) {
            Err(e) => Err(e),
            Ok(_) => match expect(ts, pos + 2, TokenType::LeftBrace) {
                Err(e) => Err(e),
                Ok(_) => match parse_methods(ts, pos + 3, Seq::empty()) {
                    Err(e) => Err(e),
                    Ok((methods, p)) => match expect(ts, p, TokenType::RightBrace) {
                        Err(e) => Err(e),
                        Ok(_) => Ok((StmtView::Class { name: ts[pos + 1].lexeme, methods }, p + 1)),
                    },
                },
            },
        },
    }
}

/// `ifStmt`.
pub open spec fn parse_if(ts: Seq<TokenView>, pos: int) -> Parsed<StmtView>
    decreases ts.len() - pos, 1int,
{
    match parse_condition(ts, pos, TokenType::If) {
        Err(e) => Err(e),
        Ok((cond, p)) => if advances(ts, pos, p) {
            match parse_block(ts, p) {
                Err(e) => Err(e),
                Ok((stmts, q)) => {
                    let then_branch = Box::new(StmtView::Block { stmts });
                    if kind_at(ts, q) != TokenType::Else {
                        Ok((StmtView::If { cond, then_branch, else_branch: None }, q))
                    } else if advances(ts, pos, q) {
                        match parse_block(ts, q + 1) {
                            Err(e) => Err(e),
                            Ok((else_stmts, r)) => Ok(
                                (
                                    StmtView::If {
                                        cond,
                                        then_branch,
                                        else_branch: Some(Box::new(StmtView::Block { stmts: else_stmts })),
                                    },
                                    r,
                                ),
                            ),
                        }
                    } else {
                        Err(failure(ts, q, Expected::Token(TokenType::LeftBrace)))
                    }
                },
            }
        } else {
            Err(failure(ts, p, Expected::Token(TokenType::LeftBrace)))
        },
    }
}

/// `whileStmt`.
pub open spec fn parse_while(ts: Seq<TokenView>, pos: int) -> Parsed<StmtView>
    decreases ts.len() - pos, 1int,
{
    match parse_condition(ts, pos, TokenType::While) {
        Err(e) => Err(e),
        Ok((cond, p)) => if advances(ts, pos, p) {
            match parse_declaration(ts, p) {
                Err(e) => Err(e),
                Ok((body, q)) => Ok((StmtView::While { cond, body: Box::new(body) }, q)),
            }
        } else {
            Err(failure(ts, p, Expected::Expression))
        },
    }
}

/// `forStmt`.
pub open spec fn parse_for(ts: Seq<TokenView>, pos: int) -> Parsed<StmtView>
    decreases ts.len() - pos, 1int,
{
    match parse_for_head(ts, pos) {
        Err(e) => Err(e),
        Ok(((init, cond, step), p)) => if advances(ts, pos, p) {
            match parse_declaration(ts, p) {
                Err(e) => Err(e),
                Ok((body, q)) => Ok((StmtView::For { init, cond, step, body: Box::new(body) }, q)),
            }
        } else {
            Err(failure(ts, p, Expected::Expression))
        },
    }
}

/// `statement`.
pub open spec fn parse_statement(ts: Seq<TokenView>, pos: int) -> Parsed<StmtView>
    decreases ts.len() - pos, 3int,
{
    match kind_at(ts, pos) {
        TokenType::Print => parse_print(ts, pos),
        TokenType::If => parse_if(ts, pos),
        TokenType::Fun => match parse_function(ts, pos + 1) {
            Err(e) => Err(e),
            Ok((function, p)) => Ok((StmtView::Fun { function }, p)),
        },
        TokenType::While => parse_while(ts, pos),
        TokenType::For => parse_for(ts, pos),
        TokenType::LeftBrace => match parse_block(ts, pos) {
            Err(e) => Err(e),
            Ok((stmts, p)) => Ok((StmtView::Block { stmts }, p)),
        },
        TokenType::Return => parse_return(ts, pos),
        _ => parse_expression_statement(ts, pos),
    }
}

/// `declaration`.
pub open spec fn parse_declaration(ts: Seq<TokenView>, pos: int) -> Parsed<StmtView>
    decreases ts.len() - pos, 4int,
{
    match kind_at(ts, pos) {
        TokenType::Var => parse_var_declaration(ts, pos),
        TokenType::Class => parse_class_declaration(ts, pos),
        _ => parse_statement(ts, pos),
    }
}

/// `declaration*` from `pos` up to the `EOF` token or the end of the
/// sequence, behind the declarations in `acc`.
pub open spec fn parse_declarations(ts: Seq<TokenView>, pos: int, acc: Seq<StmtView>) -> Result<
    Seq<StmtView>,
    ParseError,
>
    decreases ts.len() - pos,
{
    if kind_at(ts, pos) == TokenType::EOF {
        Ok(acc)
    } else {
        match parse_declaration(ts, pos) {
            Err(e) => Err(e),
            Ok((s, p)) => if advances(ts, pos, p) {
                parse_declarations(ts, p, acc.push(s))
            } else {
                Err(failure(ts, p, Expected::Token(TokenType::EOF)))
            },
        }
    }
}

/// `program`: the declarations of a whole token sequence.
pub open spec fn parse_program(ts: Seq<TokenView>) -> Result<Seq<StmtView>, ParseError> {
    parse_declarations(ts, 0, Seq::empty())
}

} // verus!
