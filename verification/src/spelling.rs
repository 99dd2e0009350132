//! What it means for tokens to spell a tree: the grammar read from the tree
//! to the tokens. A tree is spelled with parentheses exactly where it has a
//! grouping, so not every tree can be read back as itself; `canonical` says
//! which can.

use crate::expressions::expression::ExprView;
use crate::statements::statement::{FunctionView, StmtView};
use crate::grammar::{is_operator, kind_at, MAX_ARGUMENTS};
use crate::token::{TokenType, TokenView};
use vstd::prelude::*;

verus! {

/// The number of tokens that spell `e`.
pub open spec fn width(e: ExprView) -> int
    decreases e, 0nat,
{
    match e {
        ExprView::Literal { .. } => 1,
        ExprView::Variable { .. } => 1,
        ExprView::Grouping { inner } => width(*inner) + 2,
        ExprView::Unary { operand, .. } => width(*operand) + 1,
        ExprView::Binary { lhs, rhs, .. } => width(*lhs) + 1 + width(*rhs),
        ExprView::Logical { lhs, rhs, .. } => width(*lhs) + 1 + width(*rhs),
        ExprView::Assign { value, .. } => width(*value) + 2,
        ExprView::Call { callee, args } => width(*callee) + 2 + width_list(args, 0),
        ExprView::Get { object, .. } => width(*object) + 2,
    }
}

/// The number of tokens that spell the expressions of `es` from the `i`-th
/// on, with a comma between each two.
pub open spec fn width_list(es: Seq<ExprView>, i: nat) -> int
    decreases es, es.len() - i,
{
    if i >= es.len() {
        0
    } else if i + 1 == es.len() {
        width(es[i as int])
    } else {
        width(es[i as int]) + 1 + width_list(es, i + 1)
    }
}

/// Whether the tokens of `ts` from `pos` on spell `e`.
pub open spec fn spells(ts: Seq<TokenView>, pos: int, e: ExprView) -> bool
    decreases e, 0nat,
{
    match e {
        ExprView::Literal { kind, text } => kind_at(ts, pos) == kind && kind != TokenType::EOF
            && ts[pos].text() == text,
        ExprView::Variable { name } => kind_at(ts, pos) == TokenType::Identifier && ts[pos].lexeme
            == name,
        ExprView::Grouping { inner } => kind_at(ts, pos) == TokenType::LeftParen && spells(
            ts,
            pos + 1,
            *inner,
        ) && kind_at(ts, pos + 1 + width(*inner)) == TokenType::RightParen,
        ExprView::Unary { op, operand } => kind_at(ts, pos) == op && op != TokenType::EOF && spells(
            ts,
            pos + 1,
            *operand,
        ),
        ExprView::Binary { op, lhs, rhs } => spells(ts, pos, *lhs) && kind_at(ts, pos + width(*lhs))
            == op && op != TokenType::EOF && spells(ts, pos + width(*lhs) + 1, *rhs),
        ExprView::Logical { op, lhs, rhs } => spells(ts, pos, *lhs) && kind_at(ts, pos + width(*lhs))
            == op && op != TokenType::EOF && spells(ts, pos + width(*lhs) + 1, *rhs),
        ExprView::Assign { name, value } => kind_at(ts, pos) == TokenType::Identifier
            && ts[pos].lexeme == name && kind_at(ts, pos + 1) == TokenType::Equal && spells(
            ts,
            pos + 2,
            *value,
        ),
        ExprView::Call { callee, args } => spells(ts, pos, *callee) && kind_at(
            ts,
            pos + width(*callee),
        ) == TokenType::LeftParen && spells_list(ts, pos + width(*callee) + 1, args, 0) && kind_at(
            ts,
            pos + width(*callee) + 1 + width_list(args, 0),
        ) == TokenType::RightParen,
        ExprView::Get { object, name } => spells(ts, pos, *object) && kind_at(
            ts,
            pos + width(*object),
        ) == TokenType::Dot && kind_at(ts, pos + width(*object) + 1) == TokenType::Identifier
            && ts[pos + width(*object) + 1].lexeme == name,
    }
}

/// Whether the tokens of `ts` from `pos` on spell the expressions of `es`
/// from the `i`-th on, with a comma between each two.
pub open spec fn spells_list(ts: Seq<TokenView>, pos: int, es: Seq<ExprView>, i: nat) -> bool
    decreases es, es.len() - i,
{
    if i >= es.len() {
        true
    } else if i + 1 == es.len() {
        spells(ts, pos, es[i as int])
    } else {
        spells(ts, pos, es[i as int]) && kind_at(ts, pos + width(es[i as int])) == TokenType::Comma
            && spells_list(ts, pos + width(es[i as int]) + 1, es, i + 1)
    }
}

/// The level of the production that builds `e`: -1 for `assignment`, 0 to 5
/// for the binary levels from `logic_or` to `factor`, 6 for `unary`, 7 for
/// `call` and `primary`; 8 for a node that no production builds.
pub open spec fn level_of(e: ExprView) -> int {
    match e {
        ExprView::Assign { .. } => -1,
        ExprView::Logical { op, .. } => if op == TokenType::Or {
            0
        } else if op == TokenType::And {
            1
        } else {
            8
        },
        ExprView::Binary { op, .. } => if is_operator(2, op) {
            2
        } else if is_operator(3, op) {
            3
        } else if is_operator(4, op) {
            4
        } else if is_operator(5, op) {
            5
        } else {
            8
        },
        ExprView::Unary { .. } => 6,
        _ => 7,
    }
}

/// Whether the parser can build `e`: every operand stands where the grammar
/// takes an expression of its level, without parentheses that the tree does
/// not have; operators and literals have kinds the grammar knows; and no
/// call has more arguments than the parser accepts.
pub open spec fn canonical(e: ExprView) -> bool
    decreases e, 0nat,
{
    match e {
        ExprView::Literal { kind, .. } => kind == TokenType::Number || kind == TokenType::String
            || kind == TokenType::True || kind == TokenType::False || kind == TokenType::Nil,
        ExprView::Variable { .. } => true,
        ExprView::Grouping { inner } => canonical(*inner),
        ExprView::Unary { op, operand } => (op == TokenType::Bang || op == TokenType::Minus)
            && canonical(*operand) && level_of(*operand) >= 6,
        ExprView::Binary { lhs, rhs, .. } => 2 <= level_of(e) <= 5 && canonical(*lhs) && level_of(
            *lhs,
        ) >= level_of(e) && canonical(*rhs) && level_of(*rhs) > level_of(e),
        ExprView::Logical { lhs, rhs, .. } => 0 <= level_of(e) <= 1 && canonical(*lhs) && level_of(
            *lhs,
        ) >= level_of(e) && canonical(*rhs) && level_of(*rhs) > level_of(e),
        ExprView::Assign { value, .. } => canonical(*value),
        ExprView::Call { callee, args } => canonical(*callee) && level_of(*callee) >= 7
            && args.len() <= MAX_ARGUMENTS && canonical_list(args, 0),
        ExprView::Get { object, .. } => canonical(*object) && level_of(*object) >= 7,
    }
}

/// Whether the parser can build each of `es` from the `i`-th on.
pub open spec fn canonical_list(es: Seq<ExprView>, i: nat) -> bool
    decreases es, es.len() - i,
{
    if i >= es.len() {
        true
    } else {
        canonical(es[i as int]) && canonical_list(es, i + 1)
    }
}

/// The binary level that `kind` is an operator of; -1 where it is none.
pub open spec fn operator_level(kind: TokenType) -> int {
    if is_operator(0, kind) {
        0
    } else if is_operator(1, kind) {
        1
    } else if is_operator(2, kind) {
        2
    } else if is_operator(3, kind) {
        3
    } else if is_operator(4, kind) {
        4
    } else if is_operator(5, kind) {
        5
    } else {
        -1
    }
}

/// Whether a token of the kind `kind` behind an expression of the level
/// `level` would make the parser go on with that expression: an operator of
/// that level or a tighter one, or the start of a call or a property access.
pub open spec fn continues(level: int, kind: TokenType) -> bool {
    ||| kind == TokenType::LeftParen
    ||| kind == TokenType::Dot
    ||| (operator_level(kind) >= 0 && operator_level(kind) >= level)
}

/// Whether an expression can start with a token of the kind `kind`.
pub open spec fn starts_expression(kind: TokenType) -> bool {
    ||| kind == TokenType::Number
    ||| kind == TokenType::String
    ||| kind == TokenType::True
    ||| kind == TokenType::False
    ||| kind == TokenType::Nil
    ||| kind == TokenType::Identifier
    ||| kind == TokenType::LeftParen
    ||| kind == TokenType::Bang
    ||| kind == TokenType::Minus
}

/// Whether a token of the kind `kind` ends an expression: it is no operator,
/// no `=`, and starts no call and no property access.
pub open spec fn ends_expression(kind: TokenType) -> bool {
    !continues(0, kind) && kind != TokenType::Equal
}

/// The number of tokens that spell an optional expression.
pub open spec fn width_optional(e: Option<ExprView>) -> int {
    match e {
        Some(e) => width(e),
        None => 0,
    }
}

/// Whether the tokens of `ts` from `pos` on spell an optional expression;
/// none do where there is none.
pub open spec fn spells_optional(ts: Seq<TokenView>, pos: int, e: Option<ExprView>) -> bool {
    match e {
        Some(e) => spells(ts, pos, e),
        None => true,
    }
}

/// The number of tokens that spell the names of `names` from the `i`-th on,
/// with a comma between each two.
pub open spec fn width_names(names: Seq<Seq<char>>, i: nat) -> int
    decreases names.len() - i,
{
    if i >= names.len() {
        0
    } else if i + 1 == names.len() {
        1
    } else {
        2 + width_names(names, i + 1)
    }
}

/// Whether the tokens of `ts` from `pos` on spell the names of `names` from
/// the `i`-th on, with a comma between each two.
pub open spec fn spells_names(ts: Seq<TokenView>, pos: int, names: Seq<Seq<char>>, i: nat) -> bool
    decreases names.len() - i,
{
    if i >= names.len() {
        true
    } else {
        kind_at(ts, pos) == TokenType::Identifier && ts[pos].lexeme == names[i as int] && (i + 1
            == names.len() || (kind_at(ts, pos + 1) == TokenType::Comma && spells_names(
            ts,
            pos + 2,
            names,
            i + 1,
        )))
    }
}

/// The number of tokens that spell the function `f`, from its name to the
/// `}` of its body.
pub open spec fn width_function(f: FunctionView) -> int
    decreases f, 0nat,
{
    5 + width_names(f.params, 0) + width_stmts(f.body, 0)
}

/// The number of tokens that spell the statements of `stmts` from the `i`-th
/// on.
pub open spec fn width_stmts(stmts: Seq<StmtView>, i: nat) -> int
    decreases stmts, stmts.len() - i,
{
    if i >= stmts.len() {
        0
    } else {
        width_stmt(stmts[i as int]) + width_stmts(stmts, i + 1)
    }
}

/// The number of tokens that spell the functions of `fs` from the `i`-th on.
pub open spec fn width_functions(fs: Seq<FunctionView>, i: nat) -> int
    decreases fs, fs.len() - i,
{
    if i >= fs.len() {
        0
    } else {
        width_function(fs[i as int]) + width_functions(fs, i + 1)
    }
}

/// The number of tokens that spell the first clause of a `for`.
pub open spec fn width_initializer(init: Option<Box<StmtView>>) -> int
    decreases init, 1nat,
{
    match init {
        Some(first) => width_stmt(*first),
        None => 1,
    }
}

/// The number of tokens that spell `s`.
pub open spec fn width_stmt(s: StmtView) -> int
    decreases s, 0nat,
{
    match s {
        StmtView::Expr { expr } => width(expr) + 1,
        StmtView::Print { expr } => width(expr) + 2,
        StmtView::VarDecl { init, .. } => match init {
            Some(init) => width(init) + 4,
            None => 3,
        },
        StmtView::Block { stmts } => 2 + width_stmts(stmts, 0),
        StmtView::If { cond, then_branch, else_branch } => 3 + width(cond) + width_stmt(*then_branch)
            + match else_branch {
            Some(other) => 1 + width_stmt(*other),
            None => 0,
        },
        StmtView::While { cond, body } => 3 + width(cond) + width_stmt(*body),
        StmtView::For { init, cond, step, body } => 2 + width_initializer(init) + width_optional(cond)
            + 1 + width_optional(step) + 1 + width_stmt(*body),
        StmtView::Fun { function } => 1 + width_function(function),
        StmtView::Return { expr } => 2 + width_optional(expr),
        StmtView::Class { methods, .. } => 4 + width_functions(methods, 0),
    }
}

/// Whether the tokens of `ts` from `pos` on spell the function `f`.
pub open spec fn spells_function(ts: Seq<TokenView>, pos: int, f: FunctionView) -> bool
    decreases f, 0nat,
{
    let params_end = pos + 2 + width_names(f.params, 0);
    &&& kind_at(ts, pos) == TokenType::Identifier
    &&& ts[pos].lexeme == f.name
    &&& kind_at(ts, pos + 1) == TokenType::LeftParen
    &&& spells_names(ts, pos + 2, f.params, 0)
    &&& kind_at(ts, params_end) == TokenType::RightParen
    &&& kind_at(ts, params_end + 1) == TokenType::LeftBrace
    &&& spells_stmts(ts, params_end + 2, f.body, 0)
    &&& kind_at(ts, params_end + 2 + width_stmts(f.body, 0)) == TokenType::RightBrace
}

/// Whether the tokens of `ts` from `pos` on spell the statements of `stmts`
/// from the `i`-th on.
pub open spec fn spells_stmts(ts: Seq<TokenView>, pos: int, stmts: Seq<StmtView>, i: nat) -> bool
    decreases stmts, stmts.len() - i,
{
    if i >= stmts.len() {
        true
    } else {
        spells_stmt(ts, pos, stmts[i as int]) && spells_stmts(
            ts,
            pos + width_stmt(stmts[i as int]),
            stmts,
            i + 1,
        )
    }
}

/// Whether the tokens of `ts` from `pos` on spell the functions of `fs` from
/// the `i`-th on.
pub open spec fn spells_functions(ts: Seq<TokenView>, pos: int, fs: Seq<FunctionView>, i: nat) -> bool
    decreases fs, fs.len() - i,
{
    if i >= fs.len() {
        true
    } else {
        spells_function(ts, pos, fs[i as int]) && spells_functions(
            ts,
            pos + width_function(fs[i as int]),
            fs,
            i + 1,
        )
    }
}

/// Whether the tokens of `ts` from `pos` on spell the first clause of a
/// `for`: a statement with its `;`, or a lone `;`.
pub open spec fn spells_initializer(ts: Seq<TokenView>, pos: int, init: Option<Box<StmtView>>) -> bool
    decreases init, 1nat,
{
    match init {
        Some(first) => spells_stmt(ts, pos, *first),
        None => kind_at(ts, pos) == TokenType::Semicolon,
    }
}

/// Whether the tokens of `ts` from `pos` on spell `s`.
pub open spec fn spells_stmt(ts: Seq<TokenView>, pos: int, s: StmtView) -> bool
    decreases s, 0nat,
{
    match s {
        StmtView::Expr { expr } => spells(ts, pos, expr) && kind_at(ts, pos + width(expr))
            == TokenType::Semicolon,
        StmtView::Print { expr } => kind_at(ts, pos) == TokenType::Print && spells(
            ts,
            pos + 1,
            expr,
        ) && kind_at(ts, pos + 1 + width(expr)) == TokenType::Semicolon,
        StmtView::VarDecl { name, init } => kind_at(ts, pos) == TokenType::Var && kind_at(
            ts,
            pos + 1,
        ) == TokenType::Identifier && ts[pos + 1].lexeme == name && match init {
            Some(init) => kind_at(ts, pos + 2) == TokenType::Equal && spells(ts, pos + 3, init)
                && kind_at(ts, pos + 3 + width(init)) == TokenType::Semicolon,
            None => kind_at(ts, pos + 2) == TokenType::Semicolon,
        },
        StmtView::Block { stmts } => kind_at(ts, pos) == TokenType::LeftBrace && spells_stmts(
            ts,
            pos + 1,
            stmts,
            0,
        ) && kind_at(ts, pos + 1 + width_stmts(stmts, 0)) == TokenType::RightBrace,
        StmtView::If { cond, then_branch, else_branch } => {
            let then_at = pos + 3 + width(cond);
            let then_end = then_at + width_stmt(*then_branch);
            &&& kind_at(ts, pos) == TokenType::If
            &&& kind_at(ts, pos + 1) == TokenType::LeftParen
            &&& spells(ts, pos + 2, cond)
            &&& kind_at(ts, pos + 2 + width(cond)) == TokenType::RightParen
            &&& spells_stmt(ts, then_at, *then_branch)
            &&& match else_branch {
                Some(other) => kind_at(ts, then_end) == TokenType::Else && spells_stmt(
                    ts,
                    then_end + 1,
                    *other,
                ),
                None => true,
            }
        },
        StmtView::While { cond, body } => kind_at(ts, pos) == TokenType::While && kind_at(
            ts,
            pos + 1,
        ) == TokenType::LeftParen && spells(ts, pos + 2, cond) && kind_at(ts, pos + 2 + width(cond))
            == TokenType::RightParen && spells_stmt(ts, pos + 3 + width(cond), *body),
        StmtView::For { init, cond, step, body } => {
            let cond_at = pos + 2 + width_initializer(init);
            let step_at = cond_at + width_optional(cond) + 1;
            let body_at = step_at + width_optional(step) + 1;
            &&& kind_at(ts, pos) == TokenType::For
            &&& kind_at(ts, pos + 1) == TokenType::LeftParen
            &&& spells_initializer(ts, pos + 2, init)
            &&& spells_optional(ts, cond_at, cond)
            &&& kind_at(ts, step_at - 1) == TokenType::Semicolon
            &&& spells_optional(ts, step_at, step)
            &&& kind_at(ts, body_at - 1) == TokenType::RightParen
            &&& spells_stmt(ts, body_at, *body)
        },
        StmtView::Fun { function } => kind_at(ts, pos) == TokenType::Fun && spells_function(
            ts,
            pos + 1,
            function,
        ),
        StmtView::Return { expr } => kind_at(ts, pos) == TokenType::Return && spells_optional(
            ts,
            pos + 1,
            expr,
        ) && kind_at(ts, pos + 1 + width_optional(expr)) == TokenType::Semicolon,
        StmtView::Class { name, methods } => kind_at(ts, pos) == TokenType::Class && kind_at(
            ts,
            pos + 1,
        ) == TokenType::Identifier && ts[pos + 1].lexeme == name && kind_at(ts, pos + 2)
            == TokenType::LeftBrace && spells_functions(ts, pos + 3, methods, 0) && kind_at(
            ts,
            pos + 3 + width_functions(methods, 0),
        ) == TokenType::RightBrace,
    }
}

/// Whether an optional expression is one the parser can build.
pub open spec fn canonical_optional(e: Option<ExprView>) -> bool {
    match e {
        Some(e) => canonical(e),
        None => true,
    }
}

/// Whether the parser can build the function `f`.
pub open spec fn canonical_function(f: FunctionView) -> bool
    decreases f, 0nat,
{
    canonical_stmts(f.body, 0)
}

/// Whether the parser can build each of `stmts` from the `i`-th on.
pub open spec fn canonical_stmts(stmts: Seq<StmtView>, i: nat) -> bool
    decreases stmts, stmts.len() - i,
{
    if i >= stmts.len() {
        true
    } else {
        canonical_stmt(stmts[i as int]) && canonical_stmts(stmts, i + 1)
    }
}

/// Whether the parser can build each of `fs` from the `i`-th on.
pub open spec fn canonical_functions(fs: Seq<FunctionView>, i: nat) -> bool
    decreases fs, fs.len() - i,
{
    if i >= fs.len() {
        true
    } else {
        canonical_function(fs[i as int]) && canonical_functions(fs, i + 1)
    }
}

/// Whether the parser can build `s`: its expressions are canonical, the
/// branches of an `if` are blocks, and the first clause of a `for` is a
/// variable declaration or an expression statement.
pub open spec fn canonical_stmt(s: StmtView) -> bool
    decreases s, 0nat,
{
    match s {
        StmtView::Expr { expr } => canonical(expr),
        StmtView::Print { expr } => canonical(expr),
        StmtView::VarDecl { init, .. } => canonical_optional(init),
        StmtView::Block { stmts } => canonical_stmts(stmts, 0),
        StmtView::If { cond, then_branch, else_branch } => canonical(cond) && *then_branch is Block
            && canonical_stmt(*then_branch) && match else_branch {
            Some(other) => *other is Block && canonical_stmt(*other),
            None => true,
        },
        StmtView::While { cond, body } => canonical(cond) && canonical_stmt(*body),
        StmtView::For { init, cond, step, body } => (match init {
            Some(first) => (*first is VarDecl || *first is Expr) && canonical_stmt(*first),
            None => true,
        }) && canonical_optional(cond) && canonical_optional(step) && canonical_stmt(*body),
        StmtView::Fun { function } => canonical_function(function),
        StmtView::Return { expr } => canonical_optional(expr),
        StmtView::Class { methods, .. } => canonical_functions(methods, 0),
    }
}

/// Whether the tokens of `ts` spell the program `stmts`: its statements from
/// the first token on, and behind them `EOF` or the end of the tokens.
pub open spec fn spells_program(ts: Seq<TokenView>, stmts: Seq<StmtView>) -> bool {
    spells_stmts(ts, 0, stmts, 0) && kind_at(ts, width_stmts(stmts, 0)) == TokenType::EOF
}

} // verus!
