//! Reading back what was spelled: the parser, given tokens that spell a
//! canonical tree, builds that tree.

use crate::expressions::expression::ExprView;
use crate::grammar::{
    advances, join, kind_at, parse_argument_list, parse_arguments, parse_assignment, parse_binary,
    parse_binary_rest, parse_block, parse_block_items, parse_call, parse_call_rest,
    parse_class_declaration, parse_condition, parse_declaration, parse_declarations,
    parse_expression, parse_expression_statement, parse_for, parse_for_condition, parse_for_head,
    parse_for_initializer, parse_for_step, parse_function, parse_if, parse_methods, parse_operand,
    parse_param_list, parse_params, parse_primary, parse_print, parse_program, parse_return,
    parse_signature, parse_statement, parse_unary, parse_var_declaration, parse_while, ParseError,
    Parsed, MAX_ARGUMENTS,
};
use crate::spelling::{
    canonical, canonical_function, canonical_functions, canonical_list, canonical_optional,
    canonical_stmt, canonical_stmts, continues, ends_expression, level_of, spells, spells_function,
    spells_functions, spells_initializer, spells_list, spells_names, spells_optional,
    spells_program, spells_stmt, spells_stmts, starts_expression, width, width_function,
    width_functions, width_initializer, width_list, width_names, width_optional, width_stmt,
    width_stmts,
};
use crate::statements::statement::{FunctionView, StmtView};
use crate::token::{TokenType, TokenView};
use vstd::prelude::*;

verus! {

/// Every expression is spelled with at least one token.
pub proof fn lemma_width_positive(e: ExprView)
    ensures
        width(e) >= 1,
    decreases e, 0nat,
{
    match e {
        ExprView::Grouping { inner } => lemma_width_positive(*inner),
        ExprView::Unary { operand, .. } => lemma_width_positive(*operand),
        ExprView::Binary { lhs, rhs, .. } => {
            lemma_width_positive(*lhs);
            lemma_width_positive(*rhs);
        },
        ExprView::Logical { lhs, rhs, .. } => {
            lemma_width_positive(*lhs);
            lemma_width_positive(*rhs);
        },
        ExprView::Assign { value, .. } => lemma_width_positive(*value),
        ExprView::Call { callee, args } => {
            lemma_width_positive(*callee);
            lemma_width_list(args, 0);
        },
        ExprView::Get { object, .. } => lemma_width_positive(*object),
        _ => {},
    }
}

/// A list of expressions is spelled with at least as many tokens as its
/// first expression; none for an empty list.
pub proof fn lemma_width_list(es: Seq<ExprView>, i: nat)
    ensures
        width_list(es, i) >= 0,
        i < es.len() ==> width_list(es, i) >= width(es[i as int]) >= 1,
    decreases es, es.len() - i,
{
    if i < es.len() {
        lemma_width_positive(es[i as int]);
        lemma_width_list(es, i + 1);
    }
}

/// What is spelled lies within the tokens.
pub proof fn lemma_spelled_within(ts: Seq<TokenView>, pos: int, e: ExprView)
    requires
        spells(ts, pos, e),
    ensures
        0 <= pos,
        pos + width(e) <= ts.len(),
    decreases e, 0nat,
{
    match e {
        ExprView::Grouping { inner } => lemma_spelled_within(ts, pos + 1, *inner),
        ExprView::Unary { operand, .. } => lemma_spelled_within(ts, pos + 1, *operand),
        ExprView::Binary { lhs, rhs, .. } => {
            lemma_spelled_within(ts, pos, *lhs);
            lemma_spelled_within(ts, pos + width(*lhs) + 1, *rhs);
        },
        ExprView::Logical { lhs, rhs, .. } => {
            lemma_spelled_within(ts, pos, *lhs);
            lemma_spelled_within(ts, pos + width(*lhs) + 1, *rhs);
        },
        ExprView::Assign { value, .. } => lemma_spelled_within(ts, pos + 2, *value),
        ExprView::Call { callee, args } => {
            lemma_spelled_within(ts, pos, *callee);
            lemma_width_list(args, 0);
        },
        ExprView::Get { object, .. } => lemma_spelled_within(ts, pos, *object),
        _ => {},
    }
}

/// A canonical expression starts with a token that starts expressions; one
/// of the level of calls does not start with an operator.
pub proof fn lemma_first_token(ts: Seq<TokenView>, pos: int, e: ExprView)
    requires
        canonical(e),
        spells(ts, pos, e),
    ensures
        starts_expression(kind_at(ts, pos)),
        level_of(e) >= 7 ==> kind_at(ts, pos) != TokenType::Bang && kind_at(ts, pos)
            != TokenType::Minus,
    decreases e, 0nat,
{
    match e {
        ExprView::Binary { lhs, .. } => lemma_first_token(ts, pos, *lhs),
        ExprView::Logical { lhs, .. } => lemma_first_token(ts, pos, *lhs),
        ExprView::Call { callee, .. } => lemma_first_token(ts, pos, *callee),
        ExprView::Get { object, .. } => lemma_first_token(ts, pos, *object),
        _ => {},
    }
}

/// One call behind a callee: `(`, arguments, `)`.
pub proof fn lemma_call_step(ts: Seq<TokenView>, p: int, callee: ExprView, args: Seq<ExprView>, q: int)
    requires
        kind_at(ts, p) == TokenType::LeftParen,
        parse_arguments(ts, p + 1) == Ok::<(Seq<ExprView>, int), ParseError>((args, q)),
        kind_at(ts, q) == TokenType::RightParen,
        p < q,
    ensures
        parse_call_rest(ts, p, callee) == parse_call_rest(
            ts,
            q + 1,
            ExprView::Call { callee: Box::new(callee), args },
        ),
{
}

/// One property access behind an object: `.` and a name.
pub proof fn lemma_get_step(ts: Seq<TokenView>, p: int, object: ExprView)
    requires
        kind_at(ts, p) == TokenType::Dot,
        kind_at(ts, p + 1) == TokenType::Identifier,
    ensures
        parse_call_rest(ts, p, object) == parse_call_rest(
            ts,
            p + 2,
            ExprView::Get { object: Box::new(object), name: ts[p + 1].lexeme },
        ),
{
}

/// `call` goes on behind what `primary` read.
pub proof fn lemma_primary_step(ts: Seq<TokenView>, pos: int, e: ExprView, q: int)
    requires
        parse_primary(ts, pos) == Ok::<(ExprView, int), ParseError>((e, q)),
        advances(ts, pos, q),
    ensures
        parse_call(ts, pos) == parse_call_rest(ts, q, e),
{
}

/// `primary` reads a grouping around what `expression` read.
pub proof fn lemma_grouping_step(ts: Seq<TokenView>, pos: int, inner: ExprView, q: int)
    requires
        kind_at(ts, pos) == TokenType::LeftParen,
        parse_expression(ts, pos + 1) == Ok::<(ExprView, int), ParseError>((inner, q)),
        kind_at(ts, q) == TokenType::RightParen,
    ensures
        parse_primary(ts, pos) == Ok::<(ExprView, int), ParseError>(
            (ExprView::Grouping { inner: Box::new(inner) }, q + 1),
        ),
{
}

/// `call` reads a spelled expression of its level, and goes on behind it.
pub proof fn lemma_read_call(ts: Seq<TokenView>, pos: int, e: ExprView)
    requires
        canonical(e),
        level_of(e) >= 7,
        spells(ts, pos, e),
    ensures
        parse_call(ts, pos) == parse_call_rest(ts, pos + width(e), e),
    decreases width(e), 1int,
{
    lemma_spelled_within(ts, pos, e);
    lemma_width_positive(e);
    match e {
        ExprView::Literal { .. } => {
            assert(parse_primary(ts, pos) == Ok::<(ExprView, int), ParseError>((e, pos + 1)));
            lemma_primary_step(ts, pos, e, pos + 1);
        },
        ExprView::Variable { .. } => {
            assert(parse_primary(ts, pos) == Ok::<(ExprView, int), ParseError>((e, pos + 1)));
            lemma_primary_step(ts, pos, e, pos + 1);
        },
        ExprView::Grouping { inner } => {
            lemma_width_positive(*inner);
            lemma_read_expression(ts, pos + 1, *inner);
            lemma_grouping_step(ts, pos, *inner, pos + 1 + width(*inner));
            lemma_primary_step(ts, pos, e, pos + width(e));
        },
        ExprView::Call { callee, args } => {
            lemma_width_positive(*callee);
            lemma_width_list(args, 0);
            lemma_read_call(ts, pos, *callee);
            let p = pos + width(*callee);
            lemma_read_arguments(ts, p + 1, args);
            lemma_call_step(ts, p, *callee, args, p + 1 + width_list(args, 0));
        },
        ExprView::Get { object, .. } => {
            lemma_width_positive(*object);
            lemma_read_call(ts, pos, *object);
            lemma_get_step(ts, pos + width(*object), *object);
        },
        _ => {},
    }
}

/// `args?` reads a spelled argument list up to the `)` behind it.
pub proof fn lemma_read_arguments(ts: Seq<TokenView>, pos: int, args: Seq<ExprView>)
    requires
        args.len() <= MAX_ARGUMENTS,
        canonical_list(args, 0),
        spells_list(ts, pos, args, 0),
        kind_at(ts, pos + width_list(args, 0)) == TokenType::RightParen,
    ensures
        parse_arguments(ts, pos) == Ok::<(Seq<ExprView>, int), ParseError>(
            (args, pos + width_list(args, 0)),
        ),
    decreases width_list(args, 0), 31int,
{
    lemma_width_list(args, 0);
    if args.len() == 0 {
        assert(args =~= Seq::empty());
    } else {
        lemma_first_token(ts, pos, args[0]);
        assert(args.take(0) =~= Seq::empty());
        lemma_read_argument_list(ts, pos, args, 0);
    }
}

/// `args` reads the rest of a spelled argument list.
pub proof fn lemma_read_argument_list(ts: Seq<TokenView>, pos: int, args: Seq<ExprView>, i: nat)
    requires
        i < args.len() <= MAX_ARGUMENTS,
        canonical_list(args, i),
        spells_list(ts, pos, args, i),
        kind_at(ts, pos + width_list(args, i)) == TokenType::RightParen,
    ensures
        parse_argument_list(ts, pos, args.take(i as int)) == Ok::<
            (Seq<ExprView>, int),
            ParseError,
        >((args, pos + width_list(args, i))),
    decreases width_list(args, i), 30int,
{
    let arg = args[i as int];
    lemma_width_list(args, i);
    lemma_width_list(args, i + 1);
    lemma_spelled_within(ts, pos, arg);
    lemma_read_expression(ts, pos, arg);
    let p = pos + width(arg);
    if i + 1 == args.len() {
        assert(args.take(i as int).push(arg) =~= args);
    } else {
        assert(args.take(i as int).push(arg) =~= args.take(i as int + 1));
        lemma_read_argument_list(ts, p + 1, args, i + 1);
    }
}

/// `unary` reads a spelled expression of its level or a tighter one, where
/// no call or property access follows.
pub proof fn lemma_read_unary(ts: Seq<TokenView>, pos: int, e: ExprView)
    requires
        canonical(e),
        level_of(e) >= 6,
        spells(ts, pos, e),
        !continues(6, kind_at(ts, pos + width(e))),
    ensures
        parse_unary(ts, pos) == Ok::<(ExprView, int), ParseError>((e, pos + width(e))),
    decreases width(e), 2int,
{
    lemma_width_positive(e);
    match e {
        ExprView::Unary { operand, .. } => {
            lemma_width_positive(*operand);
            lemma_read_unary(ts, pos + 1, *operand);
        },
        _ => {
            lemma_first_token(ts, pos, e);
            lemma_read_call(ts, pos, e);
        },
    }
}

/// The operand of a binary level reads a spelled expression of a tighter
/// level, where nothing follows that goes on with it.
pub proof fn lemma_read_operand(ts: Seq<TokenView>, pos: int, e: ExprView, level: int)
    requires
        0 <= level <= 5,
        canonical(e),
        level_of(e) > level,
        spells(ts, pos, e),
        !continues(level + 1, kind_at(ts, pos + width(e))),
    ensures
        parse_operand(ts, pos, level) == Ok::<(ExprView, int), ParseError>((e, pos + width(e))),
    decreases width(e), 15 - 2 * level,
{
    if level < 5 {
        lemma_read_binary(ts, pos, e, level + 1);
    } else {
        lemma_read_unary(ts, pos, e);
    }
}

/// A binary level reads a spelled expression of its level or a tighter one,
/// and goes on behind it, where nothing follows that goes on with one of its
/// operands.
pub proof fn lemma_read_binary(ts: Seq<TokenView>, pos: int, e: ExprView, level: int)
    requires
        0 <= level <= 5,
        canonical(e),
        level_of(e) >= level,
        spells(ts, pos, e),
        !continues(level + 1, kind_at(ts, pos + width(e))),
    ensures
        parse_binary(ts, pos, level) == parse_binary_rest(ts, pos + width(e), level, e),
    decreases width(e), 16 - 2 * level,
{
    lemma_width_positive(e);
    lemma_spelled_within(ts, pos, e);
    if level_of(e) == level {
        let (op, lhs, rhs) = match e {
            ExprView::Binary { op, lhs, rhs } => (op, *lhs, *rhs),
            ExprView::Logical { op, lhs, rhs } => (op, *lhs, *rhs),
            _ => arbitrary(),
        };
        lemma_width_positive(lhs);
        lemma_width_positive(rhs);
        lemma_read_binary(ts, pos, lhs, level);
        let p = pos + width(lhs);
        lemma_read_operand(ts, p + 1, rhs, level);
        lemma_spelled_within(ts, p + 1, rhs);
        assert(join(level, op, lhs, rhs) == e);
        assert(parse_binary_rest(ts, p, level, lhs) == parse_binary_rest(
            ts,
            p + 1 + width(rhs),
            level,
            e,
        ));
    } else {
        lemma_read_operand(ts, pos, e, level);
    }
}

/// `expression` reads a spelled expression, where a token follows that ends
/// expressions.
pub proof fn lemma_read_expression(ts: Seq<TokenView>, pos: int, e: ExprView)
    requires
        canonical(e),
        spells(ts, pos, e),
        ends_expression(kind_at(ts, pos + width(e))),
    ensures
        parse_expression(ts, pos) == Ok::<(ExprView, int), ParseError>((e, pos + width(e))),
    decreases width(e), 20int,
{
    lemma_width_positive(e);
    lemma_spelled_within(ts, pos, e);
    match e {
        ExprView::Assign { name, value } => {
            lemma_width_positive(*value);
            let target = ExprView::Variable { name };
            assert(spells(ts, pos, target));
            lemma_read_binary(ts, pos, target, 0);
            assert(parse_binary(ts, pos, 0) == Ok::<(ExprView, int), ParseError>(
                (target, pos + 1),
            ));
            lemma_read_expression(ts, pos + 2, *value);
            assert(parse_assignment(ts, pos + 2) == Ok::<(ExprView, int), ParseError>(
                (*value, pos + width(e)),
            ));
            assert(parse_assignment(ts, pos) == Ok::<(ExprView, int), ParseError>(
                (e, pos + width(e)),
            ));
        },
        _ => {
            lemma_read_binary(ts, pos, e, 0);
            assert(parse_binary(ts, pos, 0) == Ok::<(ExprView, int), ParseError>(
                (e, pos + width(e)),
            ));
            assert(parse_assignment(ts, pos) == Ok::<(ExprView, int), ParseError>(
                (e, pos + width(e)),
            ));
        },
    }
}

/// Lists of names are spelled with no fewer than no tokens.
pub proof fn lemma_width_names(names: Seq<Seq<char>>, i: nat)
    ensures
        width_names(names, i) >= 0,
        i < names.len() ==> width_names(names, i) >= 1,
    decreases names.len() - i,
{
    if i < names.len() {
        lemma_width_names(names, i + 1);
    }
}

/// Every statement is spelled with at least one token.
pub proof fn lemma_width_stmt(s: StmtView)
    ensures
        width_stmt(s) >= 1,
    decreases s, 0nat,
{
    match s {
        StmtView::Expr { expr } => lemma_width_positive(expr),
        StmtView::Print { expr } => lemma_width_positive(expr),
        StmtView::VarDecl { init, .. } => {
            if let Some(init) = init {
                lemma_width_positive(init);
            }
        },
        StmtView::Block { stmts } => lemma_width_stmts(stmts, 0),
        StmtView::If { cond, then_branch, else_branch } => {
            lemma_width_positive(cond);
            lemma_width_stmt(*then_branch);
            if let Some(other) = else_branch {
                lemma_width_stmt(*other);
            }
        },
        StmtView::While { cond, body } => {
            lemma_width_positive(cond);
            lemma_width_stmt(*body);
        },
        StmtView::For { init, cond, step, body } => {
            assert(width_initializer(init) == match init {
                Some(first) => width_stmt(*first),
                None => 1,
            });
            if let Some(first) = init {
                lemma_width_stmt(*first);
            }
            if let Some(cond) = cond {
                lemma_width_positive(cond);
            }
            if let Some(step) = step {
                lemma_width_positive(step);
            }
            lemma_width_stmt(*body);
        },
        StmtView::Fun { function } => lemma_width_function(function),
        StmtView::Return { expr } => {
            if let Some(expr) = expr {
                lemma_width_positive(expr);
            }
        },
        StmtView::Class { methods, .. } => lemma_width_functions(methods, 0),
    }
}

/// Lists of statements are spelled with no fewer than no tokens.
pub proof fn lemma_width_stmts(stmts: Seq<StmtView>, i: nat)
    ensures
        width_stmts(stmts, i) >= 0,
    decreases stmts, stmts.len() - i,
{
    if i < stmts.len() {
        lemma_width_stmt(stmts[i as int]);
        lemma_width_stmts(stmts, i + 1);
    }
}

/// A function is spelled with at least five tokens.
pub proof fn lemma_width_function(f: FunctionView)
    ensures
        width_function(f) >= 5,
    decreases f, 0nat,
{
    lemma_width_names(f.params, 0);
    lemma_width_stmts(f.body, 0);
}

/// Lists of functions are spelled with no fewer than no tokens.
pub proof fn lemma_width_functions(fs: Seq<FunctionView>, i: nat)
    ensures
        width_functions(fs, i) >= 0,
    decreases fs, fs.len() - i,
{
    if i < fs.len() {
        lemma_width_function(fs[i as int]);
        lemma_width_functions(fs, i + 1);
    }
}

/// Whether a declaration can start with a token of the kind `kind`.
pub open spec fn starts_declaration(kind: TokenType) -> bool {
    ||| starts_expression(kind)
    ||| kind == TokenType::Print
    ||| kind == TokenType::If
    ||| kind == TokenType::Fun
    ||| kind == TokenType::While
    ||| kind == TokenType::For
    ||| kind == TokenType::LeftBrace
    ||| kind == TokenType::Return
    ||| kind == TokenType::Var
    ||| kind == TokenType::Class
}

/// A canonical statement starts with a token that starts declarations; an
/// expression statement, with one that starts expressions.
pub proof fn lemma_first_token_stmt(ts: Seq<TokenView>, pos: int, s: StmtView)
    requires
        canonical_stmt(s),
        spells_stmt(ts, pos, s),
    ensures
        starts_declaration(kind_at(ts, pos)),
        s is Expr ==> starts_expression(kind_at(ts, pos)),
{
    if let StmtView::Expr { expr } = s {
        lemma_first_token(ts, pos, expr);
    }
}

/// `exprStmt` reads a spelled expression and its `;`.
pub proof fn lemma_read_expression_statement(ts: Seq<TokenView>, pos: int, expr: ExprView)
    requires
        canonical(expr),
        spells(ts, pos, expr),
        kind_at(ts, pos + width(expr)) == TokenType::Semicolon,
    ensures
        parse_expression_statement(ts, pos) == Ok::<(StmtView, int), ParseError>(
            (StmtView::Expr { expr }, pos + width(expr) + 1),
        ),
{
    reveal(parse_expression_statement);
    lemma_read_expression(ts, pos, expr);
}

/// `printStmt` reads a spelled `print` statement.
pub proof fn lemma_read_print(ts: Seq<TokenView>, pos: int, expr: ExprView)
    requires
        canonical(expr),
        spells_stmt(ts, pos, StmtView::Print { expr }),
    ensures
        parse_print(ts, pos) == Ok::<(StmtView, int), ParseError>(
            (StmtView::Print { expr }, pos + width(expr) + 2),
        ),
{
    reveal(parse_print);
    lemma_read_expression(ts, pos + 1, expr);
}

/// `returnStmt` reads a spelled `return` statement.
pub proof fn lemma_read_return(ts: Seq<TokenView>, pos: int, expr: Option<ExprView>)
    requires
        canonical_optional(expr),
        spells_stmt(ts, pos, StmtView::Return { expr }),
    ensures
        parse_return(ts, pos) == Ok::<(StmtView, int), ParseError>(
            (StmtView::Return { expr }, pos + 2 + width_optional(expr)),
        ),
{
    reveal(parse_return);
    if let Some(e) = expr {
        lemma_first_token(ts, pos + 1, e);
        lemma_read_expression(ts, pos + 1, e);
    }
}

/// `varDecl` reads a spelled variable declaration.
pub proof fn lemma_read_var(ts: Seq<TokenView>, pos: int, name: Seq<char>, init: Option<ExprView>)
    requires
        canonical_optional(init),
        spells_stmt(ts, pos, StmtView::VarDecl { name, init }),
    ensures
        parse_var_declaration(ts, pos) == Ok::<(StmtView, int), ParseError>(
            (StmtView::VarDecl { name, init }, pos + width_stmt(StmtView::VarDecl { name, init })),
        ),
{
    reveal(parse_var_declaration);
    if let Some(e) = init {
        lemma_read_expression(ts, pos + 3, e);
    }
}

/// `params` reads the rest of a spelled parameter list.
pub proof fn lemma_read_param_list(ts: Seq<TokenView>, pos: int, names: Seq<Seq<char>>, i: nat)
    requires
        i < names.len(),
        spells_names(ts, pos, names, i),
        kind_at(ts, pos + width_names(names, i)) == TokenType::RightParen,
    ensures
        parse_param_list(ts, pos, names.take(i as int)) == Ok::<(Seq<Seq<char>>, int), ParseError>(
            (names, pos + width_names(names, i)),
        ),
    decreases names.len() - i,
{
    lemma_width_names(names, i + 1);
    if i + 1 == names.len() {
        assert(names.take(i as int).push(names[i as int]) =~= names);
    } else {
        assert(names.take(i as int).push(names[i as int]) =~= names.take(i as int + 1));
        lemma_read_param_list(ts, pos + 2, names, i + 1);
    }
}

/// The head of a function reads its spelled name and parameters.
pub proof fn lemma_read_signature(ts: Seq<TokenView>, pos: int, f: FunctionView)
    requires
        spells_function(ts, pos, f),
    ensures
        parse_signature(ts, pos) == Ok::<((Seq<char>, Seq<Seq<char>>), int), ParseError>(
            ((f.name, f.params), pos + 3 + width_names(f.params, 0)),
        ),
{
    reveal(parse_signature);
    reveal(parse_params);
    lemma_width_names(f.params, 0);
    if f.params.len() == 0 {
        assert(f.params =~= Seq::empty());
        assert(parse_params(ts, pos + 2) == Ok::<(Seq<Seq<char>>, int), ParseError>(
            (f.params, pos + 2),
        ));
    } else {
        assert(f.params.take(0) =~= Seq::empty());
        lemma_read_param_list(ts, pos + 2, f.params, 0);
        assert(parse_params(ts, pos + 2) == Ok::<(Seq<Seq<char>>, int), ParseError>(
            (f.params, pos + 2 + width_names(f.params, 0)),
        ));
    }
}

/// The head of an `if` or a `while` reads its spelled condition.
pub proof fn lemma_read_condition(ts: Seq<TokenView>, pos: int, keyword: TokenType, cond: ExprView)
    requires
        canonical(cond),
        kind_at(ts, pos) == keyword,
        kind_at(ts, pos + 1) == TokenType::LeftParen,
        spells(ts, pos + 2, cond),
        kind_at(ts, pos + 2 + width(cond)) == TokenType::RightParen,
    ensures
        parse_condition(ts, pos, keyword) == Ok::<(ExprView, int), ParseError>(
            (cond, pos + 3 + width(cond)),
        ),
{
    reveal(parse_condition);
    lemma_read_expression(ts, pos + 2, cond);
}

/// The first clause of a `for` reads what was spelled.
pub proof fn lemma_read_for_initializer(ts: Seq<TokenView>, pos: int, init: Option<Box<StmtView>>)
    requires
        match init {
            Some(first) => (*first is VarDecl || *first is Expr) && canonical_stmt(*first)
                && spells_stmt(ts, pos, *first),
            None => kind_at(ts, pos) == TokenType::Semicolon,
        },
    ensures
        parse_for_initializer(ts, pos) == Ok::<(Option<Box<StmtView>>, int), ParseError>(
            (
                init,
                pos + match init {
                    Some(first) => width_stmt(*first),
                    None => 1,
                },
            ),
        ),
{
    reveal(parse_for_initializer);
    match init {
        None => {},
        Some(first) => {
            match *first {
                StmtView::VarDecl { name, init: value } => {
                    lemma_read_var(ts, pos, name, value);
                },
                StmtView::Expr { expr } => {
                    lemma_first_token(ts, pos, expr);
                    lemma_read_expression_statement(ts, pos, expr);
                },
                _ => {},
            }
        },
    }
}

/// The second clause of a `for` reads what was spelled.
pub proof fn lemma_read_for_condition(ts: Seq<TokenView>, pos: int, cond: Option<ExprView>)
    requires
        canonical_optional(cond),
        spells_optional(ts, pos, cond),
        kind_at(ts, pos + width_optional(cond)) == TokenType::Semicolon,
    ensures
        parse_for_condition(ts, pos) == Ok::<(Option<ExprView>, int), ParseError>(
            (cond, pos + width_optional(cond) + 1),
        ),
{
    reveal(parse_for_condition);
    if let Some(c) = cond {
        lemma_first_token(ts, pos, c);
        lemma_read_expression(ts, pos, c);
    }
}

/// The third clause of a `for` reads what was spelled.
pub proof fn lemma_read_for_step(ts: Seq<TokenView>, pos: int, step: Option<ExprView>)
    requires
        canonical_optional(step),
        spells_optional(ts, pos, step),
        kind_at(ts, pos + width_optional(step)) == TokenType::RightParen,
    ensures
        parse_for_step(ts, pos) == Ok::<(Option<ExprView>, int), ParseError>(
            (step, pos + width_optional(step) + 1),
        ),
{
    reveal(parse_for_step);
    if let Some(st) = step {
        lemma_first_token(ts, pos, st);
        lemma_read_expression(ts, pos, st);
    }
}

/// Where a `for` spells its body.
pub open spec fn for_body_at(
    pos: int,
    init: Option<Box<StmtView>>,
    cond: Option<ExprView>,
    step: Option<ExprView>,
) -> int {
    pos + 2 + width_initializer(init) + width_optional(cond) + 1 + width_optional(step) + 1
}

/// The head of a `for` reads its three spelled clauses.
pub proof fn lemma_read_for_head(
    ts: Seq<TokenView>,
    pos: int,
    init: Option<Box<StmtView>>,
    cond: Option<ExprView>,
    step: Option<ExprView>,
    body: StmtView,
)
    requires
        canonical_stmt(StmtView::For { init, cond, step, body: Box::new(body) }),
        spells_stmt(ts, pos, StmtView::For { init, cond, step, body: Box::new(body) }),
    ensures
        parse_for_head(ts, pos) == Ok::<
            ((Option<Box<StmtView>>, Option<ExprView>, Option<ExprView>), int),
            ParseError,
        >(((init, cond, step), for_body_at(pos, init, cond, step))),
{
    reveal(parse_for_head);
    let cond_at = pos + 2 + width_initializer(init);
    let step_at = cond_at + width_optional(cond) + 1;
    assert(spells_initializer(ts, pos + 2, init));
    assert(width_initializer(init) == match init {
        Some(first) => width_stmt(*first),
        None => 1,
    });
    lemma_read_for_initializer(ts, pos + 2, init);
    lemma_read_for_condition(ts, cond_at, cond);
    lemma_read_for_step(ts, step_at, step);
}

/// What a statement spells lies within the tokens.
pub proof fn lemma_stmt_within(ts: Seq<TokenView>, pos: int, s: StmtView)
    requires
        spells_stmt(ts, pos, s),
    ensures
        0 <= pos,
        pos + width_stmt(s) <= ts.len(),
    decreases s, 0nat,
{
    lemma_width_stmt(s);
    match s {
        StmtView::Expr { expr } => {
            lemma_spelled_within(ts, pos, expr);
        },
        StmtView::Print { expr } => {
            lemma_spelled_within(ts, pos + 1, expr);
        },
        StmtView::VarDecl { init, .. } => {
            if let Some(init) = init {
                lemma_spelled_within(ts, pos + 3, init);
            }
        },
        StmtView::Block { stmts } => {
            lemma_width_stmts(stmts, 0);
        },
        StmtView::If { cond, then_branch, else_branch } => {
            lemma_width_positive(cond);
            lemma_stmt_within(ts, pos + 3 + width(cond), *then_branch);
            if let Some(other) = else_branch {
                lemma_stmt_within(
                    ts,
                    pos + 3 + width(cond) + width_stmt(*then_branch) + 1,
                    *other,
                );
            }
        },
        StmtView::While { cond, body } => {
            lemma_width_positive(cond);
            lemma_stmt_within(ts, pos + 3 + width(cond), *body);
        },
        StmtView::For { init, cond, step, body } => {
            assert(width_initializer(init) == match init {
                Some(first) => width_stmt(*first),
                None => 1,
            });
            if let Some(first) = init {
                lemma_width_stmt(*first);
            }
            if let Some(cond) = cond {
                lemma_width_positive(cond);
            }
            if let Some(step) = step {
                lemma_width_positive(step);
            }
            lemma_stmt_within(ts, for_body_at(pos, init, cond, step), *body);
        },
        StmtView::Fun { function } => {
            lemma_function_within(ts, pos + 1, function);
        },
        StmtView::Return { expr } => {
            if let Some(expr) = expr {
                lemma_width_positive(expr);
            }
        },
        StmtView::Class { methods, .. } => {
            lemma_width_functions(methods, 0);
        },
    }
}

/// What a function spells lies within the tokens.
pub proof fn lemma_function_within(ts: Seq<TokenView>, pos: int, f: FunctionView)
    requires
        spells_function(ts, pos, f),
    ensures
        0 <= pos,
        pos + width_function(f) <= ts.len(),
{
    lemma_width_names(f.params, 0);
    lemma_width_stmts(f.body, 0);
}

/// `block` reads a spelled block: its statements between the braces.
pub proof fn lemma_read_block(ts: Seq<TokenView>, pos: int, stmts: Seq<StmtView>)
    requires
        canonical_stmts(stmts, 0),
        spells_stmt(ts, pos, StmtView::Block { stmts }),
    ensures
        parse_block(ts, pos) == Ok::<(Seq<StmtView>, int), ParseError>(
            (stmts, pos + 2 + width_stmts(stmts, 0)),
        ),
    decreases stmts, stmts.len() + 1,
{
    assert(stmts.take(0) =~= Seq::empty());
    lemma_read_block_items(ts, pos + 1, stmts, 0);
}

/// One declaration of a block: the parser goes on behind it.
pub proof fn lemma_block_items_step(
    ts: Seq<TokenView>,
    pos: int,
    acc: Seq<StmtView>,
    s: StmtView,
    p: int,
)
    requires
        kind_at(ts, pos) != TokenType::RightBrace,
        kind_at(ts, pos) != TokenType::EOF,
        parse_declaration(ts, pos) == Ok::<(StmtView, int), ParseError>((s, p)),
        advances(ts, pos, p),
    ensures
        parse_block_items(ts, pos, acc) == parse_block_items(ts, p, acc.push(s)),
{
}

/// The declarations of a block read the rest of its spelled statements and
/// its `}`.
pub proof fn lemma_read_block_items(ts: Seq<TokenView>, pos: int, stmts: Seq<StmtView>, i: nat)
    requires
        i <= stmts.len(),
        canonical_stmts(stmts, i),
        spells_stmts(ts, pos, stmts, i),
        kind_at(ts, pos + width_stmts(stmts, i)) == TokenType::RightBrace,
    ensures
        parse_block_items(ts, pos, stmts.take(i as int)) == Ok::<(Seq<StmtView>, int), ParseError>(
            (stmts, pos + width_stmts(stmts, i) + 1),
        ),
    decreases stmts, stmts.len() - i,
{
    if i == stmts.len() {
        assert(stmts.take(i as int) =~= stmts);
    } else {
        let s = stmts[i as int];
        let p = pos + width_stmt(s);
        lemma_width_stmt(s);
        lemma_width_stmts(stmts, i + 1);
        lemma_stmt_within(ts, pos, s);
        lemma_first_token_stmt(ts, pos, s);
        assert(canonical_stmts(stmts, i + 1));
        assert(spells_stmts(ts, p, stmts, i + 1));
        if i + 1 < stmts.len() {
            lemma_first_token_stmt(ts, p, stmts[i as int + 1]);
        }
        lemma_read_declaration(ts, pos, s);
        lemma_block_items_step(ts, pos, stmts.take(i as int), s, p);
        assert(stmts.take(i as int).push(s) =~= stmts.take(i as int + 1));
        lemma_read_block_items(ts, p, stmts, i + 1);
    }
}

/// `function` puts together what its parts read.
pub proof fn lemma_function_step(
    ts: Seq<TokenView>,
    pos: int,
    name: Seq<char>,
    params: Seq<Seq<char>>,
    p: int,
    body: Seq<StmtView>,
    q: int,
)
    requires
        parse_signature(ts, pos) == Ok::<((Seq<char>, Seq<Seq<char>>), int), ParseError>(
            ((name, params), p),
        ),
        advances(ts, pos, p),
        parse_block(ts, p) == Ok::<(Seq<StmtView>, int), ParseError>((body, q)),
    ensures
        parse_function(ts, pos) == Ok::<(FunctionView, int), ParseError>(
            (FunctionView { name, params, body }, q),
        ),
{
}

/// `function` reads a spelled function.
pub proof fn lemma_read_function(ts: Seq<TokenView>, pos: int, f: FunctionView)
    requires
        canonical_function(f),
        spells_function(ts, pos, f),
    ensures
        parse_function(ts, pos) == Ok::<(FunctionView, int), ParseError>(
            (f, pos + width_function(f)),
        ),
    decreases f, 0nat,
{
    lemma_width_names(f.params, 0);
    lemma_width_stmts(f.body, 0);
    lemma_function_within(ts, pos, f);
    lemma_read_signature(ts, pos, f);
    let p = pos + 3 + width_names(f.params, 0);
    assert(spells_stmt(ts, p, StmtView::Block { stmts: f.body }));
    lemma_read_block(ts, p, f.body);
    lemma_function_step(ts, pos, f.name, f.params, p, f.body, pos + width_function(f));
}

/// One method of a class: the parser goes on behind it.
pub proof fn lemma_methods_step(
    ts: Seq<TokenView>,
    pos: int,
    acc: Seq<FunctionView>,
    f: FunctionView,
    p: int,
)
    requires
        kind_at(ts, pos) == TokenType::Identifier,
        parse_function(ts, pos) == Ok::<(FunctionView, int), ParseError>((f, p)),
        advances(ts, pos, p),
    ensures
        parse_methods(ts, pos, acc) == parse_methods(ts, p, acc.push(f)),
{
}

/// `function*` reads the rest of the spelled methods of a class.
pub proof fn lemma_read_methods(ts: Seq<TokenView>, pos: int, fs: Seq<FunctionView>, i: nat)
    requires
        i <= fs.len(),
        canonical_functions(fs, i),
        spells_functions(ts, pos, fs, i),
        kind_at(ts, pos + width_functions(fs, i)) == TokenType::RightBrace,
    ensures
        parse_methods(ts, pos, fs.take(i as int)) == Ok::<(Seq<FunctionView>, int), ParseError>(
            (fs, pos + width_functions(fs, i)),
        ),
    decreases fs, fs.len() - i,
{
    if i == fs.len() {
        assert(fs.take(i as int) =~= fs);
    } else {
        let f = fs[i as int];
        assert(spells_function(ts, pos, f));
        assert(canonical_function(f));
        lemma_width_function(f);
        lemma_width_functions(fs, i + 1);
        lemma_function_within(ts, pos, f);
        lemma_read_function(ts, pos, f);
        lemma_methods_step(ts, pos, fs.take(i as int), f, pos + width_function(f));
        assert(fs.take(i as int).push(f) =~= fs.take(i as int + 1));
        lemma_read_methods(ts, pos + width_function(f), fs, i + 1);
    }
}

/// `ifStmt` puts together what its parts read.
pub proof fn lemma_if_step(
    ts: Seq<TokenView>,
    pos: int,
    cond: ExprView,
    p: int,
    stmts: Seq<StmtView>,
    q: int,
    other: Option<Seq<StmtView>>,
    r: int,
)
    requires
        parse_condition(ts, pos, TokenType::If) == Ok::<(ExprView, int), ParseError>((cond, p)),
        advances(ts, pos, p),
        parse_block(ts, p) == Ok::<(Seq<StmtView>, int), ParseError>((stmts, q)),
        advances(ts, pos, q),
        match other {
            Some(else_stmts) => kind_at(ts, q) == TokenType::Else && parse_block(ts, q + 1) == Ok::<
                (Seq<StmtView>, int),
                ParseError,
            >((else_stmts, r)),
            None => kind_at(ts, q) != TokenType::Else && r == q,
        },
    ensures
        parse_if(ts, pos) == Ok::<(StmtView, int), ParseError>(
            (
                StmtView::If {
                    cond,
                    then_branch: Box::new(StmtView::Block { stmts }),
                    else_branch: match other {
                        Some(else_stmts) => Some(Box::new(StmtView::Block { stmts: else_stmts })),
                        None => None,
                    },
                },
                r,
            ),
        ),
{
}

/// `whileStmt` puts together what its parts read.
pub proof fn lemma_while_step(ts: Seq<TokenView>, pos: int, cond: ExprView, p: int, body: StmtView, q: int)
    requires
        parse_condition(ts, pos, TokenType::While) == Ok::<(ExprView, int), ParseError>((cond, p)),
        advances(ts, pos, p),
        parse_declaration(ts, p) == Ok::<(StmtView, int), ParseError>((body, q)),
    ensures
        parse_while(ts, pos) == Ok::<(StmtView, int), ParseError>(
            (StmtView::While { cond, body: Box::new(body) }, q),
        ),
{
}

/// `forStmt` puts together what its parts read.
pub proof fn lemma_for_step(
    ts: Seq<TokenView>,
    pos: int,
    init: Option<Box<StmtView>>,
    cond: Option<ExprView>,
    step: Option<ExprView>,
    p: int,
    body: StmtView,
    q: int,
)
    requires
        parse_for_head(ts, pos) == Ok::<
            ((Option<Box<StmtView>>, Option<ExprView>, Option<ExprView>), int),
            ParseError,
        >(((init, cond, step), p)),
        advances(ts, pos, p),
        parse_declaration(ts, p) == Ok::<(StmtView, int), ParseError>((body, q)),
    ensures
        parse_for(ts, pos) == Ok::<(StmtView, int), ParseError>(
            (StmtView::For { init, cond, step, body: Box::new(body) }, q),
        ),
{
}

/// `classDecl` puts together what its parts read.
pub proof fn lemma_class_step(ts: Seq<TokenView>, pos: int, methods: Seq<FunctionView>, p: int)
    requires
        kind_at(ts, pos) == TokenType::Class,
        kind_at(ts, pos + 1) == TokenType::Identifier,
        kind_at(ts, pos + 2) == TokenType::LeftBrace,
        parse_methods(ts, pos + 3, Seq::empty()) == Ok::<(Seq<FunctionView>, int), ParseError>(
            (methods, p),
        ),
        kind_at(ts, p) == TokenType::RightBrace,
    ensures
        parse_declaration(ts, pos) == Ok::<(StmtView, int), ParseError>(
            (StmtView::Class { name: ts[pos + 1].lexeme, methods }, p + 1),
        ),
{
    assert(parse_class_declaration(ts, pos) == Ok::<(StmtView, int), ParseError>(
        (StmtView::Class { name: ts[pos + 1].lexeme, methods }, p + 1),
    ));
}

/// `declaration` hands an `if` on to `ifStmt`.
pub proof fn lemma_dispatch_if(ts: Seq<TokenView>, pos: int)
    requires
        kind_at(ts, pos) == TokenType::If,
    ensures
        parse_declaration(ts, pos) == parse_if(ts, pos),
{
    assert(parse_declaration(ts, pos) == parse_statement(ts, pos));
}

/// `declaration` hands a `while` on to `whileStmt`.
pub proof fn lemma_dispatch_while(ts: Seq<TokenView>, pos: int)
    requires
        kind_at(ts, pos) == TokenType::While,
    ensures
        parse_declaration(ts, pos) == parse_while(ts, pos),
{
    assert(parse_declaration(ts, pos) == parse_statement(ts, pos));
}

/// `declaration` hands a `for` on to `forStmt`.
pub proof fn lemma_dispatch_for(ts: Seq<TokenView>, pos: int)
    requires
        kind_at(ts, pos) == TokenType::For,
    ensures
        parse_declaration(ts, pos) == parse_for(ts, pos),
{
    assert(parse_declaration(ts, pos) == parse_statement(ts, pos));
}

/// `declaration` reads a block where `block` does.
pub proof fn lemma_dispatch_block(ts: Seq<TokenView>, pos: int, stmts: Seq<StmtView>, p: int)
    requires
        kind_at(ts, pos) == TokenType::LeftBrace,
        parse_block(ts, pos) == Ok::<(Seq<StmtView>, int), ParseError>((stmts, p)),
    ensures
        parse_declaration(ts, pos) == Ok::<(StmtView, int), ParseError>(
            (StmtView::Block { stmts }, p),
        ),
{
    assert(parse_declaration(ts, pos) == parse_statement(ts, pos));
}

/// `declaration` reads a function statement where `function` reads the
/// function behind `fun`.
pub proof fn lemma_dispatch_fun(ts: Seq<TokenView>, pos: int, function: FunctionView, p: int)
    requires
        kind_at(ts, pos) == TokenType::Fun,
        parse_function(ts, pos + 1) == Ok::<(FunctionView, int), ParseError>((function, p)),
    ensures
        parse_declaration(ts, pos) == Ok::<(StmtView, int), ParseError>(
            (StmtView::Fun { function }, p),
        ),
{
    assert(parse_declaration(ts, pos) == parse_statement(ts, pos));
}

/// `declaration` hands what starts an expression on to `exprStmt`.
pub proof fn lemma_dispatch_expression(ts: Seq<TokenView>, pos: int, r: Parsed<StmtView>)
    requires
        starts_expression(kind_at(ts, pos)),
        parse_expression_statement(ts, pos) == r,
    ensures
        parse_declaration(ts, pos) == r,
{
    assert(parse_declaration(ts, pos) == parse_statement(ts, pos));
}

/// `declaration` hands a `print` on to `printStmt`.
pub proof fn lemma_dispatch_print(ts: Seq<TokenView>, pos: int, r: Parsed<StmtView>)
    requires
        kind_at(ts, pos) == TokenType::Print,
        parse_print(ts, pos) == r,
    ensures
        parse_declaration(ts, pos) == r,
{
    assert(parse_declaration(ts, pos) == parse_statement(ts, pos));
}

/// `declaration` hands a `return` on to `returnStmt`.
pub proof fn lemma_dispatch_return(ts: Seq<TokenView>, pos: int, r: Parsed<StmtView>)
    requires
        kind_at(ts, pos) == TokenType::Return,
        parse_return(ts, pos) == r,
    ensures
        parse_declaration(ts, pos) == r,
{
    assert(parse_declaration(ts, pos) == parse_statement(ts, pos));
}

/// `declaration` hands a `var` on to `varDecl`.
pub proof fn lemma_dispatch_var(ts: Seq<TokenView>, pos: int, r: Parsed<StmtView>)
    requires
        kind_at(ts, pos) == TokenType::Var,
        parse_var_declaration(ts, pos) == r,
    ensures
        parse_declaration(ts, pos) == r,
{
}

/// `declaration` reads a spelled expression statement.
pub proof fn lemma_read_expression_declaration(ts: Seq<TokenView>, pos: int, expr: ExprView)
    requires
        canonical(expr),
        spells_stmt(ts, pos, StmtView::Expr { expr }),
    ensures
        parse_declaration(ts, pos) == Ok::<(StmtView, int), ParseError>(
            (StmtView::Expr { expr }, pos + width(expr) + 1),
        ),
{
    lemma_first_token(ts, pos, expr);
    lemma_read_expression_statement(ts, pos, expr);
    lemma_dispatch_expression(
        ts,
        pos,
        Ok::<(StmtView, int), ParseError>((StmtView::Expr { expr }, pos + width(expr) + 1)),
    );
}

/// `declaration` reads a spelled `print`.
pub proof fn lemma_read_print_declaration(ts: Seq<TokenView>, pos: int, expr: ExprView)
    requires
        canonical(expr),
        spells_stmt(ts, pos, StmtView::Print { expr }),
    ensures
        parse_declaration(ts, pos) == Ok::<(StmtView, int), ParseError>(
            (StmtView::Print { expr }, pos + width(expr) + 2),
        ),
{
    lemma_read_print(ts, pos, expr);
    lemma_dispatch_print(
        ts,
        pos,
        Ok::<(StmtView, int), ParseError>((StmtView::Print { expr }, pos + width(expr) + 2)),
    );
}

/// `declaration` reads a spelled `return`.
pub proof fn lemma_read_return_declaration(ts: Seq<TokenView>, pos: int, expr: Option<ExprView>)
    requires
        canonical_optional(expr),
        spells_stmt(ts, pos, StmtView::Return { expr }),
    ensures
        parse_declaration(ts, pos) == Ok::<(StmtView, int), ParseError>(
            (StmtView::Return { expr }, pos + 2 + width_optional(expr)),
        ),
{
    lemma_read_return(ts, pos, expr);
    lemma_dispatch_return(
        ts,
        pos,
        Ok::<(StmtView, int), ParseError>((StmtView::Return { expr }, pos + 2 + width_optional(expr))),
    );
}

/// `declaration` reads a spelled variable declaration.
pub proof fn lemma_read_var_declaration(
    ts: Seq<TokenView>,
    pos: int,
    name: Seq<char>,
    init: Option<ExprView>,
)
    requires
        canonical_optional(init),
        spells_stmt(ts, pos, StmtView::VarDecl { name, init }),
    ensures
        parse_declaration(ts, pos) == Ok::<(StmtView, int), ParseError>(
            (StmtView::VarDecl { name, init }, pos + width_stmt(StmtView::VarDecl { name, init })),
        ),
{
    lemma_read_var(ts, pos, name, init);
    lemma_dispatch_var(
        ts,
        pos,
        Ok::<(StmtView, int), ParseError>(
            (StmtView::VarDecl { name, init }, pos + width_stmt(StmtView::VarDecl { name, init })),
        ),
    );
}

/// `declaration` reads a spelled `if`.
pub proof fn lemma_read_if(ts: Seq<TokenView>, pos: int, s: StmtView)
    requires
        s is If,
        canonical_stmt(s),
        spells_stmt(ts, pos, s),
        kind_at(ts, pos + width_stmt(s)) != TokenType::Else,
    ensures
        parse_declaration(ts, pos) == Ok::<(StmtView, int), ParseError>((s, pos + width_stmt(s))),
    decreases s, 2nat,
{
    let cond = s->If_cond;
    let then_branch = *s->then_branch;
    let else_branch = s->else_branch;
    lemma_dispatch_if(ts, pos);
    lemma_stmt_within(ts, pos, s);
    lemma_width_positive(cond);
    lemma_read_condition(ts, pos, TokenType::If, cond);
    let p = pos + 3 + width(cond);
    let stmts = then_branch->Block_stmts;
    assert(then_branch == StmtView::Block { stmts });
    lemma_width_stmt(then_branch);
    lemma_stmt_within(ts, p, then_branch);
    assert(canonical_stmt(then_branch));
    lemma_read_block(ts, p, stmts);
    let q = p + width_stmt(then_branch);
    assert(width_stmt(then_branch) == 2 + width_stmts(stmts, 0));
    match else_branch {
        None => {
            lemma_if_step(ts, pos, cond, p, stmts, q, None, q);
        },
        Some(other) => {
            let else_stmts = other->Block_stmts;
            assert(*other == StmtView::Block { stmts: else_stmts });
            assert(canonical_stmt(*other));
            lemma_stmt_within(ts, q + 1, *other);
            lemma_read_block(ts, q + 1, else_stmts);
            assert(width_stmt(*other) == 2 + width_stmts(else_stmts, 0));
            lemma_if_step(ts, pos, cond, p, stmts, q, Some(else_stmts), q + 1 + width_stmt(*other));
        },
    }
}

/// `declaration` reads a spelled `while`.
pub proof fn lemma_read_while(ts: Seq<TokenView>, pos: int, s: StmtView)
    requires
        s is While,
        canonical_stmt(s),
        spells_stmt(ts, pos, s),
        kind_at(ts, pos + width_stmt(s)) != TokenType::Else,
    ensures
        parse_declaration(ts, pos) == Ok::<(StmtView, int), ParseError>((s, pos + width_stmt(s))),
    decreases s, 2nat,
{
    let cond = s->While_cond;
    let body = *s->While_body;
    lemma_dispatch_while(ts, pos);
    lemma_stmt_within(ts, pos, s);
    lemma_width_positive(cond);
    lemma_read_condition(ts, pos, TokenType::While, cond);
    lemma_read_declaration(ts, pos + 3 + width(cond), body);
    lemma_while_step(ts, pos, cond, pos + 3 + width(cond), body, pos + width_stmt(s));
}

/// `declaration` reads a spelled `for`.
pub proof fn lemma_read_for(ts: Seq<TokenView>, pos: int, s: StmtView)
    requires
        s is For,
        canonical_stmt(s),
        spells_stmt(ts, pos, s),
        kind_at(ts, pos + width_stmt(s)) != TokenType::Else,
    ensures
        parse_declaration(ts, pos) == Ok::<(StmtView, int), ParseError>((s, pos + width_stmt(s))),
    decreases s, 2nat,
{
    let init = s->For_init;
    let cond = s->For_cond;
    let step = s->For_step;
    let body = *s->For_body;
    lemma_dispatch_for(ts, pos);
    lemma_stmt_within(ts, pos, s);
    lemma_read_for_head(ts, pos, init, cond, step, body);
    assert(width_initializer(init) == match init {
        Some(first) => width_stmt(*first),
        None => 1,
    });
    if let Some(first) = init {
        lemma_width_stmt(*first);
    }
    if let Some(c) = cond {
        lemma_width_positive(c);
    }
    if let Some(st) = step {
        lemma_width_positive(st);
    }
    let body_at = for_body_at(pos, init, cond, step);
    lemma_stmt_within(ts, body_at, body);
    lemma_read_declaration(ts, body_at, body);
    lemma_for_step(ts, pos, init, cond, step, body_at, body, pos + width_stmt(s));
}

/// `declaration` reads a spelled class.
pub proof fn lemma_read_class(ts: Seq<TokenView>, pos: int, s: StmtView)
    requires
        s is Class,
        canonical_stmt(s),
        spells_stmt(ts, pos, s),
    ensures
        parse_declaration(ts, pos) == Ok::<(StmtView, int), ParseError>((s, pos + width_stmt(s))),
    decreases s, 2nat,
{
    let methods = s->methods;
    lemma_width_functions(methods, 0);
    assert(methods.take(0) =~= Seq::empty());
    lemma_read_methods(ts, pos + 3, methods, 0);
    lemma_class_step(ts, pos, methods, pos + 3 + width_functions(methods, 0));
}

/// `declaration` reads a spelled function statement.
pub proof fn lemma_read_fun(ts: Seq<TokenView>, pos: int, s: StmtView)
    requires
        s is Fun,
        canonical_stmt(s),
        spells_stmt(ts, pos, s),
    ensures
        parse_declaration(ts, pos) == Ok::<(StmtView, int), ParseError>((s, pos + width_stmt(s))),
    decreases s, 2nat,
{
    let function = s->function;
    assert(width_stmt(s) == 1 + width_function(function));
    lemma_read_function(ts, pos + 1, function);
    lemma_dispatch_fun(ts, pos, function, pos + width_stmt(s));
}

/// `declaration` reads a spelled block statement.
pub proof fn lemma_read_block_statement(ts: Seq<TokenView>, pos: int, s: StmtView)
    requires
        s is Block,
        canonical_stmt(s),
        spells_stmt(ts, pos, s),
    ensures
        parse_declaration(ts, pos) == Ok::<(StmtView, int), ParseError>((s, pos + width_stmt(s))),
    decreases s, 2nat,
{
    let stmts = s->Block_stmts;
    lemma_read_block(ts, pos, stmts);
    lemma_dispatch_block(ts, pos, stmts, pos + width_stmt(s));
}

/// `declaration` reads a spelled statement, where no `else` follows.
pub proof fn lemma_read_declaration(ts: Seq<TokenView>, pos: int, s: StmtView)
    requires
        canonical_stmt(s),
        spells_stmt(ts, pos, s),
        kind_at(ts, pos + width_stmt(s)) != TokenType::Else,
    ensures
        parse_declaration(ts, pos) == Ok::<(StmtView, int), ParseError>((s, pos + width_stmt(s))),
    decreases s, 3nat,
{
    match s {
        StmtView::Block { .. } => {
            lemma_read_block_statement(ts, pos, s);
        },
        StmtView::If { .. } => {
            lemma_read_if(ts, pos, s);
        },
        StmtView::While { .. } => {
            lemma_read_while(ts, pos, s);
        },
        StmtView::For { .. } => {
            lemma_read_for(ts, pos, s);
        },
        StmtView::Fun { .. } => {
            lemma_read_fun(ts, pos, s);
        },
        StmtView::Class { .. } => {
            lemma_read_class(ts, pos, s);
        },
        StmtView::Expr { expr } => {
            lemma_read_expression_declaration(ts, pos, expr);
        },
        StmtView::Print { expr } => {
            lemma_read_print_declaration(ts, pos, expr);
        },
        StmtView::Return { expr } => {
            lemma_read_return_declaration(ts, pos, expr);
        },
        StmtView::VarDecl { name, init } => {
            lemma_read_var_declaration(ts, pos, name, init);
        },
    }
}

/// One declaration of a program: the parser goes on behind it.
pub proof fn lemma_declarations_step(
    ts: Seq<TokenView>,
    pos: int,
    acc: Seq<StmtView>,
    s: StmtView,
    p: int,
)
    requires
        kind_at(ts, pos) != TokenType::EOF,
        parse_declaration(ts, pos) == Ok::<(StmtView, int), ParseError>((s, p)),
        advances(ts, pos, p),
    ensures
        parse_declarations(ts, pos, acc) == parse_declarations(ts, p, acc.push(s)),
{
}

/// `declaration*` reads the rest of a spelled program.
pub proof fn lemma_read_declarations(ts: Seq<TokenView>, pos: int, stmts: Seq<StmtView>, i: nat)
    requires
        i <= stmts.len(),
        canonical_stmts(stmts, i),
        spells_stmts(ts, pos, stmts, i),
        kind_at(ts, pos + width_stmts(stmts, i)) == TokenType::EOF,
    ensures
        parse_declarations(ts, pos, stmts.take(i as int)) == Ok::<Seq<StmtView>, ParseError>(stmts),
    decreases stmts.len() - i,
{
    if i == stmts.len() {
        assert(stmts.take(i as int) =~= stmts);
    } else {
        let s = stmts[i as int];
        let p = pos + width_stmt(s);
        lemma_width_stmt(s);
        lemma_width_stmts(stmts, i + 1);
        lemma_stmt_within(ts, pos, s);
        lemma_first_token_stmt(ts, pos, s);
        assert(canonical_stmts(stmts, i + 1));
        assert(spells_stmts(ts, p, stmts, i + 1));
        if i + 1 < stmts.len() {
            lemma_first_token_stmt(ts, p, stmts[i as int + 1]);
        }
        lemma_read_declaration(ts, pos, s);
        lemma_declarations_step(ts, pos, stmts.take(i as int), s, p);
        assert(stmts.take(i as int).push(s) =~= stmts.take(i as int + 1));
        lemma_read_declarations(ts, p, stmts, i + 1);
    }
}

/// Parsing reads back what was spelled: tokens that spell a canonical
/// program parse to that program.
pub proof fn law_spelled_program_parses(ts: Seq<TokenView>, stmts: Seq<StmtView>)
    requires
        canonical_stmts(stmts, 0),
        spells_program(ts, stmts),
    ensures
        parse_program(ts) == Ok::<Seq<StmtView>, ParseError>(stmts),
{
    assert(stmts.take(0) =~= Seq::empty());
    lemma_read_declarations(ts, 0, stmts, 0);
}

/// Parsing reads back what was spelled: tokens that spell a canonical
/// expression, with a token behind them that ends expressions, parse to that
/// expression.
pub proof fn law_spelled_expression_parses(ts: Seq<TokenView>, pos: int, e: ExprView)
    requires
        canonical(e),
        spells(ts, pos, e),
        ends_expression(kind_at(ts, pos + width(e))),
    ensures
        parse_expression(ts, pos) == Ok::<(ExprView, int), ParseError>((e, pos + width(e))),
{
    lemma_read_expression(ts, pos, e);
}

} // verus!
