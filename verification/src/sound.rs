//! What was parsed was spelled: a tree that the parser builds is canonical
//! and is spelled by the tokens it was built from.

use crate::expressions::expression::ExprView;
use crate::grammar::{
    advances, is_operator, join, kind_at, parse_argument_list, parse_arguments, parse_assignment,
    parse_binary, parse_binary_rest, parse_block, parse_block_items, parse_call,
    parse_call_rest, parse_class_declaration, parse_condition, parse_declaration,
    parse_declarations, parse_expression, parse_expression_statement, parse_for,
    parse_for_condition, parse_for_head, parse_for_initializer, parse_for_step, parse_function,
    parse_if, parse_methods, parse_operand, parse_param_list, parse_params, parse_primary,
    parse_print, parse_program, parse_return, parse_signature, parse_statement, parse_unary,
    parse_var_declaration, parse_while, ParseError, MAX_ARGUMENTS,
};
use crate::roundtrip::{
    for_body_at, law_spelled_program_parses, lemma_spelled_within, lemma_stmt_within,
    lemma_width_list, lemma_width_positive, lemma_width_stmt,
};
use crate::spelling::{
    canonical, canonical_function, canonical_functions, canonical_list, canonical_optional,
    canonical_stmt, canonical_stmts, level_of, spells, spells_function, spells_functions,
    spells_initializer, spells_list, spells_names, spells_optional, spells_program, spells_stmt,
    spells_stmts, width, width_function, width_functions, width_initializer, width_list,
    width_names, width_optional, width_stmt, width_stmts,
};
use crate::statements::statement::{FunctionView, StmtView};
use crate::token::{TokenType, TokenView};
use vstd::prelude::*;

verus! {

/// Whether the tokens of `ts` from `pos` up to `next` spell the canonical
/// expression `e`.
pub open spec fn reads(ts: Seq<TokenView>, pos: int, e: ExprView, next: int) -> bool {
    spells(ts, pos, e) && canonical(e) && next == pos + width(e) && level_of(e) <= 7
}

/// What `primary` builds is spelled by what it read.
pub proof fn lemma_sound_primary(ts: Seq<TokenView>, pos: int)
    ensures
        parse_primary(ts, pos) matches Ok((e, p)) ==> reads(ts, pos, e, p) && level_of(e) == 7,
    decreases ts.len() - pos, 0int,
{
    if kind_at(ts, pos) == TokenType::LeftParen {
        lemma_sound_expression(ts, pos + 1);
    }
}

/// What `args?` builds is spelled by what it read.
pub proof fn lemma_sound_arguments(ts: Seq<TokenView>, pos: int)
    ensures
        parse_arguments(ts, pos) matches Ok((args, p)) ==> args.len() <= MAX_ARGUMENTS
            && canonical_list(args, 0) && spells_list(ts, pos, args, 0) && p == pos + width_list(
            args,
            0,
        ),
    decreases ts.len() - pos, 22int,
{
    if kind_at(ts, pos) != TokenType::RightParen {
        lemma_sound_argument_list(ts, pos, Seq::empty());
    }
}

/// What `args` adds to the arguments in `acc` is spelled by what it read.
pub proof fn lemma_sound_argument_list(ts: Seq<TokenView>, pos: int, acc: Seq<ExprView>)
    requires
        acc.len() < MAX_ARGUMENTS,
    ensures
        parse_argument_list(ts, pos, acc) matches Ok((args, p)) ==> {
            &&& acc.len() < args.len() <= MAX_ARGUMENTS
            &&& args.take(acc.len() as int) == acc
            &&& canonical_list(args, acc.len())
            &&& spells_list(ts, pos, args, acc.len())
            &&& p == pos + width_list(args, acc.len())
        },
    decreases ts.len() - pos, 21int,
{
    lemma_sound_expression(ts, pos);
    if let Ok((arg, q)) = parse_expression(ts, pos) {
        let longer = acc.push(arg);
        if kind_at(ts, q) != TokenType::Comma {
            assert(longer.take(acc.len() as int) =~= acc);
            assert(canonical_list(longer, acc.len() + 1));
        } else if acc.len() + 1 < MAX_ARGUMENTS && advances(ts, pos, q) {
            lemma_sound_argument_list(ts, q + 1, longer);
            if let Ok((args, p)) = parse_argument_list(ts, q + 1, longer) {
                assert(args.take(longer.len() as int) == longer);
                assert(args[acc.len() as int] == longer[acc.len() as int]);
                assert(args.take(acc.len() as int) =~= acc) by {
                    assert forall|j: int| 0 <= j < acc.len() implies args[j] == acc[j] by {
                        assert(args.take(longer.len() as int)[j] == longer[j]);
                    }
                }
            }
        }
    }
}

/// What the calls and property accesses behind a callee build is spelled by
/// what was read from the start of the callee on.
pub proof fn lemma_sound_call_rest(ts: Seq<TokenView>, start: int, pos: int, callee: ExprView)
    requires
        reads(ts, start, callee, pos),
        level_of(callee) == 7,
    ensures
        parse_call_rest(ts, pos, callee) matches Ok((e, p)) ==> reads(ts, start, e, p) && level_of(e)
            == 7,
    decreases ts.len() - pos, 23int,
{
    lemma_spelled_within(ts, start, callee);
    lemma_width_positive(callee);
    if kind_at(ts, pos) == TokenType::LeftParen {
        lemma_sound_arguments(ts, pos + 1);
        if let Ok((args, q)) = parse_arguments(ts, pos + 1) {
            if kind_at(ts, q) == TokenType::RightParen && pos < q {
                let call = ExprView::Call { callee: Box::new(callee), args };
                lemma_width_list(args, 0);
                assert(reads(ts, start, call, q + 1));
                lemma_sound_call_rest(ts, start, q + 1, call);
            }
        }
    } else if kind_at(ts, pos) == TokenType::Dot {
        if kind_at(ts, pos + 1) == TokenType::Identifier {
            let get = ExprView::Get { object: Box::new(callee), name: ts[pos + 1].lexeme };
            assert(reads(ts, start, get, pos + 2));
            lemma_sound_call_rest(ts, start, pos + 2, get);
        }
    }
}

/// What `call` builds is spelled by what it read.
pub proof fn lemma_sound_call(ts: Seq<TokenView>, pos: int)
    ensures
        parse_call(ts, pos) matches Ok((e, p)) ==> reads(ts, pos, e, p) && level_of(e) == 7,
    decreases ts.len() - pos, 1int,
{
    lemma_sound_primary(ts, pos);
    if let Ok((callee, p)) = parse_primary(ts, pos) {
        if advances(ts, pos, p) {
            lemma_sound_call_rest(ts, pos, p, callee);
        }
    }
}

/// What `unary` builds is spelled by what it read.
pub proof fn lemma_sound_unary(ts: Seq<TokenView>, pos: int)
    ensures
        parse_unary(ts, pos) matches Ok((e, p)) ==> reads(ts, pos, e, p) && level_of(e) >= 6,
    decreases ts.len() - pos, 2int,
{
    if kind_at(ts, pos) == TokenType::Bang || kind_at(ts, pos) == TokenType::Minus {
        lemma_sound_unary(ts, pos + 1);
    } else {
        lemma_sound_call(ts, pos);
    }
}

/// What the operand of a binary level builds is spelled by what it read.
pub proof fn lemma_sound_operand(ts: Seq<TokenView>, pos: int, level: int)
    requires
        0 <= level <= 5,
    ensures
        parse_operand(ts, pos, level) matches Ok((e, p)) ==> reads(ts, pos, e, p) && level_of(e)
            > level,
    decreases ts.len() - pos, 15 - 2 * level,
{
    if level < 5 {
        lemma_sound_binary(ts, pos, level + 1);
    } else {
        lemma_sound_unary(ts, pos);
    }
}

/// What the operators behind a left operand build is spelled by what was
/// read from the start of that operand on.
pub proof fn lemma_sound_binary_rest(ts: Seq<TokenView>, start: int, pos: int, level: int, lhs: ExprView)
    requires
        0 <= level <= 5,
        reads(ts, start, lhs, pos),
        level_of(lhs) >= level,
    ensures
        parse_binary_rest(ts, pos, level, lhs) matches Ok((e, p)) ==> reads(ts, start, e, p)
            && level_of(e) >= level,
    decreases ts.len() - pos, 24int,
{
    lemma_spelled_within(ts, start, lhs);
    lemma_width_positive(lhs);
    if is_operator(level, kind_at(ts, pos)) {
        lemma_sound_operand(ts, pos + 1, level);
        if let Ok((rhs, q)) = parse_operand(ts, pos + 1, level) {
            if advances(ts, pos, q) {
                let joined = join(level, ts[pos].kind, lhs, rhs);
                assert(level_of(joined) == level);
                assert(reads(ts, start, joined, q));
                lemma_sound_binary_rest(ts, start, q, level, joined);
            }
        }
    }
}

/// What a binary level builds is spelled by what it read.
pub proof fn lemma_sound_binary(ts: Seq<TokenView>, pos: int, level: int)
    requires
        0 <= level <= 5,
    ensures
        parse_binary(ts, pos, level) matches Ok((e, p)) ==> reads(ts, pos, e, p) && level_of(e)
            >= level,
    decreases ts.len() - pos, 16 - 2 * level,
{
    lemma_sound_operand(ts, pos, level);
    if let Ok((lhs, p)) = parse_operand(ts, pos, level) {
        if advances(ts, pos, p) {
            lemma_sound_binary_rest(ts, pos, p, level, lhs);
        }
    }
}

/// What `assignment` builds is spelled by what it read.
pub proof fn lemma_sound_assignment(ts: Seq<TokenView>, pos: int)
    ensures
        parse_assignment(ts, pos) matches Ok((e, p)) ==> reads(ts, pos, e, p),
    decreases ts.len() - pos, 19int,
{
    lemma_sound_binary(ts, pos, 0);
    if let Ok((lhs, p)) = parse_binary(ts, pos, 0) {
        if kind_at(ts, p) == TokenType::Equal && lhs is Variable && advances(ts, pos, p) {
            lemma_sound_assignment(ts, p + 1);
        }
    }
}

/// What `expression` builds is spelled by what it read.
pub proof fn lemma_sound_expression(ts: Seq<TokenView>, pos: int)
    ensures
        parse_expression(ts, pos) matches Ok((e, p)) ==> reads(ts, pos, e, p),
    decreases ts.len() - pos, 20int,
{
    lemma_sound_assignment(ts, pos);
}

/// Whether the tokens of `ts` from `pos` up to `next` spell the canonical
/// statement `s`.
pub open spec fn reads_stmt(ts: Seq<TokenView>, pos: int, s: StmtView, next: int) -> bool {
    spells_stmt(ts, pos, s) && canonical_stmt(s) && next == pos + width_stmt(s)
}

/// Whether the tokens of `ts` from `pos` up to `next` spell the canonical
/// function `f`.
pub open spec fn reads_function(ts: Seq<TokenView>, pos: int, f: FunctionView, next: int) -> bool {
    spells_function(ts, pos, f) && canonical_function(f) && next == pos + width_function(f)
}

/// What `exprStmt` builds is spelled by what it read.
pub proof fn lemma_sound_expression_statement(ts: Seq<TokenView>, pos: int)
    ensures
        parse_expression_statement(ts, pos) matches Ok((s, p)) ==> reads_stmt(ts, pos, s, p)
            && s is Expr,
{
    reveal(parse_expression_statement);
    lemma_sound_expression(ts, pos);
}

/// What `printStmt` builds is spelled by what it read.
pub proof fn lemma_sound_print(ts: Seq<TokenView>, pos: int)
    ensures
        parse_print(ts, pos) matches Ok((s, p)) ==> reads_stmt(ts, pos, s, p),
{
    reveal(parse_print);
    lemma_sound_expression(ts, pos + 1);
}

/// What `returnStmt` builds is spelled by what it read.
pub proof fn lemma_sound_return(ts: Seq<TokenView>, pos: int)
    ensures
        parse_return(ts, pos) matches Ok((s, p)) ==> reads_stmt(ts, pos, s, p),
{
    reveal(parse_return);
    lemma_sound_expression(ts, pos + 1);
}

/// What `varDecl` builds is spelled by what it read.
pub proof fn lemma_sound_var(ts: Seq<TokenView>, pos: int)
    ensures
        parse_var_declaration(ts, pos) matches Ok((s, p)) ==> reads_stmt(ts, pos, s, p)
            && s is VarDecl,
{
    reveal(parse_var_declaration);
    lemma_sound_expression(ts, pos + 3);
}

/// What `params` adds to the names in `acc` is spelled by what it read.
pub proof fn lemma_sound_param_list(ts: Seq<TokenView>, pos: int, acc: Seq<Seq<char>>)
    ensures
        parse_param_list(ts, pos, acc) matches Ok((names, p)) ==> {
            &&& acc.len() < names.len()
            &&& names.take(acc.len() as int) == acc
            &&& spells_names(ts, pos, names, acc.len())
            &&& p == pos + width_names(names, acc.len())
        },
    decreases ts.len() - pos,
{
    if kind_at(ts, pos) == TokenType::Identifier {
        let longer = acc.push(ts[pos].lexeme);
        if kind_at(ts, pos + 1) == TokenType::Comma {
            lemma_sound_param_list(ts, pos + 2, longer);
            if let Ok((names, p)) = parse_param_list(ts, pos + 2, longer) {
                assert(names.take(longer.len() as int) == longer);
                assert(names[acc.len() as int] == longer[acc.len() as int]);
                assert(names.take(acc.len() as int) =~= acc) by {
                    assert forall|j: int| 0 <= j < acc.len() implies names[j] == acc[j] by {
                        assert(names.take(longer.len() as int)[j] == longer[j]);
                    }
                }
            }
        } else {
            assert(longer.take(acc.len() as int) =~= acc);
        }
    }
}

/// What the head of a function builds is spelled by what it read.
pub proof fn lemma_sound_signature(ts: Seq<TokenView>, pos: int)
    ensures
        parse_signature(ts, pos) matches Ok(((name, params), p)) ==> {
            &&& kind_at(ts, pos) == TokenType::Identifier
            &&& ts[pos].lexeme == name
            &&& kind_at(ts, pos + 1) == TokenType::LeftParen
            &&& spells_names(ts, pos + 2, params, 0)
            &&& kind_at(ts, pos + 2 + width_names(params, 0)) == TokenType::RightParen
            &&& p == pos + 3 + width_names(params, 0)
        },
{
    reveal(parse_signature);
    reveal(parse_params);
    if kind_at(ts, pos + 2) != TokenType::RightParen {
        lemma_sound_param_list(ts, pos + 2, Seq::empty());
    }
}

/// What the head of an `if` or a `while` builds is spelled by what it read.
pub proof fn lemma_sound_condition(ts: Seq<TokenView>, pos: int, keyword: TokenType)
    ensures
        parse_condition(ts, pos, keyword) matches Ok((cond, p)) ==> {
            &&& kind_at(ts, pos) == keyword
            &&& kind_at(ts, pos + 1) == TokenType::LeftParen
            &&& spells(ts, pos + 2, cond)
            &&& canonical(cond)
            &&& kind_at(ts, pos + 2 + width(cond)) == TokenType::RightParen
            &&& p == pos + 3 + width(cond)
        },
{
    reveal(parse_condition);
    lemma_sound_expression(ts, pos + 2);
}

/// What the head of a `for` builds is spelled by what it read.
pub proof fn lemma_sound_for_head(ts: Seq<TokenView>, pos: int)
    ensures
        parse_for_head(ts, pos) matches Ok(((init, cond, step), p)) ==> {
            let cond_at = pos + 2 + width_initializer(init);
            let step_at = cond_at + width_optional(cond) + 1;
            &&& kind_at(ts, pos) == TokenType::For
            &&& kind_at(ts, pos + 1) == TokenType::LeftParen
            &&& spells_initializer(ts, pos + 2, init)
            &&& (init matches Some(first) ==> (*first is VarDecl || *first is Expr)
                && canonical_stmt(*first))
            &&& spells_optional(ts, cond_at, cond)
            &&& canonical_optional(cond)
            &&& kind_at(ts, step_at - 1) == TokenType::Semicolon
            &&& spells_optional(ts, step_at, step)
            &&& canonical_optional(step)
            &&& kind_at(ts, p - 1) == TokenType::RightParen
            &&& p == for_body_at(pos, init, cond, step)
        },
{
    reveal(parse_for_head);
    reveal(parse_for_initializer);
    reveal(parse_for_condition);
    reveal(parse_for_step);
    lemma_sound_var(ts, pos + 2);
    lemma_sound_expression_statement(ts, pos + 2);
    if let Ok((init, p)) = parse_for_initializer(ts, pos + 2) {
        assert(spells_initializer(ts, pos + 2, init));
        assert(width_initializer(init) == match init {
            Some(first) => width_stmt(*first),
            None => 1,
        });
        assert(p == pos + 2 + width_initializer(init));
        lemma_sound_expression(ts, p);
        if let Ok((cond, q)) = parse_for_condition(ts, p) {
            lemma_sound_expression(ts, q);
        }
    }
}

/// What the declarations of a block add to the statements in `acc` is
/// spelled by what was read, up to and with the `}`.
pub proof fn lemma_sound_block_items(ts: Seq<TokenView>, pos: int, acc: Seq<StmtView>)
    ensures
        parse_block_items(ts, pos, acc) matches Ok((stmts, p)) ==> {
            &&& acc.len() <= stmts.len()
            &&& stmts.take(acc.len() as int) == acc
            &&& canonical_stmts(stmts, acc.len())
            &&& spells_stmts(ts, pos, stmts, acc.len())
            &&& p == pos + width_stmts(stmts, acc.len()) + 1
            &&& kind_at(ts, p - 1) == TokenType::RightBrace
        },
    decreases ts.len() - pos, 5int,
{
    if kind_at(ts, pos) == TokenType::RightBrace {
        assert(acc.take(acc.len() as int) =~= acc);
    } else if kind_at(ts, pos) != TokenType::EOF {
        lemma_sound_declaration(ts, pos);
        if let Ok((s, q)) = parse_declaration(ts, pos) {
            if advances(ts, pos, q) {
                let longer = acc.push(s);
                lemma_sound_block_items(ts, q, longer);
                if let Ok((stmts, p)) = parse_block_items(ts, q, longer) {
                    assert(stmts.take(longer.len() as int) == longer);
                    assert(stmts[acc.len() as int] == longer[acc.len() as int]);
                    assert(stmts.take(acc.len() as int) =~= acc) by {
                        assert forall|j: int| 0 <= j < acc.len() implies stmts[j] == acc[j] by {
                            assert(stmts.take(longer.len() as int)[j] == longer[j]);
                        }
                    }
                }
            }
        }
    }
}

/// What `block` builds is spelled by what it read.
pub proof fn lemma_sound_block(ts: Seq<TokenView>, pos: int)
    ensures
        parse_block(ts, pos) matches Ok((stmts, p)) ==> reads_stmt(
            ts,
            pos,
            StmtView::Block { stmts },
            p,
        ),
    decreases ts.len() - pos, 1int,
{
    if kind_at(ts, pos) == TokenType::LeftBrace {
        lemma_sound_block_items(ts, pos + 1, Seq::empty());
    }
}

/// What `function` builds is spelled by what it read.
pub proof fn lemma_sound_function(ts: Seq<TokenView>, pos: int)
    ensures
        parse_function(ts, pos) matches Ok((f, p)) ==> reads_function(ts, pos, f, p),
    decreases ts.len() - pos, 1int,
{
    lemma_sound_signature(ts, pos);
    if let Ok(((name, params), p)) = parse_signature(ts, pos) {
        if advances(ts, pos, p) {
            lemma_sound_block(ts, p);
            if let Ok((body, q)) = parse_block(ts, p) {
                let f = FunctionView { name, params, body };
                assert(spells_stmt(ts, p, StmtView::Block { stmts: body }));
                assert(canonical_stmt(StmtView::Block { stmts: body }));
                assert(width_stmt(StmtView::Block { stmts: body }) == 2 + width_stmts(body, 0));
                assert(reads_function(ts, pos, f, q));
            }
        }
    }
}

/// What `function*` adds to the methods in `acc` is spelled by what it read.
pub proof fn lemma_sound_methods(ts: Seq<TokenView>, pos: int, acc: Seq<FunctionView>)
    ensures
        parse_methods(ts, pos, acc) matches Ok((fs, p)) ==> {
            &&& acc.len() <= fs.len()
            &&& fs.take(acc.len() as int) == acc
            &&& canonical_functions(fs, acc.len())
            &&& spells_functions(ts, pos, fs, acc.len())
            &&& p == pos + width_functions(fs, acc.len())
        },
    decreases ts.len() - pos, 2int,
{
    if kind_at(ts, pos) == TokenType::Identifier {
        lemma_sound_function(ts, pos);
        if let Ok((f, q)) = parse_function(ts, pos) {
            if advances(ts, pos, q) {
                let longer = acc.push(f);
                lemma_sound_methods(ts, q, longer);
                if let Ok((fs, p)) = parse_methods(ts, q, longer) {
                    assert(fs.take(longer.len() as int) == longer);
                    assert(fs[acc.len() as int] == longer[acc.len() as int]);
                    assert(fs.take(acc.len() as int) =~= acc) by {
                        assert forall|j: int| 0 <= j < acc.len() implies fs[j] == acc[j] by {
                            assert(fs.take(longer.len() as int)[j] == longer[j]);
                        }
                    }
                }
            }
        }
    } else {
        assert(acc.take(acc.len() as int) =~= acc);
    }
}

/// What `classDecl` builds is spelled by what it read.
pub proof fn lemma_sound_class(ts: Seq<TokenView>, pos: int)
    ensures
        parse_class_declaration(ts, pos) matches Ok((s, p)) ==> reads_stmt(ts, pos, s, p),
    decreases ts.len() - pos, 3int,
{
    if kind_at(ts, pos) == TokenType::Class && kind_at(ts, pos + 1) == TokenType::Identifier
        && kind_at(ts, pos + 2) == TokenType::LeftBrace {
        lemma_sound_methods(ts, pos + 3, Seq::empty());
    }
}

/// What `ifStmt` builds is spelled by what it read.
pub proof fn lemma_sound_if(ts: Seq<TokenView>, pos: int)
    ensures
        parse_if(ts, pos) matches Ok((s, p)) ==> reads_stmt(ts, pos, s, p),
    decreases ts.len() - pos, 1int,
{
    lemma_sound_condition(ts, pos, TokenType::If);
    if let Ok((cond, p)) = parse_condition(ts, pos, TokenType::If) {
        if advances(ts, pos, p) {
            lemma_sound_block(ts, p);
            if let Ok((stmts, q)) = parse_block(ts, p) {
                let then_branch = StmtView::Block { stmts };
                if kind_at(ts, q) != TokenType::Else {
                    let s = StmtView::If {
                        cond,
                        then_branch: Box::new(then_branch),
                        else_branch: None,
                    };
                    assert(reads_stmt(ts, pos, s, q));
                } else if advances(ts, pos, q) {
                    lemma_sound_block(ts, q + 1);
                    if let Ok((else_stmts, r)) = parse_block(ts, q + 1) {
                        let other = StmtView::Block { stmts: else_stmts };
                        let s = StmtView::If {
                            cond,
                            then_branch: Box::new(then_branch),
                            else_branch: Some(Box::new(other)),
                        };
                        assert(reads_stmt(ts, pos, s, r));
                    }
                }
            }
        }
    }
}

/// What `whileStmt` builds is spelled by what it read.
pub proof fn lemma_sound_while(ts: Seq<TokenView>, pos: int)
    ensures
        parse_while(ts, pos) matches Ok((s, p)) ==> reads_stmt(ts, pos, s, p),
    decreases ts.len() - pos, 1int,
{
    lemma_sound_condition(ts, pos, TokenType::While);
    if let Ok((cond, p)) = parse_condition(ts, pos, TokenType::While) {
        if advances(ts, pos, p) {
            lemma_sound_declaration(ts, p);
        }
    }
}

/// What `forStmt` builds is spelled by what it read.
pub proof fn lemma_sound_for(ts: Seq<TokenView>, pos: int)
    ensures
        parse_for(ts, pos) matches Ok((s, p)) ==> reads_stmt(ts, pos, s, p),
    decreases ts.len() - pos, 1int,
{
    lemma_sound_for_head(ts, pos);
    if let Ok(((init, cond, step), p)) = parse_for_head(ts, pos) {
        if advances(ts, pos, p) {
            lemma_sound_declaration(ts, p);
            if let Ok((body, q)) = parse_declaration(ts, p) {
                let s = StmtView::For { init, cond, step, body: Box::new(body) };
                assert(width_initializer(init) == match init {
                    Some(first) => width_stmt(*first),
                    None => 1,
                });
                assert(reads_stmt(ts, pos, s, q));
            }
        }
    }
}

/// What `statement` builds is spelled by what it read.
pub proof fn lemma_sound_statement(ts: Seq<TokenView>, pos: int)
    ensures
        parse_statement(ts, pos) matches Ok((s, p)) ==> reads_stmt(ts, pos, s, p),
    decreases ts.len() - pos, 3int,
{
    match kind_at(ts, pos) {
        TokenType::Print => {
            lemma_sound_print(ts, pos);
        },
        TokenType::If => {
            lemma_sound_if(ts, pos);
        },
        TokenType::Fun => {
            lemma_sound_function(ts, pos + 1);
            if let Ok((function, p)) = parse_function(ts, pos + 1) {
                assert(reads_stmt(ts, pos, StmtView::Fun { function }, p));
            }
        },
        TokenType::While => {
            lemma_sound_while(ts, pos);
        },
        TokenType::For => {
            lemma_sound_for(ts, pos);
        },
        TokenType::LeftBrace => {
            lemma_sound_block(ts, pos);
        },
        TokenType::Return => {
            lemma_sound_return(ts, pos);
        },
        _ => {
            lemma_sound_expression_statement(ts, pos);
        },
    }
}

/// What `declaration` builds is spelled by what it read.
pub proof fn lemma_sound_declaration(ts: Seq<TokenView>, pos: int)
    ensures
        parse_declaration(ts, pos) matches Ok((s, p)) ==> reads_stmt(ts, pos, s, p),
    decreases ts.len() - pos, 4int,
{
    match kind_at(ts, pos) {
        TokenType::Var => {
            lemma_sound_var(ts, pos);
        },
        TokenType::Class => {
            lemma_sound_class(ts, pos);
        },
        _ => {
            lemma_sound_statement(ts, pos);
        },
    }
}

/// What `declaration*` adds to the statements in `acc` is spelled by what it
/// read, up to the end of the program.
pub proof fn lemma_sound_declarations(ts: Seq<TokenView>, pos: int, acc: Seq<StmtView>)
    ensures
        parse_declarations(ts, pos, acc) matches Ok(stmts) ==> {
            &&& acc.len() <= stmts.len()
            &&& stmts.take(acc.len() as int) == acc
            &&& canonical_stmts(stmts, acc.len())
            &&& spells_stmts(ts, pos, stmts, acc.len())
            &&& kind_at(ts, pos + width_stmts(stmts, acc.len())) == TokenType::EOF
        },
    decreases ts.len() - pos,
{
    if kind_at(ts, pos) == TokenType::EOF {
        assert(acc.take(acc.len() as int) =~= acc);
    } else {
        lemma_sound_declaration(ts, pos);
        if let Ok((s, q)) = parse_declaration(ts, pos) {
            if advances(ts, pos, q) {
                let longer = acc.push(s);
                lemma_sound_declarations(ts, q, longer);
                if let Ok(stmts) = parse_declarations(ts, q, longer) {
                    assert(stmts.take(longer.len() as int) == longer);
                    assert(stmts[acc.len() as int] == longer[acc.len() as int]);
                    assert(stmts.take(acc.len() as int) =~= acc) by {
                        assert forall|j: int| 0 <= j < acc.len() implies stmts[j] == acc[j] by {
                            assert(stmts.take(longer.len() as int)[j] == longer[j]);
                        }
                    }
                }
            }
        }
    }
}

/// What was parsed was spelled: a program that the parser builds is
/// canonical, and the tokens spell it.
pub proof fn law_parsed_program_is_spelled(ts: Seq<TokenView>)
    ensures
        parse_program(ts) matches Ok(stmts) ==> canonical_stmts(stmts, 0) && spells_program(
            ts,
            stmts,
        ),
{
    lemma_sound_declarations(ts, 0, Seq::empty());
}

/// What was parsed was spelled: an expression that the parser builds is
/// canonical, and the tokens it was built from spell it.
pub proof fn law_parsed_expression_is_spelled(ts: Seq<TokenView>, pos: int)
    ensures
        parse_expression(ts, pos) matches Ok((e, p)) ==> canonical(e) && spells(ts, pos, e) && p
            == pos + width(e) && advances(ts, pos, p),
{
    lemma_sound_expression(ts, pos);
    if let Ok((e, p)) = parse_expression(ts, pos) {
        lemma_width_positive(e);
        lemma_spelled_within(ts, pos, e);
    }
}

/// What was parsed was spelled: a statement that the parser builds is
/// canonical, and the tokens it was built from spell it.
pub proof fn law_parsed_declaration_is_spelled(ts: Seq<TokenView>, pos: int)
    ensures
        parse_declaration(ts, pos) matches Ok((s, p)) ==> canonical_stmt(s) && spells_stmt(
            ts,
            pos,
            s,
        ) && p == pos + width_stmt(s) && advances(ts, pos, p),
{
    lemma_sound_declaration(ts, pos);
    if let Ok((s, p)) = parse_declaration(ts, pos) {
        lemma_width_stmt(s);
        lemma_stmt_within(ts, pos, s);
    }
}

/// The parser and the grammar agree: tokens parse to a program exactly when
/// the program is canonical and the tokens spell it.
pub proof fn law_parses_what_is_spelled(ts: Seq<TokenView>, stmts: Seq<StmtView>)
    ensures
        parse_program(ts) == Ok::<Seq<StmtView>, ParseError>(stmts)
            <==> canonical_stmts(stmts, 0) && spells_program(ts, stmts),
{
    law_parsed_program_is_spelled(ts);
    if canonical_stmts(stmts, 0) && spells_program(ts, stmts) {
        law_spelled_program_parses(ts, stmts);
    }
}

} // verus!
