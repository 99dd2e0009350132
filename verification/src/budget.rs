//! The budget only cuts runs short: a run that ends within its budget ends
//! the same way, in the same state, on any budget that allows as much.

use crate::expressions::expression::{ExprView, Value};
use crate::semantics::{
    call_frame, eval_args, eval_expr, exec_block, exec_loop, exec_seq, exec_stmt, run_program,
    with_heap, Budget, Evaluated, Flow, Machine, Fault,
};
use crate::env::environment::push_scope;
use crate::statements::statement::StmtView;
use vstd::prelude::*;

verus! {

/// Whether an evaluation ended otherwise than by running out of budget.
pub open spec fn within_budget<T>(r: Evaluated<T>) -> bool {
    r.1 != Err::<T, Fault>(Fault::DepthLimit) && r.1 != Err::<T, Fault>(
        Fault::RoundLimit,
    )
}

/// Whether the budget `more` allows as much as `budget` does.
pub open spec fn covers(more: Budget, budget: Budget) -> bool {
    budget.depth <= more.depth && budget.rounds <= more.rounds
}

/// An expression that is evaluated within its budget has the same value and
/// effect on any budget that allows as much.
pub proof fn lemma_expression_budget(e: ExprView, m: Machine, env: nat, budget: Budget, more: Budget)
    requires
        covers(more, budget),
        within_budget(eval_expr(e, m, env, budget)),
    ensures
        eval_expr(e, m, env, more) == eval_expr(e, m, env, budget),
    decreases budget.depth, 0nat, e, 0nat,
{
    match e {
        ExprView::Literal { .. } => {},
        ExprView::Variable { .. } => {},
        ExprView::Grouping { inner } => {
            lemma_expression_budget(*inner, m, env, budget, more);
        },
        ExprView::Unary { operand, .. } => {
            lemma_expression_budget(*operand, m, env, budget, more);
        },
        ExprView::Binary { lhs, rhs, .. } => {
            lemma_expression_budget(*rhs, m, env, budget, more);
            let (m1, r) = eval_expr(*rhs, m, env, budget);
            if r is Ok {
                lemma_expression_budget(*lhs, m1, env, budget, more);
            }
        },
        ExprView::Logical { lhs, rhs, .. } => {
            lemma_expression_budget(*rhs, m, env, budget, more);
            let (m1, r) = eval_expr(*rhs, m, env, budget);
            if r is Ok {
                lemma_expression_budget(*lhs, m1, env, budget, more);
            }
        },
        ExprView::Assign { value, .. } => {
            lemma_expression_budget(*value, m, env, budget, more);
        },
        ExprView::Call { callee, args } => {
            lemma_expression_budget(*callee, m, env, budget, more);
            let (m1, r) = eval_expr(*callee, m, env, budget);
            match r {
                Ok(Value::Function(f)) => {
                    if f.function.params.len() == args.len() {
                        lemma_arguments_budget(args, Seq::empty(), m1, env, budget, more);
                        let (m2, ra) = eval_args(args, Seq::empty(), m1, env, budget);
                        if let Ok(vals) = ra {
                            lemma_block_budget(
                                f.function.body,
                                with_heap(m2, call_frame(m2.heap, f, vals)),
                                m2.heap.len(),
                                budget.deeper(),
                                more.deeper(),
                            );
                        }
                    }
                },
                Ok(Value::Class(c)) => {
                    if c.params.len() == args.len() {
                        lemma_arguments_budget(args, Seq::empty(), m1, env, budget, more);
                    }
                },
                _ => {},
            }
        },
        ExprView::Get { object, .. } => {
            lemma_expression_budget(*object, m, env, budget, more);
        },
    }
}

/// Arguments that are evaluated within their budget have the same values
/// and effect on any budget that allows as much.
pub proof fn lemma_arguments_budget(
    args: Seq<ExprView>,
    done: Seq<Value>,
    m: Machine,
    env: nat,
    budget: Budget,
    more: Budget,
)
    requires
        covers(more, budget),
        within_budget(eval_args(args, done, m, env, budget)),
    ensures
        eval_args(args, done, m, env, more) == eval_args(args, done, m, env, budget),
    decreases budget.depth, 0nat, args, args.len() - done.len(),
{
    if done.len() < args.len() {
        lemma_expression_budget(args[done.len() as int], m, env, budget, more);
        let (m1, r) = eval_expr(args[done.len() as int], m, env, budget);
        if let Ok(v) = r {
            lemma_arguments_budget(args, done.push(v), m1, env, budget, more);
        }
    }
}

/// A block that runs within its budget runs the same on any budget that allows as much.
pub proof fn lemma_block_budget(stmts: Seq<StmtView>, m: Machine, env: nat, budget: Budget, more: Budget)
    requires
        covers(more, budget),
        within_budget(exec_block(stmts, m, env, budget)),
    ensures
        exec_block(stmts, m, env, more) == exec_block(stmts, m, env, budget),
    decreases budget.depth, 1nat, stmts, stmts.len() + 1,
{
    lemma_sequence_budget(
        stmts,
        0,
        with_heap(m, push_scope(m.heap, Some(env))),
        m.heap.len(),
        budget,
        more,
    );
}

/// Statements that run within their budget run the same on any larger
/// budget.
pub proof fn lemma_sequence_budget(
    stmts: Seq<StmtView>,
    i: nat,
    m: Machine,
    env: nat,
    budget: Budget,
    more: Budget,
)
    requires
        covers(more, budget),
        within_budget(exec_seq(stmts, i, m, env, budget)),
    ensures
        exec_seq(stmts, i, m, env, more) == exec_seq(stmts, i, m, env, budget),
    decreases budget.depth, 1nat, stmts, stmts.len() - i,
{
    if i < stmts.len() {
        lemma_statement_budget(stmts[i as int], m, env, budget, more);
        let (m1, r) = exec_stmt(stmts[i as int], m, env, budget);
        if r == Ok::<Flow, Fault>(Flow::Void) {
            lemma_sequence_budget(stmts, i + 1, m1, env, budget, more);
        }
    }
}

/// A statement that runs within its budget runs the same on any larger
/// budget.
pub proof fn lemma_statement_budget(s: StmtView, m: Machine, env: nat, budget: Budget, more: Budget)
    requires
        covers(more, budget),
        within_budget(exec_stmt(s, m, env, budget)),
    ensures
        exec_stmt(s, m, env, more) == exec_stmt(s, m, env, budget),
    decreases budget.depth, 1nat, s, budget.rounds + 1,
{
    match s {
        StmtView::Expr { expr } => {
            lemma_expression_budget(expr, m, env, budget, more);
        },
        StmtView::Print { expr } => {
            lemma_expression_budget(expr, m, env, budget, more);
        },
        StmtView::VarDecl { init, .. } => {
            if let Some(init) = init {
                lemma_expression_budget(init, m, env, budget, more);
            }
        },
        StmtView::Block { stmts } => {
            lemma_block_budget(stmts, m, env, budget, more);
        },
        StmtView::If { cond, then_branch, else_branch } => {
            lemma_expression_budget(cond, m, env, budget, more);
            let (m1, r) = eval_expr(cond, m, env, budget);
            if let Ok(Value::Boolean(b)) = r {
                if b {
                    lemma_statement_budget(*then_branch, m1, env, budget, more);
                } else if let Some(other) = else_branch {
                    lemma_statement_budget(*other, m1, env, budget, more);
                }
            }
        },
        StmtView::While { .. } => {
            lemma_loop_budget(s, m, env, budget, more, budget.rounds as nat, more.rounds as nat);
        },
        StmtView::For { init, .. } => {
            let scope = m.heap.len();
            let m0 = with_heap(m, push_scope(m.heap, Some(env)));
            match init {
                None => {
                    lemma_loop_budget(
                        s,
                        m0,
                        scope,
                        budget,
                        more,
                        budget.rounds as nat,
                        more.rounds as nat,
                    );
                },
                Some(first) => {
                    lemma_statement_budget(*first, m0, scope, budget, more);
                    let (m1, r) = exec_stmt(*first, m0, scope, budget);
                    if r == Ok::<Flow, Fault>(Flow::Void) {
                        lemma_loop_budget(
                            s,
                            m1,
                            scope,
                            budget,
                            more,
                            budget.rounds as nat,
                            more.rounds as nat,
                        );
                    }
                },
            }
        },
        StmtView::Fun { .. } => {},
        StmtView::Return { expr } => {
            if let Some(expr) = expr {
                lemma_expression_budget(expr, m, env, budget, more);
            }
        },
        StmtView::Class { .. } => {},
    }
}

/// A loop that runs within its budget runs the same on any budget that allows as much.
pub proof fn lemma_loop_budget(
    s: StmtView,
    m: Machine,
    env: nat,
    budget: Budget,
    more: Budget,
    left: nat,
    longer: nat,
)
    requires
        covers(more, budget),
        left <= longer,
        within_budget(exec_loop(s, m, env, budget, left)),
    ensures
        exec_loop(s, m, env, more, longer) == exec_loop(s, m, env, budget, left),
    decreases budget.depth, 1nat, s, left,
{
    match s {
        StmtView::While { cond, body } => {
            lemma_expression_budget(cond, m, env, budget, more);
            let (m1, c) = eval_expr(cond, m, env, budget);
            if c == Ok::<Value, Fault>(Value::Boolean(true)) {
                lemma_statement_budget(*body, m1, env, budget, more);
                let (m2, r) = exec_stmt(*body, m1, env, budget);
                if r == Ok::<Flow, Fault>(Flow::Void) {
                    lemma_loop_budget(
                        s,
                        m2,
                        env,
                        budget,
                        more,
                        (left - 1) as nat,
                        (longer - 1) as nat,
                    );
                }
            }
        },
        StmtView::For { cond, step, body, .. } => {
            let (m1, c) = match cond {
                Some(cond) => eval_expr(cond, m, env, budget),
                None => (m, Ok(Value::Boolean(true))),
            };
            if let Some(cond) = cond {
                lemma_expression_budget(cond, m, env, budget, more);
            }
            if c == Ok::<Value, Fault>(Value::Boolean(true)) {
                let fewer = (left - 1) as nat;
                let round = m1.heap.len();
                let pushed = with_heap(m1, push_scope(m1.heap, Some(env)));
                lemma_statement_budget(*body, pushed, round, budget, more);
                let (m2, r) = exec_stmt(*body, pushed, round, budget);
                if r == Ok::<Flow, Fault>(Flow::Void) {
                    match step {
                        None => {
                            lemma_loop_budget(s, m2, env, budget, more, fewer, (longer - 1) as nat);
                        },
                        Some(step) => {
                            lemma_expression_budget(step, m2, round, budget, more);
                            let (m3, rs) = eval_expr(step, m2, round, budget);
                            if rs is Ok {
                                lemma_loop_budget(
                                    s,
                                    m3,
                                    env,
                                    budget,
                                    more,
                                    fewer,
                                    (longer - 1) as nat,
                                );
                            }
                        },
                    }
                }
            }
        },
        _ => {},
    }
}

/// Evaluation is a function of the program, the state and the budget, and
/// the budget only cuts runs short: a program that runs within its budget
/// ends the same way, with the same output and the same scopes, on any
/// budget that allows as much.
pub proof fn law_enough_budget(stmts: Seq<StmtView>, m: Machine, env: nat, budget: Budget, more: Budget)
    requires
        covers(more, budget),
        within_budget(run_program(stmts, m, env, budget)),
    ensures
        run_program(stmts, m, env, more) == run_program(stmts, m, env, budget),
{
    lemma_sequence_budget(stmts, 0, m, env, budget, more);
}

} // verus!
