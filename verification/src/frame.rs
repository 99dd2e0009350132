//! What an evaluation leaves alone: the scopes that were there before keep
//! their parents and gain no names.

use crate::env::environment::{
    assign, define, lemma_resolve_found, lookup, push_scope, remove, resolve, Heap,
};
use crate::expressions::expression::{ExprView, Value};

use crate::semantics::{
    bind_all, bind_methods, call_frame, eval_args, eval_expr, exec_block, exec_loop, exec_seq,
    exec_stmt, instantiate, with_heap, Budget, Flow, Machine, Fault,
};
use crate::statements::statement::{FunctionView, StmtView};
use vstd::prelude::*;

verus! {

/// `after` has every scope of `before`, with the same parent and no name
/// that it did not have; only the scope `open`, if any, may have gained
/// names.
pub open spec fn grows(before: Heap, after: Heap, open: Option<nat>) -> bool {
    &&& before.len() <= after.len()
    &&& forall|i: int|
        0 <= i < before.len() ==> (#[trigger] after[i]).parent == before[i].parent
    &&& forall|i: int, k: Seq<char>|
        0 <= i < before.len() && open != Some(i as nat) && #[trigger] after[i].vars.contains_key(k)
            ==> before[i].vars.contains_key(k)
}

/// Whether leaving the scope `inner` open says no more, of a heap of `n`
/// scopes, than leaving `outer` open: `inner` is `outer`, or none, or a
/// scope that the heap does not have.
pub open spec fn covered(inner: Option<nat>, outer: Option<nat>, n: nat) -> bool {
    inner == outer || match inner {
        Some(c) => c >= n,
        None => true,
    }
}

/// Growth composes.
pub proof fn lemma_grows_chain(
    h1: Heap,
    h2: Heap,
    h3: Heap,
    first: Option<nat>,
    second: Option<nat>,
    open: Option<nat>,
)
    requires
        grows(h1, h2, first),
        grows(h2, h3, second),
        covered(first, open, h1.len()),
        covered(second, open, h1.len()),
    ensures
        grows(h1, h3, open),
{
    assert forall|i: int| 0 <= i < h1.len() implies (#[trigger] h3[i]).parent == h1[i].parent by {
        assert(h2[i].parent == h1[i].parent);
    }
    assert forall|i: int, k: Seq<char>|
        0 <= i < h1.len() && open != Some(i as nat) && #[trigger] h3[i].vars.contains_key(
            k,
        ) implies h1[i].vars.contains_key(k) by {
        assert(h2[i].vars.contains_key(k));
    }
}

/// Binding parameters changes the scope they are bound in only.
pub proof fn lemma_bind_all_grows(h: Heap, env: nat, names: Seq<Seq<char>>, vals: Seq<Value>, count: nat)
    ensures
        grows(h, bind_all(h, env, names, vals, count), Some(env)),
        bind_all(h, env, names, vals, count).len() == h.len(),
    decreases count,
{
    if !(count == 0 || count > names.len() || count > vals.len()) {
        lemma_bind_all_grows(h, env, names, vals, (count - 1) as nat);
    }
}

/// Binding methods changes the scope they are bound in only.
pub proof fn lemma_bind_methods_grows(
    h: Heap,
    env: nat,
    captured: nat,
    methods: Seq<FunctionView>,
    count: nat,
)
    ensures
        grows(h, bind_methods(h, env, captured, methods, count), Some(env)),
        bind_methods(h, env, captured, methods, count).len() == h.len(),
    decreases count,
{
    if !(count == 0 || count > methods.len()) {
        lemma_bind_methods_grows(h, env, captured, methods, (count - 1) as nat);
    }
}

/// Changing or removing a binding gives no scope a name.
pub proof fn lemma_assign_remove_grow(h: Heap, env: nat, name: Seq<char>, v: Value)
    ensures
        grows(h, remove(h, env, name), None),
        assign(h, env, name, v) matches Some(h2) ==> grows(h, h2, None),
{
    lemma_resolve_found(h, env, name);
}

/// An expression gives no scope that was there a name: whatever it calls
/// declares in scopes of its own.
pub proof fn lemma_expression_frame(e: ExprView, m: Machine, env: nat, budget: Budget)
    ensures
        grows(m.heap, eval_expr(e, m, env, budget).0.heap, None),
    decreases budget.depth, 0nat, e, 0nat,
{
    match e {
        ExprView::Literal { .. } => {},
        ExprView::Variable { .. } => {},
        ExprView::Grouping { inner } => {
            lemma_expression_frame(*inner, m, env, budget);
        },
        ExprView::Unary { operand, .. } => {
            lemma_expression_frame(*operand, m, env, budget);
        },
        ExprView::Binary { lhs, rhs, .. } => {
            lemma_expression_frame(*rhs, m, env, budget);
            let (m1, r) = eval_expr(*rhs, m, env, budget);
            if r is Ok {
                lemma_expression_frame(*lhs, m1, env, budget);
                let m2 = eval_expr(*lhs, m1, env, budget).0;
                lemma_grows_chain(m.heap, m1.heap, m2.heap, None, None, None);
            }
        },
        ExprView::Logical { lhs, rhs, .. } => {
            lemma_expression_frame(*rhs, m, env, budget);
            let (m1, r) = eval_expr(*rhs, m, env, budget);
            if r is Ok {
                lemma_expression_frame(*lhs, m1, env, budget);
                let m2 = eval_expr(*lhs, m1, env, budget).0;
                lemma_grows_chain(m.heap, m1.heap, m2.heap, None, None, None);
            }
        },
        ExprView::Assign { name, value } => {
            lemma_expression_frame(*value, m, env, budget);
            let (m1, r) = eval_expr(*value, m, env, budget);
            if let Ok(v) = r {
                lemma_assign_remove_grow(m1.heap, env, name, v);
                let after = eval_expr(e, m, env, budget).0.heap;
                lemma_grows_chain(m.heap, m1.heap, after, None, None, None);
            }
        },
        ExprView::Call { callee, args } => {
            lemma_expression_frame(*callee, m, env, budget);
            let (m1, r) = eval_expr(*callee, m, env, budget);
            match r {
                Ok(Value::Function(f)) => {
                    if f.function.params.len() == args.len() {
                        lemma_arguments_frame(args, Seq::empty(), m1, env, budget);
                        let (m2, ra) = eval_args(args, Seq::empty(), m1, env, budget);
                        lemma_grows_chain(m.heap, m1.heap, m2.heap, None, None, None);
                        if let Ok(vals) = ra {
                            if budget.depth > 0 {
                                let frame = m2.heap.len();
                                let pushed = push_scope(m2.heap, Some(f.env));
                                let framed = call_frame(m2.heap, f, vals);
                                lemma_bind_all_grows(pushed, frame, f.function.params, vals, vals.len());
                                lemma_grows_chain(m2.heap, pushed, framed, None, Some(frame), None);
                                lemma_block_frame(
                                    f.function.body,
                                    with_heap(m2, framed),
                                    frame,
                                    budget.deeper(),
                                );
                                let m3 = exec_block(
                                    f.function.body,
                                    with_heap(m2, framed),
                                    frame,
                                    budget.deeper(),
                                ).0;
                                lemma_grows_chain(m2.heap, framed, m3.heap, None, None, None);
                                lemma_grows_chain(m.heap, m2.heap, m3.heap, None, None, None);
                            }
                        }
                    }
                },
                Ok(Value::Class(c)) => {
                    if c.params.len() == args.len() {
                        lemma_arguments_frame(args, Seq::empty(), m1, env, budget);
                        let (m2, ra) = eval_args(args, Seq::empty(), m1, env, budget);
                        lemma_grows_chain(m.heap, m1.heap, m2.heap, None, None, None);
                        if let Ok(vals) = ra {
                            lemma_instantiate_grows(m2.heap, c, vals);
                            lemma_grows_chain(
                                m.heap,
                                m2.heap,
                                instantiate(m2.heap, c, vals).0,
                                None,
                                None,
                                None,
                            );
                        }
                    }
                },
                _ => {},
            }
        },
        ExprView::Get { object, .. } => {
            lemma_expression_frame(*object, m, env, budget);
            let m1 = eval_expr(*object, m, env, budget).0;
            let after = eval_expr(e, m, env, budget).0.heap;
            assert(grows(m1.heap, after, None));
            lemma_grows_chain(m.heap, m1.heap, after, None, None, None);
        },
    }
}

/// Making an instance gives no scope that was there a name.
pub proof fn lemma_instantiate_grows(h: Heap, c: crate::program::runtime::ClassView, vals: Seq<Value>)
    ensures
        grows(h, instantiate(h, c, vals).0, None),
{
    let fields = h.len();
    let first = push_scope(h, None);
    let with_fields = bind_all(first, fields, c.params, vals, vals.len());
    lemma_bind_all_grows(first, fields, c.params, vals, vals.len());
    lemma_grows_chain(h, first, with_fields, None, Some(fields), None);
    let methods = with_fields.len();
    let second = push_scope(with_fields, Some(fields));
    let with_methods = bind_methods(second, methods, fields, c.methods, c.methods.len());
    lemma_bind_methods_grows(second, methods, fields, c.methods, c.methods.len());
    lemma_grows_chain(with_fields, second, with_methods, None, Some(methods), None);
    lemma_grows_chain(h, with_fields, with_methods, None, None, None);
}

/// Arguments give no scope that was there a name.
pub proof fn lemma_arguments_frame(args: Seq<ExprView>, done: Seq<Value>, m: Machine, env: nat, budget: Budget)
    ensures
        grows(m.heap, eval_args(args, done, m, env, budget).0.heap, None),
    decreases budget.depth, 0nat, args, args.len() - done.len(),
{
    if done.len() < args.len() {
        lemma_expression_frame(args[done.len() as int], m, env, budget);
        let (m1, r) = eval_expr(args[done.len() as int], m, env, budget);
        if let Ok(v) = r {
            lemma_arguments_frame(args, done.push(v), m1, env, budget);
            lemma_grows_chain(
                m.heap,
                m1.heap,
                eval_args(args, done.push(v), m1, env, budget).0.heap,
                None,
                None,
                None,
            );
        }
    }
}

/// A block gives no scope that was there a name: what it declares, it
/// declares in its own scope.
pub proof fn lemma_block_frame(stmts: Seq<StmtView>, m: Machine, env: nat, budget: Budget)
    ensures
        grows(m.heap, exec_block(stmts, m, env, budget).0.heap, None),
    decreases budget.depth, 1nat, stmts, stmts.len() + 1,
{
    let scope = m.heap.len();
    let pushed = with_heap(m, push_scope(m.heap, Some(env)));
    lemma_sequence_frame(stmts, 0, pushed, scope, budget);
    lemma_grows_chain(
        m.heap,
        pushed.heap,
        exec_seq(stmts, 0, pushed, scope, budget).0.heap,
        None,
        Some(scope),
        None,
    );
}

/// Statements give names to the scope they run in only.
pub proof fn lemma_sequence_frame(stmts: Seq<StmtView>, i: nat, m: Machine, env: nat, budget: Budget)
    ensures
        grows(m.heap, exec_seq(stmts, i, m, env, budget).0.heap, Some(env)),
    decreases budget.depth, 1nat, stmts, stmts.len() - i,
{
    if i < stmts.len() {
        lemma_statement_frame(stmts[i as int], m, env, budget);
        let (m1, r) = exec_stmt(stmts[i as int], m, env, budget);
        if r == Ok::<Flow, Fault>(Flow::Void) {
            lemma_sequence_frame(stmts, i + 1, m1, env, budget);
            lemma_grows_chain(
                m.heap,
                m1.heap,
                exec_seq(stmts, i + 1, m1, env, budget).0.heap,
                Some(env),
                Some(env),
                Some(env),
            );
        }
    }
}

/// A statement gives names to the scope it runs in only.
pub proof fn lemma_statement_frame(s: StmtView, m: Machine, env: nat, budget: Budget)
    ensures
        grows(m.heap, exec_stmt(s, m, env, budget).0.heap, Some(env)),
    decreases budget.depth, 1nat, s, budget.rounds + 1,
{
    match s {
        StmtView::Expr { expr } => {
            lemma_expression_frame(expr, m, env, budget);
        },
        StmtView::Print { expr } => {
            lemma_expression_frame(expr, m, env, budget);
        },
        StmtView::VarDecl { name, init } => {
            if let Some(init) = init {
                lemma_expression_frame(init, m, env, budget);
                let (m1, r) = eval_expr(init, m, env, budget);
                if let Ok(v) = r {
                    lemma_grows_chain(
                        m.heap,
                        m1.heap,
                        define(m1.heap, env, name, v),
                        None,
                        Some(env),
                        Some(env),
                    );
                }
            }
        },
        StmtView::Block { stmts } => {
            lemma_block_frame(stmts, m, env, budget);
        },
        StmtView::If { cond, then_branch, else_branch } => {
            lemma_expression_frame(cond, m, env, budget);
            let (m1, r) = eval_expr(cond, m, env, budget);
            if let Ok(Value::Boolean(b)) = r {
                if b {
                    lemma_statement_frame(*then_branch, m1, env, budget);
                    lemma_grows_chain(
                        m.heap,
                        m1.heap,
                        exec_stmt(*then_branch, m1, env, budget).0.heap,
                        None,
                        Some(env),
                        Some(env),
                    );
                } else if let Some(other) = else_branch {
                    lemma_statement_frame(*other, m1, env, budget);
                    lemma_grows_chain(
                        m.heap,
                        m1.heap,
                        exec_stmt(*other, m1, env, budget).0.heap,
                        None,
                        Some(env),
                        Some(env),
                    );
                }
            }
        },
        StmtView::While { .. } => {
            lemma_loop_frame(s, m, env, budget, budget.rounds as nat);
        },
        StmtView::For { init, .. } => {
            let scope = m.heap.len();
            let m0 = with_heap(m, push_scope(m.heap, Some(env)));
            match init {
                None => {
                    lemma_loop_frame(s, m0, scope, budget, budget.rounds as nat);
                    lemma_grows_chain(
                        m.heap,
                        m0.heap,
                        exec_loop(s, m0, scope, budget, budget.rounds as nat).0.heap,
                        None,
                        Some(scope),
                        Some(env),
                    );
                },
                Some(first) => {
                    lemma_statement_frame(*first, m0, scope, budget);
                    let (m1, r) = exec_stmt(*first, m0, scope, budget);
                    lemma_grows_chain(m.heap, m0.heap, m1.heap, None, Some(scope), Some(env));
                    if r == Ok::<Flow, Fault>(Flow::Void) {
                        lemma_loop_frame(s, m1, scope, budget, budget.rounds as nat);
                        lemma_grows_chain(
                            m0.heap,
                            m1.heap,
                            exec_loop(s, m1, scope, budget, budget.rounds as nat).0.heap,
                            Some(scope),
                            Some(scope),
                            Some(scope),
                        );
                        lemma_grows_chain(
                            m.heap,
                            m0.heap,
                            exec_loop(s, m1, scope, budget, budget.rounds as nat).0.heap,
                            None,
                            Some(scope),
                            Some(env),
                        );
                    }
                },
            }
        },
        StmtView::Fun { .. } => {},
        StmtView::Return { expr } => {
            if let Some(expr) = expr {
                lemma_expression_frame(expr, m, env, budget);
            }
        },
        StmtView::Class { .. } => {},
    }
}

/// The rounds of a loop give names to the scope the loop runs in only.
pub proof fn lemma_loop_frame(s: StmtView, m: Machine, env: nat, budget: Budget, left: nat)
    ensures
        grows(m.heap, exec_loop(s, m, env, budget, left).0.heap, Some(env)),
    decreases budget.depth, 1nat, s, left,
{
    match s {
        StmtView::While { cond, body } => {
            lemma_expression_frame(cond, m, env, budget);
            let (m1, c) = eval_expr(cond, m, env, budget);
            if c == Ok::<Value, Fault>(Value::Boolean(true)) && left > 0 {
                let less = (left - 1) as nat;
                lemma_statement_frame(*body, m1, env, budget);
                let (m2, r) = exec_stmt(*body, m1, env, budget);
                lemma_grows_chain(m.heap, m1.heap, m2.heap, None, Some(env), Some(env));
                if r == Ok::<Flow, Fault>(Flow::Void) {
                    lemma_loop_frame(s, m2, env, budget, less);
                    lemma_grows_chain(
                        m.heap,
                        m2.heap,
                        exec_loop(s, m2, env, budget, less).0.heap,
                        Some(env),
                        Some(env),
                        Some(env),
                    );
                }
            }
        },
        StmtView::For { cond, step, body, .. } => {
            let (m1, c) = match cond {
                Some(cond) => eval_expr(cond, m, env, budget),
                None => (m, Ok(Value::Boolean(true))),
            };
            if let Some(cond) = cond {
                lemma_expression_frame(cond, m, env, budget);
            }
            if c == Ok::<Value, Fault>(Value::Boolean(true)) && left > 0 {
                let less = (left - 1) as nat;
                let round = m1.heap.len();
                let pushed = with_heap(m1, push_scope(m1.heap, Some(env)));
                lemma_statement_frame(*body, pushed, round, budget);
                let (m2, r) = exec_stmt(*body, pushed, round, budget);
                lemma_grows_chain(m1.heap, pushed.heap, m2.heap, None, Some(round), None);
                lemma_grows_chain(m.heap, m1.heap, m2.heap, None, None, Some(env));
                if r == Ok::<Flow, Fault>(Flow::Void) {
                    match step {
                        None => {
                            lemma_loop_frame(s, m2, env, budget, less);
                            lemma_grows_chain(
                                m.heap,
                                m2.heap,
                                exec_loop(s, m2, env, budget, less).0.heap,
                                Some(env),
                                Some(env),
                                Some(env),
                            );
                        },
                        Some(step) => {
                            lemma_expression_frame(step, m2, round, budget);
                            let (m3, rs) = eval_expr(step, m2, round, budget);
                            lemma_grows_chain(m.heap, m2.heap, m3.heap, Some(env), None, Some(env));
                            if rs is Ok {
                                lemma_loop_frame(s, m3, env, budget, less);
                                lemma_grows_chain(
                                    m.heap,
                                    m3.heap,
                                    exec_loop(s, m3, env, budget, less).0.heap,
                                    Some(env),
                                    Some(env),
                                    Some(env),
                                );
                            }
                        },
                    }
                }
            }
        },
        _ => {},
    }
}

/// A name that no scope binds, seen from `env`, stays unbound while the
/// scopes gain no names.
pub proof fn lemma_unbound_stays(before: Heap, after: Heap, env: nat, name: Seq<char>)
    requires
        grows(before, after, None),
        env < before.len(),
        resolve(before, env, name) is None,
    ensures
        resolve(after, env, name) is None,
    decreases env,
{
    assert(after[env as int].parent == before[env as int].parent);
    if let Some(p) = before[env as int].parent {
        if p < env {
            lemma_unbound_stays(before, after, p, name);
        }
    }
}

/// Scopes do not leak: a name that is not visible before a block is not
/// visible after it, whatever the block declared.
pub proof fn law_block_scope(stmts: Seq<StmtView>, m: Machine, env: nat, budget: Budget, name: Seq<char>)
    requires
        env < m.heap.len(),
        lookup(m.heap, env, name) is None,
    ensures
        lookup(exec_stmt(StmtView::Block { stmts }, m, env, budget).0.heap, env, name) is None,
{
    lemma_block_frame(stmts, m, env, budget);
    lemma_unbound_stays(m.heap, exec_block(stmts, m, env, budget).0.heap, env, name);
}

/// Calls do not leak either: a name that is not visible before an expression
/// is evaluated is not visible after, whatever the functions it called
/// declared.
pub proof fn law_expression_scope(e: ExprView, m: Machine, env: nat, budget: Budget, name: Seq<char>)
    requires
        env < m.heap.len(),
        lookup(m.heap, env, name) is None,
    ensures
        lookup(eval_expr(e, m, env, budget).0.heap, env, name) is None,
{
    lemma_expression_frame(e, m, env, budget);
    lemma_unbound_stays(m.heap, eval_expr(e, m, env, budget).0.heap, env, name);
}

} // verus!
