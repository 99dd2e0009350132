//! The heap stays closed: whatever is evaluated in a closed heap leaves a
//! closed heap, and gives a value that refers to scopes of that heap only.

use crate::env::environment::{
    assign, define, heap_closed, lemma_resolve_found, lookup, push_scope, refs_within, remove,
    resolve, Heap,
};
use crate::expressions::expression::{ExprView, Value};
use crate::names::constructor_params;
use crate::program::runtime::{ClassView, MethodView};
use crate::semantics::{
    bind_all, bind_methods, call_frame, eval_args, eval_expr, exec_block, exec_loop, exec_seq,
    exec_stmt, instantiate, run_program, with_heap, Budget, Flow, Machine, Fault,
};
use crate::statements::statement::{FunctionView, StmtView};
use vstd::prelude::*;

verus! {

/// Whether every value of `vals` refers to scopes among the first `n` only.
pub open spec fn all_within(vals: Seq<Value>, n: nat) -> bool {
    forall|j: int| 0 <= j < vals.len() ==> refs_within(#[trigger] vals[j], n)
}

/// Whether `after` is a closed heap with at least the scopes of `before`.
pub open spec fn closed_from(before: Heap, after: Heap) -> bool {
    heap_closed(after) && before.len() <= after.len()
}

/// Whether a statement's result refers to scopes among the first `n` only.
pub open spec fn flow_within(r: Result<Flow, Fault>, n: nat) -> bool {
    r matches Ok(Flow::Return(v)) ==> refs_within(v, n)
}

/// A new scope inside a scope of a closed heap leaves the heap closed.
pub proof fn lemma_push_closed(h: Heap, parent: Option<nat>)
    requires
        heap_closed(h),
        parent matches Some(p) ==> p < h.len(),
    ensures
        heap_closed(push_scope(h, parent)),
{
    let h2 = push_scope(h, parent);
    assert forall|i: int| 0 <= i < h2.len() implies {
        &&& (#[trigger] h2[i]).parent matches Some(p) ==> p < i
        &&& forall|k: Seq<char>|
            h2[i].vars.contains_key(k) ==> refs_within(#[trigger] h2[i].vars[k], h2.len())
    } by {
        if i < h.len() {
            assert(h2[i] == h[i]);
            assert forall|k: Seq<char>| h2[i].vars.contains_key(k) implies refs_within(
                #[trigger] h2[i].vars[k],
                h2.len(),
            ) by {
                assert(refs_within(h[i].vars[k], h.len()));
            }
        }
    }
}

/// Binding a value of a closed heap in one of its scopes leaves the heap
/// closed.
pub proof fn lemma_define_closed(h: Heap, env: nat, name: Seq<char>, v: Value)
    requires
        heap_closed(h),
        refs_within(v, h.len()),
    ensures
        heap_closed(define(h, env, name, v)),
        define(h, env, name, v).len() == h.len(),
{
    let h2 = define(h, env, name, v);
    assert forall|i: int| 0 <= i < h2.len() implies {
        &&& (#[trigger] h2[i]).parent matches Some(p) ==> p < i
        &&& forall|k: Seq<char>|
            h2[i].vars.contains_key(k) ==> refs_within(#[trigger] h2[i].vars[k], h2.len())
    } by {
        assert(h2[i].parent == h[i].parent);
        assert forall|k: Seq<char>| h2[i].vars.contains_key(k) implies refs_within(
            #[trigger] h2[i].vars[k],
            h2.len(),
        ) by {
            if !(i == env && k == name) {
                assert(refs_within(h[i].vars[k], h.len()));
            }
        }
    }
}

/// Changing or removing a binding leaves a closed heap closed.
pub proof fn lemma_assign_remove_closed(h: Heap, env: nat, name: Seq<char>, v: Value)
    requires
        heap_closed(h),
        refs_within(v, h.len()),
    ensures
        heap_closed(remove(h, env, name)),
        remove(h, env, name).len() == h.len(),
        assign(h, env, name, v) matches Some(h2) ==> heap_closed(h2) && h2.len() == h.len(),
{
    lemma_resolve_found(h, env, name);
    if let Some(s) = resolve(h, env, name) {
        lemma_define_closed(h, s, name, v);
        let h2 = remove(h, env, name);
        assert forall|i: int| 0 <= i < h2.len() implies {
            &&& (#[trigger] h2[i]).parent matches Some(p) ==> p < i
            &&& forall|k: Seq<char>|
                h2[i].vars.contains_key(k) ==> refs_within(#[trigger] h2[i].vars[k], h2.len())
        } by {
            assert(h2[i].parent == h[i].parent);
            assert forall|k: Seq<char>| h2[i].vars.contains_key(k) implies refs_within(
                #[trigger] h2[i].vars[k],
                h2.len(),
            ) by {
                assert(refs_within(h[i].vars[k], h.len()));
            }
        }
    }
}

/// What a closed heap binds a name to refers to scopes of the heap.
pub proof fn lemma_lookup_within(h: Heap, env: nat, name: Seq<char>)
    requires
        heap_closed(h),
    ensures
        lookup(h, env, name) matches Some(v) ==> refs_within(v, h.len()),
{
    lemma_resolve_found(h, env, name);
}

/// Binding parameters to values of a closed heap leaves the heap closed.
pub proof fn lemma_bind_all_closed(h: Heap, env: nat, names: Seq<Seq<char>>, vals: Seq<Value>, count: nat)
    requires
        heap_closed(h),
        all_within(vals, h.len()),
    ensures
        heap_closed(bind_all(h, env, names, vals, count)),
        bind_all(h, env, names, vals, count).len() == h.len(),
    decreases count,
{
    if !(count == 0 || count > names.len() || count > vals.len()) {
        lemma_bind_all_closed(h, env, names, vals, (count - 1) as nat);
        lemma_define_closed(
            bind_all(h, env, names, vals, (count - 1) as nat),
            env,
            names[count - 1],
            vals[count - 1],
        );
    }
}

/// Binding methods closed over a scope of a closed heap leaves the heap
/// closed.
pub proof fn lemma_bind_methods_closed(
    h: Heap,
    env: nat,
    captured: nat,
    methods: Seq<FunctionView>,
    count: nat,
)
    requires
        heap_closed(h),
        captured < h.len(),
    ensures
        heap_closed(bind_methods(h, env, captured, methods, count)),
        bind_methods(h, env, captured, methods, count).len() == h.len(),
    decreases count,
{
    if !(count == 0 || count > methods.len()) {
        lemma_bind_methods_closed(h, env, captured, methods, (count - 1) as nat);
        lemma_define_closed(
            bind_methods(h, env, captured, methods, (count - 1) as nat),
            env,
            methods[count - 1].name,
            Value::Function(
                MethodView { function: methods[count - 1], env: captured },
            ),
        );
    }
}

/// Values of a heap are values of every longer heap.
pub proof fn lemma_all_within_longer(vals: Seq<Value>, n: nat, longer: nat)
    requires
        all_within(vals, n),
        n <= longer,
    ensures
        all_within(vals, longer),
{
    assert forall|j: int| 0 <= j < vals.len() implies refs_within(#[trigger] vals[j], longer) by {
        assert(refs_within(vals[j], n));
    }
}

/// Making an instance in a closed heap leaves the heap closed, and the
/// instance refers to a scope of it.
pub proof fn lemma_instantiate_closed(h: Heap, c: ClassView, vals: Seq<Value>)
    requires
        heap_closed(h),
        all_within(vals, h.len()),
    ensures
        closed_from(h, instantiate(h, c, vals).0),
        refs_within(instantiate(h, c, vals).1, instantiate(h, c, vals).0.len()),
{
    let fields = h.len();
    let pushed = push_scope(h, None);
    lemma_push_closed(h, None);
    lemma_all_within_longer(vals, h.len(), pushed.len());
    lemma_bind_all_closed(pushed, fields, c.params, vals, vals.len());
    let with_fields = bind_all(pushed, fields, c.params, vals, vals.len());
    lemma_push_closed(with_fields, Some(fields));
    let again = push_scope(with_fields, Some(fields));
    lemma_bind_methods_closed(again, with_fields.len(), fields, c.methods, c.methods.len());
}

/// An expression evaluated in a closed heap leaves a closed heap, and its
/// value refers to scopes of that heap.
pub proof fn lemma_expression_closed(e: ExprView, m: Machine, env: nat, budget: Budget)
    requires
        heap_closed(m.heap),
        env < m.heap.len(),
    ensures
        closed_from(m.heap, eval_expr(e, m, env, budget).0.heap),
        eval_expr(e, m, env, budget).1 matches Ok(v) ==> refs_within(
            v,
            eval_expr(e, m, env, budget).0.heap.len(),
        ),
    decreases budget.depth, 0nat, e, 0nat,
{
    match e {
        ExprView::Literal { .. } => {},
        ExprView::Variable { name } => {
            lemma_lookup_within(m.heap, env, name);
        },
        ExprView::Grouping { inner } => {
            lemma_expression_closed(*inner, m, env, budget);
        },
        ExprView::Unary { operand, .. } => {
            lemma_expression_closed(*operand, m, env, budget);
        },
        ExprView::Binary { lhs, rhs, .. } => {
            lemma_expression_closed(*rhs, m, env, budget);
            let (m1, r) = eval_expr(*rhs, m, env, budget);
            if r is Ok {
                lemma_expression_closed(*lhs, m1, env, budget);
            }
        },
        ExprView::Logical { lhs, rhs, .. } => {
            lemma_expression_closed(*rhs, m, env, budget);
            let (m1, r) = eval_expr(*rhs, m, env, budget);
            if r is Ok {
                lemma_expression_closed(*lhs, m1, env, budget);
            }
        },
        ExprView::Assign { name, value } => {
            lemma_expression_closed(*value, m, env, budget);
            let (m1, r) = eval_expr(*value, m, env, budget);
            if let Ok(v) = r {
                lemma_assign_remove_closed(m1.heap, env, name, v);
            }
        },
        ExprView::Call { callee, args } => {
            lemma_expression_closed(*callee, m, env, budget);
            let (m1, r) = eval_expr(*callee, m, env, budget);
            match r {
                Ok(Value::Function(f)) => {
                    if f.function.params.len() == args.len() {
                        lemma_arguments_closed(args, Seq::empty(), m1, env, budget);
                        let (m2, ra) = eval_args(args, Seq::empty(), m1, env, budget);
                        if let Ok(vals) = ra {
                            if budget.depth > 0 {
                                let frame = m2.heap.len();
                                let pushed = push_scope(m2.heap, Some(f.env));
                                lemma_push_closed(m2.heap, Some(f.env));
                                lemma_all_within_longer(vals, m2.heap.len(), pushed.len());
                                lemma_bind_all_closed(
                                    pushed,
                                    frame,
                                    f.function.params,
                                    vals,
                                    vals.len(),
                                );
                                lemma_block_closed(
                                    f.function.body,
                                    with_heap(m2, call_frame(m2.heap, f, vals)),
                                    frame,
                                    budget.deeper(),
                                );
                            }
                        }
                    }
                },
                Ok(Value::Class(c)) => {
                    if c.params.len() == args.len() {
                        lemma_arguments_closed(args, Seq::empty(), m1, env, budget);
                        let (m2, ra) = eval_args(args, Seq::empty(), m1, env, budget);
                        if let Ok(vals) = ra {
                            lemma_instantiate_closed(m2.heap, c, vals);
                        }
                    }
                },
                _ => {},
            }
        },
        ExprView::Get { object, name } => {
            lemma_expression_closed(*object, m, env, budget);
            let (m1, r) = eval_expr(*object, m, env, budget);
            if let Ok(Value::Instance(i)) = r {
                lemma_lookup_within(m1.heap, i.env, name);
                lemma_push_closed(m1.heap, Some(i.env));
            }
        },
    }
}

/// Arguments evaluated in a closed heap leave a closed heap, and their
/// values refer to scopes of that heap.
pub proof fn lemma_arguments_closed(
    args: Seq<ExprView>,
    done: Seq<Value>,
    m: Machine,
    env: nat,
    budget: Budget,
)
    requires
        heap_closed(m.heap),
        env < m.heap.len(),
        all_within(done, m.heap.len()),
    ensures
        closed_from(m.heap, eval_args(args, done, m, env, budget).0.heap),
        eval_args(args, done, m, env, budget).1 matches Ok(vals) ==> all_within(
            vals,
            eval_args(args, done, m, env, budget).0.heap.len(),
        ),
    decreases budget.depth, 0nat, args, args.len() - done.len(),
{
    if done.len() < args.len() {
        lemma_expression_closed(args[done.len() as int], m, env, budget);
        let (m1, r) = eval_expr(args[done.len() as int], m, env, budget);
        if let Ok(v) = r {
            lemma_all_within_longer(done, m.heap.len(), m1.heap.len());
            assert(all_within(done.push(v), m1.heap.len())) by {
                assert forall|j: int| 0 <= j < done.push(v).len() implies refs_within(
                    #[trigger] done.push(v)[j],
                    m1.heap.len(),
                ) by {
                    if j < done.len() {
                        assert(refs_within(done[j], m1.heap.len()));
                    }
                }
            }
            lemma_arguments_closed(args, done.push(v), m1, env, budget);
        }
    }
}

/// A block run in a closed heap leaves a closed heap.
pub proof fn lemma_block_closed(stmts: Seq<StmtView>, m: Machine, env: nat, budget: Budget)
    requires
        heap_closed(m.heap),
        env < m.heap.len(),
    ensures
        closed_from(m.heap, exec_block(stmts, m, env, budget).0.heap),
        flow_within(exec_block(stmts, m, env, budget).1, exec_block(stmts, m, env, budget).0.heap.len()),
    decreases budget.depth, 1nat, stmts, stmts.len() + 1,
{
    lemma_push_closed(m.heap, Some(env));
    lemma_sequence_closed(
        stmts,
        0,
        with_heap(m, push_scope(m.heap, Some(env))),
        m.heap.len(),
        budget,
    );
}

/// Statements run in a closed heap leave a closed heap.
pub proof fn lemma_sequence_closed(stmts: Seq<StmtView>, i: nat, m: Machine, env: nat, budget: Budget)
    requires
        heap_closed(m.heap),
        env < m.heap.len(),
    ensures
        closed_from(m.heap, exec_seq(stmts, i, m, env, budget).0.heap),
        flow_within(exec_seq(stmts, i, m, env, budget).1, exec_seq(stmts, i, m, env, budget).0.heap.len()),
    decreases budget.depth, 1nat, stmts, stmts.len() - i,
{
    if i < stmts.len() {
        lemma_statement_closed(stmts[i as int], m, env, budget);
        let (m1, r) = exec_stmt(stmts[i as int], m, env, budget);
        if r == Ok::<Flow, Fault>(Flow::Void) {
            lemma_sequence_closed(stmts, i + 1, m1, env, budget);
        }
    }
}

/// A statement run in a closed heap leaves a closed heap.
pub proof fn lemma_statement_closed(s: StmtView, m: Machine, env: nat, budget: Budget)
    requires
        heap_closed(m.heap),
        env < m.heap.len(),
    ensures
        closed_from(m.heap, exec_stmt(s, m, env, budget).0.heap),
        flow_within(exec_stmt(s, m, env, budget).1, exec_stmt(s, m, env, budget).0.heap.len()),
    decreases budget.depth, 1nat, s, budget.rounds + 1,
{
    match s {
        StmtView::Expr { expr } => {
            lemma_expression_closed(expr, m, env, budget);
        },
        StmtView::Print { expr } => {
            lemma_expression_closed(expr, m, env, budget);
        },
        StmtView::VarDecl { name, init } => {
            match init {
                None => {
                    lemma_define_closed(m.heap, env, name, Value::Nil);
                },
                Some(init) => {
                    lemma_expression_closed(init, m, env, budget);
                    let (m1, r) = eval_expr(init, m, env, budget);
                    if let Ok(v) = r {
                        lemma_define_closed(m1.heap, env, name, v);
                    }
                },
            }
        },
        StmtView::Block { stmts } => {
            lemma_block_closed(stmts, m, env, budget);
        },
        StmtView::If { cond, then_branch, else_branch } => {
            lemma_expression_closed(cond, m, env, budget);
            let (m1, r) = eval_expr(cond, m, env, budget);
            if let Ok(Value::Boolean(go)) = r {
                if go {
                    lemma_statement_closed(*then_branch, m1, env, budget);
                } else if let Some(other) = else_branch {
                    lemma_statement_closed(*other, m1, env, budget);
                }
            }
        },
        StmtView::While { .. } => {
            lemma_loop_closed(s, m, env, budget, budget.rounds as nat);
        },
        StmtView::For { init, .. } => {
            let scope = m.heap.len();
            let m0 = with_heap(m, push_scope(m.heap, Some(env)));
            lemma_push_closed(m.heap, Some(env));
            match init {
                None => {
                    lemma_loop_closed(s, m0, scope, budget, budget.rounds as nat);
                },
                Some(first) => {
                    lemma_statement_closed(*first, m0, scope, budget);
                    let (m1, r) = exec_stmt(*first, m0, scope, budget);
                    if r == Ok::<Flow, Fault>(Flow::Void) {
                        lemma_loop_closed(s, m1, scope, budget, budget.rounds as nat);
                    }
                },
            }
        },
        StmtView::Fun { function } => {
            lemma_define_closed(
                m.heap,
                env,
                function.name,
                Value::Function(MethodView { function, env }),
            );
        },
        StmtView::Return { expr } => {
            if let Some(expr) = expr {
                lemma_expression_closed(expr, m, env, budget);
            }
        },
        StmtView::Class { name, methods } => {
            lemma_define_closed(
                m.heap,
                env,
                name,
                Value::Class(
                    ClassView {
                        name,
                        params: constructor_params(methods),
                        methods,
                    },
                ),
            );
        },
    }
}

/// The rounds of a loop run in a closed heap leave a closed heap.
pub proof fn lemma_loop_closed(s: StmtView, m: Machine, env: nat, budget: Budget, left: nat)
    requires
        heap_closed(m.heap),
        env < m.heap.len(),
    ensures
        closed_from(m.heap, exec_loop(s, m, env, budget, left).0.heap),
        flow_within(
            exec_loop(s, m, env, budget, left).1,
            exec_loop(s, m, env, budget, left).0.heap.len(),
        ),
    decreases budget.depth, 1nat, s, left,
{
    match s {
        StmtView::While { cond, body } => {
            lemma_expression_closed(cond, m, env, budget);
            let (m1, c) = eval_expr(cond, m, env, budget);
            if c == Ok::<Value, Fault>(Value::Boolean(true)) && left > 0 {
                lemma_statement_closed(*body, m1, env, budget);
                let (m2, r) = exec_stmt(*body, m1, env, budget);
                if r == Ok::<Flow, Fault>(Flow::Void) {
                    lemma_loop_closed(s, m2, env, budget, (left - 1) as nat);
                }
            }
        },
        StmtView::For { cond, step, body, .. } => {
            let (m1, c) = match cond {
                Some(cond) => eval_expr(cond, m, env, budget),
                None => (m, Ok(Value::Boolean(true))),
            };
            if let Some(cond) = cond {
                lemma_expression_closed(cond, m, env, budget);
            }
            if c == Ok::<Value, Fault>(Value::Boolean(true)) && left > 0 {
                let round = m1.heap.len();
                let pushed = with_heap(m1, push_scope(m1.heap, Some(env)));
                lemma_push_closed(m1.heap, Some(env));
                lemma_statement_closed(*body, pushed, round, budget);
                let (m2, r) = exec_stmt(*body, pushed, round, budget);
                if r == Ok::<Flow, Fault>(Flow::Void) {
                    match step {
                        None => {
                            lemma_loop_closed(s, m2, env, budget, (left - 1) as nat);
                        },
                        Some(step) => {
                            lemma_expression_closed(step, m2, round, budget);
                            let (m3, rs) = eval_expr(step, m2, round, budget);
                            if rs is Ok {
                                lemma_loop_closed(s, m3, env, budget, (left - 1) as nat);
                            }
                        },
                    }
                }
            }
        },
        _ => {},
    }
}

/// The heap stays closed: a program run in a closed heap leaves a closed
/// heap with no scope fewer, and what it returns refers to scopes of that
/// heap.
pub proof fn law_heap_stays_closed(stmts: Seq<StmtView>, m: Machine, env: nat, budget: Budget)
    requires
        heap_closed(m.heap),
        env < m.heap.len(),
    ensures
        closed_from(m.heap, run_program(stmts, m, env, budget).0.heap),
        flow_within(
            run_program(stmts, m, env, budget).1,
            run_program(stmts, m, env, budget).0.heap.len(),
        ),
{
    lemma_sequence_closed(stmts, 0, m, env, budget);
}

} // verus!
