//! What holds of every program: laws of the semantics, each proved from the
//! definitions in `semantics` and `env::environment`.

use crate::env::environment::{
    assign, define, lemma_resolve_found, lookup, push_scope, remove, resolve, Heap,
};
use crate::expressions::expression::{ExprView, Value};
use crate::program::runtime::{ClassView, MethodView};
use crate::statements::statement::FunctionView;
use crate::semantics::{
    binary, bind_all, bind_methods, call_frame, eval_args, eval_expr, exec_block, exec_loop,
    exec_seq, exec_stmt, instantiate, with_heap, Budget, Fault, Flow, Machine,
};
use crate::statements::statement::StmtView;
use crate::token::TokenType;
use vstd::prelude::*;

verus! {

/// `%` by a positive number gives a number from zero up to, not with, the
/// divisor, whatever the sign of the dividend.
pub proof fn law_remainder_nonnegative(a: isize, b: isize)
    requires
        b > 0,
    ensures
        binary(TokenType::Percent, Value::Number(a), Value::Number(b)) matches Ok(Value::Number(r))
            && 0 <= r < b,
{
}

/// `/` and `%` by zero fail with `DivideByZero`.
pub proof fn law_division_by_zero(a: isize)
    ensures
        binary(TokenType::Slash, Value::Number(a), Value::Number(0)) == Err::<Value, Fault>(
            Fault::DivideByZero,
        ),
        binary(TokenType::Percent, Value::Number(a), Value::Number(0)) == Err::<
            Value,
            Fault,
        >(Fault::DivideByZero),
{
}

/// Which scope binds a name, seen from `env`, depends on the scopes up to
/// `env` only.
pub proof fn lemma_resolve_prefix(h1: Heap, h2: Heap, env: nat, name: Seq<char>)
    requires
        env < h1.len(),
        env < h2.len(),
        forall|i: int| 0 <= i <= env ==> h1[i] == h2[i],
    ensures
        resolve(h1, env, name) == resolve(h2, env, name),
    decreases env,
{
    if !h1[env as int].vars.contains_key(name) {
        if let Some(p) = h1[env as int].parent {
            if p < env {
                lemma_resolve_prefix(h1, h2, p, name);
            }
        }
    }
}

/// Binding names in the scope `env` changes that scope only, and binds in it
/// the first `count` of the names, and no others beside those it had.
pub proof fn lemma_bind_all(h: Heap, env: nat, names: Seq<Seq<char>>, vals: Seq<Value>, count: nat)
    requires
        env < h.len(),
    ensures
        bind_all(h, env, names, vals, count).len() == h.len(),
        forall|i: int| 0 <= i < h.len() && i != env ==> bind_all(h, env, names, vals, count)[i] == h[i],
        bind_all(h, env, names, vals, count)[env as int].parent == h[env as int].parent,
        forall|x: Seq<char>| #[trigger]
            bind_all(h, env, names, vals, count)[env as int].vars.contains_key(x) ==> h[env as int].vars.contains_key(
                x,
            ) || names.contains(x),
    decreases count,
{
    if !(count == 0 || count > names.len() || count > vals.len()) {
        lemma_bind_all(h, env, names, vals, (count - 1) as nat);
        assert(names.contains(names[count - 1]));
    }
}

/// Closures capture their scope by reference: in the scope that a call sets
/// up for the body of `f`, a name that is no parameter of `f` is bound to
/// what it is bound to, at the time of the call, in the scope where `f` was
/// defined.
pub proof fn law_closure_sees_defining_scope(h: Heap, f: MethodView, vals: Seq<Value>, name: Seq<char>)
    requires
        f.env < h.len(),
        !f.function.params.contains(name),
    ensures
        lookup(call_frame(h, f, vals), h.len(), name) == lookup(h, f.env, name),
{
    let pushed = push_scope(h, Some(f.env));
    let framed = call_frame(h, f, vals);
    lemma_bind_all(pushed, h.len(), f.function.params, vals, vals.len());
    assert(!framed[h.len() as int].vars.contains_key(name));
    assert(framed[h.len() as int].parent == Some(f.env));
    assert forall|i: int| 0 <= i <= f.env implies framed[i] == h[i] by {
        assert(framed[i] == pushed[i]);
    }
    lemma_resolve_prefix(framed, h, f.env, name);
    lemma_resolve_found(h, f.env, name);
    if let Some(s) = resolve(h, f.env, name) {
        assert(framed[s as int] == pushed[s as int]);
    }
}

/// What a name is bound to once its nearest binding, seen from `env`, is
/// removed: what the scope around that binding's scope sees.
pub open spec fn uncovered(h: Heap, env: nat, name: Seq<char>) -> Option<Value> {
    match resolve(h, env, name) {
        Some(s) => match h[s as int].parent {
            Some(p) => if p < s {
                lookup(h, p, name)
            } else {
                None
            },
            None => None,
        },
        None => None,
    }
}

/// Removing a name removes its nearest binding: afterwards the name is bound
/// to what lies around that binding's scope, if anything.
pub proof fn lemma_remove_uncovers(h: Heap, env: nat, name: Seq<char>)
    ensures
        lookup(remove(h, env, name), env, name) == uncovered(h, env, name),
    decreases env,
{
    let h2 = remove(h, env, name);
    lemma_resolve_found(h, env, name);
    match resolve(h, env, name) {
        None => {},
        Some(s) => {
            assert(h2.len() == h.len());
            if h[env as int].vars.contains_key(name) {
                assert(s == env);
                assert(!h2[env as int].vars.contains_key(name));
                assert(h2[env as int].parent == h[env as int].parent);
                if let Some(p) = h[env as int].parent {
                    if p < env {
                        assert forall|i: int| 0 <= i <= p implies h2[i] == h[i] by {}
                        lemma_resolve_prefix(h2, h, p, name);
                        lemma_resolve_found(h, p, name);
                    }
                }
            } else {
                let p = h[env as int].parent->0;
                lemma_remove_uncovers(h, p, name);
                assert(remove(h, p, name) == h2);
                assert(h2[env as int] == h[env as int]);
            }
        },
    }
}

/// Assigning nil removes the binding: where the value of an assignment is
/// nil, the result is nil and the target's nearest binding is gone. Where no
/// scope further out binds the same name, the name is then unbound.
pub proof fn law_assign_nil_unbinds(name: Seq<char>, value: ExprView, m: Machine, env: nat, budget: Budget)
    requires
        eval_expr(value, m, env, budget).1 == Ok::<Value, Fault>(Value::Nil),
    ensures
        ({
            let before = eval_expr(value, m, env, budget).0;
            let (after, r) = eval_expr(
                ExprView::Assign { name, value: Box::new(value) },
                m,
                env,
                budget,
            );
            &&& r == Ok::<Value, Fault>(Value::Nil)
            &&& after == with_heap(before, remove(before.heap, env, name))
            &&& lookup(after.heap, env, name) == uncovered(before.heap, env, name)
            &&& uncovered(before.heap, env, name) is None ==> eval_expr(
                ExprView::Variable { name },
                after,
                env,
                budget,
            ).1 == Err::<Value, Fault>(Fault::NameError { name })
        }),
{
    let before = eval_expr(value, m, env, budget).0;
    lemma_remove_uncovers(before.heap, env, name);
}

/// A call with more or fewer arguments than the function has parameters
/// fails with `ArityError`, before any argument is evaluated.
pub proof fn law_arity_mismatch(callee: ExprView, args: Seq<ExprView>, m: Machine, env: nat, budget: Budget)
    requires
        eval_expr(callee, m, env, budget).1 matches Ok(Value::Function(f)) && f.function.params.len()
            != args.len(),
    ensures
        eval_expr(ExprView::Call { callee: Box::new(callee), args }, m, env, budget) == (
            eval_expr(callee, m, env, budget).0,
            Err::<Value, Fault>(
                Fault::ArityError {
                    expected: eval_expr(callee, m, env, budget).1->Ok_0->Function_0.function.params.len(),
                    found: args.len(),
                },
            ),
        ),
{
}

/// A call with as many arguments as the function has parameters, none
/// among them, runs the body: where the arguments have values and the budget
/// allows a call, the call gives what the body returns, or nil, or fails as
/// the body fails.
pub proof fn law_matching_arity_runs_the_body(
    callee: ExprView,
    args: Seq<ExprView>,
    m: Machine,
    env: nat,
    budget: Budget,
)
    requires
        budget.depth > 0,
        eval_expr(callee, m, env, budget).1 matches Ok(Value::Function(f)) && f.function.params.len()
            == args.len(),
        eval_args(args, Seq::empty(), eval_expr(callee, m, env, budget).0, env, budget).1 is Ok,
    ensures
        ({
            let (m1, r) = eval_expr(callee, m, env, budget);
            let f = r->Ok_0->Function_0;
            let (m2, ra) = eval_args(args, Seq::empty(), m1, env, budget);
            let (m3, rb) = exec_block(
                f.function.body,
                with_heap(m2, call_frame(m2.heap, f, ra->Ok_0)),
                m2.heap.len(),
                budget.deeper(),
            );
            eval_expr(ExprView::Call { callee: Box::new(callee), args }, m, env, budget) == (
                m3,
                match rb {
                    Err(e) => Err::<Value, Fault>(e),
                    Ok(Flow::Return(v)) => Ok(v),
                    Ok(Flow::Void) => Ok(Value::Nil),
                },
            )
        }),
{
}

/// A function with an empty body gives nil: a call of it with as many
/// arguments as it has parameters, none among them, gives nil wherever the
/// arguments have values and the budget allows a call at all.
pub proof fn law_empty_body_returns_nil(
    callee: ExprView,
    args: Seq<ExprView>,
    m: Machine,
    env: nat,
    budget: Budget,
)
    requires
        budget.depth > 0,
        eval_expr(callee, m, env, budget).1 matches Ok(Value::Function(f)) && f.function.params.len()
            == args.len() && f.function.body.len() == 0,
        eval_args(args, Seq::empty(), eval_expr(callee, m, env, budget).0, env, budget).1 is Ok,
    ensures
        eval_expr(ExprView::Call { callee: Box::new(callee), args }, m, env, budget).1 == Ok::<
            Value,
            Fault,
        >(Value::Nil),
{
    let (m1, r) = eval_expr(callee, m, env, budget);
    let f = r->Ok_0->Function_0;
    let (m2, ra) = eval_args(args, Seq::empty(), m1, env, budget);
    let framed = with_heap(m2, call_frame(m2.heap, f, ra->Ok_0));
    let inner = with_heap(framed, push_scope(framed.heap, Some(m2.heap.len())));
    assert(exec_seq(f.function.body, 0, inner, framed.heap.len(), budget.deeper()) == (
        inner,
        Ok::<Flow, Fault>(Flow::Void),
    ));
    assert(exec_block(f.function.body, framed, m2.heap.len(), budget.deeper()) == (
        inner,
        Ok::<Flow, Fault>(Flow::Void),
    ));
}

/// The literal `true`.
pub open spec fn true_literal() -> ExprView {
    ExprView::Literal { kind: TokenType::True, text: seq!['t', 'r', 'u', 'e'] }
}

/// `{ body; step; }`: one round of a `for`, as a block.
pub open spec fn lowered_round(body: StmtView, step: Option<ExprView>) -> StmtView {
    StmtView::Block {
        stmts: match step {
            Some(step) => seq![body, StmtView::Expr { expr: step }],
            None => seq![body],
        },
    }
}

/// `while (cond) { body; step; }`, with `true` for an omitted condition.
pub open spec fn lowered_loop(cond: Option<ExprView>, step: Option<ExprView>, body: StmtView) -> StmtView {
    StmtView::While {
        cond: match cond {
            Some(cond) => cond,
            None => true_literal(),
        },
        body: Box::new(lowered_round(body, step)),
    }
}

/// `{ init; while (cond) { body; step; } }`: what a `for` stands for.
pub open spec fn lowered_for(
    init: Option<Box<StmtView>>,
    cond: Option<ExprView>,
    step: Option<ExprView>,
    body: StmtView,
) -> StmtView {
    StmtView::Block {
        stmts: match init {
            Some(first) => seq![*first, lowered_loop(cond, step, body)],
            None => seq![lowered_loop(cond, step, body)],
        },
    }
}

/// The rounds of a `for` are the rounds of the `while` it stands for.
pub proof fn lemma_for_rounds(
    init: Option<Box<StmtView>>,
    cond: Option<ExprView>,
    step: Option<ExprView>,
    body: StmtView,
    m: Machine,
    env: nat,
    budget: Budget,
    left: nat,
)
    ensures
        exec_loop(StmtView::For { init, cond, step, body: Box::new(body) }, m, env, budget, left)
            == exec_loop(lowered_loop(cond, step, body), m, env, budget, left),
    decreases left,
{
    let w = lowered_loop(cond, step, body);
    let round_block = lowered_round(body, step);
    let stmts = round_block->Block_stmts;
    let (m1, c) = match cond {
        Some(cond) => eval_expr(cond, m, env, budget),
        None => (m, Ok(Value::Boolean(true))),
    };
    assert(eval_expr(w->While_cond, m, env, budget) == (m1, c));
    if c == Ok::<Value, Fault>(Value::Boolean(true)) && left > 0 {
        let fewer = (left - 1) as nat;
        let round = m1.heap.len();
        let pushed = with_heap(m1, push_scope(m1.heap, Some(env)));
        let (m2, r) = exec_stmt(body, pushed, round, budget);
        assert(exec_stmt(round_block, m1, env, budget) == exec_block(stmts, m1, env, budget));
        assert(exec_block(stmts, m1, env, budget) == exec_seq(stmts, 0, pushed, round, budget));
        assert(stmts[0] == body);
        if r == Ok::<Flow, Fault>(Flow::Void) {
            assert(exec_seq(stmts, 0, pushed, round, budget) == exec_seq(stmts, 1, m2, round, budget));
            match step {
                None => {
                    assert(exec_seq(stmts, 1, m2, round, budget) == (
                        m2,
                        Ok::<Flow, Fault>(Flow::Void),
                    ));
                    lemma_for_rounds(init, cond, step, body, m2, env, budget, fewer);
                },
                Some(st) => {
                    let (m3, rs) = eval_expr(st, m2, round, budget);
                    assert(stmts[1] == StmtView::Expr { expr: st });
                    assert(exec_stmt(stmts[1], m2, round, budget) == (
                        m3,
                        match rs {
                            Err(e) => Err::<Flow, Fault>(e),
                            Ok(_) => Ok(Flow::Void),
                        },
                    ));
                    if rs is Ok {
                        assert(exec_seq(stmts, 1, m2, round, budget) == exec_seq(
                            stmts,
                            2,
                            m3,
                            round,
                            budget,
                        ));
                        assert(exec_seq(stmts, 2, m3, round, budget) == (
                            m3,
                            Ok::<Flow, Fault>(Flow::Void),
                        ));
                        lemma_for_rounds(init, cond, step, body, m3, env, budget, fewer);
                    } else {
                        assert(exec_seq(stmts, 1, m2, round, budget) == (
                            m3,
                            Err::<Flow, Fault>(rs->Err_0),
                        ));
                    }
                },
            }
        } else {
            assert(exec_seq(stmts, 0, pushed, round, budget) == (m2, r));
        }
    }
}

/// A `for` means `{ init; while (cond) { body; step; } }`, with `true` for
/// an omitted condition: the same result and the same state, on every
/// budget.
pub proof fn law_for_lowering(
    init: Option<Box<StmtView>>,
    cond: Option<ExprView>,
    step: Option<ExprView>,
    body: StmtView,
    m: Machine,
    env: nat,
    budget: Budget,
)
    ensures
        exec_stmt(StmtView::For { init, cond, step, body: Box::new(body) }, m, env, budget)
            == exec_stmt(lowered_for(init, cond, step, body), m, env, budget),
{
    let w = lowered_loop(cond, step, body);
    let block = lowered_for(init, cond, step, body);
    let stmts = block->Block_stmts;
    let scope = m.heap.len();
    let m0 = with_heap(m, push_scope(m.heap, Some(env)));
    assert(exec_stmt(block, m, env, budget) == exec_block(stmts, m, env, budget));
    assert(exec_block(stmts, m, env, budget) == exec_seq(stmts, 0, m0, scope, budget));
    match init {
        None => {
            lemma_for_rounds(init, cond, step, body, m0, scope, budget, budget.rounds as nat);
            let (m1, r) = exec_loop(w, m0, scope, budget, budget.rounds as nat);
            assert(stmts[0] == w);
            assert(exec_stmt(w, m0, scope, budget) == (m1, r));
            if r == Ok::<Flow, Fault>(Flow::Void) {
                assert(exec_seq(stmts, 0, m0, scope, budget) == exec_seq(stmts, 1, m1, scope, budget));
                assert(exec_seq(stmts, 1, m1, scope, budget) == (m1, r));
            }
        },
        Some(first) => {
            let (m1, r) = exec_stmt(*first, m0, scope, budget);
            assert(stmts[0] == *first);
            if r == Ok::<Flow, Fault>(Flow::Void) {
                lemma_for_rounds(init, cond, step, body, m1, scope, budget, budget.rounds as nat);
                let (m2, r2) = exec_loop(w, m1, scope, budget, budget.rounds as nat);
                assert(stmts[1] == w);
                assert(exec_stmt(w, m1, scope, budget) == (m2, r2));
                assert(exec_seq(stmts, 0, m0, scope, budget) == exec_seq(stmts, 1, m1, scope, budget));
                if r2 == Ok::<Flow, Fault>(Flow::Void) {
                    assert(exec_seq(stmts, 1, m1, scope, budget) == exec_seq(
                        stmts,
                        2,
                        m2,
                        scope,
                        budget,
                    ));
                    assert(exec_seq(stmts, 2, m2, scope, budget) == (m2, r2));
                }
            }
        },
    }
}

/// A `for` with no initializer, no condition and no step runs as
/// `while (true)`.
pub proof fn law_bare_for_is_while_true(body: StmtView, m: Machine, env: nat, budget: Budget)
    ensures
        exec_stmt(StmtView::For { init: None, cond: None, step: None, body: Box::new(body) }, m, env, budget)
            == exec_stmt(
            StmtView::Block {
                stmts: seq![
                    StmtView::While {
                        cond: true_literal(),
                        body: Box::new(StmtView::Block { stmts: seq![body] }),
                    },
                ],
            },
            m,
            env,
            budget,
        ),
{
    law_for_lowering(None, None, None, body, m, env, budget);
}

/// A binding is shared storage: an assignment changes the value in the
/// scope that binds the name, so whoever holds that scope sees the new value.
pub proof fn law_assignment_is_seen_through_the_scope(
    h: Heap,
    env: nat,
    name: Seq<char>,
    v: Value,
)
    requires
        resolve(h, env, name) is Some,
    ensures
        assign(h, env, name, v) matches Some(h2) && ({
            let s = resolve(h, env, name)->0;
            &&& h2[s as int].vars[name] == v
            &&& resolve(h2, env, name) == Some(s)
            &&& lookup(h2, env, name) == Some(v)
        }),
{
    let s = resolve(h, env, name)->0;
    lemma_resolve_found(h, env, name);
    let h2 = define(h, s, name, v);
    lemma_resolve_same_names(h, h2, env, name);
}

/// Which scope binds a name depends on the parents and on which scopes have
/// the name, not on the values.
pub proof fn lemma_resolve_same_names(h1: Heap, h2: Heap, env: nat, name: Seq<char>)
    requires
        h1.len() == h2.len(),
        forall|i: int|
            0 <= i < h1.len() ==> (#[trigger] h1[i]).parent == h2[i].parent && h1[i].vars.contains_key(
                name,
            ) == h2[i].vars.contains_key(name),
    ensures
        resolve(h1, env, name) == resolve(h2, env, name),
    decreases env,
{
    if env < h1.len() {
        assert(h1[env as int].parent == h2[env as int].parent);
        if !h1[env as int].vars.contains_key(name) {
            if let Some(p) = h1[env as int].parent {
                if p < env {
                    lemma_resolve_same_names(h1, h2, p, name);
                }
            }
        }
    }
}

/// Shadowing leaves the outer binding alone: a definition in a scope made
/// later changes nothing that an earlier scope sees.
pub proof fn law_shadowing_leaves_the_parent(
    h: Heap,
    outer: nat,
    inner: nat,
    name: Seq<char>,
    v: Value,
    seen: Seq<char>,
)
    requires
        outer < inner < h.len(),
    ensures
        lookup(define(h, inner, name, v), outer, seen) == lookup(h, outer, seen),
        lookup(define(h, inner, name, v), inner, name) == Some(v),
{
    let h2 = define(h, inner, name, v);
    lemma_resolve_prefix(h2, h, outer, seen);
    lemma_resolve_found(h, outer, seen);
}

/// What binding parameters binds: a name that is not among the later ones
/// is bound to the value at its place.
pub proof fn lemma_bind_all_binds(
    h: Heap,
    env: nat,
    names: Seq<Seq<char>>,
    vals: Seq<Value>,
    count: nat,
    i: int,
)
    requires
        env < h.len(),
        0 <= i < count <= names.len(),
        count <= vals.len(),
        forall|j: int| i < j < count ==> names[j] != names[i],
    ensures
        bind_all(h, env, names, vals, count)[env as int].vars.contains_key(names[i]),
        bind_all(h, env, names, vals, count)[env as int].vars[names[i]] == vals[i],
    decreases count,
{
    lemma_bind_all(h, env, names, vals, (count - 1) as nat);
    if i < count - 1 {
        lemma_bind_all_binds(h, env, names, vals, (count - 1) as nat, i);
    }
}

/// Binding methods changes the scope they are bound in only, and binds in
/// it the names of methods, and no others beside those it had.
pub proof fn lemma_bind_methods(h: Heap, env: nat, captured: nat, methods: Seq<FunctionView>, count: nat)
    requires
        env < h.len(),
    ensures
        bind_methods(h, env, captured, methods, count).len() == h.len(),
        forall|i: int|
            0 <= i < h.len() && i != env ==> bind_methods(h, env, captured, methods, count)[i]
                == h[i],
        bind_methods(h, env, captured, methods, count)[env as int].parent == h[env as int].parent,
        forall|x: Seq<char>| #[trigger]
            bind_methods(h, env, captured, methods, count)[env as int].vars.contains_key(x)
                ==> h[env as int].vars.contains_key(x) || exists|j: int|
                0 <= j < methods.len() && methods[j].name == x,
    decreases count,
{
    if !(count == 0 || count > methods.len()) {
        lemma_bind_methods(h, env, captured, methods, (count - 1) as nat);
    }
}

/// An instance sees what its constructor was given: from the instance's
/// scope, a constructor name that is no method's name and does not occur
/// again among the later constructor names is bound to the argument at its
/// place.
pub proof fn law_instance_sees_its_arguments(h: Heap, class: ClassView, vals: Seq<Value>, i: int)
    requires
        0 <= i < class.params.len() == vals.len(),
        forall|j: int| i < j < class.params.len() ==> class.params[j] != class.params[i],
        forall|j: int| 0 <= j < class.methods.len() ==> class.methods[j].name != class.params[i],
    ensures
        instantiate(h, class, vals).1 matches Value::Instance(instance) && lookup(
            instantiate(h, class, vals).0,
            instance.env,
            class.params[i],
        ) == Some(vals[i]),
{
    let name = class.params[i];
    let fields = h.len();
    let pushed = push_scope(h, None);
    let with_fields = bind_all(pushed, fields, class.params, vals, vals.len());
    lemma_bind_all(pushed, fields, class.params, vals, vals.len());
    lemma_bind_all_binds(pushed, fields, class.params, vals, vals.len(), i);
    let methods = with_fields.len();
    let again = push_scope(with_fields, Some(fields));
    let with_methods = bind_methods(again, methods, fields, class.methods, class.methods.len());
    lemma_bind_methods(again, methods, fields, class.methods, class.methods.len());
    assert(!with_methods[methods as int].vars.contains_key(name));
    assert(with_methods[methods as int].parent == Some(fields));
    assert(again[fields as int] == with_fields[fields as int]);
    assert(with_methods[fields as int] == again[fields as int]);
    assert(resolve(with_methods, fields, name) == Some(fields));
    assert(resolve(with_methods, methods, name) == Some(fields));
}

} // verus!
