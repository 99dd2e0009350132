//! The names a class's constructor binds.
//!
//! A class declaration lists methods only. Its constructor binds the free
//! names of those methods: the names a method's body reads or assigns that
//! the method does not itself declare, as a parameter or by `var`, `fun` or
//! `class` anywhere in its body, and that no method of the class is called.
//! They are bound in the order of their first use.

use crate::expressions::expression::{
    lemma_view_call, view_expressions, view_names, ExprView, Expression,
};
use crate::statements::statement::{
    lemma_view_block, lemma_view_function, view_functions, view_statements, Function,
    FunctionView, Statement, StmtView,
};
use std::rc::Rc;
use vstd::prelude::*;

verus! {

/// The names that `e` reads or assigns, in the order they occur.
pub open spec fn names_in_expr(e: ExprView) -> Seq<Seq<char>>
    decreases e, 0nat,
{
    match e {
        ExprView::Literal { .. } => Seq::empty(),
        ExprView::Variable { name } => seq![name],
        ExprView::Grouping { inner } => names_in_expr(*inner),
        ExprView::Unary { operand, .. } => names_in_expr(*operand),
        ExprView::Binary { lhs, rhs, .. } => names_in_expr(*lhs) + names_in_expr(*rhs),
        ExprView::Logical { lhs, rhs, .. } => names_in_expr(*lhs) + names_in_expr(*rhs),
        ExprView::Assign { name, value } => seq![name] + names_in_expr(*value),
        ExprView::Call { callee, args } => names_in_expr(*callee) + names_in_exprs(args, args.len()),
        ExprView::Get { object, .. } => names_in_expr(*object),
    }
}

/// The names that the first `n` of `es` read or assign.
pub open spec fn names_in_exprs(es: Seq<ExprView>, n: nat) -> Seq<Seq<char>>
    decreases es, n,
{
    if n == 0 || n > es.len() {
        Seq::empty()
    } else {
        names_in_exprs(es, (n - 1) as nat) + names_in_expr(es[n - 1])
    }
}

/// The names that an optional expression reads or assigns.
pub open spec fn names_in_optional(e: Option<ExprView>) -> Seq<Seq<char>> {
    match e {
        Some(e) => names_in_expr(e),
        None => Seq::empty(),
    }
}

/// The names that `s` reads or assigns, in the order they occur. The body of
/// a function declared in `s` counts; the methods of a class declared in `s`
/// do not.
pub open spec fn names_in_stmt(s: StmtView) -> Seq<Seq<char>>
    decreases s, 0nat,
{
    match s {
        StmtView::Expr { expr } => names_in_expr(expr),
        StmtView::Print { expr } => names_in_expr(expr),
        StmtView::VarDecl { init, .. } => names_in_optional(init),
        StmtView::Block { stmts } => names_in_stmts(stmts, stmts.len()),
        StmtView::If { cond, then_branch, else_branch } => names_in_expr(cond) + names_in_stmt(
            *then_branch,
        ) + match else_branch {
            Some(other) => names_in_stmt(*other),
            None => Seq::empty(),
        },
        StmtView::While { cond, body } => names_in_expr(cond) + names_in_stmt(*body),
        StmtView::For { init, cond, step, body } => (match init {
            Some(first) => names_in_stmt(*first),
            None => Seq::empty(),
        }) + names_in_optional(cond) + names_in_optional(step) + names_in_stmt(*body),
        StmtView::Fun { function } => names_in_stmts(function.body, function.body.len()),
        StmtView::Return { expr } => names_in_optional(expr),
        StmtView::Class { .. } => Seq::empty(),
    }
}

/// The names that the first `n` of `stmts` read or assign.
pub open spec fn names_in_stmts(stmts: Seq<StmtView>, n: nat) -> Seq<Seq<char>>
    decreases stmts, n,
{
    if n == 0 || n > stmts.len() {
        Seq::empty()
    } else {
        names_in_stmts(stmts, (n - 1) as nat) + names_in_stmt(stmts[n - 1])
    }
}

/// The names that `s` declares, anywhere inside it: variables, functions
/// with their parameters, and classes.
pub open spec fn declared_in_stmt(s: StmtView) -> Seq<Seq<char>>
    decreases s, 0nat,
{
    match s {
        StmtView::VarDecl { name, .. } => seq![name],
        StmtView::Block { stmts } => declared_in_stmts(stmts, stmts.len()),
        StmtView::If { then_branch, else_branch, .. } => declared_in_stmt(*then_branch) + match else_branch {
            Some(other) => declared_in_stmt(*other),
            None => Seq::empty(),
        },
        StmtView::While { body, .. } => declared_in_stmt(*body),
        StmtView::For { init, body, .. } => (match init {
            Some(first) => declared_in_stmt(*first),
            None => Seq::empty(),
        }) + declared_in_stmt(*body),
        StmtView::Fun { function } => seq![function.name] + function.params + declared_in_stmts(
            function.body,
            function.body.len(),
        ),
        StmtView::Class { name, .. } => seq![name],
        _ => Seq::empty(),
    }
}

/// The names that the first `n` of `stmts` declare.
pub open spec fn declared_in_stmts(stmts: Seq<StmtView>, n: nat) -> Seq<Seq<char>>
    decreases stmts, n,
{
    if n == 0 || n > stmts.len() {
        Seq::empty()
    } else {
        declared_in_stmts(stmts, (n - 1) as nat) + declared_in_stmt(stmts[n - 1])
    }
}

/// `acc`, and behind it those of the first `n` of `names` that are neither
/// in `excluded` nor already there, in order.
pub open spec fn add_fresh(
    names: Seq<Seq<char>>,
    n: nat,
    excluded: Seq<Seq<char>>,
    acc: Seq<Seq<char>>,
) -> Seq<Seq<char>>
    decreases n,
{
    if n == 0 || n > names.len() {
        acc
    } else {
        let before = add_fresh(names, (n - 1) as nat, excluded, acc);
        if excluded.contains(names[n - 1]) || before.contains(names[n - 1]) {
            before
        } else {
            before.push(names[n - 1])
        }
    }
}

/// The names of `methods`.
pub open spec fn method_names(methods: Seq<FunctionView>) -> Seq<Seq<char>> {
    Seq::new(methods.len(), |i: int| methods[i].name)
}

/// The names that are not free in the method `f` of a class with the methods
/// `methods`: its parameters, what its body declares, and the methods' names.
pub open spec fn bound_names(f: FunctionView, methods: Seq<FunctionView>) -> Seq<Seq<char>> {
    f.params + declared_in_stmts(f.body, f.body.len()) + method_names(methods)
}

/// The free names of the first `n` of `methods`, in the order of their first
/// use.
pub open spec fn free_names(methods: Seq<FunctionView>, n: nat) -> Seq<Seq<char>>
    decreases n,
{
    if n == 0 || n > methods.len() {
        Seq::empty()
    } else {
        let f = methods[n - 1];
        let used = names_in_stmts(f.body, f.body.len());
        add_fresh(used, used.len(), bound_names(f, methods), free_names(methods, (n - 1) as nat))
    }
}

/// The names that the constructor of a class with the methods `methods`
/// binds to its arguments, in order: the free names of the methods.
pub open spec fn constructor_params(methods: Seq<FunctionView>) -> Seq<Seq<char>> {
    free_names(methods, methods.len())
}

/// Appends to `used` the names that `e` reads or assigns.
#[verifier::loop_isolation(false)]
fn collect_expression(e: &Expression, used: &mut Vec<String>)
    ensures
        view_names(final(used)@) == view_names(old(used)@) + names_in_expr(e@),
    decreases e,
{
    match e {
        Expression::LiteralExpr { .. } => {
            assert(view_names(used@) =~= view_names(old(used)@) + names_in_expr(e@));
        },
        Expression::VariableExpr { value } => {
            used.push(value.clone());
            assert(view_names(used@) =~= view_names(old(used)@) + names_in_expr(e@));
        },
        Expression::GroupingExpr { value } => collect_expression(value, used),
        Expression::UnaryExpr { rhs, .. } => collect_expression(rhs, used),
        Expression::BinaryExpr { rhs, lhs, .. } => {
            collect_expression(lhs, used);
            collect_expression(rhs, used);
            assert(view_names(used@) =~= view_names(old(used)@) + names_in_expr(e@));
        },
        Expression::Logical { rhs, lhs, .. } => {
            collect_expression(lhs, used);
            collect_expression(rhs, used);
            assert(view_names(used@) =~= view_names(old(used)@) + names_in_expr(e@));
        },
        Expression::Assignment { identifier, value } => {
            used.push(identifier.clone());
            collect_expression(value, used);
            assert(view_names(used@) =~= view_names(old(used)@) + names_in_expr(e@));
        },
        Expression::Call { identifier, args } => {
            proof {
                lemma_view_call(identifier, args);
            }
            collect_expression(identifier, used);
            let ghost start = view_names(used@);
            let mut i: usize = 0;
            while i < args.len()
                invariant
                    i <= args.len(),
                    view_names(used@) == start + names_in_exprs(view_expressions(args@), i as nat),
                decreases args.len() - i,
            {
                collect_expression(&args[i], used);
                i += 1;
                assert(view_names(used@) =~= start + names_in_exprs(
                    view_expressions(args@),
                    i as nat,
                ));
            }
            assert(view_names(used@) =~= view_names(old(used)@) + names_in_expr(e@));
        },
        Expression::Get { expr, .. } => collect_expression(expr, used),
    }
}

/// Appends to `used` the names that an optional expression reads or assigns.
fn collect_optional(e: &Option<Expression>, used: &mut Vec<String>)
    ensures
        view_names(final(used)@) == view_names(old(used)@) + names_in_optional(
            match e {
                Some(e) => Some(e@),
                None => None,
            },
        ),
{
    match e {
        Some(e) => collect_expression(e, used),
        None => {
            assert(view_names(used@) =~= view_names(old(used)@) + Seq::empty());
        },
    }
}

/// Appends the names in `more` to `names`.
fn append_names(names: &mut Vec<String>, more: &Vec<String>)
    ensures
        view_names(final(names)@) == view_names(old(names)@) + view_names(more@),
{
    let ghost start = names@;
    let mut i: usize = 0;
    while i < more.len()
        invariant
            i <= more.len(),
            names.len() == start.len() + i,
            forall|j: int| 0 <= j < start.len() ==> names[j] == start[j],
            forall|j: int| 0 <= j < i ==> names[start.len() + j]@ == more[j]@,
        decreases more.len() - i,
    {
        names.push(more[i].clone());
        i += 1;
    }
    assert(view_names(names@) =~= view_names(start) + view_names(more@));
}

/// Appends to `used` the names that the statements `stmts` read or assign,
/// and to `declared` the names they declare.
#[verifier::loop_isolation(false)]
fn collect_statements(stmts: &Vec<Statement>, used: &mut Vec<String>, declared: &mut Vec<String>)
    ensures
        view_names(final(used)@) == view_names(old(used)@) + names_in_stmts(
            view_statements(stmts@),
            stmts.len() as nat,
        ),
        view_names(final(declared)@) == view_names(old(declared)@) + declared_in_stmts(
            view_statements(stmts@),
            stmts.len() as nat,
        ),
    decreases stmts, 1nat,
{
    let mut i: usize = 0;
    assert(view_names(used@) =~= view_names(old(used)@) + Seq::empty());
    assert(view_names(declared@) =~= view_names(old(declared)@) + Seq::empty());
    while i < stmts.len()
        invariant
            i <= stmts.len(),
            view_names(used@) == view_names(old(used)@) + names_in_stmts(
                view_statements(stmts@),
                i as nat,
            ),
            view_names(declared@) == view_names(old(declared)@) + declared_in_stmts(
                view_statements(stmts@),
                i as nat,
            ),
        decreases stmts.len() - i,
    {
        collect_statement(&stmts[i], used, declared);
        i += 1;
        assert(view_names(used@) =~= view_names(old(used)@) + names_in_stmts(
            view_statements(stmts@),
            i as nat,
        ));
        assert(view_names(declared@) =~= view_names(old(declared)@) + declared_in_stmts(
            view_statements(stmts@),
            i as nat,
        ));
    }
}

/// Appends to `used` the names that `s` reads or assigns, and to `declared`
/// the names it declares.
fn collect_statement(s: &Statement, used: &mut Vec<String>, declared: &mut Vec<String>)
    ensures
        view_names(final(used)@) == view_names(old(used)@) + names_in_stmt(s@),
        view_names(final(declared)@) == view_names(old(declared)@) + declared_in_stmt(s@),
    decreases s, 0nat,
{
    match s {
        Statement::Stmt { expr } => {
            collect_expression(expr, used);
        },
        Statement::PrintStatement { expr } => {
            collect_expression(expr, used);
        },
        Statement::VarDeclaration { identifier, expr } => {
            collect_optional(expr, used);
            declared.push(identifier.clone());
        },
        Statement::BlockStatement { statements } => {
            proof {
                lemma_view_block(statements);
            }
            collect_statements(statements, used, declared);
        },
        Statement::IfStatement { expr, body, else_body } => {
            collect_expression(expr, used);
            collect_statement(body, used, declared);
            match else_body {
                Some(other) => {
                    collect_statement(other, used, declared);
                },
                None => {},
            }
        },
        Statement::WhileStatement { expr, body } => {
            collect_expression(expr, used);
            collect_statement(body, used, declared);
        },
        Statement::ForStatement { initiation, condition, increment, body } => {
            match initiation {
                Some(first) => {
                    collect_statement(first, used, declared);
                },
                None => {},
            }
            collect_optional(condition, used);
            collect_optional(increment, used);
            collect_statement(body, used, declared);
        },
        Statement::FunStatement { function } => {
            proof {
                lemma_view_function(function);
            }
            declared.push(function.name.clone());
            append_names(declared, &function.params);
            collect_statements(&function.body, used, declared);
        },
        Statement::ReturnStatement { expr } => {
            collect_optional(expr, used);
        },
        Statement::ClassDeclaration { identifier, .. } => {
            declared.push(identifier.clone());
        },
    }
    assert(view_names(used@) =~= view_names(old(used)@) + names_in_stmt(s@));
    assert(view_names(declared@) =~= view_names(old(declared)@) + declared_in_stmt(s@));
}

/// Whether `name` is among `names`.
fn has_name(names: &Vec<String>, name: &String) -> (found: bool)
    ensures
        found == view_names(names@).contains(name@),
{
    let mut i: usize = 0;
    while i < names.len()
        invariant
            i <= names.len(),
            forall|j: int| 0 <= j < i ==> view_names(names@)[j] != name@,
        decreases names.len() - i,
    {
        if names[i] == *name {
            assert(view_names(names@)[i as int] == name@);
            return true;
        }
        i += 1;
    }
    false
}

/// The names that the constructor of a class with the methods `methods`
/// binds to its arguments, in order.
#[verifier::loop_isolation(false)]
pub fn constructor_names(methods: &Vec<Rc<Function>>) -> (names: Vec<String>)
    ensures
        view_names(names@) == constructor_params(view_functions(methods@)),
{
    let ghost views = view_functions(methods@);
    let mut called: Vec<String> = Vec::new();
    let mut k: usize = 0;
    while k < methods.len()
        invariant
            k <= methods.len(),
            called.len() == k,
            forall|j: int| 0 <= j < k ==> called[j]@ == (*methods[j]).name@,
        decreases methods.len() - k,
    {
        called.push(methods[k].name.clone());
        k += 1;
    }
    assert(view_names(called@) =~= method_names(views)) by {
        assert forall|j: int| 0 <= j < methods.len() implies view_names(called@)[j]
            == #[trigger] method_names(views)[j] by {
            lemma_view_function(&*methods[j]);
        }
    }
    let mut names: Vec<String> = Vec::new();
    assert(view_names(names@) =~= Seq::empty());
    let mut m: usize = 0;
    while m < methods.len()
        invariant
            m <= methods.len(),
            view_names(names@) == free_names(views, m as nat),
        decreases methods.len() - m,
    {
        let function = &methods[m];
        proof {
            lemma_view_function(&**function);
        }
        let mut used: Vec<String> = Vec::new();
        let mut bound: Vec<String> = Vec::new();
        assert(view_names(used@) =~= Seq::empty());
        assert(view_names(bound@) =~= Seq::empty());
        append_names(&mut bound, &function.params);
        collect_statements(&function.body, &mut used, &mut bound);
        append_names(&mut bound, &called);
        assert(view_names(bound@) =~= bound_names(views[m as int], views));
        assert(view_names(used@) =~= names_in_stmts(views[m as int].body, views[m as int].body.len()));
        let ghost start = view_names(names@);
        let mut i: usize = 0;
        while i < used.len()
            invariant
                i <= used.len(),
                view_names(names@) == add_fresh(
                    view_names(used@),
                    i as nat,
                    view_names(bound@),
                    start,
                ),
            decreases used.len() - i,
        {
            if !has_name(&bound, &used[i]) && !has_name(&names, &used[i]) {
                let ghost before = view_names(names@);
                names.push(used[i].clone());
                assert(view_names(names@) =~= before.push(view_names(used@)[i as int]));
            }
            i += 1;
        }
        m += 1;
    }
    names
}

} // verus!
