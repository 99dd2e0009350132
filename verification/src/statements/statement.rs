//! The statement tree.

use crate::expressions::expression::{view_names, ExprView, Expression};
use std::rc::Rc;
use vstd::prelude::*;

verus! {

/// A function as it is declared: its name, its parameter names and the
/// statements of its body. Function statements, class methods and function
/// values share one declaration.
#[derive(Debug, PartialEq, Eq)]
pub struct Function {
    pub name: String,
    pub params: Vec<String>,
    pub body: Vec<Statement>,
}

/// A statement, as the parser builds it.
#[derive(Debug, PartialEq, Eq)]
#[allow(inconsistent_fields)]
pub enum Statement {
    /// An expression evaluated for its effect.
    Stmt { expr: Expression },
    /// `print` of an expression.
    PrintStatement { expr: Expression },
    /// `var` with an optional initializer.
    VarDeclaration { identifier: String, expr: Option<Expression> },
    /// A braced run of statements with a scope of its own.
    BlockStatement { statements: Vec<Statement> },
    /// `if` with an optional `else`.
    IfStatement { expr: Expression, body: Box<Statement>, else_body: Option<Box<Statement>> },
    /// `while`.
    WhileStatement { expr: Expression, body: Box<Statement> },
    /// `for` with optional initializer, condition and step.
    ForStatement {
        initiation: Option<Box<Statement>>,
        condition: Option<Expression>,
        increment: Option<Expression>,
        body: Box<Statement>,
    },
    /// `fun`: a named function.
    FunStatement { function: Rc<Function> },
    /// `return` with an optional value.
    ReturnStatement { expr: Option<Expression> },
    /// `class` with its methods.
    ClassDeclaration { identifier: String, functions: Vec<Rc<Function>> },
}

/// The mathematical content of a [`Function`].
pub struct FunctionView {
    pub name: Seq<char>,
    pub params: Seq<Seq<char>>,
    pub body: Seq<StmtView>,
}

/// The mathematical content of a [`Statement`].
#[allow(inconsistent_fields)]
pub enum StmtView {
    Expr { expr: ExprView },
    Print { expr: ExprView },
    VarDecl { name: Seq<char>, init: Option<ExprView> },
    Block { stmts: Seq<StmtView> },
    If { cond: ExprView, then_branch: Box<StmtView>, else_branch: Option<Box<StmtView>> },
    While { cond: ExprView, body: Box<StmtView> },
    For { init: Option<Box<StmtView>>, cond: Option<ExprView>, step: Option<ExprView>, body: Box<StmtView> },
    Fun { function: FunctionView },
    Return { expr: Option<ExprView> },
    Class { name: Seq<char>, methods: Seq<FunctionView> },
}

/// The view of an optional expression.
pub open spec fn view_optional(e: Option<Expression>) -> Option<ExprView> {
    match e {
        Some(e) => Some(e@),
        None => None,
    }
}

/// The view of a function declaration.
pub open spec fn view_function(f: Function) -> FunctionView
    decreases f,
{
    FunctionView {
        name: f.name@,
        params: view_names(f.params@),
        body: Seq::new(
            f.body.len() as nat,
            |i: int|
                if 0 <= i < f.body.len() {
                    view_statement(f.body[i])
                } else {
                    arbitrary()
                },
        ),
    }
}

/// The view of a statement, node by node.
pub open spec fn view_statement(s: Statement) -> StmtView
    decreases s,
{
    match s {
        Statement::Stmt { expr } => StmtView::Expr { expr: expr@ },
        Statement::PrintStatement { expr } => StmtView::Print { expr: expr@ },
        Statement::VarDeclaration { identifier, expr } => StmtView::VarDecl {
            name: identifier@,
            init: view_optional(expr),
        },
        Statement::BlockStatement { statements } => StmtView::Block {
            stmts: Seq::new(
                statements.len() as nat,
                |i: int|
                    if 0 <= i < statements.len() {
                        view_statement(statements[i])
                    } else {
                        arbitrary()
                    },
            ),
        },
        Statement::IfStatement { expr, body, else_body } => StmtView::If {
            cond: expr@,
            then_branch: Box::new(view_statement(*body)),
            else_branch: match else_body {
                Some(b) => Some(Box::new(view_statement(*b))),
                None => None,
            },
        },
        Statement::WhileStatement { expr, body } => StmtView::While {
            cond: expr@,
            body: Box::new(view_statement(*body)),
        },
        Statement::ForStatement { initiation, condition, increment, body } => StmtView::For {
            init: match initiation {
                Some(s) => Some(Box::new(view_statement(*s))),
                None => None,
            },
            cond: view_optional(condition),
            step: view_optional(increment),
            body: Box::new(view_statement(*body)),
        },
        Statement::FunStatement { function } => StmtView::Fun { function: view_function(*function) },
        Statement::ReturnStatement { expr } => StmtView::Return { expr: view_optional(expr) },
        Statement::ClassDeclaration { identifier, functions } => StmtView::Class {
            name: identifier@,
            methods: Seq::new(
                functions.len() as nat,
                |i: int|
                    if 0 <= i < functions.len() {
                        view_function(*functions[i])
                    } else {
                        arbitrary()
                    },
            ),
        },
    }
}

impl View for Function {
    type V = FunctionView;

    open spec fn view(&self) -> FunctionView {
        view_function(*self)
    }
}

impl View for Statement {
    type V = StmtView;

    open spec fn view(&self) -> StmtView {
        view_statement(*self)
    }
}

/// The views of a run of statements.
pub open spec fn view_statements(stmts: Seq<Statement>) -> Seq<StmtView> {
    Seq::new(stmts.len(), |i: int| stmts[i]@)
}

/// The views of a run of function declarations.
pub open spec fn view_functions(fs: Seq<Rc<Function>>) -> Seq<FunctionView> {
    Seq::new(fs.len(), |i: int| (*fs[i])@)
}

/// The view of a block is the block of its statements' views.
pub proof fn lemma_view_block(statements: &Vec<Statement>)
    ensures
        (Statement::BlockStatement { statements: *statements })@ == (StmtView::Block {
            stmts: view_statements(statements@),
        }),
{
    assert((Statement::BlockStatement { statements: *statements })@->Block_stmts
        =~= view_statements(statements@));
}

/// The view of a function declaration, field by field.
pub proof fn lemma_view_function(f: &Function)
    ensures
        f@ == (FunctionView {
            name: f.name@,
            params: view_names(f.params@),
            body: view_statements(f.body@),
        }),
{
    assert(f@.body =~= view_statements(f.body@));
}

/// The view of a class declaration is the class of its methods' views.
pub proof fn lemma_view_class(identifier: &String, functions: &Vec<Rc<Function>>)
    ensures
        (Statement::ClassDeclaration { identifier: *identifier, functions: *functions })@ == (
        StmtView::Class { name: identifier@, methods: view_functions(functions@) }),
{
    assert((Statement::ClassDeclaration {
        identifier: *identifier,
        functions: *functions,
    })@->Class_methods =~= view_functions(functions@));
}

} // verus!
