//! What a program means: evaluation as a function of the tree, the machine
//! state, the scope and a budget.
//!
//! The state is a heap of scopes and the text printed so far. Evaluation is
//! total: a budget says how deep calls may nest and how many rounds one loop
//! may run, and a run that needs more ends in `DepthLimit` or `RoundLimit`.
//! A call runs the function's body on a depth one smaller; every loop has
//! the full number of rounds. Operands are evaluated right to left,
//! arguments left to right, and both operands of `and` and `or` are always
//! evaluated.

use crate::env::environment::{assign, define, lookup, push_scope, remove, Heap};
use crate::expressions::expression::{print_value, ExprResType, ExprView, Value};
use crate::names::constructor_params;
use crate::numeral::parse_number;
use crate::program::runtime::{ClassView, InstanceView, MethodView};
use crate::statements::statement::{FunctionView, StmtView};
use crate::token::TokenType;
use vstd::prelude::*;

verus! {

/// The ways an evaluation fails.
#[derive(Debug, PartialEq, Eq)]
#[allow(inconsistent_fields)]
pub enum RuntimeError {
    /// An operator or a condition met a value of a kind it has no meaning
    /// for: the kind it met.
    TypeError { found: ExprResType },
    /// A name or a property that nothing binds.
    NameError { name: String },
    /// A call with more or fewer arguments than parameters.
    ArityError { expected: usize, found: usize },
    /// `/` or `%` by zero.
    DivideByZero,
    /// A call of a value that is neither a function nor a class: its kind.
    CallTargetError { found: ExprResType },
    /// A literal that does not write a value of its kind.
    BadLiteral { kind: TokenType },
    /// Calls nested deeper than the budget allows.
    DepthLimit,
    /// A loop ran more rounds than the budget allows.
    RoundLimit,
}

/// The mathematical content of a [`RuntimeError`].
#[allow(inconsistent_fields)]
pub enum Fault {
    TypeError { found: ExprResType },
    NameError { name: Seq<char> },
    ArityError { expected: nat, found: nat },
    DivideByZero,
    CallTargetError { found: ExprResType },
    BadLiteral { kind: TokenType },
    DepthLimit,
    RoundLimit,
}

impl View for RuntimeError {
    type V = Fault;

    open spec fn view(&self) -> Fault {
        match self {
            RuntimeError::TypeError { found } => Fault::TypeError { found: *found },
            RuntimeError::NameError { name } => Fault::NameError { name: name@ },
            RuntimeError::ArityError { expected, found } => Fault::ArityError {
                expected: *expected as nat,
                found: *found as nat,
            },
            RuntimeError::DivideByZero => Fault::DivideByZero,
            RuntimeError::CallTargetError { found } => Fault::CallTargetError { found: *found },
            RuntimeError::BadLiteral { kind } => Fault::BadLiteral { kind: *kind },
            RuntimeError::DepthLimit => Fault::DepthLimit,
            RuntimeError::RoundLimit => Fault::RoundLimit,
        }
    }
}

/// The kind that an arithmetic, comparison or equality operator on `l` and
/// `r` could not take: that of `l`, unless `l` is a number or a string.
pub open spec fn binary_misfit(l: Value, r: Value) -> ExprResType {
    if l is Number || l is Str {
        r.kind()
    } else {
        l.kind()
    }
}

/// The kind that `and` or `or` on `l` and `r` could not take: that of `l`,
/// unless `l` is a boolean.
pub open spec fn logical_misfit(l: Value, r: Value) -> ExprResType {
    if l is Boolean {
        r.kind()
    } else {
        l.kind()
    }
}

/// How far an evaluation may go: how deep calls may nest, and how many
/// rounds one loop may run.
#[derive(Clone, Copy, Debug, PartialEq, Eq, Structural)]
pub struct Budget {
    pub depth: usize,
    pub rounds: usize,
}

impl Budget {
    /// The budget inside a call: one level of depth less.
    pub open spec fn deeper(self) -> Budget {
        Budget { depth: (self.depth - 1) as usize, rounds: self.rounds }
    }
}

/// The machine state: the heap of scopes and the text printed so far.
pub struct Machine {
    pub heap: Heap,
    pub out: Seq<char>,
}

/// How a statement ends: normally, or returning a value to the nearest call.
pub enum Flow {
    Void,
    Return(Value),
}

/// The state after an evaluation, and its result.
pub type Evaluated<T> = (Machine, Result<T, Fault>);

/// The quotient of `a` by `b`, rounded towards zero, for `b` other than
/// zero. The one quotient that does not fit wraps round.
pub open spec fn quotient(a: isize, b: isize) -> isize {
    let x = a as int;
    let d = b as int;
    if a == isize::MIN && b == -1 {
        isize::MIN
    } else if x == 0 {
        0
    } else if x > 0 && d > 0 {
        (x / d) as isize
    } else if x < 0 && d < 0 {
        ((-x) / (-d)) as isize
    } else if x < 0 {
        (-((-x) / d)) as isize
    } else {
        (-(x / (-d))) as isize
    }
}

/// The value of a literal of the kind `kind` written `text`.
pub open spec fn literal(kind: TokenType, text: Seq<char>) -> Result<Value, Fault> {
    match kind {
        TokenType::String => Ok(Value::Str(text)),
        TokenType::Number => match parse_number(text) {
            Some(n) => Ok(Value::Number(n)),
            None => Err(Fault::BadLiteral { kind }),
        },
        TokenType::True => Ok(Value::Boolean(true)),
        TokenType::False => Ok(Value::Boolean(false)),
        TokenType::Nil => Ok(Value::Nil),
        _ => Err(Fault::BadLiteral { kind }),
    }
}

/// `-` on a number, `!` on a boolean.
pub open spec fn unary(op: TokenType, v: Value) -> Result<Value, Fault> {
    match (v, op) {
        (Value::Number(n), TokenType::Minus) => Ok(Value::Number((0 as isize).wrapping_sub(n))),
        (Value::Boolean(b), TokenType::Bang) => Ok(Value::Boolean(!b)),
        _ => Err(Fault::TypeError { found: v.kind() }),
    }
}

/// An arithmetic, comparison or equality operator on two numbers or two
/// strings. Arithmetic wraps round; `%` is the remainder that is never
/// negative.
pub open spec fn binary(op: TokenType, l: Value, r: Value) -> Result<Value, Fault> {
    match (l, r) {
        (Value::Number(a), Value::Number(b)) => match op {
            TokenType::Plus => Ok(Value::Number(a.wrapping_add(b))),
            TokenType::Minus => Ok(Value::Number(a.wrapping_sub(b))),
            TokenType::Star => Ok(Value::Number(a.wrapping_mul(b))),
            TokenType::Slash => if b == 0 {
                Err(Fault::DivideByZero)
            } else {
                Ok(Value::Number(quotient(a, b)))
            },
            TokenType::Percent => if b == 0 {
                Err(Fault::DivideByZero)
            } else {
                Ok(Value::Number((a as int % b as int) as isize))
            },
            TokenType::EqualEqual => Ok(Value::Boolean(a == b)),
            TokenType::BangEqual => Ok(Value::Boolean(a != b)),
            TokenType::Greater => Ok(Value::Boolean(a > b)),
            TokenType::GreaterEqual => Ok(Value::Boolean(a >= b)),
            TokenType::Less => Ok(Value::Boolean(a < b)),
            TokenType::LessEqual => Ok(Value::Boolean(a <= b)),
            _ => Err(Fault::TypeError { found: binary_misfit(l, r) }),
        },
        (Value::Str(a), Value::Str(b)) => match op {
            TokenType::Plus => Ok(Value::Str(a + b)),
            TokenType::EqualEqual => Ok(Value::Boolean(a == b)),
            _ => Err(Fault::TypeError { found: binary_misfit(l, r) }),
        },
        _ => Err(Fault::TypeError { found: binary_misfit(l, r) }),
    }
}

/// `and` and `or` on two booleans.
pub open spec fn logical(op: TokenType, l: Value, r: Value) -> Result<Value, Fault> {
    match (l, r) {
        (Value::Boolean(a), Value::Boolean(b)) => match op {
            TokenType::And => Ok(Value::Boolean(a && b)),
            TokenType::Or => Ok(Value::Boolean(a || b)),
            _ => Err(Fault::TypeError { found: logical_misfit(l, r) }),
        },
        _ => Err(Fault::TypeError { found: logical_misfit(l, r) }),
    }
}

/// The heap with the first `count` of `names` bound, in order, to the values
/// at the same places, in the scope `env`.
pub open spec fn bind_all(h: Heap, env: nat, names: Seq<Seq<char>>, vals: Seq<Value>, count: nat) -> Heap
    decreases count,
{
    if count == 0 || count > names.len() || count > vals.len() {
        h
    } else {
        define(
            bind_all(h, env, names, vals, (count - 1) as nat),
            env,
            names[count - 1],
            vals[count - 1],
        )
    }
}

/// The heap with the first `count` of `methods` bound by name, in order, in
/// the scope `env`, each closed over the scope `captured`.
pub open spec fn bind_methods(h: Heap, env: nat, captured: nat, methods: Seq<FunctionView>, count: nat) -> Heap
    decreases count,
{
    if count == 0 || count > methods.len() {
        h
    } else {
        define(
            bind_methods(h, env, captured, methods, (count - 1) as nat),
            env,
            methods[count - 1].name,
            Value::Function(MethodView { function: methods[count - 1], env: captured }),
        )
    }
}

/// The scope in which a call of `f` with the arguments `vals` runs the body:
/// a new scope inside the one `f` was defined in, with the parameters bound.
pub open spec fn call_frame(h: Heap, f: MethodView, vals: Seq<Value>) -> Heap {
    bind_all(push_scope(h, Some(f.env)), h.len(), f.function.params, vals, vals.len())
}

/// The heap and the instance after `class` is called with `vals`: a scope of
/// fields, with the constructor's names bound, and inside it a scope of
/// methods, each closed over the fields. The instance holds the scope of
/// methods.
pub open spec fn instantiate(h: Heap, class: ClassView, vals: Seq<Value>) -> (Heap, Value) {
    let fields = h.len();
    let with_fields = bind_all(push_scope(h, None), fields, class.params, vals, vals.len());
    let methods = with_fields.len();
    let with_methods = bind_methods(
        push_scope(with_fields, Some(fields)),
        methods,
        fields,
        class.methods,
        class.methods.len(),
    );
    (with_methods, Value::Instance(InstanceView { class, env: methods }))
}

/// The function value that a property access hands out for the method `m`
/// of an instance: the same function, closed over the fresh scope `fresh`
/// inside the instance's.
pub open spec fn bound_method(m: MethodView, fresh: nat) -> Value {
    Value::Function(MethodView { function: m.function, env: fresh })
}

/// The machine with another heap.
pub open spec fn with_heap(m: Machine, heap: Heap) -> Machine {
    Machine { heap, out: m.out }
}

/// The machine after printing `v` and a line end.
pub open spec fn printed(m: Machine, v: Value) -> Machine {
    Machine { heap: m.heap, out: m.out + print_value(v) + seq!['\n'] }
}

/// The value of the expression `e` in the scope `env`.
pub open spec fn eval_expr(e: ExprView, m: Machine, env: nat, budget: Budget) -> Evaluated<Value>
    decreases budget.depth, 0nat, e, 0nat,
{
    match e {
        ExprView::Literal { kind, text } => (m, literal(kind, text)),
        ExprView::Variable { name } => (
            m,
            match lookup(m.heap, env, name) {
                Some(v) => Ok(v),
                None => Err(Fault::NameError { name }),
            },
        ),
        ExprView::Grouping { inner } => eval_expr(*inner, m, env, budget),
        ExprView::Unary { op, operand } => {
            let (m1, r) = eval_expr(*operand, m, env, budget);
            match r {
                Err(e) => (m1, Err(e)),
                Ok(v) => (m1, unary(op, v)),
            }
        },
        ExprView::Binary { op, lhs, rhs } => {
            let (m1, r) = eval_expr(*rhs, m, env, budget);
            match r {
                Err(e) => (m1, Err(e)),
                Ok(rv) => {
                    let (m2, l) = eval_expr(*lhs, m1, env, budget);
                    match l {
                        Err(e) => (m2, Err(e)),
                        Ok(lv) => (m2, binary(op, lv, rv)),
                    }
                },
            }
        },
        ExprView::Logical { op, lhs, rhs } => {
            let (m1, r) = eval_expr(*rhs, m, env, budget);
            match r {
                Err(e) => (m1, Err(e)),
                Ok(rv) => {
                    let (m2, l) = eval_expr(*lhs, m1, env, budget);
                    match l {
                        Err(e) => (m2, Err(e)),
                        Ok(lv) => (m2, logical(op, lv, rv)),
                    }
                },
            }
        },
        ExprView::Assign { name, value } => {
            let (m1, r) = eval_expr(*value, m, env, budget);
            match r {
                Err(e) => (m1, Err(e)),
                Ok(v) => if v is Nil {
                    (with_heap(m1, remove(m1.heap, env, name)), Ok(Value::Nil))
                } else {
                    match assign(m1.heap, env, name, v) {
                        Some(h) => (with_heap(m1, h), Ok(v)),
                        None => (m1, Err(Fault::NameError { name })),
                    }
                },
            }
        },
        ExprView::Call { callee, args } => {
            let (m1, r) = eval_expr(*callee, m, env, budget);
            match r {
                Err(e) => (m1, Err(e)),
                Ok(Value::Function(f)) => if f.function.params.len() != args.len() {
                    (
                        m1,
                        Err(Fault::ArityError { expected: f.function.params.len(), found: args.len() }),
                    )
                } else {
                    let (m2, ra) = eval_args(args, Seq::empty(), m1, env, budget);
                    match ra {
                        Err(e) => (m2, Err(e)),
                        Ok(vals) => if budget.depth == 0 {
                            (m2, Err(Fault::DepthLimit))
                        } else {
                            let (m3, rb) = exec_block(
                                f.function.body,
                                with_heap(m2, call_frame(m2.heap, f, vals)),
                                m2.heap.len(),
                                budget.deeper(),
                            );
                            match rb {
                                Err(e) => (m3, Err(e)),
                                Ok(Flow::Return(v)) => (m3, Ok(v)),
                                Ok(Flow::Void) => (m3, Ok(Value::Nil)),
                            }
                        },
                    }
                },
                Ok(Value::Class(c)) => if c.params.len() != args.len() {
                    (m1, Err(Fault::ArityError { expected: c.params.len(), found: args.len() }))
                } else {
                    let (m2, ra) = eval_args(args, Seq::empty(), m1, env, budget);
                    match ra {
                        Err(e) => (m2, Err(e)),
                        Ok(vals) => {
                            let (h, instance) = instantiate(m2.heap, c, vals);
                            (with_heap(m2, h), Ok(instance))
                        },
                    }
                },
                Ok(other) => (m1, Err(Fault::CallTargetError { found: other.kind() })),
            }
        },
        ExprView::Get { object, name } => {
            let (m1, r) = eval_expr(*object, m, env, budget);
            match r {
                Err(e) => (m1, Err(e)),
                Ok(Value::Instance(i)) => match lookup(m1.heap, i.env, name) {
                    None => (m1, Err(Fault::NameError { name })),
                    Some(Value::Function(f)) => (
                        with_heap(m1, push_scope(m1.heap, Some(i.env))),
                        Ok(bound_method(f, m1.heap.len())),
                    ),
                    Some(v) => (m1, Ok(v)),
                },
                Ok(other) => (m1, Err(Fault::TypeError { found: other.kind() })),
            }
        },
    }
}

/// The values of the arguments `args`, in order, behind those in `done`.
pub open spec fn eval_args(args: Seq<ExprView>, done: Seq<Value>, m: Machine, env: nat, budget: Budget) -> Evaluated<
    Seq<Value>,
>
    decreases budget.depth, 0nat, args, args.len() - done.len(),
{
    if done.len() >= args.len() {
        (m, Ok(done))
    } else {
        let (m1, r) = eval_expr(args[done.len() as int], m, env, budget);
        match r {
            Err(e) => (m1, Err(e)),
            Ok(v) => eval_args(args, done.push(v), m1, env, budget),
        }
    }
}

/// The statements `stmts` in a new scope inside `env`.
pub open spec fn exec_block(stmts: Seq<StmtView>, m: Machine, env: nat, budget: Budget) -> Evaluated<Flow>
    decreases budget.depth, 1nat, stmts, stmts.len() + 1,
{
    exec_seq(stmts, 0, with_heap(m, push_scope(m.heap, Some(env))), m.heap.len(), budget)
}

/// The statements `stmts` from the `i`-th on, in order, up to the first that
/// returns or fails.
pub open spec fn exec_seq(stmts: Seq<StmtView>, i: nat, m: Machine, env: nat, budget: Budget) -> Evaluated<
    Flow,
>
    decreases budget.depth, 1nat, stmts, stmts.len() - i,
{
    if i >= stmts.len() {
        (m, Ok(Flow::Void))
    } else {
        let (m1, r) = exec_stmt(stmts[i as int], m, env, budget);
        match r {
            Ok(Flow::Void) => exec_seq(stmts, i + 1, m1, env, budget),
            _ => (m1, r),
        }
    }
}

/// The statement `s` in the scope `env`.
pub open spec fn exec_stmt(s: StmtView, m: Machine, env: nat, budget: Budget) -> Evaluated<Flow>
    decreases budget.depth, 1nat, s, budget.rounds + 1,
{
    match s {
        StmtView::Expr { expr } => {
            let (m1, r) = eval_expr(expr, m, env, budget);
            match r {
                Err(e) => (m1, Err(e)),
                Ok(_) => (m1, Ok(Flow::Void)),
            }
        },
        StmtView::Print { expr } => {
            let (m1, r) = eval_expr(expr, m, env, budget);
            match r {
                Err(e) => (m1, Err(e)),
                Ok(v) => (printed(m1, v), Ok(Flow::Void)),
            }
        },
        StmtView::VarDecl { name, init } => match init {
            None => (with_heap(m, define(m.heap, env, name, Value::Nil)), Ok(Flow::Void)),
            Some(init) => {
                let (m1, r) = eval_expr(init, m, env, budget);
                match r {
                    Err(e) => (m1, Err(e)),
                    Ok(v) => (with_heap(m1, define(m1.heap, env, name, v)), Ok(Flow::Void)),
                }
            },
        },
        StmtView::Block { stmts } => exec_block(stmts, m, env, budget),
        StmtView::If { cond, then_branch, else_branch } => {
            let (m1, r) = eval_expr(cond, m, env, budget);
            match r {
                Err(e) => (m1, Err(e)),
                Ok(Value::Boolean(b)) => if b {
                    exec_stmt(*then_branch, m1, env, budget)
                } else {
                    match else_branch {
                        Some(other) => exec_stmt(*other, m1, env, budget),
                        None => (m1, Ok(Flow::Void)),
                    }
                },
                Ok(other) => (m1, Err(Fault::TypeError { found: other.kind() })),
            }
        },
        StmtView::While { .. } => exec_loop(s, m, env, budget, budget.rounds as nat),
        StmtView::For { init, .. } => {
            let scope = m.heap.len();
            let m0 = with_heap(m, push_scope(m.heap, Some(env)));
            match init {
                None => exec_loop(s, m0, scope, budget, budget.rounds as nat),
                Some(first) => {
                    let (m1, r) = exec_stmt(*first, m0, scope, budget);
                    match r {
                        Ok(Flow::Void) => exec_loop(s, m1, scope, budget, budget.rounds as nat),
                        _ => (m1, r),
                    }
                },
            }
        },
        StmtView::Fun { function } => (
            with_heap(
                m,
                define(m.heap, env, function.name, Value::Function(MethodView { function, env })),
            ),
            Ok(Flow::Void),
        ),
        StmtView::Return { expr } => match expr {
            None => (m, Ok(Flow::Return(Value::Nil))),
            Some(expr) => {
                let (m1, r) = eval_expr(expr, m, env, budget);
                match r {
                    Err(e) => (m1, Err(e)),
                    Ok(v) => (m1, Ok(Flow::Return(v))),
                }
            },
        },
        StmtView::Class { name, methods } => (
            with_heap(
                m,
                define(
                    m.heap,
                    env,
                    name,
                    Value::Class(ClassView { name, params: constructor_params(methods), methods }),
                ),
            ),
            Ok(Flow::Void),
        ),
    }
}

/// The rounds of the loop `s`, a `while` or a `for`, in the scope `env`, of
/// which at most `left` may run. A round of a `for` runs the body and then
/// the step in a scope of its own inside `env`.
pub open spec fn exec_loop(s: StmtView, m: Machine, env: nat, budget: Budget, left: nat) -> Evaluated<
    Flow,
>
    decreases budget.depth, 1nat, s, left,
{
    match s {
        StmtView::While { cond, body } => {
            let (m1, c) = eval_expr(cond, m, env, budget);
            match c {
                Err(e) => (m1, Err(e)),
                Ok(Value::Boolean(go)) => if !go {
                    (m1, Ok(Flow::Void))
                } else if left == 0 {
                    (m1, Err(Fault::RoundLimit))
                } else {
                    let (m2, r) = exec_stmt(*body, m1, env, budget);
                    match r {
                        Ok(Flow::Void) => exec_loop(s, m2, env, budget, (left - 1) as nat),
                        _ => (m2, r),
                    }
                },
                Ok(other) => (m1, Err(Fault::TypeError { found: other.kind() })),
            }
        },
        StmtView::For { init, cond, step, body } => {
            let (m1, c) = match cond {
                Some(cond) => eval_expr(cond, m, env, budget),
                None => (m, Ok(Value::Boolean(true))),
            };
            match c {
                Err(e) => (m1, Err(e)),
                Ok(Value::Boolean(go)) => if !go {
                    (m1, Ok(Flow::Void))
                } else if left == 0 {
                    (m1, Err(Fault::RoundLimit))
                } else {
                    let round = m1.heap.len();
                    let (m2, r) = exec_stmt(
                        *body,
                        with_heap(m1, push_scope(m1.heap, Some(env))),
                        round,
                        budget,
                    );
                    match r {
                        Ok(Flow::Void) => match step {
                            None => exec_loop(s, m2, env, budget, (left - 1) as nat),
                            Some(step) => {
                                let (m3, rs) = eval_expr(step, m2, round, budget);
                                match rs {
                                    Err(e) => (m3, Err(e)),
                                    Ok(_) => exec_loop(s, m3, env, budget, (left - 1) as nat),
                                }
                            },
                        },
                        _ => (m2, r),
                    }
                },
                Ok(other) => (m1, Err(Fault::TypeError { found: other.kind() })),
            }
        },
        _ => (m, Ok(Flow::Void)),
    }
}

/// A whole program: its statements in the scope `env`, with no scope of
/// their own. A `return` at the top level ends the program.
pub open spec fn run_program(stmts: Seq<StmtView>, m: Machine, env: nat, budget: Budget) -> Evaluated<Flow> {
    exec_seq(stmts, 0, m, env, budget)
}

} // verus!
