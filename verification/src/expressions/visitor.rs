//! The evaluator: a walk over the tree that computes what `semantics` says.

use crate::env::environment::{push_scope, refs_within};
use crate::expressions::expression::{
    lemma_view_call, view_expressions, view_names, ExprResType, Expression, ExpressionRes, Value,
};
use crate::names::constructor_names;
use crate::numeral::parse_decimal;
use crate::program::program::ProgramEnvs;
use crate::program::runtime::{Class, Instance, Method};
use crate::semantics::{
    binary, bind_all, bind_methods, eval_args, eval_expr, exec_block, exec_loop, exec_seq,
    exec_stmt, literal, logical, printed, quotient, run_program, unary, Budget, Fault, Flow,
    Machine, RuntimeError,
};
use crate::statements::statement::{
    lemma_view_block, lemma_view_class, lemma_view_function, view_functions, view_statements,
    Function, Statement,
};
use crate::statements::stmt_visitor::StatementRes;
use crate::token::TokenType;
use std::rc::Rc;
use vstd::pervasive::unreached;
use vstd::prelude::*;
use vstd::string::StringExecFns;

verus! {

/// Something that evaluates expressions to a `T`.
pub trait Visitor<T> {
    /// Whether the visitor is in a state to evaluate.
    spec fn ready(&self) -> bool;

    /// Evaluates `expression`.
    fn eval(&mut self, expression: &Expression) -> (r: T)
        requires
            old(self).ready(),
    ;
}

/// How deep calls may nest in a new interpreter.
pub const DEFAULT_DEPTH: usize = 256;

/// How many rounds one loop may run in a new interpreter.
pub const DEFAULT_ROUNDS: usize = usize::MAX;

/// The evaluator's state: the scopes, the text printed so far, and the
/// budget of each evaluation.
#[derive(Debug)]
pub struct ExpressionInterpreter {
    pub envs: ProgramEnvs,
    pub output: String,
    pub budget: Budget,
}

/// The views of a run of values.
pub open spec fn view_values(vs: Seq<ExpressionRes>) -> Seq<Value> {
    Seq::new(vs.len(), |i: int| vs[i]@)
}

/// The semantic result that an evaluator result stands for.
pub open spec fn value_outcome(r: Result<ExpressionRes, RuntimeError>) -> Result<Value, Fault> {
    match r {
        Ok(v) => Ok(v@),
        Err(e) => Err(e@),
    }
}

/// The semantic result that a statement result stands for.
pub open spec fn flow_outcome(r: Result<StatementRes, RuntimeError>) -> Result<Flow, Fault> {
    match r {
        Ok(f) => Ok(f@),
        Err(e) => Err(e@),
    }
}

/// Whether a value can be stored in a heap of `n` scopes.
pub open spec fn storable(v: ExpressionRes, n: nat) -> bool {
    v.wf() && refs_within(v@, n)
}

/// The value of a literal.
pub fn literal_value(token_type: TokenType, value: &String) -> (r: Result<ExpressionRes, RuntimeError>)
    ensures
        value_outcome(r) == literal(token_type, value@),
        r matches Ok(v) ==> forall|n: nat| storable(v, n),
{
    match token_type {
        TokenType::String => Ok(ExpressionRes::from_str(value.clone())),
        TokenType::Number => match parse_decimal(value.as_str()) {
            Some(n) => Ok(ExpressionRes::from_number(n)),
            None => Err(RuntimeError::BadLiteral { kind: token_type }),
        },
        TokenType::False => Ok(ExpressionRes::from_bool(false)),
        TokenType::True => Ok(ExpressionRes::from_bool(true)),
        TokenType::Nil => Ok(ExpressionRes::from_none()),
        _ => Err(RuntimeError::BadLiteral { kind: token_type }),
    }
}

/// `-` on a number, `!` on a boolean.
pub fn unary_operation(op: TokenType, v: &ExpressionRes) -> (r: Result<ExpressionRes, RuntimeError>)
    ensures
        value_outcome(r) == unary(op, v@),
        r matches Ok(v) ==> forall|n: nat| storable(v, n),
{
    match (v.type_, op) {
        (ExprResType::Number, TokenType::Minus) => Ok(
            ExpressionRes::from_number((0 as isize).wrapping_sub(v.number)),
        ),
        (ExprResType::Boolean, TokenType::Bang) => Ok(ExpressionRes::from_bool(!v.boolean)),
        _ => Err(RuntimeError::TypeError { found: v.kind() }),
    }
}

/// A quotient of a number that is not negative by a positive one lies
/// between zero and the number; by two or more, below half of it.
proof fn lemma_quotient_bounds(n: int, k: int)
    by (nonlinear_arith)
    requires
        n >= 0,
        k > 0,
    ensures
        0 <= n / k <= n,
        k >= 2 ==> 2 * (n / k) <= n,
{
}

/// The quotient of two numbers, rounded towards zero; the divisor is not
/// zero.
fn divide(a: isize, b: isize) -> (q: isize)
    requires
        b != 0,
    ensures
        q == quotient(a, b),
{
    proof {
        let x = a as int;
        let d = b as int;
        if x > 0 && d > 0 {
            lemma_quotient_bounds(x, d);
        } else if x < 0 && d < 0 {
            lemma_quotient_bounds(-x, -d);
        } else if x < 0 {
            lemma_quotient_bounds(-x, d);
        } else if x > 0 {
            lemma_quotient_bounds(x, -d);
        }
    }
    match a.checked_div(b) {
        Some(q) => q,
        None => isize::MIN,
    }
}

/// The remainder of two numbers that is never negative; the divisor is not
/// zero.
fn remainder(a: isize, b: isize) -> (r: isize)
    requires
        b != 0,
    ensures
        r == (a as int % b as int) as isize,
{
    match a.checked_rem_euclid(b) {
        Some(r) => r,
        None => 0,
    }
}

/// An operator on two numbers.
fn number_operation(op: TokenType, a: isize, b: isize) -> (r: Result<ExpressionRes, RuntimeError>)
    ensures
        value_outcome(r) == binary(op, Value::Number(a), Value::Number(b)),
        r matches Ok(v) ==> forall|n: nat| storable(v, n),
{
    match op {
        TokenType::Plus => Ok(ExpressionRes::from_number(a.wrapping_add(b))),
        TokenType::Minus => Ok(ExpressionRes::from_number(a.wrapping_sub(b))),
        TokenType::Star => Ok(ExpressionRes::from_number(a.wrapping_mul(b))),
        TokenType::Slash => if b == 0 {
            Err(RuntimeError::DivideByZero)
        } else {
            Ok(ExpressionRes::from_number(divide(a, b)))
        },
        TokenType::Percent => if b == 0 {
            Err(RuntimeError::DivideByZero)
        } else {
            Ok(ExpressionRes::from_number(remainder(a, b)))
        },
        TokenType::EqualEqual => Ok(ExpressionRes::from_bool(a == b)),
        TokenType::BangEqual => Ok(ExpressionRes::from_bool(a != b)),
        TokenType::Greater => Ok(ExpressionRes::from_bool(a > b)),
        TokenType::GreaterEqual => Ok(ExpressionRes::from_bool(a >= b)),
        TokenType::Less => Ok(ExpressionRes::from_bool(a < b)),
        TokenType::LessEqual => Ok(ExpressionRes::from_bool(a <= b)),
        _ => Err(RuntimeError::TypeError { found: ExprResType::Number }),
    }
}

/// An arithmetic, comparison or equality operator on two values.
pub fn binary_operation(op: TokenType, lhs: &ExpressionRes, rhs: &ExpressionRes) -> (r: Result<
    ExpressionRes,
    RuntimeError,
>)
    ensures
        value_outcome(r) == binary(op, lhs@, rhs@),
        r matches Ok(v) ==> forall|n: nat| storable(v, n),
{
    if lhs.type_ == ExprResType::Number && lhs.eq_type(rhs) {
        number_operation(op, lhs.number, rhs.number)
    } else if lhs.type_ == ExprResType::String && lhs.eq_type(rhs) {
        match op {
            TokenType::Plus => Ok(ExpressionRes::from_str(lhs.str.clone().concat(rhs.str.as_str()))),
            TokenType::EqualEqual => Ok(ExpressionRes::from_bool(lhs.str == rhs.str)),
            _ => Err(RuntimeError::TypeError { found: ExprResType::String }),
        }
    } else if lhs.type_ == ExprResType::Number || lhs.type_ == ExprResType::String {
        Err(RuntimeError::TypeError { found: rhs.kind() })
    } else {
        Err(RuntimeError::TypeError { found: lhs.kind() })
    }
}

/// `and` and `or` on two values.
pub fn logical_operation(op: TokenType, lhs: &ExpressionRes, rhs: &ExpressionRes) -> (r: Result<
    ExpressionRes,
    RuntimeError,
>)
    ensures
        value_outcome(r) == logical(op, lhs@, rhs@),
        r matches Ok(v) ==> forall|n: nat| storable(v, n),
{
    if lhs.type_ == ExprResType::Boolean && lhs.eq_type(rhs) {
        match op {
            TokenType::And => Ok(ExpressionRes::from_bool(lhs.boolean && rhs.boolean)),
            TokenType::Or => Ok(ExpressionRes::from_bool(lhs.boolean || rhs.boolean)),
            _ => Err(RuntimeError::TypeError { found: ExprResType::Boolean }),
        }
    } else if lhs.type_ == ExprResType::Boolean {
        Err(RuntimeError::TypeError { found: rhs.kind() })
    } else {
        Err(RuntimeError::TypeError { found: lhs.kind() })
    }
}

impl ExpressionInterpreter {
    /// The machine state: the heap of scopes and the text printed so far.
    pub open spec fn machine(&self) -> Machine {
        Machine { heap: self.envs.heap(), out: self.output@ }
    }

    /// The scopes are well-formed.
    pub open spec fn wf(&self) -> bool {
        self.envs.wf()
    }

    /// What every evaluation leaves: a well-formed interpreter in the machine
    /// state `m`, with no scope lost, and the current scope and the budget as
    /// they were in `before`.
    pub open spec fn follows(&self, before: ExpressionInterpreter, m: Machine) -> bool {
        &&& self.wf()
        &&& self.machine() == m
        &&& before.envs.scopes.len() <= self.envs.scopes.len()
        &&& self.envs.current == before.envs.current
        &&& self.budget == before.budget
    }

    /// An interpreter with one empty scope, nothing printed, and the default
    /// budget.
    pub fn new() -> (i: ExpressionInterpreter)
        ensures
            i.wf(),
            i.machine() == (Machine { heap: push_scope(Seq::empty(), None), out: Seq::empty() }),
            i.envs.current == 0,
            i.budget == (Budget { depth: DEFAULT_DEPTH, rounds: DEFAULT_ROUNDS }),
    {
        ExpressionInterpreter { envs: ProgramEnvs::new(), output: String::new(), budget: Budget { depth: DEFAULT_DEPTH, rounds: DEFAULT_ROUNDS } }
    }

    /// An interpreter on the scopes `envs`, with nothing printed and the
    /// default budget.
    pub fn new_with_envs(envs: ProgramEnvs) -> (i: ExpressionInterpreter)
        ensures
            i.envs == envs,
            i.output@ == Seq::<char>::empty(),
            i.budget == (Budget { depth: DEFAULT_DEPTH, rounds: DEFAULT_ROUNDS }),
    {
        ExpressionInterpreter { envs, output: String::new(), budget: Budget { depth: DEFAULT_DEPTH, rounds: DEFAULT_ROUNDS } }
    }

    /// Binds each of `names` to the value at the same place in `vals`, in
    /// order, in the scope `env`.
    #[verifier::loop_isolation(false)]
    fn bind_arguments(&mut self, env: usize, names: &Vec<String>, vals: &Vec<ExpressionRes>)
        requires
            old(self).wf(),
            env < old(self).envs.scopes.len(),
            names.len() == vals.len(),
            forall|i: int|
                0 <= i < vals.len() ==> storable(#[trigger] vals[i], old(self).envs.scopes.len() as nat),
        ensures
            final(self).wf(),
            final(self).envs.scopes.len() == old(self).envs.scopes.len(),
            final(self).envs.current == old(self).envs.current,
            final(self).budget == old(self).budget,
            final(self).output == old(self).output,
            final(self).envs.heap() == bind_all(
                old(self).envs.heap(),
                env as nat,
                view_names(names@),
                view_values(vals@),
                vals.len() as nat,
            ),
    {
        let mut i: usize = 0;
        while i < names.len()
            invariant
                i <= names.len(),
                self.wf(),
                self.envs.scopes.len() == old(self).envs.scopes.len(),
                self.envs.current == old(self).envs.current,
                self.budget == old(self).budget,
                self.output == old(self).output,
                self.envs.heap() == bind_all(
                    old(self).envs.heap(),
                    env as nat,
                    view_names(names@),
                    view_values(vals@),
                    i as nat,
                ),
            decreases names.len() - i,
        {
            assert(storable(vals[i as int], self.envs.scopes.len() as nat));
            self.envs.define_in(env, names[i].clone(), ExpressionRes::copy(&vals[i]));
            i += 1;
        }
    }

    /// Binds each of `methods` by its name in the scope `env`, closed over
    /// the scope `captured`.
    #[verifier::loop_isolation(false)]
    fn bind_class_methods(&mut self, env: usize, captured: usize, methods: &Vec<Rc<Function>>)
        requires
            old(self).wf(),
            env < old(self).envs.scopes.len(),
            captured < old(self).envs.scopes.len(),
        ensures
            final(self).wf(),
            final(self).envs.scopes.len() == old(self).envs.scopes.len(),
            final(self).envs.current == old(self).envs.current,
            final(self).budget == old(self).budget,
            final(self).output == old(self).output,
            final(self).envs.heap() == bind_methods(
                old(self).envs.heap(),
                env as nat,
                captured as nat,
                view_functions(methods@),
                methods.len() as nat,
            ),
    {
        let mut i: usize = 0;
        while i < methods.len()
            invariant
                i <= methods.len(),
                self.wf(),
                self.envs.scopes.len() == old(self).envs.scopes.len(),
                self.envs.current == old(self).envs.current,
                self.budget == old(self).budget,
                self.output == old(self).output,
                self.envs.heap() == bind_methods(
                    old(self).envs.heap(),
                    env as nat,
                    captured as nat,
                    view_functions(methods@),
                    i as nat,
                ),
            decreases methods.len() - i,
        {
            let function = methods[i].clone();
            let name = function.name.clone();
            self.envs.define_in(env, name, ExpressionRes::from_method(Method::new(function, captured)));
            i += 1;
        }
    }

    /// The values of `args` in the scope `env`, in order.
    #[verifier::loop_isolation(false)]
    fn eval_arguments(&mut self, args: &Vec<Expression>, env: usize, budget: Budget) -> (r: Result<
        Vec<ExpressionRes>,
        RuntimeError,
    >)
        requires
            old(self).wf(),
            env < old(self).envs.scopes.len(),
        ensures
            final(self).follows(
                *old(self),
                eval_args(
                    view_expressions(args@),
                    Seq::empty(),
                    old(self).machine(),
                    env as nat,
                    budget,
                ).0,
            ),
            match r {
                Ok(vals) => eval_args(
                    view_expressions(args@),
                    Seq::empty(),
                    old(self).machine(),
                    env as nat,
                    budget,
                ).1 == Ok::<Seq<Value>, Fault>(view_values(vals@)) && vals.len() == args.len()
                    && forall|i: int|
                    0 <= i < vals.len() ==> storable(
                        #[trigger] vals[i],
                        final(self).envs.scopes.len() as nat,
                    ),
                Err(e) => eval_args(
                    view_expressions(args@),
                    Seq::empty(),
                    old(self).machine(),
                    env as nat,
                    budget,
                ).1 == Err::<Seq<Value>, Fault>(e@),
            },
        decreases budget.depth, 0nat, args, 0nat,
    {
        let mut vals: Vec<ExpressionRes> = Vec::new();
        assert(view_values(vals@) =~= Seq::empty());
        let ghost goal = eval_args(
            view_expressions(args@),
            Seq::empty(),
            old(self).machine(),
            env as nat,
            budget,
        );
        while vals.len() < args.len()
            invariant
                vals.len() <= args.len(),
                self.wf(),
                old(self).envs.scopes.len() <= self.envs.scopes.len(),
                self.envs.current == old(self).envs.current,
                self.budget == old(self).budget,
                eval_args(
                    view_expressions(args@),
                    view_values(vals@),
                    self.machine(),
                    env as nat,
                    budget,
                ) == goal,
                forall|i: int|
                    0 <= i < vals.len() ==> storable(#[trigger] vals[i], self.envs.scopes.len() as nat),
            decreases args.len() - vals.len(),
        {
            let ghost before = view_values(vals@);
            match self.eval_in(&args[vals.len()], env, budget) {
                Err(e) => {
                    return Err(e);
                },
                Ok(v) => {
                    let ghost v_view = v@;
                    vals.push(v);
                    assert(view_values(vals@) =~= before.push(v_view));
                },
            }
        }
        Ok(vals)
    }

    /// The value of a call.
    fn eval_call(&mut self, expression: &Expression, env: usize, budget: Budget) -> (r: Result<
        ExpressionRes,
        RuntimeError,
    >)
        requires
            old(self).wf(),
            env < old(self).envs.scopes.len(),
            expression is Call,
        ensures
            final(self).follows(
                *old(self),
                eval_expr(expression@, old(self).machine(), env as nat, budget).0,
            ),
            value_outcome(r) == eval_expr(expression@, old(self).machine(), env as nat, budget).1,
            r matches Ok(v) ==> storable(v, final(self).envs.scopes.len() as nat),
        decreases budget.depth, 0nat, expression, 0nat,
    {
        match expression {
            Expression::Call { identifier, args } => {
                proof {
                    lemma_view_call(identifier, args);
                }
                let callee = match self.eval_in(identifier, env, budget) {
                    Err(e) => {
                        return Err(e);
                    },
                    Ok(v) => v,
                };
                match callee.type_ {
                    ExprResType::Function => {
                        let method = callee.get_method();
                        let function = method.function.clone();
                        let captured = method.captured_env;
                        proof {
                            lemma_view_function(&function);
                        }
                        if function.params.len() != args.len() {
                            return Err(
                                RuntimeError::ArityError {
                                    expected: function.params.len(),
                                    found: args.len(),
                                },
                            );
                        }
                        let vals = match self.eval_arguments(args, env, budget) {
                            Err(e) => {
                                return Err(e);
                            },
                            Ok(v) => v,
                        };
                        if budget.depth == 0 {
                            return Err(RuntimeError::DepthLimit);
                        }
                        let frame = self.envs.new_child(Some(captured));
                        self.bind_arguments(frame, &function.params, &vals);
                        match self.run_block(
                            &function.body,
                            frame,
                            Budget { depth: budget.depth - 1, rounds: budget.rounds },
                        ) {
                            Err(e) => Err(e),
                            Ok(StatementRes::Return { res }) => Ok(res),
                            Ok(StatementRes::Void) => Ok(ExpressionRes::from_none()),
                        }
                    },
                    ExprResType::Class => {
                        let class = match &callee.class {
                            Some(c) => c.clone(),
                            None => unreached(),
                        };
                        if class.args.len() != args.len() {
                            return Err(
                                RuntimeError::ArityError {
                                    expected: class.args.len(),
                                    found: args.len(),
                                },
                            );
                        }
                        let vals = match self.eval_arguments(args, env, budget) {
                            Err(e) => {
                                return Err(e);
                            },
                            Ok(v) => v,
                        };
                        let fields = self.envs.new_child(None);
                        self.bind_arguments(fields, &class.args, &vals);
                        let methods = self.envs.new_child(Some(fields));
                        self.bind_class_methods(methods, fields, &class.methods);
                        Ok(ExpressionRes::from_instance(Class::call(&class, methods)))
                    },
                    _ => Err(RuntimeError::CallTargetError { found: callee.kind() }),
                }
            },
            _ => unreached(),
        }
    }

    /// The value of an operator with two operands.
    fn eval_binary(&mut self, expression: &Expression, env: usize, budget: Budget) -> (r: Result<
        ExpressionRes,
        RuntimeError,
    >)
        requires
            old(self).wf(),
            env < old(self).envs.scopes.len(),
            expression is BinaryExpr || expression is Logical,
        ensures
            final(self).follows(
                *old(self),
                eval_expr(expression@, old(self).machine(), env as nat, budget).0,
            ),
            value_outcome(r) == eval_expr(expression@, old(self).machine(), env as nat, budget).1,
            r matches Ok(v) ==> storable(v, final(self).envs.scopes.len() as nat),
        decreases budget.depth, 0nat, expression, 0nat,
    {
        match expression {
            Expression::BinaryExpr { token, rhs, lhs } => {
                let rhs_res = match self.eval_in(rhs, env, budget) {
                    Err(e) => {
                        return Err(e);
                    },
                    Ok(v) => v,
                };
                let lhs_res = match self.eval_in(lhs, env, budget) {
                    Err(e) => {
                        return Err(e);
                    },
                    Ok(v) => v,
                };
                binary_operation(*token, &lhs_res, &rhs_res)
            },
            Expression::Logical { token, rhs, lhs } => {
                let rhs_res = match self.eval_in(rhs, env, budget) {
                    Err(e) => {
                        return Err(e);
                    },
                    Ok(v) => v,
                };
                let lhs_res = match self.eval_in(lhs, env, budget) {
                    Err(e) => {
                        return Err(e);
                    },
                    Ok(v) => v,
                };
                logical_operation(*token, &lhs_res, &rhs_res)
            },
            _ => unreached(),
        }
    }

    /// The value and the effect of an assignment.
    fn eval_assignment(&mut self, expression: &Expression, env: usize, budget: Budget) -> (r: Result<
        ExpressionRes,
        RuntimeError,
    >)
        requires
            old(self).wf(),
            env < old(self).envs.scopes.len(),
            expression is Assignment,
        ensures
            final(self).follows(
                *old(self),
                eval_expr(expression@, old(self).machine(), env as nat, budget).0,
            ),
            value_outcome(r) == eval_expr(expression@, old(self).machine(), env as nat, budget).1,
            r matches Ok(v) ==> storable(v, final(self).envs.scopes.len() as nat),
        decreases budget.depth, 0nat, expression, 0nat,
    {
        match expression {
            Expression::Assignment { identifier, value } => {
                let value = match self.eval_in(value, env, budget) {
                    Err(e) => {
                        return Err(e);
                    },
                    Ok(v) => v,
                };
                if value.type_ == ExprResType::Nil {
                    self.envs.remove_in(env, identifier);
                    Ok(ExpressionRes::from_none())
                } else {
                    let res = ExpressionRes::copy(&value);
                    if self.envs.assign_in(env, identifier.clone(), value) {
                        Ok(res)
                    } else {
                        Err(RuntimeError::NameError { name: identifier.clone() })
                    }
                }
            },
            _ => unreached(),
        }
    }

    /// The value of a property access.
    fn eval_get(&mut self, expression: &Expression, env: usize, budget: Budget) -> (r: Result<
        ExpressionRes,
        RuntimeError,
    >)
        requires
            old(self).wf(),
            env < old(self).envs.scopes.len(),
            expression is Get,
        ensures
            final(self).follows(
                *old(self),
                eval_expr(expression@, old(self).machine(), env as nat, budget).0,
            ),
            value_outcome(r) == eval_expr(expression@, old(self).machine(), env as nat, budget).1,
            r matches Ok(v) ==> storable(v, final(self).envs.scopes.len() as nat),
        decreases budget.depth, 0nat, expression, 0nat,
    {
        match expression {
            Expression::Get { expr, name } => {
                let object = match self.eval_in(expr, env, budget) {
                    Err(e) => {
                        return Err(e);
                    },
                    Ok(v) => v,
                };
                if object.type_ != ExprResType::Instance {
                    return Err(RuntimeError::TypeError { found: object.kind() });
                }
                let instance_env = match &object.instance {
                    Some(i) => i.env,
                    None => unreached(),
                };
                match self.envs.lookup_in(instance_env, name) {
                    None => Err(RuntimeError::NameError { name: name.clone() }),
                    Some(found) => {
                        if found.type_ == ExprResType::Function {
                            let fresh = self.envs.new_child(Some(instance_env));
                            Ok(ExpressionRes::from_method(found.get_method().prepare_for_call(fresh)))
                        } else {
                            Ok(found)
                        }
                    },
                }
            },
            _ => unreached(),
        }
    }

    /// The value of `expression` in the scope `env`, on the budget `budget`.
    pub fn eval_in(&mut self, expression: &Expression, env: usize, budget: Budget) -> (r: Result<
        ExpressionRes,
        RuntimeError,
    >)
        requires
            old(self).wf(),
            env < old(self).envs.scopes.len(),
        ensures
            final(self).follows(
                *old(self),
                eval_expr(expression@, old(self).machine(), env as nat, budget).0,
            ),
            value_outcome(r) == eval_expr(expression@, old(self).machine(), env as nat, budget).1,
            r matches Ok(v) ==> storable(v, final(self).envs.scopes.len() as nat),
        decreases budget.depth, 0nat, expression, 1nat,
    {
        match expression {
            Expression::GroupingExpr { value } => self.eval_in(value, env, budget),
            Expression::BinaryExpr { .. } => self.eval_binary(expression, env, budget),
            Expression::UnaryExpr { token, rhs } => {
                let rhs_res = match self.eval_in(rhs, env, budget) {
                    Err(e) => {
                        return Err(e);
                    },
                    Ok(v) => v,
                };
                unary_operation(*token, &rhs_res)
            },
            Expression::LiteralExpr { token_type, value } => literal_value(*token_type, value),
            Expression::VariableExpr { value } => match self.envs.lookup_in(env, value) {
                Some(v) => Ok(v),
                None => Err(RuntimeError::NameError { name: value.clone() }),
            },
            Expression::Assignment { .. } => self.eval_assignment(expression, env, budget),
            Expression::Logical { .. } => self.eval_binary(expression, env, budget),
            Expression::Call { .. } => self.eval_call(expression, env, budget),
            Expression::Get { .. } => self.eval_get(expression, env, budget),
        }
    }

    /// The statements `stmts` in the scope `env`, in order, up to the first
    /// that returns or fails.
    #[verifier::loop_isolation(false)]
    pub fn run_seq(&mut self, stmts: &Vec<Statement>, env: usize, budget: Budget) -> (r: Result<
        StatementRes,
        RuntimeError,
    >)
        requires
            old(self).wf(),
            env < old(self).envs.scopes.len(),
        ensures
            final(self).follows(
                *old(self),
                exec_seq(view_statements(stmts@), 0, old(self).machine(), env as nat, budget).0,
            ),
            flow_outcome(r) == exec_seq(
                view_statements(stmts@),
                0,
                old(self).machine(),
                env as nat,
                budget,
            ).1,
            r matches Ok(StatementRes::Return { res }) ==> storable(
                res,
                final(self).envs.scopes.len() as nat,
            ),
        decreases budget.depth, 1nat, stmts, 0nat,
    {
        let ghost goal = exec_seq(
            view_statements(stmts@),
            0,
            old(self).machine(),
            env as nat,
            budget,
        );
        let mut i: usize = 0;
        while i < stmts.len()
            invariant
                i <= stmts.len(),
                self.wf(),
                old(self).envs.scopes.len() <= self.envs.scopes.len(),
                self.envs.current == old(self).envs.current,
                self.budget == old(self).budget,
                exec_seq(view_statements(stmts@), i as nat, self.machine(), env as nat, budget)
                    == goal,
            decreases stmts.len() - i,
        {
            match self.execute_in(&stmts[i], env, budget) {
                Ok(StatementRes::Void) => {},
                other => {
                    return other;
                },
            }
            i += 1;
        }
        Ok(StatementRes::Void)
    }

    /// The statements `stmts` in a new scope inside `env`.
    pub fn run_block(&mut self, stmts: &Vec<Statement>, env: usize, budget: Budget) -> (r: Result<
        StatementRes,
        RuntimeError,
    >)
        requires
            old(self).wf(),
            env < old(self).envs.scopes.len(),
        ensures
            final(self).follows(
                *old(self),
                exec_block(view_statements(stmts@), old(self).machine(), env as nat, budget).0,
            ),
            flow_outcome(r) == exec_block(
                view_statements(stmts@),
                old(self).machine(),
                env as nat,
                budget,
            ).1,
            r matches Ok(StatementRes::Return { res }) ==> storable(
                res,
                final(self).envs.scopes.len() as nat,
            ),
        decreases budget.depth, 1nat, stmts, 1nat,
    {
        let scope = self.envs.new_child(Some(env));
        self.run_seq(stmts, scope, budget)
    }

    /// The rounds of the loop `statement` in the scope `env`.
    #[verifier::loop_isolation(false)]
    fn run_loop(&mut self, statement: &Statement, env: usize, budget: Budget) -> (r: Result<
        StatementRes,
        RuntimeError,
    >)
        requires
            old(self).wf(),
            env < old(self).envs.scopes.len(),
        ensures
            final(self).follows(
                *old(self),
                exec_loop(
                    statement@,
                    old(self).machine(),
                    env as nat,
                    budget,
                    budget.rounds as nat,
                ).0,
            ),
            flow_outcome(r) == exec_loop(
                statement@,
                old(self).machine(),
                env as nat,
                budget,
                budget.rounds as nat,
            ).1,
            r matches Ok(StatementRes::Return { res }) ==> storable(
                res,
                final(self).envs.scopes.len() as nat,
            ),
        decreases budget.depth, 1nat, statement, 0nat,
    {
        let ghost goal = exec_loop(
            statement@,
            old(self).machine(),
            env as nat,
            budget,
            budget.rounds as nat,
        );
        let mut left = budget.rounds;
        loop
            invariant
                self.wf(),
                left <= budget.rounds,
                old(self).envs.scopes.len() <= self.envs.scopes.len(),
                self.envs.current == old(self).envs.current,
                self.budget == old(self).budget,
                exec_loop(statement@, self.machine(), env as nat, budget, left as nat) == goal,
            decreases left,
        {
            let go = match statement {
                Statement::WhileStatement { expr, .. } => match self.eval_in(expr, env, budget) {
                    Err(e) => {
                        return Err(e);
                    },
                    Ok(v) => v,
                },
                Statement::ForStatement { condition, .. } => match condition {
                    Some(cond) => match self.eval_in(cond, env, budget) {
                        Err(e) => {
                            return Err(e);
                        },
                        Ok(v) => v,
                    },
                    None => ExpressionRes::from_bool(true),
                },
                _ => {
                    return Ok(StatementRes::Void);
                },
            };
            if go.type_ != ExprResType::Boolean {
                return Err(RuntimeError::TypeError { found: go.kind() });
            }
            if !go.boolean {
                return Ok(StatementRes::Void);
            }
            if left == 0 {
                return Err(RuntimeError::RoundLimit);
            }
            match statement {
                Statement::WhileStatement { body, .. } => {
                    match self.execute_in(body, env, budget) {
                        Ok(StatementRes::Void) => {},
                        other => {
                            return other;
                        },
                    }
                },
                Statement::ForStatement { increment, body, .. } => {
                    let round = self.envs.new_child(Some(env));
                    match self.execute_in(body, round, budget) {
                        Ok(StatementRes::Void) => {},
                        other => {
                            return other;
                        },
                    }
                    match increment {
                        Some(step) => match self.eval_in(step, round, budget) {
                            Err(e) => {
                                return Err(e);
                            },
                            Ok(_) => {},
                        },
                        None => {},
                    }
                },
                _ => {},
            }
            left = left - 1;
        }
    }

    /// A `print` statement.
    fn execute_print(&mut self, statement: &Statement, env: usize, budget: Budget) -> (r: Result<
        StatementRes,
        RuntimeError,
    >)
        requires
            old(self).wf(),
            env < old(self).envs.scopes.len(),
            statement is PrintStatement,
        ensures
            final(self).follows(
                *old(self),
                exec_stmt(statement@, old(self).machine(), env as nat, budget).0,
            ),
            flow_outcome(r) == exec_stmt(statement@, old(self).machine(), env as nat, budget).1,
            r matches Ok(StatementRes::Return { res }) ==> storable(
                res,
                final(self).envs.scopes.len() as nat,
            ),
        decreases budget.depth, 1nat, statement, 2nat,
    {
        match statement {
            Statement::PrintStatement { expr } => match self.eval_in(expr, env, budget) {
                Err(e) => Err(e),
                Ok(v) => {
                    proof {
                        reveal_strlit("\n");
                    }
                    let text = v.print();
                    self.output.append(text.as_str());
                    self.output.append("\n");
                    assert(self.output@ =~= printed(
                        eval_expr(expr@, old(self).machine(), env as nat, budget).0,
                        v@,
                    ).out);
                    Ok(StatementRes::Void)
                },
            },
            _ => unreached(),
        }
    }

    /// An `if` statement.
    fn execute_if(&mut self, statement: &Statement, env: usize, budget: Budget) -> (r: Result<
        StatementRes,
        RuntimeError,
    >)
        requires
            old(self).wf(),
            env < old(self).envs.scopes.len(),
            statement is IfStatement,
        ensures
            final(self).follows(
                *old(self),
                exec_stmt(statement@, old(self).machine(), env as nat, budget).0,
            ),
            flow_outcome(r) == exec_stmt(statement@, old(self).machine(), env as nat, budget).1,
            r matches Ok(StatementRes::Return { res }) ==> storable(
                res,
                final(self).envs.scopes.len() as nat,
            ),
        decreases budget.depth, 1nat, statement, 2nat,
    {
        match statement {
            Statement::IfStatement { expr, body, else_body } => {
                let cond = match self.eval_in(expr, env, budget) {
                    Err(e) => {
                        return Err(e);
                    },
                    Ok(v) => v,
                };
                if cond.type_ != ExprResType::Boolean {
                    return Err(RuntimeError::TypeError { found: cond.kind() });
                }
                if cond.boolean {
                    self.execute_in(body, env, budget)
                } else {
                    match else_body {
                        Some(other) => self.execute_in(other, env, budget),
                        None => Ok(StatementRes::Void),
                    }
                }
            },
            _ => unreached(),
        }
    }

    /// A `for` statement: the initializer, then the rounds, in a scope of their own.
    fn execute_for(&mut self, statement: &Statement, env: usize, budget: Budget) -> (r: Result<
        StatementRes,
        RuntimeError,
    >)
        requires
            old(self).wf(),
            env < old(self).envs.scopes.len(),
            statement is ForStatement,
        ensures
            final(self).follows(
                *old(self),
                exec_stmt(statement@, old(self).machine(), env as nat, budget).0,
            ),
            flow_outcome(r) == exec_stmt(statement@, old(self).machine(), env as nat, budget).1,
            r matches Ok(StatementRes::Return { res }) ==> storable(
                res,
                final(self).envs.scopes.len() as nat,
            ),
        decreases budget.depth, 1nat, statement, 2nat,
    {
        match statement {
            Statement::ForStatement { initiation, .. } => {
                let scope = self.envs.new_child(Some(env));
                match initiation {
                    None => self.run_loop(statement, scope, budget),
                    Some(first) => match self.execute_in(first, scope, budget) {
                        Ok(StatementRes::Void) => self.run_loop(statement, scope, budget),
                        other => other,
                    },
                }
            },
            _ => unreached(),
        }
    }

    /// A class declaration.
    #[verifier::loop_isolation(false)]
    fn execute_class(&mut self, statement: &Statement, env: usize, budget: Budget) -> (r: Result<
        StatementRes,
        RuntimeError,
    >)
        requires
            old(self).wf(),
            env < old(self).envs.scopes.len(),
            statement is ClassDeclaration,
        ensures
            final(self).follows(
                *old(self),
                exec_stmt(statement@, old(self).machine(), env as nat, budget).0,
            ),
            flow_outcome(r) == exec_stmt(statement@, old(self).machine(), env as nat, budget).1,
            r matches Ok(StatementRes::Return { res }) ==> storable(
                res,
                final(self).envs.scopes.len() as nat,
            ),
        decreases budget.depth, 1nat, statement, 2nat,
    {
        match statement {
            Statement::ClassDeclaration { identifier, functions } => {
                proof {
                    lemma_view_class(identifier, functions);
                }
                let mut methods: Vec<Rc<Function>> = Vec::new();
                let mut i: usize = 0;
                while i < functions.len()
                    invariant
                        i <= functions.len(),
                        methods.len() == i,
                        forall|j: int| 0 <= j < i ==> methods[j] == functions[j],
                    decreases functions.len() - i,
                {
                    methods.push(functions[i].clone());
                    i += 1;
                }
                assert(methods@ =~= functions@);
                let class = Class {
                    name: identifier.clone(),
                    args: constructor_names(functions),
                    methods,
                };
                self.envs.define_in(env, identifier.clone(), ExpressionRes::from_class(class));
                Ok(StatementRes::Void)
            },
            _ => unreached(),
        }
    }

    /// An expression statement.
    fn execute_expression(&mut self, statement: &Statement, env: usize, budget: Budget) -> (r: Result<
        StatementRes,
        RuntimeError,
    >)
        requires
            old(self).wf(),
            env < old(self).envs.scopes.len(),
            statement is Stmt,
        ensures
            final(self).follows(
                *old(self),
                exec_stmt(statement@, old(self).machine(), env as nat, budget).0,
            ),
            flow_outcome(r) == exec_stmt(statement@, old(self).machine(), env as nat, budget).1,
            r matches Ok(StatementRes::Return { res }) ==> storable(
                res,
                final(self).envs.scopes.len() as nat,
            ),
        decreases budget.depth, 1nat, statement, 2nat,
    {
        match statement {
            Statement::Stmt { expr } => match self.eval_in(expr, env, budget) {
                Err(e) => Err(e),
                Ok(_) => Ok(StatementRes::Void),
            },
            _ => unreached(),
        }
    }

    /// A `var` declaration.
    fn execute_var(&mut self, statement: &Statement, env: usize, budget: Budget) -> (r: Result<
        StatementRes,
        RuntimeError,
    >)
        requires
            old(self).wf(),
            env < old(self).envs.scopes.len(),
            statement is VarDeclaration,
        ensures
            final(self).follows(
                *old(self),
                exec_stmt(statement@, old(self).machine(), env as nat, budget).0,
            ),
            flow_outcome(r) == exec_stmt(statement@, old(self).machine(), env as nat, budget).1,
            r matches Ok(StatementRes::Return { res }) ==> storable(
                res,
                final(self).envs.scopes.len() as nat,
            ),
        decreases budget.depth, 1nat, statement, 2nat,
    {
        match statement {
            Statement::VarDeclaration { identifier, expr } => {
                let init = match expr {
                    None => ExpressionRes::from_none(),
                    Some(e) => match self.eval_in(e, env, budget) {
                        Err(e) => {
                            return Err(e);
                        },
                        Ok(v) => v,
                    },
                };
                self.envs.define_in(env, identifier.clone(), init);
                Ok(StatementRes::Void)
            },
            _ => unreached(),
        }
    }

    /// A block.
    fn execute_block(&mut self, statement: &Statement, env: usize, budget: Budget) -> (r: Result<
        StatementRes,
        RuntimeError,
    >)
        requires
            old(self).wf(),
            env < old(self).envs.scopes.len(),
            statement is BlockStatement,
        ensures
            final(self).follows(
                *old(self),
                exec_stmt(statement@, old(self).machine(), env as nat, budget).0,
            ),
            flow_outcome(r) == exec_stmt(statement@, old(self).machine(), env as nat, budget).1,
            r matches Ok(StatementRes::Return { res }) ==> storable(
                res,
                final(self).envs.scopes.len() as nat,
            ),
        decreases budget.depth, 1nat, statement, 2nat,
    {
        match statement {
            Statement::BlockStatement { statements } => {
                proof {
                    lemma_view_block(statements);
                }
                self.run_block(statements, env, budget)
            },
            _ => unreached(),
        }
    }

    /// A `fun` declaration: the closure of the function over the scope `env`.
    fn execute_fun(&mut self, statement: &Statement, env: usize, budget: Budget) -> (r: Result<
        StatementRes,
        RuntimeError,
    >)
        requires
            old(self).wf(),
            env < old(self).envs.scopes.len(),
            statement is FunStatement,
        ensures
            final(self).follows(
                *old(self),
                exec_stmt(statement@, old(self).machine(), env as nat, budget).0,
            ),
            flow_outcome(r) == exec_stmt(statement@, old(self).machine(), env as nat, budget).1,
            r matches Ok(StatementRes::Return { res }) ==> storable(
                res,
                final(self).envs.scopes.len() as nat,
            ),
        decreases budget.depth, 1nat, statement, 2nat,
    {
        match statement {
            Statement::FunStatement { function } => {
                let method = Method::new(function.clone(), env);
                self.envs.define_in(env, function.name.clone(), ExpressionRes::from_method(method));
                Ok(StatementRes::Void)
            },
            _ => unreached(),
        }
    }

    /// A `return` statement.
    fn execute_return(&mut self, statement: &Statement, env: usize, budget: Budget) -> (r: Result<
        StatementRes,
        RuntimeError,
    >)
        requires
            old(self).wf(),
            env < old(self).envs.scopes.len(),
            statement is ReturnStatement,
        ensures
            final(self).follows(
                *old(self),
                exec_stmt(statement@, old(self).machine(), env as nat, budget).0,
            ),
            flow_outcome(r) == exec_stmt(statement@, old(self).machine(), env as nat, budget).1,
            r matches Ok(StatementRes::Return { res }) ==> storable(
                res,
                final(self).envs.scopes.len() as nat,
            ),
        decreases budget.depth, 1nat, statement, 2nat,
    {
        match statement {
            Statement::ReturnStatement { expr } => match expr {
                None => Ok(StatementRes::Return { res: ExpressionRes::from_none() }),
                Some(e) => match self.eval_in(e, env, budget) {
                    Err(e) => Err(e),
                    Ok(res) => Ok(StatementRes::Return { res }),
                },
            },
            _ => unreached(),
        }
    }

    /// The statement `statement` in the scope `env`, on the budget `budget`.
    pub fn execute_in(&mut self, statement: &Statement, env: usize, budget: Budget) -> (r: Result<
        StatementRes,
        RuntimeError,
    >)
        requires
            old(self).wf(),
            env < old(self).envs.scopes.len(),
        ensures
            final(self).follows(
                *old(self),
                exec_stmt(statement@, old(self).machine(), env as nat, budget).0,
            ),
            flow_outcome(r) == exec_stmt(statement@, old(self).machine(), env as nat, budget).1,
            r matches Ok(StatementRes::Return { res }) ==> storable(
                res,
                final(self).envs.scopes.len() as nat,
            ),
        decreases budget.depth, 1nat, statement, 3nat,
    {
        match statement {
            Statement::Stmt { .. } => self.execute_expression(statement, env, budget),
            Statement::PrintStatement { .. } => self.execute_print(statement, env, budget),
            Statement::VarDeclaration { .. } => self.execute_var(statement, env, budget),
            Statement::BlockStatement { .. } => self.execute_block(statement, env, budget),
            Statement::IfStatement { .. } => self.execute_if(statement, env, budget),
            Statement::WhileStatement { .. } => self.run_loop(statement, env, budget),
            Statement::ForStatement { .. } => self.execute_for(statement, env, budget),
            Statement::FunStatement { .. } => self.execute_fun(statement, env, budget),
            Statement::ReturnStatement { .. } => self.execute_return(statement, env, budget),
            Statement::ClassDeclaration { .. } => self.execute_class(statement, env, budget),
        }
    }

    /// Runs one statement in the current scope, on the interpreter's budget.
    pub fn execute(&mut self, statement: &Statement) -> (r: Result<StatementRes, RuntimeError>)
        requires
            old(self).wf(),
        ensures
            final(self).follows(
                *old(self),
                exec_stmt(
                    statement@,
                    old(self).machine(),
                    old(self).envs.current as nat,
                    old(self).budget,
                ).0,
            ),
            flow_outcome(r) == exec_stmt(
                statement@,
                old(self).machine(),
                old(self).envs.current as nat,
                old(self).budget,
            ).1,
    {
        self.execute_in(statement, self.envs.current, self.budget)
    }

    /// Runs a program in the current scope, on the interpreter's budget: its
    /// statements in order, up to the first that returns or fails.
    pub fn run(&mut self, program: &Vec<Statement>) -> (r: Result<StatementRes, RuntimeError>)
        requires
            old(self).wf(),
        ensures
            final(self).follows(
                *old(self),
                run_program(
                    view_statements(program@),
                    old(self).machine(),
                    old(self).envs.current as nat,
                    old(self).budget,
                ).0,
            ),
            flow_outcome(r) == run_program(
                view_statements(program@),
                old(self).machine(),
                old(self).envs.current as nat,
                old(self).budget,
            ).1,
    {
        self.run_seq(program, self.envs.current, self.budget)
    }
}

impl Visitor<Result<ExpressionRes, RuntimeError>> for ExpressionInterpreter {
    open spec fn ready(&self) -> bool {
        self.wf()
    }

    /// The value of `expression` in the current scope, on the interpreter's
    /// budget.
    fn eval(&mut self, expression: &Expression) -> (r: Result<ExpressionRes, RuntimeError>)
        ensures
            final(self).follows(
                *old(self),
                eval_expr(
                    expression@,
                    old(self).machine(),
                    old(self).envs.current as nat,
                    old(self).budget,
                ).0,
            ),
            value_outcome(r) == eval_expr(
                expression@,
                old(self).machine(),
                old(self).envs.current as nat,
                old(self).budget,
            ).1,
    {
        self.eval_in(expression, self.envs.current, self.budget)
    }
}

} // verus!
