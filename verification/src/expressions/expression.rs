//! The expression tree.

use crate::numeral::{format_decimal, number_text};
use crate::program::runtime::{Class, ClassView, Instance, InstanceView, Method, MethodView};
use crate::token::TokenType;
use std::rc::Rc;
use vstd::prelude::*;
use vstd::string::StringExecFns;

verus! {

/// An expression, as the parser builds it.
#[derive(Debug, PartialEq, Eq)]
#[allow(inconsistent_fields)]
pub enum Expression {
    /// A parenthesised expression.
    GroupingExpr { value: Box<Expression> },
    /// An arithmetic, comparison or equality operator with two operands.
    BinaryExpr { token: TokenType, rhs: Box<Expression>, lhs: Box<Expression> },
    /// `-` or `!` with one operand.
    UnaryExpr { token: TokenType, rhs: Box<Expression> },
    /// A number, string, boolean or nil literal with its source text.
    LiteralExpr { token_type: TokenType, value: String },
    /// The use of a name.
    VariableExpr { value: String },
    /// Assignment to a named variable.
    Assignment { identifier: String, value: Box<Expression> },
    /// `and` or `or` with two operands.
    Logical { token: TokenType, rhs: Box<Expression>, lhs: Box<Expression> },
    /// A call of a function or a class with arguments.
    Call { identifier: Box<Expression>, args: Vec<Expression> },
    /// Property access on an instance.
    Get { expr: Box<Expression>, name: String },
}

/// The mathematical content of an [`Expression`].
#[allow(inconsistent_fields)]
pub enum ExprView {
    Grouping { inner: Box<ExprView> },
    Binary { op: TokenType, lhs: Box<ExprView>, rhs: Box<ExprView> },
    Unary { op: TokenType, operand: Box<ExprView> },
    Literal { kind: TokenType, text: Seq<char> },
    Variable { name: Seq<char> },
    Assign { name: Seq<char>, value: Box<ExprView> },
    Logical { op: TokenType, lhs: Box<ExprView>, rhs: Box<ExprView> },
    Call { callee: Box<ExprView>, args: Seq<ExprView> },
    Get { object: Box<ExprView>, name: Seq<char> },
}

/// The view of an expression, node by node.
pub open spec fn view_expression(e: Expression) -> ExprView
    decreases e,
{
    match e {
        Expression::GroupingExpr { value } => ExprView::Grouping {
            inner: Box::new(view_expression(*value)),
        },
        Expression::BinaryExpr { token, rhs, lhs } => ExprView::Binary {
            op: token,
            lhs: Box::new(view_expression(*lhs)),
            rhs: Box::new(view_expression(*rhs)),
        },
        Expression::UnaryExpr { token, rhs } => ExprView::Unary {
            op: token,
            operand: Box::new(view_expression(*rhs)),
        },
        Expression::LiteralExpr { token_type, value } => ExprView::Literal {
            kind: token_type,
            text: value@,
        },
        Expression::VariableExpr { value } => ExprView::Variable { name: value@ },
        Expression::Assignment { identifier, value } => ExprView::Assign {
            name: identifier@,
            value: Box::new(view_expression(*value)),
        },
        Expression::Logical { token, rhs, lhs } => ExprView::Logical {
            op: token,
            lhs: Box::new(view_expression(*lhs)),
            rhs: Box::new(view_expression(*rhs)),
        },
        Expression::Call { identifier, args } => ExprView::Call {
            callee: Box::new(view_expression(*identifier)),
            args: Seq::new(
                args.len() as nat,
                |i: int|
                    if 0 <= i < args.len() {
                        view_expression(args[i])
                    } else {
                        arbitrary()
                    },
            ),
        },
        Expression::Get { expr, name } => ExprView::Get {
            object: Box::new(view_expression(*expr)),
            name: name@,
        },
    }
}

impl View for Expression {
    type V = ExprView;

    open spec fn view(&self) -> ExprView {
        view_expression(*self)
    }
}

/// The views of a run of expressions.
pub open spec fn view_expressions(es: Seq<Expression>) -> Seq<ExprView> {
    Seq::new(es.len(), |i: int| es[i]@)
}

/// The views of a run of names.
pub open spec fn view_names(names: Seq<String>) -> Seq<Seq<char>> {
    Seq::new(names.len(), |i: int| names[i]@)
}

/// The view of a call is the call of its parts' views.
pub proof fn lemma_view_call(identifier: &Expression, args: &Vec<Expression>)
    ensures
        (Expression::Call { identifier: Box::new(*identifier), args: *args })@ == (ExprView::Call {
            callee: Box::new(identifier@),
            args: view_expressions(args@),
        }),
{
    assert((Expression::Call { identifier: Box::new(*identifier), args: *args })@->Call_args
        =~= view_expressions(args@));
}

/// The kind of a runtime value.
#[derive(Debug, Eq, PartialEq, Clone, Copy, Structural)]
pub enum ExprResType {
    String,
    Number,
    Boolean,
    /// A name that still has to be looked up; never the result of an
    /// evaluation.
    Identifier,
    Function,
    Class,
    Instance,
    Nil,
}

/// A runtime value: a kind and one payload slot per kind. Only the slot of
/// the value's kind has a meaning.
#[derive(Debug)]
pub struct ExpressionRes {
    pub type_: ExprResType,
    pub str: String,
    pub number: isize,
    pub boolean: bool,
    pub method: Option<Rc<Method>>,
    pub class: Option<Rc<Class>>,
    pub instance: Option<Instance>,
}

/// The mathematical content of an [`ExpressionRes`]: a tagged sum.
pub enum Value {
    Str(Seq<char>),
    Number(isize),
    Boolean(bool),
    Nil,
    Identifier(Seq<char>),
    Function(MethodView),
    Class(ClassView),
    Instance(InstanceView),
}

impl Value {
    /// The kind of the value.
    pub open spec fn kind(self) -> ExprResType {
        match self {
            Value::Str(_) => ExprResType::String,
            Value::Number(_) => ExprResType::Number,
            Value::Boolean(_) => ExprResType::Boolean,
            Value::Nil => ExprResType::Nil,
            Value::Identifier(_) => ExprResType::Identifier,
            Value::Function(_) => ExprResType::Function,
            Value::Class(_) => ExprResType::Class,
            Value::Instance(_) => ExprResType::Instance,
        }
    }
}

/// The canonical text of a value.
pub open spec fn print_value(v: Value) -> Seq<char> {
    match v {
        Value::Str(s) => s,
        Value::Number(n) => number_text(n as int),
        Value::Boolean(b) => if b {
            seq!['t', 'r', 'u', 'e']
        } else {
            seq!['f', 'a', 'l', 's', 'e']
        },
        Value::Nil => seq!['n', 'i', 'l'],
        Value::Identifier(name) => name,
        Value::Function(m) => seq!['f', 'u', 'n', 'c', 't', 'i', 'o', 'n', ' ', ':']
            + m.function.name,
        Value::Class(c) => seq!['c', 'l', 'a', 's', 's', ' ', ':'] + c.name,
        Value::Instance(i) => seq!['i', 'n', 's', 't', 'a', 'n', 'c', 'e', ' ', 'o', 'f', ' ']
            + i.class.name,
    }
}

impl View for ExpressionRes {
    type V = Value;

    /// The value of the kind's own slot. A function, class or instance value
    /// whose slot is empty reads as nil.
    open spec fn view(&self) -> Value {
        match self.type_ {
            ExprResType::String => Value::Str(self.str@),
            ExprResType::Number => Value::Number(self.number),
            ExprResType::Boolean => Value::Boolean(self.boolean),
            ExprResType::Nil => Value::Nil,
            ExprResType::Identifier => Value::Identifier(self.str@),
            ExprResType::Function => match self.method {
                Some(m) => Value::Function((*m)@),
                None => Value::Nil,
            },
            ExprResType::Class => match self.class {
                Some(c) => Value::Class((*c)@),
                None => Value::Nil,
            },
            ExprResType::Instance => match self.instance {
                Some(i) => Value::Instance(i@),
                None => Value::Nil,
            },
        }
    }
}

impl ExpressionRes {
    /// Whether the slot of the value's kind is filled.
    pub open spec fn wf(&self) -> bool {
        match self.type_ {
            ExprResType::Function => self.method is Some,
            ExprResType::Class => self.class is Some,
            ExprResType::Instance => self.instance is Some,
            _ => true,
        }
    }

    /// A copy of `p`: strings, numbers and booleans by value; functions,
    /// classes and instances by reference.
    pub fn copy(p: &ExpressionRes) -> (r: ExpressionRes)
        ensures
            r == *p,
    {
        ExpressionRes {
            type_: p.type_,
            str: p.str.clone(),
            number: p.number,
            boolean: p.boolean,
            method: match &p.method {
                Some(m) => Some(m.clone()),
                None => None,
            },
            class: match &p.class {
                Some(c) => Some(c.clone()),
                None => None,
            },
            instance: match &p.instance {
                Some(i) => Some(Instance { class: i.class.clone(), env: i.env }),
                None => None,
            },
        }
    }

    /// The string value `str`.
    pub fn from_str(str: String) -> (r: ExpressionRes)
        ensures
            r@ == Value::Str(str@),
            r.wf(),
    {
        ExpressionRes {
            type_: ExprResType::String,
            str,
            number: 0,
            boolean: false,
            method: None,
            class: None,
            instance: None,
        }
    }

    /// The number value `number`.
    pub fn from_number(number: isize) -> (r: ExpressionRes)
        ensures
            r@ == Value::Number(number),
            r.wf(),
    {
        ExpressionRes {
            type_: ExprResType::Number,
            str: String::new(),
            number,
            boolean: false,
            method: None,
            class: None,
            instance: None,
        }
    }

    /// The boolean value `boolean`.
    pub fn from_bool(boolean: bool) -> (r: ExpressionRes)
        ensures
            r@ == Value::Boolean(boolean),
            r.wf(),
    {
        ExpressionRes {
            type_: ExprResType::Boolean,
            str: String::new(),
            number: 0,
            boolean,
            method: None,
            class: None,
            instance: None,
        }
    }

    /// The placeholder for the name `str`.
    pub fn from_variable(str: String) -> (r: ExpressionRes)
        ensures
            r@ == Value::Identifier(str@),
            r.wf(),
    {
        ExpressionRes {
            type_: ExprResType::Identifier,
            str,
            number: 0,
            boolean: false,
            method: None,
            class: None,
            instance: None,
        }
    }

    /// The function value of the closure `method`.
    pub fn from_method(method: Method) -> (r: ExpressionRes)
        ensures
            r@ == Value::Function(method@),
            r.method == Some(Rc::new(method)),
            r.wf(),
    {
        ExpressionRes {
            type_: ExprResType::Function,
            str: method.function.name.clone(),
            number: 0,
            boolean: false,
            method: Some(Rc::new(method)),
            class: None,
            instance: None,
        }
    }

    /// The class value of `class`.
    pub fn from_class(class: Class) -> (r: ExpressionRes)
        ensures
            r@ == Value::Class(class@),
            r.class == Some(Rc::new(class)),
            r.wf(),
    {
        ExpressionRes {
            type_: ExprResType::Class,
            str: class.name.clone(),
            number: 0,
            boolean: false,
            method: None,
            class: Some(Rc::new(class)),
            instance: None,
        }
    }

    /// The instance value of `instance`.
    pub fn from_instance(instance: Instance) -> (r: ExpressionRes)
        ensures
            r@ == Value::Instance(instance@),
            r.instance == Some(instance),
            r.wf(),
    {
        ExpressionRes {
            type_: ExprResType::Instance,
            str: instance.class.name.clone(),
            number: 0,
            boolean: false,
            method: None,
            class: None,
            instance: Some(instance),
        }
    }

    /// The nil value.
    pub fn from_none() -> (r: ExpressionRes)
        ensures
            r@ == Value::Nil,
            r.wf(),
    {
        ExpressionRes {
            type_: ExprResType::Nil,
            str: String::new(),
            number: 0,
            boolean: false,
            method: None,
            class: None,
            instance: None,
        }
    }

    /// The parameter names of the function in the function slot.
    pub fn get_params_method(&self) -> (args: Vec<String>)
        requires
            self.method is Some,
        ensures
            view_names(args@) == self.method->0.function@.params,
    {
        let method = self.get_method();
        let mut args: Vec<String> = Vec::new();
        let mut i: usize = 0;
        while i < method.function.params.len()
            invariant
                i <= method.function.params.len(),
                args.len() == i,
                forall|j: int| 0 <= j < i ==> args[j]@ == method.function.params[j]@,
            decreases method.function.params.len() - i,
        {
            args.push(method.function.params[i].clone());
            i += 1;
        }
        assert(view_names(args@) =~= view_names(method.function.params@));
        args
    }

    /// The closure in the function slot.
    pub fn get_method(&self) -> (m: &Rc<Method>)
        requires
            self.method is Some,
        ensures
            *m == self.method->0,
    {
        self.method.as_ref().unwrap()
    }

    /// The kind of the value: the kind it is tagged with, or nil where the
    /// slot of that kind is empty.
    pub fn kind(&self) -> (k: ExprResType)
        ensures
            k == self@.kind(),
            self.wf() ==> k == self.type_,
    {
        match self.type_ {
            ExprResType::Function => if self.method.is_some() {
                ExprResType::Function
            } else {
                ExprResType::Nil
            },
            ExprResType::Class => if self.class.is_some() {
                ExprResType::Class
            } else {
                ExprResType::Nil
            },
            ExprResType::Instance => if self.instance.is_some() {
                ExprResType::Instance
            } else {
                ExprResType::Nil
            },
            other => other,
        }
    }

    /// Whether two values have the same kind.
    pub fn eq_type(&self, other: &ExpressionRes) -> (b: bool)
        ensures
            b == (self.type_ == other.type_),
    {
        self.type_ == other.type_
    }

    /// The canonical text of the value: a number in decimal, `true` or
    /// `false`, `nil`, a string as it is, `function :` and the function's
    /// name, `class :` and the class's name, `instance of ` and the name of
    /// the instance's class.
    pub fn print(&self) -> (s: String)
        ensures
            s@ == print_value(self@),
    {
        proof {
            reveal_strlit("true");
            reveal_strlit("false");
            reveal_strlit("nil");
            reveal_strlit("function :");
            reveal_strlit("class :");
            reveal_strlit("instance of ");
        }
        let s = match self.type_ {
            ExprResType::String => self.str.clone(),
            ExprResType::Number => format_decimal(self.number),
            ExprResType::Boolean => if self.boolean {
                String::from_str("true")
            } else {
                String::from_str("false")
            },
            ExprResType::Nil => String::from_str("nil"),
            ExprResType::Identifier => self.str.clone(),
            ExprResType::Function => match &self.method {
                Some(m) => String::from_str("function :").concat(m.function.name.as_str()),
                None => String::from_str("nil"),
            },
            ExprResType::Class => match &self.class {
                Some(c) => String::from_str("class :").concat(c.name.as_str()),
                None => String::from_str("nil"),
            },
            ExprResType::Instance => match &self.instance {
                Some(i) => String::from_str("instance of ").concat(i.class.name.as_str()),
                None => String::from_str("nil"),
            },
        };
        assert(s@ =~= print_value(self@));
        s
    }
}

} // verus!
