//! Function, class and instance objects.
//!
//! Environments live in an arena and are named by their index in it, so an
//! object refers to an environment by that index: every holder of the index
//! sees the same bindings.

use crate::expressions::expression::view_names;
use crate::statements::statement::{view_functions, Function, FunctionView};
use std::rc::Rc;
use vstd::prelude::*;

verus! {

/// A closure: a declared function and the environment it was defined in.
#[derive(Debug)]
pub struct Method {
    pub function: Rc<Function>,
    pub captured_env: usize,
}

/// A class: its name, the names its constructor binds, and its method
/// declarations.
#[derive(Debug)]
pub struct Class {
    pub name: String,
    pub args: Vec<String>,
    pub methods: Vec<Rc<Function>>,
}

/// An instance: its class and the environment that holds its methods, whose
/// parent holds its fields.
#[derive(Debug)]
pub struct Instance {
    pub class: Rc<Class>,
    pub env: usize,
}

/// The mathematical content of a [`Method`].
pub struct MethodView {
    pub function: FunctionView,
    pub env: nat,
}

/// The mathematical content of a [`Class`].
pub struct ClassView {
    pub name: Seq<char>,
    pub params: Seq<Seq<char>>,
    pub methods: Seq<FunctionView>,
}

/// The mathematical content of an [`Instance`].
pub struct InstanceView {
    pub class: ClassView,
    pub env: nat,
}

impl View for Method {
    type V = MethodView;

    open spec fn view(&self) -> MethodView {
        MethodView { function: (*self.function)@, env: self.captured_env as nat }
    }
}

impl View for Class {
    type V = ClassView;

    open spec fn view(&self) -> ClassView {
        ClassView {
            name: self.name@,
            params: view_names(self.args@),
            methods: view_functions(self.methods@),
        }
    }
}

impl View for Instance {
    type V = InstanceView;

    open spec fn view(&self) -> InstanceView {
        InstanceView { class: (*self.class)@, env: self.env as nat }
    }
}

impl Method {
    /// The closure of `function` over the environment `captured_env`.
    pub fn new(function: Rc<Function>, captured_env: usize) -> (m: Method)
        ensures
            m.function == function,
            m.captured_env == captured_env,
    {
        Method { function, captured_env }
    }

    /// The same function closed over the environment `env` instead.
    pub fn prepare_for_call(&self, env: usize) -> (m: Method)
        ensures
            m.function == self.function,
            m.captured_env == env,
    {
        Method { function: self.function.clone(), captured_env: env }
    }
}

impl Class {
    /// An instance of `class` whose methods live in the environment `env`.
    pub fn call(class: &Rc<Class>, env: usize) -> (i: Instance)
        ensures
            i.class == *class,
            i.env == env,
    {
        Instance { class: class.clone(), env }
    }
}

} // verus!
