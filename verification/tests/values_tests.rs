//! Values, numerals and environments.

use lox_interpreter::env::environment::Environment;
use lox_interpreter::expressions::expression::{ExprResType, ExpressionRes};
use lox_interpreter::numeral::{format_decimal, parse_decimal};
use lox_interpreter::program::program::ProgramEnvs;
use lox_interpreter::program::runtime::{Class, Instance, Method};
use lox_interpreter::statements::statement::Function;
use std::rc::Rc;

fn function(name: &str, params: &[&str]) -> Rc<Function> {
    Rc::new(Function {
        name: name.to_string(),
        params: params.iter().map(|p| p.to_string()).collect(),
        body: vec![],
    })
}

fn class(name: &str) -> Class {
    Class { name: name.to_string(), args: vec!["x".to_string()], methods: vec![function("m", &[])] }
}

#[test]
fn constructors_set_the_kind_and_its_slot() {
    let s = ExpressionRes::from_str("hi".to_string());
    assert_eq!(s.type_, ExprResType::String);
    assert_eq!(s.str, "hi");
    let n = ExpressionRes::from_number(-7);
    assert_eq!(n.type_, ExprResType::Number);
    assert_eq!(n.number, -7);
    let b = ExpressionRes::from_bool(true);
    assert_eq!(b.type_, ExprResType::Boolean);
    assert!(b.boolean);
    let v = ExpressionRes::from_variable("x".to_string());
    assert_eq!(v.type_, ExprResType::Identifier);
    assert_eq!(v.str, "x");
    let nil = ExpressionRes::from_none();
    assert_eq!(nil.type_, ExprResType::Nil);
    assert!(nil.method.is_none() && nil.class.is_none() && nil.instance.is_none());
}

#[test]
fn function_values_hold_their_closure() {
    let f = ExpressionRes::from_method(Method::new(function("add", &["a", "b"]), 3));
    assert_eq!(f.type_, ExprResType::Function);
    assert_eq!(f.get_params_method(), vec!["a".to_string(), "b".to_string()]);
    assert_eq!(f.get_method().captured_env, 3);
    assert_eq!(f.get_method().function.name, "add");
    assert_eq!(f.print(), "function :add");
}

#[test]
fn a_method_can_be_closed_over_another_scope() {
    let m = Method::new(function("f", &[]), 1);
    let rebound = m.prepare_for_call(5);
    assert_eq!(rebound.captured_env, 5);
    assert!(Rc::ptr_eq(&rebound.function, &m.function));
    assert_eq!(m.captured_env, 1);
}

#[test]
fn class_and_instance_values() {
    let c = ExpressionRes::from_class(class("Box"));
    assert_eq!(c.type_, ExprResType::Class);
    assert_eq!(c.print(), "class :Box");
    let shared = Rc::new(class("Box"));
    let instance: Instance = Class::call(&shared, 4);
    assert_eq!(instance.env, 4);
    let i = ExpressionRes::from_instance(instance);
    assert_eq!(i.type_, ExprResType::Instance);
    assert_eq!(i.print(), "instance of Box");
}

#[test]
fn print_gives_the_canonical_text() {
    assert_eq!(ExpressionRes::from_number(0).print(), "0");
    assert_eq!(ExpressionRes::from_number(1234567890).print(), "1234567890");
    assert_eq!(ExpressionRes::from_number(-42).print(), "-42");
    assert_eq!(ExpressionRes::from_number(isize::MIN).print(), isize::MIN.to_string());
    assert_eq!(ExpressionRes::from_number(isize::MAX).print(), isize::MAX.to_string());
    assert_eq!(ExpressionRes::from_bool(true).print(), "true");
    assert_eq!(ExpressionRes::from_bool(false).print(), "false");
    assert_eq!(ExpressionRes::from_none().print(), "nil");
    assert_eq!(ExpressionRes::from_str("as it is".to_string()).print(), "as it is");
    assert_eq!(ExpressionRes::from_str(String::new()).print(), "");
    assert_eq!(ExpressionRes::from_variable("name".to_string()).print(), "name");
}

#[test]
fn copy_keeps_every_slot() {
    let n = ExpressionRes::from_number(9);
    let copied = ExpressionRes::copy(&n);
    assert_eq!(copied.type_, ExprResType::Number);
    assert_eq!(copied.number, 9);
    let f = ExpressionRes::from_method(Method::new(function("f", &["a"]), 2));
    let copied = ExpressionRes::copy(&f);
    assert_eq!(copied.type_, ExprResType::Function);
    assert!(Rc::ptr_eq(copied.get_method(), f.get_method()));
    let i = ExpressionRes::from_instance(Class::call(&Rc::new(class("A")), 1));
    let copied = ExpressionRes::copy(&i);
    assert_eq!(copied.instance.as_ref().map(|x| x.env), Some(1));
    assert_eq!(copied.print(), "instance of A");
}

#[test]
fn kind_is_the_kind_of_the_filled_slot() {
    assert_eq!(ExpressionRes::from_number(1).kind(), ExprResType::Number);
    assert_eq!(ExpressionRes::from_class(class("A")).kind(), ExprResType::Class);
    let mut hollow = ExpressionRes::from_none();
    hollow.type_ = ExprResType::Function;
    assert_eq!(hollow.kind(), ExprResType::Nil);
    assert_eq!(hollow.print(), "nil");
}

#[test]
fn eq_type_compares_kinds_only() {
    let a = ExpressionRes::from_number(1);
    let b = ExpressionRes::from_number(2);
    let s = ExpressionRes::from_str("1".to_string());
    assert!(a.eq_type(&b));
    assert!(!a.eq_type(&s));
    assert!(ExpressionRes::from_none().eq_type(&ExpressionRes::from_none()));
}

#[test]
fn parse_decimal_reads_signed_digits() {
    assert_eq!(parse_decimal("0"), Some(0));
    assert_eq!(parse_decimal("007"), Some(7));
    assert_eq!(parse_decimal("12345"), Some(12345));
    assert_eq!(parse_decimal("-12"), Some(-12));
    assert_eq!(parse_decimal("+12"), Some(12));
    assert_eq!(parse_decimal(&isize::MAX.to_string()), Some(isize::MAX));
    assert_eq!(parse_decimal(&isize::MIN.to_string()), Some(isize::MIN));
}

#[test]
fn parse_decimal_rejects_everything_else() {
    assert_eq!(parse_decimal(""), None);
    assert_eq!(parse_decimal("-"), None);
    assert_eq!(parse_decimal("+"), None);
    assert_eq!(parse_decimal("1 "), None);
    assert_eq!(parse_decimal(" 1"), None);
    assert_eq!(parse_decimal("1.5"), None);
    assert_eq!(parse_decimal("--1"), None);
    assert_eq!(parse_decimal("12a"), None);
    assert_eq!(parse_decimal("\u{663}"), None);
    let above = format!("{}0", isize::MAX);
    assert_eq!(parse_decimal(&above), None);
    let next = (isize::MAX as i128 + 1).to_string();
    assert_eq!(parse_decimal(&next), None);
    let below = (isize::MIN as i128 - 1).to_string();
    assert_eq!(parse_decimal(&below), None);
}

#[test]
fn format_decimal_and_parse_decimal_agree() {
    for n in [0, 1, 9, 10, 99, 100, 101, -1, -10, 4096, isize::MAX, isize::MIN] {
        let text = format_decimal(n);
        assert_eq!(text, n.to_string());
        assert_eq!(parse_decimal(&text), Some(n));
    }
}

#[test]
fn a_scope_defines_overwrites_and_removes() {
    let mut scope = Environment::new(None);
    assert!(scope.get_variable(&"a".to_string()).is_none());
    scope.define_variable("a".to_string(), ExpressionRes::from_number(1));
    scope.define_variable("b".to_string(), ExpressionRes::from_number(2));
    assert_eq!(scope.get_variable(&"a".to_string()).map(|v| v.number), Some(1));
    scope.define_variable("a".to_string(), ExpressionRes::from_number(3));
    assert_eq!(scope.get_variable(&"a".to_string()).map(|v| v.number), Some(3));
    assert_eq!(scope.names.len(), 2);
    assert_eq!(scope.find(&"b".to_string()), Some(1));
    assert!(scope.remove_variable(&"a".to_string()));
    assert!(!scope.remove_variable(&"a".to_string()));
    assert!(scope.get_variable(&"a".to_string()).is_none());
    assert_eq!(scope.get_variable(&"b".to_string()).map(|v| v.number), Some(2));
    assert_eq!(Environment::new_with_enclosing(7).enclosing, Some(7));
}

#[test]
fn lookup_walks_the_parent_chain() {
    let mut envs = ProgramEnvs::new();
    envs.define_variable("a".to_string(), ExpressionRes::from_number(1));
    let child = envs.new_child(Some(0));
    let grandchild = envs.new_child(Some(child));
    assert_eq!(child, 1);
    assert_eq!(grandchild, 2);
    assert_eq!(envs.lookup_in(grandchild, &"a".to_string()).map(|v| v.number), Some(1));
    assert_eq!(envs.resolve_in(grandchild, &"a".to_string()), Some(0));
    assert!(envs.lookup_in(grandchild, &"b".to_string()).is_none());
    let apart = envs.new_child(None);
    assert!(envs.lookup_in(apart, &"a".to_string()).is_none());
}

#[test]
fn shadowing_leaves_the_parent_binding() {
    let mut envs = ProgramEnvs::new();
    envs.define_variable("a".to_string(), ExpressionRes::from_number(1));
    let child = envs.new_child(Some(0));
    envs.define_in(child, "a".to_string(), ExpressionRes::from_number(2));
    assert_eq!(envs.lookup_in(child, &"a".to_string()).map(|v| v.number), Some(2));
    assert_eq!(envs.lookup_var(&"a".to_string()).map(|v| v.number), Some(1));
}

#[test]
fn assign_changes_the_nearest_binding() {
    let mut envs = ProgramEnvs::new();
    envs.define_variable("a".to_string(), ExpressionRes::from_number(1));
    let child = envs.new_child(Some(0));
    assert!(envs.assign_in(child, "a".to_string(), ExpressionRes::from_number(5)));
    assert_eq!(envs.lookup_var(&"a".to_string()).map(|v| v.number), Some(5));
    assert!(!envs.assign_in(child, "b".to_string(), ExpressionRes::from_number(5)));
    assert!(envs.lookup_in(child, &"b".to_string()).is_none());
    assert!(envs.assign_to_existing("a".to_string(), ExpressionRes::from_number(6)));
    assert!(!envs.assign_to_existing("c".to_string(), ExpressionRes::from_number(6)));
    assert_eq!(envs.scopes[child].names.len(), 0);
}

#[test]
fn a_scope_index_sees_later_assignments() {
    let mut envs = ProgramEnvs::new();
    envs.define_variable("a".to_string(), ExpressionRes::from_number(1));
    let holder = envs.resolve_in(0, &"a".to_string()).expect("bound");
    assert!(envs.assign_to_existing("a".to_string(), ExpressionRes::from_number(2)));
    assert_eq!(
        envs.scopes[holder].get_variable(&"a".to_string()).map(|v| v.number),
        Some(2)
    );
}

#[test]
fn remove_deletes_from_the_nearest_scope_that_has_the_name() {
    let mut envs = ProgramEnvs::new();
    envs.define_variable("a".to_string(), ExpressionRes::from_number(1));
    let child = envs.new_child(Some(0));
    envs.define_in(child, "a".to_string(), ExpressionRes::from_number(2));
    assert!(envs.remove_in(child, &"a".to_string()));
    assert_eq!(envs.lookup_in(child, &"a".to_string()).map(|v| v.number), Some(1));
    assert!(envs.remove_in(child, &"a".to_string()));
    assert!(envs.lookup_in(child, &"a".to_string()).is_none());
    assert!(!envs.remove_in(child, &"a".to_string()));
    assert!(!envs.remove_var(&"a".to_string()));
}
