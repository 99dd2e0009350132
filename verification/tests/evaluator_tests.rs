//! The evaluator: operators, control flow, calls, classes, and how runs fail.

use lox_interpreter::expressions::expression::{ExprResType, Expression, ExpressionRes};
use lox_interpreter::expressions::visitor::{
    binary_operation, literal_value, logical_operation, unary_operation, ExpressionInterpreter,
    Visitor, DEFAULT_DEPTH, DEFAULT_ROUNDS,
};
use lox_interpreter::names::constructor_names;
use lox_interpreter::parser::Parser;
use lox_interpreter::program::program::ProgramEnvs;
use lox_interpreter::semantics::{Budget, RuntimeError};
use lox_interpreter::statements::statement::Statement;
use lox_interpreter::statements::stmt_visitor::StatementRes;
use lox_interpreter::token::{Token, TokenType};

fn scan(source: &str) -> Vec<Token> {
    lox_interpreter::scanner::scan(source).expect("the text scans")
}

fn run(source: &str) -> (String, Result<StatementRes, RuntimeError>) {
    run_within(source, Budget { depth: DEFAULT_DEPTH, rounds: DEFAULT_ROUNDS })
}

fn run_within(source: &str, budget: Budget) -> (String, Result<StatementRes, RuntimeError>) {
    let mut parser = Parser::new(scan(source));
    let program = parser.program().expect("the program parses");
    let mut interpreter = ExpressionInterpreter::new();
    interpreter.budget = budget;
    let result = interpreter.run(&program);
    assert_eq!(interpreter.budget, budget);
    (interpreter.output, result)
}

fn prints(source: &str) -> String {
    let (out, result) = run(source);
    assert!(matches!(result, Ok(StatementRes::Void)), "{:?}", result);
    out
}

fn fails(source: &str) -> RuntimeError {
    match run(source).1 {
        Err(e) => e,
        Ok(other) => panic!("ran to the end: {:?}", other),
    }
}

fn type_error(found: ExprResType) -> RuntimeError {
    RuntimeError::TypeError { found }
}

fn name_error(name: &str) -> RuntimeError {
    RuntimeError::NameError { name: name.to_string() }
}

fn arity_error(expected: usize, found: usize) -> RuntimeError {
    RuntimeError::ArityError { expected, found }
}

fn not_callable(found: ExprResType) -> RuntimeError {
    RuntimeError::CallTargetError { found }
}

fn bad_literal(kind: TokenType) -> RuntimeError {
    RuntimeError::BadLiteral { kind }
}

fn number(n: isize) -> ExpressionRes {
    ExpressionRes::from_number(n)
}

fn text(s: &str) -> ExpressionRes {
    ExpressionRes::from_str(s.to_string())
}

fn as_number(r: Result<ExpressionRes, RuntimeError>) -> isize {
    let v = r.expect("a value");
    assert_eq!(v.type_, ExprResType::Number);
    v.number
}

fn as_bool(r: Result<ExpressionRes, RuntimeError>) -> bool {
    let v = r.expect("a value");
    assert_eq!(v.type_, ExprResType::Boolean);
    v.boolean
}

fn error_of(r: Result<ExpressionRes, RuntimeError>) -> RuntimeError {
    match r {
        Err(e) => e,
        Ok(v) => panic!("a value: {:?}", v),
    }
}

#[test]
fn remainder_is_never_negative() {
    assert_eq!(as_number(binary_operation(TokenType::Percent, &number(-3), &number(2))), 1);
    assert_eq!(as_number(binary_operation(TokenType::Percent, &number(-7), &number(3))), 2);
    assert_eq!(as_number(binary_operation(TokenType::Percent, &number(7), &number(-2))), 1);
    assert_eq!(as_number(binary_operation(TokenType::Percent, &number(6), &number(3))), 0);
    assert_eq!(as_number(binary_operation(TokenType::Percent, &number(isize::MIN), &number(-1))), 0);
    assert_eq!(prints("print (0 - 3) % 2;"), "1\n");
}

#[test]
fn division_rounds_towards_zero() {
    assert_eq!(as_number(binary_operation(TokenType::Slash, &number(7), &number(2))), 3);
    assert_eq!(as_number(binary_operation(TokenType::Slash, &number(-7), &number(2))), -3);
    assert_eq!(as_number(binary_operation(TokenType::Slash, &number(7), &number(-2))), -3);
    assert_eq!(as_number(binary_operation(TokenType::Slash, &number(-7), &number(-2))), 3);
    assert_eq!(as_number(binary_operation(TokenType::Slash, &number(0), &number(5))), 0);
    assert_eq!(
        as_number(binary_operation(TokenType::Slash, &number(isize::MIN), &number(-1))),
        isize::MIN
    );
}

#[test]
fn division_by_zero_is_an_error() {
    assert_eq!(
        error_of(binary_operation(TokenType::Slash, &number(1), &number(0))),
        RuntimeError::DivideByZero
    );
    assert_eq!(
        error_of(binary_operation(TokenType::Percent, &number(1), &number(0))),
        RuntimeError::DivideByZero
    );
    assert_eq!(fails("print 1 / 0;"), RuntimeError::DivideByZero);
}

#[test]
fn arithmetic_wraps_round() {
    assert_eq!(
        as_number(binary_operation(TokenType::Plus, &number(isize::MAX), &number(1))),
        isize::MIN
    );
    assert_eq!(
        as_number(binary_operation(TokenType::Minus, &number(isize::MIN), &number(1))),
        isize::MAX
    );
    assert_eq!(
        as_number(binary_operation(TokenType::Star, &number(isize::MAX), &number(2))),
        -2
    );
    assert_eq!(as_number(unary_operation(TokenType::Minus, &number(isize::MIN))), isize::MIN);
    assert_eq!(as_number(binary_operation(TokenType::Plus, &number(2), &number(3))), 5);
    assert_eq!(as_number(binary_operation(TokenType::Minus, &number(2), &number(3))), -1);
    assert_eq!(as_number(binary_operation(TokenType::Star, &number(-4), &number(3))), -12);
}

#[test]
fn numbers_compare() {
    assert!(as_bool(binary_operation(TokenType::Less, &number(1), &number(2))));
    assert!(!as_bool(binary_operation(TokenType::Less, &number(2), &number(2))));
    assert!(as_bool(binary_operation(TokenType::LessEqual, &number(2), &number(2))));
    assert!(as_bool(binary_operation(TokenType::Greater, &number(3), &number(2))));
    assert!(as_bool(binary_operation(TokenType::GreaterEqual, &number(2), &number(2))));
    assert!(as_bool(binary_operation(TokenType::EqualEqual, &number(2), &number(2))));
    assert!(as_bool(binary_operation(TokenType::BangEqual, &number(1), &number(2))));
    assert!(!as_bool(binary_operation(TokenType::BangEqual, &number(2), &number(2))));
}

#[test]
fn strings_concatenate_and_compare() {
    let joined = binary_operation(TokenType::Plus, &text("ab"), &text("cd")).expect("a value");
    assert_eq!(joined.type_, ExprResType::String);
    assert_eq!(joined.str, "abcd");
    assert!(as_bool(binary_operation(TokenType::EqualEqual, &text("a"), &text("a"))));
    assert!(!as_bool(binary_operation(TokenType::EqualEqual, &text("a"), &text("b"))));
    assert_eq!(
        error_of(binary_operation(TokenType::Minus, &text("a"), &text("b"))),
        type_error(ExprResType::String)
    );
    assert_eq!(prints("print \"a\" + \"b\";"), "ab\n");
}

#[test]
fn mixed_operands_are_a_type_error() {
    assert_eq!(
        error_of(binary_operation(TokenType::Plus, &number(1), &text("a"))),
        type_error(ExprResType::String)
    );
    assert_eq!(
        error_of(binary_operation(TokenType::EqualEqual, &ExpressionRes::from_none(), &number(1))),
        type_error(ExprResType::Nil)
    );
    assert_eq!(
        error_of(binary_operation(TokenType::And, &number(1), &number(1))),
        type_error(ExprResType::Number)
    );
    assert_eq!(fails("print 1 + true;"), type_error(ExprResType::Boolean));
    assert_eq!(fails("print true + 1;"), type_error(ExprResType::Boolean));
    assert_eq!(fails("print \"a\" < \"b\";"), type_error(ExprResType::String));
}

#[test]
fn a_failed_operator_prints_nothing() {
    let (out, result) = run("print 1; print 2 + \"x\"; print 3;");
    assert_eq!(result.err(), Some(type_error(ExprResType::String)));
    assert_eq!(out, "1\n");
}

#[test]
fn unary_operators() {
    assert_eq!(as_number(unary_operation(TokenType::Minus, &number(5))), -5);
    assert!(as_bool(unary_operation(TokenType::Bang, &ExpressionRes::from_bool(false))));
    assert_eq!(
        error_of(unary_operation(TokenType::Bang, &number(5))),
        type_error(ExprResType::Number)
    );
    assert_eq!(
        error_of(unary_operation(TokenType::Minus, &text("a"))),
        type_error(ExprResType::String)
    );
    assert_eq!(prints("print -(1 + 2); print !true;"), "-3\nfalse\n");
}

#[test]
fn logical_operators_need_booleans() {
    let t = ExpressionRes::from_bool(true);
    let f = ExpressionRes::from_bool(false);
    assert!(!as_bool(logical_operation(TokenType::And, &t, &f)));
    assert!(as_bool(logical_operation(TokenType::And, &t, &t)));
    assert!(as_bool(logical_operation(TokenType::Or, &f, &t)));
    assert!(!as_bool(logical_operation(TokenType::Or, &f, &f)));
    assert_eq!(
        error_of(logical_operation(TokenType::Or, &t, &number(1))),
        type_error(ExprResType::Number)
    );
    assert_eq!(
        error_of(logical_operation(TokenType::Plus, &t, &t)),
        type_error(ExprResType::Boolean)
    );
    assert_eq!(fails("print 1 and true;"), type_error(ExprResType::Number));
}

#[test]
fn both_operands_of_a_logical_operator_are_evaluated() {
    let source = "
        fun loud() { print \"called\"; return true; }
        print false and loud();
        print true or loud();
    ";
    assert_eq!(prints(source), "called\nfalse\ncalled\ntrue\n");
}

#[test]
fn operands_are_evaluated_right_to_left() {
    let source = "
        fun a() { print \"a\"; return 1; }
        fun b() { print \"b\"; return 2; }
        print a() - b();
    ";
    assert_eq!(prints(source), "b\na\n-1\n");
}

#[test]
fn literals_have_their_values() {
    assert_eq!(as_number(literal_value(TokenType::Number, &"0042".to_string())), 42);
    assert!(as_bool(literal_value(TokenType::True, &"true".to_string())));
    assert!(!as_bool(literal_value(TokenType::False, &"false".to_string())));
    let nil = literal_value(TokenType::Nil, &"nil".to_string()).expect("a value");
    assert_eq!(nil.type_, ExprResType::Nil);
    let s = literal_value(TokenType::String, &"hi".to_string()).expect("a value");
    assert_eq!(s.str, "hi");
}

#[test]
fn a_literal_that_writes_no_value_is_an_error() {
    assert_eq!(
        error_of(literal_value(TokenType::Number, &"12a".to_string())),
        bad_literal(TokenType::Number)
    );
    assert_eq!(
        error_of(literal_value(TokenType::Number, &"".to_string())),
        bad_literal(TokenType::Number)
    );
    assert_eq!(
        error_of(literal_value(
            TokenType::Number,
            &"99999999999999999999999999999999999999999".to_string()
        )),
        bad_literal(TokenType::Number)
    );
    assert_eq!(
        error_of(literal_value(TokenType::Plus, &"+".to_string())),
        bad_literal(TokenType::Plus)
    );
}

#[test]
fn evaluation_is_deterministic() {
    let source = "
        var total = 0;
        fun add(n) { total = total + n; return total; }
        for (var i = 0; i < 10; i = i + 1) { print add(i) % 7; }
        print total;
    ";
    let (first_out, first) = run(source);
    let (second_out, second) = run(source);
    assert_eq!(first_out, second_out);
    assert!(matches!(first, Ok(StatementRes::Void)));
    assert!(matches!(second, Ok(StatementRes::Void)));
    assert_eq!(first_out, "0\n1\n3\n6\n3\n1\n0\n0\n1\n3\n45\n");
}

#[test]
fn a_variable_of_a_block_is_gone_after_it() {
    assert_eq!(fails("{ var inner = 1; } print inner;"), name_error("inner"));
    assert_eq!(
        fails("fun f() { var local = 1; return local; } f(); print local;"),
        name_error("local")
    );
    assert_eq!(fails("for (var i = 0; i < 1; i = i + 1) {} print i;"), name_error("i"));
}

#[test]
fn a_closure_sees_later_changes_of_its_scope() {
    let source = "
        var x = 1;
        fun show() { print x; }
        show();
        x = 2;
        show();
    ";
    assert_eq!(prints(source), "1\n2\n");
}

#[test]
fn assigning_nil_removes_the_binding() {
    assert_eq!(fails("var a = 1; a = nil; print a;"), name_error("a"));
    assert_eq!(prints("var a = 1; print a = nil;"), "nil\n");
}

#[test]
fn assigning_nil_uncovers_an_outer_binding() {
    assert_eq!(prints("var a = 1; { var a = 2; a = nil; print a; }"), "1\n");
}

#[test]
fn assigning_nil_to_an_unbound_name_changes_nothing() {
    assert_eq!(prints("a = nil; print 1;"), "1\n");
}

#[test]
fn assignment_needs_an_existing_binding() {
    assert_eq!(fails("a = 1;"), name_error("a"));
    assert_eq!(prints("var a = 1; { a = 2; } print a; print a = 3;"), "2\n3\n");
}

#[test]
fn assignment_of_a_variable_copies_its_value() {
    assert_eq!(prints("var a = 1; var b = 2; a = b; b = 3; print a; print b;"), "2\n3\n");
}

#[test]
fn a_declaration_without_initializer_binds_nil() {
    assert_eq!(prints("var a; print a;"), "nil\n");
}

#[test]
fn an_empty_function_body_returns_nil() {
    assert_eq!(prints("fun f() {} print f();"), "nil\n");
    assert_eq!(prints("fun g(a, b) {} print g(1, 2);"), "nil\n");
    assert_eq!(prints("fun h() { return; } print h();"), "nil\n");
}

#[test]
fn a_bare_for_runs_until_something_returns() {
    let source = "
        fun f() {
          var i = 0;
          for (;;) { i = i + 1; if (i == 4) { return i; } }
        }
        print f();
    ";
    assert_eq!(prints(source), "4\n");
}

#[test]
fn a_bare_for_runs_like_while_true() {
    let budget = Budget { depth: 10, rounds: 100 };
    let with_for = run_within("var n = 0; for (;;) { n = n + 1; print n; }", budget);
    let with_while = run_within("var n = 0; { while (true) { n = n + 1; print n; } }", budget);
    assert_eq!(with_for.1.err(), Some(RuntimeError::RoundLimit));
    assert_eq!(with_while.1.err(), Some(RuntimeError::RoundLimit));
    assert_eq!(with_for.0, with_while.0);
    assert_eq!(with_for.0.lines().count(), 100);
}

#[test]
fn a_for_means_its_while() {
    let with_for = run("for (var i = 0; i < 3; i = i + 1) { var j = i * 2; print j; }");
    let with_while =
        run("{ var i = 0; while (i < 3) { { var j = i * 2; print j; } i = i + 1; } }");
    assert!(matches!(with_for.1, Ok(StatementRes::Void)));
    assert!(matches!(with_while.1, Ok(StatementRes::Void)));
    assert_eq!(with_for.0, "0\n2\n4\n");
    assert_eq!(with_for.0, with_while.0);
}

#[test]
fn a_call_without_parameters_and_arguments_succeeds() {
    assert_eq!(prints("fun f() { return 7; } print f();"), "7\n");
}

#[test]
fn an_arity_mismatch_is_reported() {
    assert_eq!(fails("fun f() {} f(1);"), arity_error(0, 1));
    assert_eq!(fails("fun f(a, b) {} f(1);"), arity_error(2, 1));
    assert_eq!(fails("class A { m() { return x; } } A();"), arity_error(1, 0));
    let (out, result) = run("fun loud() { print 1; return 1; } fun f() {} f(loud());");
    assert_eq!(result.err(), Some(arity_error(0, 1)));
    assert_eq!(out, "");
}

#[test]
fn only_functions_and_classes_can_be_called() {
    assert_eq!(fails("var a = 1; a();"), not_callable(ExprResType::Number));
    assert_eq!(fails("\"s\"(1);"), not_callable(ExprResType::String));
    assert_eq!(fails("class A {} var a = A(); a();"), not_callable(ExprResType::Instance));
}

#[test]
fn an_unbound_name_is_a_name_error() {
    assert_eq!(fails("print nothing;"), name_error("nothing"));
    assert_eq!(fails("nothing;"), name_error("nothing"));
    assert_eq!(fails("class A {} var a = A(); a.missing;"), name_error("missing"));
}

#[test]
fn a_property_needs_an_instance() {
    assert_eq!(fails("var a = 1; a.x;"), type_error(ExprResType::Number));
    assert_eq!(fails("class A {} A.x;"), type_error(ExprResType::Class));
}

#[test]
fn conditions_must_be_booleans() {
    assert_eq!(fails("if (1) { }"), type_error(ExprResType::Number));
    assert_eq!(fails("while (nil) { }"), type_error(ExprResType::Nil));
    assert_eq!(fails("for (; 1; ) { }"), type_error(ExprResType::Number));
}

#[test]
fn if_takes_one_branch() {
    assert_eq!(prints("if (1 < 2) { print 1; } else { print 2; }"), "1\n");
    assert_eq!(prints("if (1 > 2) { print 1; } else { print 2; }"), "2\n");
    assert_eq!(prints("if (1 > 2) { print 1; } print 3;"), "3\n");
}

#[test]
fn while_runs_while_its_condition_holds() {
    assert_eq!(prints("var i = 0; while (i < 3) { print i; i = i + 1; }"), "0\n1\n2\n");
    assert_eq!(prints("while (false) { print 1; }"), "");
}

#[test]
fn the_step_of_a_for_sees_the_variables_of_its_round() {
    assert_eq!(prints("for (var i = 0; i < 2; i = i + 1) print i;"), "0\n1\n");
}

#[test]
fn return_unwinds_to_the_nearest_call() {
    let source = "
        fun find() {
          for (var i = 0; i < 10; i = i + 1) {
            { if (i == 3) { return i; } }
          }
          return 0 - 1;
        }
        print find();
        print 9;
    ";
    assert_eq!(prints(source), "3\n9\n");
}

#[test]
fn return_at_the_top_level_ends_the_program() {
    let (out, result) = run("print 1; return 5; print 2;");
    assert_eq!(out, "1\n");
    match result {
        Ok(StatementRes::Return { res }) => assert_eq!(res.number, 5),
        other => panic!("{:?}", other),
    }
}

#[test]
fn recursion_works_within_the_budget() {
    let source = "
        fun fib(n) { if (n < 2) { return n; } return fib(n - 1) + fib(n - 2); }
        print fib(12);
    ";
    assert_eq!(prints(source), "144\n");
}

#[test]
fn endless_recursion_hits_the_depth_limit() {
    let budget = Budget { depth: 50, rounds: 10 };
    let (out, result) = run_within("fun f() { print 1; return f(); } f();", budget);
    assert_eq!(result.err(), Some(RuntimeError::DepthLimit));
    assert_eq!(out.lines().count(), 50);
}

#[test]
fn recursion_works_down_to_the_default_depth() {
    let source = "
        fun down(n) { if (n == 0) { return 0; } return 1 + down(n - 1); }
        print down(255);
    ";
    assert_eq!(prints(source), "255\n");
    let source = "
        fun down(n) { if (n == 0) { return 0; } return 1 + down(n - 1); }
        print down(256);
    ";
    assert_eq!(fails(source), RuntimeError::DepthLimit);
}

#[test]
fn every_loop_has_the_full_number_of_rounds() {
    let budget = Budget { depth: 4, rounds: 3 };
    let source = "
        for (var i = 0; i < 3; i = i + 1) {
          for (var j = 0; j < 3; j = j + 1) { print i * 3 + j; }
        }
    ";
    let (out, result) = run_within(source, budget);
    assert!(matches!(result, Ok(StatementRes::Void)));
    assert_eq!(out.lines().count(), 9);
    let (out, result) = run_within("for (var i = 0; i < 4; i = i + 1) { print i; }", budget);
    assert_eq!(result.err(), Some(RuntimeError::RoundLimit));
    assert_eq!(out, "0\n1\n2\n");
}

#[test]
fn long_loops_run_on_the_default_budget() {
    assert_eq!(
        prints("var s = 0; for (var i = 0; i < 20000; i = i + 1) { s = s + i; } print s;"),
        "199990000\n"
    );
}

#[test]
fn a_budget_of_zero_allows_no_call_and_no_round() {
    let nothing = Budget { depth: 0, rounds: 0 };
    let (out, result) = run_within("print 1 + 2; fun f() {} f();", nothing);
    assert_eq!(result.err(), Some(RuntimeError::DepthLimit));
    assert_eq!(out, "3\n");
    assert_eq!(run_within("while (true) {}", nothing).1.err(), Some(RuntimeError::RoundLimit));
    assert!(matches!(run_within("while (false) {}", nothing).1, Ok(StatementRes::Void)));
    assert!(matches!(run_within("class A {} A();", nothing).1, Ok(StatementRes::Void)));
}

#[test]
fn a_run_within_its_budget_is_the_same_on_a_larger_one() {
    let source = "
        fun fact(n) { if (n < 2) { return 1; } return n * fact(n - 1); }
        for (var i = 1; i < 6; i = i + 1) { print fact(i); }
    ";
    let tight = run_within(source, Budget { depth: 5, rounds: 5 });
    let loose = run_within(source, Budget { depth: 500, rounds: 5000 });
    assert!(matches!(tight.1, Ok(StatementRes::Void)));
    assert!(matches!(loose.1, Ok(StatementRes::Void)));
    assert_eq!(tight.0, "1\n2\n6\n24\n120\n");
    assert_eq!(tight.0, loose.0);
}

#[test]
fn functions_are_values() {
    let source = "
        fun twice(f, x) { return f(f(x)); }
        fun inc(n) { return n + 1; }
        print twice(inc, 5);
        print inc;
    ";
    assert_eq!(prints(source), "7\nfunction :inc\n");
}

#[test]
fn parameters_shadow_the_defining_scope() {
    assert_eq!(prints("var x = 1; fun f(x) { return x; } print f(2); print x;"), "2\n1\n");
}

#[test]
fn classes_and_instances_print_their_names() {
    assert_eq!(prints("class Box {} print Box; print Box();"), "class :Box\ninstance of Box\n");
}

#[test]
fn the_constructor_binds_the_free_names_of_the_methods() {
    let source = "
        class Point {
          sum() { return x + y; }
          scaled(k) { var t = x * k; return t + y; }
          both() { return sum() + scaled(2); }
        }
        var p = Point(3, 4);
        print p.sum();
        print p.scaled(10);
        print p.both();
        print p.x;
    ";
    assert_eq!(prints(source), "7\n34\n17\n3\n");
}

fn constructor_of(source: &str) -> Vec<String> {
    match Parser::new(scan(source)).class_declaration() {
        Ok(Statement::ClassDeclaration { functions, .. }) => constructor_names(&functions),
        other => panic!("no class: {:?}", other),
    }
}

#[test]
fn constructor_names_are_the_free_names_in_order_of_first_use() {
    assert_eq!(constructor_of("class A {}"), Vec::<String>::new());
    assert_eq!(constructor_of("class A { m() { return 1; } }"), Vec::<String>::new());
    assert_eq!(constructor_of("class A { m() { return x; } }"), vec!["x"]);
    assert_eq!(
        constructor_of("class A { m() { return b + a; } n() { a = c; return b; } }"),
        vec!["b", "a", "c"]
    );
}

#[test]
fn constructor_names_leave_out_what_a_method_declares() {
    assert_eq!(constructor_of("class A { m(p) { var t = p; return t + q; } }"), vec!["q"]);
    assert_eq!(
        constructor_of("class A { m() { fun inner(k) { return k + z; } return inner(1); } }"),
        vec!["z"]
    );
    assert_eq!(
        constructor_of("class A { m() { for (var i = 0; i < n; i = i + 1) { print i; } } }"),
        vec!["n"]
    );
    assert_eq!(constructor_of("class A { m() { { var late = 1; } return late; } }"), Vec::<String>::new());
}

#[test]
fn constructor_names_leave_out_the_methods_of_the_class() {
    assert_eq!(
        constructor_of("class A { m() { return n() + x; } n() { return m; } }"),
        vec!["x"]
    );
    assert_eq!(constructor_of("class A { m() { return o.p(q); } }"), vec!["o", "q"]);
}

#[test]
fn a_parameter_of_one_method_is_a_free_name_of_another() {
    assert_eq!(constructor_of("class A { m(x) { return x; } n() { return x; } }"), vec!["x"]);
}

#[test]
fn the_fields_of_an_instance_are_shared_by_its_methods() {
    let source = "
        class Counter {
          next() { n = n + 1; return n; }
          peek() { return n; }
        }
        var a = Counter(0);
        var b = Counter(10);
        print a.next(); print a.next(); print b.next();
        print a.peek(); print b.peek();
    ";
    assert_eq!(prints(source), "1\n2\n11\n2\n11\n");
}

#[test]
fn eval_and_execute_work_in_the_current_scope() {
    let mut interpreter = ExpressionInterpreter::new();
    let declaration = Parser::new(scan("var a = 20;")).declaration().expect("parses");
    assert!(matches!(interpreter.execute(&declaration), Ok(StatementRes::Void)));
    let expression = Parser::new(scan("a + 22")).expression().expect("parses");
    assert_eq!(as_number(interpreter.eval(&expression)), 42);
    let unknown = Expression::VariableExpr { value: "b".to_string() };
    assert_eq!(error_of(interpreter.eval(&unknown)), name_error("b"));
    assert_eq!(interpreter.output, "");
}

#[test]
fn an_interpreter_can_start_from_given_scopes() {
    let mut envs = ProgramEnvs::new();
    envs.define_variable("answer".to_string(), ExpressionRes::from_number(42));
    let mut interpreter = ExpressionInterpreter::new_with_envs(envs);
    assert_eq!(interpreter.budget, Budget { depth: DEFAULT_DEPTH, rounds: DEFAULT_ROUNDS });
    let expression = Parser::new(scan("answer")).expression().expect("parses");
    assert_eq!(as_number(interpreter.eval(&expression)), 42);
}
