//! Whole programs, from source text to printed output.

use lox_interpreter::driver::{interpret, Failure};
use lox_interpreter::expressions::visitor::ExpressionInterpreter;
use lox_interpreter::grammar::{Expected, ParseError};
use lox_interpreter::parser::Parser;
use lox_interpreter::scanner::ScanError;
use lox_interpreter::semantics::RuntimeError;
use lox_interpreter::statements::stmt_visitor::StatementRes;
use lox_interpreter::token::{Token, TokenType};

fn scan(source: &str) -> Vec<Token> {
    lox_interpreter::scanner::scan(source).expect("the text scans")
}

/// Scans, parses and runs `source`; the printed text and how the run ended.
fn run(source: &str) -> (String, Result<StatementRes, RuntimeError>) {
    let mut parser = Parser::new(scan(source));
    let program = parser.program().expect("the program parses");
    let mut interpreter = ExpressionInterpreter::new();
    let result = interpreter.run(&program);
    (interpreter.output, result)
}

fn output(source: &str) -> String {
    let (out, result) = run(source);
    assert!(matches!(result, Ok(StatementRes::Void)), "{:?}", result);
    out
}

#[test]
fn interpret_runs_source_text() {
    let mut interpreter = ExpressionInterpreter::new();
    assert_eq!(interpret(&mut interpreter, "var a = 20; print a + 1;").map(|_| ()), Ok(()));
    assert_eq!(interpret(&mut interpreter, "print a * 2; // from before").map(|_| ()), Ok(()));
    assert_eq!(interpreter.output, "21\n40\n");
}

#[test]
fn interpret_says_which_step_failed() {
    let mut interpreter = ExpressionInterpreter::new();
    assert_eq!(
        interpret(&mut interpreter, "print 1; @").map(|_| ()),
        Err(Failure::Scan(ScanError { found: '@', position: 9 }))
    );
    assert_eq!(
        interpret(&mut interpreter, "print 1; print ;").map(|_| ()),
        Err(Failure::Parse(ParseError {
            expected: Expected::Expression,
            found: TokenType::Semicolon,
            position: 4,
        }))
    );
    assert_eq!(interpreter.output, "");
    assert_eq!(interpreter.envs.scopes.len(), 1);
    assert_eq!(
        interpret(&mut interpreter, "print 1; print nothing;").map(|_| ()),
        Err(Failure::Runtime(RuntimeError::NameError { name: "nothing".to_string() }))
    );
    assert_eq!(interpreter.output, "1\n");
}

#[test]
fn arithmetic_respects_precedence() {
    assert_eq!(output("print 1 + 2 * 3;"), "7\n");
}

#[test]
fn closures_count() {
    let source = "
        fun makeCounter() {
          var i = 0;
          fun count() { i = i + 1; return i; }
          return count;
        }
        var c = makeCounter();
        print c(); print c(); print c();
    ";
    assert_eq!(output(source), "1\n2\n3\n");
}

#[test]
fn for_loop_sums() {
    assert_eq!(
        output("var s = 0; for (var i = 1; i <= 5; i = i + 1) { s = s + i; } print s;"),
        "15\n"
    );
}

#[test]
fn class_with_method() {
    let source = "
        class Box { value() { return x; } }
        var b = Box(42);
        print b.value();
    ";
    assert_eq!(output(source), "42\n");
}

#[test]
fn logical_operators() {
    assert_eq!(output("print true and false; print true or false;"), "false\ntrue\n");
}

#[test]
fn scope_shadowing() {
    assert_eq!(output("var a = 1; { var a = 2; print a; } print a;"), "2\n1\n");
}
