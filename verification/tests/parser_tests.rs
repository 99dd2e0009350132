//! The parser, production by production.

use lox_interpreter::expressions::expression::Expression;
use lox_interpreter::grammar::{Expected, ParseError};
use lox_interpreter::parser::{parse, Parser};
use lox_interpreter::statements::statement::{Function, Statement};
use lox_interpreter::token::{Token, TokenType};
use std::rc::Rc;

fn scan(source: &str) -> Vec<Token> {
    lox_interpreter::scanner::scan(source).expect("the text scans")
}

fn parser(source: &str) -> Parser {
    Parser::new(scan(source))
}

fn number(text: &str) -> Expression {
    Expression::LiteralExpr { token_type: TokenType::Number, value: text.to_string() }
}

fn variable(name: &str) -> Expression {
    Expression::VariableExpr { value: name.to_string() }
}

fn binary(op: TokenType, lhs: Expression, rhs: Expression) -> Expression {
    Expression::BinaryExpr { token: op, rhs: Box::new(rhs), lhs: Box::new(lhs) }
}

fn logical(op: TokenType, lhs: Expression, rhs: Expression) -> Expression {
    Expression::Logical { token: op, rhs: Box::new(rhs), lhs: Box::new(lhs) }
}

fn failure(expected: Expected, found: TokenType, position: usize) -> ParseError {
    ParseError { expected, found, position }
}

#[test]
fn new_parser_starts_at_the_first_token() {
    let p = parser("1 + 2");
    assert_eq!(p.current, 0);
    assert_eq!(p.tokens.len(), 4);
    assert_eq!(p.get_current().token_type, TokenType::Number);
    assert!(p.peek_next(TokenType::Number));
    assert!(!p.peek_next(TokenType::Plus));
}

#[test]
fn advance_stops_behind_the_last_token() {
    let mut p = Parser::new(vec![Token::new(TokenType::Semicolon, ";".to_string(), None)]);
    p.advance();
    assert_eq!(p.current, 1);
    p.advance();
    assert_eq!(p.current, 1);
    assert_eq!(p.kind(), TokenType::EOF);
    assert!(!p.peek_next(TokenType::EOF));
}

#[test]
fn consume_steps_over_the_expected_kind_only() {
    let mut p = parser("( )");
    assert_eq!(p.consume(TokenType::LeftParen), Ok(()));
    assert_eq!(p.current, 1);
    assert_eq!(
        p.consume(TokenType::Semicolon),
        Err(failure(Expected::Token(TokenType::Semicolon), TokenType::RightParen, 1))
    );
    assert_eq!(p.current, 1);
}

#[test]
fn primary_reads_literals_and_names() {
    assert_eq!(parser("42").primary(), Ok(number("42")));
    assert_eq!(
        parser("\"hi\"").primary(),
        Ok(Expression::LiteralExpr { token_type: TokenType::String, value: "hi".to_string() })
    );
    assert_eq!(
        parser("true").primary(),
        Ok(Expression::LiteralExpr { token_type: TokenType::True, value: "true".to_string() })
    );
    assert_eq!(
        parser("nil").primary(),
        Ok(Expression::LiteralExpr { token_type: TokenType::Nil, value: "nil".to_string() })
    );
    assert_eq!(parser("x").primary(), Ok(variable("x")));
}

#[test]
fn primary_reads_a_grouping() {
    let mut p = parser("(1)");
    assert_eq!(p.primary(), Ok(Expression::GroupingExpr { value: Box::new(number("1")) }));
    assert_eq!(p.current, 3);
}

#[test]
fn primary_reports_a_missing_right_paren() {
    let mut p = parser("(1;");
    assert_eq!(
        p.primary(),
        Err(failure(Expected::Token(TokenType::RightParen), TokenType::Semicolon, 2))
    );
    assert_eq!(p.current, 2);
}

#[test]
fn primary_reports_what_is_no_expression() {
    assert_eq!(parser(";").primary(), Err(failure(Expected::Expression, TokenType::Semicolon, 0)));
    assert_eq!(
        Parser::new(Vec::new()).primary(),
        Err(failure(Expected::Expression, TokenType::EOF, 0))
    );
}

#[test]
fn factor_binds_tighter_than_term() {
    let expected = binary(
        TokenType::Plus,
        number("1"),
        binary(TokenType::Star, number("2"), number("3")),
    );
    assert_eq!(parser("1 + 2 * 3").expression(), Ok(expected));
}

#[test]
fn binary_operators_associate_to_the_left() {
    let expected = binary(
        TokenType::Minus,
        binary(TokenType::Minus, number("1"), number("2")),
        number("3"),
    );
    assert_eq!(parser("1 - 2 - 3").term(), Ok(expected));
    let expected = binary(
        TokenType::Percent,
        binary(TokenType::Slash, number("8"), number("4")),
        number("3"),
    );
    assert_eq!(parser("8 / 4 % 3").factor(), Ok(expected));
}

#[test]
fn comparison_and_equality_levels() {
    let expected = binary(
        TokenType::EqualEqual,
        binary(TokenType::Less, number("1"), number("2")),
        binary(TokenType::GreaterEqual, number("3"), number("4")),
    );
    assert_eq!(parser("1 < 2 == 3 >= 4").equality(), Ok(expected));
    let mut p = parser("1 < 2 == 3");
    assert_eq!(p.comparison(), Ok(binary(TokenType::Less, number("1"), number("2"))));
    assert_eq!(p.current, 3);
}

#[test]
fn logic_or_is_looser_than_logic_and() {
    let expected = logical(
        TokenType::Or,
        logical(TokenType::And, variable("a"), variable("b")),
        logical(TokenType::And, variable("c"), variable("d")),
    );
    assert_eq!(parser("a and b or c and d").logic_or(), Ok(expected));
    let mut p = parser("a and b or c");
    assert_eq!(p.logic_and(), Ok(logical(TokenType::And, variable("a"), variable("b"))));
    assert_eq!(p.current, 3);
}

#[test]
fn logic_or_chains_more_than_two_operands() {
    let expected = logical(
        TokenType::Or,
        logical(TokenType::Or, variable("a"), variable("b")),
        variable("c"),
    );
    assert_eq!(parser("a or b or c").expression(), Ok(expected));
}

#[test]
fn unary_nests_to_the_right() {
    let expected = Expression::UnaryExpr {
        token: TokenType::Minus,
        rhs: Box::new(Expression::UnaryExpr { token: TokenType::Bang, rhs: Box::new(variable("x")) }),
    };
    assert_eq!(parser("-!x").unary(), Ok(expected));
}

#[test]
fn call_reads_arguments_and_properties() {
    let expected = Expression::Get {
        expr: Box::new(Expression::Call {
            identifier: Box::new(Expression::Call {
                identifier: Box::new(variable("f")),
                args: vec![number("1"), variable("x")],
            }),
            args: vec![],
        }),
        name: "size".to_string(),
    };
    assert_eq!(parser("f(1, x)().size").call(), Ok(expected));
}

#[test]
fn call_reports_a_missing_right_paren() {
    assert_eq!(
        parser("f(1;").call(),
        Err(failure(Expected::Token(TokenType::RightParen), TokenType::Semicolon, 3))
    );
    assert_eq!(
        parser("f(1,)").call(),
        Err(failure(Expected::Expression, TokenType::RightParen, 4))
    );
    assert_eq!(
        parser("a.1").call(),
        Err(failure(Expected::Token(TokenType::Identifier), TokenType::Number, 2))
    );
}

fn call_with(count: usize) -> String {
    let args: Vec<String> = (0..count).map(|i| i.to_string()).collect();
    format!("f({})", args.join(", "))
}

#[test]
fn call_accepts_up_to_255_arguments() {
    match parser(&call_with(255)).call() {
        Ok(Expression::Call { args, .. }) => assert_eq!(args.len(), 255),
        other => panic!("{:?}", other),
    }
    assert_eq!(
        parser(&call_with(256)).call(),
        Err(failure(Expected::FewerArguments, TokenType::Comma, 2 * 255 + 1))
    );
}

#[test]
fn assignment_is_right_associative() {
    let expected = Expression::Assignment {
        identifier: "a".to_string(),
        value: Box::new(Expression::Assignment {
            identifier: "b".to_string(),
            value: Box::new(number("1")),
        }),
    };
    assert_eq!(parser("a = b = 1").assignment(), Ok(expected));
}

#[test]
fn assignment_target_must_be_a_variable() {
    assert_eq!(
        parser("1 = 2").assignment(),
        Err(failure(Expected::Variable, TokenType::Equal, 1))
    );
    assert_eq!(
        parser("a.b = 2").expression(),
        Err(failure(Expected::Variable, TokenType::Equal, 3))
    );
}

#[test]
fn expression_statement_needs_a_semicolon() {
    assert_eq!(parser("x;").expression_statement(), Ok(Statement::Stmt { expr: variable("x") }));
    assert_eq!(
        parser("x").expression_statement(),
        Err(failure(Expected::Token(TokenType::Semicolon), TokenType::EOF, 1))
    );
}

#[test]
fn print_statement_reads_its_expression() {
    assert_eq!(
        parser("print 1;").print_statement(),
        Ok(Statement::PrintStatement { expr: number("1") })
    );
    assert_eq!(
        parser("print 1").print_statement(),
        Err(failure(Expected::Token(TokenType::Semicolon), TokenType::EOF, 2))
    );
    assert_eq!(
        parser("1;").print_statement(),
        Err(failure(Expected::Token(TokenType::Print), TokenType::Number, 0))
    );
}

#[test]
fn return_stmt_with_and_without_a_value() {
    assert_eq!(parser("return;").return_stmt(), Ok(Statement::ReturnStatement { expr: None }));
    assert_eq!(
        parser("return x;").return_stmt(),
        Ok(Statement::ReturnStatement { expr: Some(variable("x")) })
    );
    assert_eq!(
        parser("return x").return_stmt(),
        Err(failure(Expected::Token(TokenType::Semicolon), TokenType::EOF, 2))
    );
}

#[test]
fn variable_declaration_with_and_without_initializer() {
    assert_eq!(
        parser("var a;").variable_declaration(),
        Ok(Statement::VarDeclaration { identifier: "a".to_string(), expr: None })
    );
    assert_eq!(
        parser("var a = 1;").declaration(),
        Ok(Statement::VarDeclaration { identifier: "a".to_string(), expr: Some(number("1")) })
    );
    assert_eq!(
        parser("var 1;").variable_declaration(),
        Err(failure(Expected::Token(TokenType::Identifier), TokenType::Number, 1))
    );
    assert_eq!(
        parser("var a = 1").variable_declaration(),
        Err(failure(Expected::Token(TokenType::Semicolon), TokenType::EOF, 4))
    );
}

#[test]
fn block_reads_declarations_up_to_the_brace() {
    let expected = Statement::BlockStatement {
        statements: vec![
            Statement::VarDeclaration { identifier: "a".to_string(), expr: None },
            Statement::Stmt { expr: variable("a") },
        ],
    };
    let mut p = parser("{ var a; a; } b;");
    assert_eq!(p.block(), Ok(expected));
    assert_eq!(p.current, 7);
    assert_eq!(parser("{}").statement_get(), Ok(Statement::BlockStatement { statements: vec![] }));
}

#[test]
fn block_reports_a_missing_brace() {
    assert_eq!(
        parser("{ a;").block(),
        Err(failure(Expected::Token(TokenType::RightBrace), TokenType::EOF, 3))
    );
    assert_eq!(
        parser("a;").block(),
        Err(failure(Expected::Token(TokenType::LeftBrace), TokenType::Identifier, 0))
    );
}

#[test]
fn if_statement_with_and_without_else() {
    let then_branch = Statement::BlockStatement { statements: vec![Statement::Stmt { expr: number("1") }] };
    let else_branch = Statement::BlockStatement { statements: vec![Statement::Stmt { expr: number("2") }] };
    assert_eq!(
        parser("if (a) { 1; }").if_statement(),
        Ok(Statement::IfStatement {
            expr: variable("a"),
            body: Box::new(Statement::BlockStatement {
                statements: vec![Statement::Stmt { expr: number("1") }]
            }),
            else_body: None,
        })
    );
    assert_eq!(
        parser("if (a) { 1; } else { 2; }").statement_get(),
        Ok(Statement::IfStatement {
            expr: variable("a"),
            body: Box::new(then_branch),
            else_body: Some(Box::new(else_branch)),
        })
    );
}

#[test]
fn if_statement_reports_what_is_missing() {
    assert_eq!(
        parser("if a) {}").if_statement(),
        Err(failure(Expected::Token(TokenType::LeftParen), TokenType::Identifier, 1))
    );
    assert_eq!(
        parser("if (a {}").if_statement(),
        Err(failure(Expected::Token(TokenType::RightParen), TokenType::LeftBrace, 3))
    );
    assert_eq!(
        parser("if (a) 1;").if_statement(),
        Err(failure(Expected::Token(TokenType::LeftBrace), TokenType::Number, 4))
    );
    assert_eq!(
        parser("if (a) {} else 1;").if_statement(),
        Err(failure(Expected::Token(TokenType::LeftBrace), TokenType::Number, 7))
    );
}

#[test]
fn while_block_reads_condition_and_body() {
    assert_eq!(
        parser("while (a) b;").while_block(),
        Ok(Statement::WhileStatement {
            expr: variable("a"),
            body: Box::new(Statement::Stmt { expr: variable("b") }),
        })
    );
}

#[test]
fn for_loop_with_all_clauses() {
    let expected = Statement::ForStatement {
        initiation: Some(Box::new(Statement::VarDeclaration {
            identifier: "i".to_string(),
            expr: Some(number("0")),
        })),
        condition: Some(binary(TokenType::Less, variable("i"), number("3"))),
        increment: Some(Expression::Assignment {
            identifier: "i".to_string(),
            value: Box::new(binary(TokenType::Plus, variable("i"), number("1"))),
        }),
        body: Box::new(Statement::BlockStatement { statements: vec![] }),
    };
    assert_eq!(parser("for (var i = 0; i < 3; i = i + 1) {}").for_loop(), Ok(expected));
}

#[test]
fn for_loop_with_omitted_clauses() {
    assert_eq!(
        parser("for (;;) {}").for_loop(),
        Ok(Statement::ForStatement {
            initiation: None,
            condition: None,
            increment: None,
            body: Box::new(Statement::BlockStatement { statements: vec![] }),
        })
    );
    assert_eq!(
        parser("for (i = 0;; ) x;").statement_get(),
        Ok(Statement::ForStatement {
            initiation: Some(Box::new(Statement::Stmt {
                expr: Expression::Assignment {
                    identifier: "i".to_string(),
                    value: Box::new(number("0")),
                },
            })),
            condition: None,
            increment: None,
            body: Box::new(Statement::Stmt { expr: variable("x") }),
        })
    );
    assert_eq!(
        parser("for (; i < 3; i) x;").for_loop(),
        Ok(Statement::ForStatement {
            initiation: None,
            condition: Some(binary(TokenType::Less, variable("i"), number("3"))),
            increment: Some(variable("i")),
            body: Box::new(Statement::Stmt { expr: variable("x") }),
        })
    );
}

#[test]
fn for_loop_reports_a_missing_paren() {
    assert_eq!(
        parser("for (;; i {}").for_loop(),
        Err(failure(Expected::Token(TokenType::RightParen), TokenType::LeftBrace, 5))
    );
}

#[test]
fn function_reads_name_parameters_and_body() {
    let expected = Function {
        name: "add".to_string(),
        params: vec!["a".to_string(), "b".to_string()],
        body: vec![Statement::ReturnStatement {
            expr: Some(binary(TokenType::Plus, variable("a"), variable("b"))),
        }],
    };
    assert_eq!(parser("add(a, b) { return a + b; }").function(), Ok(expected));
    let expected = Function { name: "f".to_string(), params: vec![], body: vec![] };
    assert_eq!(
        parser("fun f() {}").statement_get(),
        Ok(Statement::FunStatement { function: Rc::new(expected) })
    );
}

#[test]
fn function_reports_what_is_missing() {
    assert_eq!(
        parser("fun () {}").statement_get(),
        Err(failure(Expected::Token(TokenType::Identifier), TokenType::LeftParen, 1))
    );
    assert_eq!(
        parser("f(a,) {}").function(),
        Err(failure(Expected::Token(TokenType::Identifier), TokenType::RightParen, 4))
    );
    assert_eq!(
        parser("f(a b) {}").function(),
        Err(failure(Expected::Token(TokenType::RightParen), TokenType::Identifier, 3))
    );
    assert_eq!(
        parser("f() return;").function(),
        Err(failure(Expected::Token(TokenType::LeftBrace), TokenType::Return, 3))
    );
}

#[test]
fn class_declaration_reads_its_methods() {
    let expected = Statement::ClassDeclaration {
        identifier: "Box".to_string(),
        functions: vec![
            Rc::new(Function {
                name: "value".to_string(),
                params: vec![],
                body: vec![Statement::ReturnStatement { expr: Some(variable("x")) }],
            }),
            Rc::new(Function { name: "set".to_string(), params: vec!["v".to_string()], body: vec![] }),
        ],
    };
    assert_eq!(
        parser("class Box { value() { return x; } set(v) {} }").class_declaration(),
        Ok(expected)
    );
    assert_eq!(
        parser("class A {}").declaration(),
        Ok(Statement::ClassDeclaration { identifier: "A".to_string(), functions: vec![] })
    );
}

#[test]
fn class_declaration_reports_what_is_missing() {
    assert_eq!(
        parser("class { }").class_declaration(),
        Err(failure(Expected::Token(TokenType::Identifier), TokenType::LeftBrace, 1))
    );
    assert_eq!(
        parser("class A f() {}").class_declaration(),
        Err(failure(Expected::Token(TokenType::LeftBrace), TokenType::Identifier, 2))
    );
    assert_eq!(
        parser("class A { f() {}").class_declaration(),
        Err(failure(Expected::Token(TokenType::RightBrace), TokenType::EOF, 8))
    );
}

#[test]
fn program_reads_all_declarations() {
    let mut p = parser("var a = 1; print a;");
    assert_eq!(
        p.program(),
        Ok(vec![
            Statement::VarDeclaration { identifier: "a".to_string(), expr: Some(number("1")) },
            Statement::PrintStatement { expr: variable("a") },
        ])
    );
    assert_eq!(p.kind(), TokenType::EOF);
    assert_eq!(parser("").program(), Ok(vec![]));
    assert_eq!(Parser::new(Vec::new()).program(), Ok(vec![]));
}

#[test]
fn parse_reads_a_whole_token_sequence() {
    assert_eq!(
        parse(scan("print 1; {}")),
        Ok(vec![
            Statement::PrintStatement { expr: number("1") },
            Statement::BlockStatement { statements: vec![] },
        ])
    );
    assert_eq!(
        parse(scan("print 1; }")),
        Err(failure(Expected::Expression, TokenType::RightBrace, 3))
    );
}

#[test]
fn program_stops_at_the_first_error() {
    let mut p = parser("var a = 1; print ; var b;");
    assert_eq!(p.program(), Err(failure(Expected::Expression, TokenType::Semicolon, 6)));
    assert_eq!(p.current, 6);
}

fn operator(kind: TokenType) -> &'static str {
    match kind {
        TokenType::Plus => "+",
        TokenType::Minus => "-",
        TokenType::Star => "*",
        TokenType::Slash => "/",
        TokenType::Percent => "%",
        TokenType::Bang => "!",
        TokenType::BangEqual => "!=",
        TokenType::EqualEqual => "==",
        TokenType::Greater => ">",
        TokenType::GreaterEqual => ">=",
        TokenType::Less => "<",
        TokenType::LessEqual => "<=",
        TokenType::And => "and",
        TokenType::Or => "or",
        other => panic!("no operator: {:?}", other),
    }
}

/// The canonical text of an expression: parentheses where the tree has a
/// grouping, and nowhere else.
fn show_expression(e: &Expression) -> String {
    match e {
        Expression::GroupingExpr { value } => format!("({})", show_expression(value)),
        Expression::BinaryExpr { token, rhs, lhs } | Expression::Logical { token, rhs, lhs } => {
            format!("{} {} {}", show_expression(lhs), operator(*token), show_expression(rhs))
        }
        Expression::UnaryExpr { token, rhs } => format!("{}{}", operator(*token), show_expression(rhs)),
        Expression::LiteralExpr { token_type: TokenType::String, value } => format!("\"{}\"", value),
        Expression::LiteralExpr { value, .. } => value.clone(),
        Expression::VariableExpr { value } => value.clone(),
        Expression::Assignment { identifier, value } => {
            format!("{} = {}", identifier, show_expression(value))
        }
        Expression::Call { identifier, args } => {
            let args: Vec<String> = args.iter().map(show_expression).collect();
            format!("{}({})", show_expression(identifier), args.join(", "))
        }
        Expression::Get { expr, name } => format!("{}.{}", show_expression(expr), name),
    }
}

fn show_function(f: &Function) -> String {
    format!("{}({}) {{ {} }}", f.name, f.params.join(", "), show_statements(&f.body))
}

fn show_statements(stmts: &[Statement]) -> String {
    let shown: Vec<String> = stmts.iter().map(show_statement).collect();
    shown.join(" ")
}

fn show_clause(e: &Option<Expression>) -> String {
    match e {
        Some(e) => show_expression(e),
        None => String::new(),
    }
}

/// The canonical text of a statement.
fn show_statement(s: &Statement) -> String {
    match s {
        Statement::Stmt { expr } => format!("{};", show_expression(expr)),
        Statement::PrintStatement { expr } => format!("print {};", show_expression(expr)),
        Statement::VarDeclaration { identifier, expr: Some(e) } => {
            format!("var {} = {};", identifier, show_expression(e))
        }
        Statement::VarDeclaration { identifier, expr: None } => format!("var {};", identifier),
        Statement::BlockStatement { statements } => format!("{{ {} }}", show_statements(statements)),
        Statement::IfStatement { expr, body, else_body: Some(other) } => format!(
            "if ({}) {} else {}",
            show_expression(expr),
            show_statement(body),
            show_statement(other)
        ),
        Statement::IfStatement { expr, body, else_body: None } => {
            format!("if ({}) {}", show_expression(expr), show_statement(body))
        }
        Statement::WhileStatement { expr, body } => {
            format!("while ({}) {}", show_expression(expr), show_statement(body))
        }
        Statement::ForStatement { initiation, condition, increment, body } => format!(
            "for ({} {}; {}) {}",
            match initiation {
                Some(first) => show_statement(first),
                None => ";".to_string(),
            },
            show_clause(condition),
            show_clause(increment),
            show_statement(body)
        ),
        Statement::FunStatement { function } => format!("fun {}", show_function(function)),
        Statement::ReturnStatement { expr: Some(e) } => format!("return {};", show_expression(e)),
        Statement::ReturnStatement { expr: None } => "return;".to_string(),
        Statement::ClassDeclaration { identifier, functions } => {
            let methods: Vec<String> = functions.iter().map(|f| show_function(f)).collect();
            format!("class {} {{ {} }}", identifier, methods.join(" "))
        }
    }
}

#[test]
fn parsing_a_printed_tree_gives_the_tree_back() {
    let corpus = [
        "print 1 + 2 * 3;",
        "var a = (1 + 2) * -3;",
        "a = b = c or d and !e;",
        "x = (a = 1) + \"s\";",
        "fun f(a, b) { return a(b).c(1, 2); }",
        "class A { m() { x = x + 1; } n(y) { return y; } }",
        "for (var i = 0; i < 3; i = i + 1) { print i; }",
        "for (;;) { }",
        "for (i = 0; ; i = i - 1) var j;",
        "while (a <= b) if (a == b) { return; } else { a = a % 2; }",
        "{ { } var t; }",
        "print -(-1) / (2 - 3) != nil == true;",
    ];
    for source in corpus {
        let tree = parser(source).program().expect(source);
        let printed = show_statements(&tree);
        let again = parser(&printed).program().expect(&printed);
        assert_eq!(tree, again, "{}", printed);
        assert_eq!(show_statements(&again), printed);
    }
}

#[test]
fn a_tree_built_by_hand_survives_printing_and_parsing() {
    let tree = vec![Statement::IfStatement {
        expr: logical(
            TokenType::And,
            binary(TokenType::Greater, variable("a"), number("1")),
            Expression::GroupingExpr {
                value: Box::new(logical(TokenType::Or, variable("b"), variable("c"))),
            },
        ),
        body: Box::new(Statement::BlockStatement {
            statements: vec![Statement::PrintStatement {
                expr: Expression::Call {
                    identifier: Box::new(Expression::Get {
                        expr: Box::new(variable("o")),
                        name: "m".to_string(),
                    }),
                    args: vec![Expression::UnaryExpr {
                        token: TokenType::Minus,
                        rhs: Box::new(number("2")),
                    }],
                },
            }],
        }),
        else_body: None,
    }];
    let printed = show_statements(&tree);
    assert_eq!(printed, "if (a > 1 and (b or c)) { print o.m(-2); }");
    assert_eq!(parser(&printed).program(), Ok(tree));
}

#[test]
fn token_text_prefers_the_literal() {
    let string = Token::new(TokenType::String, "\"hi\"".to_string(), Some("hi".to_string()));
    assert_eq!(string.text(), "hi");
    let name = Token::new(TokenType::Identifier, "x".to_string(), None);
    assert_eq!(name.text(), "x");
    assert_eq!(name.token_type, TokenType::Identifier);
}
