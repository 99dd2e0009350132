//! The recursive-descent parser: one method per production of the grammar,
//! each proved to compute the grammar function of the same production.

use crate::expressions::expression::{view_expressions, view_names, ExprView, Expression};
use crate::statements::statement::{
    lemma_view_block, lemma_view_class, lemma_view_function, view_functions, view_optional,
    view_statements, Function, FunctionView, Statement, StmtView,
};
use std::rc::Rc;
use crate::grammar::{
    advances, failure, is_operator, kind_at, level_and, level_comparison, level_equality,
    level_factor, level_or, level_term, parse_argument_list, parse_arguments, parse_assignment,
    parse_binary, parse_binary_rest, parse_block, parse_block_items, parse_call,
    parse_call_rest, parse_class_declaration, parse_condition, parse_declaration,
    parse_declarations, parse_expression, parse_expression_statement, parse_for,
    parse_for_condition, parse_for_head, parse_for_initializer, parse_for_step, parse_function,
    parse_if, parse_methods, parse_operand, parse_param_list, parse_params, parse_primary,
    parse_print, parse_program, parse_return, parse_signature, parse_statement, parse_unary,
    parse_var_declaration, parse_while, Expected, ParseError, Parsed, MAX_ARGUMENTS,
};
use crate::token::{view_tokens, Token, TokenType, TokenView};
use vstd::prelude::*;

verus! {

/// A cursor over a token sequence.
pub struct Parser {
    pub tokens: Vec<Token>,
    pub current: usize,
}

/// The grammar outcome that an expression result and a cursor stand for.
pub open spec fn expression_outcome(r: Result<Expression, ParseError>, cursor: usize) -> Parsed<
    ExprView,
> {
    match r {
        Ok(e) => Ok((e@, cursor as int)),
        Err(e) => Err(e),
    }
}

/// The grammar outcome that a statement result and a cursor stand for.
pub open spec fn statement_outcome(r: Result<Statement, ParseError>, cursor: usize) -> Parsed<
    StmtView,
> {
    match r {
        Ok(s) => Ok((s@, cursor as int)),
        Err(e) => Err(e),
    }
}

/// The grammar outcome that a run of statements and a cursor stand for.
pub open spec fn statements_outcome(r: Result<Vec<Statement>, ParseError>, cursor: usize) -> Parsed<
    Seq<StmtView>,
> {
    match r {
        Ok(v) => Ok((view_statements(v@), cursor as int)),
        Err(e) => Err(e),
    }
}

/// Whether `kind` is an operator of the binary level `level`.
fn operator_of(level: u8, kind: TokenType) -> (b: bool)
    ensures
        b == is_operator(level as int, kind),
{
    match level {
        0 => kind == TokenType::Or,
        1 => kind == TokenType::And,
        2 => kind == TokenType::BangEqual || kind == TokenType::EqualEqual,
        3 => kind == TokenType::Greater || kind == TokenType::GreaterEqual || kind
            == TokenType::Less || kind == TokenType::LessEqual,
        4 => kind == TokenType::Minus || kind == TokenType::Plus,
        5 => kind == TokenType::Slash || kind == TokenType::Star || kind == TokenType::Percent,
        _ => false,
    }
}

impl Parser {
    /// The token sequence, as the grammar sees it.
    pub open spec fn stream(&self) -> Seq<TokenView> {
        view_tokens(self.tokens@)
    }

    /// Where a production left the cursor: behind what it parsed, having
    /// consumed at least one token, or on the token of the error.
    pub open spec fn rests<T>(&self, before: Parser, outcome: Parsed<T>) -> bool {
        &&& self.tokens == before.tokens
        &&& match outcome {
            Ok((_, next)) => self.current == next && advances(
                before.stream(),
                before.current as int,
                next,
            ),
            Err(e) => self.current == e.position,
        }
    }

    /// A parser at the start of `tokens`.
    pub fn new(tokens: Vec<Token>) -> (p: Parser)
        ensures
            p.tokens == tokens,
            p.current == 0,
    {
        Parser { tokens, current: 0 }
    }

    /// The kind of the current token; `EOF` behind the last token.
    pub fn kind(&self) -> (k: TokenType)
        ensures
            k == kind_at(self.stream(), self.current as int),
            self.current >= self.tokens.len() ==> k == TokenType::EOF,
    {
        if self.current < self.tokens.len() {
            self.tokens[self.current].token_type
        } else {
            TokenType::EOF
        }
    }

    /// The current token.
    pub fn get_current(&self) -> (t: &Token)
        requires
            self.current < self.tokens.len(),
        ensures
            *t == self.tokens[self.current as int],
    {
        &self.tokens[self.current]
    }

    /// Whether there is a current token and it has the kind `token`.
    pub fn peek_next(&self, token: TokenType) -> (b: bool)
        ensures
            b == (self.current < self.tokens.len() && self.stream()[self.current as int].kind
                == token),
    {
        self.current < self.tokens.len() && self.tokens[self.current].token_type == token
    }

    /// Moves the cursor one token on, unless it is behind the last token.
    pub fn advance(&mut self)
        ensures
            final(self).tokens == old(self).tokens,
            final(self).current == if old(self).current < old(self).tokens.len() {
                old(self).current + 1
            } else {
                old(self).current as int
            },
    {
        if self.current < self.tokens.len() {
            self.current += 1;
        }
    }

    /// Steps over the current token if there is one and it has the kind
    /// `token`; else reports that kind as expected here and leaves the
    /// cursor.
    pub fn consume(&mut self, token: TokenType) -> (r: Result<(), ParseError>)
        ensures
            final(self).tokens == old(self).tokens,
            r is Ok <==> old(self).current < old(self).tokens.len() && old(self).stream()[old(
                self,
            ).current as int].kind == token,
            token != TokenType::EOF ==> (r is Ok <==> kind_at(
                old(self).stream(),
                old(self).current as int,
            ) == token),
            r is Ok ==> final(self).current == old(self).current + 1,
            r matches Err(e) ==> final(self).current == old(self).current && e == failure(
                old(self).stream(),
                old(self).current as int,
                Expected::Token(token),
            ),
    {
        if self.peek_next(token) {
            self.current += 1;
            Ok(())
        } else {
            Err(self.unexpected(Expected::Token(token)))
        }
    }

    /// The error of a production that wanted `expected` at the cursor.
    fn unexpected(&self, expected: Expected) -> (e: ParseError)
        ensures
            e == failure(self.stream(), self.current as int, expected),
    {
        ParseError { expected, found: self.kind(), position: self.current }
    }

    /// `primary`.
    pub fn primary(&mut self) -> (r: Result<Expression, ParseError>)
        ensures
            expression_outcome(r, final(self).current) == parse_primary(
                old(self).stream(),
                old(self).current as int,
            ),
            final(self).rests(*old(self), parse_primary(old(self).stream(), old(self).current as int)),
        decreases old(self).tokens.len() - old(self).current, 0int,
    {
        match self.kind() {
            TokenType::False | TokenType::True | TokenType::Nil | TokenType::String | TokenType::Number => {
                let token = &self.tokens[self.current];
                let e = Expression::LiteralExpr { token_type: token.token_type, value: token.text() };
                self.current += 1;
                Ok(e)
            },
            TokenType::Identifier => {
                let e = Expression::VariableExpr { value: self.tokens[self.current].lexeme.clone() };
                self.current += 1;
                Ok(e)
            },
            TokenType::LeftParen => {
                self.current += 1;
                match self.expression() {
                    Err(e) => Err(e),
                    Ok(inner) => {
                        match self.consume(TokenType::RightParen) {
                            Err(e) => Err(e),
                            Ok(()) => Ok(Expression::GroupingExpr { value: Box::new(inner) }),
                        }
                    },
                }
            },
            _ => Err(self.unexpected(Expected::Expression)),
        }
    }

    /// `args?`: the arguments of a call, the cursor behind its `(`.
    #[verifier::loop_isolation(false)]
    fn arguments(&mut self) -> (r: Result<Vec<Expression>, ParseError>)
        ensures
            match r {
                Ok(args) => parse_arguments(old(self).stream(), old(self).current as int) == Ok::<
                    (Seq<ExprView>, int),
                    ParseError,
                >((view_expressions(args@), final(self).current as int)),
                Err(e) => parse_arguments(old(self).stream(), old(self).current as int) == Err::<
                    (Seq<ExprView>, int),
                    ParseError,
                >(e) && final(self).current == e.position,
            },
            final(self).tokens == old(self).tokens,
            r is Ok ==> old(self).current <= final(self).current <= old(self).tokens.len(),
        decreases old(self).tokens.len() - old(self).current, 22int,
    {
        let mut args: Vec<Expression> = Vec::new();
        if self.kind() == TokenType::RightParen {
            assert(view_expressions(args@) =~= Seq::empty());
            return Ok(args);
        }
        let ghost ts = self.stream();
        let ghost start = self.current as int;
        assert(view_expressions(args@) =~= Seq::empty());
        loop
            invariant
                self.tokens == old(self).tokens,
                start <= self.current,
                self.current == start || self.current <= self.tokens.len(),
                args.len() < MAX_ARGUMENTS,
                parse_argument_list(ts, self.current as int, view_expressions(args@))
                    == parse_arguments(ts, start),
            decreases self.tokens.len() - self.current,
        {
            let ghost before = view_expressions(args@);
            match self.expression() {
                Err(e) => {
                    return Err(e);
                },
                Ok(arg) => {
                    let ghost arg_view = arg@;
                    args.push(arg);
                    assert(view_expressions(args@) =~= before.push(arg_view));
                    if self.kind() != TokenType::Comma {
                        return Ok(args);
                    }
                    if args.len() >= MAX_ARGUMENTS {
                        return Err(self.unexpected(Expected::FewerArguments));
                    }
                    self.current += 1;
                },
            }
        }
    }

    /// `call`.
    #[verifier::loop_isolation(false)]
    pub fn call(&mut self) -> (r: Result<Expression, ParseError>)
        ensures
            expression_outcome(r, final(self).current) == parse_call(
                old(self).stream(),
                old(self).current as int,
            ),
            final(self).rests(*old(self), parse_call(old(self).stream(), old(self).current as int)),
        decreases old(self).tokens.len() - old(self).current, 1int,
    {
        let ghost ts = self.stream();
        let ghost start = self.current as int;
        let mut res = match self.primary() {
            Err(e) => {
                return Err(e);
            },
            Ok(e) => e,
        };
        loop
            invariant
                self.tokens == old(self).tokens,
                start < self.current <= self.tokens.len(),
                parse_call_rest(ts, self.current as int, res@) == parse_call(ts, start),
            decreases self.tokens.len() - self.current,
        {
            match self.kind() {
                TokenType::LeftParen => {
                    self.current += 1;
                    match self.arguments() {
                        Err(e) => {
                            return Err(e);
                        },
                        Ok(args) => {
                            match self.consume(TokenType::RightParen) {
                                Err(e) => {
                                    return Err(e);
                                },
                                Ok(()) => {
                                    let ghost callee = res@;
                                    let ghost arg_views = view_expressions(args@);
                                    res = Expression::Call { identifier: Box::new(res), args };
                                    assert(res@->Call_args =~= arg_views);
                                    assert(res@ == (ExprView::Call {
                                        callee: Box::new(callee),
                                        args: arg_views,
                                    }));
                                },
                            }
                        },
                    }
                },
                TokenType::Dot => {
                    self.current += 1;
                    if self.kind() == TokenType::Identifier {
                        let name = self.tokens[self.current].lexeme.clone();
                        self.current += 1;
                        res = Expression::Get { expr: Box::new(res), name };
                    } else {
                        return Err(self.unexpected(Expected::Token(TokenType::Identifier)));
                    }
                },
                _ => {
                    return Ok(res);
                },
            }
        }
    }

    /// `unary`.
    pub fn unary(&mut self) -> (r: Result<Expression, ParseError>)
        ensures
            expression_outcome(r, final(self).current) == parse_unary(
                old(self).stream(),
                old(self).current as int,
            ),
            final(self).rests(*old(self), parse_unary(old(self).stream(), old(self).current as int)),
        decreases old(self).tokens.len() - old(self).current, 2int,
    {
        let kind = self.kind();
        if kind == TokenType::Bang || kind == TokenType::Minus {
            self.current += 1;
            match self.unary() {
                Err(e) => Err(e),
                Ok(rhs) => Ok(Expression::UnaryExpr { token: kind, rhs: Box::new(rhs) }),
            }
        } else {
            self.call()
        }
    }

    /// The operand of the binary level `level`.
    fn operand(&mut self, level: u8) -> (r: Result<Expression, ParseError>)
        requires
            level <= 5,
        ensures
            expression_outcome(r, final(self).current) == parse_operand(
                old(self).stream(),
                old(self).current as int,
                level as int,
            ),
            final(self).rests(
                *old(self),
                parse_operand(old(self).stream(), old(self).current as int, level as int),
            ),
        decreases old(self).tokens.len() - old(self).current, 15 - 2 * level,
    {
        if level < 5 {
            self.binary(level + 1)
        } else {
            self.unary()
        }
    }

    /// One binary level of the expression grammar: level 0 is `logic_or`,
    /// level 5 is `factor`.
    #[verifier::loop_isolation(false)]
    fn binary(&mut self, level: u8) -> (r: Result<Expression, ParseError>)
        requires
            level <= 5,
        ensures
            expression_outcome(r, final(self).current) == parse_binary(
                old(self).stream(),
                old(self).current as int,
                level as int,
            ),
            final(self).rests(
                *old(self),
                parse_binary(old(self).stream(), old(self).current as int, level as int),
            ),
        decreases old(self).tokens.len() - old(self).current, 16 - 2 * level,
    {
        let ghost ts = self.stream();
        let ghost start = self.current as int;
        let mut lhs = match self.operand(level) {
            Err(e) => {
                return Err(e);
            },
            Ok(e) => e,
        };
        loop
            invariant
                self.tokens == old(self).tokens,
                start < self.current <= self.tokens.len(),
                parse_binary_rest(ts, self.current as int, level as int, lhs@) == parse_binary(
                    ts,
                    start,
                    level as int,
                ),
            decreases self.tokens.len() - self.current,
        {
            let op = self.kind();
            if !operator_of(level, op) {
                return Ok(lhs);
            }
            self.current += 1;
            match self.operand(level) {
                Err(e) => {
                    return Err(e);
                },
                Ok(rhs) => {
                    lhs = if level < 2 {
                        Expression::Logical { token: op, rhs: Box::new(rhs), lhs: Box::new(lhs) }
                    } else {
                        Expression::BinaryExpr { token: op, rhs: Box::new(rhs), lhs: Box::new(lhs) }
                    };
                },
            }
        }
    }

    /// `logic_or`.
    pub fn logic_or(&mut self) -> (r: Result<Expression, ParseError>)
        ensures
            expression_outcome(r, final(self).current) == parse_binary(
                old(self).stream(),
                old(self).current as int,
                level_or(),
            ),
            final(self).rests(
                *old(self),
                parse_binary(old(self).stream(), old(self).current as int, level_or()),
            ),
    {
        self.binary(0)
    }

    /// `logic_and`.
    pub fn logic_and(&mut self) -> (r: Result<Expression, ParseError>)
        ensures
            expression_outcome(r, final(self).current) == parse_binary(
                old(self).stream(),
                old(self).current as int,
                level_and(),
            ),
            final(self).rests(
                *old(self),
                parse_binary(old(self).stream(), old(self).current as int, level_and()),
            ),
    {
        self.binary(1)
    }

    /// `equality`.
    pub fn equality(&mut self) -> (r: Result<Expression, ParseError>)
        ensures
            expression_outcome(r, final(self).current) == parse_binary(
                old(self).stream(),
                old(self).current as int,
                level_equality(),
            ),
            final(self).rests(
                *old(self),
                parse_binary(old(self).stream(), old(self).current as int, level_equality()),
            ),
    {
        self.binary(2)
    }

    /// `comparison`.
    pub fn comparison(&mut self) -> (r: Result<Expression, ParseError>)
        ensures
            expression_outcome(r, final(self).current) == parse_binary(
                old(self).stream(),
                old(self).current as int,
                level_comparison(),
            ),
            final(self).rests(
                *old(self),
                parse_binary(old(self).stream(), old(self).current as int, level_comparison()),
            ),
    {
        self.binary(3)
    }

    /// `term`.
    pub fn term(&mut self) -> (r: Result<Expression, ParseError>)
        ensures
            expression_outcome(r, final(self).current) == parse_binary(
                old(self).stream(),
                old(self).current as int,
                level_term(),
            ),
            final(self).rests(
                *old(self),
                parse_binary(old(self).stream(), old(self).current as int, level_term()),
            ),
    {
        self.binary(4)
    }

    /// `factor`.
    pub fn factor(&mut self) -> (r: Result<Expression, ParseError>)
        ensures
            expression_outcome(r, final(self).current) == parse_binary(
                old(self).stream(),
                old(self).current as int,
                level_factor(),
            ),
            final(self).rests(
                *old(self),
                parse_binary(old(self).stream(), old(self).current as int, level_factor()),
            ),
    {
        self.binary(5)
    }

    /// `assignment`.
    pub fn assignment(&mut self) -> (r: Result<Expression, ParseError>)
        ensures
            expression_outcome(r, final(self).current) == parse_assignment(
                old(self).stream(),
                old(self).current as int,
            ),
            final(self).rests(
                *old(self),
                parse_assignment(old(self).stream(), old(self).current as int),
            ),
        decreases old(self).tokens.len() - old(self).current, 19int,
    {
        let lhs = match self.binary(0) {
            Err(e) => {
                return Err(e);
            },
            Ok(e) => e,
        };
        if self.kind() != TokenType::Equal {
            return Ok(lhs);
        }
        match lhs {
            Expression::VariableExpr { value: identifier } => {
                self.current += 1;
                match self.assignment() {
                    Err(e) => Err(e),
                    Ok(value) => Ok(Expression::Assignment { identifier, value: Box::new(value) }),
                }
            },
            _ => Err(self.unexpected(Expected::Variable)),
        }
    }

    /// `expression`.
    pub fn expression(&mut self) -> (r: Result<Expression, ParseError>)
        ensures
            expression_outcome(r, final(self).current) == parse_expression(
                old(self).stream(),
                old(self).current as int,
            ),
            final(self).rests(
                *old(self),
                parse_expression(old(self).stream(), old(self).current as int),
            ),
        decreases old(self).tokens.len() - old(self).current, 20int,
    {
        self.assignment()
    }

    /// `exprStmt`.
    pub fn expression_statement(&mut self) -> (r: Result<Statement, ParseError>)
        ensures
            statement_outcome(r, final(self).current) == parse_expression_statement(
                old(self).stream(),
                old(self).current as int,
            ),
            final(self).rests(
                *old(self),
                parse_expression_statement(old(self).stream(), old(self).current as int),
            ),
    {
        proof {
            reveal(parse_expression_statement);
        }
        let expr = match self.expression() {
            Err(e) => {
                return Err(e);
            },
            Ok(e) => e,
        };
        match self.consume(TokenType::Semicolon) {
            Err(e) => Err(e),
            Ok(()) => Ok(Statement::Stmt { expr }),
        }
    }

    /// `printStmt`.
    pub fn print_statement(&mut self) -> (r: Result<Statement, ParseError>)
        ensures
            statement_outcome(r, final(self).current) == parse_print(
                old(self).stream(),
                old(self).current as int,
            ),
            final(self).rests(*old(self), parse_print(old(self).stream(), old(self).current as int)),
    {
        proof {
            reveal(parse_print);
        }
        match self.consume(TokenType::Print) {
            Err(e) => {
                return Err(e);
            },
            Ok(()) => {},
        }
        let expr = match self.expression() {
            Err(e) => {
                return Err(e);
            },
            Ok(e) => e,
        };
        match self.consume(TokenType::Semicolon) {
            Err(e) => Err(e),
            Ok(()) => Ok(Statement::PrintStatement { expr }),
        }
    }

    /// `returnStmt`.
    pub fn return_stmt(&mut self) -> (r: Result<Statement, ParseError>)
        ensures
            statement_outcome(r, final(self).current) == parse_return(
                old(self).stream(),
                old(self).current as int,
            ),
            final(self).rests(*old(self), parse_return(old(self).stream(), old(self).current as int)),
    {
        proof {
            reveal(parse_return);
        }
        match self.consume(TokenType::Return) {
            Err(e) => {
                return Err(e);
            },
            Ok(()) => {},
        }
        if self.kind() == TokenType::Semicolon {
            self.current += 1;
            return Ok(Statement::ReturnStatement { expr: None });
        }
        let expr = match self.expression() {
            Err(e) => {
                return Err(e);
            },
            Ok(e) => e,
        };
        match self.consume(TokenType::Semicolon) {
            Err(e) => Err(e),
            Ok(()) => Ok(Statement::ReturnStatement { expr: Some(expr) }),
        }
    }

    /// The lexeme of the current token, stepping over it, if it is an
    /// identifier; else the error that wants one here.
    fn identifier(&mut self) -> (r: Result<String, ParseError>)
        ensures
            final(self).tokens == old(self).tokens,
            r is Ok <==> kind_at(old(self).stream(), old(self).current as int)
                == TokenType::Identifier,
            r matches Ok(name) ==> old(self).current < old(self).tokens.len() && final(self).current
                == old(self).current + 1 && name@ == old(self).stream()[old(self).current as int].lexeme,
            r matches Err(e) ==> final(self).current == old(self).current && e == failure(
                old(self).stream(),
                old(self).current as int,
                Expected::Token(TokenType::Identifier),
            ),
    {
        if self.kind() == TokenType::Identifier {
            let name = self.tokens[self.current].lexeme.clone();
            self.current += 1;
            Ok(name)
        } else {
            Err(self.unexpected(Expected::Token(TokenType::Identifier)))
        }
    }

    /// `varDecl`.
    pub fn variable_declaration(&mut self) -> (r: Result<Statement, ParseError>)
        ensures
            statement_outcome(r, final(self).current) == parse_var_declaration(
                old(self).stream(),
                old(self).current as int,
            ),
            final(self).rests(
                *old(self),
                parse_var_declaration(old(self).stream(), old(self).current as int),
            ),
    {
        proof {
            reveal(parse_var_declaration);
        }
        match self.consume(TokenType::Var) {
            Err(e) => {
                return Err(e);
            },
            Ok(()) => {},
        }
        let identifier = match self.identifier() {
            Err(e) => {
                return Err(e);
            },
            Ok(name) => name,
        };
        if self.kind() == TokenType::Equal {
            self.current += 1;
            let init = match self.expression() {
                Err(e) => {
                    return Err(e);
                },
                Ok(e) => e,
            };
            match self.consume(TokenType::Semicolon) {
                Err(e) => Err(e),
                Ok(()) => Ok(Statement::VarDeclaration { identifier, expr: Some(init) }),
            }
        } else {
            match self.consume(TokenType::Semicolon) {
                Err(e) => Err(e),
                Ok(()) => Ok(Statement::VarDeclaration { identifier, expr: None }),
            }
        }
    }

    /// `params?`: the parameter names of a function, the cursor behind its
    /// `(`.
    #[verifier::loop_isolation(false)]
    fn params(&mut self) -> (r: Result<Vec<String>, ParseError>)
        ensures
            match r {
                Ok(names) => parse_params(old(self).stream(), old(self).current as int) == Ok::<
                    (Seq<Seq<char>>, int),
                    ParseError,
                >((view_names(names@), final(self).current as int)),
                Err(e) => parse_params(old(self).stream(), old(self).current as int) == Err::<
                    (Seq<Seq<char>>, int),
                    ParseError,
                >(e) && final(self).current == e.position,
            },
            final(self).tokens == old(self).tokens,
            r is Ok ==> old(self).current <= final(self).current <= old(self).tokens.len(),
    {
        proof {
            reveal(parse_params);
        }
        let mut names: Vec<String> = Vec::new();
        assert(view_names(names@) =~= Seq::empty());
        if self.kind() == TokenType::RightParen {
            return Ok(names);
        }
        let ghost ts = self.stream();
        let ghost start = self.current as int;
        loop
            invariant
                self.tokens == old(self).tokens,
                start <= self.current,
                self.current == start || self.current <= self.tokens.len(),
                parse_param_list(ts, self.current as int, view_names(names@)) == parse_params(
                    ts,
                    start,
                ),
            decreases self.tokens.len() - self.current,
        {
            let ghost before = view_names(names@);
            match self.identifier() {
                Err(e) => {
                    return Err(e);
                },
                Ok(name) => {
                    let ghost name_view = name@;
                    names.push(name);
                    assert(view_names(names@) =~= before.push(name_view));
                    if self.kind() != TokenType::Comma {
                        return Ok(names);
                    }
                    self.current += 1;
                },
            }
        }
    }

    /// The head of an `if` or a `while`: the keyword and the condition in
    /// parentheses.
    fn condition(&mut self, keyword: TokenType) -> (r: Result<Expression, ParseError>)
        requires
            keyword != TokenType::EOF,
        ensures
            expression_outcome(r, final(self).current) == parse_condition(
                old(self).stream(),
                old(self).current as int,
                keyword,
            ),
            final(self).rests(
                *old(self),
                parse_condition(old(self).stream(), old(self).current as int, keyword),
            ),
    {
        proof {
            reveal(parse_condition);
        }
        match self.consume(keyword) {
            Err(e) => {
                return Err(e);
            },
            Ok(()) => {},
        }
        match self.consume(TokenType::LeftParen) {
            Err(e) => {
                return Err(e);
            },
            Ok(()) => {},
        }
        let cond = match self.expression() {
            Err(e) => {
                return Err(e);
            },
            Ok(e) => e,
        };
        match self.consume(TokenType::RightParen) {
            Err(e) => Err(e),
            Ok(()) => Ok(cond),
        }
    }

    /// The declarations of a block up to and with its `}`, the cursor behind
    /// the `{`.
    #[verifier::loop_isolation(false)]
    fn block_items(&mut self) -> (r: Result<Vec<Statement>, ParseError>)
        ensures
            statements_outcome(r, final(self).current) == parse_block_items(
                old(self).stream(),
                old(self).current as int,
                Seq::empty(),
            ),
            final(self).rests(
                *old(self),
                parse_block_items(old(self).stream(), old(self).current as int, Seq::empty()),
            ),
        decreases old(self).tokens.len() - old(self).current, 6int,
    {
        let mut list: Vec<Statement> = Vec::new();
        assert(view_statements(list@) =~= Seq::empty());
        let ghost ts = self.stream();
        let ghost start = self.current as int;
        loop
            invariant
                self.tokens == old(self).tokens,
                start <= self.current,
                self.current == start || self.current <= self.tokens.len(),
                parse_block_items(ts, self.current as int, view_statements(list@))
                    == parse_block_items(ts, start, Seq::empty()),
            decreases self.tokens.len() - self.current,
        {
            let kind = self.kind();
            if kind == TokenType::RightBrace {
                self.current += 1;
                return Ok(list);
            }
            if kind == TokenType::EOF {
                return Err(self.unexpected(Expected::Token(TokenType::RightBrace)));
            }
            let ghost before = view_statements(list@);
            match self.declaration() {
                Err(e) => {
                    return Err(e);
                },
                Ok(s) => {
                    let ghost s_view = s@;
                    list.push(s);
                    assert(view_statements(list@) =~= before.push(s_view));
                },
            }
        }
    }

    /// `block`: the statements between the braces.
    fn block_body(&mut self) -> (r: Result<Vec<Statement>, ParseError>)
        ensures
            statements_outcome(r, final(self).current) == parse_block(
                old(self).stream(),
                old(self).current as int,
            ),
            final(self).rests(*old(self), parse_block(old(self).stream(), old(self).current as int)),
        decreases old(self).tokens.len() - old(self).current, 1int,
    {
        match self.consume(TokenType::LeftBrace) {
            Err(e) => Err(e),
            Ok(()) => self.block_items(),
        }
    }

    /// `block`, as a statement.
    pub fn block(&mut self) -> (r: Result<Statement, ParseError>)
        ensures
            match r {
                Ok(s) => parse_block(old(self).stream(), old(self).current as int) matches Ok(
                    (stmts, next),
                ) && s@ == (StmtView::Block { stmts }) && next == final(self).current,
                Err(e) => parse_block(old(self).stream(), old(self).current as int) == Err::<
                    (Seq<StmtView>, int),
                    ParseError,
                >(e),
            },
            final(self).rests(*old(self), parse_block(old(self).stream(), old(self).current as int)),
        decreases old(self).tokens.len() - old(self).current, 2int,
    {
        match self.block_body() {
            Err(e) => Err(e),
            Ok(statements) => {
                proof {
                    lemma_view_block(&statements);
                }
                Ok(Statement::BlockStatement { statements })
            },
        }
    }

    /// The head of a `function`: its name and its parameter names.
    fn signature(&mut self) -> (r: Result<(String, Vec<String>), ParseError>)
        ensures
            match r {
                Ok((name, params)) => parse_signature(old(self).stream(), old(self).current as int)
                    == Ok::<((Seq<char>, Seq<Seq<char>>), int), ParseError>(
                    ((name@, view_names(params@)), final(self).current as int),
                ),
                Err(e) => parse_signature(old(self).stream(), old(self).current as int) == Err::<
                    ((Seq<char>, Seq<Seq<char>>), int),
                    ParseError,
                >(e),
            },
            final(self).rests(
                *old(self),
                parse_signature(old(self).stream(), old(self).current as int),
            ),
    {
        proof {
            reveal(parse_signature);
        }
        let name = match self.identifier() {
            Err(e) => {
                return Err(e);
            },
            Ok(name) => name,
        };
        match self.consume(TokenType::LeftParen) {
            Err(e) => {
                return Err(e);
            },
            Ok(()) => {},
        }
        let params = match self.params() {
            Err(e) => {
                return Err(e);
            },
            Ok(p) => p,
        };
        match self.consume(TokenType::RightParen) {
            Err(e) => Err(e),
            Ok(()) => Ok((name, params)),
        }
    }

    /// `function`.
    pub fn function(&mut self) -> (r: Result<Function, ParseError>)
        ensures
            match r {
                Ok(f) => parse_function(old(self).stream(), old(self).current as int) == Ok::<
                    (FunctionView, int),
                    ParseError,
                >((f@, final(self).current as int)),
                Err(e) => parse_function(old(self).stream(), old(self).current as int) == Err::<
                    (FunctionView, int),
                    ParseError,
                >(e),
            },
            final(self).rests(
                *old(self),
                parse_function(old(self).stream(), old(self).current as int),
            ),
        decreases old(self).tokens.len() - old(self).current, 2int,
    {
        let (name, params) = match self.signature() {
            Err(e) => {
                return Err(e);
            },
            Ok(s) => s,
        };
        match self.block_body() {
            Err(e) => Err(e),
            Ok(body) => {
                let f = Function { name, params, body };
                proof {
                    lemma_view_function(&f);
                }
                Ok(f)
            },
        }
    }

    /// `classDecl`.
    #[verifier::loop_isolation(false)]
    pub fn class_declaration(&mut self) -> (r: Result<Statement, ParseError>)
        ensures
            statement_outcome(r, final(self).current) == parse_class_declaration(
                old(self).stream(),
                old(self).current as int,
            ),
            final(self).rests(
                *old(self),
                parse_class_declaration(old(self).stream(), old(self).current as int),
            ),
        decreases old(self).tokens.len() - old(self).current, 3int,
    {
        match self.consume(TokenType::Class) {
            Err(e) => {
                return Err(e);
            },
            Ok(()) => {},
        }
        let identifier = match self.identifier() {
            Err(e) => {
                return Err(e);
            },
            Ok(name) => name,
        };
        match self.consume(TokenType::LeftBrace) {
            Err(e) => {
                return Err(e);
            },
            Ok(()) => {},
        }
        let mut functions: Vec<Rc<Function>> = Vec::new();
        assert(view_functions(functions@) =~= Seq::empty());
        let ghost ts = self.stream();
        let ghost start = self.current as int;
        while self.kind() == TokenType::Identifier
            invariant
                self.tokens == old(self).tokens,
                start == old(self).current + 3,
                start <= self.current <= self.tokens.len(),
                parse_methods(ts, self.current as int, view_functions(functions@)) == parse_methods(
                    ts,
                    start,
                    Seq::empty(),
                ),
            decreases self.tokens.len() - self.current,
        {
            let ghost before = view_functions(functions@);
            match self.function() {
                Err(e) => {
                    return Err(e);
                },
                Ok(f) => {
                    let ghost f_view = f@;
                    functions.push(Rc::new(f));
                    assert(view_functions(functions@) =~= before.push(f_view));
                },
            }
        }
        match self.consume(TokenType::RightBrace) {
            Err(e) => Err(e),
            Ok(()) => {
                proof {
                    lemma_view_class(&identifier, &functions);
                }
                Ok(Statement::ClassDeclaration { identifier, functions })
            },
        }
    }

    /// `ifStmt`.
    pub fn if_statement(&mut self) -> (r: Result<Statement, ParseError>)
        ensures
            statement_outcome(r, final(self).current) == parse_if(
                old(self).stream(),
                old(self).current as int,
            ),
            final(self).rests(*old(self), parse_if(old(self).stream(), old(self).current as int)),
        decreases old(self).tokens.len() - old(self).current, 3int,
    {
        let expr = match self.condition(TokenType::If) {
            Err(e) => {
                return Err(e);
            },
            Ok(e) => e,
        };
        let body = match self.block() {
            Err(e) => {
                return Err(e);
            },
            Ok(b) => b,
        };
        if self.kind() != TokenType::Else {
            return Ok(Statement::IfStatement { expr, body: Box::new(body), else_body: None });
        }
        self.current += 1;
        match self.block() {
            Err(e) => Err(e),
            Ok(value) => Ok(
                Statement::IfStatement { expr, body: Box::new(body), else_body: Some(Box::new(value)) },
            ),
        }
    }

    /// `whileStmt`.
    pub fn while_block(&mut self) -> (r: Result<Statement, ParseError>)
        ensures
            statement_outcome(r, final(self).current) == parse_while(
                old(self).stream(),
                old(self).current as int,
            ),
            final(self).rests(*old(self), parse_while(old(self).stream(), old(self).current as int)),
        decreases old(self).tokens.len() - old(self).current, 1int,
    {
        let expr = match self.condition(TokenType::While) {
            Err(e) => {
                return Err(e);
            },
            Ok(e) => e,
        };
        match self.declaration() {
            Err(e) => Err(e),
            Ok(body) => Ok(Statement::WhileStatement { expr, body: Box::new(body) }),
        }
    }

    /// The first clause of a `for`.
    fn for_initializer(&mut self) -> (r: Result<Option<Box<Statement>>, ParseError>)
        ensures
            match r {
                Ok(init) => parse_for_initializer(old(self).stream(), old(self).current as int)
                    == Ok::<(Option<Box<StmtView>>, int), ParseError>(
                    (
                        match init {
                            Some(s) => Some(Box::new((*s)@)),
                            None => None,
                        },
                        final(self).current as int,
                    ),
                ),
                Err(e) => parse_for_initializer(old(self).stream(), old(self).current as int)
                    == Err::<(Option<Box<StmtView>>, int), ParseError>(e),
            },
            final(self).rests(
                *old(self),
                parse_for_initializer(old(self).stream(), old(self).current as int),
            ),
    {
        proof {
            reveal(parse_for_initializer);
        }
        match self.kind() {
            TokenType::Semicolon => {
                self.current += 1;
                Ok(None)
            },
            TokenType::Var => match self.variable_declaration() {
                Err(e) => Err(e),
                Ok(s) => Ok(Some(Box::new(s))),
            },
            _ => match self.expression_statement() {
                Err(e) => Err(e),
                Ok(s) => Ok(Some(Box::new(s))),
            },
        }
    }

    /// The second or third clause of a `for`: an optional expression and the
    /// token `end` that closes the clause.
    fn for_clause(&mut self, end: TokenType) -> (r: Result<Option<Expression>, ParseError>)
        requires
            end == TokenType::Semicolon || end == TokenType::RightParen,
        ensures
            match r {
                Ok(clause) => (if end == TokenType::Semicolon {
                    parse_for_condition(old(self).stream(), old(self).current as int)
                } else {
                    parse_for_step(old(self).stream(), old(self).current as int)
                }) == Ok::<(Option<ExprView>, int), ParseError>(
                    (view_optional(clause), final(self).current as int),
                ),
                Err(e) => (if end == TokenType::Semicolon {
                    parse_for_condition(old(self).stream(), old(self).current as int)
                } else {
                    parse_for_step(old(self).stream(), old(self).current as int)
                }) == Err::<(Option<ExprView>, int), ParseError>(e),
            },
            final(self).rests(
                *old(self),
                if end == TokenType::Semicolon {
                    parse_for_condition(old(self).stream(), old(self).current as int)
                } else {
                    parse_for_step(old(self).stream(), old(self).current as int)
                },
            ),
    {
        proof {
            reveal(parse_for_condition);
            reveal(parse_for_step);
        }
        if self.kind() == end {
            self.current += 1;
            return Ok(None);
        }
        let clause = match self.expression() {
            Err(e) => {
                return Err(e);
            },
            Ok(e) => e,
        };
        match self.consume(end) {
            Err(e) => Err(e),
            Ok(()) => Ok(Some(clause)),
        }
    }

    /// `forStmt`.
    pub fn for_loop(&mut self) -> (r: Result<Statement, ParseError>)
        ensures
            statement_outcome(r, final(self).current) == parse_for(
                old(self).stream(),
                old(self).current as int,
            ),
            final(self).rests(*old(self), parse_for(old(self).stream(), old(self).current as int)),
        decreases old(self).tokens.len() - old(self).current, 1int,
    {
        proof {
            reveal(parse_for_head);
        }
        match self.consume(TokenType::For) {
            Err(e) => {
                return Err(e);
            },
            Ok(()) => {},
        }
        match self.consume(TokenType::LeftParen) {
            Err(e) => {
                return Err(e);
            },
            Ok(()) => {},
        }
        let initiation = match self.for_initializer() {
            Err(e) => {
                return Err(e);
            },
            Ok(i) => i,
        };
        let condition = match self.for_clause(TokenType::Semicolon) {
            Err(e) => {
                return Err(e);
            },
            Ok(c) => c,
        };
        let increment = match self.for_clause(TokenType::RightParen) {
            Err(e) => {
                return Err(e);
            },
            Ok(c) => c,
        };
        match self.declaration() {
            Err(e) => Err(e),
            Ok(body) => Ok(
                Statement::ForStatement { initiation, condition, increment, body: Box::new(body) },
            ),
        }
    }

    /// `statement`.
    pub fn statement_get(&mut self) -> (r: Result<Statement, ParseError>)
        ensures
            statement_outcome(r, final(self).current) == parse_statement(
                old(self).stream(),
                old(self).current as int,
            ),
            final(self).rests(
                *old(self),
                parse_statement(old(self).stream(), old(self).current as int),
            ),
        decreases old(self).tokens.len() - old(self).current, 4int,
    {
        match self.kind() {
            TokenType::Print => self.print_statement(),
            TokenType::If => self.if_statement(),
            TokenType::Fun => {
                self.current += 1;
                match self.function() {
                    Err(e) => Err(e),
                    Ok(f) => Ok(Statement::FunStatement { function: Rc::new(f) }),
                }
            },
            TokenType::While => self.while_block(),
            TokenType::For => self.for_loop(),
            TokenType::LeftBrace => self.block(),
            TokenType::Return => self.return_stmt(),
            _ => self.expression_statement(),
        }
    }

    /// `declaration`.
    pub fn declaration(&mut self) -> (r: Result<Statement, ParseError>)
        ensures
            statement_outcome(r, final(self).current) == parse_declaration(
                old(self).stream(),
                old(self).current as int,
            ),
            final(self).rests(
                *old(self),
                parse_declaration(old(self).stream(), old(self).current as int),
            ),
        decreases old(self).tokens.len() - old(self).current, 5int,
    {
        match self.kind() {
            TokenType::Var => self.variable_declaration(),
            TokenType::Class => self.class_declaration(),
            _ => self.statement_get(),
        }
    }

    /// `program`: the declarations from the cursor up to the `EOF` token or
    /// the end of the tokens.
    #[verifier::loop_isolation(false)]
    pub fn program(&mut self) -> (r: Result<Vec<Statement>, ParseError>)
        ensures
            final(self).tokens == old(self).tokens,
            match r {
                Ok(declarations) => parse_declarations(
                    old(self).stream(),
                    old(self).current as int,
                    Seq::empty(),
                ) == Ok::<Seq<StmtView>, ParseError>(view_statements(declarations@)) && kind_at(
                    final(self).stream(),
                    final(self).current as int,
                ) == TokenType::EOF,
                Err(e) => parse_declarations(old(self).stream(), old(self).current as int, Seq::empty())
                    == Err::<Seq<StmtView>, ParseError>(e) && final(self).current == e.position,
            },
    {
        let mut declarations: Vec<Statement> = Vec::new();
        assert(view_statements(declarations@) =~= Seq::empty());
        let ghost ts = self.stream();
        let ghost start = self.current as int;
        while self.kind() != TokenType::EOF
            invariant
                self.tokens == old(self).tokens,
                parse_declarations(ts, self.current as int, view_statements(declarations@))
                    == parse_declarations(ts, start, Seq::empty()),
            decreases self.tokens.len() - self.current,
        {
            let ghost before = view_statements(declarations@);
            match self.declaration() {
                Err(e) => {
                    return Err(e);
                },
                Ok(value) => {
                    let ghost value_view = value@;
                    declarations.push(value);
                    assert(view_statements(declarations@) =~= before.push(value_view));
                },
            }
        }
        Ok(declarations)
    }
}

/// Parses a whole token sequence: its declarations up to the `EOF` token or
/// the end of the tokens, or the first syntax error.
pub fn parse(tokens: Vec<Token>) -> (r: Result<Vec<Statement>, ParseError>)
    ensures
        match r {
            Ok(program) => parse_program(view_tokens(tokens@)) == Ok::<Seq<StmtView>, ParseError>(
                view_statements(program@),
            ),
            Err(e) => parse_program(view_tokens(tokens@)) == Err::<Seq<StmtView>, ParseError>(e),
        },
{
    let mut parser = Parser::new(tokens);
    parser.program()
}

} // verus!
