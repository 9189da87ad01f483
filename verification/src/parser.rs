//! The recursive-descent parser. It computes what [`crate::grammar`]
//! defines.

use vstd::prelude::*;
use std::rc::Rc;
use crate::callable::Function;
use crate::error::RuntimeError;
use crate::expr::{
    literal, Assign, Binary, Call, Expr, Getter, Grouping, Logical, Setter, Super, This, Unary,
    Var,
};
use crate::grammar::{
    assignment_to, at_end, binary_op, check, consume, desugar_for, done, fail, failed, join, ok,
    p_arguments, p_assignment, p_binary, p_binary_rest, p_block, p_block_items, p_call,
    p_call_rest, p_class, p_class_head, p_declaration, p_declaration_with_error_handling,
    p_expr_stmt, p_expression, p_finish_call, p_for, p_for_clauses, p_function, p_function_head,
    p_if, p_methods, p_operand, p_parameters, p_primary, p_print, p_program, p_return, p_statement,
    p_synchronize, p_unary, p_var_decl, p_while, pair, parse, sync_loop, terminated, Declared,
    Parsed, MAX_ARGUMENTS,
};
use crate::list::{from_vec, List};
use crate::literal::LiteralValue;
use crate::stmt::{Class, IfStmt, Return, Stmt, VarDecl, WhileStmt};
use crate::token::{Token, TokenType};

verus! {

pub struct Parser {
    pub tokens: Vec<Token>,
    pub current: usize,
    /// The errors that parsing has recovered from.
    pub errors: Vec<RuntimeError>,
}

fn is_binary_op(level: usize, t: TokenType) -> (r: bool)
    ensures
        r == binary_op(level as nat, t),
{
    match t {
        TokenType::Slash | TokenType::Star => level == 1,
        TokenType::Minus | TokenType::Plus => level == 2,
        TokenType::Greater | TokenType::GreaterEqual | TokenType::Less | TokenType::LessEqual => {
            level == 3
        },
        TokenType::BangEqual | TokenType::EqualEqual => level == 4,
        TokenType::KwAnd => level == 5,
        TokenType::KwOr => level == 6,
        _ => false,
    }
}

fn join_operands(level: usize, left: Expr, op: Token, right: Expr) -> (r: Expr)
    ensures
        r == join(level as nat, left, op, right),
{
    if level >= 5 {
        Expr::Logical(Logical { left: Rc::new(left), op, right: Rc::new(right) })
    } else {
        Expr::Binary(Binary { left: Rc::new(left), op, right: Rc::new(right) })
    }
}

fn assign_to(target: Expr, equals: Token, value: Expr) -> (r: Result<Expr, RuntimeError>)
    ensures
        r == assignment_to(target, equals, value),
{
    match target {
        Expr::Variable(v) => Ok(Expr::Assign(Assign { name: v.name, value: Rc::new(value) })),
        Expr::Get(g) => Ok(
            Expr::Put(Setter { name: g.name, object: g.object, value: Rc::new(value) }),
        ),
        _ => Err(RuntimeError::InvalidAssignmentTarget(equals, "Can't assign to non-variable")),
    }
}

fn pair_of(first: Stmt, second: Stmt) -> (r: Stmt)
    ensures
        r == pair(first, second),
{
    Stmt::Block(Rc::new(List::Cons(first, Rc::new(List::Cons(second, Rc::new(List::Nil))))))
}

fn desugar(
    initializer: Option<Stmt>,
    condition: Option<Expr>,
    increment: Option<Expr>,
    body: Stmt,
) -> (r: Stmt)
    ensures
        r == desugar_for(initializer, condition, increment, body),
{
    let body = match increment {
        Some(e) => pair_of(body, Stmt::Expression(Rc::new(e))),
        None => body,
    };
    let condition = match condition {
        Some(e) => e,
        None => literal(LiteralValue::Bool(true)),
    };
    let body = Stmt::While(WhileStmt { condition: Rc::new(condition), body: Rc::new(body) });
    match initializer {
        Some(s) => pair_of(s, body),
        None => body,
    }
}

impl Parser {
    /// The parser stands at a token, and the tokens end with end-of-input.
    pub open spec fn inv(&self) -> bool {
        &&& terminated(self.tokens@)
        &&& self.current < self.tokens@.len()
    }

    /// The parser has gone from `before` to here by parsing what `expected`
    /// says, with the result `r`.
    pub open spec fn parsed<T>(
        &self,
        before: &Parser,
        r: Result<T, RuntimeError>,
        expected: Parsed<T>,
    ) -> bool {
        &&& self.inv()
        &&& self.tokens == before.tokens
        &&& self.errors == before.errors
        &&& expected.result == r
        &&& expected.next == self.current
        &&& self.current >= before.current
        &&& r is Ok ==> self.current > before.current
    }

    /// A parser at the start of the tokens, which must end with the
    /// end-of-input token.
    pub fn new(tokens: Vec<Token>) -> (r: Parser)
        requires
            terminated(tokens@),
        ensures
            r.inv(),
            r.tokens == tokens,
            r.current == 0,
            r.errors@.len() == 0,
    {
        Parser { tokens, current: 0, errors: Vec::new() }
    }

    fn peek(&self) -> (r: Token)
        requires
            self.inv(),
        ensures
            r == self.tokens@[self.current as int],
    {
        self.tokens[self.current]
    }

    fn previous(&self) -> (r: Token)
        requires
            self.inv(),
            self.current > 0,
        ensures
            r == self.tokens@[self.current - 1],
    {
        self.tokens[self.current - 1]
    }

    fn is_at_end(&self) -> (r: bool)
        requires
            self.inv(),
        ensures
            r == at_end(self.tokens@, self.current as int),
    {
        self.tokens[self.current].token_type == TokenType::Eof
    }

    fn check(&self, t: TokenType) -> (r: bool)
        requires
            self.inv(),
        ensures
            r == check(self.tokens@, self.current as int, t),
            r ==> self.current + 1 < self.tokens@.len(),
    {
        if self.is_at_end() {
            return false;
        }
        self.tokens[self.current].token_type == t
    }

    /// Consumes the token at which the parser stands, which is not the
    /// last.
    fn advance(&mut self) -> (r: Token)
        requires
            old(self).inv(),
            !at_end(old(self).tokens@, old(self).current as int),
        ensures
            final(self).inv(),
            final(self).tokens == old(self).tokens,
            final(self).errors == old(self).errors,
            final(self).current == old(self).current + 1,
            r == old(self).tokens@[old(self).current as int],
    {
        let n = self.tokens.len();
        assert(self.tokens@[n - 1].token_type == TokenType::Eof);
        self.current += 1;
        self.previous()
    }

    /// Consumes the token at which the parser stands if it has the given
    /// type.
    fn match_any(&mut self, t: TokenType) -> (r: bool)
        requires
            old(self).inv(),
        ensures
            final(self).inv(),
            final(self).tokens == old(self).tokens,
            final(self).errors == old(self).errors,
            r == check(old(self).tokens@, old(self).current as int, t),
            final(self).current == old(self).current + if r {
                1int
            } else {
                0int
            },
    {
        if self.check(t) {
            self.advance();
            return true;
        }
        false
    }

    fn consume(&mut self, t: TokenType, message: &'static str) -> (r: Result<Token, RuntimeError>)
        requires
            old(self).inv(),
        ensures
            final(self).parsed(
                old(self),
                r,
                consume(old(self).tokens@, old(self).current as int, t, message),
            ),
    {
        if self.check(t) {
            return Ok(self.advance());
        }
        Err(RuntimeError::ParseError { token: self.peek(), expected: t, message })
    }

    fn primary(&mut self) -> (r: Result<Expr, RuntimeError>)
        requires
            old(self).inv(),
        ensures
            final(self).parsed(old(self), r, p_primary(old(self).tokens@, old(self).current as int)),
        decreases old(self).tokens@.len() - old(self).current, 0nat,
    {
        let token = self.peek();
        match token.token_type {
            TokenType::KwFalse => {
                self.advance();
                Ok(literal(LiteralValue::Bool(false)))
            },
            TokenType::KwTrue => {
                self.advance();
                Ok(literal(LiteralValue::Bool(true)))
            },
            TokenType::KwNil => {
                self.advance();
                Ok(literal(LiteralValue::Nil))
            },
            TokenType::Number => match token.literal {
                Some(LiteralValue::Num(x)) => {
                    self.advance();
                    Ok(literal(LiteralValue::Num(x)))
                },
                _ => Err(RuntimeError::ExpectedExpression(token)),
            },
            TokenType::String => match token.literal {
                Some(LiteralValue::Str(s)) => {
                    self.advance();
                    Ok(literal(LiteralValue::Str(s)))
                },
                _ => Err(RuntimeError::ExpectedExpression(token)),
            },
            TokenType::KwSuper => {
                self.advance();
                match self.consume(TokenType::Dot, "Expect '.' after 'super'.") {
                    Err(e) => Err(e),
                    Ok(_) => match self.consume(
                        TokenType::Identifier,
                        "Expect superclass method name.",
                    ) {
                        Err(e) => Err(e),
                        Ok(method) => Ok(Expr::Super(Super { keyword: token, method })),
                    },
                }
            },
            TokenType::KwThis => {
                self.advance();
                Ok(Expr::This(This { keyword: token }))
            },
            TokenType::Identifier => {
                self.advance();
                Ok(Expr::Variable(Var { name: token }))
            },
            TokenType::LeftParen => {
                self.advance();
                match self.expression() {
                    Err(e) => Err(e),
                    Ok(e) => match self.consume(
                        TokenType::RightParen,
                        "Expected ')' after expression.",
                    ) {
                        Err(x) => Err(x),
                        Ok(_) => Ok(Expr::Grouping(Grouping { expr: Rc::new(e) })),
                    },
                }
            },
            _ => Err(RuntimeError::ExpectedExpression(token)),
        }
    }

    /// The arguments of a call, of which there is at least one.
    fn arguments(&mut self) -> (r: Result<Vec<Rc<Expr>>, RuntimeError>)
        requires
            old(self).inv(),
        ensures
            final(self).inv(),
            final(self).tokens == old(self).tokens,
            final(self).errors == old(self).errors,
            final(self).current >= old(self).current,
            match r {
                Ok(v) => p_arguments(old(self).tokens@, old(self).current as int, Seq::empty())
                    == ok(v@, final(self).current as int),
                Err(e) => p_arguments(old(self).tokens@, old(self).current as int, Seq::empty())
                    == fail::<Seq<Rc<Expr>>>(e, final(self).current as int),
            },
        decreases old(self).tokens@.len() - old(self).current, 45nat,
    {
        let mut arguments: Vec<Rc<Expr>> = Vec::new();
        loop
            invariant
                self.inv(),
                self.tokens == old(self).tokens,
                self.errors == old(self).errors,
                self.current >= old(self).current,
                p_arguments(self.tokens@, self.current as int, arguments@) == p_arguments(
                    old(self).tokens@,
                    old(self).current as int,
                    Seq::empty(),
                ),
            decreases self.tokens@.len() - self.current,
        {
            if arguments.len() >= MAX_ARGUMENTS {
                return Err(RuntimeError::TooManyArguments(self.peek()));
            }
            match self.expression() {
                Err(e) => {
                    return Err(e);
                },
                Ok(e) => {
                    arguments.push(Rc::new(e));
                },
            }
            if !self.match_any(TokenType::Comma) {
                return Ok(arguments);
            }
        }
    }

    fn finish_call(&mut self, callee: Expr) -> (r: Result<Expr, RuntimeError>)
        requires
            old(self).inv(),
        ensures
            final(self).inv(),
            final(self).tokens == old(self).tokens,
            final(self).errors == old(self).errors,
            final(self).current >= old(self).current,
            p_finish_call(old(self).tokens@, old(self).current as int, callee) == (Parsed {
                result: r,
                next: final(self).current as int,
            }),
        decreases old(self).tokens@.len() - old(self).current, 46nat,
    {
        let arguments = if self.check(TokenType::RightParen) {
            Vec::new()
        } else {
            match self.arguments() {
                Err(e) => {
                    return Err(e);
                },
                Ok(v) => v,
            }
        };
        match self.consume(TokenType::RightParen, "Expected ')' after arguments.") {
            Err(e) => Err(e),
            Ok(paren) => Ok(
                Expr::Call(Call { callee: Rc::new(callee), paren, arguments: from_vec(arguments) }),
            ),
        }
    }

    fn call(&mut self) -> (r: Result<Expr, RuntimeError>)
        requires
            old(self).inv(),
        ensures
            final(self).parsed(old(self), r, p_call(old(self).tokens@, old(self).current as int)),
        decreases old(self).tokens@.len() - old(self).current, 6nat,
    {
        let mut expr = match self.primary() {
            Err(e) => {
                return Err(e);
            },
            Ok(e) => e,
        };
        loop
            invariant
                self.inv(),
                self.tokens == old(self).tokens,
                self.errors == old(self).errors,
                self.current > old(self).current,
                p_call_rest(self.tokens@, self.current as int, expr) == p_call(
                    old(self).tokens@,
                    old(self).current as int,
                ),
            decreases self.tokens@.len() - self.current,
        {
            if self.match_any(TokenType::LeftParen) {
                match self.finish_call(expr) {
                    Err(e) => {
                        return Err(e);
                    },
                    Ok(e) => {
                        expr = e;
                    },
                }
            } else if self.match_any(TokenType::Dot) {
                match self.consume(TokenType::Identifier, "Expect property name after '.'") {
                    Err(e) => {
                        return Err(e);
                    },
                    Ok(name) => {
                        expr = Expr::Get(Getter { name, object: Rc::new(expr) });
                    },
                }
            } else {
                return Ok(expr);
            }
        }
    }

    fn unary(&mut self) -> (r: Result<Expr, RuntimeError>)
        requires
            old(self).inv(),
        ensures
            final(self).parsed(old(self), r, p_unary(old(self).tokens@, old(self).current as int)),
        decreases old(self).tokens@.len() - old(self).current, 7nat,
    {
        if self.check(TokenType::Bang) || self.check(TokenType::Minus) {
            let op = self.advance();
            return match self.unary() {
                Err(e) => Err(e),
                Ok(right) => Ok(Expr::Unary(Unary { op, right: Rc::new(right) })),
            };
        }
        self.call()
    }

    fn operand(&mut self, level: usize) -> (r: Result<Expr, RuntimeError>)
        requires
            old(self).inv(),
            1 <= level <= 6,
        ensures
            final(self).parsed(
                old(self),
                r,
                p_operand(old(self).tokens@, old(self).current as int, level as nat),
            ),
        decreases old(self).tokens@.len() - old(self).current, 9 + 3 * level,
    {
        match level {
            1 => self.unary(),
            2 => self.factor(),
            3 => self.term(),
            4 => self.comparison(),
            5 => self.equality(),
            _ => self.logic_and(),
        }
    }

    /// A binary expression of the given level, from 1 for factors to 6 for
    /// `or`.
    fn binary(&mut self, level: usize) -> (r: Result<Expr, RuntimeError>)
        requires
            old(self).inv(),
            1 <= level <= 6,
        ensures
            final(self).parsed(
                old(self),
                r,
                p_binary(old(self).tokens@, old(self).current as int, level as nat),
            ),
        decreases old(self).tokens@.len() - old(self).current, 10 + 3 * level,
    {
        let mut expr = match self.operand(level) {
            Err(e) => {
                return Err(e);
            },
            Ok(e) => e,
        };
        loop
            invariant
                self.inv(),
                1 <= level <= 6,
                self.tokens == old(self).tokens,
                self.errors == old(self).errors,
                self.current > old(self).current,
                p_binary_rest(self.tokens@, self.current as int, level as nat, expr) == p_binary(
                    old(self).tokens@,
                    old(self).current as int,
                    level as nat,
                ),
            decreases self.tokens@.len() - self.current,
        {
            if self.is_at_end() || !is_binary_op(level, self.peek().token_type) {
                return Ok(expr);
            }
            let op = self.advance();
            match self.operand(level) {
                Err(e) => {
                    return Err(e);
                },
                Ok(right) => {
                    expr = join_operands(level, expr, op, right);
                },
            }
        }
    }

    fn factor(&mut self) -> (r: Result<Expr, RuntimeError>)
        requires
            old(self).inv(),
        ensures
            final(self).parsed(old(self), r, p_binary(old(self).tokens@, old(self).current as int, 1)),
        decreases old(self).tokens@.len() - old(self).current, 14nat,
    {
        self.binary(1)
    }

    fn term(&mut self) -> (r: Result<Expr, RuntimeError>)
        requires
            old(self).inv(),
        ensures
            final(self).parsed(old(self), r, p_binary(old(self).tokens@, old(self).current as int, 2)),
        decreases old(self).tokens@.len() - old(self).current, 17nat,
    {
        self.binary(2)
    }

    fn comparison(&mut self) -> (r: Result<Expr, RuntimeError>)
        requires
            old(self).inv(),
        ensures
            final(self).parsed(old(self), r, p_binary(old(self).tokens@, old(self).current as int, 3)),
        decreases old(self).tokens@.len() - old(self).current, 20nat,
    {
        self.binary(3)
    }

    fn equality(&mut self) -> (r: Result<Expr, RuntimeError>)
        requires
            old(self).inv(),
        ensures
            final(self).parsed(old(self), r, p_binary(old(self).tokens@, old(self).current as int, 4)),
        decreases old(self).tokens@.len() - old(self).current, 23nat,
    {
        self.binary(4)
    }

    fn logic_and(&mut self) -> (r: Result<Expr, RuntimeError>)
        requires
            old(self).inv(),
        ensures
            final(self).parsed(old(self), r, p_binary(old(self).tokens@, old(self).current as int, 5)),
        decreases old(self).tokens@.len() - old(self).current, 26nat,
    {
        self.binary(5)
    }

    fn logic_or(&mut self) -> (r: Result<Expr, RuntimeError>)
        requires
            old(self).inv(),
        ensures
            final(self).parsed(old(self), r, p_binary(old(self).tokens@, old(self).current as int, 6)),
        decreases old(self).tokens@.len() - old(self).current, 29nat,
    {
        self.binary(6)
    }

    fn assignment(&mut self) -> (r: Result<Expr, RuntimeError>)
        requires
            old(self).inv(),
        ensures
            final(self).parsed(
                old(self),
                r,
                p_assignment(old(self).tokens@, old(self).current as int),
            ),
        decreases old(self).tokens@.len() - old(self).current, 40nat,
    {
        let expr = match self.logic_or() {
            Err(e) => {
                return Err(e);
            },
            Ok(e) => e,
        };
        if self.check(TokenType::Equal) {
            let equals = self.advance();
            return match self.assignment() {
                Err(e) => Err(e),
                Ok(value) => assign_to(expr, equals, value),
            };
        }
        Ok(expr)
    }

    fn expression(&mut self) -> (r: Result<Expr, RuntimeError>)
        requires
            old(self).inv(),
        ensures
            final(self).parsed(
                old(self),
                r,
                p_expression(old(self).tokens@, old(self).current as int),
            ),
        decreases old(self).tokens@.len() - old(self).current, 41nat,
    {
        self.assignment()
    }

    /// The parser has gone from `before` to here by parsing what `expected`
    /// says, with the result `r`, recording the errors it recovered from.
    pub open spec fn declared<T>(
        &self,
        before: &Parser,
        r: Result<T, RuntimeError>,
        expected: Declared<T>,
    ) -> bool {
        &&& self.inv()
        &&& self.tokens == before.tokens
        &&& self.errors@ == expected.errors
        &&& expected.result == r
        &&& expected.next == self.current
        &&& self.current >= before.current
        &&& r is Ok ==> self.current > before.current
    }

    fn expr_stmt(&mut self) -> (r: Result<Stmt, RuntimeError>)
        requires
            old(self).inv(),
        ensures
            final(self).parsed(old(self), r, p_expr_stmt(old(self).tokens@, old(self).current as int)),
        decreases old(self).tokens@.len() - old(self).current, 60nat,
    {
        let expr = match self.expression() {
            Err(e) => {
                return Err(e);
            },
            Ok(e) => e,
        };
        match self.consume(TokenType::Semicolon, "Expected ';' after expression.") {
            Err(e) => Err(e),
            Ok(_) => Ok(Stmt::Expression(Rc::new(expr))),
        }
    }

    fn print_stmt(&mut self) -> (r: Result<Stmt, RuntimeError>)
        requires
            old(self).inv(),
        ensures
            final(self).parsed(old(self), r, p_print(old(self).tokens@, old(self).current as int)),
        decreases old(self).tokens@.len() - old(self).current, 60nat,
    {
        let expr = match self.expression() {
            Err(e) => {
                return Err(e);
            },
            Ok(e) => e,
        };
        match self.consume(TokenType::Semicolon, "Expected ';' after expression.") {
            Err(e) => Err(e),
            Ok(_) => Ok(Stmt::Print(Rc::new(expr))),
        }
    }

    fn return_stmt(&mut self) -> (r: Result<Stmt, RuntimeError>)
        requires
            old(self).inv(),
            old(self).current > 0,
        ensures
            final(self).parsed(old(self), r, p_return(old(self).tokens@, old(self).current as int)),
        decreases old(self).tokens@.len() - old(self).current, 60nat,
    {
        let keyword = self.previous();
        if self.match_any(TokenType::Semicolon) {
            return Ok(Stmt::Return(Return { keyword, value: None }));
        }
        let value = match self.expression() {
            Err(e) => {
                return Err(e);
            },
            Ok(e) => e,
        };
        match self.consume(TokenType::Semicolon, "Expected ';' after return value.") {
            Err(e) => Err(e),
            Ok(_) => Ok(Stmt::Return(Return { keyword, value: Some(Rc::new(value)) })),
        }
    }

    fn var_declaration(&mut self) -> (r: Result<Stmt, RuntimeError>)
        requires
            old(self).inv(),
        ensures
            final(self).parsed(old(self), r, p_var_decl(old(self).tokens@, old(self).current as int)),
        decreases old(self).tokens@.len() - old(self).current, 60nat,
    {
        let name = match self.consume(TokenType::Identifier, "Expected variable name.") {
            Err(e) => {
                return Err(e);
            },
            Ok(n) => n,
        };
        let initializer = if self.match_any(TokenType::Equal) {
            match self.expression() {
                Err(e) => {
                    return Err(e);
                },
                Ok(e) => e,
            }
        } else {
            literal(LiteralValue::Nil)
        };
        match self.consume(TokenType::Semicolon, "Expected ';' after variable declaration.") {
            Err(e) => Err(e),
            Ok(_) => Ok(Stmt::VarDecl(VarDecl { name, initializer: Rc::new(initializer) })),
        }
    }

    /// The parameters of a function, of which there is at least one.
    fn parameters(&mut self) -> (r: Result<Vec<Token>, RuntimeError>)
        requires
            old(self).inv(),
        ensures
            final(self).inv(),
            final(self).tokens == old(self).tokens,
            final(self).errors == old(self).errors,
            final(self).current >= old(self).current,
            match r {
                Ok(v) => p_parameters(old(self).tokens@, old(self).current as int, Seq::empty())
                    == ok(v@, final(self).current as int),
                Err(e) => p_parameters(old(self).tokens@, old(self).current as int, Seq::empty())
                    == fail::<Seq<Token>>(e, final(self).current as int),
            },
    {
        let mut parameters: Vec<Token> = Vec::new();
        loop
            invariant
                self.inv(),
                self.tokens == old(self).tokens,
                self.errors == old(self).errors,
                self.current >= old(self).current,
                p_parameters(self.tokens@, self.current as int, parameters@) == p_parameters(
                    old(self).tokens@,
                    old(self).current as int,
                    Seq::empty(),
                ),
            decreases self.tokens@.len() - self.current,
        {
            if parameters.len() >= MAX_ARGUMENTS {
                return Err(RuntimeError::TooManyArguments(self.peek()));
            }
            match self.consume(TokenType::Identifier, "Expected parameter name.") {
                Err(e) => {
                    return Err(e);
                },
                Ok(name) => {
                    parameters.push(name);
                },
            }
            if !self.match_any(TokenType::Comma) {
                return Ok(parameters);
            }
        }
    }

    /// The head of a function, from its name to the brace that opens its
    /// body.
    fn function_head(&mut self, method: bool) -> (r: Result<(Token, Vec<Token>), RuntimeError>)
        requires
            old(self).inv(),
        ensures
            final(self).inv(),
            final(self).tokens == old(self).tokens,
            final(self).errors == old(self).errors,
            final(self).current >= old(self).current,
            match r {
                Ok(h) => p_function_head(old(self).tokens@, old(self).current as int, method)
                    == ok((h.0, h.1@), final(self).current as int)
                    && final(self).current > old(self).current,
                Err(e) => p_function_head(old(self).tokens@, old(self).current as int, method)
                    == fail::<(Token, Seq<Token>)>(e, final(self).current as int),
            },
    {
        let name = match self.consume(
            TokenType::Identifier,
            if method {
                "Expected method name."
            } else {
                "Expected function name."
            },
        ) {
            Err(e) => {
                return Err(e);
            },
            Ok(n) => n,
        };
        match self.consume(
            TokenType::LeftParen,
            if method {
                "Expected '(' after method name."
            } else {
                "Expected '(' after function name."
            },
        ) {
            Err(e) => {
                return Err(e);
            },
            Ok(_) => {},
        }
        let parameters = if self.check(TokenType::RightParen) {
            Vec::new()
        } else {
            match self.parameters() {
                Err(e) => {
                    return Err(e);
                },
                Ok(v) => v,
            }
        };
        match self.consume(
            TokenType::RightParen,
            if method {
                "Expected ')' after method parameters."
            } else {
                "Expected ')' after function parameters."
            },
        ) {
            Err(e) => {
                return Err(e);
            },
            Ok(_) => {},
        }
        match self.consume(
            TokenType::LeftBrace,
            if method {
                "Expected '{' before method body."
            } else {
                "Expected '{' before function body."
            },
        ) {
            Err(e) => Err(e),
            Ok(_) => Ok((name, parameters)),
        }
    }

    /// A function or a method, from its name on.
    fn function(&mut self, method: bool) -> (r: Result<Function, RuntimeError>)
        requires
            old(self).inv(),
        ensures
            final(self).declared(
                old(self),
                r,
                p_function(
                    old(self).tokens@,
                    old(self).current as int,
                    old(self).errors@,
                    method,
                ),
            ),
        decreases old(self).tokens@.len() - old(self).current, 50nat,
    {
        let head = match self.function_head(method) {
            Err(e) => {
                return Err(e);
            },
            Ok(h) => h,
        };
        match self.block() {
            Err(e) => Err(e),
            Ok(body) => Ok(
                Function {
                    name: head.0,
                    parameters: from_vec(head.1),
                    body: from_vec(body),
                    closure: 0,
                    is_initializer: false,
                },
            ),
        }
    }

    /// The head of a class, from its name to the brace that opens its body.
    fn class_head(&mut self) -> (r: Result<(Token, Option<Rc<Expr>>), RuntimeError>)
        requires
            old(self).inv(),
        ensures
            final(self).parsed(old(self), r, p_class_head(old(self).tokens@, old(self).current as int)),
    {
        let name = match self.consume(TokenType::Identifier, "Expect class name.") {
            Err(e) => {
                return Err(e);
            },
            Ok(n) => n,
        };
        let superclass = if self.match_any(TokenType::Less) {
            match self.consume(TokenType::Identifier, "Expect superclass name.") {
                Err(e) => {
                    return Err(e);
                },
                Ok(base) => Some(Rc::new(Expr::Variable(Var { name: base }))),
            }
        } else {
            None
        };
        match self.consume(TokenType::LeftBrace, "Expect '{' before class body.") {
            Err(e) => Err(e),
            Ok(_) => Ok((name, superclass)),
        }
    }

    /// A class declaration, from after `class` on.
    fn class_declaration(&mut self) -> (r: Result<Stmt, RuntimeError>)
        requires
            old(self).inv(),
        ensures
            final(self).declared(
                old(self),
                r,
                p_class(old(self).tokens@, old(self).current as int, old(self).errors@),
            ),
        decreases old(self).tokens@.len() - old(self).current, 96nat,
    {
        let head = match self.class_head() {
            Err(e) => {
                return Err(e);
            },
            Ok(h) => h,
        };
        let mut methods: Vec<Rc<Function>> = Vec::new();
        let ghost start = self.current as int;
        let ghost errors = self.errors@;
        while !self.check(TokenType::RightBrace) && !self.is_at_end()
            invariant
                self.inv(),
                self.tokens == old(self).tokens,
                self.current > old(self).current,
                self.current >= start,
                old(self).current < start <= self.tokens@.len(),
                errors == old(self).errors@,
                p_class_head(old(self).tokens@, old(self).current as int) == ok(
                    (head.0, head.1),
                    start,
                ),
                p_methods(self.tokens@, self.current as int, self.errors@, methods@) == p_methods(
                    old(self).tokens@,
                    start,
                    errors,
                    Seq::empty(),
                ),
            decreases self.tokens@.len() - self.current,
        {
            match self.function(true) {
                Err(e) => {
                    return Err(e);
                },
                Ok(f) => {
                    methods.push(Rc::new(f));
                },
            }
        }
        match self.consume(TokenType::RightBrace, "Expect '}' after class body.") {
            Err(e) => Err(e),
            Ok(_) => Ok(
                Stmt::Class(Class { name: head.0, methods: from_vec(methods), superclass: head.1 }),
            ),
        }
    }

    /// A block, from after its opening brace on: its declarations.
    fn block(&mut self) -> (r: Result<Vec<Stmt>, RuntimeError>)
        requires
            old(self).inv(),
        ensures
            final(self).inv(),
            final(self).tokens == old(self).tokens,
            final(self).current >= old(self).current,
            match r {
                Ok(v) => p_block(old(self).tokens@, old(self).current as int, old(self).errors@)
                    == done(v@, final(self).current as int, final(self).errors@)
                    && final(self).current > old(self).current,
                Err(e) => p_block(old(self).tokens@, old(self).current as int, old(self).errors@)
                    == failed::<Seq<Stmt>>(e, final(self).current as int, final(self).errors@),
            },
        decreases old(self).tokens@.len() - old(self).current, 96nat,
    {
        let mut stmts: Vec<Stmt> = Vec::new();
        while !self.check(TokenType::RightBrace) && !self.is_at_end()
            invariant
                self.inv(),
                self.tokens == old(self).tokens,
                self.current >= old(self).current,
                p_block_items(self.tokens@, self.current as int, self.errors@, stmts@)
                    == p_block_items(
                    old(self).tokens@,
                    old(self).current as int,
                    old(self).errors@,
                    Seq::empty(),
                ),
            decreases self.tokens@.len() - self.current,
        {
            let stmt = self.declaration_with_error_handling();
            stmts.push(stmt);
        }
        match self.consume(TokenType::RightBrace, "Expected '}' after block.") {
            Err(e) => Err(e),
            Ok(_) => Ok(stmts),
        }
    }

    fn if_stmt(&mut self) -> (r: Result<Stmt, RuntimeError>)
        requires
            old(self).inv(),
        ensures
            final(self).declared(
                old(self),
                r,
                p_if(old(self).tokens@, old(self).current as int, old(self).errors@),
            ),
        decreases old(self).tokens@.len() - old(self).current, 65nat,
    {
        match self.consume(TokenType::LeftParen, "Expected '(' after 'if'.") {
            Err(e) => {
                return Err(e);
            },
            Ok(_) => {},
        }
        let condition = match self.expression() {
            Err(e) => {
                return Err(e);
            },
            Ok(e) => e,
        };
        match self.consume(TokenType::RightParen, "Expected ')' after 'if' condition.") {
            Err(e) => {
                return Err(e);
            },
            Ok(_) => {},
        }
        let then_branch = match self.statement() {
            Err(e) => {
                return Err(e);
            },
            Ok(s) => s,
        };
        let else_branch = if self.match_any(TokenType::KwElse) {
            match self.statement() {
                Err(e) => {
                    return Err(e);
                },
                Ok(s) => Some(Rc::new(s)),
            }
        } else {
            None
        };
        Ok(
            Stmt::If(
                IfStmt {
                    condition: Rc::new(condition),
                    then_branch: Rc::new(then_branch),
                    else_branch,
                },
            ),
        )
    }

    fn while_stmt(&mut self) -> (r: Result<Stmt, RuntimeError>)
        requires
            old(self).inv(),
        ensures
            final(self).declared(
                old(self),
                r,
                p_while(old(self).tokens@, old(self).current as int, old(self).errors@),
            ),
        decreases old(self).tokens@.len() - old(self).current, 65nat,
    {
        match self.consume(TokenType::LeftParen, "Expected '(' after 'while'.") {
            Err(e) => {
                return Err(e);
            },
            Ok(_) => {},
        }
        let condition = match self.expression() {
            Err(e) => {
                return Err(e);
            },
            Ok(e) => e,
        };
        match self.consume(TokenType::RightParen, "Expected ')' after 'while' condition.") {
            Err(e) => {
                return Err(e);
            },
            Ok(_) => {},
        }
        match self.statement() {
            Err(e) => Err(e),
            Ok(body) => Ok(
                Stmt::While(WhileStmt { condition: Rc::new(condition), body: Rc::new(body) }),
            ),
        }
    }

    /// The clauses of a `for` statement, from its opening parenthesis to
    /// its closing one.
    fn for_clauses(&mut self) -> (r: Result<(Option<Stmt>, Option<Expr>, Option<Expr>), RuntimeError>)
        requires
            old(self).inv(),
        ensures
            final(self).parsed(
                old(self),
                r,
                p_for_clauses(old(self).tokens@, old(self).current as int),
            ),
    {
        match self.consume(TokenType::LeftParen, "Expected '(' after 'for'.") {
            Err(e) => {
                return Err(e);
            },
            Ok(_) => {},
        }
        let initializer = if self.match_any(TokenType::Semicolon) {
            None
        } else if self.match_any(TokenType::KwVar) {
            match self.var_declaration() {
                Err(e) => {
                    return Err(e);
                },
                Ok(s) => Some(s),
            }
        } else {
            match self.expr_stmt() {
                Err(e) => {
                    return Err(e);
                },
                Ok(s) => Some(s),
            }
        };
        let condition = if self.check(TokenType::Semicolon) {
            None
        } else {
            match self.expression() {
                Err(e) => {
                    return Err(e);
                },
                Ok(e) => Some(e),
            }
        };
        match self.consume(TokenType::Semicolon, "Expected ';' after for loop condition.") {
            Err(e) => {
                return Err(e);
            },
            Ok(_) => {},
        }
        let increment = if self.check(TokenType::RightParen) {
            None
        } else {
            match self.expression() {
                Err(e) => {
                    return Err(e);
                },
                Ok(e) => Some(e),
            }
        };
        match self.consume(TokenType::RightParen, "Expected ')' after for clauses.") {
            Err(e) => Err(e),
            Ok(_) => Ok((initializer, condition, increment)),
        }
    }

    fn for_stmt(&mut self) -> (r: Result<Stmt, RuntimeError>)
        requires
            old(self).inv(),
        ensures
            final(self).declared(
                old(self),
                r,
                p_for(old(self).tokens@, old(self).current as int, old(self).errors@),
            ),
        decreases old(self).tokens@.len() - old(self).current, 65nat,
    {
        let clauses = match self.for_clauses() {
            Err(e) => {
                return Err(e);
            },
            Ok(c) => c,
        };
        let body = match self.statement() {
            Err(e) => {
                return Err(e);
            },
            Ok(s) => s,
        };
        // Desugar into a while loop:
        // {
        //   initializer;
        //   while (condition) {
        //     body;
        //     increment;
        //   }
        // }
        Ok(desugar(clauses.0, clauses.1, clauses.2, body))
    }

    fn statement(&mut self) -> (r: Result<Stmt, RuntimeError>)
        requires
            old(self).inv(),
        ensures
            final(self).declared(
                old(self),
                r,
                p_statement(old(self).tokens@, old(self).current as int, old(self).errors@),
            ),
        decreases old(self).tokens@.len() - old(self).current, 70nat,
    {
        if self.match_any(TokenType::KwFor) {
            return self.for_stmt();
        }
        if self.match_any(TokenType::KwIf) {
            return self.if_stmt();
        }
        if self.match_any(TokenType::KwPrint) {
            return self.print_stmt();
        }
        if self.match_any(TokenType::KwReturn) {
            return self.return_stmt();
        }
        if self.match_any(TokenType::KwWhile) {
            return self.while_stmt();
        }
        if self.match_any(TokenType::LeftBrace) {
            return match self.block() {
                Err(e) => Err(e),
                Ok(items) => Ok(Stmt::Block(from_vec(items))),
            };
        }
        self.expr_stmt()
    }

    fn declaration(&mut self) -> (r: Result<Stmt, RuntimeError>)
        requires
            old(self).inv(),
        ensures
            final(self).declared(
                old(self),
                r,
                p_declaration(old(self).tokens@, old(self).current as int, old(self).errors@),
            ),
        decreases old(self).tokens@.len() - old(self).current, 80nat,
    {
        if self.match_any(TokenType::KwClass) {
            return self.class_declaration();
        }
        if self.match_any(TokenType::KwFun) {
            return match self.function(false) {
                Err(e) => Err(e),
                Ok(f) => Ok(Stmt::FunctionDecl(Rc::new(f))),
            };
        }
        if self.match_any(TokenType::KwVar) {
            return self.var_declaration();
        }
        self.statement()
    }

    /// Synchronize parser stream to the next non-error token.
    fn synchronize(&mut self)
        requires
            old(self).inv(),
        ensures
            final(self).inv(),
            final(self).tokens == old(self).tokens,
            final(self).errors == old(self).errors,
            final(self).current == p_synchronize(old(self).tokens@, old(self).current as int),
            final(self).current >= old(self).current,
            !at_end(old(self).tokens@, old(self).current as int) ==> final(self).current > old(
                self,
            ).current,
    {
        if !self.is_at_end() {
            self.advance();
        }
        while !self.is_at_end()
            invariant
                self.inv(),
                self.tokens == old(self).tokens,
                self.errors == old(self).errors,
                self.current >= old(self).current,
                self.current > 0 || at_end(self.tokens@, self.current as int),
                !at_end(old(self).tokens@, old(self).current as int) ==> self.current > old(
                    self,
                ).current,
                sync_loop(self.tokens@, self.current as int) == p_synchronize(
                    old(self).tokens@,
                    old(self).current as int,
                ),
            decreases self.tokens@.len() - self.current,
        {
            if self.previous().token_type == TokenType::Semicolon {
                return ;
            }
            match self.peek().token_type {
                TokenType::KwClass
                | TokenType::KwFun
                | TokenType::KwFor
                | TokenType::KwIf
                | TokenType::KwPrint
                | TokenType::KwReturn
                | TokenType::KwVar
                | TokenType::KwWhile => {
                    return ;
                },
                _ => {},
            }
            self.advance();
        }
    }

    /// A declaration, or the placeholder for one that could not be parsed.
    fn declaration_with_error_handling(&mut self) -> (r: Stmt)
        requires
            old(self).inv(),
        ensures
            final(self).inv(),
            final(self).tokens == old(self).tokens,
            final(self).current >= old(self).current,
            !at_end(old(self).tokens@, old(self).current as int) ==> final(self).current > old(
                self,
            ).current,
            p_declaration_with_error_handling(
                old(self).tokens@,
                old(self).current as int,
                old(self).errors@,
            ) == (crate::grammar::Recovered {
                stmt: r,
                next: final(self).current as int,
                errors: final(self).errors@,
            }),
        decreases old(self).tokens@.len() - old(self).current, 90nat,
    {
        match self.declaration() {
            Ok(s) => s,
            Err(e) => {
                let token = self.peek();
                self.errors.push(e);
                self.synchronize();
                Stmt::ParseError { token }
            },
        }
    }

    /// The program that the tokens are. A declaration that cannot be parsed
    /// becomes a placeholder, and its error is added to `errors`.
    pub fn parse(&mut self) -> (r: Vec<Stmt>)
        requires
            old(self).inv(),
            old(self).current == 0,
            old(self).errors@.len() == 0,
        ensures
            final(self).tokens == old(self).tokens,
            (r@, final(self).errors@) == parse(old(self).tokens@),
    {
        assert(self.errors@ =~= Seq::<RuntimeError>::empty());
        let r = self.program();
        r
    }

    fn program(&mut self) -> (r: Vec<Stmt>)
        requires
            old(self).inv(),
        ensures
            final(self).inv(),
            final(self).tokens == old(self).tokens,
            (r@, final(self).errors@) == p_program(
                old(self).tokens@,
                old(self).current as int,
                old(self).errors@,
                Seq::empty(),
            ),
    {
        let mut statements: Vec<Stmt> = Vec::new();
        while !self.is_at_end()
            invariant
                self.inv(),
                self.tokens == old(self).tokens,
                p_program(self.tokens@, self.current as int, self.errors@, statements@)
                    == p_program(
                    old(self).tokens@,
                    old(self).current as int,
                    old(self).errors@,
                    Seq::empty(),
                ),
            decreases self.tokens@.len() - self.current,
        {
            let stmt = self.declaration_with_error_handling();
            statements.push(stmt);
        }
        statements
    }
}

} // verus!
