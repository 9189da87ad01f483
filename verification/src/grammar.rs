//! The grammar of the language, as a function from tokens to syntax trees.
//!
//! ```text
//! program        → declaration* EOF ;
//! declaration    → classDecl | funDecl | varDecl | statement ;
//! classDecl      → "class" IDENTIFIER ( "<" IDENTIFIER )? "{" function* "}" ;
//! funDecl        → "fun" function ;
//! function       → IDENTIFIER "(" parameters? ")" block ;
//! varDecl        → "var" IDENTIFIER ( "=" expression )? ";" ;
//! statement      → exprStmt | forStmt | ifStmt | printStmt | returnStmt
//!                | whileStmt | block ;
//! forStmt        → "for" "(" ( varDecl | exprStmt | ";" )
//!                  expression? ";" expression? ")" statement ;
//! ifStmt         → "if" "(" expression ")" statement ( "else" statement )? ;
//! returnStmt     → "return" expression? ";" ;
//! block          → "{" declaration* "}" ;
//! expression     → assignment ;
//! assignment     → ( call "." )? IDENTIFIER "=" assignment | logic_or ;
//! logic_or       → logic_and ( "or" logic_and )* ;
//! logic_and      → equality ( "and" equality )* ;
//! equality       → comparison ( ( "!=" | "==" ) comparison )* ;
//! comparison     → term ( ( ">" | ">=" | "<" | "<=" ) term )* ;
//! term           → factor ( ( "-" | "+" ) factor )* ;
//! factor         → unary ( ( "/" | "*" ) unary )* ;
//! unary          → ( "!" | "-" ) unary | call ;
//! call           → primary ( "(" arguments? ")" | "." IDENTIFIER )* ;
//! primary        → NUMBER | STRING | IDENTIFIER | "true" | "false" | "nil"
//!                | "this" | "super" "." IDENTIFIER | "(" expression ")" ;
//! ```
//!
//! Every function here takes the tokens and the place to start at, and gives
//! the tree or the error together with the place where parsing stopped. The
//! functions of a statement also carry the errors that were recovered from:
//! a declaration that cannot be parsed is reported, skipped up to the next
//! statement boundary, and replaced by a placeholder.

use vstd::prelude::*;
use std::rc::Rc;
use crate::callable::Function;
use crate::error::RuntimeError;
use crate::expr::{
    literal_of, Assign, Binary, Call, Expr, Getter, Grouping, Logical, Setter, Super, This, Unary,
    Var,
};
use crate::list::{list_of, List};
use crate::literal::LiteralValue;
use crate::stmt::{Class, IfStmt, Return, Stmt, VarDecl, WhileStmt};
use crate::token::{Token, TokenType};

verus! {

/// The most arguments that a call, and parameters that a function, can have.
pub const MAX_ARGUMENTS: usize = 255;

/// The outcome of parsing an expression: the tree or the error, and the
/// place of the first token that was not consumed.
pub struct Parsed<T> {
    pub result: Result<T, RuntimeError>,
    pub next: int,
}

/// The outcome of parsing a statement: as for an expression, and the
/// errors recovered from so far.
pub struct Declared<T> {
    pub result: Result<T, RuntimeError>,
    pub next: int,
    pub errors: Seq<RuntimeError>,
}

pub open spec fn ok<T>(value: T, next: int) -> Parsed<T> {
    Parsed { result: Ok(value), next }
}

pub open spec fn fail<T>(error: RuntimeError, next: int) -> Parsed<T> {
    Parsed { result: Err(error), next }
}

pub open spec fn done<T>(value: T, next: int, errors: Seq<RuntimeError>) -> Declared<T> {
    Declared { result: Ok(value), next, errors }
}

pub open spec fn failed<T>(error: RuntimeError, next: int, errors: Seq<RuntimeError>) -> Declared<
    T,
> {
    Declared { result: Err(error), next, errors }
}

/// What is returned where a part of a construct consumed no token although
/// it succeeded. No part ever does: [`crate::progress`] shows that this
/// error is never given.
pub open spec fn stuck() -> RuntimeError {
    RuntimeError::GenericError
}

/// The tokens end with the end-of-input token.
pub open spec fn terminated(tokens: Seq<Token>) -> bool {
    tokens.len() > 0 && tokens[tokens.len() - 1].token_type == TokenType::Eof
}

pub open spec fn type_at(tokens: Seq<Token>, pos: int) -> TokenType {
    if 0 <= pos < tokens.len() {
        tokens[pos].token_type
    } else {
        TokenType::Eof
    }
}

pub open spec fn at_end(tokens: Seq<Token>, pos: int) -> bool {
    type_at(tokens, pos) == TokenType::Eof
}

/// Whether the token at `pos` has the given type; never at the end.
pub open spec fn check(tokens: Seq<Token>, pos: int, t: TokenType) -> bool {
    !at_end(tokens, pos) && type_at(tokens, pos) == t
}

/// The token at `pos` if it has the given type, else an error that names
/// what was expected.
pub open spec fn consume(tokens: Seq<Token>, pos: int, t: TokenType, message: &'static str)
    -> Parsed<Token> {
    if check(tokens, pos, t) {
        ok(tokens[pos], pos + 1)
    } else {
        fail(RuntimeError::ParseError { token: tokens[pos], expected: t, message }, pos)
    }
}

/// Whether a token type is an operator of the given level of binary
/// expressions, from 1 for factors to 6 for `or`.
pub open spec fn binary_op(level: nat, t: TokenType) -> bool {
    ||| level == 1 && (t == TokenType::Slash || t == TokenType::Star)
    ||| level == 2 && (t == TokenType::Minus || t == TokenType::Plus)
    ||| level == 3 && (t == TokenType::Greater || t == TokenType::GreaterEqual || t
        == TokenType::Less || t == TokenType::LessEqual)
    ||| level == 4 && (t == TokenType::BangEqual || t == TokenType::EqualEqual)
    ||| level == 5 && t == TokenType::KwAnd
    ||| level == 6 && t == TokenType::KwOr
}

/// The expression of two operands and their operator: logical for `and`
/// and `or`, binary for all others.
pub open spec fn join(level: nat, left: Expr, op: Token, right: Expr) -> Expr {
    if level >= 5 {
        Expr::Logical(Logical { left: Rc::new(left), op, right: Rc::new(right) })
    } else {
        Expr::Binary(Binary { left: Rc::new(left), op, right: Rc::new(right) })
    }
}

/// The assignment of `value` to the target `target`, which must be a
/// variable or a property; `equals` is the `=` between them.
pub open spec fn assignment_to(target: Expr, equals: Token, value: Expr) -> Result<
    Expr,
    RuntimeError,
> {
    match target {
        Expr::Variable(v) => Ok(Expr::Assign(Assign { name: v.name, value: Rc::new(value) })),
        Expr::Get(g) => Ok(
            Expr::Put(Setter { name: g.name, object: g.object, value: Rc::new(value) }),
        ),
        _ => Err(RuntimeError::InvalidAssignmentTarget(equals, "Can't assign to non-variable")),
    }
}

pub open spec fn p_primary(tokens: Seq<Token>, pos: int) -> Parsed<Expr>
    decreases tokens.len() - pos, 0nat,
{
    let t = type_at(tokens, pos);
    let token = tokens[pos];
    if t == TokenType::KwFalse {
        ok(literal_of(LiteralValue::Bool(false)), pos + 1)
    } else if t == TokenType::KwTrue {
        ok(literal_of(LiteralValue::Bool(true)), pos + 1)
    } else if t == TokenType::KwNil {
        ok(literal_of(LiteralValue::Nil), pos + 1)
    } else if t == TokenType::Number {
        match token.literal {
            Some(LiteralValue::Num(x)) => ok(literal_of(LiteralValue::Num(x)), pos + 1),
            _ => fail(RuntimeError::ExpectedExpression(token), pos),
        }
    } else if t == TokenType::String {
        match token.literal {
            Some(LiteralValue::Str(s)) => ok(literal_of(LiteralValue::Str(s)), pos + 1),
            _ => fail(RuntimeError::ExpectedExpression(token), pos),
        }
    } else if t == TokenType::KwSuper {
        let dot = consume(tokens, pos + 1, TokenType::Dot, "Expect '.' after 'super'.");
        match dot.result {
            Err(e) => fail(e, dot.next),
            Ok(_) => {
                let method = consume(
                    tokens,
                    pos + 2,
                    TokenType::Identifier,
                    "Expect superclass method name.",
                );
                match method.result {
                    Err(e) => fail(e, method.next),
                    Ok(m) => ok(Expr::Super(Super { keyword: token, method: m }), pos + 3),
                }
            },
        }
    } else if t == TokenType::KwThis {
        ok(Expr::This(This { keyword: token }), pos + 1)
    } else if t == TokenType::Identifier {
        ok(Expr::Variable(Var { name: token }), pos + 1)
    } else if t == TokenType::LeftParen {
        let inner = p_expression(tokens, pos + 1);
        match inner.result {
            Err(e) => fail(e, inner.next),
            Ok(e) => {
                let close = consume(
                    tokens,
                    inner.next,
                    TokenType::RightParen,
                    "Expected ')' after expression.",
                );
                match close.result {
                    Err(x) => fail(x, close.next),
                    Ok(_) => ok(Expr::Grouping(Grouping { expr: Rc::new(e) }), close.next),
                }
            },
        }
    } else {
        fail(RuntimeError::ExpectedExpression(token), pos)
    }
}

/// The arguments of a call from `pos` on, after those in `so_far`.
pub open spec fn p_arguments(tokens: Seq<Token>, pos: int, so_far: Seq<Rc<Expr>>) -> Parsed<
    Seq<Rc<Expr>>,
>
    decreases tokens.len() - pos, 30nat,
{
    if so_far.len() >= MAX_ARGUMENTS {
        fail(RuntimeError::TooManyArguments(tokens[pos]), pos)
    } else {
        let argument = p_expression(tokens, pos);
        match argument.result {
            Err(e) => fail(e, argument.next),
            Ok(e) => if check(tokens, argument.next, TokenType::Comma) {
                if argument.next >= pos {
                    p_arguments(tokens, argument.next + 1, so_far.push(Rc::new(e)))
                } else {
                    fail(stuck(), argument.next)
                }
            } else {
                ok(so_far.push(Rc::new(e)), argument.next)
            },
        }
    }
}

/// The call of `callee`, from after its opening parenthesis on.
pub open spec fn p_finish_call(tokens: Seq<Token>, pos: int, callee: Expr) -> Parsed<Expr>
    decreases tokens.len() - pos, 31nat,
{
    let arguments = if check(tokens, pos, TokenType::RightParen) {
        ok(Seq::empty(), pos)
    } else {
        p_arguments(tokens, pos, Seq::empty())
    };
    match arguments.result {
        Err(e) => fail(e, arguments.next),
        Ok(items) => {
            let close = consume(
                tokens,
                arguments.next,
                TokenType::RightParen,
                "Expected ')' after arguments.",
            );
            match close.result {
                Err(e) => fail(e, close.next),
                Ok(paren) => ok(
                    Expr::Call(
                        Call { callee: Rc::new(callee), paren, arguments: Rc::new(list_of(items)) },
                    ),
                    close.next,
                ),
            }
        },
    }
}

/// The calls and property accesses that follow `expr`, which ends before
/// `pos`.
pub open spec fn p_call_rest(tokens: Seq<Token>, pos: int, expr: Expr) -> Parsed<Expr>
    decreases tokens.len() - pos, 32nat,
{
    if check(tokens, pos, TokenType::LeftParen) {
        let call = p_finish_call(tokens, pos + 1, expr);
        match call.result {
            Err(e) => fail(e, call.next),
            Ok(e) => if pos < call.next <= tokens.len() {
                p_call_rest(tokens, call.next, e)
            } else {
                fail(stuck(), call.next)
            },
        }
    } else if check(tokens, pos, TokenType::Dot) {
        let name = consume(
            tokens,
            pos + 1,
            TokenType::Identifier,
            "Expect property name after '.'",
        );
        match name.result {
            Err(e) => fail(e, name.next),
            Ok(n) => p_call_rest(
                tokens,
                pos + 2,
                Expr::Get(Getter { name: n, object: Rc::new(expr) }),
            ),
        }
    } else {
        ok(expr, pos)
    }
}

pub open spec fn p_call(tokens: Seq<Token>, pos: int) -> Parsed<Expr>
    decreases tokens.len() - pos, 6nat,
{
    let primary = p_primary(tokens, pos);
    match primary.result {
        Err(e) => fail(e, primary.next),
        Ok(e) => if pos < primary.next <= tokens.len() {
            p_call_rest(tokens, primary.next, e)
        } else {
            fail(stuck(), primary.next)
        },
    }
}

pub open spec fn p_unary(tokens: Seq<Token>, pos: int) -> Parsed<Expr>
    decreases tokens.len() - pos, 7nat,
{
    if check(tokens, pos, TokenType::Bang) || check(tokens, pos, TokenType::Minus) {
        let right = p_unary(tokens, pos + 1);
        match right.result {
            Err(e) => fail(e, right.next),
            Ok(e) => ok(Expr::Unary(Unary { op: tokens[pos], right: Rc::new(e) }), right.next),
        }
    } else {
        p_call(tokens, pos)
    }
}

/// An operand of a binary expression of the given level: a unary
/// expression for factors, else a binary expression of the level below.
pub open spec fn p_operand(tokens: Seq<Token>, pos: int, level: nat) -> Parsed<Expr>
    decreases tokens.len() - pos, 9 + 2 * level,
{
    if level <= 1 {
        p_unary(tokens, pos)
    } else {
        p_binary(tokens, pos, (level - 1) as nat)
    }
}

/// The operators of the given level and their right operands that follow
/// `left`, which ends before `pos`; they associate to the left.
pub open spec fn p_binary_rest(tokens: Seq<Token>, pos: int, level: nat, left: Expr) -> Parsed<
    Expr,
>
    decreases tokens.len() - pos, 40nat,
{
    if !at_end(tokens, pos) && binary_op(level, type_at(tokens, pos)) {
        let right = p_operand(tokens, pos + 1, level);
        match right.result {
            Err(e) => fail(e, right.next),
            Ok(e) => if pos < right.next <= tokens.len() {
                p_binary_rest(tokens, right.next, level, join(level, left, tokens[pos], e))
            } else {
                fail(stuck(), right.next)
            },
        }
    } else {
        ok(left, pos)
    }
}

/// A binary expression of the given level, from 1 for factors to 6 for
/// `or`.
pub open spec fn p_binary(tokens: Seq<Token>, pos: int, level: nat) -> Parsed<Expr>
    decreases tokens.len() - pos, 10 + 2 * level,
{
    let left = p_operand(tokens, pos, level);
    match left.result {
        Err(e) => fail(e, left.next),
        Ok(e) => if pos < left.next <= tokens.len() {
            p_binary_rest(tokens, left.next, level, e)
        } else {
            fail(stuck(), left.next)
        },
    }
}

pub open spec fn p_assignment(tokens: Seq<Token>, pos: int) -> Parsed<Expr>
    decreases tokens.len() - pos, 25nat,
{
    let target = p_binary(tokens, pos, 6);
    match target.result {
        Err(e) => fail(e, target.next),
        Ok(e) => if check(tokens, target.next, TokenType::Equal) {
            if target.next >= pos {
                let value = p_assignment(tokens, target.next + 1);
                match value.result {
                    Err(x) => fail(x, value.next),
                    Ok(v) => Parsed {
                        result: assignment_to(e, tokens[target.next], v),
                        next: value.next,
                    },
                }
            } else {
                fail(stuck(), target.next)
            }
        } else {
            ok(e, target.next)
        },
    }
}

pub open spec fn p_expression(tokens: Seq<Token>, pos: int) -> Parsed<Expr>
    decreases tokens.len() - pos, 26nat,
{
    p_assignment(tokens, pos)
}

/// The same outcome, for a statement: no error was recovered from.
pub open spec fn lift<T>(parsed: Parsed<T>, errors: Seq<RuntimeError>) -> Declared<T> {
    Declared { result: parsed.result, next: parsed.next, errors }
}

/// Whether a token type starts a declaration or a statement: where
/// recovery from an error stops skipping.
pub open spec fn starts_statement(t: TokenType) -> bool {
    t == TokenType::KwClass || t == TokenType::KwFun || t == TokenType::KwFor || t
        == TokenType::KwIf || t == TokenType::KwPrint || t == TokenType::KwReturn || t
        == TokenType::KwVar || t == TokenType::KwWhile
}

/// The next statement boundary at or after `pos`: the end, the place after
/// a semicolon, or a token that starts a statement.
pub open spec fn sync_loop(tokens: Seq<Token>, pos: int) -> int
    decreases tokens.len() - pos,
{
    if at_end(tokens, pos) {
        pos
    } else if tokens[pos - 1].token_type == TokenType::Semicolon {
        pos
    } else if starts_statement(type_at(tokens, pos)) {
        pos
    } else {
        sync_loop(tokens, pos + 1)
    }
}

/// Where parsing goes on after an error at `pos`: the token there is
/// skipped, and then all up to the next statement boundary.
pub open spec fn p_synchronize(tokens: Seq<Token>, pos: int) -> int {
    sync_loop(
        tokens,
        if at_end(tokens, pos) {
            pos
        } else {
            pos + 1
        },
    )
}

/// What the four parts of a function are called in errors: of a function,
/// or of a method.
pub open spec fn expected_name(method: bool) -> &'static str {
    if method {
        "Expected method name."
    } else {
        "Expected function name."
    }
}

pub open spec fn expected_open(method: bool) -> &'static str {
    if method {
        "Expected '(' after method name."
    } else {
        "Expected '(' after function name."
    }
}

pub open spec fn expected_close(method: bool) -> &'static str {
    if method {
        "Expected ')' after method parameters."
    } else {
        "Expected ')' after function parameters."
    }
}

pub open spec fn expected_body(method: bool) -> &'static str {
    if method {
        "Expected '{' before method body."
    } else {
        "Expected '{' before function body."
    }
}

/// The list of two statements.
pub open spec fn pair(first: Stmt, second: Stmt) -> Stmt {
    Stmt::Block(
        Rc::new(List::Cons(first, Rc::new(List::Cons(second, Rc::new(List::Nil))))),
    )
}

/// What a `for` statement stands for: a block of the initializer, if there
/// is one, and a loop on the condition, which is `true` if there is none,
/// whose body is the body followed by the increment, if there is one.
pub open spec fn desugar_for(
    initializer: Option<Stmt>,
    condition: Option<Expr>,
    increment: Option<Expr>,
    body: Stmt,
) -> Stmt {
    let body = match increment {
        Some(e) => pair(body, Stmt::Expression(Rc::new(e))),
        None => body,
    };
    let condition = match condition {
        Some(e) => e,
        None => literal_of(LiteralValue::Bool(true)),
    };
    let body = Stmt::While(WhileStmt { condition: Rc::new(condition), body: Rc::new(body) });
    match initializer {
        Some(s) => pair(s, body),
        None => body,
    }
}

pub open spec fn p_expr_stmt(tokens: Seq<Token>, pos: int) -> Parsed<Stmt>
    decreases tokens.len() - pos, 60nat,
{
    let expr = p_expression(tokens, pos);
    match expr.result {
        Err(e) => fail(e, expr.next),
        Ok(e) => {
            let semi = consume(
                tokens,
                expr.next,
                TokenType::Semicolon,
                "Expected ';' after expression.",
            );
            match semi.result {
                Err(x) => fail(x, semi.next),
                Ok(_) => ok(Stmt::Expression(Rc::new(e)), semi.next),
            }
        },
    }
}

/// A `print` statement, from after its keyword on.
pub open spec fn p_print(tokens: Seq<Token>, pos: int) -> Parsed<Stmt>
    decreases tokens.len() - pos, 60nat,
{
    let expr = p_expression(tokens, pos);
    match expr.result {
        Err(e) => fail(e, expr.next),
        Ok(e) => {
            let semi = consume(
                tokens,
                expr.next,
                TokenType::Semicolon,
                "Expected ';' after expression.",
            );
            match semi.result {
                Err(x) => fail(x, semi.next),
                Ok(_) => ok(Stmt::Print(Rc::new(e)), semi.next),
            }
        },
    }
}

/// A `return` statement, from after its keyword on.
pub open spec fn p_return(tokens: Seq<Token>, pos: int) -> Parsed<Stmt>
    decreases tokens.len() - pos, 60nat,
{
    let keyword = tokens[pos - 1];
    if check(tokens, pos, TokenType::Semicolon) {
        ok(Stmt::Return(Return { keyword, value: None }), pos + 1)
    } else {
        let value = p_expression(tokens, pos);
        match value.result {
            Err(e) => fail(e, value.next),
            Ok(e) => {
                let semi = consume(
                    tokens,
                    value.next,
                    TokenType::Semicolon,
                    "Expected ';' after return value.",
                );
                match semi.result {
                    Err(x) => fail(x, semi.next),
                    Ok(_) => ok(
                        Stmt::Return(Return { keyword, value: Some(Rc::new(e)) }),
                        semi.next,
                    ),
                }
            },
        }
    }
}

/// A variable declaration, from after `var` on.
pub open spec fn p_var_decl(tokens: Seq<Token>, pos: int) -> Parsed<Stmt>
    decreases tokens.len() - pos, 60nat,
{
    let name = consume(tokens, pos, TokenType::Identifier, "Expected variable name.");
    match name.result {
        Err(e) => fail(e, name.next),
        Ok(n) => {
            let initializer = if check(tokens, pos + 1, TokenType::Equal) {
                p_expression(tokens, pos + 2)
            } else {
                ok(literal_of(LiteralValue::Nil), pos + 1)
            };
            match initializer.result {
                Err(e) => fail(e, initializer.next),
                Ok(e) => {
                    let semi = consume(
                        tokens,
                        initializer.next,
                        TokenType::Semicolon,
                        "Expected ';' after variable declaration.",
                    );
                    match semi.result {
                        Err(x) => fail(x, semi.next),
                        Ok(_) => ok(
                            Stmt::VarDecl(VarDecl { name: n, initializer: Rc::new(e) }),
                            semi.next,
                        ),
                    }
                },
            }
        },
    }
}

/// The parameters of a function from `pos` on, after those in `so_far`.
pub open spec fn p_parameters(tokens: Seq<Token>, pos: int, so_far: Seq<Token>) -> Parsed<
    Seq<Token>,
>
    decreases tokens.len() - pos,
{
    if so_far.len() >= MAX_ARGUMENTS {
        fail(RuntimeError::TooManyArguments(tokens[pos]), pos)
    } else {
        let name = consume(tokens, pos, TokenType::Identifier, "Expected parameter name.");
        match name.result {
            Err(e) => fail(e, name.next),
            Ok(n) => if check(tokens, pos + 1, TokenType::Comma) {
                p_parameters(tokens, pos + 2, so_far.push(n))
            } else {
                ok(so_far.push(n), pos + 1)
            },
        }
    }
}

/// The head of a function, from its name to the brace that opens its
/// body: the name and the parameters.
pub open spec fn p_function_head(tokens: Seq<Token>, pos: int, method: bool) -> Parsed<
    (Token, Seq<Token>),
> {
    let name = consume(tokens, pos, TokenType::Identifier, expected_name(method));
    match name.result {
        Err(e) => fail(e, name.next),
        Ok(n) => {
            let open = consume(tokens, pos + 1, TokenType::LeftParen, expected_open(method));
            match open.result {
                Err(e) => fail(e, open.next),
                Ok(_) => {
                    let parameters = if check(tokens, pos + 2, TokenType::RightParen) {
                        ok(Seq::empty(), pos + 2)
                    } else {
                        p_parameters(tokens, pos + 2, Seq::empty())
                    };
                    match parameters.result {
                        Err(e) => fail(e, parameters.next),
                        Ok(ps) => {
                            let close = consume(
                                tokens,
                                parameters.next,
                                TokenType::RightParen,
                                expected_close(method),
                            );
                            match close.result {
                                Err(e) => fail(e, close.next),
                                Ok(_) => {
                                    let brace = consume(
                                        tokens,
                                        close.next,
                                        TokenType::LeftBrace,
                                        expected_body(method),
                                    );
                                    match brace.result {
                                        Err(e) => fail(e, brace.next),
                                        Ok(_) => ok((n, ps), brace.next),
                                    }
                                },
                            }
                        },
                    }
                },
            }
        },
    }
}

/// A function or a method, from its name on.
pub open spec fn p_function(tokens: Seq<Token>, pos: int, errors: Seq<RuntimeError>, method: bool)
    -> Declared<Function>
    decreases tokens.len() - pos, 50nat,
{
    let head = p_function_head(tokens, pos, method);
    match head.result {
        Err(e) => failed(e, head.next, errors),
        Ok(h) => if pos < head.next <= tokens.len() {
            let body = p_block(tokens, head.next, errors);
            match body.result {
                Err(e) => failed(e, body.next, body.errors),
                Ok(items) => done(
                    Function {
                        name: h.0,
                        parameters: Rc::new(list_of(h.1)),
                        body: Rc::new(list_of(items)),
                        closure: 0,
                        is_initializer: false,
                    },
                    body.next,
                    body.errors,
                ),
            }
        } else {
            failed(stuck(), head.next, errors)
        },
    }
}

/// The methods of a class from `pos` on, after those in `so_far`.
pub open spec fn p_methods(
    tokens: Seq<Token>,
    pos: int,
    errors: Seq<RuntimeError>,
    so_far: Seq<Rc<Function>>,
) -> Declared<Seq<Rc<Function>>>
    decreases tokens.len() - pos, 95nat,
{
    if !check(tokens, pos, TokenType::RightBrace) && !at_end(tokens, pos) {
        let method = p_function(tokens, pos, errors, true);
        match method.result {
            Err(e) => failed(e, method.next, method.errors),
            Ok(f) => if pos < method.next <= tokens.len() {
                p_methods(tokens, method.next, method.errors, so_far.push(Rc::new(f)))
            } else {
                failed(stuck(), method.next, method.errors)
            },
        }
    } else {
        done(so_far, pos, errors)
    }
}

/// The head of a class, from its name to the brace that opens its body:
/// the name and the superclass, if one is named.
pub open spec fn p_class_head(tokens: Seq<Token>, pos: int) -> Parsed<(Token, Option<Rc<Expr>>)> {
    let name = consume(tokens, pos, TokenType::Identifier, "Expect class name.");
    match name.result {
        Err(e) => fail(e, name.next),
        Ok(n) => {
            let superclass: Parsed<Option<Rc<Expr>>> = if check(tokens, pos + 1, TokenType::Less) {
                let base = consume(
                    tokens,
                    pos + 2,
                    TokenType::Identifier,
                    "Expect superclass name.",
                );
                match base.result {
                    Err(e) => fail(e, base.next),
                    Ok(b) => ok(Some(Rc::new(Expr::Variable(Var { name: b }))), pos + 3),
                }
            } else {
                ok(None, pos + 1)
            };
            match superclass.result {
                Err(e) => fail(e, superclass.next),
                Ok(s) => {
                    let brace = consume(
                        tokens,
                        superclass.next,
                        TokenType::LeftBrace,
                        "Expect '{' before class body.",
                    );
                    match brace.result {
                        Err(e) => fail(e, brace.next),
                        Ok(_) => ok((n, s), brace.next),
                    }
                },
            }
        },
    }
}

/// A class declaration, from after `class` on.
pub open spec fn p_class(tokens: Seq<Token>, pos: int, errors: Seq<RuntimeError>) -> Declared<Stmt>
    decreases tokens.len() - pos, 96nat,
{
    let head = p_class_head(tokens, pos);
    match head.result {
        Err(e) => failed(e, head.next, errors),
        Ok(h) => if pos < head.next <= tokens.len() {
            let methods = p_methods(tokens, head.next, errors, Seq::empty());
            match methods.result {
                Err(e) => failed(e, methods.next, methods.errors),
                Ok(ms) => {
                    let close = consume(
                        tokens,
                        methods.next,
                        TokenType::RightBrace,
                        "Expect '}' after class body.",
                    );
                    match close.result {
                        Err(e) => failed(e, close.next, methods.errors),
                        Ok(_) => done(
                            Stmt::Class(
                                Class { name: h.0, methods: Rc::new(list_of(ms)), superclass: h.1 },
                            ),
                            close.next,
                            methods.errors,
                        ),
                    }
                },
            }
        } else {
            failed(stuck(), head.next, errors)
        },
    }
}

/// The declarations of a block from `pos` on, after those in `so_far`.
pub open spec fn p_block_items(
    tokens: Seq<Token>,
    pos: int,
    errors: Seq<RuntimeError>,
    so_far: Seq<Stmt>,
) -> Declared<Seq<Stmt>>
    decreases tokens.len() - pos, 95nat,
{
    if !check(tokens, pos, TokenType::RightBrace) && !at_end(tokens, pos) {
        let item = p_declaration_with_error_handling(tokens, pos, errors);
        if pos < item.next <= tokens.len() {
            p_block_items(tokens, item.next, item.errors, so_far.push(item.stmt))
        } else {
            failed(stuck(), item.next, item.errors)
        }
    } else {
        done(so_far, pos, errors)
    }
}

/// A block, from after its opening brace on.
pub open spec fn p_block(tokens: Seq<Token>, pos: int, errors: Seq<RuntimeError>) -> Declared<
    Seq<Stmt>,
>
    decreases tokens.len() - pos, 96nat,
{
    let items = p_block_items(tokens, pos, errors, Seq::empty());
    match items.result {
        Err(e) => failed(e, items.next, items.errors),
        Ok(stmts) => {
            let close = consume(
                tokens,
                items.next,
                TokenType::RightBrace,
                "Expected '}' after block.",
            );
            match close.result {
                Err(e) => failed(e, close.next, items.errors),
                Ok(_) => done(stmts, close.next, items.errors),
            }
        },
    }
}

/// An `if` statement, from after its keyword on.
pub open spec fn p_if(tokens: Seq<Token>, pos: int, errors: Seq<RuntimeError>) -> Declared<Stmt>
    decreases tokens.len() - pos, 65nat,
{
    let open = consume(tokens, pos, TokenType::LeftParen, "Expected '(' after 'if'.");
    match open.result {
        Err(e) => failed(e, open.next, errors),
        Ok(_) => {
            let condition = p_expression(tokens, pos + 1);
            match condition.result {
                Err(e) => failed(e, condition.next, errors),
                Ok(c) => {
                    let close = consume(
                        tokens,
                        condition.next,
                        TokenType::RightParen,
                        "Expected ')' after 'if' condition.",
                    );
                    match close.result {
                        Err(e) => failed(e, close.next, errors),
                        Ok(_) => if pos < close.next <= tokens.len() {
                            let then_branch = p_statement(tokens, close.next, errors);
                            match then_branch.result {
                                Err(e) => failed(e, then_branch.next, then_branch.errors),
                                Ok(t) => if check(tokens, then_branch.next, TokenType::KwElse) {
                                    if pos < then_branch.next {
                                        let else_branch = p_statement(
                                            tokens,
                                            then_branch.next + 1,
                                            then_branch.errors,
                                        );
                                        match else_branch.result {
                                            Err(e) => failed(
                                                e,
                                                else_branch.next,
                                                else_branch.errors,
                                            ),
                                            Ok(f) => done(
                                                Stmt::If(
                                                    IfStmt {
                                                        condition: Rc::new(c),
                                                        then_branch: Rc::new(t),
                                                        else_branch: Some(Rc::new(f)),
                                                    },
                                                ),
                                                else_branch.next,
                                                else_branch.errors,
                                            ),
                                        }
                                    } else {
                                        failed(stuck(), then_branch.next, then_branch.errors)
                                    }
                                } else {
                                    done(
                                        Stmt::If(
                                            IfStmt {
                                                condition: Rc::new(c),
                                                then_branch: Rc::new(t),
                                                else_branch: None,
                                            },
                                        ),
                                        then_branch.next,
                                        then_branch.errors,
                                    )
                                },
                            }
                        } else {
                            failed(stuck(), close.next, errors)
                        },
                    }
                },
            }
        },
    }
}

/// A `while` statement, from after its keyword on.
pub open spec fn p_while(tokens: Seq<Token>, pos: int, errors: Seq<RuntimeError>) -> Declared<Stmt>
    decreases tokens.len() - pos, 65nat,
{
    let open = consume(tokens, pos, TokenType::LeftParen, "Expected '(' after 'while'.");
    match open.result {
        Err(e) => failed(e, open.next, errors),
        Ok(_) => {
            let condition = p_expression(tokens, pos + 1);
            match condition.result {
                Err(e) => failed(e, condition.next, errors),
                Ok(c) => {
                    let close = consume(
                        tokens,
                        condition.next,
                        TokenType::RightParen,
                        "Expected ')' after 'while' condition.",
                    );
                    match close.result {
                        Err(e) => failed(e, close.next, errors),
                        Ok(_) => if pos < close.next <= tokens.len() {
                            let body = p_statement(tokens, close.next, errors);
                            match body.result {
                                Err(e) => failed(e, body.next, body.errors),
                                Ok(b) => done(
                                    Stmt::While(
                                        WhileStmt { condition: Rc::new(c), body: Rc::new(b) },
                                    ),
                                    body.next,
                                    body.errors,
                                ),
                            }
                        } else {
                            failed(stuck(), close.next, errors)
                        },
                    }
                },
            }
        },
    }
}

/// The clauses of a `for` statement, from its opening parenthesis to its
/// closing one: the initializer, the condition and the increment, each of
/// which may be missing.
pub open spec fn p_for_clauses(tokens: Seq<Token>, pos: int) -> Parsed<
    (Option<Stmt>, Option<Expr>, Option<Expr>),
> {
    let open = consume(tokens, pos, TokenType::LeftParen, "Expected '(' after 'for'.");
    match open.result {
        Err(e) => fail(e, open.next),
        Ok(_) => {
            let initializer: Parsed<Option<Stmt>> = if check(
                tokens,
                pos + 1,
                TokenType::Semicolon,
            ) {
                ok(None, pos + 2)
            } else {
                let first = if check(tokens, pos + 1, TokenType::KwVar) {
                    p_var_decl(tokens, pos + 2)
                } else {
                    p_expr_stmt(tokens, pos + 1)
                };
                match first.result {
                    Err(e) => fail(e, first.next),
                    Ok(s) => ok(Some(s), first.next),
                }
            };
            match initializer.result {
                Err(e) => fail(e, initializer.next),
                Ok(i) => {
                    let condition: Parsed<Option<Expr>> = if check(
                        tokens,
                        initializer.next,
                        TokenType::Semicolon,
                    ) {
                        ok(None, initializer.next)
                    } else {
                        let c = p_expression(tokens, initializer.next);
                        match c.result {
                            Err(e) => fail(e, c.next),
                            Ok(e) => ok(Some(e), c.next),
                        }
                    };
                    match condition.result {
                        Err(e) => fail(e, condition.next),
                        Ok(c) => {
                            let semi = consume(
                                tokens,
                                condition.next,
                                TokenType::Semicolon,
                                "Expected ';' after for loop condition.",
                            );
                            match semi.result {
                                Err(e) => fail(e, semi.next),
                                Ok(_) => {
                                    let increment: Parsed<Option<Expr>> = if check(
                                        tokens,
                                        semi.next,
                                        TokenType::RightParen,
                                    ) {
                                        ok(None, semi.next)
                                    } else {
                                        let n = p_expression(tokens, semi.next);
                                        match n.result {
                                            Err(e) => fail(e, n.next),
                                            Ok(e) => ok(Some(e), n.next),
                                        }
                                    };
                                    match increment.result {
                                        Err(e) => fail(e, increment.next),
                                        Ok(n) => {
                                            let close = consume(
                                                tokens,
                                                increment.next,
                                                TokenType::RightParen,
                                                "Expected ')' after for clauses.",
                                            );
                                            match close.result {
                                                Err(e) => fail(e, close.next),
                                                Ok(_) => ok((i, c, n), close.next),
                                            }
                                        },
                                    }
                                },
                            }
                        },
                    }
                },
            }
        },
    }
}

/// A `for` statement, from after its keyword on.
pub open spec fn p_for(tokens: Seq<Token>, pos: int, errors: Seq<RuntimeError>) -> Declared<Stmt>
    decreases tokens.len() - pos, 65nat,
{
    let clauses = p_for_clauses(tokens, pos);
    match clauses.result {
        Err(e) => failed(e, clauses.next, errors),
        Ok(c) => if pos < clauses.next <= tokens.len() {
            let body = p_statement(tokens, clauses.next, errors);
            match body.result {
                Err(e) => failed(e, body.next, body.errors),
                Ok(b) => done(desugar_for(c.0, c.1, c.2, b), body.next, body.errors),
            }
        } else {
            failed(stuck(), clauses.next, errors)
        },
    }
}

pub open spec fn p_statement(tokens: Seq<Token>, pos: int, errors: Seq<RuntimeError>) -> Declared<
    Stmt,
>
    decreases tokens.len() - pos, 70nat,
{
    if check(tokens, pos, TokenType::KwFor) {
        p_for(tokens, pos + 1, errors)
    } else if check(tokens, pos, TokenType::KwIf) {
        p_if(tokens, pos + 1, errors)
    } else if check(tokens, pos, TokenType::KwPrint) {
        lift(p_print(tokens, pos + 1), errors)
    } else if check(tokens, pos, TokenType::KwReturn) {
        lift(p_return(tokens, pos + 1), errors)
    } else if check(tokens, pos, TokenType::KwWhile) {
        p_while(tokens, pos + 1, errors)
    } else if check(tokens, pos, TokenType::LeftBrace) {
        let block = p_block(tokens, pos + 1, errors);
        match block.result {
            Err(e) => failed(e, block.next, block.errors),
            Ok(items) => done(Stmt::Block(Rc::new(list_of(items))), block.next, block.errors),
        }
    } else {
        lift(p_expr_stmt(tokens, pos), errors)
    }
}

pub open spec fn p_declaration(tokens: Seq<Token>, pos: int, errors: Seq<RuntimeError>)
    -> Declared<Stmt>
    decreases tokens.len() - pos, 80nat,
{
    if check(tokens, pos, TokenType::KwClass) {
        p_class(tokens, pos + 1, errors)
    } else if check(tokens, pos, TokenType::KwFun) {
        let function = p_function(tokens, pos + 1, errors, false);
        match function.result {
            Err(e) => failed(e, function.next, function.errors),
            Ok(f) => done(Stmt::FunctionDecl(Rc::new(f)), function.next, function.errors),
        }
    } else if check(tokens, pos, TokenType::KwVar) {
        lift(p_var_decl(tokens, pos + 1), errors)
    } else {
        p_statement(tokens, pos, errors)
    }
}

/// A declaration and where it ends, with the errors recovered from.
pub struct Recovered {
    pub stmt: Stmt,
    pub next: int,
    pub errors: Seq<RuntimeError>,
}

/// A declaration, or if there is none at `pos`, the placeholder for it:
/// the error is recorded, and parsing goes on at the next statement
/// boundary after the place where it stopped.
pub open spec fn p_declaration_with_error_handling(
    tokens: Seq<Token>,
    pos: int,
    errors: Seq<RuntimeError>,
) -> Recovered
    decreases tokens.len() - pos, 90nat,
{
    let declaration = p_declaration(tokens, pos, errors);
    match declaration.result {
        Ok(s) => Recovered { stmt: s, next: declaration.next, errors: declaration.errors },
        Err(e) => Recovered {
            stmt: Stmt::ParseError { token: tokens[declaration.next] },
            next: p_synchronize(tokens, declaration.next),
            errors: declaration.errors.push(e),
        },
    }
}

/// The declarations of a program from `pos` on, after those in `so_far`,
/// and the errors recovered from.
pub open spec fn p_program(
    tokens: Seq<Token>,
    pos: int,
    errors: Seq<RuntimeError>,
    so_far: Seq<Stmt>,
) -> (Seq<Stmt>, Seq<RuntimeError>)
    decreases tokens.len() - pos, 97nat,
{
    if !at_end(tokens, pos) {
        let item = p_declaration_with_error_handling(tokens, pos, errors);
        if pos < item.next <= tokens.len() {
            p_program(tokens, item.next, item.errors, so_far.push(item.stmt))
        } else {
            (so_far.push(item.stmt), item.errors)
        }
    } else {
        (so_far, errors)
    }
}

/// The program that the tokens are, and the errors recovered from.
pub open spec fn parse(tokens: Seq<Token>) -> (Seq<Stmt>, Seq<RuntimeError>) {
    p_program(tokens, 0, Seq::empty(), Seq::empty())
}

} // verus!
