//! The grammar makes progress.
//!
//! Parsing never goes backwards and never leaves the tokens; whatever is
//! parsed with success has consumed a token; and so the error that the
//! grammar keeps for a part that succeeds without consuming anything is
//! never given. Hence a program is parsed in as many steps as it has
//! tokens at most, and every declaration that fails is recovered from at a
//! later place.

use vstd::prelude::*;
use std::rc::Rc;
use crate::callable::Function;
use crate::error::RuntimeError;
use crate::expr::Expr;
use crate::grammar::{
    at_end, binary_op, check, consume, join, p_arguments, p_assignment, p_binary,
    p_binary_rest, p_block, p_block_items, p_call, p_call_rest, p_class, p_class_head,
    p_declaration, p_declaration_with_error_handling, p_expr_stmt, p_expression, p_finish_call,
    p_for, p_for_clauses, p_function, p_function_head, p_if, p_methods, p_operand, p_parameters,
    p_primary, p_print, p_program, p_return, p_statement, p_unary, p_var_decl,
    p_while, sync_loop, type_at, Declared, Parsed, MAX_ARGUMENTS,
};
use crate::stmt::Stmt;
use crate::token::{Token, TokenType};

verus! {

/// Parsing went from `pos` forward within the tokens, and did not give
/// the error for a part that is stuck.
pub open spec fn onward<T>(parsed: Parsed<T>, tokens: Seq<Token>, pos: int) -> bool {
    &&& pos <= parsed.next <= tokens.len()
    &&& match parsed.result {
        Ok(_) => true,
        Err(e) => !(e is GenericError),
    }
}

/// As `onward`, and what was parsed with success consumed a token.
pub open spec fn forward<T>(parsed: Parsed<T>, tokens: Seq<Token>, pos: int) -> bool {
    &&& onward(parsed, tokens, pos)
    &&& parsed.result is Ok ==> pos < parsed.next
}

/// As `onward`, of a statement.
pub open spec fn onward_d<T>(parsed: Declared<T>, tokens: Seq<Token>, pos: int) -> bool {
    &&& pos <= parsed.next <= tokens.len()
    &&& match parsed.result {
        Ok(_) => true,
        Err(e) => !(e is GenericError),
    }
}

/// As `forward`, of a statement.
pub open spec fn forward_d<T>(parsed: Declared<T>, tokens: Seq<Token>, pos: int) -> bool {
    &&& onward_d(parsed, tokens, pos)
    &&& parsed.result is Ok ==> pos < parsed.next
}

pub proof fn lemma_consume(tokens: Seq<Token>, pos: int, t: TokenType, message: &'static str)
    requires
        0 <= pos <= tokens.len(),
    ensures
        forward(consume(tokens, pos, t, message), tokens, pos),
{
}

pub proof fn lemma_primary(tokens: Seq<Token>, pos: int)
    requires
        0 <= pos <= tokens.len(),
    ensures
        forward(p_primary(tokens, pos), tokens, pos),
    decreases tokens.len() - pos, 0nat,
{
    let t = type_at(tokens, pos);
    if t == TokenType::LeftParen {
        lemma_expression(tokens, pos + 1);
    }
}

pub proof fn lemma_arguments(tokens: Seq<Token>, pos: int, so_far: Seq<Rc<Expr>>)
    requires
        0 <= pos <= tokens.len(),
    ensures
        forward(p_arguments(tokens, pos, so_far), tokens, pos),
    decreases tokens.len() - pos, 30nat,
{
    if so_far.len() < MAX_ARGUMENTS {
        lemma_expression(tokens, pos);
        let argument = p_expression(tokens, pos);
        match argument.result {
            Ok(e) => {
                if check(tokens, argument.next, TokenType::Comma) {
                    lemma_arguments(tokens, argument.next + 1, so_far.push(Rc::new(e)));
                }
            },
            Err(_) => {},
        }
    }
}

pub proof fn lemma_finish_call(tokens: Seq<Token>, pos: int, callee: Expr)
    requires
        0 <= pos <= tokens.len(),
    ensures
        forward(p_finish_call(tokens, pos, callee), tokens, pos),
    decreases tokens.len() - pos, 31nat,
{
    if !check(tokens, pos, TokenType::RightParen) {
        lemma_arguments(tokens, pos, Seq::empty());
    }
}

pub proof fn lemma_call_rest(tokens: Seq<Token>, pos: int, expr: Expr)
    requires
        0 <= pos <= tokens.len(),
    ensures
        onward(p_call_rest(tokens, pos, expr), tokens, pos),
    decreases tokens.len() - pos, 32nat,
{
    if check(tokens, pos, TokenType::LeftParen) {
        lemma_finish_call(tokens, pos + 1, expr);
        let call = p_finish_call(tokens, pos + 1, expr);
        match call.result {
            Ok(e) => {
                lemma_call_rest(tokens, call.next, e);
            },
            Err(_) => {},
        }
    } else if check(tokens, pos, TokenType::Dot) {
        let name = consume(
            tokens,
            pos + 1,
            TokenType::Identifier,
            "Expect property name after '.'",
        );
        match name.result {
            Ok(n) => {
                lemma_call_rest(
                    tokens,
                    pos + 2,
                    Expr::Get(crate::expr::Getter { name: n, object: Rc::new(expr) }),
                );
            },
            Err(_) => {},
        }
    }
}

pub proof fn lemma_call(tokens: Seq<Token>, pos: int)
    requires
        0 <= pos <= tokens.len(),
    ensures
        forward(p_call(tokens, pos), tokens, pos),
    decreases tokens.len() - pos, 6nat,
{
    lemma_primary(tokens, pos);
    let primary = p_primary(tokens, pos);
    match primary.result {
        Ok(e) => {
            lemma_call_rest(tokens, primary.next, e);
        },
        Err(_) => {},
    }
}

pub proof fn lemma_unary(tokens: Seq<Token>, pos: int)
    requires
        0 <= pos <= tokens.len(),
    ensures
        forward(p_unary(tokens, pos), tokens, pos),
    decreases tokens.len() - pos, 7nat,
{
    if check(tokens, pos, TokenType::Bang) || check(tokens, pos, TokenType::Minus) {
        lemma_unary(tokens, pos + 1);
    } else {
        lemma_call(tokens, pos);
    }
}

pub proof fn lemma_operand(tokens: Seq<Token>, pos: int, level: nat)
    requires
        0 <= pos <= tokens.len(),
    ensures
        forward(p_operand(tokens, pos, level), tokens, pos),
    decreases tokens.len() - pos, 9 + 2 * level,
{
    if level <= 1 {
        lemma_unary(tokens, pos);
    } else {
        lemma_binary(tokens, pos, (level - 1) as nat);
    }
}

pub proof fn lemma_binary_rest(tokens: Seq<Token>, pos: int, level: nat, left: Expr)
    requires
        0 <= pos <= tokens.len(),
    ensures
        onward(p_binary_rest(tokens, pos, level, left), tokens, pos),
    decreases tokens.len() - pos, 40nat,
{
    if !at_end(tokens, pos) && binary_op(level, type_at(tokens, pos)) {
        lemma_operand(tokens, pos + 1, level);
        let right = p_operand(tokens, pos + 1, level);
        match right.result {
            Ok(e) => {
                lemma_binary_rest(tokens, right.next, level, join(level, left, tokens[pos], e));
            },
            Err(_) => {},
        }
    }
}

pub proof fn lemma_binary(tokens: Seq<Token>, pos: int, level: nat)
    requires
        0 <= pos <= tokens.len(),
    ensures
        forward(p_binary(tokens, pos, level), tokens, pos),
    decreases tokens.len() - pos, 10 + 2 * level,
{
    lemma_operand(tokens, pos, level);
    let left = p_operand(tokens, pos, level);
    match left.result {
        Ok(e) => {
            lemma_binary_rest(tokens, left.next, level, e);
        },
        Err(_) => {},
    }
}

pub proof fn lemma_assignment(tokens: Seq<Token>, pos: int)
    requires
        0 <= pos <= tokens.len(),
    ensures
        forward(p_assignment(tokens, pos), tokens, pos),
    decreases tokens.len() - pos, 25nat,
{
    lemma_binary(tokens, pos, 6);
    let target = p_binary(tokens, pos, 6);
    match target.result {
        Ok(e) => {
            if check(tokens, target.next, TokenType::Equal) {
                lemma_assignment(tokens, target.next + 1);
            }
        },
        Err(_) => {},
    }
}

/// An expression is parsed forward, and never gives the error for a part
/// that is stuck.
pub proof fn lemma_expression(tokens: Seq<Token>, pos: int)
    requires
        0 <= pos <= tokens.len(),
    ensures
        forward(p_expression(tokens, pos), tokens, pos),
    decreases tokens.len() - pos, 26nat,
{
    lemma_assignment(tokens, pos);
}

pub proof fn lemma_expr_stmt(tokens: Seq<Token>, pos: int)
    requires
        0 <= pos <= tokens.len(),
    ensures
        forward(p_expr_stmt(tokens, pos), tokens, pos),
        forward(p_print(tokens, pos), tokens, pos),
{
    lemma_expression(tokens, pos);
}

pub proof fn lemma_return(tokens: Seq<Token>, pos: int)
    requires
        0 <= pos <= tokens.len(),
    ensures
        forward(p_return(tokens, pos), tokens, pos),
{
    lemma_expression(tokens, pos);
}

pub proof fn lemma_var_decl(tokens: Seq<Token>, pos: int)
    requires
        0 <= pos <= tokens.len(),
    ensures
        forward(p_var_decl(tokens, pos), tokens, pos),
{
    if check(tokens, pos, TokenType::Identifier) && check(tokens, pos + 1, TokenType::Equal) {
        lemma_expression(tokens, pos + 2);
    }
}

pub proof fn lemma_parameters(tokens: Seq<Token>, pos: int, so_far: Seq<Token>)
    requires
        0 <= pos <= tokens.len(),
    ensures
        forward(p_parameters(tokens, pos, so_far), tokens, pos),
    decreases tokens.len() - pos,
{
    if so_far.len() < MAX_ARGUMENTS && check(tokens, pos, TokenType::Identifier) && check(
        tokens,
        pos + 1,
        TokenType::Comma,
    ) {
        lemma_parameters(tokens, pos + 2, so_far.push(tokens[pos]));
    }
}

pub proof fn lemma_function_head(tokens: Seq<Token>, pos: int, method: bool)
    requires
        0 <= pos <= tokens.len(),
    ensures
        forward(p_function_head(tokens, pos, method), tokens, pos),
{
    if check(tokens, pos, TokenType::Identifier) && check(tokens, pos + 1, TokenType::LeftParen)
        && !check(tokens, pos + 2, TokenType::RightParen) {
        lemma_parameters(tokens, pos + 2, Seq::empty());
    }
}

pub proof fn lemma_class_head(tokens: Seq<Token>, pos: int)
    requires
        0 <= pos <= tokens.len(),
    ensures
        forward(p_class_head(tokens, pos), tokens, pos),
{
}

pub proof fn lemma_for_clauses(tokens: Seq<Token>, pos: int)
    requires
        0 <= pos <= tokens.len(),
    ensures
        forward(p_for_clauses(tokens, pos), tokens, pos),
{
    if check(tokens, pos, TokenType::LeftParen) {
        let initializer_next = if check(tokens, pos + 1, TokenType::Semicolon) {
            pos + 2
        } else if check(tokens, pos + 1, TokenType::KwVar) {
            lemma_var_decl(tokens, pos + 2);
            p_var_decl(tokens, pos + 2).next
        } else {
            lemma_expr_stmt(tokens, pos + 1);
            p_expr_stmt(tokens, pos + 1).next
        };
        lemma_expression(tokens, initializer_next);
        let condition_next = if check(tokens, initializer_next, TokenType::Semicolon) {
            initializer_next
        } else {
            p_expression(tokens, initializer_next).next
        };
        if condition_next + 1 <= tokens.len() {
            lemma_expression(tokens, condition_next + 1);
        }
    }
}

pub proof fn lemma_function(
    tokens: Seq<Token>,
    pos: int,
    errors: Seq<RuntimeError>,
    method: bool,
)
    requires
        0 <= pos <= tokens.len(),
    ensures
        forward_d(p_function(tokens, pos, errors, method), tokens, pos),
    decreases tokens.len() - pos, 50nat,
{
    lemma_function_head(tokens, pos, method);
    let head = p_function_head(tokens, pos, method);
    if head.result is Ok {
        lemma_block(tokens, head.next, errors);
    }
}

pub proof fn lemma_methods(
    tokens: Seq<Token>,
    pos: int,
    errors: Seq<RuntimeError>,
    so_far: Seq<Rc<Function>>,
)
    requires
        0 <= pos <= tokens.len(),
    ensures
        onward_d(p_methods(tokens, pos, errors, so_far), tokens, pos),
    decreases tokens.len() - pos, 95nat,
{
    if !check(tokens, pos, TokenType::RightBrace) && !at_end(tokens, pos) {
        lemma_function(tokens, pos, errors, true);
        let method = p_function(tokens, pos, errors, true);
        match method.result {
            Ok(f) => {
                lemma_methods(tokens, method.next, method.errors, so_far.push(Rc::new(f)));
            },
            Err(_) => {},
        }
    }
}

pub proof fn lemma_class(tokens: Seq<Token>, pos: int, errors: Seq<RuntimeError>)
    requires
        0 <= pos <= tokens.len(),
    ensures
        forward_d(p_class(tokens, pos, errors), tokens, pos),
    decreases tokens.len() - pos, 96nat,
{
    lemma_class_head(tokens, pos);
    let head = p_class_head(tokens, pos);
    if head.result is Ok {
        lemma_methods(tokens, head.next, errors, Seq::empty());
    }
}

pub proof fn lemma_block_items(
    tokens: Seq<Token>,
    pos: int,
    errors: Seq<RuntimeError>,
    so_far: Seq<Stmt>,
)
    requires
        0 <= pos <= tokens.len(),
    ensures
        onward_d(p_block_items(tokens, pos, errors, so_far), tokens, pos),
    decreases tokens.len() - pos, 95nat,
{
    if !check(tokens, pos, TokenType::RightBrace) && !at_end(tokens, pos) {
        lemma_recovery(tokens, pos, errors);
        let item = p_declaration_with_error_handling(tokens, pos, errors);
        lemma_block_items(tokens, item.next, item.errors, so_far.push(item.stmt));
    }
}

pub proof fn lemma_block(tokens: Seq<Token>, pos: int, errors: Seq<RuntimeError>)
    requires
        0 <= pos <= tokens.len(),
    ensures
        forward_d(p_block(tokens, pos, errors), tokens, pos),
    decreases tokens.len() - pos, 96nat,
{
    lemma_block_items(tokens, pos, errors, Seq::empty());
}

pub proof fn lemma_if(tokens: Seq<Token>, pos: int, errors: Seq<RuntimeError>)
    requires
        0 <= pos <= tokens.len(),
    ensures
        forward_d(p_if(tokens, pos, errors), tokens, pos),
    decreases tokens.len() - pos, 65nat,
{
    if check(tokens, pos, TokenType::LeftParen) {
        lemma_expression(tokens, pos + 1);
        let condition = p_expression(tokens, pos + 1);
        if condition.result is Ok && check(tokens, condition.next, TokenType::RightParen) {
            lemma_statement(tokens, condition.next + 1, errors);
            let then_branch = p_statement(tokens, condition.next + 1, errors);
            if then_branch.result is Ok && check(tokens, then_branch.next, TokenType::KwElse) {
                lemma_statement(tokens, then_branch.next + 1, then_branch.errors);
            }
        }
    }
}

pub proof fn lemma_while(tokens: Seq<Token>, pos: int, errors: Seq<RuntimeError>)
    requires
        0 <= pos <= tokens.len(),
    ensures
        forward_d(p_while(tokens, pos, errors), tokens, pos),
    decreases tokens.len() - pos, 65nat,
{
    if check(tokens, pos, TokenType::LeftParen) {
        lemma_expression(tokens, pos + 1);
        let condition = p_expression(tokens, pos + 1);
        if condition.result is Ok && check(tokens, condition.next, TokenType::RightParen) {
            lemma_statement(tokens, condition.next + 1, errors);
        }
    }
}

pub proof fn lemma_for(tokens: Seq<Token>, pos: int, errors: Seq<RuntimeError>)
    requires
        0 <= pos <= tokens.len(),
    ensures
        forward_d(p_for(tokens, pos, errors), tokens, pos),
    decreases tokens.len() - pos, 65nat,
{
    lemma_for_clauses(tokens, pos);
    let clauses = p_for_clauses(tokens, pos);
    if clauses.result is Ok {
        lemma_statement(tokens, clauses.next, errors);
    }
}

pub proof fn lemma_statement(tokens: Seq<Token>, pos: int, errors: Seq<RuntimeError>)
    requires
        0 <= pos <= tokens.len(),
    ensures
        forward_d(p_statement(tokens, pos, errors), tokens, pos),
    decreases tokens.len() - pos, 70nat,
{
    if check(tokens, pos, TokenType::KwFor) {
        lemma_for(tokens, pos + 1, errors);
    } else if check(tokens, pos, TokenType::KwIf) {
        lemma_if(tokens, pos + 1, errors);
    } else if check(tokens, pos, TokenType::KwPrint) {
        lemma_expr_stmt(tokens, pos + 1);
    } else if check(tokens, pos, TokenType::KwReturn) {
        lemma_return(tokens, pos + 1);
    } else if check(tokens, pos, TokenType::KwWhile) {
        lemma_while(tokens, pos + 1, errors);
    } else if check(tokens, pos, TokenType::LeftBrace) {
        lemma_block(tokens, pos + 1, errors);
    } else {
        lemma_expr_stmt(tokens, pos);
    }
}

pub proof fn lemma_declaration(tokens: Seq<Token>, pos: int, errors: Seq<RuntimeError>)
    requires
        0 <= pos <= tokens.len(),
    ensures
        forward_d(p_declaration(tokens, pos, errors), tokens, pos),
    decreases tokens.len() - pos, 80nat,
{
    if check(tokens, pos, TokenType::KwClass) {
        lemma_class(tokens, pos + 1, errors);
    } else if check(tokens, pos, TokenType::KwFun) {
        lemma_function(tokens, pos + 1, errors, false);
    } else if check(tokens, pos, TokenType::KwVar) {
        lemma_var_decl(tokens, pos + 1);
    } else {
        lemma_statement(tokens, pos, errors);
    }
}

/// Skipping to a statement boundary goes forward within the tokens.
pub proof fn lemma_sync_loop(tokens: Seq<Token>, pos: int)
    requires
        0 <= pos <= tokens.len(),
    ensures
        pos <= sync_loop(tokens, pos) <= tokens.len(),
    decreases tokens.len() - pos,
{
    if !at_end(tokens, pos) && tokens[pos - 1].token_type != TokenType::Semicolon
        && !crate::grammar::starts_statement(type_at(tokens, pos)) {
        lemma_sync_loop(tokens, pos + 1);
    }
}

/// A declaration, parsed or recovered from, ends at a later place: every
/// error is recovered from by going forward.
pub proof fn lemma_recovery(tokens: Seq<Token>, pos: int, errors: Seq<RuntimeError>)
    requires
        0 <= pos <= tokens.len(),
        !at_end(tokens, pos),
    ensures
        pos < p_declaration_with_error_handling(tokens, pos, errors).next <= tokens.len(),
    decreases tokens.len() - pos, 90nat,
{
    lemma_declaration(tokens, pos, errors);
    let declaration = p_declaration(tokens, pos, errors);
    if declaration.result is Err {
        if at_end(tokens, declaration.next) {
            lemma_sync_loop(tokens, declaration.next);
        } else {
            lemma_sync_loop(tokens, declaration.next + 1);
        }
    }
}

/// A program is parsed to the end of its tokens: as many declarations are
/// parsed or recovered from as it takes to get there.
pub proof fn lemma_program(
    tokens: Seq<Token>,
    pos: int,
    errors: Seq<RuntimeError>,
    so_far: Seq<Stmt>,
)
    requires
        0 <= pos <= tokens.len(),
    ensures
        so_far.len() <= p_program(tokens, pos, errors, so_far).0.len(),
        p_program(tokens, pos, errors, so_far).0.len() <= so_far.len() + (tokens.len() - pos),
        errors.len() <= p_program(tokens, pos, errors, so_far).1.len(),
    decreases tokens.len() - pos, 97nat,
{
    if !at_end(tokens, pos) {
        lemma_recovery(tokens, pos, errors);
        lemma_errors_grow(tokens, pos, errors);
        let item = p_declaration_with_error_handling(tokens, pos, errors);
        lemma_program(tokens, item.next, item.errors, so_far.push(item.stmt));
    }
}

/// Recovery adds to the errors and takes none away. Stated of a
/// declaration at the top of a program.
pub proof fn lemma_errors_grow(tokens: Seq<Token>, pos: int, errors: Seq<RuntimeError>)
    requires
        0 <= pos <= tokens.len(),
    ensures
        errors.len() <= p_declaration(tokens, pos, errors).errors.len(),
        errors.len() <= p_declaration_with_error_handling(tokens, pos, errors).errors.len(),
    decreases tokens.len() - pos, 90nat,
{
    lemma_declaration_errors(tokens, pos, errors);
}

/// As `lemma_errors_grow`, of every kind of statement.
pub proof fn lemma_declaration_errors(tokens: Seq<Token>, pos: int, errors: Seq<RuntimeError>)
    requires
        0 <= pos <= tokens.len(),
    ensures
        errors.len() <= p_declaration(tokens, pos, errors).errors.len(),
    decreases tokens.len() - pos, 80nat,
{
    if check(tokens, pos, TokenType::KwClass) {
        lemma_class_errors(tokens, pos + 1, errors);
    } else if check(tokens, pos, TokenType::KwFun) {
        lemma_function_errors(tokens, pos + 1, errors, false);
    } else if check(tokens, pos, TokenType::KwVar) {
    } else {
        lemma_statement_errors(tokens, pos, errors);
    }
}

pub proof fn lemma_statement_errors(tokens: Seq<Token>, pos: int, errors: Seq<RuntimeError>)
    requires
        0 <= pos <= tokens.len(),
    ensures
        errors.len() <= p_statement(tokens, pos, errors).errors.len(),
    decreases tokens.len() - pos, 70nat,
{
    if check(tokens, pos, TokenType::KwFor) {
        lemma_for_clauses(tokens, pos + 1);
        let clauses = p_for_clauses(tokens, pos + 1);
        if clauses.result is Ok {
            lemma_statement_errors(tokens, clauses.next, errors);
        }
    } else if check(tokens, pos, TokenType::KwIf) {
        if check(tokens, pos + 1, TokenType::LeftParen) {
            lemma_expression(tokens, pos + 2);
            let condition = p_expression(tokens, pos + 2);
            if condition.result is Ok && check(tokens, condition.next, TokenType::RightParen) {
                lemma_statement(tokens, condition.next + 1, errors);
                lemma_statement_errors(tokens, condition.next + 1, errors);
                let then_branch = p_statement(tokens, condition.next + 1, errors);
                if then_branch.result is Ok && check(tokens, then_branch.next, TokenType::KwElse) {
                    lemma_statement_errors(tokens, then_branch.next + 1, then_branch.errors);
                }
            }
        }
    } else if check(tokens, pos, TokenType::KwPrint) {
    } else if check(tokens, pos, TokenType::KwReturn) {
    } else if check(tokens, pos, TokenType::KwWhile) {
        if check(tokens, pos + 1, TokenType::LeftParen) {
            lemma_expression(tokens, pos + 2);
            let condition = p_expression(tokens, pos + 2);
            if condition.result is Ok && check(tokens, condition.next, TokenType::RightParen) {
                lemma_statement_errors(tokens, condition.next + 1, errors);
            }
        }
    } else if check(tokens, pos, TokenType::LeftBrace) {
        lemma_block_errors(tokens, pos + 1, errors);
    } else {
    }
}

pub proof fn lemma_block_items_errors(
    tokens: Seq<Token>,
    pos: int,
    errors: Seq<RuntimeError>,
    so_far: Seq<Stmt>,
)
    requires
        0 <= pos <= tokens.len(),
    ensures
        errors.len() <= p_block_items(tokens, pos, errors, so_far).errors.len(),
    decreases tokens.len() - pos, 95nat,
{
    if !check(tokens, pos, TokenType::RightBrace) && !at_end(tokens, pos) {
        lemma_recovery(tokens, pos, errors);
        lemma_declaration_errors(tokens, pos, errors);
        let item = p_declaration_with_error_handling(tokens, pos, errors);
        assert(errors.len() <= item.errors.len());
        lemma_block_items_errors(tokens, item.next, item.errors, so_far.push(item.stmt));
    }
}

pub proof fn lemma_block_errors(tokens: Seq<Token>, pos: int, errors: Seq<RuntimeError>)
    requires
        0 <= pos <= tokens.len(),
    ensures
        errors.len() <= p_block(tokens, pos, errors).errors.len(),
    decreases tokens.len() - pos, 96nat,
{
    lemma_block_items_errors(tokens, pos, errors, Seq::empty());
}

pub proof fn lemma_function_errors(
    tokens: Seq<Token>,
    pos: int,
    errors: Seq<RuntimeError>,
    method: bool,
)
    requires
        0 <= pos <= tokens.len(),
    ensures
        errors.len() <= p_function(tokens, pos, errors, method).errors.len(),
    decreases tokens.len() - pos, 50nat,
{
    lemma_function_head(tokens, pos, method);
    let head = p_function_head(tokens, pos, method);
    if head.result is Ok {
        lemma_block_errors(tokens, head.next, errors);
    }
}

pub proof fn lemma_class_errors(tokens: Seq<Token>, pos: int, errors: Seq<RuntimeError>)
    requires
        0 <= pos <= tokens.len(),
    ensures
        errors.len() <= p_class(tokens, pos, errors).errors.len(),
    decreases tokens.len() - pos, 96nat,
{
    lemma_class_head(tokens, pos);
    let head = p_class_head(tokens, pos);
    if head.result is Ok {
        lemma_methods_errors(tokens, head.next, errors, Seq::empty());
    }
}

pub proof fn lemma_methods_errors(
    tokens: Seq<Token>,
    pos: int,
    errors: Seq<RuntimeError>,
    so_far: Seq<Rc<Function>>,
)
    requires
        0 <= pos <= tokens.len(),
    ensures
        errors.len() <= p_methods(tokens, pos, errors, so_far).errors.len(),
    decreases tokens.len() - pos, 95nat,
{
    if !check(tokens, pos, TokenType::RightBrace) && !at_end(tokens, pos) {
        lemma_function(tokens, pos, errors, true);
        lemma_function_errors(tokens, pos, errors, true);
        let method = p_function(tokens, pos, errors, true);
        match method.result {
            Ok(f) => {
                lemma_methods_errors(tokens, method.next, method.errors, so_far.push(Rc::new(f)));
            },
            Err(_) => {},
        }
    }
}

} // verus!
