//! The grammar respects precedence and associativity.
//!
//! Every expression has a level, by the operator at its root: from 0 for
//! what binds tightest, a primary expression, a call or a property, up to
//! 8 for an assignment. A tree is well shaped when each operand is of a
//! level that may stand there without parentheses: the left operand of a
//! binary operator no looser than the operator, the right operand
//! tighter, so that operators of one level associate to the left; the
//! operand of a unary operator no looser than unary; the callee of a call
//! and the object of a property as tight as a call. Whatever the tokens
//! are, the expressions that the grammar gives are well shaped.

use vstd::prelude::*;
use std::rc::Rc;
use crate::expr::Expr;
use crate::grammar::{
    at_end, binary_op, check, consume, p_arguments, p_assignment, p_binary, p_binary_rest, p_call,
    p_call_rest, p_expression, p_finish_call, p_operand, p_primary, p_unary, type_at, Parsed,
};
use crate::list::{list_of, List};
use crate::token::{Token, TokenType};

verus! {

/// The level of a binary or logical operator, from 2 for factors to 7 for
/// `or`; 9 for what is no such operator.
pub open spec fn operator_level(t: TokenType) -> nat {
    if binary_op(1, t) {
        2
    } else if binary_op(2, t) {
        3
    } else if binary_op(3, t) {
        4
    } else if binary_op(4, t) {
        5
    } else if binary_op(5, t) {
        6
    } else if binary_op(6, t) {
        7
    } else {
        9
    }
}

/// The level of an expression.
pub open spec fn level_of(e: Expr) -> nat {
    match e {
        Expr::Assign(_) => 8,
        Expr::Put(_) => 8,
        Expr::Logical(b) => operator_level(b.op.token_type),
        Expr::Binary(b) => operator_level(b.op.token_type),
        Expr::Unary(_) => 1,
        _ => 0,
    }
}

/// The tree is well shaped: it needs no parentheses but those it has.
pub open spec fn shaped(e: Expr) -> bool
    decreases e,
{
    match e {
        Expr::Assign(a) => shaped(*a.value),
        Expr::Put(p) => shaped(*p.object) && level_of(*p.object) == 0 && shaped(*p.value),
        Expr::Logical(b) => {
            &&& 6 <= operator_level(b.op.token_type) <= 7
            &&& shaped(*b.left)
            &&& shaped(*b.right)
            &&& level_of(*b.left) <= operator_level(b.op.token_type)
            &&& level_of(*b.right) < operator_level(b.op.token_type)
        },
        Expr::Binary(b) => {
            &&& 2 <= operator_level(b.op.token_type) <= 5
            &&& shaped(*b.left)
            &&& shaped(*b.right)
            &&& level_of(*b.left) <= operator_level(b.op.token_type)
            &&& level_of(*b.right) < operator_level(b.op.token_type)
        },
        Expr::Unary(u) => {
            &&& u.op.token_type == TokenType::Bang || u.op.token_type == TokenType::Minus
            &&& shaped(*u.right)
            &&& level_of(*u.right) <= 1
        },
        Expr::Grouping(g) => shaped(*g.expr),
        Expr::Call(c) => shaped(*c.callee) && level_of(*c.callee) == 0 && all_shaped(*c.arguments),
        Expr::Get(g) => shaped(*g.object) && level_of(*g.object) == 0,
        _ => true,
    }
}

/// Every expression of the list is well shaped.
pub open spec fn all_shaped(list: List<Rc<Expr>>) -> bool
    decreases list,
{
    match list {
        List::Nil => true,
        List::Cons(first, rest) => shaped(*first) && all_shaped(*rest),
    }
}

/// Every expression of the sequence is well shaped.
pub open spec fn each_shaped(items: Seq<Rc<Expr>>) -> bool {
    forall|i: int| 0 <= i < items.len() ==> shaped(*#[trigger] items[i])
}

/// The list of well-shaped expressions is a list of well-shaped
/// expressions.
pub proof fn lemma_list_shaped(items: Seq<Rc<Expr>>)
    requires
        each_shaped(items),
    ensures
        all_shaped(list_of(items)),
    decreases items.len(),
{
    if items.len() > 0 {
        assert(shaped(*items[0]));
        assert forall|i: int| 0 <= i < items.drop_first().len() implies shaped(
            *#[trigger] items.drop_first()[i],
        ) by {
            assert(items.drop_first()[i] == items[i + 1]);
        }
        lemma_list_shaped(items.drop_first());
    }
}

/// The result is an expression of the given level at most, well shaped.
pub open spec fn fits(parsed: Parsed<Expr>, level: nat) -> bool {
    match parsed.result {
        Ok(e) => shaped(e) && level_of(e) <= level,
        Err(_) => true,
    }
}

pub proof fn lemma_primary(tokens: Seq<Token>, pos: int)
    ensures
        fits(p_primary(tokens, pos), 0),
    decreases tokens.len() - pos, 0nat,
{
    if type_at(tokens, pos) == TokenType::LeftParen {
        lemma_expression(tokens, pos + 1);
    }
}

pub proof fn lemma_arguments(tokens: Seq<Token>, pos: int, so_far: Seq<Rc<Expr>>)
    requires
        each_shaped(so_far),
    ensures
        match p_arguments(tokens, pos, so_far).result {
            Ok(items) => each_shaped(items),
            Err(_) => true,
        },
    decreases tokens.len() - pos, 30nat,
{
    if so_far.len() < crate::grammar::MAX_ARGUMENTS {
        lemma_expression(tokens, pos);
        let argument = p_expression(tokens, pos);
        match argument.result {
            Ok(e) => {
                let more = so_far.push(Rc::new(e));
                assert forall|i: int| 0 <= i < more.len() implies shaped(*#[trigger] more[i]) by {
                    if i < so_far.len() {
                        assert(more[i] == so_far[i]);
                    }
                }
                if check(tokens, argument.next, TokenType::Comma) && argument.next >= pos {
                    lemma_arguments(tokens, argument.next + 1, more);
                }
            },
            Err(_) => {},
        }
    }
}

pub proof fn lemma_finish_call(tokens: Seq<Token>, pos: int, callee: Expr)
    requires
        shaped(callee),
        level_of(callee) == 0,
    ensures
        fits(p_finish_call(tokens, pos, callee), 0),
    decreases tokens.len() - pos, 31nat,
{
    let arguments = if check(tokens, pos, TokenType::RightParen) {
        crate::grammar::ok(Seq::<Rc<Expr>>::empty(), pos)
    } else {
        lemma_arguments(tokens, pos, Seq::empty());
        p_arguments(tokens, pos, Seq::empty())
    };
    match arguments.result {
        Ok(items) => {
            lemma_list_shaped(items);
        },
        Err(_) => {},
    }
}

pub proof fn lemma_call_rest(tokens: Seq<Token>, pos: int, expr: Expr)
    requires
        shaped(expr),
        level_of(expr) == 0,
    ensures
        fits(p_call_rest(tokens, pos, expr), 0),
    decreases tokens.len() - pos, 32nat,
{
    if check(tokens, pos, TokenType::LeftParen) {
        lemma_finish_call(tokens, pos + 1, expr);
        let call = p_finish_call(tokens, pos + 1, expr);
        match call.result {
            Ok(e) => {
                if pos < call.next <= tokens.len() {
                    lemma_call_rest(tokens, call.next, e);
                }
            },
            Err(_) => {},
        }
    } else if check(tokens, pos, TokenType::Dot) {
        let name = consume(
            tokens,
            pos + 1,
            TokenType::Identifier,
            "Expect property name after '.'",
        );
        match name.result {
            Ok(n) => {
                lemma_call_rest(
                    tokens,
                    pos + 2,
                    Expr::Get(crate::expr::Getter { name: n, object: Rc::new(expr) }),
                );
            },
            Err(_) => {},
        }
    }
}

pub proof fn lemma_call(tokens: Seq<Token>, pos: int)
    ensures
        fits(p_call(tokens, pos), 0),
    decreases tokens.len() - pos, 6nat,
{
    lemma_primary(tokens, pos);
    let primary = p_primary(tokens, pos);
    match primary.result {
        Ok(e) => {
            if pos < primary.next <= tokens.len() {
                lemma_call_rest(tokens, primary.next, e);
            }
        },
        Err(_) => {},
    }
}

pub proof fn lemma_unary(tokens: Seq<Token>, pos: int)
    ensures
        fits(p_unary(tokens, pos), 1),
    decreases tokens.len() - pos, 7nat,
{
    if check(tokens, pos, TokenType::Bang) || check(tokens, pos, TokenType::Minus) {
        lemma_unary(tokens, pos + 1);
    } else {
        lemma_call(tokens, pos);
    }
}

pub proof fn lemma_operand(tokens: Seq<Token>, pos: int, level: nat)
    requires
        1 <= level <= 6,
    ensures
        fits(p_operand(tokens, pos, level), level),
    decreases tokens.len() - pos, 9 + 2 * level,
{
    if level <= 1 {
        lemma_unary(tokens, pos);
    } else {
        lemma_binary(tokens, pos, (level - 1) as nat);
    }
}

pub proof fn lemma_binary_rest(tokens: Seq<Token>, pos: int, level: nat, left: Expr)
    requires
        1 <= level <= 6,
        shaped(left),
        level_of(left) <= level + 1,
    ensures
        fits(p_binary_rest(tokens, pos, level, left), level + 1),
    decreases tokens.len() - pos, 40nat,
{
    if !at_end(tokens, pos) && binary_op(level, type_at(tokens, pos)) {
        lemma_operand(tokens, pos + 1, level);
        let right = p_operand(tokens, pos + 1, level);
        match right.result {
            Ok(e) => {
                if pos < right.next <= tokens.len() {
                    let joined = crate::grammar::join(level, left, tokens[pos], e);
                    assert(operator_level(tokens[pos].token_type) == level + 1);
                    assert(shaped(joined));
                    lemma_binary_rest(tokens, right.next, level, joined);
                }
            },
            Err(_) => {},
        }
    }
}

pub proof fn lemma_binary(tokens: Seq<Token>, pos: int, level: nat)
    requires
        1 <= level <= 6,
    ensures
        fits(p_binary(tokens, pos, level), level + 1),
    decreases tokens.len() - pos, 10 + 2 * level,
{
    lemma_operand(tokens, pos, level);
    let left = p_operand(tokens, pos, level);
    match left.result {
        Ok(e) => {
            if pos < left.next <= tokens.len() {
                lemma_binary_rest(tokens, left.next, level, e);
            }
        },
        Err(_) => {},
    }
}

pub proof fn lemma_assignment(tokens: Seq<Token>, pos: int)
    ensures
        fits(p_assignment(tokens, pos), 8),
    decreases tokens.len() - pos, 25nat,
{
    lemma_binary(tokens, pos, 6);
    let target = p_binary(tokens, pos, 6);
    match target.result {
        Ok(e) => {
            if check(tokens, target.next, TokenType::Equal) && target.next >= pos {
                lemma_assignment(tokens, target.next + 1);
            }
        },
        Err(_) => {},
    }
}

/// Whatever the tokens are, the expression that the grammar gives is well
/// shaped.
pub proof fn lemma_expression(tokens: Seq<Token>, pos: int)
    ensures
        fits(p_expression(tokens, pos), 8),
    decreases tokens.len() - pos, 26nat,
{
    lemma_assignment(tokens, pos);
}

} // verus!
