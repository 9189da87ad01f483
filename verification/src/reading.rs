//! The grammar reads expressions back: what it consumed is what the tree
//! says.
//!
//! Every expression has a yield, the types of the tokens that it is
//! written with, parentheses and commas included. Whatever the tokens are,
//! the expression that the grammar gives at a place has as its yield just
//! the tokens from that place to the place where parsing stopped: no
//! token is skipped, none is invented, and none is read twice.

use vstd::prelude::*;
use std::rc::Rc;
use crate::expr::Expr;
use crate::grammar::{
    at_end, binary_op, check, consume, join, ok, p_arguments, p_assignment, p_binary,
    p_binary_rest, p_call, p_call_rest, p_expression, p_finish_call, p_operand, p_primary,
    p_unary, type_at, Parsed, MAX_ARGUMENTS,
};
use crate::list::{list_of, List};
use crate::literal::LiteralValue;
use crate::token::{Token, TokenType};

verus! {

/// The type of the token that a literal is written as.
pub open spec fn literal_type(v: LiteralValue) -> TokenType {
    match v {
        LiteralValue::Bool(true) => TokenType::KwTrue,
        LiteralValue::Bool(false) => TokenType::KwFalse,
        LiteralValue::Nil => TokenType::KwNil,
        LiteralValue::Num(_) => TokenType::Number,
        _ => TokenType::String,
    }
}

/// The yield of an expression: the types of the tokens that it is written
/// with.
pub open spec fn yield_of(e: Expr) -> Seq<TokenType>
    decreases e,
{
    match e {
        Expr::Literal(l) => seq![literal_type(l.value)],
        Expr::Variable(_) => seq![TokenType::Identifier],
        Expr::This(_) => seq![TokenType::KwThis],
        Expr::Super(_) => seq![TokenType::KwSuper, TokenType::Dot, TokenType::Identifier],
        Expr::Grouping(g) => seq![TokenType::LeftParen] + yield_of(*g.expr) + seq![
            TokenType::RightParen,
        ],
        Expr::Unary(u) => seq![u.op.token_type] + yield_of(*u.right),
        Expr::Binary(b) => yield_of(*b.left) + seq![b.op.token_type] + yield_of(*b.right),
        Expr::Logical(b) => yield_of(*b.left) + seq![b.op.token_type] + yield_of(*b.right),
        Expr::Assign(a) => seq![TokenType::Identifier, TokenType::Equal] + yield_of(*a.value),
        Expr::Put(p) => yield_of(*p.object) + seq![
            TokenType::Dot,
            TokenType::Identifier,
            TokenType::Equal,
        ] + yield_of(*p.value),
        Expr::Get(g) => yield_of(*g.object) + seq![TokenType::Dot, TokenType::Identifier],
        Expr::Call(c) => yield_of(*c.callee) + seq![TokenType::LeftParen] + yield_list(
            *c.arguments,
        ) + seq![TokenType::RightParen],
    }
}

/// The yield of the arguments of a call: their yields, with commas
/// between.
pub open spec fn yield_list(list: List<Rc<Expr>>) -> Seq<TokenType>
    decreases list,
{
    match list {
        List::Nil => Seq::empty(),
        List::Cons(first, rest) => yield_of(*first) + (match *rest {
            List::Nil => Seq::empty(),
            _ => seq![TokenType::Comma] + yield_list(*rest),
        }),
    }
}

/// As `yield_list`, of a sequence of arguments.
pub open spec fn yield_items(items: Seq<Rc<Expr>>) -> Seq<TokenType>
    decreases items.len(),
{
    if items.len() == 0 {
        Seq::empty()
    } else {
        yield_of(*items[0]) + (if items.len() == 1 {
            Seq::empty()
        } else {
            seq![TokenType::Comma] + yield_items(items.drop_first())
        })
    }
}

/// The types of the tokens from `from` up to `to`.
pub open spec fn types(tokens: Seq<Token>, from: int, to: int) -> Seq<TokenType> {
    Seq::new((to - from) as nat, |i: int| tokens[from + i].token_type)
}

/// The expression, if there is one, has as its yield the tokens from
/// `start` to the place where parsing stopped.
pub open spec fn reads(parsed: Parsed<Expr>, tokens: Seq<Token>, start: int) -> bool {
    match parsed.result {
        Ok(e) => start <= parsed.next <= tokens.len() && types(tokens, start, parsed.next)
            == yield_of(e),
        Err(_) => true,
    }
}

/// The types of a range are those of its two parts.
pub proof fn lemma_types_split(tokens: Seq<Token>, from: int, mid: int, to: int)
    requires
        from <= mid <= to,
    ensures
        types(tokens, from, to) == types(tokens, from, mid) + types(tokens, mid, to),
{
    assert(types(tokens, from, to) =~= types(tokens, from, mid) + types(tokens, mid, to));
}

/// The types of a range of one token.
pub proof fn lemma_types_one(tokens: Seq<Token>, at: int)
    ensures
        types(tokens, at, at + 1) == seq![tokens[at].token_type],
        types(tokens, at, at) == Seq::<TokenType>::empty(),
{
    assert(types(tokens, at, at + 1) =~= seq![tokens[at].token_type]);
    assert(types(tokens, at, at) =~= Seq::<TokenType>::empty());
}

/// The yield of a list is that of its items.
pub proof fn lemma_yield_list(items: Seq<Rc<Expr>>)
    ensures
        yield_list(list_of(items)) == yield_items(items),
    decreases items.len(),
{
    if items.len() > 0 {
        lemma_yield_list(items.drop_first());
        if items.len() == 1 {
            assert(items.drop_first().len() == 0);
        } else {
            assert(items.drop_first().len() > 0);
        }
    }
}

/// The yield of some arguments and one more.
pub proof fn lemma_yield_push(items: Seq<Rc<Expr>>, last: Rc<Expr>)
    ensures
        yield_items(items.push(last)) == (if items.len() == 0 {
            yield_of(*last)
        } else {
            yield_items(items) + seq![TokenType::Comma] + yield_of(*last)
        }),
    decreases items.len(),
{
    let more = items.push(last);
    if items.len() == 0 {
        assert(more.len() == 1);
        assert(more[0] == last);
        assert(yield_items(more) =~= yield_of(*last));
    } else {
        assert(more[0] == items[0]);
        assert(more.drop_first() == items.drop_first().push(last));
        lemma_yield_push(items.drop_first(), last);
        if items.len() == 1 {
            assert(items.drop_first().len() == 0);
            assert(yield_items(items) =~= yield_of(*items[0]));
            assert(yield_items(more) =~= yield_items(items) + seq![TokenType::Comma] + yield_of(
                *last,
            ));
        } else {
            assert(yield_items(more) =~= yield_items(items) + seq![TokenType::Comma] + yield_of(
                *last,
            ));
        }
    }
}

pub proof fn lemma_primary(tokens: Seq<Token>, pos: int)
    ensures
        reads(p_primary(tokens, pos), tokens, pos),
    decreases tokens.len() - pos, 0nat,
{
    let t = type_at(tokens, pos);
    lemma_types_one(tokens, pos);
    if t == TokenType::KwSuper {
        lemma_types_one(tokens, pos + 1);
        lemma_types_one(tokens, pos + 2);
        lemma_types_split(tokens, pos, pos + 1, pos + 3);
        lemma_types_split(tokens, pos + 1, pos + 2, pos + 3);
        if p_primary(tokens, pos).result is Ok {
            assert(types(tokens, pos, pos + 3) =~= seq![
                TokenType::KwSuper,
                TokenType::Dot,
                TokenType::Identifier,
            ]);
        }
    } else if t == TokenType::LeftParen {
        lemma_expression(tokens, pos + 1);
        let inner = p_expression(tokens, pos + 1);
        if p_primary(tokens, pos).result is Ok {
            lemma_types_one(tokens, inner.next);
            lemma_types_split(tokens, pos, pos + 1, inner.next + 1);
            lemma_types_split(tokens, pos + 1, inner.next, inner.next + 1);
            assert(types(tokens, pos, inner.next + 1) =~= seq![TokenType::LeftParen] + types(
                tokens,
                pos + 1,
                inner.next,
            ) + seq![TokenType::RightParen]);
        }
    }
}

pub proof fn lemma_arguments(tokens: Seq<Token>, pos: int, so_far: Seq<Rc<Expr>>, start: int)
    requires
        start <= pos <= tokens.len(),
        types(tokens, start, pos) == (if so_far.len() == 0 {
            Seq::<TokenType>::empty()
        } else {
            yield_items(so_far) + seq![TokenType::Comma]
        }),
    ensures
        match p_arguments(tokens, pos, so_far).result {
            Ok(items) => {
                &&& start <= p_arguments(tokens, pos, so_far).next <= tokens.len()
                &&& types(tokens, start, p_arguments(tokens, pos, so_far).next) == yield_items(
                    items,
                )
            },
            Err(_) => true,
        },
    decreases tokens.len() - pos, 30nat,
{
    if so_far.len() < MAX_ARGUMENTS {
        lemma_expression(tokens, pos);
        let argument = p_expression(tokens, pos);
        match argument.result {
            Ok(e) => {
                let more = so_far.push(Rc::new(e));
                lemma_yield_push(so_far, Rc::new(e));
                lemma_types_split(tokens, start, pos, argument.next);
                assert(types(tokens, start, argument.next) =~= yield_items(more));
                if check(tokens, argument.next, TokenType::Comma) && argument.next >= pos {
                    lemma_types_one(tokens, argument.next);
                    lemma_types_split(tokens, start, argument.next, argument.next + 1);
                    lemma_arguments(tokens, argument.next + 1, more, start);
                }
            },
            Err(_) => {},
        }
    }
}

pub proof fn lemma_finish_call(tokens: Seq<Token>, pos: int, callee: Expr, start: int)
    requires
        start < pos <= tokens.len(),
        types(tokens, start, pos) == yield_of(callee) + seq![TokenType::LeftParen],
    ensures
        reads(p_finish_call(tokens, pos, callee), tokens, start),
    decreases tokens.len() - pos, 31nat,
{
    let arguments = if check(tokens, pos, TokenType::RightParen) {
        ok(Seq::<Rc<Expr>>::empty(), pos)
    } else {
        lemma_types_one(tokens, pos);
        lemma_arguments(tokens, pos, Seq::empty(), pos);
        p_arguments(tokens, pos, Seq::empty())
    };
    match arguments.result {
        Ok(items) => {
            lemma_yield_list(items);
            lemma_types_one(tokens, pos);
            if p_finish_call(tokens, pos, callee).result is Ok {
                let next = arguments.next + 1;
                lemma_types_one(tokens, arguments.next);
                lemma_types_split(tokens, start, pos, next);
                lemma_types_split(tokens, pos, arguments.next, next);
                assert(types(tokens, start, next) =~= yield_of(callee) + seq![
                    TokenType::LeftParen,
                ] + yield_items(items) + seq![TokenType::RightParen]);
            }
        },
        Err(_) => {},
    }
}

pub proof fn lemma_call_rest(tokens: Seq<Token>, pos: int, expr: Expr, start: int)
    requires
        start <= pos <= tokens.len(),
        types(tokens, start, pos) == yield_of(expr),
    ensures
        reads(p_call_rest(tokens, pos, expr), tokens, start),
    decreases tokens.len() - pos, 32nat,
{
    if check(tokens, pos, TokenType::LeftParen) {
        lemma_types_one(tokens, pos);
        lemma_types_split(tokens, start, pos, pos + 1);
        lemma_finish_call(tokens, pos + 1, expr, start);
        let call = p_finish_call(tokens, pos + 1, expr);
        match call.result {
            Ok(e) => {
                if pos < call.next <= tokens.len() {
                    lemma_call_rest(tokens, call.next, e, start);
                }
            },
            Err(_) => {},
        }
    } else if check(tokens, pos, TokenType::Dot) {
        let name = consume(
            tokens,
            pos + 1,
            TokenType::Identifier,
            "Expect property name after '.'",
        );
        match name.result {
            Ok(n) => {
                let get = Expr::Get(crate::expr::Getter { name: n, object: Rc::new(expr) });
                lemma_types_one(tokens, pos);
                lemma_types_one(tokens, pos + 1);
                lemma_types_split(tokens, start, pos, pos + 2);
                lemma_types_split(tokens, pos, pos + 1, pos + 2);
                assert(types(tokens, start, pos + 2) =~= yield_of(get));
                lemma_call_rest(tokens, pos + 2, get, start);
            },
            Err(_) => {},
        }
    }
}

pub proof fn lemma_call(tokens: Seq<Token>, pos: int)
    ensures
        reads(p_call(tokens, pos), tokens, pos),
    decreases tokens.len() - pos, 6nat,
{
    lemma_primary(tokens, pos);
    let primary = p_primary(tokens, pos);
    match primary.result {
        Ok(e) => {
            if pos < primary.next <= tokens.len() {
                lemma_call_rest(tokens, primary.next, e, pos);
            }
        },
        Err(_) => {},
    }
}

pub proof fn lemma_unary(tokens: Seq<Token>, pos: int)
    ensures
        reads(p_unary(tokens, pos), tokens, pos),
    decreases tokens.len() - pos, 7nat,
{
    if check(tokens, pos, TokenType::Bang) || check(tokens, pos, TokenType::Minus) {
        lemma_unary(tokens, pos + 1);
        let right = p_unary(tokens, pos + 1);
        if right.result is Ok {
            lemma_types_one(tokens, pos);
            lemma_types_split(tokens, pos, pos + 1, right.next);
        }
    } else {
        lemma_call(tokens, pos);
    }
}

pub proof fn lemma_operand(tokens: Seq<Token>, pos: int, level: nat)
    ensures
        reads(p_operand(tokens, pos, level), tokens, pos),
    decreases tokens.len() - pos, 9 + 2 * level,
{
    if level <= 1 {
        lemma_unary(tokens, pos);
    } else {
        lemma_binary(tokens, pos, (level - 1) as nat);
    }
}

pub proof fn lemma_binary_rest(tokens: Seq<Token>, pos: int, level: nat, left: Expr, start: int)
    requires
        start <= pos <= tokens.len(),
        types(tokens, start, pos) == yield_of(left),
    ensures
        reads(p_binary_rest(tokens, pos, level, left), tokens, start),
    decreases tokens.len() - pos, 40nat,
{
    if !at_end(tokens, pos) && binary_op(level, type_at(tokens, pos)) {
        lemma_operand(tokens, pos + 1, level);
        let right = p_operand(tokens, pos + 1, level);
        match right.result {
            Ok(e) => {
                if pos < right.next <= tokens.len() {
                    let joined = join(level, left, tokens[pos], e);
                    lemma_types_one(tokens, pos);
                    lemma_types_split(tokens, start, pos, right.next);
                    lemma_types_split(tokens, pos, pos + 1, right.next);
                    assert(types(tokens, start, right.next) =~= yield_of(joined));
                    lemma_binary_rest(tokens, right.next, level, joined, start);
                }
            },
            Err(_) => {},
        }
    }
}

pub proof fn lemma_binary(tokens: Seq<Token>, pos: int, level: nat)
    ensures
        reads(p_binary(tokens, pos, level), tokens, pos),
    decreases tokens.len() - pos, 10 + 2 * level,
{
    lemma_operand(tokens, pos, level);
    let left = p_operand(tokens, pos, level);
    match left.result {
        Ok(e) => {
            if pos < left.next <= tokens.len() {
                lemma_binary_rest(tokens, left.next, level, e, pos);
            }
        },
        Err(_) => {},
    }
}

pub proof fn lemma_assignment(tokens: Seq<Token>, pos: int)
    ensures
        reads(p_assignment(tokens, pos), tokens, pos),
    decreases tokens.len() - pos, 25nat,
{
    lemma_binary(tokens, pos, 6);
    let target = p_binary(tokens, pos, 6);
    match target.result {
        Ok(e) => {
            if check(tokens, target.next, TokenType::Equal) && target.next >= pos {
                lemma_assignment(tokens, target.next + 1);
                let value = p_assignment(tokens, target.next + 1);
                match value.result {
                    Ok(v) => {
                        lemma_types_one(tokens, target.next);
                        lemma_types_split(tokens, pos, target.next, value.next);
                        lemma_types_split(tokens, target.next, target.next + 1, value.next);
                        match e {
                            Expr::Variable(_) => {
                                assert(types(tokens, pos, value.next) =~= seq![
                                    TokenType::Identifier,
                                    TokenType::Equal,
                                ] + yield_of(v));
                            },
                            Expr::Get(g) => {
                                assert(types(tokens, pos, value.next) =~= yield_of(*g.object)
                                    + seq![
                                    TokenType::Dot,
                                    TokenType::Identifier,
                                    TokenType::Equal,
                                ] + yield_of(v));
                            },
                            _ => {},
                        }
                    },
                    Err(_) => {},
                }
            }
        },
        Err(_) => {},
    }
}

/// Whatever the tokens are, the expression that the grammar gives at a
/// place has as its yield the tokens that were consumed, in their order.
pub proof fn lemma_expression(tokens: Seq<Token>, pos: int)
    ensures
        reads(p_expression(tokens, pos), tokens, pos),
    decreases tokens.len() - pos, 26nat,
{
    lemma_assignment(tokens, pos);
}

} // verus!
