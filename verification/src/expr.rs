//! Expressions.

use vstd::prelude::*;
use std::rc::Rc;
use crate::list::List;
use crate::literal::LiteralValue;
use crate::token::Token;

verus! {

/// Expression AST node.
#[derive(Debug)]
pub enum Expr {
    Assign(Assign),
    Binary(Binary),
    Logical(Logical),
    Unary(Unary),
    Grouping(Grouping),
    Literal(Literal),
    Variable(Var),
    Call(Call),
    Get(Getter),
    /// An assignment to a property.
    Put(Setter),
    This(This),
    Super(Super),
}

#[derive(Debug)]
pub struct Unary {
    pub op: Token,
    pub right: Rc<Expr>,
}

#[derive(Debug)]
pub struct Binary {
    pub left: Rc<Expr>,
    pub op: Token,
    pub right: Rc<Expr>,
}

#[derive(Debug)]
pub struct Logical {
    pub left: Rc<Expr>,
    pub op: Token,
    pub right: Rc<Expr>,
}

#[derive(Debug)]
pub struct Grouping {
    pub expr: Rc<Expr>,
}

#[derive(Debug)]
pub struct Literal {
    pub value: LiteralValue,
}

#[derive(Debug)]
pub struct Var {
    pub name: Token,
}

#[derive(Debug)]
pub struct Assign {
    pub name: Token,
    pub value: Rc<Expr>,
}

#[derive(Debug)]
pub struct Call {
    pub callee: Rc<Expr>,
    /// The closing parenthesis: where errors of the call are reported.
    pub paren: Token,
    pub arguments: Rc<List<Rc<Expr>>>,
}

#[derive(Debug)]
pub struct Getter {
    pub name: Token,
    pub object: Rc<Expr>,
}

#[derive(Debug)]
pub struct Setter {
    pub name: Token,
    pub object: Rc<Expr>,
    pub value: Rc<Expr>,
}

#[derive(Debug)]
pub struct This {
    pub keyword: Token,
}

#[derive(Debug)]
pub struct Super {
    pub keyword: Token,
    pub method: Token,
}

/// The literal expression of a value.
pub open spec fn literal_of(value: LiteralValue) -> Expr {
    Expr::Literal(Literal { value })
}

/// The literal expression of a value.
pub fn literal(value: LiteralValue) -> (r: Expr)
    ensures
        r == literal_of(value),
{
    Expr::Literal(Literal { value })
}

} // verus!
