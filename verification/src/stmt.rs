//! Statements.

use vstd::prelude::*;
use std::rc::Rc;
use crate::callable::Function;
use crate::expr::Expr;
use crate::list::List;
use crate::token::Token;

verus! {

/// Statement AST node.
#[derive(Debug)]
pub enum Stmt {
    /// Stands where a declaration could not be parsed; `token` is where
    /// parsing stopped.
    ParseError { token: Token },
    Print(Rc<Expr>),
    Return(Return),
    Expression(Rc<Expr>),
    VarDecl(VarDecl),
    If(IfStmt),
    While(WhileStmt),
    Block(Rc<List<Stmt>>),
    FunctionDecl(Rc<Function>),
    Class(Class),
}

#[derive(Debug)]
pub struct Return {
    pub keyword: Token,
    pub value: Option<Rc<Expr>>,
}

#[derive(Debug)]
pub struct VarDecl {
    pub name: Token,
    pub initializer: Rc<Expr>,
}

#[derive(Debug)]
pub struct IfStmt {
    pub condition: Rc<Expr>,
    pub then_branch: Rc<Stmt>,
    pub else_branch: Option<Rc<Stmt>>,
}

#[derive(Debug)]
pub struct WhileStmt {
    pub condition: Rc<Expr>,
    pub body: Rc<Stmt>,
}

#[derive(Debug)]
pub struct Class {
    pub name: Token,
    pub methods: Rc<List<Rc<Function>>>,
    /// A variable expression that names the superclass.
    pub superclass: Option<Rc<Expr>>,
}

impl Stmt {
    /// The function that a function declaration declares.
    pub fn function(&self) -> (r: &Rc<Function>)
        requires
            self is FunctionDecl,
        ensures
            *r == self->FunctionDecl_0,
    {
        match self {
            Stmt::FunctionDecl(f) => f,
            _ => unreached(),
        }
    }
}

} // verus!
