//! Functions: as declared, and as closures at run time.

use vstd::prelude::*;
use std::rc::Rc;
use crate::interner::SYM_INIT;
use crate::list::List;
use crate::stmt::Stmt;
use crate::token::Token;

verus! {

/// A function: its declaration, and for a closure the environment that it
/// was declared in. In a declaration `closure` is 0 and means nothing.
#[derive(Debug)]
pub struct Function {
    pub name: Token,
    pub parameters: Rc<List<Token>>,
    pub body: Rc<List<Stmt>>,
    /// The handle of the captured environment.
    pub closure: usize,
    pub is_initializer: bool,
}

impl Function {
    /// Whether the function is named `init`.
    pub fn is_init(&self) -> (r: bool)
        ensures
            r == (self.name.symbol == SYM_INIT),
    {
        self.name.symbol == SYM_INIT
    }
}

/// A function of the host, by the number of arguments it takes.
#[derive(Clone, Copy, Debug)]
pub struct NativeFunction {
    pub arity: usize,
}

} // verus!
