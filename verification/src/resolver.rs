//! The resolver. It computes what [`crate::resolution`] defines.
//!
//! Only a few kinds of nodes are interesting when it comes to resolving
//! variables:
//!
//! - A block statement introduces a new scope for the statements it
//!   contains.
//! - A function declaration introduces a new scope for its body and binds
//!   its parameters in that scope.
//! - A variable declaration adds a new variable to the current scope.
//! - Variable and assignment expressions need to have their variables
//!   resolved.

use vstd::prelude::*;
use std::rc::Rc;
use crate::callable::Function;
use crate::error::RuntimeError;
use crate::expr::Expr;
use crate::interner::{SYM_SUPER, SYM_THIS};
use crate::list::List;
use crate::locals::Locals;
use crate::resolution::{
    begin, declared, defined, distance_of, end, located, named_superclass, resolve, s_expr,
    s_exprs, s_function, s_methods, s_params, s_stmt, s_stmts, s_super, s_this, s_variable,
    ClassType, FunctionType, Outcome, Resolution,
};
use crate::scope::Scope;
use crate::stmt::{Class, Return, Stmt};
use crate::token::Token;

verus! {

pub struct Resolver {
    pub scopes: Vec<Scope>,
    pub current_function: FunctionType,
    pub current_class: ClassType,
}

impl Resolver {
    /// The scopes, innermost last.
    pub open spec fn scopes_view(&self) -> Seq<Map<usize, bool>> {
        Seq::new(self.scopes@.len(), |i: int| self.scopes@[i]@)
    }

    /// The state of resolution, with the given distances.
    pub open spec fn state(&self, locals: Map<(usize, usize), usize>) -> Resolution {
        Resolution {
            scopes: self.scopes_view(),
            function: self.current_function,
            class: self.current_class,
            locals,
        }
    }

    /// The resolver and the distances are in the state that `expected`
    /// tells, and `r` is its error.
    pub open spec fn went(
        &self,
        locals: Map<(usize, usize), usize>,
        r: Result<(), RuntimeError>,
        expected: Outcome,
    ) -> bool {
        &&& self.state(locals) == expected.state
        &&& r == (match expected.error {
            Some(e) => Err::<(), RuntimeError>(e),
            None => Ok(()),
        })
    }

    /// A resolver outside all scopes, functions and classes.
    pub fn new() -> (r: Resolver)
        ensures
            r.scopes_view() == Seq::<Map<usize, bool>>::empty(),
            r.current_function == FunctionType::Outside,
            r.current_class == ClassType::Outside,
    {
        let r = Resolver {
            scopes: Vec::new(),
            current_function: FunctionType::Outside,
            current_class: ClassType::Outside,
        };
        assert(r.scopes_view() =~= Seq::<Map<usize, bool>>::empty());
        r
    }

    /// Resolves the statements, adding the distances of their references
    /// to `locals`. Resolution stops at the first error.
    pub fn resolve(&mut self, locals: &mut Locals, stmts: &Rc<List<Stmt>>) -> (r: Result<
        (),
        RuntimeError,
    >)
        ensures
            final(self).went(final(locals)@, r, s_stmts(old(self).state(old(locals)@), **stmts)),
    {
        self.resolve_stmts(locals, stmts)
    }

    fn resolve_stmts(&mut self, locals: &mut Locals, stmts: &List<Stmt>) -> (r: Result<
        (),
        RuntimeError,
    >)
        ensures
            final(self).went(final(locals)@, r, s_stmts(old(self).state(old(locals)@), *stmts)),
        decreases *stmts,
    {
        match stmts {
            List::Nil => Ok(()),
            List::Cons(first, rest) => {
                match self.resolve_stmt(locals, first) {
                    Err(e) => Err(e),
                    Ok(_) => self.resolve_stmts(locals, rest),
                }
            },
        }
    }

    fn resolve_exprs(&mut self, locals: &mut Locals, exprs: &List<Rc<Expr>>) -> (r: Result<
        (),
        RuntimeError,
    >)
        ensures
            final(self).went(final(locals)@, r, s_exprs(old(self).state(old(locals)@), *exprs)),
        decreases *exprs,
    {
        match exprs {
            List::Nil => Ok(()),
            List::Cons(first, rest) => {
                match self.resolve_expr(locals, first) {
                    Err(e) => Err(e),
                    Ok(_) => self.resolve_exprs(locals, rest),
                }
            },
        }
    }

    fn resolve_stmt(&mut self, locals: &mut Locals, statement: &Stmt) -> (r: Result<
        (),
        RuntimeError,
    >)
        ensures
            final(self).went(final(locals)@, r, s_stmt(old(self).state(old(locals)@), *statement)),
        decreases *statement,
    {
        match statement {
            Stmt::ParseError { .. } => Ok(()),
            Stmt::Print(e) => self.resolve_expr(locals, e),
            Stmt::Expression(e) => self.resolve_expr(locals, e),
            Stmt::Return(r) => self.visit_return_stmt(locals, r),
            Stmt::VarDecl(d) => {
                match self.declare(&d.name, Ghost(locals@)) {
                    Err(e) => {
                        return Err(e);
                    },
                    Ok(_) => {},
                }
                match self.resolve_expr(locals, &d.initializer) {
                    Err(e) => {
                        return Err(e);
                    },
                    Ok(_) => {},
                }
                self.define(&d.name, Ghost(locals@));
                Ok(())
            },
            Stmt::If(i) => {
                match self.resolve_expr(locals, &i.condition) {
                    Err(e) => {
                        return Err(e);
                    },
                    Ok(_) => {},
                }
                match self.resolve_stmt(locals, &i.then_branch) {
                    Err(e) => {
                        return Err(e);
                    },
                    Ok(_) => {},
                }
                match &i.else_branch {
                    Some(branch) => self.resolve_stmt(locals, branch),
                    None => Ok(()),
                }
            },
            Stmt::While(w) => {
                match self.resolve_expr(locals, &w.condition) {
                    Err(e) => {
                        return Err(e);
                    },
                    Ok(_) => {},
                }
                self.resolve_stmt(locals, &w.body)
            },
            Stmt::Block(list) => {
                self.begin_scope(Ghost(locals@));
                match self.resolve_stmts(locals, list) {
                    Err(e) => {
                        return Err(e);
                    },
                    Ok(_) => {},
                }
                self.end_scope(Ghost(locals@));
                Ok(())
            },
            Stmt::FunctionDecl(f) => {
                match self.declare(&f.name, Ghost(locals@)) {
                    Err(e) => {
                        return Err(e);
                    },
                    Ok(_) => {},
                }
                self.define(&f.name, Ghost(locals@));
                self.resolve_function(locals, f, FunctionType::Function)
            },
            Stmt::Class(c) => self.visit_class_stmt(locals, c),
        }
    }

    fn resolve_expr(&mut self, locals: &mut Locals, expression: &Expr) -> (r: Result<
        (),
        RuntimeError,
    >)
        ensures
            final(self).went(
                final(locals)@,
                r,
                s_expr(old(self).state(old(locals)@), *expression),
            ),
        decreases *expression,
    {
        match expression {
            Expr::Assign(a) => {
                match self.resolve_expr(locals, &a.value) {
                    Err(e) => {
                        return Err(e);
                    },
                    Ok(_) => {},
                }
                self.resolve_local(locals, &a.name);
                Ok(())
            },
            Expr::Binary(b) => {
                match self.resolve_expr(locals, &b.left) {
                    Err(e) => {
                        return Err(e);
                    },
                    Ok(_) => {},
                }
                self.resolve_expr(locals, &b.right)
            },
            Expr::Logical(b) => {
                match self.resolve_expr(locals, &b.left) {
                    Err(e) => {
                        return Err(e);
                    },
                    Ok(_) => {},
                }
                self.resolve_expr(locals, &b.right)
            },
            Expr::Unary(u) => self.resolve_expr(locals, &u.right),
            Expr::Grouping(g) => self.resolve_expr(locals, &g.expr),
            Expr::Literal(_) => Ok(()),
            Expr::Variable(v) => self.visit_var_expr(locals, &v.name),
            Expr::Call(c) => {
                match self.resolve_expr(locals, &c.callee) {
                    Err(e) => {
                        return Err(e);
                    },
                    Ok(_) => {},
                }
                self.resolve_exprs(locals, &c.arguments)
            },
            Expr::Get(g) => self.resolve_expr(locals, &g.object),
            Expr::Put(p) => {
                match self.resolve_expr(locals, &p.value) {
                    Err(e) => {
                        return Err(e);
                    },
                    Ok(_) => {},
                }
                self.resolve_expr(locals, &p.object)
            },
            Expr::This(t) => self.visit_this_expr(locals, &t.keyword),
            Expr::Super(x) => self.visit_super_expr(locals, &x.keyword),
        }
    }

    /// Records how far the nearest scope that declares the name is.
    fn resolve_local(&self, locals: &mut Locals, name: &Token)
        ensures
            self.state(final(locals)@) == located(self.state(old(locals)@), *name),
    {
        let mut index: usize = 0;
        let n = self.scopes.len();
        assert(self.scopes_view().take(n as int) =~= self.scopes_view());
        while index < n
            invariant
                n == self.scopes@.len(),
                index <= n,
                locals@ == old(locals)@,
                distance_of(self.scopes_view().take(n - index), name.symbol) is Some
                    ==> distance_of(self.scopes_view(), name.symbol) == Some(
                    (distance_of(self.scopes_view().take(n - index), name.symbol)->0 + index) as nat,
                ),
                distance_of(self.scopes_view().take(n - index), name.symbol) is None
                    ==> distance_of(self.scopes_view(), name.symbol) is None,
            decreases n - index,
        {
            let ghost part = self.scopes_view().take(n - index);
            assert(part.last() == self.scopes@[n - index - 1]@);
            assert(part.drop_last() == self.scopes_view().take(n - index - 1));
            if self.scopes[n - index - 1].get(name.symbol).is_some() {
                locals.resolve(name, index);
                return ;
            }
            index += 1;
        }
        assert(self.scopes_view().take(0).len() == 0);
    }

    /// A function of the given kind: its parameters and its body share one
    /// scope.
    fn resolve_function(&mut self, locals: &mut Locals, func: &Function, ftype: FunctionType) -> (r:
        Result<(), RuntimeError>)
        ensures
            final(self).went(
                final(locals)@,
                r,
                s_function(old(self).state(old(locals)@), *func, ftype),
            ),
        decreases *func,
    {
        let enclosing_function = self.current_function;
        self.current_function = ftype;
        self.begin_scope(Ghost(locals@));
        match self.resolve_params(&func.parameters, Ghost(locals@)) {
            Err(e) => {
                return Err(e);
            },
            Ok(_) => {},
        }
        match self.resolve_stmts(locals, &func.body) {
            Err(e) => {
                return Err(e);
            },
            Ok(_) => {},
        }
        self.end_scope(Ghost(locals@));
        self.current_function = enclosing_function;
        Ok(())
    }

    fn resolve_params(&mut self, params: &List<Token>, Ghost(l): Ghost<Map<(usize, usize), usize>>) -> (r: Result<(), RuntimeError>)
        ensures
            final(self).went(l, r, s_params(old(self).state(l), *params)),
        decreases *params,
    {
        match params {
            List::Nil => Ok(()),
            List::Cons(first, rest) => {
                match self.declare(first, Ghost(l)) {
                    Err(e) => {
                        return Err(e);
                    },
                    Ok(_) => {},
                }
                self.define(first, Ghost(l));
                self.resolve_params(rest, Ghost(l))
            },
        }
    }

    fn resolve_methods(&mut self, locals: &mut Locals, methods: &List<Rc<Function>>) -> (r: Result<
        (),
        RuntimeError,
    >)
        ensures
            final(self).went(
                final(locals)@,
                r,
                s_methods(old(self).state(old(locals)@), *methods),
            ),
        decreases *methods,
    {
        match methods {
            List::Nil => Ok(()),
            List::Cons(first, rest) => {
                let function_type = if first.is_init() {
                    FunctionType::Initializer
                } else {
                    FunctionType::Method
                };
                match self.resolve_function(locals, first, function_type) {
                    Err(e) => Err(e),
                    Ok(_) => self.resolve_methods(locals, rest),
                }
            },
        }
    }

    fn begin_scope(&mut self, Ghost(l): Ghost<Map<(usize, usize), usize>>)
        ensures
            final(self).state(l) == begin(old(self).state(l)),
    {
        self.scopes.push(Scope::new());
        assert(self.scopes_view() =~= old(self).scopes_view().push(Map::empty()));
    }

    fn end_scope(&mut self, Ghost(l): Ghost<Map<(usize, usize), usize>>)
        ensures
            final(self).state(l) == end(old(self).state(l)),
    {
        self.scopes.pop();
        proof {
            if old(self).scopes@.len() > 0 {
                assert(self.scopes_view() =~= old(self).scopes_view().drop_last());
            } else {
                assert(self.scopes_view() =~= old(self).scopes_view());
            }
        }
    }

    fn declare(&mut self, name: &Token, Ghost(l): Ghost<Map<(usize, usize), usize>>) -> (r: Result<(), RuntimeError>)
        ensures
            final(self).went(l, r, declared(old(self).state(l), *name)),
    {
        let n = self.scopes.len();
        if n > 0 {
            assert(self.scopes_view().last() == self.scopes@[n - 1]@);
            if self.scopes[n - 1].get(name.symbol).is_some() {
                return Err(
                    RuntimeError::DuplicateDeclaration(
                        *name,
                        "Already a variable with this name in this scope",
                    ),
                );
            }
            self.scopes[n - 1].insert(name.symbol, false);
            assert(self.scopes_view() =~= old(self).scopes_view().update(
                n - 1,
                old(self).scopes_view().last().insert(name.symbol, false),
            ));
        }
        Ok(())
    }

    fn define_by_name(&mut self, name: usize, Ghost(l): Ghost<Map<(usize, usize), usize>>)
        ensures
            final(self).state(l) == defined(old(self).state(l), name),
    {
        let n = self.scopes.len();
        if n > 0 {
            assert(self.scopes_view().last() == self.scopes@[n - 1]@);
            self.scopes[n - 1].insert(name, true);
            assert(self.scopes_view() =~= old(self).scopes_view().update(
                n - 1,
                old(self).scopes_view().last().insert(name, true),
            ));
        }
    }

    fn define(&mut self, name: &Token, Ghost(l): Ghost<Map<(usize, usize), usize>>)
        ensures
            final(self).state(l) == defined(old(self).state(l), name.symbol),
    {
        self.define_by_name(name.symbol, Ghost(l))
    }

    fn visit_var_expr(&mut self, locals: &mut Locals, name: &Token) -> (r: Result<
        (),
        RuntimeError,
    >)
        ensures
            final(self).went(
                final(locals)@,
                r,
                s_variable(old(self).state(old(locals)@), *name),
            ),
    {
        let n = self.scopes.len();
        if n > 0 {
            assert(self.scopes_view().last() == self.scopes@[n - 1]@);
            match self.scopes[n - 1].get(name.symbol) {
                Some(ready) => {
                    if !ready {
                        return Err(
                            RuntimeError::InvalidAssignmentTarget(
                                *name,
                                "Can't read local variable in its own initializer",
                            ),
                        );
                    }
                },
                None => {},
            }
        }
        self.resolve_local(locals, name);
        Ok(())
    }

    fn visit_this_expr(&mut self, locals: &mut Locals, keyword: &Token) -> (r: Result<
        (),
        RuntimeError,
    >)
        ensures
            final(self).went(final(locals)@, r, s_this(old(self).state(old(locals)@), *keyword)),
    {
        if self.current_class == ClassType::Outside {
            return Err(
                RuntimeError::NonClassThis(*keyword, "Can't use `this` outside of class"),
            );
        }
        self.resolve_local(locals, keyword);
        Ok(())
    }

    fn visit_super_expr(&mut self, locals: &mut Locals, keyword: &Token) -> (r: Result<
        (),
        RuntimeError,
    >)
        ensures
            final(self).went(final(locals)@, r, s_super(old(self).state(old(locals)@), *keyword)),
    {
        match self.current_class {
            ClassType::Outside => Err(
                RuntimeError::InvalidSuper(*keyword, "Can't use `super` outside of a class."),
            ),
            ClassType::Class => Err(
                RuntimeError::InvalidSuper(*keyword, "Can't use `super` without a superclass."),
            ),
            ClassType::SubClass => {
                self.resolve_local(locals, keyword);
                Ok(())
            },
        }
    }

    fn visit_return_stmt(&mut self, locals: &mut Locals, stmt: &Return) -> (r: Result<
        (),
        RuntimeError,
    >)
        ensures
            final(self).went(
                final(locals)@,
                r,
                s_stmt(old(self).state(old(locals)@), Stmt::Return(*stmt)),
            ),
        decreases *stmt,
    {
        match self.current_function {
            FunctionType::Outside => {
                return Err(
                    RuntimeError::TopLevelReturn(stmt.keyword, "Can't return from top-level code"),
                );
            },
            FunctionType::Initializer => {
                if stmt.value.is_some() {
                    return Err(
                        RuntimeError::ValueReturnFromInitializer(
                            stmt.keyword,
                            "Can't return value from initializer",
                        ),
                    );
                }
            },
            _ => {},
        }
        match &stmt.value {
            Some(e) => self.resolve_expr(locals, e),
            None => Ok(()),
        }
    }

    fn visit_class_stmt(&mut self, locals: &mut Locals, stmt: &Class) -> (r: Result<
        (),
        RuntimeError,
    >)
        ensures
            final(self).went(
                final(locals)@,
                r,
                s_stmt(old(self).state(old(locals)@), Stmt::Class(*stmt)),
            ),
        decreases *stmt,
    {
        let enclosing_class = self.current_class;
        self.current_class = ClassType::Class;

        match self.declare(&stmt.name, Ghost(locals@)) {
            Err(e) => {
                return Err(e);
            },
            Ok(_) => {},
        }
        self.define(&stmt.name, Ghost(locals@));

        let superclass = superclass_name(stmt);
        match superclass {
            Some(name) => {
                if name.symbol == stmt.name.symbol {
                    return Err(RuntimeError::RecursiveClass(name));
                }
                self.current_class = ClassType::SubClass;
                match self.visit_var_expr(locals, &name) {
                    Err(e) => {
                        return Err(e);
                    },
                    Ok(_) => {},
                }
                self.begin_scope(Ghost(locals@));
                self.define_by_name(SYM_SUPER, Ghost(locals@));
            },
            None => {},
        }

        self.begin_scope(Ghost(locals@));
        self.define_by_name(SYM_THIS, Ghost(locals@));

        match self.resolve_methods(locals, &stmt.methods) {
            Err(e) => {
                return Err(e);
            },
            Ok(_) => {},
        }

        self.end_scope(Ghost(locals@));

        if superclass.is_some() {
            self.end_scope(Ghost(locals@));
        }

        self.current_class = enclosing_class;
        Ok(())
    }
}

/// The superclass that a class declaration names, if it names one.
fn superclass_name(stmt: &Class) -> (r: Option<Token>)
    ensures
        r == named_superclass(*stmt),
{
    match &stmt.superclass {
        Some(e) => match &**e {
            Expr::Variable(v) => Some(v.name),
            _ => None,
        },
        None => None,
    }
}

} // verus!
