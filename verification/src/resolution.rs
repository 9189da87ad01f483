//! What resolution is: a walk over the syntax tree that keeps the stack of
//! lexical scopes, records for each reference to a local variable how many
//! scopes lie between it and its declaration, and refuses programs that
//! misplace `return`, `this` or `super` or read a variable in its own
//! initializer.

use vstd::prelude::*;
use std::rc::Rc;
use crate::callable::Function;
use crate::environment::{ancestor_of, binder_of, Frame};
use crate::error::RuntimeError;
use crate::expr::Expr;
use crate::interner::{SYM_INIT, SYM_SUPER, SYM_THIS};
use crate::list::List;
use crate::stmt::{Class, Return, Stmt};
use crate::token::Token;

verus! {

/// What kind of function the resolver is in.
#[derive(Clone, Copy, PartialEq, Eq, Structural, Debug)]
pub enum FunctionType {
    /// Outside all functions.
    Outside,
    Function,
    Initializer,
    Method,
}

/// What kind of class the resolver is in.
#[derive(Clone, Copy, PartialEq, Eq, Structural, Debug)]
pub enum ClassType {
    /// Outside all classes.
    Outside,
    Class,
    SubClass,
}

/// The state of resolution.
pub struct Resolution {
    /// The scopes, innermost last: for each declared name, whether its
    /// initializer has been resolved.
    pub scopes: Seq<Map<usize, bool>>,
    pub function: FunctionType,
    pub class: ClassType,
    /// The distances recorded so far.
    pub locals: Map<(usize, usize), usize>,
}

/// The state after resolving something, and the error that stopped it.
pub struct Outcome {
    pub state: Resolution,
    pub error: Option<RuntimeError>,
}

pub open spec fn good(state: Resolution) -> Outcome {
    Outcome { state, error: None }
}

pub open spec fn bad(state: Resolution, error: RuntimeError) -> Outcome {
    Outcome { state, error: Some(error) }
}

/// With a new innermost scope.
pub open spec fn begin(s: Resolution) -> Resolution {
    Resolution { scopes: s.scopes.push(Map::empty()), ..s }
}

/// Without the innermost scope.
pub open spec fn end(s: Resolution) -> Resolution {
    if s.scopes.len() > 0 {
        Resolution { scopes: s.scopes.drop_last(), ..s }
    } else {
        s
    }
}

/// Declares the name in the innermost scope, not yet ready. A name that is
/// declared there already is refused; outside all scopes nothing happens.
pub open spec fn declared(s: Resolution, name: Token) -> Outcome {
    if s.scopes.len() == 0 {
        good(s)
    } else if s.scopes.last().contains_key(name.symbol) {
        bad(
            s,
            RuntimeError::DuplicateDeclaration(
                name,
                "Already a variable with this name in this scope",
            ),
        )
    } else {
        good(
            Resolution {
                scopes: s.scopes.update(
                    s.scopes.len() - 1,
                    s.scopes.last().insert(name.symbol, false),
                ),
                ..s
            },
        )
    }
}

/// Marks the name ready in the innermost scope, declaring it if need be.
pub open spec fn defined(s: Resolution, name: usize) -> Resolution {
    if s.scopes.len() == 0 {
        s
    } else {
        Resolution {
            scopes: s.scopes.update(s.scopes.len() - 1, s.scopes.last().insert(name, true)),
            ..s
        }
    }
}

/// How many scopes lie between the innermost scope and the nearest one
/// that declares the name, if any does.
pub open spec fn distance_of(scopes: Seq<Map<usize, bool>>, name: usize) -> Option<nat>
    decreases scopes.len(),
{
    if scopes.len() == 0 {
        None
    } else if scopes.last().contains_key(name) {
        Some(0)
    } else {
        match distance_of(scopes.drop_last(), name) {
            Some(d) => Some(d + 1),
            None => None,
        }
    }
}

/// Records the distance of a reference to a local variable; a name that no
/// scope declares is global, and nothing is recorded for it.
pub open spec fn located(s: Resolution, name: Token) -> Resolution {
    match distance_of(s.scopes, name.symbol) {
        Some(d) => Resolution { locals: s.locals.insert(name.span(), d as usize), ..s },
        None => s,
    }
}

/// A reference to a variable: refused while the variable's own
/// initializer is being resolved in the innermost scope.
pub open spec fn s_variable(s: Resolution, name: Token) -> Outcome {
    if s.scopes.len() > 0 && s.scopes.last().get(name.symbol) == Some(false) {
        bad(
            s,
            RuntimeError::InvalidAssignmentTarget(
                name,
                "Can't read local variable in its own initializer",
            ),
        )
    } else {
        good(located(s, name))
    }
}

pub open spec fn s_this(s: Resolution, keyword: Token) -> Outcome {
    if s.class == ClassType::Outside {
        bad(s, RuntimeError::NonClassThis(keyword, "Can't use `this` outside of class"))
    } else {
        good(located(s, keyword))
    }
}

pub open spec fn s_super(s: Resolution, keyword: Token) -> Outcome {
    match s.class {
        ClassType::Outside => bad(
            s,
            RuntimeError::InvalidSuper(keyword, "Can't use `super` outside of a class."),
        ),
        ClassType::Class => bad(
            s,
            RuntimeError::InvalidSuper(keyword, "Can't use `super` without a superclass."),
        ),
        ClassType::SubClass => good(located(s, keyword)),
    }
}

pub open spec fn s_expr(s: Resolution, e: Expr) -> Outcome
    decreases e,
{
    match e {
        Expr::Assign(a) => {
            let value = s_expr(s, *a.value);
            if value.error is Some {
                value
            } else {
                good(located(value.state, a.name))
            }
        },
        Expr::Binary(b) => {
            let left = s_expr(s, *b.left);
            if left.error is Some {
                left
            } else {
                s_expr(left.state, *b.right)
            }
        },
        Expr::Logical(b) => {
            let left = s_expr(s, *b.left);
            if left.error is Some {
                left
            } else {
                s_expr(left.state, *b.right)
            }
        },
        Expr::Unary(u) => s_expr(s, *u.right),
        Expr::Grouping(g) => s_expr(s, *g.expr),
        Expr::Literal(_) => good(s),
        Expr::Variable(v) => s_variable(s, v.name),
        Expr::Call(c) => {
            let callee = s_expr(s, *c.callee);
            if callee.error is Some {
                callee
            } else {
                s_exprs(callee.state, *c.arguments)
            }
        },
        Expr::Get(g) => s_expr(s, *g.object),
        Expr::Put(p) => {
            let value = s_expr(s, *p.value);
            if value.error is Some {
                value
            } else {
                s_expr(value.state, *p.object)
            }
        },
        Expr::This(t) => s_this(s, t.keyword),
        Expr::Super(x) => s_super(s, x.keyword),
    }
}

pub open spec fn s_exprs(s: Resolution, list: List<Rc<Expr>>) -> Outcome
    decreases list,
{
    match list {
        List::Nil => good(s),
        List::Cons(first, rest) => {
            let one = s_expr(s, *first);
            if one.error is Some {
                one
            } else {
                s_exprs(one.state, *rest)
            }
        },
    }
}

/// A `return`: refused outside functions, and with a value in an
/// initializer.
pub open spec fn s_return_allowed(s: Resolution, r: Return) -> Option<RuntimeError> {
    match s.function {
        FunctionType::Outside => Some(
            RuntimeError::TopLevelReturn(r.keyword, "Can't return from top-level code"),
        ),
        FunctionType::Initializer => if r.value is Some {
            Some(
                RuntimeError::ValueReturnFromInitializer(
                    r.keyword,
                    "Can't return value from initializer",
                ),
            )
        } else {
            None
        },
        _ => None,
    }
}

/// The superclass that a class declaration names, if it names one.
pub open spec fn named_superclass(c: Class) -> Option<Token> {
    match c.superclass {
        Some(e) => match *e {
            Expr::Variable(v) => Some(v.name),
            _ => None,
        },
        None => None,
    }
}

pub open spec fn s_params(s: Resolution, list: List<Token>) -> Outcome
    decreases list,
{
    match list {
        List::Nil => good(s),
        List::Cons(first, rest) => {
            let one = declared(s, first);
            if one.error is Some {
                one
            } else {
                s_params(defined(one.state, first.symbol), *rest)
            }
        },
    }
}

pub open spec fn s_stmt(s: Resolution, stmt: Stmt) -> Outcome
    decreases stmt,
{
    match stmt {
        Stmt::ParseError { token } => good(s),
        Stmt::Print(e) => s_expr(s, *e),
        Stmt::Expression(e) => s_expr(s, *e),
        Stmt::Return(r) => match s_return_allowed(s, r) {
            Some(e) => bad(s, e),
            None => match r.value {
                Some(e) => s_expr(s, *e),
                None => good(s),
            },
        },
        Stmt::VarDecl(d) => {
            let one = declared(s, d.name);
            if one.error is Some {
                one
            } else {
                let initializer = s_expr(one.state, *d.initializer);
                if initializer.error is Some {
                    initializer
                } else {
                    good(defined(initializer.state, d.name.symbol))
                }
            }
        },
        Stmt::If(i) => {
            let condition = s_expr(s, *i.condition);
            if condition.error is Some {
                condition
            } else {
                let then_branch = s_stmt(condition.state, *i.then_branch);
                if then_branch.error is Some {
                    then_branch
                } else {
                    match i.else_branch {
                        Some(e) => s_stmt(then_branch.state, *e),
                        None => then_branch,
                    }
                }
            }
        },
        Stmt::While(w) => {
            let condition = s_expr(s, *w.condition);
            if condition.error is Some {
                condition
            } else {
                s_stmt(condition.state, *w.body)
            }
        },
        Stmt::Block(list) => {
            let inner = s_stmts(begin(s), *list);
            if inner.error is Some {
                inner
            } else {
                good(end(inner.state))
            }
        },
        Stmt::FunctionDecl(f) => {
            let one = declared(s, f.name);
            if one.error is Some {
                one
            } else {
                s_function(defined(one.state, f.name.symbol), *f, FunctionType::Function)
            }
        },
        Stmt::Class(c) => {
            let enclosing = s.class;
            let one = declared(Resolution { class: ClassType::Class, ..s }, c.name);
            if one.error is Some {
                one
            } else {
                let named = defined(one.state, c.name.symbol);
                let base = match named_superclass(c) {
                    Some(name) => if name.symbol == c.name.symbol {
                        bad(named, RuntimeError::RecursiveClass(name))
                    } else {
                        let looked = s_variable(
                            Resolution { class: ClassType::SubClass, ..named },
                            name,
                        );
                        if looked.error is Some {
                            looked
                        } else {
                            good(defined(begin(looked.state), SYM_SUPER))
                        }
                    },
                    None => good(named),
                };
                if base.error is Some {
                    base
                } else {
                    let methods = s_methods(defined(begin(base.state), SYM_THIS), *c.methods);
                    if methods.error is Some {
                        methods
                    } else {
                        let closed = end(methods.state);
                        let closed = if named_superclass(c) is Some {
                            end(closed)
                        } else {
                            closed
                        };
                        good(Resolution { class: enclosing, ..closed })
                    }
                }
            }
        },
    }
}

pub open spec fn s_stmts(s: Resolution, list: List<Stmt>) -> Outcome
    decreases list,
{
    match list {
        List::Nil => good(s),
        List::Cons(first, rest) => {
            let one = s_stmt(s, first);
            if one.error is Some {
                one
            } else {
                s_stmts(one.state, *rest)
            }
        },
    }
}

/// A function of the given kind: its parameters and its body share one
/// scope.
pub open spec fn s_function(s: Resolution, f: Function, kind: FunctionType) -> Outcome
    decreases f,
{
    let enclosing = s.function;
    let parameters = s_params(begin(Resolution { function: kind, ..s }), *f.parameters);
    if parameters.error is Some {
        parameters
    } else {
        let body = s_stmts(parameters.state, *f.body);
        if body.error is Some {
            body
        } else {
            good(Resolution { function: enclosing, ..end(body.state) })
        }
    }
}

/// The methods of a class: the one named `init` is the initializer.
pub open spec fn s_methods(s: Resolution, list: List<Rc<Function>>) -> Outcome
    decreases list,
{
    match list {
        List::Nil => good(s),
        List::Cons(first, rest) => {
            let one = s_function(
                s,
                *first,
                if first.name.symbol == SYM_INIT {
                    FunctionType::Initializer
                } else {
                    FunctionType::Method
                },
            );
            if one.error is Some {
                one
            } else {
                s_methods(one.state, *rest)
            }
        },
    }
}

/// Resolving a program from the start: outside all scopes, functions and
/// classes, adding to the distances that are recorded already.
pub open spec fn resolve(locals: Map<(usize, usize), usize>, program: List<Stmt>) -> Outcome {
    s_stmts(
        Resolution {
            scopes: Seq::empty(),
            function: FunctionType::Outside,
            class: ClassType::Outside,
            locals,
        },
        program,
    )
}

/// A variable declared in a local scope cannot be read in its own
/// initializer: `var a = a;` is refused by resolution, whatever the outer
/// scopes declare. (Where the scope declares `a` already, the declaration
/// itself is refused.)
pub proof fn lemma_self_reference_refused(s: Resolution, name: Token, reference: Token)
    requires
        s.scopes.len() > 0,
        reference.symbol == name.symbol,
    ensures
        ({
            let declaration = Stmt::VarDecl(
                crate::stmt::VarDecl {
                    name,
                    initializer: Rc::new(Expr::Variable(crate::expr::Var { name: reference })),
                },
            );
            s_stmt(s, declaration).error == Some(
                if s.scopes.last().contains_key(name.symbol) {
                    RuntimeError::DuplicateDeclaration(
                        name,
                        "Already a variable with this name in this scope",
                    )
                } else {
                    RuntimeError::InvalidAssignmentTarget(
                        reference,
                        "Can't read local variable in its own initializer",
                    )
                },
            )
        }),
{
}

/// The distance recorded for a reference is that of the nearest scope that
/// declares the name: the scope at that distance declares it, and none
/// nearer does.
pub proof fn lemma_distance_is_nearest(scopes: Seq<Map<usize, bool>>, name: usize)
    ensures
        match distance_of(scopes, name) {
            Some(d) => {
                &&& d < scopes.len()
                &&& scopes[scopes.len() - 1 - d].contains_key(name)
                &&& forall|k: int|
                    scopes.len() - d <= k < scopes.len() ==> !(#[trigger] scopes[k]).contains_key(
                        name,
                    )
            },
            None => forall|k: int|
                0 <= k < scopes.len() ==> !(#[trigger] scopes[k]).contains_key(name),
        },
    decreases scopes.len(),
{
    if scopes.len() > 0 && !scopes.last().contains_key(name) {
        let rest = scopes.drop_last();
        lemma_distance_is_nearest(rest, name);
        assert forall|k: int| 0 <= k < rest.len() implies scopes[k] == rest[k] by {}
    }
}

/// The frames from `env` outward mirror the scopes from the innermost
/// outward: each frame binds just the names that its scope declares.
pub open spec fn mirrors(frames: Seq<Frame>, env: int, scopes: Seq<Map<usize, bool>>) -> bool
    decreases scopes.len(),
{
    if scopes.len() == 0 {
        true
    } else {
        &&& 0 <= env < frames.len()
        &&& frames[env].vars.dom() == scopes.last().dom()
        &&& match frames[env].enclosing {
            Some(parent) => parent < env && mirrors(frames, parent as int, scopes.drop_last()),
            None => scopes.len() == 1,
        }
    }
}

/// The two passes agree. Where the frames mirror the scopes, the distance
/// that resolution records for a name leads to the very frame that a
/// search outward from the current frame finds.
pub proof fn lemma_distance_leads_to_binder(
    frames: Seq<Frame>,
    env: int,
    scopes: Seq<Map<usize, bool>>,
    name: usize,
)
    requires
        mirrors(frames, env, scopes),
        distance_of(scopes, name) is Some,
    ensures
        ancestor_of(frames, env, distance_of(scopes, name)->0) is Some,
        ancestor_of(frames, env, distance_of(scopes, name)->0) == binder_of(frames, env, name),
    decreases scopes.len(),
{
    if !scopes.last().contains_key(name) {
        assert(!frames[env].vars.dom().contains(name));
        assert(distance_of(scopes.drop_last(), name) is Some);
        match frames[env].enclosing {
            Some(parent) => {
                lemma_distance_leads_to_binder(frames, parent as int, scopes.drop_last(), name);
            },
            None => {},
        }
    } else {
        assert(frames[env].vars.dom().contains(name));
    }
}

/// A name that resolution finds in no scope is bound by none of the
/// frames that mirror the scopes: it can only be global.
pub proof fn lemma_unresolved_is_not_local(
    frames: Seq<Frame>,
    env: int,
    scopes: Seq<Map<usize, bool>>,
    name: usize,
    k: nat,
)
    requires
        mirrors(frames, env, scopes),
        distance_of(scopes, name) is None,
        k < scopes.len(),
    ensures
        ancestor_of(frames, env, k) is Some,
        !frames[ancestor_of(frames, env, k)->0].vars.contains_key(name),
    decreases scopes.len(),
{
    assert(!frames[env].vars.dom().contains(name));
    if k > 0 {
        match frames[env].enclosing {
            Some(parent) => {
                lemma_unresolved_is_not_local(
                    frames,
                    parent as int,
                    scopes.drop_last(),
                    name,
                    (k - 1) as nat,
                );
            },
            None => {},
        }
    }
}

/// The functions of resolution, of a tree that is referred to.
pub open spec fn expr_at(s: Resolution, e: &Expr) -> Outcome {
    s_expr(s, *e)
}

pub open spec fn stmt_at(s: Resolution, stmt: &Stmt) -> Outcome {
    s_stmt(s, *stmt)
}

pub open spec fn stmts_at(s: Resolution, list: &List<Stmt>) -> Outcome {
    s_stmts(s, *list)
}

pub open spec fn params_at(s: Resolution, list: &List<Token>) -> Outcome {
    s_params(s, *list)
}

pub open spec fn function_at(s: Resolution, f: &Function, kind: FunctionType) -> Outcome {
    s_function(s, *f, kind)
}

pub open spec fn methods_at(s: Resolution, list: &List<Rc<Function>>) -> Outcome {
    s_methods(s, *list)
}

pub open spec fn superclass_at(c: &Class) -> Option<Token> {
    named_superclass(*c)
}

/// The state `after` has the scopes of `before` but for what the
/// innermost one declares, and is in the same kind of function and class.
pub open spec fn kept(before: Resolution, after: Resolution) -> bool {
    &&& after.scopes.len() == before.scopes.len()
    &&& after.function == before.function
    &&& after.class == before.class
    &&& forall|i: int| 0 <= i < before.scopes.len() - 1 ==> after.scopes[i] == before.scopes[i]
}

/// Resolving an expression changes nothing but the distances, whether it
/// succeeds or not.
pub proof fn lemma_expr_keeps_scopes(s: Resolution, e: &Expr)
    ensures
        s_expr(s, *e).state == (Resolution { locals: s_expr(s, *e).state.locals, ..s }),
    decreases e,
{
    match e {
        Expr::Assign(a) => {
            lemma_expr_keeps_scopes(s, &*a.value);
        },
        Expr::Binary(b) => {
            lemma_expr_keeps_scopes(s, &*b.left);
            lemma_expr_keeps_scopes(expr_at(s, &*b.left).state, &*b.right);
        },
        Expr::Logical(b) => {
            lemma_expr_keeps_scopes(s, &*b.left);
            lemma_expr_keeps_scopes(expr_at(s, &*b.left).state, &*b.right);
        },
        Expr::Unary(u) => {
            lemma_expr_keeps_scopes(s, &*u.right);
        },
        Expr::Grouping(g) => {
            lemma_expr_keeps_scopes(s, &*g.expr);
        },
        Expr::Call(c) => {
            lemma_expr_keeps_scopes(s, &*c.callee);
            lemma_exprs_keep_scopes(expr_at(s, &*c.callee).state, &*c.arguments);
        },
        Expr::Get(g) => {
            lemma_expr_keeps_scopes(s, &*g.object);
        },
        Expr::Put(p) => {
            lemma_expr_keeps_scopes(s, &*p.value);
            lemma_expr_keeps_scopes(expr_at(s, &*p.value).state, &*p.object);
        },
        _ => {},
    }
}

pub proof fn lemma_exprs_keep_scopes(s: Resolution, list: &List<Rc<Expr>>)
    ensures
        s_exprs(s, *list).state == (Resolution { locals: s_exprs(s, *list).state.locals, ..s }),
    decreases list,
{
    match list {
        List::Nil => {},
        List::Cons(first, rest) => {
            lemma_expr_keeps_scopes(s, &**first);
            lemma_exprs_keep_scopes(expr_at(s, &**first).state, &**rest);
        },
    }
}

/// Declaring and defining change the innermost scope only.
pub proof fn lemma_declared_kept(s: Resolution, name: Token)
    ensures
        kept(s, declared(s, name).state),
        kept(s, defined(s, name.symbol)),
{
}

pub proof fn lemma_params_kept(s: Resolution, list: &List<Token>)
    ensures
        kept(s, s_params(s, *list).state),
    decreases list,
{
    match list {
        List::Nil => {},
        List::Cons(first, rest) => {
            lemma_declared_kept(s, *first);
            let one = declared(s, *first);
            if one.error is None {
                lemma_declared_kept(one.state, *first);
                lemma_params_kept(defined(one.state, first.symbol), &**rest);
            }
        },
    }
}

/// Resolution is balanced. A statement that resolves leaves every scope
/// that it opened closed again: the scopes are those that it found, but
/// for what it declares in the innermost one, and the kind of function and
/// of class is what it was.
pub proof fn lemma_stmt_balanced(s: Resolution, stmt: &Stmt)
    ensures
        s_stmt(s, *stmt).error is None ==> kept(s, s_stmt(s, *stmt).state),
    decreases stmt, 0nat,
{
    match stmt {
        Stmt::ParseError { token } => {},
        Stmt::Print(e) => {
            lemma_expr_keeps_scopes(s, &**e);
        },
        Stmt::Expression(e) => {
            lemma_expr_keeps_scopes(s, &**e);
        },
        Stmt::Return(r) => {
            match &r.value {
                Some(e) => {
                    lemma_expr_keeps_scopes(s, &**e);
                },
                None => {},
            }
        },
        Stmt::VarDecl(d) => {
            lemma_var_balanced(s, d);
        },
        Stmt::If(i) => {
            lemma_if_balanced(s, i);
        },
        Stmt::While(w) => {
            lemma_while_balanced(s, w);
        },
        Stmt::Block(list) => {
            lemma_block_balanced(s, &**list);
        },
        Stmt::FunctionDecl(f) => {
            lemma_fun_balanced(s, &**f);
        },
        Stmt::Class(c) => {
            lemma_class_balanced(s, c);
        },
    }
}

pub proof fn lemma_var_balanced(s: Resolution, d: &crate::stmt::VarDecl)
    ensures
        s_stmt(s, Stmt::VarDecl(*d)).error is None ==> kept(s, s_stmt(s, Stmt::VarDecl(*d)).state),
{
    let one = declared(s, d.name);
    if one.error is None {
        lemma_expr_keeps_scopes(one.state, &*d.initializer);
    }
}

pub proof fn lemma_if_balanced(s: Resolution, i: &crate::stmt::IfStmt)
    ensures
        s_stmt(s, Stmt::If(*i)).error is None ==> kept(s, s_stmt(s, Stmt::If(*i)).state),
    decreases i, 0nat,
{
    lemma_expr_keeps_scopes(s, &*i.condition);
    let condition = expr_at(s, &*i.condition);
    if condition.error is None {
        lemma_stmt_balanced(condition.state, &*i.then_branch);
        let then_branch = stmt_at(condition.state, &*i.then_branch);
        if then_branch.error is None {
            match &i.else_branch {
                Some(e) => {
                    lemma_stmt_balanced(then_branch.state, &**e);
                },
                None => {},
            }
        }
    }
}

pub proof fn lemma_while_balanced(s: Resolution, w: &crate::stmt::WhileStmt)
    ensures
        s_stmt(s, Stmt::While(*w)).error is None ==> kept(s, s_stmt(s, Stmt::While(*w)).state),
    decreases w, 0nat,
{
    lemma_expr_keeps_scopes(s, &*w.condition);
    let condition = expr_at(s, &*w.condition);
    if condition.error is None {
        lemma_stmt_balanced(condition.state, &*w.body);
    }
}

pub proof fn lemma_block_balanced(s: Resolution, list: &List<Stmt>)
    ensures
        s_stmts(begin(s), *list).error is None ==> kept(s, end(s_stmts(begin(s), *list).state)),
    decreases list, 1nat,
{
    lemma_stmts_balanced(begin(s), list);
    let inner = stmts_at(begin(s), list);
    if inner.error is None {
        assert forall|i: int| 0 <= i < s.scopes.len() - 1 implies end(inner.state).scopes[i]
            == s.scopes[i] by {
            assert(inner.state.scopes[i] == begin(s).scopes[i]);
        }
    }
}

pub proof fn lemma_fun_balanced(s: Resolution, f: &Function)
    ensures
        s_stmt(s, Stmt::FunctionDecl(Rc::new(*f))).error is None ==> kept(
            s,
            s_stmt(s, Stmt::FunctionDecl(Rc::new(*f))).state,
        ),
    decreases f, 1nat,
{
    let one = declared(s, f.name);
    if one.error is None {
        lemma_function_balanced(defined(one.state, f.name.symbol), f, FunctionType::Function);
    }
}

/// A class declaration that resolves leaves the scopes as it found them,
/// but for the name of the class.
pub proof fn lemma_class_balanced(s: Resolution, c: &Class)
    ensures
        s_stmt(s, Stmt::Class(*c)).error is None ==> kept(s, s_stmt(s, Stmt::Class(*c)).state),
    decreases c, 0nat,
{
    let one = declared(Resolution { class: ClassType::Class, ..s }, c.name);
    if one.error is None {
        let named = defined(one.state, c.name.symbol);
        assert(kept(s, Resolution { class: s.class, ..named }));
        let base = match superclass_at(c) {
            Some(name) => if name.symbol == c.name.symbol {
                bad(named, RuntimeError::RecursiveClass(name))
            } else {
                let looked = s_variable(Resolution { class: ClassType::SubClass, ..named }, name);
                if looked.error is Some {
                    looked
                } else {
                    good(defined(begin(looked.state), SYM_SUPER))
                }
            },
            None => good(named),
        };
        if base.error is None {
            let inner = defined(begin(base.state), SYM_THIS);
            lemma_methods_balanced(inner, &*c.methods);
            let methods = methods_at(inner, &*c.methods);
            if methods.error is None {
                assert(end(methods.state).scopes =~= base.state.scopes);
                if superclass_at(c) is Some {
                    assert(end(end(methods.state)).scopes =~= named.scopes);
                }
            }
        }
    }
}

pub proof fn lemma_stmts_balanced(s: Resolution, list: &List<Stmt>)
    ensures
        s_stmts(s, *list).error is None ==> kept(s, s_stmts(s, *list).state),
    decreases list, 0nat,
{
    match list {
        List::Nil => {},
        List::Cons(first, rest) => {
            lemma_stmt_balanced(s, first);
            let one = stmt_at(s, first);
            if one.error is None {
                lemma_stmts_balanced(one.state, &**rest);
            }
        },
    }
}

/// A function that resolves leaves the scopes just as it found them.
pub proof fn lemma_function_balanced(s: Resolution, f: &Function, kind: FunctionType)
    ensures
        s_function(s, *f, kind).error is None ==> s_function(s, *f, kind).state == (Resolution {
            locals: s_function(s, *f, kind).state.locals,
            ..s
        }),
    decreases f, 0nat,
{
    let inner = begin(Resolution { function: kind, ..s });
    lemma_params_kept(inner, &*f.parameters);
    let parameters = params_at(inner, &*f.parameters);
    if parameters.error is None {
        lemma_stmts_balanced(parameters.state, &*f.body);
        let body = stmts_at(parameters.state, &*f.body);
        if body.error is None {
            assert(end(body.state).scopes =~= s.scopes);
        }
    }
}

pub proof fn lemma_methods_balanced(s: Resolution, list: &List<Rc<Function>>)
    ensures
        s_methods(s, *list).error is None ==> s_methods(s, *list).state == (Resolution {
            locals: s_methods(s, *list).state.locals,
            ..s
        }),
    decreases list, 0nat,
{
    match list {
        List::Cons(first, rest) => {
            let kind = if first.name.symbol == SYM_INIT {
                FunctionType::Initializer
            } else {
                FunctionType::Method
            };
            lemma_function_balanced(s, &**first, kind);
            let one = function_at(s, &**first, kind);
            if one.error is None {
                lemma_methods_balanced(one.state, &**rest);
            }
        },
        List::Nil => {},
    }
}

/// A program that resolves leaves the resolver outside all scopes.
pub proof fn lemma_program_balanced(locals: Map<(usize, usize), usize>, program: &List<Stmt>)
    ensures
        resolve(locals, *program).error is None ==> {
            &&& resolve(locals, *program).state.scopes.len() == 0
            &&& resolve(locals, *program).state.function == FunctionType::Outside
            &&& resolve(locals, *program).state.class == ClassType::Outside
        },
{
    lemma_stmts_balanced(
        Resolution {
            scopes: Seq::empty(),
            function: FunctionType::Outside,
            class: ClassType::Outside,
            locals,
        },
        program,
    );
}

} // verus!
