//! What evaluation is: a deterministic transition system.
//!
//! The state holds the tables of strings, scope frames, closures, classes
//! and instances, the distances that resolution recorded, and two stacks:
//! the tasks still to do, and the values computed and not yet used. One
//! step takes what the host answered to the last action, does the task on
//! top of the stack, and names the next action. The host owns what the
//! library cannot hold: arithmetic on numbers, their conversion to text,
//! the clock and the output.

use vstd::prelude::*;
use std::rc::Rc;
use crate::callable::Function;
use crate::class::{method_of, ClassData, InstanceData};
use crate::environment::{ancestor_of, binder_of, bound, misaligned, value_of, Frame};
use crate::error::RuntimeError;
use crate::expr::Expr;
use crate::interner::{symbol_of, with_symbol, SYM_INIT, SYM_SUPER, SYM_THIS};
use crate::list::List;
use crate::literal::{LiteralValue, LochxCallable};
use crate::stmt::Stmt;
use crate::token::{Token, TokenType};

verus! {

/// What is still to do.
#[derive(Debug)]
pub enum Task {
    /// Evaluate the expression and push its value.
    Eval(Rc<Expr>),
    /// Execute the statement.
    Exec(Rc<Stmt>),
    /// Execute the statements in order.
    Block(Rc<List<Stmt>>),
    /// Go back to the given frame: the end of a block.
    Leave(usize),
    /// Drop the value on top.
    Discard,
    /// Print the value on top.
    Print,
    /// Bind the name to the value on top, in the current frame.
    Define(usize),
    /// Execute one of the branches, by the value on top.
    Branch(Rc<Stmt>, Option<Rc<Stmt>>),
    /// Run the body and test the condition again, or end the loop, by the
    /// value on top.
    Loop(Rc<Expr>, Rc<Stmt>),
    /// Assign the value on top to the variable; the value stays.
    Assign(Token),
    /// Apply the operator to the value on top.
    Unary(Token),
    /// Apply the operator to the two values on top.
    Binary(Token),
    /// Join the string on top with the given one, which comes before or
    /// after it.
    Join(usize, bool),
    /// Keep the value on top as the result, or evaluate the right operand
    /// in its place.
    Logical(Token, Rc<Expr>),
    /// Check the callee on top against the arguments, then evaluate them
    /// and invoke it.
    Call(Token, Rc<List<Rc<Expr>>>),
    /// Evaluate the arguments in order.
    Arguments(Rc<List<Rc<Expr>>>),
    /// Invoke the callee that lies under the given number of arguments.
    Invoke(Token, usize),
    /// The end of a function body: go back to the frame `env` of the
    /// caller and push the result of a call that met no `return`.
    EndCall { env: usize, initializer: bool, closure: usize },
    /// Leave the function being called, with the value on top.
    Return,
    /// Put the given value in place of the value on top.
    Replace(LiteralValue),
    /// Read the property of the object on top.
    Get(Token),
    /// Evaluate the value to store in a property of the object on top.
    PutValue(Token, Rc<Expr>),
    /// Store the value on top in the property of the object under it.
    Put(Token),
    /// Declare the class whose superclass is the value on top; the
    /// expression is the one that named it.
    Class(Token, Rc<List<Rc<Function>>>, Rc<Expr>),
}

/// What the host answers to an action.
#[derive(Debug)]
pub enum Event {
    /// Nothing: the action asked for no answer.
    Resume,
    /// The bits of a number.
    Number(u64),
    Truth(bool),
    Text(String),
}

/// What an event carries.
pub enum Answer {
    Resume,
    Number(u64),
    Truth(bool),
    Text(Seq<char>),
}

impl View for Event {
    type V = Answer;

    open spec fn view(&self) -> Answer {
        match self {
            Event::Resume => Answer::Resume,
            Event::Number(n) => Answer::Number(*n),
            Event::Truth(b) => Answer::Truth(*b),
            Event::Text(s) => Answer::Text(s@),
        }
    }
}

/// What the host is to do before the next step.
#[derive(Clone, Copy, Debug)]
pub enum Action {
    /// Nothing. Answer `Resume`.
    Continue,
    /// Print the string with the given symbol. Answer `Resume`.
    Print(usize),
    /// Report the error; evaluation goes on. Answer `Resume`.
    Report(RuntimeError),
    /// Apply the operator to the two numbers. Answer `Number` for an
    /// arithmetic operator and `Truth` for a comparison.
    Binary(TokenType, u64, u64),
    /// Negate the number. Answer `Number`.
    Negate(u64),
    /// Write the number as text. Answer `Text`.
    Stringify(u64),
    /// Read the clock. Answer `Number`, the seconds since the epoch.
    Clock,
    /// Nothing is left to do: the program has ended, with the given error
    /// if it failed.
    Finished(Option<RuntimeError>),
}

/// The state of evaluation.
pub struct Machine {
    pub strings: Seq<Seq<char>>,
    pub frames: Seq<Frame>,
    pub functions: Seq<Function>,
    pub classes: Seq<ClassData>,
    pub instances: Seq<InstanceData>,
    pub locals: Map<(usize, usize), usize>,
    pub globals: usize,
    pub current_env: usize,
    /// The tasks, the next one last.
    pub tasks: Seq<Task>,
    /// The values, the newest last.
    pub values: Seq<LiteralValue>,
}

pub open spec fn go(m: Machine) -> (Machine, Action) {
    (m, Action::Continue)
}

/// A failed program: nothing is left to do, and evaluation is back in the
/// global scope.
pub open spec fn fault(m: Machine, e: RuntimeError) -> (Machine, Action) {
    (
        Machine { tasks: Seq::empty(), values: Seq::empty(), current_env: m.globals, ..m },
        Action::Finished(Some(e)),
    )
}

/// A state that no resolved program can reach.
pub open spec fn defect(m: Machine) -> (Machine, Action) {
    fault(m, RuntimeError::GenericError)
}

pub open spec fn with_task(m: Machine, t: Task) -> Machine {
    Machine { tasks: m.tasks.push(t), ..m }
}

pub open spec fn with_value(m: Machine, v: LiteralValue) -> Machine {
    Machine { values: m.values.push(v), ..m }
}

pub open spec fn popped(m: Machine) -> Machine {
    Machine { values: m.values.drop_last(), ..m }
}

/// With the string in the table: the machine, and the symbol.
pub open spec fn interned(m: Machine, s: Seq<char>) -> (Machine, usize) {
    (Machine { strings: with_symbol(m.strings, s), ..m }, symbol_of(m.strings, s) as usize)
}

/// The machine after the host's answer: a value is pushed.
pub open spec fn delivered(m: Machine, answer: Answer) -> Machine {
    match answer {
        Answer::Resume => m,
        Answer::Number(n) => with_value(m, LiteralValue::Num(n)),
        Answer::Truth(b) => with_value(m, LiteralValue::Bool(b)),
        Answer::Text(s) => with_value(interned(m, s).0, LiteralValue::Str(interned(m, s).1)),
    }
}

/// The value of a variable: at the recorded distance from the current
/// frame if resolution found it local, else in the global frame.
pub open spec fn variable(m: Machine, name: Token) -> Result<LiteralValue, RuntimeError> {
    match m.locals.get(name.span()) {
        Some(d) => match ancestor_of(m.frames, m.current_env as int, d as nat) {
            None => Err(misaligned()),
            Some(at) => match m.frames[at].vars.get(name.symbol) {
                Some(v) => Ok(v),
                None => Err(RuntimeError::UndefinedVariable(name)),
            },
        },
        None => match value_of(m.frames, m.globals as int, name.symbol) {
            Some(v) => Ok(v),
            None => Err(RuntimeError::UndefinedVariable(name)),
        },
    }
}

/// The value bound to a name in the frame at the given distance.
pub open spec fn named_at(m: Machine, env: usize, distance: nat, name: usize) -> Result<
    LiteralValue,
    RuntimeError,
> {
    match ancestor_of(m.frames, env as int, distance) {
        None => Err(misaligned()),
        Some(at) => match m.frames[at].vars.get(name) {
            Some(v) => Ok(v),
            None => Err(RuntimeError::UndefinedVariableName(name)),
        },
    }
}

/// The frames after an assignment to a variable, which must exist.
pub open spec fn assigned(m: Machine, name: Token, v: LiteralValue) -> Result<
    Seq<Frame>,
    RuntimeError,
> {
    match m.locals.get(name.span()) {
        Some(d) => match ancestor_of(m.frames, m.current_env as int, d as nat) {
            None => Err(misaligned()),
            Some(at) => if m.frames[at].vars.contains_key(name.symbol) {
                Ok(bound(m.frames, at, name.symbol, v))
            } else {
                Err(RuntimeError::UndefinedVariable(name))
            },
        },
        None => match binder_of(m.frames, m.globals as int, name.symbol) {
            Some(at) => Ok(bound(m.frames, at, name.symbol, v)),
            None => Err(RuntimeError::UndefinedVariable(name)),
        },
    }
}

/// The frames with the name bound in the frame `env`.
pub open spec fn defined_in(frames: Seq<Frame>, env: usize, name: usize, v: LiteralValue)
    -> Result<Seq<Frame>, RuntimeError> {
    if env < frames.len() {
        Ok(bound(frames, env as int, name, v))
    } else {
        Err(misaligned())
    }
}

/// The frames with a new empty frame inside the frame `parent`.
pub open spec fn framed(frames: Seq<Frame>, parent: usize) -> Result<Seq<Frame>, RuntimeError> {
    if parent < frames.len() {
        Ok(frames.push(Frame { vars: Map::empty(), enclosing: Some(parent) }))
    } else {
        Err(misaligned())
    }
}

/// The closure of a declared function in the frame `env`.
pub open spec fn closure_of(f: Function, env: usize, initializer: bool) -> Function {
    Function { closure: env, is_initializer: initializer, ..f }
}

/// Binding a method to an instance: a closure of the method whose frame
/// is a new frame inside the method's own that binds `this`. Gives the
/// machine and the handle of the new closure.
pub open spec fn bind(m: Machine, method: usize, instance: LiteralValue) -> Result<
    (Machine, usize),
    RuntimeError,
> {
    if method >= m.functions.len() {
        Err(RuntimeError::GenericError)
    } else {
        let f = m.functions[method as int];
        match framed(m.frames, f.closure) {
            Err(e) => Err(e),
            Ok(frames) => Ok(
                (
                    Machine {
                        frames: bound(frames, m.frames.len() as int, SYM_THIS, instance),
                        functions: m.functions.push(
                            closure_of(f, m.frames.len() as usize, f.is_initializer),
                        ),
                        ..m
                    },
                    m.functions.len() as usize,
                ),
            ),
        }
    }
}

/// The frames with each parameter bound to its argument in the frame
/// `env`.
pub open spec fn bind_parameters(
    frames: Seq<Frame>,
    env: int,
    parameters: List<Token>,
    arguments: Seq<LiteralValue>,
) -> Seq<Frame>
    decreases parameters,
{
    match parameters {
        List::Nil => frames,
        List::Cons(first, rest) => if arguments.len() == 0 {
            frames
        } else {
            bind_parameters(
                bound(frames, env, first.symbol, arguments[0]),
                env,
                *rest,
                arguments.drop_first(),
            )
        },
    }
}

/// Entering a function: a new frame inside its closure binds the
/// parameters and becomes the current frame, and the body is to do, then
/// the end of the call.
pub open spec fn entered(m: Machine, f: Function, arguments: Seq<LiteralValue>) -> (
    Machine,
    Action,
) {
    match framed(m.frames, f.closure) {
        Err(e) => fault(m, e),
        Ok(frames) => go(
            Machine {
                frames: bind_parameters(frames, m.frames.len() as int, *f.parameters, arguments),
                current_env: m.frames.len() as usize,
                tasks: m.tasks.push(
                    Task::EndCall {
                        env: m.current_env,
                        initializer: f.is_initializer,
                        closure: f.closure,
                    },
                ).push(Task::Block(f.body)),
                ..m
            },
        ),
    }
}

/// How many arguments a callable takes: a function as many as it has
/// parameters, a class as many as its initializer, or none without one.
pub open spec fn arity_of(m: Machine, c: LochxCallable) -> Option<nat> {
    match c {
        LochxCallable::Function(h) => if h < m.functions.len() {
            Some(m.functions[h as int].parameters.count())
        } else {
            None
        },
        LochxCallable::NativeFunction(_) => Some(0),
        LochxCallable::Class(h) => match method_of(m.classes, h as int, SYM_INIT) {
            Some(init) => if init < m.functions.len() {
                Some(m.functions[init as int].parameters.count())
            } else {
                None
            },
            None => Some(0),
        },
    }
}

/// The result of a call: the value returned, but `this` for an
/// initializer.
pub open spec fn call_result(m: Machine, initializer: bool, closure: usize, v: LiteralValue)
    -> Result<LiteralValue, RuntimeError> {
    if initializer {
        named_at(m, closure, 0, SYM_THIS)
    } else {
        Ok(v)
    }
}

/// How many tasks remain when all down to the nearest end of a call are
/// dropped, the end of the call not among them; `None` outside all calls.
pub open spec fn call_depth(tasks: Seq<Task>) -> Option<int>
    decreases tasks.len(),
{
    if tasks.len() == 0 {
        None
    } else if tasks.last() is EndCall {
        Some(tasks.len() - 1)
    } else {
        call_depth(tasks.drop_last())
    }
}

/// The error that reports operands of the wrong types.
pub open spec fn invalid_operands(op: Token) -> RuntimeError {
    RuntimeError::ParseError { token: op, expected: TokenType::Eof, message: "Unexpected arguments" }
}

/// An operator meets operands that it does not take: the result is `nil`,
/// and the error is reported.
pub open spec fn lenient(m: Machine, op: Token) -> (Machine, Action) {
    (with_value(m, LiteralValue::Nil), Action::Report(invalid_operands(op)))
}

/// Whether the operator is one of the numeric ones that the host applies.
pub open spec fn numeric(t: TokenType) -> bool {
    t == TokenType::Plus || t == TokenType::Minus || t == TokenType::Star || t == TokenType::Slash
        || t == TokenType::Greater || t == TokenType::GreaterEqual || t == TokenType::Less || t
        == TokenType::LessEqual || t == TokenType::BangEqual || t == TokenType::EqualEqual
}

/// A binary operator on the operands `l` and `r`, which have been taken
/// from the values.
pub open spec fn binary(m: Machine, op: Token, l: LiteralValue, r: LiteralValue) -> (
    Machine,
    Action,
) {
    let t = op.token_type;
    if !numeric(t) {
        lenient(m, op)
    } else {
        match (l, r) {
            (LiteralValue::Num(a), LiteralValue::Num(b)) => (m, Action::Binary(t, a, b)),
            _ => if t == TokenType::EqualEqual {
                go(with_value(m, LiteralValue::Bool(l == r)))
            } else if t == TokenType::BangEqual {
                go(with_value(m, LiteralValue::Bool(l != r)))
            } else if t == TokenType::Plus {
                match (l, r) {
                    (LiteralValue::Str(a), LiteralValue::Str(b)) => if a < m.strings.len() && b
                        < m.strings.len() {
                        let joined = interned(m, m.strings[a as int] + m.strings[b as int]);
                        go(with_value(joined.0, LiteralValue::Str(joined.1)))
                    } else {
                        defect(m)
                    },
                    (LiteralValue::Num(a), LiteralValue::Str(b)) => (
                        with_task(m, Task::Join(b, false)),
                        Action::Stringify(a),
                    ),
                    (LiteralValue::Str(a), LiteralValue::Num(b)) => (
                        with_task(m, Task::Join(a, true)),
                        Action::Stringify(b),
                    ),
                    _ => lenient(m, op),
                }
            } else {
                lenient(m, op)
            },
        }
    }
}

/// The text that a value other than a number is printed as.
pub open spec fn text_of(m: Machine, v: LiteralValue) -> Option<Seq<char>> {
    match v {
        LiteralValue::Str(s) => if s < m.strings.len() {
            Some(m.strings[s as int])
        } else {
            None
        },
        LiteralValue::Num(_) => None,
        LiteralValue::Nil => Some("nil"@),
        LiteralValue::Bool(b) => Some(
            if b {
                "true"@
            } else {
                "false"@
            },
        ),
        LiteralValue::Callable(LochxCallable::Function(h)) => if h < m.functions.len()
            && m.functions[h as int].name.symbol < m.strings.len() {
            Some("<fun "@ + m.strings[m.functions[h as int].name.symbol as int] + ">"@)
        } else {
            None
        },
        LiteralValue::Callable(LochxCallable::NativeFunction(_)) => Some("<native fun>"@),
        LiteralValue::Callable(LochxCallable::Class(h)) => if h < m.classes.len()
            && m.classes[h as int].name < m.strings.len() {
            Some("<class "@ + m.strings[m.classes[h as int].name as int] + ">"@)
        } else {
            None
        },
        LiteralValue::Instance(i) => if i < m.instances.len() && m.instances[i as int].class
            < m.classes.len() && m.classes[m.instances[i as int].class as int].name
            < m.strings.len() {
            Some(
                "<"@ + m.strings[m.classes[m.instances[i as int].class as int].name as int]
                    + " instance>"@,
            )
        } else {
            None
        },
    }
}

/// The closures of the methods of a class, all declared in the frame
/// `env`, added to the functions; and for each name its closure.
pub open spec fn with_methods(
    functions: Seq<Function>,
    table: Map<usize, usize>,
    env: usize,
    methods: List<Rc<Function>>,
) -> (Seq<Function>, Map<usize, usize>)
    decreases methods,
{
    match methods {
        List::Nil => (functions, table),
        List::Cons(first, rest) => with_methods(
            functions.push(closure_of(*first, env, first.name.symbol == SYM_INIT)),
            table.insert(first.name.symbol, functions.len() as usize),
            env,
            *rest,
        ),
    }
}

/// Declaring a class: its name is bound to `nil`, its methods become
/// closures in the current frame, or with a superclass in a new frame
/// inside it that binds `super`, and then the name is bound to the class.
pub open spec fn class_declared(
    m: Machine,
    name: Token,
    methods: List<Rc<Function>>,
    superclass: Option<usize>,
) -> (Machine, Action) {
    match defined_in(m.frames, m.current_env, name.symbol, LiteralValue::Nil) {
        Err(e) => fault(m, e),
        Ok(frames) => {
            let frames = match superclass {
                Some(base) => bound(
                    frames.push(Frame { vars: Map::empty(), enclosing: Some(m.current_env) }),
                    frames.len() as int,
                    SYM_SUPER,
                    LiteralValue::Callable(LochxCallable::Class(base)),
                ),
                None => frames,
            };
            let env = match superclass {
                Some(_) => m.frames.len() as usize,
                None => m.current_env,
            };
            let made = with_methods(m.functions, Map::empty(), env, methods);
            let class = ClassData { name: name.symbol, superclass, methods: made.1 };
            go(
                Machine {
                    frames: bound(
                        frames,
                        m.current_env as int,
                        name.symbol,
                        LiteralValue::Callable(LochxCallable::Class(m.classes.len() as usize)),
                    ),
                    functions: made.0,
                    classes: m.classes.push(class),
                    ..m
                },
            )
        },
    }
}

/// Evaluating an expression: either its value is pushed, or the tasks that
/// compute it.
pub open spec fn eval(m: Machine, e: Expr) -> (Machine, Action) {
    match e {
        Expr::Literal(l) => go(with_value(m, l.value)),
        Expr::Grouping(g) => go(with_task(m, Task::Eval(g.expr))),
        Expr::Unary(u) => go(with_task(with_task(m, Task::Unary(u.op)), Task::Eval(u.right))),
        Expr::Binary(b) => go(
            with_task(
                with_task(with_task(m, Task::Binary(b.op)), Task::Eval(b.right)),
                Task::Eval(b.left),
            ),
        ),
        Expr::Logical(b) => go(
            with_task(with_task(m, Task::Logical(b.op, b.right)), Task::Eval(b.left)),
        ),
        Expr::Variable(v) => match variable(m, v.name) {
            Ok(value) => go(with_value(m, value)),
            Err(e) => fault(m, e),
        },
        Expr::Assign(a) => go(with_task(with_task(m, Task::Assign(a.name)), Task::Eval(a.value))),
        Expr::Call(c) => go(
            with_task(with_task(m, Task::Call(c.paren, c.arguments)), Task::Eval(c.callee)),
        ),
        Expr::Get(g) => go(with_task(with_task(m, Task::Get(g.name)), Task::Eval(g.object))),
        Expr::Put(p) => go(
            with_task(with_task(m, Task::PutValue(p.name, p.value)), Task::Eval(p.object)),
        ),
        Expr::This(t) => match variable(m, t.keyword) {
            Ok(value) => go(with_value(m, value)),
            Err(e) => fault(m, e),
        },
        Expr::Super(x) => match m.locals.get(x.keyword.span()) {
            None => defect(m),
            Some(d) => if d == 0 {
                defect(m)
            } else {
                match named_at(m, m.current_env, d as nat, SYM_SUPER) {
                    Err(e) => fault(m, e),
                    Ok(LiteralValue::Callable(LochxCallable::Class(base))) => match named_at(
                        m,
                        m.current_env,
                        (d - 1) as nat,
                        SYM_THIS,
                    ) {
                        Err(e) => fault(m, e),
                        Ok(LiteralValue::Instance(i)) => match method_of(
                            m.classes,
                            base as int,
                            x.method.symbol,
                        ) {
                            None => fault(m, RuntimeError::UndefinedProperty(x.method)),
                            Some(method) => match bind(m, method, LiteralValue::Instance(i)) {
                                Err(e) => fault(m, e),
                                Ok(b) => go(
                                    with_value(
                                        b.0,
                                        LiteralValue::Callable(LochxCallable::Function(b.1)),
                                    ),
                                ),
                            },
                        },
                        Ok(_) => defect(m),
                    },
                    Ok(_) => defect(m),
                }
            },
        },
    }
}

/// Executing a statement: its effect, or the tasks that have it.
pub open spec fn exec(m: Machine, s: Stmt) -> (Machine, Action) {
    match s {
        Stmt::ParseError { token } => (
            m,
            Action::Report(
                RuntimeError::ParseError {
                    token,
                    expected: TokenType::Eof,
                    message: "Parse error",
                },
            ),
        ),
        Stmt::Print(e) => go(with_task(with_task(m, Task::Print), Task::Eval(e))),
        Stmt::Expression(e) => go(with_task(with_task(m, Task::Discard), Task::Eval(e))),
        Stmt::VarDecl(d) => go(
            with_task(with_task(m, Task::Define(d.name.symbol)), Task::Eval(d.initializer)),
        ),
        Stmt::Block(list) => match framed(m.frames, m.current_env) {
            Err(e) => fault(m, e),
            Ok(frames) => go(
                Machine {
                    frames,
                    current_env: m.frames.len() as usize,
                    tasks: m.tasks.push(Task::Leave(m.current_env)).push(Task::Block(list)),
                    ..m
                },
            ),
        },
        Stmt::If(i) => go(
            with_task(
                with_task(m, Task::Branch(i.then_branch, i.else_branch)),
                Task::Eval(i.condition),
            ),
        ),
        Stmt::While(w) => go(
            with_task(with_task(m, Task::Loop(w.condition, w.body)), Task::Eval(w.condition)),
        ),
        Stmt::FunctionDecl(f) => match defined_in(
            m.frames,
            m.current_env,
            f.name.symbol,
            LiteralValue::Callable(LochxCallable::Function(m.functions.len() as usize)),
        ) {
            Err(e) => fault(m, e),
            Ok(frames) => go(
                Machine {
                    frames,
                    functions: m.functions.push(closure_of(*f, m.current_env, false)),
                    ..m
                },
            ),
        },
        Stmt::Return(r) => match r.value {
            Some(e) => go(with_task(with_task(m, Task::Return), Task::Eval(e))),
            None => go(with_value(with_task(m, Task::Return), LiteralValue::Nil)),
        },
        Stmt::Class(c) => match c.superclass {
            Some(e) => go(
                with_task(with_task(m, Task::Class(c.name, c.methods, e)), Task::Eval(e)),
            ),
            None => class_declared(m, c.name, *c.methods, None),
        },
    }
}

/// The error for a superclass that is no class.
pub open spec fn not_a_class(e: Expr) -> RuntimeError {
    match e {
        Expr::Variable(v) => RuntimeError::NotAClassBase(v.name),
        _ => RuntimeError::GenericError,
    }
}

/// Doing a task that needs no value.
pub open spec fn run_alone(m: Machine, task: Task) -> (Machine, Action) {
    match task {
        Task::Eval(e) => eval(m, *e),
        Task::Exec(s) => exec(m, *s),
        Task::Block(list) => match *list {
            List::Nil => go(m),
            List::Cons(first, rest) => exec(with_task(m, Task::Block(rest)), first),
        },
        Task::Leave(env) => go(Machine { current_env: env, ..m }),
        Task::Arguments(list) => match *list {
            List::Nil => go(m),
            List::Cons(first, rest) => go(
                with_task(with_task(m, Task::Arguments(rest)), Task::Eval(first)),
            ),
        },
        Task::EndCall { env, initializer, closure } => match call_result(
            m,
            initializer,
            closure,
            LiteralValue::Nil,
        ) {
            Err(e) => fault(m, e),
            Ok(v) => go(with_value(Machine { current_env: env, ..m }, v)),
        },
        Task::Invoke(paren, count) => invoke(m, count),
        _ => defect(m),
    }
}

/// Invoking the callee that lies under `count` arguments.
pub open spec fn invoke(m: Machine, count: usize) -> (Machine, Action) {
    if m.values.len() < count + 1 {
        defect(m)
    } else {
        let base = m.values.len() - count - 1;
        let arguments = m.values.skip(base + 1);
        let rest = Machine { values: m.values.take(base), ..m };
        match m.values[base] {
            LiteralValue::Callable(LochxCallable::Function(h)) => if h < m.functions.len() {
                entered(rest, m.functions[h as int], arguments)
            } else {
                defect(m)
            },
            LiteralValue::Callable(LochxCallable::NativeFunction(_)) => (rest, Action::Clock),
            LiteralValue::Callable(LochxCallable::Class(h)) => {
                let instance = LiteralValue::Instance(m.instances.len() as usize);
                let made = Machine {
                    instances: m.instances.push(InstanceData { class: h, fields: Map::empty() }),
                    ..rest
                };
                match method_of(m.classes, h as int, SYM_INIT) {
                    None => go(with_value(made, instance)),
                    Some(init) => match bind(made, init, instance) {
                        Err(e) => fault(made, e),
                        Ok(b) => entered(
                            with_task(b.0, Task::Replace(instance)),
                            b.0.functions[b.1 as int],
                            arguments,
                        ),
                    },
                }
            },
            _ => defect(m),
        }
    }
}

/// Doing a task with the value `v`, which lay on top of the values of `m`
/// and has been taken off.
pub open spec fn run_with(m: Machine, task: Task, v: LiteralValue) -> (Machine, Action) {
    match task {
        Task::Discard => go(m),
        Task::Print => match v {
            LiteralValue::Num(n) => (with_task(m, Task::Print), Action::Stringify(n)),
            _ => match text_of(m, v) {
                None => defect(m),
                Some(text) => (interned(m, text).0, Action::Print(interned(m, text).1)),
            },
        },
        Task::Define(name) => match defined_in(m.frames, m.current_env, name, v) {
            Err(e) => fault(m, e),
            Ok(frames) => go(Machine { frames, ..m }),
        },
        Task::Branch(then_branch, else_branch) => if v.truthy() {
            go(with_task(m, Task::Exec(then_branch)))
        } else {
            match else_branch {
                Some(s) => go(with_task(m, Task::Exec(s))),
                None => go(m),
            }
        },
        Task::Loop(condition, body) => if v.truthy() {
            go(
                with_task(
                    with_task(with_task(m, Task::Loop(condition, body)), Task::Eval(condition)),
                    Task::Exec(body),
                ),
            )
        } else {
            go(m)
        },
        Task::Assign(name) => match assigned(m, name, v) {
            Err(e) => fault(m, e),
            Ok(frames) => go(with_value(Machine { frames, ..m }, v)),
        },
        Task::Unary(op) => if op.token_type == TokenType::Bang {
            go(with_value(m, LiteralValue::Bool(!v.truthy())))
        } else if op.token_type == TokenType::Minus {
            match v {
                LiteralValue::Num(n) => (m, Action::Negate(n)),
                _ => lenient(m, op),
            }
        } else {
            defect(m)
        },
        Task::Binary(op) => if m.values.len() == 0 {
            defect(m)
        } else {
            binary(popped(m), op, m.values.last(), v)
        },
        Task::Join(text, before) => match v {
            LiteralValue::Str(s) => if s < m.strings.len() && text < m.strings.len() {
                let joined = interned(
                    m,
                    if before {
                        m.strings[text as int] + m.strings[s as int]
                    } else {
                        m.strings[s as int] + m.strings[text as int]
                    },
                );
                go(with_value(joined.0, LiteralValue::Str(joined.1)))
            } else {
                defect(m)
            },
            _ => defect(m),
        },
        Task::Logical(op, right) => if (op.token_type == TokenType::KwOr) == v.truthy() {
            go(with_value(m, v))
        } else {
            go(with_task(m, Task::Eval(right)))
        },
        Task::Call(paren, arguments) => match v {
            LiteralValue::Callable(c) => match arity_of(m, c) {
                None => defect(m),
                Some(arity) => if arguments.count() > usize::MAX || arity > usize::MAX {
                    defect(m)
                } else if arguments.count() != arity {
                    fault(
                        m,
                        RuntimeError::InvalidArity(
                            paren,
                            arity as usize,
                            arguments.count() as usize,
                        ),
                    )
                } else {
                    go(
                        with_task(
                            with_task(
                                with_value(m, v),
                                Task::Invoke(paren, arguments.count() as usize),
                            ),
                            Task::Arguments(arguments),
                        ),
                    )
                },
            },
            _ => fault(m, RuntimeError::NotACallable(paren)),
        },
        Task::Return => match call_depth(m.tasks) {
            None => fault(m, RuntimeError::ReturnValue(v)),
            Some(depth) => match m.tasks[depth] {
                Task::EndCall { env, initializer, closure } => match call_result(
                    m,
                    initializer,
                    closure,
                    v,
                ) {
                    Err(e) => fault(m, e),
                    Ok(result) => go(
                        with_value(
                            Machine { tasks: m.tasks.take(depth), current_env: env, ..m },
                            result,
                        ),
                    ),
                },
                _ => defect(m),
            },
        },
        Task::Replace(value) => go(with_value(m, value)),
        Task::Get(name) => match v {
            LiteralValue::Instance(i) => if i < m.instances.len() {
                match m.instances[i as int].fields.get(name.symbol) {
                    Some(field) => go(with_value(m, field)),
                    None => match method_of(
                        m.classes,
                        m.instances[i as int].class as int,
                        name.symbol,
                    ) {
                        None => fault(m, RuntimeError::UndefinedProperty(name)),
                        Some(method) => match bind(m, method, v) {
                            Err(e) => fault(m, e),
                            Ok(b) => go(
                                with_value(
                                    b.0,
                                    LiteralValue::Callable(LochxCallable::Function(b.1)),
                                ),
                            ),
                        },
                    },
                }
            } else {
                defect(m)
            },
            _ => fault(
                m,
                RuntimeError::InvalidPropertyAccess(name, "Only instances have properties."),
            ),
        },
        Task::PutValue(name, value) => match v {
            LiteralValue::Instance(_) => go(
                with_task(with_task(with_value(m, v), Task::Put(name)), Task::Eval(value)),
            ),
            _ => fault(
                m,
                RuntimeError::InvalidPropertyAccess(name, "Only instances have fields"),
            ),
        },
        Task::Put(name) => if m.values.len() == 0 {
            defect(m)
        } else {
            match m.values.last() {
                LiteralValue::Instance(i) => if i < m.instances.len() {
                    go(
                        with_value(
                            Machine {
                                instances: m.instances.update(
                                    i as int,
                                    InstanceData {
                                        class: m.instances[i as int].class,
                                        fields: m.instances[i as int].fields.insert(
                                            name.symbol,
                                            v,
                                        ),
                                    },
                                ),
                                ..popped(m)
                            },
                            v,
                        ),
                    )
                } else {
                    defect(m)
                },
                _ => defect(m),
            }
        },
        Task::Class(name, methods, named) => match v {
            LiteralValue::Callable(LochxCallable::Class(base)) => class_declared(
                m,
                name,
                *methods,
                Some(base),
            ),
            _ => fault(m, not_a_class(*named)),
        },
        _ => defect(m),
    }
}

/// Whether a task takes the value on top.
pub open spec fn takes_value(task: Task) -> bool {
    !(task is Eval || task is Exec || task is Block || task is Leave || task is Arguments
        || task is EndCall || task is Invoke)
}

/// One step of a machine to which the host's answer has been delivered:
/// the task on top is done, or the program has ended.
pub open spec fn run(m: Machine) -> (Machine, Action) {
    if m.tasks.len() == 0 {
        (Machine { values: Seq::empty(), ..m }, Action::Finished(None))
    } else {
        let task = m.tasks.last();
        let rest = Machine { tasks: m.tasks.drop_last(), ..m };
        if takes_value(task) {
            if m.values.len() == 0 {
                defect(rest)
            } else {
                run_with(popped(rest), task, m.values.last())
            }
        } else {
            run_alone(rest, task)
        }
    }
}

/// One step: the host's answer is delivered, and the task on top is done.
pub open spec fn step(m: Machine, answer: Answer) -> (Machine, Action) {
    run(delivered(m, answer))
}

/// Arity is checked before anything of the call happens: where the number
/// of arguments is not the number that the callee takes, the call fails
/// with `InvalidArity`, no argument has been evaluated, and nothing is
/// left to do, so that the body never runs.
pub proof fn lemma_arity_checked_first(
    m: Machine,
    paren: Token,
    arguments: Rc<List<Rc<Expr>>>,
    callee: LochxCallable,
)
    requires
        arity_of(m, callee) is Some,
        arity_of(m, callee)->0 <= usize::MAX,
        arguments.count() <= usize::MAX,
        arguments.count() != arity_of(m, callee)->0,
    ensures
        run_with(m, Task::Call(paren, arguments), LiteralValue::Callable(callee)) == fault(
            m,
            RuntimeError::InvalidArity(
                paren,
                arity_of(m, callee)->0 as usize,
                arguments.count() as usize,
            ),
        ),
        run_with(m, Task::Call(paren, arguments), LiteralValue::Callable(callee)).0.tasks.len()
            == 0,
        run_with(m, Task::Call(paren, arguments), LiteralValue::Callable(callee)).0.frames
            == m.frames,
{
}

/// Writing to a field the value that it has changes nothing and never
/// fails: the instances are as they were, and the value is the result.
pub proof fn lemma_field_rewrite(m: Machine, name: Token, instance: usize)
    requires
        m.values.len() > 0,
        m.values.last() == LiteralValue::Instance(instance),
        instance < m.instances.len(),
        m.instances[instance as int].fields.contains_key(name.symbol),
    ensures
        run_with(m, Task::Put(name), m.instances[instance as int].fields[name.symbol]) == go(
            with_value(popped(m), m.instances[instance as int].fields[name.symbol]),
        ),
{
    let old_fields = m.instances[instance as int].fields;
    let v = old_fields[name.symbol];
    assert(old_fields.insert(name.symbol, v) =~= old_fields);
    assert(m.instances.update(
        instance as int,
        InstanceData { class: m.instances[instance as int].class, fields: old_fields },
    ) =~= m.instances);
}

/// Reading a field that was written gives the value written, whatever
/// methods the class has: fields shadow methods.
pub proof fn lemma_field_read_after_write(m: Machine, name: Token, instance: usize, v: LiteralValue)
    requires
        m.values.len() > 0,
        m.values.last() == LiteralValue::Instance(instance),
        instance < m.instances.len(),
    ensures
        ({
            let written = run_with(m, Task::Put(name), v).0;
            run_with(popped(written), Task::Get(name), LiteralValue::Instance(instance)) == go(
                with_value(popped(written), v),
            )
        }),
{
}

/// Binding parameters touches the one frame only, and never its link to
/// the frame that encloses it.
pub proof fn lemma_bind_parameters(
    frames: Seq<Frame>,
    env: int,
    parameters: &List<Token>,
    arguments: Seq<LiteralValue>,
)
    requires
        0 <= env < frames.len(),
    ensures
        bind_parameters(frames, env, *parameters, arguments).len() == frames.len(),
        bind_parameters(frames, env, *parameters, arguments)[env].enclosing
            == frames[env].enclosing,
        forall|i: int|
            0 <= i < frames.len() && i != env ==> bind_parameters(
                frames,
                env,
                *parameters,
                arguments,
            )[i] == frames[i],
    decreases parameters,
{
    match parameters {
        List::Nil => {},
        List::Cons(first, rest) => {
            if arguments.len() > 0 {
                let next = bound(frames, env, first.symbol, arguments[0]);
                lemma_bind_parameters(next, env, &**rest, arguments.drop_first());
                assert forall|i: int| 0 <= i < frames.len() && i != env implies bind_parameters(
                    frames,
                    env,
                    *parameters,
                    arguments,
                )[i] == frames[i] by {
                    assert(next[i] == frames[i]);
                }
            }
        },
    }
}

/// A closure captures the frame that it is declared in: the function
/// declared by a statement is bound there to a closure over that frame.
pub proof fn lemma_declaration_captures_frame(m: Machine, f: Rc<Function>)
    requires
        m.current_env < m.frames.len(),
        m.functions.len() <= usize::MAX,
    ensures
        ({
            let after = exec(m, Stmt::FunctionDecl(f)).0;
            &&& after.functions == m.functions.push(closure_of(*f, m.current_env, false))
            &&& after.functions.last().closure == m.current_env
            &&& after.frames[m.current_env as int].vars[f.name.symbol] == LiteralValue::Callable(
                LochxCallable::Function(m.functions.len() as usize),
            )
        }),
{
}

/// A call runs in a new frame inside the frame that the closure captured,
/// whatever frame the caller is in; every frame that existed is as it was,
/// so that what the body does to captured variables is seen by all who
/// share them; and the caller's frame is the one to go back to.
pub proof fn lemma_call_runs_in_captured_frame(
    m: Machine,
    f: Function,
    arguments: Seq<LiteralValue>,
)
    requires
        f.closure < m.frames.len(),
        m.frames.len() <= usize::MAX,
    ensures
        ({
            let after = entered(m, f, arguments).0;
            &&& entered(m, f, arguments).1 == Action::Continue
            &&& after.frames.len() == m.frames.len() + 1
            &&& after.current_env == m.frames.len()
            &&& after.frames[m.frames.len() as int].enclosing == Some(f.closure)
            &&& forall|i: int| 0 <= i < m.frames.len() ==> after.frames[i] == m.frames[i]
            &&& after.tasks == m.tasks.push(
                Task::EndCall {
                    env: m.current_env,
                    initializer: f.is_initializer,
                    closure: f.closure,
                },
            ).push(Task::Block(f.body))
        }),
{
    let frames = m.frames.push(Frame { vars: Map::empty(), enclosing: Some(f.closure) });
    lemma_bind_parameters(frames, m.frames.len() as int, &*f.parameters, arguments);
    let after = entered(m, f, arguments).0;
    assert(after.frames == bind_parameters(
        frames,
        m.frames.len() as int,
        *f.parameters,
        arguments,
    ));
    assert forall|i: int| 0 <= i < m.frames.len() implies after.frames[i] == m.frames[i] by {
        assert(frames[i] == m.frames[i]);
    }
}

/// `or` and `and` short-circuit: where the left operand decides, it is
/// itself the result, and the right operand is never evaluated.
pub proof fn lemma_logical_short_circuits(m: Machine, op: Token, right: Rc<Expr>, v: LiteralValue)
    requires
        (op.token_type == TokenType::KwOr) == v.truthy(),
    ensures
        run_with(m, Task::Logical(op, right), v) == go(with_value(m, v)),
        run_with(m, Task::Logical(op, right), v).0.tasks == m.tasks,
{
}

/// Where the left operand does not decide, the right operand is the
/// result: it is evaluated next, and the left operand is gone.
pub proof fn lemma_logical_goes_on(m: Machine, op: Token, right: Rc<Expr>, v: LiteralValue)
    requires
        (op.token_type == TokenType::KwOr) != v.truthy(),
    ensures
        run_with(m, Task::Logical(op, right), v) == go(with_task(m, Task::Eval(right))),
        run_with(m, Task::Logical(op, right), v).0.values == m.values,
{
}

/// Values of different types are never equal: `==` gives `false` and `!=`
/// gives `true`, whatever the values are.
pub proof fn lemma_equality_across_types(m: Machine, op: Token, l: LiteralValue, r: LiteralValue)
    requires
        !l.same_type(r),
        op.token_type == TokenType::EqualEqual || op.token_type == TokenType::BangEqual,
    ensures
        binary(m, op, l, r) == go(
            with_value(m, LiteralValue::Bool(op.token_type == TokenType::BangEqual)),
        ),
{
}

/// An arithmetic operator or a comparison on operands that are not both
/// numbers, and for `+` not both strings nor a string and a number, does
/// not end the program: the result is `nil`, and the error is reported.
pub proof fn lemma_invalid_operands_are_lenient(
    m: Machine,
    op: Token,
    l: LiteralValue,
    r: LiteralValue,
)
    requires
        op.token_type != TokenType::EqualEqual,
        op.token_type != TokenType::BangEqual,
        !(l is Num && r is Num),
        op.token_type == TokenType::Plus ==> !((l is Str || l is Num) && (r is Str || r is Num)),
    ensures
        binary(m, op, l, r) == (
            with_value(m, LiteralValue::Nil),
            Action::Report(invalid_operands(op)),
        ),
{
}

/// A block runs in one new frame inside the current one, and the task
/// that goes back to the current frame lies under its statements.
pub proof fn lemma_block_opens_one_frame(m: Machine, list: Rc<List<Stmt>>)
    requires
        m.current_env < m.frames.len(),
        m.frames.len() <= usize::MAX,
    ensures
        ({
            let after = exec(m, Stmt::Block(list)).0;
            &&& after.frames == m.frames.push(
                Frame { vars: Map::empty(), enclosing: Some(m.current_env) },
            )
            &&& after.current_env == m.frames.len()
            &&& after.tasks == m.tasks.push(Task::Leave(m.current_env)).push(Task::Block(list))
        }),
{
}

/// An error ends the program at once, back in the global scope: nothing
/// is left to do, whatever blocks and calls evaluation was in.
pub proof fn lemma_error_unwinds_everything(m: Machine, e: RuntimeError)
    ensures
        fault(m, e).0.tasks.len() == 0,
        fault(m, e).0.current_env == m.globals,
        fault(m, e).0.frames == m.frames,
        fault(m, e).0.instances == m.instances,
        fault(m, e).1 == Action::Finished(Some(e)),
        run(fault(m, e).0) == (fault(m, e).0, Action::Finished(None)),
{
    assert(fault(m, e).0.values =~= Seq::empty());
}

/// `return` unwinds to the nearest call and no further: of the tasks, those
/// above the end of the innermost call are dropped with it, and those
/// under it stay.
pub proof fn lemma_return_unwinds_to_nearest_call(
    under: Seq<Task>,
    end: Task,
    above: Seq<Task>,
)
    requires
        end is EndCall,
        forall|i: int| 0 <= i < above.len() ==> !(#[trigger] above[i] is EndCall),
    ensures
        call_depth(under.push(end) + above) == Some(under.len() as int),
        (under.push(end) + above).take(under.len() as int) == under,
    decreases above.len(),
{
    let all = under.push(end) + above;
    if above.len() == 0 {
        assert(all == under.push(end));
    } else {
        assert(all.last() == above.last());
        assert(all.drop_last() == under.push(end) + above.drop_last());
        lemma_return_unwinds_to_nearest_call(under, end, above.drop_last());
    }
    assert(all.take(under.len() as int) == under);
}

/// An initializer gives the instance, whatever it returns; any other
/// function gives what it returns.
pub proof fn lemma_initializer_gives_this(
    m: Machine,
    closure: usize,
    v: LiteralValue,
    this: LiteralValue,
)
    requires
        closure < m.frames.len(),
        m.frames[closure as int].vars.get(SYM_THIS) == Some(this),
    ensures
        call_result(m, true, closure, v) == Ok::<LiteralValue, RuntimeError>(this),
        call_result(m, false, closure, v) == Ok::<LiteralValue, RuntimeError>(v),
{
}

} // verus!
