//! The evaluator. It computes what [`crate::machine`] defines, one step at
//! a time.

use vstd::prelude::*;
use vstd::string::*;
use std::rc::Rc;
use crate::callable::Function;
use crate::class::{Class, Classes, Instances};
use crate::environment::{bound, Environments, Frame};
use crate::error::RuntimeError;
use crate::expr::Expr;
use crate::interner::{Interner, SYM_CLOCK, SYM_INIT, SYM_SUPER, SYM_THIS};
use crate::list::{length_up_to, List};
use crate::literal::{LiteralValue, LochxCallable};
use crate::locals::Locals;
use crate::machine::{
    arity_of, bind, bind_parameters, binary, call_depth, class_declared, closure_of, delivered,
    entered, eval, exec, fault, framed, interned, invoke, lenient, not_a_class, run_alone,
    run_with, step, takes_value, text_of, variable, with_methods, with_task, with_value, Action,
    Event, Machine, Task,
};
use crate::stmt::Stmt;
use crate::tables::{symbol_map_contents, symbol_map_insert, symbol_map_new};
use crate::token::{Token, TokenType};

verus! {

pub struct Interpreter {
    pub interner: Interner,
    pub environments: Environments,
    pub functions: Vec<Function>,
    pub classes: Classes,
    pub instances: Instances,
    pub locals: Locals,
    /// The handle of the global frame.
    pub globals: usize,
    /// The handle of the frame that evaluation is in.
    pub current_env: usize,
    pub tasks: Vec<Task>,
    pub values: Vec<LiteralValue>,
}

impl View for Interpreter {
    type V = Machine;

    open spec fn view(&self) -> Machine {
        Machine {
            strings: self.interner@,
            frames: self.environments@,
            functions: self.functions@,
            classes: self.classes@,
            instances: self.instances@,
            locals: self.locals@,
            globals: self.globals,
            current_env: self.current_env,
            tasks: self.tasks@,
            values: self.values@,
        }
    }
}

/// The machine that evaluation starts from: the given strings, one frame,
/// the global one, which binds `clock`, and nothing to do.
pub open spec fn initial(strings: Seq<Seq<char>>) -> Machine {
    Machine {
        strings,
        frames: seq![
            Frame {
                vars: Map::<usize, LiteralValue>::empty().insert(
                    SYM_CLOCK,
                    LiteralValue::Callable(LochxCallable::NativeFunction(0)),
                ),
                enclosing: None,
            },
        ],
        functions: Seq::empty(),
        classes: Seq::empty(),
        instances: Seq::empty(),
        locals: Map::empty(),
        globals: 0,
        current_env: 0,
        tasks: Seq::empty(),
        values: Seq::empty(),
    }
}

impl Interpreter {
    /// The tables are well formed.
    pub open spec fn wf(&self) -> bool {
        &&& self.interner.wf()
        &&& self.environments.wf()
        &&& self.instances.wf()
    }

    /// An evaluator with the given string table, in the global scope, with
    /// nothing to do.
    pub fn new(interner: Interner) -> (r: Interpreter)
        requires
            interner.wf(),
        ensures
            r.wf(),
            r@ == initial(interner@),
    {
        let mut environments = Environments::new();
        let globals = environments.add_outermost();
        environments.bind(
            globals,
            SYM_CLOCK,
            LiteralValue::Callable(LochxCallable::NativeFunction(0)),
        );
        let r = Interpreter {
            interner,
            environments,
            functions: Vec::new(),
            classes: Classes::new(),
            instances: Instances::new(),
            locals: Locals::new(),
            globals,
            current_env: globals,
            tasks: Vec::new(),
            values: Vec::new(),
        };
        assert(r@.frames =~= initial(interner@).frames);
        assert(r@.classes =~= initial(interner@).classes);
        assert(r@.instances =~= initial(interner@).instances);
        r
    }

    /// Gives the evaluator the statements to execute, after what it has
    /// still to do.
    pub fn interpret(&mut self, statements: Rc<List<Stmt>>)
        requires
            old(self).wf(),
        ensures
            final(self).wf(),
            final(self)@ == (Machine {
                tasks: seq![Task::Block(statements)] + old(self)@.tasks,
                ..old(self)@
            }),
    {
        self.tasks.insert(0, Task::Block(statements));
        assert(self.tasks@ =~= seq![Task::Block(statements)] + old(self).tasks@);
    }

    /// Gives up what is still to do, as after an error: for a host that
    /// cannot do what an action asks of it.
    pub fn abandon(&mut self, error: RuntimeError) -> (r: Action)
        requires
            old(self).wf(),
        ensures
            final(self).wf(),
            (final(self)@, r) == fault(old(self)@, error),
    {
        self.fail(error)
    }

    /// Records the distance of a reference to a local variable.
    pub fn resolve(&mut self, token: &Token, index: usize)
        requires
            old(self).wf(),
        ensures
            final(self).wf(),
            final(self)@ == (Machine {
                locals: old(self)@.locals.insert(token.span(), index),
                ..old(self)@
            }),
    {
        self.locals.resolve(token, index);
    }

    fn push_task(&mut self, task: Task)
        requires
            old(self).wf(),
        ensures
            final(self).wf(),
            final(self)@ == with_task(old(self)@, task),
    {
        self.tasks.push(task);
    }

    fn push_value(&mut self, value: LiteralValue)
        requires
            old(self).wf(),
        ensures
            final(self).wf(),
            final(self)@ == with_value(old(self)@, value),
    {
        self.values.push(value);
    }

    /// Ends the program with an error.
    fn fail(&mut self, error: RuntimeError) -> (r: Action)
        requires
            old(self).wf(),
        ensures
            final(self).wf(),
            (final(self)@, r) == fault(old(self)@, error),
    {
        self.tasks = Vec::new();
        self.values = Vec::new();
        self.current_env = self.globals;
        Action::Finished(Some(error))
    }

    /// The symbol of a string that is put together here.
    fn intern(&mut self, text: &str) -> (r: usize)
        requires
            old(self).wf(),
        ensures
            final(self).wf(),
            (final(self)@, r) == interned(old(self)@, text@),
    {
        self.interner.intern(text)
    }

    /// Takes the host's answer: a value is pushed.
    fn deliver(&mut self, event: Event)
        requires
            old(self).wf(),
        ensures
            final(self).wf(),
            final(self)@ == delivered(old(self)@, event@),
    {
        match event {
            Event::Resume => {},
            Event::Number(n) => {
                self.push_value(LiteralValue::Num(n));
            },
            Event::Truth(b) => {
                self.push_value(LiteralValue::Bool(b));
            },
            Event::Text(s) => {
                let symbol = self.intern(s.as_str());
                self.push_value(LiteralValue::Str(symbol));
            },
        }
    }

    /// The value of a variable.
    fn look_up_variable(&self, token: &Token) -> (r: Result<LiteralValue, RuntimeError>)
        requires
            self.wf(),
        ensures
            r == variable(self@, *token),
    {
        match self.locals.distance(token) {
            Some(distance) => self.environments.get_at(self.current_env, distance, *token),
            None => self.environments.get(self.globals, *token),
        }
    }

    /// A closure with the parts of the function `f` in the frame `env`.
    fn make_closure(f: &Function, env: usize, initializer: bool) -> (r: Function)
        ensures
            r == closure_of(*f, env, initializer),
    {
        Function {
            name: f.name,
            parameters: f.parameters.clone(),
            body: f.body.clone(),
            closure: env,
            is_initializer: initializer,
        }
    }

    /// Binds a method to an instance.
    fn bind(&mut self, method: usize, instance: LiteralValue) -> (r: Result<usize, RuntimeError>)
        requires
            old(self).wf(),
        ensures
            final(self).wf(),
            match r {
                Ok(h) => bind(old(self)@, method, instance) == Ok::<
                    (Machine, usize),
                    RuntimeError,
                >((final(self)@, h)),
                Err(e) => bind(old(self)@, method, instance) == Err::<
                    (Machine, usize),
                    RuntimeError,
                >(e) && final(self)@ == old(self)@,
            },
    {
        if method >= self.functions.len() {
            return Err(RuntimeError::GenericError);
        }
        let closure = self.functions[method].closure;
        match self.environments.add(Some(closure)) {
            Err(e) => Err(e),
            Ok(frame) => {
                self.environments.bind(frame, SYM_THIS, instance);
                let closed = Self::make_closure(
                    &self.functions[method],
                    frame,
                    self.functions[method].is_initializer,
                );
                let handle = self.functions.len();
                self.functions.push(closed);
                proof {
                    let m = old(self)@;
                    let f = m.functions[method as int];
                    assert(framed(m.frames, f.closure) is Ok);
                    assert(self@.frames == bound(
                        framed(m.frames, f.closure)->Ok_0,
                        m.frames.len() as int,
                        SYM_THIS,
                        instance,
                    ));
                    assert(self@.functions == m.functions.push(
                        closure_of(f, m.frames.len() as usize, f.is_initializer),
                    ));
                }
                Ok(handle)
            },
        }
    }

    /// How many arguments the callable takes, if that can be told.
    fn arity(&self, c: LochxCallable) -> (r: Option<usize>)
        requires
            self.wf(),
        ensures
            match r {
                Some(n) => arity_of(self@, c) == Some(n as nat),
                None => arity_of(self@, c) is None || arity_of(self@, c)->0 > usize::MAX,
            },
    {
        match c {
            LochxCallable::Function(h) => {
                if h < self.functions.len() {
                    length_up_to(&self.functions[h].parameters, usize::MAX)
                } else {
                    None
                }
            },
            LochxCallable::NativeFunction(_) => Some(0),
            LochxCallable::Class(h) => match self.classes.find_method_by_name(h, SYM_INIT) {
                Some(init) => {
                    if init < self.functions.len() {
                        length_up_to(&self.functions[init].parameters, usize::MAX)
                    } else {
                        None
                    }
                },
                None => Some(0),
            },
        }
    }

    /// The text that a value other than a number is printed as.
    fn text(&self, v: LiteralValue) -> (r: Option<String>)
        requires
            self.wf(),
        ensures
            match r {
                Some(s) => text_of(self@, v) == Some(s@),
                None => text_of(self@, v) is None,
            },
    {
        match v {
            LiteralValue::Str(s) => {
                if s < self.interner.len() {
                    Some(String::from_str(self.interner.text(s)))
                } else {
                    None
                }
            },
            LiteralValue::Num(_) => None,
            LiteralValue::Nil => Some(String::from_str("nil")),
            LiteralValue::Bool(b) => Some(
                String::from_str(
                    if b {
                        "true"
                    } else {
                        "false"
                    },
                ),
            ),
            LiteralValue::Callable(LochxCallable::Function(h)) => {
                if h < self.functions.len() && self.functions[h].name.symbol < self.interner.len() {
                    let mut text = String::from_str("<fun ");
                    text.append(self.interner.text(self.functions[h].name.symbol));
                    text.append(">");
                    Some(text)
                } else {
                    None
                }
            },
            LiteralValue::Callable(LochxCallable::NativeFunction(_)) => Some(
                String::from_str("<native fun>"),
            ),
            LiteralValue::Callable(LochxCallable::Class(h)) => {
                if h < self.classes.classes.len() && self.classes.classes[h].name
                    < self.interner.len() {
                    let mut text = String::from_str("<class ");
                    text.append(self.interner.text(self.classes.classes[h].name));
                    text.append(">");
                    Some(text)
                } else {
                    None
                }
            },
            LiteralValue::Instance(i) => {
                if i < self.instances.instances.len() {
                    let class = self.instances.instances[i].class;
                    if class < self.classes.classes.len() && self.classes.classes[class].name
                        < self.interner.len() {
                        let mut text = String::from_str("<");
                        text.append(self.interner.text(self.classes.classes[class].name));
                        text.append(" instance>");
                        Some(text)
                    } else {
                        None
                    }
                } else {
                    None
                }
            },
        }
    }

    /// The symbol of the two strings joined.
    fn join(&mut self, first: usize, second: usize) -> (r: usize)
        requires
            old(self).wf(),
            first < old(self)@.strings.len(),
            second < old(self)@.strings.len(),
        ensures
            final(self).wf(),
            (final(self)@, r) == interned(
                old(self)@,
                old(self)@.strings[first as int] + old(self)@.strings[second as int],
            ),
    {
        let mut joined = String::from_str(self.interner.text(first));
        joined.append(self.interner.text(second));
        self.intern(joined.as_str())
    }

    /// An operator has met operands that it does not take.
    fn invalid_arguments(&mut self, op: Token) -> (r: Action)
        requires
            old(self).wf(),
        ensures
            final(self).wf(),
            (final(self)@, r) == lenient(old(self)@, op),
    {
        self.push_value(LiteralValue::Nil);
        Action::Report(
            RuntimeError::ParseError {
                token: op,
                expected: TokenType::Eof,
                message: "Unexpected arguments",
            },
        )
    }

    /// A binary operator on two operands that have been taken from the
    /// values.
    fn visit_binary_expr(&mut self, op: Token, l: LiteralValue, r: LiteralValue) -> (a: Action)
        requires
            old(self).wf(),
        ensures
            final(self).wf(),
            (final(self)@, a) == binary(old(self)@, op, l, r),
    {
        let t = op.token_type;
        match t {
            TokenType::Plus
            | TokenType::Minus
            | TokenType::Star
            | TokenType::Slash
            | TokenType::Greater
            | TokenType::GreaterEqual
            | TokenType::Less
            | TokenType::LessEqual
            | TokenType::BangEqual
            | TokenType::EqualEqual => {},
            _ => {
                return self.invalid_arguments(op);
            },
        }
        match (l, r) {
            (LiteralValue::Num(a), LiteralValue::Num(b)) => {
                return Action::Binary(t, a, b);
            },
            _ => {},
        }
        if t == TokenType::EqualEqual {
            self.push_value(LiteralValue::Bool(l == r));
            Action::Continue
        } else if t == TokenType::BangEqual {
            self.push_value(LiteralValue::Bool(l != r));
            Action::Continue
        } else if t == TokenType::Plus {
            match (l, r) {
                (LiteralValue::Str(a), LiteralValue::Str(b)) => {
                    if a < self.interner.len() && b < self.interner.len() {
                        let symbol = self.join(a, b);
                        self.push_value(LiteralValue::Str(symbol));
                        Action::Continue
                    } else {
                        self.fail(RuntimeError::GenericError)
                    }
                },
                (LiteralValue::Num(a), LiteralValue::Str(b)) => {
                    self.push_task(Task::Join(b, false));
                    Action::Stringify(a)
                },
                (LiteralValue::Str(a), LiteralValue::Num(b)) => {
                    self.push_task(Task::Join(a, true));
                    Action::Stringify(b)
                },
                _ => self.invalid_arguments(op),
            }
        } else {
            self.invalid_arguments(op)
        }
    }

    /// Enters a function with the given arguments.
    fn enter(&mut self, f: Function, arguments: Vec<LiteralValue>) -> (r: Action)
        requires
            old(self).wf(),
        ensures
            final(self).wf(),
            (final(self)@, r) == entered(old(self)@, f, arguments@),
    {
        match self.environments.add(Some(f.closure)) {
            Err(e) => self.fail(e),
            Ok(frame) => {
                let ghost start = self.environments@;
                let mut at: &List<Token> = &f.parameters;
                let mut i: usize = 0;
                assert(arguments@.skip(0) == arguments@);
                loop
                    invariant
                        self.wf(),
                        i <= arguments@.len(),
                        frame < self.environments@.len(),
                        frame == old(self)@.frames.len(),
                        self@ == (Machine { frames: self.environments@, ..old(self)@ }),
                        bind_parameters(
                            self.environments@,
                            frame as int,
                            *at,
                            arguments@.skip(i as int),
                        ) == bind_parameters(start, frame as int, *f.parameters, arguments@),
                    ensures
                        self.environments@ == bind_parameters(
                            start,
                            frame as int,
                            *f.parameters,
                            arguments@,
                        ),
                    decreases *at,
                {
                    match at {
                        List::Nil => {
                            break ;
                        },
                        List::Cons(first, rest) => {
                            if i >= arguments.len() {
                                assert(arguments@.skip(i as int).len() == 0);
                                break ;
                            }
                            proof {
                                let left = arguments@.skip(i as int);
                                assert(left[0] == arguments@[i as int]);
                                assert(left.drop_first() == arguments@.skip(i + 1));
                            }
                            self.environments.bind(frame, first.symbol, arguments[i]);
                            i += 1;
                            at = rest;
                        },
                    }
                }
                self.tasks.push(
                    Task::EndCall {
                        env: self.current_env,
                        initializer: f.is_initializer,
                        closure: f.closure,
                    },
                );
                self.current_env = frame;
                self.tasks.push(Task::Block(f.body));
                Action::Continue
            },
        }
    }

    /// Invokes the callee that lies under `count` arguments.
    fn visit_call_expr(&mut self, count: usize) -> (r: Action)
        requires
            old(self).wf(),
        ensures
            final(self).wf(),
            (final(self)@, r) == invoke(old(self)@, count),
    {
        let n = self.values.len();
        if count >= n {
            return self.fail(RuntimeError::GenericError);
        }
        let base = n - count - 1;
        let arguments = self.values.split_off(base + 1);
        let callee = self.values.pop().unwrap();
        assert(self.values@ == old(self).values@.take(base as int));
        assert(arguments@ == old(self).values@.skip(base + 1));
        match callee {
            LiteralValue::Callable(LochxCallable::Function(h)) => {
                if h < self.functions.len() {
                    let f = Self::make_closure(
                        &self.functions[h],
                        self.functions[h].closure,
                        self.functions[h].is_initializer,
                    );
                    self.enter(f, arguments)
                } else {
                    self.fail(RuntimeError::GenericError)
                }
            },
            LiteralValue::Callable(LochxCallable::NativeFunction(_)) => Action::Clock,
            LiteralValue::Callable(LochxCallable::Class(h)) => {
                let instance = LiteralValue::Instance(self.instances.add(h));
                match self.classes.find_method_by_name(h, SYM_INIT) {
                    None => {
                        self.push_value(instance);
                        Action::Continue
                    },
                    Some(init) => match self.bind(init, instance) {
                        Err(e) => self.fail(e),
                        Ok(b) => {
                            self.push_task(Task::Replace(instance));
                            let f = Self::make_closure(
                                &self.functions[b],
                                self.functions[b].closure,
                                self.functions[b].is_initializer,
                            );
                            self.enter(f, arguments)
                        },
                    },
                }
            },
            _ => self.fail(RuntimeError::GenericError),
        }
    }

    /// Declares a class.
    fn visit_class_stmt(
        &mut self,
        name: Token,
        methods: &List<Rc<Function>>,
        superclass: Option<usize>,
    ) -> (r: Action)
        requires
            old(self).wf(),
        ensures
            final(self).wf(),
            (final(self)@, r) == class_declared(old(self)@, name, *methods, superclass),
    {
        match self.environments.define(self.current_env, name.symbol, LiteralValue::Nil) {
            Err(e) => {
                return self.fail(e);
            },
            Ok(_) => {},
        }
        let env = match superclass {
            Some(base) => {
                match self.environments.add(Some(self.current_env)) {
                    Err(e) => {
                        return self.fail(e);
                    },
                    Ok(frame) => {
                        self.environments.bind(
                            frame,
                            SYM_SUPER,
                            LiteralValue::Callable(LochxCallable::Class(base)),
                        );
                        frame
                    },
                }
            },
            None => self.current_env,
        };
        let mut table = symbol_map_new();
        let mut at: &List<Rc<Function>> = methods;
        let ghost framed = self.environments@;
        loop
            invariant
                self.wf(),
                self@ == (Machine {
                    frames: framed,
                    functions: self.functions@,
                    ..old(self)@
                }),
                with_methods(self.functions@, symbol_map_contents(table), env, *at) == with_methods(
                    old(self)@.functions,
                    Map::empty(),
                    env,
                    *methods,
                ),
            ensures
                (self.functions@, symbol_map_contents(table)) == with_methods(
                    old(self)@.functions,
                    Map::empty(),
                    env,
                    *methods,
                ),
            decreases *at,
        {
            match at {
                List::Nil => {
                    break ;
                },
                List::Cons(first, rest) => {
                    let handle = self.functions.len();
                    self.functions.push(Self::make_closure(first, env, first.is_init()));
                    symbol_map_insert(&mut table, first.name.symbol, handle);
                    at = rest;
                },
            }
        }
        let class = self.classes.add(Class::new(name.symbol, superclass, table));
        self.environments.bind(
            self.current_env,
            name.symbol,
            LiteralValue::Callable(LochxCallable::Class(class)),
        );
        Action::Continue
    }

    /// The method of the superclass, bound to the current instance.
    fn visit_super_expr(&mut self, keyword: Token, method: Token) -> (r: Action)
        requires
            old(self).wf(),
        ensures
            final(self).wf(),
            (final(self)@, r) == eval(
                old(self)@,
                Expr::Super(crate::expr::Super { keyword, method }),
            ),
    {
        let distance = match self.locals.distance(&keyword) {
            None => {
                return self.fail(RuntimeError::GenericError);
            },
            Some(d) => d,
        };
        if distance == 0 {
            return self.fail(RuntimeError::GenericError);
        }
        let superclass = match self.environments.get_at_by_name(
            self.current_env,
            distance,
            SYM_SUPER,
        ) {
            Err(e) => {
                return self.fail(e);
            },
            Ok(LiteralValue::Callable(LochxCallable::Class(base))) => base,
            Ok(_) => {
                return self.fail(RuntimeError::GenericError);
            },
        };
        let object = match self.environments.get_at_by_name(
            self.current_env,
            distance - 1,
            SYM_THIS,
        ) {
            Err(e) => {
                return self.fail(e);
            },
            Ok(LiteralValue::Instance(i)) => LiteralValue::Instance(i),
            Ok(_) => {
                return self.fail(RuntimeError::GenericError);
            },
        };
        match self.classes.find_method_by_name(superclass, method.symbol) {
            None => self.fail(RuntimeError::UndefinedProperty(method)),
            Some(found) => match self.bind(found, object) {
                Err(e) => self.fail(e),
                Ok(b) => {
                    self.push_value(LiteralValue::Callable(LochxCallable::Function(b)));
                    Action::Continue
                },
            },
        }
    }

    /// Evaluates an expression: pushes its value, or the tasks that
    /// compute it.
    fn evaluate(&mut self, expr: &Expr) -> (r: Action)
        requires
            old(self).wf(),
        ensures
            final(self).wf(),
            (final(self)@, r) == eval(old(self)@, *expr),
    {
        match expr {
            Expr::Literal(l) => {
                self.push_value(l.value);
                Action::Continue
            },
            Expr::Grouping(g) => {
                self.push_task(Task::Eval(g.expr.clone()));
                Action::Continue
            },
            Expr::Unary(u) => {
                self.push_task(Task::Unary(u.op));
                self.push_task(Task::Eval(u.right.clone()));
                Action::Continue
            },
            Expr::Binary(b) => {
                self.push_task(Task::Binary(b.op));
                self.push_task(Task::Eval(b.right.clone()));
                self.push_task(Task::Eval(b.left.clone()));
                Action::Continue
            },
            Expr::Logical(b) => {
                self.push_task(Task::Logical(b.op, b.right.clone()));
                self.push_task(Task::Eval(b.left.clone()));
                Action::Continue
            },
            Expr::Variable(v) => match self.look_up_variable(&v.name) {
                Ok(value) => {
                    self.push_value(value);
                    Action::Continue
                },
                Err(e) => self.fail(e),
            },
            Expr::Assign(a) => {
                self.push_task(Task::Assign(a.name));
                self.push_task(Task::Eval(a.value.clone()));
                Action::Continue
            },
            Expr::Call(c) => {
                self.push_task(Task::Call(c.paren, c.arguments.clone()));
                self.push_task(Task::Eval(c.callee.clone()));
                Action::Continue
            },
            Expr::Get(g) => {
                self.push_task(Task::Get(g.name));
                self.push_task(Task::Eval(g.object.clone()));
                Action::Continue
            },
            Expr::Put(p) => {
                self.push_task(Task::PutValue(p.name, p.value.clone()));
                self.push_task(Task::Eval(p.object.clone()));
                Action::Continue
            },
            Expr::This(t) => match self.look_up_variable(&t.keyword) {
                Ok(value) => {
                    self.push_value(value);
                    Action::Continue
                },
                Err(e) => self.fail(e),
            },
            Expr::Super(x) => self.visit_super_expr(x.keyword, x.method),
        }
    }

    /// Enters a block: its statements are to run in a new frame inside the
    /// current one, and then evaluation goes back to the current frame.
    fn execute_block(&mut self, stmts: &Rc<List<Stmt>>) -> (r: Action)
        requires
            old(self).wf(),
        ensures
            final(self).wf(),
            (final(self)@, r) == exec(old(self)@, Stmt::Block(*stmts)),
    {
        match self.environments.add(Some(self.current_env)) {
            Err(e) => self.fail(e),
            Ok(frame) => {
                self.tasks.push(Task::Leave(self.current_env));
                self.tasks.push(Task::Block(stmts.clone()));
                self.current_env = frame;
                Action::Continue
            },
        }
    }

    /// Declares a function: its name is bound in the current frame to a
    /// closure over that frame.
    fn visit_fundecl_stmt(&mut self, stmt: &Rc<Function>) -> (r: Action)
        requires
            old(self).wf(),
        ensures
            final(self).wf(),
            (final(self)@, r) == exec(old(self)@, Stmt::FunctionDecl(*stmt)),
    {
        let handle = self.functions.len();
        match self.environments.define(
            self.current_env,
            stmt.name.symbol,
            LiteralValue::Callable(LochxCallable::Function(handle)),
        ) {
            Err(e) => self.fail(e),
            Ok(_) => {
                self.functions.push(Self::make_closure(stmt, self.current_env, false));
                Action::Continue
            },
        }
    }

    /// Executes a statement: has its effect, or pushes the tasks that have
    /// it.
    fn execute(&mut self, stmt: &Stmt) -> (r: Action)
        requires
            old(self).wf(),
        ensures
            final(self).wf(),
            (final(self)@, r) == exec(old(self)@, *stmt),
    {
        match stmt {
            Stmt::ParseError { token } => Action::Report(
                RuntimeError::ParseError {
                    token: *token,
                    expected: TokenType::Eof,
                    message: "Parse error",
                },
            ),
            Stmt::Print(e) => {
                self.push_task(Task::Print);
                self.push_task(Task::Eval(e.clone()));
                Action::Continue
            },
            Stmt::Expression(e) => {
                self.push_task(Task::Discard);
                self.push_task(Task::Eval(e.clone()));
                Action::Continue
            },
            Stmt::VarDecl(d) => {
                self.push_task(Task::Define(d.name.symbol));
                self.push_task(Task::Eval(d.initializer.clone()));
                Action::Continue
            },
            Stmt::Block(list) => self.execute_block(list),
            Stmt::If(i) => {
                self.push_task(
                    Task::Branch(
                        i.then_branch.clone(),
                        match &i.else_branch {
                            Some(s) => Some(s.clone()),
                            None => None,
                        },
                    ),
                );
                self.push_task(Task::Eval(i.condition.clone()));
                Action::Continue
            },
            Stmt::While(w) => {
                self.push_task(Task::Loop(w.condition.clone(), w.body.clone()));
                self.push_task(Task::Eval(w.condition.clone()));
                Action::Continue
            },
            Stmt::FunctionDecl(f) => self.visit_fundecl_stmt(f),
            Stmt::Return(r) => {
                self.push_task(Task::Return);
                match &r.value {
                    Some(e) => {
                        self.push_task(Task::Eval(e.clone()));
                    },
                    None => {
                        self.push_value(LiteralValue::Nil);
                    },
                }
                Action::Continue
            },
            Stmt::Class(c) => match &c.superclass {
                Some(e) => {
                    self.push_task(Task::Class(c.name, c.methods.clone(), e.clone()));
                    self.push_task(Task::Eval(e.clone()));
                    Action::Continue
                },
                None => self.visit_class_stmt(c.name, &c.methods, None),
            },
        }
    }

    /// Leaves the function being called, with the value `v`.
    fn visit_return_stmt(&mut self, v: LiteralValue) -> (r: Action)
        requires
            old(self).wf(),
        ensures
            final(self).wf(),
            (final(self)@, r) == run_with(old(self)@, Task::Return, v),
    {
        assert(old(self).tasks@.take(old(self).tasks@.len() as int) == old(self).tasks@);
        loop
            invariant
                self.wf(),
                self@ == (Machine { tasks: self.tasks@, ..old(self)@ }),
                self.tasks@ == old(self).tasks@.take(self.tasks@.len() as int),
                self.tasks@.len() <= old(self).tasks@.len(),
                call_depth(self.tasks@) == call_depth(old(self).tasks@),
            decreases self.tasks@.len(),
        {
            let ghost before = self.tasks@;
            match self.tasks.pop() {
                None => {
                    return self.fail(RuntimeError::ReturnValue(v));
                },
                Some(Task::EndCall { env, initializer, closure }) => {
                    proof {
                        let depth = before.len() - 1;
                        assert(before.last() is EndCall);
                        assert(call_depth(before) == Some(depth));
                        assert(old(self).tasks@[depth] == before[depth]);
                        assert(self.tasks@ == before.drop_last());
                        assert(before.drop_last() == old(self).tasks@.take(depth));
                    }
                    let result = if initializer {
                        self.environments.get_at_by_name(closure, 0, SYM_THIS)
                    } else {
                        Ok(v)
                    };
                    return match result {
                        Err(e) => self.fail(e),
                        Ok(value) => {
                            self.current_env = env;
                            self.push_value(value);
                            Action::Continue
                        },
                    };
                },
                Some(_) => {
                    assert(self.tasks@ == before.drop_last());
                    assert(before.drop_last() == old(self).tasks@.take(self.tasks@.len() as int));
                },
            }
        }
    }

    /// Does a task that needs no value.
    fn run_alone(&mut self, task: Task) -> (r: Action)
        requires
            old(self).wf(),
            !takes_value(task),
        ensures
            final(self).wf(),
            (final(self)@, r) == run_alone(old(self)@, task),
    {
        match task {
            Task::Eval(e) => self.evaluate(&e),
            Task::Exec(s) => self.execute(&s),
            Task::Block(list) => match &*list {
                List::Nil => Action::Continue,
                List::Cons(first, rest) => {
                    self.push_task(Task::Block(rest.clone()));
                    self.execute(first)
                },
            },
            Task::Leave(env) => {
                self.current_env = env;
                Action::Continue
            },
            Task::Arguments(list) => match &*list {
                List::Nil => Action::Continue,
                List::Cons(first, rest) => {
                    self.push_task(Task::Arguments(rest.clone()));
                    self.push_task(Task::Eval(first.clone()));
                    Action::Continue
                },
            },
            Task::EndCall { env, initializer, closure } => {
                let result = if initializer {
                    self.environments.get_at_by_name(closure, 0, SYM_THIS)
                } else {
                    Ok(LiteralValue::Nil)
                };
                match result {
                    Err(e) => self.fail(e),
                    Ok(value) => {
                        self.current_env = env;
                        self.push_value(value);
                        Action::Continue
                    },
                }
            },
            Task::Invoke(_, count) => self.visit_call_expr(count),
            _ => self.fail(RuntimeError::GenericError),
        }
    }

    /// Prints a value, or asks for the text of a number first.
    fn visit_print_stmt(&mut self, v: LiteralValue) -> (r: Action)
        requires
            old(self).wf(),
        ensures
            final(self).wf(),
            (final(self)@, r) == run_with(old(self)@, Task::Print, v),
    {
        match v {
            LiteralValue::Num(n) => {
                self.push_task(Task::Print);
                Action::Stringify(n)
            },
            _ => match self.text(v) {
                None => self.fail(RuntimeError::GenericError),
                Some(text) => {
                    let symbol = self.intern(text.as_str());
                    Action::Print(symbol)
                },
            },
        }
    }

    /// Assigns a value to a variable; the value is the result.
    fn visit_assign_expr(&mut self, name: Token, v: LiteralValue) -> (r: Action)
        requires
            old(self).wf(),
        ensures
            final(self).wf(),
            (final(self)@, r) == run_with(old(self)@, Task::Assign(name), v),
    {
        let done = match self.locals.distance(&name) {
            Some(d) => self.environments.assign_at(self.current_env, d, name, v),
            None => self.environments.assign(self.globals, name, v),
        };
        match done {
            Err(e) => self.fail(e),
            Ok(_) => {
                self.push_value(v);
                Action::Continue
            },
        }
    }

    fn visit_unary_expr(&mut self, op: Token, v: LiteralValue) -> (r: Action)
        requires
            old(self).wf(),
        ensures
            final(self).wf(),
            (final(self)@, r) == run_with(old(self)@, Task::Unary(op), v),
    {
        match op.token_type {
            TokenType::Bang => {
                self.push_value(LiteralValue::Bool(!v.is_truthy()));
                Action::Continue
            },
            TokenType::Minus => match v {
                LiteralValue::Num(n) => Action::Negate(n),
                _ => self.invalid_arguments(op),
            },
            _ => self.fail(RuntimeError::GenericError),
        }
    }

    /// The operand on the left decides whether it is the result, or else
    /// the operand on the right is.
    fn visit_logical_expr(&mut self, op: Token, right: Rc<Expr>, v: LiteralValue) -> (r: Action)
        requires
            old(self).wf(),
        ensures
            final(self).wf(),
            (final(self)@, r) == run_with(old(self)@, Task::Logical(op, right), v),
    {
        if op.token_type == TokenType::KwOr {
            if v.is_truthy() {
                self.push_value(v);
                return Action::Continue;
            }
        } else if !v.is_truthy() {
            self.push_value(v);
            return Action::Continue;
        }
        self.push_task(Task::Eval(right));
        Action::Continue
    }

    /// Checks the callee against the arguments before any of them is
    /// evaluated.
    fn check_call(&mut self, paren: Token, arguments: Rc<List<Rc<Expr>>>, v: LiteralValue) -> (r:
        Action)
        requires
            old(self).wf(),
        ensures
            final(self).wf(),
            (final(self)@, r) == run_with(old(self)@, Task::Call(paren, arguments), v),
    {
        match v {
            LiteralValue::Callable(c) => {
                let arity = match self.arity(c) {
                    None => {
                        return self.fail(RuntimeError::GenericError);
                    },
                    Some(n) => n,
                };
                let count = match length_up_to(&arguments, usize::MAX) {
                    None => {
                        return self.fail(RuntimeError::GenericError);
                    },
                    Some(n) => n,
                };
                if count != arity {
                    return self.fail(RuntimeError::InvalidArity(paren, arity, count));
                }
                self.push_value(v);
                self.push_task(Task::Invoke(paren, count));
                self.push_task(Task::Arguments(arguments));
                Action::Continue
            },
            _ => self.fail(RuntimeError::NotACallable(paren)),
        }
    }

    /// Reads a property: a field of the instance, or else a method of its
    /// class, bound to it.
    fn visit_get_expr(&mut self, name: Token, v: LiteralValue) -> (r: Action)
        requires
            old(self).wf(),
        ensures
            final(self).wf(),
            (final(self)@, r) == run_with(old(self)@, Task::Get(name), v),
    {
        match v {
            LiteralValue::Instance(i) => {
                if i >= self.instances.instances.len() {
                    return self.fail(RuntimeError::GenericError);
                }
                match self.instances.field(i, &name) {
                    Some(field) => {
                        self.push_value(field);
                        Action::Continue
                    },
                    None => match self.classes.find_method_by_name(
                        self.instances.instances[i].class,
                        name.symbol,
                    ) {
                        None => self.fail(RuntimeError::UndefinedProperty(name)),
                        Some(method) => match self.bind(method, v) {
                            Err(e) => self.fail(e),
                            Ok(b) => {
                                self.push_value(
                                    LiteralValue::Callable(LochxCallable::Function(b)),
                                );
                                Action::Continue
                            },
                        },
                    },
                }
            },
            _ => self.fail(
                RuntimeError::InvalidPropertyAccess(name, "Only instances have properties."),
            ),
        }
    }

    /// Stores a value in a field of the instance under it.
    fn visit_set_expr(&mut self, name: Token, v: LiteralValue) -> (r: Action)
        requires
            old(self).wf(),
        ensures
            final(self).wf(),
            (final(self)@, r) == run_with(old(self)@, Task::Put(name), v),
    {
        match self.values.pop() {
            Some(LiteralValue::Instance(i)) => {
                if i < self.instances.instances.len() {
                    self.instances.set_field(i, &name, v);
                    self.push_value(v);
                    Action::Continue
                } else {
                    self.fail(RuntimeError::GenericError)
                }
            },
            _ => self.fail(RuntimeError::GenericError),
        }
    }

    /// Does a task with the value that lay on top.
    fn run_with(&mut self, task: Task, v: LiteralValue) -> (r: Action)
        requires
            old(self).wf(),
            takes_value(task),
        ensures
            final(self).wf(),
            (final(self)@, r) == run_with(old(self)@, task, v),
    {
        match task {
            Task::Discard => Action::Continue,
            Task::Print => self.visit_print_stmt(v),
            Task::Define(name) => match self.environments.define(self.current_env, name, v) {
                Err(e) => self.fail(e),
                Ok(_) => Action::Continue,
            },
            Task::Branch(then_branch, else_branch) => {
                if v.is_truthy() {
                    self.push_task(Task::Exec(then_branch));
                } else {
                    match else_branch {
                        Some(s) => {
                            self.push_task(Task::Exec(s));
                        },
                        None => {},
                    }
                }
                Action::Continue
            },
            Task::Loop(condition, body) => {
                if v.is_truthy() {
                    self.push_task(Task::Loop(condition.clone(), body.clone()));
                    self.push_task(Task::Eval(condition));
                    self.push_task(Task::Exec(body));
                }
                Action::Continue
            },
            Task::Assign(name) => self.visit_assign_expr(name, v),
            Task::Unary(op) => self.visit_unary_expr(op, v),
            Task::Binary(op) => match self.values.pop() {
                None => self.fail(RuntimeError::GenericError),
                Some(l) => self.visit_binary_expr(op, l, v),
            },
            Task::Join(text, before) => match v {
                LiteralValue::Str(s) => {
                    if s < self.interner.len() && text < self.interner.len() {
                        let symbol = if before {
                            self.join(text, s)
                        } else {
                            self.join(s, text)
                        };
                        self.push_value(LiteralValue::Str(symbol));
                        Action::Continue
                    } else {
                        self.fail(RuntimeError::GenericError)
                    }
                },
                _ => self.fail(RuntimeError::GenericError),
            },
            Task::Logical(op, right) => self.visit_logical_expr(op, right, v),
            Task::Call(paren, arguments) => self.check_call(paren, arguments, v),
            Task::Return => self.visit_return_stmt(v),
            Task::Replace(value) => {
                self.push_value(value);
                Action::Continue
            },
            Task::Get(name) => self.visit_get_expr(name, v),
            Task::PutValue(name, value) => match v {
                LiteralValue::Instance(_) => {
                    self.push_value(v);
                    self.push_task(Task::Put(name));
                    self.push_task(Task::Eval(value));
                    Action::Continue
                },
                _ => self.fail(
                    RuntimeError::InvalidPropertyAccess(name, "Only instances have fields"),
                ),
            },
            Task::Put(name) => self.visit_set_expr(name, v),
            Task::Class(name, methods, named) => match v {
                LiteralValue::Callable(LochxCallable::Class(base)) => self.visit_class_stmt(
                    name,
                    &methods,
                    Some(base),
                ),
                _ => self.fail(superclass_error(&named)),
            },
            _ => self.fail(RuntimeError::GenericError),
        }
    }

    /// One step of evaluation: takes the host's answer to the last action,
    /// does the task on top, and tells the host what to do next. A program
    /// is run by stepping until the action is `Finished`.
    pub fn step(&mut self, event: Event) -> (r: Action)
        requires
            old(self).wf(),
        ensures
            final(self).wf(),
            (final(self)@, r) == step(old(self)@, event@),
    {
        self.deliver(event);
        match self.tasks.pop() {
            None => {
                self.values = Vec::new();
                Action::Finished(None)
            },
            Some(task) => {
                if needs_value(&task) {
                    match self.values.pop() {
                        None => self.fail(RuntimeError::GenericError),
                        Some(v) => self.run_with(task, v),
                    }
                } else {
                    self.run_alone(task)
                }
            },
        }
    }
}

/// The error for a superclass that is no class.
fn superclass_error(named: &Expr) -> (r: RuntimeError)
    ensures
        r == not_a_class(*named),
{
    match named {
        Expr::Variable(v) => RuntimeError::NotAClassBase(v.name),
        _ => RuntimeError::GenericError,
    }
}

fn needs_value(task: &Task) -> (r: bool)
    ensures
        r == takes_value(*task),
{
    match task {
        Task::Eval(_) => false,
        Task::Exec(_) => false,
        Task::Block(_) => false,
        Task::Leave(_) => false,
        Task::Arguments(_) => false,
        Task::EndCall { .. } => false,
        Task::Invoke(_, _) => false,
        _ => true,
    }
}

} // verus!
