use lochx::error::RuntimeError;
use lochx::interner::Interner;
use lochx::interpreter::Interpreter;
use lochx::list::from_vec;
use lochx::machine::{Action, Event};
use lochx::parser::Parser;
use lochx::resolver::Resolver;
use lochx::scanner::Scanner;
use lochx::token::{Token, TokenType};

/// What a program did.
struct Run {
    printed: Vec<String>,
    reported: Vec<RuntimeError>,
    scan_errors: usize,
    parse_errors: Vec<RuntimeError>,
    resolve_error: Option<RuntimeError>,
    runtime_error: Option<RuntimeError>,
    steps: usize,
}

fn number_text(bits: u64) -> String {
    format!("{}", f64::from_bits(bits))
}

fn drive(interpreter: &mut Interpreter, run: &mut Run) {
    let mut event = Event::Resume;
    loop {
        run.steps += 1;
        assert!(run.steps < 1_000_000);
        let action = interpreter.step(event);
        event = match action {
            Action::Continue => Event::Resume,
            Action::Print(symbol) => {
                run.printed.push(interpreter.interner.text(symbol).to_string());
                Event::Resume
            }
            Action::Report(e) => {
                run.reported.push(e);
                Event::Resume
            }
            Action::Binary(op, a, b) => {
                let (a, b) = (f64::from_bits(a), f64::from_bits(b));
                match op {
                    TokenType::Plus => Event::Number((a + b).to_bits()),
                    TokenType::Minus => Event::Number((a - b).to_bits()),
                    TokenType::Star => Event::Number((a * b).to_bits()),
                    TokenType::Slash => Event::Number((a / b).to_bits()),
                    TokenType::Greater => Event::Truth(a > b),
                    TokenType::GreaterEqual => Event::Truth(a >= b),
                    TokenType::Less => Event::Truth(a < b),
                    TokenType::LessEqual => Event::Truth(a <= b),
                    TokenType::EqualEqual => Event::Truth(a == b),
                    TokenType::BangEqual => Event::Truth(a != b),
                    _ => unreachable!(),
                }
            }
            Action::Negate(a) => Event::Number((-f64::from_bits(a)).to_bits()),
            Action::Stringify(a) => Event::Text(number_text(a)),
            Action::Clock => Event::Number(1234.5f64.to_bits()),
            Action::Finished(e) => {
                run.runtime_error = e;
                return;
            }
        };
    }
}

fn scan(source: &str, offset: usize, interner: &mut Interner, run: &mut Run) -> Vec<Token> {
    let mut scanner = Scanner::new(source, offset);
    let tokens = scanner.scan_tokens(interner);
    run.scan_errors += scanner.errors.len();
    tokens
        .into_iter()
        .map(|t| {
            if t.token_type == TokenType::Number {
                let value: f64 = interner.text(t.symbol).parse().unwrap();
                t.with_number(value.to_bits())
            } else {
                t
            }
        })
        .collect()
}

fn run(source: &str) -> Run {
    let mut run = Run {
        printed: vec![],
        reported: vec![],
        scan_errors: 0,
        parse_errors: vec![],
        resolve_error: None,
        runtime_error: None,
        steps: 0,
    };
    let mut interner = Interner::new();
    let tokens = scan(source, 0, &mut interner, &mut run);
    let mut parser = Parser::new(tokens);
    let statements = parser.parse();
    run.parse_errors = parser.errors.clone();
    let program = from_vec(statements);
    let mut interpreter = Interpreter::new(interner);
    let mut resolver = Resolver::new();
    if let Err(e) = resolver.resolve(&mut interpreter.locals, &program) {
        run.resolve_error = Some(e);
        return run;
    }
    interpreter.interpret(program);
    drive(&mut interpreter, &mut run);
    run
}

/// Runs a program without resolving it first: every variable is looked up
/// in the global scope.
fn run_unresolved(source: &str) -> Run {
    let mut run = Run {
        printed: vec![],
        reported: vec![],
        scan_errors: 0,
        parse_errors: vec![],
        resolve_error: None,
        runtime_error: None,
        steps: 0,
    };
    let mut interner = Interner::new();
    let tokens = scan(source, 0, &mut interner, &mut run);
    let mut parser = Parser::new(tokens);
    let statements = parser.parse();
    run.parse_errors = parser.errors.clone();
    let mut interpreter = Interpreter::new(interner);
    interpreter.interpret(from_vec(statements));
    drive(&mut interpreter, &mut run);
    run
}

fn prints(source: &str) -> Vec<String> {
    let r = run(source);
    assert_eq!(r.scan_errors, 0);
    assert!(r.parse_errors.is_empty(), "{:?}", r.parse_errors);
    assert!(r.resolve_error.is_none(), "{:?}", r.resolve_error);
    assert!(r.runtime_error.is_none(), "{:?}", r.runtime_error);
    assert!(r.reported.is_empty(), "{:?}", r.reported);
    r.printed
}

#[test]
fn arithmetic_on_literals() {
    assert_eq!(prints("print 1 + 2;"), vec!["3"]);
    assert_eq!(prints("print \"a\" + \"b\";"), vec!["ab"]);
    assert_eq!(prints("print 1 + \"x\";"), vec!["1x"]);
    assert_eq!(prints("print \"x\" + 1;"), vec!["x1"]);
    assert_eq!(prints("print 7 / 2;"), vec!["3.5"]);
    assert_eq!(prints("print 2 * 3 - 4;"), vec!["2"]);
    assert_eq!(prints("print -(1 + 2) * 2;"), vec!["-6"]);
    assert_eq!(prints("print 0.1 + 0.2;"), vec!["0.30000000000000004"]);
    assert_eq!(prints("print 1 / 0;"), vec!["inf"]);
}

#[test]
fn precedence_and_grouping() {
    assert_eq!(prints("print 1 + 2 * 3;"), vec!["7"]);
    assert_eq!(prints("print (1 + 2) * 3;"), vec!["9"]);
    assert_eq!(prints("print 10 - 4 - 3;"), vec!["3"]);
    assert_eq!(prints("print 1 < 2 == true;"), vec!["true"]);
    assert_eq!(prints("print !true == false;"), vec!["true"]);
}

#[test]
fn comparison_and_equality() {
    assert_eq!(prints("print 1 < 2; print 2 <= 2; print 3 > 4; print 4 >= 5;"), vec![
        "true", "true", "false", "false"
    ]);
    assert_eq!(prints("print 1 == 1; print 1 != 1; print \"a\" == \"a\"; print \"a\" != \"b\";"), vec![
        "true", "false", "true", "true"
    ]);
    assert_eq!(prints("print nil == nil; print true == true; print 1 == \"1\"; print 1 != \"1\";"), vec![
        "true", "true", "false", "true"
    ]);
    assert_eq!(prints("print \"ab\" == \"a\" + \"b\";"), vec!["true"]);
}

#[test]
fn truthiness() {
    assert_eq!(prints("if (0) print \"yes\"; else print \"no\";"), vec!["yes"]);
    assert_eq!(prints("if (\"\") print \"yes\"; else print \"no\";"), vec!["yes"]);
    assert_eq!(prints("if (nil) print \"yes\"; else print \"no\";"), vec!["no"]);
    assert_eq!(prints("if (false) print \"yes\"; else print \"no\";"), vec!["no"]);
    assert_eq!(prints("print !nil; print !0;"), vec!["true", "false"]);
}

#[test]
fn logical_operators_return_operands() {
    assert_eq!(prints("print nil or \"x\";"), vec!["x"]);
    assert_eq!(prints("print 1 or 2;"), vec!["1"]);
    assert_eq!(prints("print nil and 2;"), vec!["nil"]);
    assert_eq!(prints("print 1 and 2;"), vec!["2"]);
}

#[test]
fn logical_operators_short_circuit() {
    let source = "var a = 0; fun f() { a = a + 1; return true; } \
                  print true or f(); print false and f(); print a; \
                  print false or f(); print a;";
    assert_eq!(prints(source), vec!["true", "false", "0", "true", "1"]);
}

#[test]
fn shadowing() {
    assert_eq!(prints("var a = 1; { var a = 2; print a; } print a;"), vec!["2", "1"]);
}

#[test]
fn assignment_reaches_the_declaring_scope() {
    assert_eq!(prints("var a = 1; { a = 2; { a = a + 1; } } print a;"), vec!["3"]);
    assert_eq!(prints("var a; print a; print a = 5; print a;"), vec!["nil", "5", "5"]);
}

#[test]
fn while_and_for_loops() {
    assert_eq!(prints("var i = 0; while (i < 3) { print i; i = i + 1; }"), vec!["0", "1", "2"]);
    assert_eq!(prints("for (var i = 0; i < 3; i = i + 1) print i;"), vec!["0", "1", "2"]);
    assert_eq!(
        prints("var i = 0; for (; i < 2;) { print i; i = i + 1; } print i;"),
        vec!["0", "1", "2"]
    );
    assert_eq!(
        prints("fun f() { for (;;) { return \"out\"; } } print f();"),
        vec!["out"]
    );
}

#[test]
fn functions_and_recursion() {
    let source = "fun fib(n) { if (n < 2) return n; return fib(n - 1) + fib(n - 2); } print fib(10);";
    assert_eq!(prints(source), vec!["55"]);
    assert_eq!(prints("fun f() {} print f();"), vec!["nil"]);
    assert_eq!(prints("fun f(a, b) { return a + b; } print f(1, 2);"), vec!["3"]);
    assert_eq!(prints("fun f() { return; } print f();"), vec!["nil"]);
}

#[test]
fn closures_capture_their_defining_scope() {
    let source = "fun make() { var n = 0; fun inc() { n = n + 1; return n; } return inc; } \
                  var a = make(); var b = make(); \
                  print a(); print a(); print a(); print b(); print a();";
    assert_eq!(prints(source), vec!["1", "2", "3", "1", "4"]);
}

#[test]
fn closure_sees_the_binding_of_its_declaration() {
    let source = "var a = \"global\"; { fun show() { print a; } show(); var a = \"block\"; show(); }";
    assert_eq!(prints(source), vec!["global", "global"]);
}

#[test]
fn return_unwinds_to_the_nearest_call_only() {
    let source = "fun inner() { while (true) { { return 1; } } } \
                  fun outer() { var x = inner(); print \"after\"; return x + 1; } print outer();";
    assert_eq!(prints(source), vec!["after", "2"]);
}

#[test]
fn block_restores_the_frame_after_return() {
    let source = "var a = \"g\"; fun f() { var a = \"f\"; { var a = \"b\"; return a; } } print f(); print a;";
    assert_eq!(prints(source), vec!["b", "g"]);
}

#[test]
fn classes_and_instances() {
    assert_eq!(prints("class A {} print A; var a = A(); print a;"), vec!["<class A>", "<A instance>"]);
    assert_eq!(prints("class A {} var a = A(); a.x = 1; print a.x; a.x = a.x + 1; print a.x;"), vec![
        "1", "2"
    ]);
    assert_eq!(
        prints("class A { hi() { return \"hi \" + this.name; } } var a = A(); a.name = \"bob\"; print a.hi();"),
        vec!["hi bob"]
    );
}

#[test]
fn initializer_returns_the_instance() {
    let source = "class P { init(x) { this.x = x; } } var p = P(3); print p.x; print p.init(4).x; print p.x;";
    assert_eq!(prints(source), vec!["3", "4", "4"]);
    let source = "class P { init() { this.x = 1; return; } } print P().x;";
    assert_eq!(prints(source), vec!["1"]);
}

#[test]
fn inheritance_and_super() {
    let source = "class A { greet(){ return \"A\"; } } \
                  class B < A { greet(){ return super.greet() + \"B\"; } } print B().greet();";
    assert_eq!(prints(source), vec!["AB"]);
    let source = "class A { a() { return \"a\"; } init(n) { this.n = n; } } class B < A {} \
                  var b = B(7); print b.a(); print b.n;";
    assert_eq!(prints(source), vec!["a", "7"]);
    let source = "class A { m() { return \"A\"; } } class B < A { m() { return \"B\"; } t() { return super.m(); } } \
                  class C < B {} print C().t();";
    assert_eq!(prints(source), vec!["A"]);
}

#[test]
fn fields_shadow_methods() {
    let source = "class A { m() { return \"method\"; } } var a = A(); print a.m(); \
                  fun f() { return \"field\"; } a.m = f; print a.m();";
    assert_eq!(prints(source), vec!["method", "field"]);
}

#[test]
fn instances_are_shared_by_reference() {
    let source = "class A {} var a = A(); var b = a; b.x = 1; print a.x; print a == b; print A() == a;";
    assert_eq!(prints(source), vec!["1", "true", "false"]);
}

#[test]
fn bound_methods_remember_their_instance() {
    let source = "class A { get() { return this.v; } } var a = A(); a.v = 1; var m = a.get; \
                  var b = A(); b.v = 2; b.other = m; print b.other(); print m();";
    assert_eq!(prints(source), vec!["1", "1"]);
}

#[test]
fn field_write_of_its_own_value_changes_nothing() {
    let source = "class A {} var a = A(); a.x = 5; a.x = a.x; a.x = a.x; print a.x;";
    assert_eq!(prints(source), vec!["5"]);
}

#[test]
fn printing_values() {
    assert_eq!(prints("print nil; print true; print false; print \"s\"; print 12; print 1.5;"), vec![
        "nil", "true", "false", "s", "12", "1.5"
    ]);
    assert_eq!(prints("fun f() {} print f; print clock;"), vec!["<fun f>", "<native fun>"]);
    assert_eq!(prints("print clock();"), vec!["1234.5"]);
}

#[test]
fn arity_is_checked_before_the_body_runs() {
    let r = run("fun f() { print \"ran\"; } f(1);");
    assert!(r.printed.is_empty());
    assert!(matches!(r.runtime_error, Some(RuntimeError::InvalidArity(_, 0, 1))));
    let r = run("var n = 0; fun g() { n = 1; return 1; } fun f(a, b) {} f(g()); ");
    assert!(matches!(r.runtime_error, Some(RuntimeError::InvalidArity(_, 2, 1))));
    let r = run("class A { init(a) {} } A();");
    assert!(matches!(r.runtime_error, Some(RuntimeError::InvalidArity(_, 1, 0))));
    let r = run("class A {} A(1);");
    assert!(matches!(r.runtime_error, Some(RuntimeError::InvalidArity(_, 0, 1))));
}

#[test]
fn runtime_errors() {
    let r = run("print a;");
    assert!(matches!(r.runtime_error, Some(RuntimeError::UndefinedVariable(_))));
    let r = run("a = 1;");
    assert!(matches!(r.runtime_error, Some(RuntimeError::UndefinedVariable(_))));
    let r = run("\"s\"();");
    assert!(matches!(r.runtime_error, Some(RuntimeError::NotACallable(_))));
    let r = run("var a = 1; print a.x;");
    assert!(matches!(r.runtime_error, Some(RuntimeError::InvalidPropertyAccess(_, _))));
    let r = run("var a = 1; a.x = 2;");
    assert!(matches!(r.runtime_error, Some(RuntimeError::InvalidPropertyAccess(_, _))));
    let r = run("class A {} print A().x;");
    assert!(matches!(r.runtime_error, Some(RuntimeError::UndefinedProperty(_))));
    let r = run("var A = 1; class B < A {}");
    assert!(matches!(r.runtime_error, Some(RuntimeError::NotAClassBase(_))));
    let r = run("print 1; print x; print 2;");
    assert_eq!(r.printed, vec!["1"]);
}

#[test]
fn invalid_operands_give_nil_and_a_report() {
    let r = run("print 1 - \"a\"; print -\"a\"; print nil + 1; print true < false; print \"after\";");
    assert_eq!(r.printed, vec!["nil", "nil", "nil", "nil", "after"]);
    assert_eq!(r.reported.len(), 4);
    assert!(r.runtime_error.is_none());
    assert!(matches!(r.reported[0], RuntimeError::ParseError { .. }));
}

#[test]
fn resolver_errors() {
    let r = run("{ var a = a; }");
    assert!(matches!(r.resolve_error, Some(RuntimeError::InvalidAssignmentTarget(_, _))));
    assert!(r.printed.is_empty());
    let r = run("{ var a = 1; var a = 2; }");
    assert!(matches!(r.resolve_error, Some(RuntimeError::DuplicateDeclaration(_, _))));
    let r = run("fun f(a, a) {}");
    assert!(matches!(r.resolve_error, Some(RuntimeError::DuplicateDeclaration(_, _))));
    let r = run("return 1;");
    assert!(matches!(r.resolve_error, Some(RuntimeError::TopLevelReturn(_, _))));
    let r = run("class A { init() { return 1; } }");
    assert!(matches!(r.resolve_error, Some(RuntimeError::ValueReturnFromInitializer(_, _))));
    let r = run("print this;");
    assert!(matches!(r.resolve_error, Some(RuntimeError::NonClassThis(_, _))));
    let r = run("fun f() { return this; }");
    assert!(matches!(r.resolve_error, Some(RuntimeError::NonClassThis(_, _))));
    let r = run("print super.x;");
    assert!(matches!(r.resolve_error, Some(RuntimeError::InvalidSuper(_, _))));
    let r = run("class A { m() { return super.m(); } }");
    assert!(matches!(r.resolve_error, Some(RuntimeError::InvalidSuper(_, _))));
    let r = run("class A < A {}");
    assert!(matches!(r.resolve_error, Some(RuntimeError::RecursiveClass(_))));
    let r = run("print 1; { var a = a; }");
    assert!(r.printed.is_empty());
}

#[test]
fn globals_may_be_redeclared_and_read_in_their_initializer() {
    assert_eq!(prints("var a = 1; var a = a + 1; print a;"), vec!["2"]);
}

#[test]
fn parse_errors_are_recovered_from() {
    let r = run("print 1; var = 3; print 2; print (; print 3;");
    assert_eq!(r.parse_errors.len(), 2);
    assert!(matches!(r.parse_errors[0], RuntimeError::ParseError { expected: TokenType::Identifier, .. }));
    assert!(matches!(r.parse_errors[1], RuntimeError::ExpectedExpression(_)));
    assert_eq!(r.printed, vec!["1", "2", "3"]);
    assert_eq!(r.reported.len(), 2);
    let r = run("1 = 2; print \"next\";");
    assert!(matches!(r.parse_errors[0], RuntimeError::InvalidAssignmentTarget(_, _)));
    assert_eq!(r.printed, vec!["next"]);
    let r = run("print 1");
    assert!(matches!(r.parse_errors[0], RuntimeError::ParseError { expected: TokenType::Semicolon, .. }));
    let r = run("{ print 1; ");
    assert!(matches!(r.parse_errors[0], RuntimeError::ParseError { expected: TokenType::RightBrace, .. }));
}

#[test]
fn too_many_arguments_is_a_parse_error() {
    let args = vec!["1"; 255].join(", ");
    let source = format!("fun f() {{}} f({});", args);
    let r = run(&source);
    assert!(r.parse_errors.is_empty());
    assert!(matches!(r.runtime_error, Some(RuntimeError::InvalidArity(_, 0, 255))));
    let args = vec!["1"; 256].join(", ");
    let source = format!("f({}); print \"next\";", args);
    let r = run(&source);
    assert!(matches!(r.parse_errors[0], RuntimeError::TooManyArguments(_)));
    assert_eq!(r.printed, vec!["next"]);
    let params: Vec<String> = (0..256).map(|i| format!("p{}", i)).collect();
    let source = format!("fun f({}) {{}}", params.join(", "));
    let r = run(&source);
    assert!(matches!(r.parse_errors[0], RuntimeError::TooManyArguments(_)));
}

#[test]
fn scan_errors_do_not_stop_scanning() {
    let r = run("print 1; @ print 2; # print \"x");
    assert_eq!(r.scan_errors, 3);
    assert_eq!(r.printed, vec!["1", "2"]);
}

#[test]
fn comments_and_whitespace() {
    assert_eq!(prints("// nothing\nprint 1; // one\n\tprint 2;\r\n// end"), vec!["1", "2"]);
    assert_eq!(prints("print \"a\nb\";"), vec!["a\nb"]);
    assert_eq!(prints("print \"héllo → wörld\";"), vec!["héllo → wörld"]);
}

#[test]
fn session_keeps_globals_between_inputs() {
    let mut run = Run {
        printed: vec![],
        reported: vec![],
        scan_errors: 0,
        parse_errors: vec![],
        resolve_error: None,
        runtime_error: None,
        steps: 0,
    };
    let mut buffer = String::new();
    let first = "var a = 1; fun f() { return a; }";
    let offset = lochx::source::append_source(&mut buffer, first);
    assert_eq!(offset, 0);
    let mut interner = Interner::new();
    let tokens = scan(first, offset, &mut interner, &mut run);
    let mut parser = Parser::new(tokens);
    let program = from_vec(parser.parse());
    let mut interpreter = Interpreter::new(interner);
    let mut resolver = Resolver::new();
    assert!(resolver.resolve(&mut interpreter.locals, &program).is_ok());
    interpreter.interpret(program);
    drive(&mut interpreter, &mut run);
    assert!(run.runtime_error.is_none());

    let second = "a = a + 1; print f(); print b;";
    let offset = lochx::source::append_source(&mut buffer, second);
    assert_eq!(offset, first.len() + 1);
    assert_eq!(buffer, format!("{}\n{}", first, second));
    let tokens = scan(second, offset, &mut interpreter.interner, &mut run);
    assert_eq!(tokens[0].position.start, offset);
    let mut parser = Parser::new(tokens);
    let program = from_vec(parser.parse());
    let mut resolver = Resolver::new();
    assert!(resolver.resolve(&mut interpreter.locals, &program).is_ok());
    interpreter.interpret(program);
    drive(&mut interpreter, &mut run);
    assert_eq!(run.printed, vec!["2"]);
    assert!(matches!(run.runtime_error, Some(RuntimeError::UndefinedVariable(_))));

    let third = "print a;";
    let offset = lochx::source::append_source(&mut buffer, third);
    let tokens = scan(third, offset, &mut interpreter.interner, &mut run);
    let mut parser = Parser::new(tokens);
    let program = from_vec(parser.parse());
    let mut resolver = Resolver::new();
    assert!(resolver.resolve(&mut interpreter.locals, &program).is_ok());
    interpreter.interpret(program);
    drive(&mut interpreter, &mut run);
    assert_eq!(run.printed, vec!["2", "2"]);
    assert!(run.runtime_error.is_none());
}

#[test]
fn return_outside_a_call_ends_the_program_with_its_value() {
    let r = run_unresolved("print 1; return 2; print 3;");
    assert_eq!(r.printed, vec!["1"]);
    match r.runtime_error {
        Some(RuntimeError::ReturnValue(lochx::literal::LiteralValue::Num(bits))) => {
            assert_eq!(f64::from_bits(bits), 2.0)
        }
        other => panic!("{:?}", other),
    }
}

#[test]
fn unresolved_super_is_a_defect() {
    let r = run_unresolved("class A {} class B < A { m() { return super.m; } } B().m();");
    assert!(matches!(r.runtime_error, Some(RuntimeError::GenericError)));
}

#[test]
fn unresolved_locals_are_looked_up_as_globals() {
    let r = run_unresolved("var a = 1; { var a = 2; print a; }");
    assert_eq!(r.printed, vec!["1"]);
    let r = run_unresolved("{ var a = 2; print a; }");
    assert!(matches!(r.runtime_error, Some(RuntimeError::UndefinedVariable(_))));
}

#[test]
fn host_can_abandon_a_program() {
    let mut run = Run {
        printed: vec![],
        reported: vec![],
        scan_errors: 0,
        parse_errors: vec![],
        resolve_error: None,
        runtime_error: None,
        steps: 0,
    };
    let source = "{ var t = clock(); print t; }";
    let mut interner = Interner::new();
    let tokens = scan(source, 0, &mut interner, &mut run);
    let mut parser = Parser::new(tokens);
    let program = from_vec(parser.parse());
    let mut interpreter = Interpreter::new(interner);
    let mut resolver = Resolver::new();
    assert!(resolver.resolve(&mut interpreter.locals, &program).is_ok());
    interpreter.interpret(program);
    let mut asked = false;
    for _ in 0..100 {
        if let Action::Clock = interpreter.step(Event::Resume) {
            asked = true;
            break;
        }
    }
    assert!(asked);
    assert_ne!(interpreter.current_env, interpreter.globals);
    let action = interpreter.abandon(RuntimeError::ClockBackwards);
    assert!(matches!(action, Action::Finished(Some(RuntimeError::ClockBackwards))));
    assert!(interpreter.tasks.is_empty());
    assert!(interpreter.values.is_empty());
    assert_eq!(interpreter.current_env, interpreter.globals);
    assert!(matches!(interpreter.step(Event::Resume), Action::Finished(None)));
}

#[test]
fn finished_machine_stays_finished() {
    let mut interpreter = Interpreter::new(Interner::new());
    assert!(matches!(interpreter.step(Event::Resume), Action::Finished(None)));
    assert!(matches!(interpreter.step(Event::Number(1)), Action::Finished(None)));
    assert!(interpreter.values.is_empty());
}

#[test]
fn resolve_records_a_distance() {
    let mut interpreter = Interpreter::new(Interner::new());
    let t = Token::new(
        TokenType::Identifier,
        lochx::token::SourcePosition { line: 1, start: 3, end: 4 },
        30,
        None,
    );
    assert_eq!(interpreter.locals.distance(&t), None);
    interpreter.resolve(&t, 2);
    assert_eq!(interpreter.locals.distance(&t), Some(2));
}

#[test]
fn steps_of_a_small_program() {
    let mut run = Run {
        printed: vec![],
        reported: vec![],
        scan_errors: 0,
        parse_errors: vec![],
        resolve_error: None,
        runtime_error: None,
        steps: 0,
    };
    let mut interner = Interner::new();
    let tokens = scan("print 1 + 2;", 0, &mut interner, &mut run);
    let mut parser = Parser::new(tokens);
    let program = from_vec(parser.parse());
    let mut interpreter = Interpreter::new(interner);
    interpreter.interpret(program);
    let one = 1f64.to_bits();
    let two = 2f64.to_bits();
    let three = 3f64.to_bits();
    // The block, then the statement: print, after its expression.
    assert!(matches!(interpreter.step(Event::Resume), Action::Continue));
    // The sum: its operator, after its operands.
    assert!(matches!(interpreter.step(Event::Resume), Action::Continue));
    assert!(matches!(interpreter.step(Event::Resume), Action::Continue));
    assert_eq!(interpreter.values, vec![lochx::literal::LiteralValue::Num(one)]);
    assert!(matches!(interpreter.step(Event::Resume), Action::Continue));
    match interpreter.step(Event::Resume) {
        Action::Binary(TokenType::Plus, a, b) => assert_eq!((a, b), (one, two)),
        other => panic!("{:?}", other),
    }
    assert!(interpreter.values.is_empty());
    match interpreter.step(Event::Number(three)) {
        Action::Stringify(n) => assert_eq!(n, three),
        other => panic!("{:?}", other),
    }
    match interpreter.step(Event::Text("3".to_string())) {
        Action::Print(symbol) => assert_eq!(interpreter.interner.text(symbol), "3"),
        other => panic!("{:?}", other),
    }
    assert!(matches!(interpreter.step(Event::Resume), Action::Continue));
    assert!(matches!(interpreter.step(Event::Resume), Action::Finished(None)));
}
