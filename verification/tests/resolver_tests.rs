use lochx::error::RuntimeError;
use lochx::interner::Interner;
use lochx::list::from_vec;
use lochx::locals::Locals;
use lochx::parser::Parser;
use lochx::resolver::Resolver;
use lochx::scanner::Scanner;
use lochx::token::{Token, TokenType};

/// The distance recorded for each identifier, `this` and `super` token of
/// the source, in the order of the tokens; `None` for what is global or
/// no reference.
fn distances(source: &str) -> Result<Vec<(String, Option<usize>)>, RuntimeError> {
    let mut interner = Interner::new();
    let mut scanner = Scanner::new(source, 0);
    let tokens: Vec<Token> = scanner
        .scan_tokens(&mut interner)
        .into_iter()
        .map(|t| if t.token_type == TokenType::Number { t.with_number(0) } else { t })
        .collect();
    let mut parser = Parser::new(tokens.clone());
    let statements = parser.parse();
    assert!(parser.errors.is_empty());
    let program = from_vec(statements);
    let mut locals = Locals::new();
    let mut resolver = Resolver::new();
    resolver.resolve(&mut locals, &program)?;
    assert!(resolver.scopes.is_empty());
    Ok(tokens
        .iter()
        .filter(|t| {
            matches!(t.token_type, TokenType::Identifier | TokenType::KwThis | TokenType::KwSuper)
        })
        .map(|t| (t.lexeme(source).unwrap().to_string(), locals.distance(t)))
        .collect())
}

fn d(name: &str, distance: Option<usize>) -> (String, Option<usize>) {
    (name.to_string(), distance)
}

#[test]
fn globals_have_no_distance() {
    assert_eq!(
        distances("var a = 1; print a; a = 2;").unwrap(),
        vec![d("a", None), d("a", None), d("a", None)]
    );
}

#[test]
fn distance_counts_the_scopes_between() {
    assert_eq!(
        distances("{ var a; a; { a; { a = 1; } } }").unwrap(),
        vec![d("a", None), d("a", Some(0)), d("a", Some(1)), d("a", Some(2))]
    );
}

#[test]
fn the_nearest_declaration_wins() {
    assert_eq!(
        distances("{ var a; { var a; a; } a; }").unwrap(),
        vec![d("a", None), d("a", None), d("a", Some(0)), d("a", Some(0))]
    );
    assert_eq!(
        distances("{ var a; { { var b; a; b; } } }").unwrap(),
        vec![d("a", None), d("b", None), d("a", Some(2)), d("b", Some(0))]
    );
}

#[test]
fn a_reference_before_the_inner_declaration_sees_the_outer_one() {
    assert_eq!(
        distances("{ var a; { a; var a; a; } }").unwrap(),
        vec![d("a", None), d("a", Some(1)), d("a", None), d("a", Some(0))]
    );
}

#[test]
fn parameters_and_body_share_one_scope() {
    assert_eq!(
        distances("fun f(x) { x; var y; { x; y; } }").unwrap(),
        vec![
            d("f", None),
            d("x", None),
            d("x", Some(0)),
            d("y", None),
            d("x", Some(1)),
            d("y", Some(1))
        ]
    );
}

#[test]
fn a_local_function_may_call_itself() {
    assert_eq!(
        distances("{ fun f() { f(); } }").unwrap(),
        vec![d("f", None), d("f", Some(1))]
    );
}

#[test]
fn this_is_one_scope_outside_the_method() {
    assert_eq!(
        distances("class A { m() { this; { this; } } }").unwrap(),
        vec![d("A", None), d("m", None), d("this", Some(1)), d("this", Some(2))]
    );
}

#[test]
fn super_is_one_scope_outside_this() {
    assert_eq!(
        distances("class A {} class B < A { m() { super.m; this; } }").unwrap(),
        vec![
            d("A", None),
            d("B", None),
            d("A", None),
            d("m", None),
            d("super", Some(2)),
            d("m", None),
            d("this", Some(1))
        ]
    );
}

#[test]
fn superclass_is_looked_up_where_the_class_is_declared() {
    assert_eq!(
        distances("{ class A {} { class B < A {} } }").unwrap(),
        vec![d("A", None), d("B", None), d("A", Some(1))]
    );
}

#[test]
fn reading_a_local_in_its_own_initializer_is_refused() {
    match distances("{ var a = a; }") {
        Err(RuntimeError::InvalidAssignmentTarget(t, note)) => {
            assert_eq!(t.position.start, 10);
            assert_eq!(note, "Can't read local variable in its own initializer");
        }
        other => panic!("{:?}", other),
    }
    assert!(matches!(
        distances("var a = 1; { var a = a + 1; }"),
        Err(RuntimeError::InvalidAssignmentTarget(_, _))
    ));
    assert!(matches!(
        distances("{ var a = (1 + a); }"),
        Err(RuntimeError::InvalidAssignmentTarget(_, _))
    ));
    assert!(distances("{ var a = 1; { var b = a; } }").is_ok());
    assert!(distances("{ var a; { fun f() { var a = a; } } }").is_err());
    assert!(distances("{ var a = 1; { fun a() { a; } } }").is_ok());
}

#[test]
fn redeclaration_in_one_scope_is_refused() {
    match distances("{ var a; var a; }") {
        Err(RuntimeError::DuplicateDeclaration(t, _)) => assert_eq!(t.position.start, 13),
        other => panic!("{:?}", other),
    }
    assert!(matches!(distances("{ fun f() {} var f; }"), Err(RuntimeError::DuplicateDeclaration(_, _))));
    assert!(matches!(distances("{ class A {} class A {} }"), Err(RuntimeError::DuplicateDeclaration(_, _))));
    assert!(matches!(distances("fun f(a) { var a; }"), Err(RuntimeError::DuplicateDeclaration(_, _))));
    assert!(distances("{ var a; { var a; } }").is_ok());
    assert!(distances("var a; var a;").is_ok());
}

#[test]
fn return_is_refused_outside_functions() {
    assert!(matches!(distances("return;"), Err(RuntimeError::TopLevelReturn(_, _))));
    assert!(matches!(distances("{ return 1; }"), Err(RuntimeError::TopLevelReturn(_, _))));
    assert!(matches!(distances("class A {} return;"), Err(RuntimeError::TopLevelReturn(_, _))));
    assert!(distances("fun f() { return 1; }").is_ok());
    assert!(distances("fun f() { { while (true) return; } }").is_ok());
    assert!(matches!(
        distances("fun f() {} return;"),
        Err(RuntimeError::TopLevelReturn(_, _))
    ));
}

#[test]
fn initializer_returns_no_value() {
    assert!(matches!(
        distances("class A { init() { return 1; } }"),
        Err(RuntimeError::ValueReturnFromInitializer(_, _))
    ));
    assert!(distances("class A { init() { return; } }").is_ok());
    assert!(distances("class A { other() { return 1; } }").is_ok());
    assert!(distances("class A { init() { fun g() { return 1; } } }").is_ok());
}

#[test]
fn this_and_super_need_their_classes() {
    assert!(matches!(distances("this;"), Err(RuntimeError::NonClassThis(_, _))));
    assert!(matches!(distances("fun f() { this; }"), Err(RuntimeError::NonClassThis(_, _))));
    assert!(distances("class A { m() { fun g() { this; } } }").is_ok());
    assert!(matches!(
        distances("class A { m() {} } this;"),
        Err(RuntimeError::NonClassThis(_, _))
    ));
    match distances("super.m;") {
        Err(RuntimeError::InvalidSuper(_, note)) => {
            assert_eq!(note, "Can't use `super` outside of a class.")
        }
        other => panic!("{:?}", other),
    }
    match distances("class A { m() { super.m; } }") {
        Err(RuntimeError::InvalidSuper(_, note)) => {
            assert_eq!(note, "Can't use `super` without a superclass.")
        }
        other => panic!("{:?}", other),
    }
    assert!(matches!(
        distances("class A {} class B < A {} class C { m() { super.m; } }"),
        Err(RuntimeError::InvalidSuper(_, _))
    ));
}

#[test]
fn a_class_is_not_its_own_superclass() {
    match distances("class A < A {}") {
        Err(RuntimeError::RecursiveClass(t)) => assert_eq!(t.position.start, 10),
        other => panic!("{:?}", other),
    }
    assert!(distances("class A {} class B < A {}").is_ok());
}

#[test]
fn resolution_stops_at_the_first_error() {
    let source = "{ var a; a; } return; { var b; b; }";
    let mut interner = Interner::new();
    let mut scanner = Scanner::new(source, 0);
    let tokens = scanner.scan_tokens(&mut interner);
    let mut parser = Parser::new(tokens.clone());
    let program = from_vec(parser.parse());
    let mut locals = Locals::new();
    let mut resolver = Resolver::new();
    assert!(resolver.resolve(&mut locals, &program).is_err());
    let a = tokens[4];
    let b = tokens[13];
    assert_eq!(a.lexeme(source), Some("a"));
    assert_eq!(b.lexeme(source), Some("b"));
    assert_eq!(locals.distance(&a), Some(0));
    assert_eq!(locals.distance(&b), None);
}
