use lochx::callable::Function;
use lochx::error::RuntimeError;
use lochx::expr::Expr;
use lochx::interner::Interner;
use lochx::list::List;
use lochx::literal::LiteralValue;
use lochx::parser::Parser;
use lochx::scanner::Scanner;
use lochx::stmt::Stmt;
use lochx::token::{Token, TokenType};
use std::rc::Rc;

struct Printer {
    interner: Interner,
    source: String,
}

impl Printer {
    fn name(&self, t: &Token) -> String {
        t.lexeme(&self.source).unwrap().to_string()
    }

    fn exprs(&self, list: &List<Rc<Expr>>) -> String {
        match list {
            List::Nil => String::new(),
            List::Cons(first, rest) => format!(" {}{}", self.expr(first), self.exprs(rest)),
        }
    }

    fn expr(&self, e: &Expr) -> String {
        match e {
            Expr::Assign(a) => format!("(= {} {})", self.name(&a.name), self.expr(&a.value)),
            Expr::Binary(b) => format!(
                "({} {} {})",
                self.name(&b.op),
                self.expr(&b.left),
                self.expr(&b.right)
            ),
            Expr::Logical(b) => format!(
                "[{} {} {}]",
                self.name(&b.op),
                self.expr(&b.left),
                self.expr(&b.right)
            ),
            Expr::Unary(u) => format!("({} {})", self.name(&u.op), self.expr(&u.right)),
            Expr::Grouping(g) => format!("(group {})", self.expr(&g.expr)),
            Expr::Literal(l) => match l.value {
                LiteralValue::Str(s) => format!("{:?}", self.interner.text(s)),
                LiteralValue::Num(bits) => format!("{}", f64::from_bits(bits)),
                LiteralValue::Nil => "nil".to_string(),
                LiteralValue::Bool(b) => format!("{}", b),
                _ => "?".to_string(),
            },
            Expr::Variable(v) => self.name(&v.name),
            Expr::Call(c) => format!("(call {}{})", self.expr(&c.callee), self.exprs(&c.arguments)),
            Expr::Get(g) => format!("(. {} {})", self.expr(&g.object), self.name(&g.name)),
            Expr::Put(p) => format!(
                "(.= {} {} {})",
                self.expr(&p.object),
                self.name(&p.name),
                self.expr(&p.value)
            ),
            Expr::This(_) => "this".to_string(),
            Expr::Super(s) => format!("(super {})", self.name(&s.method)),
        }
    }

    fn stmts(&self, list: &List<Stmt>) -> String {
        match list {
            List::Nil => String::new(),
            List::Cons(first, rest) => format!(" {}{}", self.stmt(first), self.stmts(rest)),
        }
    }

    fn params(&self, list: &List<Token>) -> String {
        match list {
            List::Nil => String::new(),
            List::Cons(first, rest) => format!(" {}{}", self.name(first), self.params(rest)),
        }
    }

    fn function(&self, f: &Function) -> String {
        format!(
            "(fun {} ({}){})",
            self.name(&f.name),
            self.params(&f.parameters).trim_start(),
            self.stmts(&f.body)
        )
    }

    fn methods(&self, list: &List<Rc<Function>>) -> String {
        match list {
            List::Nil => String::new(),
            List::Cons(first, rest) => format!(" {}{}", self.function(first), self.methods(rest)),
        }
    }

    fn stmt(&self, s: &Stmt) -> String {
        match s {
            Stmt::ParseError { token } => format!("(error-at {})", token.position.start),
            Stmt::Print(e) => format!("(print {})", self.expr(e)),
            Stmt::Return(r) => match &r.value {
                Some(e) => format!("(return {})", self.expr(e)),
                None => "(return)".to_string(),
            },
            Stmt::Expression(e) => format!("(; {})", self.expr(e)),
            Stmt::VarDecl(d) => format!("(var {} {})", self.name(&d.name), self.expr(&d.initializer)),
            Stmt::If(i) => match &i.else_branch {
                Some(e) => format!(
                    "(if {} {} {})",
                    self.expr(&i.condition),
                    self.stmt(&i.then_branch),
                    self.stmt(e)
                ),
                None => format!("(if {} {})", self.expr(&i.condition), self.stmt(&i.then_branch)),
            },
            Stmt::While(w) => format!("(while {} {})", self.expr(&w.condition), self.stmt(&w.body)),
            Stmt::Block(list) => format!("(block{})", self.stmts(list)),
            Stmt::FunctionDecl(f) => self.function(f),
            Stmt::Class(c) => match &c.superclass {
                Some(e) => format!(
                    "(class {} < {}{})",
                    self.name(&c.name),
                    self.expr(e),
                    self.methods(&c.methods)
                ),
                None => format!("(class {}{})", self.name(&c.name), self.methods(&c.methods)),
            },
        }
    }
}

fn parse(source: &str) -> (Vec<String>, Vec<RuntimeError>) {
    let mut interner = Interner::new();
    let mut scanner = Scanner::new(source, 0);
    let tokens: Vec<Token> = scanner
        .scan_tokens(&mut interner)
        .into_iter()
        .map(|t| {
            if t.token_type == TokenType::Number {
                let value: f64 = interner.text(t.symbol).parse().unwrap();
                t.with_number(value.to_bits())
            } else {
                t
            }
        })
        .collect();
    let mut parser = Parser::new(tokens);
    let statements = parser.parse();
    let printer = Printer { interner, source: source.to_string() };
    (statements.iter().map(|s| printer.stmt(s)).collect(), parser.errors)
}

fn shape(source: &str) -> Vec<String> {
    let (printed, errors) = parse(source);
    assert!(errors.is_empty(), "{:?}", errors);
    printed
}

#[test]
fn factors_bind_tighter_than_terms() {
    assert_eq!(shape("1 + 2 * 3;"), vec!["(; (+ 1 (* 2 3)))"]);
    assert_eq!(shape("1 * 2 + 3;"), vec!["(; (+ (* 1 2) 3))"]);
    assert_eq!(shape("1 / 2 - 3 * 4;"), vec!["(; (- (/ 1 2) (* 3 4)))"]);
}

#[test]
fn binary_operators_associate_to_the_left() {
    assert_eq!(shape("1 - 2 - 3;"), vec!["(; (- (- 1 2) 3))"]);
    assert_eq!(shape("8 / 4 / 2;"), vec!["(; (/ (/ 8 4) 2))"]);
    assert_eq!(shape("1 < 2 < 3;"), vec!["(; (< (< 1 2) 3))"]);
    assert_eq!(shape("a == b != c;"), vec!["(; (!= (== a b) c))"]);
}

#[test]
fn levels_of_precedence() {
    assert_eq!(shape("1 < 2 == 3 > 4;"), vec!["(; (== (< 1 2) (> 3 4)))"]);
    assert_eq!(shape("1 + 2 <= 3 - 4;"), vec!["(; (<= (+ 1 2) (- 3 4)))"]);
    assert_eq!(shape("a or b and c;"), vec!["(; [or a [and b c]])"]);
    assert_eq!(shape("a and b or c and d;"), vec!["(; [or [and a b] [and c d]])"]);
    assert_eq!(shape("a == b and c != d;"), vec!["(; [and (== a b) (!= c d)])"]);
    assert_eq!(shape("-a * b;"), vec!["(; (* (- a) b))"]);
    assert_eq!(shape("!-!a;"), vec!["(; (! (- (! a))))"]);
    assert_eq!(shape("-a.b;"), vec!["(; (- (. a b)))"]);
    assert_eq!(shape("-f(1);"), vec!["(; (- (call f 1)))"]);
}

#[test]
fn grouping_overrides_precedence() {
    assert_eq!(shape("(1 + 2) * 3;"), vec!["(; (* (group (+ 1 2)) 3))"]);
    assert_eq!(shape("((a));"), vec!["(; (group (group a)))"]);
}

#[test]
fn assignment_associates_to_the_right() {
    assert_eq!(shape("a = b = c;"), vec!["(; (= a (= b c)))"]);
    assert_eq!(shape("a = b or c;"), vec!["(; (= a [or b c]))"]);
    assert_eq!(shape("a.b = c;"), vec!["(; (.= a b c))"]);
    assert_eq!(shape("a.b.c = d = e;"), vec!["(; (.= (. a b) c (= d e)))"]);
    assert_eq!(shape("f().x = 1;"), vec!["(; (.= (call f) x 1))"]);
}

#[test]
fn invalid_assignment_targets() {
    for source in ["1 = 2;", "a + b = c;", "(a) = 1;", "f() = 1;", "!a = 1;", "this = 1;"] {
        let (printed, errors) = parse(source);
        assert_eq!(errors.len(), 1, "{}", source);
        match errors[0] {
            RuntimeError::InvalidAssignmentTarget(t, _) => assert_eq!(t.token_type, TokenType::Equal),
            _ => panic!("{}: {:?}", source, errors[0]),
        }
        assert_eq!(printed.len(), 1);
    }
}

#[test]
fn calls_and_properties_chain_to_the_left() {
    assert_eq!(shape("a.b(c).d;"), vec!["(; (. (call (. a b) c) d))"]);
    assert_eq!(shape("f(1)(2, 3)();"), vec!["(; (call (call (call f 1) 2 3)))"]);
    assert_eq!(shape("f(a = 1, g(b));"), vec!["(; (call f (= a 1) (call g b)))"]);
}

#[test]
fn primaries() {
    assert_eq!(
        shape("nil; true; false; 1.5; \"s\"; x; this; super.m;"),
        vec!["(; nil)", "(; true)", "(; false)", "(; 1.5)", "(; \"s\")", "(; x)", "(; this)", "(; (super m))"]
    );
}

#[test]
fn super_needs_a_method_name() {
    let (_, errors) = parse("super;");
    assert!(matches!(errors[0], RuntimeError::ParseError { expected: TokenType::Dot, .. }));
    let (_, errors) = parse("super.;");
    assert!(matches!(errors[0], RuntimeError::ParseError { expected: TokenType::Identifier, .. }));
}

#[test]
fn number_without_its_value_is_no_expression() {
    let mut interner = Interner::new();
    let mut scanner = Scanner::new("1;", 0);
    let tokens = scanner.scan_tokens(&mut interner);
    let mut parser = Parser::new(tokens);
    let statements = parser.parse();
    assert_eq!(statements.len(), 1);
    assert!(matches!(statements[0], Stmt::ParseError { .. }));
    assert!(matches!(parser.errors[0], RuntimeError::ExpectedExpression(_)));
}

#[test]
fn declarations() {
    assert_eq!(shape("var a;"), vec!["(var a nil)"]);
    assert_eq!(shape("var a = 1 + 2;"), vec!["(var a (+ 1 2))"]);
    assert_eq!(shape("fun f() {}"), vec!["(fun f ())"]);
    assert_eq!(
        shape("fun f(a, b) { print a; return b; }"),
        vec!["(fun f (a b) (print a) (return b))"]
    );
    assert_eq!(shape("fun f() { return; }"), vec!["(fun f () (return))"]);
    assert_eq!(shape("class A {}"), vec!["(class A)"]);
    assert_eq!(
        shape("class A < B { init(x) { this.x = x; } get() { return this.x; } }"),
        vec!["(class A < B (fun init (x) (; (.= this x x))) (fun get () (return (. this x))))"]
    );
}

#[test]
fn statements() {
    assert_eq!(shape("print 1;"), vec!["(print 1)"]);
    assert_eq!(shape("{ } { 1; { 2; } }"), vec!["(block)", "(block (; 1) (block (; 2)))"]);
    assert_eq!(shape("if (a) b; else c;"), vec!["(if a (; b) (; c))"]);
    assert_eq!(shape("if (a) b;"), vec!["(if a (; b))"]);
    assert_eq!(shape("while (a) { b; }"), vec!["(while a (block (; b)))"]);
}

#[test]
fn else_belongs_to_the_nearest_if() {
    assert_eq!(shape("if (a) if (b) c; else d;"), vec!["(if a (if b (; c) (; d)))"]);
}

#[test]
fn for_is_written_as_while() {
    assert_eq!(
        shape("for (var i = 0; i < 3; i = i + 1) print i;"),
        vec!["(block (var i 0) (while (< i 3) (block (print i) (; (= i (+ i 1))))))"]
    );
    assert_eq!(shape("for (;;) print 1;"), vec!["(while true (print 1))"]);
    assert_eq!(shape("for (i = 0;;) print 1;"), vec!["(block (; (= i 0)) (while true (print 1)))"]);
    assert_eq!(shape("for (; a;) print 1;"), vec!["(while a (print 1))"]);
    assert_eq!(shape("for (;; b) print 1;"), vec!["(while true (block (print 1) (; b)))"]);
    assert_eq!(
        shape("for (;;) { 1; }"),
        vec!["(while true (block (; 1)))"]
    );
}

#[test]
fn errors_name_what_was_expected() {
    let cases: Vec<(&str, TokenType, &str)> = vec![
        ("print 1", TokenType::Semicolon, "Expected ';' after expression."),
        ("1", TokenType::Semicolon, "Expected ';' after expression."),
        ("var 1;", TokenType::Identifier, "Expected variable name."),
        ("var a = 1", TokenType::Semicolon, "Expected ';' after variable declaration."),
        ("(1;", TokenType::RightParen, "Expected ')' after expression."),
        ("f(1;", TokenType::RightParen, "Expected ')' after arguments."),
        ("a.1;", TokenType::Identifier, "Expect property name after '.'"),
        ("if a) b;", TokenType::LeftParen, "Expected '(' after 'if'."),
        ("if (a b;", TokenType::RightParen, "Expected ')' after 'if' condition."),
        ("while a) b;", TokenType::LeftParen, "Expected '(' after 'while'."),
        ("while (a b;", TokenType::RightParen, "Expected ')' after 'while' condition."),
        ("for a;;) b;", TokenType::LeftParen, "Expected '(' after 'for'."),
        ("for (; a b;", TokenType::Semicolon, "Expected ';' after for loop condition."),
        ("for (;; a b;", TokenType::RightParen, "Expected ')' after for clauses."),
        ("return 1", TokenType::Semicolon, "Expected ';' after return value."),
        ("{ 1;", TokenType::RightBrace, "Expected '}' after block."),
        ("fun (", TokenType::Identifier, "Expected function name."),
        ("fun f {", TokenType::LeftParen, "Expected '(' after function name."),
        ("fun f(a {", TokenType::RightParen, "Expected ')' after function parameters."),
        ("fun f(1) {", TokenType::Identifier, "Expected parameter name."),
        ("fun f() 1", TokenType::LeftBrace, "Expected '{' before function body."),
        ("class 1", TokenType::Identifier, "Expect class name."),
        ("class A < 1", TokenType::Identifier, "Expect superclass name."),
        ("class A 1", TokenType::LeftBrace, "Expect '{' before class body."),
        ("class A { 1 }", TokenType::Identifier, "Expected method name."),
        ("class A { f }", TokenType::LeftParen, "Expected '(' after method name."),
        ("class A { f(a }", TokenType::RightParen, "Expected ')' after method parameters."),
        ("class A { f() }", TokenType::LeftBrace, "Expected '{' before method body."),
        ("class A { f() {}", TokenType::RightBrace, "Expect '}' after class body."),
    ];
    for (source, expected_type, expected_message) in cases {
        let (_, errors) = parse(source);
        assert!(!errors.is_empty(), "{}", source);
        match errors[0] {
            RuntimeError::ParseError { expected, message, .. } => {
                assert_eq!(expected, expected_type, "{}", source);
                assert_eq!(message, expected_message, "{}", source);
            }
            _ => panic!("{}: {:?}", source, errors[0]),
        }
    }
}

#[test]
fn expression_is_expected_where_none_starts() {
    for source in [";", ")", "1 + ;", "print ;", "= 1;", "f(,);", "else;"] {
        let (_, errors) = parse(source);
        assert!(matches!(errors[0], RuntimeError::ExpectedExpression(_)), "{}", source);
    }
}

#[test]
fn recovery_skips_to_the_next_statement() {
    let (printed, errors) = parse("var = 1 + 2; print 3;");
    assert_eq!(errors.len(), 1);
    assert_eq!(printed, vec!["(error-at 4)", "(print 3)"]);
    let (printed, errors) = parse("1 + * 2 3 print 4; print 5;");
    assert_eq!(errors.len(), 1);
    assert_eq!(printed, vec!["(error-at 4)", "(print 4)", "(print 5)"]);
    let (printed, errors) = parse(") ) ) var a; ( ; fun f() {}");
    assert_eq!(errors.len(), 2);
    assert_eq!(printed, vec!["(error-at 0)", "(var a nil)", "(error-at 15)", "(fun f ())"]);
}

#[test]
fn recovery_inside_a_block_keeps_the_block() {
    let (printed, errors) = parse("{ print 1; var; print 2; } print 3;");
    assert_eq!(errors.len(), 1);
    assert_eq!(printed, vec!["(block (print 1) (error-at 14) (print 2))", "(print 3)"]);
    let (printed, errors) = parse("fun f() { 1 +; return 2; } f();");
    assert_eq!(errors.len(), 1);
    assert_eq!(printed, vec!["(fun f () (error-at 13) (return 2))", "(; (call f))"]);
}

#[test]
fn error_at_the_end_consumes_nothing_more() {
    let (printed, errors) = parse("print");
    assert_eq!(errors.len(), 1);
    assert_eq!(printed, vec!["(error-at 0)"]);
    let (printed, errors) = parse("");
    assert!(errors.is_empty());
    assert!(printed.is_empty());
}

#[test]
fn at_most_255_parameters() {
    let params: Vec<String> = (0..255).map(|i| format!("p{}", i)).collect();
    let (printed, errors) = parse(&format!("fun f({}) {{}}", params.join(", ")));
    assert!(errors.is_empty());
    assert_eq!(printed.len(), 1);
    let params: Vec<String> = (0..256).map(|i| format!("p{}", i)).collect();
    let (_, errors) = parse(&format!("fun f({}) {{}}", params.join(", ")));
    match errors[0] {
        RuntimeError::TooManyArguments(t) => assert_eq!(t.token_type, TokenType::Identifier),
        _ => panic!("{:?}", errors[0]),
    }
}
