use lochx::bindings::Bindings;
use lochx::class::{Class, Classes, Instances, LochxInstanceImpl};
use lochx::environment::{EnvironmentImpl, Environments};
use lochx::error::RuntimeError;
use lochx::interner::{keyword_or_identifier, Interner, KEYWORDS, SEEDED, SYM_CLOCK, SYM_INIT, SYM_SUPER, SYM_THIS};
use lochx::list::{from_vec, length_up_to, List};
use lochx::literal::{LiteralValue, LochxCallable};
use lochx::locals::Locals;
use lochx::scope::Scope;
use lochx::token::{SourcePosition, Token, TokenType};

fn name(symbol: usize, start: usize) -> Token {
    Token::new(
        TokenType::Identifier,
        SourcePosition { line: 1, start, end: start + 1 },
        symbol,
        None,
    )
}

#[test]
fn interner_gives_one_symbol_to_one_string() {
    let mut interner = Interner::new();
    assert_eq!(interner.len(), SEEDED);
    let a = interner.intern("alpha");
    let b = interner.intern("beta");
    assert_eq!(a, SEEDED);
    assert_eq!(b, SEEDED + 1);
    assert_eq!(interner.intern("alpha"), a);
    assert_eq!(interner.intern("beta"), b);
    assert_eq!(interner.text(a), "alpha");
    assert_eq!(interner.text(b), "beta");
    assert_eq!(interner.len(), SEEDED + 2);
    assert_eq!(interner.intern(""), SEEDED + 2);
    assert_eq!(interner.text(SEEDED + 2), "");
}

#[test]
fn interner_starts_with_the_keywords() {
    let mut interner = Interner::new();
    assert_eq!(KEYWORDS, 16);
    assert_eq!(interner.intern("and"), 0);
    assert_eq!(interner.intern("while"), 15);
    assert_eq!(interner.intern("init"), SYM_INIT);
    assert_eq!(interner.intern("this"), SYM_THIS);
    assert_eq!(interner.intern("super"), SYM_SUPER);
    assert_eq!(interner.intern("clock"), SYM_CLOCK);
    assert_eq!(interner.len(), SEEDED);
    assert_eq!(keyword_or_identifier(interner.intern("class")), TokenType::KwClass);
    assert_eq!(keyword_or_identifier(interner.intern("fun")), TokenType::KwFun);
    assert_eq!(keyword_or_identifier(interner.intern("init")), TokenType::Identifier);
    assert_eq!(keyword_or_identifier(interner.intern("x")), TokenType::Identifier);
    for symbol in 0..KEYWORDS {
        assert_ne!(keyword_or_identifier(symbol), TokenType::Identifier);
    }
}

#[test]
fn bindings_hold_the_last_value_of_each_name() {
    let mut b = Bindings::new();
    assert_eq!(b.get(1), None);
    b.insert(1, LiteralValue::Num(10));
    b.insert(2, LiteralValue::Bool(true));
    assert_eq!(b.get(1), Some(LiteralValue::Num(10)));
    assert_eq!(b.get(2), Some(LiteralValue::Bool(true)));
    b.insert(1, LiteralValue::Nil);
    assert_eq!(b.get(1), Some(LiteralValue::Nil));
    assert_eq!(b.get(2), Some(LiteralValue::Bool(true)));
    assert_eq!(b.get(3), None);
    for k in 10..60 {
        b.insert(k, LiteralValue::Num(k as u64));
    }
    for k in 10..60 {
        assert_eq!(b.get(k), Some(LiteralValue::Num(k as u64)));
    }
    assert_eq!(b.get(1), Some(LiteralValue::Nil));
}

#[test]
fn scope_remembers_whether_a_name_is_ready() {
    let mut s = Scope::new();
    assert_eq!(s.get(4), None);
    s.insert(4, false);
    assert_eq!(s.get(4), Some(false));
    s.insert(4, true);
    assert_eq!(s.get(4), Some(true));
    s.insert(5, false);
    assert_eq!(s.get(5), Some(false));
    assert_eq!(s.get(4), Some(true));
}

#[test]
fn locals_are_keyed_by_span() {
    let mut locals = Locals::new();
    let a = name(20, 0);
    let same_text_elsewhere = name(20, 7);
    assert_eq!(locals.distance(&a), None);
    locals.resolve(&a, 2);
    assert_eq!(locals.distance(&a), Some(2));
    assert_eq!(locals.distance(&same_text_elsewhere), None);
    locals.resolve(&a, 0);
    assert_eq!(locals.distance(&a), Some(0));
    locals.resolve(&same_text_elsewhere, 5);
    assert_eq!(locals.distance(&same_text_elsewhere), Some(5));
    assert_eq!(locals.distance(&a), Some(0));
    let other_symbol_same_place = name(99, 0);
    assert_eq!(locals.distance(&other_symbol_same_place), Some(0));
}

#[test]
fn frames_are_made_empty() {
    let g = EnvironmentImpl::new();
    assert_eq!(g.enclosing, None);
    assert_eq!(g.values.get(0), None);
    let n = EnvironmentImpl::nested(3);
    assert_eq!(n.enclosing, Some(3));
}

#[test]
fn define_binds_in_the_given_frame_only() {
    let mut e = Environments::new();
    let globals = e.add(None).unwrap();
    let inner = e.add(Some(globals)).unwrap();
    assert_eq!((globals, inner, e.len()), (0, 1, 2));
    let a = name(20, 0);
    assert!(e.define(globals, 20, LiteralValue::Num(1)).is_ok());
    assert_eq!(e.get(inner, a).ok(), Some(LiteralValue::Num(1)));
    assert!(e.define(inner, 20, LiteralValue::Num(2)).is_ok());
    assert_eq!(e.get(inner, a).ok(), Some(LiteralValue::Num(2)));
    assert_eq!(e.get(globals, a).ok(), Some(LiteralValue::Num(1)));
    assert_eq!(e.get_by_name(globals, 20).ok(), Some(LiteralValue::Num(1)));
    assert!(matches!(e.define(7, 20, LiteralValue::Nil), Err(RuntimeError::EnvironmentError(_))));
    assert!(matches!(e.add(Some(9)), Err(RuntimeError::EnvironmentError(_))));
    assert_eq!(e.len(), 2);
}

#[test]
fn get_searches_the_whole_chain() {
    let mut e = Environments::new();
    let g = e.add(None).unwrap();
    let a = e.add(Some(g)).unwrap();
    let b = e.add(Some(a)).unwrap();
    let side = e.add(Some(g)).unwrap();
    let x = name(30, 0);
    let y = name(31, 2);
    e.define(g, 30, LiteralValue::Num(1)).unwrap();
    e.define(a, 31, LiteralValue::Num(2)).unwrap();
    assert_eq!(e.get(b, x).ok(), Some(LiteralValue::Num(1)));
    assert_eq!(e.get(b, y).ok(), Some(LiteralValue::Num(2)));
    assert_eq!(e.binder(b, 31), Some(a));
    assert_eq!(e.binder(b, 30), Some(g));
    assert_eq!(e.binder(side, 31), None);
    match e.get(side, y) {
        Err(RuntimeError::UndefinedVariable(t)) => assert!(t.same_token(&y)),
        _ => panic!("found in a frame that is not in the chain"),
    }
    assert!(matches!(e.get_by_name(side, 31), Err(RuntimeError::UndefinedVariableName(31))));
    assert!(matches!(e.get(17, y), Err(RuntimeError::UndefinedVariable(_))));
}

#[test]
fn get_at_walks_exactly_the_distance() {
    let mut e = Environments::new();
    let g = e.add(None).unwrap();
    let a = e.add(Some(g)).unwrap();
    let b = e.add(Some(a)).unwrap();
    let x = name(30, 0);
    e.define(g, 30, LiteralValue::Num(1)).unwrap();
    e.define(b, 30, LiteralValue::Num(3)).unwrap();
    assert_eq!(e.ancestor(b, 0), Some(b));
    assert_eq!(e.ancestor(b, 1), Some(a));
    assert_eq!(e.ancestor(b, 2), Some(g));
    assert_eq!(e.ancestor(b, 3), None);
    assert_eq!(e.ancestor(9, 0), None);
    assert_eq!(e.get_at(b, 0, x).ok(), Some(LiteralValue::Num(3)));
    assert_eq!(e.get_at(b, 2, x).ok(), Some(LiteralValue::Num(1)));
    assert!(matches!(e.get_at(b, 1, x), Err(RuntimeError::UndefinedVariable(_))));
    assert!(matches!(e.get_at(b, 3, x), Err(RuntimeError::EnvironmentError(_))));
    assert_eq!(e.get_at_by_name(b, 2, 30).ok(), Some(LiteralValue::Num(1)));
    assert!(matches!(e.get_at_by_name(b, 1, 30), Err(RuntimeError::UndefinedVariableName(30))));
    assert!(matches!(e.get_at_by_name(b, 4, 30), Err(RuntimeError::EnvironmentError(_))));
}

#[test]
fn assign_changes_the_nearest_binding() {
    let mut e = Environments::new();
    let g = e.add(None).unwrap();
    let a = e.add(Some(g)).unwrap();
    let b = e.add(Some(a)).unwrap();
    let x = name(30, 0);
    let z = name(32, 4);
    e.define(g, 30, LiteralValue::Num(1)).unwrap();
    e.define(a, 30, LiteralValue::Num(2)).unwrap();
    assert!(e.assign(b, x, LiteralValue::Num(9)).is_ok());
    assert_eq!(e.get_at(b, 1, x).ok(), Some(LiteralValue::Num(9)));
    assert_eq!(e.get_at(b, 2, x).ok(), Some(LiteralValue::Num(1)));
    assert!(matches!(e.assign(b, z, LiteralValue::Nil), Err(RuntimeError::UndefinedVariable(_))));
    assert!(matches!(e.get(b, z), Err(RuntimeError::UndefinedVariable(_))));
    assert!(e.assign_at(b, 2, x, LiteralValue::Num(7)).is_ok());
    assert_eq!(e.get(g, x).ok(), Some(LiteralValue::Num(7)));
    assert_eq!(e.get(b, x).ok(), Some(LiteralValue::Num(9)));
    assert!(matches!(e.assign_at(b, 0, x, LiteralValue::Nil), Err(RuntimeError::UndefinedVariable(_))));
    assert!(matches!(e.assign_at(b, 3, x, LiteralValue::Nil), Err(RuntimeError::EnvironmentError(_))));
    assert_eq!(e.get(b, x).ok(), Some(LiteralValue::Num(9)));
}

#[test]
fn methods_are_found_along_the_superclasses() {
    let mut classes = Classes::new();
    let mut base_methods = lochx::bindings::Bindings::new().names;
    let mut derived_methods = lochx::bindings::Bindings::new().names;
    base_methods.insert(40, 0);
    base_methods.insert(41, 1);
    derived_methods.insert(41, 2);
    let base = classes.add(Class::new(50, None, base_methods));
    let derived = classes.add(Class::new(51, Some(base), derived_methods));
    assert_eq!((base, derived), (0, 1));
    assert_eq!(classes.find_method_by_name(derived, 41), Some(2));
    assert_eq!(classes.find_method_by_name(derived, 40), Some(0));
    assert_eq!(classes.find_method_by_name(base, 41), Some(1));
    assert_eq!(classes.find_method_by_name(derived, 42), None);
    assert_eq!(classes.find_method_by_name(5, 40), None);
}

#[test]
fn instances_hold_fields() {
    let mut i = LochxInstanceImpl::new(3);
    let x = name(60, 0);
    let y = name(61, 2);
    assert_eq!(i.class, 3);
    assert_eq!(i.get(&x), None);
    i.set(&x, LiteralValue::Num(1));
    assert_eq!(i.get(&x), Some(LiteralValue::Num(1)));
    i.set(&x, LiteralValue::Str(4));
    assert_eq!(i.get(&x), Some(LiteralValue::Str(4)));
    assert_eq!(i.get(&y), None);

    let mut all = Instances::new();
    let a = all.add(0);
    let b = all.add(0);
    all.set_field(a, &x, LiteralValue::Num(1));
    assert_eq!(all.field(a, &x), Some(LiteralValue::Num(1)));
    assert_eq!(all.field(b, &x), None);
    all.set_field(a, &x, all.field(a, &x).unwrap());
    assert_eq!(all.field(a, &x), Some(LiteralValue::Num(1)));
}

#[test]
fn truthiness_of_values() {
    assert!(!LiteralValue::Nil.is_truthy());
    assert!(!LiteralValue::Bool(false).is_truthy());
    assert!(LiteralValue::Bool(true).is_truthy());
    assert!(LiteralValue::Num(0).is_truthy());
    assert!(LiteralValue::Str(0).is_truthy());
    assert!(LiteralValue::Instance(0).is_truthy());
    assert!(LiteralValue::Callable(LochxCallable::NativeFunction(0)).is_truthy());
    assert_eq!(LiteralValue::default(), LiteralValue::Nil);
}

#[test]
fn lists_keep_the_order_of_their_items() {
    let list = from_vec(vec![1, 2, 3]);
    match &*list {
        List::Cons(a, rest) => {
            assert_eq!(*a, 1);
            match &**rest {
                List::Cons(b, rest) => {
                    assert_eq!(*b, 2);
                    match &**rest {
                        List::Cons(c, rest) => {
                            assert_eq!(*c, 3);
                            assert!(matches!(&**rest, List::Nil));
                        }
                        List::Nil => panic!("too short"),
                    }
                }
                List::Nil => panic!("too short"),
            }
        }
        List::Nil => panic!("empty"),
    }
    assert_eq!(length_up_to(&list, 3), Some(3));
    assert_eq!(length_up_to(&list, 10), Some(3));
    assert_eq!(length_up_to(&list, 2), None);
    let empty = from_vec(Vec::<u8>::new());
    assert!(matches!(&*empty, List::Nil));
    assert_eq!(length_up_to(&empty, 0), Some(0));
}
