use interp::env::{Environment, Environments};
use interp::error::ErrorKind;
use interp::number::{Comparison, Number, Numerics};
use interp::runtime::{
    binary_result, compare_text, unary_result, Callable, Class, Instance, Object, Println,
};
use interp::token::{Token, TokenType};

struct Doubles;

impl Numerics for Doubles {
    fn number(&self, text: &str) -> Number {
        Number::from_bits(text.parse::<f64>().unwrap().to_bits())
    }
    fn add(&self, a: Number, b: Number) -> Number {
        Number::from_bits((f64::from_bits(a.bits) + f64::from_bits(b.bits)).to_bits())
    }
    fn subtract(&self, a: Number, b: Number) -> Number {
        Number::from_bits((f64::from_bits(a.bits) - f64::from_bits(b.bits)).to_bits())
    }
    fn multiply(&self, a: Number, b: Number) -> Number {
        Number::from_bits((f64::from_bits(a.bits) * f64::from_bits(b.bits)).to_bits())
    }
    fn divide(&self, a: Number, b: Number) -> Number {
        Number::from_bits((f64::from_bits(a.bits) / f64::from_bits(b.bits)).to_bits())
    }
    fn show(&self, a: Number) -> String {
        f64::from_bits(a.bits).to_string()
    }
}

fn num(x: f64) -> Object {
    Object::Number(Number::from_bits(x.to_bits()))
}

fn text(s: &str) -> Object {
    Object::Str(s.to_string())
}

fn token(lexeme: &str, ty: TokenType, line: usize) -> Token {
    Token::new(lexeme.to_string(), ty, line)
}

fn shown(v: &Object) -> String {
    v.to_string(&Doubles)
}

#[test]
fn truthiness_of_every_kind() {
    assert!(!Object::Null.truthiness());
    assert!(!Object::Boolean(false).truthiness());
    assert!(Object::Boolean(true).truthiness());
    assert!(num(0.0).truthiness());
    assert!(text("").truthiness());
    assert!(Object::Callable(Callable::Println(Println {})).truthiness());
    assert!(Object::Boolean(true).thrutiness());
    assert!(!Object::Null.thrutiness());
}

#[test]
fn display_of_every_kind() {
    assert_eq!(shown(&Object::Null), "null");
    assert_eq!(shown(&Object::Boolean(true)), "true");
    assert_eq!(shown(&Object::Boolean(false)), "false");
    assert_eq!(shown(&text("hi there")), "hi there");
    assert_eq!(shown(&num(7.0)), "7");
    assert_eq!(shown(&num(0.5)), "0.5");
    assert_eq!(shown(&Object::Callable(Callable::Println(Println {}))), "<std fn println>");
    let class = Class { ident: "Point".to_string() };
    assert_eq!(class.to_string(), "<class Point>");
    assert_eq!(class.arity(), 0);
    assert_eq!(shown(&class.call()), "<Point instance>");
    assert_eq!(Object::Null.show("unused".to_string()), "null");
    assert_eq!(num(1.0).show("one".to_string()), "one");
}

#[test]
fn expectations() {
    assert_eq!(num(2.0).expect_number(&1).unwrap().bits, 2.0f64.to_bits());
    let d = text("a").expect_number(&5).unwrap_err();
    assert_eq!((d.kind, d.line, d.message.as_str()), (ErrorKind::Runtime, 5, "Expected number"));
    assert_eq!(text("a").expect_string(&1).unwrap(), "a");
    assert_eq!(num(1.0).expect_string(&6).unwrap_err().message, "Expected string");
    assert!(Object::Boolean(true).expect_boolean(&1).unwrap());
    assert_eq!(Object::Null.expect_boolean(&7).unwrap_err().message, "Expected boolean");
}

#[test]
fn strings_are_ordered_as_in_a_dictionary() {
    assert_eq!(compare_text("", ""), Comparison::Equal);
    assert_eq!(compare_text("", "a"), Comparison::Less);
    assert_eq!(compare_text("a", ""), Comparison::Greater);
    assert_eq!(compare_text("abc", "abd"), Comparison::Less);
    assert_eq!(compare_text("abc", "ab"), Comparison::Greater);
    assert_eq!(compare_text("b", "abc"), Comparison::Greater);
    assert_eq!(compare_text("Z", "a"), Comparison::Less);
    for (a, b) in [("é", "z"), ("日本", "日本語"), ("\u{10000}", "\u{ffff}"), ("a\u{301}", "á")] {
        let expected = match a.cmp(b) {
            std::cmp::Ordering::Less => Comparison::Less,
            std::cmp::Ordering::Equal => Comparison::Equal,
            std::cmp::Ordering::Greater => Comparison::Greater,
        };
        assert_eq!(compare_text(a, b), expected, "{a:?} ? {b:?}");
    }
}

#[test]
fn equality_of_values() {
    assert!(num(1.0).equals(&num(1.0)));
    assert!(num(0.0).equals(&num(-0.0)));
    assert!(!num(f64::NAN).equals(&num(f64::NAN)));
    assert!(text("a").equals(&text("a")));
    assert!(!text("a").equals(&text("b")));
    assert!(Object::Null.equals(&Object::Null));
    assert!(!Object::Null.equals(&Object::Boolean(false)));
    assert!(!num(1.0).equals(&text("1")));
    let p = Object::Callable(Callable::Println(Println {}));
    assert!(!p.equals(&p));
}

#[test]
fn binary_operators_on_values() {
    let unused = Number::from_bits(0);
    let plus = token("+", TokenType::Plus, 3);
    let r = binary_result(&plus, text("a"), text("b"), unused).unwrap();
    assert_eq!(shown(&r), "ab");
    let r = binary_result(&plus, num(1.0), num(2.0), Number::from_bits(3.0f64.to_bits())).unwrap();
    assert_eq!(shown(&r), "3");
    let d = binary_result(&plus, num(1.0), text("b"), unused).unwrap_err();
    assert_eq!((d.line, d.message.as_str()), (3, "Expected both operands to be of the same type"));
    let slash = token("/", TokenType::Slash, 4);
    let d = binary_result(&slash, num(1.0), num(-0.0), unused).unwrap_err();
    assert_eq!((d.line, d.message.as_str()), (4, "Division by zero is not allowed"));
    let less = token("<", TokenType::Less, 1);
    assert_eq!(shown(&binary_result(&less, num(1.0), num(2.0), unused).unwrap()), "true");
    assert_eq!(shown(&binary_result(&less, text("b"), text("a"), unused).unwrap()), "false");
    let ge = token(">=", TokenType::GreaterEqual, 1);
    assert_eq!(shown(&binary_result(&ge, num(2.0), num(2.0), unused).unwrap()), "true");
    assert_eq!(
        binary_result(&ge, num(f64::NAN), num(2.0), unused).unwrap_err().message,
        "Ordering operators can only be used when both operands are 'string' or 'number'"
    );
    let odd = token("and", TokenType::And, 9);
    let d = binary_result(&odd, num(1.0), num(2.0), unused).unwrap_err();
    assert_eq!((d.line, d.message.as_str()), (9, "Unexpected binary operator"));
}

#[test]
fn unary_operators_on_values() {
    let bang = token("!", TokenType::Bang, 1);
    let minus = token("-", TokenType::Minus, 2);
    assert_eq!(shown(&unary_result(&bang, Object::Null).unwrap()), "true");
    assert_eq!(shown(&unary_result(&bang, num(0.0)).unwrap()), "false");
    assert_eq!(shown(&unary_result(&minus, num(2.5)).unwrap()), "-2.5");
    assert_eq!(shown(&unary_result(&minus, num(0.0)).unwrap()), "-0");
    let d = unary_result(&minus, text("a")).unwrap_err();
    assert_eq!((d.line, d.message.as_str()), (2, "Expected number"));
    let odd = token("+", TokenType::Plus, 3);
    assert_eq!(
        unary_result(&odd, num(1.0)).unwrap_err().message,
        "Expected '-' or '!' in unary operations"
    );
}

#[test]
fn one_environment() {
    let mut env = Environment::new(None);
    let a = token("a", TokenType::Identifier, 1);
    assert!(env.get(&a).is_none());
    assert!(!env.assign(&"a".to_string(), num(1.0)));
    assert!(env.get(&a).is_none());
    env.define("a".to_string(), num(1.0));
    assert_eq!(shown(&env.get(&a).unwrap()), "1");
    env.define("a".to_string(), text("again"));
    assert_eq!(shown(&env.get(&a).unwrap()), "again");
    assert!(env.assign(&"a".to_string(), Object::Null));
    assert_eq!(shown(&env.get(&a).unwrap()), "null");
    env.define_callable("p".to_string(), Callable::Println(Println {}));
    assert_eq!(shown(&env.get(&token("p", TokenType::Identifier, 1)).unwrap()), "<std fn println>");
    assert!(env.enclosing().is_none());
    assert_eq!(Environment::new(Some(3)).enclosing(), Some(3));
}

#[test]
fn chains_of_environments() {
    let mut all = Environments::new();
    assert_eq!(all.len(), 1);
    let inner = all.push(0);
    let innermost = all.push(inner);
    let side = all.push(0);
    assert_eq!((inner, innermost, side, all.len()), (1, 2, 3, 4));
    all.define(0, "g".to_string(), num(1.0));
    all.define(inner, "x".to_string(), num(2.0));
    all.define(innermost, "x".to_string(), num(3.0));
    let x = token("x", TokenType::Identifier, 8);
    let g = token("g", TokenType::Identifier, 8);
    assert_eq!(shown(&all.get(innermost, &x).unwrap()), "3");
    assert_eq!(shown(&all.get(inner, &x).unwrap()), "2");
    assert_eq!(shown(&all.get(innermost, &g).unwrap()), "1");
    let d = all.get(side, &x).unwrap_err();
    assert_eq!((d.kind, d.line, d.message.as_str()), (ErrorKind::Runtime, 8, "Undefined variable 'x'"));
    all.assign(innermost, "g", num(10.0)).unwrap();
    assert_eq!(shown(&all.get(0, &g).unwrap()), "10");
    all.assign(innermost, "x", num(30.0)).unwrap();
    assert_eq!(shown(&all.get(inner, &x).unwrap()), "2");
    assert_eq!(shown(&all.get(innermost, &x).unwrap()), "30");
    assert_eq!(
        all.assign(side, "x", num(0.0)).unwrap_err(),
        "Tried to assign to non-existent binding 'x'"
    );
    assert!(all.get(side, &x).is_err());
    all.define_callable(side, "p".to_string(), Callable::Println(Println {}));
    assert!(all.get(side, &token("p", TokenType::Identifier, 1)).is_ok());
}

#[test]
fn fields_of_an_instance() {
    let mut point = Instance::new(Class { ident: "Point".to_string() });
    let x = token("x", TokenType::Identifier, 3);
    let d = point.get(&x).unwrap_err();
    assert_eq!((d.kind, d.line, d.message.as_str()), (ErrorKind::Runtime, 3, "Undefined field x"));
    point.set(token("x", TokenType::Identifier, 1), num(1.0));
    point.set(token("y", TokenType::Identifier, 1), num(2.0));
    assert_eq!(shown(&point.get(&x).unwrap()), "1");
    point.set(token("x", TokenType::Identifier, 1), text("moved"));
    assert_eq!(shown(&point.get(&x).unwrap()), "moved");
    assert_eq!(shown(&point.get(&token("y", TokenType::Identifier, 1)).unwrap()), "2");
    assert_eq!(shown(&Object::Instance(point.clone())), "<Point instance>");
    assert!(!Object::Instance(point.clone()).equals(&Object::Instance(point)));
}

#[test]
fn copies_are_equal_in_every_part() {
    let values = vec![num(1.5), text("a"), Object::Boolean(true), Object::Null];
    for v in &values {
        assert!(v.clone().equals(v));
        assert_eq!(shown(&v.clone()), shown(v));
    }
}
