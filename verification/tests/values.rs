//! The value model: equality, truthiness, type names and display text.

use raz::expr::Expr;
use raz::literals::{Fun, LiteralValue, NativeKind};
use raz::numbers::{i64_to_string, u64_to_string, usize_to_string};
use raz::stmt::Stmt;
use raz::token::{Token, TokenType};

fn number(n: i64) -> LiteralValue {
    LiteralValue::NumberValue(n)
}

fn text(s: &str) -> LiteralValue {
    LiteralValue::StringValue(s.to_string())
}

fn native(name: &str, arity: usize) -> LiteralValue {
    LiteralValue::Callable {
        name: name.to_string(),
        arity,
        fun: Fun::Native(NativeKind::Clock),
    }
}

#[test]
fn equality_within_variants() {
    assert!(number(3).equals(&number(3)));
    assert!(!number(3).equals(&number(4)));
    assert!(text("a").equals(&text("a")));
    assert!(!text("a").equals(&text("b")));
    assert!(LiteralValue::True.equals(&LiteralValue::True));
    assert!(LiteralValue::False.equals(&LiteralValue::False));
    assert!(LiteralValue::Non.equals(&LiteralValue::Non));
    assert!(!LiteralValue::True.equals(&LiteralValue::False));
}

#[test]
fn equality_across_variants_is_false() {
    assert!(!number(1).equals(&text("1")));
    assert!(!number(0).equals(&LiteralValue::False));
    assert!(!text("").equals(&LiteralValue::Non));
    assert!(!LiteralValue::Non.equals(&number(0)));
}

#[test]
fn callables_compare_by_name_and_arity() {
    assert!(native("clock", 0).equals(&native("clock", 0)));
    assert!(!native("clock", 0).equals(&native("clock", 1)));
    assert!(!native("clock", 0).equals(&native("tick", 0)));
}

#[test]
fn falsiness_of_numbers_and_text() {
    assert!(number(0).is_falsy().equals(&LiteralValue::True));
    assert!(number(7).is_falsy().equals(&LiteralValue::False));
    assert!(number(-7).is_falsy().equals(&LiteralValue::False));
    assert!(text("").is_falsy().equals(&LiteralValue::True));
    assert!(text("x").is_falsy().equals(&LiteralValue::False));
}

#[test]
fn falsiness_of_constants() {
    assert!(LiteralValue::True.is_falsy().equals(&LiteralValue::False));
    assert!(LiteralValue::False.is_falsy().equals(&LiteralValue::True));
    assert!(LiteralValue::Non.is_falsy().equals(&LiteralValue::True));
}

#[test]
fn truthiness_mirrors_falsiness() {
    assert!(number(0).is_truthy().equals(&LiteralValue::False));
    assert!(number(5).is_truthy().equals(&LiteralValue::True));
    assert!(text("").is_truthy().equals(&LiteralValue::False));
    assert!(text("x").is_truthy().equals(&LiteralValue::True));
    assert!(LiteralValue::Non.is_truthy().equals(&LiteralValue::False));
}

#[test]
fn type_names() {
    assert_eq!(number(1).to_type(), "Number");
    assert_eq!(text("x").to_type(), "String");
    assert_eq!(LiteralValue::True.to_type(), "Boolean");
    assert_eq!(LiteralValue::False.to_type(), "Boolean");
    assert_eq!(LiteralValue::Non.to_type(), "Non");
    assert_eq!(native("clock", 0).to_type(), "Callable");
}

#[test]
fn display_text() {
    assert_eq!(number(0).to_string(), "0");
    assert_eq!(number(42).to_string(), "42");
    assert_eq!(number(-5).to_string(), "-5");
    assert_eq!(text("hello").to_string(), "hello");
    assert_eq!(LiteralValue::True.to_string(), "true");
    assert_eq!(LiteralValue::False.to_string(), "false");
    assert_eq!(LiteralValue::Non.to_string(), "Non");
    assert_eq!(native("clock", 0).to_string(), "clock_0");
    assert_eq!(native("add", 2).to_string(), "add_2");
}

#[test]
fn from_bool_gives_the_constants() {
    assert!(LiteralValue::from_bool(true).equals(&LiteralValue::True));
    assert!(LiteralValue::from_bool(false).equals(&LiteralValue::False));
}

#[test]
fn duplicate_preserves_value() {
    let v = text("copy me");
    assert!(v.duplicate().equals(&v));
    let n = number(17);
    assert!(n.duplicate().equals(&n));
    let c = native("clock", 0);
    assert!(c.duplicate().equals(&c));
}

#[test]
fn decimal_rendering_edges() {
    assert_eq!(i64_to_string(i64::MAX), "9223372036854775807");
    assert_eq!(i64_to_string(i64::MIN), "-9223372036854775808");
    assert_eq!(i64_to_string(-1), "-1");
    assert_eq!(i64_to_string(10), "10");
    assert_eq!(u64_to_string(0), "0");
    assert_eq!(u64_to_string(u64::MAX), "18446744073709551615");
    assert_eq!(usize_to_string(100), "100");
}

#[test]
fn expression_rendering() {
    let t = |tt: TokenType, lex: &str| Token::new(tt, lex.to_string(), 1);
    let num = |n: i64| Expr::Literal { value: LiteralValue::NumberValue(n) };
    let sum = Expr::Binary {
        left: Box::new(num(1)),
        right: Box::new(num(2)),
        operator: t(TokenType::Plus, "+"),
    };
    assert_eq!(sum.to_string(), "(1 2 +)");
    let neg = Expr::Unary { operator: t(TokenType::Minus, "-"), val: Box::new(num(3)) };
    assert_eq!(neg.to_string(), "(- 3)");
    let v = Expr::Variable { name: t(TokenType::Identifier, "x") };
    assert_eq!(v.to_string(), "(var x)");
    let asg = Expr::Assignment {
        name: t(TokenType::Identifier, "x"),
        value: Box::new(num(4)),
    };
    assert_eq!(asg.to_string(), "(x = 4)");
    let grp = Expr::Grouping { expression: Box::new(num(5)) };
    assert_eq!(grp.to_string(), "(5)");
}

#[test]
fn statement_rendering() {
    let t = |tt: TokenType, lex: &str| Token::new(tt, lex.to_string(), 1);
    let num = |n: i64| Expr::Literal { value: LiteralValue::NumberValue(n) };
    let p = Stmt::Print { expression: num(1) };
    assert_eq!(p.to_string(), "(print 1)");
    let v = Stmt::Var { name: t(TokenType::Identifier, "x"), initialiser: num(2) };
    assert_eq!(v.to_string(), "(var x)");
    let b = Stmt::Block {
        statements: vec![
            Stmt::Expression { expression: num(7) },
            Stmt::Print { expression: num(8) },
        ],
    };
    assert_eq!(b.to_string(), "(block 7(print 8))");
}
