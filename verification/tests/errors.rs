//! Each failure the evaluator can report, provoked by a small program.

use raz::errors::{Halt, RuntimeError};
use raz::expr::Expr;
use std::rc::Rc;
use raz::interpreter::Interpreter;
use raz::literals::LiteralValue;
use raz::stmt::Stmt;
use raz::token::{Token, TokenType};

fn tok(tt: TokenType, lex: &str) -> Token {
    Token::new(tt, lex.to_string(), 1)
}

fn num(n: i64) -> Expr {
    Expr::Literal { value: LiteralValue::NumberValue(n) }
}

fn text(s: &str) -> Expr {
    Expr::Literal { value: LiteralValue::StringValue(s.to_string()) }
}

fn var(name: &str) -> Expr {
    Expr::Variable { name: tok(TokenType::Identifier, name) }
}

fn bin(l: Expr, tt: TokenType, lex: &str, r: Expr) -> Expr {
    Expr::Binary { left: Box::new(l), right: Box::new(r), operator: tok(tt, lex) }
}

fn show(e: Expr) -> Stmt {
    Stmt::Print { expression: e }
}

fn run_err(stmts: Vec<Stmt>) -> Halt {
    let mut interp = Interpreter::new();
    interp.interpret(&stmts, 1000).expect_err("program should fail")
}

#[test]
fn reading_undeclared_variable_fails() {
    match run_err(vec![show(var("ghost"))]) {
        Halt::Failure(RuntimeError::UndeclaredVariable { name }) => assert_eq!(name, "ghost"),
        other => panic!("unexpected outcome: {:?}", other),
    }
}

#[test]
fn assigning_undeclared_variable_fails() {
    let a = Expr::Assignment {
        name: tok(TokenType::Identifier, "ghost"),
        value: Box::new(num(1)),
    };
    match run_err(vec![Stmt::Expression { expression: a }]) {
        Halt::Failure(RuntimeError::UndeclaredVariable { name }) => assert_eq!(name, "ghost"),
        other => panic!("unexpected outcome: {:?}", other),
    }
}

#[test]
fn arity_mismatch_names_both_counts() {
    // func f(a,b){ return a; } f(1);
    let f = Stmt::Function {
        name: tok(TokenType::Identifier, "f"),
        params: Rc::new(vec![
            tok(TokenType::Identifier, "a"),
            tok(TokenType::Identifier, "b"),
        ]),
        body: Rc::new(vec![Stmt::ReturnStmt {
            keyword: tok(TokenType::Return, "return"),
            value: Some(var("a")),
        }]),
    };
    let call = Expr::Call {
        callee: Box::new(var("f")),
        paren: tok(TokenType::LeftParen, "("),
        arguments: vec![num(1)],
    };
    match run_err(vec![f, Stmt::Expression { expression: call }]) {
        Halt::Failure(RuntimeError::ArityMismatch { callee, expected, got }) => {
            assert_eq!(callee, "f");
            assert_eq!(expected, 2);
            assert_eq!(got, 1);
        },
        other => panic!("unexpected outcome: {:?}", other),
    }
}

#[test]
fn arity_mismatch_message_names_both_counts() {
    let e = RuntimeError::ArityMismatch { callee: "f".to_string(), expected: 2, got: 1 };
    assert_eq!(e.message(), "Callable f expected 2 arguments but got 1");
}

#[test]
fn undeclared_variable_message_names_variable() {
    let e = RuntimeError::UndeclaredVariable { name: "x".to_string() };
    assert_eq!(e.message(), "Variable x has not been declared");
}

#[test]
fn calling_a_non_callable_fails() {
    // 5();
    let call = Expr::Call {
        callee: Box::new(num(5)),
        paren: tok(TokenType::LeftParen, "("),
        arguments: vec![],
    };
    match run_err(vec![Stmt::Expression { expression: call }]) {
        Halt::Failure(RuntimeError::TypeMismatch { operator, operands }) => {
            assert_eq!(operator, "(");
            assert_eq!(operands, vec!["Number".to_string()]);
        },
        other => panic!("unexpected outcome: {:?}", other),
    }
}

#[test]
fn negating_text_fails() {
    let u = Expr::Unary { operator: tok(TokenType::Minus, "-"), val: Box::new(text("a")) };
    match run_err(vec![show(u)]) {
        Halt::Failure(RuntimeError::TypeMismatch { operator, operands }) => {
            assert_eq!(operator, "-");
            assert_eq!(operands, vec!["String".to_string()]);
        },
        other => panic!("unexpected outcome: {:?}", other),
    }
}

#[test]
fn truthiness_of_callable_fails() {
    // if (clock) {}
    let cond = Stmt::IfStmt {
        condition: var("clock"),
        then_branch: Box::new(Stmt::Block { statements: vec![] }),
        else_branch: None,
    };
    match run_err(vec![cond]) {
        Halt::Failure(RuntimeError::TypeMismatch { operator, operands }) => {
            assert_eq!(operator, "if");
            assert_eq!(operands, vec!["Callable".to_string()]);
        },
        other => panic!("unexpected outcome: {:?}", other),
    }
}

#[test]
fn mixing_types_in_subtraction_fails() {
    match run_err(vec![show(bin(text("a"), TokenType::Minus, "-", num(1)))]) {
        Halt::Failure(RuntimeError::TypeMismatch { operator, operands }) => {
            assert_eq!(operator, "-");
            assert_eq!(operands, vec!["String".to_string(), "Number".to_string()]);
        },
        other => panic!("unexpected outcome: {:?}", other),
    }
}

#[test]
fn negative_repeat_count_fails() {
    match run_err(vec![show(bin(text("ab"), TokenType::Star, "*", num(-1)))]) {
        Halt::Failure(RuntimeError::TypeMismatch { operator, operands }) => {
            assert_eq!(operator, "*");
            assert_eq!(operands, vec!["String".to_string(), "Number".to_string()]);
        },
        other => panic!("unexpected outcome: {:?}", other),
    }
}

#[test]
fn invalid_logical_operator_fails() {
    let l = Expr::Logical {
        left: Box::new(num(1)),
        right: Box::new(num(2)),
        operator: tok(TokenType::Star, "*"),
    };
    match run_err(vec![show(l)]) {
        Halt::Failure(RuntimeError::InvalidOperator { lexeme }) => assert_eq!(lexeme, "*"),
        other => panic!("unexpected outcome: {:?}", other),
    }
}

#[test]
fn invalid_unary_operator_fails() {
    let u = Expr::Unary { operator: tok(TokenType::Slash, "/"), val: Box::new(num(1)) };
    match run_err(vec![show(u)]) {
        Halt::Failure(RuntimeError::InvalidOperator { lexeme }) => assert_eq!(lexeme, "/"),
        other => panic!("unexpected outcome: {:?}", other),
    }
}

#[test]
fn division_by_zero_fails() {
    match run_err(vec![show(bin(num(1), TokenType::Slash, "/", num(0)))]) {
        Halt::Failure(RuntimeError::DivisionByZero { operator }) => assert_eq!(operator, "/"),
        other => panic!("unexpected outcome: {:?}", other),
    }
}

#[test]
fn remainder_by_zero_fails() {
    match run_err(vec![show(bin(num(1), TokenType::Modulo, "%", num(0)))]) {
        Halt::Failure(RuntimeError::DivisionByZero { operator }) => assert_eq!(operator, "%"),
        other => panic!("unexpected outcome: {:?}", other),
    }
}

#[test]
fn addition_overflow_fails() {
    match run_err(vec![show(bin(num(i64::MAX), TokenType::Plus, "+", num(1)))]) {
        Halt::Failure(RuntimeError::NumericOverflow { operator }) => assert_eq!(operator, "+"),
        other => panic!("unexpected outcome: {:?}", other),
    }
}

#[test]
fn endless_loop_runs_out_of_fuel() {
    // while (1) {}
    let w = Stmt::WhileStmt {
        condition: num(1),
        body: Box::new(Stmt::Block { statements: vec![] }),
    };
    match run_err(vec![w]) {
        Halt::OutOfFuel => {},
        other => panic!("unexpected outcome: {:?}", other),
    }
}

#[test]
fn failure_stops_later_statements() {
    let mut interp = Interpreter::new();
    let prog = vec![
        show(num(1)),
        show(var("ghost")),
        show(num(2)),
    ];
    assert!(interp.interpret(&prog, 100).is_err());
    assert_eq!(interp.output().clone(), vec!["1".to_string()]);
}
