//! Whole-program scenarios run through the interpreter.

use raz::expr::Expr;
use raz::interpreter::Interpreter;
use raz::literals::LiteralValue;
use raz::stmt::Stmt;
use raz::token::{Token, TokenType};
use std::rc::Rc;

fn tok(tt: TokenType, lex: &str) -> Token {
    Token::new(tt, lex.to_string(), 1)
}

fn num(n: i64) -> Expr {
    Expr::Literal { value: LiteralValue::NumberValue(n) }
}

fn text(s: &str) -> Expr {
    Expr::Literal { value: LiteralValue::StringValue(s.to_string()) }
}

fn var(name: &str) -> Expr {
    Expr::Variable { name: tok(TokenType::Identifier, name) }
}

fn bin(l: Expr, tt: TokenType, lex: &str, r: Expr) -> Expr {
    Expr::Binary { left: Box::new(l), right: Box::new(r), operator: tok(tt, lex) }
}

fn assign(name: &str, e: Expr) -> Expr {
    Expr::Assignment { name: tok(TokenType::Identifier, name), value: Box::new(e) }
}

fn call(callee: Expr, args: Vec<Expr>) -> Expr {
    Expr::Call { callee: Box::new(callee), paren: tok(TokenType::LeftParen, "("), arguments: args }
}

fn show(e: Expr) -> Stmt {
    Stmt::Print { expression: e }
}

fn var_decl(name: &str, e: Expr) -> Stmt {
    Stmt::Var { name: tok(TokenType::Identifier, name), initialiser: e }
}

fn block(v: Vec<Stmt>) -> Stmt {
    Stmt::Block { statements: v }
}

fn func(name: &str, params: Vec<&str>, body: Vec<Stmt>) -> Stmt {
    Stmt::Function {
        name: tok(TokenType::Identifier, name),
        params: Rc::new(params.into_iter().map(|p| tok(TokenType::Identifier, p)).collect()),
        body: Rc::new(body),
    }
}

fn ret(e: Option<Expr>) -> Stmt {
    Stmt::ReturnStmt { keyword: tok(TokenType::Return, "return"), value: e }
}

fn if_stmt(cond: Expr, then_branch: Stmt, else_branch: Option<Stmt>) -> Stmt {
    Stmt::IfStmt {
        condition: cond,
        then_branch: Box::new(then_branch),
        else_branch: else_branch.map(Box::new),
    }
}

fn while_stmt(cond: Expr, body: Stmt) -> Stmt {
    Stmt::WhileStmt { condition: cond, body: Box::new(body) }
}

fn run(stmts: Vec<Stmt>) -> Vec<String> {
    let mut interp = Interpreter::new();
    interp.interpret(&stmts, 1000).expect("program should run");
    interp.output().clone()
}

#[test]
fn function_call_adds() {
    // func add(a,b){ return a+b; } show add(2,3);
    let prog = vec![
        func(
            "add",
            vec!["a", "b"],
            vec![ret(Some(bin(var("a"), TokenType::Plus, "+", var("b"))))],
        ),
        show(call(var("add"), vec![num(2), num(3)])),
    ];
    assert_eq!(run(prog), vec!["5".to_string()]);
}

#[test]
fn block_assignment_mutates_outer() {
    // var x = 10; { x = x + 1; } show x;
    let prog = vec![
        var_decl("x", num(10)),
        block(vec![Stmt::Expression {
            expression: assign("x", bin(var("x"), TokenType::Plus, "+", num(1))),
        }]),
        show(var("x")),
    ];
    assert_eq!(run(prog), vec!["11".to_string()]);
}

#[test]
fn string_repetition() {
    // show "ab" * 3;
    let prog = vec![show(bin(text("ab"), TokenType::Star, "*", num(3)))];
    assert_eq!(run(prog), vec!["ababab".to_string()]);
}

#[test]
fn cross_type_equality_is_false() {
    // show 1==1; show 1=="1";
    let prog = vec![
        show(bin(num(1), TokenType::EqualEqual, "==", num(1))),
        show(bin(num(1), TokenType::EqualEqual, "==", text("1"))),
    ];
    assert_eq!(run(prog), vec!["true".to_string(), "false".to_string()]);
}

#[test]
fn shadowing_dies_with_block() {
    // { var x = 1; { var x = 2; } show x; }
    let prog = vec![block(vec![
        var_decl("x", num(1)),
        block(vec![var_decl("x", num(2))]),
        show(var("x")),
    ])];
    assert_eq!(run(prog), vec!["1".to_string()]);
}

#[test]
fn closure_observes_later_mutation() {
    // func outer(){ var x = 1; func inner(){ return x; } x = 2; return inner(); }
    // show outer();
    let prog = vec![
        func(
            "outer",
            vec![],
            vec![
                var_decl("x", num(1)),
                func("inner", vec![], vec![ret(Some(var("x")))]),
                Stmt::Expression { expression: assign("x", num(2)) },
                ret(Some(call(var("inner"), vec![]))),
            ],
        ),
        show(call(var("outer"), vec![])),
    ];
    assert_eq!(run(prog), vec!["2".to_string()]);
}

#[test]
fn return_escapes_while_and_if() {
    // func f(n){ while (n > 0) { if (n == 3) { return n; } n = n - 1; } return 0; }
    // show f(10);
    let prog = vec![
        func(
            "f",
            vec!["n"],
            vec![
                while_stmt(
                    bin(var("n"), TokenType::Greater, ">", num(0)),
                    block(vec![
                        if_stmt(
                            bin(var("n"), TokenType::EqualEqual, "==", num(3)),
                            block(vec![ret(Some(var("n")))]),
                            None,
                        ),
                        Stmt::Expression {
                            expression: assign("n", bin(var("n"), TokenType::Minus, "-", num(1))),
                        },
                    ]),
                ),
                ret(Some(num(0))),
            ],
        ),
        show(call(var("f"), vec![num(10)])),
    ];
    assert_eq!(run(prog), vec!["3".to_string()]);
}

#[test]
fn recursion_factorial() {
    // func fact(n){ if (n < 2) { return 1; } return n * fact(n - 1); }
    // show fact(5);
    let prog = vec![
        func(
            "fact",
            vec!["n"],
            vec![
                if_stmt(
                    bin(var("n"), TokenType::Less, "<", num(2)),
                    block(vec![ret(Some(num(1)))]),
                    None,
                ),
                ret(Some(bin(
                    var("n"),
                    TokenType::Star,
                    "*",
                    call(var("fact"), vec![bin(var("n"), TokenType::Minus, "-", num(1))]),
                ))),
            ],
        ),
        show(call(var("fact"), vec![num(5)])),
    ];
    assert_eq!(run(prog), vec!["120".to_string()]);
}

#[test]
fn while_loop_counts() {
    // var i = 0; var s = 0; while (i < 5) { s = s + i; i = i + 1; } show s;
    let prog = vec![
        var_decl("i", num(0)),
        var_decl("s", num(0)),
        while_stmt(
            bin(var("i"), TokenType::Less, "<", num(5)),
            block(vec![
                Stmt::Expression {
                    expression: assign("s", bin(var("s"), TokenType::Plus, "+", var("i"))),
                },
                Stmt::Expression {
                    expression: assign("i", bin(var("i"), TokenType::Plus, "+", num(1))),
                },
            ]),
        ),
        show(var("s")),
    ];
    assert_eq!(run(prog), vec!["10".to_string()]);
}

#[test]
fn or_keeps_operand_and_collapses() {
    // show 0 or "x"; show 5 or "x"; show 1 and "x"; show 1 and 0;
    let or_tok = |l: Expr, r: Expr| Expr::Logical {
        left: Box::new(l),
        right: Box::new(r),
        operator: tok(TokenType::Or, "or"),
    };
    let and_tok = |l: Expr, r: Expr| Expr::Logical {
        left: Box::new(l),
        right: Box::new(r),
        operator: tok(TokenType::And, "and"),
    };
    let prog = vec![
        show(or_tok(num(0), text("x"))),
        show(or_tok(num(5), text("x"))),
        show(and_tok(num(1), text("x"))),
        show(and_tok(num(1), num(0))),
    ];
    assert_eq!(
        run(prog),
        vec!["x".to_string(), "5".to_string(), "true".to_string(), "false".to_string()]
    );
}

#[test]
fn string_concatenation_both_ways() {
    // show "a" + "b"; show "n=" + 42; show 42 + "!";
    let prog = vec![
        show(bin(text("a"), TokenType::Plus, "+", text("b"))),
        show(bin(text("n="), TokenType::Plus, "+", num(42))),
        show(bin(num(42), TokenType::Plus, "+", text("!"))),
    ];
    assert_eq!(run(prog), vec!["ab".to_string(), "n=42".to_string(), "42!".to_string()]);
}

#[test]
fn unary_operators_on_numbers() {
    let unary = |tt: TokenType, lex: &str, e: Expr| Expr::Unary {
        operator: tok(tt, lex),
        val: Box::new(e),
    };
    let prog = vec![
        show(unary(TokenType::Minus, "-", num(7))),
        show(unary(TokenType::PlusPlus, "++", num(7))),
        show(unary(TokenType::MinusMinus, "--", num(7))),
        show(unary(TokenType::Bang, "!", num(0))),
        show(unary(TokenType::Bang, "!", text("hi"))),
    ];
    assert_eq!(
        run(prog),
        vec![
            "-7".to_string(),
            "8".to_string(),
            "6".to_string(),
            "true".to_string(),
            "false".to_string()
        ]
    );
}

#[test]
fn native_clock_returns_number() {
    // show clock();
    let prog = vec![show(call(var("clock"), vec![]))];
    let out = run(prog);
    assert_eq!(out.len(), 1);
    let seconds: i64 = out[0].parse().expect("clock output is a number");
    assert!(seconds >= 0);
}

#[test]
fn callable_displays_name_and_arity() {
    // show clock;
    let prog = vec![show(var("clock"))];
    assert_eq!(run(prog), vec!["clock_0".to_string()]);
}

#[test]
fn interpreter_state_persists_between_runs() {
    let mut interp = Interpreter::new();
    interp.interpret(&vec![var_decl("x", num(41))], 100).expect("first run");
    interp
        .interpret(
            &vec![show(bin(var("x"), TokenType::Plus, "+", num(1)))],
            100,
        )
        .expect("second run");
    assert_eq!(interp.output().clone(), vec!["42".to_string()]);
}

#[test]
fn grouping_is_structural() {
    // show (2 + 3) * 4;
    let grouped = Expr::Grouping {
        expression: Box::new(bin(num(2), TokenType::Plus, "+", num(3))),
    };
    let prog = vec![show(bin(grouped, TokenType::Star, "*", num(4)))];
    assert_eq!(run(prog), vec!["20".to_string()]);
}

#[test]
fn division_truncates_toward_zero() {
    // show -7 / 2; show 7 / -2; show -7 % 2; show 7 % -2;
    let neg = |n: i64| Expr::Literal { value: LiteralValue::NumberValue(n) };
    let prog = vec![
        show(bin(neg(-7), TokenType::Slash, "/", num(2))),
        show(bin(num(7), TokenType::Slash, "/", neg(-2))),
        show(bin(neg(-7), TokenType::Modulo, "%", num(2))),
        show(bin(num(7), TokenType::Modulo, "%", neg(-2))),
    ];
    assert_eq!(
        run(prog),
        vec!["-3".to_string(), "-3".to_string(), "-1".to_string(), "1".to_string()]
    );
}

#[test]
fn runaway_recursion_runs_out_of_fuel() {
    // func f(){ return f(); } f();
    let prog = vec![
        func("f", vec![], vec![ret(Some(call(var("f"), vec![])))]),
        Stmt::Expression { expression: call(var("f"), vec![]) },
    ];
    let mut interp = Interpreter::new();
    assert!(matches!(
        interp.interpret(&prog, 50),
        Err(raz::errors::Halt::OutOfFuel)
    ));
}

#[test]
fn number_comparisons() {
    let prog = vec![
        show(bin(num(2), TokenType::Less, "<", num(3))),
        show(bin(num(3), TokenType::LessEqual, "<=", num(3))),
        show(bin(num(4), TokenType::Greater, ">", num(5))),
        show(bin(num(5), TokenType::GreaterEqual, ">=", num(6))),
        show(bin(num(5), TokenType::BangEqual, "!=", num(6))),
    ];
    assert_eq!(
        run(prog),
        vec![
            "true".to_string(),
            "true".to_string(),
            "false".to_string(),
            "false".to_string(),
            "true".to_string()
        ]
    );
}

#[test]
fn if_else_branches() {
    // if (0) show 1; else show 2;  if ("x") show 3;
    let prog = vec![
        if_stmt(num(0), show(num(1)), Some(show(num(2)))),
        if_stmt(text("x"), show(num(3)), None),
    ];
    assert_eq!(run(prog), vec!["2".to_string(), "3".to_string()]);
}

#[test]
fn var_with_non_initialiser() {
    // var x; show x;
    let prog = vec![
        var_decl("x", Expr::Literal { value: LiteralValue::Non }),
        show(var("x")),
    ];
    assert_eq!(run(prog), vec!["Non".to_string()]);
}
