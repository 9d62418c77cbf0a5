//! The meaning of the language, written once as spec functions.
//!
//! A program denotes a transformation of an abstract interpreter [`State`]:
//! the scope arena, the text printed so far, and the current clock reading.
//! Expression evaluation yields a value or halts; statement execution
//! additionally may leave a pending `return`. Recursion through user
//! function calls and loop iterations is measured by a step budget (fuel):
//! when it runs out, the semantics is "out of fuel" rather than undefined,
//! and everything else is structural recursion over the tree.
//!
//! The executable interpreter is proved to compute exactly these functions.

use crate::environment::{chain_assign, chain_lookup, SpecScope};
use crate::errors::{SpecError, SpecFlow, SpecHalt};
use crate::expr::Expr;
use crate::literals::{
    display, falsy, is_callable, param_names, type_text, val_eq, NativeKind, SpecFun, SpecValue,
};
use crate::numbers::dec_int;
use crate::stmt::Stmt;
use crate::token::TokenType;
use vstd::prelude::*;

verus! {

/// The abstract interpreter state: every scope ever opened, the lines
/// printed so far, and the clock reading the native clock reports.
#[verifier::ext_equal]
pub struct State {
    pub scopes: Seq<SpecScope>,
    pub out: Seq<Seq<char>>,
    pub clock: i64,
}

/// `s` repeated `n` times.
pub open spec fn repeat_text(s: Seq<char>, n: nat) -> Seq<char>
    decreases n,
{
    if n == 0 {
        Seq::empty()
    } else {
        s + repeat_text(s, (n - 1) as nat)
    }
}

/// Repetition grows one copy at a time at the back as well: the form the
/// repeating loop of the interpreter builds.
pub proof fn lemma_repeat_snoc(s: Seq<char>, n: nat)
    ensures
        repeat_text(s, n + 1) == repeat_text(s, n) + s,
    decreases n,
{
    if n == 0 {
        assert(repeat_text(s, 1) == s + repeat_text(s, 0));
        assert(repeat_text(s, 1) =~= s);
        assert(repeat_text(s, 0) + s =~= s);
    } else {
        lemma_repeat_snoc(s, (n - 1) as nat);
        assert(repeat_text(s, n + 1) == s + repeat_text(s, n));
        assert(repeat_text(s, n) == s + repeat_text(s, (n - 1) as nat));
        assert(s + (repeat_text(s, (n - 1) as nat) + s) =~= (s + repeat_text(s, (n - 1) as nat))
            + s);
    }
}

/// Signed division as the machine computes it: the quotient truncated
/// toward zero.
pub open spec fn trunc_div(x: int, d: int) -> int
    recommends
        d != 0,
{
    if x == 0 {
        0
    } else if x > 0 && d > 0 {
        x / d
    } else if x < 0 && d < 0 {
        (x * -1) / (d * -1)
    } else if x < 0 {
        ((x * -1) / d) * -1
    } else {
        (x / (d * -1)) * -1
    }
}

/// Signed remainder as the machine computes it: it has the sign of the
/// dividend and agrees with `trunc_div`.
pub open spec fn trunc_rem(x: int, d: int) -> int
    recommends
        d != 0,
{
    if x == 0 {
        0
    } else if x > 0 && d > 0 {
        x % d
    } else if x < 0 && d < 0 {
        ((x * -1) % (d * -1)) * -1
    } else if x < 0 {
        ((x * -1) % d) * -1
    } else {
        x % (d * -1)
    }
}

/// Whether an exact integer fits the runtime number type.
pub open spec fn in_number_range(n: int) -> bool {
    i64::MIN <= n <= i64::MAX
}

/// The boolean constant for a truth value.
pub open spec fn bool_val(b: bool) -> SpecValue {
    if b {
        SpecValue::True
    } else {
        SpecValue::False
    }
}

/// The truthiness of `v` when it is used in the position named by
/// `operator`. A callable has no truthiness: asking is a type error.
pub open spec fn truth_test(v: SpecValue, operator: Seq<char>) -> Result<bool, SpecError> {
    if is_callable(v) {
        Err(SpecError::TypeMismatch { operator, operands: seq![type_text(v)] })
    } else {
        Ok(!falsy(v))
    }
}

/// The meaning of a unary operator. Negation and the increment and
/// decrement operators take a number; `!` takes anything with a
/// truthiness; every other token is invalid in unary position.
pub open spec fn apply_unary(t: TokenType, lexeme: Seq<char>, v: SpecValue) -> Result<
    SpecValue,
    SpecError,
> {
    match t {
        TokenType::Minus => match v {
            SpecValue::Num(n) => if n == i64::MIN {
                Err(SpecError::Overflow { operator: lexeme })
            } else {
                Ok(SpecValue::Num((-n) as i64))
            },
            _ => Err(SpecError::TypeMismatch { operator: lexeme, operands: seq![type_text(v)] }),
        },
        TokenType::PlusPlus => match v {
            SpecValue::Num(n) => if n == i64::MAX {
                Err(SpecError::Overflow { operator: lexeme })
            } else {
                Ok(SpecValue::Num((n + 1) as i64))
            },
            _ => Err(SpecError::TypeMismatch { operator: lexeme, operands: seq![type_text(v)] }),
        },
        TokenType::MinusMinus => match v {
            SpecValue::Num(n) => if n == i64::MIN {
                Err(SpecError::Overflow { operator: lexeme })
            } else {
                Ok(SpecValue::Num((n - 1) as i64))
            },
            _ => Err(SpecError::TypeMismatch { operator: lexeme, operands: seq![type_text(v)] }),
        },
        TokenType::Bang => match truth_test(v, lexeme) {
            Ok(b) => Ok(bool_val(!b)),
            Err(e) => Err(e),
        },
        _ => Err(SpecError::InvalidOperator { lexeme }),
    }
}

/// The meaning of a binary operator on two evaluated operands.
///
/// Numbers support arithmetic and ordering; text supports concatenation,
/// concatenation with a number on either side, and repetition by a
/// non-negative number on either side. `==` and `!=` are the universal
/// fallback over value equality, and any other combination is a type
/// error naming the operator and both operand types.
pub open spec fn apply_binary(t: TokenType, lexeme: Seq<char>, a: SpecValue, b: SpecValue) -> Result<
    SpecValue,
    SpecError,
> {
    match (a, b) {
        (SpecValue::Num(x), SpecValue::Num(y)) => match t {
            TokenType::Plus => if in_number_range(x + y) {
                Ok(SpecValue::Num((x + y) as i64))
            } else {
                Err(SpecError::Overflow { operator: lexeme })
            },
            TokenType::Minus => if in_number_range(x - y) {
                Ok(SpecValue::Num((x - y) as i64))
            } else {
                Err(SpecError::Overflow { operator: lexeme })
            },
            TokenType::Star => if in_number_range(x * y) {
                Ok(SpecValue::Num((x * y) as i64))
            } else {
                Err(SpecError::Overflow { operator: lexeme })
            },
            TokenType::Slash => if y == 0 {
                Err(SpecError::DivisionByZero { operator: lexeme })
            } else if in_number_range(trunc_div(x as int, y as int)) {
                Ok(SpecValue::Num(trunc_div(x as int, y as int) as i64))
            } else {
                Err(SpecError::Overflow { operator: lexeme })
            },
            TokenType::Modulo => if y == 0 {
                Err(SpecError::DivisionByZero { operator: lexeme })
            } else if x == i64::MIN && y == -1 {
                Err(SpecError::Overflow { operator: lexeme })
            } else {
                Ok(SpecValue::Num(trunc_rem(x as int, y as int) as i64))
            },
            TokenType::Greater => Ok(bool_val(x > y)),
            TokenType::GreaterEqual => Ok(bool_val(x >= y)),
            TokenType::Less => Ok(bool_val(x < y)),
            TokenType::LessEqual => Ok(bool_val(x <= y)),
            TokenType::EqualEqual => Ok(bool_val(val_eq(a, b))),
            TokenType::BangEqual => Ok(bool_val(!val_eq(a, b))),
            _ => Err(
                SpecError::TypeMismatch {
                    operator: lexeme,
                    operands: seq![type_text(a), type_text(b)],
                },
            ),
        },
        (SpecValue::Str(s1), SpecValue::Str(s2)) => match t {
            TokenType::Plus => Ok(SpecValue::Str(s1 + s2)),
            TokenType::EqualEqual => Ok(bool_val(val_eq(a, b))),
            TokenType::BangEqual => Ok(bool_val(!val_eq(a, b))),
            _ => Err(
                SpecError::TypeMismatch {
                    operator: lexeme,
                    operands: seq![type_text(a), type_text(b)],
                },
            ),
        },
        (SpecValue::Str(s), SpecValue::Num(n)) => match t {
            TokenType::Plus => Ok(SpecValue::Str(s + dec_int(n as int))),
            TokenType::Star => if n < 0 {
                Err(
                    SpecError::TypeMismatch {
                        operator: lexeme,
                        operands: seq![type_text(a), type_text(b)],
                    },
                )
            } else {
                Ok(SpecValue::Str(repeat_text(s, n as nat)))
            },
            TokenType::EqualEqual => Ok(bool_val(val_eq(a, b))),
            TokenType::BangEqual => Ok(bool_val(!val_eq(a, b))),
            _ => Err(
                SpecError::TypeMismatch {
                    operator: lexeme,
                    operands: seq![type_text(a), type_text(b)],
                },
            ),
        },
        (SpecValue::Num(n), SpecValue::Str(s)) => match t {
            TokenType::Plus => Ok(SpecValue::Str(dec_int(n as int) + s)),
            TokenType::Star => if n < 0 {
                Err(
                    SpecError::TypeMismatch {
                        operator: lexeme,
                        operands: seq![type_text(a), type_text(b)],
                    },
                )
            } else {
                Ok(SpecValue::Str(repeat_text(s, n as nat)))
            },
            TokenType::EqualEqual => Ok(bool_val(val_eq(a, b))),
            TokenType::BangEqual => Ok(bool_val(!val_eq(a, b))),
            _ => Err(
                SpecError::TypeMismatch {
                    operator: lexeme,
                    operands: seq![type_text(a), type_text(b)],
                },
            ),
        },
        _ => match t {
            TokenType::EqualEqual => Ok(bool_val(val_eq(a, b))),
            TokenType::BangEqual => Ok(bool_val(!val_eq(a, b))),
            _ => Err(
                SpecError::TypeMismatch {
                    operator: lexeme,
                    operands: seq![type_text(a), type_text(b)],
                },
            ),
        },
    }
}

/// The state after inserting a binding into scope `env` itself.
pub open spec fn define_in(st: State, env: nat, name: Seq<char>, v: SpecValue) -> State
    recommends
        env < st.scopes.len(),
{
    State {
        scopes: st.scopes.update(
            env as int,
            SpecScope {
                vars: st.scopes[env as int].vars.insert(name, v),
                parent: st.scopes[env as int].parent,
            },
        ),
        out: st.out,
        clock: st.clock,
    }
}

/// The first `k` parameters bound to their arguments, in order, a later
/// binding overwriting an earlier one of the same name.
pub open spec fn bind_upto(params: Seq<Seq<char>>, vals: Seq<SpecValue>, k: nat) -> Map<
    Seq<char>,
    SpecValue,
>
    recommends
        k <= params.len(),
        k <= vals.len(),
    decreases k,
{
    if k == 0 {
        Map::empty()
    } else {
        bind_upto(params, vals, (k - 1) as nat).insert(params[k - 1], vals[k - 1])
    }
}

/// The parameter scope of a call: each parameter bound to its argument.
/// A call only reaches this with as many arguments as parameters; should
/// the two ever disagree, the aligned prefix is bound.
pub open spec fn bind_params(params: Seq<Seq<char>>, vals: Seq<SpecValue>) -> Map<
    Seq<char>,
    SpecValue,
>
    recommends
        params.len() == vals.len(),
{
    bind_upto(
        params,
        vals,
        if params.len() <= vals.len() {
            params.len()
        } else {
            vals.len()
        },
    )
}

/// What a native function returns. The clock reports the state's current
/// clock reading.
pub open spec fn call_native(st: State, k: NativeKind) -> (State, Result<SpecValue, SpecHalt>) {
    match k {
        NativeKind::Clock => (st, Ok(SpecValue::Num(st.clock))),
    }
}

/// The value of an expression, together with the state it leaves behind.
pub open spec fn eval_expr(st: State, env: nat, e: Expr, fuel: nat) -> (State, Result<
    SpecValue,
    SpecHalt,
>)
    decreases fuel, e, 0nat,
{
    match e {
        Expr::Literal { value } => (st, Ok(value@)),
        Expr::Grouping { expression } => eval_expr(st, env, *expression, fuel),
        Expr::Variable { name } => (
            st,
            match chain_lookup(st.scopes, env, name.lexeme@) {
                Some(v) => Ok(v),
                None => Err(SpecHalt::Failure(SpecError::Undeclared { name: name.lexeme@ })),
            },
        ),
        Expr::Assignment { name, value } => {
            let (st1, r1) = eval_expr(st, env, *value, fuel);
            match r1 {
                Ok(v) => match chain_assign(st1.scopes, env, name.lexeme@, v) {
                    Some(scopes2) => (
                        State { scopes: scopes2, out: st1.out, clock: st1.clock },
                        Ok(v),
                    ),
                    None => (
                        st1,
                        Err(SpecHalt::Failure(SpecError::Undeclared { name: name.lexeme@ })),
                    ),
                },
                Err(h) => (st1, Err(h)),
            }
        },
        Expr::Unary { operator, val } => {
            let (st1, r1) = eval_expr(st, env, *val, fuel);
            match r1 {
                Ok(v) => (
                    st1,
                    match apply_unary(operator.token_type, operator.lexeme@, v) {
                        Ok(v2) => Ok(v2),
                        Err(er) => Err(SpecHalt::Failure(er)),
                    },
                ),
                Err(h) => (st1, Err(h)),
            }
        },
        Expr::Binary { left, right, operator } => {
            let (st1, r1) = eval_expr(st, env, *left, fuel);
            match r1 {
                Ok(v1) => {
                    let (st2, r2) = eval_expr(st1, env, *right, fuel);
                    match r2 {
                        Ok(v2) => (
                            st2,
                            match apply_binary(operator.token_type, operator.lexeme@, v1, v2) {
                                Ok(v3) => Ok(v3),
                                Err(er) => Err(SpecHalt::Failure(er)),
                            },
                        ),
                        Err(h) => (st2, Err(h)),
                    }
                },
                Err(h) => (st1, Err(h)),
            }
        },
        Expr::Logical { left, right, operator } => match operator.token_type {
            TokenType::Or => {
                let (st1, r1) = eval_expr(st, env, *left, fuel);
                match r1 {
                    Ok(v1) => match truth_test(v1, operator.lexeme@) {
                        Ok(b1) => if b1 {
                            (st1, Ok(v1))
                        } else {
                            eval_expr(st1, env, *right, fuel)
                        },
                        Err(er) => (st1, Err(SpecHalt::Failure(er))),
                    },
                    Err(h) => (st1, Err(h)),
                }
            },
            TokenType::And => {
                let (st1, r1) = eval_expr(st, env, *left, fuel);
                match r1 {
                    Ok(v1) => match truth_test(v1, operator.lexeme@) {
                        Ok(b1) => {
                            let (st2, r2) = eval_expr(st1, env, *right, fuel);
                            match r2 {
                                Ok(v2) => match truth_test(v2, operator.lexeme@) {
                                    Ok(b2) => (st2, Ok(bool_val(b1 && b2))),
                                    Err(er) => (st2, Err(SpecHalt::Failure(er))),
                                },
                                Err(h) => (st2, Err(h)),
                            }
                        },
                        Err(er) => (st1, Err(SpecHalt::Failure(er))),
                    },
                    Err(h) => (st1, Err(h)),
                }
            },
            _ => (
                st,
                Err(SpecHalt::Failure(SpecError::InvalidOperator { lexeme: operator.lexeme@ })),
            ),
        },
        Expr::Call { callee, paren, arguments } => {
            let (st1, r1) = eval_expr(st, env, *callee, fuel);
            match r1 {
                Ok(SpecValue::Callable { name, arity, fun }) => {
                    let (st2, r2) = eval_args(st1, env, arguments@, 0, Seq::empty(), fuel);
                    match r2 {
                        Ok(vals) => if vals.len() != arity {
                            (
                                st2,
                                Err(
                                    SpecHalt::Failure(
                                        SpecError::Arity {
                                            callee: name,
                                            expected: arity,
                                            got: vals.len(),
                                        },
                                    ),
                                ),
                            )
                        } else {
                            match fun {
                                SpecFun::Native(k) => call_native(st2, k),
                                SpecFun::User { params, body, env: cenv } => {
                                    if fuel == 0 {
                                        (st2, Err(SpecHalt::OutOfFuel))
                                    } else {
                                        call_user(st2, params, body, cenv, vals, (fuel - 1) as nat)
                                    }
                                },
                            }
                        },
                        Err(h) => (st2, Err(h)),
                    }
                },
                Ok(v) => (
                    st1,
                    Err(
                        SpecHalt::Failure(
                            SpecError::TypeMismatch {
                                operator: paren.lexeme@,
                                operands: seq![type_text(v)],
                            },
                        ),
                    ),
                ),
                Err(h) => (st1, Err(h)),
            }
        },
    }
}

/// One invocation of a user function, its fuel already paid: a fresh
/// scope under the function's captured environment, the parameters bound
/// to the arguments, the body run in order — and a pending return, from
/// however deep inside the body, becomes the call's result; a body that
/// completes without one yields `Non`.
pub open spec fn call_user(
    st: State,
    params: Seq<Seq<char>>,
    body: Seq<Stmt>,
    cenv: nat,
    vals: Seq<SpecValue>,
    fuel: nat,
) -> (State, Result<SpecValue, SpecHalt>)
    decreases fuel, body, body.len() + 1,
{
    let fresh = st.scopes.len();
    let st3 = State {
        scopes: st.scopes.push(SpecScope { vars: bind_params(params, vals), parent: Some(cenv) }),
        out: st.out,
        clock: st.clock,
    };
    let (st4, r4) = exec_stmts(st3, fresh, body, 0, fuel);
    match r4 {
        Ok(SpecFlow::Normal) => (st4, Ok(SpecValue::Non)),
        Ok(SpecFlow::Return(v)) => (st4, Ok(v)),
        Err(h) => (st4, Err(h)),
    }
}

/// The argument values of a call, evaluated left to right after the
/// already-evaluated prefix `vals`.
pub open spec fn eval_args(
    st: State,
    env: nat,
    es: Seq<Expr>,
    i: nat,
    vals: Seq<SpecValue>,
    fuel: nat,
) -> (State, Result<Seq<SpecValue>, SpecHalt>)
    decreases fuel, es, es.len() - i,
{
    if i >= es.len() {
        (st, Ok(vals))
    } else {
        let (st1, r1) = eval_expr(st, env, es[i as int], fuel);
        match r1 {
            Ok(v) => eval_args(st1, env, es, i + 1, vals.push(v), fuel),
            Err(h) => (st1, Err(h)),
        }
    }
}

/// The effect of one statement.
pub open spec fn exec_stmt(st: State, env: nat, s: Stmt, fuel: nat) -> (State, Result<
    SpecFlow,
    SpecHalt,
>)
    decreases fuel, s, 0nat,
{
    match s {
        Stmt::Expression { expression } => {
            let (st1, r) = eval_expr(st, env, expression, fuel);
            match r {
                Ok(_) => (st1, Ok(SpecFlow::Normal)),
                Err(h) => (st1, Err(h)),
            }
        },
        Stmt::Print { expression } => {
            let (st1, r) = eval_expr(st, env, expression, fuel);
            match r {
                Ok(v) => (
                    State { scopes: st1.scopes, out: st1.out.push(display(v)), clock: st1.clock },
                    Ok(SpecFlow::Normal),
                ),
                Err(h) => (st1, Err(h)),
            }
        },
        Stmt::Var { name, initialiser } => {
            let (st1, r) = eval_expr(st, env, initialiser, fuel);
            match r {
                Ok(v) => (define_in(st1, env, name.lexeme@, v), Ok(SpecFlow::Normal)),
                Err(h) => (st1, Err(h)),
            }
        },
        Stmt::Block { statements } => {
            let fresh = st.scopes.len();
            let st1 = State {
                scopes: st.scopes.push(SpecScope { vars: Map::empty(), parent: Some(env) }),
                out: st.out,
                clock: st.clock,
            };
            exec_stmts(st1, fresh, statements@, 0, fuel)
        },
        Stmt::IfStmt { condition, then_branch, else_branch } => {
            let (st1, r) = eval_expr(st, env, condition, fuel);
            match r {
                Ok(v) => match truth_test(v, "if"@) {
                    Ok(b) => if b {
                        exec_stmt(st1, env, *then_branch, fuel)
                    } else {
                        match else_branch {
                            Some(other) => exec_stmt(st1, env, *other, fuel),
                            None => (st1, Ok(SpecFlow::Normal)),
                        }
                    },
                    Err(er) => (st1, Err(SpecHalt::Failure(er))),
                },
                Err(h) => (st1, Err(h)),
            }
        },
        Stmt::WhileStmt { condition, body } => {
            let (st1, r) = eval_expr(st, env, condition, fuel);
            match r {
                Ok(v) => match truth_test(v, "while"@) {
                    Ok(b) => if !b {
                        (st1, Ok(SpecFlow::Normal))
                    } else {
                        let (st2, r2) = exec_stmt(st1, env, *body, fuel);
                        match r2 {
                            Ok(SpecFlow::Normal) => if fuel == 0 {
                                (st2, Err(SpecHalt::OutOfFuel))
                            } else {
                                exec_stmt(st2, env, s, (fuel - 1) as nat)
                            },
                            Ok(SpecFlow::Return(v2)) => (st2, Ok(SpecFlow::Return(v2))),
                            Err(h) => (st2, Err(h)),
                        }
                    },
                    Err(er) => (st1, Err(SpecHalt::Failure(er))),
                },
                Err(h) => (st1, Err(h)),
            }
        },
        Stmt::Function { name, params, body } => {
            let v = SpecValue::Callable {
                name: name.lexeme@,
                arity: (*params)@.len() as nat,
                fun: SpecFun::User { params: param_names((*params)@), body: (*body)@, env },
            };
            (define_in(st, env, name.lexeme@, v), Ok(SpecFlow::Normal))
        },
        Stmt::ReturnStmt { keyword: _, value } => match value {
            Some(e) => {
                let (st1, r) = eval_expr(st, env, e, fuel);
                match r {
                    Ok(v) => (st1, Ok(SpecFlow::Return(v))),
                    Err(h) => (st1, Err(h)),
                }
            },
            None => (st, Ok(SpecFlow::Return(SpecValue::Non))),
        },
    }
}

/// The effect of the statements of a sequence from position `i` on, in
/// order, stopping at the first pending return or halt.
pub open spec fn exec_stmts(st: State, env: nat, ss: Seq<Stmt>, i: nat, fuel: nat) -> (State, Result<
    SpecFlow,
    SpecHalt,
>)
    decreases fuel, ss, ss.len() - i,
{
    if i >= ss.len() {
        (st, Ok(SpecFlow::Normal))
    } else {
        let (st1, r) = exec_stmt(st, env, ss[i as int], fuel);
        match r {
            Ok(SpecFlow::Normal) => exec_stmts(st1, env, ss, i + 1, fuel),
            Ok(SpecFlow::Return(v)) => (st1, Ok(SpecFlow::Return(v))),
            Err(h) => (st1, Err(h)),
        }
    }
}

/// A whole program run at the root scope: before each top-level statement
/// the clock is refreshed with the next reading from `ticks`, and execution
/// stops at the first halt. A top-level pending return ends the run
/// without failing.
pub open spec fn run_program(st: State, stmts: Seq<Stmt>, fuel: nat, ticks: Seq<i64>) -> (
    State,
    Result<(), SpecHalt>,
)
    decreases stmts.len(),
{
    if stmts.len() == 0 {
        (st, Ok(()))
    } else {
        let st0 = State {
            scopes: st.scopes,
            out: st.out,
            clock: if ticks.len() > 0 {
                ticks[0]
            } else {
                st.clock
            },
        };
        let (st1, r) = exec_stmt(st0, 0, stmts[0], fuel);
        match r {
            Ok(SpecFlow::Normal) => run_program(st1, stmts.drop_first(), fuel, ticks.drop_first()),
            Ok(SpecFlow::Return(_)) => (st1, Ok(())),
            Err(h) => (st1, Err(h)),
        }
    }
}

/// The state a fresh interpreter starts from: a single root scope holding
/// the native clock, nothing printed, the clock at zero.
pub open spec fn init_state() -> State {
    State {
        scopes: seq![
            SpecScope {
                vars: Map::empty().insert(
                    "clock"@,
                    SpecValue::Callable {
                        name: "clock"@,
                        arity: 0,
                        fun: SpecFun::Native(NativeKind::Clock),
                    },
                ),
                parent: None,
            },
        ],
        out: Seq::empty(),
        clock: 0,
    }
}

} // verus!
