//! The executable interpreter.
//!
//! An [`Interpreter`] owns the scope arena, the output collected so far and
//! the latest clock reading, and is a faithful implementation of the
//! semantics: every method's contract states that it computes exactly the
//! corresponding spec function of [`crate::semantics`] on the state's
//! mathematical image.

use crate::clock::Clock;
use crate::environment::{Environment, SpecScope};
use crate::errors::{Flow, Halt, RuntimeError, SpecFlow, SpecHalt};
use crate::expr::Expr;
use crate::literals::{Fun, LiteralValue, NativeKind, SpecValue};
use crate::numbers::i64_to_string;
use crate::semantics;
use crate::semantics::State;
use crate::stmt::Stmt;
use crate::token::{Token, TokenType};
use std::rc::Rc;
use vstd::prelude::*;
use vstd::string::StringExecFns;

verus! {

/// The image of a list of printed lines.
pub open spec fn out_view(ss: Seq<String>) -> Seq<Seq<char>> {
    Seq::new(ss.len(), |i: int| ss[i]@)
}

/// The image of a list of values.
pub open spec fn vals_view(vs: Seq<LiteralValue>) -> Seq<SpecValue> {
    Seq::new(vs.len(), |i: int| vs[i]@)
}

/// The truthiness of a value in the position named by `operator`, or the
/// type error for asking a callable.
fn truth_of(v: &LiteralValue, operator: &str) -> (r: Result<bool, RuntimeError>)
    ensures
        (match (r, semantics::truth_test(v@, operator@)) {
            (Ok(b1), Ok(b2)) => b1 == b2,
            (Err(e1), Err(e2)) => e1@ == e2,
            _ => false,
        }),
{
    match v {
        LiteralValue::Callable { .. } => {
            let mut operands: Vec<String> = Vec::new();
            operands.push(v.to_type().to_owned());
            let e = RuntimeError::TypeMismatch { operator: operator.to_owned(), operands };
            proof {
                assert(e@->operands =~= seq![crate::literals::type_text(v@)]);
            }
            Err(e)
        },
        _ => {
            let f = v.is_falsy();
            match f {
                LiteralValue::True => Ok(false),
                _ => Ok(true),
            }
        },
    }
}

/// The type-mismatch error for `operator` applied to the two operands.
fn mismatch2(lexeme: &String, a: &LiteralValue, b: &LiteralValue) -> (e: RuntimeError)
    ensures
        e@ == (crate::errors::SpecError::TypeMismatch {
            operator: lexeme@,
            operands: seq![
                crate::literals::type_text(a@),
                crate::literals::type_text(b@),
            ],
        }),
{
    let mut operands: Vec<String> = Vec::new();
    operands.push(a.to_type().to_owned());
    operands.push(b.to_type().to_owned());
    let e = RuntimeError::TypeMismatch { operator: lexeme.clone(), operands };
    proof {
        assert(e@->operands =~= seq![
            crate::literals::type_text(a@),
            crate::literals::type_text(b@),
        ]);
    }
    e
}

/// `s` repeated `n` times.
fn repeat_string(s: &str, n: u64) -> (r: String)
    ensures
        r@ == semantics::repeat_text(s@, n as nat),
{
    let mut out = String::new();
    let mut i: u64 = 0;
    while i < n
        invariant
            i <= n,
            out@ == semantics::repeat_text(s@, i as nat),
        decreases n - i,
    {
        out.append(s);
        proof {
            semantics::lemma_repeat_snoc(s@, i as nat);
        }
        i = i + 1;
    }
    out
}

/// The value of a unary operator application, computed as `apply_unary`
/// says.
fn unary_value(operator: &Token, v: LiteralValue) -> (r: Result<LiteralValue, RuntimeError>)
    ensures
        (match (r, semantics::apply_unary(operator.token_type, operator.lexeme@, v@)) {
            (Ok(a), Ok(b)) => a@ == b,
            (Err(x), Err(y)) => x@ == y,
            _ => false,
        }),
{
    match operator.token_type {
        TokenType::Minus => match &v {
            LiteralValue::NumberValue(n) => {
                if *n == i64::MIN {
                    Err(RuntimeError::NumericOverflow { operator: operator.lexeme.clone() })
                } else {
                    Ok(LiteralValue::NumberValue(-*n))
                }
            },
            _ => {
                let mut operands: Vec<String> = Vec::new();
                operands.push(v.to_type().to_owned());
                let e = RuntimeError::TypeMismatch {
                    operator: operator.lexeme.clone(),
                    operands,
                };
                proof {
                    assert(e@->operands =~= seq![crate::literals::type_text(v@)]);
                }
                Err(e)
            },
        },
        TokenType::PlusPlus => match &v {
            LiteralValue::NumberValue(n) => {
                if *n == i64::MAX {
                    Err(RuntimeError::NumericOverflow { operator: operator.lexeme.clone() })
                } else {
                    Ok(LiteralValue::NumberValue(*n + 1))
                }
            },
            _ => {
                let mut operands: Vec<String> = Vec::new();
                operands.push(v.to_type().to_owned());
                let e = RuntimeError::TypeMismatch {
                    operator: operator.lexeme.clone(),
                    operands,
                };
                proof {
                    assert(e@->operands =~= seq![crate::literals::type_text(v@)]);
                }
                Err(e)
            },
        },
        TokenType::MinusMinus => match &v {
            LiteralValue::NumberValue(n) => {
                if *n == i64::MIN {
                    Err(RuntimeError::NumericOverflow { operator: operator.lexeme.clone() })
                } else {
                    Ok(LiteralValue::NumberValue(*n - 1))
                }
            },
            _ => {
                let mut operands: Vec<String> = Vec::new();
                operands.push(v.to_type().to_owned());
                let e = RuntimeError::TypeMismatch {
                    operator: operator.lexeme.clone(),
                    operands,
                };
                proof {
                    assert(e@->operands =~= seq![crate::literals::type_text(v@)]);
                }
                Err(e)
            },
        },
        TokenType::Bang => match truth_of(&v, operator.lexeme.as_str()) {
            Ok(b) => Ok(LiteralValue::from_bool(!b)),
            Err(e) => Err(e),
        },
        _ => Err(RuntimeError::InvalidOperator { lexeme: operator.lexeme.clone() }),
    }
}

/// The value of a binary operator application, computed as `apply_binary`
/// says.
fn binary_value(operator: &Token, a: LiteralValue, b: LiteralValue) -> (r: Result<
    LiteralValue,
    RuntimeError,
>)
    ensures
        (match (r, semantics::apply_binary(operator.token_type, operator.lexeme@, a@, b@)) {
            (Ok(x), Ok(y)) => x@ == y,
            (Err(x), Err(y)) => x@ == y,
            _ => false,
        }),
{
    match (&a, &b) {
        (LiteralValue::NumberValue(x), LiteralValue::NumberValue(y)) => {
            match operator.token_type {
                TokenType::Plus => match x.checked_add(*y) {
                    Some(z) => Ok(LiteralValue::NumberValue(z)),
                    None => Err(
                        RuntimeError::NumericOverflow { operator: operator.lexeme.clone() },
                    ),
                },
                TokenType::Minus => match x.checked_sub(*y) {
                    Some(z) => Ok(LiteralValue::NumberValue(z)),
                    None => Err(
                        RuntimeError::NumericOverflow { operator: operator.lexeme.clone() },
                    ),
                },
                TokenType::Star => match x.checked_mul(*y) {
                    Some(z) => Ok(LiteralValue::NumberValue(z)),
                    None => Err(
                        RuntimeError::NumericOverflow { operator: operator.lexeme.clone() },
                    ),
                },
                TokenType::Slash => {
                    if *y == 0 {
                        Err(RuntimeError::DivisionByZero { operator: operator.lexeme.clone() })
                    } else {
                        match x.checked_div(*y) {
                            Some(z) => {
                                proof {
                                    assert(z as int == semantics::trunc_div(
                                        *x as int,
                                        *y as int,
                                    ));
                                }
                                Ok(LiteralValue::NumberValue(z))
                            },
                            None => Err(
                                RuntimeError::NumericOverflow {
                                    operator: operator.lexeme.clone(),
                                },
                            ),
                        }
                    }
                },
                TokenType::Modulo => {
                    if *y == 0 {
                        Err(RuntimeError::DivisionByZero { operator: operator.lexeme.clone() })
                    } else {
                        match x.checked_rem(*y) {
                            Some(z) => {
                                proof {
                                    assert(z as int == semantics::trunc_rem(
                                        *x as int,
                                        *y as int,
                                    ));
                                }
                                Ok(LiteralValue::NumberValue(z))
                            },
                            None => Err(
                                RuntimeError::NumericOverflow {
                                    operator: operator.lexeme.clone(),
                                },
                            ),
                        }
                    }
                },
                TokenType::Greater => Ok(LiteralValue::from_bool(*x > *y)),
                TokenType::GreaterEqual => Ok(LiteralValue::from_bool(*x >= *y)),
                TokenType::Less => Ok(LiteralValue::from_bool(*x < *y)),
                TokenType::LessEqual => Ok(LiteralValue::from_bool(*x <= *y)),
                TokenType::EqualEqual => Ok(LiteralValue::from_bool(a.equals(&b))),
                TokenType::BangEqual => Ok(LiteralValue::from_bool(!a.equals(&b))),
                _ => Err(mismatch2(&operator.lexeme, &a, &b)),
            }
        },
        (LiteralValue::StringValue(s1), LiteralValue::StringValue(s2)) => {
            match operator.token_type {
                TokenType::Plus => {
                    let joined = s1.clone().concat(s2.as_str());
                    Ok(LiteralValue::StringValue(joined))
                },
                TokenType::EqualEqual => Ok(LiteralValue::from_bool(a.equals(&b))),
                TokenType::BangEqual => Ok(LiteralValue::from_bool(!a.equals(&b))),
                _ => Err(mismatch2(&operator.lexeme, &a, &b)),
            }
        },
        (LiteralValue::StringValue(s), LiteralValue::NumberValue(n)) => {
            match operator.token_type {
                TokenType::Plus => {
                    let digits = i64_to_string(*n);
                    let joined = s.clone().concat(digits.as_str());
                    Ok(LiteralValue::StringValue(joined))
                },
                TokenType::Star => {
                    if *n < 0 {
                        Err(mismatch2(&operator.lexeme, &a, &b))
                    } else {
                        Ok(LiteralValue::StringValue(repeat_string(s.as_str(), *n as u64)))
                    }
                },
                TokenType::EqualEqual => Ok(LiteralValue::from_bool(a.equals(&b))),
                TokenType::BangEqual => Ok(LiteralValue::from_bool(!a.equals(&b))),
                _ => Err(mismatch2(&operator.lexeme, &a, &b)),
            }
        },
        (LiteralValue::NumberValue(n), LiteralValue::StringValue(s)) => {
            match operator.token_type {
                TokenType::Plus => {
                    let digits = i64_to_string(*n);
                    let joined = digits.concat(s.as_str());
                    Ok(LiteralValue::StringValue(joined))
                },
                TokenType::Star => {
                    if *n < 0 {
                        Err(mismatch2(&operator.lexeme, &a, &b))
                    } else {
                        Ok(LiteralValue::StringValue(repeat_string(s.as_str(), *n as u64)))
                    }
                },
                TokenType::EqualEqual => Ok(LiteralValue::from_bool(a.equals(&b))),
                TokenType::BangEqual => Ok(LiteralValue::from_bool(!a.equals(&b))),
                _ => Err(mismatch2(&operator.lexeme, &a, &b)),
            }
        },
        _ => match operator.token_type {
            TokenType::EqualEqual => Ok(LiteralValue::from_bool(a.equals(&b))),
            TokenType::BangEqual => Ok(LiteralValue::from_bool(!a.equals(&b))),
            _ => Err(mismatch2(&operator.lexeme, &a, &b)),
        },
    }
}

/// The interpreter: the scope arena, everything printed so far, the clock
/// and its latest reading, and the ghost log of all readings taken.
pub struct Interpreter {
    env: Environment,
    output: Vec<String>,
    clock: Clock,
    now: i64,
    ticks: Ghost<Seq<i64>>,
}

impl View for Interpreter {
    type V = State;

    closed spec fn view(&self) -> State {
        State { scopes: self.env@, out: out_view(self.output@), clock: self.now }
    }
}

impl Interpreter {
    /// The log of clock readings taken so far.
    pub closed spec fn ticks(&self) -> Seq<i64> {
        self.ticks@
    }

    /// A fresh interpreter: a single root scope holding the native clock,
    /// nothing printed yet.
    pub fn new() -> (r: Interpreter)
        ensures
            r@ == semantics::init_state(),
            r.ticks() == Seq::<i64>::empty(),
    {
        let mut env = Environment::new();
        env.define(
            0,
            String::from_str("clock"),
            LiteralValue::Callable {
                name: String::from_str("clock"),
                arity: 0,
                fun: Fun::Native(NativeKind::Clock),
            },
        );
        let r = Interpreter {
            env,
            output: Vec::new(),
            clock: Clock::new(),
            now: 0,
            ticks: Ghost(Seq::empty()),
        };
        proof {
            assert(r@.scopes =~= semantics::init_state().scopes);
            assert(r@.out =~= semantics::init_state().out);
            assert(r@ =~= semantics::init_state());
        }
        r
    }

    /// The lines printed so far, oldest first.
    pub fn output(&self) -> (r: &Vec<String>)
        ensures
            out_view(r@) == self@.out,
    {
        &self.output
    }

    /// Evaluates one expression: exactly `semantics::eval_expr` on the
    /// state's image.
    fn eval(&mut self, env: usize, e: &Expr, fuel: u64) -> (r: Result<LiteralValue, Halt>)
        requires
            env < old(self)@.scopes.len(),
        ensures
            ({
                let (st2, out) = semantics::eval_expr(old(self)@, env as nat, *e, fuel as nat);
                &&& final(self)@ == st2
                &&& eval_matches(r, out)
            }),
            final(self)@.scopes.len() >= old(self)@.scopes.len(),
            final(self).ticks() == old(self).ticks(),
        decreases fuel, *e, 0nat,
    {
        match e {
            Expr::Literal { value } => Ok(value.duplicate()),
            Expr::Grouping { expression } => self.eval(env, expression, fuel),
            Expr::Variable { name } => {
                match self.env.get(env, name.lexeme.as_str()) {
                    Some(v) => Ok(v),
                    None => Err(
                        Halt::Failure(
                            RuntimeError::UndeclaredVariable { name: name.lexeme.clone() },
                        ),
                    ),
                }
            },
            Expr::Assignment { name, value } => {
                let rv = self.eval(env, value, fuel);
                match rv {
                    Ok(v) => {
                        proof {
                            crate::environment::lemma_chain_assign_shape(
                                self@.scopes,
                                env as nat,
                                name.lexeme@,
                                v@,
                            );
                        }
                        let dup = v.duplicate();
                        let ok = self.env.assign(env, name.lexeme.as_str(), dup);
                        if ok {
                            Ok(v)
                        } else {
                            Err(
                                Halt::Failure(
                                    RuntimeError::UndeclaredVariable { name: name.lexeme.clone() },
                                ),
                            )
                        }
                    },
                    Err(h) => Err(h),
                }
            },
            Expr::Unary { operator, val } => {
                let rv = self.eval(env, val, fuel);
                match rv {
                    Ok(v) => match unary_value(operator, v) {
                        Ok(v2) => Ok(v2),
                        Err(er) => Err(Halt::Failure(er)),
                    },
                    Err(h) => Err(h),
                }
            },
            Expr::Binary { left, right, operator } => {
                let rl = self.eval(env, left, fuel);
                match rl {
                    Ok(v1) => {
                        let rr = self.eval(env, right, fuel);
                        match rr {
                            Ok(v2) => match binary_value(operator, v1, v2) {
                                Ok(v3) => Ok(v3),
                                Err(er) => Err(Halt::Failure(er)),
                            },
                            Err(h) => Err(h),
                        }
                    },
                    Err(h) => Err(h),
                }
            },
            Expr::Logical { left, right, operator } => {
                match operator.token_type {
                    TokenType::Or => {
                        let rl = self.eval(env, left, fuel);
                        match rl {
                            Ok(v1) => match truth_of(&v1, operator.lexeme.as_str()) {
                                Ok(b1) => {
                                    if b1 {
                                        Ok(v1)
                                    } else {
                                        self.eval(env, right, fuel)
                                    }
                                },
                                Err(er) => Err(Halt::Failure(er)),
                            },
                            Err(h) => Err(h),
                        }
                    },
                    TokenType::And => {
                        let rl = self.eval(env, left, fuel);
                        match rl {
                            Ok(v1) => match truth_of(&v1, operator.lexeme.as_str()) {
                                Ok(b1) => {
                                    let rr = self.eval(env, right, fuel);
                                    match rr {
                                        Ok(v2) => match truth_of(&v2, operator.lexeme.as_str()) {
                                            Ok(b2) => Ok(LiteralValue::from_bool(b1 && b2)),
                                            Err(er) => Err(Halt::Failure(er)),
                                        },
                                        Err(h) => Err(h),
                                    }
                                },
                                Err(er) => Err(Halt::Failure(er)),
                            },
                            Err(h) => Err(h),
                        }
                    },
                    _ => Err(
                        Halt::Failure(
                            RuntimeError::InvalidOperator { lexeme: operator.lexeme.clone() },
                        ),
                    ),
                }
            },
            Expr::Call { callee, paren, arguments } => {
                let rc = self.eval(env, callee, fuel);
                match rc {
                    Ok(LiteralValue::Callable { name, arity, fun }) => {
                        let no_vals: Vec<LiteralValue> = Vec::new();
                        proof {
                            assert(vals_view(no_vals@) =~= Seq::<SpecValue>::empty());
                        }
                        let ra = self.eval_args(env, arguments, 0, no_vals, fuel);
                        match ra {
                            Ok(vals) => {
                                if vals.len() != arity {
                                    Err(
                                        Halt::Failure(
                                            RuntimeError::ArityMismatch {
                                                callee: name,
                                                expected: arity,
                                                got: vals.len(),
                                            },
                                        ),
                                    )
                                } else {
                                    match fun {
                                        Fun::Native(k) => match k {
                                            NativeKind::Clock => Ok(
                                                LiteralValue::NumberValue(self.now),
                                            ),
                                        },
                                        Fun::User { params, body, env: cenv } => {
                                            if fuel == 0 {
                                                Err(Halt::OutOfFuel)
                                            } else {
                                                self.call_user(cenv, &params, &body, vals, fuel - 1)
                                            }
                                        },
                                    }
                                }
                            },
                            Err(h) => Err(h),
                        }
                    },
                    Ok(v) => {
                        let mut operands: Vec<String> = Vec::new();
                        operands.push(v.to_type().to_owned());
                        let er = RuntimeError::TypeMismatch {
                            operator: paren.lexeme.clone(),
                            operands,
                        };
                        proof {
                            assert(er@->operands =~= seq![crate::literals::type_text(v@)]);
                        }
                        Err(Halt::Failure(er))
                    },
                    Err(h) => Err(h),
                }
            },
        }
    }

    /// Runs a user function body: opens the parameter scope under the
    /// captured environment, binds the arguments, executes the body, and
    /// turns a pending return into the call's result.
    fn call_user(
        &mut self,
        cenv: usize,
        params: &Rc<Vec<Token>>,
        body: &Rc<Vec<Stmt>>,
        vals: Vec<LiteralValue>,
        fuel: u64,
    ) -> (r: Result<LiteralValue, Halt>)
        ensures
            ({
                let (st4, r4) = semantics::call_user(
                    old(self)@,
                    crate::literals::param_names((**params)@),
                    (**body)@,
                    cenv as nat,
                    vals_view(vals@),
                    fuel as nat,
                );
                &&& final(self)@ == st4
                &&& eval_matches(r, r4)
            }),
            final(self)@.scopes.len() >= old(self)@.scopes.len(),
            final(self).ticks() == old(self).ticks(),
        decreases fuel, (**body)@, (**body)@.len() + 1nat,
    {
        let ghost pn = crate::literals::param_names((**params)@);
        let ghost vv = vals_view(vals@);
        let fresh = self.env.push_scope(cenv);
        let ps: &Vec<Token> = &**params;
        let mut i: usize = 0;
        while i < ps.len() && i < vals.len()
            invariant
                i <= ps@.len(),
                i <= vals@.len(),
                fresh == old(self)@.scopes.len(),
                fresh < self@.scopes.len(),
                pn == crate::literals::param_names(ps@),
                vv == vals_view(vals@),
                self@.scopes =~= old(self)@.scopes.push(
                    SpecScope { vars: semantics::bind_upto(pn, vv, i as nat), parent: Some(
                        cenv as nat,
                    ) },
                ),
                self@.out == old(self)@.out,
                self@.clock == old(self)@.clock,
                self.ticks() == old(self).ticks(),
            decreases ps@.len() - i,
        {
            let nm = ps[i].lexeme.clone();
            let dup = vals[i].duplicate();
            self.env.define(fresh, nm, dup);
            proof {
                assert(semantics::bind_upto(pn, vv, (i + 1) as nat) == semantics::bind_upto(
                    pn,
                    vv,
                    i as nat,
                ).insert(pn[i as int], vv[i as int]));
                assert(pn[i as int] == ps@[i as int].lexeme@);
                assert(vv[i as int] == vals@[i as int]@);
                assert(self@.scopes =~= old(self)@.scopes.push(
                    SpecScope { vars: semantics::bind_upto(pn, vv, (i + 1) as nat), parent: Some(
                        cenv as nat,
                    ) },
                ));
            }
            i = i + 1;
        }
        proof {
            assert(semantics::bind_upto(pn, vv, i as nat) == semantics::bind_params(pn, vv));
        }
        let body_ref: &Vec<Stmt> = &**body;
        let rb = self.exec_stmts(fresh, body_ref, 0, fuel);
        match rb {
            Ok(Flow::Normal) => Ok(LiteralValue::Non),
            Ok(Flow::Return(v)) => Ok(v),
            Err(h) => Err(h),
        }
    }

    /// Evaluates the remaining arguments of a call, left to right, after
    /// the already-evaluated prefix `vals`: exactly `semantics::eval_args`.
    fn eval_args(
        &mut self,
        env: usize,
        es: &Vec<Expr>,
        i: usize,
        vals: Vec<LiteralValue>,
        fuel: u64,
    ) -> (r: Result<Vec<LiteralValue>, Halt>)
        requires
            env < old(self)@.scopes.len(),
        ensures
            ({
                let (st2, out) = semantics::eval_args(
                    old(self)@,
                    env as nat,
                    es@,
                    i as nat,
                    vals_view(vals@),
                    fuel as nat,
                );
                &&& final(self)@ == st2
                &&& (match (r, out) {
                    (Ok(vs), Ok(sm)) => vals_view(vs@) == sm,
                    (Err(h), Err(hm)) => h@ == hm,
                    _ => false,
                })
            }),
            final(self)@.scopes.len() >= old(self)@.scopes.len(),
            final(self).ticks() == old(self).ticks(),
        decreases fuel, es@, es@.len() - i,
    {
        if i >= es.len() {
            Ok(vals)
        } else {
            let rv = self.eval(env, &es[i], fuel);
            match rv {
                Ok(v) => {
                    let ghost vv = vals_view(vals@);
                    let ghost vm = v@;
                    let mut vals2 = vals;
                    vals2.push(v);
                    proof {
                        assert(vals_view(vals2@) =~= vv.push(vm));
                    }
                    self.eval_args(env, es, i + 1, vals2, fuel)
                },
                Err(h) => Err(h),
            }
        }
    }

    /// Executes one statement: exactly `semantics::exec_stmt`.
    fn exec_stmt(&mut self, env: usize, s: &Stmt, fuel: u64) -> (r: Result<Flow, Halt>)
        requires
            env < old(self)@.scopes.len(),
        ensures
            ({
                let (st2, out) = semantics::exec_stmt(old(self)@, env as nat, *s, fuel as nat);
                &&& final(self)@ == st2
                &&& flow_matches(r, out)
            }),
            final(self)@.scopes.len() >= old(self)@.scopes.len(),
            final(self).ticks() == old(self).ticks(),
        decreases fuel, *s, 0nat,
    {
        match s {
            Stmt::Expression { expression } => {
                let rv = self.eval(env, expression, fuel);
                match rv {
                    Ok(_) => Ok(Flow::Normal),
                    Err(h) => Err(h),
                }
            },
            Stmt::Print { expression } => {
                let rv = self.eval(env, expression, fuel);
                match rv {
                    Ok(v) => {
                        let ghost mid_out = self.output@;
                        let line = v.to_string();
                        self.output.push(line);
                        proof {
                            assert(out_view(self.output@) =~= out_view(mid_out).push(
                                crate::literals::display(v@),
                            ));
                        }
                        Ok(Flow::Normal)
                    },
                    Err(h) => Err(h),
                }
            },
            Stmt::Var { name, initialiser } => {
                let rv = self.eval(env, initialiser, fuel);
                match rv {
                    Ok(v) => {
                        self.env.define(env, name.lexeme.clone(), v);
                        Ok(Flow::Normal)
                    },
                    Err(h) => Err(h),
                }
            },
            Stmt::Block { statements } => {
                let fresh = self.env.push_scope(env);
                self.exec_stmts(fresh, statements, 0, fuel)
            },
            Stmt::IfStmt { condition, then_branch, else_branch } => {
                let rv = self.eval(env, condition, fuel);
                match rv {
                    Ok(v) => match truth_of(&v, "if") {
                        Ok(b) => {
                            if b {
                                self.exec_stmt(env, then_branch, fuel)
                            } else {
                                match else_branch {
                                    Some(other) => self.exec_stmt(env, other, fuel),
                                    None => Ok(Flow::Normal),
                                }
                            }
                        },
                        Err(er) => Err(Halt::Failure(er)),
                    },
                    Err(h) => Err(h),
                }
            },
            Stmt::WhileStmt { condition, body } => {
                let rv = self.eval(env, condition, fuel);
                match rv {
                    Ok(v) => match truth_of(&v, "while") {
                        Ok(b) => {
                            if !b {
                                Ok(Flow::Normal)
                            } else {
                                let rb = self.exec_stmt(env, body, fuel);
                                match rb {
                                    Ok(Flow::Normal) => {
                                        if fuel == 0 {
                                            Err(Halt::OutOfFuel)
                                        } else {
                                            self.exec_stmt(env, s, fuel - 1)
                                        }
                                    },
                                    Ok(Flow::Return(v2)) => Ok(Flow::Return(v2)),
                                    Err(h) => Err(h),
                                }
                            }
                        },
                        Err(er) => Err(Halt::Failure(er)),
                    },
                    Err(h) => Err(h),
                }
            },
            Stmt::Function { name, params, body } => {
                let ps: &Vec<Token> = &**params;
                let callable = LiteralValue::Callable {
                    name: name.lexeme.clone(),
                    arity: ps.len(),
                    fun: Fun::User { params: params.clone(), body: body.clone(), env },
                };
                self.env.define(env, name.lexeme.clone(), callable);
                Ok(Flow::Normal)
            },
            Stmt::ReturnStmt { keyword: _, value } => {
                match value {
                    Some(e) => {
                        let rv = self.eval(env, e, fuel);
                        match rv {
                            Ok(v) => Ok(Flow::Return(v)),
                            Err(h) => Err(h),
                        }
                    },
                    None => Ok(Flow::Return(LiteralValue::Non)),
                }
            },
        }
    }

    /// Runs the top-level statements from position `i` on, refreshing the
    /// clock before each one: exactly `semantics::run_program` on the
    /// remaining statements, with the readings this call draws.
    fn run_from(&mut self, stmts: &Vec<Stmt>, i: usize, fuel: u64) -> (r: Result<(), Halt>)
        requires
            old(self)@.scopes.len() > 0,
            i <= stmts@.len(),
        ensures
            ({
                let drawn = final(self).ticks().skip(old(self).ticks().len() as int);
                let (st2, out) = semantics::run_program(
                    old(self)@,
                    stmts@.skip(i as int),
                    fuel as nat,
                    drawn,
                );
                &&& final(self)@ == st2
                &&& (match (r, out) {
                    (Ok(u), Ok(um)) => u == um,
                    (Err(h), Err(hm)) => h@ == hm,
                    _ => false,
                })
            }),
            final(self)@.scopes.len() >= old(self)@.scopes.len(),
            old(self).ticks().is_prefix_of(final(self).ticks()),
        decreases stmts@.len() - i,
    {
        if i >= stmts.len() {
            proof {
                assert(stmts@.skip(i as int) =~= Seq::<Stmt>::empty());
                assert(final(self).ticks().skip(old(self).ticks().len() as int)
                    =~= Seq::<i64>::empty());
            }
            Ok(())
        } else {
            let t = self.clock.sec();
            self.now = t;
            proof {
                self.ticks@ = self.ticks@.push(t);
            }
            let ghost st_tick = self@;
            let ghost ticks_tick = self.ticks@;
            let rs = self.exec_stmt(0, &stmts[i], fuel);
            match rs {
                Ok(Flow::Normal) => {
                    let ghost ticks_mid = self.ticks@;
                    let rr = self.run_from(stmts, i + 1, fuel);
                    proof {
                        let drawn_all = self.ticks@.skip(old(self).ticks@.len() as int);
                        let drawn_rest = self.ticks@.skip(ticks_mid.len() as int);
                        assert(ticks_mid == old(self).ticks@.push(t));
                        assert(ticks_mid.is_prefix_of(self.ticks@));
                        assert(ticks_mid =~= self.ticks@.subrange(0, ticks_mid.len() as int));
                        assert(forall|k: int|
                            0 <= k < ticks_mid.len() ==> self.ticks@[k] == ticks_mid[k]);
                        assert(drawn_all =~= seq![t] + drawn_rest) by {
                            assert(self.ticks@.len() >= ticks_mid.len());
                            assert(drawn_all.len() == self.ticks@.len() - old(self).ticks@.len());
                            assert(drawn_rest.len() == self.ticks@.len() - ticks_mid.len());
                            assert forall|k: int| 0 <= k < drawn_all.len() implies drawn_all[k] == (
                            seq![t] + drawn_rest)[k] by {
                                assert(drawn_all[k] == self.ticks@[old(self).ticks@.len() + k]);
                                if k == 0 {
                                    assert(self.ticks@[old(self).ticks@.len() as int]
                                        == ticks_mid[old(self).ticks@.len() as int]);
                                } else {
                                    assert((seq![t] + drawn_rest)[k] == drawn_rest[k - 1]);
                                    assert(drawn_rest[k - 1] == self.ticks@[ticks_mid.len() + k
                                        - 1]);
                                }
                            }
                        }
                        assert(drawn_all.len() > 0);
                        assert(drawn_all[0] == t);
                        assert(drawn_all.drop_first() =~= drawn_rest);
                        assert(stmts@.skip(i as int)[0] == stmts@[i as int]);
                        assert(stmts@.skip(i as int).drop_first() =~= stmts@.skip(i as int + 1));
                        assert(st_tick =~= (State {
                            scopes: old(self)@.scopes,
                            out: old(self)@.out,
                            clock: t,
                        }));
                    }
                    rr
                },
                Ok(Flow::Return(_)) => {
                    proof {
                        let drawn_all = self.ticks@.skip(old(self).ticks@.len() as int);
                        assert(drawn_all =~= seq![t]);
                        assert(drawn_all.len() > 0);
                        assert(drawn_all[0] == t);
                        assert(stmts@.skip(i as int)[0] == stmts@[i as int]);
                        assert(st_tick =~= (State {
                            scopes: old(self)@.scopes,
                            out: old(self)@.out,
                            clock: t,
                        }));
                    }
                    Ok(())
                },
                Err(h) => {
                    proof {
                        let drawn_all = self.ticks@.skip(old(self).ticks@.len() as int);
                        assert(drawn_all =~= seq![t]);
                        assert(drawn_all.len() > 0);
                        assert(drawn_all[0] == t);
                        assert(stmts@.skip(i as int)[0] == stmts@[i as int]);
                        assert(st_tick =~= (State {
                            scopes: old(self)@.scopes,
                            out: old(self)@.out,
                            clock: t,
                        }));
                    }
                    Err(h)
                },
            }
        }
    }

    /// Runs a whole program against the interpreter's persistent state:
    /// exactly `semantics::run_program`, with the clock readings this run
    /// draws. Later runs see the variables earlier runs defined.
    pub fn interpret(&mut self, stmts: &Vec<Stmt>, fuel: u64) -> (r: Result<(), Halt>)
        requires
            old(self)@.scopes.len() > 0,
        ensures
            ({
                let drawn = final(self).ticks().skip(old(self).ticks().len() as int);
                let (st2, out) = semantics::run_program(old(self)@, stmts@, fuel as nat, drawn);
                &&& final(self)@ == st2
                &&& (match (r, out) {
                    (Ok(u), Ok(um)) => u == um,
                    (Err(h), Err(hm)) => h@ == hm,
                    _ => false,
                })
            }),
            final(self)@.scopes.len() >= old(self)@.scopes.len(),
            old(self).ticks().is_prefix_of(final(self).ticks()),
    {
        proof {
            assert(stmts@.skip(0) =~= stmts@);
        }
        self.run_from(stmts, 0, fuel)
    }

    /// Executes the statements of a sequence from position `i` on:
    /// exactly `semantics::exec_stmts`.
    fn exec_stmts(&mut self, env: usize, ss: &Vec<Stmt>, i: usize, fuel: u64) -> (r: Result<
        Flow,
        Halt,
    >)
        requires
            env < old(self)@.scopes.len(),
        ensures
            ({
                let (st2, out) = semantics::exec_stmts(
                    old(self)@,
                    env as nat,
                    ss@,
                    i as nat,
                    fuel as nat,
                );
                &&& final(self)@ == st2
                &&& flow_matches(r, out)
            }),
            final(self)@.scopes.len() >= old(self)@.scopes.len(),
            final(self).ticks() == old(self).ticks(),
        decreases fuel, ss@, ss@.len() - i,
    {
        if i >= ss.len() {
            Ok(Flow::Normal)
        } else {
            let rs = self.exec_stmt(env, &ss[i], fuel);
            match rs {
                Ok(Flow::Normal) => self.exec_stmts(env, ss, i + 1, fuel),
                Ok(Flow::Return(v)) => Ok(Flow::Return(v)),
                Err(h) => Err(h),
            }
        }
    }
}

/// Whether an executable evaluation outcome is the image of a semantic
/// one.
pub open spec fn eval_matches(
    r: Result<LiteralValue, Halt>,
    out: Result<SpecValue, SpecHalt>,
) -> bool {
    match (r, out) {
        (Ok(v), Ok(vm)) => v@ == vm,
        (Err(h), Err(hm)) => h@ == hm,
        _ => false,
    }
}

/// Whether an executable statement outcome is the image of a semantic one.
pub open spec fn flow_matches(r: Result<Flow, Halt>, out: Result<SpecFlow, SpecHalt>) -> bool {
    match (r, out) {
        (Ok(f), Ok(fm)) => f@ == fm,
        (Err(h), Err(hm)) => h@ == hm,
        _ => false,
    }
}

} // verus!
