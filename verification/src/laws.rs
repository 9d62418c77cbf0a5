//! Laws of the language, proved from the semantics.
//!
//! Each proof function here states one property the library promises of
//! every state and every program, over the same spec functions the
//! interpreter's contracts use: arithmetic on number literals, truthiness
//! of text, the discipline of assignment, the privacy of block scopes,
//! what a closure captures, and how a pending `return` escapes nesting
//! and becomes a call's result.

use crate::environment::{
    chain_assign, chain_contains, chain_holder, chain_lookup, lemma_chain_lookup_push, SpecScope,
};
use crate::errors::{SpecError, SpecFlow, SpecHalt};
use crate::expr::Expr;
use crate::literals::{falsy, LiteralValue, SpecValue};
use crate::semantics::{
    bind_params, call_user, eval_args, eval_expr, exec_stmt, exec_stmts, in_number_range,
    trunc_div, trunc_rem, State,
};
use crate::stmt::Stmt;
use crate::token::{Token, TokenType};
use vstd::prelude::*;

verus! {

/// Law: a binary expression on two number literals computes exact machine
/// arithmetic, leaving the state untouched. Addition, subtraction and
/// multiplication yield the exact sum, difference and product whenever
/// they fit the number type, and fail with an overflow otherwise;
/// division and remainder truncate toward zero and fail on a zero
/// divisor.
pub proof fn law_number_arithmetic(st: State, env: nat, x: i64, y: i64, t: Token, fuel: nat)
    ensures
        ({
            let e = Expr::Binary {
                left: Box::new(Expr::Literal { value: LiteralValue::NumberValue(x) }),
                right: Box::new(Expr::Literal { value: LiteralValue::NumberValue(y) }),
                operator: t,
            };
            let lex = t.lexeme@;
            let overflow = Err::<SpecValue, SpecHalt>(
                SpecHalt::Failure(SpecError::Overflow { operator: lex }),
            );
            let div_zero = Err::<SpecValue, SpecHalt>(
                SpecHalt::Failure(SpecError::DivisionByZero { operator: lex }),
            );
            &&& (t.token_type == TokenType::Plus ==> eval_expr(st, env, e, fuel) == (
                st,
                if in_number_range(x + y) {
                    Ok::<SpecValue, SpecHalt>(SpecValue::Num((x + y) as i64))
                } else {
                    overflow
                },
            ))
            &&& (t.token_type == TokenType::Minus ==> eval_expr(st, env, e, fuel) == (
                st,
                if in_number_range(x - y) {
                    Ok::<SpecValue, SpecHalt>(SpecValue::Num((x - y) as i64))
                } else {
                    overflow
                },
            ))
            &&& (t.token_type == TokenType::Star ==> eval_expr(st, env, e, fuel) == (
                st,
                if in_number_range(x * y) {
                    Ok::<SpecValue, SpecHalt>(SpecValue::Num((x * y) as i64))
                } else {
                    overflow
                },
            ))
            &&& (t.token_type == TokenType::Slash ==> eval_expr(st, env, e, fuel) == (
                st,
                if y == 0 {
                    div_zero
                } else if in_number_range(trunc_div(x as int, y as int)) {
                    Ok::<SpecValue, SpecHalt>(SpecValue::Num(trunc_div(x as int, y as int) as i64))
                } else {
                    overflow
                },
            ))
            &&& (t.token_type == TokenType::Modulo ==> eval_expr(st, env, e, fuel) == (
                st,
                if y == 0 {
                    div_zero
                } else if x == i64::MIN && y == -1 {
                    overflow
                } else {
                    Ok::<SpecValue, SpecHalt>(SpecValue::Num(trunc_rem(x as int, y as int) as i64))
                },
            ))
        }),
{
    reveal_with_fuel(eval_expr, 2);
}

/// Law: the empty text is the one falsy text — every non-empty text is
/// truthy.
pub proof fn law_text_falsiness(s: Seq<char>)
    ensures
        falsy(SpecValue::Str(s)) <==> s.len() == 0,
{
}

/// Law: assignment succeeds exactly when some scope of the chain already
/// binds the name — it never creates a binding.
pub proof fn law_assign_requires_declaration(
    scopes: Seq<SpecScope>,
    env: nat,
    name: Seq<char>,
    v: SpecValue,
)
    ensures
        chain_assign(scopes, env, name, v) is None <==> !chain_contains(scopes, env, name),
    decreases env,
{
    if env < scopes.len() && !scopes[env as int].vars.dom().contains(name) {
        match scopes[env as int].parent {
            Some(p) => {
                if p < env {
                    law_assign_requires_declaration(scopes, p, name, v);
                }
            },
            None => {},
        }
    }
}

/// Law: an assignment expression to a name no scope of the chain binds
/// fails as an undeclared-variable error and leaves the state untouched.
pub proof fn law_assignment_undeclared(
    st: State,
    env: nat,
    name: Token,
    lit: LiteralValue,
    fuel: nat,
)
    requires
        !chain_contains(st.scopes, env, name.lexeme@),
    ensures
        eval_expr(
            st,
            env,
            Expr::Assignment { name, value: Box::new(Expr::Literal { value: lit }) },
            fuel,
        ) == (
            st,
            Err::<SpecValue, SpecHalt>(
                SpecHalt::Failure(SpecError::Undeclared { name: name.lexeme@ }),
            ),
        ),
{
    reveal_with_fuel(eval_expr, 2);
    law_assign_requires_declaration(st.scopes, env, name.lexeme@, lit@);
}

/// Law: a successful assignment overwrites the binding in the *first*
/// scope of the chain that has one, and in no other scope; when the
/// current scope does not bind the name, the mutated scope is a proper
/// ancestor and the current scope is untouched.
pub proof fn law_assign_writes_first_holder(
    scopes: Seq<SpecScope>,
    env: nat,
    name: Seq<char>,
    v: SpecValue,
)
    requires
        chain_contains(scopes, env, name),
    ensures
        ({
            let h = chain_holder(scopes, env, name);
            &&& h < scopes.len()
            &&& scopes[h as int].vars.dom().contains(name)
            &&& chain_assign(scopes, env, name, v) == Some(
                scopes.update(
                    h as int,
                    SpecScope {
                        vars: scopes[h as int].vars.insert(name, v),
                        parent: scopes[h as int].parent,
                    },
                ),
            )
            &&& !scopes[env as int].vars.dom().contains(name) ==> h != env
        }),
    decreases env,
{
    if env < scopes.len() && !scopes[env as int].vars.dom().contains(name) {
        match scopes[env as int].parent {
            Some(p) => {
                if p < env {
                    law_assign_writes_first_holder(scopes, p, name, v);
                }
            },
            None => {},
        }
    }
}

/// Law: a function declaration defines, in the declaring scope itself, a
/// callable of the declared name and arity that captures that very scope —
/// not a copy of its bindings, its identity.
pub proof fn law_function_declaration_captures(st: State, env: nat, s: Stmt, fuel: nat)
    requires
        s matches Stmt::Function { .. },
        env < st.scopes.len(),
    ensures
        (s matches Stmt::Function { name, params, body } ==> exec_stmt(st, env, s, fuel) == (
            State {
                scopes: st.scopes.update(
                    env as int,
                    SpecScope {
                        vars: st.scopes[env as int].vars.insert(
                            name.lexeme@,
                            SpecValue::Callable {
                                name: name.lexeme@,
                                arity: (*params)@.len() as nat,
                                fun: crate::literals::SpecFun::User {
                                    params: crate::literals::param_names((*params)@),
                                    body: (*body)@,
                                    env,
                                },
                            },
                        ),
                        parent: st.scopes[env as int].parent,
                    },
                ),
                out: st.out,
                clock: st.clock,
            },
            Ok::<SpecFlow, SpecHalt>(SpecFlow::Normal),
        )),
{
}

/// Law: a closure reads the binding its captured scope chain holds *at
/// call time*. Invoking a parameterless callable whose body returns a
/// variable yields whatever the captured chain binds that variable to in
/// the state of the call — so a mutation made after the closure's
/// definition and before its invocation is observed.
pub proof fn law_closure_reads_call_time_binding(
    st: State,
    cenv: nat,
    x: Token,
    kw: Token,
    fuel: nat,
)
    requires
        cenv < st.scopes.len(),
    ensures
        ({
            let body = seq![
                Stmt::ReturnStmt { keyword: kw, value: Some(Expr::Variable { name: x }) },
            ];
            call_user(st, Seq::empty(), body, cenv, Seq::empty(), fuel) == (
                State {
                    scopes: st.scopes.push(
                        SpecScope { vars: bind_params(Seq::empty(), Seq::empty()), parent: Some(
                            cenv,
                        ) },
                    ),
                    out: st.out,
                    clock: st.clock,
                },
                match chain_lookup(st.scopes, cenv, x.lexeme@) {
                    Some(v) => Ok::<SpecValue, SpecHalt>(v),
                    None => Err(SpecHalt::Failure(SpecError::Undeclared { name: x.lexeme@ })),
                },
            )
        }),
{
    let body = seq![Stmt::ReturnStmt { keyword: kw, value: Some(Expr::Variable { name: x }) }];
    let fresh = st.scopes.len();
    let pscope = SpecScope { vars: bind_params(Seq::empty(), Seq::empty()), parent: Some(cenv) };
    let st3 = State { scopes: st.scopes.push(pscope), out: st.out, clock: st.clock };
    assert(bind_params(Seq::empty(), Seq::empty()) =~= Map::<Seq<char>, SpecValue>::empty());
    assert(!st3.scopes[fresh as int].vars.dom().contains(x.lexeme@));
    lemma_chain_lookup_push(st.scopes, pscope, cenv, x.lexeme@);
    assert(chain_lookup(st3.scopes, fresh, x.lexeme@) == chain_lookup(st.scopes, cenv, x.lexeme@));
    assert(exec_stmts(st3, fresh, body, 1, fuel) == (st3, Ok::<SpecFlow, SpecHalt>(
        SpecFlow::Normal,
    )));
}

/// The scope discipline one evaluation step obeys, seen from scope `env`:
/// the arena only grows, the clock is untouched, no pre-existing scope
/// changes its parent link, and no pre-existing scope other than `env`
/// itself gains or loses a binding (values may still change through
/// assignment).
pub open spec fn frames(st: State, env: nat, st2: State) -> bool {
    &&& st2.scopes.len() >= st.scopes.len()
    &&& st2.clock == st.clock
    &&& forall|i: int|
        0 <= i < st.scopes.len() ==> #[trigger] st2.scopes[i].parent == st.scopes[i].parent
    &&& forall|i: int|
        0 <= i < st.scopes.len() && i != env ==> #[trigger] st2.scopes[i].vars.dom()
            == st.scopes[i].vars.dom()
}

/// The same discipline with no exemption: no pre-existing scope at all
/// gains or loses a binding.
pub open spec fn frames_all(st: State, st2: State) -> bool {
    &&& st2.scopes.len() >= st.scopes.len()
    &&& st2.clock == st.clock
    &&& forall|i: int|
        0 <= i < st.scopes.len() ==> #[trigger] st2.scopes[i].parent == st.scopes[i].parent
    &&& forall|i: int|
        0 <= i < st.scopes.len() ==> #[trigger] st2.scopes[i].vars.dom()
            == st.scopes[i].vars.dom()
}

proof fn lemma_frames_trans(st: State, env: nat, st1: State, st2: State)
    requires
        frames(st, env, st1),
        frames(st1, env, st2),
    ensures
        frames(st, env, st2),
{
}

/// The state step a successful assignment makes obeys the scope
/// discipline: scopes keep their parents and their domains.
proof fn lemma_assign_step_frame(st1: State, env: nat, nm: Seq<char>, v: SpecValue)
    ensures
        (match chain_assign(st1.scopes, env, nm, v) {
            Some(s2) => frames(st1, env, State { scopes: s2, out: st1.out, clock: st1.clock }),
            None => true,
        }),
{
    crate::environment::lemma_chain_assign_shape(st1.scopes, env, nm, v);
}

/// Evaluating an expression obeys the scope discipline: expressions never
/// define variables in any pre-existing scope, and touch bindings of the
/// chain only through assignment, which overwrites without extending.
pub proof fn lemma_eval_frame(st: State, env: nat, e: Expr, fuel: nat)
    requires
        env < st.scopes.len(),
    ensures
        frames(st, env, eval_expr(st, env, e, fuel).0),
    decreases fuel, e, 0nat,
{
    match e {
        Expr::Literal { value: _ } => {},
        Expr::Grouping { expression } => {
            lemma_eval_frame(st, env, *expression, fuel);
        },
        Expr::Variable { name: _ } => {},
        Expr::Assignment { name, value } => {
            lemma_eval_frame(st, env, *value, fuel);
            let (st1, r1) = eval_expr(st, env, *value, fuel);
            match r1 {
                Ok(v) => {
                    lemma_assign_step_frame(st1, env, name.lexeme@, v);
                    match chain_assign(st1.scopes, env, name.lexeme@, v) {
                        Some(s2) => {
                            let stf = State { scopes: s2, out: st1.out, clock: st1.clock };
                            lemma_frames_trans(st, env, st1, stf);
                        },
                        None => {},
                    }
                },
                Err(_) => {},
            }
        },
        Expr::Unary { operator: _, val } => {
            lemma_eval_frame(st, env, *val, fuel);
        },
        Expr::Binary { left, right, operator: _ } => {
            lemma_eval_frame(st, env, *left, fuel);
            let (st1, r1) = eval_expr(st, env, *left, fuel);
            match r1 {
                Ok(_) => {
                    lemma_eval_frame(st1, env, *right, fuel);
                    lemma_frames_trans(st, env, st1, eval_expr(st1, env, *right, fuel).0);
                },
                Err(_) => {},
            }
        },
        Expr::Logical { left, right, operator } => {
            match operator.token_type {
                TokenType::Or => {
                    lemma_eval_frame(st, env, *left, fuel);
                    let (st1, r1) = eval_expr(st, env, *left, fuel);
                    match r1 {
                        Ok(_) => {
                            lemma_eval_frame(st1, env, *right, fuel);
                            lemma_frames_trans(st, env, st1, eval_expr(st1, env, *right, fuel).0);
                        },
                        Err(_) => {},
                    }
                },
                TokenType::And => {
                    lemma_eval_frame(st, env, *left, fuel);
                    let (st1, r1) = eval_expr(st, env, *left, fuel);
                    match r1 {
                        Ok(_) => {
                            lemma_eval_frame(st1, env, *right, fuel);
                            lemma_frames_trans(st, env, st1, eval_expr(st1, env, *right, fuel).0);
                        },
                        Err(_) => {},
                    }
                },
                _ => {},
            }
        },
        Expr::Call { callee, paren: _, arguments } => {
            lemma_eval_frame(st, env, *callee, fuel);
            let (st1, r1) = eval_expr(st, env, *callee, fuel);
            match r1 {
                Ok(SpecValue::Callable { name: _, arity, fun }) => {
                    lemma_eval_args_frame(st1, env, arguments@, 0, Seq::empty(), fuel);
                    lemma_frames_trans(
                        st,
                        env,
                        st1,
                        eval_args(st1, env, arguments@, 0, Seq::empty(), fuel).0,
                    );
                    let (st2, r2) = eval_args(st1, env, arguments@, 0, Seq::empty(), fuel);
                    match r2 {
                        Ok(vals) => {
                            if vals.len() == arity {
                                match fun {
                                    crate::literals::SpecFun::Native(_) => {},
                                    crate::literals::SpecFun::User { params, body, env: cenv } => {
                                        if fuel > 0 {
                                            lemma_call_user_frame(
                                                st2,
                                                params,
                                                body,
                                                cenv,
                                                vals,
                                                (fuel - 1) as nat,
                                            );
                                            let st4 = call_user(
                                                st2,
                                                params,
                                                body,
                                                cenv,
                                                vals,
                                                (fuel - 1) as nat,
                                            ).0;
                                            assert(frames(st2, env, st4));
                                            lemma_frames_trans(st, env, st2, st4);
                                        }
                                    },
                                }
                            }
                        },
                        Err(_) => {},
                    }
                },
                Ok(_) => {},
                Err(_) => {},
            }
        },
    }
}

/// Evaluating an argument list obeys the scope discipline.
pub proof fn lemma_eval_args_frame(
    st: State,
    env: nat,
    es: Seq<Expr>,
    i: nat,
    vals: Seq<SpecValue>,
    fuel: nat,
)
    requires
        env < st.scopes.len(),
    ensures
        frames(st, env, eval_args(st, env, es, i, vals, fuel).0),
    decreases fuel, es, es.len() - i,
{
    if i < es.len() {
        lemma_eval_frame(st, env, es[i as int], fuel);
        let (st1, r1) = eval_expr(st, env, es[i as int], fuel);
        match r1 {
            Ok(v) => {
                lemma_eval_args_frame(st1, env, es, i + 1, vals.push(v), fuel);
                lemma_frames_trans(st, env, st1, eval_args(st1, env, es, i + 1, vals.push(v), fuel).0);
            },
            Err(_) => {},
        }
    }
}

/// A user-function call obeys the scope discipline with no exemption at
/// all: everything it defines lands in scopes it opens itself.
pub proof fn lemma_call_user_frame(
    st: State,
    params: Seq<Seq<char>>,
    body: Seq<Stmt>,
    cenv: nat,
    vals: Seq<SpecValue>,
    fuel: nat,
)
    ensures
        frames_all(st, call_user(st, params, body, cenv, vals, fuel).0),
    decreases fuel, body, body.len() + 1,
{
    let fresh = st.scopes.len();
    let st3 = State {
        scopes: st.scopes.push(SpecScope { vars: bind_params(params, vals), parent: Some(cenv) }),
        out: st.out,
        clock: st.clock,
    };
    lemma_exec_stmts_frame(st3, fresh, body, 0, fuel);
}

/// Executing one statement obeys the scope discipline seen from the scope
/// it runs in: only that scope can gain bindings, through `var` and
/// function declarations.
pub proof fn lemma_exec_stmt_frame(st: State, env: nat, s: Stmt, fuel: nat)
    requires
        env < st.scopes.len(),
    ensures
        frames(st, env, exec_stmt(st, env, s, fuel).0),
    decreases fuel, s, 0nat,
{
    match s {
        Stmt::Expression { expression } => {
            lemma_eval_frame(st, env, expression, fuel);
        },
        Stmt::Print { expression } => {
            lemma_eval_frame(st, env, expression, fuel);
        },
        Stmt::Var { name: _, initialiser } => {
            lemma_eval_frame(st, env, initialiser, fuel);
        },
        Stmt::Block { statements } => {
            let fresh = st.scopes.len();
            let st1 = State {
                scopes: st.scopes.push(SpecScope { vars: Map::empty(), parent: Some(env) }),
                out: st.out,
                clock: st.clock,
            };
            lemma_exec_stmts_frame(st1, fresh, statements@, 0, fuel);
            let st2 = exec_stmts(st1, fresh, statements@, 0, fuel).0;
            assert(forall|i: int|
                0 <= i < st.scopes.len() ==> st1.scopes[i] == #[trigger] st.scopes[i]);
            assert(frames(st, env, st2));
        },
        Stmt::IfStmt { condition, then_branch, else_branch } => {
            lemma_eval_frame(st, env, condition, fuel);
            let (st1, r) = eval_expr(st, env, condition, fuel);
            match r {
                Ok(v) => {
                    match crate::semantics::truth_test(v, "if"@) {
                        Ok(b) => {
                            if b {
                                lemma_exec_stmt_frame(st1, env, *then_branch, fuel);
                                lemma_frames_trans(
                                    st,
                                    env,
                                    st1,
                                    exec_stmt(st1, env, *then_branch, fuel).0,
                                );
                            } else {
                                match else_branch {
                                    Some(other) => {
                                        lemma_exec_stmt_frame(st1, env, *other, fuel);
                                        lemma_frames_trans(
                                            st,
                                            env,
                                            st1,
                                            exec_stmt(st1, env, *other, fuel).0,
                                        );
                                    },
                                    None => {},
                                }
                            }
                        },
                        Err(_) => {},
                    }
                },
                Err(_) => {},
            }
        },
        Stmt::WhileStmt { condition, body } => {
            lemma_eval_frame(st, env, condition, fuel);
            let (st1, r) = eval_expr(st, env, condition, fuel);
            match r {
                Ok(v) => {
                    match crate::semantics::truth_test(v, "while"@) {
                        Ok(b) => {
                            if b {
                                lemma_exec_stmt_frame(st1, env, *body, fuel);
                                let (st2, r2) = exec_stmt(st1, env, *body, fuel);
                                lemma_frames_trans(st, env, st1, st2);
                                match r2 {
                                    Ok(SpecFlow::Normal) => {
                                        if fuel > 0 {
                                            lemma_exec_stmt_frame(st2, env, s, (fuel - 1) as nat);
                                            lemma_frames_trans(
                                                st,
                                                env,
                                                st2,
                                                exec_stmt(st2, env, s, (fuel - 1) as nat).0,
                                            );
                                        }
                                    },
                                    Ok(SpecFlow::Return(_)) => {},
                                    Err(_) => {},
                                }
                            }
                        },
                        Err(_) => {},
                    }
                },
                Err(_) => {},
            }
        },
        Stmt::Function { name: _, params: _, body: _ } => {},
        Stmt::ReturnStmt { keyword: _, value } => {
            match value {
                Some(e) => {
                    lemma_eval_frame(st, env, e, fuel);
                },
                None => {},
            }
        },
    }
}

/// Executing a statement sequence obeys the scope discipline.
pub proof fn lemma_exec_stmts_frame(st: State, env: nat, ss: Seq<Stmt>, i: nat, fuel: nat)
    requires
        env < st.scopes.len(),
    ensures
        frames(st, env, exec_stmts(st, env, ss, i, fuel).0),
    decreases fuel, ss, ss.len() - i,
{
    if i < ss.len() {
        lemma_exec_stmt_frame(st, env, ss[i as int], fuel);
        let (st1, r) = exec_stmt(st, env, ss[i as int], fuel);
        match r {
            Ok(SpecFlow::Normal) => {
                lemma_exec_stmts_frame(st1, env, ss, i + 1, fuel);
                lemma_frames_trans(st, env, st1, exec_stmts(st1, env, ss, i + 1, fuel).0);
            },
            Ok(SpecFlow::Return(_)) => {},
            Err(_) => {},
        }
    }
}

/// Law: block scoping. A block opens a scope of its own and every name
/// defined inside it lands there or deeper, so after the block no
/// pre-existing scope has gained or lost a binding, and exactly the same
/// names are visible from the enclosing scope as before — a shadowing
/// definition inside the block dies with the block.
pub proof fn law_block_scoping(st: State, env: nat, s: Stmt, fuel: nat)
    requires
        s matches Stmt::Block { .. },
        env < st.scopes.len(),
    ensures
        ({
            let (st2, r) = exec_stmt(st, env, s, fuel);
            &&& st2.scopes.len() >= st.scopes.len()
            &&& forall|i: int|
                0 <= i < st.scopes.len() ==> #[trigger] st2.scopes[i].parent
                    == st.scopes[i].parent && st2.scopes[i].vars.dom() == st.scopes[i].vars.dom()
            &&& forall|n: Seq<char>|
                #[trigger] chain_contains(st2.scopes, env, n) == chain_contains(
                    st.scopes,
                    env,
                    n,
                )
        }),
{
    match s {
        Stmt::Block { statements } => {
            let fresh = st.scopes.len();
            let st1 = State {
                scopes: st.scopes.push(SpecScope { vars: Map::empty(), parent: Some(env) }),
                out: st.out,
                clock: st.clock,
            };
            lemma_exec_stmts_frame(st1, fresh, statements@, 0, fuel);
            let st2 = exec_stmts(st1, fresh, statements@, 0, fuel).0;
            assert forall|n: Seq<char>|
                #[trigger] chain_contains(st2.scopes, env, n) == chain_contains(
                    st.scopes,
                    env,
                    n,
                ) by {
                crate::environment::lemma_chain_contains_congruent(
                    st.scopes,
                    st2.scopes,
                    st.scopes.len(),
                    env,
                    n,
                );
            }
        },
        _ => {},
    }
}

/// Law: the step budget is an implementation device, not part of the
/// language. An expression that finishes — with a value or a failure —
/// under some budget finishes identically under every larger budget;
/// only a run that stops out of fuel can change when the budget grows.
pub proof fn lemma_eval_fuel(st: State, env: nat, e: Expr, f1: nat, f2: nat)
    requires
        f1 <= f2,
        eval_expr(st, env, e, f1).1 != Err::<SpecValue, SpecHalt>(SpecHalt::OutOfFuel),
    ensures
        eval_expr(st, env, e, f2) == eval_expr(st, env, e, f1),
    decreases f1, e, 0nat,
{
    match e {
        Expr::Literal { value: _ } => {},
        Expr::Grouping { expression } => {
            lemma_eval_fuel(st, env, *expression, f1, f2);
        },
        Expr::Variable { name: _ } => {},
        Expr::Assignment { name: _, value } => {
            lemma_eval_fuel(st, env, *value, f1, f2);
        },
        Expr::Unary { operator: _, val } => {
            lemma_eval_fuel(st, env, *val, f1, f2);
        },
        Expr::Binary { left, right, operator: _ } => {
            lemma_eval_fuel(st, env, *left, f1, f2);
            let (st1, r1) = eval_expr(st, env, *left, f1);
            if r1 is Ok {
                lemma_eval_fuel(st1, env, *right, f1, f2);
            }
        },
        Expr::Logical { left, right, operator } => {
            match operator.token_type {
                TokenType::Or => {
                    lemma_eval_fuel(st, env, *left, f1, f2);
                    let (st1, r1) = eval_expr(st, env, *left, f1);
                    match r1 {
                        Ok(v1) => {
                            match crate::semantics::truth_test(v1, operator.lexeme@) {
                                Ok(b1) => {
                                    if !b1 {
                                        lemma_eval_fuel(st1, env, *right, f1, f2);
                                    }
                                },
                                Err(_) => {},
                            }
                        },
                        Err(_) => {},
                    }
                },
                TokenType::And => {
                    lemma_eval_fuel(st, env, *left, f1, f2);
                    let (st1, r1) = eval_expr(st, env, *left, f1);
                    match r1 {
                        Ok(v1) => {
                            match crate::semantics::truth_test(v1, operator.lexeme@) {
                                Ok(_) => {
                                    lemma_eval_fuel(st1, env, *right, f1, f2);
                                },
                                Err(_) => {},
                            }
                        },
                        Err(_) => {},
                    }
                },
                _ => {},
            }
        },
        Expr::Call { callee, paren: _, arguments } => {
            lemma_eval_fuel(st, env, *callee, f1, f2);
            let (st1, r1) = eval_expr(st, env, *callee, f1);
            match r1 {
                Ok(SpecValue::Callable { name: _, arity, fun }) => {
                    lemma_eval_args_fuel(st1, env, arguments@, 0, Seq::empty(), f1, f2);
                    let (st2, r2) = eval_args(st1, env, arguments@, 0, Seq::empty(), f1);
                    match r2 {
                        Ok(vals) => {
                            if vals.len() == arity {
                                match fun {
                                    crate::literals::SpecFun::Native(_) => {},
                                    crate::literals::SpecFun::User { params, body, env: cenv } => {
                                        lemma_call_user_fuel(
                                            st2,
                                            params,
                                            body,
                                            cenv,
                                            vals,
                                            (f1 - 1) as nat,
                                            (f2 - 1) as nat,
                                        );
                                    },
                                }
                            }
                        },
                        Err(_) => {},
                    }
                },
                Ok(_) => {},
                Err(_) => {},
            }
        },
    }
}

/// Argument lists finish identically under every larger budget.
pub proof fn lemma_eval_args_fuel(
    st: State,
    env: nat,
    es: Seq<Expr>,
    i: nat,
    vals: Seq<SpecValue>,
    f1: nat,
    f2: nat,
)
    requires
        f1 <= f2,
        eval_args(st, env, es, i, vals, f1).1 != Err::<Seq<SpecValue>, SpecHalt>(
            SpecHalt::OutOfFuel,
        ),
    ensures
        eval_args(st, env, es, i, vals, f2) == eval_args(st, env, es, i, vals, f1),
    decreases f1, es, es.len() - i,
{
    if i < es.len() {
        lemma_eval_fuel(st, env, es[i as int], f1, f2);
        let (st1, r1) = eval_expr(st, env, es[i as int], f1);
        match r1 {
            Ok(v) => {
                lemma_eval_args_fuel(st1, env, es, i + 1, vals.push(v), f1, f2);
            },
            Err(_) => {},
        }
    }
}

/// A user-function call that finishes does so identically under every
/// larger budget.
pub proof fn lemma_call_user_fuel(
    st: State,
    params: Seq<Seq<char>>,
    body: Seq<Stmt>,
    cenv: nat,
    vals: Seq<SpecValue>,
    f1: nat,
    f2: nat,
)
    requires
        f1 <= f2,
        call_user(st, params, body, cenv, vals, f1).1 != Err::<SpecValue, SpecHalt>(
            SpecHalt::OutOfFuel,
        ),
    ensures
        call_user(st, params, body, cenv, vals, f2) == call_user(st, params, body, cenv, vals, f1),
    decreases f1, body, body.len() + 1,
{
    let fresh = st.scopes.len();
    let st3 = State {
        scopes: st.scopes.push(SpecScope { vars: bind_params(params, vals), parent: Some(cenv) }),
        out: st.out,
        clock: st.clock,
    };
    lemma_exec_stmts_fuel(st3, fresh, body, 0, f1, f2);
}

/// A statement that finishes does so identically under every larger
/// budget.
pub proof fn lemma_exec_stmt_fuel(st: State, env: nat, s: Stmt, f1: nat, f2: nat)
    requires
        f1 <= f2,
        exec_stmt(st, env, s, f1).1 != Err::<SpecFlow, SpecHalt>(SpecHalt::OutOfFuel),
    ensures
        exec_stmt(st, env, s, f2) == exec_stmt(st, env, s, f1),
    decreases f1, s, 0nat,
{
    match s {
        Stmt::Expression { expression } => {
            lemma_eval_fuel(st, env, expression, f1, f2);
        },
        Stmt::Print { expression } => {
            lemma_eval_fuel(st, env, expression, f1, f2);
        },
        Stmt::Var { name: _, initialiser } => {
            lemma_eval_fuel(st, env, initialiser, f1, f2);
        },
        Stmt::Block { statements } => {
            let fresh = st.scopes.len();
            let st1 = State {
                scopes: st.scopes.push(SpecScope { vars: Map::empty(), parent: Some(env) }),
                out: st.out,
                clock: st.clock,
            };
            lemma_exec_stmts_fuel(st1, fresh, statements@, 0, f1, f2);
        },
        Stmt::IfStmt { condition, then_branch, else_branch } => {
            lemma_eval_fuel(st, env, condition, f1, f2);
            let (st1, r) = eval_expr(st, env, condition, f1);
            match r {
                Ok(v) => {
                    match crate::semantics::truth_test(v, "if"@) {
                        Ok(b) => {
                            if b {
                                lemma_exec_stmt_fuel(st1, env, *then_branch, f1, f2);
                            } else {
                                match else_branch {
                                    Some(other) => {
                                        lemma_exec_stmt_fuel(st1, env, *other, f1, f2);
                                    },
                                    None => {},
                                }
                            }
                        },
                        Err(_) => {},
                    }
                },
                Err(_) => {},
            }
        },
        Stmt::WhileStmt { condition, body } => {
            lemma_eval_fuel(st, env, condition, f1, f2);
            let (st1, r) = eval_expr(st, env, condition, f1);
            match r {
                Ok(v) => {
                    match crate::semantics::truth_test(v, "while"@) {
                        Ok(b) => {
                            if b {
                                lemma_exec_stmt_fuel(st1, env, *body, f1, f2);
                                let (st2, r2) = exec_stmt(st1, env, *body, f1);
                                match r2 {
                                    Ok(SpecFlow::Normal) => {
                                        lemma_exec_stmt_fuel(
                                            st2,
                                            env,
                                            s,
                                            (f1 - 1) as nat,
                                            (f2 - 1) as nat,
                                        );
                                    },
                                    Ok(SpecFlow::Return(_)) => {},
                                    Err(_) => {},
                                }
                            }
                        },
                        Err(_) => {},
                    }
                },
                Err(_) => {},
            }
        },
        Stmt::Function { name: _, params: _, body: _ } => {},
        Stmt::ReturnStmt { keyword: _, value } => {
            match value {
                Some(e) => {
                    lemma_eval_fuel(st, env, e, f1, f2);
                },
                None => {},
            }
        },
    }
}

/// A statement sequence that finishes does so identically under every
/// larger budget.
pub proof fn lemma_exec_stmts_fuel(st: State, env: nat, ss: Seq<Stmt>, i: nat, f1: nat, f2: nat)
    requires
        f1 <= f2,
        exec_stmts(st, env, ss, i, f1).1 != Err::<SpecFlow, SpecHalt>(SpecHalt::OutOfFuel),
    ensures
        exec_stmts(st, env, ss, i, f2) == exec_stmts(st, env, ss, i, f1),
    decreases f1, ss, ss.len() - i,
{
    if i < ss.len() {
        lemma_exec_stmt_fuel(st, env, ss[i as int], f1, f2);
        let (st1, r) = exec_stmt(st, env, ss[i as int], f1);
        match r {
            Ok(SpecFlow::Normal) => {
                lemma_exec_stmts_fuel(st1, env, ss, i + 1, f1, f2);
            },
            Ok(SpecFlow::Return(_)) => {},
            Err(_) => {},
        }
    }
}

/// Law: a whole program run that finishes — normally or with a failure
/// of the program's own — is unchanged by any larger step budget.
pub proof fn law_run_fuel_monotone(st: State, stmts: Seq<Stmt>, f1: nat, f2: nat, ticks: Seq<i64>)
    requires
        f1 <= f2,
        crate::semantics::run_program(st, stmts, f1, ticks).1 != Err::<(), SpecHalt>(
            SpecHalt::OutOfFuel,
        ),
    ensures
        crate::semantics::run_program(st, stmts, f2, ticks) == crate::semantics::run_program(
            st,
            stmts,
            f1,
            ticks,
        ),
    decreases stmts.len(),
{
    if stmts.len() > 0 {
        let st0 = State {
            scopes: st.scopes,
            out: st.out,
            clock: if ticks.len() > 0 {
                ticks[0]
            } else {
                st.clock
            },
        };
        lemma_exec_stmt_fuel(st0, 0, stmts[0], f1, f2);
        let (st1, r) = exec_stmt(st0, 0, stmts[0], f1);
        match r {
            Ok(SpecFlow::Normal) => {
                law_run_fuel_monotone(st1, stmts.drop_first(), f1, f2, ticks.drop_first());
            },
            Ok(SpecFlow::Return(_)) => {},
            Err(_) => {},
        }
    }
}

/// Law: a statement sequence stops at a pending return and passes it on
/// unchanged — the statements after it do not run.
pub proof fn law_sequence_stops_at_return(
    st: State,
    env: nat,
    ss: Seq<Stmt>,
    i: nat,
    fuel: nat,
    v: SpecValue,
)
    requires
        i < ss.len(),
        exec_stmt(st, env, ss[i as int], fuel).1 == Ok::<SpecFlow, SpecHalt>(SpecFlow::Return(v)),
    ensures
        exec_stmts(st, env, ss, i, fuel) == (
            exec_stmt(st, env, ss[i as int], fuel).0,
            Ok::<SpecFlow, SpecHalt>(SpecFlow::Return(v)),
        ),
{
}

/// Law: a block passes a pending return of its body upward unchanged.
pub proof fn law_block_propagates_return(st: State, env: nat, s: Stmt, fuel: nat, v: SpecValue)
    requires
        s matches Stmt::Block { statements } && ({
            let fresh = st.scopes.len();
            let st1 = State {
                scopes: st.scopes.push(SpecScope { vars: Map::empty(), parent: Some(env) }),
                out: st.out,
                clock: st.clock,
            };
            exec_stmts(st1, fresh, statements@, 0, fuel).1 == Ok::<SpecFlow, SpecHalt>(
                SpecFlow::Return(v),
            )
        }),
    ensures
        exec_stmt(st, env, s, fuel).1 == Ok::<SpecFlow, SpecHalt>(SpecFlow::Return(v)),
{
}

/// Law: a branch's pending return becomes the if-statement's own.
pub proof fn law_if_propagates_return(st: State, env: nat, s: Stmt, fuel: nat, v: SpecValue)
    requires
        s matches Stmt::IfStmt { condition, then_branch, else_branch } && ({
            let (st1, r) = eval_expr(st, env, condition, fuel);
            &&& (r matches Ok(c) && crate::semantics::truth_test(c, "if"@) == Ok::<
                bool,
                SpecError,
            >(true))
            &&& exec_stmt(st1, env, *then_branch, fuel).1 == Ok::<SpecFlow, SpecHalt>(
                SpecFlow::Return(v),
            )
        }),
    ensures
        exec_stmt(st, env, s, fuel).1 == Ok::<SpecFlow, SpecHalt>(SpecFlow::Return(v)),
{
}

/// Law: a while loop whose body leaves a pending return stops iterating
/// and passes the return upward unchanged.
pub proof fn law_while_propagates_return(st: State, env: nat, s: Stmt, fuel: nat, v: SpecValue)
    requires
        s matches Stmt::WhileStmt { condition, body } && ({
            let (st1, r) = eval_expr(st, env, condition, fuel);
            &&& (r matches Ok(c) && crate::semantics::truth_test(c, "while"@) == Ok::<
                bool,
                SpecError,
            >(true))
            &&& exec_stmt(st1, env, *body, fuel).1 == Ok::<SpecFlow, SpecHalt>(
                SpecFlow::Return(v),
            )
        }),
    ensures
        exec_stmt(st, env, s, fuel).1 == Ok::<SpecFlow, SpecHalt>(SpecFlow::Return(v)),
{
}

/// Law: a pending return of a function body — however deep inside blocks,
/// branches and loops it arose — is the value the call yields.
pub proof fn law_call_yields_return(
    st: State,
    params: Seq<Seq<char>>,
    body: Seq<Stmt>,
    cenv: nat,
    vals: Seq<SpecValue>,
    fuel: nat,
    v: SpecValue,
)
    requires
        ({
            let fresh = st.scopes.len();
            let st3 = State {
                scopes: st.scopes.push(
                    SpecScope { vars: bind_params(params, vals), parent: Some(cenv) },
                ),
                out: st.out,
                clock: st.clock,
            };
            exec_stmts(st3, fresh, body, 0, fuel).1 == Ok::<SpecFlow, SpecHalt>(
                SpecFlow::Return(v),
            )
        }),
    ensures
        call_user(st, params, body, cenv, vals, fuel).1 == Ok::<SpecValue, SpecHalt>(v),
{
}

} // verus!
