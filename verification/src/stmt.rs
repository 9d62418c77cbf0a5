//! Statement nodes of the abstract syntax tree.

use crate::expr::{expr_text, Expr};
use crate::token::Token;
use std::rc::Rc;
use vstd::prelude::*;
use vstd::string::StringExecFns;

verus! {

/// A statement node.
///
/// A function declaration shares its parameter list and body through `Rc`:
/// the callable value built for it keeps a reference to the same nodes the
/// tree holds, which is what lets a closure be invoked long after the
/// declaring statement was left behind.
#[derive(Debug)]
#[allow(inconsistent_fields)]
pub enum Stmt {
    Block { statements: Vec<Stmt> },
    Expression { expression: Expr },
    Function { name: Token, params: Rc<Vec<Token>>, body: Rc<Vec<Stmt>> },
    IfStmt { condition: Expr, then_branch: Box<Stmt>, else_branch: Option<Box<Stmt>> },
    Print { expression: Expr },
    ReturnStmt { keyword: Token, value: Option<Expr> },
    WhileStmt { condition: Expr, body: Box<Stmt> },
    Var { name: Token, initialiser: Expr },
}

/// Whether the debugging renderer covers this statement: expression,
/// print and declaration statements, and blocks made of such statements.
/// Control flow and function declarations have no rendering.
pub open spec fn stmt_printable(s: Stmt) -> bool
    decreases s, 0nat,
{
    match s {
        Stmt::Expression { expression: _ } => true,
        Stmt::Print { expression: _ } => true,
        Stmt::Var { name: _, initialiser: _ } => true,
        Stmt::Block { statements } => stmts_printable_from(statements@, 0),
        _ => false,
    }
}

/// Whether every statement of the sequence from position `i` on is
/// printable.
pub open spec fn stmts_printable_from(ss: Seq<Stmt>, i: nat) -> bool
    decreases ss, ss.len() - i,
{
    i >= ss.len() || (stmt_printable(ss[i as int]) && stmts_printable_from(ss, i + 1))
}

/// The debugging text of a printable statement.
pub open spec fn stmt_text(s: Stmt) -> Seq<char>
    recommends
        stmt_printable(s),
    decreases s, 0nat,
{
    match s {
        Stmt::Expression { expression } => expr_text(expression),
        Stmt::Print { expression } => "(print "@ + expr_text(expression) + ")"@,
        Stmt::Var { name, initialiser: _ } => "(var "@ + name.lexeme@ + ")"@,
        Stmt::Block { statements } => "(block "@ + stmts_text_from(statements@, 0) + ")"@,
        _ => Seq::empty(),
    }
}

/// The concatenated debugging text of the statements from position `i`
/// on.
pub open spec fn stmts_text_from(ss: Seq<Stmt>, i: nat) -> Seq<char>
    decreases ss, ss.len() - i,
{
    if i >= ss.len() {
        Seq::empty()
    } else {
        stmt_text(ss[i as int]) + stmts_text_from(ss, i + 1)
    }
}

impl Stmt {
    /// Renders a printable statement for debugging.
    pub fn to_string(&self) -> (r: String)
        requires
            stmt_printable(*self),
        ensures
            r@ == stmt_text(*self),
        decreases *self, 1nat,
    {
        match self {
            Stmt::Expression { expression } => expression.to_string(),
            Stmt::Print { expression } => {
                let mut s = String::from_str("(print ");
                let inner = expression.to_string();
                s.append(inner.as_str());
                s.append(")");
                s
            },
            Stmt::Var { name, initialiser: _ } => {
                let mut s = String::from_str("(var ");
                s.append(name.lexeme.as_str());
                s.append(")");
                s
            },
            Stmt::Block { statements } => {
                let mut s = String::from_str("(block ");
                let inner = stmts_string_from(statements, 0);
                s.append(inner.as_str());
                s.append(")");
                s
            },
            _ => vstd::pervasive::unreached(),
        }
    }
}

/// Renders the statements of a sequence from position `i` on, one after
/// another.
fn stmts_string_from(ss: &Vec<Stmt>, i: usize) -> (r: String)
    requires
        stmts_printable_from(ss@, i as nat),
    ensures
        r@ == stmts_text_from(ss@, i as nat),
    decreases ss@, ss@.len() - i,
{
    if i >= ss.len() {
        String::new()
    } else {
        let mut s = ss[i].to_string();
        let rest = stmts_string_from(ss, i + 1);
        s.append(rest.as_str());
        s
    }
}

} // verus!
