//! Expression nodes of the abstract syntax tree.
//!
//! The tree is produced by a parser outside this crate and is only read
//! here. Operator and name positions carry the original tokens, so that
//! runtime errors can name the text they concern. A literal node carries
//! the runtime value it stands for, and evaluating it returns that value
//! unchanged.

use crate::literals::{display, LiteralValue};
use crate::token::Token;
use vstd::prelude::*;
use vstd::string::StringExecFns;

verus! {

/// An expression node.
#[derive(Debug)]
#[allow(inconsistent_fields)]
pub enum Expr {
    Assignment { name: Token, value: Box<Expr> },
    Binary { left: Box<Expr>, right: Box<Expr>, operator: Token },
    Call { callee: Box<Expr>, paren: Token, arguments: Vec<Expr> },
    Grouping { expression: Box<Expr> },
    Literal { value: LiteralValue },
    Logical { left: Box<Expr>, right: Box<Expr>, operator: Token },
    Unary { operator: Token, val: Box<Expr> },
    Variable { name: Token },
}

/// The debugging text of an expression: a parenthesised prefix-ish
/// rendering with binary operators written after their operands.
pub open spec fn expr_text(e: Expr) -> Seq<char>
    decreases e,
{
    match e {
        Expr::Assignment { name, value } => "("@ + name.lexeme@ + " = "@ + expr_text(*value)
            + ")"@,
        Expr::Binary { left, right, operator } => "("@ + expr_text(*left) + " "@ + expr_text(
            *right,
        ) + " "@ + operator.lexeme@ + ")"@,
        Expr::Call { callee, paren: _, arguments: _ } => "("@ + expr_text(*callee) + ")"@,
        Expr::Grouping { expression } => "("@ + expr_text(*expression) + ")"@,
        Expr::Literal { value } => display(value@),
        Expr::Logical { left, right, operator } => "("@ + expr_text(*left) + " "@ + expr_text(
            *right,
        ) + " "@ + operator.lexeme@ + ")"@,
        Expr::Unary { operator, val } => "("@ + operator.lexeme@ + " "@ + expr_text(*val) + ")"@,
        Expr::Variable { name } => "(var "@ + name.lexeme@ + ")"@,
    }
}

impl Expr {
    /// Renders the expression for debugging.
    pub fn to_string(&self) -> (r: String)
        ensures
            r@ == expr_text(*self),
        decreases *self,
    {
        match self {
            Expr::Assignment { name, value } => {
                let mut s = String::from_str("(");
                s.append(name.lexeme.as_str());
                s.append(" = ");
                let inner = value.to_string();
                s.append(inner.as_str());
                s.append(")");
                s
            },
            Expr::Binary { left, right, operator } => {
                let mut s = String::from_str("(");
                let l = left.to_string();
                s.append(l.as_str());
                s.append(" ");
                let rr = right.to_string();
                s.append(rr.as_str());
                s.append(" ");
                s.append(operator.lexeme.as_str());
                s.append(")");
                s
            },
            Expr::Call { callee, paren: _, arguments: _ } => {
                let mut s = String::from_str("(");
                let c = callee.to_string();
                s.append(c.as_str());
                s.append(")");
                s
            },
            Expr::Grouping { expression } => {
                let mut s = String::from_str("(");
                let inner = expression.to_string();
                s.append(inner.as_str());
                s.append(")");
                s
            },
            Expr::Literal { value } => value.to_string(),
            Expr::Logical { left, right, operator } => {
                let mut s = String::from_str("(");
                let l = left.to_string();
                s.append(l.as_str());
                s.append(" ");
                let rr = right.to_string();
                s.append(rr.as_str());
                s.append(" ");
                s.append(operator.lexeme.as_str());
                s.append(")");
                s
            },
            Expr::Unary { operator, val } => {
                let mut s = String::from_str("(");
                s.append(operator.lexeme.as_str());
                s.append(" ");
                let inner = val.to_string();
                s.append(inner.as_str());
                s.append(")");
                s
            },
            Expr::Variable { name } => {
                let mut s = String::from_str("(var ");
                s.append(name.lexeme.as_str());
                s.append(")");
                s
            },
        }
    }
}

} // verus!
