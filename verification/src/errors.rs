//! Runtime failures and statement outcomes.
//!
//! Every evaluation step either produces a value, fails with a
//! [`RuntimeError`], or stops because the step budget ran out. Statement
//! execution additionally distinguishes normal completion from an early
//! `return` carrying a value; blocks, branches and loops pass a pending
//! return upward unchanged until a function call turns it into the call's
//! result.

use crate::literals::LiteralValue;
use crate::literals::SpecValue;
use crate::numbers::{dec_digits, usize_to_string};
use vstd::prelude::*;
use vstd::string::StringExecFns;

verus! {

/// A failure of the running program.
#[derive(Debug)]
pub enum RuntimeError {
    /// A read of, or an assignment to, a name with no binding anywhere in
    /// the scope chain.
    UndeclaredVariable { name: String },
    /// An operator applied to operand types it does not support; also a
    /// call of a non-callable and a truthiness test of a callable. The
    /// operator is reported by its source text, the operands by their type
    /// names.
    TypeMismatch { operator: String, operands: Vec<String> },
    /// A call whose argument count differs from the callee's declared
    /// arity.
    ArityMismatch { callee: String, expected: usize, got: usize },
    /// A token in an operator position that the evaluator does not
    /// recognise for that kind of expression.
    InvalidOperator { lexeme: String },
    /// A number divided by zero, or the remainder of a division by zero.
    DivisionByZero { operator: String },
    /// Number arithmetic whose exact result does not fit the number type.
    NumericOverflow { operator: String },
}

/// The mathematical image of a runtime failure.
#[verifier::ext_equal]
pub enum SpecError {
    Undeclared { name: Seq<char> },
    TypeMismatch { operator: Seq<char>, operands: Seq<Seq<char>> },
    Arity { callee: Seq<char>, expected: nat, got: nat },
    InvalidOperator { lexeme: Seq<char> },
    DivisionByZero { operator: Seq<char> },
    Overflow { operator: Seq<char> },
}

impl View for RuntimeError {
    type V = SpecError;

    open spec fn view(&self) -> SpecError {
        match self {
            RuntimeError::UndeclaredVariable { name } => SpecError::Undeclared { name: name@ },
            RuntimeError::TypeMismatch { operator, operands } => SpecError::TypeMismatch {
                operator: operator@,
                operands: Seq::new(operands@.len(), |i: int| operands@[i]@),
            },
            RuntimeError::ArityMismatch { callee, expected, got } => SpecError::Arity {
                callee: callee@,
                expected: *expected as nat,
                got: *got as nat,
            },
            RuntimeError::InvalidOperator { lexeme } => SpecError::InvalidOperator {
                lexeme: lexeme@,
            },
            RuntimeError::DivisionByZero { operator } => SpecError::DivisionByZero {
                operator: operator@,
            },
            RuntimeError::NumericOverflow { operator } => SpecError::Overflow {
                operator: operator@,
            },
        }
    }
}

/// Why evaluation stopped short of a value.
#[derive(Debug)]
pub enum Halt {
    /// The program failed.
    Failure(RuntimeError),
    /// The step budget ran out before the program finished.
    OutOfFuel,
}

/// The mathematical image of a halt.
#[verifier::ext_equal]
pub enum SpecHalt {
    Failure(SpecError),
    OutOfFuel,
}

impl View for Halt {
    type V = SpecHalt;

    open spec fn view(&self) -> SpecHalt {
        match self {
            Halt::Failure(e) => SpecHalt::Failure(e@),
            Halt::OutOfFuel => SpecHalt::OutOfFuel,
        }
    }
}

/// How a statement finished when it did not halt: it ran to completion, or
/// a `return` is pending with the value the surrounding call must yield.
#[derive(Debug)]
pub enum Flow {
    Normal,
    Return(LiteralValue),
}

/// The mathematical image of a statement's flow.
#[verifier::ext_equal]
pub enum SpecFlow {
    Normal,
    Return(SpecValue),
}

impl View for Flow {
    type V = SpecFlow;

    open spec fn view(&self) -> SpecFlow {
        match self {
            Flow::Normal => SpecFlow::Normal,
            Flow::Return(v) => SpecFlow::Return(v@),
        }
    }
}

/// The report text of a failure.
pub open spec fn error_message(e: SpecError) -> Seq<char> {
    match e {
        SpecError::Undeclared { name } => "Variable "@ + name + " has not been declared"@,
        SpecError::TypeMismatch { operator, operands } => "Operator "@ + operator
            + " is not implemented for the operands given"@,
        SpecError::Arity { callee, expected, got } => "Callable "@ + callee + " expected "@
            + dec_digits(expected as int) + " arguments but got "@ + dec_digits(got as int),
        SpecError::InvalidOperator { lexeme } => lexeme + " is not a valid operator here"@,
        SpecError::DivisionByZero { operator } => "Division by zero in "@ + operator,
        SpecError::Overflow { operator } => "Number overflow in "@ + operator,
    }
}

impl RuntimeError {
    /// Renders the failure as the single line the driver reports.
    pub fn message(&self) -> (r: String)
        ensures
            r@ == error_message(self@),
    {
        match self {
            RuntimeError::UndeclaredVariable { name } => {
                let mut s = String::from_str("Variable ");
                s.append(name.as_str());
                s.append(" has not been declared");
                proof {
                    assert(s@ =~= error_message(self@));
                }
                s
            },
            RuntimeError::TypeMismatch { operator, operands: _ } => {
                let mut s = String::from_str("Operator ");
                s.append(operator.as_str());
                s.append(" is not implemented for the operands given");
                proof {
                    assert(s@ =~= error_message(self@));
                }
                s
            },
            RuntimeError::ArityMismatch { callee, expected, got } => {
                let mut s = String::from_str("Callable ");
                s.append(callee.as_str());
                s.append(" expected ");
                let e = usize_to_string(*expected);
                s.append(e.as_str());
                s.append(" arguments but got ");
                let g = usize_to_string(*got);
                s.append(g.as_str());
                proof {
                    assert(s@ =~= error_message(self@));
                }
                s
            },
            RuntimeError::InvalidOperator { lexeme } => {
                let mut s = lexeme.clone();
                s.append(" is not a valid operator here");
                proof {
                    assert(s@ =~= error_message(self@));
                }
                s
            },
            RuntimeError::DivisionByZero { operator } => {
                let mut s = String::from_str("Division by zero in ");
                s.append(operator.as_str());
                proof {
                    assert(s@ =~= error_message(self@));
                }
                s
            },
            RuntimeError::NumericOverflow { operator } => {
                let mut s = String::from_str("Number overflow in ");
                s.append(operator.as_str());
                proof {
                    assert(s@ =~= error_message(self@));
                }
                s
            },
        }
    }
}

} // verus!
