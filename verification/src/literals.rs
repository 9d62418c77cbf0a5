//! Runtime values.
//!
//! A value is a closed tagged union: a number, a piece of text, one of the
//! two boolean constants, the absent value `Non`, or a callable. A callable
//! is either a native function of the interpreter or a user function: the
//! parameter list and body it was declared with, together with the scope
//! that was current at the declaration — the captured environment that makes
//! closures lexical.
//!
//! Every value has a mathematical image ([`SpecValue`]) and all contracts
//! speak about that image.

use crate::numbers::{dec_digits, dec_int, i64_to_string, usize_to_string};
use crate::stmt::Stmt;
use crate::token::Token;
use std::rc::Rc;
use vstd::prelude::*;
use vstd::string::StringExecFns;

verus! {

/// The native functions the interpreter itself provides.
#[derive(Clone, Copy, Debug, PartialEq, Eq, Structural)]
pub enum NativeKind {
    Clock,
}

/// What a callable runs when invoked.
#[derive(Debug)]
pub enum Fun {
    Native(NativeKind),
    User { params: Rc<Vec<Token>>, body: Rc<Vec<Stmt>>, env: usize },
}

/// A runtime value.
#[derive(Debug)]
pub enum LiteralValue {
    NumberValue(i64),
    StringValue(String),
    True,
    False,
    Non,
    Callable { name: String, arity: usize, fun: Fun },
}

/// The mathematical image of a callable's behaviour.
#[verifier::ext_equal]
pub enum SpecFun {
    Native(NativeKind),
    User { params: Seq<Seq<char>>, body: Seq<Stmt>, env: nat },
}

/// The mathematical image of a runtime value.
#[verifier::ext_equal]
pub enum SpecValue {
    Num(i64),
    Str(Seq<char>),
    True,
    False,
    Non,
    Callable { name: Seq<char>, arity: nat, fun: SpecFun },
}

/// The names of a parameter list.
pub open spec fn param_names(ts: Seq<Token>) -> Seq<Seq<char>> {
    Seq::new(ts.len(), |i: int| ts[i].lexeme@)
}

impl View for Fun {
    type V = SpecFun;

    open spec fn view(&self) -> SpecFun {
        match self {
            Fun::Native(k) => SpecFun::Native(*k),
            Fun::User { params, body, env } => SpecFun::User {
                params: param_names((**params)@),
                body: (**body)@,
                env: *env as nat,
            },
        }
    }
}

impl View for LiteralValue {
    type V = SpecValue;

    open spec fn view(&self) -> SpecValue {
        match self {
            LiteralValue::NumberValue(n) => SpecValue::Num(*n),
            LiteralValue::StringValue(s) => SpecValue::Str(s@),
            LiteralValue::True => SpecValue::True,
            LiteralValue::False => SpecValue::False,
            LiteralValue::Non => SpecValue::Non,
            LiteralValue::Callable { name, arity, fun } => SpecValue::Callable {
                name: name@,
                arity: *arity as nat,
                fun: fun@,
            },
        }
    }
}

/// Whether a value is a callable.
pub open spec fn is_callable(v: SpecValue) -> bool {
    v matches SpecValue::Callable { .. }
}

/// Value equality. Values of different variants are never equal; two
/// callables are compared by name and arity alone.
pub open spec fn val_eq(a: SpecValue, b: SpecValue) -> bool {
    match (a, b) {
        (SpecValue::Num(x), SpecValue::Num(y)) => x == y,
        (SpecValue::Str(x), SpecValue::Str(y)) => x == y,
        (SpecValue::True, SpecValue::True) => true,
        (SpecValue::False, SpecValue::False) => true,
        (SpecValue::Non, SpecValue::Non) => true,
        (
            SpecValue::Callable { name: n1, arity: a1, fun: _ },
            SpecValue::Callable { name: n2, arity: a2, fun: _ },
        ) => n1 == n2 && a1 == a2,
        _ => false,
    }
}

/// Falsiness: zero, the empty string, `false` and `Non` are falsy; every
/// other number, non-empty string and `true` are not. Callables have no
/// truthiness at all; asking for it is a type error, so this function is
/// only meaningful for non-callables.
pub open spec fn falsy(v: SpecValue) -> bool
    recommends
        !is_callable(v),
{
    match v {
        SpecValue::Num(n) => n == 0,
        SpecValue::Str(s) => s.len() == 0,
        SpecValue::True => false,
        SpecValue::False => true,
        SpecValue::Non => true,
        SpecValue::Callable { .. } => false,
    }
}

/// The name of a value's type, as runtime errors report it.
pub open spec fn type_text(v: SpecValue) -> Seq<char> {
    match v {
        SpecValue::Num(_) => "Number"@,
        SpecValue::Str(_) => "String"@,
        SpecValue::True => "Boolean"@,
        SpecValue::False => "Boolean"@,
        SpecValue::Non => "Non"@,
        SpecValue::Callable { .. } => "Callable"@,
    }
}

/// The display text of a value: numbers and text in their natural form,
/// `true`/`false`/`Non` by their keywords, and a callable as its name and
/// arity joined by an underscore.
pub open spec fn display(v: SpecValue) -> Seq<char> {
    match v {
        SpecValue::Num(n) => dec_int(n as int),
        SpecValue::Str(s) => s,
        SpecValue::True => "true"@,
        SpecValue::False => "false"@,
        SpecValue::Non => "Non"@,
        SpecValue::Callable { name, arity, fun: _ } => name + "_"@ + dec_digits(arity as int),
    }
}

impl Fun {
    /// A copy sharing the same parameter list and body.
    pub fn duplicate(&self) -> (r: Fun)
        ensures
            r == *self,
    {
        match self {
            Fun::Native(k) => Fun::Native(*k),
            Fun::User { params, body, env } => Fun::User {
                params: params.clone(),
                body: body.clone(),
                env: *env,
            },
        }
    }
}

impl LiteralValue {
    /// The boolean constant for a host boolean.
    pub fn from_bool(b: bool) -> (r: LiteralValue)
        ensures
            r == if b {
                LiteralValue::True
            } else {
                LiteralValue::False
            },
    {
        if b {
            LiteralValue::True
        } else {
            LiteralValue::False
        }
    }

    /// A deep copy of the value. A callable's parameter list and body are
    /// shared, not copied, so the copy still captures the same scope.
    pub fn duplicate(&self) -> (r: LiteralValue)
        ensures
            r == *self,
    {
        match self {
            LiteralValue::NumberValue(n) => LiteralValue::NumberValue(*n),
            LiteralValue::StringValue(s) => LiteralValue::StringValue(s.clone()),
            LiteralValue::True => LiteralValue::True,
            LiteralValue::False => LiteralValue::False,
            LiteralValue::Non => LiteralValue::Non,
            LiteralValue::Callable { name, arity, fun } => LiteralValue::Callable {
                name: name.clone(),
                arity: *arity,
                fun: fun.duplicate(),
            },
        }
    }

    /// Value equality as the language's `==` operator computes it.
    pub fn equals(&self, other: &LiteralValue) -> (r: bool)
        ensures
            r == val_eq(self@, other@),
    {
        match (self, other) {
            (LiteralValue::NumberValue(x), LiteralValue::NumberValue(y)) => *x == *y,
            (LiteralValue::StringValue(x), LiteralValue::StringValue(y)) => *x == *y,
            (LiteralValue::True, LiteralValue::True) => true,
            (LiteralValue::False, LiteralValue::False) => true,
            (LiteralValue::Non, LiteralValue::Non) => true,
            (
                LiteralValue::Callable { name: n1, arity: a1, fun: _ },
                LiteralValue::Callable { name: n2, arity: a2, fun: _ },
            ) => *n1 == *n2 && *a1 == *a2,
            _ => false,
        }
    }

    /// The truth constant for whether this value is falsy. Callables have
    /// no truthiness; the caller must rule them out first.
    pub fn is_falsy(&self) -> (r: LiteralValue)
        requires
            !is_callable(self@),
        ensures
            r == if falsy(self@) {
                LiteralValue::True
            } else {
                LiteralValue::False
            },
    {
        match self {
            LiteralValue::NumberValue(n) => LiteralValue::from_bool(*n == 0),
            LiteralValue::StringValue(s) => LiteralValue::from_bool(s.unicode_len() == 0),
            LiteralValue::True => LiteralValue::False,
            LiteralValue::False => LiteralValue::True,
            LiteralValue::Non => LiteralValue::True,
            LiteralValue::Callable { .. } => vstd::pervasive::unreached(),
        }
    }

    /// The truth constant for whether this value is truthy: the exact
    /// opposite of `is_falsy`, on the same values.
    pub fn is_truthy(&self) -> (r: LiteralValue)
        requires
            !is_callable(self@),
        ensures
            r == if falsy(self@) {
                LiteralValue::False
            } else {
                LiteralValue::True
            },
    {
        match self.is_falsy() {
            LiteralValue::True => LiteralValue::False,
            _ => LiteralValue::True,
        }
    }

    /// The name of this value's type.
    pub fn to_type(&self) -> (r: &'static str)
        ensures
            r@ == type_text(self@),
    {
        match self {
            LiteralValue::NumberValue(_) => "Number",
            LiteralValue::StringValue(_) => "String",
            LiteralValue::True => "Boolean",
            LiteralValue::False => "Boolean",
            LiteralValue::Non => "Non",
            LiteralValue::Callable { .. } => "Callable",
        }
    }

    /// The display text of this value.
    pub fn to_string(&self) -> (r: String)
        ensures
            r@ == display(self@),
    {
        match self {
            LiteralValue::NumberValue(n) => i64_to_string(*n),
            LiteralValue::StringValue(s) => s.clone(),
            LiteralValue::True => String::from_str("true"),
            LiteralValue::False => String::from_str("false"),
            LiteralValue::Non => String::from_str("Non"),
            LiteralValue::Callable { name, arity, fun: _ } => {
                let mut s = name.clone();
                s.append("_");
                let digits = usize_to_string(*arity);
                s.append(digits.as_str());
                proof {
                    assert(name@ + "_"@ + dec_digits(*arity as int) =~= (name@ + "_"@)
                        + dec_digits(*arity as int));
                }
                s
            },
        }
    }
}

} // verus!
