//! The tagged runtime value and its checked operators.
//!
//! A numeric value carries its decimal text; combining two numbers needs the
//! host's native floating-point arithmetic, so the checked operators return
//! [`Checked::Numbers`] (or [`Checked::Number`] for negation) and the host
//! hands the computed text back to the virtual machine.

use vstd::prelude::*;
use vstd::string::StringExecFns;

use crate::error::{Error, ErrorV};
use crate::text::str_eq;

verus! {

/// The one runtime datum: `Nil`, a boolean, a number (as its decimal text),
/// or a string.
#[derive(Debug)]
pub enum Value {
    Nil,
    Bool(bool),
    Number(String),
    String(String),
}

/// The mathematical shape of a [`Value`].
pub enum ValueV {
    Nil,
    Bool(bool),
    Number(Seq<char>),
    String(Seq<char>),
}

impl View for Value {
    type V = ValueV;

    open spec fn view(&self) -> ValueV {
        match self {
            Value::Nil => ValueV::Nil,
            Value::Bool(b) => ValueV::Bool(*b),
            Value::Number(t) => ValueV::Number(t@),
            Value::String(s) => ValueV::String(s@),
        }
    }
}

impl PartialEq for Value {
    /// Structural equality, defined only within matching variants.
    fn eq(&self, other: &Value) -> (r: bool) {
        match (self, other) {
            (Value::Nil, Value::Nil) => true,
            (Value::Bool(a), Value::Bool(b)) => *a == *b,
            (Value::Number(a), Value::Number(b)) => str_eq(a.as_str(), b.as_str()),
            (Value::String(a), Value::String(b)) => str_eq(a.as_str(), b.as_str()),
            _ => false,
        }
    }
}

impl vstd::std_specs::cmp::PartialEqSpecImpl for Value {
    open spec fn obeys_eq_spec() -> bool {
        true
    }

    open spec fn eq_spec(&self, other: &Value) -> bool {
        self@ == other@
    }
}

/// The display text of a value: `nil`, `true`/`false`, a number's decimal
/// text, or a string's raw contents.
pub open spec fn spec_value_render(v: ValueV) -> Seq<char> {
    match v {
        ValueV::Nil => "nil"@,
        ValueV::Bool(b) => if b {
            "true"@
        } else {
            "false"@
        },
        ValueV::Number(t) => t,
        ValueV::String(s) => s,
    }
}

/// What a checked operator resolves to: a finished value, the two numeric
/// texts whose combination the host must compute, or the one numeric text
/// whose negation it must compute.
pub enum Checked {
    Done(Value),
    Numbers(String, String),
    Number(String),
}

/// The mathematical shape of a [`Checked`].
pub enum CheckedV {
    Done(ValueV),
    Numbers(Seq<char>, Seq<char>),
    Number(Seq<char>),
}

impl View for Checked {
    type V = CheckedV;

    open spec fn view(&self) -> CheckedV {
        match self {
            Checked::Done(v) => CheckedV::Done(v@),
            Checked::Numbers(a, b) => CheckedV::Numbers(a@, b@),
            Checked::Number(a) => CheckedV::Number(a@),
        }
    }
}

/// The view of a checked operator's result.
pub open spec fn spec_checked_view(r: Result<Checked, Error>) -> Result<CheckedV, ErrorV> {
    match r {
        Result::Ok(c) => Result::Ok(c@),
        Result::Err(e) => Result::Err(e@),
    }
}

/// Checked addition: two numbers go to the host, two strings concatenate,
/// and any other pairing is a type error naming `addition`.
pub open spec fn spec_checked_add(a: ValueV, b: ValueV) -> Result<CheckedV, ErrorV> {
    match (a, b) {
        (ValueV::Number(x), ValueV::Number(y)) => Result::Ok(CheckedV::Numbers(x, y)),
        (ValueV::String(x), ValueV::String(y)) => Result::Ok(
            CheckedV::Done(ValueV::String(x + y)),
        ),
        _ => Result::Err(
            ErrorV::TypeError {
                operation: "addition"@,
                operand_type: "mix of number ans string"@,
            },
        ),
    }
}

/// Checked subtraction: both operands must be numbers.
pub open spec fn spec_checked_sub(a: ValueV, b: ValueV) -> Result<CheckedV, ErrorV> {
    match (a, b) {
        (ValueV::Number(x), ValueV::Number(y)) => Result::Ok(CheckedV::Numbers(x, y)),
        _ => Result::Err(
            ErrorV::TypeError { operation: "subtraction"@, operand_type: "non-number"@ },
        ),
    }
}

/// Checked multiplication: both operands must be numbers.
pub open spec fn spec_checked_mul(a: ValueV, b: ValueV) -> Result<CheckedV, ErrorV> {
    match (a, b) {
        (ValueV::Number(x), ValueV::Number(y)) => Result::Ok(CheckedV::Numbers(x, y)),
        _ => Result::Err(
            ErrorV::TypeError { operation: "multiplication"@, operand_type: "non-number"@ },
        ),
    }
}

/// Checked division: both operands must be numbers. Division by a zero
/// number is not special-cased here; it follows the host's native
/// floating-point semantics.
pub open spec fn spec_checked_div(a: ValueV, b: ValueV) -> Result<CheckedV, ErrorV> {
    match (a, b) {
        (ValueV::Number(x), ValueV::Number(y)) => Result::Ok(CheckedV::Numbers(x, y)),
        _ => Result::Err(
            ErrorV::TypeError { operation: "division"@, operand_type: "non-number"@ },
        ),
    }
}

/// Checked negation: the operand must be a number.
pub open spec fn spec_checked_neg(a: ValueV) -> Result<CheckedV, ErrorV> {
    match a {
        ValueV::Number(x) => Result::Ok(CheckedV::Number(x)),
        _ => Result::Err(
            ErrorV::TypeError { operation: "negation"@, operand_type: "non-number"@ },
        ),
    }
}

impl Value {
    /// The nil value.
    pub fn nil() -> (v: Self)
        ensures
            v@ == ValueV::Nil,
    {
        Self::Nil
    }

    /// An identical copy of this value.
    pub fn dup(&self) -> (v: Self)
        ensures
            v == self,
    {
        match self {
            Value::Nil => Value::Nil,
            Value::Bool(b) => Value::Bool(*b),
            Value::Number(t) => Value::Number(t.clone()),
            Value::String(s) => Value::String(s.clone()),
        }
    }

    /// The display text of this value.
    pub fn render(&self) -> (s: String)
        ensures
            s@ == spec_value_render(self@),
    {
        match self {
            Value::Nil => String::from_str("nil"),
            Value::Bool(b) => {
                if *b {
                    String::from_str("true")
                } else {
                    String::from_str("false")
                }
            },
            Value::Number(t) => t.clone(),
            Value::String(s) => s.clone(),
        }
    }

    pub fn checked_add(self, rhs: Self) -> (r: Result<Checked, Error>)
        ensures
            spec_checked_view(r) == spec_checked_add(self@, rhs@),
    {
        match (self, rhs) {
            (Value::Number(x), Value::Number(y)) => Ok(Checked::Numbers(x, y)),
            (Value::String(x), Value::String(y)) => Ok(
                Checked::Done(Value::String(x.concat(y.as_str()))),
            ),
            (_, _) => Err(Error::type_error("addition", "mix of number ans string")),
        }
    }

    pub fn checked_sub(self, rhs: Self) -> (r: Result<Checked, Error>)
        ensures
            spec_checked_view(r) == spec_checked_sub(self@, rhs@),
    {
        if let (Value::Number(x), Value::Number(y)) = (self, rhs) {
            return Ok(Checked::Numbers(x, y));
        }
        Err(Error::type_error("subtraction", "non-number"))
    }

    pub fn checked_mul(self, rhs: Self) -> (r: Result<Checked, Error>)
        ensures
            spec_checked_view(r) == spec_checked_mul(self@, rhs@),
    {
        if let (Value::Number(x), Value::Number(y)) = (self, rhs) {
            return Ok(Checked::Numbers(x, y));
        }
        Err(Error::type_error("multiplication", "non-number"))
    }

    pub fn checked_div(self, rhs: Self) -> (r: Result<Checked, Error>)
        ensures
            spec_checked_view(r) == spec_checked_div(self@, rhs@),
    {
        if let (Value::Number(x), Value::Number(y)) = (self, rhs) {
            return Ok(Checked::Numbers(x, y));
        }
        Err(Error::type_error("division", "non-number"))
    }

    pub fn checked_neg(self) -> (r: Result<Checked, Error>)
        ensures
            spec_checked_view(r) == spec_checked_neg(self@),
    {
        if let Value::Number(x) = self {
            return Ok(Checked::Number(x));
        }
        Err(Error::type_error("negation", "non-number"))
    }
}

} // verus!
