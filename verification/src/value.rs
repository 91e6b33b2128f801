//! The runtime operand: a tagged 32- or 64-bit integer. Arithmetic between
//! mismatched tags is a type error, never an implicit coercion.

use crate::error::RuntimeError;
use crate::types::ValueType;
use vstd::prelude::*;

verus! {

/// A runtime operand value.
#[derive(Debug, Clone, Copy, PartialEq, Eq, Structural)]
pub enum Value {
    I32(i32),
    I64(i64),
}

impl Value {
    /// The type tag of this value.
    pub open spec fn spec_ty(self) -> ValueType {
        match self {
            Value::I32(_) => ValueType::I32,
            Value::I64(_) => ValueType::I64,
        }
    }

    /// Returns the type tag of this value.
    pub fn ty(self) -> (r: ValueType)
        ensures
            r == self.spec_ty(),
    {
        match self {
            Value::I32(_) => ValueType::I32,
            Value::I64(_) => ValueType::I64,
        }
    }

    /// The numeric zero of a given value type, used to initialize
    /// declared locals on function entry.
    pub open spec fn spec_zero_of(t: ValueType) -> Value {
        match t {
            ValueType::I32 => Value::I32(0),
            ValueType::I64 => Value::I64(0),
        }
    }

    /// Returns the numeric zero of the given value type.
    pub fn zero_of(t: ValueType) -> (r: Value)
        ensures
            r == Value::spec_zero_of(t),
    {
        match t {
            ValueType::I32 => Value::I32(0i32),
            ValueType::I64 => Value::I64(0i64),
        }
    }

    /// Addition as a mathematical function: same tags give the wrapping
    /// sum under that tag, mismatched tags give a type error.
    pub open spec fn spec_add(a: Value, b: Value) -> Result<Value, RuntimeError> {
        match (a, b) {
            (Value::I32(x), Value::I32(y)) => Ok(Value::I32(x.wrapping_add(y))),
            (Value::I64(x), Value::I64(y)) => Ok(Value::I64(x.wrapping_add(y))),
            _ => Err(RuntimeError::TypeMismatch),
        }
    }

    /// Adds two operands. Both must carry the same tag; the sum wraps at
    /// the operand width rather than trapping on overflow.
    pub fn add(self, rhs: Value) -> (r: Result<Value, RuntimeError>)
        ensures
            r == Value::spec_add(self, rhs),
    {
        match (self, rhs) {
            (Value::I32(x), Value::I32(y)) => Ok(Value::I32(x.wrapping_add(y))),
            (Value::I64(x), Value::I64(y)) => Ok(Value::I64(x.wrapping_add(y))),
            _ => Err(RuntimeError::TypeMismatch),
        }
    }
}

impl From<i32> for Value {
    /// Wraps a 32-bit integer as an `I32` operand.
    fn from(value: i32) -> (r: Self) {
        Value::I32(value)
    }
}

impl vstd::std_specs::convert::FromSpecImpl<i32> for Value {
    open spec fn obeys_from_spec() -> bool {
        true
    }

    open spec fn from_spec(value: i32) -> Value {
        Value::I32(value)
    }
}

impl From<i64> for Value {
    /// Wraps a 64-bit integer as an `I64` operand.
    fn from(value: i64) -> (r: Self) {
        Value::I64(value)
    }
}

impl vstd::std_specs::convert::FromSpecImpl<i64> for Value {
    open spec fn obeys_from_spec() -> bool {
        true
    }

    open spec fn from_spec(value: i64) -> Value {
        Value::I64(value)
    }
}

} // verus!
