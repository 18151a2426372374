//! Attribute keys and values attached to spans and events.
use vstd::prelude::*;

use crate::registry::Variable;

verus! {

/// A key described by a registry variable.
#[derive(Debug)]
pub struct Key {
    pub variable: Variable,
}

/// An attribute value. A floating-point value is carried by its raw
/// 64-bit representation, so that the bits survive unchanged.
#[derive(Debug, PartialEq, Eq)]
pub enum Value {
    Bool(bool),
    Int64(i64),
    UInt64(u64),
    Float64Bits(u64),
    String(String),
}

impl Clone for Value {
    fn clone(&self) -> (r: Self)
        ensures
            r == *self,
    {
        match self {
            Value::Bool(b) => Value::Bool(*b),
            Value::Int64(v) => Value::Int64(*v),
            Value::UInt64(v) => Value::UInt64(*v),
            Value::Float64Bits(v) => Value::Float64Bits(*v),
            Value::String(s) => Value::String(s.clone()),
        }
    }
}

/// A key paired with a value.
#[derive(Debug)]
pub struct KeyValue {
    pub key: Key,
    pub value: Value,
}

} // verus!
