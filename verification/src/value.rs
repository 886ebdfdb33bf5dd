//! The closed value type evaluation produces: a 64-bit signed number, a
//! piece of text, or the unit value.

use vstd::prelude::*;

verus! {

/// A runtime value.
#[derive(Debug)]
pub enum Value {
    Number(i64),
    Text(String),
    Void,
}

/// The mathematical value of a runtime value.
pub enum ValueV {
    Number(i64),
    Text(Seq<char>),
    Void,
}

impl View for Value {
    type V = ValueV;

    open spec fn view(&self) -> ValueV {
        match self {
            Value::Number(n) => ValueV::Number(*n),
            Value::Text(s) => ValueV::Text(s@),
            Value::Void => ValueV::Void,
        }
    }
}

impl Clone for Value {
    fn clone(&self) -> (r: Value)
        ensures
            r@ == self@,
    {
        match self {
            Value::Number(n) => Value::Number(*n),
            Value::Text(s) => Value::Text(s.clone()),
            Value::Void => Value::Void,
        }
    }
}

/// The name diagnostics use for a value's type.
pub open spec fn spec_kind_name(v: ValueV) -> Seq<char> {
    match v {
        ValueV::Number(_) => "i64"@,
        ValueV::Text(_) => "string"@,
        ValueV::Void => "void"@,
    }
}

} // verus!
