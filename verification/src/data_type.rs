//! The type-identity tags the binder attaches to bound nodes.

use vstd::prelude::*;

verus! {

/// A primitive numeric kind. The evaluator's numeric model is 64-bit
/// signed integers; `Float` names the alternative model kept out of it.
#[derive(Debug, Clone, Copy, PartialEq, Eq, Structural)]
pub enum Primitive {
    Float,
    Int,
}

/// The type tag of a bound expression: a primitive number, text, or the
/// unit value.
#[derive(Debug, Clone, Copy, PartialEq, Eq, Structural)]
pub enum Type {
    Primitive(Primitive),
    Text,
    Void,
}

} // verus!
