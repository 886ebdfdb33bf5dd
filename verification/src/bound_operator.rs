//! The resolved operators of bound expressions, and how symbol tokens map
//! onto them.

use vstd::prelude::*;

use crate::error::{ErrorV, InterpreterError};
use crate::token::{spec_symbol_lexeme, Symbol, SymbolToken};

verus! {

#[derive(Debug, Clone, Copy, PartialEq, Eq, Structural)]
pub enum BoundUnaryOperator {
    Negation,
    Not,
}

#[derive(Debug, Clone, Copy, PartialEq, Eq, Structural)]
pub enum BoundBinaryOperator {
    Addition,
    Subtraction,
    Multiplication,
    Division,
    LessThan,
    GreaterThan,
    LessThanEquals,
    GreaterThanEquals,
    Equals,
    NotEquals,
}

/// The unary operator a symbol resolves to, if any.
pub open spec fn spec_unary_op(s: Symbol) -> Option<BoundUnaryOperator> {
    if s == Symbol::Minus {
        Some(BoundUnaryOperator::Negation)
    } else if s == Symbol::ExclamationPoint {
        Some(BoundUnaryOperator::Not)
    } else {
        None
    }
}

/// The binary operator a symbol resolves to, if any.
pub open spec fn spec_binary_op(s: Symbol) -> Option<BoundBinaryOperator> {
    if s == Symbol::Plus {
        Some(BoundBinaryOperator::Addition)
    } else if s == Symbol::Minus {
        Some(BoundBinaryOperator::Subtraction)
    } else if s == Symbol::Asterisk {
        Some(BoundBinaryOperator::Multiplication)
    } else if s == Symbol::ForwardSlash {
        Some(BoundBinaryOperator::Division)
    } else if s == Symbol::LeftAngledBracket {
        Some(BoundBinaryOperator::LessThan)
    } else if s == Symbol::RightAngledBracket {
        Some(BoundBinaryOperator::GreaterThan)
    } else if s == Symbol::LeftAngledBracketEquals {
        Some(BoundBinaryOperator::LessThanEquals)
    } else if s == Symbol::RightAngledBracketEquals {
        Some(BoundBinaryOperator::GreaterThanEquals)
    } else if s == Symbol::DoubleEquals {
        Some(BoundBinaryOperator::Equals)
    } else if s == Symbol::ExclamationPointEquals {
        Some(BoundBinaryOperator::NotEquals)
    } else {
        None
    }
}

/// The operator glyph diagnostics name, for resolved operators.
pub open spec fn spec_unary_op_lexeme(op: BoundUnaryOperator) -> Seq<char> {
    match op {
        BoundUnaryOperator::Negation => "-"@,
        BoundUnaryOperator::Not => "!"@,
    }
}

pub open spec fn spec_binary_op_lexeme(op: BoundBinaryOperator) -> Seq<char> {
    match op {
        BoundBinaryOperator::Addition => "+"@,
        BoundBinaryOperator::Subtraction => "-"@,
        BoundBinaryOperator::Multiplication => "*"@,
        BoundBinaryOperator::Division => "/"@,
        BoundBinaryOperator::LessThan => "<"@,
        BoundBinaryOperator::GreaterThan => ">"@,
        BoundBinaryOperator::LessThanEquals => "<="@,
        BoundBinaryOperator::GreaterThanEquals => ">="@,
        BoundBinaryOperator::Equals => "=="@,
        BoundBinaryOperator::NotEquals => "!="@,
    }
}

impl BoundUnaryOperator {
    /// The glyph of this operator.
    pub fn lexeme(&self) -> (r: String)
        ensures
            r@ == spec_unary_op_lexeme(*self),
    {
        match self {
            BoundUnaryOperator::Negation => "-".to_owned(),
            BoundUnaryOperator::Not => "!".to_owned(),
        }
    }

    /// Resolves a unary operator token; any other symbol is an
    /// unknown-operator diagnostic at the token's position.
    pub fn try_from(value: SymbolToken) -> (r: Result<BoundUnaryOperator, InterpreterError>)
        ensures
            match r {
                Ok(op) => spec_unary_op(value.symbol) == Some(op),
                Err(e) => spec_unary_op(value.symbol) is None && e@ == (ErrorV::UnknownOperator {
                    position: value.position,
                    operator: spec_symbol_lexeme(value.symbol),
                }),
            },
    {
        match value.symbol {
            Symbol::Minus => Ok(BoundUnaryOperator::Negation),
            Symbol::ExclamationPoint => Ok(BoundUnaryOperator::Not),
            _ => Err(
                InterpreterError::UnknownOperator {
                    position: value.position,
                    operator: value.symbol.lexeme(),
                },
            ),
        }
    }
}

impl BoundBinaryOperator {
    /// The glyph of this operator.
    pub fn lexeme(&self) -> (r: String)
        ensures
            r@ == spec_binary_op_lexeme(*self),
    {
        match self {
            BoundBinaryOperator::Addition => "+".to_owned(),
            BoundBinaryOperator::Subtraction => "-".to_owned(),
            BoundBinaryOperator::Multiplication => "*".to_owned(),
            BoundBinaryOperator::Division => "/".to_owned(),
            BoundBinaryOperator::LessThan => "<".to_owned(),
            BoundBinaryOperator::GreaterThan => ">".to_owned(),
            BoundBinaryOperator::LessThanEquals => "<=".to_owned(),
            BoundBinaryOperator::GreaterThanEquals => ">=".to_owned(),
            BoundBinaryOperator::Equals => "==".to_owned(),
            BoundBinaryOperator::NotEquals => "!=".to_owned(),
        }
    }

    /// Resolves a binary operator token; any other symbol is an
    /// unknown-operator diagnostic at the token's position.
    pub fn try_from(value: SymbolToken) -> (r: Result<BoundBinaryOperator, InterpreterError>)
        ensures
            match r {
                Ok(op) => spec_binary_op(value.symbol) == Some(op),
                Err(e) => spec_binary_op(value.symbol) is None && e@ == (ErrorV::UnknownOperator {
                    position: value.position,
                    operator: spec_symbol_lexeme(value.symbol),
                }),
            },
    {
        match value.symbol {
            Symbol::Plus => Ok(BoundBinaryOperator::Addition),
            Symbol::Minus => Ok(BoundBinaryOperator::Subtraction),
            Symbol::Asterisk => Ok(BoundBinaryOperator::Multiplication),
            Symbol::ForwardSlash => Ok(BoundBinaryOperator::Division),
            Symbol::LeftAngledBracket => Ok(BoundBinaryOperator::LessThan),
            Symbol::RightAngledBracket => Ok(BoundBinaryOperator::GreaterThan),
            Symbol::LeftAngledBracketEquals => Ok(BoundBinaryOperator::LessThanEquals),
            Symbol::RightAngledBracketEquals => Ok(BoundBinaryOperator::GreaterThanEquals),
            Symbol::DoubleEquals => Ok(BoundBinaryOperator::Equals),
            Symbol::ExclamationPointEquals => Ok(BoundBinaryOperator::NotEquals),
            _ => Err(
                InterpreterError::UnknownOperator {
                    position: value.position,
                    operator: value.symbol.lexeme(),
                },
            ),
        }
    }
}

} // verus!
