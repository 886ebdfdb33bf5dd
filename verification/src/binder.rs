//! The binder: resolves operator tokens into bound operators, attaches a
//! type-identity tag to every node, and turns literal payloads into runtime
//! values. An unresolvable operator is a diagnostic, and the node degrades
//! to its (left) operand so binding continues.

use vstd::prelude::*;

use crate::bound_expression::{spec_data_type, BoundExpression, BoundV};
use crate::bound_operator::{
    spec_binary_op, spec_unary_op, BoundBinaryOperator, BoundUnaryOperator,
};
use crate::data_type::{Primitive, Type};
use crate::error::{ErrorV, InterpreterError};
use crate::error_handler::ErrorHandler;
use crate::expression::{ExprV, Expression};
use crate::token::{spec_symbol_lexeme, LiteralV, SymbolToken};
use crate::value::{Value, ValueV};

verus! {

/// The runtime value of a literal payload: identifiers and quoted text are
/// text, numbers are numbers, `()` is the unit value.
pub open spec fn spec_literal_value(l: LiteralV) -> ValueV {
    match l {
        LiteralV::Identifier { lexeme } => ValueV::Text(lexeme),
        LiteralV::String { lexeme } => ValueV::Text(lexeme),
        LiteralV::Number { lexeme } => ValueV::Number(lexeme),
        LiteralV::Void => ValueV::Void,
    }
}

/// The type tag of a runtime value.
pub open spec fn spec_value_type(v: ValueV) -> Type {
    match v {
        ValueV::Number(_) => Type::Primitive(Primitive::Int),
        ValueV::Text(_) => Type::Text,
        ValueV::Void => Type::Void,
    }
}

/// What binding yields: the bound tree and the diagnostics pushed along the
/// way, in order.
pub struct BindStep {
    pub tree: BoundV,
    pub errors: Seq<ErrorV>,
}

/// The unknown-operator diagnostic for a symbol token.
pub open spec fn spec_unknown_op(st: SymbolToken) -> ErrorV {
    ErrorV::UnknownOperator {
        position: st.position,
        operator: spec_symbol_lexeme(st.symbol),
    }
}

/// The bound tree of a parse tree: each literal becomes its value with its
/// type tag, each operator resolves or degrades the node to its (left)
/// operand with an unknown-operator diagnostic, and every node's tag is its
/// operand's tag (the left one for binary nodes).
pub open spec fn spec_bind(e: ExprV) -> BindStep
    decreases e,
{
    match e {
        ExprV::Literal { token } => BindStep {
            tree: BoundV::Literal {
                data_type: spec_value_type(spec_literal_value(token.literal)),
                position: token.position,
                value: spec_literal_value(token.literal),
            },
            errors: Seq::<ErrorV>::empty(),
        },
        ExprV::Unary { operator, operand } => {
            let inner = spec_bind(*operand);
            match spec_unary_op(operator.symbol) {
                Some(op) => BindStep {
                    tree: BoundV::Unary {
                        data_type: spec_data_type(inner.tree),
                        position: operator.position,
                        operator: op,
                        operand: Box::new(inner.tree),
                    },
                    errors: inner.errors,
                },
                None => BindStep {
                    tree: inner.tree,
                    errors: inner.errors.push(spec_unknown_op(operator)),
                },
            }
        },
        ExprV::Binary { operator, left_operand, right_operand } => {
            let left = spec_bind(*left_operand);
            let right = spec_bind(*right_operand);
            match spec_binary_op(operator.symbol) {
                Some(op) => BindStep {
                    tree: BoundV::Binary {
                        data_type: spec_data_type(left.tree),
                        position: operator.position,
                        operator: op,
                        left_operand: Box::new(left.tree),
                        right_operand: Box::new(right.tree),
                    },
                    errors: left.errors + right.errors,
                },
                None => BindStep {
                    tree: left.tree,
                    errors: (left.errors + right.errors).push(spec_unknown_op(operator)),
                },
            }
        },
        ExprV::Grouping { operand } => {
            let inner = spec_bind(*operand);
            BindStep {
                tree: BoundV::Grouping {
                    data_type: spec_data_type(inner.tree),
                    operand: Box::new(inner.tree),
                },
                errors: inner.errors,
            }
        },
    }
}

/// The binder. It owns no state of its own: each `bind` call walks one
/// tree and pushes its diagnostics into the handler it is given.
pub struct Binder {}

impl Binder {
    pub fn new() -> (r: Binder) {
        Binder {  }
    }

    /// Binds a parse tree, appending exactly the diagnostics of
    /// unresolvable operators, in walk order.
    pub fn bind(&mut self, syntax: Expression, errors: &mut ErrorHandler) -> (r: BoundExpression)
        ensures
            r@ == spec_bind(syntax@).tree,
            final(errors)@ == old(errors)@ + spec_bind(syntax@).errors,
        decreases syntax,
    {
        proof {
            assert(old(errors)@ + Seq::<ErrorV>::empty() =~= old(errors)@);
        }
        match syntax {
            Expression::Literal { token } => {
                let value: Value = match token.literal {
                    crate::token::Literal::Identifier { lexeme } => Value::Text(lexeme),
                    crate::token::Literal::String { lexeme } => Value::Text(lexeme),
                    crate::token::Literal::Number { lexeme } => Value::Number(lexeme),
                    crate::token::Literal::Void => Value::Void,
                };
                let data_type = match &value {
                    Value::Number(_) => Type::Primitive(Primitive::Int),
                    Value::Text(_) => Type::Text,
                    Value::Void => Type::Void,
                };
                BoundExpression::Literal { data_type, position: token.position, value }
            },
            Expression::Unary { operator, operand } => {
                let ghost oe = operand@;
                let inner = self.bind(*operand, errors);
                match BoundUnaryOperator::try_from(operator) {
                    Ok(op) => {
                        let data_type = inner.data_type();
                        BoundExpression::Unary {
                            data_type,
                            position: operator.position,
                            operator: op,
                            operand: Box::new(inner),
                        }
                    },
                    Err(error) => {
                        errors.push(error);
                        proof {
                            assert(errors@ =~= old(errors)@ + spec_bind(oe).errors.push(
                                spec_unknown_op(operator),
                            ));
                        }
                        inner
                    },
                }
            },
            Expression::Binary { operator, left_operand, right_operand } => {
                let ghost le = left_operand@;
                let ghost re = right_operand@;
                let left = self.bind(*left_operand, errors);
                let right = self.bind(*right_operand, errors);
                proof {
                    assert(errors@ =~= old(errors)@ + (spec_bind(le).errors + spec_bind(
                        re,
                    ).errors));
                }
                match BoundBinaryOperator::try_from(operator) {
                    Ok(op) => {
                        let data_type = left.data_type();
                        BoundExpression::Binary {
                            data_type,
                            position: operator.position,
                            operator: op,
                            left_operand: Box::new(left),
                            right_operand: Box::new(right),
                        }
                    },
                    Err(error) => {
                        errors.push(error);
                        proof {
                            assert(errors@ =~= old(errors)@ + (spec_bind(le).errors + spec_bind(
                                re,
                            ).errors).push(spec_unknown_op(operator)));
                        }
                        left
                    },
                }
            },
            Expression::Grouping { operand } => {
                let inner = self.bind(*operand, errors);
                let data_type = inner.data_type();
                BoundExpression::Grouping { data_type, operand: Box::new(inner) }
            },
        }
    }
}

} // verus!
