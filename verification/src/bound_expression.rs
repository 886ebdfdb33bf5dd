//! Bound expressions and their evaluator.
//!
//! The numeric model is wrapping 64-bit signed arithmetic: `+`, `-`, `*`
//! and unary `-` wrap on overflow, `!` is bitwise complement, and division
//! truncates toward zero, wrapping on `i64::MIN / -1`. Division by zero is
//! a diagnostic, not a halt. Text supports only concatenation. Evaluation
//! errors are raised immediately: the first one wins and the rest of the
//! walk is skipped.

use vstd::prelude::*;

use crate::bound_operator::{
    spec_binary_op_lexeme, spec_unary_op_lexeme, BoundBinaryOperator, BoundUnaryOperator,
};
use crate::data_type::Type;
use crate::error::{ErrorV, InterpreterError};
use crate::position::Position;
use crate::text::{push_str_chars, string_from_chars};
use crate::value::{spec_kind_name, Value, ValueV};

verus! {

/// A bound node: the tree shape with resolved operators, a type-identity
/// tag and the literal payloads as runtime values.
#[derive(Debug)]
pub enum BoundExpression {
    Literal { data_type: Type, position: Position, value: Value },
    Unary {
        data_type: Type,
        position: Position,
        operator: BoundUnaryOperator,
        operand: Box<BoundExpression>,
    },
    Binary {
        data_type: Type,
        position: Position,
        operator: BoundBinaryOperator,
        left_operand: Box<BoundExpression>,
        right_operand: Box<BoundExpression>,
    },
    Grouping { data_type: Type, operand: Box<BoundExpression> },
}

/// The mathematical value of a bound tree.
pub enum BoundV {
    Literal { data_type: Type, position: Position, value: ValueV },
    Unary {
        data_type: Type,
        position: Position,
        operator: BoundUnaryOperator,
        operand: Box<BoundV>,
    },
    Binary {
        data_type: Type,
        position: Position,
        operator: BoundBinaryOperator,
        left_operand: Box<BoundV>,
        right_operand: Box<BoundV>,
    },
    Grouping { data_type: Type, operand: Box<BoundV> },
}

pub open spec fn spec_bound_view(b: BoundExpression) -> BoundV
    decreases b,
{
    match b {
        BoundExpression::Literal { data_type, position, value } => BoundV::Literal {
            data_type,
            position,
            value: value@,
        },
        BoundExpression::Unary { data_type, position, operator, operand } => BoundV::Unary {
            data_type,
            position,
            operator,
            operand: Box::new(spec_bound_view(*operand)),
        },
        BoundExpression::Binary {
            data_type,
            position,
            operator,
            left_operand,
            right_operand,
        } => BoundV::Binary {
            data_type,
            position,
            operator,
            left_operand: Box::new(spec_bound_view(*left_operand)),
            right_operand: Box::new(spec_bound_view(*right_operand)),
        },
        BoundExpression::Grouping { data_type, operand } => BoundV::Grouping {
            data_type,
            operand: Box::new(spec_bound_view(*operand)),
        },
    }
}

impl View for BoundExpression {
    type V = BoundV;

    open spec fn view(&self) -> BoundV {
        spec_bound_view(*self)
    }
}

/// The type tag of a bound node.
pub open spec fn spec_data_type(b: BoundV) -> Type {
    match b {
        BoundV::Literal { data_type, .. } => data_type,
        BoundV::Unary { data_type, .. } => data_type,
        BoundV::Binary { data_type, .. } => data_type,
        BoundV::Grouping { data_type, .. } => data_type,
    }
}

/// The diagnostic for an operator applied to a value kind it does not
/// support: `"cannot perform `<op>` on <type>"` at the operator's position.
pub open spec fn spec_mismatch(op: Seq<char>, v: ValueV, position: Position) -> ErrorV {
    ErrorV::SyntaxError {
        position,
        message: "cannot perform `"@ + op + "` on "@ + spec_kind_name(v),
    }
}

/// Truncating division of the underlying integers (the sign of the result
/// follows the signs of the operands, as Rust's `/` does).
pub open spec fn spec_div_trunc(a: int, b: int) -> int
    recommends
        b != 0,
{
    let magnitude = (if a >= 0 {
        a
    } else {
        -a
    }) / (if b >= 0 {
        b
    } else {
        -b
    });
    if (a < 0) != (b < 0) {
        -magnitude
    } else {
        magnitude
    }
}

/// What evaluating a bound tree yields: the literal's value at a leaf,
/// wrapping integer arithmetic and text concatenation at operators, and the
/// first diagnostic raised anywhere in the walk.
pub open spec fn spec_eval(b: BoundV) -> Result<ValueV, ErrorV>
    decreases b,
{
    match b {
        BoundV::Literal { value, .. } => Ok(value),
        BoundV::Unary { position, operator, operand, .. } => {
            match spec_eval(*operand) {
                Err(e) => Err(e),
                Ok(v) => match operator {
                    BoundUnaryOperator::Negation => match v {
                        ValueV::Number(n) => Ok(
                            ValueV::Number(vstd::wrapping::i64_specs::wrapping_sub(0i64, n)),
                        ),
                        _ => Err(spec_mismatch(spec_unary_op_lexeme(operator), v, position)),
                    },
                    BoundUnaryOperator::Not => match v {
                        ValueV::Number(n) => Ok(ValueV::Number((-1 - n) as i64)),
                        _ => Err(spec_mismatch(spec_unary_op_lexeme(operator), v, position)),
                    },
                },
            }
        },
        BoundV::Binary { position, operator, left_operand, right_operand, .. } => {
            match spec_eval(*left_operand) {
                Err(e) => Err(e),
                Ok(lv) => match spec_eval(*right_operand) {
                    Err(e) => Err(e),
                    Ok(rv) => match (lv, rv) {
                        (ValueV::Number(a), ValueV::Number(b)) => match operator {
                            BoundBinaryOperator::Addition => Ok(
                                ValueV::Number(vstd::wrapping::i64_specs::wrapping_add(a, b)),
                            ),
                            BoundBinaryOperator::Subtraction => Ok(
                                ValueV::Number(vstd::wrapping::i64_specs::wrapping_sub(a, b)),
                            ),
                            BoundBinaryOperator::Multiplication => Ok(
                                ValueV::Number(vstd::wrapping::i64_specs::wrapping_mul(a, b)),
                            ),
                            BoundBinaryOperator::Division => {
                                if b == 0 {
                                    Err(
                                        ErrorV::SyntaxError {
                                            position,
                                            message: "division by zero"@,
                                        },
                                    )
                                } else if a == i64::MIN && b == -1 {
                                    Ok(ValueV::Number(i64::MIN))
                                } else {
                                    Ok(
                                        ValueV::Number(
                                            spec_div_trunc(a as int, b as int) as i64,
                                        ),
                                    )
                                }
                            },
                            _ => Err(
                                spec_mismatch(spec_binary_op_lexeme(operator), lv, position),
                            ),
                        },
                        (ValueV::Text(a), ValueV::Text(b)) => match operator {
                            BoundBinaryOperator::Addition => Ok(ValueV::Text(a + b)),
                            _ => Err(
                                spec_mismatch(spec_binary_op_lexeme(operator), lv, position),
                            ),
                        },
                        _ => Err(spec_mismatch(spec_binary_op_lexeme(operator), lv, position)),
                    },
                },
            }
        },
        BoundV::Grouping { operand, .. } => spec_eval(*operand),
    }
}

/// The view of an evaluation outcome.
pub open spec fn spec_eval_view(r: Result<Value, InterpreterError>) -> Result<ValueV, ErrorV> {
    match r {
        Ok(v) => Ok(v@),
        Err(e) => Err(e@),
    }
}

/// The name diagnostics use for a value's type.
fn kind_name(v: &Value) -> (r: &'static str)
    ensures
        r@ == spec_kind_name(v@),
{
    match v {
        Value::Number(_) => "i64",
        Value::Text(_) => "string",
        Value::Void => "void",
    }
}

/// Builds the type-mismatch diagnostic for `op` applied to `v`.
fn mismatch_error(op: &String, v: &Value, position: Position) -> (r: InterpreterError)
    ensures
        r@ == spec_mismatch(op@, v@, position),
{
    let mut message: Vec<char> = Vec::new();
    push_str_chars(&mut message, "cannot perform `");
    push_str_chars(&mut message, op.as_str());
    push_str_chars(&mut message, "` on ");
    push_str_chars(&mut message, kind_name(v));
    proof {
        assert(message@ =~= "cannot perform `"@ + op@ + "` on "@ + spec_kind_name(v@));
    }
    InterpreterError::SyntaxError { position, message: string_from_chars(&message) }
}

/// Truncating signed division, via unsigned division of the magnitudes.
fn div_trunc(a: i64, b: i64) -> (r: i64)
    requires
        b != 0,
        !(a == i64::MIN && b == -1),
    ensures
        r as int == spec_div_trunc(a as int, b as int),
{
    let ua: u64 = if a >= 0 {
        a as u64
    } else if a == i64::MIN {
        9223372036854775808u64
    } else {
        (-a) as u64
    };
    let ub: u64 = if b >= 0 {
        b as u64
    } else if b == i64::MIN {
        9223372036854775808u64
    } else {
        (-b) as u64
    };
    proof {
        assert(ua as int == (if a as int >= 0 {
            a as int
        } else {
            -(a as int)
        }));
        assert(ub as int == (if b as int >= 0 {
            b as int
        } else {
            -(b as int)
        }));
        assert(ub >= 1);
    }
    let q: u64 = ua / ub;
    proof {
        assert(q <= ua) by (nonlinear_arith)
            requires
                ub >= 1,
                q == ua / ub,
        ;
    }
    let negative = (a < 0) != (b < 0);
    if negative {
        if q == 9223372036854775808u64 {
            i64::MIN
        } else {
            -(q as i64)
        }
    } else {
        proof {
            if a >= 0 {
                assert(q <= 0x7FFF_FFFF_FFFF_FFFFu64);
            } else {
                if ub == 1 {
                    assert(b as int == -1);
                    assert(a != i64::MIN);
                    assert(ua <= 0x7FFF_FFFF_FFFF_FFFFu64);
                } else {
                    assert(q <= ua / 2) by (nonlinear_arith)
                        requires
                            ub >= 2,
                            q == ua / ub,
                    ;
                }
            }
            assert(q <= 0x7FFF_FFFF_FFFF_FFFFu64);
        }
        q as i64
    }
}

impl BoundExpression {
    /// The type tag of this node.
    pub fn data_type(&self) -> (r: Type)
        ensures
            r == spec_data_type(self@),
    {
        match self {
            BoundExpression::Literal { data_type, .. } => *data_type,
            BoundExpression::Unary { data_type, .. } => *data_type,
            BoundExpression::Binary { data_type, .. } => *data_type,
            BoundExpression::Grouping { data_type, .. } => *data_type,
        }
    }

    /// Walks the tree and computes its value, or the first diagnostic an
    /// operator raises.
    pub fn evaluate(&self) -> (r: Result<Value, InterpreterError>)
        ensures
            spec_eval_view(r) == spec_eval(self@),
        decreases *self,
    {
        match self {
            BoundExpression::Literal { value, .. } => Ok(value.clone()),
            BoundExpression::Unary { position, operator, operand, .. } => {
                let v = match operand.evaluate() {
                    Err(e) => {
                        return Err(e);
                    },
                    Ok(v) => v,
                };
                match operator {
                    BoundUnaryOperator::Negation => match v {
                        Value::Number(n) => Ok(Value::Number((0i64).wrapping_sub(n))),
                        other => Err(mismatch_error(&operator.lexeme(), &other, *position)),
                    },
                    BoundUnaryOperator::Not => match v {
                        Value::Number(n) => Ok(Value::Number(-1i64 - n)),
                        other => Err(mismatch_error(&operator.lexeme(), &other, *position)),
                    },
                }
            },
            BoundExpression::Binary {
                position,
                operator,
                left_operand,
                right_operand,
                ..
            } => {
                let lv = match left_operand.evaluate() {
                    Err(e) => {
                        return Err(e);
                    },
                    Ok(v) => v,
                };
                let rv = match right_operand.evaluate() {
                    Err(e) => {
                        return Err(e);
                    },
                    Ok(v) => v,
                };
                match (lv, rv) {
                    (Value::Number(a), Value::Number(b)) => match operator {
                        BoundBinaryOperator::Addition => Ok(Value::Number(a.wrapping_add(b))),
                        BoundBinaryOperator::Subtraction => Ok(Value::Number(a.wrapping_sub(b))),
                        BoundBinaryOperator::Multiplication => Ok(
                            Value::Number(a.wrapping_mul(b)),
                        ),
                        BoundBinaryOperator::Division => {
                            if b == 0 {
                                Err(
                                    InterpreterError::SyntaxError {
                                        position: *position,
                                        message: "division by zero".to_owned(),
                                    },
                                )
                            } else if a == i64::MIN && b == -1 {
                                Ok(Value::Number(i64::MIN))
                            } else {
                                Ok(Value::Number(div_trunc(a, b)))
                            }
                        },
                        other_op => Err(
                            mismatch_error(
                                &other_op.lexeme(),
                                &Value::Number(a),
                                *position,
                            ),
                        ),
                    },
                    (Value::Text(a), Value::Text(b)) => match operator {
                        BoundBinaryOperator::Addition => {
                            let joined = a.concat(b.as_str());
                            Ok(Value::Text(joined))
                        },
                        other_op => Err(
                            mismatch_error(&other_op.lexeme(), &Value::Text(a), *position),
                        ),
                    },
                    (left_other, _) => Err(
                        mismatch_error(&operator.lexeme(), &left_other, *position),
                    ),
                }
            },
            BoundExpression::Grouping { operand, .. } => operand.evaluate(),
        }
    }
}


/// Evaluating a grouping yields exactly the value its inner operand
/// evaluates to, success and failure alike.
pub proof fn lemma_grouping_transparent(data_type: Type, operand: BoundV)
    ensures
        spec_eval(BoundV::Grouping { data_type, operand: Box::new(operand) }) == spec_eval(
            operand,
        ),
{
}

} // verus!
