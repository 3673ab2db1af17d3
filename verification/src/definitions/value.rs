//! Run-time values, the conditions that abort an evaluation, and what the
//! operators compute.

use vstd::prelude::*;
use vstd::arithmetic::power::pow;
use crate::compilation_unit::{FunctionIdx, VariableIdx};
use crate::definitions::{BinOpKind, UnOpKind};

verus! {

/// What an expression evaluates to.
#[derive(Debug, Clone, Copy, PartialEq, Eq, Structural)]
pub enum Value {
    Number(i64),
    Boolean(bool),
    Function(FunctionIdx),
}

impl Value {
    pub fn expect_boolean(&self) -> (r: bool)
        requires
            self is Boolean,
        ensures
            *self == Value::Boolean(r),
    {
        match self {
            Value::Boolean(value) => *value,
            _ => false,
        }
    }

    pub fn expect_number(&self) -> (r: i64)
        requires
            self is Number,
        ensures
            *self == Value::Number(r),
    {
        match self {
            Value::Number(value) => *value,
            _ => 0,
        }
    }

    pub fn expect_function(&self) -> (r: FunctionIdx)
        requires
            self is Function,
        ensures
            *self == Value::Function(r),
    {
        match self {
            Value::Function(value) => *value,
            _ => FunctionIdx::unreachable(),
        }
    }
}

/// The conditions that abort an evaluation. None can be recovered from:
/// each shows a defect in the program or in a pass that ran before.
#[derive(Debug, Clone, Copy, PartialEq, Eq, Structural)]
pub enum EvalError {
    /// A node names an index that the arena does not hold.
    InvalidIndex,
    /// No frame binds the variable.
    UnboundVariable(VariableIdx),
    /// No function is declared under the callee's name.
    FunctionNotFound,
    /// A call gives another number of arguments than the function has
    /// parameters.
    ArityMismatch,
    /// An operand or a condition is of the wrong variant.
    TypeMismatch,
    /// A value was needed before any had been computed.
    MissingValue,
    /// The placeholder for malformed input was reached.
    ErrorNode,
    DivisionByZero,
    NegativeExponent,
    /// The result of an arithmetic operator does not fit the number type.
    Overflow,
    /// The evaluation nested deeper than its budget allows.
    DepthExceeded,
    /// A `break` or a `continue` stands outside every loop.
    OutsideLoop,
}

/// What is told of a condition that has aborted an evaluation.
pub open spec fn error_text(error: EvalError) -> Seq<char> {
    match error {
        EvalError::InvalidIndex => "a node refers to an index that the arena does not hold"@,
        EvalError::UnboundVariable(_) => "unbound variable"@,
        EvalError::FunctionNotFound => "function not found"@,
        EvalError::ArityMismatch => "wrong number of arguments"@,
        EvalError::TypeMismatch => "operand of the wrong type"@,
        EvalError::MissingValue => "no value has been computed"@,
        EvalError::ErrorNode => "cannot evaluate an error expression"@,
        EvalError::DivisionByZero => "division by zero"@,
        EvalError::NegativeExponent => "negative exponent"@,
        EvalError::Overflow => "arithmetic overflow"@,
        EvalError::DepthExceeded => "evaluation nested too deeply"@,
        EvalError::OutsideLoop => "break or continue outside of a loop"@,
    }
}

impl EvalError {
    /// A description of the condition, for whoever reports it.
    pub fn message(&self) -> (r: &'static str)
        ensures
            r@ == error_text(*self),
    {
        match self {
            EvalError::InvalidIndex => "a node refers to an index that the arena does not hold",
            EvalError::UnboundVariable(_) => "unbound variable",
            EvalError::FunctionNotFound => "function not found",
            EvalError::ArityMismatch => "wrong number of arguments",
            EvalError::TypeMismatch => "operand of the wrong type",
            EvalError::MissingValue => "no value has been computed",
            EvalError::ErrorNode => "cannot evaluate an error expression",
            EvalError::DivisionByZero => "division by zero",
            EvalError::NegativeExponent => "negative exponent",
            EvalError::Overflow => "arithmetic overflow",
            EvalError::DepthExceeded => "evaluation nested too deeply",
            EvalError::OutsideLoop => "break or continue outside of a loop",
        }
    }
}

/// Whether a number can be held by a value.
pub open spec fn representable(n: int) -> bool {
    i64::MIN <= n <= i64::MAX
}

/// The number `n` as a value, or the overflow condition.
pub open spec fn number_or_overflow(n: int) -> Result<Value, EvalError> {
    if representable(n) {
        Ok(Value::Number(n as i64))
    } else {
        Err(EvalError::Overflow)
    }
}

/// The quotient of `a` by `b`, rounded towards zero.
pub open spec fn truncated_quotient(a: int, b: int) -> int
    recommends
        b != 0,
{
    if a >= 0 && b > 0 {
        a / b
    } else if a < 0 && b < 0 {
        (-a) / (-b)
    } else if a < 0 {
        -((-a) / b)
    } else {
        -(a / (-b))
    }
}

/// What is left of `a` when `b` times the truncated quotient is taken away:
/// a remainder with the sign of `a`.
pub open spec fn truncated_remainder(a: int, b: int) -> int
    recommends
        b != 0,
{
    if a >= 0 && b > 0 {
        a % b
    } else if a < 0 && b < 0 {
        -((-a) % (-b))
    } else if a < 0 {
        -((-a) % b)
    } else {
        a % (-b)
    }
}

/// What a unary operator makes of a value.
pub open spec fn unary_result(kind: UnOpKind, operand: Value) -> Result<Value, EvalError> {
    match operand {
        Value::Number(n) => match kind {
            UnOpKind::Minus => number_or_overflow(-n),
            UnOpKind::BitwiseNot => Ok(Value::Number(!n)),
        },
        _ => Err(EvalError::TypeMismatch),
    }
}

/// What an arithmetic or bitwise operator makes of two numbers, and what a
/// comparison says of them.
pub open spec fn numeric_result(kind: BinOpKind, a: i64, b: i64) -> Result<Value, EvalError> {
    match kind {
        BinOpKind::Plus => number_or_overflow(a + b),
        BinOpKind::Minus => number_or_overflow(a - b),
        BinOpKind::Multiply => number_or_overflow(a * b),
        BinOpKind::Divide => if b == 0 {
            Err(EvalError::DivisionByZero)
        } else {
            number_or_overflow(truncated_quotient(a as int, b as int))
        },
        BinOpKind::Modulo => if b == 0 {
            Err(EvalError::DivisionByZero)
        } else if a == i64::MIN && b == -1 {
            Err(EvalError::Overflow)
        } else {
            Ok(Value::Number(truncated_remainder(a as int, b as int) as i64))
        },
        BinOpKind::Power => if b < 0 {
            Err(EvalError::NegativeExponent)
        } else {
            number_or_overflow(pow(a as int, b as nat))
        },
        BinOpKind::BitwiseAnd => Ok(Value::Number(a & b)),
        BinOpKind::BitwiseOr => Ok(Value::Number(a | b)),
        BinOpKind::BitwiseXor => Ok(Value::Number(a ^ b)),
        BinOpKind::Equals => Ok(Value::Boolean(a == b)),
        BinOpKind::NotEquals => Ok(Value::Boolean(a != b)),
        BinOpKind::LessThan => Ok(Value::Boolean(a < b)),
        BinOpKind::LessThanOrEqual => Ok(Value::Boolean(a <= b)),
        BinOpKind::GreaterThan => Ok(Value::Boolean(a > b)),
        BinOpKind::GreaterThanOrEqual => Ok(Value::Boolean(a >= b)),
    }
}

/// What a binary operator makes of two values.
///
/// Equality and inequality compare any two values, by variant and payload.
/// Every other operator wants two numbers.
pub open spec fn binary_result(kind: BinOpKind, left: Value, right: Value) -> Result<
    Value,
    EvalError,
> {
    match kind {
        BinOpKind::Equals => Ok(Value::Boolean(left == right)),
        BinOpKind::NotEquals => Ok(Value::Boolean(left != right)),
        _ => match (left, right) {
            (Value::Number(a), Value::Number(b)) => numeric_result(kind, a, b),
            _ => Err(EvalError::TypeMismatch),
        },
    }
}

/// Equality holds of every value and itself, and never of two values of
/// different variants; inequality is its negation.
pub proof fn lemma_equality_by_variant_and_payload(a: Value, b: Value)
    ensures
        binary_result(BinOpKind::Equals, a, a) == Ok::<Value, EvalError>(Value::Boolean(true)),
        binary_result(BinOpKind::NotEquals, a, a) == Ok::<Value, EvalError>(Value::Boolean(false)),
        (a is Number) != (b is Number) || (a is Boolean) != (b is Boolean) || (a is Function) != (b
            is Function) ==> {
            &&& binary_result(BinOpKind::Equals, a, b) == Ok::<Value, EvalError>(
                Value::Boolean(false),
            )
            &&& binary_result(BinOpKind::NotEquals, a, b) == Ok::<Value, EvalError>(
                Value::Boolean(true),
            )
        },
{
}

/// A power is one for the exponent zero, and the base times the next
/// lower power otherwise.
proof fn lemma_pow_unfold(base: int, e: nat)
    ensures
        pow(base, e) == (if e == 0 {
            1
        } else {
            base * pow(base, (e - 1) as nat)
        }),
{
    reveal(pow);
}

proof fn lemma_pow_of_minus_one(e: nat)
    ensures
        pow(-1, e) == (if e % 2 == 0 {
            1int
        } else {
            -1int
        }),
    decreases e,
{
    lemma_pow_unfold(-1, e);
    if e > 0 {
        lemma_pow_of_minus_one((e - 1) as nat);
    }
}

proof fn lemma_pow_of_zero(e: nat)
    ensures
        pow(0, e) == (if e == 0 {
            1int
        } else {
            0int
        }),
{
    lemma_pow_unfold(0, e);
}

proof fn lemma_pow_of_one(e: nat)
    ensures
        pow(1, e) == 1,
    decreases e,
{
    lemma_pow_unfold(1, e);
    if e > 0 {
        lemma_pow_of_one((e - 1) as nat);
    }
}

/// A power of a base of magnitude two or more that has left the range of
/// the number type does not come back into it.
proof fn lemma_pow_stays_out_of_range(base: int, low: nat, high: nat)
    requires
        base >= 2 || base <= -2,
        low <= high,
        !representable(pow(base, low)),
    ensures
        !representable(pow(base, high)),
    decreases high - low,
{
    if low < high {
        lemma_pow_stays_out_of_range(base, low, (high - 1) as nat);
        let x = pow(base, (high - 1) as nat);
        lemma_pow_unfold(base, high);
        assert(!representable(base * x)) by (nonlinear_arith)
            requires
                base >= 2 || base <= -2,
                x > 0x7fff_ffff_ffff_ffff || x < -0x8000_0000_0000_0000,
                representable(base * x) <==> -0x8000_0000_0000_0000 <= base * x
                    <= 0x7fff_ffff_ffff_ffff,
        {
        }
    }
}

/// Raises `base` to `exponent` by repeated multiplication.
fn power(base: i64, exponent: i64) -> (r: Result<Value, EvalError>)
    ensures
        r == numeric_result(BinOpKind::Power, base, exponent),
{
    if exponent < 0 {
        return Err(EvalError::NegativeExponent);
    }
    // Bases whose powers stay small are answered at once: the loop below
    // relies on the powers growing.

    if base == 0 {
        proof {
            lemma_pow_of_zero(exponent as nat);
        }
        return Ok(Value::Number(if exponent == 0 { 1 } else { 0 }));
    }
    if base == 1 {
        proof {
            lemma_pow_of_one(exponent as nat);
        }
        return Ok(Value::Number(1));
    }
    if base == -1 {
        proof {
            lemma_pow_of_minus_one(exponent as nat);
        }
        return Ok(Value::Number(if exponent % 2 == 0 { 1 } else { -1 }));
    }
    let mut result: i64 = 1;
    let mut done: i64 = 0;
    proof {
        lemma_pow_unfold(base as int, 0);
    }
    while done < exponent
        invariant
            0 <= done <= exponent,
            base >= 2 || base <= -2,
            result == pow(base as int, done as nat),
        decreases exponent - done,
    {
        proof {
            lemma_pow_unfold(base as int, (done + 1) as nat);
        }
        assert(result * base == base * result) by (nonlinear_arith);
        match result.checked_mul(base) {
            Some(next) => {
                result = next;
                done = done + 1;
            },
            None => {
                proof {
                    lemma_pow_stays_out_of_range(
                        base as int,
                        (done + 1) as nat,
                        exponent as nat,
                    );
                }
                return Err(EvalError::Overflow);
            },
        }
    }
    Ok(Value::Number(result))
}

/// Applies a unary operator.
pub fn apply_unary(kind: UnOpKind, operand: Value) -> (r: Result<Value, EvalError>)
    ensures
        r == unary_result(kind, operand),
{
    match operand {
        Value::Number(n) => match kind {
            UnOpKind::Minus => match 0i64.checked_sub(n) {
                Some(negated) => Ok(Value::Number(negated)),
                None => Err(EvalError::Overflow),
            },
            UnOpKind::BitwiseNot => Ok(Value::Number(!n)),
        },
        _ => Err(EvalError::TypeMismatch),
    }
}

fn number_or_overflow_of(n: Option<i64>) -> (r: Result<Value, EvalError>)
    ensures
        r == (match n {
            Some(n) => Ok::<Value, EvalError>(Value::Number(n)),
            None => Err(EvalError::Overflow),
        }),
{
    match n {
        Some(n) => Ok(Value::Number(n)),
        None => Err(EvalError::Overflow),
    }
}

/// Applies an arithmetic or bitwise operator, or a comparison, to two
/// numbers.
///
/// The arithmetic is that of the integers wherever the result is a number
/// that a value can hold, with quotients rounded towards zero and
/// remainders signed as the dividend; where it is not, the operation fails
/// with `Overflow`.
pub fn apply_numeric(kind: BinOpKind, a: i64, b: i64) -> (r: Result<Value, EvalError>)
    ensures
        r == numeric_result(kind, a, b),
{
    match kind {
        BinOpKind::Plus => number_or_overflow_of(a.checked_add(b)),
        BinOpKind::Minus => number_or_overflow_of(a.checked_sub(b)),
        BinOpKind::Multiply => number_or_overflow_of(a.checked_mul(b)),
        BinOpKind::Divide => if b == 0 {
            Err(EvalError::DivisionByZero)
        } else {
            number_or_overflow_of(a.checked_div(b))
        },
        BinOpKind::Modulo => if b == 0 {
            Err(EvalError::DivisionByZero)
        } else {
            number_or_overflow_of(a.checked_rem(b))
        },
        BinOpKind::Power => power(a, b),
        BinOpKind::BitwiseAnd => Ok(Value::Number(a & b)),
        BinOpKind::BitwiseOr => Ok(Value::Number(a | b)),
        BinOpKind::BitwiseXor => Ok(Value::Number(a ^ b)),
        BinOpKind::Equals => Ok(Value::Boolean(a == b)),
        BinOpKind::NotEquals => Ok(Value::Boolean(a != b)),
        BinOpKind::LessThan => Ok(Value::Boolean(a < b)),
        BinOpKind::LessThanOrEqual => Ok(Value::Boolean(a <= b)),
        BinOpKind::GreaterThan => Ok(Value::Boolean(a > b)),
        BinOpKind::GreaterThanOrEqual => Ok(Value::Boolean(a >= b)),
    }
}

/// Applies a binary operator.
///
/// Equality and inequality compare any two values and never fail. Every
/// other operator fails with `TypeMismatch` unless both values are numbers.
pub fn apply_binary(kind: BinOpKind, left: Value, right: Value) -> (r: Result<Value, EvalError>)
    ensures
        r == binary_result(kind, left, right),
{
    match kind {
        BinOpKind::Equals => Ok(Value::Boolean(left == right)),
        BinOpKind::NotEquals => Ok(Value::Boolean(left != right)),
        _ => match (left, right) {
            (Value::Number(a), Value::Number(b)) => apply_numeric(kind, a, b),
            _ => Err(EvalError::TypeMismatch),
        },
    }
}

} // verus!
