use nsharp::compilation_unit::{FunctionIdx, VariableIdx};
use nsharp::definitions::value::{EvalError, Value, apply_binary, apply_numeric, apply_unary};
use nsharp::definitions::{BinOpKind, UnOpKind};

fn num(kind: BinOpKind, a: i64, b: i64) -> Result<Value, EvalError> {
    apply_binary(kind, Value::Number(a), Value::Number(b))
}

#[test]
fn arithmetic_is_that_of_the_integers() {
    assert_eq!(num(BinOpKind::Plus, 2, 3), Ok(Value::Number(5)));
    assert_eq!(num(BinOpKind::Minus, 2, 3), Ok(Value::Number(-1)));
    assert_eq!(num(BinOpKind::Multiply, -4, 3), Ok(Value::Number(-12)));
    assert_eq!(num(BinOpKind::Divide, 7, 2), Ok(Value::Number(3)));
    assert_eq!(num(BinOpKind::Modulo, 7, 3), Ok(Value::Number(1)));
    assert_eq!(num(BinOpKind::Power, 2, 10), Ok(Value::Number(1024)));
    assert_eq!(apply_numeric(BinOpKind::Plus, 40, 2), Ok(Value::Number(42)));
}

#[test]
fn quotient_rounds_towards_zero() {
    assert_eq!(num(BinOpKind::Divide, -7, 2), Ok(Value::Number(-3)));
    assert_eq!(num(BinOpKind::Divide, 7, -2), Ok(Value::Number(-3)));
    assert_eq!(num(BinOpKind::Divide, -7, -2), Ok(Value::Number(3)));
    assert_eq!(num(BinOpKind::Divide, 0, -2), Ok(Value::Number(0)));
}

#[test]
fn remainder_has_the_sign_of_the_dividend() {
    assert_eq!(num(BinOpKind::Modulo, -7, 3), Ok(Value::Number(-1)));
    assert_eq!(num(BinOpKind::Modulo, 7, -3), Ok(Value::Number(1)));
    assert_eq!(num(BinOpKind::Modulo, -7, -3), Ok(Value::Number(-1)));
    assert_eq!(num(BinOpKind::Modulo, 6, 3), Ok(Value::Number(0)));
}

#[test]
fn bitwise_operators_work_on_twos_complement() {
    assert_eq!(num(BinOpKind::BitwiseAnd, -1, 3), Ok(Value::Number(3)));
    assert_eq!(num(BinOpKind::BitwiseOr, 4, 1), Ok(Value::Number(5)));
    assert_eq!(num(BinOpKind::BitwiseXor, 6, 3), Ok(Value::Number(5)));
    assert_eq!(apply_unary(UnOpKind::BitwiseNot, Value::Number(0)), Ok(Value::Number(-1)));
    assert_eq!(apply_unary(UnOpKind::BitwiseNot, Value::Number(5)), Ok(Value::Number(-6)));
}

#[test]
fn division_and_remainder_by_zero_are_fatal() {
    assert_eq!(num(BinOpKind::Divide, 1, 0), Err(EvalError::DivisionByZero));
    assert_eq!(num(BinOpKind::Modulo, 1, 0), Err(EvalError::DivisionByZero));
    assert_eq!(num(BinOpKind::Divide, i64::MIN, 0), Err(EvalError::DivisionByZero));
}

#[test]
fn results_out_of_range_are_overflows() {
    assert_eq!(num(BinOpKind::Plus, i64::MAX, 1), Err(EvalError::Overflow));
    assert_eq!(num(BinOpKind::Minus, i64::MIN, 1), Err(EvalError::Overflow));
    assert_eq!(num(BinOpKind::Multiply, i64::MAX, 2), Err(EvalError::Overflow));
    assert_eq!(num(BinOpKind::Divide, i64::MIN, -1), Err(EvalError::Overflow));
    assert_eq!(num(BinOpKind::Modulo, i64::MIN, -1), Err(EvalError::Overflow));
    assert_eq!(apply_unary(UnOpKind::Minus, Value::Number(i64::MIN)), Err(EvalError::Overflow));
    assert_eq!(num(BinOpKind::Plus, i64::MAX, 0), Ok(Value::Number(i64::MAX)));
}

#[test]
fn powers() {
    assert_eq!(num(BinOpKind::Power, 0, 0), Ok(Value::Number(1)));
    assert_eq!(num(BinOpKind::Power, 0, 5), Ok(Value::Number(0)));
    assert_eq!(num(BinOpKind::Power, 1, i64::MAX), Ok(Value::Number(1)));
    assert_eq!(num(BinOpKind::Power, -1, i64::MAX), Ok(Value::Number(-1)));
    assert_eq!(num(BinOpKind::Power, -1, 4), Ok(Value::Number(1)));
    assert_eq!(num(BinOpKind::Power, 7, 0), Ok(Value::Number(1)));
    assert_eq!(num(BinOpKind::Power, 7, 1), Ok(Value::Number(7)));
    assert_eq!(num(BinOpKind::Power, -3, 3), Ok(Value::Number(-27)));
    assert_eq!(num(BinOpKind::Power, 2, 62), Ok(Value::Number(1 << 62)));
    assert_eq!(num(BinOpKind::Power, -2, 63), Ok(Value::Number(i64::MIN)));
    assert_eq!(num(BinOpKind::Power, 2, 63), Err(EvalError::Overflow));
    assert_eq!(num(BinOpKind::Power, -2, 64), Err(EvalError::Overflow));
    assert_eq!(num(BinOpKind::Power, 10, i64::MAX), Err(EvalError::Overflow));
    assert_eq!(num(BinOpKind::Power, 2, -1), Err(EvalError::NegativeExponent));
    assert_eq!(num(BinOpKind::Power, 0, -1), Err(EvalError::NegativeExponent));
}

#[test]
fn comparisons_of_numbers() {
    assert_eq!(num(BinOpKind::LessThan, 1, 2), Ok(Value::Boolean(true)));
    assert_eq!(num(BinOpKind::LessThan, 2, 2), Ok(Value::Boolean(false)));
    assert_eq!(num(BinOpKind::LessThanOrEqual, 2, 2), Ok(Value::Boolean(true)));
    assert_eq!(num(BinOpKind::GreaterThan, 3, 2), Ok(Value::Boolean(true)));
    assert_eq!(num(BinOpKind::GreaterThanOrEqual, 1, 2), Ok(Value::Boolean(false)));
}

#[test]
fn every_value_equals_itself() {
    let values = [
        Value::Number(0),
        Value::Number(i64::MIN),
        Value::Boolean(true),
        Value::Boolean(false),
        Value::Function(FunctionIdx::new(3)),
    ];
    for v in values {
        assert_eq!(apply_binary(BinOpKind::Equals, v, v), Ok(Value::Boolean(true)));
        assert_eq!(apply_binary(BinOpKind::NotEquals, v, v), Ok(Value::Boolean(false)));
    }
}

#[test]
fn values_of_different_variants_are_unequal() {
    let pairs = [
        (Value::Number(1), Value::Boolean(true)),
        (Value::Number(0), Value::Boolean(false)),
        (Value::Number(0), Value::Function(FunctionIdx::new(0))),
        (Value::Boolean(false), Value::Function(FunctionIdx::new(0))),
    ];
    for (a, b) in pairs {
        assert_eq!(apply_binary(BinOpKind::Equals, a, b), Ok(Value::Boolean(false)));
        assert_eq!(apply_binary(BinOpKind::Equals, b, a), Ok(Value::Boolean(false)));
        assert_eq!(apply_binary(BinOpKind::NotEquals, a, b), Ok(Value::Boolean(true)));
    }
    assert_eq!(
        apply_binary(BinOpKind::Equals, Value::Number(1), Value::Number(2)),
        Ok(Value::Boolean(false))
    );
}

#[test]
fn operators_want_numbers() {
    assert_eq!(
        apply_binary(BinOpKind::Plus, Value::Number(1), Value::Boolean(true)),
        Err(EvalError::TypeMismatch)
    );
    assert_eq!(
        apply_binary(BinOpKind::LessThan, Value::Boolean(false), Value::Boolean(true)),
        Err(EvalError::TypeMismatch)
    );
    assert_eq!(
        apply_binary(BinOpKind::Divide, Value::Boolean(true), Value::Number(0)),
        Err(EvalError::TypeMismatch)
    );
    assert_eq!(apply_unary(UnOpKind::Minus, Value::Boolean(true)), Err(EvalError::TypeMismatch));
    assert_eq!(
        apply_unary(UnOpKind::BitwiseNot, Value::Function(FunctionIdx::new(0))),
        Err(EvalError::TypeMismatch)
    );
    assert_eq!(apply_unary(UnOpKind::Minus, Value::Number(5)), Ok(Value::Number(-5)));
}

#[test]
fn values_give_up_their_payload() {
    assert_eq!(Value::Number(7).expect_number(), 7);
    assert!(Value::Boolean(true).expect_boolean());
    assert_eq!(Value::Function(FunctionIdx::new(2)).expect_function(), FunctionIdx::new(2));
}

#[test]
fn errors_describe_themselves() {
    assert_eq!(EvalError::DivisionByZero.message(), "division by zero");
    assert_eq!(EvalError::UnboundVariable(VariableIdx::new(1)).message(), "unbound variable");
    assert_eq!(EvalError::FunctionNotFound.message(), "function not found");
    assert_eq!(EvalError::NegativeExponent.message(), "negative exponent");
    assert_eq!(EvalError::ErrorNode.message(), "cannot evaluate an error expression");
}
