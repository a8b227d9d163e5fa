//! Integer arithmetic on constants: the five operators and their folding.

use vstd::prelude::*;
use vstd::string::StrSliceExecFns;
use crate::error::EvaluationError;

verus! {

/// One of the five arithmetic operators of the language.
#[derive(Debug, Clone, Copy, PartialEq, Eq, Structural)]
pub enum Operator {
    /// `+`
    Add,
    /// `-`
    Subtract,
    /// `*`
    Multiply,
    /// `/`, rounding toward zero
    Divide,
    /// `%`, with the sign of the left operand
    Remainder,
}

/// The operator that a symbol denotes, if it denotes one.
pub open spec fn operator_of(symbol: Seq<char>) -> Option<Operator> {
    if symbol == seq!['+'] {
        Some(Operator::Add)
    } else if symbol == seq!['-'] {
        Some(Operator::Subtract)
    } else if symbol == seq!['*'] {
        Some(Operator::Multiply)
    } else if symbol == seq!['/'] {
        Some(Operator::Divide)
    } else if symbol == seq!['%'] {
        Some(Operator::Remainder)
    } else {
        None
    }
}

/// The quotient of `a` by `b` rounded toward zero, for `b != 0`.
pub open spec fn truncated_quotient(a: int, b: int) -> int {
    if a >= 0 && b > 0 {
        a / b
    } else if a >= 0 {
        -(a / (-b))
    } else if b > 0 {
        -((-a) / b)
    } else {
        (-a) / (-b)
    }
}

/// What is left of `a` after taking out `b` times the truncated quotient:
/// zero or of the sign of `a`.
pub open spec fn truncated_remainder(a: int, b: int) -> int {
    a - b * truncated_quotient(a, b)
}

/// The result of an operator on unbounded integers (`b != 0` where the
/// operator divides).
pub open spec fn exact(operator: Operator, a: int, b: int) -> int {
    match operator {
        Operator::Add => a + b,
        Operator::Subtract => a - b,
        Operator::Multiply => a * b,
        Operator::Divide => truncated_quotient(a, b),
        Operator::Remainder => truncated_remainder(a, b),
    }
}

/// Whether the operator divides by its right operand.
pub open spec fn divides(operator: Operator) -> bool {
    operator is Divide || operator is Remainder
}

/// The result of an operator on two 64-bit constants: the exact result
/// where it fits, and otherwise the fault that the machine operation
/// would raise. The remainder of the least integer by `-1` counts as an
/// overflow, as the division does.
pub open spec fn fold(operator: Operator, a: i64, b: i64) -> Result<i64, EvaluationError> {
    if divides(operator) && b == 0 {
        Err(EvaluationError::DivisionByZero)
    } else if divides(operator) && a == i64::MIN && b == -1 {
        Err(EvaluationError::Overflow)
    } else if i64::MIN <= exact(operator, a as int, b as int) <= i64::MAX {
        Ok(exact(operator, a as int, b as int) as i64)
    } else {
        Err(EvaluationError::Overflow)
    }
}

/// Recognises an operator symbol.
pub fn recognise(symbol: &str) -> (operator: Option<Operator>)
    ensures
        operator == operator_of(symbol@),
{
    if symbol.unicode_len() != 1 {
        return None;
    }
    let c = symbol.get_char(0);
    assert(symbol@ =~= seq![c]);
    if c == '+' {
        Some(Operator::Add)
    } else if c == '-' {
        Some(Operator::Subtract)
    } else if c == '*' {
        Some(Operator::Multiply)
    } else if c == '/' {
        Some(Operator::Divide)
    } else if c == '%' {
        Some(Operator::Remainder)
    } else {
        assert(seq![c][0] == c);
        None
    }
}

/// Applies an operator to two constants.
pub fn apply(operator: Operator, a: i64, b: i64) -> (result: Result<i64, EvaluationError>)
    ensures
        result == fold(operator, a, b),
{
    let value = match operator {
        Operator::Add => a.checked_add(b),
        Operator::Subtract => a.checked_sub(b),
        Operator::Multiply => a.checked_mul(b),
        Operator::Divide => {
            if b == 0 {
                return Err(EvaluationError::DivisionByZero);
            }
            proof {
                lemma_quotient_bounds(a as int, b as int);
            }
            a.checked_div(b)
        },
        Operator::Remainder => {
            if b == 0 {
                return Err(EvaluationError::DivisionByZero);
            }
            proof {
                lemma_remainder_bounds(a as int, b as int);
            }
            a.checked_rem(b)
        },
    };
    match value {
        Some(v) => Ok(v),
        None => Err(EvaluationError::Overflow),
    }
}

/// The truncated quotient is no larger in magnitude than the dividend.
pub proof fn lemma_quotient_bounds(a: int, b: int)
    requires
        b != 0,
    ensures
        a >= 0 ==> -a <= truncated_quotient(a, b) <= a,
        a < 0 ==> a <= truncated_quotient(a, b) <= -a,
{
    let m = if a >= 0 { a } else { -a };
    let d = if b > 0 { b } else { -b };
    assert(0 <= m / d <= m) by (nonlinear_arith)
        requires
            m >= 0,
            d > 0,
    ;
}

/// The truncated remainder is smaller in magnitude than the divisor and
/// has the sign of the dividend.
pub proof fn lemma_remainder_bounds(a: int, b: int)
    requires
        b != 0,
    ensures
        a >= 0 ==> 0 <= truncated_remainder(a, b) <= a,
        a < 0 ==> a <= truncated_remainder(a, b) <= 0,
        a >= 0 && b > 0 ==> truncated_remainder(a, b) == a % b,
        a >= 0 && b < 0 ==> truncated_remainder(a, b) == a % (-b),
        a < 0 && b > 0 ==> truncated_remainder(a, b) == -((-a) % b),
        a < 0 && b < 0 ==> truncated_remainder(a, b) == -((-a) % (-b)),
{
    let m = if a >= 0 { a } else { -a };
    let d = if b > 0 { b } else { -b };
    assert(m == d * (m / d) + m % d && 0 <= m % d < d && 0 <= m / d) by (nonlinear_arith)
        requires
            m >= 0,
            d > 0,
    ;
    let q = truncated_quotient(a, b);
    if a >= 0 && b > 0 {
        assert(b * q == d * (m / d));
    } else if a >= 0 {
        assert(b * q == d * (m / d)) by (nonlinear_arith)
            requires
                b == -d,
                q == -(m / d),
        ;
    } else if b > 0 {
        assert(b * q == -(d * (m / d))) by (nonlinear_arith)
            requires
                b == d,
                q == -(m / d),
        ;
    } else {
        assert(b * q == -(d * (m / d))) by (nonlinear_arith)
            requires
                b == -d,
                q == m / d,
        ;
    }
}

} // verus!
