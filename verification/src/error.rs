//! The ways in which an evaluation can end without a result.

use vstd::prelude::*;
use vstd::string::StringExecFns;

verus! {

/// Why an expression could not be brought to normal form.
#[derive(Debug, Clone, Copy, PartialEq, Eq, Structural)]
pub enum EvaluationError {
    /// An arithmetic node with two constant operands carries an operator
    /// other than `+`, `-`, `*`, `/` and `%`.
    UnknownOperator,
    /// A division or a remainder by zero.
    DivisionByZero,
    /// The exact result of an operation does not fit in 64 signed bits.
    Overflow,
    /// The reduction needed more nested steps than the reducer allows.
    DepthLimitExceeded,
}

impl EvaluationError {
    /// The sentence that names the error.
    pub open spec fn text(self) -> Seq<char> {
        match self {
            EvaluationError::UnknownOperator => "Unknown operator"@,
            EvaluationError::DivisionByZero => "Division by zero"@,
            EvaluationError::Overflow => "Arithmetic overflow"@,
            EvaluationError::DepthLimitExceeded => "Reduction depth limit exceeded"@,
        }
    }

    /// A sentence that names the error, for a host to print.
    pub fn message(&self) -> (text: String)
        ensures
            text@ == self.text(),
    {
        match self {
            EvaluationError::UnknownOperator => String::from_str("Unknown operator"),
            EvaluationError::DivisionByZero => String::from_str("Division by zero"),
            EvaluationError::Overflow => String::from_str("Arithmetic overflow"),
            EvaluationError::DepthLimitExceeded => String::from_str(
                "Reduction depth limit exceeded",
            ),
        }
    }
}

} // verus!
