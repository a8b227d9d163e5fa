//! Normal forms, and what holds of reduction whatever the expression.

use vstd::prelude::*;
use crate::arithmetic::operator_of;
use crate::beta::{reduced, substituted};
use crate::error::EvaluationError;
use crate::term::Term;

verus! {

/// A term on which no reduction rule applies: it holds no `let`, no
/// application of an abstraction and no arithmetic on two constants that
/// could be folded, at any depth, also under binders.
pub open spec fn is_normal(term: Term) -> bool
    decreases term,
{
    match term {
        Term::Variable(_) => true,
        Term::Constant(_) => true,
        Term::Abstraction(_, body) => is_normal(*body),
        Term::Application(function, argument) => {
            &&& !(*function is Abstraction)
            &&& is_normal(*function)
            &&& is_normal(*argument)
        },
        Term::Arithmetic(left, operator, right) => {
            &&& is_normal(*left)
            &&& is_normal(*right)
            &&& !(*left is Constant && *right is Constant && operator_of(operator) is Some)
        },
        Term::Let(_, _, _) => false,
    }
}

/// Whatever a reduction returns is a normal form.
pub proof fn lemma_result_is_normal(term: Term, depth: nat)
    requires
        reduced(term, depth) is Ok,
    ensures
        is_normal(reduced(term, depth)->Ok_0),
    decreases depth,
{
    let inner = (depth - 1) as nat;
    match term {
        Term::Variable(_) => {},
        Term::Constant(_) => {},
        Term::Abstraction(_, body) => {
            lemma_result_is_normal(*body, inner);
        },
        Term::Application(function, argument) => {
            lemma_result_is_normal(*function, inner);
            lemma_result_is_normal(*argument, inner);
            let function = reduced(*function, inner)->Ok_0;
            let argument = reduced(*argument, inner)->Ok_0;
            match function {
                Term::Abstraction(parameter, body) => {
                    lemma_result_is_normal(substituted(*body, parameter, argument), inner);
                },
                _ => {},
            }
        },
        Term::Arithmetic(left, _, right) => {
            lemma_result_is_normal(*left, inner);
            lemma_result_is_normal(*right, inner);
        },
        Term::Let(parameter, expression, body) => {
            let expression = reduced(*expression, inner)->Ok_0;
            let body = reduced(*body, inner)->Ok_0;
            lemma_result_is_normal(substituted(body, parameter, expression), inner);
        },
    }
}

/// A normal form reduces to itself, given a depth above its height.
pub proof fn lemma_normal_is_fixed(term: Term, depth: nat)
    requires
        is_normal(term),
        depth > term.height(),
    ensures
        reduced(term, depth) == Ok::<Term, EvaluationError>(term),
    decreases term,
{
    let inner = (depth - 1) as nat;
    match term {
        Term::Variable(_) => {},
        Term::Constant(_) => {},
        Term::Abstraction(_, body) => {
            lemma_normal_is_fixed(*body, inner);
        },
        Term::Application(function, argument) => {
            lemma_normal_is_fixed(*function, inner);
            lemma_normal_is_fixed(*argument, inner);
        },
        Term::Arithmetic(left, operator, right) => {
            lemma_normal_is_fixed(*left, inner);
            lemma_normal_is_fixed(*right, inner);
        },
        Term::Let(_, _, _) => {},
    }
}

/// Reduction is idempotent: reducing the result of a reduction gives that
/// result again. The second reduction needs depth for the height of the
/// result, which substitution may have made higher than the first
/// reduction was deep.
pub proof fn lemma_reduction_idempotent(term: Term, depth: nat, result: Term, again: nat)
    requires
        reduced(term, depth) == Ok::<Term, EvaluationError>(result),
        again > result.height(),
    ensures
        reduced(result, again) == Ok::<Term, EvaluationError>(result),
{
    lemma_result_is_normal(term, depth);
    lemma_normal_is_fixed(result, again);
}

/// A reduction that ended within some depth, with a result or with an
/// arithmetic fault, ends in the same way within any greater depth.
pub proof fn lemma_deeper_agrees(term: Term, depth: nat, deeper: nat)
    requires
        depth <= deeper,
        reduced(term, depth) != Err::<Term, EvaluationError>(EvaluationError::DepthLimitExceeded),
    ensures
        reduced(term, deeper) == reduced(term, depth),
    decreases depth,
{
    let inner = (depth - 1) as nat;
    let inner_deeper = (deeper - 1) as nat;
    match term {
        Term::Variable(_) => {},
        Term::Constant(_) => {},
        Term::Abstraction(_, body) => {
            lemma_deeper_agrees(*body, inner, inner_deeper);
        },
        Term::Application(function, argument) => {
            lemma_deeper_agrees(*function, inner, inner_deeper);
            if let Ok(function) = reduced(*function, inner) {
                lemma_deeper_agrees(*argument, inner, inner_deeper);
                if let Ok(argument) = reduced(*argument, inner) {
                    if let Term::Abstraction(parameter, body) = function {
                        lemma_deeper_agrees(
                            substituted(*body, parameter, argument),
                            inner,
                            inner_deeper,
                        );
                    }
                }
            }
        },
        Term::Arithmetic(left, _, right) => {
            lemma_deeper_agrees(*left, inner, inner_deeper);
            if reduced(*left, inner) is Ok {
                lemma_deeper_agrees(*right, inner, inner_deeper);
            }
        },
        Term::Let(parameter, expression, body) => {
            lemma_deeper_agrees(*expression, inner, inner_deeper);
            if let Ok(expression) = reduced(*expression, inner) {
                lemma_deeper_agrees(*body, inner, inner_deeper);
                if let Ok(body) = reduced(*body, inner) {
                    lemma_deeper_agrees(
                        substituted(body, parameter, expression),
                        inner,
                        inner_deeper,
                    );
                }
            }
        },
    }
}

/// The normal form of an expression does not depend on the depth limit:
/// two reductions of one term that both return a result return the same.
pub proof fn lemma_result_is_unique(term: Term, first: nat, second: nat)
    requires
        reduced(term, first) is Ok,
        reduced(term, second) is Ok,
    ensures
        reduced(term, first) == reduced(term, second),
{
    if first <= second {
        lemma_deeper_agrees(term, first, second);
    } else {
        lemma_deeper_agrees(term, second, first);
    }
}

/// `let parameter = expression in body` is sugar for
/// `(\parameter. body) expression`: whenever one of the two reduces to a
/// normal form, the other reduces to the same. The application has one
/// node more above the body, so it may need one level more.
pub proof fn lemma_let_is_application(
    parameter: Seq<char>,
    expression: Term,
    body: Term,
    depth: nat,
)
    ensures
        reduced(as_application(parameter, expression, body), depth) is Ok ==> reduced(
            Term::Let(parameter, Box::new(expression), Box::new(body)),
            depth,
        ) == reduced(as_application(parameter, expression, body), depth),
        reduced(Term::Let(parameter, Box::new(expression), Box::new(body)), depth) is Ok
            ==> reduced(as_application(parameter, expression, body), depth + 1) == reduced(
            Term::Let(parameter, Box::new(expression), Box::new(body)),
            depth,
        ),
{
    let sugar = Term::Let(parameter, Box::new(expression), Box::new(body));
    let plain = as_application(parameter, expression, body);
    let function = Term::Abstraction(parameter, Box::new(body));
    if depth > 0 {
        let inner = (depth - 1) as nat;
        if reduced(plain, depth) is Ok {
            // The application reduced the body one level further down.
            assert(reduced(function, inner) is Ok);
            assert(inner > 0);
            let below = (inner - 1) as nat;
            assert(reduced(body, below) is Ok);
            lemma_deeper_agrees(body, below, inner);
        }
        if reduced(sugar, depth) is Ok {
            let reduced_expression = reduced(expression, inner)->Ok_0;
            let reduced_body = reduced(body, inner)->Ok_0;
            lemma_deeper_agrees(expression, inner, depth);
            assert(reduced(function, depth) == Ok::<Term, EvaluationError>(
                Term::Abstraction(parameter, Box::new(reduced_body)),
            ));
            lemma_deeper_agrees(
                substituted(reduced_body, parameter, reduced_expression),
                inner,
                depth,
            );
        }
    }
}

/// The application that a `let` abbreviates.
pub open spec fn as_application(parameter: Seq<char>, expression: Term, body: Term) -> Term {
    Term::Application(
        Box::new(Term::Abstraction(parameter, Box::new(body))),
        Box::new(expression),
    )
}

} // verus!
