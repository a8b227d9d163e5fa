//! Beta-reduction of normal-form trees.

use std::rc::Rc;
use vstd::prelude::*;
use crate::arithmetic::{apply, fold, operator_of, recognise};
use crate::error::EvaluationError;
use crate::term::Term;

verus! {

/// A node of the persistent tree on which reduction works. Subtrees are
/// shared and never changed; every step builds new nodes.
#[derive(Debug, PartialEq)]
pub enum NormalExpressionNode {
    Variable(String),
    Constant(i64),
    Abstraction(String, Rc<NormalExpressionNode>),
    Application(Rc<NormalExpressionNode>, Rc<NormalExpressionNode>),
    Arithmetic(Rc<NormalExpressionNode>, String, Rc<NormalExpressionNode>),
    Let(String, Rc<NormalExpressionNode>, Rc<NormalExpressionNode>),
}

impl View for NormalExpressionNode {
    type V = Term;

    open spec fn view(&self) -> Term
        decreases self,
    {
        match self {
            NormalExpressionNode::Variable(name) => Term::Variable(name@),
            NormalExpressionNode::Constant(value) => Term::Constant(*value),
            NormalExpressionNode::Abstraction(parameter, body) => Term::Abstraction(
                parameter@,
                Box::new((**body).view()),
            ),
            NormalExpressionNode::Application(function, argument) => Term::Application(
                Box::new((**function).view()),
                Box::new((**argument).view()),
            ),
            NormalExpressionNode::Arithmetic(left, operator, right) => Term::Arithmetic(
                Box::new((**left).view()),
                operator@,
                Box::new((**right).view()),
            ),
            NormalExpressionNode::Let(variable, expression, scope) => Term::Let(
                variable@,
                Box::new((**expression).view()),
                Box::new((**scope).view()),
            ),
        }
    }
}

/// A second handle on a shared subtree.
///
/// Calls `Rc::clone`, which makes another pointer to the same allocation:
/// the value behind the result is the value behind the argument.
#[verifier::external_body]
pub(crate) fn share(subtree: &Rc<NormalExpressionNode>) -> (handle: Rc<NormalExpressionNode>)
    ensures
        handle == *subtree,
{
    Rc::clone(subtree)
}

impl Clone for NormalExpressionNode {
    /// Copies the root node; the copy shares the subtrees.
    fn clone(&self) -> (copy: Self)
        ensures
            copy == *self,
    {
        match self {
            NormalExpressionNode::Variable(name) => NormalExpressionNode::Variable(name.clone()),
            NormalExpressionNode::Constant(value) => NormalExpressionNode::Constant(*value),
            NormalExpressionNode::Abstraction(parameter, body) => NormalExpressionNode::Abstraction(
                parameter.clone(),
                share(body),
            ),
            NormalExpressionNode::Application(function, argument) => {
                NormalExpressionNode::Application(share(function), share(argument))
            },
            NormalExpressionNode::Arithmetic(left, operator, right) => {
                NormalExpressionNode::Arithmetic(share(left), operator.clone(), share(right))
            },
            NormalExpressionNode::Let(variable, expression, scope) => NormalExpressionNode::Let(
                variable.clone(),
                share(expression),
                share(scope),
            ),
        }
    }
}

/// The term in which `argument` stands for the free occurrences of
/// `variable` in `expression`. An abstraction of the same name shadows the
/// variable, so its body is left alone. A `let` is not entered: it is
/// applied to the argument as it stands.
pub open spec fn substituted(expression: Term, variable: Seq<char>, argument: Term) -> Term
    decreases expression,
{
    match expression {
        Term::Constant(_) => expression,
        Term::Variable(name) => if name == variable {
            argument
        } else {
            expression
        },
        Term::Abstraction(name, body) => if name == variable {
            expression
        } else {
            Term::Abstraction(name, Box::new(substituted(*body, variable, argument)))
        },
        Term::Application(function, operand) => Term::Application(
            Box::new(substituted(*function, variable, argument)),
            Box::new(substituted(*operand, variable, argument)),
        ),
        Term::Arithmetic(left, operator, right) => Term::Arithmetic(
            Box::new(substituted(*left, variable, argument)),
            operator,
            Box::new(substituted(*right, variable, argument)),
        ),
        Term::Let(_, _, _) => Term::Application(Box::new(expression), Box::new(argument)),
    }
}

/// An arithmetic node over two reduced operands: its value where both are
/// constants and the operator is one of the five, the node itself
/// otherwise.
pub open spec fn reduced_operation(left: Term, operator: Seq<char>, right: Term) -> Result<
    Term,
    EvaluationError,
> {
    match (left, right, operator_of(operator)) {
        (Term::Constant(a), Term::Constant(b), Some(known)) => match fold(known, a, b) {
            Ok(value) => Ok(Term::Constant(value)),
            Err(error) => Err(error),
        },
        _ => Ok(Term::Arithmetic(Box::new(left), operator, Box::new(right))),
    }
}

/// The normal form of `term`, computed by calls nested at most `depth`
/// deep, or the first error on the way.
///
/// Both sides of an application, of an arithmetic node and of a `let` are
/// reduced before the node itself, left to right; the body of an
/// abstraction is reduced whether or not the abstraction is applied.
pub open spec fn reduced(term: Term, depth: nat) -> Result<Term, EvaluationError>
    decreases depth,
{
    if depth == 0 {
        Err(EvaluationError::DepthLimitExceeded)
    } else {
        let inner = (depth - 1) as nat;
        match term {
            Term::Variable(_) => Ok(term),
            Term::Constant(_) => Ok(term),
            Term::Abstraction(parameter, body) => match reduced(*body, inner) {
                Ok(body) => Ok(Term::Abstraction(parameter, Box::new(body))),
                Err(error) => Err(error),
            },
            Term::Application(function, argument) => match reduced(*function, inner) {
                Ok(function) => match reduced(*argument, inner) {
                    Ok(argument) => match function {
                        Term::Abstraction(parameter, body) => reduced(
                            substituted(*body, parameter, argument),
                            inner,
                        ),
                        _ => Ok(Term::Application(Box::new(function), Box::new(argument))),
                    },
                    Err(error) => Err(error),
                },
                Err(error) => Err(error),
            },
            Term::Arithmetic(left, operator, right) => match reduced(*left, inner) {
                Ok(left) => match reduced(*right, inner) {
                    Ok(right) => reduced_operation(left, operator, right),
                    Err(error) => Err(error),
                },
                Err(error) => Err(error),
            },
            Term::Let(parameter, expression, body) => match reduced(*expression, inner) {
                Ok(expression) => match reduced(*body, inner) {
                    Ok(body) => reduced(substituted(body, parameter, expression), inner),
                    Err(error) => Err(error),
                },
                Err(error) => Err(error),
            },
        }
    }
}

/// The outcome of a reduction, as a term or an error.
pub open spec fn outcome(result: Result<NormalExpressionNode, EvaluationError>) -> Result<
    Term,
    EvaluationError,
> {
    match result {
        Ok(node) => Ok(node@),
        Err(error) => Err(error),
    }
}

/// The depth limit of a reducer made by [`BetaReducer::new`].
pub const DEFAULT_DEPTH_LIMIT: usize = 1024;

/// Reduces normal-form trees. Reduction of an untyped expression need not
/// end, so the reducer gives up once its calls are nested `depth_limit`
/// deep.
pub struct BetaReducer {
    pub depth_limit: usize,
}

impl BetaReducer {
    /// A reducer with the default depth limit.
    pub fn new() -> (reducer: BetaReducer)
        ensures
            reducer.depth_limit == DEFAULT_DEPTH_LIMIT,
    {
        BetaReducer { depth_limit: DEFAULT_DEPTH_LIMIT }
    }

    /// A reducer with a depth limit of the caller's choice.
    pub fn with_depth_limit(depth_limit: usize) -> (reducer: BetaReducer)
        ensures
            reducer.depth_limit == depth_limit,
    {
        BetaReducer { depth_limit }
    }

    /// Replaces the free occurrences of `variable` in `expression` by
    /// `argument`. There is always a result.
    pub fn substitute(
        &self,
        expression: &NormalExpressionNode,
        variable: &String,
        argument: &NormalExpressionNode,
    ) -> (result: Option<NormalExpressionNode>)
        ensures
            result is Some,
            result->Some_0@ == substituted(expression@, variable@, argument@),
        decreases expression,
    {
        match expression {
            NormalExpressionNode::Constant(_) => Some(expression.clone()),
            NormalExpressionNode::Variable(name) => {
                if *name == *variable {
                    Some(argument.clone())
                } else {
                    Some(NormalExpressionNode::Variable(name.clone()))
                }
            },
            NormalExpressionNode::Abstraction(name, body) => {
                if *name == *variable {
                    Some(NormalExpressionNode::Abstraction(name.clone(), share(body)))
                } else {
                    match self.substitute(&**body, variable, argument) {
                        Some(body) => Some(
                            NormalExpressionNode::Abstraction(name.clone(), Rc::new(body)),
                        ),
                        None => None,
                    }
                }
            },
            NormalExpressionNode::Application(function, operand) => {
                let function = self.substitute(&**function, variable, argument);
                let operand = self.substitute(&**operand, variable, argument);
                match (function, operand) {
                    (Some(function), Some(operand)) => Some(
                        NormalExpressionNode::Application(Rc::new(function), Rc::new(operand)),
                    ),
                    _ => None,
                }
            },
            NormalExpressionNode::Arithmetic(left, operator, right) => {
                let left = self.substitute(&**left, variable, argument);
                let right = self.substitute(&**right, variable, argument);
                match (left, right) {
                    (Some(left), Some(right)) => Some(
                        NormalExpressionNode::Arithmetic(
                            Rc::new(left),
                            operator.clone(),
                            Rc::new(right),
                        ),
                    ),
                    _ => None,
                }
            },
            NormalExpressionNode::Let(_, _, _) => Some(
                NormalExpressionNode::Application(
                    Rc::new(expression.clone()),
                    Rc::new(argument.clone()),
                ),
            ),
        }
    }

    /// Brings `node` to normal form.
    pub fn reduce(&mut self, node: &NormalExpressionNode) -> (result: Result<
        NormalExpressionNode,
        EvaluationError,
    >)
        ensures
            outcome(result) == reduced(node@, old(self).depth_limit as nat),
            *final(self) == *old(self),
    {
        self.reduce_within(node, self.depth_limit)
    }

    /// Brings `node` to normal form by calls nested at most `depth` deep.
    fn reduce_within(&self, node: &NormalExpressionNode, depth: usize) -> (result: Result<
        NormalExpressionNode,
        EvaluationError,
    >)
        ensures
            outcome(result) == reduced(node@, depth as nat),
        decreases depth,
    {
        if depth == 0 {
            return Err(EvaluationError::DepthLimitExceeded);
        }
        let inner = depth - 1;
        match node {
            NormalExpressionNode::Variable(_) => Ok(node.clone()),
            NormalExpressionNode::Constant(_) => Ok(node.clone()),
            NormalExpressionNode::Abstraction(parameter, body) => {
                let body = self.reduce_within(&**body, inner)?;
                Ok(NormalExpressionNode::Abstraction(parameter.clone(), Rc::new(body)))
            },
            NormalExpressionNode::Application(function, argument) => {
                let function = self.reduce_within(&**function, inner)?;
                let argument = self.reduce_within(&**argument, inner)?;
                match &function {
                    NormalExpressionNode::Abstraction(parameter, body) => {
                        match self.substitute(&**body, parameter, &argument) {
                            Some(contracted) => self.reduce_within(&contracted, inner),
                            None => Ok(
                                NormalExpressionNode::Application(
                                    Rc::new(function),
                                    Rc::new(argument),
                                ),
                            ),
                        }
                    },
                    _ => Ok(
                        NormalExpressionNode::Application(Rc::new(function), Rc::new(argument)),
                    ),
                }
            },
            NormalExpressionNode::Arithmetic(left, operator, right) => {
                let left = self.reduce_within(&**left, inner)?;
                let right = self.reduce_within(&**right, inner)?;
                match (&left, &right) {
                    (NormalExpressionNode::Constant(a), NormalExpressionNode::Constant(b)) => {
                        match recognise(operator.as_str()) {
                            Some(known) => {
                                let value = apply(known, *a, *b)?;
                                Ok(NormalExpressionNode::Constant(value))
                            },
                            None => Ok(
                                NormalExpressionNode::Arithmetic(
                                    Rc::new(left),
                                    operator.clone(),
                                    Rc::new(right),
                                ),
                            ),
                        }
                    },
                    _ => Ok(
                        NormalExpressionNode::Arithmetic(
                            Rc::new(left),
                            operator.clone(),
                            Rc::new(right),
                        ),
                    ),
                }
            },
            NormalExpressionNode::Let(parameter, expression, body) => {
                let expression = self.reduce_within(&**expression, inner)?;
                let body = self.reduce_within(&**body, inner)?;
                match self.substitute(&body, parameter, &expression) {
                    Some(contracted) => self.reduce_within(&contracted, inner),
                    None => Ok(
                        NormalExpressionNode::Let(
                            parameter.clone(),
                            Rc::new(expression),
                            Rc::new(body),
                        ),
                    ),
                }
            },
        }
    }
}

} // verus!
