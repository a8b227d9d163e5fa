//! The bridge between the syntax tree and the normal-form tree.

use std::rc::Rc;
use vstd::prelude::*;
use crate::arithmetic::{apply, fold, operator_of, recognise};
use crate::ast::{
    AbstractionNode,
    ApplicationNode,
    ArithmeticNode,
    ConstantNode,
    ExpressionNode,
    LetNode,
    VariableNode,
};
use crate::beta::{outcome, NormalExpressionNode};
use crate::error::EvaluationError;
use crate::term::Term;

verus! {

/// The term with every arithmetic node on two constants replaced by its
/// value, innermost first. The first node, in evaluation order, whose
/// folding fails decides the error: an operator that is not one of the
/// five, a division by zero, or a result out of range.
pub open spec fn folded(term: Term) -> Result<Term, EvaluationError>
    decreases term,
{
    match term {
        Term::Variable(_) => Ok(term),
        Term::Constant(_) => Ok(term),
        Term::Abstraction(parameter, body) => match folded(*body) {
            Ok(body) => Ok(Term::Abstraction(parameter, Box::new(body))),
            Err(error) => Err(error),
        },
        Term::Application(function, argument) => match folded(*function) {
            Ok(function) => match folded(*argument) {
                Ok(argument) => Ok(Term::Application(Box::new(function), Box::new(argument))),
                Err(error) => Err(error),
            },
            Err(error) => Err(error),
        },
        Term::Arithmetic(left, operator, right) => match folded(*left) {
            Ok(left) => match folded(*right) {
                Ok(right) => folded_operation(left, operator, right),
                Err(error) => Err(error),
            },
            Err(error) => Err(error),
        },
        Term::Let(variable, expression, scope) => match folded(*expression) {
            Ok(expression) => match folded(*scope) {
                Ok(scope) => Ok(Term::Let(variable, Box::new(expression), Box::new(scope))),
                Err(error) => Err(error),
            },
            Err(error) => Err(error),
        },
    }
}

/// An arithmetic node over two folded operands: its value where both are
/// constants, the node itself otherwise.
pub open spec fn folded_operation(left: Term, operator: Seq<char>, right: Term) -> Result<
    Term,
    EvaluationError,
> {
    match (left, right) {
        (Term::Constant(a), Term::Constant(b)) => match operator_of(operator) {
            Some(known) => match fold(known, a, b) {
                Ok(value) => Ok(Term::Constant(value)),
                Err(error) => Err(error),
            },
            None => Err(EvaluationError::UnknownOperator),
        },
        _ => Ok(Term::Arithmetic(Box::new(left), operator, Box::new(right))),
    }
}

/// Copies a normal-form tree into a fresh syntax tree of the same shape,
/// with the same names, constants and operators.
pub fn from_normal_form(node: &NormalExpressionNode) -> (tree: ExpressionNode)
    ensures
        tree@ == node@,
    decreases node,
{
    match node {
        NormalExpressionNode::Variable(name) => ExpressionNode::Variable(
            VariableNode { name: name.clone() },
        ),
        NormalExpressionNode::Constant(value) => ExpressionNode::Constant(
            ConstantNode { value: *value },
        ),
        NormalExpressionNode::Abstraction(parameter, body) => ExpressionNode::Abstraction(
            AbstractionNode {
                parameter: VariableNode { name: parameter.clone() },
                body: Box::new(from_normal_form(&**body)),
            },
        ),
        NormalExpressionNode::Application(function, argument) => ExpressionNode::Application(
            ApplicationNode {
                function: Box::new(from_normal_form(&**function)),
                argument: Box::new(from_normal_form(&**argument)),
            },
        ),
        NormalExpressionNode::Arithmetic(left, operator, right) => ExpressionNode::Arithmetic(
            ArithmeticNode {
                operator: operator.clone(),
                left: Box::new(from_normal_form(&**left)),
                right: Box::new(from_normal_form(&**right)),
            },
        ),
        NormalExpressionNode::Let(variable, expression, scope) => ExpressionNode::Let(
            LetNode {
                variable: VariableNode { name: variable.clone() },
                expression: Box::new(from_normal_form(&**expression)),
                scope: Box::new(from_normal_form(&**scope)),
            },
        ),
    }
}

/// Takes a snapshot of a syntax tree as a normal-form tree, reading the
/// names as they are now and folding arithmetic on constants on the way.
pub fn to_normal_form(node: &ExpressionNode) -> (result: Result<
    NormalExpressionNode,
    EvaluationError,
>)
    ensures
        outcome(result) == folded(node@),
    decreases node,
{
    match node {
        ExpressionNode::Variable(node) => Ok(NormalExpressionNode::Variable(node.name.clone())),
        ExpressionNode::Constant(node) => Ok(NormalExpressionNode::Constant(node.value)),
        ExpressionNode::Abstraction(node) => {
            let body = to_normal_form(&*node.body)?;
            let parameter = node.parameter.name.clone();
            Ok(NormalExpressionNode::Abstraction(parameter, Rc::new(body)))
        },
        ExpressionNode::Application(node) => {
            let function = to_normal_form(&*node.function)?;
            let argument = to_normal_form(&*node.argument)?;
            Ok(NormalExpressionNode::Application(Rc::new(function), Rc::new(argument)))
        },
        ExpressionNode::Arithmetic(node) => {
            let left = to_normal_form(&*node.left)?;
            let right = to_normal_form(&*node.right)?;
            match (&left, &right) {
                (NormalExpressionNode::Constant(a), NormalExpressionNode::Constant(b)) => {
                    match recognise(node.operator.as_str()) {
                        Some(operator) => {
                            let value = apply(operator, *a, *b)?;
                            Ok(NormalExpressionNode::Constant(value))
                        },
                        None => Err(EvaluationError::UnknownOperator),
                    }
                },
                _ => Ok(
                    NormalExpressionNode::Arithmetic(
                        Rc::new(left),
                        node.operator.clone(),
                        Rc::new(right),
                    ),
                ),
            }
        },
        ExpressionNode::Let(node) => {
            let variable = node.variable.name.clone();
            let expression = to_normal_form(&*node.expression)?;
            let scope = to_normal_form(&*node.scope)?;
            Ok(NormalExpressionNode::Let(variable, Rc::new(expression), Rc::new(scope)))
        },
    }
}

/// A snapshot is left unchanged by a further snapshot: going from a
/// syntax tree to its normal-form tree, back to a syntax tree and again
/// to a normal-form tree gives the normal-form tree of the first step.
pub proof fn lemma_snapshot_round_trip(tree: Term, snapshot: Term)
    requires
        folded(tree) == Ok::<Term, EvaluationError>(snapshot),
    ensures
        folded(snapshot) == Ok::<Term, EvaluationError>(snapshot),
    decreases tree,
{
    match tree {
        Term::Variable(_) => {},
        Term::Constant(_) => {},
        Term::Abstraction(parameter, body) => {
            lemma_snapshot_round_trip(*body, folded(*body)->Ok_0);
        },
        Term::Application(function, argument) => {
            lemma_snapshot_round_trip(*function, folded(*function)->Ok_0);
            lemma_snapshot_round_trip(*argument, folded(*argument)->Ok_0);
        },
        Term::Arithmetic(left, operator, right) => {
            lemma_snapshot_round_trip(*left, folded(*left)->Ok_0);
            lemma_snapshot_round_trip(*right, folded(*right)->Ok_0);
        },
        Term::Let(variable, expression, scope) => {
            lemma_snapshot_round_trip(*expression, folded(*expression)->Ok_0);
            lemma_snapshot_round_trip(*scope, folded(*scope)->Ok_0);
        },
    }
}

} // verus!
