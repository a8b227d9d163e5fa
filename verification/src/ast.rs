//! The syntax tree that parsing produces and alpha-conversion rewrites in
//! place, with its visitor interface.

use vstd::prelude::*;
use crate::term::Term;

verus! {

/// A walk over a syntax tree that may rewrite the nodes it meets.
///
/// A visitor says for itself which trees it can be run over (`admits`) and
/// how a visit relates the tree and the visitor before to the tree and the
/// visitor after (`visits`). The seven methods differ only in the kind of
/// node they take.
pub trait SyntaxTreeVisitor: Sized {
    /// Whether the visitor, as it is now, may visit `node`.
    spec fn admits(&self, node: Term) -> bool;

    /// Whether a visit of `node` by this visitor may leave the visitor as
    /// `after` and the node as `result`.
    spec fn visits(&self, node: Term, after: Self, result: Term) -> bool;

    fn visit_expression(&mut self, node: &mut ExpressionNode)
        requires
            old(self).admits(old(node)@),
        ensures
            old(self).visits(old(node)@, *final(self), final(node)@),
    ;

    fn visit_variable(&mut self, node: &mut VariableNode)
        requires
            old(self).admits(old(node)@),
        ensures
            old(self).visits(old(node)@, *final(self), final(node)@),
    ;

    fn visit_constant(&mut self, node: &mut ConstantNode)
        requires
            old(self).admits(old(node)@),
        ensures
            old(self).visits(old(node)@, *final(self), final(node)@),
    ;

    fn visit_abstraction(&mut self, node: &mut AbstractionNode)
        requires
            old(self).admits(old(node)@),
        ensures
            old(self).visits(old(node)@, *final(self), final(node)@),
    ;

    fn visit_application(&mut self, node: &mut ApplicationNode)
        requires
            old(self).admits(old(node)@),
        ensures
            old(self).visits(old(node)@, *final(self), final(node)@),
    ;

    fn visit_arithmetic(&mut self, node: &mut ArithmeticNode)
        requires
            old(self).admits(old(node)@),
        ensures
            old(self).visits(old(node)@, *final(self), final(node)@),
    ;

    fn visit_let(&mut self, node: &mut LetNode)
        requires
            old(self).admits(old(node)@),
        ensures
            old(self).visits(old(node)@, *final(self), final(node)@),
    ;
}

/// A node of the syntax tree.
#[derive(Debug, PartialEq)]
pub enum ExpressionNode {
    Variable(VariableNode),
    Constant(ConstantNode),
    Abstraction(AbstractionNode),
    Application(ApplicationNode),
    Arithmetic(ArithmeticNode),
    Let(LetNode),
}

/// An occurrence of a name, as a binder's parameter or in an expression.
#[derive(Debug, PartialEq)]
pub struct VariableNode {
    pub name: String,
}

/// An integer literal.
#[derive(Debug, PartialEq)]
pub struct ConstantNode {
    pub value: i64,
}

/// A function of one parameter.
#[derive(Debug, PartialEq)]
pub struct AbstractionNode {
    pub parameter: VariableNode,
    pub body: Box<ExpressionNode>,
}

/// A function applied to an argument.
#[derive(Debug, PartialEq)]
pub struct ApplicationNode {
    pub function: Box<ExpressionNode>,
    pub argument: Box<ExpressionNode>,
}

/// A binary arithmetic operation; the operator is kept as written.
#[derive(Debug, PartialEq)]
pub struct ArithmeticNode {
    pub operator: String,
    pub left: Box<ExpressionNode>,
    pub right: Box<ExpressionNode>,
}

/// `let variable = expression in scope`.
#[derive(Debug, PartialEq)]
pub struct LetNode {
    pub variable: VariableNode,
    pub expression: Box<ExpressionNode>,
    pub scope: Box<ExpressionNode>,
}

impl ExpressionNode {
    /// Hands the node to the visitor.
    pub fn accept<V: SyntaxTreeVisitor>(&mut self, visitor: &mut V)
        requires
            old(visitor).admits(old(self)@),
        ensures
            old(visitor).visits(old(self)@, *final(visitor), final(self)@),
    {
        visitor.visit_expression(self);
    }
}

impl VariableNode {
    /// Hands the node to the visitor.
    pub fn accept<V: SyntaxTreeVisitor>(&mut self, visitor: &mut V)
        requires
            old(visitor).admits(old(self)@),
        ensures
            old(visitor).visits(old(self)@, *final(visitor), final(self)@),
    {
        visitor.visit_variable(self);
    }

    /// Gives the occurrence another name.
    pub fn rename(&mut self, new_name: &str)
        ensures
            final(self).name@ == new_name@,
    {
        self.name = new_name.to_owned();
    }
}

impl ConstantNode {
    /// Hands the node to the visitor.
    pub fn accept<V: SyntaxTreeVisitor>(&mut self, visitor: &mut V)
        requires
            old(visitor).admits(old(self)@),
        ensures
            old(visitor).visits(old(self)@, *final(visitor), final(self)@),
    {
        visitor.visit_constant(self);
    }
}

impl AbstractionNode {
    /// Hands the node to the visitor.
    pub fn accept<V: SyntaxTreeVisitor>(&mut self, visitor: &mut V)
        requires
            old(visitor).admits(old(self)@),
        ensures
            old(visitor).visits(old(self)@, *final(visitor), final(self)@),
    {
        visitor.visit_abstraction(self);
    }
}

impl ApplicationNode {
    /// Hands the node to the visitor.
    pub fn accept<V: SyntaxTreeVisitor>(&mut self, visitor: &mut V)
        requires
            old(visitor).admits(old(self)@),
        ensures
            old(visitor).visits(old(self)@, *final(visitor), final(self)@),
    {
        visitor.visit_application(self);
    }
}

impl ArithmeticNode {
    /// Hands the node to the visitor.
    pub fn accept<V: SyntaxTreeVisitor>(&mut self, visitor: &mut V)
        requires
            old(visitor).admits(old(self)@),
        ensures
            old(visitor).visits(old(self)@, *final(visitor), final(self)@),
    {
        visitor.visit_arithmetic(self);
    }
}

impl LetNode {
    /// Hands the node to the visitor.
    pub fn accept<V: SyntaxTreeVisitor>(&mut self, visitor: &mut V)
        requires
            old(visitor).admits(old(self)@),
        ensures
            old(visitor).visits(old(self)@, *final(visitor), final(self)@),
    {
        visitor.visit_let(self);
    }
}

impl View for ExpressionNode {
    type V = Term;

    open spec fn view(&self) -> Term
        decreases self,
    {
        match self {
            ExpressionNode::Variable(node) => Term::Variable(node.name@),
            ExpressionNode::Constant(node) => Term::Constant(node.value),
            ExpressionNode::Abstraction(node) => Term::Abstraction(
                node.parameter.name@,
                Box::new((*node.body).view()),
            ),
            ExpressionNode::Application(node) => Term::Application(
                Box::new((*node.function).view()),
                Box::new((*node.argument).view()),
            ),
            ExpressionNode::Arithmetic(node) => Term::Arithmetic(
                Box::new((*node.left).view()),
                node.operator@,
                Box::new((*node.right).view()),
            ),
            ExpressionNode::Let(node) => Term::Let(
                node.variable.name@,
                Box::new((*node.expression).view()),
                Box::new((*node.scope).view()),
            ),
        }
    }
}

impl View for VariableNode {
    type V = Term;

    open spec fn view(&self) -> Term {
        Term::Variable(self.name@)
    }
}

impl View for ConstantNode {
    type V = Term;

    open spec fn view(&self) -> Term {
        Term::Constant(self.value)
    }
}

impl View for AbstractionNode {
    type V = Term;

    open spec fn view(&self) -> Term {
        Term::Abstraction(self.parameter.name@, Box::new(self.body@))
    }
}

impl View for ApplicationNode {
    type V = Term;

    open spec fn view(&self) -> Term {
        Term::Application(Box::new(self.function@), Box::new(self.argument@))
    }
}

impl View for ArithmeticNode {
    type V = Term;

    open spec fn view(&self) -> Term {
        Term::Arithmetic(Box::new(self.left@), self.operator@, Box::new(self.right@))
    }
}

impl View for LetNode {
    type V = Term;

    open spec fn view(&self) -> Term {
        Term::Let(self.variable.name@, Box::new(self.expression@), Box::new(self.scope@))
    }
}

impl Clone for VariableNode {
    fn clone(&self) -> (copy: Self)
        ensures
            copy == *self,
    {
        VariableNode { name: self.name.clone() }
    }
}

impl Clone for ConstantNode {
    fn clone(&self) -> (copy: Self)
        ensures
            copy == *self,
    {
        ConstantNode { value: self.value }
    }
}

impl Clone for ExpressionNode {
    fn clone(&self) -> (copy: Self)
        ensures
            copy == *self,
        decreases self,
    {
        match self {
            ExpressionNode::Variable(node) => ExpressionNode::Variable(node.clone()),
            ExpressionNode::Constant(node) => ExpressionNode::Constant(node.clone()),
            ExpressionNode::Abstraction(node) => ExpressionNode::Abstraction(
                AbstractionNode {
                    parameter: node.parameter.clone(),
                    body: Box::new((*node.body).clone()),
                },
            ),
            ExpressionNode::Application(node) => ExpressionNode::Application(
                ApplicationNode {
                    function: Box::new((*node.function).clone()),
                    argument: Box::new((*node.argument).clone()),
                },
            ),
            ExpressionNode::Arithmetic(node) => ExpressionNode::Arithmetic(
                ArithmeticNode {
                    operator: node.operator.clone(),
                    left: Box::new((*node.left).clone()),
                    right: Box::new((*node.right).clone()),
                },
            ),
            ExpressionNode::Let(node) => ExpressionNode::Let(
                LetNode {
                    variable: node.variable.clone(),
                    expression: Box::new((*node.expression).clone()),
                    scope: Box::new((*node.scope).clone()),
                },
            ),
        }
    }
}

impl Clone for AbstractionNode {
    fn clone(&self) -> (copy: Self)
        ensures
            copy == *self,
    {
        AbstractionNode { parameter: self.parameter.clone(), body: Box::new((*self.body).clone()) }
    }
}

impl Clone for ApplicationNode {
    fn clone(&self) -> (copy: Self)
        ensures
            copy == *self,
    {
        ApplicationNode {
            function: Box::new((*self.function).clone()),
            argument: Box::new((*self.argument).clone()),
        }
    }
}

impl Clone for ArithmeticNode {
    fn clone(&self) -> (copy: Self)
        ensures
            copy == *self,
    {
        ArithmeticNode {
            operator: self.operator.clone(),
            left: Box::new((*self.left).clone()),
            right: Box::new((*self.right).clone()),
        }
    }
}

impl Clone for LetNode {
    fn clone(&self) -> (copy: Self)
        ensures
            copy == *self,
    {
        LetNode {
            variable: self.variable.clone(),
            expression: Box::new((*self.expression).clone()),
            scope: Box::new((*self.scope).clone()),
        }
    }
}

} // verus!
