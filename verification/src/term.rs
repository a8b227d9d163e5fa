//! The mathematical model of a lambda expression.
//!
//! Both tree representations of the crate (the mutable syntax tree and the
//! persistent normal-form tree) are viewed as a [`Term`]. Every contract of
//! the engine is stated over terms.

use vstd::prelude::*;

verus! {

/// A lambda expression as a mathematical value: names are sequences of
/// characters and subterms are nested values without sharing.
pub enum Term {
    /// An occurrence of a name.
    Variable(Seq<char>),
    /// A 64-bit signed integer literal.
    Constant(i64),
    /// `Abstraction(parameter, body)`: a function of one parameter.
    Abstraction(Seq<char>, Box<Term>),
    /// `Application(function, argument)`.
    Application(Box<Term>, Box<Term>),
    /// `Arithmetic(left, operator, right)`; the operator is kept as written.
    Arithmetic(Box<Term>, Seq<char>, Box<Term>),
    /// `Let(variable, expression, scope)`: `variable` stands for
    /// `expression` inside `scope`.
    Let(Seq<char>, Box<Term>, Box<Term>),
}

impl Term {
    /// The number of nodes on the longest path from this node to a leaf.
    pub open spec fn height(self) -> nat
        decreases self,
    {
        match self {
            Term::Variable(_) => 1,
            Term::Constant(_) => 1,
            Term::Abstraction(_, body) => 1 + body.height(),
            Term::Application(function, argument) => 1 + larger(
                function.height(),
                argument.height(),
            ),
            Term::Arithmetic(left, _, right) => 1 + larger(left.height(), right.height()),
            Term::Let(_, expression, scope) => 1 + larger(expression.height(), scope.height()),
        }
    }

    /// The number of abstractions in the term, which is the number of
    /// binders that alpha-conversion renames.
    pub open spec fn binders(self) -> nat
        decreases self,
    {
        match self {
            Term::Variable(_) => 0,
            Term::Constant(_) => 0,
            Term::Abstraction(_, body) => 1 + body.binders(),
            Term::Application(function, argument) => function.binders() + argument.binders(),
            Term::Arithmetic(left, _, right) => left.binders() + right.binders(),
            Term::Let(_, expression, scope) => expression.binders() + scope.binders(),
        }
    }

    /// The parameters of the abstractions of the term, in the order in
    /// which a depth-first, left-to-right walk meets them.
    pub open spec fn binder_names(self) -> Seq<Seq<char>>
        decreases self,
    {
        match self {
            Term::Variable(_) => Seq::empty(),
            Term::Constant(_) => Seq::empty(),
            Term::Abstraction(parameter, body) => seq![parameter] + body.binder_names(),
            Term::Application(function, argument) => function.binder_names()
                + argument.binder_names(),
            Term::Arithmetic(left, _, right) => left.binder_names() + right.binder_names(),
            Term::Let(_, expression, scope) => expression.binder_names() + scope.binder_names(),
        }
    }
}

/// The larger of two natural numbers.
pub open spec fn larger(a: nat, b: nat) -> nat {
    if a >= b {
        a
    } else {
        b
    }
}

} // verus!
