//! Rendering of trees as text, fully parenthesised.

use vstd::prelude::*;
use vstd::string::StringExecFns;
use crate::ast::ExpressionNode;
use crate::beta::NormalExpressionNode;
use crate::decimal::{push_signed_decimal, signed_decimal};
use crate::term::Term;

verus! {

/// The text of a term: a name and a number as they are, an abstraction
/// as `(λname. body)`, an application as `(function argument)`, an
/// operation as `(left operator right)` and a `let` as
/// `let name = expression in scope`.
pub open spec fn rendered(term: Term) -> Seq<char>
    decreases term,
{
    match term {
        Term::Variable(name) => name,
        Term::Constant(value) => signed_decimal(value as int),
        Term::Abstraction(parameter, body) => "(\u{3bb}"@ + parameter + ". "@ + rendered(*body)
            + ")"@,
        Term::Application(function, argument) => "("@ + rendered(*function) + " "@ + rendered(
            *argument,
        ) + ")"@,
        Term::Arithmetic(left, operator, right) => "("@ + rendered(*left) + " "@ + operator + " "@
            + rendered(*right) + ")"@,
        Term::Let(variable, expression, scope) => "let "@ + variable + " = "@ + rendered(
            *expression,
        ) + " in "@ + rendered(*scope),
    }
}

/// The text of a syntax tree.
pub fn pretty_print(node: &ExpressionNode) -> (text: String)
    ensures
        text@ == rendered(node@),
{
    let mut text = String::new();
    write_expression(&mut text, node);
    assert(Seq::<char>::empty() + rendered(node@) =~= rendered(node@));
    text
}

/// The text of a normal-form tree.
pub fn pretty_print_normal(node: &NormalExpressionNode) -> (text: String)
    ensures
        text@ == rendered(node@),
{
    let mut text = String::new();
    write_normal(&mut text, node);
    assert(Seq::<char>::empty() + rendered(node@) =~= rendered(node@));
    text
}

/// Appends the text of a syntax tree.
fn write_expression(text: &mut String, node: &ExpressionNode)
    ensures
        final(text)@ == old(text)@ + rendered(node@),
    decreases node,
{
    match node {
        ExpressionNode::Variable(node) => {
            text.append(node.name.as_str());
        },
        ExpressionNode::Constant(node) => {
            push_signed_decimal(text, node.value);
        },
        ExpressionNode::Abstraction(node) => {
            text.append("(\u{3bb}");
            text.append(node.parameter.name.as_str());
            text.append(". ");
            write_expression(text, &*node.body);
            text.append(")");
            assert(final(text)@ =~= old(text)@ + ("(\u{3bb}"@ + node.parameter.name@ + ". "@
                + rendered(node.body@) + ")"@));
        },
        ExpressionNode::Application(node) => {
            text.append("(");
            write_expression(text, &*node.function);
            text.append(" ");
            write_expression(text, &*node.argument);
            text.append(")");
            assert(final(text)@ =~= old(text)@ + ("("@ + rendered(node.function@) + " "@
                + rendered(node.argument@) + ")"@));
        },
        ExpressionNode::Arithmetic(node) => {
            text.append("(");
            write_expression(text, &*node.left);
            text.append(" ");
            text.append(node.operator.as_str());
            text.append(" ");
            write_expression(text, &*node.right);
            text.append(")");
            assert(final(text)@ =~= old(text)@ + ("("@ + rendered(node.left@) + " "@
                + node.operator@ + " "@ + rendered(node.right@) + ")"@));
        },
        ExpressionNode::Let(node) => {
            text.append("let ");
            text.append(node.variable.name.as_str());
            text.append(" = ");
            write_expression(text, &*node.expression);
            text.append(" in ");
            write_expression(text, &*node.scope);
            assert(final(text)@ =~= old(text)@ + ("let "@ + node.variable.name@ + " = "@
                + rendered(node.expression@) + " in "@ + rendered(node.scope@)));
        },
    }
}

/// Appends the text of a normal-form tree.
fn write_normal(text: &mut String, node: &NormalExpressionNode)
    ensures
        final(text)@ == old(text)@ + rendered(node@),
    decreases node,
{
    match node {
        NormalExpressionNode::Variable(name) => {
            text.append(name.as_str());
        },
        NormalExpressionNode::Constant(value) => {
            push_signed_decimal(text, *value);
        },
        NormalExpressionNode::Abstraction(parameter, body) => {
            text.append("(\u{3bb}");
            text.append(parameter.as_str());
            text.append(". ");
            write_normal(text, &**body);
            text.append(")");
            assert(final(text)@ =~= old(text)@ + ("(\u{3bb}"@ + parameter@ + ". "@ + rendered(
                body@,
            ) + ")"@));
        },
        NormalExpressionNode::Application(function, argument) => {
            text.append("(");
            write_normal(text, &**function);
            text.append(" ");
            write_normal(text, &**argument);
            text.append(")");
            assert(final(text)@ =~= old(text)@ + ("("@ + rendered(function@) + " "@ + rendered(
                argument@,
            ) + ")"@));
        },
        NormalExpressionNode::Arithmetic(left, operator, right) => {
            text.append("(");
            write_normal(text, &**left);
            text.append(" ");
            text.append(operator.as_str());
            text.append(" ");
            write_normal(text, &**right);
            text.append(")");
            assert(final(text)@ =~= old(text)@ + ("("@ + rendered(left@) + " "@ + operator@
                + " "@ + rendered(right@) + ")"@));
        },
        NormalExpressionNode::Let(variable, expression, scope) => {
            text.append("let ");
            text.append(variable.as_str());
            text.append(" = ");
            write_normal(text, &**expression);
            text.append(" in ");
            write_normal(text, &**scope);
            assert(final(text)@ =~= old(text)@ + ("let "@ + variable@ + " = "@ + rendered(
                expression@,
            ) + " in "@ + rendered(scope@)));
        },
    }
}

} // verus!
