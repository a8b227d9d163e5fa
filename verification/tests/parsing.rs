use alabasta::ast::{
    AbstractionNode, ApplicationNode, ArithmeticNode, ConstantNode, ExpressionNode, LetNode,
    VariableNode,
};
use alabasta::lexer::{Lexeme, Lexer, Token};
use alabasta::parser::Parser;

fn variable(name: &str) -> ExpressionNode {
    ExpressionNode::Variable(VariableNode { name: name.to_string() })
}

fn constant(value: i64) -> ExpressionNode {
    ExpressionNode::Constant(ConstantNode { value })
}

fn abstraction(parameter: &str, body: ExpressionNode) -> ExpressionNode {
    ExpressionNode::Abstraction(AbstractionNode {
        parameter: VariableNode { name: parameter.to_string() },
        body: Box::new(body),
    })
}

fn application(function: ExpressionNode, argument: ExpressionNode) -> ExpressionNode {
    ExpressionNode::Application(ApplicationNode {
        function: Box::new(function),
        argument: Box::new(argument),
    })
}

fn arithmetic(left: ExpressionNode, operator: &str, right: ExpressionNode) -> ExpressionNode {
    ExpressionNode::Arithmetic(ArithmeticNode {
        operator: operator.to_string(),
        left: Box::new(left),
        right: Box::new(right),
    })
}

fn binding(name: &str, expression: ExpressionNode, scope: ExpressionNode) -> ExpressionNode {
    ExpressionNode::Let(LetNode {
        variable: VariableNode { name: name.to_string() },
        expression: Box::new(expression),
        scope: Box::new(scope),
    })
}

fn parse(source: &str) -> Result<ExpressionNode, ()> {
    let tokens = Lexer::new(source.to_string()).scan().unwrap();
    Parser::new(tokens).parse()
}

#[test]
fn a_name_and_a_number_parse_as_themselves() {
    assert_eq!(parse("x"), Ok(variable("x")));
    assert_eq!(parse("42"), Ok(constant(42)));
}

#[test]
fn no_tokens_make_no_expression() {
    assert_eq!(parse(""), Err(()));
    assert_eq!(Parser::new(Vec::new()).parse(), Err(()));
}

#[test]
fn application_associates_to_the_left() {
    assert_eq!(
        parse("x y z"),
        Ok(application(application(variable("x"), variable("y")), variable("z")))
    );
}

#[test]
fn an_abstraction_extends_to_the_right() {
    assert_eq!(
        parse("\\x. x y"),
        Ok(abstraction("x", application(variable("x"), variable("y"))))
    );
    assert_eq!(
        parse("^x. \\y. x"),
        Ok(abstraction("x", abstraction("y", variable("x"))))
    );
}

#[test]
fn parentheses_group() {
    assert_eq!(
        parse("(\\x. x) y"),
        Ok(application(abstraction("x", variable("x")), variable("y")))
    );
    assert_eq!(
        parse("x (y z)"),
        Ok(application(variable("x"), application(variable("y"), variable("z"))))
    );
    assert_eq!(parse("((x))"), Ok(variable("x")));
}

#[test]
fn an_operator_between_two_operands_binds_them_first() {
    assert_eq!(parse("x + 1"), Ok(arithmetic(variable("x"), "+", constant(1))));
    assert_eq!(
        parse("f x + 1"),
        Ok(application(variable("f"), arithmetic(variable("x"), "+", constant(1))))
    );
}

#[test]
fn operators_after_an_expression_associate_to_the_left() {
    assert_eq!(
        parse("(3 + 5) * 2"),
        Ok(arithmetic(arithmetic(constant(3), "+", constant(5)), "*", constant(2)))
    );
    assert_eq!(
        parse("1 + 2 * 3"),
        Ok(arithmetic(arithmetic(constant(1), "+", constant(2)), "*", constant(3)))
    );
    assert_eq!(
        parse("1 + 2 * 3 - 4"),
        Ok(arithmetic(
            arithmetic(constant(1), "+", constant(2)),
            "*",
            arithmetic(constant(3), "-", constant(4))
        ))
    );
}

#[test]
fn an_operation_may_take_a_whole_abstraction() {
    assert_eq!(
        parse("(x) / \\y. y"),
        Ok(arithmetic(variable("x"), "/", abstraction("y", variable("y"))))
    );
}

#[test]
fn let_binds_a_name_in_a_scope() {
    assert_eq!(
        parse("let double = \\x. x * 2 in double 5"),
        Ok(binding(
            "double",
            abstraction("x", arithmetic(variable("x"), "*", constant(2))),
            application(variable("double"), constant(5)),
        ))
    );
}

#[test]
fn lets_nest_in_the_scope() {
    assert_eq!(
        parse("let x = 5 in let y = 3 in x % y"),
        Ok(binding(
            "x",
            constant(5),
            binding("y", constant(3), arithmetic(variable("x"), "%", variable("y"))),
        ))
    );
}

#[test]
fn beta_redex_parses_as_an_application() {
    assert_eq!(
        parse("(\\x. x * 2) 3"),
        Ok(application(
            abstraction("x", arithmetic(variable("x"), "*", constant(2))),
            constant(3)
        ))
    );
}

#[test]
fn trailing_tokens_are_left_alone() {
    assert_eq!(parse("x )"), Ok(variable("x")));
    assert_eq!(parse("x . y"), Ok(variable("x")));
    assert_eq!(parse("x = 1"), Ok(variable("x")));
}

#[test]
fn an_operator_without_a_right_side_is_dropped() {
    assert_eq!(parse("(x) +"), Ok(variable("x")));
}

#[test]
fn incomplete_expressions_fail() {
    assert_eq!(parse("\\x."), Err(()));
    assert_eq!(parse("\\. x"), Err(()));
    assert_eq!(parse("\\x x"), Err(()));
    assert_eq!(parse("(x"), Err(()));
    assert_eq!(parse(")"), Err(()));
    assert_eq!(parse("+ 1"), Err(()));
    assert_eq!(parse("x +"), Err(()));
    assert_eq!(parse("x + ("), Err(()));
    assert_eq!(parse("let x 1 in x"), Err(()));
    assert_eq!(parse("let x = 1 x"), Err(()));
    assert_eq!(parse("let x = 1 in"), Err(()));
    assert_eq!(parse("let 1 = 1 in x"), Err(()));
}

#[test]
fn a_failed_attempt_keeps_the_tokens_it_took() {
    // After `f`, the attempt on `(` fails with the parenthesis taken, and
    // the attempt on an operator starts behind it.
    assert_eq!(parse("f ( + 1"), Ok(arithmetic(variable("f"), "+", constant(1))));
    assert_eq!(parse("f () + 1"), Ok(variable("f")));
}

#[test]
fn tokens_written_by_hand_parse_too() {
    let tokens = vec![
        Token { token_type: Lexeme::Identifier("f".to_string()), line_number: 0, char_start: 0, char_end: 1 },
        Token { token_type: Lexeme::BinaryOperator("**".to_string()), line_number: 0, char_start: 2, char_end: 4 },
        Token { token_type: Lexeme::Integer(2), line_number: 0, char_start: 5, char_end: 6 },
    ];
    assert_eq!(Parser::new(tokens).parse(), Ok(arithmetic(variable("f"), "**", constant(2))));
}

#[test]
fn a_parser_goes_on_where_it_stopped() {
    let tokens = Lexer::new("x , y".to_string()).scan().unwrap();
    let mut parser = Parser::new(tokens);
    assert_eq!(parser.parse(), Ok(variable("x")));
    assert_eq!(parser.parse(), Err(()));
}
