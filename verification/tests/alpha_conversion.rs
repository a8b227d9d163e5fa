use std::rc::Rc;

use alabasta::alpha::AlphaConverter;
use alabasta::ast::{
    AbstractionNode, ApplicationNode, ArithmeticNode, ConstantNode, ExpressionNode, LetNode,
    VariableNode,
};
use alabasta::beta::{BetaReducer, NormalExpressionNode};
use alabasta::convert::to_normal_form;

fn variable(name: &str) -> ExpressionNode {
    ExpressionNode::Variable(VariableNode { name: name.to_string() })
}

fn constant(value: i64) -> ExpressionNode {
    ExpressionNode::Constant(ConstantNode { value })
}

fn abstraction(parameter: &str, body: ExpressionNode) -> ExpressionNode {
    ExpressionNode::Abstraction(AbstractionNode {
        parameter: VariableNode { name: parameter.to_string() },
        body: Box::new(body),
    })
}

fn application(function: ExpressionNode, argument: ExpressionNode) -> ExpressionNode {
    ExpressionNode::Application(ApplicationNode {
        function: Box::new(function),
        argument: Box::new(argument),
    })
}

fn arithmetic(left: ExpressionNode, operator: &str, right: ExpressionNode) -> ExpressionNode {
    ExpressionNode::Arithmetic(ArithmeticNode {
        operator: operator.to_string(),
        left: Box::new(left),
        right: Box::new(right),
    })
}

fn binding(name: &str, expression: ExpressionNode, scope: ExpressionNode) -> ExpressionNode {
    ExpressionNode::Let(LetNode {
        variable: VariableNode { name: name.to_string() },
        expression: Box::new(expression),
        scope: Box::new(scope),
    })
}

fn converted(mut tree: ExpressionNode) -> ExpressionNode {
    assert!(AlphaConverter::new().convert(&mut tree));
    tree
}

#[test]
fn fresh_names_count_from_zero() {
    let mut converter = AlphaConverter::new();
    assert_eq!(converter.generate(), "@x0");
    assert_eq!(converter.generate(), "@x1");
    for _ in 2..10 {
        converter.generate();
    }
    assert_eq!(converter.generate(), "@x10");
    for _ in 11..123 {
        converter.generate();
    }
    assert_eq!(converter.generate(), "@x123");
}

#[test]
fn bind_and_release_nest() {
    let mut converter = AlphaConverter::new();
    let x = "x".to_string();
    let y = "y".to_string();
    assert!(!converter.is_bound(&x));
    converter.bind(&x);
    assert!(converter.is_bound(&x));
    assert!(!converter.is_bound(&y));
    assert_eq!(converter.rename(&x), "@x0");
    converter.bind(&y);
    converter.bind(&x);
    assert_eq!(converter.rename(&x), "@x2");
    assert_eq!(converter.rename(&y), "@x1");
    converter.release(&x);
    assert_eq!(converter.rename(&x), "@x0");
    assert_eq!(converter.rename(&y), "@x1");
    converter.release(&x);
    assert!(!converter.is_bound(&x));
    assert!(converter.is_bound(&y));
    converter.release(&y);
    assert!(!converter.is_bound(&y));
}

#[test]
fn release_takes_the_innermost_binding_of_the_name() {
    let mut converter = AlphaConverter::new();
    let x = "x".to_string();
    let y = "y".to_string();
    converter.bind(&x);
    converter.bind(&y);
    converter.release(&x);
    assert!(!converter.is_bound(&x));
    assert_eq!(converter.rename(&y), "@x1");
}

#[test]
fn free_variables_are_left_alone() {
    let tree = application(variable("f"), arithmetic(variable("x"), "+", constant(1)));
    assert_eq!(converted(tree.clone()), tree);
}

#[test]
fn nested_binders_of_one_name_are_renamed_apart() {
    // \x. \x. x
    let tree = abstraction("x", abstraction("x", variable("x")));
    let expected = abstraction("@x0", abstraction("@x1", variable("@x1")));
    assert_eq!(converted(tree), expected);
}

#[test]
fn occurrences_follow_their_own_binder() {
    // \x. (\x. x) x
    let tree = abstraction("x", application(abstraction("x", variable("x")), variable("x")));
    let expected = abstraction(
        "@x0",
        application(abstraction("@x1", variable("@x1")), variable("@x0")),
    );
    assert_eq!(converted(tree), expected);
}

#[test]
fn siblings_draw_names_left_to_right() {
    // (\x. x) (\x. \y. x y) + (\y. y)
    let tree = arithmetic(
        application(
            abstraction("x", variable("x")),
            abstraction("x", abstraction("y", application(variable("x"), variable("y")))),
        ),
        "+",
        abstraction("y", variable("y")),
    );
    let expected = arithmetic(
        application(
            abstraction("@x0", variable("@x0")),
            abstraction(
                "@x1",
                abstraction("@x2", application(variable("@x1"), variable("@x2"))),
            ),
        ),
        "+",
        abstraction("@x3", variable("@x3")),
    );
    assert_eq!(converted(tree), expected);
}

#[test]
fn let_binds_nothing_during_conversion() {
    // let x = \y. y in x z
    let tree = binding(
        "x",
        abstraction("y", variable("y")),
        application(variable("x"), variable("z")),
    );
    let expected = binding(
        "x",
        abstraction("@x0", variable("@x0")),
        application(variable("x"), variable("z")),
    );
    assert_eq!(converted(tree), expected);
}

#[test]
fn let_variable_under_a_binder_of_its_name_is_renamed() {
    // \x. let x = 1 in x
    let tree = abstraction("x", binding("x", constant(1), variable("x")));
    let expected = abstraction("@x0", binding("@x0", constant(1), variable("@x0")));
    assert_eq!(converted(tree), expected);
}

#[test]
fn a_converter_goes_on_where_it_stopped() {
    let mut converter = AlphaConverter::new();
    let mut first = abstraction("x", variable("x"));
    let mut second = abstraction("x", variable("x"));
    assert!(converter.convert(&mut first));
    assert!(converter.convert(&mut second));
    assert_eq!(first, abstraction("@x0", variable("@x0")));
    assert_eq!(second, abstraction("@x1", variable("@x1")));
    assert!(!converter.is_bound(&"x".to_string()));
}

#[test]
fn conversion_under_an_open_binding_renames_to_it() {
    let mut converter = AlphaConverter::new();
    converter.bind(&"y".to_string());
    let mut tree = abstraction("x", application(variable("x"), variable("y")));
    assert!(converter.convert(&mut tree));
    assert_eq!(tree, abstraction("@x1", application(variable("@x1"), variable("@x0"))));
    assert!(converter.is_bound(&"y".to_string()));
}

#[test]
fn variable_node_rename_sets_the_name() {
    let mut node = VariableNode { name: "x".to_string() };
    node.rename("y");
    assert_eq!(node, VariableNode { name: "y".to_string() });
}

#[test]
fn accept_dispatches_to_the_visitor() {
    let mut converter = AlphaConverter::new();
    converter.bind(&"x".to_string());
    let mut occurrence = VariableNode { name: "x".to_string() };
    occurrence.accept(&mut converter);
    assert_eq!(occurrence.name, "@x0");
    let mut number = ConstantNode { value: 3 };
    number.accept(&mut converter);
    assert_eq!(number, ConstantNode { value: 3 });
    let mut function = AbstractionNode {
        parameter: VariableNode { name: "x".to_string() },
        body: Box::new(variable("x")),
    };
    function.accept(&mut converter);
    assert_eq!(ExpressionNode::Abstraction(function), abstraction("@x1", variable("@x1")));
    let mut call = ApplicationNode {
        function: Box::new(variable("x")),
        argument: Box::new(variable("y")),
    };
    call.accept(&mut converter);
    assert_eq!(
        ExpressionNode::Application(call),
        application(variable("@x0"), variable("y"))
    );
    let mut sum = ArithmeticNode {
        operator: "+".to_string(),
        left: Box::new(variable("x")),
        right: Box::new(constant(1)),
    };
    sum.accept(&mut converter);
    assert_eq!(ExpressionNode::Arithmetic(sum), arithmetic(variable("@x0"), "+", constant(1)));
    let mut sugar = LetNode {
        variable: VariableNode { name: "x".to_string() },
        expression: Box::new(constant(1)),
        scope: Box::new(variable("x")),
    };
    sugar.accept(&mut converter);
    assert_eq!(
        ExpressionNode::Let(sugar),
        binding("@x0", constant(1), variable("@x0"))
    );
    let mut whole = abstraction("z", variable("x"));
    whole.accept(&mut converter);
    assert_eq!(whole, abstraction("@x2", variable("@x0")));
}

#[test]
fn substitution_after_conversion_does_not_capture() {
    // (\x. \y. x) y: the argument y is free and must stay free.
    let tree = application(abstraction("x", abstraction("y", variable("x"))), variable("y"));
    let tree = converted(tree);
    let normal = to_normal_form(&tree).unwrap();
    let result = BetaReducer::new().reduce(&normal);
    let expected = NormalExpressionNode::Abstraction(
        "@x1".to_string(),
        Rc::new(NormalExpressionNode::Variable("y".to_string())),
    );
    assert_eq!(result, Ok(expected));
}
