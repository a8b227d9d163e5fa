use std::rc::Rc;

use alabasta::ast::{AbstractionNode, ConstantNode, ExpressionNode, LetNode, VariableNode};
use alabasta::beta::NormalExpressionNode;
use alabasta::pretty::{pretty_print, pretty_print_normal};
use alabasta::repl::{command_of, eval, Action, Command, EvalOptions, Repl, Report};

fn result_of(source: &str) -> Result<NormalExpressionNode, String> {
    eval(&source.to_string(), &EvalOptions::new()).result
}

fn transcript_of(source: &str, options: &EvalOptions) -> String {
    eval(&source.to_string(), options).transcript
}

#[test]
fn numbers_render_in_decimal() {
    assert_eq!(pretty_print_normal(&NormalExpressionNode::Constant(0)), "0");
    assert_eq!(pretty_print_normal(&NormalExpressionNode::Constant(7)), "7");
    assert_eq!(pretty_print_normal(&NormalExpressionNode::Constant(1203)), "1203");
    assert_eq!(pretty_print_normal(&NormalExpressionNode::Constant(-45)), "-45");
    assert_eq!(
        pretty_print_normal(&NormalExpressionNode::Constant(i64::MAX)),
        "9223372036854775807"
    );
    assert_eq!(
        pretty_print_normal(&NormalExpressionNode::Constant(i64::MIN)),
        "-9223372036854775808"
    );
}

#[test]
fn normal_forms_render_fully_parenthesised() {
    let x = Rc::new(NormalExpressionNode::Variable("x".to_string()));
    let one = Rc::new(NormalExpressionNode::Constant(1));
    let sum = Rc::new(NormalExpressionNode::Arithmetic(x.clone(), "+".to_string(), one.clone()));
    let function = Rc::new(NormalExpressionNode::Abstraction("x".to_string(), sum.clone()));
    let call = NormalExpressionNode::Application(function.clone(), one.clone());
    assert_eq!(pretty_print_normal(&x), "x");
    assert_eq!(pretty_print_normal(&sum), "(x + 1)");
    assert_eq!(pretty_print_normal(&function), "(\u{3bb}x. (x + 1))");
    assert_eq!(pretty_print_normal(&call), "((\u{3bb}x. (x + 1)) 1)");
    let sugar = NormalExpressionNode::Let("y".to_string(), one, sum);
    assert_eq!(pretty_print_normal(&sugar), "let y = 1 in (x + 1)");
}

#[test]
fn syntax_trees_render_like_normal_forms() {
    let tree = ExpressionNode::Let(LetNode {
        variable: VariableNode { name: "id".to_string() },
        expression: Box::new(ExpressionNode::Abstraction(AbstractionNode {
            parameter: VariableNode { name: "x".to_string() },
            body: Box::new(ExpressionNode::Variable(VariableNode { name: "x".to_string() })),
        })),
        scope: Box::new(ExpressionNode::Constant(ConstantNode { value: -3 })),
    });
    assert_eq!(pretty_print(&tree), "let id = (\u{3bb}x. x) in -3");
}

#[test]
fn eval_reduces_source_text() {
    assert_eq!(result_of("(3 + 5) * 2"), Ok(NormalExpressionNode::Constant(16)));
    assert_eq!(result_of("7 % 2"), Ok(NormalExpressionNode::Constant(1)));
    assert_eq!(result_of("5 / 2"), Ok(NormalExpressionNode::Constant(2)));
    assert_eq!(result_of("(\\x. x * 2) 3"), Ok(NormalExpressionNode::Constant(6)));
    assert_eq!(
        result_of("(\\f. \\x. f (f x)) (\\y. y * 2) 3"),
        Ok(NormalExpressionNode::Constant(12))
    );
    assert_eq!(
        result_of("let double = \\x. x * 2 in double 5"),
        Ok(NormalExpressionNode::Constant(10))
    );
    assert_eq!(result_of("(\\x. \\y. \\z. x y z) 1 2 3").is_ok(), true);
}

#[test]
fn eval_keeps_free_variables_free() {
    assert_eq!(
        result_of("(\\x. \\y. x) y"),
        Ok(NormalExpressionNode::Abstraction(
            "@x1".to_string(),
            Rc::new(NormalExpressionNode::Variable("y".to_string()))
        ))
    );
}

#[test]
fn eval_normalises_under_binders() {
    assert_eq!(
        result_of("\\x. (1 + 1)"),
        Ok(NormalExpressionNode::Abstraction(
            "@x0".to_string(),
            Rc::new(NormalExpressionNode::Constant(2))
        ))
    );
}

#[test]
fn eval_reports_each_kind_of_error() {
    assert_eq!(result_of("x ? y"), Err("Unexpected symbol encountered!".to_string()));
    assert_eq!(
        result_of("99999999999999999999"),
        Err("Integer literal out of range!".to_string())
    );
    assert_eq!(result_of("(x"), Err("Unable to parse expression!".to_string()));
    assert_eq!(result_of(""), Err("Unable to parse expression!".to_string()));
    assert_eq!(result_of("1 / 0"), Err("Division by zero".to_string()));
    assert_eq!(result_of("(\\x. x / 0) 1"), Err("Division by zero".to_string()));
    assert_eq!(
        result_of("(\\x. x * 9223372036854775807) 2"),
        Err("Arithmetic overflow".to_string())
    );
    assert_eq!(
        result_of("(\\x. x x) (\\x. x x)"),
        Err("Reduction depth limit exceeded".to_string())
    );
}

#[test]
fn the_transcript_shows_the_result() {
    assert_eq!(transcript_of("(\\x. x) y", &EvalOptions::new()), "=> y\n");
    assert_eq!(transcript_of("(x", &EvalOptions::new()), "");
}

#[test]
fn the_transcript_shows_the_stages_asked_for() {
    let mut options = EvalOptions::new();
    options.switch_parse();
    options.switch_alpha_conversion();
    assert_eq!(
        transcript_of("(\\x. x) 1", &options),
        "=> ((\u{3bb}x. x) 1)\n=> ((\u{3bb}@x0. @x0) 1)\n=> 1\n"
    );
    options.switch_verbose_output();
    assert_eq!(
        transcript_of("(\\x. x) 1", &options),
        "Parsed \u{3bb}-expr :\n=> ((\u{3bb}x. x) 1)\n\u{3b1}-conversion :\n=> ((\u{3bb}@x0. @x0) 1)\nNormal Form (after \u{3b2}-reductions) :\n=> 1\n"
    );
    assert_eq!(
        transcript_of("(\\x. x / 0) 1", &options),
        "Parsed \u{3bb}-expr :\n=> ((\u{3bb}x. (x / 0)) 1)\n\u{3b1}-conversion :\n=> ((\u{3bb}@x0. (@x0 / 0)) 1)\n"
    );
}

#[test]
fn switches_toggle_and_report() {
    let mut options = EvalOptions::new();
    assert_eq!(
        options,
        EvalOptions { show_parse: false, show_alpha_conversion: false, verbose_output: false }
    );
    assert_eq!(options.switch_parse(), "Show parsed expression enabled.");
    assert!(options.show_parse);
    assert_eq!(options.switch_parse(), "Show parsed expression disabled.");
    assert!(!options.show_parse);
    assert_eq!(options.switch_alpha_conversion(), "Show alpha conversion enabled.");
    assert!(options.show_alpha_conversion);
    assert_eq!(options.switch_verbose_output(), "Verbose output enabled.");
    assert!(options.verbose_output);
    assert_eq!(options.switch_verbose_output(), "Verbose output disabled.");
    assert!(!options.show_parse);
}

#[test]
fn commands_have_long_and_short_forms() {
    let cases = vec![
        (":exit", Command::Quit),
        (":quit", Command::Quit),
        (":q", Command::Quit),
        (":x", Command::Quit),
        (":multiline", Command::Multiline),
        (":m", Command::Multiline),
        (":help", Command::Help),
        (":h", Command::Help),
        (":reference", Command::Reference),
        (":r", Command::Reference),
        (":show-parse", Command::ShowParse),
        (":sp", Command::ShowParse),
        (":show-alpha", Command::ShowAlpha),
        (":sa", Command::ShowAlpha),
        (":verbose", Command::Verbose),
        (":v", Command::Verbose),
    ];
    for (line, command) in cases {
        assert_eq!(command_of(&line.to_string()), Some(command));
    }
    assert_eq!(command_of(&"x".to_string()), None);
    assert_eq!(command_of(&":quit ".to_string()), None);
    assert_eq!(command_of(&"".to_string()), None);
}

#[test]
fn a_session_evaluates_each_line() {
    let mut repl = Repl::new();
    assert_eq!(repl.prompt(), "\u{3bb}-expr >> ");
    let action = repl.react("1 + 2".to_string());
    assert_eq!(
        action,
        Action::Evaluate(
            "1 + 2".to_string(),
            Report {
                transcript: "=> 3\n".to_string(),
                result: Ok(NormalExpressionNode::Constant(3))
            }
        )
    );
    assert_eq!(repl, Repl::new());
}

#[test]
fn a_session_obeys_commands() {
    let mut repl = Repl::new();
    assert_eq!(repl.react(":help".to_string()), Action::ShowHelp);
    assert_eq!(repl.react(":r".to_string()), Action::ShowReference);
    assert_eq!(
        repl.react(":sp".to_string()),
        Action::Print("Show parsed expression enabled.".to_string())
    );
    assert_eq!(
        repl.react(":show-alpha".to_string()),
        Action::Print("Show alpha conversion enabled.".to_string())
    );
    assert_eq!(
        repl.react(":v".to_string()),
        Action::Print("Verbose output enabled.".to_string())
    );
    assert_eq!(
        repl.options,
        EvalOptions { show_parse: true, show_alpha_conversion: true, verbose_output: true }
    );
    assert_eq!(repl.react(":q".to_string()), Action::Quit);
}

#[test]
fn a_session_gathers_lines_in_multiline_mode() {
    let mut repl = Repl::new();
    assert_eq!(
        repl.react(":m".to_string()),
        Action::Print("Multiline input enabled.".to_string())
    );
    assert_eq!(repl.prompt(), "\u{3bb}-expr >> ");
    assert_eq!(repl.react("let x = 5 in ".to_string()), Action::Nothing);
    assert_eq!(repl.prompt(), "+ > ");
    assert_eq!(repl.react("x * x".to_string()), Action::Nothing);
    assert_eq!(repl.expression, "let x = 5 in x * x");
    let action = repl.react("".to_string());
    assert_eq!(
        action,
        Action::Evaluate(
            "let x = 5 in x * x".to_string(),
            Report {
                transcript: "=> 25\n".to_string(),
                result: Ok(NormalExpressionNode::Constant(25))
            }
        )
    );
    assert_eq!(repl.expression, "");
    assert_eq!(repl.prompt(), "\u{3bb}-expr >> ");
    assert_eq!(
        repl.react(":multiline".to_string()),
        Action::Print("Multiline input disabled.".to_string())
    );
    assert!(!repl.multiline);
}

#[test]
fn lines_are_joined_with_nothing_in_between() {
    let mut repl = Repl::new();
    repl.react(":m".to_string());
    repl.react("1 +".to_string());
    repl.react("2".to_string());
    assert_eq!(repl.expression, "1 +2");
}
