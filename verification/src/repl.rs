//! The evaluation of one line of source text, and the decisions of an
//! interactive session. Reading lines and printing are the host's part.

use vstd::prelude::*;
use vstd::string::StringExecFns;
use crate::alpha::{converted, renaming, AlphaConverter};
use crate::beta::{reduced, BetaReducer, NormalExpressionNode, DEFAULT_DEPTH_LIMIT};
use crate::convert::{folded, to_normal_form};
use crate::lexer::{error_text, placed, scanned, Lexer};
use crate::parser::{lemma_expression_bounds, parsed_expression, Parser};
use crate::pretty::{pretty_print, pretty_print_normal, rendered};
use crate::term::Term;

verus! {

/// What an evaluation shows besides its result.
#[derive(Debug, Clone, Copy, PartialEq, Eq, Structural)]
pub struct EvalOptions {
    pub show_parse: bool,
    pub show_alpha_conversion: bool,
    pub verbose_output: bool,
}

/// The word for a switch that is on or off.
pub open spec fn state_word(enabled: bool) -> Seq<char> {
    if enabled {
        "enabled"@
    } else {
        "disabled"@
    }
}

/// The sentence that reports a switch.
pub open spec fn switch_text(subject: Seq<char>, enabled: bool) -> Seq<char> {
    subject + " "@ + state_word(enabled) + "."@
}

/// The sentence that reports a switch.
fn switch_message(subject: &str, enabled: bool) -> (message: String)
    ensures
        message@ == switch_text(subject@, enabled),
{
    let mut message = String::from_str(subject);
    message.append(" ");
    if enabled {
        message.append("enabled");
    } else {
        message.append("disabled");
    }
    message.append(".");
    message
}

impl EvalOptions {
    /// Options that show the result only.
    pub fn new() -> (options: EvalOptions)
        ensures
            options == (EvalOptions {
                show_parse: false,
                show_alpha_conversion: false,
                verbose_output: false,
            }),
    {
        EvalOptions { show_parse: false, show_alpha_conversion: false, verbose_output: false }
    }

    /// Turns the display of the parsed expression on or off, and returns
    /// the sentence that says which.
    pub fn switch_parse(&mut self) -> (message: String)
        ensures
            *final(self) == (EvalOptions { show_parse: !old(self).show_parse, ..*old(self) }),
            message@ == switch_text("Show parsed expression"@, final(self).show_parse),
    {
        self.show_parse = !self.show_parse;
        switch_message("Show parsed expression", self.show_parse)
    }

    /// Turns the display of the alpha-converted expression on or off, and
    /// returns the sentence that says which.
    pub fn switch_alpha_conversion(&mut self) -> (message: String)
        ensures
            *final(self) == (EvalOptions {
                show_alpha_conversion: !old(self).show_alpha_conversion,
                ..*old(self)
            }),
            message@ == switch_text("Show alpha conversion"@, final(self).show_alpha_conversion),
    {
        self.show_alpha_conversion = !self.show_alpha_conversion;
        switch_message("Show alpha conversion", self.show_alpha_conversion)
    }

    /// Turns the stage titles on or off, and returns the sentence that
    /// says which.
    pub fn switch_verbose_output(&mut self) -> (message: String)
        ensures
            *final(self) == (EvalOptions {
                verbose_output: !old(self).verbose_output,
                ..*old(self)
            }),
            message@ == switch_text("Verbose output"@, final(self).verbose_output),
    {
        self.verbose_output = !self.verbose_output;
        switch_message("Verbose output", self.verbose_output)
    }
}

/// What an evaluation gives: the text to print, and the normal form or
/// the text of the error that stopped the evaluation.
#[derive(Debug, PartialEq)]
pub struct Report {
    pub transcript: String,
    pub result: Result<NormalExpressionNode, String>,
}

/// A report as a mathematical value.
pub struct Evaluated {
    pub transcript: Seq<char>,
    pub result: Result<Term, Seq<char>>,
}

impl View for Report {
    type V = Evaluated;

    open spec fn view(&self) -> Evaluated {
        Evaluated {
            transcript: self.transcript@,
            result: match self.result {
                Ok(node) => Ok(node@),
                Err(text) => Err(text@),
            },
        }
    }
}

/// The lines that show one stage of an evaluation: the title, where the
/// output is verbose, and the text after an arrow.
pub open spec fn stage(shown: bool, verbose: bool, title: Seq<char>, text: Seq<char>) -> Seq<char> {
    if shown {
        (if verbose {
            title + "\n"@
        } else {
            Seq::empty()
        }) + "=> "@ + text + "\n"@
    } else {
        Seq::empty()
    }
}

/// The text of the error for tokens that make no expression.
pub open spec fn parse_error_text() -> Seq<char> {
    "Unable to parse expression!"@
}

/// The evaluation of a line of source text: the text is split into
/// tokens and parsed, the tree is alpha-converted with fresh names from
/// `@x0` on, a snapshot of it is taken as a normal-form tree, and the
/// snapshot is reduced within the default depth limit. The transcript
/// holds the stages shown up to the result or the error.
pub open spec fn evaluated(source: Seq<char>, options: EvalOptions) -> Evaluated {
    let scan = scanned(source, 0);
    let parse = parsed_expression(scan.tokens, 0);
    if scan.failure is Some {
        Evaluated { transcript: Seq::empty(), result: Err(error_text(scan.failure->Some_0)) }
    } else if parse.tree is None {
        Evaluated { transcript: Seq::empty(), result: Err(parse_error_text()) }
    } else {
        let tree = parse.tree->Some_0;
        let parsed_stage = stage(
            options.show_parse,
            options.verbose_output,
            "Parsed \u{3bb}-expr :"@,
            rendered(tree),
        );
        let hygienic = converted(tree, renaming(Seq::empty()), 0);
        let alpha_stage = stage(
            options.show_alpha_conversion,
            options.verbose_output,
            "\u{3b1}-conversion :"@,
            rendered(hygienic),
        );
        match folded(hygienic) {
            Err(error) => Evaluated {
                transcript: parsed_stage + alpha_stage,
                result: Err(error.text()),
            },
            Ok(snapshot) => match reduced(snapshot, DEFAULT_DEPTH_LIMIT as nat) {
                Err(error) => Evaluated {
                    transcript: parsed_stage + alpha_stage,
                    result: Err(error.text()),
                },
                Ok(normal) => Evaluated {
                    transcript: parsed_stage + alpha_stage + stage(
                        true,
                        options.verbose_output,
                        "Normal Form (after \u{3b2}-reductions) :"@,
                        rendered(normal),
                    ),
                    result: Ok(normal),
                },
            },
        }
    }
}

/// Appends the lines that show one stage.
fn write_stage(transcript: &mut String, verbose: bool, title: &str, text: &String)
    ensures
        final(transcript)@ == old(transcript)@ + stage(true, verbose, title@, text@),
{
    if verbose {
        transcript.append(title);
        transcript.append("\n");
    }
    transcript.append("=> ");
    transcript.append(text.as_str());
    transcript.append("\n");
    assert(final(transcript)@ =~= old(transcript)@ + stage(true, verbose, title@, text@));
}

/// Evaluates a line of source text.
pub fn eval(lambda_expression: &String, options: &EvalOptions) -> (report: Report)
    ensures
        report@ == evaluated(lambda_expression@, *options),
{
    let mut transcript = String::new();
    let token_list = match Lexer::new(lambda_expression.clone()).scan() {
        Ok(token_list) => token_list,
        Err(text) => {
            return Report { transcript, result: Err(text) };
        },
    };
    let ghost tokens = placed(token_list@);
    assert(tokens.len() == token_list.len());
    let mut ast = match Parser::new(token_list).parse() {
        Ok(ast) => ast,
        Err(_) => {
            return Report {
                transcript,
                result: Err(String::from_str("Unable to parse expression!")),
            };
        },
    };
    let ghost tree = ast@;
    if options.show_parse {
        let text = pretty_print(&ast);
        write_stage(&mut transcript, options.verbose_output, "Parsed \u{3bb}-expr :", &text);
    }
    assert(transcript@ =~= stage(
        options.show_parse,
        options.verbose_output,
        "Parsed \u{3bb}-expr :"@,
        rendered(tree),
    ));
    proof {
        // There are fresh names for all the abstractions: each took a
        // token, and the tokens are a list in memory.
        lemma_expression_bounds(tokens, 0);
        assert(tree.binders() <= u64::MAX);
    }
    let _ = AlphaConverter::new().convert(&mut ast);
    let ghost parsed_stage = transcript@;
    if options.show_alpha_conversion {
        let text = pretty_print(&ast);
        write_stage(&mut transcript, options.verbose_output, "\u{3b1}-conversion :", &text);
    }
    assert(transcript@ =~= parsed_stage + stage(
        options.show_alpha_conversion,
        options.verbose_output,
        "\u{3b1}-conversion :"@,
        rendered(ast@),
    ));
    let normal_form = match to_normal_form(&ast) {
        Ok(normal_form) => normal_form,
        Err(error) => {
            return Report { transcript, result: Err(error.message()) };
        },
    };
    let mut beta_reducer = BetaReducer::new();
    let result = match beta_reducer.reduce(&normal_form) {
        Ok(result) => result,
        Err(error) => {
            return Report { transcript, result: Err(error.message()) };
        },
    };
    let text = pretty_print_normal(&result);
    write_stage(
        &mut transcript,
        options.verbose_output,
        "Normal Form (after \u{3b2}-reductions) :",
        &text,
    );
    Report { transcript, result: Ok(result) }
}

/// A command of the interactive session.
#[derive(Debug, Clone, Copy, PartialEq, Eq, Structural)]
pub enum Command {
    Quit,
    Multiline,
    Help,
    Reference,
    ShowParse,
    ShowAlpha,
    Verbose,
}

/// The command that a line gives, if the line is a command: each has a
/// long and a short form, and leaving has four.
pub open spec fn command_for(line: Seq<char>) -> Option<Command> {
    if line == ":exit"@ || line == ":quit"@ || line == ":q"@ || line == ":x"@ {
        Some(Command::Quit)
    } else if line == ":multiline"@ || line == ":m"@ {
        Some(Command::Multiline)
    } else if line == ":help"@ || line == ":h"@ {
        Some(Command::Help)
    } else if line == ":reference"@ || line == ":r"@ {
        Some(Command::Reference)
    } else if line == ":show-parse"@ || line == ":sp"@ {
        Some(Command::ShowParse)
    } else if line == ":show-alpha"@ || line == ":sa"@ {
        Some(Command::ShowAlpha)
    } else if line == ":verbose"@ || line == ":v"@ {
        Some(Command::Verbose)
    } else {
        None
    }
}

/// Whether a line is a given word.
fn is_word(line: &String, word: &str) -> (same: bool)
    ensures
        same == (line@ == word@),
{
    *line == String::from_str(word)
}

/// Recognises a command.
pub fn command_of(line: &String) -> (command: Option<Command>)
    ensures
        command == command_for(line@),
{
    if is_word(line, ":exit") || is_word(line, ":quit") || is_word(line, ":q") || is_word(
        line,
        ":x",
    ) {
        Some(Command::Quit)
    } else if is_word(line, ":multiline") || is_word(line, ":m") {
        Some(Command::Multiline)
    } else if is_word(line, ":help") || is_word(line, ":h") {
        Some(Command::Help)
    } else if is_word(line, ":reference") || is_word(line, ":r") {
        Some(Command::Reference)
    } else if is_word(line, ":show-parse") || is_word(line, ":sp") {
        Some(Command::ShowParse)
    } else if is_word(line, ":show-alpha") || is_word(line, ":sa") {
        Some(Command::ShowAlpha)
    } else if is_word(line, ":verbose") || is_word(line, ":v") {
        Some(Command::Verbose)
    } else {
        None
    }
}

/// The state of an interactive session: whether input runs over several
/// lines, the lines gathered so far, and the evaluation options.
#[derive(Debug, PartialEq)]
pub struct Repl {
    pub multiline: bool,
    pub expression: String,
    pub options: EvalOptions,
}

/// A session as a mathematical value.
pub struct ReplState {
    pub multiline: bool,
    pub expression: Seq<char>,
    pub options: EvalOptions,
}

impl View for Repl {
    type V = ReplState;

    open spec fn view(&self) -> ReplState {
        ReplState {
            multiline: self.multiline,
            expression: self.expression@,
            options: self.options,
        }
    }
}

/// What the host is to do after a line.
#[derive(Debug, PartialEq)]
pub enum Action {
    /// Say goodbye and stop.
    Quit,
    /// Print the help text.
    ShowHelp,
    /// Print the language reference.
    ShowReference,
    /// Print a line.
    Print(String),
    /// Remember the source text in the history and print the report of
    /// its evaluation.
    Evaluate(String, Report),
    /// Go on to the next line.
    Nothing,
}

/// An action as a mathematical value.
pub enum Step {
    Quit,
    ShowHelp,
    ShowReference,
    Print(Seq<char>),
    Evaluate(Seq<char>, Evaluated),
    Nothing,
}

impl View for Action {
    type V = Step;

    open spec fn view(&self) -> Step {
        match self {
            Action::Quit => Step::Quit,
            Action::ShowHelp => Step::ShowHelp,
            Action::ShowReference => Step::ShowReference,
            Action::Print(text) => Step::Print(text@),
            Action::Evaluate(source, report) => Step::Evaluate(source@, report@),
            Action::Nothing => Step::Nothing,
        }
    }
}

/// The session after a line, and what the host is to do.
///
/// A command is obeyed in either mode. Any other line is evaluated at
/// once in single-line mode. In multi-line mode it is joined to the lines
/// gathered so far, with nothing in between, and an empty line has the
/// gathered text evaluated and forgotten.
pub open spec fn reaction(state: ReplState, line: Seq<char>) -> (ReplState, Step) {
    match command_for(line) {
        Some(Command::Quit) => (state, Step::Quit),
        Some(Command::Multiline) => (
            ReplState { multiline: !state.multiline, ..state },
            Step::Print(switch_text("Multiline input"@, !state.multiline)),
        ),
        Some(Command::Help) => (state, Step::ShowHelp),
        Some(Command::Reference) => (state, Step::ShowReference),
        Some(Command::ShowParse) => (
            ReplState {
                options: EvalOptions { show_parse: !state.options.show_parse, ..state.options },
                ..state
            },
            Step::Print(switch_text("Show parsed expression"@, !state.options.show_parse)),
        ),
        Some(Command::ShowAlpha) => (
            ReplState {
                options: EvalOptions {
                    show_alpha_conversion: !state.options.show_alpha_conversion,
                    ..state.options
                },
                ..state
            },
            Step::Print(
                switch_text("Show alpha conversion"@, !state.options.show_alpha_conversion),
            ),
        ),
        Some(Command::Verbose) => (
            ReplState {
                options: EvalOptions {
                    verbose_output: !state.options.verbose_output,
                    ..state.options
                },
                ..state
            },
            Step::Print(switch_text("Verbose output"@, !state.options.verbose_output)),
        ),
        None => if !state.multiline {
            (state, Step::Evaluate(line, evaluated(line, state.options)))
        } else if line.len() == 0 {
            (
                ReplState { expression: Seq::empty(), ..state },
                Step::Evaluate(state.expression, evaluated(state.expression, state.options)),
            )
        } else {
            (ReplState { expression: state.expression + line, ..state }, Step::Nothing)
        },
    }
}

impl Repl {
    /// A session in single-line mode with nothing gathered and nothing
    /// but the result shown.
    pub fn new() -> (repl: Repl)
        ensures
            repl@ == (ReplState {
                multiline: false,
                expression: Seq::empty(),
                options: EvalOptions {
                    show_parse: false,
                    show_alpha_conversion: false,
                    verbose_output: false,
                },
            }),
    {
        Repl { multiline: false, expression: String::new(), options: EvalOptions::new() }
    }

    /// The prompt for the next line: another one while lines are being
    /// gathered.
    pub fn prompt(&self) -> (prompt: String)
        ensures
            prompt@ == if !self.multiline || self.expression@.len() == 0 {
                "\u{3bb}-expr >> "@
            } else {
                "+ > "@
            },
    {
        if !self.multiline || self.expression.as_str().is_empty() {
            String::from_str("\u{3bb}-expr >> ")
        } else {
            String::from_str("+ > ")
        }
    }

    /// Takes a line of input and says what the host is to do.
    pub fn react(&mut self, line: String) -> (action: Action)
        ensures
            (final(self)@, action@) == reaction(old(self)@, line@),
    {
        match command_of(&line) {
            Some(Command::Quit) => Action::Quit,
            Some(Command::Multiline) => {
                self.multiline = !self.multiline;
                Action::Print(switch_message("Multiline input", self.multiline))
            },
            Some(Command::Help) => Action::ShowHelp,
            Some(Command::Reference) => Action::ShowReference,
            Some(Command::ShowParse) => Action::Print(self.options.switch_parse()),
            Some(Command::ShowAlpha) => Action::Print(self.options.switch_alpha_conversion()),
            Some(Command::Verbose) => Action::Print(self.options.switch_verbose_output()),
            None => {
                if !self.multiline {
                    let report = eval(&line, &self.options);
                    Action::Evaluate(line, report)
                } else if line.as_str().is_empty() {
                    let report = eval(&self.expression, &self.options);
                    let source = self.expression.clone();
                    self.expression = String::new();
                    Action::Evaluate(source, report)
                } else {
                    self.expression.append(line.as_str());
                    Action::Nothing
                }
            },
        }
    }
}

} // verus!
