//! Parsing: from a list of tokens to a syntax tree.
//!
//! ```text
//! Expression := Variable
//!             | Constant
//!             | '\' Variable '.' Expression
//!             | '(' Expression ')'
//!             | Expression Expression
//!             | Expression BinaryOperator Expression
//!             | 'let' Variable '=' Expression 'in' Expression
//! ```
//!
//! Application and arithmetic associate to the left and have the same
//! precedence, except that an operator between two operands that are
//! each a name or a number binds them first.

use vstd::prelude::*;
use crate::ast::{
    AbstractionNode,
    ApplicationNode,
    ArithmeticNode,
    ConstantNode,
    ExpressionNode,
    LetNode,
    VariableNode,
};
use crate::lexer::{placed, Lexeme, Placed, Symbol, Token};
use crate::term::Term;

verus! {

/// How an attempt to parse ends: the tree, if there is one, and the
/// number of tokens that the attempt took, which need not be zero where
/// it failed.
pub struct Parsed {
    pub tree: Option<Term>,
    pub consumed: nat,
}

/// A parse that comes after `consumed` tokens were taken.
pub open spec fn then(consumed: nat, rest: Parsed) -> Parsed {
    Parsed { tree: rest.tree, consumed: consumed + rest.consumed }
}

/// The symbol at a position, if the position is within the tokens.
pub open spec fn symbol_at(tokens: Seq<Placed>, position: nat) -> Option<Symbol> {
    if position < tokens.len() {
        Some(tokens[position as int].symbol)
    } else {
        None
    }
}

/// The number of tokens from a position on.
pub open spec fn remaining(tokens: Seq<Placed>, position: nat) -> nat {
    if position <= tokens.len() {
        (tokens.len() - position) as nat
    } else {
        0
    }
}

/// Whether two symbols are of one kind: both identifiers, both integers,
/// both operators, or the same keyword or punctuation mark.
pub open spec fn same_kind(found: Symbol, wanted: Symbol) -> bool {
    match (found, wanted) {
        (Symbol::Identifier(_), Symbol::Identifier(_)) => true,
        (Symbol::Integer(_), Symbol::Integer(_)) => true,
        (Symbol::BinaryOperator(_), Symbol::BinaryOperator(_)) => true,
        _ => found == wanted,
    }
}

/// A variable: one identifier.
pub open spec fn parsed_variable(tokens: Seq<Placed>, position: nat) -> Parsed {
    match symbol_at(tokens, position) {
        Some(Symbol::Identifier(name)) => Parsed { tree: Some(Term::Variable(name)), consumed: 1 },
        _ => Parsed { tree: None, consumed: 0 },
    }
}

/// A constant: one integer.
pub open spec fn parsed_constant(tokens: Seq<Placed>, position: nat) -> Parsed {
    match symbol_at(tokens, position) {
        Some(Symbol::Integer(value)) => Parsed { tree: Some(Term::Constant(value)), consumed: 1 },
        _ => Parsed { tree: None, consumed: 0 },
    }
}

/// An operand: a variable or a constant.
pub open spec fn parsed_operand(tokens: Seq<Placed>, position: nat) -> Parsed {
    match symbol_at(tokens, position) {
        Some(Symbol::Identifier(_)) => parsed_variable(tokens, position),
        Some(Symbol::Integer(_)) => parsed_constant(tokens, position),
        _ => Parsed { tree: None, consumed: 0 },
    }
}

/// An operand, or an operation on two operands. An operator after the
/// first operand must be followed by a second: otherwise the parse fails
/// with the operand and the operator taken.
pub open spec fn parsed_arithmetic(tokens: Seq<Placed>, position: nat) -> Parsed {
    let left = parsed_operand(tokens, position);
    match (left.tree, symbol_at(tokens, position + 1)) {
        (Some(left_tree), Some(Symbol::BinaryOperator(operator))) => {
            match parsed_operand(tokens, position + 2).tree {
                Some(right_tree) => Parsed {
                    tree: Some(
                        Term::Arithmetic(Box::new(left_tree), operator, Box::new(right_tree)),
                    ),
                    consumed: 3,
                },
                None => Parsed { tree: None, consumed: 2 },
            }
        },
        _ => left,
    }
}

/// An expression: a single expression, and then whatever continues it.
pub open spec fn parsed_expression(tokens: Seq<Placed>, position: nat) -> Parsed
    decreases remaining(tokens, position), 4nat,
{
    let first = parsed_single(tokens, position);
    match first.tree {
        Some(left) => if position < tokens.len() && first.consumed > 0 {
            then(first.consumed, parsed_tail(tokens, position + first.consumed, left))
        } else {
            first
        },
        None => first,
    }
}

/// What continues the expression `left`: as long as a single expression
/// follows, `left` is applied to it; as long as an operator and a single
/// expression follow, they make an operation on `left`. The attempt on
/// the operator starts where the attempt on the single expression
/// stopped. A successful attempt takes at least one token, so the
/// branches for one that took none are never reached.
pub open spec fn parsed_tail(tokens: Seq<Placed>, position: nat, left: Term) -> Parsed
    decreases remaining(tokens, position), 3nat,
{
    if position >= tokens.len() {
        Parsed { tree: Some(left), consumed: 0 }
    } else {
        let next = parsed_single(tokens, position);
        match next.tree {
            Some(right) => if next.consumed > 0 {
                then(
                    next.consumed,
                    parsed_tail(
                        tokens,
                        position + next.consumed,
                        Term::Application(Box::new(left), Box::new(right)),
                    ),
                )
            } else {
                next
            },
            None => {
                let operation = parsed_binary(tokens, position + next.consumed, left);
                match operation.tree {
                    Some(tree) => if operation.consumed > 0 {
                        then(
                            next.consumed + operation.consumed,
                            parsed_tail(
                                tokens,
                                position + next.consumed + operation.consumed,
                                tree,
                            ),
                        )
                    } else {
                        operation
                    },
                    None => Parsed {
                        tree: Some(left),
                        consumed: next.consumed + operation.consumed,
                    },
                }
            },
        }
    }
}

/// An operator and a single expression, as an operation on `left`.
pub open spec fn parsed_binary(tokens: Seq<Placed>, position: nat, left: Term) -> Parsed
    decreases remaining(tokens, position), 2nat,
{
    match symbol_at(tokens, position) {
        Some(Symbol::BinaryOperator(operator)) => {
            let right = parsed_single(tokens, position + 1);
            match right.tree {
                Some(right_tree) => Parsed {
                    tree: Some(Term::Arithmetic(Box::new(left), operator, Box::new(right_tree))),
                    consumed: 1 + right.consumed,
                },
                None => then(1, right),
            }
        },
        _ => Parsed { tree: None, consumed: 0 },
    }
}

/// A single expression, by its first token: an abstraction, an
/// expression in parentheses, a `let`, or an operand with what
/// [`parsed_arithmetic`] joins to it.
pub open spec fn parsed_single(tokens: Seq<Placed>, position: nat) -> Parsed
    decreases remaining(tokens, position), 1nat,
{
    match symbol_at(tokens, position) {
        Some(Symbol::Lambda) => parsed_abstraction(tokens, position),
        Some(Symbol::LeftParen) => parsed_subexpression(tokens, position),
        Some(Symbol::Let) => parsed_let(tokens, position),
        Some(Symbol::Identifier(_)) => parsed_arithmetic(tokens, position),
        Some(Symbol::Integer(_)) => parsed_arithmetic(tokens, position),
        _ => Parsed { tree: None, consumed: 0 },
    }
}

/// `\ variable . expression`
pub open spec fn parsed_abstraction(tokens: Seq<Placed>, position: nat) -> Parsed
    decreases remaining(tokens, position), 0nat,
{
    if symbol_at(tokens, position) != Some(Symbol::Lambda) {
        Parsed { tree: None, consumed: 0 }
    } else {
        match parsed_variable(tokens, position + 1).tree {
            None => Parsed { tree: None, consumed: 1 },
            Some(variable) => if symbol_at(tokens, position + 2) != Some(Symbol::Dot) {
                Parsed { tree: None, consumed: 2 }
            } else {
                let body = parsed_expression(tokens, position + 3);
                match body.tree {
                    Some(body_tree) => Parsed {
                        tree: Some(Term::Abstraction(variable->Variable_0, Box::new(body_tree))),
                        consumed: 3 + body.consumed,
                    },
                    None => then(3, body),
                }
            },
        }
    }
}

/// `( expression )`
pub open spec fn parsed_subexpression(tokens: Seq<Placed>, position: nat) -> Parsed
    decreases remaining(tokens, position), 0nat,
{
    if symbol_at(tokens, position) != Some(Symbol::LeftParen) {
        Parsed { tree: None, consumed: 0 }
    } else {
        let inner = parsed_expression(tokens, position + 1);
        match inner.tree {
            Some(_) => if symbol_at(tokens, position + 1 + inner.consumed) == Some(
                Symbol::RightParen,
            ) {
                Parsed { tree: inner.tree, consumed: inner.consumed + 2 }
            } else {
                Parsed { tree: None, consumed: 1 + inner.consumed }
            },
            None => then(1, inner),
        }
    }
}

/// `let variable = expression in scope`
pub open spec fn parsed_let(tokens: Seq<Placed>, position: nat) -> Parsed
    decreases remaining(tokens, position), 0nat,
{
    if symbol_at(tokens, position) != Some(Symbol::Let) {
        Parsed { tree: None, consumed: 0 }
    } else {
        match parsed_variable(tokens, position + 1).tree {
            None => Parsed { tree: None, consumed: 1 },
            Some(variable) => if symbol_at(tokens, position + 2) != Some(Symbol::Equals) {
                Parsed { tree: None, consumed: 2 }
            } else {
                let expression = parsed_expression(tokens, position + 3);
                match expression.tree {
                    None => then(3, expression),
                    Some(expression_tree) => {
                        let reached = position + 3 + expression.consumed;
                        if symbol_at(tokens, reached) != Some(Symbol::In) {
                            Parsed { tree: None, consumed: 3 + expression.consumed }
                        } else {
                            let scope = parsed_expression(tokens, reached + 1);
                            match scope.tree {
                                Some(scope_tree) => Parsed {
                                    tree: Some(
                                        Term::Let(
                                            variable->Variable_0,
                                            Box::new(expression_tree),
                                            Box::new(scope_tree),
                                        ),
                                    ),
                                    consumed: 4 + expression.consumed + scope.consumed,
                                },
                                None => then(4 + expression.consumed, scope),
                            }
                        }
                    },
                }
            },
        }
    }
}

/// An expression takes no more tokens than there are, at least one where
/// it parses, and at least one for each abstraction in its tree.
pub proof fn lemma_expression_bounds(tokens: Seq<Placed>, position: nat)
    ensures
        parsed_expression(tokens, position).consumed <= remaining(tokens, position),
        parsed_expression(tokens, position).tree matches Some(tree) ==> 0 < parsed_expression(
            tokens,
            position,
        ).consumed && tree.binders() <= parsed_expression(tokens, position).consumed,
    decreases remaining(tokens, position), 4nat,
{
    lemma_single_bounds(tokens, position);
    let first = parsed_single(tokens, position);
    if let Some(left) = first.tree {
        lemma_tail_bounds(tokens, position + first.consumed, left);
    }
}

/// What continues an expression takes no more tokens than there are, and
/// at least one for each abstraction that it adds to the tree.
pub proof fn lemma_tail_bounds(tokens: Seq<Placed>, position: nat, left: Term)
    ensures
        parsed_tail(tokens, position, left).consumed <= remaining(tokens, position),
        parsed_tail(tokens, position, left).tree matches Some(tree) ==> tree.binders()
            <= left.binders() + parsed_tail(tokens, position, left).consumed,
    decreases remaining(tokens, position), 3nat,
{
    if position < tokens.len() {
        lemma_single_bounds(tokens, position);
        let next = parsed_single(tokens, position);
        match next.tree {
            Some(right) => {
                lemma_tail_bounds(
                    tokens,
                    position + next.consumed,
                    Term::Application(Box::new(left), Box::new(right)),
                );
            },
            None => {
                lemma_binary_bounds(tokens, position + next.consumed, left);
                let operation = parsed_binary(tokens, position + next.consumed, left);
                if let Some(tree) = operation.tree {
                    lemma_tail_bounds(
                        tokens,
                        position + next.consumed + operation.consumed,
                        tree,
                    );
                }
            },
        }
    }
}

/// An operation on `left` takes no more tokens than there are, at least
/// one where it parses, and at least one for each abstraction that it
/// adds to the tree.
pub proof fn lemma_binary_bounds(tokens: Seq<Placed>, position: nat, left: Term)
    ensures
        parsed_binary(tokens, position, left).consumed <= remaining(tokens, position),
        parsed_binary(tokens, position, left).tree matches Some(tree) ==> 0 < parsed_binary(
            tokens,
            position,
            left,
        ).consumed && tree.binders() <= left.binders() + parsed_binary(
            tokens,
            position,
            left,
        ).consumed,
    decreases remaining(tokens, position), 2nat,
{
    if symbol_at(tokens, position) matches Some(Symbol::BinaryOperator(_)) {
        lemma_single_bounds(tokens, position + 1);
    }
}

/// A single expression takes no more tokens than there are, at least one
/// where it parses, and at least one for each abstraction in its tree.
pub proof fn lemma_single_bounds(tokens: Seq<Placed>, position: nat)
    ensures
        parsed_single(tokens, position).consumed <= remaining(tokens, position),
        parsed_single(tokens, position).tree matches Some(tree) ==> 0 < parsed_single(
            tokens,
            position,
        ).consumed && tree.binders() <= parsed_single(tokens, position).consumed,
    decreases remaining(tokens, position), 1nat,
{
    match symbol_at(tokens, position) {
        Some(Symbol::Lambda) => {
            if parsed_variable(tokens, position + 1).tree is Some && symbol_at(
                tokens,
                position + 2,
            ) == Some(Symbol::Dot) {
                lemma_expression_bounds(tokens, position + 3);
            }
        },
        Some(Symbol::LeftParen) => {
            lemma_expression_bounds(tokens, position + 1);
        },
        Some(Symbol::Let) => {
            if parsed_variable(tokens, position + 1).tree is Some && symbol_at(
                tokens,
                position + 2,
            ) == Some(Symbol::Equals) {
                lemma_expression_bounds(tokens, position + 3);
                let expression = parsed_expression(tokens, position + 3);
                let reached = position + 3 + expression.consumed;
                if expression.tree is Some && symbol_at(tokens, reached) == Some(Symbol::In) {
                    lemma_expression_bounds(tokens, reached + 1);
                }
            }
        },
        _ => {
            let left = parsed_operand(tokens, position);
            let right = parsed_operand(tokens, position + 2);
            assert(left.tree matches Some(tree) ==> tree.binders() == 0);
            assert(right.tree matches Some(tree) ==> tree.binders() == 0);
        },
    }
}

/// The view of an optional tree.
pub open spec fn tree_of(result: Option<ExpressionNode>) -> Option<Term> {
    match result {
        Some(node) => Some(node@),
        None => None,
    }
}

/// What a parser holds: the tokens and the position of the next one.
pub struct ParserState {
    pub tokens: Seq<Placed>,
    pub position: nat,
}

/// Whether a parser that went from `before` to `after` and returned
/// `result` did what `expected` says: it kept its tokens, moved on by the
/// tokens taken, and returned the tree.
pub open spec fn parses(
    before: ParserState,
    after: ParserState,
    result: Option<ExpressionNode>,
    expected: Parsed,
) -> bool {
    &&& after.tokens == before.tokens
    &&& after.position == before.position + expected.consumed
    &&& tree_of(result) == expected.tree
}

/// Builds a syntax tree from a list of tokens.
pub struct Parser {
    token_list: Vec<Token>,
    position: usize,
}

impl View for Parser {
    type V = ParserState;

    closed spec fn view(&self) -> ParserState {
        ParserState { tokens: placed(self.token_list@), position: self.position as nat }
    }
}

/// Whether two lexemes are of one kind.
fn kind_matches(found: &Lexeme, wanted: &Lexeme) -> (matches: bool)
    ensures
        matches == same_kind(found@, wanted@),
{
    match (found, wanted) {
        (Lexeme::Identifier(_), Lexeme::Identifier(_)) => true,
        (Lexeme::Integer(_), Lexeme::Integer(_)) => true,
        (Lexeme::BinaryOperator(_), Lexeme::BinaryOperator(_)) => true,
        (Lexeme::Let, Lexeme::Let) => true,
        (Lexeme::In, Lexeme::In) => true,
        (Lexeme::Equals, Lexeme::Equals) => true,
        (Lexeme::Lambda, Lexeme::Lambda) => true,
        (Lexeme::Dot, Lexeme::Dot) => true,
        (Lexeme::LeftParen, Lexeme::LeftParen) => true,
        (Lexeme::RightParen, Lexeme::RightParen) => true,
        (Lexeme::Comma, Lexeme::Comma) => true,
        _ => false,
    }
}

impl Parser {
    /// A parser at the start of `token_list`.
    pub fn new(token_list: Vec<Token>) -> (parser: Parser)
        ensures
            parser@ == (ParserState { tokens: placed(token_list@), position: 0 }),
    {
        Parser { token_list, position: 0 }
    }

    fn position(&self) -> (position: usize)
        ensures
            position == self@.position,
    {
        self.position
    }

    /// The token at the position, and a step past it.
    fn next(&mut self) -> (token: Option<Token>)
        requires
            old(self)@.position < usize::MAX,
        ensures
            final(self)@ == (ParserState {
                tokens: old(self)@.tokens,
                position: old(self)@.position + 1,
            }),
            match token {
                Some(token) => old(self)@.position < old(self)@.tokens.len() && token@ == old(
                    self,
                )@.tokens[old(self)@.position as int],
                None => old(self)@.position >= old(self)@.tokens.len(),
            },
    {
        let token = self.peek();
        self.position += 1;
        token
    }

    /// The token at the position, if there is one left.
    fn peek(&self) -> (token: Option<Token>)
        ensures
            match token {
                Some(token) => self@.position < self@.tokens.len() && token@
                    == self@.tokens[self@.position as int],
                None => self@.position >= self@.tokens.len(),
            },
    {
        if self.position() >= self.token_list.len() {
            return None;
        }
        Some(self.token_list[self.position].clone())
    }

    /// Takes the token at the position if it is of the kind of
    /// `token_kind`, and leaves it otherwise.
    fn expect(&mut self, token_kind: Lexeme) -> (token: Option<Token>)
        ensures
            final(self)@.tokens == old(self)@.tokens,
            match token {
                Some(token) => {
                    &&& old(self)@.position < old(self)@.tokens.len()
                    &&& token@ == old(self)@.tokens[old(self)@.position as int]
                    &&& same_kind(token@.symbol, token_kind@)
                    &&& final(self)@.position == old(self)@.position + 1
                },
                None => {
                    &&& symbol_at(old(self)@.tokens, old(self)@.position) matches Some(symbol)
                        ==> !same_kind(symbol, token_kind@)
                    &&& final(self)@.position == old(self)@.position
                },
            },
    {
        let token = self.peek()?.token_type;
        assert(self.position < self.token_list.len());
        if kind_matches(&token, &token_kind) {
            self.next()
        } else {
            None
        }
    }

    /// Parses the tokens from the position on as one expression, and
    /// leaves the position after the last token taken. Tokens that
    /// continue no expression are left where they are.
    pub fn parse(&mut self) -> (result: Result<ExpressionNode, ()>)
        ensures
            final(self)@ == (ParserState {
                tokens: old(self)@.tokens,
                position: old(self)@.position + parsed_expression(
                    old(self)@.tokens,
                    old(self)@.position,
                ).consumed,
            }),
            match result {
                Ok(tree) => parsed_expression(old(self)@.tokens, old(self)@.position).tree == Some(
                    tree@,
                ),
                Err(_) => parsed_expression(old(self)@.tokens, old(self)@.position).tree is None,
            },
    {
        match self.parse_expression() {
            Some(node) => Ok(node),
            None => Err(()),
        }
    }

    fn parse_expression(&mut self) -> (result: Option<ExpressionNode>)
        ensures
            parses(
                old(self)@,
                final(self)@,
                result,
                parsed_expression(old(self)@.tokens, old(self)@.position),
            ),
        decreases remaining(old(self)@.tokens, old(self)@.position), 4nat,
    {
        let ghost tokens = self@.tokens;
        let ghost start = self@.position;
        proof {
            lemma_single_bounds(tokens, start);
        }
        let mut left = self.parse_single_expression()?;
        loop
            invariant_except_break
                then(
                    (self@.position - start) as nat,
                    parsed_tail(tokens, self@.position, left@),
                ) == parsed_expression(tokens, start),
            invariant
                tokens == old(self)@.tokens,
                start == old(self)@.position,
                self@.tokens == tokens,
                start <= self@.position,
            ensures
                self@.position == start + parsed_expression(tokens, start).consumed,
                parsed_expression(tokens, start).tree == Some(left@),
            decreases remaining(tokens, self@.position),
        {
            proof {
                lemma_single_bounds(tokens, self@.position);
            }
            if let Some(right) = self.parse_single_expression() {
                left =
                ExpressionNode::Application(
                    ApplicationNode { function: Box::new(left), argument: Box::new(right) },
                );
            } else if let Some(arithmetic) = self.parse_binary_operation(left.clone()) {
                left = arithmetic;
            } else {
                break ;
            }
        }
        Some(left)
    }

    fn parse_let_expression(&mut self) -> (result: Option<ExpressionNode>)
        ensures
            parses(
                old(self)@,
                final(self)@,
                result,
                parsed_let(old(self)@.tokens, old(self)@.position),
            ),
        decreases remaining(old(self)@.tokens, old(self)@.position), 0nat,
    {
        let _ = self.expect(Lexeme::Let)?;
        let variable = match self.parse_variable()? {
            ExpressionNode::Variable(variable) => variable,
            _ => {
                return None;
            },
        };
        let _ = self.expect(Lexeme::Equals)?;
        let expression = self.parse_expression()?;
        let _ = self.expect(Lexeme::In)?;
        let scope = self.parse_expression()?;
        Some(
            ExpressionNode::Let(
                LetNode { variable, expression: Box::new(expression), scope: Box::new(scope) },
            ),
        )
    }

    fn parse_single_expression(&mut self) -> (result: Option<ExpressionNode>)
        ensures
            parses(
                old(self)@,
                final(self)@,
                result,
                parsed_single(old(self)@.tokens, old(self)@.position),
            ),
        decreases remaining(old(self)@.tokens, old(self)@.position), 1nat,
    {
        let token = self.peek()?;
        match token.token_type {
            Lexeme::Lambda => self.parse_abstraction(),
            Lexeme::LeftParen => self.parse_subexpression(),
            Lexeme::Let => self.parse_let_expression(),
            Lexeme::Identifier(_) => self.parse_arithmetic(),
            Lexeme::Integer(_) => self.parse_arithmetic(),
            _ => None,
        }
    }

    fn parse_subexpression(&mut self) -> (result: Option<ExpressionNode>)
        ensures
            parses(
                old(self)@,
                final(self)@,
                result,
                parsed_subexpression(old(self)@.tokens, old(self)@.position),
            ),
        decreases remaining(old(self)@.tokens, old(self)@.position), 0nat,
    {
        let _ = self.expect(Lexeme::LeftParen)?;
        let expression = self.parse_expression()?;
        let _ = self.expect(Lexeme::RightParen)?;
        Some(expression)
    }

    fn parse_abstraction(&mut self) -> (result: Option<ExpressionNode>)
        ensures
            parses(
                old(self)@,
                final(self)@,
                result,
                parsed_abstraction(old(self)@.tokens, old(self)@.position),
            ),
        decreases remaining(old(self)@.tokens, old(self)@.position), 0nat,
    {
        let _ = self.expect(Lexeme::Lambda)?;
        let variable = match self.parse_variable()? {
            ExpressionNode::Variable(variable) => variable,
            _ => {
                return None;
            },
        };
        let _ = self.expect(Lexeme::Dot)?;
        let expression = self.parse_expression()?;
        Some(
            ExpressionNode::Abstraction(
                AbstractionNode { parameter: variable, body: Box::new(expression) },
            ),
        )
    }

    fn parse_binary_operation(&mut self, left: ExpressionNode) -> (result: Option<ExpressionNode>)
        ensures
            parses(
                old(self)@,
                final(self)@,
                result,
                parsed_binary(old(self)@.tokens, old(self)@.position, left@),
            ),
        decreases remaining(old(self)@.tokens, old(self)@.position), 2nat,
    {
        let operator = self.expect(Lexeme::BinaryOperator(String::new()))?;
        if let Lexeme::BinaryOperator(value) = operator.token_type {
            let right = self.parse_single_expression()?;
            Some(
                ExpressionNode::Arithmetic(
                    ArithmeticNode { operator: value, left: Box::new(left), right: Box::new(right) },
                ),
            )
        } else {
            None
        }
    }

    fn parse_operand(&mut self) -> (result: Option<ExpressionNode>)
        ensures
            parses(
                old(self)@,
                final(self)@,
                result,
                parsed_operand(old(self)@.tokens, old(self)@.position),
            ),
    {
        match self.peek()?.token_type {
            Lexeme::Identifier(_) => self.parse_variable(),
            Lexeme::Integer(_) => self.parse_constant(),
            _ => None,
        }
    }

    fn parse_arithmetic(&mut self) -> (result: Option<ExpressionNode>)
        ensures
            parses(
                old(self)@,
                final(self)@,
                result,
                parsed_arithmetic(old(self)@.tokens, old(self)@.position),
            ),
    {
        let left = self.parse_operand()?;
        if let Some(operator) = self.expect(Lexeme::BinaryOperator(String::new())) {
            match operator.token_type {
                Lexeme::BinaryOperator(value) => {
                    let right = self.parse_operand()?;
                    return Some(
                        ExpressionNode::Arithmetic(
                            ArithmeticNode {
                                operator: value,
                                left: Box::new(left),
                                right: Box::new(right),
                            },
                        ),
                    );
                },
                _ => {
                    return None;
                },
            }
        }
        Some(left)
    }

    fn parse_variable(&mut self) -> (result: Option<ExpressionNode>)
        ensures
            parses(
                old(self)@,
                final(self)@,
                result,
                parsed_variable(old(self)@.tokens, old(self)@.position),
            ),
    {
        if let Some(identifier) = self.expect(Lexeme::Identifier(String::new())) {
            if let Lexeme::Identifier(value) = identifier.token_type {
                Some(ExpressionNode::Variable(VariableNode { name: value }))
            } else {
                None
            }
        } else {
            None
        }
    }

    fn parse_constant(&mut self) -> (result: Option<ExpressionNode>)
        ensures
            parses(
                old(self)@,
                final(self)@,
                result,
                parsed_constant(old(self)@.tokens, old(self)@.position),
            ),
    {
        if let Some(integer) = self.expect(Lexeme::Integer(0)) {
            if let Lexeme::Integer(value) = integer.token_type {
                Some(ExpressionNode::Constant(ConstantNode { value }))
            } else {
                None
            }
        } else {
            None
        }
    }
}

} // verus!
