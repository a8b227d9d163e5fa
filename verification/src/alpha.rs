//! Alpha-conversion: every abstraction gets a parameter name of its own.

use vstd::prelude::*;
use vstd::string::StringExecFns;
use crate::ast::{
    AbstractionNode,
    ApplicationNode,
    ArithmeticNode,
    ConstantNode,
    ExpressionNode,
    LetNode,
    SyntaxTreeVisitor,
    VariableNode,
};
use crate::decimal::{decimal, push_decimal};
use crate::term::Term;

verus! {

/// The fresh name with the given index: `@x` and the index in decimal.
pub open spec fn fresh_name(index: nat) -> Seq<char> {
    seq!['@', 'x'] + decimal(index)
}

/// What a converter holds: the bindings in force, outermost first, each a
/// source name with the fresh name that stands for it, and the index of
/// the next fresh name. The bindings of one source name are its stack.
pub struct Scopes {
    pub bindings: Seq<(Seq<char>, Seq<char>)>,
    pub counter: nat,
}

/// The position of the innermost binding of `name`, if it is bound.
pub open spec fn innermost(bindings: Seq<(Seq<char>, Seq<char>)>, name: Seq<char>) -> Option<int>
    decreases bindings.len(),
{
    if bindings.len() == 0 {
        None
    } else if bindings.last().0 == name {
        Some(bindings.len() - 1)
    } else {
        innermost(bindings.drop_last(), name)
    }
}

/// The stack of a source name: the fresh names bound to it, the innermost
/// last.
pub open spec fn stack(bindings: Seq<(Seq<char>, Seq<char>)>, name: Seq<char>) -> Seq<Seq<char>>
    decreases bindings.len(),
{
    if bindings.len() == 0 {
        Seq::empty()
    } else if bindings.last().0 == name {
        stack(bindings.drop_last(), name).push(bindings.last().1)
    } else {
        stack(bindings.drop_last(), name)
    }
}

/// The renaming that the bindings stand for: each bound source name with
/// the fresh name of its innermost binding.
pub open spec fn renaming(bindings: Seq<(Seq<char>, Seq<char>)>) -> Map<Seq<char>, Seq<char>> {
    Map::new(
        |name: Seq<char>| innermost(bindings, name) is Some,
        |name: Seq<char>| bindings[innermost(bindings, name)->Some_0].1,
    )
}

/// The name that stands for `name` under a renaming: its image where it
/// is bound, the name itself where it is free.
pub open spec fn renamed(renaming: Map<Seq<char>, Seq<char>>, name: Seq<char>) -> Seq<char> {
    if renaming.dom().contains(name) {
        renaming[name]
    } else {
        name
    }
}

/// The term after alpha-conversion under `renaming`, with fresh names
/// drawn from `counter` on.
///
/// Each abstraction takes the next fresh name for its parameter, and the
/// occurrences of the parameter in its body follow. The walk is depth
/// first and left to right, so what lies to the right of a subterm draws
/// its names after all the abstractions of that subterm. A `let` binds
/// nothing here: its variable is renamed like any other occurrence.
pub open spec fn converted(term: Term, renaming: Map<Seq<char>, Seq<char>>, counter: nat) -> Term
    decreases term,
{
    match term {
        Term::Variable(name) => Term::Variable(renamed(renaming, name)),
        Term::Constant(_) => term,
        Term::Abstraction(parameter, body) => Term::Abstraction(
            fresh_name(counter),
            Box::new(converted(*body, renaming.insert(parameter, fresh_name(counter)), counter + 1)),
        ),
        Term::Application(function, argument) => Term::Application(
            Box::new(converted(*function, renaming, counter)),
            Box::new(converted(*argument, renaming, counter + function.binders())),
        ),
        Term::Arithmetic(left, operator, right) => Term::Arithmetic(
            Box::new(converted(*left, renaming, counter)),
            operator,
            Box::new(converted(*right, renaming, counter + left.binders())),
        ),
        Term::Let(variable, expression, scope) => Term::Let(
            renamed(renaming, variable),
            Box::new(converted(*expression, renaming, counter)),
            Box::new(converted(*scope, renaming, counter + expression.binders())),
        ),
    }
}

/// A source name with the fresh name bound to it.
struct Binding {
    source: String,
    fresh: String,
}

/// Renames the bound variables of a syntax tree to fresh names.
pub struct AlphaConverter {
    scopes: Vec<Binding>,
    counter: u64,
}

impl View for AlphaConverter {
    type V = Scopes;

    closed spec fn view(&self) -> Scopes {
        Scopes {
            bindings: Seq::new(
                self.scopes.len() as nat,
                |i: int| (self.scopes[i].source@, self.scopes[i].fresh@),
            ),
            counter: self.counter as nat,
        }
    }
}

impl AlphaConverter {
    /// A converter with nothing bound, whose first fresh name is `@x0`.
    pub fn new() -> (converter: AlphaConverter)
        ensures
            converter@ == (Scopes { bindings: Seq::empty(), counter: 0 }),
    {
        let converter = AlphaConverter { scopes: Vec::new(), counter: 0 };
        assert(converter@.bindings =~= Seq::empty());
        converter
    }

    /// The position of the innermost binding of `name`.
    fn find(&self, name: &String) -> (position: Option<usize>)
        ensures
            match position {
                Some(index) => index < self.scopes.len() && innermost(self@.bindings, name@)
                    == Some(index as int),
                None => innermost(self@.bindings, name@) is None,
            },
    {
        let mut index = self.scopes.len();
        assert(self@.bindings.take(index as int) =~= self@.bindings);
        while index > 0
            invariant
                index <= self.scopes.len(),
                innermost(self@.bindings, name@) == innermost(
                    self@.bindings.take(index as int),
                    name@,
                ),
            decreases index,
        {
            index -= 1;
            proof {
                let front = self@.bindings.take(index + 1);
                assert(front.last() == self@.bindings[index as int]);
                assert(front.drop_last() =~= self@.bindings.take(index as int));
            }
            if self.scopes[index].source == *name {
                return Some(index);
            }
        }
        None
    }

    /// The fresh name that stands for `name`: that of its innermost
    /// binding.
    pub fn rename(&mut self, name: &String) -> (fresh: String)
        requires
            stack(old(self)@.bindings, name@).len() > 0,
        ensures
            fresh@ == stack(old(self)@.bindings, name@).last(),
            fresh@ == renaming(old(self)@.bindings)[name@],
            *final(self) == *old(self),
    {
        proof {
            lemma_stack_top(self@.bindings, name@);
        }
        match self.find(name) {
            Some(index) => self.scopes[index].fresh.clone(),
            None => String::new(),
        }
    }

    /// Whether `name` has a binding in force.
    pub fn is_bound(&self, name: &String) -> (bound: bool)
        ensures
            bound == (stack(self@.bindings, name@).len() > 0),
            bound == (innermost(self@.bindings, name@) is Some),
    {
        proof {
            lemma_stack_top(self@.bindings, name@);
        }
        self.find(name).is_some()
    }

    /// Binds `name` to the next fresh name, on top of its earlier
    /// bindings.
    pub fn bind(&mut self, name: &String)
        requires
            old(self)@.counter < u64::MAX,
        ensures
            final(self)@ == (Scopes {
                bindings: old(self)@.bindings.push((name@, fresh_name(old(self)@.counter))),
                counter: old(self)@.counter + 1,
            }),
            stack(final(self)@.bindings, name@) == stack(old(self)@.bindings, name@).push(
                fresh_name(old(self)@.counter),
            ),
            forall|other: Seq<char>|
                other != name@ ==> #[trigger] stack(final(self)@.bindings, other) == stack(
                    old(self)@.bindings,
                    other,
                ),
    {
        let fresh = self.generate();
        self.scopes.push(Binding { source: name.clone(), fresh });
        assert(final(self)@.bindings =~= old(self)@.bindings.push(
            (name@, fresh_name(old(self)@.counter)),
        ));
        proof {
            assert forall|other: Seq<char>|
                #[trigger] stack(final(self)@.bindings, other) == if other == name@ {
                    stack(old(self)@.bindings, other).push(fresh_name(old(self)@.counter))
                } else {
                    stack(old(self)@.bindings, other)
                } by {
                lemma_stack_push(
                    old(self)@.bindings,
                    name@,
                    fresh_name(old(self)@.counter),
                    other,
                );
            }
        }
    }

    /// Takes away the innermost binding of `name`.
    pub fn release(&mut self, name: &String)
        requires
            stack(old(self)@.bindings, name@).len() > 0,
        ensures
            final(self)@ == (Scopes {
                bindings: old(self)@.bindings.remove(
                    innermost(old(self)@.bindings, name@)->Some_0,
                ),
                counter: old(self)@.counter,
            }),
            stack(final(self)@.bindings, name@) == stack(old(self)@.bindings, name@).drop_last(),
            forall|other: Seq<char>|
                other != name@ ==> #[trigger] stack(final(self)@.bindings, other) == stack(
                    old(self)@.bindings,
                    other,
                ),
    {
        proof {
            lemma_stack_top(self@.bindings, name@);
        }
        match self.find(name) {
            Some(index) => {
                self.scopes.remove(index);
                assert(final(self)@.bindings =~= old(self)@.bindings.remove(index as int));
            },
            None => {},
        }
        proof {
            assert forall|other: Seq<char>|
                #[trigger] stack(final(self)@.bindings, other) == if other == name@ {
                    stack(old(self)@.bindings, other).drop_last()
                } else {
                    stack(old(self)@.bindings, other)
                } by {
                lemma_stack_release(old(self)@.bindings, name@, other);
            }
        }
    }

    /// Mints the next fresh name.
    pub fn generate(&mut self) -> (name: String)
        requires
            old(self)@.counter < u64::MAX,
        ensures
            name@ == fresh_name(old(self)@.counter),
            final(self)@ == (Scopes {
                bindings: old(self)@.bindings,
                counter: old(self)@.counter + 1,
            }),
    {
        let index = self.counter;
        self.counter = index + 1;
        let mut name = String::from_str("@x");
        proof {
            reveal_strlit("@x");
            assert("@x"@ =~= seq!['@', 'x']);
        }
        push_decimal(&mut name, index);
        assert(final(self)@.bindings =~= old(self)@.bindings);
        name
    }

    /// Renames the bound variables of `expression` in place, where the
    /// converter has fresh names left for all its abstractions, and says
    /// whether it did. The bindings in force are the same before and
    /// after.
    pub fn convert(&mut self, expression: &mut ExpressionNode) -> (done: bool)
        ensures
            done == (old(self)@.counter + old(expression)@.binders() <= u64::MAX),
            done ==> final(expression)@ == converted(
                old(expression)@,
                renaming(old(self)@.bindings),
                old(self)@.counter,
            ),
            done ==> final(self)@ == (Scopes {
                bindings: old(self)@.bindings,
                counter: old(self)@.counter + old(expression)@.binders(),
            }),
            !done ==> *final(expression) == *old(expression) && *final(self) == *old(self),
    {
        match names_left(expression, u64::MAX - self.counter) {
            Some(_) => {
                expression.accept(self);
                true
            },
            None => false,
        }
    }
}

/// What is left of `budget` fresh names after one for each abstraction
/// of `node`, or nothing where the budget does not reach.
fn names_left(node: &ExpressionNode, budget: u64) -> (left: Option<u64>)
    ensures
        match left {
            Some(rest) => rest + node@.binders() == budget,
            None => node@.binders() > budget,
        },
    decreases node,
{
    match node {
        ExpressionNode::Variable(_) => Some(budget),
        ExpressionNode::Constant(_) => Some(budget),
        ExpressionNode::Abstraction(node) => {
            if budget == 0 {
                None
            } else {
                names_left(&*node.body, budget - 1)
            }
        },
        ExpressionNode::Application(node) => {
            match names_left(&*node.function, budget) {
                Some(rest) => names_left(&*node.argument, rest),
                None => None,
            }
        },
        ExpressionNode::Arithmetic(node) => {
            match names_left(&*node.left, budget) {
                Some(rest) => names_left(&*node.right, rest),
                None => None,
            }
        },
        ExpressionNode::Let(node) => {
            match names_left(&*node.expression, budget) {
                Some(rest) => names_left(&*node.scope, rest),
                None => None,
            }
        },
    }
}

impl SyntaxTreeVisitor for AlphaConverter {
    /// The converter has a fresh name left for every abstraction.
    open spec fn admits(&self, node: Term) -> bool {
        self@.counter + node.binders() <= u64::MAX
    }

    /// The node is converted under the bindings in force, which stay as
    /// they are, and the counter moves on by the abstractions of the node.
    open spec fn visits(&self, node: Term, after: Self, result: Term) -> bool {
        &&& after@ == (Scopes {
            bindings: self@.bindings,
            counter: self@.counter + node.binders(),
        })
        &&& result == converted(node, renaming(self@.bindings), self@.counter)
    }

    fn visit_variable(&mut self, node: &mut VariableNode) {
        if self.is_bound(&node.name) {
            let name = self.rename(&node.name);
            node.name = name;
        }
    }

    fn visit_constant(&mut self, _node: &mut ConstantNode) {
    }

    fn visit_expression(&mut self, node: &mut ExpressionNode)
        decreases *old(node),
    {
        match node {
            ExpressionNode::Variable(node) => {
                self.visit_variable(node);
            },
            ExpressionNode::Constant(node) => {
                self.visit_constant(node);
            },
            ExpressionNode::Abstraction(node) => {
                self.visit_abstraction(node);
            },
            ExpressionNode::Application(node) => {
                self.visit_application(node);
            },
            ExpressionNode::Arithmetic(node) => {
                self.visit_arithmetic(node);
            },
            ExpressionNode::Let(node) => {
                self.visit_let(node);
            },
        }
    }

    fn visit_abstraction(&mut self, node: &mut AbstractionNode)
        decreases *old(node),
    {
        let variable_name = node.parameter.name.clone();
        self.bind(&variable_name);
        proof {
            lemma_renaming_of_push(
                old(self)@.bindings,
                variable_name@,
                fresh_name(old(self)@.counter),
            );
        }
        self.visit_variable(&mut node.parameter);
        self.visit_expression(&mut node.body);
        proof {
            lemma_stack_top(self@.bindings, variable_name@);
        }
        self.release(&variable_name);
        proof {
            let before = old(self)@.bindings;
            let pushed = before.push((variable_name@, fresh_name(old(self)@.counter)));
            assert(pushed.remove(before.len() as int) =~= before);
        }
    }

    fn visit_application(&mut self, node: &mut ApplicationNode)
        decreases *old(node),
    {
        self.visit_expression(&mut node.function);
        self.visit_expression(&mut node.argument);
    }

    fn visit_arithmetic(&mut self, node: &mut ArithmeticNode)
        decreases *old(node),
    {
        self.visit_expression(&mut node.left);
        self.visit_expression(&mut node.right);
    }

    fn visit_let(&mut self, node: &mut LetNode)
        decreases *old(node),
    {
        self.visit_variable(&mut node.variable);
        self.visit_expression(&mut node.expression);
        self.visit_expression(&mut node.scope);
    }
}

/// With no bindings nothing is renamed.
pub proof fn lemma_no_bindings_no_renaming()
    ensures
        renaming(Seq::empty()) == Map::<Seq<char>, Seq<char>>::empty(),
{
    assert(renaming(Seq::empty()) =~= Map::<Seq<char>, Seq<char>>::empty());
}

/// A new binding overrides the renaming at its source name and nowhere
/// else, and it is the innermost binding of that name.
pub proof fn lemma_renaming_of_push(
    bindings: Seq<(Seq<char>, Seq<char>)>,
    source: Seq<char>,
    fresh: Seq<char>,
)
    ensures
        renaming(bindings.push((source, fresh))) == renaming(bindings).insert(source, fresh),
        innermost(bindings.push((source, fresh)), source) == Some(bindings.len() as int),
{
    let pushed = bindings.push((source, fresh));
    assert(pushed.drop_last() =~= bindings);
    assert forall|name: Seq<char>| name != source implies #[trigger] innermost(pushed, name)
        == innermost(bindings, name) && (innermost(bindings, name) matches Some(index) ==> 0
        <= index < bindings.len()) by {
        lemma_innermost_in_range(bindings, name);
    }
    assert(renaming(pushed) =~= renaming(bindings).insert(source, fresh));
}

/// A name is bound where its stack is not empty, and its innermost
/// binding then holds the top of the stack.
pub proof fn lemma_stack_top(bindings: Seq<(Seq<char>, Seq<char>)>, name: Seq<char>)
    ensures
        innermost(bindings, name) is Some <==> stack(bindings, name).len() > 0,
        innermost(bindings, name) matches Some(index) ==> 0 <= index < bindings.len()
            && bindings[index].1 == stack(bindings, name).last(),
        innermost(bindings, name) is Some ==> renaming(bindings)[name] == stack(
            bindings,
            name,
        ).last(),
    decreases bindings.len(),
{
    if bindings.len() > 0 {
        lemma_stack_top(bindings.drop_last(), name);
    }
}

/// A new binding goes on top of the stack of its source name and leaves
/// the other stacks alone.
pub proof fn lemma_stack_push(
    bindings: Seq<(Seq<char>, Seq<char>)>,
    source: Seq<char>,
    fresh: Seq<char>,
    name: Seq<char>,
)
    ensures
        stack(bindings.push((source, fresh)), name) == if name == source {
            stack(bindings, name).push(fresh)
        } else {
            stack(bindings, name)
        },
{
    assert(bindings.push((source, fresh)).drop_last() =~= bindings);
}

/// Without the innermost binding of a source name, the stack of that
/// name has lost its top and the other stacks are as they were.
pub proof fn lemma_stack_release(
    bindings: Seq<(Seq<char>, Seq<char>)>,
    source: Seq<char>,
    name: Seq<char>,
)
    requires
        innermost(bindings, source) is Some,
    ensures
        stack(bindings.remove(innermost(bindings, source)->Some_0), name) == if name == source {
            stack(bindings, name).drop_last()
        } else {
            stack(bindings, name)
        },
    decreases bindings.len(),
{
    let index = innermost(bindings, source)->Some_0;
    let front = bindings.drop_last();
    if bindings.last().0 == source {
        assert(bindings.remove(index) =~= front);
        if name == source {
            assert(stack(bindings, name).drop_last() =~= stack(front, name));
        }
    } else {
        lemma_innermost_in_range(front, source);
        lemma_stack_release(front, source, name);
        let shorter = bindings.remove(index);
        assert(shorter.drop_last() =~= front.remove(index));
        assert(shorter.last() == bindings.last());
    }
}

/// The innermost binding of a name, where there is one, is a binding of
/// that name.
pub proof fn lemma_innermost_in_range(bindings: Seq<(Seq<char>, Seq<char>)>, name: Seq<char>)
    ensures
        innermost(bindings, name) matches Some(index) ==> 0 <= index < bindings.len()
            && bindings[index].0 == name,
    decreases bindings.len(),
{
    if bindings.len() > 0 {
        lemma_innermost_in_range(bindings.drop_last(), name);
    }
}

} // verus!
