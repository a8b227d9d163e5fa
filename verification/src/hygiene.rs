//! What alpha-conversion guarantees: binders renamed apart, occurrences
//! that follow their binders.

use vstd::prelude::*;
use crate::alpha::{converted, fresh_name, lemma_no_bindings_no_renaming, renamed, renaming};
use crate::decimal::{decimal, lemma_decimal_injective};
use crate::term::Term;

verus! {

/// `count` consecutive fresh names, from the one with index `start`.
pub open spec fn fresh_names(start: nat, count: nat) -> Seq<Seq<char>> {
    Seq::new(count, |i: int| fresh_name((start + i) as nat))
}

/// Whether `result` is `source` under a renaming of its bound variables:
/// the two have the same shape, constants and operators; an occurrence
/// carries the parameter of the innermost abstraction around it that
/// binds its source name, or, where there is none, what `renaming` gives
/// for it, which is the source name itself where the name is free.
pub open spec fn follows_binders(source: Term, result: Term, renaming: Map<Seq<char>, Seq<char>>)
    -> bool
    decreases source,
{
    match (source, result) {
        (Term::Variable(name), Term::Variable(image)) => image == renamed(renaming, name),
        (Term::Constant(value), Term::Constant(same)) => same == value,
        (Term::Abstraction(parameter, body), Term::Abstraction(image, result_body)) => {
            follows_binders(*body, *result_body, renaming.insert(parameter, image))
        },
        (
            Term::Application(function, argument),
            Term::Application(result_function, result_argument),
        ) => {
            &&& follows_binders(*function, *result_function, renaming)
            &&& follows_binders(*argument, *result_argument, renaming)
        },
        (Term::Arithmetic(left, operator, right), Term::Arithmetic(result_left, same, result_right)) => {
            &&& same == operator
            &&& follows_binders(*left, *result_left, renaming)
            &&& follows_binders(*right, *result_right, renaming)
        },
        (Term::Let(variable, expression, scope), Term::Let(image, result_expression, result_scope)) => {
            &&& image == renamed(renaming, variable)
            &&& follows_binders(*expression, *result_expression, renaming)
            &&& follows_binders(*scope, *result_scope, renaming)
        },
        _ => false,
    }
}

/// Whether every occurrence of a name in `term` carries the parameter of
/// an abstraction around it or one of `names`. A `let` binds nothing
/// here, so its variable counts as an occurrence.
pub open spec fn scoped(term: Term, names: Set<Seq<char>>) -> bool
    decreases term,
{
    match term {
        Term::Variable(name) => names.contains(name),
        Term::Constant(_) => true,
        Term::Abstraction(parameter, body) => scoped(*body, names.insert(parameter)),
        Term::Application(function, argument) => scoped(*function, names) && scoped(
            *argument,
            names,
        ),
        Term::Arithmetic(left, _, right) => scoped(*left, names) && scoped(*right, names),
        Term::Let(variable, expression, scope) => {
            &&& names.contains(variable)
            &&& scoped(*expression, names)
            &&& scoped(*scope, names)
        },
    }
}

/// Fresh names with different indices are different names.
pub proof fn lemma_fresh_names_differ(a: nat, b: nat)
    requires
        a != b,
    ensures
        fresh_name(a) != fresh_name(b),
{
    if fresh_name(a) == fresh_name(b) {
        assert(fresh_name(a).subrange(2, fresh_name(a).len() as int) =~= decimal(a));
        assert(fresh_name(b).subrange(2, fresh_name(b).len() as int) =~= decimal(b));
        lemma_decimal_injective(a, b);
    }
}

/// The abstractions of a converted term carry consecutive fresh names, in
/// the order of the walk.
pub proof fn lemma_binders_take_fresh_names(
    term: Term,
    renaming: Map<Seq<char>, Seq<char>>,
    counter: nat,
)
    ensures
        converted(term, renaming, counter).binder_names() == fresh_names(counter, term.binders()),
    decreases term,
{
    let names = converted(term, renaming, counter).binder_names();
    match term {
        Term::Variable(_) => {},
        Term::Constant(_) => {},
        Term::Abstraction(parameter, body) => {
            lemma_binders_take_fresh_names(
                *body,
                renaming.insert(parameter, fresh_name(counter)),
                counter + 1,
            );
        },
        Term::Application(function, argument) => {
            lemma_binders_take_fresh_names(*function, renaming, counter);
            lemma_binders_take_fresh_names(*argument, renaming, counter + function.binders());
        },
        Term::Arithmetic(left, _, right) => {
            lemma_binders_take_fresh_names(*left, renaming, counter);
            lemma_binders_take_fresh_names(*right, renaming, counter + left.binders());
        },
        Term::Let(_, expression, scope) => {
            lemma_binders_take_fresh_names(*expression, renaming, counter);
            lemma_binders_take_fresh_names(*scope, renaming, counter + expression.binders());
        },
    }
    assert(names =~= fresh_names(counter, term.binders()));
}

/// A converted term is its source under a renaming of the bound
/// variables.
pub proof fn lemma_occurrences_follow_binders(
    term: Term,
    renaming: Map<Seq<char>, Seq<char>>,
    counter: nat,
)
    ensures
        follows_binders(term, converted(term, renaming, counter), renaming),
    decreases term,
{
    match term {
        Term::Variable(_) => {},
        Term::Constant(_) => {},
        Term::Abstraction(parameter, body) => {
            lemma_occurrences_follow_binders(
                *body,
                renaming.insert(parameter, fresh_name(counter)),
                counter + 1,
            );
        },
        Term::Application(function, argument) => {
            lemma_occurrences_follow_binders(*function, renaming, counter);
            lemma_occurrences_follow_binders(*argument, renaming, counter + function.binders());
        },
        Term::Arithmetic(left, _, right) => {
            lemma_occurrences_follow_binders(*left, renaming, counter);
            lemma_occurrences_follow_binders(*right, renaming, counter + left.binders());
        },
        Term::Let(_, expression, scope) => {
            lemma_occurrences_follow_binders(*expression, renaming, counter);
            lemma_occurrences_follow_binders(*scope, renaming, counter + expression.binders());
        },
    }
}

/// A term that is scoped under some names is scoped under more names.
pub proof fn lemma_scoped_under_more(term: Term, names: Set<Seq<char>>, more: Set<Seq<char>>)
    requires
        scoped(term, names),
        names.subset_of(more),
    ensures
        scoped(term, more),
    decreases term,
{
    match term {
        Term::Variable(_) => {},
        Term::Constant(_) => {},
        Term::Abstraction(parameter, body) => {
            lemma_scoped_under_more(*body, names.insert(parameter), more.insert(parameter));
        },
        Term::Application(function, argument) => {
            lemma_scoped_under_more(*function, names, more);
            lemma_scoped_under_more(*argument, names, more);
        },
        Term::Arithmetic(left, _, right) => {
            lemma_scoped_under_more(*left, names, more);
            lemma_scoped_under_more(*right, names, more);
        },
        Term::Let(_, expression, scope) => {
            lemma_scoped_under_more(*expression, names, more);
            lemma_scoped_under_more(*scope, names, more);
        },
    }
}

/// Where every occurrence in the source is bound, by an abstraction
/// around it or by the renaming in force, every occurrence in the
/// converted term carries the parameter of an abstraction around it or a
/// fresh name of the renaming.
pub proof fn lemma_bound_occurrences_stay_bound(
    term: Term,
    renaming: Map<Seq<char>, Seq<char>>,
    counter: nat,
)
    requires
        scoped(term, renaming.dom()),
    ensures
        scoped(converted(term, renaming, counter), renaming.values()),
    decreases term,
{
    match term {
        Term::Variable(name) => {
            assert(renaming.contains_value(renaming[name]));
        },
        Term::Constant(_) => {},
        Term::Abstraction(parameter, body) => {
            let fresh = fresh_name(counter);
            let inner = renaming.insert(parameter, fresh);
            assert(inner.dom() =~= renaming.dom().insert(parameter));
            lemma_bound_occurrences_stay_bound(*body, inner, counter + 1);
            assert forall|image: Seq<char>| inner.values().contains(image) implies renaming.values(
            ).insert(fresh).contains(image) by {
                let source = choose|source: Seq<char>|
                    inner.dom().contains(source) && #[trigger] inner[source] == image;
                if source != parameter {
                    assert(renaming.contains_value(renaming[source]));
                }
            }
            lemma_scoped_under_more(
                converted(*body, inner, counter + 1),
                inner.values(),
                renaming.values().insert(fresh),
            );
        },
        Term::Application(function, argument) => {
            lemma_bound_occurrences_stay_bound(*function, renaming, counter);
            lemma_bound_occurrences_stay_bound(*argument, renaming, counter + function.binders());
        },
        Term::Arithmetic(left, _, right) => {
            lemma_bound_occurrences_stay_bound(*left, renaming, counter);
            lemma_bound_occurrences_stay_bound(*right, renaming, counter + left.binders());
        },
        Term::Let(variable, expression, scope) => {
            assert(renaming.contains_value(renaming[variable]));
            lemma_bound_occurrences_stay_bound(*expression, renaming, counter);
            lemma_bound_occurrences_stay_bound(*scope, renaming, counter + expression.binders());
        },
    }
}

/// In the conversion of a closed term by a converter with nothing bound,
/// every occurrence carries the parameter of exactly one abstraction: one
/// around it has its name, and no two abstractions of the term share a
/// parameter.
pub proof fn lemma_occurrences_meet_one_binder(term: Term, counter: nat)
    requires
        scoped(term, Set::empty()),
    ensures
        scoped(converted(term, renaming(Seq::empty()), counter), Set::empty()),
        forall|i: int, j: int|
            0 <= i < j < term.binders() ==> converted(
                term,
                renaming(Seq::empty()),
                counter,
            ).binder_names()[i] != converted(
                term,
                renaming(Seq::empty()),
                counter,
            ).binder_names()[j],
{
    let nothing = renaming(Seq::empty());
    lemma_no_bindings_no_renaming();
    assert(nothing.dom() =~= Set::empty());
    assert(nothing.values() =~= Set::empty());
    lemma_bound_occurrences_stay_bound(term, nothing, counter);
    lemma_conversion_is_hygienic(term, nothing, counter);
}

/// Alpha-conversion is hygienic. In the converted term no two
/// abstractions have the same parameter, also where the source used one
/// name for several of them, and every occurrence of a bound variable
/// carries the parameter of the abstraction that binds it.
pub proof fn lemma_conversion_is_hygienic(
    term: Term,
    renaming: Map<Seq<char>, Seq<char>>,
    counter: nat,
)
    ensures
        converted(term, renaming, counter).binder_names().len() == term.binders(),
        forall|i: int, j: int|
            0 <= i < j < term.binders() ==> converted(term, renaming, counter).binder_names()[i]
                != converted(term, renaming, counter).binder_names()[j],
        follows_binders(term, converted(term, renaming, counter), renaming),
{
    lemma_binders_take_fresh_names(term, renaming, counter);
    lemma_occurrences_follow_binders(term, renaming, counter);
    let names = converted(term, renaming, counter).binder_names();
    assert forall|i: int, j: int| 0 <= i < j < term.binders() implies names[i] != names[j] by {
        lemma_fresh_names_differ((counter + i) as nat, (counter + j) as nat);
    }
}

} // verus!
