//! Laws that hold of the evaluator, each proved from the definitions that
//! the contracts of the library are stated over.

use vstd::prelude::*;
use crate::builtins::{
    add_result, called_each, count_failure, divide_result, filtered_from, mapped_from,
    multiply_result,
};
use crate::error::{ErrorKind, Failure};
use crate::eval_env::{
    applied, bound, defined, derived, entered, evaluated, evaluated_last, lookup, lookup_local,
    position_from, succeeded,
    Frame, World,
};
use crate::frame::lemma_evaluated_with;
use crate::number::SCALE;
use crate::parse::marked;
use crate::procedure::{form_named, SpecialForm};
use crate::special_forms::{
    and_from, and_outcome, define_outcome, evaluated_with, form_outcome, if_outcome, or_from,
    or_outcome, quasi_item, quote_result,
};
use crate::value::{from_sequence, to_sequence, Datum};

verus! {

/// A boolean, a number and a string evaluate to themselves and leave the
/// state as it is, wherever an evaluation may nest at all.
pub proof fn law_atoms_evaluate_to_themselves(atom: Datum, scope: nat, w: World, fuel: nat)
    requires
        atom is Boolean || atom is Numeric || atom is Text,
        fuel > 0,
    ensures
        evaluated(atom, scope, w, fuel) == succeeded(w, atom),
{
}

/// `(quote x)` gives `x` as it is, whatever `x` is, and leaves the state as
/// it is, wherever no scope in sight binds the name `quote`.
pub proof fn law_quote_returns_its_operand(x: Datum, scope: nat, w: World, fuel: nat)
    requires
        lookup(w, scope, "quote"@) is None,
        fuel > 0,
    ensures
        evaluated(marked("quote"@, x), scope, w, fuel) == succeeded(w, x),
{
    reveal_strlit("quote");
    reveal_strlit("define");
    reveal_with_fuel(to_sequence, 3);
    let items = seq![Datum::Symbol("quote"@), x];
    assert(to_sequence(marked("quote"@, x)) == Some(items)) by {
        assert(to_sequence(Datum::Nil) == Some(Seq::<Datum>::empty()));
        assert(seq![x] + Seq::<Datum>::empty() =~= seq![x]);
        assert(seq![Datum::Symbol("quote"@)] + seq![x] =~= items);
    }
    assert("quote"@ != "define"@) by {
        assert("quote"@.len() == 5);
        assert("define"@.len() == 6);
    }
    assert(form_named("quote"@) == Some(SpecialForm::Quote));
    assert(items.drop_first() =~= seq![x]);
    let rest = (fuel - 1) as nat;
    assert(quote_result(seq![x]) == Ok::<Datum, Failure>(x));
    assert(form_outcome(SpecialForm::Quote, seq![x], scope, w, rest) == succeeded(w, x));
    assert(items[0] == Datum::Symbol("quote"@));
    assert(applied(items, scope, w, rest) == succeeded(w, x));
}

/// The items of the proper list of a sequence are the sequence.
pub proof fn law_sequence_round_trip(items: Seq<Datum>)
    ensures
        to_sequence(from_sequence(items)) == Some(items),
    decreases items.len(),
{
    if items.len() == 0 {
        assert(items =~= Seq::<Datum>::empty());
    } else {
        law_sequence_round_trip(items.drop_first());
        assert(seq![items[0]] + items.drop_first() =~= items);
    }
}

/// The proper list of the items of a proper list is the list.
pub proof fn law_list_round_trip(list: Datum)
    requires
        to_sequence(list) is Some,
    ensures
        from_sequence(to_sequence(list)->Some_0) == list,
    decreases list,
{
    match list {
        Datum::Pair(first, rest) => {
            law_list_round_trip(*rest);
            let items = to_sequence(*rest)->Some_0;
            assert((seq![*first] + items).drop_first() =~= items);
        },
        _ => {},
    }
}

/// After a name is bound, the bindings bind it, and to the new value.
pub proof fn lemma_bound_then_found(bindings: Seq<(Seq<char>, Datum)>, name: Seq<char>, v: Datum)
    ensures
        match position_from(bound(bindings, name, v), name, 0) {
            Some(i) => 0 <= i < bound(bindings, name, v).len() && bound(bindings, name, v)[i].1 == v,
            None => false,
        },
{
    let after = bound(bindings, name, v);
    match position_from(bindings, name, 0) {
        Some(i) => {
            lemma_position_is_first(bindings, name, 0);
            lemma_position_by_first(after, name, 0, i);
        },
        None => {
            lemma_position_is_first(bindings, name, 0);
            lemma_position_by_first(after, name, 0, bindings.len() as int);
        },
    }
}

/// What `position_from` gives is the first position from `from` on that
/// binds the name.
pub proof fn lemma_position_is_first(bindings: Seq<(Seq<char>, Datum)>, name: Seq<char>, from: int)
    requires
        0 <= from,
    ensures
        match position_from(bindings, name, from) {
            Some(i) => from <= i < bindings.len() && bindings[i].0 == name && forall|k: int|
                from <= k < i ==> bindings[k].0 != name,
            None => forall|k: int| from <= k < bindings.len() ==> bindings[k].0 != name,
        },
    decreases bindings.len() - from,
{
    if from < bindings.len() && bindings[from].0 != name {
        lemma_position_is_first(bindings, name, from + 1);
    }
}

/// The first position from `from` on that binds the name is what
/// `position_from` gives.
pub proof fn lemma_position_by_first(
    bindings: Seq<(Seq<char>, Datum)>,
    name: Seq<char>,
    from: int,
    i: int,
)
    requires
        0 <= from <= i < bindings.len(),
        bindings[i].0 == name,
        forall|k: int| from <= k < i ==> bindings[k].0 != name,
    ensures
        position_from(bindings, name, from) == Some(i),
    decreases i - from,
{
    if from < i {
        lemma_position_by_first(bindings, name, from + 1, i);
    }
}

/// Binding a name leaves what the bindings bind any other name to.
pub proof fn lemma_bound_keeps_others(
    bindings: Seq<(Seq<char>, Datum)>,
    name: Seq<char>,
    v: Datum,
    other: Seq<char>,
)
    requires
        other != name,
    ensures
        lookup_local(Frame { bindings: bound(bindings, name, v), parent: None }, other)
            == lookup_local(Frame { bindings, parent: None }, other),
{
    let after = bound(bindings, name, v);
    lemma_position_is_first(bindings, name, 0);
    lemma_position_is_first(bindings, other, 0);
    match position_from(bindings, other, 0) {
        Some(i) => {
            lemma_position_by_first(after, other, 0, i);
        },
        None => {
            lemma_position_is_first(after, other, 0);
        },
    }
}

/// Binding a name changes what no other name is bound to, from whatever
/// scope it is sought.
pub proof fn law_bind_keeps_other_names(
    w: World,
    scope: nat,
    name: Seq<char>,
    v: Datum,
    from: nat,
    sought: Seq<char>,
)
    requires
        sought != name,
    ensures
        lookup(defined(w, scope, name, v), from, sought) == lookup(w, from, sought),
    decreases from,
{
    if from < w.scopes.len() {
        if scope < w.scopes.len() {
            lemma_bound_keeps_others(w.scopes[scope as int].bindings, name, v, sought);
        }
        match w.scopes[from as int].parent {
            Some(p) => {
                if p < from {
                    law_bind_keeps_other_names(w, scope, name, v, p, sought);
                }
            },
            None => {},
        }
    }
}

/// A name that is bound in a scope is found from that scope, with the value
/// it was bound to: `define` then lookup.
pub proof fn law_bind_then_find(w: World, scope: nat, name: Seq<char>, v: Datum)
    requires
        scope < w.scopes.len(),
    ensures
        lookup(defined(w, scope, name, v), scope, name) == Some(v),
{
    lemma_bound_then_found(w.scopes[scope as int].bindings, name, v);
}

/// After `(define name expr)` has succeeded in a scope that exists, `name`
/// evaluates there to the value that `expr` had.
pub proof fn law_define_then_evaluate(
    name: Seq<char>,
    expr: Datum,
    scope: nat,
    w: World,
    fuel: nat,
    later: nat,
)
    requires
        scope < w.scopes.len(),
        define_outcome(seq![Datum::Symbol(name), expr], scope, w, fuel).result is Ok,
        later > 0,
    ensures
        evaluated(expr, scope, w, fuel).result is Ok,
        evaluated(
            Datum::Symbol(name),
            scope,
            define_outcome(seq![Datum::Symbol(name), expr], scope, w, fuel).world,
            later,
        ).result == evaluated(expr, scope, w, fuel).result,
{
    let context = "Special Form <define>: Fail to evaluate a value"@;
    let o = evaluated_with(expr, scope, w, fuel, context);
    let v = o.result->Ok_0;
    lemma_evaluated_with(expr, scope, w, fuel, context);
    law_bind_then_find(o.world, scope, name, v);
}

/// Binding a name in a scope changes nothing that is seen from a scope made
/// earlier.
pub proof fn law_bind_keeps_earlier(
    w: World,
    later: nat,
    name: Seq<char>,
    v: Datum,
    scope: nat,
    sought: Seq<char>,
)
    requires
        scope < later,
    ensures
        lookup(defined(w, later, name, v), scope, sought) == lookup(w, scope, sought),
    decreases scope,
{
    if scope < w.scopes.len() {
        match w.scopes[scope as int].parent {
            Some(p) => {
                if p < scope {
                    law_bind_keeps_earlier(w, later, name, v, p, sought);
                }
            },
            None => {},
        }
    }
}

/// A scope made inside another, as for a `let` or a call, changes nothing
/// that is seen from the scopes that were there: the outer binding of a
/// shadowed name is what it was.
pub proof fn law_derive_keeps_outer(
    w: World,
    parent: nat,
    names: Seq<Seq<char>>,
    values: Seq<Datum>,
    scope: nat,
    sought: Seq<char>,
)
    requires
        scope < w.scopes.len(),
    ensures
        lookup(derived(w, parent, names, values), scope, sought) == lookup(w, scope, sought),
    decreases scope,
{
    match w.scopes[scope as int].parent {
        Some(p) => {
            if p < scope {
                law_derive_keeps_outer(w, parent, names, values, p, sought);
            }
        },
        None => {},
    }
}

/// A closure sees a later definition: where a scope does not itself bind a
/// name, it finds the value that the name is bound to afterwards in the scope
/// around it.
pub proof fn law_inner_scope_sees_redefinition(
    w: World,
    outer: nat,
    inner: nat,
    name: Seq<char>,
    v: Datum,
)
    requires
        inner < w.scopes.len(),
        outer < inner,
        w.scopes[inner as int].parent == Some(outer),
        lookup_local(w.scopes[inner as int], name) is None,
    ensures
        lookup(defined(w, outer, name, v), inner, name) == Some(v),
{
    law_bind_then_find(w, outer, name, v);
}

/// A closure reads the binding that its scope has when it is called, not
/// the one it had when the closure was made: a lambda whose body is a name
/// gives, whenever it is entered, what the scope it captured binds the name
/// to at that time.
pub proof fn law_closures_read_the_current_binding(
    name: Seq<char>,
    captured: nat,
    w: World,
    fuel: nat,
    context: Seq<char>,
)
    requires
        captured < w.scopes.len(),
        lookup(w, captured, name) is Some,
        fuel > 0,
    ensures
        entered(
            Seq::empty(),
            seq![Datum::Symbol(name)],
            captured,
            Seq::empty(),
            w,
            fuel,
            context,
        ).result == Ok::<Datum, Failure>(lookup(w, captured, name)->Some_0),
{
    let names = Seq::<Seq<char>>::empty();
    let values = Seq::<Datum>::empty();
    let inside = derived(w, captured, names, values);
    let child = w.scopes.len();
    law_derive_keeps_outer(w, captured, names, values, captured, name);
    assert(inside.scopes[child as int].bindings.len() == 0);
    assert(lookup(inside, child, name) == lookup(inside, captured, name));
    reveal_with_fuel(evaluated_last, 2);
}

/// A closure observes a redefinition: after a name is bound anew in the scope
/// that a lambda captured, the lambda, whose body is that name, gives the new
/// value when it is entered.
pub proof fn law_closures_observe_redefinitions(
    name: Seq<char>,
    captured: nat,
    w: World,
    v: Datum,
    fuel: nat,
    context: Seq<char>,
)
    requires
        captured < w.scopes.len(),
        fuel > 0,
    ensures
        entered(
            Seq::empty(),
            seq![Datum::Symbol(name)],
            captured,
            Seq::empty(),
            defined(w, captured, name, v),
            fuel,
            context,
        ).result == Ok::<Datum, Failure>(v),
{
    law_bind_then_find(w, captured, name, v);
    law_closures_read_the_current_binding(
        name,
        captured,
        defined(w, captured, name, v),
        fuel,
        context,
    );
}

/// A quasiquotation inside a quasiquotation is rejected, whatever it quotes.
pub proof fn law_nested_quasiquote_is_rejected(rest: Datum, scope: nat, w: World, fuel: nat)
    ensures
        match quasi_item(
            Datum::Pair(Box::new(Datum::Symbol("quasiquote"@)), Box::new(rest)),
            scope,
            w,
            fuel,
        ).result {
            Ok(_) => false,
            Err(e) => e.kind == ErrorKind::MalformedSpecialForm,
        },
{
    reveal_strlit("quasiquote");
    reveal_strlit("unquote");
    assert("quasiquote"@ != "unquote"@) by {
        assert("quasiquote"@.len() == 10);
        assert("unquote"@.len() == 7);
    }
}

/// A builtin that is called with a number of arguments that it does not
/// take fails with an error of the kind `ArityError`.
pub proof fn law_wrong_count_is_an_arity_error(given: nat, least: nat, most: nat, name: Seq<char>)
    ensures
        match count_failure(given, least, most, name) {
            Some(e) => e.kind == ErrorKind::ArityError && (given < least || given > most),
            None => least <= given <= most,
        },
{
}

/// Every special form that needs an operand fails without one, with an
/// error of the kind `ArityError`, and leaves the state as it is.
pub proof fn law_missing_operands_are_arity_errors(
    form: SpecialForm,
    scope: nat,
    w: World,
    fuel: nat,
)
    requires
        form != SpecialForm::And,
        form != SpecialForm::Or,
        form != SpecialForm::Cond,
    ensures
        form_outcome(form, Seq::empty(), scope, w, fuel).world == w,
        match form_outcome(form, Seq::empty(), scope, w, fuel).result {
            Ok(_) => false,
            Err(e) => e.kind == ErrorKind::ArityError,
        },
{
}

/// The sum of no numbers is zero and the product of no numbers is one.
pub proof fn law_sum_and_product_of_nothing()
    ensures
        add_result(Seq::empty()) == Ok::<Datum, Failure>(Datum::Numeric(0)),
        multiply_result(Seq::empty()) == Ok::<Datum, Failure>(Datum::Numeric(SCALE as int)),
{
}

/// Dividing any number by zero is an error of the kind `DivisionByZero`.
pub proof fn law_division_by_zero(a: int)
    ensures
        match divide_result(seq![Datum::Numeric(a), Datum::Numeric(0)]) {
            Ok(_) => false,
            Err(e) => e.kind == ErrorKind::DivisionByZero,
        },
{
}

/// `if` selects by the condition: where the condition's value is `#f`, the
/// form gives what the third operand gives, and for any other value what the
/// second gives, in the state that the condition left.
pub proof fn law_if_selects_by_the_condition(args: Seq<Datum>, scope: nat, w: World, fuel: nat)
    requires
        args.len() >= 3,
        evaluated(args[0], scope, w, fuel).result is Ok,
    ensures
        if_outcome(args, scope, w, fuel) == evaluated_with(
            if evaluated(args[0], scope, w, fuel).result == Ok::<Datum, Failure>(
                Datum::Boolean(false),
            ) {
                args[2]
            } else {
                args[1]
            },
            scope,
            evaluated(args[0], scope, w, fuel).world,
            fuel,
            if evaluated(args[0], scope, w, fuel).result == Ok::<Datum, Failure>(
                Datum::Boolean(false),
            ) {
                "Special Form <if>: Fail to evaluate the false branch"@
            } else {
                "Special Form <if>: Fail to evaluate the true branch"@
            },
        ),
{
}

/// `and` without operands is `#t`, `or` without operands is `#f`, and both
/// leave the state as it is.
pub proof fn law_and_or_of_nothing(scope: nat, w: World, fuel: nat)
    ensures
        and_outcome(Seq::empty(), scope, w, fuel) == succeeded(w, Datum::Boolean(true)),
        or_outcome(Seq::empty(), scope, w, fuel) == succeeded(w, Datum::Boolean(false)),
{
}

/// `and` gives the value of its last operand where no operand is `#f` and
/// none fails; `or` gives the first value that is not `#f`. For two operands
/// that are atoms: `(and a b)` is `b` unless `a` is `#f`, and `(or #f b)` is
/// `b`.
pub proof fn law_and_or_of_atoms(a: Datum, b: Datum, scope: nat, w: World, fuel: nat)
    requires
        a is Boolean || a is Numeric || a is Text,
        b is Boolean || b is Numeric || b is Text,
        fuel > 0,
    ensures
        a != Datum::Boolean(false) ==> and_outcome(seq![a, b], scope, w, fuel) == succeeded(w, b),
        a == Datum::Boolean(false) ==> and_outcome(seq![a, b], scope, w, fuel) == succeeded(w, a),
        or_outcome(seq![Datum::Boolean(false), b], scope, w, fuel) == succeeded(w, b),
        a != Datum::Boolean(false) ==> or_outcome(seq![a, b], scope, w, fuel) == succeeded(w, a),
{
    reveal_with_fuel(and_from, 3);
    reveal_with_fuel(or_from, 3);
    law_atoms_evaluate_to_themselves(a, scope, w, fuel);
    law_atoms_evaluate_to_themselves(b, scope, w, fuel);
    law_atoms_evaluate_to_themselves(Datum::Boolean(false), scope, w, fuel);
}

/// `map` gives one value for each item: where it succeeds from position `i`
/// on, it has added as many values as there were items left.
pub proof fn law_map_keeps_the_length(
    callee: Datum,
    items: Seq<Datum>,
    i: nat,
    done: Seq<Datum>,
    scope: nat,
    w: World,
    fuel: nat,
)
    requires
        i <= items.len(),
    ensures
        match mapped_from(callee, items, i, done, scope, w, fuel).result {
            Ok(values) => values.len() == done.len() + items.len() - i,
            Err(_) => true,
        },
    decreases items.len() - i,
{
    if i < items.len() {
        let o = called_each(callee, seq![items[i as int]], scope, w, fuel, "map"@);
        match o.result {
            Ok(v) => {
                law_map_keeps_the_length(callee, items, i + 1, done.push(v), scope, o.world, fuel);
            },
            Err(_) => {},
        }
    }
}

/// `filter` keeps items, in their order: where it succeeds from position `i`
/// on, what it has added to `done` are items from position `i` on, and no
/// more of them than there were.
pub proof fn law_filter_keeps_items(
    callee: Datum,
    items: Seq<Datum>,
    i: nat,
    done: Seq<Datum>,
    scope: nat,
    w: World,
    fuel: nat,
)
    requires
        i <= items.len(),
    ensures
        match filtered_from(callee, items, i, done, scope, w, fuel).result {
            Ok(values) => done.len() <= values.len() <= done.len() + items.len() - i
                && values.subrange(0, done.len() as int) == done && forall|k: int|
                done.len() <= k < values.len() ==> items.subrange(
                    i as int,
                    items.len() as int,
                ).contains(#[trigger] values[k]),
            Err(_) => true,
        },
    decreases items.len() - i,
{
    let rest = items.subrange(i as int, items.len() as int);
    if i < items.len() {
        let o = called_each(callee, seq![items[i as int]], scope, w, fuel, "filter"@);
        let later = items.subrange(i as int + 1, items.len() as int);
        assert forall|x: Datum| later.contains(x) implies rest.contains(x) by {
            let k = choose|k: int| 0 <= k < later.len() && later[k] == x;
            assert(rest[k + 1] == x);
        }
        match o.result {
            Ok(Datum::Boolean(false)) => {
                law_filter_keeps_items(callee, items, i + 1, done, scope, o.world, fuel);
            },
            Ok(_) => {
                let more = done.push(items[i as int]);
                law_filter_keeps_items(callee, items, i + 1, more, scope, o.world, fuel);
                match filtered_from(callee, items, i + 1, more, scope, o.world, fuel).result {
                    Ok(values) => {
                        assert(values.subrange(0, done.len() as int) =~= done) by {
                            assert(values.subrange(0, more.len() as int) == more);
                            assert forall|k: int| 0 <= k < done.len() implies values[k]
                                == done[k] by {
                                assert(values.subrange(0, more.len() as int)[k] == more[k]);
                            }
                        }
                        assert(values[done.len() as int] == items[i as int]) by {
                            assert(values.subrange(0, more.len() as int)[done.len() as int]
                                == more[done.len() as int]);
                        }
                        assert(rest[0] == items[i as int]);
                    },
                    Err(_) => {},
                }
            },
            Err(_) => {},
        }
    } else {
        assert(done.subrange(0, done.len() as int) =~= done);
    }
}

} // verus!
