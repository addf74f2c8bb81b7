//! What an evaluation may change: an evaluation in a scope binds in that
//! scope and in scopes that it makes, and nowhere else. Scopes are never
//! removed, a scope keeps its parent, and every scope that is made lies
//! inside one that was there before.

use vstd::prelude::*;
use crate::builtins::{
    body_context, builtin_outcome, called_each, callee_failure, chain_length, count_failure,
    expand_lists, expand_row, expanded_from, filtered_from, label, mapped_from, printed_lines,
    reduce_failure, reduced,
};
use crate::error::{halting, Failure};
use crate::eval_env::{
    applied, called, defined, derive_failure, derived, entered, evaluated, evaluated_each,
    evaluated_last, invoked, lookup, operand_context, well_formed, World,
};
use crate::procedure::{builtin_named, form_named, Builtin, Procedure, SpecialForm};
use crate::special_forms::{
    and_from, cond_from, define_outcome, evaluated_with, form_outcome, if_outcome, lambda_result,
    let_binding, let_bindings, let_outcome, or_from, quasi_item, quasi_items, unquote_outcome,
};
use crate::value::{from_sequence, to_sequence, Datum};

verus! {

/// Whether `after` is `w` but for what an evaluation in `scope` may change:
/// the bindings of `scope`, what was printed, the exit code, and scopes that
/// were added, each of them inside a scope made before it.
pub open spec fn kept(w: World, after: World, scope: nat) -> bool {
    &&& after.scopes.len() >= w.scopes.len()
    &&& after.depth_limit == w.depth_limit
    &&& forall|i: int|
        0 <= i < w.scopes.len() ==> (#[trigger] after.scopes[i]).parent == w.scopes[i].parent
    &&& forall|i: int|
        0 <= i < w.scopes.len() && i != scope ==> #[trigger] after.scopes[i] == w.scopes[i]
    &&& forall|i: int|
        w.scopes.len() <= i < after.scopes.len() ==> match (#[trigger] after.scopes[i]).parent {
            Some(p) => p < i,
            None => true,
        }
}

/// Whether `after` is `w` but for what an evaluation in a scope of its own
/// making may change: no scope of `w` is touched.
pub open spec fn untouched(w: World, after: World) -> bool {
    kept(w, after, w.scopes.len())
}

/// Allowed changes after allowed changes, in one scope, are allowed changes.
pub proof fn lemma_kept_twice(a: World, b: World, c: World, scope: nat)
    requires
        kept(a, b, scope),
        kept(b, c, scope),
    ensures
        kept(a, c, scope),
{
    assert forall|i: int| 0 <= i < a.scopes.len() implies (#[trigger] c.scopes[i]).parent
        == a.scopes[i].parent by {
        assert(b.scopes[i].parent == a.scopes[i].parent);
    }
    assert forall|i: int| 0 <= i < a.scopes.len() && i != scope implies #[trigger] c.scopes[i]
        == a.scopes[i] by {
        assert(b.scopes[i] == a.scopes[i]);
    }
    assert forall|i: int| a.scopes.len() <= i < c.scopes.len() implies match (
    #[trigger] c.scopes[i]).parent {
        Some(p) => p < i,
        None => true,
    } by {
        if i < b.scopes.len() {
            assert(c.scopes[i].parent == b.scopes[i].parent);
        }
    }
}

/// Changes in a scope that was made later are no changes to the scopes that
/// were there.
pub proof fn lemma_kept_then_inside(a: World, b: World, c: World, scope: nat, inner: nat)
    requires
        kept(a, b, scope),
        kept(b, c, inner),
        inner >= a.scopes.len(),
    ensures
        kept(a, c, scope),
{
    assert forall|i: int| 0 <= i < a.scopes.len() implies (#[trigger] c.scopes[i]).parent
        == a.scopes[i].parent by {
        assert(b.scopes[i].parent == a.scopes[i].parent);
    }
    assert forall|i: int| 0 <= i < a.scopes.len() && i != scope implies #[trigger] c.scopes[i]
        == a.scopes[i] by {
        assert(b.scopes[i] == a.scopes[i]);
    }
    assert forall|i: int| a.scopes.len() <= i < c.scopes.len() implies match (
    #[trigger] c.scopes[i]).parent {
        Some(p) => p < i,
        None => true,
    } by {
        if i < b.scopes.len() {
            assert(c.scopes[i].parent == b.scopes[i].parent);
        }
    }
}

/// What is allowed for one scope and touches no scope is allowed for every
/// scope.
pub proof fn lemma_untouched_is_kept(w: World, after: World, scope: nat)
    requires
        untouched(w, after),
    ensures
        kept(w, after, scope),
{
}

/// Binding in a scope is an allowed change in that scope.
pub proof fn lemma_kept_defined(w: World, scope: nat, name: Seq<char>, v: Datum)
    ensures
        kept(w, defined(w, scope, name, v), scope),
{
}

/// Making a scope inside one that exists touches no scope.
pub proof fn lemma_untouched_derived(
    w: World,
    parent: nat,
    names: Seq<Seq<char>>,
    values: Seq<Datum>,
)
    requires
        parent < w.scopes.len(),
    ensures
        untouched(w, derived(w, parent, names, values)),
        derived(w, parent, names, values).scopes.len() == w.scopes.len() + 1,
{
}

/// Allowed changes keep the scope chain acyclic.
pub proof fn law_kept_is_well_formed(w: World, after: World, scope: nat)
    requires
        kept(w, after, scope),
        well_formed(w),
    ensures
        well_formed(after),
{
    assert forall|i: int| 0 <= i < after.scopes.len() implies match (
    #[trigger] after.scopes[i]).parent {
        Some(p) => p < i,
        None => true,
    } by {
        if i < w.scopes.len() {
            assert(after.scopes[i].parent == w.scopes[i].parent);
        }
    }
}

/// An evaluation in a scope changes nothing but what it may.
pub proof fn law_evaluation_keeps_other_scopes(expr: Datum, scope: nat, w: World, fuel: nat)
    ensures
        kept(w, evaluated(expr, scope, w, fuel).world, scope),
    decreases fuel, 0nat, 0nat,
{
    if fuel > 0 {
        match expr {
            Datum::Pair(_, _) => match to_sequence(expr) {
                Some(items) => {
                    lemma_applied(items, scope, w, (fuel - 1) as nat);
                },
                None => {},
            },
            _ => {},
        }
    }
}

/// Evaluating the operands of an application, then going on in the state
/// that this leaves.
proof fn lemma_operands(items: Seq<Datum>, scope: nat, w: World, fuel: nat)
    ensures
        kept(
            w,
            evaluated_each(items, 1, Seq::empty(), scope, w, fuel, operand_context()).world,
            scope,
        ),
    decreases fuel, 2nat, items.len(),
{
    lemma_evaluated_each(items, 1, Seq::empty(), scope, w, fuel, operand_context());
}

/// An application changes nothing but what it may.
pub proof fn lemma_applied(items: Seq<Datum>, scope: nat, w: World, fuel: nat)
    ensures
        kept(w, applied(items, scope, w, fuel).world, scope),
    decreases fuel, 9nat, 0nat,
{
    if items.len() > 0 {
        let g = evaluated_each(items, 1, Seq::empty(), scope, w, fuel, operand_context());
        match items[0] {
            Datum::Symbol(name) => match lookup(w, scope, name) {
                Some(Datum::Procedure(p)) => {
                    lemma_operands(items, scope, w, fuel);
                    match g.result {
                        Ok(args) => {
                            lemma_invoked(p, args, scope, g.world, fuel);
                            lemma_kept_twice(
                                w,
                                g.world,
                                invoked(p, args, scope, g.world, fuel).world,
                                scope,
                            );
                        },
                        Err(_) => {},
                    }
                },
                Some(Datum::Lambda(params, body, captured)) => {
                    lemma_operands(items, scope, w, fuel);
                    match g.result {
                        Ok(args) => {
                            lemma_entered(
                                params,
                                body,
                                captured,
                                args,
                                g.world,
                                fuel,
                                operand_context(),
                            );
                            let after = entered(
                                params,
                                body,
                                captured,
                                args,
                                g.world,
                                fuel,
                                operand_context(),
                            ).world;
                            lemma_untouched_is_kept(g.world, after, scope);
                            lemma_kept_twice(w, g.world, after, scope);
                        },
                        Err(_) => {},
                    }
                },
                _ => match form_named(name) {
                    Some(form) => {
                        if form != SpecialForm::Unquote {
                            lemma_form(form, items.drop_first(), scope, w, fuel);
                        }
                    },
                    None => match builtin_named(name) {
                        Some(b) => {
                            lemma_operands(items, scope, w, fuel);
                            match g.result {
                                Ok(args) => {
                                    lemma_builtin(b, args, scope, g.world, fuel);
                                    lemma_kept_twice(
                                        w,
                                        g.world,
                                        builtin_outcome(b, args, scope, g.world, fuel).world,
                                        scope,
                                    );
                                },
                                Err(_) => {},
                            }
                        },
                        None => {},
                    },
                },
            },
            Datum::Pair(_, _) => {
                lemma_evaluated_each(items, 0, Seq::empty(), scope, w, fuel, operand_context());
                let all = evaluated_each(items, 0, Seq::empty(), scope, w, fuel, operand_context());
                match all.result {
                    Ok(values) => {
                        law_evaluation_keeps_other_scopes(
                            from_sequence(values),
                            scope,
                            all.world,
                            fuel,
                        );
                        lemma_kept_twice(
                            w,
                            all.world,
                            evaluated(from_sequence(values), scope, all.world, fuel).world,
                            scope,
                        );
                    },
                    Err(_) => {},
                }
            },
            Datum::Procedure(p) => {
                lemma_invoked(p, items.drop_first(), scope, w, fuel);
            },
            Datum::Lambda(params, body, captured) => {
                lemma_entered(
                    params,
                    body,
                    captured,
                    items.drop_first(),
                    w,
                    fuel,
                    operand_context(),
                );
                lemma_untouched_is_kept(
                    w,
                    entered(
                        params,
                        body,
                        captured,
                        items.drop_first(),
                        w,
                        fuel,
                        operand_context(),
                    ).world,
                    scope,
                );
            },
            _ => {},
        }
    }
}

/// A call of a procedure changes nothing but what it may.
pub proof fn lemma_invoked(p: Procedure, args: Seq<Datum>, scope: nat, w: World, fuel: nat)
    ensures
        kept(w, invoked(p, args, scope, w, fuel).world, scope),
    decreases fuel, 0nat, 0nat,
{
    if fuel > 0 {
        match p {
            Procedure::Form(form) => {
                lemma_form(form, args, scope, w, (fuel - 1) as nat);
            },
            Procedure::Builtin(b) => {
                lemma_builtin(b, args, scope, w, (fuel - 1) as nat);
            },
        }
    }
}

/// Evaluating several expressions changes nothing but what it may.
pub proof fn lemma_evaluated_each(
    items: Seq<Datum>,
    i: nat,
    done: Seq<Datum>,
    scope: nat,
    w: World,
    fuel: nat,
    context: Seq<char>,
)
    ensures
        kept(w, evaluated_each(items, i, done, scope, w, fuel, context).world, scope),
    decreases fuel, 1nat, items.len() - i,
{
    if i < items.len() {
        law_evaluation_keeps_other_scopes(items[i as int], scope, w, fuel);
        let o = evaluated(items[i as int], scope, w, fuel);
        match o.result {
            Ok(v) => {
                lemma_evaluated_each(items, i + 1, done.push(v), scope, o.world, fuel, context);
                lemma_kept_twice(
                    w,
                    o.world,
                    evaluated_each(items, i + 1, done.push(v), scope, o.world, fuel, context).world,
                    scope,
                );
            },
            Err(_) => {},
        }
    }
}

/// Evaluating a body changes nothing but what it may.
pub proof fn lemma_evaluated_last(
    items: Seq<Datum>,
    i: nat,
    last: Datum,
    scope: nat,
    w: World,
    fuel: nat,
    context: Seq<char>,
)
    ensures
        kept(w, evaluated_last(items, i, last, scope, w, fuel, context).world, scope),
    decreases fuel, 1nat, items.len() - i,
{
    if i < items.len() {
        law_evaluation_keeps_other_scopes(items[i as int], scope, w, fuel);
        let o = evaluated(items[i as int], scope, w, fuel);
        match o.result {
            Ok(v) => {
                lemma_evaluated_last(items, i + 1, v, scope, o.world, fuel, context);
                lemma_kept_twice(
                    w,
                    o.world,
                    evaluated_last(items, i + 1, v, scope, o.world, fuel, context).world,
                    scope,
                );
            },
            Err(_) => {},
        }
    }
}

/// Entering a lambda touches no scope that was there: what its body binds,
/// it binds in the scope that was made for the call.
pub proof fn lemma_entered(
    params: Seq<Seq<char>>,
    body: Seq<Datum>,
    captured: nat,
    args: Seq<Datum>,
    w: World,
    fuel: nat,
    context: Seq<char>,
)
    ensures
        untouched(w, entered(params, body, captured, args, w, fuel, context).world),
    decreases fuel, 2nat, 0nat,
{
    if derive_failure(w, captured, params.len(), args.len()) is None {
        let inside = derived(w, captured, params, args);
        let child = w.scopes.len();
        lemma_untouched_derived(w, captured, params, args);
        lemma_evaluated_last(body, 0, Datum::Nil, child, inside, fuel, context);
        lemma_kept_then_inside(
            w,
            inside,
            evaluated_last(body, 0, Datum::Nil, child, inside, fuel, context).world,
            child,
            child,
        );
    }
}

/// Applying a value changes nothing but what it may.
pub proof fn lemma_called(
    callee: Datum,
    args: Seq<Datum>,
    scope: nat,
    w: World,
    fuel: nat,
    context: Seq<char>,
    otherwise: Failure,
)
    ensures
        kept(w, called(callee, args, scope, w, fuel, context, otherwise).world, scope),
    decreases fuel, 3nat, 0nat,
{
    match callee {
        Datum::Procedure(p) => {
            lemma_invoked(p, args, scope, w, fuel);
        },
        Datum::Lambda(params, body, captured) => {
            lemma_entered(params, body, captured, args, w, fuel, context);
            lemma_untouched_is_kept(
                w,
                entered(params, body, captured, args, w, fuel, context).world,
                scope,
            );
        },
        _ => {},
    }
}

/// Evaluating with a context changes nothing but what it may.
pub proof fn lemma_evaluated_with(
    expr: Datum,
    scope: nat,
    w: World,
    fuel: nat,
    context: Seq<char>,
)
    ensures
        kept(w, evaluated_with(expr, scope, w, fuel, context).world, scope),
    decreases fuel, 1nat, 0nat,
{
    law_evaluation_keeps_other_scopes(expr, scope, w, fuel);
}

/// A special form changes nothing but what it may.
pub proof fn lemma_form(form: SpecialForm, args: Seq<Datum>, scope: nat, w: World, fuel: nat)
    ensures
        kept(w, form_outcome(form, args, scope, w, fuel).world, scope),
    decreases fuel, 8nat, 0nat,
{
    match form {
        SpecialForm::Define => {
            lemma_define(args, scope, w, fuel);
        },
        SpecialForm::Quote => {},
        SpecialForm::If => {
            lemma_if(args, scope, w, fuel);
        },
        SpecialForm::And => {
            lemma_and_from(args, 0, scope, w, fuel);
        },
        SpecialForm::Or => {
            lemma_or_from(args, 0, scope, w, fuel);
        },
        SpecialForm::Lambda => {},
        SpecialForm::Cond => {
            lemma_cond_from(args, 0, scope, w, fuel);
        },
        SpecialForm::Begin => {
            if args.len() > 0 {
                lemma_evaluated_last(
                    args,
                    0,
                    Datum::Nil,
                    scope,
                    w,
                    fuel,
                    "Special Form <begin>: Missing parameter"@,
                );
            }
        },
        SpecialForm::Let => {
            lemma_let(args, scope, w, fuel);
        },
        SpecialForm::Quasiquote => {
            if args.len() >= 1 {
                match to_sequence(args[0]) {
                    Some(items) => {
                        lemma_quasi_items(items, 0, Seq::empty(), scope, w, fuel);
                    },
                    None => {},
                }
            }
        },
        SpecialForm::Unquote => {
            lemma_unquote(args, scope, w, fuel);
        },
    }
}

/// `define` changes nothing but what it may.
pub proof fn lemma_define(args: Seq<Datum>, scope: nat, w: World, fuel: nat)
    ensures
        kept(w, define_outcome(args, scope, w, fuel).world, scope),
    decreases fuel, 5nat, 0nat,
{
    if args.len() >= 2 {
        match args[0] {
            Datum::Symbol(name) => {
                let context = "Special Form <define>: Fail to evaluate a value"@;
                lemma_evaluated_with(args[1], scope, w, fuel, context);
                let o = evaluated_with(args[1], scope, w, fuel, context);
                match o.result {
                    Ok(v) => {
                        lemma_kept_defined(o.world, scope, name, v);
                        lemma_kept_twice(w, o.world, defined(o.world, scope, name, v), scope);
                    },
                    Err(_) => {},
                }
            },
            Datum::Pair(first, rest) => match *first {
                Datum::Symbol(name) => match lambda_result(seq![*rest] + args.drop_first(), scope) {
                    Ok(v) => {
                        lemma_kept_defined(w, scope, name, v);
                    },
                    Err(_) => {},
                },
                _ => {},
            },
            _ => {},
        }
    }
}

/// `if` changes nothing but what it may.
pub proof fn lemma_if(args: Seq<Datum>, scope: nat, w: World, fuel: nat)
    ensures
        kept(w, if_outcome(args, scope, w, fuel).world, scope),
    decreases fuel, 5nat, 0nat,
{
    if args.len() >= 2 {
        law_evaluation_keeps_other_scopes(args[0], scope, w, fuel);
        let o = evaluated(args[0], scope, w, fuel);
        match o.result {
            Ok(Datum::Boolean(false)) => {
                if args.len() >= 3 {
                    let context = "Special Form <if>: Fail to evaluate the false branch"@;
                    lemma_evaluated_with(args[2], scope, o.world, fuel, context);
                    lemma_kept_twice(
                        w,
                        o.world,
                        evaluated_with(args[2], scope, o.world, fuel, context).world,
                        scope,
                    );
                }
            },
            Ok(_) => {
                let context = "Special Form <if>: Fail to evaluate the true branch"@;
                lemma_evaluated_with(args[1], scope, o.world, fuel, context);
                lemma_kept_twice(
                    w,
                    o.world,
                    evaluated_with(args[1], scope, o.world, fuel, context).world,
                    scope,
                );
            },
            Err(e) => {
                if !halting(e.kind) {
                    let context = "Special Form <if>: Fail to evaluate the condition"@;
                    lemma_evaluated_with(args[1], scope, o.world, fuel, context);
                    lemma_kept_twice(
                        w,
                        o.world,
                        evaluated_with(args[1], scope, o.world, fuel, context).world,
                        scope,
                    );
                }
            },
        }
    }
}

/// `and` changes nothing but what it may.
pub proof fn lemma_and_from(args: Seq<Datum>, i: nat, scope: nat, w: World, fuel: nat)
    ensures
        kept(w, and_from(args, i, scope, w, fuel).world, scope),
    decreases fuel, 4nat, args.len() - i,
{
    if i < args.len() {
        law_evaluation_keeps_other_scopes(args[i as int], scope, w, fuel);
        let o = evaluated(args[i as int], scope, w, fuel);
        if i + 1 != args.len() {
            lemma_and_from(args, i + 1, scope, o.world, fuel);
            lemma_kept_twice(w, o.world, and_from(args, i + 1, scope, o.world, fuel).world, scope);
        }
    }
}

/// `or` changes nothing but what it may.
pub proof fn lemma_or_from(args: Seq<Datum>, i: nat, scope: nat, w: World, fuel: nat)
    ensures
        kept(w, or_from(args, i, scope, w, fuel).world, scope),
    decreases fuel, 4nat, args.len() - i,
{
    if i < args.len() {
        law_evaluation_keeps_other_scopes(args[i as int], scope, w, fuel);
        let o = evaluated(args[i as int], scope, w, fuel);
        lemma_or_from(args, i + 1, scope, o.world, fuel);
        lemma_kept_twice(w, o.world, or_from(args, i + 1, scope, o.world, fuel).world, scope);
    }
}

/// `cond` changes nothing but what it may.
pub proof fn lemma_cond_from(clauses: Seq<Datum>, i: nat, scope: nat, w: World, fuel: nat)
    ensures
        kept(w, cond_from(clauses, i, scope, w, fuel).world, scope),
    decreases fuel, 4nat, clauses.len() - i,
{
    if i < clauses.len() {
        match clauses[i as int] {
            Datum::Pair(_, _) => match to_sequence(clauses[i as int]) {
                Some(parts) => {
                    let context = "Special Form <cond>: Fail to evaluate condition"@;
                    lemma_evaluated_with(parts[0], scope, w, fuel, context);
                    let o = evaluated_with(parts[0], scope, w, fuel, context);
                    match o.result {
                        Err(_) => {},
                        Ok(Datum::Boolean(false)) => {
                            lemma_cond_from(clauses, i + 1, scope, o.world, fuel);
                            lemma_kept_twice(
                                w,
                                o.world,
                                cond_from(clauses, i + 1, scope, o.world, fuel).world,
                                scope,
                            );
                        },
                        Ok(flag) => {
                            let body = "Special Form <cond>: Fail to evaluate a value"@;
                            lemma_evaluated_last(parts, 1, flag, scope, o.world, fuel, body);
                            lemma_kept_twice(
                                w,
                                o.world,
                                evaluated_last(parts, 1, flag, scope, o.world, fuel, body).world,
                                scope,
                            );
                        },
                    }
                },
                None => {},
            },
            _ => {},
        }
    }
}

/// One binding of a `let` changes nothing but what it may.
pub proof fn lemma_let_binding(binding: Datum, scope: nat, w: World, fuel: nat)
    ensures
        kept(w, let_binding(binding, scope, w, fuel).world, scope),
    decreases fuel, 3nat, 0nat,
{
    match binding {
        Datum::Pair(_, _) => match to_sequence(binding) {
            Some(pair) => {
                if pair.len() == 2 {
                    lemma_evaluated_with(
                        pair[1],
                        scope,
                        w,
                        fuel,
                        "Special Form <let>: Fail to evaluate a value"@,
                    );
                }
            },
            None => {},
        },
        _ => {},
    }
}

/// The bindings of a `let` change nothing but what they may.
pub proof fn lemma_let_bindings(
    bindings: Seq<Datum>,
    i: nat,
    names: Seq<Seq<char>>,
    values: Seq<Datum>,
    scope: nat,
    w: World,
    fuel: nat,
)
    ensures
        kept(w, let_bindings(bindings, i, names, values, scope, w, fuel).world, scope),
    decreases fuel, 4nat, bindings.len() - i,
{
    if i < bindings.len() {
        lemma_let_binding(bindings[i as int], scope, w, fuel);
        let b = let_binding(bindings[i as int], scope, w, fuel);
        match b.result {
            Ok((name, v)) => {
                lemma_let_bindings(
                    bindings,
                    i + 1,
                    names.push(name),
                    values.push(v),
                    scope,
                    b.world,
                    fuel,
                );
                lemma_kept_twice(
                    w,
                    b.world,
                    let_bindings(
                        bindings,
                        i + 1,
                        names.push(name),
                        values.push(v),
                        scope,
                        b.world,
                        fuel,
                    ).world,
                    scope,
                );
            },
            Err(_) => {},
        }
    }
}

/// `let` changes nothing but what it may.
pub proof fn lemma_let(args: Seq<Datum>, scope: nat, w: World, fuel: nat)
    ensures
        kept(w, let_outcome(args, scope, w, fuel).world, scope),
    decreases fuel, 5nat, 0nat,
{
    if args.len() >= 1 && (args[0] is Pair || args[0] is Nil) {
        match to_sequence(args[0]) {
            Some(bindings) => {
                lemma_let_bindings(bindings, 0, Seq::empty(), Seq::empty(), scope, w, fuel);
                let b = let_bindings(bindings, 0, Seq::empty(), Seq::empty(), scope, w, fuel);
                match b.result {
                    Ok((names, values)) => {
                        if derive_failure(b.world, scope, names.len(), values.len()) is None {
                            law_let_body_touches_no_scope(args, scope, names, values, b.world, fuel);
                            let inside = derived(b.world, scope, names, values);
                            let after = evaluated_last(
                                args,
                                1,
                                Datum::Nil,
                                b.world.scopes.len(),
                                inside,
                                fuel,
                                "Special Form <let>: Fail to evaluate a value"@,
                            ).world;
                            lemma_untouched_is_kept(b.world, after, scope);
                            lemma_kept_twice(w, b.world, after, scope);
                        }
                    },
                    Err(_) => {},
                }
            },
            None => {},
        }
    }
}

/// The body of a `let`, and the bindings that the `let` makes, touch no
/// scope that was there: after the body is evaluated in the scope that binds
/// `names` to `values` inside `scope`, every scope that was there binds what
/// it bound before. A name that the `let` shadows keeps its outer binding.
pub proof fn law_let_body_touches_no_scope(
    args: Seq<Datum>,
    scope: nat,
    names: Seq<Seq<char>>,
    values: Seq<Datum>,
    w: World,
    fuel: nat,
)
    requires
        derive_failure(w, scope, names.len(), values.len()) is None,
    ensures
        untouched(
            w,
            evaluated_last(
                args,
                1,
                Datum::Nil,
                w.scopes.len(),
                derived(w, scope, names, values),
                fuel,
                "Special Form <let>: Fail to evaluate a value"@,
            ).world,
        ),
    decreases fuel, 2nat, 0nat,
{
    let inside = derived(w, scope, names, values);
    let child = w.scopes.len();
    let context = "Special Form <let>: Fail to evaluate a value"@;
    lemma_untouched_derived(w, scope, names, values);
    lemma_evaluated_last(args, 1, Datum::Nil, child, inside, fuel, context);
    lemma_kept_then_inside(
        w,
        inside,
        evaluated_last(args, 1, Datum::Nil, child, inside, fuel, context).world,
        child,
        child,
    );
}

/// `unquote` changes nothing but what it may.
pub proof fn lemma_unquote(args: Seq<Datum>, scope: nat, w: World, fuel: nat)
    ensures
        kept(w, unquote_outcome(args, scope, w, fuel).world, scope),
    decreases fuel, 3nat, 0nat,
{
    if args.len() == 1 {
        lemma_evaluated_with(
            args[0],
            scope,
            w,
            fuel,
            "Special Form <unquote>: Fail to evaluate a value"@,
        );
    }
}

/// One item of a quasiquoted list changes nothing but what it may.
pub proof fn lemma_quasi_item(item: Datum, scope: nat, w: World, fuel: nat)
    ensures
        kept(w, quasi_item(item, scope, w, fuel).world, scope),
    decreases fuel, 4nat, 0nat,
{
    match item {
        Datum::Pair(first, rest) => {
            if *first == Datum::Symbol("unquote"@) {
                match to_sequence(*rest) {
                    Some(operands) => {
                        lemma_unquote(operands, scope, w, fuel);
                    },
                    None => {},
                }
            }
        },
        _ => {},
    }
}

/// The items of a quasiquoted list change nothing but what they may.
pub proof fn lemma_quasi_items(
    items: Seq<Datum>,
    i: nat,
    done: Seq<Datum>,
    scope: nat,
    w: World,
    fuel: nat,
)
    ensures
        kept(w, quasi_items(items, i, done, scope, w, fuel).world, scope),
    decreases fuel, 5nat, items.len() - i,
{
    if i < items.len() {
        lemma_quasi_item(items[i as int], scope, w, fuel);
        let o = quasi_item(items[i as int], scope, w, fuel);
        match o.result {
            Ok(v) => {
                lemma_quasi_items(items, i + 1, done.push(v), scope, o.world, fuel);
                lemma_kept_twice(
                    w,
                    o.world,
                    quasi_items(items, i + 1, done.push(v), scope, o.world, fuel).world,
                    scope,
                );
            },
            Err(_) => {},
        }
    }
}

/// Printing touches no scope.
pub proof fn lemma_printed_lines(params: Seq<Datum>, count: nat, w: World, scope: nat)
    ensures
        kept(w, printed_lines(params, count, w), scope),
        printed_lines(params, count, w).scopes == w.scopes,
    decreases count,
{
    if count > 0 && count <= params.len() {
        lemma_printed_lines(params, (count - 1) as nat, w, scope);
    }
}

/// A builtin changes nothing but what it may.
pub proof fn lemma_builtin(b: Builtin, params: Seq<Datum>, scope: nat, w: World, fuel: nat)
    ensures
        kept(w, builtin_outcome(b, params, scope, w, fuel).world, scope),
    decreases fuel, 8nat, 0nat,
{
    match b {
        Builtin::Print => {
            lemma_printed_lines(params, params.len(), w, scope);
        },
        Builtin::Apply => {
            if count_failure(params.len(), 2, 2, "apply"@) is None && (params[0] is Procedure
                || params[0] is Lambda) {
                match to_sequence(params[1]) {
                    Some(args) => {
                        lemma_called(
                            params[0],
                            args,
                            scope,
                            w,
                            fuel,
                            body_context("apply"@),
                            callee_failure("apply"@),
                        );
                    },
                    None => {},
                }
            }
        },
        Builtin::Eval => {
            if count_failure(params.len(), 1, 1, "eval"@) is None {
                lemma_evaluated_with(
                    params[0],
                    scope,
                    w,
                    fuel,
                    label("eval"@, ">: Fail to evaluate a value"@),
                );
            }
        },
        Builtin::MapEach => {
            if count_failure(params.len(), 2, 2, "map"@) is None && (params[0] is Procedure
                || params[0] is Lambda) {
                match to_sequence(params[1]) {
                    Some(items) => {
                        lemma_mapped_from(params[0], items, 0, Seq::empty(), scope, w, fuel);
                    },
                    None => {},
                }
            }
        },
        Builtin::MapExpand => {
            if params.len() >= 2 {
                match expand_lists(params, 1, Seq::empty()) {
                    Ok(lists) => {
                        lemma_expanded_from(
                            params[0],
                            lists,
                            lists[0].len(),
                            0,
                            Seq::empty(),
                            scope,
                            w,
                            fuel,
                        );
                    },
                    Err(_) => {},
                }
            }
        },
        Builtin::Filter => {
            if count_failure(params.len(), 2, 2, "filter"@) is None && (params[0] is Procedure
                || params[0] is Lambda) {
                match to_sequence(params[1]) {
                    Some(items) => {
                        lemma_filtered_from(params[0], items, 0, Seq::empty(), scope, w, fuel);
                    },
                    None => {},
                }
            }
        },
        Builtin::Reduce => {
            if count_failure(params.len(), 2, 2, "reduce"@) is None && (params[0] is Procedure
                || params[0] is Lambda) {
                lemma_reduced(params[0], params[1], scope, w, fuel);
            }
        },
        Builtin::Not => {
            if count_failure(params.len(), 1, 1, "not"@) is None {
                law_evaluation_keeps_other_scopes(params[0], scope, w, fuel);
            }
        },
        _ => {},
    }
}

/// A call for a builtin that walks a list changes nothing but what it may.
pub proof fn lemma_called_each(
    callee: Datum,
    args: Seq<Datum>,
    scope: nat,
    w: World,
    fuel: nat,
    name: Seq<char>,
)
    ensures
        kept(w, called_each(callee, args, scope, w, fuel, name).world, scope),
    decreases fuel, 4nat, 0nat,
{
    lemma_called(callee, args, scope, w, fuel, body_context(name), callee_failure(name));
}

/// `map` changes nothing but what it may.
pub proof fn lemma_mapped_from(
    callee: Datum,
    items: Seq<Datum>,
    i: nat,
    done: Seq<Datum>,
    scope: nat,
    w: World,
    fuel: nat,
)
    ensures
        kept(w, mapped_from(callee, items, i, done, scope, w, fuel).world, scope),
    decreases fuel, 5nat, items.len() - i,
{
    if i < items.len() {
        lemma_called_each(callee, seq![items[i as int]], scope, w, fuel, "map"@);
        let o = called_each(callee, seq![items[i as int]], scope, w, fuel, "map"@);
        match o.result {
            Ok(v) => {
                lemma_mapped_from(callee, items, i + 1, done.push(v), scope, o.world, fuel);
                lemma_kept_twice(
                    w,
                    o.world,
                    mapped_from(callee, items, i + 1, done.push(v), scope, o.world, fuel).world,
                    scope,
                );
            },
            Err(_) => {},
        }
    }
}

/// `filter` changes nothing but what it may.
pub proof fn lemma_filtered_from(
    callee: Datum,
    items: Seq<Datum>,
    i: nat,
    done: Seq<Datum>,
    scope: nat,
    w: World,
    fuel: nat,
)
    ensures
        kept(w, filtered_from(callee, items, i, done, scope, w, fuel).world, scope),
    decreases fuel, 5nat, items.len() - i,
{
    if i < items.len() {
        lemma_called_each(callee, seq![items[i as int]], scope, w, fuel, "filter"@);
        let o = called_each(callee, seq![items[i as int]], scope, w, fuel, "filter"@);
        match o.result {
            Ok(Datum::Boolean(false)) => {
                lemma_filtered_from(callee, items, i + 1, done, scope, o.world, fuel);
                lemma_kept_twice(
                    w,
                    o.world,
                    filtered_from(callee, items, i + 1, done, scope, o.world, fuel).world,
                    scope,
                );
            },
            Ok(_) => {
                let kept_items = done.push(items[i as int]);
                lemma_filtered_from(callee, items, i + 1, kept_items, scope, o.world, fuel);
                lemma_kept_twice(
                    w,
                    o.world,
                    filtered_from(callee, items, i + 1, kept_items, scope, o.world, fuel).world,
                    scope,
                );
            },
            Err(_) => {},
        }
    }
}

/// `reduce` changes nothing but what it may.
pub proof fn lemma_reduced(callee: Datum, list: Datum, scope: nat, w: World, fuel: nat)
    ensures
        kept(w, reduced(callee, list, scope, w, fuel).world, scope),
    decreases fuel, 5nat, chain_length(list),
{
    match list {
        Datum::Pair(first, rest) => {
            if !(*rest is Nil) {
                lemma_reduced(callee, *rest, scope, w, fuel);
                let o = reduced(callee, *rest, scope, w, fuel);
                match o.result {
                    Ok(folded) => {
                        lemma_called(
                            callee,
                            seq![*first, folded],
                            scope,
                            o.world,
                            fuel,
                            body_context("reduce"@),
                            reduce_failure(),
                        );
                        lemma_kept_twice(
                            w,
                            o.world,
                            called(
                                callee,
                                seq![*first, folded],
                                scope,
                                o.world,
                                fuel,
                                body_context("reduce"@),
                                reduce_failure(),
                            ).world,
                            scope,
                        );
                    },
                    Err(_) => {},
                }
            }
        },
        _ => {},
    }
}

/// A row of `map_expand` changes nothing but what it may.
pub proof fn lemma_expand_row(
    lists: Seq<Seq<Datum>>,
    i: nat,
    j: nat,
    done: Seq<Datum>,
    scope: nat,
    w: World,
    fuel: nat,
)
    ensures
        kept(w, expand_row(lists, i, j, done, scope, w, fuel).world, scope),
    decreases fuel, 2nat, lists.len() - j,
{
    if j < lists.len() {
        let context = label("map_expand"@, ">: Need a procedure"@);
        lemma_evaluated_with(lists[j as int][i as int], scope, w, fuel, context);
        let o = evaluated_with(lists[j as int][i as int], scope, w, fuel, context);
        match o.result {
            Ok(v) => {
                lemma_expand_row(lists, i, j + 1, done.push(v), scope, o.world, fuel);
                lemma_kept_twice(
                    w,
                    o.world,
                    expand_row(lists, i, j + 1, done.push(v), scope, o.world, fuel).world,
                    scope,
                );
            },
            Err(_) => {},
        }
    }
}

/// `map_expand` changes nothing but what it may.
pub proof fn lemma_expanded_from(
    callee: Datum,
    lists: Seq<Seq<Datum>>,
    size: nat,
    i: nat,
    done: Seq<Datum>,
    scope: nat,
    w: World,
    fuel: nat,
)
    ensures
        kept(w, expanded_from(callee, lists, size, i, done, scope, w, fuel).world, scope),
    decreases fuel, 5nat, size - i,
{
    if i < size {
        lemma_expand_row(lists, i, 0, Seq::empty(), scope, w, fuel);
        let row = expand_row(lists, i, 0, Seq::empty(), scope, w, fuel);
        match row.result {
            Ok(args) => {
                lemma_called_each(callee, args, scope, row.world, fuel, "map_expand"@);
                let o = called_each(callee, args, scope, row.world, fuel, "map_expand"@);
                lemma_kept_twice(w, row.world, o.world, scope);
                match o.result {
                    Ok(v) => {
                        lemma_expanded_from(
                            callee,
                            lists,
                            size,
                            i + 1,
                            done.push(v),
                            scope,
                            o.world,
                            fuel,
                        );
                        lemma_kept_twice(
                            w,
                            o.world,
                            expanded_from(
                                callee,
                                lists,
                                size,
                                i + 1,
                                done.push(v),
                                scope,
                                o.world,
                                fuel,
                            ).world,
                            scope,
                        );
                    },
                    Err(_) => {},
                }
            },
            Err(_) => {},
        }
    }
}

/// An evaluation keeps the scope chain acyclic.
pub proof fn law_evaluation_keeps_well_formed(expr: Datum, scope: nat, w: World, fuel: nat)
    requires
        well_formed(w),
    ensures
        well_formed(evaluated(expr, scope, w, fuel).world),
{
    law_evaluation_keeps_other_scopes(expr, scope, w, fuel);
    law_kept_is_well_formed(w, evaluated(expr, scope, w, fuel).world, scope);
}

/// Where no scope that was there is touched, every name that is sought from
/// one of them is bound to what it was bound to.
pub proof fn law_untouched_scopes_bind_the_same(
    w: World,
    after: World,
    from: nat,
    sought: Seq<char>,
)
    requires
        untouched(w, after),
        from < w.scopes.len(),
    ensures
        lookup(after, from, sought) == lookup(w, from, sought),
    decreases from,
{
    assert(after.scopes[from as int] == w.scopes[from as int]);
    match w.scopes[from as int].parent {
        Some(p) => {
            if p < from {
                law_untouched_scopes_bind_the_same(w, after, p, sought);
            }
        },
        None => {},
    }
}

/// A `let` that shadows a name does not alter the outer binding: after the
/// body of the `let` is completed, every name that is sought from a scope
/// that was there before the `let` made its own is bound to what it was
/// bound to.
pub proof fn law_let_keeps_outer_bindings(
    args: Seq<Datum>,
    scope: nat,
    names: Seq<Seq<char>>,
    values: Seq<Datum>,
    w: World,
    fuel: nat,
    from: nat,
    sought: Seq<char>,
)
    requires
        derive_failure(w, scope, names.len(), values.len()) is None,
        from < w.scopes.len(),
    ensures
        lookup(
            evaluated_last(
                args,
                1,
                Datum::Nil,
                w.scopes.len(),
                derived(w, scope, names, values),
                fuel,
                "Special Form <let>: Fail to evaluate a value"@,
            ).world,
            from,
            sought,
        ) == lookup(w, from, sought),
{
    law_let_body_touches_no_scope(args, scope, names, values, w, fuel);
    law_untouched_scopes_bind_the_same(
        w,
        evaluated_last(
            args,
            1,
            Datum::Nil,
            w.scopes.len(),
            derived(w, scope, names, values),
            fuel,
            "Special Form <let>: Fail to evaluate a value"@,
        ).world,
        from,
        sought,
    );
}

/// Calling a closure does not alter what its caller sees: after a lambda is
/// entered and its body completed, every name that is sought from a scope
/// that was there before the call is bound to what it was bound to.
pub proof fn law_call_keeps_outer_bindings(
    params: Seq<Seq<char>>,
    body: Seq<Datum>,
    captured: nat,
    args: Seq<Datum>,
    w: World,
    fuel: nat,
    context: Seq<char>,
    from: nat,
    sought: Seq<char>,
)
    requires
        from < w.scopes.len(),
    ensures
        lookup(entered(params, body, captured, args, w, fuel, context).world, from, sought)
            == lookup(w, from, sought),
{
    lemma_entered(params, body, captured, args, w, fuel, context);
    law_untouched_scopes_bind_the_same(
        w,
        entered(params, body, captured, args, w, fuel, context).world,
        from,
        sought,
    );
}

} // verus!
