//! The depth that an evaluation is granted decides whether it is completed,
//! and nothing else: an evaluation that does not run out of depth gives the
//! same value, or the same error, and leaves the same state, however much
//! more depth it is granted.

use vstd::prelude::*;
use crate::builtins::{
    body_context, builtin_outcome, called_each, callee_failure, chain_length, count_failure,
    expand_lists, expand_row, expanded_from, filtered_from, label, mapped_from, reduce_failure,
    reduced,
};
use crate::error::{halting, ErrorKind, Failure};
use crate::eval_env::{
    applied, called, derive_failure, derived, entered, evaluated, evaluated_each, evaluated_last,
    invoked, lookup, operand_context, World,
};
use crate::procedure::{builtin_named, form_named, Builtin, Procedure, SpecialForm};
use crate::special_forms::{
    and_from, cond_from, evaluated_with, form_outcome, if_outcome, let_binding, let_bindings,
    let_outcome, or_from, quasi_item, quasi_items, unquote_outcome,
};
use crate::value::{from_sequence, to_sequence, Datum};

verus! {

/// Whether a result is the error of an evaluation that ran out of depth.
pub open spec fn ran_out<T>(r: Result<T, Failure>) -> bool {
    match r {
        Err(e) => e.kind == ErrorKind::DepthExceeded,
        Ok(_) => false,
    }
}

/// An evaluation that does not run out of depth gives the same with more.
pub proof fn law_more_depth_changes_nothing(
    expr: Datum,
    scope: nat,
    w: World,
    fuel: nat,
    more: nat,
)
    requires
        fuel <= more,
        !ran_out(evaluated(expr, scope, w, fuel).result),
    ensures
        evaluated(expr, scope, w, more) == evaluated(expr, scope, w, fuel),
    decreases fuel, 0nat, 0nat,
{
    if fuel > 0 {
        match expr {
            Datum::Pair(_, _) => match to_sequence(expr) {
                Some(items) => {
                    lemma_applied(items, scope, w, (fuel - 1) as nat, (more - 1) as nat);
                },
                None => {},
            },
            _ => {},
        }
    }
}

/// An application that does not run out of depth gives the same with more.
pub proof fn lemma_applied(items: Seq<Datum>, scope: nat, w: World, fuel: nat, more: nat)
    requires
        fuel <= more,
        !ran_out(applied(items, scope, w, fuel).result),
    ensures
        applied(items, scope, w, more) == applied(items, scope, w, fuel),
    decreases fuel, 9nat, 0nat,
{
    if items.len() > 0 {
        match items[0] {
            Datum::Symbol(name) => match lookup(w, scope, name) {
                Some(Datum::Procedure(p)) => {
                    lemma_evaluated_each(
                        items,
                        1,
                        Seq::empty(),
                        scope,
                        w,
                        fuel,
                        more,
                        operand_context(),
                    );
                    let g = evaluated_each(
                        items,
                        1,
                        Seq::empty(),
                        scope,
                        w,
                        fuel,
                        operand_context(),
                    );
                    match g.result {
                        Ok(args) => {
                            lemma_invoked(p, args, scope, g.world, fuel, more);
                        },
                        Err(_) => {},
                    }
                },
                Some(Datum::Lambda(params, body, captured)) => {
                    lemma_evaluated_each(
                        items,
                        1,
                        Seq::empty(),
                        scope,
                        w,
                        fuel,
                        more,
                        operand_context(),
                    );
                    let g = evaluated_each(
                        items,
                        1,
                        Seq::empty(),
                        scope,
                        w,
                        fuel,
                        operand_context(),
                    );
                    match g.result {
                        Ok(args) => {
                            lemma_entered(
                                params,
                                body,
                                captured,
                                args,
                                g.world,
                                fuel,
                                more,
                                operand_context(),
                            );
                        },
                        Err(_) => {},
                    }
                },
                _ => match form_named(name) {
                    Some(form) => {
                        if form != SpecialForm::Unquote {
                            lemma_form(form, items.drop_first(), scope, w, fuel, more);
                        }
                    },
                    None => match builtin_named(name) {
                        Some(b) => {
                            lemma_evaluated_each(
                                items,
                                1,
                                Seq::empty(),
                                scope,
                                w,
                                fuel,
                                more,
                                operand_context(),
                            );
                            let g = evaluated_each(
                                items,
                                1,
                                Seq::empty(),
                                scope,
                                w,
                                fuel,
                                operand_context(),
                            );
                            match g.result {
                                Ok(args) => {
                                    lemma_builtin(b, args, scope, g.world, fuel, more);
                                },
                                Err(_) => {},
                            }
                        },
                        None => {},
                    },
                },
            },
            Datum::Pair(_, _) => {
                lemma_evaluated_each(
                    items,
                    0,
                    Seq::empty(),
                    scope,
                    w,
                    fuel,
                    more,
                    operand_context(),
                );
                let g = evaluated_each(items, 0, Seq::empty(), scope, w, fuel, operand_context());
                match g.result {
                    Ok(values) => {
                        law_more_depth_changes_nothing(
                            from_sequence(values),
                            scope,
                            g.world,
                            fuel,
                            more,
                        );
                    },
                    Err(_) => {},
                }
            },
            Datum::Procedure(p) => {
                lemma_invoked(p, items.drop_first(), scope, w, fuel, more);
            },
            Datum::Lambda(params, body, captured) => {
                lemma_entered(
                    params,
                    body,
                    captured,
                    items.drop_first(),
                    w,
                    fuel,
                    more,
                    operand_context(),
                );
            },
            _ => {},
        }
    }
}

/// A call of a procedure that does not run out of depth gives the same with
/// more.
pub proof fn lemma_invoked(
    p: Procedure,
    args: Seq<Datum>,
    scope: nat,
    w: World,
    fuel: nat,
    more: nat,
)
    requires
        fuel <= more,
        !ran_out(invoked(p, args, scope, w, fuel).result),
    ensures
        invoked(p, args, scope, w, more) == invoked(p, args, scope, w, fuel),
    decreases fuel, 0nat, 0nat,
{
    if fuel > 0 {
        match p {
            Procedure::Form(form) => {
                lemma_form(form, args, scope, w, (fuel - 1) as nat, (more - 1) as nat);
            },
            Procedure::Builtin(b) => {
                lemma_builtin(b, args, scope, w, (fuel - 1) as nat, (more - 1) as nat);
            },
        }
    }
}

/// Evaluating several expressions without running out of depth gives the
/// same with more.
pub proof fn lemma_evaluated_each(
    items: Seq<Datum>,
    i: nat,
    done: Seq<Datum>,
    scope: nat,
    w: World,
    fuel: nat,
    more: nat,
    context: Seq<char>,
)
    requires
        fuel <= more,
        !ran_out(evaluated_each(items, i, done, scope, w, fuel, context).result),
    ensures
        evaluated_each(items, i, done, scope, w, more, context) == evaluated_each(
            items,
            i,
            done,
            scope,
            w,
            fuel,
            context,
        ),
    decreases fuel, 1nat, items.len() - i,
{
    if i < items.len() {
        law_more_depth_changes_nothing(items[i as int], scope, w, fuel, more);
        let o = evaluated(items[i as int], scope, w, fuel);
        match o.result {
            Ok(v) => {
                lemma_evaluated_each(items, i + 1, done.push(v), scope, o.world, fuel, more, context);
            },
            Err(_) => {},
        }
    }
}

/// Evaluating a body without running out of depth gives the same with more.
pub proof fn lemma_evaluated_last(
    items: Seq<Datum>,
    i: nat,
    last: Datum,
    scope: nat,
    w: World,
    fuel: nat,
    more: nat,
    context: Seq<char>,
)
    requires
        fuel <= more,
        !ran_out(evaluated_last(items, i, last, scope, w, fuel, context).result),
    ensures
        evaluated_last(items, i, last, scope, w, more, context) == evaluated_last(
            items,
            i,
            last,
            scope,
            w,
            fuel,
            context,
        ),
    decreases fuel, 1nat, items.len() - i,
{
    if i < items.len() {
        law_more_depth_changes_nothing(items[i as int], scope, w, fuel, more);
        let o = evaluated(items[i as int], scope, w, fuel);
        match o.result {
            Ok(v) => {
                lemma_evaluated_last(items, i + 1, v, scope, o.world, fuel, more, context);
            },
            Err(_) => {},
        }
    }
}

/// Entering a lambda without running out of depth gives the same with more.
pub proof fn lemma_entered(
    params: Seq<Seq<char>>,
    body: Seq<Datum>,
    captured: nat,
    args: Seq<Datum>,
    w: World,
    fuel: nat,
    more: nat,
    context: Seq<char>,
)
    requires
        fuel <= more,
        !ran_out(entered(params, body, captured, args, w, fuel, context).result),
    ensures
        entered(params, body, captured, args, w, more, context) == entered(
            params,
            body,
            captured,
            args,
            w,
            fuel,
            context,
        ),
    decreases fuel, 2nat, 0nat,
{
    if derive_failure(w, captured, params.len(), args.len()) is None {
        lemma_evaluated_last(
            body,
            0,
            Datum::Nil,
            w.scopes.len(),
            derived(w, captured, params, args),
            fuel,
            more,
            context,
        );
    }
}

/// Applying a value without running out of depth gives the same with more.
pub proof fn lemma_called(
    callee: Datum,
    args: Seq<Datum>,
    scope: nat,
    w: World,
    fuel: nat,
    more: nat,
    context: Seq<char>,
    otherwise: Failure,
)
    requires
        fuel <= more,
        !ran_out(called(callee, args, scope, w, fuel, context, otherwise).result),
    ensures
        called(callee, args, scope, w, more, context, otherwise) == called(
            callee,
            args,
            scope,
            w,
            fuel,
            context,
            otherwise,
        ),
    decreases fuel, 3nat, 0nat,
{
    match callee {
        Datum::Procedure(p) => {
            lemma_invoked(p, args, scope, w, fuel, more);
        },
        Datum::Lambda(params, body, captured) => {
            lemma_entered(params, body, captured, args, w, fuel, more, context);
        },
        _ => {},
    }
}

/// Evaluating with a context without running out of depth gives the same
/// with more.
pub proof fn lemma_evaluated_with(
    expr: Datum,
    scope: nat,
    w: World,
    fuel: nat,
    more: nat,
    context: Seq<char>,
)
    requires
        fuel <= more,
        !ran_out(evaluated_with(expr, scope, w, fuel, context).result),
    ensures
        evaluated_with(expr, scope, w, more, context) == evaluated_with(
            expr,
            scope,
            w,
            fuel,
            context,
        ),
    decreases fuel, 1nat, 0nat,
{
    law_more_depth_changes_nothing(expr, scope, w, fuel, more);
}

/// A special form that does not run out of depth gives the same with more.
pub proof fn lemma_form(
    form: SpecialForm,
    args: Seq<Datum>,
    scope: nat,
    w: World,
    fuel: nat,
    more: nat,
)
    requires
        fuel <= more,
        !ran_out(form_outcome(form, args, scope, w, fuel).result),
    ensures
        form_outcome(form, args, scope, w, more) == form_outcome(form, args, scope, w, fuel),
    decreases fuel, 8nat, 0nat,
{
    match form {
        SpecialForm::Define => {
            if args.len() >= 2 && args[0] is Symbol {
                lemma_evaluated_with(
                    args[1],
                    scope,
                    w,
                    fuel,
                    more,
                    "Special Form <define>: Fail to evaluate a value"@,
                );
            }
        },
        SpecialForm::Quote => {},
        SpecialForm::If => {
            lemma_if(args, scope, w, fuel, more);
        },
        SpecialForm::And => {
            lemma_and_from(args, 0, scope, w, fuel, more);
        },
        SpecialForm::Or => {
            lemma_or_from(args, 0, scope, w, fuel, more);
        },
        SpecialForm::Lambda => {},
        SpecialForm::Cond => {
            lemma_cond_from(args, 0, scope, w, fuel, more);
        },
        SpecialForm::Begin => {
            if args.len() > 0 {
                lemma_evaluated_last(
                    args,
                    0,
                    Datum::Nil,
                    scope,
                    w,
                    fuel,
                    more,
                    "Special Form <begin>: Missing parameter"@,
                );
            }
        },
        SpecialForm::Let => {
            lemma_let(args, scope, w, fuel, more);
        },
        SpecialForm::Quasiquote => {
            if args.len() >= 1 {
                match to_sequence(args[0]) {
                    Some(items) => {
                        lemma_quasi_items(items, 0, Seq::empty(), scope, w, fuel, more);
                    },
                    None => {},
                }
            }
        },
        SpecialForm::Unquote => {
            lemma_unquote(args, scope, w, fuel, more);
        },
    }
}

/// `if` without running out of depth gives the same with more.
pub proof fn lemma_if(args: Seq<Datum>, scope: nat, w: World, fuel: nat, more: nat)
    requires
        fuel <= more,
        !ran_out(if_outcome(args, scope, w, fuel).result),
    ensures
        if_outcome(args, scope, w, more) == if_outcome(args, scope, w, fuel),
    decreases fuel, 5nat, 0nat,
{
    if args.len() >= 2 {
        law_more_depth_changes_nothing(args[0], scope, w, fuel, more);
        let o = evaluated(args[0], scope, w, fuel);
        match o.result {
            Ok(Datum::Boolean(false)) => {
                if args.len() >= 3 {
                    lemma_evaluated_with(
                        args[2],
                        scope,
                        o.world,
                        fuel,
                        more,
                        "Special Form <if>: Fail to evaluate the false branch"@,
                    );
                }
            },
            Ok(_) => {
                lemma_evaluated_with(
                    args[1],
                    scope,
                    o.world,
                    fuel,
                    more,
                    "Special Form <if>: Fail to evaluate the true branch"@,
                );
            },
            Err(e) => {
                if !halting(e.kind) {
                    lemma_evaluated_with(
                        args[1],
                        scope,
                        o.world,
                        fuel,
                        more,
                        "Special Form <if>: Fail to evaluate the condition"@,
                    );
                }
            },
        }
    }
}

/// `and` without running out of depth gives the same with more.
pub proof fn lemma_and_from(args: Seq<Datum>, i: nat, scope: nat, w: World, fuel: nat, more: nat)
    requires
        fuel <= more,
        !ran_out(and_from(args, i, scope, w, fuel).result),
    ensures
        and_from(args, i, scope, w, more) == and_from(args, i, scope, w, fuel),
    decreases fuel, 4nat, args.len() - i,
{
    if i < args.len() {
        law_more_depth_changes_nothing(args[i as int], scope, w, fuel, more);
        let o = evaluated(args[i as int], scope, w, fuel);
        match o.result {
            Ok(Datum::Boolean(false)) => {},
            Ok(_) => {
                if i + 1 != args.len() {
                    lemma_and_from(args, i + 1, scope, o.world, fuel, more);
                }
            },
            Err(e) => {
                if !halting(e.kind) && i + 1 != args.len() {
                    lemma_and_from(args, i + 1, scope, o.world, fuel, more);
                }
            },
        }
    }
}

/// `or` without running out of depth gives the same with more.
pub proof fn lemma_or_from(args: Seq<Datum>, i: nat, scope: nat, w: World, fuel: nat, more: nat)
    requires
        fuel <= more,
        !ran_out(or_from(args, i, scope, w, fuel).result),
    ensures
        or_from(args, i, scope, w, more) == or_from(args, i, scope, w, fuel),
    decreases fuel, 4nat, args.len() - i,
{
    if i < args.len() {
        law_more_depth_changes_nothing(args[i as int], scope, w, fuel, more);
        let o = evaluated(args[i as int], scope, w, fuel);
        match o.result {
            Ok(Datum::Boolean(false)) => {
                lemma_or_from(args, i + 1, scope, o.world, fuel, more);
            },
            _ => {},
        }
    }
}

/// `cond` without running out of depth gives the same with more.
pub proof fn lemma_cond_from(
    clauses: Seq<Datum>,
    i: nat,
    scope: nat,
    w: World,
    fuel: nat,
    more: nat,
)
    requires
        fuel <= more,
        !ran_out(cond_from(clauses, i, scope, w, fuel).result),
    ensures
        cond_from(clauses, i, scope, w, more) == cond_from(clauses, i, scope, w, fuel),
    decreases fuel, 4nat, clauses.len() - i,
{
    if i < clauses.len() {
        match clauses[i as int] {
            Datum::Pair(_, _) => match to_sequence(clauses[i as int]) {
                Some(parts) => {
                    let context = "Special Form <cond>: Fail to evaluate condition"@;
                    lemma_evaluated_with(parts[0], scope, w, fuel, more, context);
                    let o = evaluated_with(parts[0], scope, w, fuel, context);
                    match o.result {
                        Err(_) => {},
                        Ok(Datum::Boolean(false)) => {
                            lemma_cond_from(clauses, i + 1, scope, o.world, fuel, more);
                        },
                        Ok(flag) => {
                            if !(flag == Datum::Symbol("else"@) && i + 1 != clauses.len()) {
                                lemma_evaluated_last(
                                    parts,
                                    1,
                                    flag,
                                    scope,
                                    o.world,
                                    fuel,
                                    more,
                                    "Special Form <cond>: Fail to evaluate a value"@,
                                );
                            }
                        },
                    }
                },
                None => {},
            },
            _ => {},
        }
    }
}

/// One binding of a `let` without running out of depth gives the same with
/// more.
pub proof fn lemma_let_binding(binding: Datum, scope: nat, w: World, fuel: nat, more: nat)
    requires
        fuel <= more,
        !ran_out(let_binding(binding, scope, w, fuel).result),
    ensures
        let_binding(binding, scope, w, more) == let_binding(binding, scope, w, fuel),
    decreases fuel, 3nat, 0nat,
{
    match binding {
        Datum::Pair(_, _) => match to_sequence(binding) {
            Some(pair) => {
                if pair.len() == 2 {
                    lemma_evaluated_with(
                        pair[1],
                        scope,
                        w,
                        fuel,
                        more,
                        "Special Form <let>: Fail to evaluate a value"@,
                    );
                }
            },
            None => {},
        },
        _ => {},
    }
}

/// The bindings of a `let` without running out of depth give the same with
/// more.
pub proof fn lemma_let_bindings(
    bindings: Seq<Datum>,
    i: nat,
    names: Seq<Seq<char>>,
    values: Seq<Datum>,
    scope: nat,
    w: World,
    fuel: nat,
    more: nat,
)
    requires
        fuel <= more,
        !ran_out(let_bindings(bindings, i, names, values, scope, w, fuel).result),
    ensures
        let_bindings(bindings, i, names, values, scope, w, more) == let_bindings(
            bindings,
            i,
            names,
            values,
            scope,
            w,
            fuel,
        ),
    decreases fuel, 4nat, bindings.len() - i,
{
    if i < bindings.len() {
        lemma_let_binding(bindings[i as int], scope, w, fuel, more);
        let b = let_binding(bindings[i as int], scope, w, fuel);
        match b.result {
            Ok((name, v)) => {
                lemma_let_bindings(
                    bindings,
                    i + 1,
                    names.push(name),
                    values.push(v),
                    scope,
                    b.world,
                    fuel,
                    more,
                );
            },
            Err(_) => {},
        }
    }
}

/// `let` without running out of depth gives the same with more.
pub proof fn lemma_let(args: Seq<Datum>, scope: nat, w: World, fuel: nat, more: nat)
    requires
        fuel <= more,
        !ran_out(let_outcome(args, scope, w, fuel).result),
    ensures
        let_outcome(args, scope, w, more) == let_outcome(args, scope, w, fuel),
    decreases fuel, 5nat, 0nat,
{
    if args.len() >= 1 && (args[0] is Pair || args[0] is Nil) {
        match to_sequence(args[0]) {
            Some(bindings) => {
                lemma_let_bindings(bindings, 0, Seq::empty(), Seq::empty(), scope, w, fuel, more);
                let b = let_bindings(bindings, 0, Seq::empty(), Seq::empty(), scope, w, fuel);
                match b.result {
                    Ok((names, values)) => {
                        if derive_failure(b.world, scope, names.len(), values.len()) is None {
                            lemma_evaluated_last(
                                args,
                                1,
                                Datum::Nil,
                                b.world.scopes.len(),
                                derived(b.world, scope, names, values),
                                fuel,
                                more,
                                "Special Form <let>: Fail to evaluate a value"@,
                            );
                        }
                    },
                    Err(_) => {},
                }
            },
            None => {},
        }
    }
}

/// `unquote` without running out of depth gives the same with more.
pub proof fn lemma_unquote(args: Seq<Datum>, scope: nat, w: World, fuel: nat, more: nat)
    requires
        fuel <= more,
        !ran_out(unquote_outcome(args, scope, w, fuel).result),
    ensures
        unquote_outcome(args, scope, w, more) == unquote_outcome(args, scope, w, fuel),
    decreases fuel, 3nat, 0nat,
{
    if args.len() == 1 {
        lemma_evaluated_with(
            args[0],
            scope,
            w,
            fuel,
            more,
            "Special Form <unquote>: Fail to evaluate a value"@,
        );
    }
}

/// One item of a quasiquoted list without running out of depth gives the
/// same with more.
pub proof fn lemma_quasi_item(item: Datum, scope: nat, w: World, fuel: nat, more: nat)
    requires
        fuel <= more,
        !ran_out(quasi_item(item, scope, w, fuel).result),
    ensures
        quasi_item(item, scope, w, more) == quasi_item(item, scope, w, fuel),
    decreases fuel, 4nat, 0nat,
{
    match item {
        Datum::Pair(first, rest) => {
            if *first == Datum::Symbol("unquote"@) {
                match to_sequence(*rest) {
                    Some(operands) => {
                        lemma_unquote(operands, scope, w, fuel, more);
                    },
                    None => {},
                }
            }
        },
        _ => {},
    }
}

/// The items of a quasiquoted list without running out of depth give the
/// same with more.
pub proof fn lemma_quasi_items(
    items: Seq<Datum>,
    i: nat,
    done: Seq<Datum>,
    scope: nat,
    w: World,
    fuel: nat,
    more: nat,
)
    requires
        fuel <= more,
        !ran_out(quasi_items(items, i, done, scope, w, fuel).result),
    ensures
        quasi_items(items, i, done, scope, w, more) == quasi_items(
            items,
            i,
            done,
            scope,
            w,
            fuel,
        ),
    decreases fuel, 5nat, items.len() - i,
{
    if i < items.len() {
        lemma_quasi_item(items[i as int], scope, w, fuel, more);
        let o = quasi_item(items[i as int], scope, w, fuel);
        match o.result {
            Ok(v) => {
                lemma_quasi_items(items, i + 1, done.push(v), scope, o.world, fuel, more);
            },
            Err(_) => {},
        }
    }
}

/// A builtin that does not run out of depth gives the same with more.
pub proof fn lemma_builtin(
    b: Builtin,
    params: Seq<Datum>,
    scope: nat,
    w: World,
    fuel: nat,
    more: nat,
)
    requires
        fuel <= more,
        !ran_out(builtin_outcome(b, params, scope, w, fuel).result),
    ensures
        builtin_outcome(b, params, scope, w, more) == builtin_outcome(b, params, scope, w, fuel),
    decreases fuel, 8nat, 0nat,
{
    match b {
        Builtin::Apply => {
            if count_failure(params.len(), 2, 2, "apply"@) is None && (params[0] is Procedure
                || params[0] is Lambda) {
                match to_sequence(params[1]) {
                    Some(args) => {
                        lemma_called(
                            params[0],
                            args,
                            scope,
                            w,
                            fuel,
                            more,
                            body_context("apply"@),
                            callee_failure("apply"@),
                        );
                    },
                    None => {},
                }
            }
        },
        Builtin::Eval => {
            if count_failure(params.len(), 1, 1, "eval"@) is None {
                lemma_evaluated_with(
                    params[0],
                    scope,
                    w,
                    fuel,
                    more,
                    label("eval"@, ">: Fail to evaluate a value"@),
                );
            }
        },
        Builtin::MapEach => {
            if count_failure(params.len(), 2, 2, "map"@) is None && (params[0] is Procedure
                || params[0] is Lambda) {
                match to_sequence(params[1]) {
                    Some(items) => {
                        lemma_mapped_from(params[0], items, 0, Seq::empty(), scope, w, fuel, more);
                    },
                    None => {},
                }
            }
        },
        Builtin::MapExpand => {
            if params.len() >= 2 {
                match expand_lists(params, 1, Seq::empty()) {
                    Ok(lists) => {
                        lemma_expanded_from(
                            params[0],
                            lists,
                            lists[0].len(),
                            0,
                            Seq::empty(),
                            scope,
                            w,
                            fuel,
                            more,
                        );
                    },
                    Err(_) => {},
                }
            }
        },
        Builtin::Filter => {
            if count_failure(params.len(), 2, 2, "filter"@) is None && (params[0] is Procedure
                || params[0] is Lambda) {
                match to_sequence(params[1]) {
                    Some(items) => {
                        lemma_filtered_from(
                            params[0],
                            items,
                            0,
                            Seq::empty(),
                            scope,
                            w,
                            fuel,
                            more,
                        );
                    },
                    None => {},
                }
            }
        },
        Builtin::Reduce => {
            if count_failure(params.len(), 2, 2, "reduce"@) is None && (params[0] is Procedure
                || params[0] is Lambda) {
                lemma_reduced(params[0], params[1], scope, w, fuel, more);
            }
        },
        Builtin::Not => {
            if count_failure(params.len(), 1, 1, "not"@) is None {
                law_more_depth_changes_nothing(params[0], scope, w, fuel, more);
            }
        },
        _ => {},
    }
}

/// A call for a builtin that walks a list, without running out of depth,
/// gives the same with more.
pub proof fn lemma_called_each(
    callee: Datum,
    args: Seq<Datum>,
    scope: nat,
    w: World,
    fuel: nat,
    more: nat,
    name: Seq<char>,
)
    requires
        fuel <= more,
        !ran_out(called_each(callee, args, scope, w, fuel, name).result),
    ensures
        called_each(callee, args, scope, w, more, name) == called_each(
            callee,
            args,
            scope,
            w,
            fuel,
            name,
        ),
    decreases fuel, 4nat, 0nat,
{
    lemma_called(callee, args, scope, w, fuel, more, body_context(name), callee_failure(name));
}

/// `map` without running out of depth gives the same with more.
pub proof fn lemma_mapped_from(
    callee: Datum,
    items: Seq<Datum>,
    i: nat,
    done: Seq<Datum>,
    scope: nat,
    w: World,
    fuel: nat,
    more: nat,
)
    requires
        fuel <= more,
        !ran_out(mapped_from(callee, items, i, done, scope, w, fuel).result),
    ensures
        mapped_from(callee, items, i, done, scope, w, more) == mapped_from(
            callee,
            items,
            i,
            done,
            scope,
            w,
            fuel,
        ),
    decreases fuel, 5nat, items.len() - i,
{
    if i < items.len() {
        lemma_called_each(callee, seq![items[i as int]], scope, w, fuel, more, "map"@);
        let o = called_each(callee, seq![items[i as int]], scope, w, fuel, "map"@);
        match o.result {
            Ok(v) => {
                lemma_mapped_from(callee, items, i + 1, done.push(v), scope, o.world, fuel, more);
            },
            Err(_) => {},
        }
    }
}

/// `filter` without running out of depth gives the same with more.
pub proof fn lemma_filtered_from(
    callee: Datum,
    items: Seq<Datum>,
    i: nat,
    done: Seq<Datum>,
    scope: nat,
    w: World,
    fuel: nat,
    more: nat,
)
    requires
        fuel <= more,
        !ran_out(filtered_from(callee, items, i, done, scope, w, fuel).result),
    ensures
        filtered_from(callee, items, i, done, scope, w, more) == filtered_from(
            callee,
            items,
            i,
            done,
            scope,
            w,
            fuel,
        ),
    decreases fuel, 5nat, items.len() - i,
{
    if i < items.len() {
        lemma_called_each(callee, seq![items[i as int]], scope, w, fuel, more, "filter"@);
        let o = called_each(callee, seq![items[i as int]], scope, w, fuel, "filter"@);
        match o.result {
            Ok(Datum::Boolean(false)) => {
                lemma_filtered_from(callee, items, i + 1, done, scope, o.world, fuel, more);
            },
            Ok(_) => {
                lemma_filtered_from(
                    callee,
                    items,
                    i + 1,
                    done.push(items[i as int]),
                    scope,
                    o.world,
                    fuel,
                    more,
                );
            },
            Err(_) => {},
        }
    }
}

/// `reduce` without running out of depth gives the same with more.
pub proof fn lemma_reduced(
    callee: Datum,
    list: Datum,
    scope: nat,
    w: World,
    fuel: nat,
    more: nat,
)
    requires
        fuel <= more,
        !ran_out(reduced(callee, list, scope, w, fuel).result),
    ensures
        reduced(callee, list, scope, w, more) == reduced(callee, list, scope, w, fuel),
    decreases fuel, 5nat, chain_length(list),
{
    match list {
        Datum::Pair(first, rest) => {
            if !(*rest is Nil) {
                lemma_reduced(callee, *rest, scope, w, fuel, more);
                let o = reduced(callee, *rest, scope, w, fuel);
                match o.result {
                    Ok(folded) => {
                        lemma_called(
                            callee,
                            seq![*first, folded],
                            scope,
                            o.world,
                            fuel,
                            more,
                            body_context("reduce"@),
                            reduce_failure(),
                        );
                    },
                    Err(_) => {},
                }
            }
        },
        _ => {},
    }
}

/// A row of `map_expand` without running out of depth gives the same with
/// more.
pub proof fn lemma_expand_row(
    lists: Seq<Seq<Datum>>,
    i: nat,
    j: nat,
    done: Seq<Datum>,
    scope: nat,
    w: World,
    fuel: nat,
    more: nat,
)
    requires
        fuel <= more,
        !ran_out(expand_row(lists, i, j, done, scope, w, fuel).result),
    ensures
        expand_row(lists, i, j, done, scope, w, more) == expand_row(
            lists,
            i,
            j,
            done,
            scope,
            w,
            fuel,
        ),
    decreases fuel, 2nat, lists.len() - j,
{
    if j < lists.len() {
        let context = label("map_expand"@, ">: Need a procedure"@);
        lemma_evaluated_with(lists[j as int][i as int], scope, w, fuel, more, context);
        let o = evaluated_with(lists[j as int][i as int], scope, w, fuel, context);
        match o.result {
            Ok(v) => {
                lemma_expand_row(lists, i, j + 1, done.push(v), scope, o.world, fuel, more);
            },
            Err(_) => {},
        }
    }
}

/// `map_expand` without running out of depth gives the same with more.
pub proof fn lemma_expanded_from(
    callee: Datum,
    lists: Seq<Seq<Datum>>,
    size: nat,
    i: nat,
    done: Seq<Datum>,
    scope: nat,
    w: World,
    fuel: nat,
    more: nat,
)
    requires
        fuel <= more,
        !ran_out(expanded_from(callee, lists, size, i, done, scope, w, fuel).result),
    ensures
        expanded_from(callee, lists, size, i, done, scope, w, more) == expanded_from(
            callee,
            lists,
            size,
            i,
            done,
            scope,
            w,
            fuel,
        ),
    decreases fuel, 5nat, size - i,
{
    if i < size {
        lemma_expand_row(lists, i, 0, Seq::empty(), scope, w, fuel, more);
        let row = expand_row(lists, i, 0, Seq::empty(), scope, w, fuel);
        match row.result {
            Ok(args) => {
                lemma_called_each(callee, args, scope, row.world, fuel, more, "map_expand"@);
                let o = called_each(callee, args, scope, row.world, fuel, "map_expand"@);
                match o.result {
                    Ok(v) => {
                        lemma_expanded_from(
                            callee,
                            lists,
                            size,
                            i + 1,
                            done.push(v),
                            scope,
                            o.world,
                            fuel,
                            more,
                        );
                    },
                    Err(_) => {},
                }
            },
            Err(_) => {},
        }
    }
}

} // verus!
