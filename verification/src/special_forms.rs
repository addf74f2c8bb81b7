//! The special forms: each gets its operands unevaluated and decides itself
//! what to evaluate.

use vstd::prelude::*;
use crate::error::{failure, halting, wrapped, ErrorEval, ErrorKind, Failure};
use crate::eval_env::{
    defined, derive_failure, derived, evaluated, evaluated_last, failed, gathered, outcome,
    result_model, succeeded, EvalEnv, Gathered, Outcome, World,
};
use crate::procedure::SpecialForm;
use crate::text::is_text;
use crate::value::{
    from_sequence, improper_list_message, lemma_pair_items, models, rendered, texts, to_sequence,
    Datum, Value,
};

verus! {

/// The error for a list that is not a proper one, handed on with `context`.
pub open spec fn improper(context: Seq<char>) -> Failure {
    wrapped(failure(ErrorKind::MalformedList, improper_list_message()), context)
}

/// What `expr` evaluates to, an error getting `context` as its new first line.
pub open spec fn evaluated_with(
    expr: Datum,
    scope: nat,
    w: World,
    fuel: nat,
    context: Seq<char>,
) -> Outcome
    decreases fuel, 1nat, 0nat,
{
    let o = evaluated(expr, scope, w, fuel);
    match o.result {
        Err(e) => failed(o.world, wrapped(e, context)),
        Ok(_) => o,
    }
}

/// Evaluates `expr`; an error gets `context` as its new first line.
pub fn evaluate_with(
    expr: Value,
    env: &mut EvalEnv,
    scope: usize,
    fuel: usize,
    context: &str,
) -> (r: Result<Value, ErrorEval>)
    ensures
        outcome(r, final(env)@) == evaluated_with(
            expr@,
            scope as nat,
            old(env)@,
            fuel as nat,
            context@,
        ),
    decreases fuel, 1nat, 0nat,
{
    match env.evaluate(expr, scope, fuel) {
        Err(e) => Err(e.wrap(context)),
        Ok(v) => Ok(v),
    }
}

/// The first `count` items without those that are `Nil`.
pub open spec fn without_nil(items: Seq<Datum>, count: nat) -> Seq<Datum>
    decreases count,
{
    if count == 0 || count > items.len() {
        Seq::empty()
    } else if items[count - 1] is Nil {
        without_nil(items, (count - 1) as nat)
    } else {
        without_nil(items, (count - 1) as nat).push(items[count - 1])
    }
}

/// How each of the items is written.
pub open spec fn rendered_each(items: Seq<Datum>) -> Seq<Seq<char>> {
    Seq::new(items.len(), |i: int| rendered(items[i]))
}

/// What `(lambda params body ...)` gives in `scope`: a closure over `scope`
/// whose parameter names are the items of the list `params` as they are
/// written, and whose body is the other operands but for any `Nil`.
pub open spec fn lambda_result(args: Seq<Datum>, scope: nat) -> Result<Datum, Failure> {
    if args.len() < 2 {
        Err(
            failure(
                ErrorKind::ArityError,
                "Special Form <lambda>: Missing part of lambda expression"@,
            ),
        )
    } else {
        match to_sequence(args[0]) {
            None => Err(improper("Special Form <lambda>: Fail to convert value to vector"@)),
            Some(params) => Ok(
                Datum::Lambda(
                    rendered_each(params),
                    without_nil(args.drop_first(), (args.len() - 1) as nat),
                    scope,
                ),
            ),
        }
    }
}

/// `(lambda params body ...)`: a closure over `scope`.
pub fn lambda_form(args: Vec<Value>, scope: usize) -> (r: Result<Value, ErrorEval>)
    ensures
        result_model(r) == lambda_result(models(args@), scope as nat),
{
    if args.len() < 2 {
        return Err(
            ErrorEval::new(
                ErrorKind::ArityError,
                "Special Form <lambda>: Missing part of lambda expression",
            ),
        );
    }
    match args[0].to_vector() {
        Err(e) => Err(e.wrap("Special Form <lambda>: Fail to convert value to vector")),
        Ok(params) => {
            let mut names: Vec<String> = Vec::new();
            let mut i: usize = 0;
            while i < params.len()
                invariant
                    i <= params.len(),
                    names.len() == i,
                    forall|k: int| 0 <= k < i ==> names[k]@ == rendered(params[k]@),
                decreases params.len() - i,
            {
                names.push(params[i].to_string());
                i += 1;
            }
            let ghost rest = models(args@).drop_first();
            let mut body: Vec<Value> = Vec::new();
            let mut k: usize = 1;
            assert(models(body@) =~= without_nil(rest, 0));
            while k < args.len()
                invariant
                    1 <= k <= args.len(),
                    rest == models(args@).drop_first(),
                    models(body@) == without_nil(rest, (k - 1) as nat),
                decreases args.len() - k,
            {
                let ghost before = models(body@);
                assert(rest[k - 1] == args[k as int]@);
                match &args[k] {
                    Value::NilValue => {},
                    other => {
                        body.push(other.clone());
                        assert(models(body@) =~= before.push(args[k as int]@));
                    },
                }
                k += 1;
            }
            let r = Value::LambdaValue(names, body, scope);
            proof {
                crate::value::lemma_lambda_model(r);
                assert(texts(names@) =~= rendered_each(models(params@)));
            }
            Ok(r)
        },
    }
}

/// What `(define name expr)` and `(define (name params ...) body ...)` give:
/// `Nil`, with `name` bound in `scope` itself to the value of `expr`, or to
/// the closure of `params` and `body`. An earlier binding of the name in
/// this scope is overwritten; no outer scope is touched.
pub open spec fn define_outcome(args: Seq<Datum>, scope: nat, w: World, fuel: nat) -> Outcome
    decreases fuel, 5nat, 0nat,
{
    if args.len() < 2 {
        failed(w, failure(ErrorKind::ArityError, "Special Form <define>: Missing parameter"@))
    } else {
        match args[0] {
            Datum::Symbol(name) => {
                let o = evaluated_with(
                    args[1],
                    scope,
                    w,
                    fuel,
                    "Special Form <define>: Fail to evaluate a value"@,
                );
                match o.result {
                    Err(e) => o,
                    Ok(v) => succeeded(defined(o.world, scope, name, v), Datum::Nil),
                }
            },
            Datum::Pair(first, rest) => match *first {
                Datum::Symbol(name) => match lambda_result(seq![*rest] + args.drop_first(), scope) {
                    Err(e) => failed(w, e),
                    Ok(v) => succeeded(defined(w, scope, name, v), Datum::Nil),
                },
                _ => failed(
                    w,
                    failure(
                        ErrorKind::MalformedSpecialForm,
                        "Special Form <define>: Malformed define"@,
                    ),
                ),
            },
            _ => failed(
                w,
                failure(ErrorKind::MalformedSpecialForm, "Special Form <define>: Malformed define"@),
            ),
        }
    }
}

/// `(define name expr)`, `(define (name params ...) body ...)`.
pub fn define_form(args: Vec<Value>, env: &mut EvalEnv, scope: usize, fuel: usize) -> (r: Result<
    Value,
    ErrorEval,
>)
    ensures
        outcome(r, final(env)@) == define_outcome(
            models(args@),
            scope as nat,
            old(env)@,
            fuel as nat,
        ),
    decreases fuel, 5nat, 0nat,
{
    let mut args = args;
    if args.len() < 2 {
        return Err(ErrorEval::new(ErrorKind::ArityError, "Special Form <define>: Missing parameter"));
    }
    let ghost all = models(args@);
    let head = args.remove(0);
    assert(models(args@) =~= all.drop_first());
    assert(head@ == all[0]);
    assert(args[0]@ == all[1]);
    proof {
        reveal_with_fuel(Value::model, 2);
    }
    match head {
        Value::SymbolValue(name) => {
            match evaluate_with(
                args.swap_remove(0),
                env,
                scope,
                fuel,
                "Special Form <define>: Fail to evaluate a value",
            ) {
                Err(e) => Err(e),
                Ok(v) => {
                    env.bind(scope, name, v);
                    Ok(Value::NilValue)
                },
            }
        },
        Value::PairValue(first, rest) => match *first {
            Value::SymbolValue(name) => {
                args.insert(0, *rest);
                assert(models(args@) =~= seq![rest@] + all.drop_first());
                match lambda_form(args, scope) {
                    Err(e) => Err(e),
                    Ok(v) => {
                        env.bind(scope, name, v);
                        Ok(Value::NilValue)
                    },
                }
            },
            _ => Err(
                ErrorEval::new(
                    ErrorKind::MalformedSpecialForm,
                    "Special Form <define>: Malformed define",
                ),
            ),
        },
        _ => Err(
            ErrorEval::new(
                ErrorKind::MalformedSpecialForm,
                "Special Form <define>: Malformed define",
            ),
        ),
    }
}

/// What `(quote x ...)` gives: `x`, as it is.
pub open spec fn quote_result(args: Seq<Datum>) -> Result<Datum, Failure> {
    if args.len() < 1 {
        Err(failure(ErrorKind::ArityError, "Special Form <quote>: Missing parameter"@))
    } else {
        Ok(args[0])
    }
}

/// `(quote x)`: `x`, unevaluated.
pub fn quote_form(args: Vec<Value>) -> (r: Result<Value, ErrorEval>)
    ensures
        result_model(r) == quote_result(models(args@)),
{
    let mut args = args;
    if args.len() < 1 {
        Err(ErrorEval::new(ErrorKind::ArityError, "Special Form <quote>: Missing parameter"))
    } else {
        Ok(args.swap_remove(0))
    }
}

/// What `(if condition then otherwise)` gives: the value of `otherwise` where
/// the condition's value is `#f`, else the value of `then`. A condition that
/// fails to evaluate selects `then` too, unless its error is a halting one.
pub open spec fn if_outcome(args: Seq<Datum>, scope: nat, w: World, fuel: nat) -> Outcome
    decreases fuel, 5nat, 0nat,
{
    if args.len() < 2 {
        failed(w, failure(ErrorKind::ArityError, "Special Form <if>: Missing parameter"@))
    } else {
        let o = evaluated(args[0], scope, w, fuel);
        match o.result {
            Ok(Datum::Boolean(false)) => if args.len() < 3 {
                failed(
                    o.world,
                    failure(ErrorKind::ArityError, "Special Form <if>: Missing the false branch"@),
                )
            } else {
                evaluated_with(
                    args[2],
                    scope,
                    o.world,
                    fuel,
                    "Special Form <if>: Fail to evaluate the false branch"@,
                )
            },
            Ok(_) => evaluated_with(
                args[1],
                scope,
                o.world,
                fuel,
                "Special Form <if>: Fail to evaluate the true branch"@,
            ),
            Err(e) => if halting(e.kind) {
                o
            } else {
                evaluated_with(
                    args[1],
                    scope,
                    o.world,
                    fuel,
                    "Special Form <if>: Fail to evaluate the condition"@,
                )
            },
        }
    }
}

/// `(if condition then otherwise)`.
pub fn if_form(args: Vec<Value>, env: &mut EvalEnv, scope: usize, fuel: usize) -> (r: Result<
    Value,
    ErrorEval,
>)
    ensures
        outcome(r, final(env)@) == if_outcome(models(args@), scope as nat, old(env)@, fuel as nat),
    decreases fuel, 5nat, 0nat,
{
    if args.len() < 2 {
        return Err(ErrorEval::new(ErrorKind::ArityError, "Special Form <if>: Missing parameter"));
    }
    match env.evaluate(args[0].clone(), scope, fuel) {
        Ok(Value::BooleanValue(false)) => {
            if args.len() < 3 {
                Err(
                    ErrorEval::new(
                        ErrorKind::ArityError,
                        "Special Form <if>: Missing the false branch",
                    ),
                )
            } else {
                evaluate_with(
                    args[2].clone(),
                    env,
                    scope,
                    fuel,
                    "Special Form <if>: Fail to evaluate the false branch",
                )
            }
        },
        Ok(_) => evaluate_with(
            args[1].clone(),
            env,
            scope,
            fuel,
            "Special Form <if>: Fail to evaluate the true branch",
        ),
        Err(e) => {
            if e.halts() {
                Err(e)
            } else {
                evaluate_with(
                    args[1].clone(),
                    env,
                    scope,
                    fuel,
                    "Special Form <if>: Fail to evaluate the condition",
                )
            }
        },
    }
}

/// What the operands of `and` from position `i` on give, none before having
/// been `#f`: `#f` at the first whose value is `#f`; else the value of the
/// last, or `Nil` where the last fails. A failure before the last is passed
/// over. A halting error is neither passed over nor turned into `Nil`.
pub open spec fn and_from(args: Seq<Datum>, i: nat, scope: nat, w: World, fuel: nat) -> Outcome
    decreases fuel, 4nat, args.len() - i,
{
    if i >= args.len() {
        succeeded(w, Datum::Boolean(true))
    } else {
        let o = evaluated(args[i as int], scope, w, fuel);
        match o.result {
            Ok(Datum::Boolean(false)) => succeeded(o.world, Datum::Boolean(false)),
            Ok(v) => if i + 1 == args.len() {
                succeeded(o.world, v)
            } else {
                and_from(args, i + 1, scope, o.world, fuel)
            },
            Err(e) => if halting(e.kind) {
                o
            } else if i + 1 == args.len() {
                succeeded(o.world, Datum::Nil)
            } else {
                and_from(args, i + 1, scope, o.world, fuel)
            },
        }
    }
}

/// What `(and a b ...)` gives; `#t` without operands.
pub open spec fn and_outcome(args: Seq<Datum>, scope: nat, w: World, fuel: nat) -> Outcome
    decreases fuel, 5nat, 0nat,
{
    and_from(args, 0, scope, w, fuel)
}

/// `(and a b ...)`.
pub fn and_form(args: Vec<Value>, env: &mut EvalEnv, scope: usize, fuel: usize) -> (r: Result<
    Value,
    ErrorEval,
>)
    ensures
        outcome(r, final(env)@) == and_outcome(models(args@), scope as nat, old(env)@, fuel as nat),
    decreases fuel, 5nat, 0nat,
{
    let mut i: usize = 0;
    while i < args.len()
        invariant
            and_from(models(args@), i as nat, scope as nat, env@, fuel as nat) == and_from(
                models(args@),
                0,
                scope as nat,
                old(env)@,
                fuel as nat,
            ),
        decreases args.len() - i,
    {
        match env.evaluate(args[i].clone(), scope, fuel) {
            Ok(Value::BooleanValue(false)) => {
                return Ok(Value::BooleanValue(false));
            },
            Ok(v) => {
                if i + 1 == args.len() {
                    return Ok(v);
                }
            },
            Err(e) => {
                if e.halts() {
                    return Err(e);
                }
                if i + 1 == args.len() {
                    return Ok(Value::NilValue);
                }
            },
        }
        i += 1;
    }
    Ok(Value::BooleanValue(true))
}

/// What the operands of `or` from position `i` on give, all before having
/// been `#f`: the first value that is not `#f`; `Nil` where an operand fails
/// before that, unless its error is a halting one; `#f` where there is
/// neither.
pub open spec fn or_from(args: Seq<Datum>, i: nat, scope: nat, w: World, fuel: nat) -> Outcome
    decreases fuel, 4nat, args.len() - i,
{
    if i >= args.len() {
        succeeded(w, Datum::Boolean(false))
    } else {
        let o = evaluated(args[i as int], scope, w, fuel);
        match o.result {
            Ok(Datum::Boolean(false)) => or_from(args, i + 1, scope, o.world, fuel),
            Ok(v) => succeeded(o.world, v),
            Err(e) => if halting(e.kind) {
                o
            } else {
                succeeded(o.world, Datum::Nil)
            },
        }
    }
}

/// What `(or a b ...)` gives; `#f` without operands.
pub open spec fn or_outcome(args: Seq<Datum>, scope: nat, w: World, fuel: nat) -> Outcome
    decreases fuel, 5nat, 0nat,
{
    or_from(args, 0, scope, w, fuel)
}

/// `(or a b ...)`.
pub fn or_form(args: Vec<Value>, env: &mut EvalEnv, scope: usize, fuel: usize) -> (r: Result<
    Value,
    ErrorEval,
>)
    ensures
        outcome(r, final(env)@) == or_outcome(models(args@), scope as nat, old(env)@, fuel as nat),
    decreases fuel, 5nat, 0nat,
{
    let mut i: usize = 0;
    while i < args.len()
        invariant
            or_from(models(args@), i as nat, scope as nat, env@, fuel as nat) == or_from(
                models(args@),
                0,
                scope as nat,
                old(env)@,
                fuel as nat,
            ),
        decreases args.len() - i,
    {
        match env.evaluate(args[i].clone(), scope, fuel) {
            Ok(Value::BooleanValue(false)) => {},
            Ok(v) => {
                return Ok(v);
            },
            Err(e) => {
                if e.halts() {
                    return Err(e);
                }
                return Ok(Value::NilValue);
            },
        }
        i += 1;
    }
    Ok(Value::BooleanValue(false))
}

/// What the clauses of `cond` from position `i` on give. Each clause is a
/// list of a condition and a body. The first clause whose condition has a
/// value other than `#f` is taken: its body is evaluated in order and gives
/// the value of its last expression, or the condition's value where the body
/// is empty. A condition whose value is the symbol `else` is accepted in the
/// last clause only. No clause taken gives `Nil`.
pub open spec fn cond_from(clauses: Seq<Datum>, i: nat, scope: nat, w: World, fuel: nat) -> Outcome
    decreases fuel, 4nat, clauses.len() - i,
{
    if i >= clauses.len() {
        succeeded(w, Datum::Nil)
    } else {
        match clauses[i as int] {
            Datum::Pair(_, _) => match to_sequence(clauses[i as int]) {
                None => failed(
                    w,
                    improper("Special Form <cond>: Fail to convert value to vector"@),
                ),
                Some(parts) => {
                    let o = evaluated_with(
                        parts[0],
                        scope,
                        w,
                        fuel,
                        "Special Form <cond>: Fail to evaluate condition"@,
                    );
                    match o.result {
                        Err(_) => o,
                        Ok(Datum::Boolean(false)) => cond_from(clauses, i + 1, scope, o.world, fuel),
                        Ok(flag) => if flag == Datum::Symbol("else"@) && i + 1 != clauses.len() {
                            failed(
                                o.world,
                                failure(
                                    ErrorKind::MalformedSpecialForm,
                                    "Special Form <cond>: \"else\" must be at the condition position in the last clause"@,
                                ),
                            )
                        } else {
                            evaluated_last(
                                parts,
                                1,
                                flag,
                                scope,
                                o.world,
                                fuel,
                                "Special Form <cond>: Fail to evaluate a value"@,
                            )
                        },
                    }
                },
            },
            _ => failed(
                w,
                failure(ErrorKind::MalformedSpecialForm, "Special Form <cond>: Missing parameter"@),
            ),
        }
    }
}

/// What `(cond clause ...)` gives.
pub open spec fn cond_outcome(args: Seq<Datum>, scope: nat, w: World, fuel: nat) -> Outcome
    decreases fuel, 5nat, 0nat,
{
    cond_from(args, 0, scope, w, fuel)
}

/// Whether a value is the symbol `else`.
fn is_else(v: &Value) -> (r: bool)
    ensures
        r == (v@ == Datum::Symbol("else"@)),
{
    match v {
        Value::SymbolValue(name) => is_text(name, "else"),
        _ => false,
    }
}

/// `(cond clause ...)`.
pub fn cond_form(args: Vec<Value>, env: &mut EvalEnv, scope: usize, fuel: usize) -> (r: Result<
    Value,
    ErrorEval,
>)
    ensures
        outcome(r, final(env)@) == cond_outcome(models(args@), scope as nat, old(env)@, fuel as nat),
    decreases fuel, 5nat, 0nat,
{
    let mut i: usize = 0;
    while i < args.len()
        invariant
            cond_from(models(args@), i as nat, scope as nat, env@, fuel as nat) == cond_from(
                models(args@),
                0,
                scope as nat,
                old(env)@,
                fuel as nat,
            ),
        decreases args.len() - i,
    {
        proof {
            if args[i as int]@ is Pair {
                lemma_pair_items(args[i as int]@);
            }
        }
        match &args[i] {
            Value::PairValue(_, _) => match args[i].to_vector() {
                Err(e) => {
                    return Err(e.wrap("Special Form <cond>: Fail to convert value to vector"));
                },
                Ok(parts) => {
                    match evaluate_with(
                        parts[0].clone(),
                        env,
                        scope,
                        fuel,
                        "Special Form <cond>: Fail to evaluate condition",
                    ) {
                        Err(e) => {
                            return Err(e);
                        },
                        Ok(Value::BooleanValue(false)) => {},
                        Ok(flag) => {
                            if is_else(&flag) && i + 1 != args.len() {
                                return Err(
                                    ErrorEval::new(
                                        ErrorKind::MalformedSpecialForm,
                                        "Special Form <cond>: \"else\" must be at the condition position in the last clause",
                                    ),
                                );
                            }
                            return env.evaluate_last(
                                &parts,
                                1,
                                flag,
                                scope,
                                fuel,
                                "Special Form <cond>: Fail to evaluate a value",
                            );
                        },
                    }
                },
            },
            _ => {
                return Err(
                    ErrorEval::new(
                        ErrorKind::MalformedSpecialForm,
                        "Special Form <cond>: Missing parameter",
                    ),
                );
            },
        }
        i += 1;
    }
    Ok(Value::NilValue)
}

/// What `(begin a b ...)` gives: the operands are evaluated in order and the
/// value is that of the last. No operand is an error.
pub open spec fn begin_outcome(args: Seq<Datum>, scope: nat, w: World, fuel: nat) -> Outcome
    decreases fuel, 5nat, 0nat,
{
    if args.len() == 0 {
        failed(w, failure(ErrorKind::ArityError, "Special Form <begin>: Missing parameter"@))
    } else {
        evaluated_last(
            args,
            0,
            Datum::Nil,
            scope,
            w,
            fuel,
            "Special Form <begin>: Missing parameter"@,
        )
    }
}

/// `(begin a b ...)`.
pub fn begin_form(args: Vec<Value>, env: &mut EvalEnv, scope: usize, fuel: usize) -> (r: Result<
    Value,
    ErrorEval,
>)
    ensures
        outcome(r, final(env)@) == begin_outcome(
            models(args@),
            scope as nat,
            old(env)@,
            fuel as nat,
        ),
    decreases fuel, 5nat, 0nat,
{
    if args.len() == 0 {
        Err(ErrorEval::new(ErrorKind::ArityError, "Special Form <begin>: Missing parameter"))
    } else {
        env.evaluate_last(
            &args,
            0,
            Value::NilValue,
            scope,
            fuel,
            "Special Form <begin>: Missing parameter",
        )
    }
}

/// The names and the values that the bindings of a `let` give, or the first
/// error, and the state after it.
pub struct Bound {
    pub result: Result<(Seq<Seq<char>>, Seq<Datum>), Failure>,
    pub world: World,
}

/// The error for a binding of `let` that is no list of two items.
pub open spec fn let_shape_failure() -> Failure {
    failure(
        ErrorKind::MalformedSpecialForm,
        "Special Form <let>: temporary binding should be a 2-element list"@,
    )
}

/// What the bindings of a `let` from position `i` on add to `names` and
/// `values`: each binding is a list of a name and an expression, the name is
/// taken as it is written, and the expression is evaluated in `scope`, the
/// scope around the `let`.
pub open spec fn let_bindings(
    bindings: Seq<Datum>,
    i: nat,
    names: Seq<Seq<char>>,
    values: Seq<Datum>,
    scope: nat,
    w: World,
    fuel: nat,
) -> Bound
    decreases fuel, 4nat, bindings.len() - i,
{
    if i >= bindings.len() {
        Bound { result: Ok((names, values)), world: w }
    } else {
        let b = let_binding(bindings[i as int], scope, w, fuel);
        match b.result {
            Err(e) => Bound { result: Err(e), world: b.world },
            Ok((name, v)) => let_bindings(
                bindings,
                i + 1,
                names.push(name),
                values.push(v),
                scope,
                b.world,
                fuel,
            ),
        }
    }
}

/// What `(let ((name expr) ...) body ...)` gives: the first operand is a
/// list, which may be empty, of bindings; every `expr` is evaluated
/// in the scope around the `let`, one scope is made inside it that binds all
/// the names at once, and the body is evaluated there in order. The value is
/// that of the last body expression, `Nil` for an empty body.
pub open spec fn let_outcome(args: Seq<Datum>, scope: nat, w: World, fuel: nat) -> Outcome
    decreases fuel, 5nat, 0nat,
{
    if args.len() < 1 {
        failed(w, failure(ErrorKind::ArityError, "Special Form <let>: Missing parameter"@))
    } else {
        match args[0] {
            Datum::Pair(_, _) | Datum::Nil => match to_sequence(args[0]) {
                None => failed(w, improper("Special Form <let>: Fail to convert value to vector"@)),
                Some(bindings) => {
                    let b = let_bindings(
                        bindings,
                        0,
                        Seq::empty(),
                        Seq::empty(),
                        scope,
                        w,
                        fuel,
                    );
                    match b.result {
                        Err(e) => failed(b.world, e),
                        Ok((names, values)) => match derive_failure(
                            b.world,
                            scope,
                            names.len(),
                            values.len(),
                        ) {
                            Some(e) => failed(b.world, e),
                            None => evaluated_last(
                                args,
                                1,
                                Datum::Nil,
                                b.world.scopes.len(),
                                derived(b.world, scope, names, values),
                                fuel,
                                "Special Form <let>: Fail to evaluate a value"@,
                            ),
                        },
                    }
                },
            },
            _ => failed(
                w,
                failure(
                    ErrorKind::MalformedSpecialForm,
                    "Special Form <let>: temporary bindings without parentheses"@,
                ),
            ),
        }
    }
}

/// The model of what `bind_each` returns and leaves behind.
pub open spec fn bound_model(r: Result<(Vec<String>, Vec<Value>), ErrorEval>, world: World) -> Bound {
    Bound {
        result: match r {
            Ok((names, values)) => Ok((texts(names@), models(values@))),
            Err(e) => Err(e@),
        },
        world,
    }
}

/// Reads the bindings of a `let`: the names, and the values of the
/// expressions in `scope`.
pub fn bind_each(bindings: &Vec<Value>, env: &mut EvalEnv, scope: usize, fuel: usize) -> (r: Result<
    (Vec<String>, Vec<Value>),
    ErrorEval,
>)
    ensures
        bound_model(r, final(env)@) == let_bindings(
            models(bindings@),
            0,
            Seq::empty(),
            Seq::empty(),
            scope as nat,
            old(env)@,
            fuel as nat,
        ),
    decreases fuel, 4nat, bindings.len(),
{
    let mut names: Vec<String> = Vec::new();
    let mut values: Vec<Value> = Vec::new();
    let mut i: usize = 0;
    assert(texts(names@) =~= Seq::empty());
    assert(models(values@) =~= Seq::empty());
    while i < bindings.len()
        invariant
            let_bindings(
                models(bindings@),
                i as nat,
                texts(names@),
                models(values@),
                scope as nat,
                env@,
                fuel as nat,
            ) == let_bindings(
                models(bindings@),
                0,
                Seq::empty(),
                Seq::empty(),
                scope as nat,
                old(env)@,
                fuel as nat,
            ),
        decreases bindings.len() - i,
    {
        match bind_one(&bindings[i], env, scope, fuel) {
            Err(e) => {
                return Err(e);
            },
            Ok((name, v)) => {
                let ghost names_before = texts(names@);
                let ghost values_before = models(values@);
                names.push(name);
                values.push(v);
                assert(texts(names@) =~= names_before.push(name@));
                assert(models(values@) =~= values_before.push(v@));
            },
        }
        i += 1;
    }
    Ok((names, values))
}

/// The name and the value that one binding of a `let` gives, or the error,
/// and the state after it.
pub struct BoundOne {
    pub result: Result<(Seq<char>, Datum), Failure>,
    pub world: World,
}

/// What one binding of a `let` gives.
pub open spec fn let_binding(binding: Datum, scope: nat, w: World, fuel: nat) -> BoundOne
    decreases fuel, 3nat, 0nat,
{
    match binding {
        Datum::Pair(_, _) => match to_sequence(binding) {
            None => BoundOne {
                result: Err(improper("Special Form <let>: Fail to convert value to vector"@)),
                world: w,
            },
            Some(pair) => if pair.len() == 2 {
                let o = evaluated_with(
                    pair[1],
                    scope,
                    w,
                    fuel,
                    "Special Form <let>: Fail to evaluate a value"@,
                );
                match o.result {
                    Err(e) => BoundOne { result: Err(e), world: o.world },
                    Ok(v) => BoundOne { result: Ok((rendered(pair[0]), v)), world: o.world },
                }
            } else {
                BoundOne { result: Err(let_shape_failure()), world: w }
            },
        },
        _ => BoundOne { result: Err(let_shape_failure()), world: w },
    }
}

/// The model of what `bind_one` returns and leaves behind.
pub open spec fn bound_one_model(r: Result<(String, Value), ErrorEval>, world: World) -> BoundOne {
    BoundOne {
        result: match r {
            Ok((name, v)) => Ok((name@, v@)),
            Err(e) => Err(e@),
        },
        world,
    }
}

/// Reads one binding of a `let`.
pub fn bind_one(binding: &Value, env: &mut EvalEnv, scope: usize, fuel: usize) -> (r: Result<
    (String, Value),
    ErrorEval,
>)
    ensures
        bound_one_model(r, final(env)@) == let_binding(
            binding@,
            scope as nat,
            old(env)@,
            fuel as nat,
        ),
    decreases fuel, 3nat, 0nat,
{
    match binding {
        Value::PairValue(_, _) => {},
        _ => {
            return Err(
                ErrorEval::new(
                    ErrorKind::MalformedSpecialForm,
                    "Special Form <let>: temporary binding should be a 2-element list",
                ),
            );
        },
    }
    match binding.to_vector() {
        Err(e) => Err(e.wrap("Special Form <let>: Fail to convert value to vector")),
        Ok(pair) => {
            if pair.len() != 2 {
                return Err(
                    ErrorEval::new(
                        ErrorKind::MalformedSpecialForm,
                        "Special Form <let>: temporary binding should be a 2-element list",
                    ),
                );
            }
            match evaluate_with(
                pair[1].clone(),
                env,
                scope,
                fuel,
                "Special Form <let>: Fail to evaluate a value",
            ) {
                Err(e) => Err(e),
                Ok(v) => Ok((pair[0].to_string(), v)),
            }
        },
    }
}

/// `(let ((name expr) ...) body ...)`.
pub fn let_form(args: Vec<Value>, env: &mut EvalEnv, scope: usize, fuel: usize) -> (r: Result<
    Value,
    ErrorEval,
>)
    ensures
        outcome(r, final(env)@) == let_outcome(models(args@), scope as nat, old(env)@, fuel as nat),
    decreases fuel, 5nat, 0nat,
{
    if args.len() < 1 {
        return Err(ErrorEval::new(ErrorKind::ArityError, "Special Form <let>: Missing parameter"));
    }
    match &args[0] {
        Value::PairValue(_, _) | Value::NilValue => {},
        _ => {
            return Err(
                ErrorEval::new(
                    ErrorKind::MalformedSpecialForm,
                    "Special Form <let>: temporary bindings without parentheses",
                ),
            );
        },
    }
    match args[0].to_vector() {
        Err(e) => Err(e.wrap("Special Form <let>: Fail to convert value to vector")),
        Ok(bindings) => match bind_each(&bindings, env, scope, fuel) {
            Err(e) => Err(e),
            Ok((names, values)) => match env.derive_from(scope, &names, &values) {
                Err(e) => Err(e),
                Ok(child) => env.evaluate_last(
                    &args,
                    1,
                    Value::NilValue,
                    child,
                    fuel,
                    "Special Form <let>: Fail to evaluate a value",
                ),
            },
        },
    }
}

/// What `(unquote x)` gives inside a quasiquotation: the value of `x`.
pub open spec fn unquote_outcome(args: Seq<Datum>, scope: nat, w: World, fuel: nat) -> Outcome
    decreases fuel, 3nat, 0nat,
{
    if args.len() < 1 {
        failed(w, failure(ErrorKind::ArityError, "Special Form <unquote>: Missing argument"@))
    } else if args.len() > 1 {
        failed(w, failure(ErrorKind::ArityError, "Special Form <unquote>: Too many argument"@))
    } else {
        evaluated_with(args[0], scope, w, fuel, "Special Form <unquote>: Fail to evaluate a value"@)
    }
}

/// `(unquote x)`: the value of `x`.
pub fn unquote_form(args: Vec<Value>, env: &mut EvalEnv, scope: usize, fuel: usize) -> (r: Result<
    Value,
    ErrorEval,
>)
    ensures
        outcome(r, final(env)@) == unquote_outcome(
            models(args@),
            scope as nat,
            old(env)@,
            fuel as nat,
        ),
    decreases fuel, 3nat, 0nat,
{
    let mut args = args;
    if args.len() < 1 {
        Err(ErrorEval::new(ErrorKind::ArityError, "Special Form <unquote>: Missing argument"))
    } else if args.len() > 1 {
        Err(ErrorEval::new(ErrorKind::ArityError, "Special Form <unquote>: Too many argument"))
    } else {
        evaluate_with(
            args.swap_remove(0),
            env,
            scope,
            fuel,
            "Special Form <unquote>: Fail to evaluate a value",
        )
    }
}

/// What one item of a quasiquoted list gives: an item of the shape
/// `(unquote x)` gives the value of `x`, an item of the shape
/// `(quasiquote ...)` is an error, and any other item stands as it is.
pub open spec fn quasi_item(item: Datum, scope: nat, w: World, fuel: nat) -> Outcome
    decreases fuel, 4nat, 0nat,
{
    match item {
        Datum::Pair(first, rest) => if *first == Datum::Symbol("unquote"@) {
            match to_sequence(*rest) {
                None => failed(
                    w,
                    improper("Special Form <quasiquote>: Fail to convert a value to vector"@),
                ),
                Some(operands) => unquote_outcome(operands, scope, w, fuel),
            }
        } else if *first == Datum::Symbol("quasiquote"@) {
            failed(
                w,
                failure(
                    ErrorKind::MalformedSpecialForm,
                    "Special Form <quasiquote>: Calling quasiquote inside quasiquote is an undefined behavior"@,
                ),
            )
        } else {
            succeeded(w, item)
        },
        _ => succeeded(w, item),
    }
}

/// What the items of a quasiquoted list from position `i` on add to `done`.
pub open spec fn quasi_items(
    items: Seq<Datum>,
    i: nat,
    done: Seq<Datum>,
    scope: nat,
    w: World,
    fuel: nat,
) -> Gathered
    decreases fuel, 5nat, items.len() - i,
{
    if i >= items.len() {
        Gathered { result: Ok(done), world: w }
    } else {
        let o = quasi_item(items[i as int], scope, w, fuel);
        match o.result {
            Err(e) => Gathered { result: Err(e), world: o.world },
            Ok(v) => quasi_items(items, i + 1, done.push(v), scope, o.world, fuel),
        }
    }
}

/// What `(quasiquote list)` gives: the list with every `(unquote x)` among
/// its items replaced by the value of `x`.
pub open spec fn quasiquote_outcome(args: Seq<Datum>, scope: nat, w: World, fuel: nat) -> Outcome
    decreases fuel, 6nat, 0nat,
{
    if args.len() < 1 {
        failed(w, failure(ErrorKind::ArityError, "Special Form <quasiquote>: Missing parameter"@))
    } else {
        match to_sequence(args[0]) {
            None => failed(w, improper("Special Form <quasiquote>: Fail to evaluate a value"@)),
            Some(items) => {
                let g = quasi_items(items, 0, Seq::empty(), scope, w, fuel);
                match g.result {
                    Err(e) => failed(g.world, e),
                    Ok(values) => succeeded(g.world, from_sequence(values)),
                }
            },
        }
    }
}

/// Whether a value is the symbol with the given name.
fn is_symbol(v: &Value, name: &str) -> (r: bool)
    ensures
        r == (v@ == Datum::Symbol(name@)),
{
    match v {
        Value::SymbolValue(s) => is_text(s, name),
        _ => false,
    }
}

/// Treats one item of a quasiquoted list.
pub fn quasiquote_item(item: &Value, env: &mut EvalEnv, scope: usize, fuel: usize) -> (r: Result<
    Value,
    ErrorEval,
>)
    ensures
        outcome(r, final(env)@) == quasi_item(item@, scope as nat, old(env)@, fuel as nat),
    decreases fuel, 4nat, 0nat,
{
    match item {
        Value::PairValue(first, rest) => {
            if is_symbol(first, "unquote") {
                match rest.to_vector() {
                    Err(e) => Err(
                        e.wrap("Special Form <quasiquote>: Fail to convert a value to vector"),
                    ),
                    Ok(operands) => unquote_form(operands, env, scope, fuel),
                }
            } else if is_symbol(first, "quasiquote") {
                Err(
                    ErrorEval::new(
                        ErrorKind::MalformedSpecialForm,
                        "Special Form <quasiquote>: Calling quasiquote inside quasiquote is an undefined behavior",
                    ),
                )
            } else {
                Ok(item.clone())
            }
        },
        other => Ok(other.clone()),
    }
}

/// Treats the items of a quasiquoted list, in order.
pub fn quasiquote_items(items: &Vec<Value>, env: &mut EvalEnv, scope: usize, fuel: usize) -> (r:
    Result<Vec<Value>, ErrorEval>)
    ensures
        gathered(r, final(env)@) == quasi_items(
            models(items@),
            0,
            Seq::empty(),
            scope as nat,
            old(env)@,
            fuel as nat,
        ),
    decreases fuel, 5nat, items.len(),
{
    let mut done: Vec<Value> = Vec::new();
    let mut i: usize = 0;
    assert(models(done@) =~= Seq::empty());
    while i < items.len()
        invariant
            quasi_items(models(items@), i as nat, models(done@), scope as nat, env@, fuel as nat)
                == quasi_items(
                models(items@),
                0,
                Seq::empty(),
                scope as nat,
                old(env)@,
                fuel as nat,
            ),
        decreases items.len() - i,
    {
        let ghost before = models(done@);
        match quasiquote_item(&items[i], env, scope, fuel) {
            Err(e) => {
                return Err(e);
            },
            Ok(v) => {
                done.push(v);
                assert(models(done@) =~= before.push(v@));
            },
        }
        i += 1;
    }
    Ok(done)
}

/// `(quasiquote list)`.
pub fn quasiquote_form(args: Vec<Value>, env: &mut EvalEnv, scope: usize, fuel: usize) -> (r:
    Result<Value, ErrorEval>)
    ensures
        outcome(r, final(env)@) == quasiquote_outcome(
            models(args@),
            scope as nat,
            old(env)@,
            fuel as nat,
        ),
    decreases fuel, 6nat, 0nat,
{
    if args.len() < 1 {
        return Err(
            ErrorEval::new(ErrorKind::ArityError, "Special Form <quasiquote>: Missing parameter"),
        );
    }
    match args[0].to_vector() {
        Err(e) => Err(e.wrap("Special Form <quasiquote>: Fail to evaluate a value")),
        Ok(items) => match quasiquote_items(&items, env, scope, fuel) {
            Err(e) => Err(e),
            Ok(done) => Ok(Value::from_vector(done)),
        },
    }
}

/// What a special form gives on the operands `args`.
pub open spec fn form_outcome(
    form: SpecialForm,
    args: Seq<Datum>,
    scope: nat,
    w: World,
    fuel: nat,
) -> Outcome
    decreases fuel, 8nat, 0nat,
{
    match form {
        SpecialForm::Define => define_outcome(args, scope, w, fuel),
        SpecialForm::Quote => Outcome { result: quote_result(args), world: w },
        SpecialForm::If => if_outcome(args, scope, w, fuel),
        SpecialForm::And => and_outcome(args, scope, w, fuel),
        SpecialForm::Or => or_outcome(args, scope, w, fuel),
        SpecialForm::Lambda => Outcome { result: lambda_result(args, scope), world: w },
        SpecialForm::Cond => cond_outcome(args, scope, w, fuel),
        SpecialForm::Begin => begin_outcome(args, scope, w, fuel),
        SpecialForm::Let => let_outcome(args, scope, w, fuel),
        SpecialForm::Quasiquote => quasiquote_outcome(args, scope, w, fuel),
        SpecialForm::Unquote => unquote_outcome(args, scope, w, fuel),
    }
}

/// Runs a special form on the operands `args`.
pub fn call_form(
    form: SpecialForm,
    args: Vec<Value>,
    env: &mut EvalEnv,
    scope: usize,
    fuel: usize,
) -> (r: Result<Value, ErrorEval>)
    ensures
        outcome(r, final(env)@) == form_outcome(
            form,
            models(args@),
            scope as nat,
            old(env)@,
            fuel as nat,
        ),
    decreases fuel, 8nat, 0nat,
{
    match form {
        SpecialForm::Define => define_form(args, env, scope, fuel),
        SpecialForm::Quote => quote_form(args),
        SpecialForm::If => if_form(args, env, scope, fuel),
        SpecialForm::And => and_form(args, env, scope, fuel),
        SpecialForm::Or => or_form(args, env, scope, fuel),
        SpecialForm::Lambda => lambda_form(args, scope),
        SpecialForm::Cond => cond_form(args, env, scope, fuel),
        SpecialForm::Begin => begin_form(args, env, scope, fuel),
        SpecialForm::Let => let_form(args, env, scope, fuel),
        SpecialForm::Quasiquote => quasiquote_form(args, env, scope, fuel),
        SpecialForm::Unquote => unquote_form(args, env, scope, fuel),
    }
}

} // verus!
