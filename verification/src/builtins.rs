//! The built-in procedures: each gets its arguments evaluated.

use vstd::prelude::*;
use vstd::string::StringExecFns;
use crate::error::{failure, halting, wrapped, ErrorEval, ErrorKind, Failure};
use crate::eval_env::{
    called, evaluated, failed, gathered, leaving, lookup, lookup_local, outcome, printed,
    result_model, succeeded, EvalEnv, Gathered, Outcome, World,
};
use crate::number::{
    difference, integral, magnitude, of_integer, product, quotient_towards_zero, ratio,
    remainder_towards_zero, sum, whole_part, Number, SCALE,
};
use crate::procedure::Builtin;
use crate::special_forms::{evaluate_with, evaluated_with, improper};
use crate::value::{from_sequence, models, rendered, to_sequence, Datum, Value};

verus! {

/// The context of a builtin's message: the builtin's name, then `rest`.
pub open spec fn label(name: Seq<char>, rest: Seq<char>) -> Seq<char> {
    "Builtin Procedure <"@ + name + rest
}

/// The error of a builtin called with `given` arguments when it takes at
/// least `least` and at most `most`; none where the number fits.
pub open spec fn count_failure(given: nat, least: nat, most: nat, name: Seq<char>) -> Option<
    Failure,
> {
    if given < least {
        Some(failure(ErrorKind::ArityError, label(name, ">: Missing argument"@)))
    } else if given > most {
        Some(failure(ErrorKind::ArityError, label(name, ">: Too many argument"@)))
    } else {
        None
    }
}

/// The model of an optional error.
pub open spec fn optional_failure(e: Option<ErrorEval>) -> Option<Failure> {
    match e {
        Some(e) => Some(e@),
        None => None,
    }
}

/// The context of a builtin's message.
pub fn label_of(name: &str, rest: &str) -> (r: String)
    ensures
        r@ == label(name@, rest@),
{
    let mut context = String::from_str("Builtin Procedure <");
    context.append(name);
    context.append(rest);
    context
}

/// An error of the builtin `name`.
pub fn complaint(kind: ErrorKind, name: &str, rest: &str) -> (r: ErrorEval)
    ensures
        r@ == failure(kind, label(name@, rest@)),
{
    let context = label_of(name, rest);
    ErrorEval::new(kind, context.as_str())
}

/// Checks the number of arguments of the builtin `name`.
pub fn check_count(given: usize, least: usize, most: usize, name: &str) -> (r: Option<ErrorEval>)
    ensures
        optional_failure(r) == count_failure(given as nat, least as nat, most as nat, name@),
{
    if given < least {
        Some(complaint(ErrorKind::ArityError, name, ">: Missing argument"))
    } else if given > most {
        Some(complaint(ErrorKind::ArityError, name, ">: Too many argument"))
    } else {
        None
    }
}

/// What a builtin gives that takes one argument and says whether it `holds`.
pub open spec fn answer(params: Seq<Datum>, name: Seq<char>, holds: spec_fn(Datum) -> bool) -> Result<
    Datum,
    Failure,
> {
    match count_failure(params.len(), 1, 1, name) {
        Some(e) => Err(e),
        None => Ok(Datum::Boolean(holds(params[0]))),
    }
}

/// Whether a value is a boolean, a number, a string, a symbol or `Nil`.
pub open spec fn is_atom(d: Datum) -> bool {
    d is Boolean || d is Numeric || d is Text || d is Symbol || d is Nil
}

/// What `(atom? x)` gives: whether `x` is a boolean, a number, a string, a symbol
/// or `Nil`.
pub open spec fn atom_or_not_result(params: Seq<Datum>) -> Result<Datum, Failure> {
    answer(params, "atom?"@, |d: Datum| is_atom(d))
}

/// `(atom? x)`: whether `x` is a boolean, a number, a string, a symbol or `Nil`.
pub fn atom_or_not(params: Vec<Value>) -> (r: Result<Value, ErrorEval>)
    ensures
        result_model(r) == atom_or_not_result(models(params@)),
{
    match check_count(params.len(), 1, 1, "atom?") {
        Some(e) => Err(e),
        None => Ok(
            Value::BooleanValue(
                match &params[0] {
                    Value::BooleanValue(_) => true,
                    Value::NumericValue(_) => true,
                    Value::StringValue(_) => true,
                    Value::SymbolValue(_) => true,
                    Value::NilValue => true,
                    _ => false,
                },
            ),
        ),
    }
}

/// What `(boolean? x)` gives.
pub open spec fn boolean_or_not_result(params: Seq<Datum>) -> Result<Datum, Failure> {
    answer(params, "boolean?"@, |d: Datum| d is Boolean)
}

/// `(boolean? x)`.
pub fn boolean_or_not(params: Vec<Value>) -> (r: Result<Value, ErrorEval>)
    ensures
        result_model(r) == boolean_or_not_result(models(params@)),
{
    match check_count(params.len(), 1, 1, "boolean?") {
        Some(e) => Err(e),
        None => Ok(
            Value::BooleanValue(
                match &params[0] {
                    Value::BooleanValue(_) => true,
                    _ => false,
                },
            ),
        ),
    }
}

/// Whether a value is a number without a fractional part.
pub open spec fn is_integral_number(d: Datum) -> bool {
    match d {
        Datum::Numeric(n) => integral(n),
        _ => false,
    }
}

/// What `(integer? x)` gives: whether `x` is a number without a fractional part.
pub open spec fn integer_or_not_result(params: Seq<Datum>) -> Result<Datum, Failure> {
    answer(params, "integer?"@, |d: Datum| is_integral_number(d))
}

/// `(integer? x)`: whether `x` is a number without a fractional part.
pub fn integer_or_not(params: Vec<Value>) -> (r: Result<Value, ErrorEval>)
    ensures
        result_model(r) == integer_or_not_result(models(params@)),
{
    match check_count(params.len(), 1, 1, "integer?") {
        Some(e) => Err(e),
        None => Ok(
            Value::BooleanValue(
                match &params[0] {
                    Value::NumericValue(n) => n.is_integral(),
                    _ => false,
                },
            ),
        ),
    }
}

/// Whether a value is a proper list.
pub fn is_proper_list(v: &Value) -> (r: bool)
    ensures
        r == (to_sequence(v@) is Some),
{
    let mut cur: &Value = v;
    loop
        invariant
            (to_sequence(v@) is Some) == (to_sequence(cur@) is Some),
        decreases cur,
    {
        match cur {
            Value::NilValue => {
                return true;
            },
            Value::PairValue(_, rest) => {
                cur = &**rest;
            },
            _ => {
                return false;
            },
        }
    }
}

/// What `(list? x)` gives: whether `x` is a proper list.
pub open spec fn list_or_not_result(params: Seq<Datum>) -> Result<Datum, Failure> {
    answer(params, "list?"@, |d: Datum| to_sequence(d) is Some)
}

/// `(list? x)`: whether `x` is a proper list.
pub fn list_or_not(params: Vec<Value>) -> (r: Result<Value, ErrorEval>)
    ensures
        result_model(r) == list_or_not_result(models(params@)),
{
    match check_count(params.len(), 1, 1, "list?") {
        Some(e) => Err(e),
        None => Ok(Value::BooleanValue(is_proper_list(&params[0]))),
    }
}

/// What `(number? x)` gives.
pub open spec fn number_or_not_result(params: Seq<Datum>) -> Result<Datum, Failure> {
    answer(params, "number?"@, |d: Datum| d is Numeric)
}

/// `(number? x)`.
pub fn number_or_not(params: Vec<Value>) -> (r: Result<Value, ErrorEval>)
    ensures
        result_model(r) == number_or_not_result(models(params@)),
{
    match check_count(params.len(), 1, 1, "number?") {
        Some(e) => Err(e),
        None => Ok(
            Value::BooleanValue(
                match &params[0] {
                    Value::NumericValue(_) => true,
                    _ => false,
                },
            ),
        ),
    }
}

/// What `(null? x)` gives: whether `x` is `Nil`.
pub open spec fn null_or_not_result(params: Seq<Datum>) -> Result<Datum, Failure> {
    answer(params, "null?"@, |d: Datum| d is Nil)
}

/// `(null? x)`: whether `x` is `Nil`.
pub fn null_or_not(params: Vec<Value>) -> (r: Result<Value, ErrorEval>)
    ensures
        result_model(r) == null_or_not_result(models(params@)),
{
    match check_count(params.len(), 1, 1, "null?") {
        Some(e) => Err(e),
        None => Ok(
            Value::BooleanValue(
                match &params[0] {
                    Value::NilValue => true,
                    _ => false,
                },
            ),
        ),
    }
}

/// What `(pair? x)` gives.
pub open spec fn pair_or_not_result(params: Seq<Datum>) -> Result<Datum, Failure> {
    answer(params, "pair?"@, |d: Datum| d is Pair)
}

/// `(pair? x)`.
pub fn pair_or_not(params: Vec<Value>) -> (r: Result<Value, ErrorEval>)
    ensures
        result_model(r) == pair_or_not_result(models(params@)),
{
    match check_count(params.len(), 1, 1, "pair?") {
        Some(e) => Err(e),
        None => Ok(
            Value::BooleanValue(
                match &params[0] {
                    Value::PairValue(_, _) => true,
                    _ => false,
                },
            ),
        ),
    }
}

/// What `(procedure? x)` gives: whether `x` is a built-in procedure or a lambda.
pub open spec fn procedure_or_not_result(params: Seq<Datum>) -> Result<Datum, Failure> {
    answer(params, "procedure?"@, |d: Datum| d is Procedure || d is Lambda)
}

/// `(procedure? x)`: whether `x` is a built-in procedure or a lambda.
pub fn procedure_or_not(params: Vec<Value>) -> (r: Result<Value, ErrorEval>)
    ensures
        result_model(r) == procedure_or_not_result(models(params@)),
{
    match check_count(params.len(), 1, 1, "procedure?") {
        Some(e) => Err(e),
        None => Ok(
            Value::BooleanValue(
                match &params[0] {
                    Value::ProcedureValue(_) => true,
                    Value::LambdaValue(_, _, _) => true,
                    _ => false,
                },
            ),
        ),
    }
}

/// What `(string? x)` gives.
pub open spec fn string_or_not_result(params: Seq<Datum>) -> Result<Datum, Failure> {
    answer(params, "string?"@, |d: Datum| d is Text)
}

/// `(string? x)`.
pub fn string_or_not(params: Vec<Value>) -> (r: Result<Value, ErrorEval>)
    ensures
        result_model(r) == string_or_not_result(models(params@)),
{
    match check_count(params.len(), 1, 1, "string?") {
        Some(e) => Err(e),
        None => Ok(
            Value::BooleanValue(
                match &params[0] {
                    Value::StringValue(_) => true,
                    _ => false,
                },
            ),
        ),
    }
}

/// What `(symbol? x)` gives.
pub open spec fn symbol_or_not_result(params: Seq<Datum>) -> Result<Datum, Failure> {
    answer(params, "symbol?"@, |d: Datum| d is Symbol)
}

/// `(symbol? x)`.
pub fn symbol_or_not(params: Vec<Value>) -> (r: Result<Value, ErrorEval>)
    ensures
        result_model(r) == symbol_or_not_result(models(params@)),
{
    match check_count(params.len(), 1, 1, "symbol?") {
        Some(e) => Err(e),
        None => Ok(
            Value::BooleanValue(
                match &params[0] {
                    Value::SymbolValue(_) => true,
                    _ => false,
                },
            ),
        ),
    }
}

/// Whether `scope` itself binds `name`.
pub open spec fn bound_locally(w: World, scope: nat, name: Seq<char>) -> bool {
    scope < w.scopes.len() && lookup_local(w.scopes[scope as int], name) is Some
}

/// What `(defined_local? x)` gives: whether `scope` itself binds `x` as it is
/// written.
pub open spec fn defined_local_or_not_result(params: Seq<Datum>, w: World, scope: nat) -> Result<
    Datum,
    Failure,
> {
    answer(params, "defined_local?"@, |d: Datum| bound_locally(w, scope, rendered(d)))
}

/// `(defined_local? x)`: whether the current scope itself binds `x` as it
/// is written.
pub fn defined_local_or_not(params: Vec<Value>, env: &EvalEnv, scope: usize) -> (r: Result<
    Value,
    ErrorEval,
>)
    ensures
        result_model(r) == defined_local_or_not_result(models(params@), env@, scope as nat),
{
    match check_count(params.len(), 1, 1, "defined_local?") {
        Some(e) => Err(e),
        None => {
            let name = params[0].to_string();
            Ok(Value::BooleanValue(env.find_local(scope, &name).is_some()))
        },
    }
}

/// What `(defined_all? x)` gives: whether `scope` or a scope around it binds `x`
/// as it is written.
pub open spec fn defined_all_or_not_result(params: Seq<Datum>, w: World, scope: nat) -> Result<
    Datum,
    Failure,
> {
    answer(params, "defined_all?"@, |d: Datum| lookup(w, scope, rendered(d)) is Some)
}

/// `(defined_all? x)`: whether the current scope or one around it binds `x`
/// as it is written.
pub fn defined_all_or_not(params: Vec<Value>, env: &EvalEnv, scope: usize) -> (r: Result<
    Value,
    ErrorEval,
>)
    ensures
        result_model(r) == defined_all_or_not_result(models(params@), env@, scope as nat),
{
    match check_count(params.len(), 1, 1, "defined_all?") {
        Some(e) => Err(e),
        None => {
            let name = params[0].to_string();
            Ok(Value::BooleanValue(env.find_binding(scope, &name).is_some()))
        },
    }
}

/// The items that one argument of `append` adds: none for `Nil`, its items
/// for a proper list; anything else is an error.
pub open spec fn append_items(param: Datum) -> Result<Seq<Datum>, Failure> {
    match param {
        Datum::Nil => Ok(Seq::empty()),
        Datum::Pair(_, _) => match to_sequence(param) {
            Some(items) => Ok(items),
            None => Err(
                failure(ErrorKind::TypeError, label("append"@, ">: Cannot append a procedure value"@)),
            ),
        },
        _ => Err(
            failure(ErrorKind::TypeError, label("append"@, ">: Cannot append a procedure value"@)),
        ),
    }
}

/// The items of the arguments of `append` from position `i` on, after `done`.
pub open spec fn appended_from(params: Seq<Datum>, i: nat, done: Seq<Datum>) -> Result<
    Seq<Datum>,
    Failure,
>
    decreases params.len() - i,
{
    if i >= params.len() {
        Ok(done)
    } else {
        match append_items(params[i as int]) {
            Err(e) => Err(e),
            Ok(items) => appended_from(params, i + 1, done + items),
        }
    }
}

/// What `(append list ...)` gives: one list of the items of all the lists,
/// in order; `Nil` without arguments.
pub open spec fn append_result(params: Seq<Datum>) -> Result<Datum, Failure> {
    match appended_from(params, 0, Seq::empty()) {
        Err(e) => Err(e),
        Ok(items) => Ok(from_sequence(items)),
    }
}

/// Moves the items of `more` to the end of `done`.
fn extend(done: &mut Vec<Value>, more: Vec<Value>)
    ensures
        models(final(done)@) == models(old(done)@) + models(more@),
{
    let ghost added = models(more@);
    let mut more = more;
    done.append(&mut more);
    assert(models(done@) =~= models(old(done)@) + added);
}

/// `(append list ...)`.
pub fn append(params: Vec<Value>) -> (r: Result<Value, ErrorEval>)
    ensures
        result_model(r) == append_result(models(params@)),
{
    let mut done: Vec<Value> = Vec::new();
    let mut i: usize = 0;
    assert(models(done@) =~= Seq::empty());
    while i < params.len()
        invariant
            appended_from(models(params@), i as nat, models(done@)) == appended_from(
                models(params@),
                0,
                Seq::empty(),
            ),
        decreases params.len() - i,
    {
        match &params[i] {
            Value::NilValue => {
                assert(models(done@) + Seq::<Datum>::empty() =~= models(done@));
            },
            Value::PairValue(_, _) => match params[i].to_vector() {
                Ok(items) => {
                    extend(&mut done, items);
                },
                Err(_) => {
                    return Err(
                        complaint(
                            ErrorKind::TypeError,
                            "append",
                            ">: Cannot append a procedure value",
                        ),
                    );
                },
            },
            _ => {
                return Err(
                    complaint(ErrorKind::TypeError, "append", ">: Cannot append a procedure value"),
                );
            },
        }
        i += 1;
    }
    Ok(Value::from_vector(done))
}

/// The items that one argument of `push` adds: none for `Nil`, its items for
/// a proper list, itself for a boolean, a number, a string or a symbol;
/// anything else is an error.
pub open spec fn push_items(param: Datum) -> Result<Seq<Datum>, Failure> {
    match param {
        Datum::Nil => Ok(Seq::empty()),
        Datum::Pair(_, _) => match to_sequence(param) {
            Some(items) => Ok(items),
            None => Err(
                failure(ErrorKind::TypeError, label("push"@, ">: Cannot append a procedure value"@)),
            ),
        },
        Datum::Boolean(_) | Datum::Numeric(_) | Datum::Text(_) | Datum::Symbol(_) => Ok(
            seq![param],
        ),
        _ => Err(
            failure(ErrorKind::TypeError, label("push"@, ">: Cannot append a procedure value"@)),
        ),
    }
}

/// The items of the arguments of `push` from position `i` on, after `done`.
pub open spec fn pushed_from(params: Seq<Datum>, i: nat, done: Seq<Datum>) -> Result<
    Seq<Datum>,
    Failure,
>
    decreases params.len() - i,
{
    if i >= params.len() {
        Ok(done)
    } else {
        match push_items(params[i as int]) {
            Err(e) => Err(e),
            Ok(items) => pushed_from(params, i + 1, done + items),
        }
    }
}

/// What `(push list value ...)` gives: one list of the items of the lists
/// and of the atoms among the arguments, in order.
pub open spec fn push_result(params: Seq<Datum>) -> Result<Datum, Failure> {
    match pushed_from(params, 0, Seq::empty()) {
        Err(e) => Err(e),
        Ok(items) => Ok(from_sequence(items)),
    }
}

/// `(push list value ...)`.
pub fn push(params: Vec<Value>) -> (r: Result<Value, ErrorEval>)
    ensures
        result_model(r) == push_result(models(params@)),
{
    let mut done: Vec<Value> = Vec::new();
    let mut i: usize = 0;
    assert(models(done@) =~= Seq::empty());
    while i < params.len()
        invariant
            pushed_from(models(params@), i as nat, models(done@)) == pushed_from(
                models(params@),
                0,
                Seq::empty(),
            ),
        decreases params.len() - i,
    {
        let ghost before = models(done@);
        match &params[i] {
            Value::NilValue => {
                assert(before + Seq::<Datum>::empty() =~= before);
            },
            Value::PairValue(_, _) => match params[i].to_vector() {
                Ok(items) => {
                    extend(&mut done, items);
                },
                Err(_) => {
                    return Err(
                        complaint(ErrorKind::TypeError, "push", ">: Cannot append a procedure value"),
                    );
                },
            },
            Value::BooleanValue(_) | Value::NumericValue(_) | Value::StringValue(_)
            | Value::SymbolValue(_) => {
                done.push(params[i].clone());
                assert(models(done@) =~= before + seq![params[i as int]@]);
            },
            _ => {
                return Err(
                    complaint(ErrorKind::TypeError, "push", ">: Cannot append a procedure value"),
                );
            },
        }
        i += 1;
    }
    Ok(Value::from_vector(done))
}

/// What `(car p)` gives: the first of a pair.
pub open spec fn car_result(params: Seq<Datum>) -> Result<Datum, Failure> {
    match count_failure(params.len(), 1, 1, "car"@) {
        Some(e) => Err(e),
        None => match params[0] {
            Datum::Pair(first, _) => Ok(*first),
            _ => Err(
                failure(
                    ErrorKind::TypeError,
                    label("car"@, ">: Cannot get car of a non-pair/list type value"@),
                ),
            ),
        },
    }
}

/// `(car p)`: the first of a pair.
pub fn car(params: Vec<Value>) -> (r: Result<Value, ErrorEval>)
    ensures
        result_model(r) == car_result(models(params@)),
{
    let mut params = params;
    match check_count(params.len(), 1, 1, "car") {
        Some(e) => Err(e),
        None => match params.swap_remove(0) {
            Value::PairValue(first, _) => Ok(*first),
            _ => Err(
                complaint(
                    ErrorKind::TypeError,
                    "car",
                    ">: Cannot get car of a non-pair/list type value",
                ),
            ),
        },
    }
}

/// What `(cdr p)` gives: the second of a pair.
pub open spec fn cdr_result(params: Seq<Datum>) -> Result<Datum, Failure> {
    match count_failure(params.len(), 1, 1, "cdr"@) {
        Some(e) => Err(e),
        None => match params[0] {
            Datum::Pair(_, rest) => Ok(*rest),
            _ => Err(
                failure(
                    ErrorKind::TypeError,
                    label("cdr"@, ">: Cannot get cdr of a non-pair/list type value"@),
                ),
            ),
        },
    }
}

/// `(cdr p)`: the second of a pair.
pub fn cdr(params: Vec<Value>) -> (r: Result<Value, ErrorEval>)
    ensures
        result_model(r) == cdr_result(models(params@)),
{
    let mut params = params;
    match check_count(params.len(), 1, 1, "cdr") {
        Some(e) => Err(e),
        None => match params.swap_remove(0) {
            Value::PairValue(_, rest) => Ok(*rest),
            _ => Err(
                complaint(
                    ErrorKind::TypeError,
                    "cdr",
                    ">: Cannot get cdr of a non-pair/list type value",
                ),
            ),
        },
    }
}

/// What `(cons a b)` gives: the pair of `a` and `b`.
pub open spec fn cons_result(params: Seq<Datum>) -> Result<Datum, Failure> {
    match count_failure(params.len(), 2, 2, "cons"@) {
        Some(e) => Err(e),
        None => Ok(Datum::Pair(Box::new(params[0]), Box::new(params[1]))),
    }
}

/// `(cons a b)`: the pair of `a` and `b`.
pub fn cons(params: Vec<Value>) -> (r: Result<Value, ErrorEval>)
    ensures
        result_model(r) == cons_result(models(params@)),
{
    let mut params = params;
    match check_count(params.len(), 2, 2, "cons") {
        Some(e) => Err(e),
        None => {
            let second = params.pop().unwrap();
            let first = params.pop().unwrap();
            Ok(Value::PairValue(Box::new(first), Box::new(second)))
        },
    }
}

/// The number that counts `count` things, or the error of `name` where no
/// number can.
pub open spec fn counted(count: nat, name: Seq<char>) -> Result<Datum, Failure> {
    match of_integer(count as int) {
        Some(n) => Ok(Datum::Numeric(n)),
        None => Err(failure(ErrorKind::NumericOverflow, label(name, ">: Number out of range"@))),
    }
}

/// What `(length list)` gives: the number of items of a non-empty proper
/// list, but zero for the list whose one item is `Nil`.
pub open spec fn length_result(params: Seq<Datum>) -> Result<Datum, Failure> {
    match count_failure(params.len(), 1, 1, "length"@) {
        Some(e) => Err(e),
        None => match params[0] {
            Datum::Pair(_, _) => match to_sequence(params[0]) {
                None => Err(improper(label("length"@, ">: Missing argument"@))),
                Some(items) => if items.len() == 1 && items[0] is Nil {
                    counted(0, "length"@)
                } else {
                    counted(items.len(), "length"@)
                },
            },
            _ => Err(
                failure(
                    ErrorKind::TypeError,
                    label("length"@, ">: Cannot get length of a non-list value"@),
                ),
            ),
        },
    }
}

/// The number that counts `count` things.
fn count_of(count: usize, name: &str) -> (r: Result<Value, ErrorEval>)
    ensures
        result_model(r) == counted(count as nat, name@),
{
    let wide = count as u64;
    if wide > 0x7fff_ffff_ffff_ffff {
        return Err(complaint(ErrorKind::NumericOverflow, name, ">: Number out of range"));
    }
    match Number::from_integer(wide as i64) {
        Some(n) => Ok(Value::NumericValue(n)),
        None => Err(complaint(ErrorKind::NumericOverflow, name, ">: Number out of range")),
    }
}

/// `(length list)`.
pub fn length(params: Vec<Value>) -> (r: Result<Value, ErrorEval>)
    ensures
        result_model(r) == length_result(models(params@)),
{
    match check_count(params.len(), 1, 1, "length") {
        Some(e) => Err(e),
        None => match &params[0] {
            Value::PairValue(_, _) => match params[0].to_vector() {
                Err(e) => {
                    let context = label_of("length", ">: Missing argument");
                    Err(e.wrap(context.as_str()))
                },
                Ok(items) => {
                    let single_nil = items.len() == 1 && match &items[0] {
                        Value::NilValue => true,
                        _ => false,
                    };
                    if single_nil {
                        count_of(0, "length")
                    } else {
                        count_of(items.len(), "length")
                    }
                },
            },
            _ => Err(
                complaint(ErrorKind::TypeError, "length", ">: Cannot get length of a non-list value"),
            ),
        },
    }
}

/// What `(list a ...)` gives: the proper list of the arguments.
pub open spec fn list_result(params: Seq<Datum>) -> Result<Datum, Failure> {
    Ok(from_sequence(params))
}

/// `(list a ...)`: the proper list of the arguments.
pub fn list(params: Vec<Value>) -> (r: Result<Value, ErrorEval>)
    ensures
        result_model(r) == list_result(models(params@)),
{
    Ok(Value::from_vector(params))
}

/// The state after each of the first `count` values is printed, as it is
/// written, on a line of its own.
pub open spec fn printed_lines(params: Seq<Datum>, count: nat, w: World) -> World
    decreases count,
{
    if count == 0 || count > params.len() {
        w
    } else {
        printed(printed_lines(params, (count - 1) as nat, w), rendered(params[count - 1]) + "\n"@)
    }
}

/// What `(print x ...)` gives: `Nil`, with each argument printed on a line
/// of its own.
pub open spec fn print_outcome(params: Seq<Datum>, w: World) -> Outcome {
    succeeded(printed_lines(params, params.len(), w), Datum::Nil)
}

/// `(print x ...)`.
pub fn print(params: Vec<Value>, env: &mut EvalEnv) -> (r: Result<Value, ErrorEval>)
    ensures
        outcome(r, final(env)@) == print_outcome(models(params@), old(env)@),
{
    let mut i: usize = 0;
    while i < params.len()
        invariant
            i <= params.len(),
            env@ == printed_lines(models(params@), i as nat, old(env)@),
        decreases params.len() - i,
    {
        let ghost before = env@;
        let text = params[i].to_string();
        env.print(text.as_str());
        env.print("\n");
        assert(env@.output =~= before.output + (rendered(params[i as int]@) + "\n"@));
        i += 1;
    }
    Ok(Value::NilValue)
}

/// What `display` writes for a value: a string's own characters, anything
/// else as it is written.
pub open spec fn displayed(d: Datum) -> Seq<char> {
    match d {
        Datum::Text(s) => s,
        _ => rendered(d),
    }
}

/// What `(display x)` gives: `Nil`, with `x` printed.
pub open spec fn display_outcome(params: Seq<Datum>, w: World) -> Outcome {
    match count_failure(params.len(), 1, 1, "display"@) {
        Some(e) => failed(w, e),
        None => succeeded(printed(w, displayed(params[0])), Datum::Nil),
    }
}

/// The text that `display` writes for a value.
fn display_text(v: &Value) -> (s: String)
    ensures
        s@ == displayed(v@),
{
    match v {
        Value::StringValue(s) => s.clone(),
        other => other.to_string(),
    }
}

/// `(display x)`.
pub fn display(params: Vec<Value>, env: &mut EvalEnv) -> (r: Result<Value, ErrorEval>)
    ensures
        outcome(r, final(env)@) == display_outcome(models(params@), old(env)@),
{
    match check_count(params.len(), 1, 1, "display") {
        Some(e) => Err(e),
        None => {
            let text = display_text(&params[0]);
            env.print(text.as_str());
            Ok(Value::NilValue)
        },
    }
}

/// What `(displayln x)` gives: `Nil`, with `x` printed and the line ended.
pub open spec fn displayln_outcome(params: Seq<Datum>, w: World) -> Outcome {
    match count_failure(params.len(), 1, 1, "displayln"@) {
        Some(e) => failed(w, e),
        None => succeeded(printed(w, displayed(params[0]) + "\n"@), Datum::Nil),
    }
}

/// `(displayln x)`.
pub fn displayln(params: Vec<Value>, env: &mut EvalEnv) -> (r: Result<Value, ErrorEval>)
    ensures
        outcome(r, final(env)@) == displayln_outcome(models(params@), old(env)@),
{
    match check_count(params.len(), 1, 1, "displayln") {
        Some(e) => Err(e),
        None => {
            let ghost before = env@;
            let text = display_text(&params[0]);
            env.print(text.as_str());
            env.print("\n");
            assert(env@.output =~= before.output + (displayed(params[0]@) + "\n"@));
            Ok(Value::NilValue)
        },
    }
}

/// What `(newline)` gives: `Nil`, with the line ended.
pub open spec fn newline_outcome(params: Seq<Datum>, w: World) -> Outcome {
    if params.len() == 0 {
        succeeded(printed(w, "\n"@), Datum::Nil)
    } else {
        failed(w, failure(ErrorKind::ArityError, label("newline"@, ">: Cannot append argument"@)))
    }
}

/// `(newline)`.
pub fn newline(params: Vec<Value>, env: &mut EvalEnv) -> (r: Result<Value, ErrorEval>)
    ensures
        outcome(r, final(env)@) == newline_outcome(models(params@), old(env)@),
{
    if params.len() == 0 {
        env.print("\n");
        Ok(Value::NilValue)
    } else {
        Err(complaint(ErrorKind::ArityError, "newline", ">: Cannot append argument"))
    }
}

/// What `(error)` and `(error x)` give: an error raised by the program,
/// whose message is `x` as it is written.
pub open spec fn error_result(params: Seq<Datum>) -> Result<Datum, Failure> {
    if params.len() > 1 {
        Err(failure(ErrorKind::ArityError, label("error"@, ">: Too many argument"@)))
    } else if params.len() == 1 {
        Err(failure(ErrorKind::Raised, rendered(params[0])))
    } else {
        Err(failure(ErrorKind::Raised, "Error thrown."@))
    }
}

/// `(error)`, `(error x)`.
pub fn error(params: Vec<Value>) -> (r: Result<Value, ErrorEval>)
    ensures
        result_model(r) == error_result(models(params@)),
{
    if params.len() > 1 {
        Err(complaint(ErrorKind::ArityError, "error", ">: Too many argument"))
    } else if params.len() == 1 {
        let text = params[0].to_string();
        Err(ErrorEval::new(ErrorKind::Raised, text.as_str()))
    } else {
        Err(ErrorEval::new(ErrorKind::Raised, "Error thrown."))
    }
}

/// The exit code that a number stands for: its whole part, held to the
/// range of the codes.
pub open spec fn exit_code_of(n: int) -> i32 {
    let whole = whole_part(n);
    if whole < i32::MIN {
        i32::MIN
    } else if whole > i32::MAX {
        i32::MAX
    } else {
        whole as i32
    }
}

/// The whole part of a number, held to the range of `i32`.
fn held_whole(n: Number) -> (r: i32)
    ensures
        r == exit_code_of(n@),
{
    let whole = n.whole();
    if whole < -0x8000_0000 {
        -0x8000_0000
    } else if whole > 0x7fff_ffff {
        0x7fff_ffff
    } else {
        whole as i32
    }
}

/// The error that carries a request to leave up to the caller of `eval`.
pub open spec fn leave_failure(name: Seq<char>) -> Failure {
    failure(ErrorKind::Exit, label(name, ">: Leaving"@))
}

/// What `(exit)` and `(exit code)` give: an error of the kind `Exit`, with
/// the code noted in the state; the code is zero where none is given.
pub open spec fn exit_outcome(params: Seq<Datum>, w: World) -> Outcome {
    if params.len() == 0 {
        failed(leaving(w, 0), leave_failure("exit"@))
    } else if params.len() > 1 {
        failed(w, failure(ErrorKind::ArityError, label("exit"@, ">: Too many argument"@)))
    } else {
        match params[0] {
            Datum::Numeric(n) => failed(leaving(w, exit_code_of(n)), leave_failure("exit"@)),
            _ => failed(
                w,
                failure(
                    ErrorKind::TypeError,
                    label("exit"@, ">: Non integer exit code is forbidden"@),
                ),
            ),
        }
    }
}

/// `(exit)`, `(exit code)`.
pub fn exit(params: Vec<Value>, env: &mut EvalEnv) -> (r: Result<Value, ErrorEval>)
    ensures
        outcome(r, final(env)@) == exit_outcome(models(params@), old(env)@),
{
    if params.len() == 0 {
        env.request_exit(0);
        Err(complaint(ErrorKind::Exit, "exit", ">: Leaving"))
    } else if params.len() > 1 {
        Err(complaint(ErrorKind::ArityError, "exit", ">: Too many argument"))
    } else {
        match &params[0] {
            Value::NumericValue(n) => {
                env.request_exit(held_whole(*n));
                Err(complaint(ErrorKind::Exit, "exit", ">: Leaving"))
            },
            _ => Err(
                complaint(ErrorKind::TypeError, "exit", ">: Non integer exit code is forbidden"),
            ),
        }
    }
}

/// What `(exit_force ...)` gives: as `exit`, but a call that `exit` would
/// refuse leaves too, with the code 127.
pub open spec fn exit_force_outcome(params: Seq<Datum>, w: World) -> Outcome {
    if params.len() == 0 {
        failed(leaving(w, 0), leave_failure("exit_force"@))
    } else if params.len() > 1 {
        failed(leaving(w, 127), leave_failure("exit_force"@))
    } else {
        match params[0] {
            Datum::Numeric(n) => failed(leaving(w, exit_code_of(n)), leave_failure("exit_force"@)),
            _ => failed(leaving(w, 127), leave_failure("exit_force"@)),
        }
    }
}

/// `(exit_force ...)`.
pub fn exit_force(params: Vec<Value>, env: &mut EvalEnv) -> (r: Result<Value, ErrorEval>)
    ensures
        outcome(r, final(env)@) == exit_force_outcome(models(params@), old(env)@),
{
    let code: i32 = if params.len() == 0 {
        0
    } else if params.len() > 1 {
        127
    } else {
        match &params[0] {
            Value::NumericValue(n) => held_whole(*n),
            _ => 127,
        }
    };
    env.request_exit(code);
    Err(complaint(ErrorKind::Exit, "exit_force", ">: Leaving"))
}

/// The error of a builtin whose result is out of the numbers' range.
pub open spec fn range_failure(name: Seq<char>) -> Failure {
    failure(ErrorKind::NumericOverflow, label(name, ">: Number out of range"@))
}

/// The number `n`, or the error of `name` where there is none.
pub open spec fn numbered(n: Option<int>, name: Seq<char>) -> Result<Datum, Failure> {
    match n {
        Some(n) => Ok(Datum::Numeric(n)),
        None => Err(range_failure(name)),
    }
}

/// The number `n` as a value, or the error of `name` where there is none.
fn number_or_range(n: Option<Number>, name: &str) -> (r: Result<Value, ErrorEval>)
    ensures
        result_model(r) == numbered(crate::number::optional(n), name@),
{
    match n {
        Some(n) => Ok(Value::NumericValue(n)),
        None => Err(complaint(ErrorKind::NumericOverflow, name, ">: Number out of range")),
    }
}

/// The sum of `total` and the arguments from position `i` on.
pub open spec fn added_from(params: Seq<Datum>, i: nat, total: int) -> Result<Datum, Failure>
    decreases params.len() - i,
{
    if i >= params.len() {
        Ok(Datum::Numeric(total))
    } else {
        match params[i as int] {
            Datum::Numeric(n) => match sum(total, n) {
                Some(t) => added_from(params, i + 1, t),
                None => Err(range_failure("+"@)),
            },
            _ => Err(
                failure(ErrorKind::TypeError, label("+"@, ">: Cannot add a non-numeric value"@)),
            ),
        }
    }
}

/// What `(+ a ...)` gives: the sum of the arguments; zero without arguments.
pub open spec fn add_result(params: Seq<Datum>) -> Result<Datum, Failure> {
    added_from(params, 0, 0)
}

/// `(+ a ...)`.
pub fn add(params: Vec<Value>) -> (r: Result<Value, ErrorEval>)
    ensures
        result_model(r) == add_result(models(params@)),
{
    let mut total = Number::zero();
    let mut i: usize = 0;
    while i < params.len()
        invariant
            added_from(models(params@), i as nat, total@) == add_result(models(params@)),
        decreases params.len() - i,
    {
        match &params[i] {
            Value::NumericValue(n) => match total.add(*n) {
                Some(t) => {
                    total = t;
                },
                None => {
                    return Err(complaint(ErrorKind::NumericOverflow, "+", ">: Number out of range"));
                },
            },
            _ => {
                return Err(
                    complaint(ErrorKind::TypeError, "+", ">: Cannot add a non-numeric value"),
                );
            },
        }
        i += 1;
    }
    Ok(Value::NumericValue(total))
}

/// What `(- a)` and `(- a b)` give: the negation of `a`, the difference of
/// `a` and `b`.
pub open spec fn subtract_result(params: Seq<Datum>) -> Result<Datum, Failure> {
    match count_failure(params.len(), 1, 2, "-"@) {
        Some(e) => Err(e),
        None => if params.len() == 1 {
            match params[0] {
                Datum::Numeric(n) => numbered(difference(0, n), "-"@),
                _ => Err(
                    failure(
                        ErrorKind::TypeError,
                        label("-"@, ">: Cannot subtract a non-numeric value"@),
                    ),
                ),
            }
        } else {
            match (params[0], params[1]) {
                (Datum::Numeric(a), Datum::Numeric(b)) => numbered(difference(a, b), "-"@),
                _ => Err(
                    failure(
                        ErrorKind::TypeError,
                        label("-"@, ">: Cannot do subtraction with a non-numeric value"@),
                    ),
                ),
            }
        },
    }
}

/// `(- a)`, `(- a b)`.
pub fn subtract(params: Vec<Value>) -> (r: Result<Value, ErrorEval>)
    ensures
        result_model(r) == subtract_result(models(params@)),
{
    match check_count(params.len(), 1, 2, "-") {
        Some(e) => Err(e),
        None => if params.len() == 1 {
            match &params[0] {
                Value::NumericValue(n) => number_or_range(n.negate(), "-"),
                _ => Err(
                    complaint(ErrorKind::TypeError, "-", ">: Cannot subtract a non-numeric value"),
                ),
            }
        } else {
            match (&params[0], &params[1]) {
                (Value::NumericValue(a), Value::NumericValue(b)) => number_or_range(
                    a.subtract(*b),
                    "-",
                ),
                _ => Err(
                    complaint(
                        ErrorKind::TypeError,
                        "-",
                        ">: Cannot do subtraction with a non-numeric value",
                    ),
                ),
            }
        },
    }
}

/// The product of `total` and the arguments from position `i` on.
pub open spec fn multiplied_from(params: Seq<Datum>, i: nat, total: int) -> Result<Datum, Failure>
    decreases params.len() - i,
{
    if i >= params.len() {
        Ok(Datum::Numeric(total))
    } else {
        match params[i as int] {
            Datum::Numeric(n) => match product(total, n) {
                Some(t) => multiplied_from(params, i + 1, t),
                None => Err(range_failure("*"@)),
            },
            _ => Err(
                failure(ErrorKind::TypeError, label("*"@, ">: Cannot multiply non-numeric values"@)),
            ),
        }
    }
}

/// What `(* a ...)` gives: the product of the arguments; one without
/// arguments.
pub open spec fn multiply_result(params: Seq<Datum>) -> Result<Datum, Failure> {
    multiplied_from(params, 0, SCALE as int)
}

/// `(* a ...)`.
pub fn multiply(params: Vec<Value>) -> (r: Result<Value, ErrorEval>)
    ensures
        result_model(r) == multiply_result(models(params@)),
{
    let mut total = Number::one();
    let mut i: usize = 0;
    while i < params.len()
        invariant
            multiplied_from(models(params@), i as nat, total@) == multiply_result(models(params@)),
        decreases params.len() - i,
    {
        match &params[i] {
            Value::NumericValue(n) => match total.multiply(*n) {
                Some(t) => {
                    total = t;
                },
                None => {
                    return Err(complaint(ErrorKind::NumericOverflow, "*", ">: Number out of range"));
                },
            },
            _ => {
                return Err(
                    complaint(ErrorKind::TypeError, "*", ">: Cannot multiply non-numeric values"),
                );
            },
        }
        i += 1;
    }
    Ok(Value::NumericValue(total))
}

/// The ratio of two numbers as a builtin gives it: a zero divisor is the
/// error `DivisionByZero`.
pub open spec fn divided(a: int, b: int, name: Seq<char>) -> Result<Datum, Failure> {
    if b == 0 {
        Err(failure(ErrorKind::DivisionByZero, label(name, ">: Division by zero"@)))
    } else {
        numbered(ratio(a, b), name)
    }
}

/// What `(/ a)` and `(/ a b)` give: the reciprocal of `a`, the ratio of `a`
/// and `b`.
pub open spec fn divide_result(params: Seq<Datum>) -> Result<Datum, Failure> {
    match count_failure(params.len(), 1, 2, "/"@) {
        Some(e) => Err(e),
        None => if params.len() == 1 {
            match params[0] {
                Datum::Numeric(n) => divided(SCALE as int, n, "/"@),
                _ => Err(
                    failure(
                        ErrorKind::TypeError,
                        label("/"@, ">: Cannot divide a non-numeric value"@),
                    ),
                ),
            }
        } else {
            match (params[0], params[1]) {
                (Datum::Numeric(a), Datum::Numeric(b)) => divided(a, b, "/"@),
                _ => Err(
                    failure(
                        ErrorKind::TypeError,
                        label("/"@, ">: Cannot divide a non-numeric value"@),
                    ),
                ),
            }
        },
    }
}

/// The ratio of two numbers as a builtin gives it.
fn divide_numbers(a: Number, b: Number, name: &str) -> (r: Result<Value, ErrorEval>)
    ensures
        result_model(r) == divided(a@, b@, name@),
{
    if b.is_zero() {
        Err(complaint(ErrorKind::DivisionByZero, name, ">: Division by zero"))
    } else {
        number_or_range(a.divide(b), name)
    }
}

/// `(/ a)`, `(/ a b)`.
pub fn divide(params: Vec<Value>) -> (r: Result<Value, ErrorEval>)
    ensures
        result_model(r) == divide_result(models(params@)),
{
    match check_count(params.len(), 1, 2, "/") {
        Some(e) => Err(e),
        None => if params.len() == 1 {
            match &params[0] {
                Value::NumericValue(n) => divide_numbers(Number::one(), *n, "/"),
                _ => Err(
                    complaint(ErrorKind::TypeError, "/", ">: Cannot divide a non-numeric value"),
                ),
            }
        } else {
            match (&params[0], &params[1]) {
                (Value::NumericValue(a), Value::NumericValue(b)) => divide_numbers(*a, *b, "/"),
                _ => Err(
                    complaint(ErrorKind::TypeError, "/", ">: Cannot divide a non-numeric value"),
                ),
            }
        },
    }
}

/// What `(abs a)` gives: the magnitude of `a`.
pub open spec fn abs_result(params: Seq<Datum>) -> Result<Datum, Failure> {
    match count_failure(params.len(), 1, 1, "abs"@) {
        Some(e) => Err(e),
        None => match params[0] {
            Datum::Numeric(n) => numbered(magnitude(n), "abs"@),
            _ => Err(
                failure(
                    ErrorKind::TypeError,
                    label("abs"@, ">: Cannot do abs with non-numeric value"@),
                ),
            ),
        },
    }
}

/// `(abs a)`.
pub fn abs(params: Vec<Value>) -> (r: Result<Value, ErrorEval>)
    ensures
        result_model(r) == abs_result(models(params@)),
{
    match check_count(params.len(), 1, 1, "abs") {
        Some(e) => Err(e),
        None => match &params[0] {
            Value::NumericValue(n) => number_or_range(n.abs(), "abs"),
            _ => Err(
                complaint(ErrorKind::TypeError, "abs", ">: Cannot do abs with non-numeric value"),
            ),
        },
    }
}

/// `base` raised to the power `exponent`, by squaring: every product is
/// rounded towards zero to six places.
pub open spec fn power(base: int, exponent: nat) -> Option<int>
    decreases exponent,
{
    if exponent == 0 {
        Some(SCALE as int)
    } else if exponent % 2 == 0 {
        match power(base, exponent / 2) {
            Some(half) => product(half, half),
            None => None,
        }
    } else {
        match power(base, (exponent - 1) as nat) {
            Some(rest) => product(rest, base),
            None => None,
        }
    }
}

/// `base` raised to the whole number `exponent`, which may be negative.
pub open spec fn raised(base: int, exponent: int) -> Option<int> {
    if exponent >= 0 {
        power(base, exponent as nat)
    } else {
        match power(base, (-exponent) as nat) {
            Some(p) => ratio(SCALE as int, p),
            None => None,
        }
    }
}

/// What `(expt base exponent)` gives: the power, for a base and an exponent
/// that are both not zero and an exponent without a fractional part.
pub open spec fn expt_result(params: Seq<Datum>) -> Result<Datum, Failure> {
    match count_failure(params.len(), 2, 2, "expt"@) {
        Some(e) => Err(e),
        None => match (params[0], params[1]) {
            (Datum::Numeric(base), Datum::Numeric(exponent)) => if base != 0 && exponent != 0 {
                if integral(exponent) {
                    numbered(raised(base, whole_part(exponent)), "expt"@)
                } else {
                    Err(
                        failure(
                            ErrorKind::TypeError,
                            label("expt"@, ">: Cannot raise to a non-integer power"@),
                        ),
                    )
                }
            } else if base == 0 && exponent == 0 {
                Err(failure(ErrorKind::TypeError, label("expt"@, ">: Cannot calculate 0^0"@)))
            } else {
                Err(
                    failure(
                        ErrorKind::TypeError,
                        label("expt"@, ">: Cannot do expt with a zero base or exponent"@),
                    ),
                )
            },
            _ => Err(
                failure(
                    ErrorKind::TypeError,
                    label("expt"@, ">: Cannot do expt with non-numeric values"@),
                ),
            ),
        },
    }
}

/// `base` raised to the power `exponent`.
fn power_of(base: Number, exponent: u64) -> (r: Option<Number>)
    ensures
        crate::number::optional(r) == power(base@, exponent as nat),
    decreases exponent,
{
    if exponent == 0 {
        Some(Number::one())
    } else if exponent % 2 == 0 {
        match power_of(base, exponent / 2) {
            Some(half) => half.multiply(half),
            None => None,
        }
    } else {
        match power_of(base, exponent - 1) {
            Some(rest) => rest.multiply(base),
            None => None,
        }
    }
}

/// `base` raised to the whole number `exponent`.
fn raise(base: Number, exponent: i64) -> (r: Option<Number>)
    ensures
        crate::number::optional(r) == raised(base@, exponent as int),
{
    if exponent >= 0 {
        power_of(base, exponent as u64)
    } else {
        let positive: u64 = (0 - exponent as i128) as u64;
        match power_of(base, positive) {
            Some(p) => Number::one().divide(p),
            None => None,
        }
    }
}

/// `(expt base exponent)`.
pub fn expt(params: Vec<Value>) -> (r: Result<Value, ErrorEval>)
    ensures
        result_model(r) == expt_result(models(params@)),
{
    match check_count(params.len(), 2, 2, "expt") {
        Some(e) => Err(e),
        None => match (&params[0], &params[1]) {
            (Value::NumericValue(base), Value::NumericValue(exponent)) => {
                if !base.is_zero() && !exponent.is_zero() {
                    if exponent.is_integral() {
                        number_or_range(raise(*base, exponent.whole()), "expt")
                    } else {
                        Err(
                            complaint(
                                ErrorKind::TypeError,
                                "expt",
                                ">: Cannot raise to a non-integer power",
                            ),
                        )
                    }
                } else if base.is_zero() && exponent.is_zero() {
                    Err(complaint(ErrorKind::TypeError, "expt", ">: Cannot calculate 0^0"))
                } else {
                    Err(
                        complaint(
                            ErrorKind::TypeError,
                            "expt",
                            ">: Cannot do expt with a zero base or exponent",
                        ),
                    )
                }
            },
            _ => Err(
                complaint(ErrorKind::TypeError, "expt", ">: Cannot do expt with non-numeric values"),
            ),
        },
    }
}

/// What a builtin gives that takes two numbers, the second not zero.
pub open spec fn divided_by(
    params: Seq<Datum>,
    name: Seq<char>,
    compute: spec_fn(int, int) -> Result<Datum, Failure>,
) -> Result<Datum, Failure> {
    match count_failure(params.len(), 2, 2, name) {
        Some(e) => Err(e),
        None => match (params[0], params[1]) {
            (Datum::Numeric(a), Datum::Numeric(b)) => if b != 0 {
                compute(a, b)
            } else {
                Err(failure(ErrorKind::DivisionByZero, label(name, ">: Division by zero"@)))
            },
            _ => Err(
                failure(ErrorKind::TypeError, label(name, ">: Cannot work on non-numeric values"@)),
            ),
        },
    }
}

/// The whole number of times that `b` goes into `a`, rounded towards zero.
pub open spec fn quotient_of(a: int, b: int) -> Result<Datum, Failure> {
    numbered(of_integer(quotient_towards_zero(a, b)), "quotient"@)
}

/// What `(quotient a b)` gives: `a / b` rounded towards zero to a whole
/// number.
pub open spec fn quotient_result(params: Seq<Datum>) -> Result<Datum, Failure> {
    divided_by(params, "quotient"@, |a: int, b: int| quotient_of(a, b))
}

/// The two numbers that a builtin of two numbers was called on, the second
/// not zero; or the error that it gives otherwise.
fn two_numbers(params: &Vec<Value>, name: &str) -> (r: Result<(Number, Number), ErrorEval>)
    ensures
        match r {
            Ok((a, b)) => params.len() == 2 && params[0]@ == Datum::Numeric(a@) && params[1]@
                == Datum::Numeric(b@) && b@ != 0,
            Err(e) => forall|compute: spec_fn(int, int) -> Result<Datum, Failure>|
                #[trigger] divided_by(models(params@), name@, compute) == Err::<Datum, Failure>(
                    e@,
                ),
        },
{
    match check_count(params.len(), 2, 2, name) {
        Some(e) => Err(e),
        None => match (&params[0], &params[1]) {
            (Value::NumericValue(a), Value::NumericValue(b)) => {
                if !b.is_zero() {
                    Ok((*a, *b))
                } else {
                    Err(complaint(ErrorKind::DivisionByZero, name, ">: Division by zero"))
                }
            },
            _ => Err(complaint(ErrorKind::TypeError, name, ">: Cannot work on non-numeric values")),
        },
    }
}

/// `a / b` rounded towards zero, for numbers as wide as a [`Number`] holds.
fn wide_quotient(a: i64, b: i64) -> (q: i128)
    requires
        b != 0,
    ensures
        q == quotient_towards_zero(a as int, b as int),
{
    let a = a as i128;
    let b = b as i128;
    if a >= 0 && b > 0 {
        a / b
    } else if a < 0 && b > 0 {
        -((-a) / b)
    } else if a >= 0 && b < 0 {
        -(a / (-b))
    } else {
        (-a) / (-b)
    }
}

/// `(quotient a b)`.
pub fn quotient(params: Vec<Value>) -> (r: Result<Value, ErrorEval>)
    ensures
        result_model(r) == quotient_result(models(params@)),
{
    match two_numbers(&params, "quotient") {
        Err(e) => Err(e),
        Ok((a, b)) => {
            let q = wide_quotient(a.scaled, b.scaled);
            if q < -0x8000_0000_0000_0000 || q > 0x7fff_ffff_ffff_ffff {
                assert(of_integer(q as int) is None);
                Err(complaint(ErrorKind::NumericOverflow, "quotient", ">: Number out of range"))
            } else {
                number_or_range(Number::from_integer(q as i64), "quotient")
            }
        },
    }
}

/// The error of a builtin that wants whole numbers and got another.
pub open spec fn whole_failure(name: Seq<char>) -> Failure {
    failure(ErrorKind::TypeError, label(name, ">: Cannot work on non-integer values"@))
}

/// The remainder of `a` by `b` whose sign is that of `b`.
pub open spec fn modulo_of(a: int, b: int) -> Result<Datum, Failure> {
    if integral(a) && integral(b) {
        let left = remainder_towards_zero(a, b);
        if left == 0 || (left > 0) == (b > 0) {
            Ok(Datum::Numeric(left))
        } else {
            Ok(Datum::Numeric(left + b))
        }
    } else {
        Err(whole_failure("modulo"@))
    }
}

/// What `(modulo a b)` gives, for whole numbers: the remainder of `a` by `b`
/// whose sign is that of `b`.
pub open spec fn modulo_result(params: Seq<Datum>) -> Result<Datum, Failure> {
    divided_by(params, "modulo"@, |a: int, b: int| modulo_of(a, b))
}

/// The remainder towards zero is the remainder of the magnitudes, with the
/// sign of the dividend.
pub proof fn lemma_remainder_by_magnitudes(a: int, b: int)
    requires
        b != 0,
    ensures
        remainder_towards_zero(a, b) == (if a < 0 {
            -((-a) % (if b < 0 {
                -b
            } else {
                b
            }))
        } else {
            a % (if b < 0 {
                -b
            } else {
                b
            })
        }),
{
    let m = if a < 0 {
        -a
    } else {
        a
    };
    let d = if b < 0 {
        -b
    } else {
        b
    };
    vstd::arithmetic::div_mod::lemma_fundamental_div_mod(m, d);
    let q = m / d;
    assert(m == d * q + m % d);
    if a >= 0 && b > 0 {
        assert(a - q * b == m % d) by (nonlinear_arith)
            requires
                m == d * q + m % d,
                a == m,
                b == d,
        ;
    } else if a < 0 && b > 0 {
        assert(a - (-q) * b == -(m % d)) by (nonlinear_arith)
            requires
                m == d * q + m % d,
                a == -m,
                b == d,
        ;
    } else if a >= 0 && b < 0 {
        assert(a - (-q) * b == m % d) by (nonlinear_arith)
            requires
                m == d * q + m % d,
                a == m,
                b == -d,
        ;
    } else {
        assert(a - q * b == -(m % d)) by (nonlinear_arith)
            requires
                m == d * q + m % d,
                a == -m,
                b == -d,
        ;
    }
}

/// What is left of `a` after taking out the whole number of times that `b`
/// goes into it.
fn wide_remainder(a: i64, b: i64) -> (left: i64)
    requires
        b != 0,
    ensures
        left == remainder_towards_zero(a as int, b as int),
        b > 0 ==> -b < left < b,
        b < 0 ==> b < left < -b,
{
    let m: i128 = if a < 0 {
        -(a as i128)
    } else {
        a as i128
    };
    let d: i128 = if b < 0 {
        -(b as i128)
    } else {
        b as i128
    };
    proof {
        lemma_remainder_by_magnitudes(a as int, b as int);
        vstd::arithmetic::div_mod::lemma_mod_bound(m as int, d as int);
    }
    let left = m % d;
    if a < 0 {
        (-left) as i64
    } else {
        left as i64
    }
}

/// `(modulo a b)`.
pub fn modulo(params: Vec<Value>) -> (r: Result<Value, ErrorEval>)
    ensures
        result_model(r) == modulo_result(models(params@)),
{
    match two_numbers(&params, "modulo") {
        Err(e) => Err(e),
        Ok((a, b)) => {
            if a.is_integral() && b.is_integral() {
                let left = wide_remainder(a.scaled, b.scaled);
                if left == 0 || (left > 0) == (b.scaled > 0) {
                    Ok(Value::NumericValue(Number { scaled: left }))
                } else {
                    Ok(Value::NumericValue(Number { scaled: left + b.scaled }))
                }
            } else {
                Err(complaint(ErrorKind::TypeError, "modulo", ">: Cannot work on non-integer values"))
            }
        },
    }
}

/// The remainder of `a` by `b` whose sign is that of `a`.
pub open spec fn remainder_of(a: int, b: int) -> Result<Datum, Failure> {
    if integral(a) && integral(b) {
        Ok(Datum::Numeric(remainder_towards_zero(a, b)))
    } else {
        Err(whole_failure("remainder"@))
    }
}

/// What `(remainder a b)` gives, for whole numbers: the remainder of `a` by
/// `b` whose sign is that of `a`.
pub open spec fn remainder_result(params: Seq<Datum>) -> Result<Datum, Failure> {
    divided_by(params, "remainder"@, |a: int, b: int| remainder_of(a, b))
}

/// `(remainder a b)`.
pub fn remainder(params: Vec<Value>) -> (r: Result<Value, ErrorEval>)
    ensures
        result_model(r) == remainder_result(models(params@)),
{
    match two_numbers(&params, "remainder") {
        Err(e) => Err(e),
        Ok((a, b)) => {
            if a.is_integral() && b.is_integral() {
                Ok(Value::NumericValue(Number { scaled: wide_remainder(a.scaled, b.scaled) }))
            } else {
                Err(
                    complaint(
                        ErrorKind::TypeError,
                        "remainder",
                        ">: Cannot work on non-integer values",
                    ),
                )
            }
        },
    }
}

/// What a builtin gives that takes two numbers and says whether `holds`
/// of them.
pub open spec fn judged(params: Seq<Datum>, name: Seq<char>, holds: spec_fn(int, int) -> bool) -> Result<
    Datum,
    Failure,
> {
    match count_failure(params.len(), 2, 2, name) {
        Some(e) => Err(e),
        None => match (params[0], params[1]) {
            (Datum::Numeric(a), Datum::Numeric(b)) => Ok(Datum::Boolean(holds(a, b))),
            _ => Err(
                failure(ErrorKind::TypeError, label(name, ">: Cannot compare a non-numeric values"@)),
            ),
        },
    }
}

/// The two numbers that a builtin that judges two numbers was called on, or
/// the error that it gives otherwise.
fn two_to_judge(params: &Vec<Value>, name: &str) -> (r: Result<(Number, Number), ErrorEval>)
    ensures
        match r {
            Ok((a, b)) => params.len() == 2 && params[0]@ == Datum::Numeric(a@) && params[1]@
                == Datum::Numeric(b@),
            Err(e) => forall|holds: spec_fn(int, int) -> bool|
                #[trigger] judged(models(params@), name@, holds) == Err::<Datum, Failure>(e@),
        },
{
    match check_count(params.len(), 2, 2, name) {
        Some(e) => Err(e),
        None => match (&params[0], &params[1]) {
            (Value::NumericValue(a), Value::NumericValue(b)) => Ok((*a, *b)),
            _ => Err(
                complaint(ErrorKind::TypeError, name, ">: Cannot compare a non-numeric values"),
            ),
        },
    }
}

/// What `(= a b)` gives: whether two numbers are equal.
pub open spec fn equal_or_not_result(params: Seq<Datum>) -> Result<Datum, Failure> {
    judged(params, "="@, |a: int, b: int| a == b)
}

/// `(= a b)`: whether two numbers are equal.
pub fn equal_or_not(params: Vec<Value>) -> (r: Result<Value, ErrorEval>)
    ensures
        result_model(r) == equal_or_not_result(models(params@)),
{
    match two_to_judge(&params, "=") {
        Err(e) => Err(e),
        Ok((a, b)) => Ok(Value::BooleanValue(a.scaled == b.scaled)),
    }
}

/// What `(< a b)` gives.
pub open spec fn less_than_or_not_result(params: Seq<Datum>) -> Result<Datum, Failure> {
    judged(params, "<"@, |a: int, b: int| a < b)
}

/// `(< a b)`.
pub fn less_than_or_not(params: Vec<Value>) -> (r: Result<Value, ErrorEval>)
    ensures
        result_model(r) == less_than_or_not_result(models(params@)),
{
    match two_to_judge(&params, "<") {
        Err(e) => Err(e),
        Ok((a, b)) => Ok(Value::BooleanValue(a.scaled < b.scaled)),
    }
}

/// What `(> a b)` gives.
pub open spec fn more_than_or_not_result(params: Seq<Datum>) -> Result<Datum, Failure> {
    judged(params, ">"@, |a: int, b: int| a > b)
}

/// `(> a b)`.
pub fn more_than_or_not(params: Vec<Value>) -> (r: Result<Value, ErrorEval>)
    ensures
        result_model(r) == more_than_or_not_result(models(params@)),
{
    match two_to_judge(&params, ">") {
        Err(e) => Err(e),
        Ok((a, b)) => Ok(Value::BooleanValue(a.scaled > b.scaled)),
    }
}

/// What `(<= a b)` gives.
pub open spec fn less_than_or_equal_or_not_result(params: Seq<Datum>) -> Result<Datum, Failure> {
    judged(params, "<="@, |a: int, b: int| a <= b)
}

/// `(<= a b)`.
pub fn less_than_or_equal_or_not(params: Vec<Value>) -> (r: Result<Value, ErrorEval>)
    ensures
        result_model(r) == less_than_or_equal_or_not_result(models(params@)),
{
    match two_to_judge(&params, "<=") {
        Err(e) => Err(e),
        Ok((a, b)) => Ok(Value::BooleanValue(a.scaled <= b.scaled)),
    }
}

/// What `(>= a b)` gives.
pub open spec fn more_than_or_equal_or_not_result(params: Seq<Datum>) -> Result<Datum, Failure> {
    judged(params, ">="@, |a: int, b: int| a >= b)
}

/// `(>= a b)`.
pub fn more_than_or_equal_or_not(params: Vec<Value>) -> (r: Result<Value, ErrorEval>)
    ensures
        result_model(r) == more_than_or_equal_or_not_result(models(params@)),
{
    match two_to_judge(&params, ">=") {
        Err(e) => Err(e),
        Ok((a, b)) => Ok(Value::BooleanValue(a.scaled >= b.scaled)),
    }
}

/// What is left of a whole number by two, the number first held to the
/// range of `i32`: it has the sign of the number.
pub open spec fn held_parity(n: int) -> int {
    remainder_towards_zero(exit_code_of(n) as int, 2)
}

/// What a builtin gives that takes one whole number and says whether its
/// parity, as `held_parity` gives it, is `wanted`.
pub open spec fn parity_result(params: Seq<Datum>, name: Seq<char>, wanted: int) -> Result<
    Datum,
    Failure,
> {
    match count_failure(params.len(), 1, 1, name) {
        Some(e) => Err(e),
        None => match params[0] {
            Datum::Numeric(n) => if integral(n) {
                Ok(Datum::Boolean(held_parity(n) == wanted))
            } else {
                Err(
                    failure(
                        ErrorKind::TypeError,
                        label(name, ">: Cannot judge even/odd with a non-integer number"@),
                    ),
                )
            },
            _ => Err(
                failure(ErrorKind::TypeError, label(name, ">: Cannot compare a non-numeric values"@)),
            ),
        },
    }
}

/// Says whether the parity of the one whole number in `params` is `wanted`.
fn parity(params: &Vec<Value>, name: &str, wanted: i64) -> (r: Result<Value, ErrorEval>)
    ensures
        result_model(r) == parity_result(models(params@), name@, wanted as int),
{
    match check_count(params.len(), 1, 1, name) {
        Some(e) => Err(e),
        None => match &params[0] {
            Value::NumericValue(n) => {
                if n.is_integral() {
                    let held = held_whole(*n);
                    let left = wide_remainder(held as i64, 2);
                    Ok(Value::BooleanValue(left == wanted))
                } else {
                    Err(
                        complaint(
                            ErrorKind::TypeError,
                            name,
                            ">: Cannot judge even/odd with a non-integer number",
                        ),
                    )
                }
            },
            _ => Err(
                complaint(ErrorKind::TypeError, name, ">: Cannot compare a non-numeric values"),
            ),
        },
    }
}

/// What `(even? n)` gives.
pub open spec fn even_or_not_result(params: Seq<Datum>) -> Result<Datum, Failure> {
    parity_result(params, "even?"@, 0)
}

/// `(even? n)`.
pub fn even_or_not(params: Vec<Value>) -> (r: Result<Value, ErrorEval>)
    ensures
        result_model(r) == even_or_not_result(models(params@)),
{
    parity(&params, "even?", 0)
}

/// What `(odd? n)` gives: whether what is left of `n` by two is one, which it is for
/// no negative number.
pub open spec fn odd_or_not_result(params: Seq<Datum>) -> Result<Datum, Failure> {
    parity_result(params, "odd?"@, 1)
}

/// `(odd? n)`: whether what is left of `n` by two is one, which it is for no
/// negative number.
pub fn odd_or_not(params: Vec<Value>) -> (r: Result<Value, ErrorEval>)
    ensures
        result_model(r) == odd_or_not_result(models(params@)),
{
    parity(&params, "odd?", 1)
}

/// What `(zero? n)` gives.
pub open spec fn zero_result(params: Seq<Datum>) -> Result<Datum, Failure> {
    match count_failure(params.len(), 1, 1, "zero?"@) {
        Some(e) => Err(e),
        None => match params[0] {
            Datum::Numeric(n) => Ok(Datum::Boolean(n == 0)),
            _ => Err(
                failure(
                    ErrorKind::TypeError,
                    label("zero?"@, ">: Cannot compare a non-numeric values"@),
                ),
            ),
        },
    }
}

/// `(zero? n)`.
pub fn zero_or_not(params: Vec<Value>) -> (r: Result<Value, ErrorEval>)
    ensures
        result_model(r) == zero_result(models(params@)),
{
    match check_count(params.len(), 1, 1, "zero?") {
        Some(e) => Err(e),
        None => match &params[0] {
            Value::NumericValue(n) => Ok(Value::BooleanValue(n.is_zero())),
            _ => Err(
                complaint(ErrorKind::TypeError, "zero?", ">: Cannot compare a non-numeric values"),
            ),
        },
    }
}

/// Whether two values are the same: numbers, booleans, strings and symbols
/// by what they hold, `Nil` with `Nil`, pairs part by part, procedures where
/// they are the same procedure. A lambda is the same as nothing, not even
/// itself.
pub open spec fn same(a: Datum, b: Datum) -> bool
    decreases a,
{
    match (a, b) {
        (Datum::Numeric(x), Datum::Numeric(y)) => x == y,
        (Datum::Boolean(x), Datum::Boolean(y)) => x == y,
        (Datum::Nil, Datum::Nil) => true,
        (Datum::Symbol(x), Datum::Symbol(y)) => x == y,
        (Datum::Text(x), Datum::Text(y)) => x == y,
        (Datum::Pair(first_a, rest_a), Datum::Pair(first_b, rest_b)) => same(*first_a, *first_b)
            && same(*rest_a, *rest_b),
        (Datum::Procedure(x), Datum::Procedure(y)) => x == y,
        _ => false,
    }
}

/// Whether two values are the same.
pub fn same_values(a: &Value, b: &Value) -> (r: bool)
    ensures
        r == same(a@, b@),
    decreases a,
{
    match (a, b) {
        (Value::NumericValue(x), Value::NumericValue(y)) => x.scaled == y.scaled,
        (Value::BooleanValue(x), Value::BooleanValue(y)) => *x == *y,
        (Value::NilValue, Value::NilValue) => true,
        (Value::SymbolValue(x), Value::SymbolValue(y)) => *x == *y,
        (Value::StringValue(x), Value::StringValue(y)) => *x == *y,
        (Value::PairValue(first_a, rest_a), Value::PairValue(first_b, rest_b)) => same_values(
            first_a,
            first_b,
        ) && same_values(rest_a, rest_b),
        (Value::ProcedureValue(x), Value::ProcedureValue(y)) => *x == *y,
        _ => false,
    }
}

/// What `(eq? a b)` gives: whether `a` and `b` are the same.
pub open spec fn eq_q_result(params: Seq<Datum>) -> Result<Datum, Failure> {
    match count_failure(params.len(), 2, 2, "eq?"@) {
        Some(e) => Err(e),
        None => Ok(Datum::Boolean(same(params[0], params[1]))),
    }
}

/// `(eq? a b)`.
pub fn eq_q(params: Vec<Value>) -> (r: Result<Value, ErrorEval>)
    ensures
        result_model(r) == eq_q_result(models(params@)),
{
    match check_count(params.len(), 2, 2, "eq?") {
        Some(e) => Err(e),
        None => Ok(Value::BooleanValue(same_values(&params[0], &params[1]))),
    }
}

/// What `(equal? a b)` gives: whether `a` and `b` are written the same.
pub open spec fn equal_q_result(params: Seq<Datum>) -> Result<Datum, Failure> {
    match count_failure(params.len(), 2, 2, "equal?"@) {
        Some(e) => Err(e),
        None => Ok(Datum::Boolean(rendered(params[0]) == rendered(params[1]))),
    }
}

/// `(equal? a b)`.
pub fn equal_q(params: Vec<Value>) -> (r: Result<Value, ErrorEval>)
    ensures
        result_model(r) == equal_q_result(models(params@)),
{
    match check_count(params.len(), 2, 2, "equal?") {
        Some(e) => Err(e),
        None => {
            let left = params[0].to_string();
            let right = params[1].to_string();
            Ok(Value::BooleanValue(left == right))
        },
    }
}

/// What `(not x)` gives. The argument, itself a value, is evaluated once
/// more: `#f` gives `#t` and `#t` gives `#f`; where that evaluation fails
/// with an error that is not a halting one, `Nil`, a pair and a symbol give
/// `#f`; everything else is an error.
pub open spec fn not_outcome(params: Seq<Datum>, scope: nat, w: World, fuel: nat) -> Outcome
    decreases fuel, 5nat, 0nat,
{
    match count_failure(params.len(), 1, 1, "not"@) {
        Some(e) => failed(w, e),
        None => {
            let o = evaluated(params[0], scope, w, fuel);
            match o.result {
                Ok(Datum::Boolean(b)) => succeeded(o.world, Datum::Boolean(!b)),
                Ok(_) => failed(
                    o.world,
                    failure(ErrorKind::TypeError, label("not"@, ">: Unknown Error"@)),
                ),
                Err(e) => if halting(e.kind) {
                    o
                } else {
                    match params[0] {
                        Datum::Nil | Datum::Pair(_, _) | Datum::Symbol(_) => succeeded(
                            o.world,
                            Datum::Boolean(false),
                        ),
                        _ => failed(
                            o.world,
                            failure(ErrorKind::TypeError, label("not"@, ">: Unknown Error"@)),
                        ),
                    }
                },
            }
        },
    }
}

/// `(not x)`.
pub fn not(params: Vec<Value>, env: &mut EvalEnv, scope: usize, fuel: usize) -> (r: Result<
    Value,
    ErrorEval,
>)
    ensures
        outcome(r, final(env)@) == not_outcome(models(params@), scope as nat, old(env)@, fuel as nat),
    decreases fuel, 5nat, 0nat,
{
    match check_count(params.len(), 1, 1, "not") {
        Some(e) => Err(e),
        None => match env.evaluate(params[0].clone(), scope, fuel) {
            Ok(Value::BooleanValue(b)) => Ok(Value::BooleanValue(!b)),
            Ok(_) => Err(complaint(ErrorKind::TypeError, "not", ">: Unknown Error")),
            Err(e) => {
                if e.halts() {
                    Err(e)
                } else {
                    match &params[0] {
                        Value::NilValue | Value::PairValue(_, _) | Value::SymbolValue(_) => Ok(
                            Value::BooleanValue(false),
                        ),
                        _ => Err(complaint(ErrorKind::TypeError, "not", ">: Unknown Error")),
                    }
                }
            },
        },
    }
}

/// What `(eval x)` gives: the value of the value `x`.
pub open spec fn eval_outcome(params: Seq<Datum>, scope: nat, w: World, fuel: nat) -> Outcome
    decreases fuel, 5nat, 0nat,
{
    match count_failure(params.len(), 1, 1, "eval"@) {
        Some(e) => failed(w, e),
        None => evaluated_with(
            params[0],
            scope,
            w,
            fuel,
            label("eval"@, ">: Fail to evaluate a value"@),
        ),
    }
}

/// `(eval x)`.
pub fn eval(params: Vec<Value>, env: &mut EvalEnv, scope: usize, fuel: usize) -> (r: Result<
    Value,
    ErrorEval,
>)
    ensures
        outcome(r, final(env)@) == eval_outcome(
            models(params@),
            scope as nat,
            old(env)@,
            fuel as nat,
        ),
    decreases fuel, 5nat, 0nat,
{
    let mut params = params;
    match check_count(params.len(), 1, 1, "eval") {
        Some(e) => Err(e),
        None => {
            let context = label_of("eval", ">: Fail to evaluate a value");
            evaluate_with(params.swap_remove(0), env, scope, fuel, context.as_str())
        },
    }
}

/// The error of a builtin that wants a procedure or a lambda and got
/// another value.
pub open spec fn callee_failure(name: Seq<char>) -> Failure {
    failure(ErrorKind::TypeError, label(name, ">: Need a procedure"@))
}

/// The context that the builtin `name` gives to an error in a lambda's body.
pub open spec fn body_context(name: Seq<char>) -> Seq<char> {
    label(name, ">: Fail to evaluate a value"@)
}

/// What `(apply f list)` gives: `f` applied to the items of `list`.
pub open spec fn apply_outcome(params: Seq<Datum>, scope: nat, w: World, fuel: nat) -> Outcome
    decreases fuel, 5nat, 0nat,
{
    match count_failure(params.len(), 2, 2, "apply"@) {
        Some(e) => failed(w, e),
        None => match params[0] {
            Datum::Procedure(_) | Datum::Lambda(_, _, _) => match to_sequence(params[1]) {
                None => failed(
                    w,
                    improper(label("apply"@, ">: Fail to convert a value to vector"@)),
                ),
                Some(args) => called(
                    params[0],
                    args,
                    scope,
                    w,
                    fuel,
                    body_context("apply"@),
                    callee_failure("apply"@),
                ),
            },
            _ => failed(w, callee_failure("apply"@)),
        },
    }
}

/// Applies `callee` to `args` for the builtin `name`.
fn call_for(
    callee: &Value,
    args: Vec<Value>,
    env: &mut EvalEnv,
    scope: usize,
    fuel: usize,
    name: &str,
) -> (r: Result<Value, ErrorEval>)
    ensures
        outcome(r, final(env)@) == called(
            callee@,
            models(args@),
            scope as nat,
            old(env)@,
            fuel as nat,
            body_context(name@),
            callee_failure(name@),
        ),
    decreases fuel, 4nat, 0nat,
{
    let context = label_of(name, ">: Fail to evaluate a value");
    let otherwise = label_of(name, ">: Need a procedure");
    env.call(
        callee,
        args,
        scope,
        fuel,
        context.as_str(),
        ErrorKind::TypeError,
        otherwise.as_str(),
    )
}

/// `(apply f list)`.
pub fn apply(params: Vec<Value>, env: &mut EvalEnv, scope: usize, fuel: usize) -> (r: Result<
    Value,
    ErrorEval,
>)
    ensures
        outcome(r, final(env)@) == apply_outcome(
            models(params@),
            scope as nat,
            old(env)@,
            fuel as nat,
        ),
    decreases fuel, 5nat, 0nat,
{
    match check_count(params.len(), 2, 2, "apply") {
        Some(e) => Err(e),
        None => match &params[0] {
            Value::ProcedureValue(_) | Value::LambdaValue(_, _, _) => match params[1].to_vector() {
                Err(e) => {
                    let context = label_of("apply", ">: Fail to convert a value to vector");
                    Err(e.wrap(context.as_str()))
                },
                Ok(args) => call_for(&params[0], args, env, scope, fuel, "apply"),
            },
            _ => Err(complaint(ErrorKind::TypeError, "apply", ">: Need a procedure")),
        },
    }
}

/// What applying `callee` to `args` gives for a builtin that walks a list:
/// as `called`, but an error of a built-in procedure gets the builtin's
/// context as its new first line.
pub open spec fn called_each(
    callee: Datum,
    args: Seq<Datum>,
    scope: nat,
    w: World,
    fuel: nat,
    name: Seq<char>,
) -> Outcome
    decreases fuel, 4nat, 0nat,
{
    let o = called(callee, args, scope, w, fuel, body_context(name), callee_failure(name));
    match (callee, o.result) {
        (Datum::Procedure(_), Err(e)) => failed(
            o.world,
            wrapped(e, label(name, ">: Fail to call the given procedure"@)),
        ),
        _ => o,
    }
}

/// Applies `callee` to `args` for a builtin that walks a list.
fn call_each(
    callee: &Value,
    args: Vec<Value>,
    env: &mut EvalEnv,
    scope: usize,
    fuel: usize,
    name: &str,
) -> (r: Result<Value, ErrorEval>)
    ensures
        outcome(r, final(env)@) == called_each(
            callee@,
            models(args@),
            scope as nat,
            old(env)@,
            fuel as nat,
            name@,
        ),
    decreases fuel, 4nat, 1nat,
{
    match call_for(callee, args, env, scope, fuel, name) {
        Ok(v) => Ok(v),
        Err(e) => match callee {
            Value::ProcedureValue(_) => {
                let context = label_of(name, ">: Fail to call the given procedure");
                Err(e.wrap(context.as_str()))
            },
            _ => Err(e),
        },
    }
}

/// The values that `callee` gives for the items from position `i` on, after
/// `done`.
pub open spec fn mapped_from(
    callee: Datum,
    items: Seq<Datum>,
    i: nat,
    done: Seq<Datum>,
    scope: nat,
    w: World,
    fuel: nat,
) -> Gathered
    decreases fuel, 5nat, items.len() - i,
{
    if i >= items.len() {
        Gathered { result: Ok(done), world: w }
    } else {
        let o = called_each(callee, seq![items[i as int]], scope, w, fuel, "map"@);
        match o.result {
            Err(e) => Gathered { result: Err(e), world: o.world },
            Ok(v) => mapped_from(callee, items, i + 1, done.push(v), scope, o.world, fuel),
        }
    }
}

/// What `(map f list)` gives: the list of what `f` gives for each item of
/// `list`, in order.
pub open spec fn map_outcome(params: Seq<Datum>, scope: nat, w: World, fuel: nat) -> Outcome
    decreases fuel, 6nat, 0nat,
{
    match count_failure(params.len(), 2, 2, "map"@) {
        Some(e) => failed(w, e),
        None => match to_sequence(params[1]) {
            None => failed(
                w,
                failure(ErrorKind::TypeError, label("map"@, ">: Cannot map a non-list value"@)),
            ),
            Some(items) => match params[0] {
                Datum::Procedure(_) | Datum::Lambda(_, _, _) => {
                    let g = mapped_from(params[0], items, 0, Seq::empty(), scope, w, fuel);
                    match g.result {
                        Err(e) => failed(g.world, e),
                        Ok(values) => succeeded(g.world, from_sequence(values)),
                    }
                },
                _ => failed(w, callee_failure("map"@)),
            },
        },
    }
}

/// A vector of the one value `v`.
fn single(v: Value) -> (r: Vec<Value>)
    ensures
        models(r@) == seq![v@],
{
    let mut r: Vec<Value> = Vec::new();
    r.push(v);
    assert(models(r@) =~= seq![v@]);
    r
}

/// Gathers what `callee` gives for each of `items`.
fn map_items(callee: &Value, items: &Vec<Value>, env: &mut EvalEnv, scope: usize, fuel: usize) -> (r:
    Result<Vec<Value>, ErrorEval>)
    ensures
        gathered(r, final(env)@) == mapped_from(
            callee@,
            models(items@),
            0,
            Seq::empty(),
            scope as nat,
            old(env)@,
            fuel as nat,
        ),
    decreases fuel, 5nat, items.len(),
{
    let mut done: Vec<Value> = Vec::new();
    let mut i: usize = 0;
    assert(models(done@) =~= Seq::empty());
    while i < items.len()
        invariant
            mapped_from(
                callee@,
                models(items@),
                i as nat,
                models(done@),
                scope as nat,
                env@,
                fuel as nat,
            ) == mapped_from(
                callee@,
                models(items@),
                0,
                Seq::empty(),
                scope as nat,
                old(env)@,
                fuel as nat,
            ),
        decreases items.len() - i,
    {
        let ghost before = models(done@);
        match call_each(callee, single(items[i].clone()), env, scope, fuel, "map") {
            Err(e) => {
                return Err(e);
            },
            Ok(v) => {
                done.push(v);
                assert(models(done@) =~= before.push(v@));
            },
        }
        i += 1;
    }
    Ok(done)
}

/// `(map f list)`.
pub fn map(params: Vec<Value>, env: &mut EvalEnv, scope: usize, fuel: usize) -> (r: Result<
    Value,
    ErrorEval,
>)
    ensures
        outcome(r, final(env)@) == map_outcome(models(params@), scope as nat, old(env)@, fuel as nat),
    decreases fuel, 6nat, 0nat,
{
    match check_count(params.len(), 2, 2, "map") {
        Some(e) => Err(e),
        None => match params[1].to_vector() {
            Err(_) => Err(complaint(ErrorKind::TypeError, "map", ">: Cannot map a non-list value")),
            Ok(items) => match &params[0] {
                Value::ProcedureValue(_) | Value::LambdaValue(_, _, _) => match map_items(
                    &params[0],
                    &items,
                    env,
                    scope,
                    fuel,
                ) {
                    Err(e) => Err(e),
                    Ok(values) => Ok(Value::from_vector(values)),
                },
                _ => Err(complaint(ErrorKind::TypeError, "map", ">: Need a procedure")),
            },
        },
    }
}

/// The items from position `i` on for which `callee` gives anything but
/// `#f`, after `done`.
pub open spec fn filtered_from(
    callee: Datum,
    items: Seq<Datum>,
    i: nat,
    done: Seq<Datum>,
    scope: nat,
    w: World,
    fuel: nat,
) -> Gathered
    decreases fuel, 5nat, items.len() - i,
{
    if i >= items.len() {
        Gathered { result: Ok(done), world: w }
    } else {
        let o = called_each(callee, seq![items[i as int]], scope, w, fuel, "filter"@);
        match o.result {
            Err(e) => Gathered { result: Err(e), world: o.world },
            Ok(Datum::Boolean(false)) => filtered_from(
                callee,
                items,
                i + 1,
                done,
                scope,
                o.world,
                fuel,
            ),
            Ok(_) => filtered_from(
                callee,
                items,
                i + 1,
                done.push(items[i as int]),
                scope,
                o.world,
                fuel,
            ),
        }
    }
}

/// What `(filter f list)` gives: the list of the items of `list` for which
/// `f` gives anything but `#f`, in order.
pub open spec fn filter_outcome(params: Seq<Datum>, scope: nat, w: World, fuel: nat) -> Outcome
    decreases fuel, 6nat, 0nat,
{
    match count_failure(params.len(), 2, 2, "filter"@) {
        Some(e) => failed(w, e),
        None => match to_sequence(params[1]) {
            None => failed(
                w,
                failure(
                    ErrorKind::TypeError,
                    label("filter"@, ">: Need a procedure and a list"@),
                ),
            ),
            Some(items) => match params[0] {
                Datum::Procedure(_) | Datum::Lambda(_, _, _) => {
                    let g = filtered_from(params[0], items, 0, Seq::empty(), scope, w, fuel);
                    match g.result {
                        Err(e) => failed(g.world, e),
                        Ok(values) => succeeded(g.world, from_sequence(values)),
                    }
                },
                _ => failed(
                    w,
                    failure(
                        ErrorKind::TypeError,
                        label("filter"@, ">: Need a procedure and a list"@),
                    ),
                ),
            },
        },
    }
}

/// Gathers the items for which `callee` gives anything but `#f`.
fn filter_items(callee: &Value, items: &Vec<Value>, env: &mut EvalEnv, scope: usize, fuel: usize) -> (r:
    Result<Vec<Value>, ErrorEval>)
    ensures
        gathered(r, final(env)@) == filtered_from(
            callee@,
            models(items@),
            0,
            Seq::empty(),
            scope as nat,
            old(env)@,
            fuel as nat,
        ),
    decreases fuel, 5nat, items.len(),
{
    let mut done: Vec<Value> = Vec::new();
    let mut i: usize = 0;
    assert(models(done@) =~= Seq::empty());
    while i < items.len()
        invariant
            filtered_from(
                callee@,
                models(items@),
                i as nat,
                models(done@),
                scope as nat,
                env@,
                fuel as nat,
            ) == filtered_from(
                callee@,
                models(items@),
                0,
                Seq::empty(),
                scope as nat,
                old(env)@,
                fuel as nat,
            ),
        decreases items.len() - i,
    {
        let ghost before = models(done@);
        match call_each(callee, single(items[i].clone()), env, scope, fuel, "filter") {
            Err(e) => {
                return Err(e);
            },
            Ok(Value::BooleanValue(false)) => {},
            Ok(_) => {
                done.push(items[i].clone());
                assert(models(done@) =~= before.push(items[i as int]@));
            },
        }
        i += 1;
    }
    Ok(done)
}

/// `(filter f list)`.
pub fn filter(params: Vec<Value>, env: &mut EvalEnv, scope: usize, fuel: usize) -> (r: Result<
    Value,
    ErrorEval,
>)
    ensures
        outcome(r, final(env)@) == filter_outcome(
            models(params@),
            scope as nat,
            old(env)@,
            fuel as nat,
        ),
    decreases fuel, 6nat, 0nat,
{
    match check_count(params.len(), 2, 2, "filter") {
        Some(e) => Err(e),
        None => match params[1].to_vector() {
            Err(_) => Err(
                complaint(ErrorKind::TypeError, "filter", ">: Need a procedure and a list"),
            ),
            Ok(items) => match &params[0] {
                Value::ProcedureValue(_) | Value::LambdaValue(_, _, _) => match filter_items(
                    &params[0],
                    &items,
                    env,
                    scope,
                    fuel,
                ) {
                    Err(e) => Err(e),
                    Ok(values) => Ok(Value::from_vector(values)),
                },
                _ => Err(
                    complaint(ErrorKind::TypeError, "filter", ">: Need a procedure and a list"),
                ),
            },
        },
    }
}

/// How many pairs a value has along its second parts.
pub open spec fn chain_length(d: Datum) -> nat
    decreases d,
{
    match d {
        Datum::Pair(_, rest) => 1 + chain_length(*rest),
        _ => 0,
    }
}

/// The error of `reduce` for arguments that are no procedure and list.
pub open spec fn reduce_failure() -> Failure {
    failure(ErrorKind::TypeError, label("reduce"@, ">: need a procedure and a list"@))
}

/// What folding `list` from the right with `callee` gives: the one item of
/// a list of one; else `callee` applied to the first item and to what the
/// rest folds to. `list` must be a pair.
pub open spec fn reduced(callee: Datum, list: Datum, scope: nat, w: World, fuel: nat) -> Outcome
    decreases fuel, 5nat, chain_length(list),
{
    match list {
        Datum::Pair(first, rest) => if *rest is Nil {
            succeeded(w, *first)
        } else {
            let o = reduced(callee, *rest, scope, w, fuel);
            match o.result {
                Err(e) => failed(
                    o.world,
                    wrapped(e, label("reduce"@, ">: Recursive finding error..."@)),
                ),
                Ok(folded) => called(
                    callee,
                    seq![*first, folded],
                    scope,
                    o.world,
                    fuel,
                    body_context("reduce"@),
                    reduce_failure(),
                ),
            }
        },
        _ => failed(w, reduce_failure()),
    }
}

/// What `(reduce f list)` gives: `list`, which is not empty, folded from the
/// right with `f`.
pub open spec fn reduce_outcome(params: Seq<Datum>, scope: nat, w: World, fuel: nat) -> Outcome
    decreases fuel, 6nat, 0nat,
{
    match count_failure(params.len(), 2, 2, "reduce"@) {
        Some(e) => failed(w, e),
        None => match params[0] {
            Datum::Procedure(_) | Datum::Lambda(_, _, _) => reduced(
                params[0],
                params[1],
                scope,
                w,
                fuel,
            ),
            _ => failed(w, reduce_failure()),
        },
    }
}

/// A vector of the two values `a` and `b`.
fn couple(a: Value, b: Value) -> (r: Vec<Value>)
    ensures
        models(r@) == seq![a@, b@],
{
    let mut r: Vec<Value> = Vec::new();
    r.push(a);
    r.push(b);
    assert(models(r@) =~= seq![a@, b@]);
    r
}

/// Folds `list` from the right with `callee`.
fn reduce_list(callee: &Value, list: &Value, env: &mut EvalEnv, scope: usize, fuel: usize) -> (r:
    Result<Value, ErrorEval>)
    ensures
        outcome(r, final(env)@) == reduced(
            callee@,
            list@,
            scope as nat,
            old(env)@,
            fuel as nat,
        ),
    decreases fuel, 5nat, chain_length(list@),
{
    proof {
        reveal_with_fuel(Value::model, 2);
    }
    match list {
        Value::PairValue(first, rest) => {
            let at_end = match &**rest {
                Value::NilValue => true,
                _ => false,
            };
            if at_end {
                Ok((**first).clone())
            } else {
                match reduce_list(callee, rest, env, scope, fuel) {
                    Err(e) => {
                        let context = label_of("reduce", ">: Recursive finding error...");
                        Err(e.wrap(context.as_str()))
                    },
                    Ok(folded) => {
                        let context = label_of("reduce", ">: Fail to evaluate a value");
                        let otherwise = label_of("reduce", ">: need a procedure and a list");
                        env.call(
                            callee,
                            couple((**first).clone(), folded),
                            scope,
                            fuel,
                            context.as_str(),
                            ErrorKind::TypeError,
                            otherwise.as_str(),
                        )
                    },
                }
            }
        },
        _ => Err(complaint(ErrorKind::TypeError, "reduce", ">: need a procedure and a list")),
    }
}

/// `(reduce f list)`.
pub fn reduce(params: Vec<Value>, env: &mut EvalEnv, scope: usize, fuel: usize) -> (r: Result<
    Value,
    ErrorEval,
>)
    ensures
        outcome(r, final(env)@) == reduce_outcome(
            models(params@),
            scope as nat,
            old(env)@,
            fuel as nat,
        ),
    decreases fuel, 6nat, 0nat,
{
    match check_count(params.len(), 2, 2, "reduce") {
        Some(e) => Err(e),
        None => match &params[0] {
            Value::ProcedureValue(_) | Value::LambdaValue(_, _, _) => reduce_list(
                &params[0],
                &params[1],
                env,
                scope,
                fuel,
            ),
            _ => Err(complaint(ErrorKind::TypeError, "reduce", ">: need a procedure and a list")),
        },
    }
}

/// The lists among the arguments of `map_expand` from position `j` on,
/// after `done`: each must be a pair and a proper list, and all must have as
/// many items as the first.
pub open spec fn expand_lists(params: Seq<Datum>, j: nat, done: Seq<Seq<Datum>>) -> Result<
    Seq<Seq<Datum>>,
    Failure,
>
    decreases params.len() - j,
{
    if j >= params.len() {
        Ok(done)
    } else {
        match params[j as int] {
            Datum::Pair(_, _) => match to_sequence(params[j as int]) {
                None => Err(improper(label("map_expand"@, ">: Fail to convert a value to vector"@))),
                Some(items) => if done.len() > 0 && done[0].len() != items.len() {
                    Err(
                        failure(
                            ErrorKind::TypeError,
                            label("map_expand"@, ">: Lists should have the same size"@),
                        ),
                    )
                } else {
                    expand_lists(params, j + 1, done.push(items))
                },
            },
            _ => Err(callee_failure("map_expand"@)),
        }
    }
}

/// The values of the items at position `i` of the lists from list `j` on,
/// evaluated in order, after `done`.
pub open spec fn expand_row(
    lists: Seq<Seq<Datum>>,
    i: nat,
    j: nat,
    done: Seq<Datum>,
    scope: nat,
    w: World,
    fuel: nat,
) -> Gathered
    decreases fuel, 2nat, lists.len() - j,
{
    if j >= lists.len() {
        Gathered { result: Ok(done), world: w }
    } else {
        let o = evaluated_with(
            lists[j as int][i as int],
            scope,
            w,
            fuel,
            label("map_expand"@, ">: Need a procedure"@),
        );
        match o.result {
            Err(e) => Gathered { result: Err(e), world: o.world },
            Ok(v) => expand_row(lists, i, j + 1, done.push(v), scope, o.world, fuel),
        }
    }
}

/// What `callee` gives for the rows from position `i` on, after `done`: the
/// row at a position is made of the values of the items that the lists have
/// there.
pub open spec fn expanded_from(
    callee: Datum,
    lists: Seq<Seq<Datum>>,
    size: nat,
    i: nat,
    done: Seq<Datum>,
    scope: nat,
    w: World,
    fuel: nat,
) -> Gathered
    decreases fuel, 5nat, size - i,
{
    if i >= size {
        Gathered { result: Ok(done), world: w }
    } else {
        let row = expand_row(lists, i, 0, Seq::empty(), scope, w, fuel);
        match row.result {
            Err(e) => Gathered { result: Err(e), world: row.world },
            Ok(args) => {
                let o = called_each(callee, args, scope, row.world, fuel, "map_expand"@);
                match o.result {
                    Err(e) => Gathered { result: Err(e), world: o.world },
                    Ok(v) => expanded_from(
                        callee,
                        lists,
                        size,
                        i + 1,
                        done.push(v),
                        scope,
                        o.world,
                        fuel,
                    ),
                }
            },
        }
    }
}

/// What `(map_expand f list ...)` gives: the list of what `f` gives for the
/// first items of the lists, for their second items, and so on. The items
/// are evaluated before `f` gets them.
pub open spec fn map_expand_outcome(params: Seq<Datum>, scope: nat, w: World, fuel: nat) -> Outcome
    decreases fuel, 6nat, 0nat,
{
    if params.len() < 2 {
        failed(w, failure(ErrorKind::ArityError, label("map_expand"@, ">: Missing argument"@)))
    } else {
        match expand_lists(params, 1, Seq::empty()) {
            Err(e) => failed(w, e),
            Ok(lists) => {
                let g = expanded_from(
                    params[0],
                    lists,
                    lists[0].len(),
                    0,
                    Seq::empty(),
                    scope,
                    w,
                    fuel,
                );
                match g.result {
                    Err(e) => failed(g.world, e),
                    Ok(values) => succeeded(g.world, from_sequence(values)),
                }
            },
        }
    }
}

/// The models of the items of each list.
pub open spec fn tables(lists: Seq<Vec<Value>>) -> Seq<Seq<Datum>> {
    Seq::new(lists.len(), |j: int| models(lists[j]@))
}

/// Reads the lists among the arguments of `map_expand`.
fn read_lists(params: &Vec<Value>) -> (r: Result<Vec<Vec<Value>>, ErrorEval>)
    requires
        params.len() >= 2,
    ensures
        match r {
            Ok(lists) => expand_lists(models(params@), 1, Seq::empty()) == Ok::<
                Seq<Seq<Datum>>,
                Failure,
            >(tables(lists@)) && lists.len() >= 1 && forall|j: int|
                0 <= j < lists.len() ==> (#[trigger] lists[j]).len() == lists[0].len(),
            Err(e) => expand_lists(models(params@), 1, Seq::empty()) == Err::<
                Seq<Seq<Datum>>,
                Failure,
            >(e@),
        },
{
    let mut lists: Vec<Vec<Value>> = Vec::new();
    let mut j: usize = 1;
    assert(tables(lists@) =~= Seq::empty());
    while j < params.len()
        invariant
            1 <= j <= params.len(),
            lists.len() == j - 1,
            forall|k: int| 0 <= k < lists.len() ==> (#[trigger] lists[k]).len() == lists[0].len(),
            expand_lists(models(params@), j as nat, tables(lists@)) == expand_lists(
                models(params@),
                1,
                Seq::empty(),
            ),
        decreases params.len() - j,
    {
        match &params[j] {
            Value::PairValue(_, _) => match params[j].to_vector() {
                Err(e) => {
                    let context = label_of("map_expand", ">: Fail to convert a value to vector");
                    return Err(e.wrap(context.as_str()));
                },
                Ok(items) => {
                    if lists.len() > 0 && lists[0].len() != items.len() {
                        return Err(
                            complaint(
                                ErrorKind::TypeError,
                                "map_expand",
                                ">: Lists should have the same size",
                            ),
                        );
                    }
                    let ghost before = tables(lists@);
                    lists.push(items);
                    assert(tables(lists@) =~= before.push(models(items@)));
                },
            },
            _ => {
                return Err(complaint(ErrorKind::TypeError, "map_expand", ">: Need a procedure"));
            },
        }
        j += 1;
    }
    Ok(lists)
}

/// Evaluates the items at position `i` of the lists.
fn read_row(lists: &Vec<Vec<Value>>, i: usize, env: &mut EvalEnv, scope: usize, fuel: usize) -> (r:
    Result<Vec<Value>, ErrorEval>)
    requires
        forall|j: int| 0 <= j < lists.len() ==> i < (#[trigger] lists[j]).len(),
    ensures
        gathered(r, final(env)@) == expand_row(
            tables(lists@),
            i as nat,
            0,
            Seq::empty(),
            scope as nat,
            old(env)@,
            fuel as nat,
        ),
    decreases fuel, 2nat, lists.len(),
{
    let mut done: Vec<Value> = Vec::new();
    let mut j: usize = 0;
    assert(models(done@) =~= Seq::empty());
    while j < lists.len()
        invariant
            forall|j: int| 0 <= j < lists.len() ==> i < (#[trigger] lists[j]).len(),
            expand_row(
                tables(lists@),
                i as nat,
                j as nat,
                models(done@),
                scope as nat,
                env@,
                fuel as nat,
            ) == expand_row(
                tables(lists@),
                i as nat,
                0,
                Seq::empty(),
                scope as nat,
                old(env)@,
                fuel as nat,
            ),
        decreases lists.len() - j,
    {
        let ghost before = models(done@);
        let context = label_of("map_expand", ">: Need a procedure");
        match evaluate_with(lists[j][i].clone(), env, scope, fuel, context.as_str()) {
            Err(e) => {
                return Err(e);
            },
            Ok(v) => {
                done.push(v);
                assert(models(done@) =~= before.push(v@));
            },
        }
        j += 1;
    }
    Ok(done)
}

/// Gathers what `callee` gives for each row of the lists.
fn expand_rows(
    callee: &Value,
    lists: &Vec<Vec<Value>>,
    env: &mut EvalEnv,
    scope: usize,
    fuel: usize,
) -> (r: Result<Vec<Value>, ErrorEval>)
    requires
        lists.len() >= 1,
        forall|j: int| 0 <= j < lists.len() ==> (#[trigger] lists[j]).len() == lists[0].len(),
    ensures
        gathered(r, final(env)@) == expanded_from(
            callee@,
            tables(lists@),
            lists[0].len() as nat,
            0,
            Seq::empty(),
            scope as nat,
            old(env)@,
            fuel as nat,
        ),
    decreases fuel, 5nat, lists[0].len(),
{
    let size = lists[0].len();
    let mut done: Vec<Value> = Vec::new();
    let mut i: usize = 0;
    assert(models(done@) =~= Seq::empty());
    while i < size
        invariant
            lists.len() >= 1,
            size == lists[0].len(),
            forall|j: int| 0 <= j < lists.len() ==> (#[trigger] lists[j]).len() == size,
            expanded_from(
                callee@,
                tables(lists@),
                size as nat,
                i as nat,
                models(done@),
                scope as nat,
                env@,
                fuel as nat,
            ) == expanded_from(
                callee@,
                tables(lists@),
                size as nat,
                0,
                Seq::empty(),
                scope as nat,
                old(env)@,
                fuel as nat,
            ),
        decreases size - i,
    {
        let ghost before = models(done@);
        match read_row(lists, i, env, scope, fuel) {
            Err(e) => {
                return Err(e);
            },
            Ok(args) => match call_each(callee, args, env, scope, fuel, "map_expand") {
                Err(e) => {
                    return Err(e);
                },
                Ok(v) => {
                    done.push(v);
                    assert(models(done@) =~= before.push(v@));
                },
            },
        }
        i += 1;
    }
    Ok(done)
}

/// `(map_expand f list ...)`.
pub fn map_expand(params: Vec<Value>, env: &mut EvalEnv, scope: usize, fuel: usize) -> (r: Result<
    Value,
    ErrorEval,
>)
    ensures
        outcome(r, final(env)@) == map_expand_outcome(
            models(params@),
            scope as nat,
            old(env)@,
            fuel as nat,
        ),
    decreases fuel, 6nat, 0nat,
{
    if params.len() < 2 {
        return Err(complaint(ErrorKind::ArityError, "map_expand", ">: Missing argument"));
    }
    match read_lists(&params) {
        Err(e) => Err(e),
        Ok(lists) => {
            assert(tables(lists@)[0].len() == lists[0].len());
            match expand_rows(&params[0], &lists, env, scope, fuel) {
                Err(e) => Err(e),
                Ok(values) => Ok(Value::from_vector(values)),
            }
        },
    }
}

/// What a builtin gives on the arguments `params`.
pub open spec fn builtin_outcome(
    b: Builtin,
    params: Seq<Datum>,
    scope: nat,
    w: World,
    fuel: nat,
) -> Outcome
    decreases fuel, 8nat, 0nat,
{
    match b {
        Builtin::AtomOrNot => Outcome { result: atom_or_not_result(params), world: w },
        Builtin::BooleanOrNot => Outcome { result: boolean_or_not_result(params), world: w },
        Builtin::IntegerOrNot => Outcome { result: integer_or_not_result(params), world: w },
        Builtin::ListOrNot => Outcome { result: list_or_not_result(params), world: w },
        Builtin::NumberOrNot => Outcome { result: number_or_not_result(params), world: w },
        Builtin::NullOrNot => Outcome { result: null_or_not_result(params), world: w },
        Builtin::PairOrNot => Outcome { result: pair_or_not_result(params), world: w },
        Builtin::ProcedureOrNot => Outcome { result: procedure_or_not_result(params), world: w },
        Builtin::StringOrNot => Outcome { result: string_or_not_result(params), world: w },
        Builtin::SymbolOrNot => Outcome { result: symbol_or_not_result(params), world: w },
        Builtin::Append => Outcome { result: append_result(params), world: w },
        Builtin::Push => Outcome { result: push_result(params), world: w },
        Builtin::Car => Outcome { result: car_result(params), world: w },
        Builtin::Cdr => Outcome { result: cdr_result(params), world: w },
        Builtin::Cons => Outcome { result: cons_result(params), world: w },
        Builtin::Length => Outcome { result: length_result(params), world: w },
        Builtin::List => Outcome { result: list_result(params), world: w },
        Builtin::Error => Outcome { result: error_result(params), world: w },
        Builtin::Add => Outcome { result: add_result(params), world: w },
        Builtin::Subtract => Outcome { result: subtract_result(params), world: w },
        Builtin::Multiply => Outcome { result: multiply_result(params), world: w },
        Builtin::Divide => Outcome { result: divide_result(params), world: w },
        Builtin::Abs => Outcome { result: abs_result(params), world: w },
        Builtin::Expt => Outcome { result: expt_result(params), world: w },
        Builtin::Quotient => Outcome { result: quotient_result(params), world: w },
        Builtin::Modulo => Outcome { result: modulo_result(params), world: w },
        Builtin::Remainder => Outcome { result: remainder_result(params), world: w },
        Builtin::EqQ => Outcome { result: eq_q_result(params), world: w },
        Builtin::EqualQ => Outcome { result: equal_q_result(params), world: w },
        Builtin::EqualOrNot => Outcome { result: equal_or_not_result(params), world: w },
        Builtin::LessThanOrNot => Outcome { result: less_than_or_not_result(params), world: w },
        Builtin::MoreThanOrNot => Outcome { result: more_than_or_not_result(params), world: w },
        Builtin::LessThanOrEqualOrNot => Outcome {
            result: less_than_or_equal_or_not_result(params),
            world: w,
        },
        Builtin::MoreThanOrEqualOrNot => Outcome {
            result: more_than_or_equal_or_not_result(params),
            world: w,
        },
        Builtin::EvenOrNot => Outcome { result: even_or_not_result(params), world: w },
        Builtin::OddOrNot => Outcome { result: odd_or_not_result(params), world: w },
        Builtin::ZeroOrNot => Outcome { result: zero_result(params), world: w },
        Builtin::DefinedLocalOrNot => Outcome {
            result: defined_local_or_not_result(params, w, scope),
            world: w,
        },
        Builtin::DefinedAllOrNot => Outcome {
            result: defined_all_or_not_result(params, w, scope),
            world: w,
        },
        Builtin::Print => print_outcome(params, w),
        Builtin::Display => display_outcome(params, w),
        Builtin::Displayln => displayln_outcome(params, w),
        Builtin::Newline => newline_outcome(params, w),
        Builtin::Exit => exit_outcome(params, w),
        Builtin::ExitForce => exit_force_outcome(params, w),
        Builtin::Apply => apply_outcome(params, scope, w, fuel),
        Builtin::Eval => eval_outcome(params, scope, w, fuel),
        Builtin::MapEach => map_outcome(params, scope, w, fuel),
        Builtin::MapExpand => map_expand_outcome(params, scope, w, fuel),
        Builtin::Filter => filter_outcome(params, scope, w, fuel),
        Builtin::Reduce => reduce_outcome(params, scope, w, fuel),
        Builtin::Not => not_outcome(params, scope, w, fuel),
    }
}

/// Runs a builtin on the arguments `params`.
pub fn call_builtin(
    b: Builtin,
    params: Vec<Value>,
    env: &mut EvalEnv,
    scope: usize,
    fuel: usize,
) -> (r: Result<Value, ErrorEval>)
    ensures
        outcome(r, final(env)@) == builtin_outcome(
            b,
            models(params@),
            scope as nat,
            old(env)@,
            fuel as nat,
        ),
    decreases fuel, 8nat, 0nat,
{
    match b {
        Builtin::AtomOrNot => atom_or_not(params),
        Builtin::BooleanOrNot => boolean_or_not(params),
        Builtin::IntegerOrNot => integer_or_not(params),
        Builtin::ListOrNot => list_or_not(params),
        Builtin::NumberOrNot => number_or_not(params),
        Builtin::NullOrNot => null_or_not(params),
        Builtin::PairOrNot => pair_or_not(params),
        Builtin::ProcedureOrNot => procedure_or_not(params),
        Builtin::StringOrNot => string_or_not(params),
        Builtin::SymbolOrNot => symbol_or_not(params),
        Builtin::Append => append(params),
        Builtin::Push => push(params),
        Builtin::Car => car(params),
        Builtin::Cdr => cdr(params),
        Builtin::Cons => cons(params),
        Builtin::Length => length(params),
        Builtin::List => list(params),
        Builtin::Error => error(params),
        Builtin::Add => self::add(params),
        Builtin::Subtract => subtract(params),
        Builtin::Multiply => multiply(params),
        Builtin::Divide => divide(params),
        Builtin::Abs => abs(params),
        Builtin::Expt => expt(params),
        Builtin::Quotient => quotient(params),
        Builtin::Modulo => modulo(params),
        Builtin::Remainder => remainder(params),
        Builtin::EqQ => eq_q(params),
        Builtin::EqualQ => equal_q(params),
        Builtin::EqualOrNot => equal_or_not(params),
        Builtin::LessThanOrNot => less_than_or_not(params),
        Builtin::MoreThanOrNot => more_than_or_not(params),
        Builtin::LessThanOrEqualOrNot => less_than_or_equal_or_not(params),
        Builtin::MoreThanOrEqualOrNot => more_than_or_equal_or_not(params),
        Builtin::EvenOrNot => even_or_not(params),
        Builtin::OddOrNot => odd_or_not(params),
        Builtin::ZeroOrNot => zero_or_not(params),
        Builtin::DefinedLocalOrNot => defined_local_or_not(params, env, scope),
        Builtin::DefinedAllOrNot => defined_all_or_not(params, env, scope),
        Builtin::Print => print(params, env),
        Builtin::Display => display(params, env),
        Builtin::Displayln => displayln(params, env),
        Builtin::Newline => newline(params, env),
        Builtin::Exit => exit(params, env),
        Builtin::ExitForce => exit_force(params, env),
        Builtin::Apply => apply(params, env, scope, fuel),
        Builtin::Eval => eval(params, env, scope, fuel),
        Builtin::MapEach => map(params, env, scope, fuel),
        Builtin::MapExpand => map_expand(params, env, scope, fuel),
        Builtin::Filter => filter(params, env, scope, fuel),
        Builtin::Reduce => reduce(params, env, scope, fuel),
        Builtin::Not => not(params, env, scope, fuel),
    }
}

} // verus!
