//! Lexical scopes, an arena of binding tables that each have an optional
//! parent, and the evaluator that works on them.

use vstd::prelude::*;
use vstd::string::StringExecFns;
use crate::builtins::{builtin_outcome, call_builtin};
use crate::error::{failure, failure_about, wrapped, ErrorEval, ErrorKind, Failure};
use crate::frame::law_evaluation_keeps_well_formed;
use crate::procedure::{builtin_named, form_named, Builtin, Procedure, SpecialForm};
use crate::special_forms::{call_form, form_outcome};
use crate::value::{
    from_sequence, improper_list_message, lemma_lambda_model, models, texts, to_sequence, Datum,
    Value,
};

verus! {

/// One binding of a scope.
#[derive(Debug)]
pub struct Binding {
    pub name: String,
    pub value: Value,
}

/// One scope: its bindings, oldest first, and the scope around it.
#[derive(Debug)]
pub struct Scope {
    pub bindings: Vec<Binding>,
    pub parent: Option<usize>,
}

/// The evaluator's state: every scope made so far, the text that the
/// evaluated program has printed and not yet been taken, the exit code it
/// asked for if it did, and how deep `eval` lets an evaluation nest.
///
/// A scope is named by its index in `scopes`; scope `0` is the global one.
/// Scopes are never removed, so an index stays good for as long as the
/// state lives.
#[derive(Debug)]
pub struct EvalEnv {
    pub scopes: Vec<Scope>,
    pub output: String,
    pub exit_code: Option<i32>,
    pub depth_limit: usize,
}

impl Clone for Binding {
    fn clone(&self) -> (r: Binding)
        ensures
            r@ == self@,
    {
        Binding { name: self.name.clone(), value: self.value.clone() }
    }
}

impl Clone for Scope {
    fn clone(&self) -> (r: Scope)
        ensures
            r@ == self@,
    {
        let mut bindings: Vec<Binding> = Vec::new();
        let mut i: usize = 0;
        while i < self.bindings.len()
            invariant
                i <= self.bindings.len(),
                bindings.len() == i,
                forall|k: int| 0 <= k < i ==> bindings[k]@ == self.bindings[k]@,
            decreases self.bindings.len() - i,
        {
            bindings.push(self.bindings[i].clone());
            i += 1;
        }
        let r = Scope { bindings, parent: self.parent };
        assert(r@.bindings =~= self@.bindings);
        r
    }
}

impl Clone for EvalEnv {
    fn clone(&self) -> (r: EvalEnv)
        ensures
            r@ == self@,
    {
        let mut scopes: Vec<Scope> = Vec::new();
        let mut i: usize = 0;
        while i < self.scopes.len()
            invariant
                i <= self.scopes.len(),
                scopes.len() == i,
                forall|k: int| 0 <= k < i ==> scopes[k]@ == self.scopes[k]@,
            decreases self.scopes.len() - i,
        {
            scopes.push(self.scopes[i].clone());
            i += 1;
        }
        let r = EvalEnv {
            scopes,
            output: self.output.clone(),
            exit_code: self.exit_code,
            depth_limit: self.depth_limit,
        };
        assert(r@.scopes =~= self@.scopes);
        r
    }
}

/// The index of the global scope.
pub const GLOBAL: usize = 0;

/// How deep `eval` lets an evaluation nest in a state made by `new`.
pub const DEFAULT_DEPTH: usize = 400;

/// The model of a [`Scope`].
pub struct Frame {
    pub bindings: Seq<(Seq<char>, Datum)>,
    pub parent: Option<nat>,
}

/// The model of an [`EvalEnv`].
pub struct World {
    pub scopes: Seq<Frame>,
    pub output: Seq<char>,
    pub exit_code: Option<i32>,
    pub depth_limit: nat,
}

impl View for Binding {
    type V = (Seq<char>, Datum);

    open spec fn view(&self) -> (Seq<char>, Datum) {
        (self.name@, self.value@)
    }
}

impl View for Scope {
    type V = Frame;

    open spec fn view(&self) -> Frame {
        Frame {
            bindings: Seq::new(self.bindings.len() as nat, |i: int| self.bindings[i]@),
            parent: match self.parent {
                Some(p) => Some(p as nat),
                None => None,
            },
        }
    }
}

impl View for EvalEnv {
    type V = World;

    open spec fn view(&self) -> World {
        World {
            scopes: Seq::new(self.scopes.len() as nat, |i: int| self.scopes[i]@),
            output: self.output@,
            exit_code: self.exit_code,
            depth_limit: self.depth_limit as nat,
        }
    }
}

/// The first position from `i` on at which `bindings` binds `name`.
pub open spec fn position_from(bindings: Seq<(Seq<char>, Datum)>, name: Seq<char>, i: int) -> Option<
    int,
>
    decreases bindings.len() - i,
{
    if i < 0 || i >= bindings.len() {
        None
    } else if bindings[i].0 == name {
        Some(i)
    } else {
        position_from(bindings, name, i + 1)
    }
}

/// What a scope itself binds `name` to.
pub open spec fn lookup_local(frame: Frame, name: Seq<char>) -> Option<Datum> {
    match position_from(frame.bindings, name, 0) {
        Some(i) => Some(frame.bindings[i].1),
        None => None,
    }
}

/// What `name` is bound to as seen from `scope`: the binding of the nearest
/// scope on the way out that has one. A scope that does not exist binds
/// nothing, and a parent is followed only to a scope made earlier.
pub open spec fn lookup(w: World, scope: nat, name: Seq<char>) -> Option<Datum>
    decreases scope,
{
    if scope >= w.scopes.len() {
        None
    } else {
        match lookup_local(w.scopes[scope as int], name) {
            Some(v) => Some(v),
            None => match w.scopes[scope as int].parent {
                Some(p) => if p < scope {
                    lookup(w, p, name)
                } else {
                    None
                },
                None => None,
            },
        }
    }
}

/// The bindings after `name` is bound to `value`: an existing binding of the
/// name is overwritten where it stands, a new one goes to the end.
pub open spec fn bound(bindings: Seq<(Seq<char>, Datum)>, name: Seq<char>, value: Datum) -> Seq<
    (Seq<char>, Datum),
> {
    match position_from(bindings, name, 0) {
        Some(i) => bindings.update(i, (name, value)),
        None => bindings.push((name, value)),
    }
}

/// The state after `name` is bound to `value` in `scope` itself. Binding in
/// a scope that does not exist changes nothing.
pub open spec fn defined(w: World, scope: nat, name: Seq<char>, value: Datum) -> World {
    if scope < w.scopes.len() {
        World {
            scopes: w.scopes.update(
                scope as int,
                Frame {
                    bindings: bound(w.scopes[scope as int].bindings, name, value),
                    ..w.scopes[scope as int]
                },
            ),
            ..w
        }
    } else {
        w
    }
}

/// The bindings after the first `count` names are bound, in order, each to
/// the value at its position.
pub open spec fn bound_all(names: Seq<Seq<char>>, values: Seq<Datum>, count: nat) -> Seq<
    (Seq<char>, Datum),
>
    decreases count,
{
    if count == 0 || count > names.len() || count > values.len() {
        Seq::empty()
    } else {
        bound(
            bound_all(names, values, (count - 1) as nat),
            names[count - 1],
            values[count - 1],
        )
    }
}

/// The state after a scope is made inside `parent` that binds each name to
/// the value at its position. The new scope's index is the number of scopes
/// before.
pub open spec fn derived(w: World, parent: nat, names: Seq<Seq<char>>, values: Seq<Datum>) -> World {
    World {
        scopes: w.scopes.push(
            Frame { bindings: bound_all(names, values, names.len()), parent: Some(parent) },
        ),
        ..w
    }
}

/// The state after the evaluated program has printed `text`.
pub open spec fn printed(w: World, text: Seq<char>) -> World {
    World { output: w.output + text, ..w }
}

/// The state after the evaluated program has asked to leave with `code`.
pub open spec fn leaving(w: World, code: i32) -> World {
    World { exit_code: Some(code), ..w }
}

/// The state that evaluation starts from: one empty global scope.
pub open spec fn initial_world() -> World {
    World {
        scopes: seq![Frame { bindings: Seq::empty(), parent: None }],
        output: Seq::empty(),
        exit_code: None,
        depth_limit: DEFAULT_DEPTH as nat,
    }
}

/// The parent chain is acyclic: every scope's parent was made before it.
pub open spec fn well_formed(w: World) -> bool {
    &&& w.scopes.len() > 0
    &&& forall|i: int|
        0 <= i < w.scopes.len() ==> match (#[trigger] w.scopes[i]).parent {
            Some(p) => p < i,
            None => true,
        }
}

/// The model of an optional value.
pub open spec fn optional_model(v: Option<Value>) -> Option<Datum> {
    match v {
        Some(v) => Some(v@),
        None => None,
    }
}

fn find_position(bindings: &Vec<Binding>, name: &String) -> (r: Option<usize>)
    ensures
        match r {
            Some(i) => position_from(
                Seq::new(bindings.len() as nat, |i: int| bindings[i]@),
                name@,
                0,
            ) == Some(i as int) && i < bindings.len(),
            None => position_from(
                Seq::new(bindings.len() as nat, |i: int| bindings[i]@),
                name@,
                0,
            ) is None,
        },
{
    let ghost all = Seq::new(bindings.len() as nat, |i: int| bindings[i]@);
    let mut i: usize = 0;
    while i < bindings.len()
        invariant
            i <= bindings.len(),
            all == Seq::new(bindings.len() as nat, |i: int| bindings[i]@),
            position_from(all, name@, 0) == position_from(all, name@, i as int),
        decreases bindings.len() - i,
    {
        if bindings[i].name == *name {
            return Some(i);
        }
        i += 1;
    }
    None
}

impl EvalEnv {
    /// A fresh state: one empty global scope, nothing printed.
    pub fn new() -> (r: EvalEnv)
        ensures
            r@ == initial_world(),
            well_formed(r@),
    {
        let mut scopes: Vec<Scope> = Vec::new();
        scopes.push(Scope { bindings: Vec::new(), parent: None });
        let r = EvalEnv {
            scopes,
            output: String::new(),
            exit_code: None,
            depth_limit: DEFAULT_DEPTH,
        };
        assert(r@.scopes[0].bindings =~= Seq::empty());
        assert(r@.scopes =~= initial_world().scopes);
        r
    }

    /// What `name` is bound to as seen from `scope`.
    pub fn find_binding(&self, scope: usize, name: &String) -> (r: Option<Value>)
        ensures
            optional_model(r) == lookup(self@, scope as nat, name@),
    {
        let mut current = scope;
        while current < self.scopes.len()
            invariant
                lookup(self@, current as nat, name@) == lookup(self@, scope as nat, name@),
            decreases current,
        {
            match find_position(&self.scopes[current].bindings, name) {
                Some(i) => {
                    return Some(self.scopes[current].bindings[i].value.clone());
                },
                None => {
                    match self.scopes[current].parent {
                        Some(p) => {
                            if p < current {
                                current = p;
                            } else {
                                return None;
                            }
                        },
                        None => {
                            return None;
                        },
                    }
                },
            }
        }
        None
    }

    /// What `scope` itself binds `name` to.
    pub fn find_local(&self, scope: usize, name: &String) -> (r: Option<Value>)
        ensures
            optional_model(r) == (if scope < self@.scopes.len() {
                lookup_local(self@.scopes[scope as int], name@)
            } else {
                None
            }),
    {
        if scope < self.scopes.len() {
            match find_position(&self.scopes[scope].bindings, name) {
                Some(i) => Some(self.scopes[scope].bindings[i].value.clone()),
                None => None,
            }
        } else {
            None
        }
    }

    /// Adds `text` to what the evaluated program has printed.
    pub fn print(&mut self, text: &str)
        ensures
            final(self)@ == printed(old(self)@, text@),
            well_formed(old(self)@) ==> well_formed(final(self)@),
    {
        self.output.append(text);
    }

    /// Takes what the evaluated program has printed since the last call.
    pub fn take_output(&mut self) -> (text: String)
        ensures
            text@ == old(self)@.output,
            final(self)@ == (World { output: Seq::empty(), ..old(self)@ }),
            well_formed(old(self)@) ==> well_formed(final(self)@),
    {
        let mut text = String::new();
        std::mem::swap(&mut text, &mut self.output);
        text
    }

    /// Notes the exit code that the evaluated program asked for.
    pub fn request_exit(&mut self, code: i32)
        ensures
            final(self)@ == leaving(old(self)@, code),
            well_formed(old(self)@) ==> well_formed(final(self)@),
    {
        self.exit_code = Some(code);
    }

    /// Binds `name` to `value` in `scope` itself.
    pub fn bind(&mut self, scope: usize, name: String, value: Value)
        ensures
            final(self)@ == defined(old(self)@, scope as nat, name@, value@),
            well_formed(old(self)@) ==> well_formed(final(self)@),
    {
        if scope < self.scopes.len() {
            let ghost goal = defined(old(self)@, scope as nat, name@, value@);
            match find_position(&self.scopes[scope].bindings, &name) {
                Some(i) => {
                    self.scopes[scope].bindings[i] = Binding { name, value };
                },
                None => {
                    self.scopes[scope].bindings.push(Binding { name, value });
                },
            }
            assert(self@.scopes[scope as int].bindings =~= goal.scopes[scope as int].bindings);
            assert forall|k: int| 0 <= k < self@.scopes.len() implies self@.scopes[k]
                == goal.scopes[k] by {
                if k != scope {
                    assert(self.scopes[k] == old(self).scopes[k]);
                }
            }
            assert(self@.scopes =~= goal.scopes);
        }
    }

    /// Makes a scope inside `scope` that binds each parameter to the argument
    /// at its position, and gives its index. Fails, changing nothing, unless
    /// there are as many arguments as parameters and `scope` exists.
    pub fn derive(&mut self, scope: usize, params: Vec<String>, args: Vec<Value>) -> (r: Result<
        usize,
        ErrorEval,
    >)
        ensures
            match r {
                Ok(child) => derive_failure(
                    old(self)@,
                    scope as nat,
                    params.len() as nat,
                    args.len() as nat,
                ) is None && child == old(self).scopes.len() && final(self)@ == derived(
                    old(self)@,
                    scope as nat,
                    texts(params@),
                    models(args@),
                ),
                Err(e) => derive_failure(
                    old(self)@,
                    scope as nat,
                    params.len() as nat,
                    args.len() as nat,
                ) == Some(e@) && final(self)@ == old(self)@,
            },
            well_formed(old(self)@) ==> well_formed(final(self)@),
    {
        self.derive_from(scope, &params, &args)
    }

    /// Does what `derive` does, for parameters and arguments that the caller keeps.
    pub fn derive_from(&mut self, scope: usize, params: &Vec<String>, args: &Vec<Value>) -> (r:
        Result<usize, ErrorEval>)
        ensures
            match r {
                Ok(child) => derive_failure(
                    old(self)@,
                    scope as nat,
                    params.len() as nat,
                    args.len() as nat,
                ) is None && child == old(self).scopes.len() && final(self)@ == derived(
                    old(self)@,
                    scope as nat,
                    texts(params@),
                    models(args@),
                ),
                Err(e) => derive_failure(
                    old(self)@,
                    scope as nat,
                    params.len() as nat,
                    args.len() as nat,
                ) == Some(e@) && final(self)@ == old(self)@,
            },
            well_formed(old(self)@) ==> well_formed(final(self)@),
    {
        if params.len() < args.len() {
            return Err(ErrorEval::new(ErrorKind::ArityError, "Too many parameters."));
        }
        if params.len() > args.len() {
            return Err(ErrorEval::new(ErrorKind::ArityError, "Missing parameters."));
        }
        if scope >= self.scopes.len() {
            return Err(ErrorEval::new(ErrorKind::InvalidCallTarget, "Scope does not exist."));
        }
        let mut bindings: Vec<Binding> = Vec::new();
        let ghost names = texts(params@);
        let ghost values = models(args@);
        let mut i: usize = 0;
        while i < params.len()
            invariant
                i <= params.len(),
                params.len() == args.len(),
                names == texts(params@),
                values == models(args@),
                Seq::new(bindings.len() as nat, |k: int| bindings[k]@) == bound_all(
                    names,
                    values,
                    i as nat,
                ),
            decreases params.len() - i,
        {
            let ghost before = Seq::new(bindings.len() as nat, |k: int| bindings[k]@);
            let name = params[i].clone();
            let value = args[i].clone();
            match find_position(&bindings, &name) {
                Some(k) => {
                    bindings[k] = Binding { name, value };
                },
                None => {
                    bindings.push(Binding { name, value });
                },
            }
            assert(Seq::new(bindings.len() as nat, |k: int| bindings[k]@) =~= bound(
                before,
                names[i as int],
                values[i as int],
            ));
            i += 1;
        }
        let child = self.scopes.len();
        self.scopes.push(Scope { bindings, parent: Some(scope) });
        proof {
            let goal = derived(old(self)@, scope as nat, names, values);
            assert(self@.scopes[child as int] == goal.scopes[child as int]);
            assert forall|k: int| 0 <= k < self@.scopes.len() implies self@.scopes[k]
                == goal.scopes[k] by {
                if k != child {
                    assert(self.scopes[k] == old(self).scopes[k]);
                }
            }
            assert(self@.scopes =~= goal.scopes);
        }
        Ok(child)
    }
}

/// The error for a call with `given` arguments to `wanted` parameters, where
/// the two differ.
pub open spec fn arity_failure(wanted: nat, given: nat) -> crate::error::Failure {
    if wanted < given {
        failure(ErrorKind::ArityError, "Too many parameters."@)
    } else {
        failure(ErrorKind::ArityError, "Missing parameters."@)
    }
}

/// Why no scope can be made inside `parent` for `given` arguments to
/// `wanted` parameters: the two numbers differ, or `parent` does not exist.
/// None where the scope can be made.
pub open spec fn derive_failure(w: World, parent: nat, wanted: nat, given: nat) -> Option<Failure> {
    if wanted != given {
        Some(arity_failure(wanted, given))
    } else if parent >= w.scopes.len() {
        Some(failure(ErrorKind::InvalidCallTarget, "Scope does not exist."@))
    } else {
        None
    }
}

/// What an evaluation gives: a value or an error, and the state after it.
pub struct Outcome {
    pub result: Result<Datum, Failure>,
    pub world: World,
}

/// What the evaluation of several expressions gives: their values or the
/// first error, and the state after it.
pub struct Gathered {
    pub result: Result<Seq<Datum>, Failure>,
    pub world: World,
}

/// The model of what an evaluating function returns and leaves behind.
pub open spec fn outcome(r: Result<Value, ErrorEval>, world: World) -> Outcome {
    Outcome {
        result: match r {
            Ok(v) => Ok(v@),
            Err(e) => Err(e@),
        },
        world,
    }
}

/// The model of what a function that evaluates several expressions returns
/// and leaves behind.
pub open spec fn gathered(r: Result<Vec<Value>, ErrorEval>, world: World) -> Gathered {
    Gathered {
        result: match r {
            Ok(v) => Ok(models(v@)),
            Err(e) => Err(e@),
        },
        world,
    }
}

/// An evaluation that fails in state `w`.
pub open spec fn failed(w: World, e: Failure) -> Outcome {
    Outcome { result: Err(e), world: w }
}

/// An evaluation that gives `v` in state `w`.
pub open spec fn succeeded(w: World, v: Datum) -> Outcome {
    Outcome { result: Ok(v), world: w }
}

/// The error of an evaluation that has used up the depth it was granted.
pub open spec fn depth_failure() -> Failure {
    failure(ErrorKind::DepthExceeded, "[eval]: Evaluation nests too deep"@)
}

/// What a symbol evaluates to: its lexical binding; else, for `else`, the
/// symbol itself; else the builtin of that name; else the special form of
/// that name; else an error.
pub open spec fn resolved(w: World, scope: nat, name: Seq<char>) -> Result<Datum, Failure> {
    match lookup(w, scope, name) {
        Some(v) => Ok(v),
        None => if name == "else"@ {
            Ok(Datum::Symbol(name))
        } else {
            match builtin_named(name) {
                Some(b) => Ok(Datum::Procedure(Procedure::Builtin(b))),
                None => match form_named(name) {
                    Some(f) => Ok(Datum::Procedure(Procedure::Form(f))),
                    None => Err(
                        failure_about(
                            ErrorKind::UnboundSymbol,
                            "[eval]: Variable "@,
                            name,
                            " not defined"@,
                        ),
                    ),
                },
            }
        },
    }
}

/// What `expr` evaluates to in `scope`, and the state it leaves, when the
/// evaluation may nest `fuel` deep.
///
/// Atoms other than symbols and `Nil` are their own value. `Nil` is an error.
/// A symbol is resolved. A list is an application: its head decides how the
/// rest is treated.
pub open spec fn evaluated(expr: Datum, scope: nat, w: World, fuel: nat) -> Outcome
    decreases fuel, 0nat, 0nat,
{
    if fuel == 0 {
        failed(w, depth_failure())
    } else {
        match expr {
            Datum::Nil => failed(
                w,
                failure(ErrorKind::InvalidCallTarget, "[eval]: evaluate NilValue is prohibited"@),
            ),
            Datum::Symbol(name) => Outcome { result: resolved(w, scope, name), world: w },
            Datum::Pair(_, _) => match to_sequence(expr) {
                None => failed(
                    w,
                    wrapped(
                        failure(ErrorKind::MalformedList, improper_list_message()),
                        "[eval]: Fail to convert a value to vector"@,
                    ),
                ),
                Some(items) => applied(items, scope, w, (fuel - 1) as nat),
            },
            _ => succeeded(w, expr),
        }
    }
}

/// The context that the evaluator gives to an error of an operand.
pub open spec fn operand_context() -> Seq<char> {
    "[eval]: Fail to evaluate a value"@
}

/// What the application `items` gives, `items` being the items of a
/// non-empty list, in order.
///
/// - The head is a symbol bound lexically to a procedure or a lambda: the
///   other items are evaluated and the binding is applied to them.
/// - Else the head is a symbol that names a special form: the form gets the
///   other items as they are. `unquote` is an error here.
/// - Else the head is a symbol that names a builtin: the other items are
///   evaluated and the builtin is called on them.
/// - Any other symbol is unbound.
/// - The head is a list: every item, the head too, is evaluated, and the
///   list of the values is evaluated again.
/// - The head is a procedure value: it is called on the other items as they
///   are.
/// - The head is a lambda value: it is entered with the other items as they
///   are.
pub open spec fn applied(items: Seq<Datum>, scope: nat, w: World, fuel: nat) -> Outcome
    decreases fuel, 9nat, 0nat,
{
    if items.len() == 0 {
        failed(
            w,
            failure(ErrorKind::InvalidCallTarget, "[eval]: evaluate NilValue is prohibited"@),
        )
    } else {
        match items[0] {
            Datum::Symbol(name) => match lookup(w, scope, name) {
                Some(Datum::Procedure(p)) => {
                    let g = evaluated_each(
                        items,
                        1,
                        Seq::empty(),
                        scope,
                        w,
                        fuel,
                        operand_context(),
                    );
                    match g.result {
                        Err(e) => failed(g.world, e),
                        Ok(args) => invoked(p, args, scope, g.world, fuel),
                    }
                },
                Some(Datum::Lambda(params, body, captured)) => {
                    let g = evaluated_each(
                        items,
                        1,
                        Seq::empty(),
                        scope,
                        w,
                        fuel,
                        operand_context(),
                    );
                    match g.result {
                        Err(e) => failed(g.world, e),
                        Ok(args) => entered(
                            params,
                            body,
                            captured,
                            args,
                            g.world,
                            fuel,
                            operand_context(),
                        ),
                    }
                },
                _ => match form_named(name) {
                    Some(form) => if form == SpecialForm::Unquote {
                        failed(
                            w,
                            failure(
                                ErrorKind::MalformedSpecialForm,
                                "[eval]: Calling unquote outside quasiquote is an undefined behavior"@,
                            ),
                        )
                    } else {
                        form_outcome(form, items.drop_first(), scope, w, fuel)
                    },
                    None => match builtin_named(name) {
                        Some(b) => {
                            let g = evaluated_each(
                                items,
                                1,
                                Seq::empty(),
                                scope,
                                w,
                                fuel,
                                operand_context(),
                            );
                            match g.result {
                                Err(e) => failed(g.world, e),
                                Ok(args) => builtin_outcome(b, args, scope, g.world, fuel),
                            }
                        },
                        None => failed(
                            w,
                            failure_about(
                                ErrorKind::UnboundSymbol,
                                "[eval]: Name "@,
                                name,
                                " not defined"@,
                            ),
                        ),
                    },
                },
            },
            Datum::Pair(_, _) => {
                let g = evaluated_each(items, 0, Seq::empty(), scope, w, fuel, operand_context());
                match g.result {
                    Err(e) => failed(g.world, e),
                    Ok(values) => evaluated(from_sequence(values), scope, g.world, fuel),
                }
            },
            Datum::Procedure(p) => {
                let o = invoked(p, items.drop_first(), scope, w, fuel);
                match o.result {
                    Err(e) => failed(
                        o.world,
                        wrapped(e, "[eval]: Fail to call the given procedure"@),
                    ),
                    Ok(_) => o,
                }
            },
            Datum::Lambda(params, body, captured) => entered(
                params,
                body,
                captured,
                items.drop_first(),
                w,
                fuel,
                operand_context(),
            ),
            _ => failed(
                w,
                failure(
                    ErrorKind::InvalidCallTarget,
                    "[eval]: Invalid format. Cannot evaluate it as a symbol or procedure"@,
                ),
            ),
        }
    }
}

/// What calling the procedure `p` on `args` gives: the special form or the
/// builtin that it refers to gets `args` as they are.
pub open spec fn invoked(p: Procedure, args: Seq<Datum>, scope: nat, w: World, fuel: nat) -> Outcome
    decreases fuel, 0nat, 0nat,
{
    if fuel == 0 {
        failed(w, depth_failure())
    } else {
        match p {
            Procedure::Form(form) => form_outcome(form, args, scope, w, (fuel - 1) as nat),
            Procedure::Builtin(b) => builtin_outcome(b, args, scope, w, (fuel - 1) as nat),
        }
    }
}

/// The values of the items from position `i` on, evaluated in order in
/// `scope`, after the values `done`; or the first error, with `context` as
/// its new first line.
pub open spec fn evaluated_each(
    items: Seq<Datum>,
    i: nat,
    done: Seq<Datum>,
    scope: nat,
    w: World,
    fuel: nat,
    context: Seq<char>,
) -> Gathered
    decreases fuel, 1nat, items.len() - i,
{
    if i >= items.len() {
        Gathered { result: Ok(done), world: w }
    } else {
        let o = evaluated(items[i as int], scope, w, fuel);
        match o.result {
            Err(e) => Gathered { result: Err(wrapped(e, context)), world: o.world },
            Ok(v) => evaluated_each(items, i + 1, done.push(v), scope, o.world, fuel, context),
        }
    }
}

/// The value of the last of the items from position `i` on, all evaluated in
/// order in `scope`; `last` where there is none; or the first error, with
/// `context` as its new first line.
pub open spec fn evaluated_last(
    items: Seq<Datum>,
    i: nat,
    last: Datum,
    scope: nat,
    w: World,
    fuel: nat,
    context: Seq<char>,
) -> Outcome
    decreases fuel, 1nat, items.len() - i,
{
    if i >= items.len() {
        succeeded(w, last)
    } else {
        let o = evaluated(items[i as int], scope, w, fuel);
        match o.result {
            Err(e) => failed(o.world, wrapped(e, context)),
            Ok(v) => evaluated_last(items, i + 1, v, scope, o.world, fuel, context),
        }
    }
}

/// What entering a lambda gives: a scope is made inside the one it captured,
/// binding its parameters to `args` by position, and the body is evaluated
/// there in order. The value is that of the last body expression, `Nil` for
/// an empty body. A wrong number of arguments is an error, and so is a
/// captured scope that does not exist.
pub open spec fn entered(
    params: Seq<Seq<char>>,
    body: Seq<Datum>,
    captured: nat,
    args: Seq<Datum>,
    w: World,
    fuel: nat,
    context: Seq<char>,
) -> Outcome
    decreases fuel, 2nat, 0nat,
{
    match derive_failure(w, captured, params.len(), args.len()) {
        Some(e) => failed(w, e),
        None => evaluated_last(
            body,
            0,
            Datum::Nil,
            w.scopes.len(),
            derived(w, captured, params, args),
            fuel,
            context,
        ),
    }
}

/// What applying `callee` to `args` gives: a procedure is called, a lambda
/// is entered, anything else is the error `otherwise`.
pub open spec fn called(
    callee: Datum,
    args: Seq<Datum>,
    scope: nat,
    w: World,
    fuel: nat,
    context: Seq<char>,
    otherwise: Failure,
) -> Outcome
    decreases fuel, 3nat, 0nat,
{
    match callee {
        Datum::Procedure(p) => invoked(p, args, scope, w, fuel),
        Datum::Lambda(params, body, captured) => entered(
            params,
            body,
            captured,
            args,
            w,
            fuel,
            context,
        ),
        _ => failed(w, otherwise),
    }
}

/// The model of what a function that leaves the state alone returns.
pub open spec fn result_model(r: Result<Value, ErrorEval>) -> Result<Datum, Failure> {
    match r {
        Ok(v) => Ok(v@),
        Err(e) => Err(e@),
    }
}

impl EvalEnv {
    /// What the symbol `name` evaluates to in `scope`.
    pub fn resolve(&self, scope: usize, name: &String) -> (r: Result<Value, ErrorEval>)
        ensures
            result_model(r) == resolved(self@, scope as nat, name@),
    {
        match self.find_binding(scope, name) {
            Some(v) => Ok(v),
            None => {
                if crate::text::is_text(name, "else") {
                    Ok(Value::SymbolValue(name.clone()))
                } else {
                    match Builtin::named(name) {
                        Some(b) => Ok(Value::ProcedureValue(Procedure::Builtin(b))),
                        None => match SpecialForm::named(name) {
                            Some(f) => Ok(Value::ProcedureValue(Procedure::Form(f))),
                            None => Err(
                                ErrorEval::about(
                                    ErrorKind::UnboundSymbol,
                                    "[eval]: Variable ",
                                    name,
                                    " not defined",
                                ),
                            ),
                        },
                    }
                }
            },
        }
    }

    /// Evaluates `expr` in the global scope, as deep as `depth_limit` allows.
    pub fn eval(&mut self, expr: Value) -> (r: Result<Value, ErrorEval>)
        ensures
            outcome(r, final(self)@) == evaluated(
                expr@,
                GLOBAL as nat,
                old(self)@,
                old(self)@.depth_limit,
            ),
            well_formed(old(self)@) ==> well_formed(final(self)@),
    {
        let fuel = self.depth_limit;
        self.evaluate(expr, GLOBAL, fuel)
    }

    /// Evaluates `expr` in `scope`, nesting at most `fuel` deep.
    pub fn evaluate(&mut self, expr: Value, scope: usize, fuel: usize) -> (r: Result<
        Value,
        ErrorEval,
    >)
        ensures
            outcome(r, final(self)@) == evaluated(expr@, scope as nat, old(self)@, fuel as nat),
            well_formed(old(self)@) ==> well_formed(final(self)@),
        decreases fuel, 0nat, 0nat,
    {
        proof {
            if well_formed(self@) {
                law_evaluation_keeps_well_formed(expr@, scope as nat, self@, fuel as nat);
            }
        }
        if fuel == 0 {
            return Err(ErrorEval::new(ErrorKind::DepthExceeded, "[eval]: Evaluation nests too deep"));
        }
        match &expr {
            Value::NilValue => Err(
                ErrorEval::new(
                    ErrorKind::InvalidCallTarget,
                    "[eval]: evaluate NilValue is prohibited",
                ),
            ),
            Value::SymbolValue(name) => self.resolve(scope, name),
            Value::PairValue(_, _) => match expr.to_vector() {
                Err(e) => Err(e.wrap("[eval]: Fail to convert a value to vector")),
                Ok(items) => self.apply_items(items, scope, fuel - 1),
            },
            _ => Ok(expr),
        }
    }

    /// Evaluates the application whose items are `items`.
    pub fn apply_items(&mut self, items: Vec<Value>, scope: usize, fuel: usize) -> (r: Result<
        Value,
        ErrorEval,
    >)
        ensures
            outcome(r, final(self)@) == applied(
                models(items@),
                scope as nat,
                old(self)@,
                fuel as nat,
            ),
        decreases fuel, 9nat, 0nat,
    {
        let mut items = items;
        if items.len() == 0 {
            return Err(
                ErrorEval::new(
                    ErrorKind::InvalidCallTarget,
                    "[eval]: evaluate NilValue is prohibited",
                ),
            );
        }
        let ghost all = models(items@);
        match &items[0] {
            Value::SymbolValue(name) => {
                let name = name.clone();
                let found = self.find_binding(scope, &name);
                proof {
                    if found is Some && found->Some_0 is LambdaValue {
                        lemma_lambda_model(found->Some_0);
                    }
                }
                match found {
                    Some(Value::ProcedureValue(p)) => {
                        match self.evaluate_each(
                            &items,
                            1,
                            scope,
                            fuel,
                            "[eval]: Fail to evaluate a value",
                        ) {
                            Err(e) => Err(e),
                            Ok(args) => self.invoke(p, args, scope, fuel),
                        }
                    },
                    Some(Value::LambdaValue(params, body, captured)) => {
                        match self.evaluate_each(
                            &items,
                            1,
                            scope,
                            fuel,
                            "[eval]: Fail to evaluate a value",
                        ) {
                            Err(e) => Err(e),
                            Ok(args) => self.enter(
                                &params,
                                &body,
                                captured,
                                args,
                                fuel,
                                "[eval]: Fail to evaluate a value",
                            ),
                        }
                    },
                    _ => match SpecialForm::named(&name) {
                        Some(form) => {
                            if form == SpecialForm::Unquote {
                                Err(
                                    ErrorEval::new(
                                        ErrorKind::MalformedSpecialForm,
                                        "[eval]: Calling unquote outside quasiquote is an undefined behavior",
                                    ),
                                )
                            } else {
                                items.remove(0);
                                assert(models(items@) =~= all.drop_first());
                                call_form(form, items, self, scope, fuel)
                            }
                        },
                        None => match Builtin::named(&name) {
                            Some(b) => {
                                match self.evaluate_each(
                                    &items,
                                    1,
                                    scope,
                                    fuel,
                                    "[eval]: Fail to evaluate a value",
                                ) {
                                    Err(e) => Err(e),
                                    Ok(args) => call_builtin(b, args, self, scope, fuel),
                                }
                            },
                            None => Err(
                                ErrorEval::about(
                                    ErrorKind::UnboundSymbol,
                                    "[eval]: Name ",
                                    &name,
                                    " not defined",
                                ),
                            ),
                        },
                    },
                }
            },
            Value::PairValue(_, _) => {
                match self.evaluate_each(&items, 0, scope, fuel, "[eval]: Fail to evaluate a value") {
                    Err(e) => Err(e),
                    Ok(values) => {
                        let list = Value::from_vector(values);
                        self.evaluate(list, scope, fuel)
                    },
                }
            },
            Value::ProcedureValue(p) => {
                let p = *p;
                items.remove(0);
                assert(models(items@) =~= all.drop_first());
                match self.invoke(p, items, scope, fuel) {
                    Err(e) => Err(e.wrap("[eval]: Fail to call the given procedure")),
                    Ok(v) => Ok(v),
                }
            },
            Value::LambdaValue(_, _, _) => {
                let head = items.remove(0);
                assert(models(items@) =~= all.drop_first());
                proof {
                    lemma_lambda_model(head);
                }
                match head {
                    Value::LambdaValue(params, body, captured) => self.enter(
                        &params,
                        &body,
                        captured,
                        items,
                        fuel,
                        "[eval]: Fail to evaluate a value",
                    ),
                    _ => Ok(Value::NilValue),
                }
            },
            _ => Err(
                ErrorEval::new(
                    ErrorKind::InvalidCallTarget,
                    "[eval]: Invalid format. Cannot evaluate it as a symbol or procedure",
                ),
            ),
        }
    }

    /// Calls the procedure `p` on `args`, as they are.
    pub fn invoke(&mut self, p: Procedure, args: Vec<Value>, scope: usize, fuel: usize) -> (r:
        Result<Value, ErrorEval>)
        ensures
            outcome(r, final(self)@) == invoked(
                p,
                models(args@),
                scope as nat,
                old(self)@,
                fuel as nat,
            ),
        decreases fuel, 0nat, 0nat,
    {
        if fuel == 0 {
            return Err(ErrorEval::new(ErrorKind::DepthExceeded, "[eval]: Evaluation nests too deep"));
        }
        match p {
            Procedure::Form(form) => call_form(form, args, self, scope, fuel - 1),
            Procedure::Builtin(b) => call_builtin(b, args, self, scope, fuel - 1),
        }
    }

    /// Evaluates the items from position `from` on, in order.
    pub fn evaluate_each(
        &mut self,
        items: &Vec<Value>,
        from: usize,
        scope: usize,
        fuel: usize,
        context: &str,
    ) -> (r: Result<Vec<Value>, ErrorEval>)
        ensures
            gathered(r, final(self)@) == evaluated_each(
                models(items@),
                from as nat,
                Seq::empty(),
                scope as nat,
                old(self)@,
                fuel as nat,
                context@,
            ),
        decreases fuel, 1nat, items.len(),
    {
        let mut done: Vec<Value> = Vec::new();
        let mut i = from;
        assert(models(done@) =~= Seq::empty());
        while i < items.len()
            invariant
                evaluated_each(
                    models(items@),
                    i as nat,
                    models(done@),
                    scope as nat,
                    self@,
                    fuel as nat,
                    context@,
                ) == evaluated_each(
                    models(items@),
                    from as nat,
                    Seq::empty(),
                    scope as nat,
                    old(self)@,
                    fuel as nat,
                    context@,
                ),
            decreases items.len() - i,
        {
            let ghost before = models(done@);
            match self.evaluate(items[i].clone(), scope, fuel) {
                Err(e) => {
                    return Err(e.wrap(context));
                },
                Ok(v) => {
                    done.push(v);
                    assert(models(done@) =~= before.push(v@));
                },
            }
            i += 1;
        }
        Ok(done)
    }

    /// Evaluates the items from position `from` on, in order, and gives the
    /// value of the last; `last` where there is none.
    pub fn evaluate_last(
        &mut self,
        items: &Vec<Value>,
        from: usize,
        otherwise: Value,
        scope: usize,
        fuel: usize,
        context: &str,
    ) -> (r: Result<Value, ErrorEval>)
        ensures
            outcome(r, final(self)@) == evaluated_last(
                models(items@),
                from as nat,
                otherwise@,
                scope as nat,
                old(self)@,
                fuel as nat,
                context@,
            ),
        decreases fuel, 1nat, items.len(),
    {
        let mut last = otherwise;
        let mut i = from;
        while i < items.len()
            invariant
                evaluated_last(
                    models(items@),
                    i as nat,
                    last@,
                    scope as nat,
                    self@,
                    fuel as nat,
                    context@,
                ) == evaluated_last(
                    models(items@),
                    from as nat,
                    otherwise@,
                    scope as nat,
                    old(self)@,
                    fuel as nat,
                    context@,
                ),
            decreases items.len() - i,
        {
            match self.evaluate(items[i].clone(), scope, fuel) {
                Err(e) => {
                    return Err(e.wrap(context));
                },
                Ok(v) => {
                    last = v;
                },
            }
            i += 1;
        }
        Ok(last)
    }

    /// Enters a lambda: binds `params` to `args` in a new scope inside
    /// `captured` and evaluates `body` there.
    pub fn enter(
        &mut self,
        params: &Vec<String>,
        body: &Vec<Value>,
        captured: usize,
        args: Vec<Value>,
        fuel: usize,
        context: &str,
    ) -> (r: Result<Value, ErrorEval>)
        ensures
            outcome(r, final(self)@) == entered(
                texts(params@),
                models(body@),
                captured as nat,
                models(args@),
                old(self)@,
                fuel as nat,
                context@,
            ),
        decreases fuel, 2nat, 0nat,
    {
        match self.derive_from(captured, params, &args) {
            Err(e) => Err(e),
            Ok(child) => self.evaluate_last(body, 0, Value::NilValue, child, fuel, context),
        }
    }

    /// Applies `callee` to `args`: a procedure is called, a lambda is
    /// entered, anything else is an error of the given kind and message.
    pub fn call(
        &mut self,
        callee: &Value,
        args: Vec<Value>,
        scope: usize,
        fuel: usize,
        context: &str,
        otherwise_kind: ErrorKind,
        otherwise: &str,
    ) -> (r: Result<Value, ErrorEval>)
        ensures
            outcome(r, final(self)@) == called(
                callee@,
                models(args@),
                scope as nat,
                old(self)@,
                fuel as nat,
                context@,
                failure(otherwise_kind, otherwise@),
            ),
        decreases fuel, 3nat, 0nat,
    {
        match callee {
            Value::ProcedureValue(p) => self.invoke(*p, args, scope, fuel),
            Value::LambdaValue(params, body, captured) => {
                proof {
                    lemma_lambda_model(*callee);
                }
                self.enter(params, body, *captured, args, fuel, context)
            },
            _ => Err(ErrorEval::new(otherwise_kind, otherwise)),
        }
    }
}

} // verus!
