//! The values that evaluation works on, their mathematical model, how they
//! are written, and the conversion between lists and sequences.

use vstd::prelude::*;
use vstd::string::StringExecFns;
use crate::error::{failure, ErrorEval, ErrorKind};
use crate::number::{integral, number_text, Number};
use crate::procedure::Procedure;

verus! {

/// A runtime value.
#[derive(Debug)]
pub enum Value {
    BooleanValue(bool),
    NumericValue(Number),
    StringValue(String),
    NilValue,
    SymbolValue(String),
    PairValue(Box<Value>, Box<Value>),
    ProcedureValue(Procedure),
    /// A closure: the parameter names, the body expressions and the scope it
    /// was made in.
    LambdaValue(Vec<String>, Vec<Value>, usize),
}

/// The mathematical model of a [`Value`]: numbers are counts of millionths,
/// texts are sequences of characters.
pub enum Datum {
    Boolean(bool),
    Numeric(int),
    Text(Seq<char>),
    Nil,
    Symbol(Seq<char>),
    Pair(Box<Datum>, Box<Datum>),
    Procedure(Procedure),
    Lambda(Seq<Seq<char>>, Seq<Datum>, nat),
}

impl Value {
    /// The model of this value.
    pub open spec fn model(&self) -> Datum
        decreases self,
    {
        proof {
            broadcast use vstd::std_specs::vec::axiom_vec_index_decreases;

        }
        match self {
            Value::BooleanValue(b) => Datum::Boolean(*b),
            Value::NumericValue(n) => Datum::Numeric(n@),
            Value::StringValue(s) => Datum::Text(s@),
            Value::NilValue => Datum::Nil,
            Value::SymbolValue(s) => Datum::Symbol(s@),
            Value::PairValue(a, d) => Datum::Pair(Box::new((**a).model()), Box::new((**d).model())),
            Value::ProcedureValue(p) => Datum::Procedure(*p),
            Value::LambdaValue(params, body, scope) => Datum::Lambda(
                Seq::new(params.len() as nat, |i: int| params[i]@),
                Seq::new(
                    body.len() as nat,
                    |i: int|
                        if 0 <= i < body.len() {
                            body[i].model()
                        } else {
                            Datum::Nil
                        },
                ),
                *scope as nat,
            ),
        }
    }
}

impl View for Value {
    type V = Datum;

    open spec fn view(&self) -> Datum {
        self.model()
    }
}

impl DeepView for Value {
    type V = Datum;

    open spec fn deep_view(&self) -> Datum {
        self.model()
    }
}

/// The models of a sequence of values.
pub open spec fn models(items: Seq<Value>) -> Seq<Datum> {
    Seq::new(items.len(), |i: int| items[i]@)
}

/// The characters of a sequence of strings.
pub open spec fn texts(items: Seq<String>) -> Seq<Seq<char>> {
    Seq::new(items.len(), |i: int| items[i]@)
}

/// The model of a lambda value is made of the models of its parts.
pub proof fn lemma_lambda_model(v: Value)
    requires
        v is LambdaValue,
    ensures
        v@ == Datum::Lambda(texts(v->LambdaValue_0@), models(v->LambdaValue_1@), v->LambdaValue_2 as nat),
{
    assert(v@->Lambda_0 =~= texts(v->LambdaValue_0@));
    assert(v@->Lambda_1 =~= models(v->LambdaValue_1@));
}

/// The list whose items are `items` and whose last tail is `tail`.
pub open spec fn list_onto(items: Seq<Datum>, tail: Datum) -> Datum
    decreases items.len(),
{
    if items.len() == 0 {
        tail
    } else {
        Datum::Pair(Box::new(items[0]), Box::new(list_onto(items.drop_first(), tail)))
    }
}

/// The proper list of `items`; the empty sequence gives `Nil`.
pub open spec fn from_sequence(items: Seq<Datum>) -> Datum {
    list_onto(items, Datum::Nil)
}

/// The items of a proper list; none for anything that does not end in `Nil`.
pub open spec fn to_sequence(d: Datum) -> Option<Seq<Datum>>
    decreases d,
{
    match d {
        Datum::Nil => Some(Seq::<Datum>::empty()),
        Datum::Pair(first, rest) => match to_sequence(*rest) {
            Some(items) => Some(seq![*first] + items),
            None => None,
        },
        _ => None,
    }
}

/// A proper list that is a pair has at least one item, and the first of the
/// pair is its first item.
pub proof fn lemma_pair_items(d: Datum)
    requires
        d is Pair,
    ensures
        match to_sequence(d) {
            Some(items) => items.len() >= 1 && items[0] == *d->Pair_0 && to_sequence(*d->Pair_1)
                == Some(items.drop_first()),
            None => to_sequence(*d->Pair_1) is None,
        },
{
    match to_sequence(*d->Pair_1) {
        Some(rest) => {
            assert((seq![*d->Pair_0] + rest).drop_first() =~= rest);
        },
        None => {},
    }
}

/// Taking the last item off a sequence and putting it in front of the tail
/// builds the same list.
pub proof fn lemma_list_onto_last(items: Seq<Datum>, tail: Datum)
    requires
        items.len() > 0,
    ensures
        list_onto(items, tail) == list_onto(
            items.drop_last(),
            Datum::Pair(Box::new(items.last()), Box::new(tail)),
        ),
    decreases items.len(),
{
    let cell = Datum::Pair(Box::new(items.last()), Box::new(tail));
    if items.len() == 1 {
        assert(list_onto(items.drop_first(), tail) == tail);
        assert(list_onto(items.drop_last(), cell) == cell);
    } else {
        lemma_list_onto_last(items.drop_first(), tail);
        assert(items.drop_first().drop_last() =~= items.drop_last().drop_first());
        assert(items.drop_first().last() == items.last());
        assert(items.drop_last()[0] == items[0]);
        assert(list_onto(items.drop_last(), cell) == Datum::Pair(
            Box::new(items[0]),
            Box::new(list_onto(items.drop_last().drop_first(), cell)),
        ));
    }
}

/// Each name followed by a space.
pub open spec fn names_text(names: Seq<Seq<char>>) -> Seq<char>
    decreases names.len(),
{
    if names.len() == 0 {
        Seq::<char>::empty()
    } else {
        names_text(names.drop_last()) + names.last() + seq![' ']
    }
}

/// How a value is written. Booleans are `#t` and `#f`, an integral number has
/// no point, a string stands between double quotes, `Nil` is `()`, a list is
/// its items between parentheses with a ` . ` before a last tail that is not
/// `Nil`, and a built-in procedure is `#<procedure>`.
pub open spec fn rendered(d: Datum) -> Seq<char>
    decreases d, 0nat,
{
    match d {
        Datum::Boolean(b) => if b {
            "#t"@
        } else {
            "#f"@
        },
        Datum::Numeric(n) => number_text(n),
        Datum::Text(s) => seq!['"'] + s + seq!['"'],
        Datum::Nil => "()"@,
        Datum::Symbol(s) => s,
        Datum::Pair(first, rest) => seq!['('] + rendered(*first) + rendered_tail(*rest),
        Datum::Procedure(_) => "#<procedure>"@,
        Datum::Lambda(params, body, _) => "Lambda Expression with\nparam: "@ + names_text(params)
            + "\nbody: "@ + rendered_items(body, body.len()) + "\nenv: "@,
    }
}

/// How the rest of a list is written, after its first item.
pub open spec fn rendered_tail(d: Datum) -> Seq<char>
    decreases d, 1nat,
{
    match d {
        Datum::Nil => seq![')'],
        Datum::Pair(first, rest) => seq![' '] + rendered(*first) + rendered_tail(*rest),
        _ => " . "@ + rendered(d) + seq![')'],
    }
}

/// The first `count` items, each as it is written and followed by a space.
pub open spec fn rendered_items(items: Seq<Datum>, count: nat) -> Seq<char>
    decreases items, count,
{
    if count == 0 || count > items.len() {
        Seq::<char>::empty()
    } else {
        rendered_items(items, (count - 1) as nat) + rendered(items[count - 1]) + seq![' ']
    }
}

/// Whether a number has no fractional part.
pub fn is_integer(num: &Number) -> (r: bool)
    ensures
        r == integral(num@),
{
    num.is_integral()
}

impl Clone for Value {
    #[verifier::loop_isolation(false)]
    fn clone(&self) -> (r: Value)
        ensures
            r@ == self@,
        decreases self,
    {
        broadcast use vstd::std_specs::vec::axiom_vec_index_decreases;

        match self {
            Value::BooleanValue(b) => Value::BooleanValue(*b),
            Value::NumericValue(n) => Value::NumericValue(*n),
            Value::StringValue(s) => Value::StringValue(s.clone()),
            Value::NilValue => Value::NilValue,
            Value::SymbolValue(s) => Value::SymbolValue(s.clone()),
            Value::PairValue(a, d) => Value::PairValue(
                Box::new((**a).clone()),
                Box::new((**d).clone()),
            ),
            Value::ProcedureValue(p) => Value::ProcedureValue(*p),
            Value::LambdaValue(params, body, scope) => {
                let mut names: Vec<String> = Vec::new();
                let mut i: usize = 0;
                while i < params.len()
                    invariant
                        i <= params.len(),
                        names.len() == i,
                        forall|j: int| 0 <= j < i ==> names[j]@ == params[j]@,
                    decreases params.len() - i,
                {
                    names.push(params[i].clone());
                    i += 1;
                }
                let mut items: Vec<Value> = Vec::new();
                let mut k: usize = 0;
                while k < body.len()
                    invariant
                        k <= body.len(),
                        items.len() == k,
                        forall|j: int| 0 <= j < k ==> items[j]@ == body[j]@,
                    decreases body.len() - k,
                {
                    items.push(body[k].clone());
                    k += 1;
                }
                let r = Value::LambdaValue(names, items, *scope);
                assert(r@->Lambda_0 =~= self@->Lambda_0);
                assert(r@->Lambda_1 =~= self@->Lambda_1);
                r
            },
        }
    }
}

/// The message of the error that `to_vector` reports.
pub open spec fn improper_list_message() -> Seq<char> {
    "[to_vector]: Invalid format when converting pairvalue to vector"@
}

impl Value {
    /// Appends the value, as it is written, to `out`.
    #[verifier::loop_isolation(false)]
    pub fn write(&self, out: &mut String)
        ensures
            final(out)@ == old(out)@ + rendered(self@),
        decreases self, 0nat,
    {
        broadcast use vstd::std_specs::vec::axiom_vec_index_decreases;

        match self {
            Value::BooleanValue(b) => {
                if *b {
                    out.append("#t");
                } else {
                    out.append("#f");
                }
            },
            Value::NumericValue(n) => {
                n.write(out);
            },
            Value::StringValue(s) => {
                out.push('"');
                out.append(s.as_str());
                out.push('"');
                assert(out@ =~= old(out)@ + (seq!['"'] + s@ + seq!['"']));
            },
            Value::NilValue => {
                out.append("()");
            },
            Value::SymbolValue(s) => {
                out.append(s.as_str());
            },
            Value::PairValue(first, rest) => {
                out.push('(');
                (**first).write(out);
                (**rest).write_tail(out);
                assert(out@ =~= old(out)@ + (seq!['('] + rendered(first@) + rendered_tail(rest@)));
            },
            Value::ProcedureValue(_) => {
                out.append("#<procedure>");
            },
            Value::LambdaValue(params, body, _) => {
                out.append("Lambda Expression with\nparam: ");
                let ghost names = self@->Lambda_0;
                let ghost items = self@->Lambda_1;
                let ghost head = out@;
                let mut i: usize = 0;
                while i < params.len()
                    invariant
                        i <= params.len(),
                        out@ == head + names_text(names.take(i as int)),
                    decreases params.len() - i,
                {
                    out.append(params[i].as_str());
                    out.push(' ');
                    assert(names.take(i + 1).drop_last() =~= names.take(i as int));
                    assert(names.take(i + 1).last() == params[i as int]@);
                    assert(out@ =~= head + names_text(names.take(i + 1)));
                    i += 1;
                }
                assert(names.take(i as int) =~= names);
                out.append("\nbody: ");
                let ghost middle = out@;
                let mut k: usize = 0;
                while k < body.len()
                    invariant
                        k <= body.len(),
                        out@ == middle + rendered_items(items, k as nat),
                    decreases body.len() - k,
                {
                    body[k].write(out);
                    out.push(' ');
                    assert(items[k as int] == body[k as int]@);
                    assert(out@ =~= middle + rendered_items(items, (k + 1) as nat));
                    k += 1;
                }
                out.append("\nenv: ");
                assert(out@ =~= old(out)@ + rendered(self@));
            },
        }
    }

    #[verifier::loop_isolation(false)]
    fn write_tail(&self, out: &mut String)
        ensures
            final(out)@ == old(out)@ + rendered_tail(self@),
        decreases self, 1nat,
    {
        match self {
            Value::NilValue => {
                out.push(')');
                assert(out@ =~= old(out)@ + seq![')']);
            },
            Value::PairValue(first, rest) => {
                out.push(' ');
                (**first).write(out);
                (**rest).write_tail(out);
                assert(out@ =~= old(out)@ + (seq![' '] + rendered(first@) + rendered_tail(rest@)));
            },
            _ => {
                out.append(" . ");
                self.write(out);
                out.push(')');
                assert(out@ =~= old(out)@ + (" . "@ + rendered(self@) + seq![')']));
            },
        }
    }

    /// The value as it is written.
    pub fn to_string(&self) -> (s: String)
        ensures
            s@ == rendered(self@),
    {
        let mut out = String::new();
        self.write(&mut out);
        assert(out@ =~= rendered(self@));
        out
    }

    /// The items of a proper list, in order.
    pub fn to_vector(&self) -> (r: Result<Vec<Value>, ErrorEval>)
        ensures
            match r {
                Ok(items) => to_sequence(self@) == Some(models(items@)),
                Err(e) => to_sequence(self@) is None && e@ == failure(
                    ErrorKind::MalformedList,
                    improper_list_message(),
                ),
            },
    {
        let mut items: Vec<Value> = Vec::new();
        let mut cur: &Value = self;
        assert(models(items@) =~= Seq::<Datum>::empty());
        loop
            invariant
                to_sequence(self@) == (match to_sequence(cur@) {
                    Some(rest) => Some(models(items@) + rest),
                    None => None,
                }),
            decreases cur,
        {
            match cur {
                Value::NilValue => {
                    assert(models(items@) + Seq::<Datum>::empty() =~= models(items@));
                    return Ok(items);
                },
                Value::PairValue(first, rest) => {
                    let ghost before = models(items@);
                    items.push((**first).clone());
                    assert(models(items@) =~= before + seq![first@]);
                    assert forall|tail: Seq<Datum>|
                        #[trigger] (before + (seq![first@] + tail)) == models(items@) + tail by {
                        assert(before + (seq![first@] + tail) =~= models(items@) + tail);
                    }
                    cur = &**rest;
                },
                _ => {
                    return Err(
                        ErrorEval::new(
                            ErrorKind::MalformedList,
                            "[to_vector]: Invalid format when converting pairvalue to vector",
                        ),
                    );
                },
            }
        }
    }

    /// The proper list of `items`.
    pub fn from_vector(items: Vec<Value>) -> (r: Value)
        ensures
            r@ == from_sequence(models(items@)),
    {
        let ghost all = models(items@);
        let mut items = items;
        let mut result = Value::NilValue;
        while items.len() > 0
            invariant
                list_onto(models(items@), result@) == from_sequence(all),
            decreases items.len(),
        {
            let ghost before = models(items@);
            let ghost tail = result@;
            let last = items.pop().unwrap();
            proof {
                lemma_list_onto_last(before, tail);
                assert(models(items@) =~= before.drop_last());
            }
            result = Value::PairValue(Box::new(last), Box::new(result));
        }
        result
    }
}

} // verus!
