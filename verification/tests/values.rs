use mini_lisp_interpreter::error::ErrorKind;
use mini_lisp_interpreter::number::Number;
use mini_lisp_interpreter::procedure::{Builtin, Procedure, SpecialForm};
use mini_lisp_interpreter::value::Value;

fn number(n: i64) -> Value {
    Value::NumericValue(Number::from_integer(n).unwrap())
}

fn symbol(name: &str) -> Value {
    Value::SymbolValue(name.to_string())
}

fn pair(first: Value, rest: Value) -> Value {
    Value::PairValue(Box::new(first), Box::new(rest))
}

#[test]
fn atoms_are_written_as_they_are_read() {
    assert_eq!(Value::BooleanValue(true).to_string(), "#t");
    assert_eq!(Value::BooleanValue(false).to_string(), "#f");
    assert_eq!(number(42).to_string(), "42");
    assert_eq!(Value::NumericValue(Number { scaled: 2_500_000 }).to_string(), "2.5");
    assert_eq!(Value::StringValue("a b".to_string()).to_string(), "\"a b\"");
    assert_eq!(symbol("name").to_string(), "name");
    assert_eq!(Value::NilValue.to_string(), "()");
    assert_eq!(
        Value::ProcedureValue(Procedure::Builtin(Builtin::Car)).to_string(),
        "#<procedure>"
    );
    assert_eq!(
        Value::ProcedureValue(Procedure::Form(SpecialForm::Quote)).to_string(),
        "#<procedure>"
    );
}

#[test]
fn lists_are_written_between_parentheses() {
    let list = Value::from_vector(vec![number(1), number(2), number(3)]);
    assert_eq!(list.to_string(), "(1 2 3)");
    assert_eq!(Value::from_vector(vec![number(1)]).to_string(), "(1)");
    let nested = Value::from_vector(vec![list.clone(), Value::NilValue, symbol("x")]);
    assert_eq!(nested.to_string(), "((1 2 3) () x)");
}

#[test]
fn improper_lists_are_written_with_a_dot() {
    assert_eq!(pair(number(1), number(2)).to_string(), "(1 . 2)");
    assert_eq!(pair(symbol("a"), pair(symbol("b"), symbol("c"))).to_string(), "(a b . c)");
    assert_eq!(pair(number(1), Value::BooleanValue(false)).to_string(), "(1 . #f)");
    assert_eq!(pair(number(1), Value::StringValue("s".to_string())).to_string(), "(1 . \"s\")");
}

#[test]
fn lambdas_are_written_with_their_parameters_and_body() {
    let lambda = Value::LambdaValue(
        vec!["x".to_string(), "y".to_string()],
        vec![symbol("x"), Value::from_vector(vec![symbol("+"), symbol("x"), symbol("y")])],
        0,
    );
    assert_eq!(
        lambda.to_string(),
        "Lambda Expression with\nparam: x y \nbody: x (+ x y) \nenv: "
    );
}

#[test]
fn to_vector_gives_the_items_of_a_proper_list() {
    let list = pair(number(1), pair(symbol("a"), Value::NilValue));
    let items = list.to_vector().unwrap();
    assert_eq!(items.len(), 2);
    assert_eq!(items[0].to_string(), "1");
    assert_eq!(items[1].to_string(), "a");
    assert_eq!(Value::NilValue.to_vector().unwrap().len(), 0);
}

#[test]
fn to_vector_refuses_what_is_no_proper_list() {
    let error = pair(number(1), number(2)).to_vector().unwrap_err();
    assert_eq!(error.kind, ErrorKind::MalformedList);
    assert_eq!(error.index, 0);
    assert_eq!(
        error.to_string(),
        "0: [to_vector]: Invalid format when converting pairvalue to vector"
    );
    assert_eq!(number(1).to_vector().unwrap_err().kind, ErrorKind::MalformedList);
    assert_eq!(symbol("a").to_vector().unwrap_err().kind, ErrorKind::MalformedList);
}

#[test]
fn lists_and_sequences_convert_back_and_forth() {
    assert_eq!(Value::from_vector(vec![]).to_string(), "()");
    let list = pair(number(1), pair(pair(number(2), Value::NilValue), pair(number(3), Value::NilValue)));
    let again = Value::from_vector(list.to_vector().unwrap());
    assert_eq!(again.to_string(), "(1 (2) 3)");
    assert_eq!(again.to_string(), list.to_string());
    let items = Value::from_vector(vec![symbol("a"), symbol("b")]).to_vector().unwrap();
    assert_eq!(items.len(), 2);
    assert_eq!(items[0].to_string(), "a");
    assert_eq!(items[1].to_string(), "b");
}

#[test]
fn clones_hold_the_same() {
    let lambda = Value::LambdaValue(vec!["x".to_string()], vec![symbol("x")], 3);
    let value = pair(lambda, pair(Value::StringValue("s".to_string()), number(5)));
    assert_eq!(value.clone().to_string(), value.to_string());
}
