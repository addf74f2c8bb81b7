use mini_lisp_interpreter::error::ErrorKind;
use mini_lisp_interpreter::eval_env::{EvalEnv, DEFAULT_DEPTH, GLOBAL};
use mini_lisp_interpreter::number::Number;
use mini_lisp_interpreter::value::Value;

fn number(n: i64) -> Value {
    Value::NumericValue(Number::from_integer(n).unwrap())
}

fn found(env: &EvalEnv, scope: usize, name: &str) -> Option<String> {
    env.find_binding(scope, &name.to_string()).map(|v| v.to_string())
}

#[test]
fn a_new_environment_has_one_empty_scope() {
    let env = EvalEnv::new();
    assert_eq!(env.scopes.len(), 1);
    assert_eq!(env.scopes[GLOBAL].bindings.len(), 0);
    assert_eq!(env.scopes[GLOBAL].parent, None);
    assert_eq!(env.depth_limit, DEFAULT_DEPTH);
    assert_eq!(env.exit_code, None);
    assert_eq!(env.output, "");
    assert_eq!(found(&env, GLOBAL, "x"), None);
}

#[test]
fn binding_adds_or_overwrites_in_the_scope_itself() {
    let mut env = EvalEnv::new();
    env.bind(GLOBAL, "x".to_string(), number(1));
    env.bind(GLOBAL, "y".to_string(), number(2));
    env.bind(GLOBAL, "x".to_string(), number(3));
    assert_eq!(env.scopes[GLOBAL].bindings.len(), 2);
    assert_eq!(env.scopes[GLOBAL].bindings[0].name, "x");
    assert_eq!(found(&env, GLOBAL, "x"), Some("3".to_string()));
    assert_eq!(found(&env, GLOBAL, "y"), Some("2".to_string()));
    env.bind(7, "z".to_string(), number(1));
    assert_eq!(env.scopes.len(), 1);
    assert_eq!(found(&env, 7, "z"), None);
}

#[test]
fn derive_binds_by_position_inside_the_parent() {
    let mut env = EvalEnv::new();
    env.bind(GLOBAL, "x".to_string(), number(1));
    env.bind(GLOBAL, "y".to_string(), number(2));
    let child = env
        .derive(GLOBAL, vec!["x".to_string(), "z".to_string()], vec![number(10), number(30)])
        .unwrap();
    assert_eq!(child, 1);
    assert_eq!(env.scopes[child].parent, Some(GLOBAL));
    assert_eq!(found(&env, child, "x"), Some("10".to_string()));
    assert_eq!(found(&env, child, "y"), Some("2".to_string()));
    assert_eq!(found(&env, child, "z"), Some("30".to_string()));
    assert_eq!(found(&env, GLOBAL, "x"), Some("1".to_string()));
    assert_eq!(found(&env, GLOBAL, "z"), None);
    assert_eq!(env.find_local(child, &"y".to_string()).map(|v| v.to_string()), None);
    assert_eq!(env.find_local(child, &"z".to_string()).map(|v| v.to_string()), Some("30".to_string()));
}

#[test]
fn derive_keeps_the_last_of_two_parameters_of_one_name() {
    let mut env = EvalEnv::new();
    let child =
        env.derive(GLOBAL, vec!["x".to_string(), "x".to_string()], vec![number(1), number(2)]).unwrap();
    assert_eq!(env.scopes[child].bindings.len(), 1);
    assert_eq!(found(&env, child, "x"), Some("2".to_string()));
}

#[test]
fn derive_refuses_a_wrong_number_of_arguments() {
    let mut env = EvalEnv::new();
    let few = env.derive(GLOBAL, vec!["x".to_string()], vec![]).unwrap_err();
    assert_eq!(few.kind, ErrorKind::ArityError);
    assert_eq!(few.message, "0: Missing parameters.");
    let many = env.derive(GLOBAL, vec![], vec![number(1)]).unwrap_err();
    assert_eq!(many.kind, ErrorKind::ArityError);
    assert_eq!(many.message, "0: Too many parameters.");
    assert_eq!(env.scopes.len(), 1);
}

#[test]
fn derive_refuses_a_parent_that_does_not_exist() {
    let mut env = EvalEnv::new();
    let error = env.derive(5, vec![], vec![]).unwrap_err();
    assert_eq!(error.kind, ErrorKind::InvalidCallTarget);
    assert_eq!(env.scopes.len(), 1);
}

#[test]
fn a_binding_made_later_is_seen_from_inside() {
    let mut env = EvalEnv::new();
    let child = env.derive(GLOBAL, vec![], vec![]).unwrap();
    assert_eq!(found(&env, child, "late"), None);
    env.bind(GLOBAL, "late".to_string(), number(9));
    assert_eq!(found(&env, child, "late"), Some("9".to_string()));
    env.bind(child, "late".to_string(), number(1));
    assert_eq!(found(&env, GLOBAL, "late"), Some("9".to_string()));
}

#[test]
fn output_is_taken_once() {
    let mut env = EvalEnv::new();
    env.print("a");
    env.print("b\n");
    assert_eq!(env.take_output(), "ab\n");
    assert_eq!(env.take_output(), "");
    env.request_exit(4);
    assert_eq!(env.exit_code, Some(4));
}
