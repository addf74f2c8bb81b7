use mini_lisp_interpreter::error::{ErrorEval, ErrorKind};
use mini_lisp_interpreter::eval_env::{EvalEnv, GLOBAL};
use mini_lisp_interpreter::parse::Parser;
use mini_lisp_interpreter::special_forms::{
    and_form, begin_form, cond_form, define_form, if_form, lambda_form, let_form, or_form,
    quasiquote_form, quote_form, unquote_form,
};
use mini_lisp_interpreter::tokenizer::Tokenizer;
use mini_lisp_interpreter::value::Value;

fn read(source: &str) -> Value {
    let tokens = Tokenizer::new(source.to_string()).tokenize().unwrap();
    Parser::new(tokens).parse().unwrap()
}

fn operands(source: &str) -> Vec<Value> {
    read(source).to_vector().unwrap()
}

fn text(r: Result<Value, ErrorEval>) -> String {
    match r {
        Ok(v) => v.to_string(),
        Err(e) => panic!("failed: {}", e.to_string()),
    }
}

fn kind(r: Result<Value, ErrorEval>) -> ErrorKind {
    match r {
        Ok(v) => panic!("gave {}", v.to_string()),
        Err(e) => e.kind,
    }
}

fn run(env: &mut EvalEnv, source: &str) -> String {
    text(env.eval(read(source)))
}

#[test]
fn quote_form_gives_the_first_operand() {
    assert_eq!(text(quote_form(operands("((a . b))"))), "(a . b)");
    assert_eq!(text(quote_form(operands("(a b)"))), "a");
    assert_eq!(kind(quote_form(operands("()"))), ErrorKind::ArityError);
}

#[test]
fn define_form_binds_in_the_current_scope_only() {
    let mut env = EvalEnv::new();
    let child = env.derive(GLOBAL, vec![], vec![]).unwrap();
    assert_eq!(text(define_form(operands("(x (+ 1 2))"), &mut env, child, 50)), "()");
    assert_eq!(env.find_binding(child, &"x".to_string()).unwrap().to_string(), "3");
    assert!(env.find_binding(GLOBAL, &"x".to_string()).is_none());
    assert_eq!(text(define_form(operands("(x 4)"), &mut env, child, 50)), "()");
    assert_eq!(env.scopes[child].bindings.len(), 1);
    assert_eq!(env.find_binding(child, &"x".to_string()).unwrap().to_string(), "4");
}

#[test]
fn define_form_makes_procedures() {
    let mut env = EvalEnv::new();
    assert_eq!(run(&mut env, "(define (twice x) (+ x x))"), "()");
    assert_eq!(run(&mut env, "(twice 4)"), "8");
    assert_eq!(run(&mut env, "(define (seven) 7)"), "()");
    assert_eq!(run(&mut env, "(seven)"), "7");
}

#[test]
fn define_form_refuses_other_shapes() {
    let mut env = EvalEnv::new();
    assert_eq!(kind(define_form(operands("(x)"), &mut env, GLOBAL, 50)), ErrorKind::ArityError);
    assert_eq!(
        kind(define_form(operands("(5 1)"), &mut env, GLOBAL, 50)),
        ErrorKind::MalformedSpecialForm
    );
    assert_eq!(
        kind(define_form(operands("((5 x) 1)"), &mut env, GLOBAL, 50)),
        ErrorKind::MalformedSpecialForm
    );
    let error = define_form(operands("(x nowhere)"), &mut env, GLOBAL, 50).unwrap_err();
    assert_eq!(error.kind, ErrorKind::UnboundSymbol);
    assert_eq!(error.index, 1);
    assert_eq!(
        error.message,
        "1: Special Form <define>: Fail to evaluate a value\n0: [eval]: Variable nowhere not defined"
    );
    assert!(env.find_binding(GLOBAL, &"x".to_string()).is_none());
}

#[test]
fn if_form_takes_the_else_branch_only_for_false() {
    let mut env = EvalEnv::new();
    assert_eq!(text(if_form(operands("(#f 1 2)"), &mut env, GLOBAL, 50)), "2");
    assert_eq!(text(if_form(operands("(#t 1 2)"), &mut env, GLOBAL, 50)), "1");
    assert_eq!(text(if_form(operands("(0 1 2)"), &mut env, GLOBAL, 50)), "1");
    assert_eq!(text(if_form(operands("('() 1 2)"), &mut env, GLOBAL, 50)), "1");
    assert_eq!(text(if_form(operands("(#t 1)"), &mut env, GLOBAL, 50)), "1");
    assert_eq!(text(if_form(operands("(nowhere 1 2)"), &mut env, GLOBAL, 50)), "1");
    assert_eq!(kind(if_form(operands("(#f 1)"), &mut env, GLOBAL, 50)), ErrorKind::ArityError);
    assert_eq!(kind(if_form(operands("(#t)"), &mut env, GLOBAL, 50)), ErrorKind::ArityError);
    assert_eq!(kind(if_form(operands("(#t nowhere 2)"), &mut env, GLOBAL, 50)), ErrorKind::UnboundSymbol);
}

#[test]
fn and_form_stops_at_the_first_false() {
    let mut env = EvalEnv::new();
    assert_eq!(text(and_form(operands("()"), &mut env, GLOBAL, 50)), "#t");
    assert_eq!(text(and_form(operands("(#t #t)"), &mut env, GLOBAL, 50)), "#t");
    assert_eq!(text(and_form(operands("(1 2 3)"), &mut env, GLOBAL, 50)), "3");
    assert_eq!(text(and_form(operands("(1 #f (define reached 1))"), &mut env, GLOBAL, 50)), "#f");
    assert!(env.find_binding(GLOBAL, &"reached".to_string()).is_none());
    assert_eq!(text(and_form(operands("(nowhere 2)"), &mut env, GLOBAL, 50)), "2");
    assert_eq!(text(and_form(operands("(1 nowhere)"), &mut env, GLOBAL, 50)), "()");
}

#[test]
fn and_form_evaluates_each_operand_once() {
    let mut env = EvalEnv::new();
    assert_eq!(text(and_form(operands("((print 1))"), &mut env, GLOBAL, 50)), "()");
    assert_eq!(env.take_output(), "1\n");
}

#[test]
fn or_form_stops_at_the_first_that_is_not_false() {
    let mut env = EvalEnv::new();
    assert_eq!(text(or_form(operands("()"), &mut env, GLOBAL, 50)), "#f");
    assert_eq!(text(or_form(operands("(#f 5)"), &mut env, GLOBAL, 50)), "5");
    assert_eq!(text(or_form(operands("(#f #f)"), &mut env, GLOBAL, 50)), "#f");
    assert_eq!(text(or_form(operands("(1 (define reached 1))"), &mut env, GLOBAL, 50)), "1");
    assert!(env.find_binding(GLOBAL, &"reached".to_string()).is_none());
    assert_eq!(text(or_form(operands("(#f nowhere 3)"), &mut env, GLOBAL, 50)), "()");
}

#[test]
fn lambda_form_captures_the_scope_and_drops_nil_from_the_body() {
    let lambda = lambda_form(operands("((x y) () (+ x y) ())"), 3).unwrap();
    match lambda {
        Value::LambdaValue(params, body, scope) => {
            assert_eq!(params, vec!["x".to_string(), "y".to_string()]);
            assert_eq!(body.len(), 1);
            assert_eq!(body[0].to_string(), "(+ x y)");
            assert_eq!(scope, 3);
        }
        other => panic!("no lambda: {}", other.to_string()),
    }
    match lambda_form(operands("(() 1)"), 0).unwrap() {
        Value::LambdaValue(params, body, _) => {
            assert_eq!(params.len(), 0);
            assert_eq!(body.len(), 1);
        }
        other => panic!("no lambda: {}", other.to_string()),
    }
    assert_eq!(kind(lambda_form(operands("((x))"), 0)), ErrorKind::ArityError);
    assert_eq!(kind(lambda_form(operands("((x . y) x)"), 0)), ErrorKind::MalformedList);
    assert_eq!(kind(lambda_form(operands("(x x)"), 0)), ErrorKind::MalformedList);
}

#[test]
fn lambdas_with_an_empty_body_give_nil() {
    let mut env = EvalEnv::new();
    assert_eq!(run(&mut env, "((lambda () ()))"), "()");
}

#[test]
fn cond_form_takes_the_first_clause_that_holds() {
    let mut env = EvalEnv::new();
    assert_eq!(text(cond_form(operands("((#f 1) (#t 2) (#t 3))"), &mut env, GLOBAL, 50)), "2");
    assert_eq!(text(cond_form(operands("((#f 1) (else 2 3))"), &mut env, GLOBAL, 50)), "3");
    assert_eq!(text(cond_form(operands("((#f 1))"), &mut env, GLOBAL, 50)), "()");
    assert_eq!(text(cond_form(operands("()"), &mut env, GLOBAL, 50)), "()");
    assert_eq!(text(cond_form(operands("((5))"), &mut env, GLOBAL, 50)), "5");
    assert_eq!(text(cond_form(operands("((else))"), &mut env, GLOBAL, 50)), "else");
    assert_eq!(
        kind(cond_form(operands("((else 1) (#t 2))"), &mut env, GLOBAL, 50)),
        ErrorKind::MalformedSpecialForm
    );
    assert_eq!(
        kind(cond_form(operands("(5)"), &mut env, GLOBAL, 50)),
        ErrorKind::MalformedSpecialForm
    );
    assert_eq!(kind(cond_form(operands("((nowhere 1))"), &mut env, GLOBAL, 50)), ErrorKind::UnboundSymbol);
    assert_eq!(kind(cond_form(operands("((#t nowhere))"), &mut env, GLOBAL, 50)), ErrorKind::UnboundSymbol);
    assert_eq!(kind(cond_form(operands("((#t . 1))"), &mut env, GLOBAL, 50)), ErrorKind::MalformedList);
}

#[test]
fn cond_form_evaluates_the_condition_once() {
    let mut env = EvalEnv::new();
    assert_eq!(text(cond_form(operands("(((begin (print 1) #t) 2))"), &mut env, GLOBAL, 50)), "2");
    assert_eq!(env.take_output(), "1\n");
}

#[test]
fn begin_form_gives_the_last_value() {
    let mut env = EvalEnv::new();
    assert_eq!(text(begin_form(operands("((define a 1) (+ a 1))"), &mut env, GLOBAL, 50)), "2");
    assert_eq!(kind(begin_form(operands("()"), &mut env, GLOBAL, 50)), ErrorKind::ArityError);
    assert_eq!(kind(begin_form(operands("(1 nowhere 2)"), &mut env, GLOBAL, 50)), ErrorKind::UnboundSymbol);
}

#[test]
fn let_form_binds_all_names_at_once_in_one_new_scope() {
    let mut env = EvalEnv::new();
    run(&mut env, "(define x 1)");
    assert_eq!(text(let_form(operands("(((x 10) (y x)) (+ x y))"), &mut env, GLOBAL, 50)), "11");
    assert_eq!(env.scopes.len(), 2);
    assert_eq!(run(&mut env, "x"), "1");
    assert_eq!(text(let_form(operands("(((x 10)))"), &mut env, GLOBAL, 50)), "()");
    assert_eq!(text(let_form(operands("(() 5)"), &mut env, GLOBAL, 50)), "5");
    assert_eq!(text(let_form(operands("(((x 2)) (define x 3) x)"), &mut env, GLOBAL, 50)), "3");
    assert_eq!(run(&mut env, "x"), "1");
}

#[test]
fn let_form_refuses_other_shapes() {
    let mut env = EvalEnv::new();
    assert_eq!(kind(let_form(operands("()"), &mut env, GLOBAL, 50)), ErrorKind::ArityError);
    assert_eq!(kind(let_form(operands("(5 1)"), &mut env, GLOBAL, 50)), ErrorKind::MalformedSpecialForm);
    assert_eq!(kind(let_form(operands("((x) 1)"), &mut env, GLOBAL, 50)), ErrorKind::MalformedSpecialForm);
    assert_eq!(kind(let_form(operands("(((x)) 1)"), &mut env, GLOBAL, 50)), ErrorKind::MalformedSpecialForm);
    assert_eq!(
        kind(let_form(operands("(((x 1 2)) 1)"), &mut env, GLOBAL, 50)),
        ErrorKind::MalformedSpecialForm
    );
    assert_eq!(kind(let_form(operands("(((x . 1)) 1)"), &mut env, GLOBAL, 50)), ErrorKind::MalformedList);
    assert_eq!(kind(let_form(operands("(((x nowhere)) 1)"), &mut env, GLOBAL, 50)), ErrorKind::UnboundSymbol);
    assert_eq!(kind(let_form(operands("(((x 1)) nowhere)"), &mut env, GLOBAL, 50)), ErrorKind::UnboundSymbol);
}

#[test]
fn quasiquote_form_evaluates_what_is_unquoted() {
    let mut env = EvalEnv::new();
    assert_eq!(
        text(quasiquote_form(operands("((1 (unquote (+ 1 1)) (a b) c))"), &mut env, GLOBAL, 50)),
        "(1 2 (a b) c)"
    );
    assert_eq!(text(quasiquote_form(operands("(())"), &mut env, GLOBAL, 50)), "()");
    assert_eq!(
        kind(quasiquote_form(operands("((1 (quasiquote 2)))"), &mut env, GLOBAL, 50)),
        ErrorKind::MalformedSpecialForm
    );
    assert_eq!(kind(quasiquote_form(operands("()"), &mut env, GLOBAL, 50)), ErrorKind::ArityError);
    assert_eq!(kind(quasiquote_form(operands("(5)"), &mut env, GLOBAL, 50)), ErrorKind::MalformedList);
    assert_eq!(
        kind(quasiquote_form(operands("(((unquote)))"), &mut env, GLOBAL, 50)),
        ErrorKind::ArityError
    );
    assert_eq!(
        kind(quasiquote_form(operands("(((unquote 1 2)))"), &mut env, GLOBAL, 50)),
        ErrorKind::ArityError
    );
    assert_eq!(
        kind(quasiquote_form(operands("(((unquote . 1)))"), &mut env, GLOBAL, 50)),
        ErrorKind::MalformedList
    );
}

#[test]
fn unquote_form_evaluates_its_one_operand() {
    let mut env = EvalEnv::new();
    assert_eq!(text(unquote_form(operands("((+ 1 2))"), &mut env, GLOBAL, 50)), "3");
    assert_eq!(kind(unquote_form(operands("()"), &mut env, GLOBAL, 50)), ErrorKind::ArityError);
    assert_eq!(kind(unquote_form(operands("(1 2)"), &mut env, GLOBAL, 50)), ErrorKind::ArityError);
}

#[test]
fn lexical_bindings_shadow_forms_and_builtins() {
    let mut env = EvalEnv::new();
    run(&mut env, "(define (car x) 0)");
    assert_eq!(run(&mut env, "(car '(1 2))"), "0");
    run(&mut env, "(define (if a b c) 7)");
    assert_eq!(run(&mut env, "(if #f 1 2)"), "7");
    run(&mut env, "(define q quote)");
    assert_eq!(run(&mut env, "(q 5)"), "5");
    run(&mut env, "(define cdr 5)");
    assert_eq!(run(&mut env, "(cdr '(1 2))"), "(2)");
}

#[test]
fn heads_decide_how_an_application_is_treated() {
    let mut env = EvalEnv::new();
    assert_eq!(run(&mut env, "((lambda (x) (* x 2)) 4)"), "8");
    assert_eq!(run(&mut env, "((if #t + -) 5 3)"), "8");
    run(&mut env, "(define add +)");
    assert_eq!(run(&mut env, "(add 1 2)"), "3");
    assert_eq!(run(&mut env, "car"), "#<procedure>");
    assert_eq!(run(&mut env, "quote"), "#<procedure>");
    assert_eq!(run(&mut env, "else"), "else");
    let unevaluated = Value::from_vector(vec![
        Value::LambdaValue(vec!["x".to_string()], vec![Value::SymbolValue("x".to_string())], GLOBAL),
        Value::SymbolValue("nowhere".to_string()),
    ]);
    assert_eq!(text(env.eval(unevaluated)), "nowhere");
}

#[test]
fn evaluation_needs_depth() {
    let mut env = EvalEnv::new();
    assert_eq!(kind(env.evaluate(read("1"), GLOBAL, 0)), ErrorKind::DepthExceeded);
    assert_eq!(text(env.evaluate(read("1"), GLOBAL, 1)), "1");
    assert_eq!(text(env.evaluate(read("'x"), GLOBAL, 1)), "x");
    assert_eq!(kind(env.evaluate(read("(+ 1 2)"), GLOBAL, 1)), ErrorKind::DepthExceeded);
    assert_eq!(text(env.evaluate(read("(+ 1 2)"), GLOBAL, 2)), "3");
    assert_eq!(kind(env.eval(Value::NilValue)), ErrorKind::InvalidCallTarget);
}

#[test]
fn closures_over_scopes_that_do_not_exist_are_refused() {
    let mut env = EvalEnv::new();
    let call = Value::from_vector(vec![Value::LambdaValue(vec![], vec![], 9)]);
    assert_eq!(kind(env.eval(call)), ErrorKind::InvalidCallTarget);
    assert_eq!(env.scopes.len(), 1);
}

#[test]
fn errors_that_halt_are_never_passed_over() {
    let mut env = EvalEnv::new();
    run(&mut env, "(define (loop n) (loop n))");
    assert_eq!(kind(env.eval(read("(if (loop 1) 1 2)"))), ErrorKind::DepthExceeded);
    assert_eq!(kind(env.eval(read("(and (loop 1) 2)"))), ErrorKind::DepthExceeded);
    assert_eq!(kind(env.eval(read("(and 1 (loop 1))"))), ErrorKind::DepthExceeded);
    assert_eq!(kind(env.eval(read("(or (loop 1) 2)"))), ErrorKind::DepthExceeded);
    assert_eq!(kind(env.eval(read("(not '(loop 1))"))), ErrorKind::DepthExceeded);
    assert_eq!(kind(env.eval(read("(if (exit 3) 1 2)"))), ErrorKind::Exit);
    assert_eq!(env.exit_code, Some(3));
    assert_eq!(kind(env.eval(read("(or (exit 4) 2)"))), ErrorKind::Exit);
    assert_eq!(kind(env.eval(read("(and (exit 5) 2)"))), ErrorKind::Exit);
}

#[test]
fn more_depth_changes_nothing_once_there_is_enough() {
    let source = "(begin (define (fact n) (if (= n 0) 1 (* n (fact (- n 1))))) (fact 5))";
    let mut shallow = EvalEnv::new();
    assert_eq!(kind(shallow.evaluate(read(source), GLOBAL, 10)), ErrorKind::DepthExceeded);
    let mut enough = EvalEnv::new();
    let mut more = EvalEnv::new();
    let first = text(enough.evaluate(read(source), GLOBAL, 40));
    let second = text(more.evaluate(read(source), GLOBAL, 300));
    assert_eq!(first, "120");
    assert_eq!(second, "120");
    assert_eq!(enough.scopes.len(), more.scopes.len());
}

#[test]
fn an_evaluation_binds_nowhere_but_in_its_own_scope_and_in_new_ones() {
    let mut env = EvalEnv::new();
    run(&mut env, "(define x 1)");
    run(&mut env, "(define (set-inner) (define x 2) x)");
    assert_eq!(run(&mut env, "(set-inner)"), "2");
    assert_eq!(run(&mut env, "x"), "1");
    assert_eq!(run(&mut env, "(let ((x 5)) (define x 6) (set-inner) x)"), "6");
    assert_eq!(run(&mut env, "x"), "1");
    let before = env.scopes.len();
    assert_eq!(run(&mut env, "((lambda (x) (define y x) y) 9)"), "9");
    assert!(env.scopes.len() > before);
    assert!(env.find_binding(GLOBAL, &"y".to_string()).is_none());
    for (index, scope) in env.scopes.iter().enumerate() {
        match scope.parent {
            Some(parent) => assert!(parent < index),
            None => assert_eq!(index, GLOBAL),
        }
    }
}
