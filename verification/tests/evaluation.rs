use mini_lisp_interpreter::error::ErrorKind;
use mini_lisp_interpreter::eval_env::EvalEnv;
use mini_lisp_interpreter::parse::Parser;
use mini_lisp_interpreter::tokenizer::Tokenizer;
use mini_lisp_interpreter::value::Value;

fn read(source: &str) -> Value {
    let tokens = Tokenizer::new(source.to_string()).tokenize().unwrap();
    Parser::new(tokens).parse().unwrap()
}

fn run(env: &mut EvalEnv, source: &str) -> String {
    match env.eval(read(source)) {
        Ok(v) => v.to_string(),
        Err(e) => panic!("{} failed: {}", source, e.to_string()),
    }
}

fn fails(env: &mut EvalEnv, source: &str) -> ErrorKind {
    match env.eval(read(source)) {
        Ok(v) => panic!("{} gave {}", source, v.to_string()),
        Err(e) => e.kind,
    }
}

#[test]
fn atoms_evaluate_to_themselves() {
    let mut env = EvalEnv::new();
    assert_eq!(run(&mut env, "#t"), "#t");
    assert_eq!(run(&mut env, "12.5"), "12.5");
    assert_eq!(run(&mut env, "\"text\""), "\"text\"");
}

#[test]
fn quote_returns_its_operand_unevaluated() {
    let mut env = EvalEnv::new();
    assert_eq!(run(&mut env, "(quote nowhere)"), "nowhere");
    assert_eq!(run(&mut env, "'(1 (2 3) . 4)"), "(1 (2 3) . 4)");
    assert_eq!(run(&mut env, "'(5 6)"), "(5 6)");
    assert_eq!(run(&mut env, "'()"), "()");
}

#[test]
fn arithmetic_identities() {
    let mut env = EvalEnv::new();
    assert_eq!(run(&mut env, "(+)"), "0");
    assert_eq!(run(&mut env, "(*)"), "1");
    assert_eq!(run(&mut env, "(+ 1 2 3)"), "6");
    assert_eq!(fails(&mut env, "(/ 4 0)"), ErrorKind::DivisionByZero);
    assert_eq!(run(&mut env, "(/ 1 3)"), "0.333333");
    assert_eq!(run(&mut env, "(* 1.5 1.5)"), "2.25");
    assert_eq!(run(&mut env, "(- 5)"), "-5");
    assert_eq!(run(&mut env, "(- 0.5 1)"), "-0.5");
}

#[test]
fn define_binds_and_let_shadows() {
    let mut env = EvalEnv::new();
    assert_eq!(run(&mut env, "(define x 42)"), "()");
    assert_eq!(run(&mut env, "x"), "42");
    assert_eq!(run(&mut env, "(let ((x 1)) x)"), "1");
    assert_eq!(run(&mut env, "x"), "42");
    assert_eq!(run(&mut env, "(let ((x 1) (y x)) (+ x y))"), "43");
}

#[test]
fn closures_see_later_definitions() {
    let mut env = EvalEnv::new();
    run(&mut env, "(define n 1)");
    run(&mut env, "(define (get) n)");
    assert_eq!(run(&mut env, "(get)"), "1");
    run(&mut env, "(define n 2)");
    assert_eq!(run(&mut env, "(get)"), "2");
}

#[test]
fn truth_tables() {
    let mut env = EvalEnv::new();
    assert_eq!(run(&mut env, "(if #f 1 2)"), "2");
    assert_eq!(run(&mut env, "(if 0 1 2)"), "1");
    assert_eq!(run(&mut env, "(and #t #t)"), "#t");
    assert_eq!(run(&mut env, "(and 1 #f 3)"), "#f");
    assert_eq!(run(&mut env, "(and)"), "#t");
    assert_eq!(run(&mut env, "(or #f 5)"), "5");
    assert_eq!(run(&mut env, "(or)"), "#f");
    assert_eq!(run(&mut env, "(cond (#f 1) ((= 1 1) 2) (else 3))"), "2");
    assert_eq!(run(&mut env, "(cond (#f 1) (else 3))"), "3");
    assert_eq!(run(&mut env, "(cond (#f 1))"), "()");
}

#[test]
fn quasiquote_and_unquote() {
    let mut env = EvalEnv::new();
    assert_eq!(run(&mut env, "`(1 ,(+ 1 1) 3)"), "(1 2 3)");
    assert_eq!(fails(&mut env, "`(1 `(2))"), ErrorKind::MalformedSpecialForm);
    assert_eq!(fails(&mut env, "(unquote 1)"), ErrorKind::MalformedSpecialForm);
}

#[test]
fn higher_order_builtins() {
    let mut env = EvalEnv::new();
    assert_eq!(run(&mut env, "(map (lambda (x) (* x x)) '(1 2 3))"), "(1 4 9)");
    assert_eq!(run(&mut env, "(filter (lambda (x) (> x 1)) '(1 2 3))"), "(2 3)");
    assert_eq!(run(&mut env, "(reduce + '(1 2 3 4))"), "10");
    assert_eq!(run(&mut env, "(apply + '(1 2 3))"), "6");
    assert_eq!(run(&mut env, "(map_expand + '(1 2) '(10 20))"), "(11 22)");
    assert_eq!(run(&mut env, "(eval '(+ 1 2))"), "3");
}

#[test]
fn errors_are_results() {
    let mut env = EvalEnv::new();
    assert_eq!(fails(&mut env, "(car)"), ErrorKind::ArityError);
    assert_eq!(fails(&mut env, "(car 1)"), ErrorKind::TypeError);
    assert_eq!(fails(&mut env, "(+ 1 \"a\")"), ErrorKind::TypeError);
    assert_eq!(fails(&mut env, "nowhere"), ErrorKind::UnboundSymbol);
    assert_eq!(fails(&mut env, "(nowhere 1)"), ErrorKind::UnboundSymbol);
    assert_eq!(fails(&mut env, "(1 2)"), ErrorKind::InvalidCallTarget);
    assert_eq!(fails(&mut env, "((lambda (x) x))"), ErrorKind::ArityError);
    assert_eq!(fails(&mut env, "(let (x) x)"), ErrorKind::MalformedSpecialForm);
    assert_eq!(fails(&mut env, "(cond (else 1) (#t 2))"), ErrorKind::MalformedSpecialForm);
    assert_eq!(fails(&mut env, "(+ 1 . 2)"), ErrorKind::MalformedList);
    assert_eq!(fails(&mut env, "(modulo 1 0)"), ErrorKind::DivisionByZero);
    assert_eq!(fails(&mut env, "(error \"boom\")"), ErrorKind::Raised);
}

#[test]
fn recursion_runs_and_runaway_recursion_is_an_error() {
    let mut env = EvalEnv::new();
    run(&mut env, "(define (fact n) (if (= n 0) 1 (* n (fact (- n 1)))))");
    assert_eq!(run(&mut env, "(fact 10)"), "3628800");
    run(&mut env, "(define (loop n) (loop n))");
    assert_eq!(fails(&mut env, "(loop 1)"), ErrorKind::DepthExceeded);
}

#[test]
fn printing_goes_to_the_output() {
    let mut env = EvalEnv::new();
    assert_eq!(run(&mut env, "(print 1 \"a\")"), "()");
    assert_eq!(run(&mut env, "(display \"a\")"), "()");
    assert_eq!(run(&mut env, "(displayln 'b)"), "()");
    assert_eq!(run(&mut env, "(newline)"), "()");
    assert_eq!(env.take_output(), "1\n\"a\"\nab\n\n");
    assert_eq!(env.take_output(), "");
    assert_eq!(fails(&mut env, "(exit 3)"), ErrorKind::Exit);
    assert_eq!(env.exit_code, Some(3));
}
