use mini_lisp_interpreter::error::ErrorKind;
use mini_lisp_interpreter::eval_env::EvalEnv;
use mini_lisp_interpreter::parse::Parser;
use mini_lisp_interpreter::tokenizer::Tokenizer;
use mini_lisp_interpreter::value::Value;

fn read(source: &str) -> Value {
    let tokens = Tokenizer::new(source.to_string()).tokenize().unwrap();
    Parser::new(tokens).parse().unwrap()
}

fn run(source: &str) -> String {
    let mut env = EvalEnv::new();
    match env.eval(read(source)) {
        Ok(v) => v.to_string(),
        Err(e) => panic!("{} failed: {}", source, e.to_string()),
    }
}

fn fails(source: &str) -> ErrorKind {
    let mut env = EvalEnv::new();
    match env.eval(read(source)) {
        Ok(v) => panic!("{} gave {}", source, v.to_string()),
        Err(e) => e.kind,
    }
}

fn message(source: &str) -> String {
    let mut env = EvalEnv::new();
    match env.eval(read(source)) {
        Ok(v) => panic!("{} gave {}", source, v.to_string()),
        Err(e) => e.to_string(),
    }
}

#[test]
fn type_predicates() {
    assert_eq!(run("(atom? 1)"), "#t");
    assert_eq!(run("(atom? \"s\")"), "#t");
    assert_eq!(run("(atom? 'a)"), "#t");
    assert_eq!(run("(atom? '())"), "#t");
    assert_eq!(run("(atom? #f)"), "#t");
    assert_eq!(run("(atom? '(1))"), "#f");
    assert_eq!(run("(atom? car)"), "#f");
    assert_eq!(run("(boolean? #f)"), "#t");
    assert_eq!(run("(boolean? 0)"), "#f");
    assert_eq!(run("(integer? 3)"), "#t");
    assert_eq!(run("(integer? 3.5)"), "#f");
    assert_eq!(run("(integer? 'a)"), "#f");
    assert_eq!(run("(list? '(1 2))"), "#t");
    assert_eq!(run("(list? '())"), "#t");
    assert_eq!(run("(list? '(1 . 2))"), "#f");
    assert_eq!(run("(list? 1)"), "#f");
    assert_eq!(run("(number? 1.5)"), "#t");
    assert_eq!(run("(number? \"1\")"), "#f");
    assert_eq!(run("(null? '())"), "#t");
    assert_eq!(run("(null? '(1))"), "#f");
    assert_eq!(run("(pair? '(1 . 2))"), "#t");
    assert_eq!(run("(pair? '())"), "#f");
    assert_eq!(run("(procedure? car)"), "#t");
    assert_eq!(run("(procedure? (lambda (x) x))"), "#t");
    assert_eq!(run("(procedure? 'car)"), "#f");
    assert_eq!(run("(string? \"s\")"), "#t");
    assert_eq!(run("(string? 's)"), "#f");
    assert_eq!(run("(symbol? 's)"), "#t");
    assert_eq!(run("(symbol? \"s\")"), "#f");
}

#[test]
fn predicates_take_one_argument() {
    for name in [
        "atom?", "boolean?", "integer?", "list?", "number?", "null?", "pair?", "procedure?",
        "string?", "symbol?", "defined_local?", "defined_all?", "even?", "odd?", "zero?", "abs",
        "car", "cdr", "length", "not", "eval", "display", "displayln",
    ] {
        assert_eq!(fails(&format!("({})", name)), ErrorKind::ArityError, "{}", name);
        assert_eq!(fails(&format!("({} 1 2)", name)), ErrorKind::ArityError, "{}", name);
    }
    assert_eq!(message("(atom?)"), "0: Builtin Procedure <atom?>: Missing argument");
    assert_eq!(message("(atom? 1 2)"), "0: Builtin Procedure <atom?>: Too many argument");
}

#[test]
fn builtins_of_two_take_two_arguments() {
    for name in [
        "cons", "expt", "quotient", "modulo", "remainder", "eq?", "equal?", "=", "<", ">", "<=",
        ">=", "apply", "map", "filter", "reduce",
    ] {
        assert_eq!(fails(&format!("({} 1)", name)), ErrorKind::ArityError, "{}", name);
        assert_eq!(fails(&format!("({} 1 2 3)", name)), ErrorKind::ArityError, "{}", name);
    }
    assert_eq!(fails("(-)"), ErrorKind::ArityError);
    assert_eq!(fails("(- 1 2 3)"), ErrorKind::ArityError);
    assert_eq!(fails("(/)"), ErrorKind::ArityError);
    assert_eq!(fails("(/ 1 2 3)"), ErrorKind::ArityError);
    assert_eq!(fails("(map_expand +)"), ErrorKind::ArityError);
    assert_eq!(fails("(newline 1)"), ErrorKind::ArityError);
    assert_eq!(fails("(error 1 2)"), ErrorKind::ArityError);
    assert_eq!(fails("(exit 1 2)"), ErrorKind::ArityError);
}

#[test]
fn definedness() {
    let mut env = EvalEnv::new();
    env.eval(read("(define x 1)")).unwrap();
    assert_eq!(env.eval(read("(defined_local? 'x)")).unwrap().to_string(), "#t");
    assert_eq!(env.eval(read("(defined_local? 'y)")).unwrap().to_string(), "#f");
    assert_eq!(env.eval(read("(defined_all? 'x)")).unwrap().to_string(), "#t");
    assert_eq!(env.eval(read("(let ((y 2)) (defined_local? 'x))")).unwrap().to_string(), "#f");
    assert_eq!(env.eval(read("(let ((y 2)) (defined_local? 'y))")).unwrap().to_string(), "#t");
    assert_eq!(env.eval(read("(let ((y 2)) (defined_all? 'x))")).unwrap().to_string(), "#t");
    assert_eq!(env.eval(read("(defined_all? 'car)")).unwrap().to_string(), "#f");
}

#[test]
fn list_builtins() {
    assert_eq!(run("(car '(1 2))"), "1");
    assert_eq!(run("(cdr '(1 2))"), "(2)");
    assert_eq!(run("(cdr '(1 . 2))"), "2");
    assert_eq!(run("(cons 1 2)"), "(1 . 2)");
    assert_eq!(run("(cons 1 '(2 3))"), "(1 2 3)");
    assert_eq!(run("(list)"), "()");
    assert_eq!(run("(list 1 '(2) \"3\")"), "(1 (2) \"3\")");
    assert_eq!(run("(length '(1 2 3))"), "3");
    assert_eq!(run("(length '(()))"), "0");
    assert_eq!(run("(length '(() ()))"), "2");
    assert_eq!(run("(append)"), "()");
    assert_eq!(run("(append '(1 2) '() '(3))"), "(1 2 3)");
    assert_eq!(run("(push '(1 2) 3 'a \"s\" #t '())"), "(1 2 3 a \"s\" #t)");
    assert_eq!(fails("(car '())"), ErrorKind::TypeError);
    assert_eq!(fails("(cdr 1)"), ErrorKind::TypeError);
    assert_eq!(fails("(length '())"), ErrorKind::TypeError);
    assert_eq!(fails("(length 5)"), ErrorKind::TypeError);
    assert_eq!(fails("(length '(1 . 2))"), ErrorKind::MalformedList);
    assert_eq!(fails("(append '(1) 2)"), ErrorKind::TypeError);
    assert_eq!(fails("(append '(1 . 2))"), ErrorKind::TypeError);
    assert_eq!(fails("(push '(1) car)"), ErrorKind::TypeError);
    assert_eq!(fails("(push '(1 . 2))"), ErrorKind::TypeError);
}

#[test]
fn arithmetic_builtins() {
    assert_eq!(run("(+ 1.5 2.25)"), "3.75");
    assert_eq!(run("(+ 5)"), "5");
    assert_eq!(run("(- 10 4)"), "6");
    assert_eq!(run("(- 3)"), "-3");
    assert_eq!(run("(* 2 3 4)"), "24");
    assert_eq!(run("(* 0.5 0.5)"), "0.25");
    assert_eq!(run("(/ 8 2)"), "4");
    assert_eq!(run("(/ 6 2)"), "3");
    assert_eq!(run("(/ 4)"), "0.25");
    assert_eq!(run("(/ -1 3)"), "-0.333333");
    assert_eq!(run("(abs -2.5)"), "2.5");
    assert_eq!(run("(abs 2.5)"), "2.5");
    assert_eq!(run("(expt 2 10)"), "1024");
    assert_eq!(run("(expt 2 -2)"), "0.25");
    assert_eq!(run("(expt 1.5 2)"), "2.25");
    assert_eq!(run("(expt -2 3)"), "-8");
    assert_eq!(run("(quotient 7 2)"), "3");
    assert_eq!(run("(quotient -7 2)"), "-3");
    assert_eq!(run("(quotient 7.5 2.5)"), "3");
    assert_eq!(run("(modulo 7 3)"), "1");
    assert_eq!(run("(modulo -7 3)"), "2");
    assert_eq!(run("(modulo 7 -3)"), "-2");
    assert_eq!(run("(modulo -7 -3)"), "-1");
    assert_eq!(run("(modulo 6 3)"), "0");
    assert_eq!(run("(remainder 7 3)"), "1");
    assert_eq!(run("(remainder -7 3)"), "-1");
    assert_eq!(run("(remainder 7 -3)"), "1");
}

#[test]
fn arithmetic_errors() {
    assert_eq!(fails("(+ 1 'a)"), ErrorKind::TypeError);
    assert_eq!(fails("(- 'a)"), ErrorKind::TypeError);
    assert_eq!(fails("(- 1 'a)"), ErrorKind::TypeError);
    assert_eq!(fails("(* 1 \"2\")"), ErrorKind::TypeError);
    assert_eq!(fails("(/ 'a)"), ErrorKind::TypeError);
    assert_eq!(fails("(/ 1 'a)"), ErrorKind::TypeError);
    assert_eq!(fails("(/ 0)"), ErrorKind::DivisionByZero);
    assert_eq!(fails("(/ 4 0)"), ErrorKind::DivisionByZero);
    assert_eq!(fails("(abs 'a)"), ErrorKind::TypeError);
    assert_eq!(fails("(expt 0 0)"), ErrorKind::TypeError);
    assert_eq!(fails("(expt 2 0)"), ErrorKind::TypeError);
    assert_eq!(fails("(expt 0 2)"), ErrorKind::TypeError);
    assert_eq!(fails("(expt 2 0.5)"), ErrorKind::TypeError);
    assert_eq!(fails("(expt 'a 2)"), ErrorKind::TypeError);
    assert_eq!(fails("(quotient 1 0)"), ErrorKind::DivisionByZero);
    assert_eq!(fails("(quotient 'a 1)"), ErrorKind::TypeError);
    assert_eq!(fails("(modulo 1 0)"), ErrorKind::DivisionByZero);
    assert_eq!(fails("(modulo 1.5 1)"), ErrorKind::TypeError);
    assert_eq!(fails("(modulo 'a 1)"), ErrorKind::TypeError);
    assert_eq!(fails("(remainder 1 0)"), ErrorKind::DivisionByZero);
    assert_eq!(fails("(remainder 1 1.5)"), ErrorKind::TypeError);
    assert_eq!(fails("(+ 9000000000000 9000000000000)"), ErrorKind::NumericOverflow);
    assert_eq!(fails("(* 9000000000 9000000000)"), ErrorKind::NumericOverflow);
    assert_eq!(fails("(expt 10 20)"), ErrorKind::NumericOverflow);
    assert_eq!(fails("(/ 9000000000000 0.000001)"), ErrorKind::NumericOverflow);
    assert_eq!(message("(/ 4 0)"), "0: Builtin Procedure </>: Division by zero");
}

#[test]
fn comparisons() {
    assert_eq!(run("(= 1 1.0)"), "#t");
    assert_eq!(run("(= 1 2)"), "#f");
    assert_eq!(run("(< 1 2)"), "#t");
    assert_eq!(run("(< 2 2)"), "#f");
    assert_eq!(run("(> 2 1)"), "#t");
    assert_eq!(run("(> -2 1)"), "#f");
    assert_eq!(run("(<= 2 2)"), "#t");
    assert_eq!(run("(<= 3 2)"), "#f");
    assert_eq!(run("(>= 2 2)"), "#t");
    assert_eq!(run("(>= 1 2)"), "#f");
    assert_eq!(fails("(< 1 'a)"), ErrorKind::TypeError);
    assert_eq!(fails("(= \"a\" \"a\")"), ErrorKind::TypeError);
    assert_eq!(run("(even? 4)"), "#t");
    assert_eq!(run("(even? 3)"), "#f");
    assert_eq!(run("(even? -2)"), "#t");
    assert_eq!(run("(odd? 3)"), "#t");
    assert_eq!(run("(odd? 4)"), "#f");
    assert_eq!(run("(odd? -3)"), "#f");
    assert_eq!(run("(zero? 0)"), "#t");
    assert_eq!(run("(zero? 0.000001)"), "#f");
    assert_eq!(fails("(even? 1.5)"), ErrorKind::TypeError);
    assert_eq!(fails("(odd? 'a)"), ErrorKind::TypeError);
    assert_eq!(fails("(zero? 'a)"), ErrorKind::TypeError);
}

#[test]
fn sameness() {
    assert_eq!(run("(eq? 1 1)"), "#t");
    assert_eq!(run("(eq? 1 2)"), "#f");
    assert_eq!(run("(eq? 'a 'a)"), "#t");
    assert_eq!(run("(eq? 'a \"a\")"), "#f");
    assert_eq!(run("(eq? \"a\" \"a\")"), "#t");
    assert_eq!(run("(eq? '() '())"), "#t");
    assert_eq!(run("(eq? #t #t)"), "#t");
    assert_eq!(run("(eq? '(1 (2) . 3) '(1 (2) . 3))"), "#t");
    assert_eq!(run("(eq? '(1 2) '(1 3))"), "#f");
    assert_eq!(run("(eq? car car)"), "#t");
    assert_eq!(run("(eq? car cdr)"), "#f");
    assert_eq!(run("(eq? quote quote)"), "#t");
    assert_eq!(run("(eq? (lambda (x) x) (lambda (x) x))"), "#f");
    assert_eq!(run("(equal? '(1 2) '(1 2))"), "#t");
    assert_eq!(run("(equal? 'a \"a\")"), "#f");
    assert_eq!(run("(equal? car cdr)"), "#t");
    assert_eq!(run("(equal? (lambda (x) x) (lambda (x) x))"), "#t");
    assert_eq!(run("(equal? (lambda (x) x) (lambda (y) y))"), "#f");
}

#[test]
fn negation_evaluates_its_argument_once_more() {
    assert_eq!(run("(not #f)"), "#t");
    assert_eq!(run("(not #t)"), "#f");
    assert_eq!(run("(not '())"), "#f");
    assert_eq!(run("(not 'nowhere)"), "#f");
    assert_eq!(run("(not '(nowhere))"), "#f");
    assert_eq!(fails("(not 5)"), ErrorKind::TypeError);
    assert_eq!(fails("(not \"s\")"), ErrorKind::TypeError);
    assert_eq!(run("(not '(= 1 2))"), "#t");
}

#[test]
fn applying_and_evaluating() {
    assert_eq!(run("(apply + '(1 2 3))"), "6");
    assert_eq!(run("(apply (lambda (a b) (- a b)) '(5 3))"), "2");
    assert_eq!(run("(apply + '())"), "0");
    assert_eq!(fails("(apply 5 '(1))"), ErrorKind::TypeError);
    assert_eq!(fails("(apply + 5)"), ErrorKind::MalformedList);
    assert_eq!(fails("(apply (lambda (a) a) '(1 2))"), ErrorKind::ArityError);
    assert_eq!(run("(eval '(* 2 3))"), "6");
    assert_eq!(run("(eval 5)"), "5");
    assert_eq!(fails("(eval 'nowhere)"), ErrorKind::UnboundSymbol);
    assert_eq!(
        message("(eval 'nowhere)"),
        "1: Builtin Procedure <eval>: Fail to evaluate a value\n0: [eval]: Variable nowhere not defined"
    );
}

#[test]
fn mapping() {
    assert_eq!(run("(map (lambda (x) (+ x 1)) '(1 2 3))"), "(2 3 4)");
    assert_eq!(run("(map car '((1 2) (3 4)))"), "(1 3)");
    assert_eq!(run("(map car '())"), "()");
    assert_eq!(fails("(map car 5)"), ErrorKind::TypeError);
    assert_eq!(fails("(map 5 '(1))"), ErrorKind::TypeError);
    assert_eq!(fails("(map car '(1))"), ErrorKind::TypeError);
    assert_eq!(
        message("(map car '(1))"),
        "1: Builtin Procedure <map>: Fail to call the given procedure\n0: Builtin Procedure <car>: Cannot get car of a non-pair/list type value"
    );
    assert_eq!(fails("(map (lambda (x) nowhere) '(1))"), ErrorKind::UnboundSymbol);
    assert_eq!(run("(map_expand + '(1 2 3) '(10 20 30))"), "(11 22 33)");
    assert_eq!(run("(map_expand (lambda (a b c) (* a b c)) '(1 2) '(3 4) '(5 6))"), "(15 48)");
    assert_eq!(run("(map_expand - '(1 2))"), "(-1 -2)");
    assert_eq!(fails("(map_expand + '(1 2) '(1))"), ErrorKind::TypeError);
    assert_eq!(fails("(map_expand + '(1 2) 5)"), ErrorKind::TypeError);
    assert_eq!(fails("(map_expand + '(1 . 2))"), ErrorKind::MalformedList);
    assert_eq!(fails("(map_expand 5 '(1 2))"), ErrorKind::TypeError);
    assert_eq!(fails("(map_expand + '(nowhere))"), ErrorKind::UnboundSymbol);
}

#[test]
fn filtering_and_folding() {
    assert_eq!(run("(filter (lambda (x) (> x 1)) '(1 2 3))"), "(2 3)");
    assert_eq!(run("(filter number? '(1 a 2 \"s\"))"), "(1 2)");
    assert_eq!(run("(filter (lambda (x) 0) '(1 2))"), "(1 2)");
    assert_eq!(run("(filter number? '())"), "()");
    assert_eq!(fails("(filter number? 5)"), ErrorKind::TypeError);
    assert_eq!(fails("(filter 5 '(1))"), ErrorKind::TypeError);
    assert_eq!(run("(reduce + '(1 2 3 4))"), "10");
    assert_eq!(run("(reduce - '(10 3 2))"), "9");
    assert_eq!(run("(reduce (lambda (a b) (* a b)) '(2 3 4))"), "24");
    assert_eq!(run("(reduce + '(7))"), "7");
    assert_eq!(fails("(reduce + '())"), ErrorKind::TypeError);
    assert_eq!(fails("(reduce + '(1 . 2))"), ErrorKind::TypeError);
    assert_eq!(fails("(reduce 5 '(1 2))"), ErrorKind::TypeError);
    assert_eq!(fails("(reduce + '(1 a))"), ErrorKind::TypeError);
}

#[test]
fn leaving() {
    let mut env = EvalEnv::new();
    assert_eq!(env.eval(read("(exit)")).unwrap_err().kind, ErrorKind::Exit);
    assert_eq!(env.exit_code, Some(0));
    assert_eq!(env.eval(read("(exit 2.9)")).unwrap_err().kind, ErrorKind::Exit);
    assert_eq!(env.exit_code, Some(2));
    let mut env = EvalEnv::new();
    assert_eq!(env.eval(read("(exit 'a)")).unwrap_err().kind, ErrorKind::TypeError);
    assert_eq!(env.exit_code, None);
    assert_eq!(env.eval(read("(exit_force 'a)")).unwrap_err().kind, ErrorKind::Exit);
    assert_eq!(env.exit_code, Some(127));
    assert_eq!(env.eval(read("(exit_force 1 2)")).unwrap_err().kind, ErrorKind::Exit);
    assert_eq!(env.exit_code, Some(127));
    assert_eq!(env.eval(read("(exit_force 5)")).unwrap_err().kind, ErrorKind::Exit);
    assert_eq!(env.exit_code, Some(5));
    assert_eq!(env.eval(read("(exit_force)")).unwrap_err().kind, ErrorKind::Exit);
    assert_eq!(env.exit_code, Some(0));
    assert_eq!(env.eval(read("(exit -9000000000)")).unwrap_err().kind, ErrorKind::Exit);
    assert_eq!(env.exit_code, Some(i32::MIN));
}

#[test]
fn raising() {
    assert_eq!(fails("(error)"), ErrorKind::Raised);
    assert_eq!(message("(error)"), "0: Error thrown.");
    assert_eq!(message("(error \"boom\")"), "0: \"boom\"");
    assert_eq!(message("(error '(1 2))"), "0: (1 2)");
}
