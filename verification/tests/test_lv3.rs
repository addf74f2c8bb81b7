use mini_lisp_interpreter::eval_env::EvalEnv;
use mini_lisp_interpreter::parse::Parser;
use mini_lisp_interpreter::tokenizer::Tokenizer;

fn test_machine(param: (&str, &str), eval_env: &mut EvalEnv) {
    let input: String = param.0.to_string();
    let right_answer = param.1.to_string();
    let tokens = Tokenizer::new(input).tokenize().unwrap();
    let value = Parser::new(tokens).parse().unwrap();
    let output: String = eval_env
        .eval(value)
        .unwrap_or_else(|e| {
            panic!("Error: {}", e.to_string());
        })
        .to_string();
    assert_eq!(output, right_answer);
}

#[test]
fn lv3() {
    let mut eval_env: EvalEnv = EvalEnv::new();
    test_machine(("(define x 42)", "()"), &mut eval_env);
    test_machine(("x", "42"), &mut eval_env);
    test_machine(("(define y x)", "()"), &mut eval_env);
    test_machine(("y", "42"), &mut eval_env);
    test_machine(("(define x #t)", "()"), &mut eval_env);
    test_machine(("x", "#t"), &mut eval_env);
    test_machine(("y", "42"), &mut eval_env);
    test_machine(("(define y \"abc\")", "()"), &mut eval_env);
    test_machine(("y", "\"abc\""), &mut eval_env);
}
