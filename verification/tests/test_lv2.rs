use mini_lisp_interpreter::eval_env::EvalEnv;
use mini_lisp_interpreter::parse::Parser;
use mini_lisp_interpreter::tokenizer::Tokenizer;

fn test_machine(param: (&str, &str), eval_env: &mut EvalEnv) {
    let input: String = param.0.to_string();
    let right_answer = param.1.to_string();
    let tokens = Tokenizer::new(input).tokenize().unwrap();
    let value = Parser::new(tokens).parse().unwrap();
    let output: String = eval_env
        .eval(value)
        .unwrap_or_else(|e| {
            panic!("Error: {}", e.to_string());
        })
        .to_string();
    assert_eq!(output, right_answer);
}

#[test]
fn lv2() {
    let eval_env: EvalEnv = EvalEnv::new();
    test_machine(("#f", "#f"), &mut eval_env.clone());
    test_machine(("#t", "#t"), &mut eval_env.clone());
    test_machine(("42", "42"), &mut eval_env.clone());
    test_machine(("+42", "42"), &mut eval_env.clone());
    test_machine(("-42", "-42"), &mut eval_env.clone());
    test_machine(("3.14", "3.14"), &mut eval_env.clone());
    test_machine(("\"abc\"", "\"abc\""), &mut eval_env.clone());
    test_machine(("\"ab\\\"c\"", "\"ab\"c\""), &mut eval_env.clone());
}
