use mini_lisp_interpreter::error::ErrorRead;
use mini_lisp_interpreter::parse::Parser;
use mini_lisp_interpreter::tokenizer::{Token, Tokenizer};

fn names(source: &str) -> Vec<String> {
    Tokenizer::new(source.to_string())
        .tokenize()
        .unwrap()
        .iter()
        .map(|t| t.to_string())
        .collect()
}

fn parsed(source: &str) -> Result<String, ErrorRead> {
    let tokens = Tokenizer::new(source.to_string()).tokenize()?;
    Ok(Parser::new(tokens).parse()?.to_string())
}

#[test]
fn punctuation_gives_one_token_each() {
    assert_eq!(
        names("( ) ' ` , ."),
        vec!["LEFT_PARENTHESIS", "RIGHT_PARENTHESIS", "QUOTE", "QUASIQUOTE", "UNQUOTE", "DOT"]
    );
}

#[test]
fn literals_and_identifiers_are_told_apart() {
    assert_eq!(
        names("#t #f 12 -1.5 \"a b\" name + - ... 1+"),
        vec![
            "(BOOLEAN_LITERAL true )",
            "(BOOLEAN_LITERAL false )",
            "(NUMERIC_LITERAL 12)",
            "(NUMERIC_LITERAL -1.5)",
            "(STRING_LITERAL \"a b\")",
            "(IDENTIFIER name)",
            "(IDENTIFIER +)",
            "(IDENTIFIER -)",
            "(IDENTIFIER ...)",
            "(IDENTIFIER 1+)",
        ]
    );
}

#[test]
fn words_end_at_spaces_and_punctuation() {
    assert_eq!(
        names("(ab(cd)'e\"s\"f)"),
        vec![
            "LEFT_PARENTHESIS",
            "(IDENTIFIER ab)",
            "LEFT_PARENTHESIS",
            "(IDENTIFIER cd)",
            "RIGHT_PARENTHESIS",
            "QUOTE",
            "(IDENTIFIER e)",
            "(STRING_LITERAL \"s\")",
            "(IDENTIFIER f)",
            "RIGHT_PARENTHESIS",
        ]
    );
}

#[test]
fn comments_run_to_the_end_of_the_line() {
    assert_eq!(names("a ; b c\nd"), vec!["(IDENTIFIER a)", "(IDENTIFIER d)"]);
    assert_eq!(names("; only a comment"), Vec::<String>::new());
    assert_eq!(names(" \t\r\n"), Vec::<String>::new());
}

#[test]
fn backslashes_in_strings_take_the_next_character() {
    let tokens = Tokenizer::new("\"a\\\"b\\nc\\\\d\\te\"".to_string()).tokenize().unwrap();
    assert_eq!(tokens.len(), 1);
    match &tokens[0] {
        Token::String(s) => assert_eq!(s, "a\"b\nc\\dte"),
        other => panic!("not a string: {}", other.to_string()),
    }
}

#[test]
fn texts_that_end_too_early_are_refused() {
    assert_eq!(Tokenizer::new("\"abc".to_string()).tokenize().err(), Some(ErrorRead::SyntaxFailure));
    assert_eq!(Tokenizer::new("\"abc\\".to_string()).tokenize().err(), Some(ErrorRead::SyntaxFailure));
    assert_eq!(Tokenizer::new("#".to_string()).tokenize().err(), Some(ErrorRead::SyntaxFailure));
    assert_eq!(Tokenizer::new("#x".to_string()).tokenize().err(), Some(ErrorRead::SyntaxFailure));
}

#[test]
fn values_are_read_from_tokens() {
    assert_eq!(parsed("42"), Ok("42".to_string()));
    assert_eq!(parsed("name"), Ok("name".to_string()));
    assert_eq!(parsed("\"s\""), Ok("\"s\"".to_string()));
    assert_eq!(parsed("()"), Ok("()".to_string()));
    assert_eq!(parsed("(a (b c) d)"), Ok("(a (b c) d)".to_string()));
    assert_eq!(parsed("(a . b)"), Ok("(a . b)".to_string()));
    assert_eq!(parsed("(a b . (c d))"), Ok("(a b c d)".to_string()));
}

#[test]
fn quote_marks_stand_for_forms() {
    assert_eq!(parsed("'a"), Ok("(quote a)".to_string()));
    assert_eq!(parsed("`(a ,b)"), Ok("(quasiquote (a (unquote b)))".to_string()));
    assert_eq!(parsed("''a"), Ok("(quote (quote a))".to_string()));
}

#[test]
fn only_the_first_value_is_read() {
    assert_eq!(parsed("1 2 3"), Ok("1".to_string()));
    assert_eq!(parsed(")"), Ok(")".to_string()));
}

#[test]
fn broken_lists_are_refused() {
    assert_eq!(parsed(""), Err(ErrorRead::SyntaxFailure));
    assert_eq!(parsed("(a b"), Err(ErrorRead::SyntaxFailure));
    assert_eq!(parsed("(a . b c)"), Err(ErrorRead::SyntaxFailure));
    assert_eq!(parsed("(a ."), Err(ErrorRead::SyntaxFailure));
    assert_eq!(parsed("."), Err(ErrorRead::SyntaxFailure));
    assert_eq!(parsed("'"), Err(ErrorRead::SyntaxFailure));
    assert_eq!(parsed("(. a)"), Err(ErrorRead::SyntaxFailure));
}
