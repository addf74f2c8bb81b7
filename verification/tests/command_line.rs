use mini_lisp_interpreter::command_line::Config;

fn words(items: &[&str]) -> Vec<String> {
    items.iter().map(|s| s.to_string()).collect()
}

#[test]
fn build_reads_the_interactive_flag() {
    let config = Config::build(words(&["minilisp", "-i"])).unwrap();
    assert!(config.interract_mode);
    assert!(!config.open_help);
    assert_eq!(config.input_file_path, None);
    assert_eq!(config.output_file_path, None);
}

#[test]
fn build_reads_the_input_path() {
    let config = Config::build(words(&["minilisp", "--file", "a.lisp"])).unwrap();
    assert_eq!(config.input_file_path, Some("a.lisp".to_string()));
}

#[test]
fn build_rejects_a_file_flag_without_a_path() {
    assert_eq!(Config::build(words(&["minilisp", "-f"])).err(), Some("Should give an input file path"));
}

#[test]
fn build_rejects_the_output_flag_and_unknown_words() {
    assert_eq!(Config::build(words(&["minilisp", "-o", "x"])).err(), Some("Unknown"));
    assert_eq!(
        Config::build(words(&["minilisp", "what"])).err(),
        Some("Fail to parse the command, please retry")
    );
}
