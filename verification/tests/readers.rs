use mini_lisp_interpreter::command_line::{Config, Mode};
use mini_lisp_interpreter::error::{ErrorKind, ErrorRead};
use mini_lisp_interpreter::eval_env::EvalEnv;
use mini_lisp_interpreter::reader::{interpret, Next, Read};
use mini_lisp_interpreter::reader_file::ReaderFile;
use mini_lisp_interpreter::reader_interact::ReaderInteract;
use mini_lisp_interpreter::text::trim;

fn line(text: &str) -> Read {
    Read::Line(text.to_string())
}

#[test]
fn interpret_reads_evaluates_and_writes() {
    let mut env = EvalEnv::new();
    assert_eq!(interpret(&mut env, "(define x (+ 1 2))".to_string()).unwrap(), "()");
    assert_eq!(interpret(&mut env, "  x ; the value\n".to_string()).unwrap(), "3");
    assert_eq!(interpret(&mut env, "(car '(a b)) ignored".to_string()).unwrap(), "a");
    assert_eq!(interpret(&mut env, "(car".to_string()).unwrap_err().kind, ErrorKind::Syntax);
    assert_eq!(interpret(&mut env, "\"open".to_string()).unwrap_err().kind, ErrorKind::Syntax);
    assert_eq!(interpret(&mut env, "".to_string()).unwrap_err().kind, ErrorKind::Syntax);
    assert_eq!(interpret(&mut env, "(car 1)".to_string()).unwrap_err().kind, ErrorKind::TypeError);
}

#[test]
fn trim_takes_the_white_space_off_both_ends() {
    let chars: Vec<char> = " \t (a  b) \r\n".chars().collect();
    assert_eq!(trim(&chars).into_iter().collect::<String>(), "(a  b)");
    let chars: Vec<char> = "\u{3000}x\u{a0}".chars().collect();
    assert_eq!(trim(&chars).into_iter().collect::<String>(), "x");
    let chars: Vec<char> = " \n ".chars().collect();
    assert_eq!(trim(&chars).len(), 0);
    assert_eq!(trim(&Vec::new()).len(), 0);
}

#[test]
fn the_file_reader_counts_parentheses() {
    let mut reader = ReaderFile::new(Some("in".to_string()), None);
    assert!(!reader.have_output_file);
    assert_eq!(reader.process_line("  (define (f x)  \n".to_string()), Ok(()));
    assert_eq!(reader.left_parenthesis_count, 1);
    assert_eq!(reader.line, "(define (f x)\n");
    assert_eq!(reader.process_line("(+ x \"(((\" 1)\n".to_string()), Ok(()));
    assert_eq!(reader.left_parenthesis_count, 1);
    assert_eq!(reader.process_line(")".to_string()), Ok(()));
    assert_eq!(reader.left_parenthesis_count, 0);
    assert_eq!(reader.line, "(define (f x)\n(+ x \"(((\" 1)\n)\n");
    assert_eq!(reader.process_line("   \n".to_string()), Err(ErrorRead::EmptyLine));
    assert_eq!(reader.line, "(define (f x)\n(+ x \"(((\" 1)\n)\n");
    assert_eq!(reader.process_line(")".to_string()), Err(ErrorRead::SyntaxFailure));
    assert_eq!(reader.left_parenthesis_count, -1);
    reader.flush();
    assert_eq!(reader.left_parenthesis_count, 0);
    assert_eq!(reader.line, "");
}

#[test]
fn the_file_reader_passes_over_comments_and_escaped_quotes() {
    let mut reader = ReaderFile::new(None, Some("out".to_string()));
    assert!(reader.have_output_file);
    assert_eq!(reader.process_line("(a ; (((".to_string()), Ok(()));
    assert_eq!(reader.left_parenthesis_count, 1);
    assert!(reader.is_inside_comment);
    reader.flush();
    assert_eq!(reader.process_line("(\"a\\\"(\" ".to_string()), Ok(()));
    assert_eq!(reader.left_parenthesis_count, 1);
    assert!(!reader.is_inside_quote);
    reader.flush();
    assert_eq!(reader.process_line("(\"a\\n( ".to_string()), Ok(()));
    assert_eq!(reader.left_parenthesis_count, 1);
    assert!(reader.is_inside_quote);
}

#[test]
fn the_file_reader_evaluates_complete_expressions() {
    let mut reader = ReaderFile::new(Some("in".to_string()), None);
    let turn = reader.call(line("(define x\n"));
    assert_eq!(turn.next, Next::Read);
    assert_eq!(turn.result, None);
    let turn = reader.call(line("  5)\n"));
    assert_eq!(turn.next, Next::Read);
    assert_eq!(turn.result, None);
    assert_eq!(reader.line, "");
    let turn = reader.call(line("\n"));
    assert_eq!(turn.next, Next::Read);
    let turn = reader.call(line("(begin (print x) (+ x 1))\n"));
    assert_eq!(turn.printed, "5\n");
    assert_eq!(turn.result, Some("6".to_string()));
    assert_eq!(turn.complaint, None);
    assert_eq!(turn.next, Next::Read);
    let turn = reader.call(line("x\n"));
    assert_eq!(turn.result, Some("5".to_string()));
    let turn = reader.call(Read::End);
    assert_eq!(turn.next, Next::Return);
}

#[test]
fn the_file_reader_stops_at_the_first_error() {
    let mut reader = ReaderFile::new(Some("in".to_string()), None);
    let turn = reader.call(line("(car 1)\n"));
    assert_eq!(turn.next, Next::Exit(127));
    assert_eq!(
        turn.complaint,
        Some("0: Builtin Procedure <car>: Cannot get car of a non-pair/list type value".to_string())
    );
    let mut reader = ReaderFile::new(Some("in".to_string()), None);
    let turn = reader.call(line(")\n"));
    assert_eq!(turn.next, Next::Exit(127));
    assert_eq!(turn.complaint, Some("SyntaxFailure".to_string()));
    assert_eq!(reader.left_parenthesis_count, 0);
    let turn = reader.call(Read::Failed);
    assert_eq!(turn.next, Next::Exit(127));
    assert_eq!(turn.complaint, Some("Utf8ConversionError".to_string()));
}

#[test]
fn the_file_reader_leaves_when_the_program_asks() {
    let mut reader = ReaderFile::new(Some("in".to_string()), None);
    let turn = reader.call(line("(begin (display \"bye\") (exit 3))\n"));
    assert_eq!(turn.printed, "bye");
    assert_eq!(turn.result, None);
    assert_eq!(turn.complaint, None);
    assert_eq!(turn.next, Next::Exit(3));
}

#[test]
fn the_interactive_reader_indents_by_what_was_typed() {
    let mut reader = ReaderInteract::new();
    assert_eq!(reader.printline(), ">>> ");
    assert_eq!(reader.readline("(define (f x)\n".to_string()), Ok(()));
    assert_eq!(reader.space_buffer, vec![8]);
    assert_eq!(reader.printline(), "... ".to_string() + &" ".repeat(8));
    assert_eq!(reader.readline("(+ x\n".to_string()), Ok(()));
    assert_eq!(reader.space_buffer, vec![8, 4]);
    assert_eq!(reader.printline(), "... ".to_string() + &" ".repeat(12));
    assert_eq!(reader.readline("1))\n".to_string()), Ok(()));
    assert_eq!(reader.space_buffer, Vec::<usize>::new());
    assert_eq!(reader.line, "(define (f x)\n\n(+ x\n\n1))\n\n");
    assert_eq!(reader.printline(), ">>> ");
}

#[test]
fn the_interactive_reader_refuses_and_interrupts() {
    let mut reader = ReaderInteract::new();
    assert_eq!(reader.readline("\n".to_string()), Err(ErrorRead::KeyboardInterrupt));
    assert_eq!(reader.readline(")\n".to_string()), Err(ErrorRead::SyntaxFailure));
    assert_eq!(reader.line, "");
    assert_eq!(reader.readline("name (\n".to_string()), Ok(()));
    assert_eq!(reader.space_buffer, Vec::<usize>::new());
    assert_eq!(reader.line, "name (\n\n");
    reader.flush();
    assert_eq!(reader.readline("(a ; ) comment\n".to_string()), Ok(()));
    assert_eq!(reader.space_buffer, vec![3]);
    assert!(!reader.is_inside_comment);
}

#[test]
fn the_interactive_reader_answers() {
    let mut reader = ReaderInteract::new();
    let turn = reader.call(line("(define x 5)\n"));
    assert_eq!(turn.result, None);
    assert_eq!(turn.next, Next::Read);
    let turn = reader.call(line("(* x\n"));
    assert_eq!(turn.result, None);
    assert_eq!(turn.next, Next::Read);
    let turn = reader.call(line("2)\n"));
    assert_eq!(turn.result, Some("10".to_string()));
    let turn = reader.call(line("(car 1)\n"));
    assert_eq!(turn.result, None);
    assert_eq!(
        turn.complaint,
        Some(
            "Error:\n0: Builtin Procedure <car>: Cannot get car of a non-pair/list type value"
                .to_string()
        )
    );
    assert_eq!(turn.next, Next::Read);
    let turn = reader.call(line("\n"));
    assert_eq!(turn.note, Some("Input interrupted with a pure return.".to_string()));
    let turn = reader.call(line(")\n"));
    assert_eq!(turn.complaint, Some("Error: SyntaxFailure".to_string()));
    let turn = reader.call(Read::Failed);
    assert_eq!(turn.complaint, Some("Error: StreamFailure".to_string()));
    assert_eq!(turn.next, Next::Read);
    let turn = reader.call(line("(exit 4)\n"));
    assert_eq!(turn.next, Next::Exit(4));
    let turn = reader.call(Read::End);
    assert_eq!(turn.next, Next::Exit(0));
}

#[test]
fn the_configuration_asks_for_one_mode() {
    let words = |items: &[&str]| items.iter().map(|s| s.to_string()).collect::<Vec<String>>();
    assert!(matches!(Config::build(words(&["p", "-i"])).unwrap().mode(), Ok(Mode::Interact)));
    assert!(matches!(Config::build(words(&["p", "-h"])).unwrap().mode(), Ok(Mode::Help)));
    match Config::build(words(&["p", "-f", "in.lisp"])).unwrap().mode() {
        Ok(Mode::File(input, output)) => {
            assert_eq!(input, "in.lisp");
            assert_eq!(output, None);
        }
        _ => panic!("no file mode"),
    }
    assert_eq!(
        Config::build(words(&["p"])).unwrap().mode().err(),
        Some("Conflict occur.\nPlease use 'minilisp -h' or 'minilisp --help' to check the usage")
    );
    assert!(Config::build(words(&["p", "-i", "-h"])).unwrap().mode().is_err());
    assert!(Config::build(words(&["p", "-i", "-f", "x"])).unwrap().mode().is_err());
    let config = Config {
        interract_mode: false,
        open_help: false,
        input_file_path: None,
        output_file_path: Some("out".to_string()),
    };
    assert!(config.mode().is_err());
    let config = Config {
        interract_mode: false,
        open_help: false,
        input_file_path: Some("in".to_string()),
        output_file_path: Some("out".to_string()),
    };
    assert!(matches!(config.mode(), Ok(Mode::File(_, Some(_)))));
}
