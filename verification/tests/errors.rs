use mini_lisp_interpreter::error::{ErrorEval, ErrorKind, ErrorRead};

#[test]
fn a_new_error_is_at_depth_zero() {
    let error = ErrorEval::new(ErrorKind::TypeError, "what failed");
    assert_eq!(error.kind, ErrorKind::TypeError);
    assert_eq!(error.index, 0);
    assert_eq!(error.message, "0: what failed");
}

#[test]
fn an_error_can_name_what_it_is_about() {
    let error = ErrorEval::about(ErrorKind::UnboundSymbol, "Name ", &"x".to_string(), " not defined");
    assert_eq!(error.message, "0: Name x not defined");
    assert_eq!(error.kind, ErrorKind::UnboundSymbol);
}

#[test]
fn each_caller_adds_a_line_and_one_to_the_depth() {
    let error = ErrorEval::new(ErrorKind::DivisionByZero, "inner").wrap("middle").wrap("outer");
    assert_eq!(error.kind, ErrorKind::DivisionByZero);
    assert_eq!(error.index, 2);
    assert_eq!(error.to_string(), "2: outer\n1: middle\n0: inner");
}

#[test]
fn depths_beyond_nine_are_written_in_full() {
    let mut error = ErrorEval::new(ErrorKind::Raised, "x");
    for _ in 0..12 {
        error = error.wrap("y");
    }
    assert_eq!(error.index, 12);
    assert!(error.message.starts_with("12: y\n11: y\n10: y\n9: y\n"));
}

#[test]
fn the_depth_stops_at_the_largest_number() {
    let error = ErrorEval { kind: ErrorKind::Raised, message: "m".to_string(), index: usize::MAX };
    let wrapped = error.wrap("c");
    assert_eq!(wrapped.index, usize::MAX);
}

#[test]
fn clones_of_errors_hold_the_same() {
    let error = ErrorEval::new(ErrorKind::ArityError, "x").wrap("y");
    let copy = error.clone();
    assert_eq!(copy.kind, error.kind);
    assert_eq!(copy.message, error.message);
    assert_eq!(copy.index, error.index);
}

#[test]
fn reading_errors_have_names() {
    assert_eq!(ErrorRead::KeyboardInterrupt.name(), "KeyboardInterrupt");
    assert_eq!(ErrorRead::FileOpenError.name(), "FileOpenError");
    assert_eq!(ErrorRead::SyntaxFailure.name(), "SyntaxFailure");
    assert_eq!(ErrorRead::EmptyLine.name(), "EmptyLine");
    assert_eq!(ErrorRead::StreamFailure.name(), "StreamFailure");
    assert_eq!(ErrorRead::Utf8ConversionError.name(), "Utf8ConversionError");
    assert_eq!(ErrorRead::EOF.name(), "EOF");
}
