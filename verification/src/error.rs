//! The errors that evaluation and reading report.

use vstd::prelude::*;
use vstd::string::StringExecFns;
use crate::text::{decimal, push_decimal};

verus! {

/// Why an evaluation failed.
#[derive(Clone, Copy, Debug, PartialEq, Eq, Structural)]
pub enum ErrorKind {
    /// Too few or too many arguments to a form, a builtin or a lambda.
    ArityError,
    /// An operand of the wrong variant.
    TypeError,
    /// A symbol that no scope, builtin or special form binds.
    UnboundSymbol,
    /// An improper list where a proper one is required.
    MalformedList,
    /// A division, quotient, remainder or modulo by zero.
    DivisionByZero,
    /// The head of an application is nothing that can be called.
    InvalidCallTarget,
    /// A special form whose operands do not have the shape it asks for.
    MalformedSpecialForm,
    /// The result of an arithmetic operation cannot be represented.
    NumericOverflow,
    /// Evaluation nested deeper than the depth that was granted.
    DepthExceeded,
    /// The evaluated program called `error`.
    Raised,
    /// The evaluated program asked to leave.
    Exit,
    /// The text to evaluate could not be read as an expression.
    Syntax,
}

/// An evaluation error: its kind, the trace of messages and the number of
/// callers it has passed through.
#[derive(Debug)]
pub struct ErrorEval {
    pub kind: ErrorKind,
    pub message: String,
    pub index: usize,
}

/// The mathematical model of an [`ErrorEval`].
pub struct Failure {
    pub kind: ErrorKind,
    pub message: Seq<char>,
    pub index: nat,
}

impl View for ErrorEval {
    type V = Failure;

    open spec fn view(&self) -> Failure {
        Failure { kind: self.kind, message: self.message@, index: self.index as nat }
    }
}

/// Whether an error of this kind ends the whole evaluation: no form passes
/// over it, whatever it does with other errors.
pub open spec fn halting(kind: ErrorKind) -> bool {
    kind == ErrorKind::DepthExceeded || kind == ErrorKind::Exit
}

/// The depth that an error has after one more caller hands it on.
pub open spec fn next_index(index: nat) -> nat {
    if index < usize::MAX {
        index + 1
    } else {
        index
    }
}

/// An error raised at depth zero: the message is `0: ` and the context.
pub open spec fn failure(kind: ErrorKind, context: Seq<char>) -> Failure {
    Failure { kind, message: decimal(0) + seq![':', ' '] + context, index: 0 }
}

/// An error raised at depth zero whose message names something: the message
/// is `0: `, the text before the name, the name and the text after it.
pub open spec fn failure_about(
    kind: ErrorKind,
    before: Seq<char>,
    name: Seq<char>,
    after: Seq<char>,
) -> Failure {
    failure(kind, before + name + after)
}

/// The error that a caller hands on: the kind stays, the depth grows by one,
/// and the message gets a new first line made of the depth and the context.
pub open spec fn wrapped(inner: Failure, context: Seq<char>) -> Failure {
    Failure {
        kind: inner.kind,
        message: decimal(next_index(inner.index)) + seq![':', ' '] + context + seq!['\n']
            + inner.message,
        index: next_index(inner.index),
    }
}

impl Clone for ErrorEval {
    fn clone(&self) -> (r: Self)
        ensures
            r@ == self@,
    {
        ErrorEval { kind: self.kind, message: self.message.clone(), index: self.index }
    }
}

impl ErrorEval {
    /// A new error of the given kind, raised here.
    pub fn new(kind: ErrorKind, context: &str) -> (r: ErrorEval)
        ensures
            r@ == failure(kind, context@),
    {
        let mut message = String::new();
        push_decimal(&mut message, 0);
        message.push(':');
        message.push(' ');
        message.append(context);
        assert(message@ =~= decimal(0) + seq![':', ' '] + context@);
        ErrorEval { kind, message, index: 0 }
    }

    /// A new error of the given kind whose message names `name`.
    pub fn about(kind: ErrorKind, before: &str, name: &String, after: &str) -> (r: ErrorEval)
        ensures
            r@ == failure_about(kind, before@, name@, after@),
    {
        let mut message = String::new();
        push_decimal(&mut message, 0);
        message.push(':');
        message.push(' ');
        message.append(before);
        message.append(name.as_str());
        message.append(after);
        assert(message@ =~= decimal(0) + seq![':', ' '] + (before@ + name@ + after@));
        ErrorEval { kind, message, index: 0 }
    }

    /// Hands the error on to the caller, with `context` saying what failed there.
    pub fn wrap(self, context: &str) -> (r: ErrorEval)
        ensures
            r@ == wrapped(self@, context@),
    {
        let index = if self.index < usize::MAX {
            self.index + 1
        } else {
            self.index
        };
        let mut message = String::new();
        push_decimal(&mut message, index as u64);
        message.push(':');
        message.push(' ');
        message.append(context);
        message.push('\n');
        message.append(self.message.as_str());
        assert(message@ =~= decimal(next_index(self@.index)) + seq![':', ' '] + context@ + seq![
            '\n',
        ] + self.message@);
        ErrorEval { kind: self.kind, message, index }
    }

    /// Whether the error ends the whole evaluation.
    pub fn halts(&self) -> (r: bool)
        ensures
            r == halting(self@.kind),
    {
        self.kind == ErrorKind::DepthExceeded || self.kind == ErrorKind::Exit
    }

    /// The message, as the front ends print it.
    pub fn to_string(&self) -> (s: String)
        ensures
            s@ == self@.message,
    {
        self.message.clone()
    }
}

/// Why reading an expression failed.
#[derive(Clone, Copy, Debug, PartialEq, Eq, Structural)]
pub enum ErrorRead {
    KeyboardInterrupt,
    FileOpenError,
    SyntaxFailure,
    EmptyLine,
    StreamFailure,
    Utf8ConversionError,
    EOF,
}

/// The name of a reading error, as the front ends print it.
pub open spec fn read_error_name(e: ErrorRead) -> Seq<char> {
    match e {
        ErrorRead::KeyboardInterrupt => "KeyboardInterrupt"@,
        ErrorRead::FileOpenError => "FileOpenError"@,
        ErrorRead::SyntaxFailure => "SyntaxFailure"@,
        ErrorRead::EmptyLine => "EmptyLine"@,
        ErrorRead::StreamFailure => "StreamFailure"@,
        ErrorRead::Utf8ConversionError => "Utf8ConversionError"@,
        ErrorRead::EOF => "EOF"@,
    }
}

impl ErrorRead {
    /// The name of the error.
    pub fn name(&self) -> (s: &'static str)
        ensures
            s@ == read_error_name(*self),
    {
        match self {
            ErrorRead::KeyboardInterrupt => "KeyboardInterrupt",
            ErrorRead::FileOpenError => "FileOpenError",
            ErrorRead::SyntaxFailure => "SyntaxFailure",
            ErrorRead::EmptyLine => "EmptyLine",
            ErrorRead::StreamFailure => "StreamFailure",
            ErrorRead::Utf8ConversionError => "Utf8ConversionError",
            ErrorRead::EOF => "EOF",
        }
    }
}

} // verus!
