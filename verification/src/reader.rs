//! What the two front ends share: reading and evaluating one expression, and
//! the turns by which a front end is driven.

use vstd::prelude::*;
use crate::error::{failure, ErrorEval, ErrorKind, Failure};
use crate::eval_env::{evaluated, well_formed, EvalEnv, World, GLOBAL};
use crate::parse::{parsed, Parser};
use crate::tokenizer::{tokens_of, Tokenizer};
use crate::value::rendered;

verus! {

/// What reading the next line of the input gave.
#[derive(Debug)]
pub enum Read {
    /// A line, with the line feed that ended it if there was one.
    Line(String),
    /// The end of the input.
    End,
    /// The input could not be read.
    Failed,
}

/// What the front end is to do after a turn.
#[derive(Clone, Copy, Debug, PartialEq, Eq, Structural)]
pub enum Next {
    /// Read the next line and hand it over.
    Read,
    /// Stop reading; the run is over.
    Return,
    /// Leave the process with this code.
    Exit(i32),
}

/// What one turn of a front end asks for: texts to write, then what to do.
#[derive(Debug)]
pub struct Turn {
    /// What the evaluated program printed, for the standard output.
    pub printed: String,
    /// The value of the expression as it is written, for the standard
    /// output or the output file; none where there is nothing to show.
    pub result: Option<String>,
    /// A note for the standard output.
    pub note: Option<String>,
    /// A complaint for the standard error.
    pub complaint: Option<String>,
    pub next: Next,
}

/// The model of a [`Read`].
pub enum ReadModel {
    Line(Seq<char>),
    End,
    Failed,
}

impl View for Read {
    type V = ReadModel;

    open spec fn view(&self) -> ReadModel {
        match self {
            Read::Line(s) => ReadModel::Line(s@),
            Read::End => ReadModel::End,
            Read::Failed => ReadModel::Failed,
        }
    }
}

/// The model of a [`Turn`].
pub struct TurnModel {
    pub printed: Seq<char>,
    pub result: Option<Seq<char>>,
    pub note: Option<Seq<char>>,
    pub complaint: Option<Seq<char>>,
    pub next: Next,
}

/// The model of an optional text.
pub open spec fn optional_text(s: Option<String>) -> Option<Seq<char>> {
    match s {
        Some(s) => Some(s@),
        None => None,
    }
}

impl View for Turn {
    type V = TurnModel;

    open spec fn view(&self) -> TurnModel {
        TurnModel {
            printed: self.printed@,
            result: optional_text(self.result),
            note: optional_text(self.note),
            complaint: optional_text(self.complaint),
            next: self.next,
        }
    }
}

/// A turn that asks for nothing but the next line.
pub open spec fn quiet_turn() -> TurnModel {
    TurnModel { printed: Seq::empty(), result: None, note: None, complaint: None, next: Next::Read }
}

/// The error for a text that is no expression.
pub open spec fn syntax_failure() -> Failure {
    failure(ErrorKind::Syntax, "[reader]: Cannot read an expression"@)
}

/// What reading `source` as one expression and evaluating it in the global
/// scope gives, as it is written, and the state after it. Only the first
/// expression of the text is read.
pub struct Interpreted {
    pub result: Result<Seq<char>, Failure>,
    pub world: World,
}

pub open spec fn interpreted(source: Seq<char>, w: World) -> Interpreted {
    match tokens_of(source) {
        Err(_) => Interpreted { result: Err(syntax_failure()), world: w },
        Ok(tokens) => match parsed(tokens, 0) {
            None => Interpreted { result: Err(syntax_failure()), world: w },
            Some((expr, _)) => {
                let o = evaluated(expr, GLOBAL as nat, w, w.depth_limit);
                Interpreted {
                    result: match o.result {
                        Ok(v) => Ok(rendered(v)),
                        Err(e) => Err(e),
                    },
                    world: o.world,
                }
            },
        },
    }
}

/// The model of what `interpret` returns and leaves behind.
pub open spec fn interpreted_model(r: Result<String, ErrorEval>, world: World) -> Interpreted {
    Interpreted {
        result: match r {
            Ok(s) => Ok(s@),
            Err(e) => Err(e@),
        },
        world,
    }
}

/// Reads `source` as one expression, evaluates it in the global scope and
/// gives the value as it is written.
pub fn interpret(env: &mut EvalEnv, source: String) -> (r: Result<String, ErrorEval>)
    ensures
        interpreted_model(r, final(env)@) == interpreted(source@, old(env)@),
        well_formed(old(env)@) ==> well_formed(final(env)@),
{
    let mut tokenizer = Tokenizer::new(source);
    match tokenizer.tokenize() {
        Err(_) => Err(ErrorEval::new(ErrorKind::Syntax, "[reader]: Cannot read an expression")),
        Ok(tokens) => {
            let mut parser = Parser::new(tokens);
            match parser.parse() {
                Err(_) => Err(
                    ErrorEval::new(ErrorKind::Syntax, "[reader]: Cannot read an expression"),
                ),
                Ok(expr) => match env.eval(expr) {
                    Ok(v) => Ok(v.to_string()),
                    Err(e) => Err(e),
                },
            }
        },
    }
}

} // verus!
