//! The special forms and the built-in procedures, by name.

use vstd::prelude::*;
use crate::text::is_text;

verus! {

/// A special form: it gets its operands unevaluated.
#[derive(Clone, Copy, Debug, PartialEq, Eq, Structural)]
pub enum SpecialForm {
    Define,
    Quote,
    If,
    And,
    Or,
    Lambda,
    Cond,
    Begin,
    Let,
    Quasiquote,
    Unquote,
}

/// A built-in procedure: it gets its arguments evaluated.
#[derive(Clone, Copy, Debug, PartialEq, Eq, Structural)]
pub enum Builtin {
    Apply,
    Print,
    Display,
    Displayln,
    Error,
    Eval,
    Exit,
    ExitForce,
    Newline,
    AtomOrNot,
    BooleanOrNot,
    IntegerOrNot,
    ListOrNot,
    NumberOrNot,
    NullOrNot,
    PairOrNot,
    ProcedureOrNot,
    StringOrNot,
    SymbolOrNot,
    DefinedLocalOrNot,
    DefinedAllOrNot,
    Append,
    Push,
    Car,
    Cdr,
    Cons,
    Length,
    List,
    MapEach,
    MapExpand,
    Filter,
    Reduce,
    Add,
    Subtract,
    Multiply,
    Divide,
    Abs,
    Expt,
    Quotient,
    Modulo,
    Remainder,
    EqQ,
    EqualQ,
    Not,
    EqualOrNot,
    LessThanOrNot,
    MoreThanOrNot,
    LessThanOrEqualOrNot,
    MoreThanOrEqualOrNot,
    EvenOrNot,
    OddOrNot,
    ZeroOrNot,
}

/// What a procedure value refers to. Two procedure values are the same
/// procedure exactly when they are equal.
#[derive(Clone, Copy, Debug, PartialEq, Eq, Structural)]
pub enum Procedure {
    Form(SpecialForm),
    Builtin(Builtin),
}

/// The special form that a name stands for.
pub open spec fn form_named(name: Seq<char>) -> Option<SpecialForm> {
    if name == "define"@ {
        Some(SpecialForm::Define)
    } else if name == "quote"@ {
        Some(SpecialForm::Quote)
    } else if name == "if"@ {
        Some(SpecialForm::If)
    } else if name == "and"@ {
        Some(SpecialForm::And)
    } else if name == "or"@ {
        Some(SpecialForm::Or)
    } else if name == "lambda"@ {
        Some(SpecialForm::Lambda)
    } else if name == "cond"@ {
        Some(SpecialForm::Cond)
    } else if name == "begin"@ {
        Some(SpecialForm::Begin)
    } else if name == "let"@ {
        Some(SpecialForm::Let)
    } else if name == "quasiquote"@ {
        Some(SpecialForm::Quasiquote)
    } else if name == "unquote"@ {
        Some(SpecialForm::Unquote)
    } else {
        None
    }
}

/// The built-in procedure that a name stands for.
pub open spec fn builtin_named(name: Seq<char>) -> Option<Builtin> {
    if name == "apply"@ {
        Some(Builtin::Apply)
    } else if name == "print"@ {
        Some(Builtin::Print)
    } else if name == "display"@ {
        Some(Builtin::Display)
    } else if name == "displayln"@ {
        Some(Builtin::Displayln)
    } else if name == "error"@ {
        Some(Builtin::Error)
    } else if name == "eval"@ {
        Some(Builtin::Eval)
    } else if name == "exit"@ {
        Some(Builtin::Exit)
    } else if name == "exit_force"@ {
        Some(Builtin::ExitForce)
    } else if name == "newline"@ {
        Some(Builtin::Newline)
    } else if name == "atom?"@ {
        Some(Builtin::AtomOrNot)
    } else if name == "boolean?"@ {
        Some(Builtin::BooleanOrNot)
    } else if name == "integer?"@ {
        Some(Builtin::IntegerOrNot)
    } else if name == "list?"@ {
        Some(Builtin::ListOrNot)
    } else if name == "number?"@ {
        Some(Builtin::NumberOrNot)
    } else if name == "null?"@ {
        Some(Builtin::NullOrNot)
    } else if name == "pair?"@ {
        Some(Builtin::PairOrNot)
    } else if name == "procedure?"@ {
        Some(Builtin::ProcedureOrNot)
    } else if name == "string?"@ {
        Some(Builtin::StringOrNot)
    } else if name == "symbol?"@ {
        Some(Builtin::SymbolOrNot)
    } else if name == "defined_local?"@ {
        Some(Builtin::DefinedLocalOrNot)
    } else if name == "defined_all?"@ {
        Some(Builtin::DefinedAllOrNot)
    } else if name == "append"@ {
        Some(Builtin::Append)
    } else if name == "push"@ {
        Some(Builtin::Push)
    } else if name == "car"@ {
        Some(Builtin::Car)
    } else if name == "cdr"@ {
        Some(Builtin::Cdr)
    } else if name == "cons"@ {
        Some(Builtin::Cons)
    } else if name == "length"@ {
        Some(Builtin::Length)
    } else if name == "list"@ {
        Some(Builtin::List)
    } else if name == "map"@ {
        Some(Builtin::MapEach)
    } else if name == "map_expand"@ {
        Some(Builtin::MapExpand)
    } else if name == "filter"@ {
        Some(Builtin::Filter)
    } else if name == "reduce"@ {
        Some(Builtin::Reduce)
    } else if name == "+"@ {
        Some(Builtin::Add)
    } else if name == "-"@ {
        Some(Builtin::Subtract)
    } else if name == "*"@ {
        Some(Builtin::Multiply)
    } else if name == "/"@ {
        Some(Builtin::Divide)
    } else if name == "abs"@ {
        Some(Builtin::Abs)
    } else if name == "expt"@ {
        Some(Builtin::Expt)
    } else if name == "quotient"@ {
        Some(Builtin::Quotient)
    } else if name == "modulo"@ {
        Some(Builtin::Modulo)
    } else if name == "remainder"@ {
        Some(Builtin::Remainder)
    } else if name == "eq?"@ {
        Some(Builtin::EqQ)
    } else if name == "equal?"@ {
        Some(Builtin::EqualQ)
    } else if name == "not"@ {
        Some(Builtin::Not)
    } else if name == "="@ {
        Some(Builtin::EqualOrNot)
    } else if name == "<"@ {
        Some(Builtin::LessThanOrNot)
    } else if name == ">"@ {
        Some(Builtin::MoreThanOrNot)
    } else if name == "<="@ {
        Some(Builtin::LessThanOrEqualOrNot)
    } else if name == ">="@ {
        Some(Builtin::MoreThanOrEqualOrNot)
    } else if name == "even?"@ {
        Some(Builtin::EvenOrNot)
    } else if name == "odd?"@ {
        Some(Builtin::OddOrNot)
    } else if name == "zero?"@ {
        Some(Builtin::ZeroOrNot)
    } else {
        None
    }
}

impl SpecialForm {
    /// Looks a special form up by its name.
    pub fn named(name: &String) -> (r: Option<SpecialForm>)
        ensures
            r == form_named(name@),
    {
        if is_text(name, "define") {
            Some(SpecialForm::Define)
        } else if is_text(name, "quote") {
            Some(SpecialForm::Quote)
        } else if is_text(name, "if") {
            Some(SpecialForm::If)
        } else if is_text(name, "and") {
            Some(SpecialForm::And)
        } else if is_text(name, "or") {
            Some(SpecialForm::Or)
        } else if is_text(name, "lambda") {
            Some(SpecialForm::Lambda)
        } else if is_text(name, "cond") {
            Some(SpecialForm::Cond)
        } else if is_text(name, "begin") {
            Some(SpecialForm::Begin)
        } else if is_text(name, "let") {
            Some(SpecialForm::Let)
        } else if is_text(name, "quasiquote") {
            Some(SpecialForm::Quasiquote)
        } else if is_text(name, "unquote") {
            Some(SpecialForm::Unquote)
        } else {
            None
        }
    }
}

impl Builtin {
    /// Looks a built-in procedure up by its name.
    pub fn named(name: &String) -> (r: Option<Builtin>)
        ensures
            r == builtin_named(name@),
    {
        if is_text(name, "apply") {
            Some(Builtin::Apply)
        } else if is_text(name, "print") {
            Some(Builtin::Print)
        } else if is_text(name, "display") {
            Some(Builtin::Display)
        } else if is_text(name, "displayln") {
            Some(Builtin::Displayln)
        } else if is_text(name, "error") {
            Some(Builtin::Error)
        } else if is_text(name, "eval") {
            Some(Builtin::Eval)
        } else if is_text(name, "exit") {
            Some(Builtin::Exit)
        } else if is_text(name, "exit_force") {
            Some(Builtin::ExitForce)
        } else if is_text(name, "newline") {
            Some(Builtin::Newline)
        } else if is_text(name, "atom?") {
            Some(Builtin::AtomOrNot)
        } else if is_text(name, "boolean?") {
            Some(Builtin::BooleanOrNot)
        } else if is_text(name, "integer?") {
            Some(Builtin::IntegerOrNot)
        } else if is_text(name, "list?") {
            Some(Builtin::ListOrNot)
        } else if is_text(name, "number?") {
            Some(Builtin::NumberOrNot)
        } else if is_text(name, "null?") {
            Some(Builtin::NullOrNot)
        } else if is_text(name, "pair?") {
            Some(Builtin::PairOrNot)
        } else if is_text(name, "procedure?") {
            Some(Builtin::ProcedureOrNot)
        } else if is_text(name, "string?") {
            Some(Builtin::StringOrNot)
        } else if is_text(name, "symbol?") {
            Some(Builtin::SymbolOrNot)
        } else if is_text(name, "defined_local?") {
            Some(Builtin::DefinedLocalOrNot)
        } else if is_text(name, "defined_all?") {
            Some(Builtin::DefinedAllOrNot)
        } else if is_text(name, "append") {
            Some(Builtin::Append)
        } else if is_text(name, "push") {
            Some(Builtin::Push)
        } else if is_text(name, "car") {
            Some(Builtin::Car)
        } else if is_text(name, "cdr") {
            Some(Builtin::Cdr)
        } else if is_text(name, "cons") {
            Some(Builtin::Cons)
        } else if is_text(name, "length") {
            Some(Builtin::Length)
        } else if is_text(name, "list") {
            Some(Builtin::List)
        } else if is_text(name, "map") {
            Some(Builtin::MapEach)
        } else if is_text(name, "map_expand") {
            Some(Builtin::MapExpand)
        } else if is_text(name, "filter") {
            Some(Builtin::Filter)
        } else if is_text(name, "reduce") {
            Some(Builtin::Reduce)
        } else if is_text(name, "+") {
            Some(Builtin::Add)
        } else if is_text(name, "-") {
            Some(Builtin::Subtract)
        } else if is_text(name, "*") {
            Some(Builtin::Multiply)
        } else if is_text(name, "/") {
            Some(Builtin::Divide)
        } else if is_text(name, "abs") {
            Some(Builtin::Abs)
        } else if is_text(name, "expt") {
            Some(Builtin::Expt)
        } else if is_text(name, "quotient") {
            Some(Builtin::Quotient)
        } else if is_text(name, "modulo") {
            Some(Builtin::Modulo)
        } else if is_text(name, "remainder") {
            Some(Builtin::Remainder)
        } else if is_text(name, "eq?") {
            Some(Builtin::EqQ)
        } else if is_text(name, "equal?") {
            Some(Builtin::EqualQ)
        } else if is_text(name, "not") {
            Some(Builtin::Not)
        } else if is_text(name, "=") {
            Some(Builtin::EqualOrNot)
        } else if is_text(name, "<") {
            Some(Builtin::LessThanOrNot)
        } else if is_text(name, ">") {
            Some(Builtin::MoreThanOrNot)
        } else if is_text(name, "<=") {
            Some(Builtin::LessThanOrEqualOrNot)
        } else if is_text(name, ">=") {
            Some(Builtin::MoreThanOrEqualOrNot)
        } else if is_text(name, "even?") {
            Some(Builtin::EvenOrNot)
        } else if is_text(name, "odd?") {
            Some(Builtin::OddOrNot)
        } else if is_text(name, "zero?") {
            Some(Builtin::ZeroOrNot)
        } else {
            None
        }
    }
}

} // verus!
