//! From tokens to a value.

use vstd::prelude::*;
use vstd::string::StringExecFns;
use crate::error::ErrorRead;
use crate::text::is_text;
use crate::tokenizer::{lexemes, Lexeme, Token};
use crate::value::{rendered, Datum, Value};

verus! {

/// The list of the symbol `name` and `v`: what a quote mark before `v`
/// stands for.
pub open spec fn marked(name: Seq<char>, v: Datum) -> Datum {
    Datum::Pair(
        Box::new(Datum::Symbol(name)),
        Box::new(Datum::Pair(Box::new(v), Box::new(Datum::Nil))),
    )
}

/// The value that the tokens from `pos` on begin with, and the position
/// after it; none where they begin with no value.
///
/// A number, a boolean, a string and an identifier are a value each, an
/// identifier being a symbol. A left parenthesis begins a list. A quote, a
/// backquote and a comma stand for `quote`, `quasiquote` and `unquote` of the
/// value after them. A right parenthesis on its own reads as the symbol `)`,
/// which is what closes a dotted list.
pub open spec fn parsed(tokens: Seq<Lexeme>, pos: int) -> Option<(Datum, int)>
    decreases tokens.len() - pos, 0nat,
{
    if pos < 0 || pos >= tokens.len() {
        None
    } else {
        match tokens[pos] {
            Lexeme::Numeric(n) => Some((Datum::Numeric(n), pos + 1)),
            Lexeme::Boolean(b) => Some((Datum::Boolean(b), pos + 1)),
            Lexeme::Text(s) => Some((Datum::Text(s), pos + 1)),
            Lexeme::Identifier(s) => Some((Datum::Symbol(s), pos + 1)),
            Lexeme::ParL => parsed_tail(tokens, pos + 1),
            Lexeme::ParR => Some((Datum::Symbol(")"@), pos + 1)),
            Lexeme::Quote => match parsed(tokens, pos + 1) {
                Some((v, next)) => Some((marked("quote"@, v), next)),
                None => None,
            },
            Lexeme::QuasiQuote => match parsed(tokens, pos + 1) {
                Some((v, next)) => Some((marked("quasiquote"@, v), next)),
                None => None,
            },
            Lexeme::Unquote => match parsed(tokens, pos + 1) {
                Some((v, next)) => Some((marked("unquote"@, v), next)),
                None => None,
            },
            Lexeme::Dot => None,
        }
    }
}

/// The rest of a list whose items go on at `pos`, and the position after
/// its right parenthesis. After a dot come the list's last tail and the
/// right parenthesis.
pub open spec fn parsed_tail(tokens: Seq<Lexeme>, pos: int) -> Option<(Datum, int)>
    decreases tokens.len() - pos, 1nat,
{
    if pos < 0 || pos >= tokens.len() {
        None
    } else if tokens[pos] is ParR {
        Some((Datum::Nil, pos + 1))
    } else {
        match parsed(tokens, pos) {
            None => None,
            Some((first, after)) => if after <= pos || after >= tokens.len() {
                None
            } else if tokens[after] is Dot {
                match parsed(tokens, after + 1) {
                    None => None,
                    Some((rest, close)) => if close <= after || close > tokens.len() {
                        None
                    } else {
                        match parsed(tokens, close) {
                            None => None,
                            Some((closing, next)) => if rendered(closing) == ")"@ {
                                Some((Datum::Pair(Box::new(first), Box::new(rest)), next))
                            } else {
                                None
                            },
                        }
                    },
                }
            } else {
                match parsed_tail(tokens, after) {
                    None => None,
                    Some((rest, next)) => Some(
                        (Datum::Pair(Box::new(first), Box::new(rest)), next),
                    ),
                }
            },
        }
    }
}

/// Reads values from tokens.
#[derive(Debug)]
pub struct Parser {
    tokens: Vec<Token>,
    pos: usize,
}

/// The list of the symbol `name` and `v`.
fn mark(name: &str, v: Value) -> (r: Value)
    ensures
        r@ == marked(name@, v@),
{
    let r = Value::PairValue(
        Box::new(Value::SymbolValue(String::from_str(name))),
        Box::new(Value::PairValue(Box::new(v), Box::new(Value::NilValue))),
    );
    proof {
        reveal_with_fuel(Value::model, 3);
    }
    r
}

impl Parser {
    /// The tokens that are read.
    pub closed spec fn tokens(&self) -> Seq<Lexeme> {
        lexemes(self.tokens@)
    }

    /// The position that reading goes on from.
    pub closed spec fn position(&self) -> int {
        self.pos as int
    }

    /// A parser at the start of `tokens`.
    pub fn new(tokens: Vec<Token>) -> (r: Parser)
        ensures
            r.tokens() == lexemes(tokens@),
            r.position() == 0,
    {
        Parser { tokens, pos: 0 }
    }

    /// Reads the value that the tokens from the current position on begin
    /// with, and goes to the position after it.
    pub fn parse(&mut self) -> (r: Result<Value, ErrorRead>)
        ensures
            final(self).tokens() == old(self).tokens(),
            match r {
                Ok(v) => parsed(old(self).tokens(), old(self).position()) == Some(
                    (v@, final(self).position()),
                ) && old(self).position() < final(self).position() <= final(self).tokens().len(),
                Err(e) => e == ErrorRead::SyntaxFailure && parsed(
                    old(self).tokens(),
                    old(self).position(),
                ) is None,
            },
        decreases old(self).tokens().len() - old(self).position(), 0nat,
    {
        if self.pos >= self.tokens.len() {
            return Err(ErrorRead::SyntaxFailure);
        }
        let at = self.pos;
        self.pos = self.pos + 1;
        match &self.tokens[at] {
            Token::Numeric(n) => Ok(Value::NumericValue(*n)),
            Token::Boolean(b) => Ok(Value::BooleanValue(*b)),
            Token::String(s) => Ok(Value::StringValue(s.clone())),
            Token::Identifier(s) => Ok(Value::SymbolValue(s.clone())),
            Token::ParL => self.parse_tails(),
            Token::ParR => Ok(Value::SymbolValue(String::from_str(")"))),
            Token::Quote => match self.parse() {
                Ok(v) => Ok(mark("quote", v)),
                Err(e) => Err(e),
            },
            Token::QuasiQuote => match self.parse() {
                Ok(v) => Ok(mark("quasiquote", v)),
                Err(e) => Err(e),
            },
            Token::Unquote => match self.parse() {
                Ok(v) => Ok(mark("unquote", v)),
                Err(e) => Err(e),
            },
            Token::Dot => Err(ErrorRead::SyntaxFailure),
        }
    }

    /// Reads the rest of a list.
    fn parse_tails(&mut self) -> (r: Result<Value, ErrorRead>)
        ensures
            final(self).tokens() == old(self).tokens(),
            match r {
                Ok(v) => parsed_tail(old(self).tokens(), old(self).position()) == Some(
                    (v@, final(self).position()),
                ) && old(self).position() < final(self).position() <= final(self).tokens().len(),
                Err(e) => e == ErrorRead::SyntaxFailure && parsed_tail(
                    old(self).tokens(),
                    old(self).position(),
                ) is None,
            },
        decreases old(self).tokens().len() - old(self).position(), 1nat,
    {
        if self.pos >= self.tokens.len() {
            return Err(ErrorRead::SyntaxFailure);
        }
        match &self.tokens[self.pos] {
            Token::ParR => {
                self.pos = self.pos + 1;
                return Ok(Value::NilValue);
            },
            _ => {},
        }
        let first = match self.parse() {
            Ok(v) => v,
            Err(e) => {
                return Err(e);
            },
        };
        if self.pos >= self.tokens.len() {
            return Err(ErrorRead::SyntaxFailure);
        }
        let dotted = match &self.tokens[self.pos] {
            Token::Dot => true,
            _ => false,
        };
        if dotted {
            self.pos = self.pos + 1;
            let rest = match self.parse() {
                Ok(v) => v,
                Err(e) => {
                    return Err(e);
                },
            };
            let closing = match self.parse() {
                Ok(v) => v,
                Err(e) => {
                    return Err(e);
                },
            };
            let text = closing.to_string();
            if is_text(&text, ")") {
                Ok(Value::PairValue(Box::new(first), Box::new(rest)))
            } else {
                Err(ErrorRead::SyntaxFailure)
            }
        } else {
            match self.parse_tails() {
                Ok(rest) => Ok(Value::PairValue(Box::new(first), Box::new(rest))),
                Err(e) => Err(e),
            }
        }
    }
}

} // verus!
