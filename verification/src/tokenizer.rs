//! From characters to tokens.

use vstd::prelude::*;
use vstd::string::StringExecFns;
use crate::error::ErrorRead;
use crate::number::{number_text, parse_number, Number};
use crate::text::{chars_of, digit_value, string_of, value_of_digit};

verus! {

/// One token of the source text.
#[derive(Debug)]
pub enum Token {
    ParL,
    ParR,
    Quote,
    QuasiQuote,
    Unquote,
    Dot,
    Boolean(bool),
    Numeric(Number),
    String(String),
    Identifier(String),
}

/// The mathematical model of a [`Token`].
pub enum Lexeme {
    ParL,
    ParR,
    Quote,
    QuasiQuote,
    Unquote,
    Dot,
    Boolean(bool),
    Numeric(int),
    Text(Seq<char>),
    Identifier(Seq<char>),
}

impl View for Token {
    type V = Lexeme;

    open spec fn view(&self) -> Lexeme {
        match self {
            Token::ParL => Lexeme::ParL,
            Token::ParR => Lexeme::ParR,
            Token::Quote => Lexeme::Quote,
            Token::QuasiQuote => Lexeme::QuasiQuote,
            Token::Unquote => Lexeme::Unquote,
            Token::Dot => Lexeme::Dot,
            Token::Boolean(b) => Lexeme::Boolean(*b),
            Token::Numeric(n) => Lexeme::Numeric(n@),
            Token::String(s) => Lexeme::Text(s@),
            Token::Identifier(s) => Lexeme::Identifier(s@),
        }
    }
}

/// The models of a sequence of tokens.
pub open spec fn lexemes(tokens: Seq<Token>) -> Seq<Lexeme> {
    Seq::new(tokens.len(), |i: int| tokens[i]@)
}

/// How a token is named: its kind, and what it holds.
pub open spec fn lexeme_text(t: Lexeme) -> Seq<char> {
    match t {
        Lexeme::ParL => "LEFT_PARENTHESIS"@,
        Lexeme::ParR => "RIGHT_PARENTHESIS"@,
        Lexeme::Quote => "QUOTE"@,
        Lexeme::QuasiQuote => "QUASIQUOTE"@,
        Lexeme::Unquote => "UNQUOTE"@,
        Lexeme::Dot => "DOT"@,
        Lexeme::Boolean(b) => "(BOOLEAN_LITERAL "@ + (if b {
            "true"@
        } else {
            "false"@
        }) + " )"@,
        Lexeme::Numeric(n) => "(NUMERIC_LITERAL "@ + number_text(n) + ")"@,
        Lexeme::Text(s) => "(STRING_LITERAL \""@ + s + "\")"@,
        Lexeme::Identifier(s) => "(IDENTIFIER "@ + s + ")"@,
    }
}

impl Clone for Token {
    fn clone(&self) -> (r: Token)
        ensures
            r@ == self@,
    {
        match self {
            Token::ParL => Token::ParL,
            Token::ParR => Token::ParR,
            Token::Quote => Token::Quote,
            Token::QuasiQuote => Token::QuasiQuote,
            Token::Unquote => Token::Unquote,
            Token::Dot => Token::Dot,
            Token::Boolean(b) => Token::Boolean(*b),
            Token::Numeric(n) => Token::Numeric(*n),
            Token::String(s) => Token::String(s.clone()),
            Token::Identifier(s) => Token::Identifier(s.clone()),
        }
    }
}

impl Token {
    /// The token's name.
    pub fn to_string(&self) -> (s: String)
        ensures
            s@ == lexeme_text(self@),
    {
        match self {
            Token::ParL => String::from_str("LEFT_PARENTHESIS"),
            Token::ParR => String::from_str("RIGHT_PARENTHESIS"),
            Token::Quote => String::from_str("QUOTE"),
            Token::QuasiQuote => String::from_str("QUASIQUOTE"),
            Token::Unquote => String::from_str("UNQUOTE"),
            Token::Dot => String::from_str("DOT"),
            Token::Boolean(b) => {
                let mut s = String::from_str("(BOOLEAN_LITERAL ");
                if *b {
                    s.append("true");
                } else {
                    s.append("false");
                }
                s.append(" )");
                s
            },
            Token::Numeric(n) => {
                let mut s = String::from_str("(NUMERIC_LITERAL ");
                n.write(&mut s);
                s.append(")");
                s
            },
            Token::String(text) => {
                let mut s = String::from_str("(STRING_LITERAL \"");
                s.append(text.as_str());
                s.append("\")");
                s
            },
            Token::Identifier(text) => {
                let mut s = String::from_str("(IDENTIFIER ");
                s.append(text.as_str());
                s.append(")");
                s
            },
        }
    }
}

/// Whether a character separates tokens and is itself none.
pub open spec fn is_space(c: char) -> bool {
    c == ' ' || c == '\n' || c == '\r' || c == '\t'
}

/// Whether a character ends the word before it.
pub open spec fn ends_word(c: char) -> bool {
    c == '(' || c == ')' || c == '\'' || c == '`' || c == ',' || c == '"'
}

/// The position of the first line feed at or after `pos`; the length of the
/// text where there is none.
pub open spec fn line_end(text: Seq<char>, pos: int) -> int
    decreases text.len() - pos,
{
    if pos < 0 || pos >= text.len() {
        text.len() as int
    } else if text[pos] == '\n' {
        pos
    } else {
        line_end(text, pos + 1)
    }
}

/// The position of the first character at or after `pos` that is a space or
/// ends a word; the length of the text where there is none.
pub open spec fn word_end(text: Seq<char>, pos: int) -> int
    decreases text.len() - pos,
{
    if pos < 0 || pos >= text.len() {
        text.len() as int
    } else if is_space(text[pos]) || ends_word(text[pos]) {
        pos
    } else {
        word_end(text, pos + 1)
    }
}

/// The characters of a string literal whose body goes on at `pos`, after
/// `so_far`, and the position after its closing quote. A backslash takes the
/// character after it as it is, but `\n` is a line feed. None where the text
/// ends before the literal does.
pub open spec fn string_body(text: Seq<char>, pos: int, so_far: Seq<char>) -> Option<
    (Seq<char>, int),
>
    decreases text.len() - pos,
{
    if pos < 0 || pos >= text.len() {
        None
    } else if text[pos] == '"' {
        Some((so_far, pos + 1))
    } else if text[pos] == '\\' {
        if pos + 1 >= text.len() {
            None
        } else {
            string_body(
                text,
                pos + 2,
                so_far.push(
                    if text[pos + 1] == 'n' {
                        '\n'
                    } else {
                        text[pos + 1]
                    },
                ),
            )
        }
    } else {
        string_body(text, pos + 1, so_far.push(text[pos]))
    }
}

/// Whether a word that begins with `c` may be a numeral.
pub open spec fn begins_numeral(c: char) -> bool {
    digit_value(c) is Some || c == '+' || c == '-' || c == '.'
}

/// The token that a word is: the dot, a number where the word is a numeral,
/// else an identifier.
pub open spec fn word_lexeme(word: Seq<char>) -> Lexeme {
    if word == seq!['.'] {
        Lexeme::Dot
    } else if word.len() > 0 && begins_numeral(word[0]) {
        match parse_number(word) {
            Some(n) => Lexeme::Numeric(n),
            None => Lexeme::Identifier(word),
        }
    } else {
        Lexeme::Identifier(word)
    }
}

/// What is read at one position: a token, nothing (a space or a comment) or
/// an error, and the position to go on from.
pub struct Scanned {
    pub token: Result<Option<Lexeme>, ErrorRead>,
    pub next: int,
}

/// What is read at `pos`, a position inside the text.
///
/// A semicolon begins a comment that runs to the end of the line. The
/// parentheses, the quote, the backquote and the comma are tokens. `#t` and
/// `#f` are the booleans. A double quote begins a string literal. Anything
/// else begins a word, which runs up to the next space or word-ending
/// character.
pub open spec fn scanned(text: Seq<char>, pos: int) -> Scanned {
    let c = text[pos];
    if c == ';' {
        Scanned { token: Ok(None), next: line_end(text, pos) }
    } else if is_space(c) {
        Scanned { token: Ok(None), next: pos + 1 }
    } else if c == '(' {
        Scanned { token: Ok(Some(Lexeme::ParL)), next: pos + 1 }
    } else if c == ')' {
        Scanned { token: Ok(Some(Lexeme::ParR)), next: pos + 1 }
    } else if c == '\'' {
        Scanned { token: Ok(Some(Lexeme::Quote)), next: pos + 1 }
    } else if c == '`' {
        Scanned { token: Ok(Some(Lexeme::QuasiQuote)), next: pos + 1 }
    } else if c == ',' {
        Scanned { token: Ok(Some(Lexeme::Unquote)), next: pos + 1 }
    } else if c == '#' {
        if pos + 1 < text.len() && text[pos + 1] == 't' {
            Scanned { token: Ok(Some(Lexeme::Boolean(true))), next: pos + 2 }
        } else if pos + 1 < text.len() && text[pos + 1] == 'f' {
            Scanned { token: Ok(Some(Lexeme::Boolean(false))), next: pos + 2 }
        } else {
            Scanned { token: Err(ErrorRead::SyntaxFailure), next: pos }
        }
    } else if c == '"' {
        match string_body(text, pos + 1, Seq::empty()) {
            Some((body, next)) => Scanned { token: Ok(Some(Lexeme::Text(body))), next },
            None => Scanned { token: Err(ErrorRead::SyntaxFailure), next: pos },
        }
    } else {
        let end = word_end(text, pos);
        Scanned { token: Ok(Some(word_lexeme(text.subrange(pos, end)))), next: end }
    }
}

/// A comment's end lies after its semicolon and inside the text.
pub proof fn lemma_line_end(text: Seq<char>, pos: int)
    requires
        0 <= pos <= text.len(),
    ensures
        pos <= line_end(text, pos) <= text.len(),
        pos < text.len() && text[pos] != '\n' ==> pos < line_end(text, pos),
    decreases text.len() - pos,
{
    if pos < text.len() && text[pos] != '\n' {
        lemma_line_end(text, pos + 1);
    }
}

/// A word's end lies after its first character and inside the text.
pub proof fn lemma_word_end(text: Seq<char>, pos: int)
    requires
        0 <= pos <= text.len(),
    ensures
        pos <= word_end(text, pos) <= text.len(),
        pos < text.len() && !is_space(text[pos]) && !ends_word(text[pos]) ==> pos < word_end(
            text,
            pos,
        ),
    decreases text.len() - pos,
{
    if pos < text.len() && !is_space(text[pos]) && !ends_word(text[pos]) {
        lemma_word_end(text, pos + 1);
    }
}

/// A string literal's end lies after the position its body began at and
/// inside the text.
pub proof fn lemma_string_body(text: Seq<char>, pos: int, so_far: Seq<char>)
    requires
        0 <= pos <= text.len(),
    ensures
        match string_body(text, pos, so_far) {
            Some((_, next)) => pos < next <= text.len(),
            None => true,
        },
    decreases text.len() - pos,
{
    if pos < text.len() && text[pos] != '"' {
        if text[pos] == '\\' {
            if pos + 1 < text.len() {
                lemma_string_body(
                    text,
                    pos + 2,
                    so_far.push(
                        if text[pos + 1] == 'n' {
                            '\n'
                        } else {
                            text[pos + 1]
                        },
                    ),
                );
            }
        } else {
            lemma_string_body(text, pos + 1, so_far.push(text[pos]));
        }
    }
}

/// Reading at a position inside the text either fails or goes forward and
/// stays inside the text.
pub proof fn lemma_scanned_advances(text: Seq<char>, pos: int)
    requires
        0 <= pos < text.len(),
    ensures
        scanned(text, pos).token is Ok ==> pos < scanned(text, pos).next <= text.len(),
{
    lemma_line_end(text, pos);
    lemma_word_end(text, pos);
    lemma_string_body(text, pos + 1, Seq::empty());
}

/// The tokens of the text from `pos` on, after `done`; or the first error.
pub open spec fn tokens_from(text: Seq<char>, pos: int, done: Seq<Lexeme>) -> Result<
    Seq<Lexeme>,
    ErrorRead,
>
    decreases text.len() - pos,
{
    if pos < 0 || pos >= text.len() {
        Ok(done)
    } else {
        let s = scanned(text, pos);
        proof {
            lemma_scanned_advances(text, pos);
        }
        match s.token {
            Err(e) => Err(e),
            Ok(Some(t)) => tokens_from(text, s.next, done.push(t)),
            Ok(None) => tokens_from(text, s.next, done),
        }
    }
}

/// The tokens of a text.
pub open spec fn tokens_of(text: Seq<char>) -> Result<Seq<Lexeme>, ErrorRead> {
    tokens_from(text, 0, Seq::empty())
}

/// Reads a text token by token.
#[derive(Debug)]
pub struct Tokenizer {
    content_vec: Vec<char>,
    pos: usize,
}

/// The model of what the tokenizer returns.
pub open spec fn lexed(r: Result<Vec<Token>, ErrorRead>) -> Result<Seq<Lexeme>, ErrorRead> {
    match r {
        Ok(tokens) => Ok(lexemes(tokens@)),
        Err(e) => Err(e),
    }
}

/// The model of what one step of the tokenizer returns.
pub open spec fn lexed_one(r: Result<Option<Token>, ErrorRead>) -> Result<Option<Lexeme>, ErrorRead> {
    match r {
        Ok(Some(t)) => Ok(Some(t@)),
        Ok(None) => Ok(None),
        Err(e) => Err(e),
    }
}

fn is_space_char(c: char) -> (r: bool)
    ensures
        r == is_space(c),
{
    c == ' ' || c == '\n' || c == '\r' || c == '\t'
}

fn ends_word_char(c: char) -> (r: bool)
    ensures
        r == ends_word(c),
{
    c == '(' || c == ')' || c == '\'' || c == '`' || c == ',' || c == '"'
}

impl Tokenizer {
    /// The text that is read.
    pub closed spec fn text(&self) -> Seq<char> {
        self.content_vec@
    }

    /// The position that reading goes on from.
    pub closed spec fn position(&self) -> int {
        self.pos as int
    }

    /// A tokenizer at the start of `content`.
    pub fn new(content: String) -> (r: Tokenizer)
        ensures
            r.text() == content@,
            r.position() == 0,
    {
        Tokenizer { content_vec: chars_of(content.as_str()), pos: 0 }
    }

    /// The token that a word is.
    fn word_token(&self, from: usize, to: usize) -> (t: Token)
        requires
            from < to <= self.content_vec.len(),
        ensures
            t@ == word_lexeme(self.text().subrange(from as int, to as int)),
    {
        let word = string_of(&self.content_vec, from, to);
        let first = self.content_vec[from];
        assert(word@[0] == first);
        if to - from == 1 && first == '.' {
            assert(word@ =~= seq!['.']);
            return Token::Dot;
        }
        assert(word@ != seq!['.']) by {
            if word@ == seq!['.'] {
                assert(word@.len() == 1);
            }
        }
        if value_of_digit(first).is_some() || first == '+' || first == '-' || first == '.' {
            let mut chars: Vec<char> = Vec::new();
            let mut i = from;
            while i < to
                invariant
                    from <= i <= to <= self.content_vec.len(),
                    chars@ == self.content_vec@.subrange(from as int, i as int),
                decreases to - i,
            {
                chars.push(self.content_vec[i]);
                assert(self.content_vec@.subrange(from as int, i + 1)
                    =~= self.content_vec@.subrange(from as int, i as int).push(
                    self.content_vec[i as int],
                ));
                i += 1;
            }
            match Number::parse(&chars) {
                Some(n) => Token::Numeric(n),
                None => Token::Identifier(word),
            }
        } else {
            Token::Identifier(word)
        }
    }

    /// Reads at the current position, which lies inside the text.
    fn next_token(&mut self) -> (r: Result<Option<Token>, ErrorRead>)
        requires
            0 <= old(self).position() < old(self).text().len(),
        ensures
            final(self).text() == old(self).text(),
            lexed_one(r) == scanned(old(self).text(), old(self).position()).token,
            r is Ok ==> final(self).position() == scanned(
                old(self).text(),
                old(self).position(),
            ).next,
    {
        let len = self.content_vec.len();
        let c = self.content_vec[self.pos];
        let ghost text = self.content_vec@;
        let ghost start = self.pos as int;
        if c == ';' {
            let mut p = self.pos;
            while p < self.content_vec.len() && self.content_vec[p] != '\n'
                invariant
                    start <= p <= self.content_vec.len(),
                    text == self.content_vec@,
                    line_end(text, p as int) == line_end(text, start),
                decreases self.content_vec.len() - p,
            {
                p += 1;
            }
            self.pos = p;
            Ok(None)
        } else if is_space_char(c) {
            self.pos += 1;
            Ok(None)
        } else if c == '(' {
            self.pos += 1;
            Ok(Some(Token::ParL))
        } else if c == ')' {
            self.pos += 1;
            Ok(Some(Token::ParR))
        } else if c == '\'' {
            self.pos += 1;
            Ok(Some(Token::Quote))
        } else if c == '`' {
            self.pos += 1;
            Ok(Some(Token::QuasiQuote))
        } else if c == ',' {
            self.pos += 1;
            Ok(Some(Token::Unquote))
        } else if c == '#' {
            if self.pos + 1 < self.content_vec.len() && self.content_vec[self.pos + 1] == 't' {
                self.pos += 2;
                Ok(Some(Token::Boolean(true)))
            } else if self.pos + 1 < self.content_vec.len() && self.content_vec[self.pos + 1]
                == 'f' {
                self.pos += 2;
                Ok(Some(Token::Boolean(false)))
            } else {
                Err(ErrorRead::SyntaxFailure)
            }
        } else if c == '"' {
            let mut body = String::new();
            let mut p = self.pos + 1;
            while p < self.content_vec.len()
                invariant
                    start < p <= self.content_vec.len(),
                    text == self.content_vec@,
                    text == old(self).text(),
                    start == old(self).position(),
                    text[start] == '"',
                    self.pos == start,
                    string_body(text, p as int, body@) == string_body(
                        text,
                        start + 1,
                        Seq::empty(),
                    ),
                decreases self.content_vec.len() - p,
            {
                let d = self.content_vec[p];
                if d == '"' {
                    self.pos = p + 1;
                    return Ok(Some(Token::String(body)));
                } else if d == '\\' {
                    if p + 1 >= self.content_vec.len() {
                        return Err(ErrorRead::SyntaxFailure);
                    }
                    let e = self.content_vec[p + 1];
                    if e == 'n' {
                        body.push('\n');
                    } else {
                        body.push(e);
                    }
                    p += 2;
                } else {
                    body.push(d);
                    p += 1;
                }
            }
            Err(ErrorRead::SyntaxFailure)
        } else {
            let mut p = self.pos;
            while p < self.content_vec.len() && !is_space_char(self.content_vec[p])
                && !ends_word_char(self.content_vec[p])
                invariant
                    start <= p <= self.content_vec.len(),
                    text == self.content_vec@,
                    word_end(text, p as int) == word_end(text, start),
                decreases self.content_vec.len() - p,
            {
                p += 1;
            }
            proof {
                lemma_word_end(text, start);
            }
            let token = self.word_token(self.pos, p);
            self.pos = p;
            Ok(Some(token))
        }
    }

    /// The tokens of the text from the current position on.
    pub fn tokenize(&mut self) -> (r: Result<Vec<Token>, ErrorRead>)
        ensures
            final(self).text() == old(self).text(),
            lexed(r) == tokens_from(old(self).text(), old(self).position(), Seq::empty()),
    {
        let mut done: Vec<Token> = Vec::new();
        assert(lexemes(done@) =~= Seq::empty());
        while self.pos < self.content_vec.len()
            invariant
                self.text() == old(self).text(),
                tokens_from(self.text(), self.position(), lexemes(done@)) == tokens_from(
                    old(self).text(),
                    old(self).position(),
                    Seq::empty(),
                ),
            decreases self.content_vec.len() - self.pos,
        {
            let ghost before = lexemes(done@);
            proof {
                lemma_scanned_advances(self.text(), self.position());
            }
            match self.next_token() {
                Err(e) => {
                    return Err(e);
                },
                Ok(Some(t)) => {
                    done.push(t);
                    assert(lexemes(done@) =~= before.push(t@));
                },
                Ok(None) => {},
            }
        }
        Ok(done)
    }
}

} // verus!
