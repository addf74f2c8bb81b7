//! The batch front end: it is fed the lines of a file, gathers them until
//! the parentheses balance, and has each complete expression evaluated.

use vstd::prelude::*;
use vstd::string::StringExecFns;
use crate::error::{read_error_name, ErrorEval, ErrorRead};
use crate::eval_env::{initial_world, well_formed, EvalEnv, World};
use crate::reader::{
    interpret, interpreted, optional_text, quiet_turn, Next, Read, ReadModel, Turn, TurnModel,
};
use crate::text::{chars_of, is_text, string_of, trim, trimmed};

verus! {

/// What the batch front end remembers between lines.
#[derive(Debug)]
pub struct ReaderFile {
    /// How many parentheses are open.
    pub left_parenthesis_count: isize,
    pub is_inside_quote: bool,
    pub is_after_slash: bool,
    pub is_inside_comment: bool,
    /// The lines gathered for the expression that is being read.
    pub line: String,
    pub env: EvalEnv,
    pub have_output_file: bool,
    pub input_file_name: Option<String>,
    pub output_file_name: Option<String>,
}

/// The model of a [`ReaderFile`].
pub struct FileState {
    pub depth: int,
    pub inside_quote: bool,
    pub after_slash: bool,
    pub inside_comment: bool,
    pub line: Seq<char>,
    pub world: World,
    pub have_output_file: bool,
    pub input_file_name: Option<Seq<char>>,
    pub output_file_name: Option<Seq<char>>,
}

impl View for ReaderFile {
    type V = FileState;

    open spec fn view(&self) -> FileState {
        FileState {
            depth: self.left_parenthesis_count as int,
            inside_quote: self.is_inside_quote,
            after_slash: self.is_after_slash,
            inside_comment: self.is_inside_comment,
            line: self.line@,
            world: self.env@,
            have_output_file: self.have_output_file,
            input_file_name: optional_text(self.input_file_name),
            output_file_name: optional_text(self.output_file_name),
        }
    }
}

/// What is kept while a line is scanned: whether the scan is inside a string
/// literal, after a backslash or inside a comment, and how many parentheses
/// it has seen open and close.
pub struct Marks {
    pub inside_quote: bool,
    pub after_slash: bool,
    pub inside_comment: bool,
    pub opened: nat,
    pub closed: nat,
}

/// What one character makes of the marks.
///
/// Inside a comment only a line feed counts: it ends the comment. Outside
/// one, a parenthesis is counted unless it stands in a string literal, a
/// semicolon outside a string literal begins a comment, a double quote that
/// follows no backslash begins or ends a string literal, and a backslash in
/// a string literal takes the character after it.
pub open spec fn mark_step(m: Marks, c: char) -> Marks {
    if c == '\n' {
        Marks { inside_comment: false, ..m }
    } else if c == '(' {
        if m.inside_comment {
            m
        } else {
            Marks {
                after_slash: false,
                opened: if m.inside_quote {
                    m.opened
                } else {
                    m.opened + 1
                },
                ..m
            }
        }
    } else if c == ')' {
        if m.inside_comment {
            m
        } else {
            Marks {
                after_slash: false,
                closed: if m.inside_quote {
                    m.closed
                } else {
                    m.closed + 1
                },
                ..m
            }
        }
    } else if c == ';' {
        if m.inside_comment {
            m
        } else {
            Marks { after_slash: false, inside_comment: !m.inside_quote, ..m }
        }
    } else if c == '"' {
        if m.inside_comment {
            m
        } else if m.after_slash {
            Marks { after_slash: false, ..m }
        } else {
            Marks { inside_quote: !m.inside_quote, ..m }
        }
    } else if c == '\\' {
        if m.inside_comment || !m.inside_quote {
            m
        } else {
            Marks { after_slash: !m.after_slash, ..m }
        }
    } else if c == 'n' {
        if m.inside_comment {
            m
        } else if m.inside_quote && m.after_slash {
            Marks { after_slash: false, ..m }
        } else {
            m
        }
    } else {
        Marks { after_slash: false, ..m }
    }
}

/// The marks after the first `count` characters of `text`.
pub open spec fn marks_after(text: Seq<char>, count: nat, start: Marks) -> Marks
    decreases count,
{
    if count == 0 || count > text.len() {
        start
    } else {
        mark_step(marks_after(text, (count - 1) as nat, start), text[count - 1])
    }
}

/// What feeding a line gives, and the state after it.
pub struct Fed {
    pub result: Result<(), ErrorRead>,
    pub state: FileState,
}

/// What feeding `line` to the state gives.
///
/// The line is taken without the white space at its start and its end. An
/// empty line is the error `EmptyLine` and changes nothing. Else the line is
/// scanned, and the parentheses that it opens and closes are added to the
/// count; a count below zero, or one that does not fit, is the error
/// `SyntaxFailure`. A line that is accepted is gathered, with a line feed
/// after it.
pub open spec fn line_processed(s: FileState, line: Seq<char>) -> Fed {
    let text = trimmed(line);
    if text.len() == 0 {
        Fed { result: Err(ErrorRead::EmptyLine), state: s }
    } else {
        let m = marks_after(
            text,
            text.len(),
            Marks {
                inside_quote: s.inside_quote,
                after_slash: s.after_slash,
                inside_comment: s.inside_comment,
                opened: 0,
                closed: 0,
            },
        );
        let depth = s.depth + m.opened - m.closed;
        let scanned = FileState {
            inside_quote: m.inside_quote,
            after_slash: m.after_slash,
            inside_comment: m.inside_comment,
            ..s
        };
        if depth < isize::MIN || depth > isize::MAX {
            Fed { result: Err(ErrorRead::SyntaxFailure), state: scanned }
        } else if depth < 0 {
            Fed { result: Err(ErrorRead::SyntaxFailure), state: FileState { depth, ..scanned } }
        } else {
            Fed {
                result: Ok(()),
                state: FileState { depth, line: s.line + text + seq!['\n'], ..scanned },
            }
        }
    }
}

/// The state with nothing gathered and nothing open.
pub open spec fn flushed(s: FileState) -> FileState {
    FileState {
        depth: 0,
        inside_quote: false,
        after_slash: false,
        inside_comment: false,
        line: Seq::empty(),
        ..s
    }
}

/// What a turn gives, and the state after it.
pub struct Turned {
    pub turn: TurnModel,
    pub state: FileState,
}

/// The turn that ends the run with a complaint.
pub open spec fn fatal_turn(printed: Seq<char>, complaint: Seq<char>) -> TurnModel {
    TurnModel {
        printed,
        result: None,
        note: None,
        complaint: Some(complaint),
        next: Next::Exit(127),
    }
}

/// What is shown for a value as it is written: nothing for `()`.
pub open spec fn shown(text: Seq<char>) -> Option<Seq<char>> {
    if text == "()"@ {
        None
    } else {
        Some(text)
    }
}

/// The turn after the gathered lines were evaluated in state `s`: what the
/// program printed goes out first. A program that asked to leave ends the
/// run with its code; an error ends it with the error's message and the code
/// 127; else the value is shown and reading goes on.
pub open spec fn evaluated_turn(s: FileState) -> Turned {
    let i = interpreted(s.line, s.world);
    let printed = i.world.output;
    let world = World { output: Seq::empty(), ..i.world };
    let after = flushed(FileState { world, ..s });
    match i.world.exit_code {
        Some(code) => Turned {
            turn: TurnModel {
                printed,
                result: None,
                note: None,
                complaint: None,
                next: Next::Exit(code),
            },
            state: after,
        },
        None => match i.result {
            Ok(text) => Turned {
                turn: TurnModel {
                    printed,
                    result: shown(text),
                    note: None,
                    complaint: None,
                    next: Next::Read,
                },
                state: after,
            },
            Err(e) => Turned { turn: fatal_turn(printed, e.message), state: after },
        },
    }
}

/// What the batch front end does with what was read.
///
/// The end of the input ends the run. An input that cannot be read ends it
/// with a complaint. An empty line is passed over; any other line that is
/// refused ends the run with a complaint. A line that is accepted and leaves
/// no parenthesis open completes an expression, which is evaluated.
pub open spec fn file_turn(s: FileState, read: ReadModel) -> Turned {
    match read {
        ReadModel::End => Turned { turn: TurnModel { next: Next::Return, ..quiet_turn() }, state: s },
        ReadModel::Failed => Turned {
            turn: fatal_turn(Seq::empty(), read_error_name(ErrorRead::Utf8ConversionError)),
            state: flushed(s),
        },
        ReadModel::Line(line) => {
            let fed = line_processed(s, line);
            match fed.result {
                Err(ErrorRead::EmptyLine) => Turned { turn: quiet_turn(), state: fed.state },
                Err(e) => Turned {
                    turn: fatal_turn(Seq::empty(), read_error_name(e)),
                    state: flushed(fed.state),
                },
                Ok(()) => if fed.state.depth == 0 {
                    evaluated_turn(fed.state)
                } else {
                    Turned { turn: quiet_turn(), state: fed.state }
                },
            }
        },
    }
}

/// A turn that asks for nothing but the next line.
pub fn quiet() -> (t: Turn)
    ensures
        t@ == quiet_turn(),
{
    Turn { printed: String::new(), result: None, note: None, complaint: None, next: Next::Read }
}

/// The turn that ends the run with a complaint.
pub fn fatal(printed: String, complaint: String) -> (t: Turn)
    ensures
        t@ == fatal_turn(printed@, complaint@),
{
    Turn { printed, result: None, note: None, complaint: Some(complaint), next: Next::Exit(127) }
}

/// What is shown for a value as it is written.
pub fn show(text: String) -> (r: Option<String>)
    ensures
        optional_text(r) == shown(text@),
{
    if is_text(&text, "()") {
        None
    } else {
        Some(text)
    }
}

impl ReaderFile {
    /// A reader for the given files, with a fresh evaluator.
    pub fn new(input_file_name: Option<String>, output_file_name: Option<String>) -> (r: ReaderFile)
        ensures
            r@ == (FileState {
                depth: 0,
                inside_quote: false,
                after_slash: false,
                inside_comment: false,
                line: Seq::empty(),
                world: initial_world(),
                have_output_file: output_file_name is Some,
                input_file_name: optional_text(input_file_name),
                output_file_name: optional_text(output_file_name),
            }),
            well_formed(r@.world),
    {
        let have_output_file = output_file_name.is_some();
        ReaderFile {
            left_parenthesis_count: 0,
            is_inside_quote: false,
            is_after_slash: false,
            is_inside_comment: false,
            line: String::new(),
            env: EvalEnv::new(),
            have_output_file,
            input_file_name,
            output_file_name,
        }
    }

    /// Scans one character.
    fn mark(&mut self, c: char, opened: &mut usize, closed: &mut usize)
        requires
            *old(opened) < usize::MAX,
            *old(closed) < usize::MAX,
        ensures
            (Marks {
                inside_quote: final(self).is_inside_quote,
                after_slash: final(self).is_after_slash,
                inside_comment: final(self).is_inside_comment,
                opened: *final(opened) as nat,
                closed: *final(closed) as nat,
            }) == mark_step(
                Marks {
                    inside_quote: old(self).is_inside_quote,
                    after_slash: old(self).is_after_slash,
                    inside_comment: old(self).is_inside_comment,
                    opened: *old(opened) as nat,
                    closed: *old(closed) as nat,
                },
                c,
            ),
            final(self).left_parenthesis_count == old(self).left_parenthesis_count,
            final(self).line == old(self).line,
            final(self).env == old(self).env,
            final(self).have_output_file == old(self).have_output_file,
            final(self).input_file_name == old(self).input_file_name,
            final(self).output_file_name == old(self).output_file_name,
            *final(opened) <= *old(opened) + 1,
            *final(closed) <= *old(closed) + 1,
    {
        if c == '\n' {
            self.is_inside_comment = false;
        } else if c == '(' {
            if !self.is_inside_comment {
                self.is_after_slash = false;
                if !self.is_inside_quote {
                    *opened = *opened + 1;
                }
            }
        } else if c == ')' {
            if !self.is_inside_comment {
                self.is_after_slash = false;
                if !self.is_inside_quote {
                    *closed = *closed + 1;
                }
            }
        } else if c == ';' {
            if !self.is_inside_comment {
                self.is_after_slash = false;
                self.is_inside_comment = !self.is_inside_quote;
            }
        } else if c == '"' {
            if !self.is_inside_comment {
                if self.is_after_slash {
                    self.is_after_slash = false;
                } else {
                    self.is_inside_quote = !self.is_inside_quote;
                }
            }
        } else if c == '\\' {
            if !self.is_inside_comment && self.is_inside_quote {
                self.is_after_slash = !self.is_after_slash;
            }
        } else if c == 'n' {
            if !self.is_inside_comment && self.is_inside_quote && self.is_after_slash {
                self.is_after_slash = false;
            }
        } else {
            self.is_after_slash = false;
        }
    }

    /// Takes one line of the file.
    pub fn process_line(&mut self, templine: String) -> (r: Result<(), ErrorRead>)
        ensures
            (Fed { result: r, state: final(self)@ }) == line_processed(old(self)@, templine@),
    {
        let chars = chars_of(templine.as_str());
        let text = trim(&chars);
        if text.len() == 0 {
            return Err(ErrorRead::EmptyLine);
        }
        let mut opened: usize = 0;
        let mut closed: usize = 0;
        let ghost start = Marks {
            inside_quote: self.is_inside_quote,
            after_slash: self.is_after_slash,
            inside_comment: self.is_inside_comment,
            opened: 0,
            closed: 0,
        };
        let mut i: usize = 0;
        while i < text.len()
            invariant
                i <= text.len(),
                opened <= i,
                closed <= i,
                (Marks {
                    inside_quote: self.is_inside_quote,
                    after_slash: self.is_after_slash,
                    inside_comment: self.is_inside_comment,
                    opened: opened as nat,
                    closed: closed as nat,
                }) == marks_after(text@, i as nat, start),
                self.left_parenthesis_count == old(self).left_parenthesis_count,
                self.line == old(self).line,
                self.env == old(self).env,
                self.have_output_file == old(self).have_output_file,
                self.input_file_name == old(self).input_file_name,
                self.output_file_name == old(self).output_file_name,
            decreases text.len() - i,
        {
            self.mark(text[i], &mut opened, &mut closed);
            i += 1;
        }
        let depth = self.left_parenthesis_count as i128 + opened as i128 - closed as i128;
        if depth < isize::MIN as i128 || depth > isize::MAX as i128 {
            return Err(ErrorRead::SyntaxFailure);
        }
        self.left_parenthesis_count = depth as isize;
        if depth < 0 {
            return Err(ErrorRead::SyntaxFailure);
        }
        let kept = string_of(&text, 0, text.len());
        assert(text@.subrange(0, text.len() as int) =~= text@);
        self.line.append(kept.as_str());
        self.line.push('\n');
        assert(self.line@ =~= old(self).line@ + text@ + seq!['\n']);
        Ok(())
    }

    /// Forgets what was gathered.
    pub fn flush(&mut self)
        ensures
            final(self)@ == flushed(old(self)@),
    {
        self.line = String::new();
        self.is_inside_quote = false;
        self.is_after_slash = false;
        self.is_inside_comment = false;
        self.left_parenthesis_count = 0;
    }

    /// Evaluates the expression that was gathered and gives the value as it
    /// is written.
    pub fn process(&mut self) -> (r: Result<String, ErrorEval>)
        ensures
            crate::reader::interpreted_model(r, final(self)@.world) == interpreted(
                old(self)@.line,
                old(self)@.world,
            ),
            final(self)@ == (FileState { world: final(self)@.world, ..old(self)@ }),
            well_formed(old(self)@.world) ==> well_formed(final(self)@.world),
    {
        let source = self.line.clone();
        interpret(&mut self.env, source)
    }

    /// Evaluates the expression that was gathered and says what to do next.
    fn evaluate_gathered(&mut self) -> (t: Turn)
        ensures
            (Turned { turn: t@, state: final(self)@ }) == evaluated_turn(old(self)@),
            well_formed(old(self)@.world) ==> well_formed(final(self)@.world),
    {
        let r = self.process();
        let printed = self.env.take_output();
        let code = self.env.exit_code;
        self.flush();
        match code {
            Some(code) => Turn {
                printed,
                result: None,
                note: None,
                complaint: None,
                next: Next::Exit(code),
            },
            None => match r {
                Ok(text) => Turn {
                    printed,
                    result: show(text),
                    note: None,
                    complaint: None,
                    next: Next::Read,
                },
                Err(e) => fatal(printed, e.to_string()),
            },
        }
    }

    /// Takes what was read and says what to do next.
    pub fn call(&mut self, read: Read) -> (t: Turn)
        ensures
            (Turned { turn: t@, state: final(self)@ }) == file_turn(old(self)@, read@),
            well_formed(old(self)@.world) ==> well_formed(final(self)@.world),
    {
        match read {
            Read::End => {
                let mut t = quiet();
                t.next = Next::Return;
                t
            },
            Read::Failed => {
                self.flush();
                fatal(String::new(), String::from_str(ErrorRead::Utf8ConversionError.name()))
            },
            Read::Line(line) => match self.process_line(line) {
                Err(ErrorRead::EmptyLine) => quiet(),
                Err(e) => {
                    self.flush();
                    fatal(String::new(), String::from_str(e.name()))
                },
                Ok(()) => {
                    if self.left_parenthesis_count == 0 {
                        self.evaluate_gathered()
                    } else {
                        quiet()
                    }
                },
            },
        }
    }
}

} // verus!
