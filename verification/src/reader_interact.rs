//! The interactive front end: it is fed the lines that the user types,
//! gathers them until the parentheses balance, has each complete expression
//! evaluated, and says how far to indent the next line.

use vstd::prelude::*;
use vstd::string::StringExecFns;
use crate::error::{read_error_name, ErrorEval, ErrorRead};
use crate::eval_env::{initial_world, well_formed, EvalEnv, World};
use crate::reader::{
    interpret, interpreted, interpreted_model, quiet_turn, Next, Read, ReadModel, Turn, TurnModel,
};
use crate::reader_file::{quiet, show, shown};
use crate::text::chars_of;

verus! {

/// What the interactive front end remembers between lines.
#[derive(Debug)]
pub struct ReaderInteract {
    /// For each open parenthesis, innermost last, how many characters were
    /// typed since it was opened, itself included.
    pub space_buffer: Vec<usize>,
    pub is_inside_quote: bool,
    pub is_after_slash: bool,
    pub is_inside_comment: bool,
    /// The lines gathered for the expression that is being typed.
    pub line: String,
    pub env: EvalEnv,
}

/// What is kept while a line is scanned.
pub struct Columns {
    pub columns: Seq<usize>,
    pub inside_quote: bool,
    pub after_slash: bool,
    pub inside_comment: bool,
}

/// The model of a [`ReaderInteract`].
pub struct InteractState {
    pub scan: Columns,
    pub line: Seq<char>,
    pub world: World,
}

impl View for ReaderInteract {
    type V = InteractState;

    open spec fn view(&self) -> InteractState {
        InteractState {
            scan: Columns {
                columns: self.space_buffer@,
                inside_quote: self.is_inside_quote,
                after_slash: self.is_after_slash,
                inside_comment: self.is_inside_comment,
            },
            line: self.line@,
            world: self.env@,
        }
    }
}

/// One more, as far as a `usize` counts.
pub open spec fn one_more(n: usize) -> usize {
    if n < usize::MAX {
        (n + 1) as usize
    } else {
        n
    }
}

/// The columns after one more character was typed inside the innermost open
/// parenthesis; unchanged where none is open.
pub open spec fn bumped(columns: Seq<usize>) -> Seq<usize> {
    if columns.len() == 0 {
        columns
    } else {
        columns.update(columns.len() - 1, one_more(columns.last()))
    }
}

/// What one character does to the scan.
pub enum Scan {
    /// The scan goes on.
    Go(Columns),
    /// The rest of the line is not scanned.
    Halt(Columns),
    /// The line is refused.
    Refuse(Columns),
}

/// What the character `c` does to the scan.
///
/// Inside a comment only a line feed counts: it ends the comment. A left
/// parenthesis outside a string literal opens a column, a right one closes
/// the innermost, and is refused where none is open. A semicolon begins a
/// comment. Every other character that is typed while a parenthesis is open
/// widens the innermost column; one that is typed while none is open ends
/// the scan of the line, unless it is a double quote, a backslash or an `n`.
pub open spec fn scan_step(s: Columns, c: char) -> Scan {
    if c == '\n' {
        Scan::Go(Columns { inside_comment: false, ..s })
    } else if s.inside_comment {
        Scan::Go(s)
    } else if c == '(' {
        Scan::Go(
            Columns {
                after_slash: false,
                columns: if s.inside_quote {
                    bumped(s.columns)
                } else {
                    s.columns.push(1)
                },
                ..s
            },
        )
    } else if c == ')' {
        if s.inside_quote {
            Scan::Go(Columns { after_slash: false, columns: bumped(s.columns), ..s })
        } else if s.columns.len() == 0 {
            Scan::Refuse(Columns { after_slash: false, ..s })
        } else {
            Scan::Go(Columns { after_slash: false, columns: s.columns.drop_last(), ..s })
        }
    } else if c == ';' {
        Scan::Go(
            Columns {
                after_slash: false,
                inside_comment: true,
                columns: if s.inside_quote {
                    bumped(s.columns)
                } else {
                    s.columns
                },
                ..s
            },
        )
    } else if c == '"' {
        Scan::Go(
            Columns {
                after_slash: false,
                inside_quote: if s.after_slash {
                    s.inside_quote
                } else {
                    !s.inside_quote
                },
                columns: bumped(s.columns),
                ..s
            },
        )
    } else if c == '\\' {
        Scan::Go(
            Columns {
                after_slash: if s.inside_quote {
                    !s.after_slash
                } else {
                    s.after_slash
                },
                columns: bumped(s.columns),
                ..s
            },
        )
    } else if c == 'n' {
        Scan::Go(
            Columns {
                after_slash: if s.inside_quote && s.after_slash {
                    false
                } else {
                    s.after_slash
                },
                columns: bumped(s.columns),
                ..s
            },
        )
    } else if s.columns.len() == 0 {
        Scan::Halt(s)
    } else {
        Scan::Go(Columns { columns: bumped(s.columns), ..s })
    }
}

/// What scanning a line gives: whether it is accepted, and the scan after it.
pub struct Scanned {
    pub accepted: bool,
    pub scan: Columns,
}

/// What scanning the characters of `text` from position `i` on gives.
pub open spec fn scanned_from(text: Seq<char>, i: int, s: Columns) -> Scanned
    decreases text.len() - i,
{
    if i < 0 || i >= text.len() {
        Scanned { accepted: true, scan: s }
    } else {
        match scan_step(s, text[i]) {
            Scan::Go(next) => scanned_from(text, i + 1, next),
            Scan::Halt(next) => Scanned { accepted: true, scan: next },
            Scan::Refuse(next) => Scanned { accepted: false, scan: next },
        }
    }
}

/// What feeding a line gives, and the state after it.
pub struct Typed {
    pub result: Result<(), ErrorRead>,
    pub state: InteractState,
}

/// What feeding the line `text` to the state gives.
///
/// A line of nothing but a line feed is the error `KeyboardInterrupt` and
/// changes nothing. Else the line is scanned; a line that closes a
/// parenthesis which is not open is the error `SyntaxFailure`. A line that
/// is accepted is gathered, with a line feed after it.
pub open spec fn line_typed(s: InteractState, text: Seq<char>) -> Typed {
    if text == seq!['\n'] {
        Typed { result: Err(ErrorRead::KeyboardInterrupt), state: s }
    } else {
        let scanned = scanned_from(text, 0, s.scan);
        if scanned.accepted {
            Typed {
                result: Ok(()),
                state: InteractState { scan: scanned.scan, line: s.line + text + seq!['\n'], ..s },
            }
        } else {
            Typed {
                result: Err(ErrorRead::SyntaxFailure),
                state: InteractState { scan: scanned.scan, ..s },
            }
        }
    }
}

/// The state with nothing gathered and nothing open.
pub open spec fn cleared(s: InteractState) -> InteractState {
    InteractState {
        scan: Columns {
            columns: Seq::empty(),
            inside_quote: false,
            after_slash: false,
            inside_comment: false,
        },
        line: Seq::empty(),
        ..s
    }
}

/// The sum of the first `count` columns, as far as a `usize` counts.
pub open spec fn indent(columns: Seq<usize>, count: nat) -> nat
    decreases count,
{
    if count == 0 || count > columns.len() {
        0
    } else {
        let sum = indent(columns, (count - 1) as nat) + columns[count - 1];
        if sum > usize::MAX {
            usize::MAX as nat
        } else {
            sum as nat
        }
    }
}

/// `count` spaces.
pub open spec fn spaces(count: nat) -> Seq<char> {
    Seq::new(count, |i: int| ' ')
}

/// The prompt: `>>> ` where no parenthesis is open, else `... ` and as many
/// spaces as characters were typed since the parentheses were opened.
pub open spec fn prompt_text(columns: Seq<usize>) -> Seq<char> {
    let width = indent(columns, columns.len());
    if width == 0 {
        ">>> "@
    } else {
        "... "@ + spaces(width)
    }
}

/// What a turn gives, and the state after it.
pub struct Answered {
    pub turn: TurnModel,
    pub state: InteractState,
}

/// The turn after the gathered lines were evaluated in state `s`: what the
/// program printed goes out first. A program that asked to leave ends the
/// run with its code; an error is complained of; else the value is shown.
/// Either way reading goes on.
pub open spec fn answered(s: InteractState) -> Answered {
    let i = interpreted(s.line, s.world);
    let printed = i.world.output;
    let world = World { output: Seq::empty(), ..i.world };
    let after = cleared(InteractState { world, ..s });
    match i.world.exit_code {
        Some(code) => Answered {
            turn: TurnModel {
                printed,
                result: None,
                note: None,
                complaint: None,
                next: Next::Exit(code),
            },
            state: after,
        },
        None => match i.result {
            Ok(text) => Answered {
                turn: TurnModel {
                    printed,
                    result: shown(text),
                    note: None,
                    complaint: None,
                    next: Next::Read,
                },
                state: after,
            },
            Err(e) => Answered {
                turn: TurnModel {
                    printed,
                    result: None,
                    note: None,
                    complaint: Some("Error:\n"@ + e.message),
                    next: Next::Read,
                },
                state: after,
            },
        },
    }
}

/// What the interactive front end does with what was read.
///
/// The end of the input leaves with the code zero. An input that cannot be
/// read, and a line that is refused, are complained of, and what was
/// gathered is forgotten. A line of nothing but a line feed interrupts what
/// was typed. A line that is accepted and leaves no parenthesis open
/// completes an expression, which is evaluated.
pub open spec fn interact_turn(s: InteractState, read: ReadModel) -> Answered {
    match read {
        ReadModel::End => Answered {
            turn: TurnModel { next: Next::Exit(0), ..quiet_turn() },
            state: s,
        },
        ReadModel::Failed => Answered {
            turn: TurnModel {
                complaint: Some("Error: "@ + read_error_name(ErrorRead::StreamFailure)),
                ..quiet_turn()
            },
            state: cleared(s),
        },
        ReadModel::Line(text) => {
            let typed = line_typed(s, text);
            match typed.result {
                Err(ErrorRead::KeyboardInterrupt) => Answered {
                    turn: TurnModel {
                        note: Some("Input interrupted with a pure return."@),
                        ..quiet_turn()
                    },
                    state: cleared(typed.state),
                },
                Err(e) => Answered {
                    turn: TurnModel {
                        complaint: Some("Error: "@ + read_error_name(e)),
                        ..quiet_turn()
                    },
                    state: cleared(typed.state),
                },
                Ok(()) => if typed.state.scan.columns.len() == 0 {
                    answered(typed.state)
                } else {
                    Answered { turn: quiet_turn(), state: typed.state }
                },
            }
        },
    }
}

/// The text `before` followed by `after`.
fn joined(before: &str, after: &str) -> (s: String)
    ensures
        s@ == before@ + after@,
{
    let mut s = String::from_str(before);
    s.append(after);
    s
}

impl ReaderInteract {
    /// A reader with a fresh evaluator.
    pub fn new() -> (r: ReaderInteract)
        ensures
            r@ == cleared(
                InteractState { scan: r@.scan, line: Seq::empty(), world: initial_world() },
            ),
            well_formed(r@.world),
    {
        ReaderInteract {
            space_buffer: Vec::new(),
            is_inside_quote: false,
            is_after_slash: false,
            is_inside_comment: false,
            line: String::new(),
            env: EvalEnv::new(),
        }
    }

    /// The scan that the state holds.
    pub open spec fn scan(&self) -> Columns {
        self@.scan
    }

    /// Notes one more character inside the innermost open parenthesis.
    fn bump(&mut self)
        ensures
            final(self).space_buffer@ == bumped(old(self).space_buffer@),
            final(self).is_inside_quote == old(self).is_inside_quote,
            final(self).is_after_slash == old(self).is_after_slash,
            final(self).is_inside_comment == old(self).is_inside_comment,
            final(self).line == old(self).line,
            final(self).env == old(self).env,
    {
        let n = self.space_buffer.len();
        if n > 0 {
            let last = self.space_buffer[n - 1];
            if last < usize::MAX {
                self.space_buffer[n - 1] = last + 1;
            }
            assert(self.space_buffer@ =~= bumped(old(self).space_buffer@));
        }
    }

    /// Scans one character. Gives `Some(true)` where the scan goes on,
    /// `Some(false)` where the rest of the line is not scanned, and `None`
    /// where the line is refused.
    fn scan_char(&mut self, c: char) -> (r: Option<bool>)
        ensures
            match r {
                Some(true) => scan_step(old(self).scan(), c) == Scan::Go(final(self).scan()),
                Some(false) => scan_step(old(self).scan(), c) == Scan::Halt(final(self).scan()),
                None => scan_step(old(self).scan(), c) == Scan::Refuse(final(self).scan()),
            },
            final(self).line == old(self).line,
            final(self).env == old(self).env,
    {
        if c == '\n' {
            self.is_inside_comment = false;
            return Some(true);
        }
        if self.is_inside_comment {
            return Some(true);
        }
        if c == '(' {
            self.is_after_slash = false;
            if self.is_inside_quote {
                self.bump();
            } else {
                self.space_buffer.push(1);
            }
        } else if c == ')' {
            self.is_after_slash = false;
            if self.is_inside_quote {
                self.bump();
            } else if self.space_buffer.len() == 0 {
                return None;
            } else {
                self.space_buffer.pop();
            }
        } else if c == ';' {
            self.is_after_slash = false;
            self.is_inside_comment = true;
            if self.is_inside_quote {
                self.bump();
            }
        } else if c == '"' {
            if self.is_after_slash {
                self.is_after_slash = false;
            } else {
                self.is_inside_quote = !self.is_inside_quote;
            }
            self.bump();
        } else if c == '\\' {
            if self.is_inside_quote {
                self.is_after_slash = !self.is_after_slash;
            }
            self.bump();
        } else if c == 'n' {
            if self.is_inside_quote && self.is_after_slash {
                self.is_after_slash = false;
            }
            self.bump();
        } else if self.space_buffer.len() == 0 {
            return Some(false);
        } else {
            self.bump();
        }
        Some(true)
    }

    /// Takes one line that the user typed.
    pub fn readline(&mut self, templine: String) -> (r: Result<(), ErrorRead>)
        ensures
            (Typed { result: r, state: final(self)@ }) == line_typed(old(self)@, templine@),
    {
        let chars = chars_of(templine.as_str());
        if chars.len() == 1 && chars[0] == '\n' {
            assert(chars@ =~= seq!['\n']);
            return Err(ErrorRead::KeyboardInterrupt);
        }
        assert(templine@ != seq!['\n']) by {
            if templine@ == seq!['\n'] {
                assert(chars@.len() == 1);
            }
        }
        let mut i: usize = 0;
        let mut halted = false;
        while i < chars.len() && !halted
            invariant
                i <= chars.len(),
                chars@ == templine@,
                halted ==> scanned_from(chars@, 0, old(self).scan()) == (Scanned {
                    accepted: true,
                    scan: self.scan(),
                }),
                !halted ==> scanned_from(chars@, i as int, self.scan()) == scanned_from(
                    chars@,
                    0,
                    old(self).scan(),
                ),
                self.line == old(self).line,
                self.env == old(self).env,
                templine@ != seq!['\n'],
            decreases chars.len() - i + (if halted { 0int } else { 1int }),
        {
            match self.scan_char(chars[i]) {
                Some(true) => {
                    i += 1;
                },
                Some(false) => {
                    halted = true;
                },
                None => {
                    return Err(ErrorRead::SyntaxFailure);
                },
            }
        }
        self.line.append(templine.as_str());
        self.line.push('\n');
        assert(self.line@ =~= old(self).line@ + templine@ + seq!['\n']);
        Ok(())
    }

    /// The prompt for the next line.
    pub fn printline(&self) -> (s: String)
        ensures
            s@ == prompt_text(self@.scan.columns),
    {
        let mut width: usize = 0;
        let mut i: usize = 0;
        while i < self.space_buffer.len()
            invariant
                i <= self.space_buffer.len(),
                width == indent(self.space_buffer@, i as nat),
            decreases self.space_buffer.len() - i,
        {
            let column = self.space_buffer[i];
            if column > usize::MAX - width {
                width = usize::MAX;
            } else {
                width = width + column;
            }
            i += 1;
        }
        if width == 0 {
            String::from_str(">>> ")
        } else {
            let mut s = String::from_str("... ");
            let mut k: usize = 0;
            while k < width
                invariant
                    k <= width,
                    s@ == "... "@ + spaces(k as nat),
                decreases width - k,
            {
                s.push(' ');
                assert(s@ =~= "... "@ + spaces((k + 1) as nat));
                k += 1;
            }
            s
        }
    }

    /// Forgets what was gathered.
    pub fn flush(&mut self)
        ensures
            final(self)@ == cleared(old(self)@),
    {
        self.line = String::new();
        self.is_inside_quote = false;
        self.is_after_slash = false;
        self.is_inside_comment = false;
        self.space_buffer = Vec::new();
    }

    /// Evaluates the expression that was gathered and gives the value as it
    /// is written.
    pub fn process(&mut self) -> (r: Result<String, ErrorEval>)
        ensures
            interpreted_model(r, final(self)@.world) == interpreted(
                old(self)@.line,
                old(self)@.world,
            ),
            final(self)@ == (InteractState { world: final(self)@.world, ..old(self)@ }),
            well_formed(old(self)@.world) ==> well_formed(final(self)@.world),
    {
        let source = self.line.clone();
        interpret(&mut self.env, source)
    }

    /// Evaluates the expression that was gathered and says what to do next.
    fn answer(&mut self) -> (t: Turn)
        ensures
            (Answered { turn: t@, state: final(self)@ }) == answered(old(self)@),
            well_formed(old(self)@.world) ==> well_formed(final(self)@.world),
    {
        let r = self.process();
        let printed = self.env.take_output();
        let code = self.env.exit_code;
        self.flush();
        match code {
            Some(code) => Turn {
                printed,
                result: None,
                note: None,
                complaint: None,
                next: Next::Exit(code),
            },
            None => match r {
                Ok(text) => Turn {
                    printed,
                    result: show(text),
                    note: None,
                    complaint: None,
                    next: Next::Read,
                },
                Err(e) => Turn {
                    printed,
                    result: None,
                    note: None,
                    complaint: Some(joined("Error:\n", e.to_string().as_str())),
                    next: Next::Read,
                },
            },
        }
    }

    /// Takes what was read and says what to do next.
    pub fn call(&mut self, read: Read) -> (t: Turn)
        ensures
            (Answered { turn: t@, state: final(self)@ }) == interact_turn(old(self)@, read@),
            well_formed(old(self)@.world) ==> well_formed(final(self)@.world),
    {
        match read {
            Read::End => {
                let mut t = quiet();
                t.next = Next::Exit(0);
                t
            },
            Read::Failed => {
                self.flush();
                let mut t = quiet();
                t.complaint = Some(joined("Error: ", ErrorRead::StreamFailure.name()));
                t
            },
            Read::Line(text) => match self.readline(text) {
                Err(ErrorRead::KeyboardInterrupt) => {
                    self.flush();
                    let mut t = quiet();
                    t.note = Some(String::from_str("Input interrupted with a pure return."));
                    t
                },
                Err(e) => {
                    self.flush();
                    let mut t = quiet();
                    t.complaint = Some(joined("Error: ", e.name()));
                    t
                },
                Ok(()) => {
                    if self.space_buffer.len() == 0 {
                        self.answer()
                    } else {
                        quiet()
                    }
                },
            },
        }
    }
}

} // verus!
