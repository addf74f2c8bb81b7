//! The command line: which front end to run, and on which files.

use vstd::prelude::*;
use crate::text::is_text;

verus! {

/// What the command line asked for.
pub struct Config {
    pub interract_mode: bool,
    pub open_help: bool,
    pub input_file_path: Option<String>,
    pub output_file_path: Option<String>,
}

/// The mathematical model of a [`Config`].
pub struct ConfigModel {
    pub interract_mode: bool,
    pub open_help: bool,
    pub input_file_path: Option<Seq<char>>,
    pub output_file_path: Option<Seq<char>>,
}

impl View for Config {
    type V = ConfigModel;

    open spec fn view(&self) -> ConfigModel {
        ConfigModel {
            interract_mode: self.interract_mode,
            open_help: self.open_help,
            input_file_path: match self.input_file_path {
                Some(p) => Some(p@),
                None => None,
            },
            output_file_path: match self.output_file_path {
                Some(p) => Some(p@),
                None => None,
            },
        }
    }
}

/// The words of a model of the argument list.
pub open spec fn words(args: Seq<String>) -> Seq<Seq<char>> {
    Seq::new(args.len(), |i: int| args[i]@)
}

pub open spec fn is_interract_flag(word: Seq<char>) -> bool {
    word == "-i"@ || word == "--interract"@
}

pub open spec fn is_help_flag(word: Seq<char>) -> bool {
    word == "-h"@ || word == "--help"@
}

pub open spec fn is_file_flag(word: Seq<char>) -> bool {
    word == "-f"@ || word == "--file"@
}

pub open spec fn is_output_flag(word: Seq<char>) -> bool {
    word == "-o"@ || word == "--output"@
}

/// What the words from position `i` on make of the configuration `so_far`:
/// each flag sets its field, `-f` takes the word after it as the input path,
/// and the first word that is no known flag, or a `-f` that is the last word,
/// ends the reading with an error.
pub open spec fn read_words(args: Seq<Seq<char>>, i: int, so_far: ConfigModel) -> Result<
    ConfigModel,
    Seq<char>,
>
    decreases args.len() - i,
{
    if i < 0 || i >= args.len() {
        Ok(so_far)
    } else if is_interract_flag(args[i]) {
        read_words(args, i + 1, ConfigModel { interract_mode: true, ..so_far })
    } else if is_help_flag(args[i]) {
        read_words(args, i + 1, ConfigModel { open_help: true, ..so_far })
    } else if is_file_flag(args[i]) {
        if i + 1 < args.len() {
            read_words(args, i + 2, ConfigModel { input_file_path: Some(args[i + 1]), ..so_far })
        } else {
            Err("Should give an input file path"@)
        }
    } else if is_output_flag(args[i]) {
        Err("Unknown"@)
    } else {
        Err("Fail to parse the command, please retry"@)
    }
}

/// The configuration before any word is read.
pub open spec fn empty_config() -> ConfigModel {
    ConfigModel {
        interract_mode: false,
        open_help: false,
        input_file_path: None,
        output_file_path: None,
    }
}

/// What a whole argument list means: the first word is the program's name
/// and is passed over.
pub open spec fn config_of(args: Seq<Seq<char>>) -> Result<ConfigModel, Seq<char>> {
    read_words(args, 1, empty_config())
}

/// The model of what `build` returns.
pub open spec fn built(r: Result<Config, &'static str>) -> Result<ConfigModel, Seq<char>> {
    match r {
        Ok(c) => Ok(c@),
        Err(e) => Err(e@),
    }
}

impl Config {
    /// Reads the argument list, the program's name first.
    pub fn build(args: Vec<String>) -> (r: Result<Config, &'static str>)
        ensures
            built(r) == config_of(words(args@)),
    {
        let mut interract_mode = false;
        let mut open_help = false;
        let mut input_file_path: Option<String> = None;
        let mut i: usize = 1;
        while i < args.len()
            invariant
                1 <= i,
                config_of(words(args@)) == read_words(
                    words(args@),
                    i as int,
                    ConfigModel {
                        interract_mode,
                        open_help,
                        input_file_path: match input_file_path {
                            Some(p) => Some(p@),
                            None => None,
                        },
                        output_file_path: None,
                    },
                ),
            decreases args.len() - i,
        {
            let word = &args[i];
            if is_text(word, "-i") || is_text(word, "--interract") {
                interract_mode = true;
                i += 1;
            } else if is_text(word, "-h") || is_text(word, "--help") {
                open_help = true;
                i += 1;
            } else if is_text(word, "-f") || is_text(word, "--file") {
                if i + 1 < args.len() {
                    input_file_path = Some(args[i + 1].clone());
                    i += 2;
                } else {
                    return Err("Should give an input file path");
                }
            } else if is_text(word, "-o") || is_text(word, "--output") {
                return Err("Unknown");
            } else {
                return Err("Fail to parse the command, please retry");
            }
        }
        Ok(Config { interract_mode, open_help, input_file_path, output_file_path: None })
    }
}

/// What the program is to do.
#[derive(Debug)]
pub enum Mode {
    /// Read expressions from the user.
    Interact,
    /// Print the help text.
    Help,
    /// Evaluate the expressions of the first file; write the values to the
    /// second where there is one.
    File(String, Option<String>),
}

/// The model of a [`Mode`].
pub enum ModeModel {
    Interact,
    Help,
    File(Seq<char>, Option<Seq<char>>),
}

/// The message for a configuration that asks for no one thing.
pub open spec fn conflict_message() -> Seq<char> {
    "Conflict occur.\nPlease use 'minilisp -h' or 'minilisp --help' to check the usage"@
}

/// What a configuration asks for: exactly one of the interactive mode, the
/// help text and an input file; an output file only with an input file.
pub open spec fn mode_of(c: ConfigModel) -> Result<ModeModel, Seq<char>> {
    match (c.interract_mode, c.open_help, c.input_file_path, c.output_file_path) {
        (true, false, None, None) => Ok(ModeModel::Interact),
        (false, true, None, None) => Ok(ModeModel::Help),
        (false, false, Some(input), output) => Ok(ModeModel::File(input, output)),
        _ => Err(conflict_message()),
    }
}

/// The model of what `mode` returns.
pub open spec fn mode_model(r: Result<Mode, &'static str>) -> Result<ModeModel, Seq<char>> {
    match r {
        Ok(Mode::Interact) => Ok(ModeModel::Interact),
        Ok(Mode::Help) => Ok(ModeModel::Help),
        Ok(Mode::File(input, output)) => Ok(
            ModeModel::File(
                input@,
                match output {
                    Some(p) => Some(p@),
                    None => None,
                },
            ),
        ),
        Err(e) => Err(e@),
    }
}

impl Config {
    /// What the configuration asks for.
    pub fn mode(self) -> (r: Result<Mode, &'static str>)
        ensures
            mode_model(r) == mode_of(self@),
    {
        match (self.interract_mode, self.open_help, self.input_file_path, self.output_file_path) {
            (true, false, None, None) => Ok(Mode::Interact),
            (false, true, None, None) => Ok(Mode::Help),
            (false, false, Some(input), output) => Ok(Mode::File(input, output)),
            _ => Err(
                "Conflict occur.\nPlease use 'minilisp -h' or 'minilisp --help' to check the usage",
            ),
        }
    }
}

} // verus!
