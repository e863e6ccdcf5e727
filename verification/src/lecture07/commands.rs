//! A command is a transformation together with its input: a line of text,
//! or for `csv` the contents of a file.

use vstd::prelude::*;
use crate::lecture07::csv_processing::{create_csv_table, renderable};
use crate::lecture05::csv_processing::{table_of, table_text};
use crate::lecture07::custom_errors::AppError;
use crate::text::{chars_of, split_chars, split_on, string_of, trim, trimmed, views};
use crate::transform::{
    Transformation, allowed_names, allowed_names_text, name_of, select, selected, transform,
    transformed,
};

verus! {

/// A transformation chosen by name.
#[derive(Clone, Copy, Debug)]
pub struct TextTransformer {
    func: Transformation,
    name: &'static str,
}

/// What a command writes for its input: the transformed text or, for `csv`,
/// the rendered table.
pub open spec fn command_output(func: Transformation, input: Seq<char>) -> Seq<char> {
    if func == Transformation::Csv {
        let table = table_of(split_on(input, '\n'));
        if renderable(table) {
            table_text(table)
        } else {
            Seq::empty()
        }
    } else {
        transformed(func, input)
    }
}

impl TextTransformer {
    /// The chosen transformation.
    pub closed spec fn func(&self) -> Transformation {
        self.func
    }

    /// The transformation's name.
    pub closed spec fn name(&self) -> Seq<char> {
        self.name@
    }

    /// Whether the command's input names a file whose contents are to be read.
    pub fn reads_file(&self) -> (r: bool)
        ensures
            r == (self.func() == Transformation::Csv),
    {
        match self.func {
            Transformation::Csv => true,
            _ => false,
        }
    }
}

/// The name of a transformation, as text.
fn name_text(t: Transformation) -> (r: &'static str)
    ensures
        r@ == name_of(t),
{
    match t {
        Transformation::Lowercase => "lowercase",
        Transformation::Uppercase => "uppercase",
        Transformation::NoSpaces => "no-spaces",
        Transformation::Slugify => "slugify",
        Transformation::Scream => "scream",
        Transformation::Reverse => "reverse",
        Transformation::Csv => "csv",
    }
}

/// Chooses the transformation `name` names, among the six text
/// transformations and `csv`.
pub fn get_text_transformer(name: &str) -> (r: Result<TextTransformer, AppError>)
    ensures
        match selected(name@, true) {
            Some(t) => r matches Ok(tt) && tt.func() == t && tt.name() == name_of(t),
            None => r matches Err(AppError::InvalidCliArgument { message }) && message@
                == "Invalid argument '"@ + name@ + "'. Allowed are: "@ + allowed_names(true),
        },
{
    match select(name, true) {
        Some(func) => Ok(TextTransformer { func, name: name_text(func) }),
        None => {
            let mut message = String::from_str("Invalid argument '");
            message.append(name);
            message.append("'. Allowed are: ");
            let allowed = allowed_names_text(true);
            message.append(allowed.as_str());
            Err(AppError::InvalidCliArgument { message })
        },
    }
}

/// A transformation and the input it is applied to.
#[derive(Debug)]
pub struct Command {
    transformer: TextTransformer,
    input: String,
}

/// Why a line does not name a command.
pub enum CommandProblem {
    /// No transformation bears this name.
    UnknownName(Seq<char>),
    /// The line has no second word to serve as input.
    MissingArgument,
}

/// How a line names a command: when a transformation was named on the command
/// line, the whole trimmed line is its input; otherwise the line's first word
/// names the transformation and its second word is the input.
pub open spec fn command_parts(value: Seq<char>, env_arg: Option<Seq<char>>) -> Result<
    (Transformation, Seq<char>),
    CommandProblem,
> {
    match env_arg {
        Some(arg) => match selected(trim(arg), true) {
            Some(t) => Ok((t, trim(value))),
            None => Err(CommandProblem::UnknownName(trim(arg))),
        },
        None => {
            let words = split_on(value, ' ');
            match selected(words[0], true) {
                Some(t) => if words.len() >= 2 {
                    Ok((t, words[1]))
                } else {
                    Err(CommandProblem::MissingArgument)
                },
                None => Err(CommandProblem::UnknownName(words[0])),
            }
        },
    }
}

impl Command {
    /// The chosen transformation.
    pub closed spec fn transformer(&self) -> TextTransformer {
        self.transformer
    }

    /// The input the transformation is applied to.
    pub closed spec fn input(&self) -> Seq<char> {
        self.input@
    }

    /// A command applying `transformer` to `input`; for `csv` the input is
    /// the contents of the file, read beforehand.
    pub fn new(transformer: TextTransformer, input: String) -> (r: Self)
        ensures
            r.transformer() == transformer,
            r.input() == input@,
    {
        Command { transformer, input }
    }

    /// Reads a command from a line of input, given the transformation named
    /// on the command line if any. For `csv`, the input is the path of the
    /// file to read.
    pub fn try_from_line(value: &str, env_arg: Option<&str>) -> (r: Result<(TextTransformer, String), AppError>)
        ensures
            match command_parts(value@, match env_arg { Some(a) => Some(a@), None => None }) {
                Ok((t, input)) => r matches Ok((tt, i)) && tt.func() == t && tt.name() == name_of(t)
                    && i@ == input,
                Err(CommandProblem::MissingArgument) => r matches Err(AppError::MissingArgument),
                Err(CommandProblem::UnknownName(name)) => r matches Err(
                    AppError::InvalidCliArgument { message },
                ) && message@ == "Invalid argument '"@ + name + "'. Allowed are: "@ + allowed_names(
                    true,
                ),
            },
    {
        match env_arg {
            Some(arg) => {
                let arg_chars = chars_of(arg);
                let name = string_of(trimmed(arg_chars.as_slice()).as_slice());
                let transformer = match get_text_transformer(name.as_str()) {
                    Ok(t) => t,
                    Err(e) => return Err(e),
                };
                let value_chars = chars_of(value);
                let input = string_of(trimmed(value_chars.as_slice()).as_slice());
                Ok((transformer, input))
            },
            None => {
                let value_chars = chars_of(value);
                let words = split_chars(value_chars.as_slice(), ' ');
                let ghost w = views(words@);
                assert(w[0] == words@[0]@);
                let command = string_of(words[0].as_slice());
                let transformer = match get_text_transformer(command.as_str()) {
                    Ok(t) => t,
                    Err(e) => return Err(e),
                };
                if words.len() < 2 {
                    return Err(AppError::MissingArgument);
                }
                assert(w[1] == words@[1]@);
                let input = string_of(words[1].as_slice());
                Ok((transformer, input))
            },
        }
    }

    /// The line the command writes: its output and a line break.
    pub fn apply(&self) -> (r: String)
        ensures
            r@ == command_output(self.transformer().func(), self.input()) + "\n"@,
    {
        let mut r = if self.transformer.reads_file() {
            create_csv_table(self.input.as_str())
        } else {
            transform(self.transformer.func, self.input.as_str())
        };
        r.append("\n");
        r
    }
}

/// The error for a file that could not be read: its path and the reason.
pub fn file_read_error(path: &str, reason: &str) -> (r: AppError)
    ensures
        r matches AppError::FileRead { message } && message@ == "Unable to read '"@ + path@ + "'. "@
            + reason@,
{
    let mut message = String::from_str("Unable to read '");
    message.append(path);
    message.append("'. ");
    message.append(reason);
    AppError::FileRead { message }
}

} // verus!
