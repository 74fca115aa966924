//! What a line typed at the selection prompt asks for.

use crate::number::{parse_usize, parsed_usize};
use vstd::prelude::*;
use vstd::string::StringExecFns;

verus! {

/// The lower-case form of a text as Unicode defines it. This is what
/// `str::to_lowercase` computes; the library relies on nothing else about it.
pub uninterp spec fn lowercase_of(text: Seq<char>) -> Seq<char>;

/// `str::to_lowercase` of std: its result is given the name `lowercase_of`.
pub assume_specification[ str::to_lowercase ](text: &str) -> (lowered: String)
    ensures
        lowered@ == lowercase_of(text@),
;

/// A request made at the selection prompt.
#[derive(Clone, Copy, Debug, PartialEq, Eq, Structural)]
pub enum Command {
    /// Leave without a choice.
    Quit,
    /// Enter other target ranks.
    Custom,
    /// Take the transition with this number, which is 1 or more.
    Number(usize),
    /// Nothing was typed.
    Empty,
}

/// A line that is no request.
#[derive(Debug)]
pub enum CommandError {
    /// The line, in lower case, is none of the words and no number.
    Unrecognized { input: String },
}

/// The request that a line in lower case stands for, if it stands for one.
pub open spec fn command_of(lowered: Seq<char>) -> Option<Command> {
    if lowered == "q"@ || lowered == "quit"@ || lowered == "exit"@ {
        Some(Command::Quit)
    } else if lowered == "c"@ || lowered == "custom"@ {
        Some(Command::Custom)
    } else if lowered.len() == 0 {
        Some(Command::Empty)
    } else {
        match parsed_usize(lowered) {
            Some(number) => if number >= 1 {
                Some(Command::Number(number))
            } else {
                None
            },
            None => None,
        }
    }
}

/// What a line in lower case is read as: the request that it stands for,
/// or the line itself where it stands for none.
pub open spec fn request_of(lowered: Seq<char>) -> Result<Command, Seq<char>> {
    match command_of(lowered) {
        Some(command) => Ok(command),
        None => Err(lowered),
    }
}

/// What a result of reading a request stands for in specifications.
pub open spec fn request_view(res: Result<Command, CommandError>) -> Result<Command, Seq<char>> {
    match res {
        Ok(command) => Ok(command),
        Err(CommandError::Unrecognized { input }) => Err(input@),
    }
}

/// Tells whether two texts hold the same characters.
pub fn same_text(a: &str, b: &str) -> (same: bool)
    ensures
        same == (a@ == b@),
{
    String::from_str(a) == String::from_str(b)
}

impl Command {
    /// Reads a request from a line that is in lower case already: one of
    /// the words `q`, `quit`, `exit`, `c`, `custom`, nothing at all, or a
    /// number from 1 on.
    pub fn classify(lowered: &str) -> (res: Result<Command, CommandError>)
        ensures
            request_view(res) == request_of(lowered@),
    {
        if same_text(lowered, "q") || same_text(lowered, "quit") || same_text(lowered, "exit") {
            Ok(Command::Quit)
        } else if same_text(lowered, "c") || same_text(lowered, "custom") {
            Ok(Command::Custom)
        } else if lowered.is_empty() {
            Ok(Command::Empty)
        } else {
            match parse_usize(lowered) {
                Some(number) if number >= 1 => Ok(Command::Number(number)),
                _ => Err(CommandError::Unrecognized { input: String::from_str(lowered) }),
            }
        }
    }

    /// Reads a request from a line as it was typed: capital and small
    /// letters count the same.
    pub fn from_str(input: &str) -> (res: Result<Command, CommandError>)
        ensures
            request_view(res) == request_of(lowercase_of(input@)),
    {
        let lowered = input.to_lowercase();
        Command::classify(lowered.as_str())
    }
}

} // verus!
