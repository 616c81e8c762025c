//! The two commands a member can send, and how a message is told apart.

use crate::color::{parse_color, parse_color_spec, ParseError};
use crate::text::{same_text, starts_with};
use vstd::prelude::*;

verus! {

/// What a message is, by its wording alone.
#[derive(Debug, PartialEq, Eq)]
pub enum Command {
    /// The member gives up the colour.
    Reset,
    /// The member asks for the colour written in the text, which is what
    /// follows the command word with one leading `#` taken off.
    SetColor(String),
    /// Not a command.
    Ignore,
}

/// A `Command` with its text as a sequence of characters.
pub enum CommandView {
    Reset,
    SetColor(Seq<char>),
    Ignore,
}

impl View for Command {
    type V = CommandView;

    open spec fn view(&self) -> CommandView {
        match self {
            Command::Reset => CommandView::Reset,
            Command::SetColor(raw) => CommandView::SetColor(raw@),
            Command::Ignore => CommandView::Ignore,
        }
    }
}

/// The whole message that gives up a colour.
pub open spec fn reset_word() -> Seq<char> {
    ".color-reset"@
}

/// What a message that asks for a colour begins with.
pub open spec fn set_word() -> Seq<char> {
    ".color-set "@
}

/// `s` without its leading `#`, if it has one.
pub open spec fn strip_hash(s: Seq<char>) -> Seq<char> {
    if s.len() > 0 && s[0] == '#' {
        s.drop_first()
    } else {
        s
    }
}

/// The command that a message body is.
pub open spec fn classify(content: Seq<char>) -> CommandView {
    if content == reset_word() {
        CommandView::Reset
    } else if set_word().is_prefix_of(content) {
        CommandView::SetColor(strip_hash(content.skip(set_word().len() as int)))
    } else {
        CommandView::Ignore
    }
}

/// `s` without its leading `#`, if it has one.
pub fn without_hash(s: &str) -> (rest: &str)
    ensures
        rest@ == strip_hash(s@),
{
    let len: usize = s.unicode_len();
    if len > 0 && s.get_char(0) == '#' {
        s.substring_char(1, len)
    } else {
        s
    }
}

/// Tells the command in a message body. The comparison is exact and minds
/// the case.
pub fn parse_command(content: &str) -> (command: Command)
    ensures
        command@ == classify(content@),
{
    if same_text(content, ".color-reset") {
        Command::Reset
    } else if starts_with(content, ".color-set ") {
        proof {
            reveal_strlit(".color-set ");
        }
        let len: usize = content.unicode_len();
        let rest = content.substring_char(11, len);
        Command::SetColor(without_hash(rest).to_owned())
    } else {
        Command::Ignore
    }
}

/// What a member wants done to the roles.
#[derive(Debug, PartialEq, Eq)]
pub enum Intent {
    /// Hold no colour role.
    Reset,
    /// Hold one colour role of this colour, named after the text it was
    /// written as.
    SetColor { raw: String, color: u32 },
}

/// An `Intent` with its text as a sequence of characters.
pub enum IntentView {
    Reset,
    SetColor { raw: Seq<char>, color: u32 },
}

impl View for Intent {
    type V = IntentView;

    open spec fn view(&self) -> IntentView {
        match self {
            Intent::Reset => IntentView::Reset,
            Intent::SetColor { raw, color } => IntentView::SetColor { raw: raw@, color: *color },
        }
    }
}

impl Clone for Intent {
    fn clone(&self) -> (copy: Self)
        ensures
            copy@ == self@,
    {
        match self {
            Intent::Reset => Intent::Reset,
            Intent::SetColor { raw, color } => Intent::SetColor { raw: raw.clone(), color: *color },
        }
    }
}

/// What the parser makes of a message.
#[derive(Debug, PartialEq, Eq)]
pub enum Reading {
    /// The message is no command: nothing is to be done.
    Ignored,
    /// The message is a command whose colour cannot be read.
    Rejected(ParseError),
    /// The message is a command, and this is what it asks for.
    Accepted(Intent),
}

/// A `Reading` with its text as a sequence of characters.
pub enum ReadingView {
    Ignored,
    Rejected(ParseError),
    Accepted(IntentView),
}

impl View for Reading {
    type V = ReadingView;

    open spec fn view(&self) -> ReadingView {
        match self {
            Reading::Ignored => ReadingView::Ignored,
            Reading::Rejected(error) => ReadingView::Rejected(*error),
            Reading::Accepted(intent) => ReadingView::Accepted(intent@),
        }
    }
}

/// What a command asks for, if its colour can be read.
pub open spec fn interpret(command: CommandView) -> ReadingView {
    match command {
        CommandView::Ignore => ReadingView::Ignored,
        CommandView::Reset => ReadingView::Accepted(IntentView::Reset),
        CommandView::SetColor(raw) => match parse_color_spec(raw) {
            Ok(color) => ReadingView::Accepted(IntentView::SetColor { raw, color }),
            Err(error) => ReadingView::Rejected(error),
        },
    }
}

/// What a message body asks for.
pub open spec fn read(content: Seq<char>) -> ReadingView {
    interpret(classify(content))
}

/// Reads a message body: tells its command and, for a colour, reads the
/// number. The colour is as written; black is not yet replaced.
pub fn read_message(content: &str) -> (reading: Reading)
    ensures
        reading@ == read(content@),
{
    match parse_command(content) {
        Command::Ignore => Reading::Ignored,
        Command::Reset => Reading::Accepted(Intent::Reset),
        Command::SetColor(raw) => match parse_color(raw.as_str()) {
            Ok(color) => Reading::Accepted(Intent::SetColor { raw, color }),
            Err(error) => Reading::Rejected(error),
        },
    }
}

} // verus!
