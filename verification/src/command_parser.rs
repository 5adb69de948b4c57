//! From what the argument parser understood to a command.

use crate::command_handler::Command;
use crate::command_handler::CommandView;
use crate::default_error::DefaultError;
use crate::text::option_view;
use crate::text::same_text;
use vstd::prelude::*;
use vstd::string::*;

verus! {

/// The value of a decimal digit.
pub open spec fn digit_value(c: char) -> Option<nat> {
    if c == '0' {
        Some(0)
    } else if c == '1' {
        Some(1)
    } else if c == '2' {
        Some(2)
    } else if c == '3' {
        Some(3)
    } else if c == '4' {
        Some(4)
    } else if c == '5' {
        Some(5)
    } else if c == '6' {
        Some(6)
    } else if c == '7' {
        Some(7)
    } else if c == '8' {
        Some(8)
    } else if c == '9' {
        Some(9)
    } else {
        None
    }
}

/// The number that decimal digits stand for; `None` where one of the
/// characters is no digit.
pub open spec fn decimal_value(digits: Seq<char>) -> Option<nat>
    decreases digits.len(),
{
    if digits.len() == 0 {
        Some(0)
    } else {
        match (decimal_value(digits.drop_last()), digit_value(digits.last())) {
            (Some(before), Some(last)) => Some(before * 10 + last),
            _ => None,
        }
    }
}

/// The number that a text stands for as a `usize`: the text is an optional
/// `+` followed by at least one decimal digit and nothing else, and the
/// number fits.
pub open spec fn parsed_usize(text: Seq<char>) -> Option<usize> {
    let digits = if text.len() > 0 && text[0] == '+' {
        text.drop_first()
    } else {
        text
    };
    match decimal_value(digits) {
        Some(value) => if digits.len() > 0 && value <= usize::MAX {
            Some(value as usize)
        } else {
            None
        },
        None => None,
    }
}

/// The message with which the number parser refuses a text that stands
/// for no `usize`.
pub uninterp spec fn usize_parse_message(text: Seq<char>) -> Seq<char>;

/// `str::parse::<usize>`: the number that the text stands for, or the
/// `Display` text of the parser's error, which depends on the text alone.
#[verifier::external_body]
fn parse_usize(text: &str) -> (parsed: Result<usize, String>)
    ensures
        match parsed {
            Ok(number) => parsed_usize(text@) == Some(number),
            Err(message) => parsed_usize(text@) is None && message@ == usize_parse_message(text@),
        },
{
    text.parse::<usize>().map_err(|error| error.to_string())
}

/// A command line as the argument parser understood it: the subcommand by
/// its full name, and the value of its argument.
pub struct Invocation {
    pub subcommand: Option<String>,
    pub argument: Option<String>,
}

pub const MISSING_TITLE: &'static str = "You must specify a title";

pub const MISSING_NEEDLE: &'static str = "You must specify something to search";

pub const MISSING_ID: &'static str = "You must specify a note id";

pub const BAD_COMMAND: &'static str = "Bad command, try: $ notes help";

/// Why an invocation is no command.
pub enum Refusal {
    /// With this message.
    Message(Seq<char>),
    /// The identifier, this text, is no number; the message is that of the
    /// number parser.
    NotANumber(Seq<char>),
}

/// The command on a note given by its identifier.
pub open spec fn numbered_command(argument: Option<Seq<char>>, edit: bool) -> Result<
    CommandView,
    Refusal,
> {
    match argument {
        Some(text) => match parsed_usize(text) {
            Some(id) => if edit {
                Ok(CommandView::Edit { id })
            } else {
                Ok(CommandView::Delete { id })
            },
            None => Err(Refusal::NotANumber(text)),
        },
        None => Err(Refusal::Message(MISSING_ID@)),
    }
}

/// What an invocation asks for.
pub open spec fn command_of(subcommand: Option<Seq<char>>, argument: Option<Seq<char>>) -> Result<
    CommandView,
    Refusal,
> {
    if subcommand == Some("new"@) {
        match argument {
            Some(path) => Ok(CommandView::New { path }),
            None => Err(Refusal::Message(MISSING_TITLE@)),
        }
    } else if subcommand == Some("list"@) {
        Ok(CommandView::List)
    } else if subcommand == Some("search"@) {
        match argument {
            Some(needle) => Ok(CommandView::Search { needle }),
            None => Err(Refusal::Message(MISSING_NEEDLE@)),
        }
    } else if subcommand == Some("edit"@) {
        numbered_command(argument, true)
    } else if subcommand == Some("delete"@) {
        numbered_command(argument, false)
    } else if subcommand == Some("pull"@) {
        Ok(CommandView::Pull)
    } else if subcommand == Some("push"@) {
        Ok(CommandView::Push)
    } else if subcommand == Some("help"@) {
        Ok(CommandView::Help)
    } else {
        Err(Refusal::Message(BAD_COMMAND@))
    }
}

/// Whether what was built is what was asked for.
pub open spec fn built_as(built: Result<Command, DefaultError>, asked: Result<CommandView, Refusal>)
    -> bool {
    match asked {
        Ok(command) => built is Ok && built->Ok_0@ == command,
        Err(Refusal::Message(message)) => built is Err && built->Err_0.message@ == message
            && built->Err_0.backtrace is None,
        Err(Refusal::NotANumber(text)) => built is Err && built->Err_0.message@
            == usize_parse_message(text) && built->Err_0.backtrace is None,
    }
}

/// Turns invocations into commands.
pub struct CommandParser;

impl CommandParser {
    pub fn new() -> CommandParser {
        CommandParser
    }

    /// The command that an invocation asks for, or why it asks for none.
    pub fn build_command(&self, matches: &Invocation) -> (built: Result<Command, DefaultError>)
        ensures
            built_as(
                built,
                command_of(option_view(matches.subcommand), option_view(matches.argument)),
            ),
    {
        let name = match &matches.subcommand {
            Some(name) => name.as_str(),
            None => {
                return Err(DefaultError::new(BAD_COMMAND.to_string()));
            },
        };
        if same_text(name, "new") {
            return match &matches.argument {
                Some(title) => Ok(Command::New { path: title.clone() }),
                None => Err(DefaultError::new(MISSING_TITLE.to_string())),
            };
        }
        if same_text(name, "list") {
            return Ok(Command::List);
        }
        if same_text(name, "search") {
            return match &matches.argument {
                Some(needle) => Ok(Command::Search { needle: needle.clone() }),
                None => Err(DefaultError::new(MISSING_NEEDLE.to_string())),
            };
        }
        if same_text(name, "edit") {
            return Self::numbered(&matches.argument, true);
        }
        if same_text(name, "delete") {
            return Self::numbered(&matches.argument, false);
        }
        if same_text(name, "pull") {
            return Ok(Command::Pull);
        }
        if same_text(name, "push") {
            return Ok(Command::Push);
        }
        if same_text(name, "help") {
            return Ok(Command::Help);
        }
        Err(DefaultError::new(BAD_COMMAND.to_string()))
    }

    /// The command on a note given by its identifier.
    fn numbered(argument: &Option<String>, edit: bool) -> (built: Result<Command, DefaultError>)
        ensures
            built_as(built, numbered_command(option_view(*argument), edit)),
    {
        match argument {
            Some(text) => Self::identified(parse_usize(text.as_str()), edit),
            None => Err(DefaultError::new(MISSING_ID.to_string())),
        }
    }

    /// The command on the note with the parsed identifier, or the parser's
    /// message where the identifier did not parse.
    pub fn identified(parsed: Result<usize, String>, edit: bool) -> (built: Result<
        Command,
        DefaultError,
    >)
        ensures
            match parsed {
                Ok(id) => built is Ok && built->Ok_0@ == (if edit {
                    CommandView::Edit { id }
                } else {
                    CommandView::Delete { id }
                }),
                Err(message) => built is Err && built->Err_0.message == message
                    && built->Err_0.backtrace is None,
            },
    {
        match parsed {
            Ok(id) => if edit {
                Ok(Command::Edit { id })
            } else {
                Ok(Command::Delete { id })
            },
            Err(message) => Err(DefaultError::new(message)),
        }
    }
}

} // verus!
