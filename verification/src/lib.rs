//! A note manager's core: parsing notes, ranking them against a search
//! pattern, rendering matches and laying out the repository tree.

use crate::cli_format::CliFormat;
use crate::command_handler::may_apply;
use crate::command_handler::Command;
use crate::command_handler::CommandHandler;
use crate::command_parser::built_as;
use crate::command_parser::command_of;
use crate::command_parser::CommandParser;
use crate::command_parser::Invocation;
use crate::console_output::ConsoleOutput;
use crate::default_error::DefaultError;
use crate::repository::Repository;
use crate::shell::CommandOutput;
use crate::shell::Executor;
use crate::text::option_view;
use vstd::prelude::*;
use vstd::string::*;

pub mod banners;
pub mod cli_format;
pub mod command_handler;
pub mod command_parser;
pub mod config;
pub mod console_output;
pub mod default_error;
pub mod git;
pub mod note;
pub mod pattern;
pub mod repository;
pub mod search_match;
pub mod shell;
pub mod style;
pub mod text;
pub mod usage;

verus! {

pub const PKG_NAME: &'static str = "notes";

pub const PKG_VERSION: &'static str = "0.1.0";

pub const PKG_AUTHORS: &'static str = "remipassmoilesel";

pub const PKG_DESCRIPTION: &'static str = "Notes as plain text files, kept under version control";

/// The command that tells whether a program can be found.
pub open spec fn which_command_text(command: Seq<char>) -> Seq<char> {
    "which "@ + command
}

/// The command that tells whether a program can be found.
pub fn which_command(command: &str) -> (line: String)
    ensures
        line@ == which_command_text(command@),
{
    let mut line = "which ".to_string();
    line.append(command);
    line
}

pub const MISSING_SHELL: &'static str = "sh must be installed and in path variable";

pub const MISSING_GIT: &'static str = "Git must be installed and in path variable";

pub const MISSING_EDITOR: &'static str = "$EDITOR variable must be set in your shell";

/// Whether `checked` is how a lookup with the given outcome is judged: the
/// program is there exactly where the lookup ran and ended with status
/// zero; else the error carries `message`.
pub open spec fn found_as(
    outcome: Result<CommandOutput, DefaultError>,
    message: Seq<char>,
    checked: Result<(), DefaultError>,
) -> bool {
    &&& checked is Ok <==> (outcome is Ok && outcome->Ok_0.status == 0)
    &&& checked matches Err(error) ==> error.message@ == message && error.backtrace is None
}

/// Whether `checked` may be what looking `command` up through the executor
/// gives: the executor ran `which` on it in `/`, and the outcome was judged.
pub open spec fn looked_up<E: Executor>(
    executor: &E,
    command: Seq<char>,
    message: Seq<char>,
    checked: Result<(), DefaultError>,
) -> bool {
    exists|outcome: Result<CommandOutput, DefaultError>|
        #[trigger] executor.may_end(which_command_text(command), "/"@, outcome) && found_as(
            outcome,
            message,
            checked,
        )
}

/// Whether `checked` may be what looking for version control, and then for
/// an editor, gives.
pub open spec fn git_and_editor_checked<E: Executor>(
    executor: &E,
    checked: Result<(), DefaultError>,
) -> bool {
    exists|git: Result<(), DefaultError>|
        #[trigger] looked_up(executor, "git"@, MISSING_GIT@, git) && if git is Err {
            checked == git
        } else {
            looked_up(executor, "$EDITOR"@, MISSING_EDITOR@, checked)
        }
}

/// Whether `checked` may be what checking the prerequisites gives: a shell,
/// version control and an editor are looked up in this order, and the first
/// that is missing is reported.
pub open spec fn prerequisites_checked<E: Executor>(
    executor: &E,
    checked: Result<(), DefaultError>,
) -> bool {
    exists|shell: Result<(), DefaultError>|
        #[trigger] looked_up(executor, "sh"@, MISSING_SHELL@, shell) && if shell is Err {
            checked == shell
        } else {
            git_and_editor_checked(executor, checked)
        }
}

/// Judges a lookup: the program is there exactly where the lookup ran and
/// ended with status zero; else the error carries `message`.
pub fn found_or(outcome: Result<CommandOutput, DefaultError>, message: &str) -> (checked: Result<
    (),
    DefaultError,
>)
    ensures
        found_as(outcome, message@, checked),
{
    match outcome {
        Ok(output) => if output.status == 0 {
            Ok(())
        } else {
            Err(DefaultError::new(message.to_string()))
        },
        Err(_) => Err(DefaultError::new(message.to_string())),
    }
}

/// Looks a program up through the executor; fails with `message` where it
/// is not found.
pub fn assert_exists<E: Executor>(executor: &E, command: &str, message: &str) -> (checked: Result<
    (),
    DefaultError,
>)
    ensures
        looked_up(executor, command@, message@, checked),
{
    found_or(executor.run(which_command(command).as_str(), "/"), message)
}

/// Checks that a shell, version control and an editor are at hand.
pub fn check_prerequisites<E: Executor>(executor: &E) -> (checked: Result<(), DefaultError>)
    ensures
        prerequisites_checked(executor, checked),
{
    let shell = assert_exists(executor, "sh", MISSING_SHELL);
    if shell.is_err() {
        return shell;
    }
    let git = assert_exists(executor, "git", MISSING_GIT);
    if git.is_err() {
        return git;
    }
    assert_exists(executor, "$EDITOR", MISSING_EDITOR)
}

/// Whether `applied` may be what setting the repository up and carrying
/// out the command gives: a failure of the setting up is handed on.
pub open spec fn may_set_up_and_apply<R: Repository, F: CliFormat>(
    repository: &R,
    formatter: &F,
    command: Command,
    applied: Result<ConsoleOutput, DefaultError>,
) -> bool {
    exists|set_up: Result<ConsoleOutput, DefaultError>|
        #[trigger] repository.may_init(set_up) && match set_up {
            Ok(_) => may_apply(repository, formatter, command, applied),
            Err(error) => applied == Err::<ConsoleOutput, DefaultError>(error),
        }
}

/// Whether `applied` may be what building the command of the invocation and
/// carrying it out gives: where the invocation asks for no command, the
/// refusal is handed on and the repository is not touched.
pub open spec fn may_build_and_apply<R: Repository, F: CliFormat>(
    invocation: Invocation,
    repository: &R,
    formatter: &F,
    applied: Result<ConsoleOutput, DefaultError>,
) -> bool {
    exists|built: Result<Command, DefaultError>|
        #[trigger] built_as(
            built,
            command_of(option_view(invocation.subcommand), option_view(invocation.argument)),
        ) && match built {
            Ok(command) => may_set_up_and_apply(repository, formatter, command, applied),
            Err(error) => applied == Err::<ConsoleOutput, DefaultError>(error),
        }
}

/// Whether `applied` may be what carrying out the invocation gives: the
/// prerequisites are checked first, and the first that is missing is
/// reported.
pub open spec fn may_run<E: Executor, R: Repository, F: CliFormat>(
    invocation: Invocation,
    executor: &E,
    repository: &R,
    formatter: &F,
    applied: Result<ConsoleOutput, DefaultError>,
) -> bool {
    exists|checked: Result<(), DefaultError>|
        #[trigger] prerequisites_checked(executor, checked) && match checked {
            Ok(_) => may_build_and_apply(invocation, repository, formatter, applied),
            Err(error) => applied == Err::<ConsoleOutput, DefaultError>(error),
        }
}

/// Carries out one invocation: checks the prerequisites, builds the command,
/// sets the repository up where needed, and applies the command.
pub fn parse_and_apply_command<E: Executor, R: Repository, F: CliFormat>(
    invocation: &Invocation,
    executor: &E,
    repository: &R,
    formatter: &F,
) -> (applied: Result<ConsoleOutput, DefaultError>)
    ensures
        may_run(*invocation, executor, repository, formatter, applied),
{
    let checked = check_prerequisites(executor);
    match checked {
        Ok(_) => {},
        Err(error) => {
            return Err(error);
        },
    }
    let built = CommandParser::new().build_command(invocation);
    let command = match built {
        Ok(command) => command,
        Err(error) => {
            return Err(error);
        },
    };
    let set_up = repository.init();
    proof {
        assert(repository.may_init(set_up));
    }
    match set_up {
        Ok(_) => {},
        Err(error) => {
            return Err(error);
        },
    }
    let applied = CommandHandler::new(repository, formatter).apply_command(command);
    proof {
        assert(may_set_up_and_apply(repository, formatter, command, applied));
        assert(may_build_and_apply(*invocation, repository, formatter, applied));
    }
    applied
}

} // verus!
