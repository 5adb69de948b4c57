//! Running commands: what a finished command leaves behind, and when it counts as failed.

use crate::config::Config;
use crate::default_error::DefaultError;
use crate::text::signed_decimal;
use crate::text::signed_decimal_string;
use vstd::prelude::*;
use vstd::string::*;

verus! {

/// The exit status of a finished command and what it wrote.
#[derive(Debug)]
pub struct CommandOutput {
    pub status: i32,
    pub stdout: String,
    pub stderr: String,
}

impl CommandOutput {
    pub fn new(code: i32, stdout: String, stderr: String) -> (output: Self)
        ensures
            output.status == code,
            output.stdout == stdout,
            output.stderr == stderr,
    {
        CommandOutput { status: code, stdout, stderr }
    }
}

impl Default for CommandOutput {
    fn default() -> (output: Self)
        ensures
            output.status == 0,
            output.stdout@ == Seq::<char>::empty(),
            output.stderr@ == Seq::<char>::empty(),
    {
        CommandOutput::new(0, String::new(), String::new())
    }
}

/// Something that runs a command line in a directory. It answers with the
/// finished command, whatever its exit status, or with an error where the
/// command could not be run at all. Which outcomes a run may have is named
/// by `may_end`; an executor that says nothing of its outcomes leaves that
/// open.
pub trait Executor {
    /// Whether running `command` in `current_dir` may end with `outcome`.
    open spec fn may_end(
        &self,
        command: Seq<char>,
        current_dir: Seq<char>,
        outcome: Result<CommandOutput, DefaultError>,
    ) -> bool {
        true
    }

    fn run(&self, command: &str, current_dir: &str) -> (outcome: Result<CommandOutput, DefaultError>)
        ensures
            self.may_end(command@, current_dir@, outcome),
    ;
}

/// Runs commands and reports a non-zero exit status as an error.
///
/// For each method the trait names which results a call may have; a shell
/// that says nothing of its results leaves that open.
pub trait Shell {
    /// Whether `execute` may answer with `checked`.
    open spec fn may_execute(
        &self,
        command: Seq<char>,
        current_dir: Seq<char>,
        checked: Result<CommandOutput, DefaultError>,
    ) -> bool {
        true
    }

    /// Whether `execute_in_repo` may answer with `checked`.
    open spec fn may_execute_in_repo(
        &self,
        command: Seq<char>,
        checked: Result<CommandOutput, DefaultError>,
    ) -> bool {
        true
    }

    /// Whether `execute_interactive` may answer with `checked`.
    open spec fn may_execute_interactive(
        &self,
        command: Seq<char>,
        current_dir: Seq<char>,
        checked: Result<CommandOutput, DefaultError>,
    ) -> bool {
        true
    }

    /// Whether `execute_interactive_in_repo` may answer with `checked`.
    open spec fn may_execute_interactive_in_repo(
        &self,
        command: Seq<char>,
        checked: Result<CommandOutput, DefaultError>,
    ) -> bool {
        true
    }

    /// Runs `command` in `current_dir` and captures what it writes.
    fn execute(&self, command: &str, current_dir: &str) -> (checked: Result<
        CommandOutput,
        DefaultError,
    >)
        ensures
            self.may_execute(command@, current_dir@, checked),
    ;

    /// Runs `command` in the storage directory and captures what it writes.
    fn execute_in_repo(&self, command: &str) -> (checked: Result<CommandOutput, DefaultError>)
        ensures
            self.may_execute_in_repo(command@, checked),
    ;

    /// Runs `command` in `current_dir` on the user's terminal.
    fn execute_interactive(&self, command: &str, current_dir: &str) -> (checked: Result<
        CommandOutput,
        DefaultError,
    >)
        ensures
            self.may_execute_interactive(command@, current_dir@, checked),
    ;

    /// Runs `command` in the storage directory on the user's terminal.
    fn execute_interactive_in_repo(&self, command: &str) -> (checked: Result<
        CommandOutput,
        DefaultError,
    >)
        ensures
            self.may_execute_interactive_in_repo(command@, checked),
    ;
}

/// The message for a captured command that ended with a non-zero status.
pub open spec fn captured_failure(command: Seq<char>, output: CommandOutput) -> Seq<char> {
    "Command failed: '"@ + command + "'\nExit code='"@ + signed_decimal(output.status as int)
        + "'\nstdout='"@ + output.stdout@ + "'\nstderr='"@ + output.stderr@ + "'"@
}

/// The message for a command on the terminal that ended with a non-zero status.
pub open spec fn interactive_failure(command: Seq<char>, output: CommandOutput) -> Seq<char> {
    "Command failed: '"@ + command + "'\nExit code='"@ + signed_decimal(output.status as int)
        + "'\n"@
}

/// Whether `checked` is how a captured command with the given outcome is
/// judged: it succeeded exactly where it ran and ended with status zero.
pub open spec fn captured_check(
    command: Seq<char>,
    outcome: Result<CommandOutput, DefaultError>,
    checked: Result<CommandOutput, DefaultError>,
) -> bool {
    match outcome {
        Ok(output) => if output.status == 0 {
            checked == Ok::<CommandOutput, DefaultError>(output)
        } else {
            &&& checked is Err
            &&& checked->Err_0.message@ == captured_failure(command, output)
            &&& checked->Err_0.backtrace is None
        },
        Err(error) => checked == Err::<CommandOutput, DefaultError>(error),
    }
}

/// Whether `checked` is how a command on the terminal with the given
/// outcome is judged.
pub open spec fn interactive_check(
    command: Seq<char>,
    outcome: Result<CommandOutput, DefaultError>,
    checked: Result<CommandOutput, DefaultError>,
) -> bool {
    match outcome {
        Ok(output) => if output.status == 0 {
            checked == Ok::<CommandOutput, DefaultError>(output)
        } else {
            &&& checked is Err
            &&& checked->Err_0.message@ == interactive_failure(command, output)
            &&& checked->Err_0.backtrace is None
        },
        Err(error) => checked == Err::<CommandOutput, DefaultError>(error),
    }
}

/// Judges a captured command: it succeeded exactly where it ran and ended
/// with status zero.
pub fn check_captured(command: &str, outcome: Result<CommandOutput, DefaultError>) -> (checked:
    Result<CommandOutput, DefaultError>)
    ensures
        captured_check(command@, outcome, checked),
{
    match outcome {
        Ok(output) => {
            if output.status == 0 {
                Ok(output)
            } else {
                let mut message = "Command failed: '".to_string();
                message.append(command);
                message.append("'\nExit code='");
                message.append(signed_decimal_string(output.status as i64).as_str());
                message.append("'\nstdout='");
                message.append(output.stdout.as_str());
                message.append("'\nstderr='");
                message.append(output.stderr.as_str());
                message.append("'");
                Err(DefaultError::new(message))
            }
        },
        Err(error) => Err(error),
    }
}

/// Judges a command run on the terminal: it succeeded exactly where it ran
/// and ended with status zero.
pub fn check_interactive(command: &str, outcome: Result<CommandOutput, DefaultError>) -> (checked:
    Result<CommandOutput, DefaultError>)
    ensures
        interactive_check(command@, outcome, checked),
{
    match outcome {
        Ok(output) => {
            if output.status == 0 {
                Ok(output)
            } else {
                let mut message = "Command failed: '".to_string();
                message.append(command);
                message.append("'\nExit code='");
                message.append(signed_decimal_string(output.status as i64).as_str());
                message.append("'\n");
                Err(DefaultError::new(message))
            }
        },
        Err(error) => Err(error),
    }
}

/// A shell over two executors: one that captures what a command writes, one
/// that lets the command use the terminal.
pub struct ShellImpl<'a, E: Executor, I: Executor> {
    pub config: &'a Config,
    pub executor: E,
    pub interactive_executor: I,
}

impl<'a, E: Executor, I: Executor> ShellImpl<'a, E, I> {
    pub fn new(config: &'a Config, executor: E, interactive_executor: I) -> (shell: Self)
        ensures
            shell.config == config,
            shell.executor == executor,
            shell.interactive_executor == interactive_executor,
    {
        ShellImpl { config, executor, interactive_executor }
    }
}

impl<'a, E: Executor, I: Executor> Shell for ShellImpl<'a, E, I> {
    /// The executor ran the command in the directory, and its outcome was
    /// judged as a captured command is.
    open spec fn may_execute(
        &self,
        command: Seq<char>,
        current_dir: Seq<char>,
        checked: Result<CommandOutput, DefaultError>,
    ) -> bool {
        exists|outcome: Result<CommandOutput, DefaultError>|
            #[trigger] self.executor.may_end(command, current_dir, outcome) && captured_check(
                command,
                outcome,
                checked,
            )
    }

    open spec fn may_execute_in_repo(
        &self,
        command: Seq<char>,
        checked: Result<CommandOutput, DefaultError>,
    ) -> bool {
        self.may_execute(command, self.config.storage_directory@, checked)
    }

    /// The interactive executor ran the command in the directory, and its
    /// outcome was judged as a command on the terminal is.
    open spec fn may_execute_interactive(
        &self,
        command: Seq<char>,
        current_dir: Seq<char>,
        checked: Result<CommandOutput, DefaultError>,
    ) -> bool {
        exists|outcome: Result<CommandOutput, DefaultError>|
            #[trigger] self.interactive_executor.may_end(command, current_dir, outcome)
                && interactive_check(command, outcome, checked)
    }

    open spec fn may_execute_interactive_in_repo(
        &self,
        command: Seq<char>,
        checked: Result<CommandOutput, DefaultError>,
    ) -> bool {
        self.may_execute_interactive(command, self.config.storage_directory@, checked)
    }

    fn execute(&self, command: &str, current_dir: &str) -> (checked: Result<
        CommandOutput,
        DefaultError,
    >) {
        check_captured(command, self.executor.run(command, current_dir))
    }

    fn execute_in_repo(&self, command: &str) -> (checked: Result<CommandOutput, DefaultError>) {
        self.execute(command, self.config.storage_directory.as_str())
    }

    fn execute_interactive(&self, command: &str, current_dir: &str) -> (checked: Result<
        CommandOutput,
        DefaultError,
    >) {
        check_interactive(command, self.interactive_executor.run(command, current_dir))
    }

    fn execute_interactive_in_repo(&self, command: &str) -> (checked: Result<
        CommandOutput,
        DefaultError,
    >) {
        self.execute_interactive(command, self.config.storage_directory.as_str())
    }
}

} // verus!
