//! Version control of the notes, through the shell.

use crate::console_output::ConsoleOutput;
use crate::default_error::DefaultError;
use crate::note::Note;
use crate::shell::CommandOutput;
use crate::shell::Shell;
use vstd::prelude::*;
use vstd::string::*;

verus! {

/// What the repository needs from version control.
///
/// For each method the trait names which results a call may have; version
/// control that says nothing of its results leaves that open.
pub trait Git {
    open spec fn may_init(&self, report: Result<ConsoleOutput, DefaultError>) -> bool {
        true
    }

    open spec fn may_commit(
        &self,
        note: Note,
        message: Seq<char>,
        report: Result<ConsoleOutput, DefaultError>,
    ) -> bool {
        true
    }

    open spec fn may_have_changed(&self, note: Note, changed: bool) -> bool {
        true
    }

    open spec fn may_push(&self, report: Result<ConsoleOutput, DefaultError>) -> bool {
        true
    }

    open spec fn may_pull(&self, report: Result<ConsoleOutput, DefaultError>) -> bool {
        true
    }

    fn init(&self) -> (report: Result<ConsoleOutput, DefaultError>)
        ensures
            self.may_init(report),
    ;

    /// Stages the note's file alone, then commits it.
    fn commit(&self, note: &Note, message: &str) -> (report: Result<ConsoleOutput, DefaultError>)
        ensures
            self.may_commit(*note, message@, report),
    ;

    /// Whether the note's file differs from what was last committed.
    fn has_changed(&self, note: &Note) -> (changed: bool)
        ensures
            self.may_have_changed(*note, changed),
    ;

    fn push(&self) -> (report: Result<ConsoleOutput, DefaultError>)
        ensures
            self.may_push(report),
    ;

    fn pull(&self) -> (report: Result<ConsoleOutput, DefaultError>)
        ensures
            self.may_pull(report),
    ;
}

/// Whether `report` is what a finished command with the given outcome
/// reports to the console.
pub open spec fn reported_as(
    outcome: Result<CommandOutput, DefaultError>,
    report: Result<ConsoleOutput, DefaultError>,
) -> bool {
    match outcome {
        Ok(output) => report is Ok && report->Ok_0.stdout == output.stdout && report->Ok_0.stderr
            == output.stderr,
        Err(error) => report == Err::<ConsoleOutput, DefaultError>(error),
    }
}

/// Whether `report` is what staging and committing report together: the
/// failure of the commit, or what both commands wrote, one after the other.
pub open spec fn commit_reported_as(
    staged: CommandOutput,
    committed: Result<CommandOutput, DefaultError>,
    report: Result<ConsoleOutput, DefaultError>,
) -> bool {
    match committed {
        Ok(output) => report is Ok && report->Ok_0.stdout@ == staged.stdout@ + output.stdout@
            && report->Ok_0.stderr@ == staged.stderr@ + output.stderr@,
        Err(error) => report == Err::<ConsoleOutput, DefaultError>(error),
    }
}

/// The command that stages a file.
pub open spec fn add_command_text(path: Seq<char>) -> Seq<char> {
    "git add '"@ + path + "'"@
}

/// The command that commits a file.
pub open spec fn commit_command_text(message: Seq<char>, path: Seq<char>) -> Seq<char> {
    "git commit -m '"@ + message + "' '"@ + path + "'"@
}

/// The command that fails exactly where a file differs from the last commit.
pub open spec fn diff_command_text(path: Seq<char>) -> Seq<char> {
    "git add '"@ + path + "' && git diff --exit-code HEAD '"@ + path + "' > /dev/null"@
}

/// The command that stages a file.
pub fn add_command(path: &str) -> (command: String)
    ensures
        command@ == add_command_text(path@),
{
    let mut command = "git add '".to_string();
    command.append(path);
    command.append("'");
    command
}

/// The command that commits a file.
pub fn commit_command(message: &str, path: &str) -> (command: String)
    ensures
        command@ == commit_command_text(message@, path@),
{
    let mut command = "git commit -m '".to_string();
    command.append(message);
    command.append("' '");
    command.append(path);
    command.append("'");
    command
}

/// The command that fails exactly where a file differs from the last commit.
pub fn diff_command(path: &str) -> (command: String)
    ensures
        command@ == diff_command_text(path@),
{
    let mut command = "git add '".to_string();
    command.append(path);
    command.append("' && git diff --exit-code HEAD '");
    command.append(path);
    command.append("' > /dev/null");
    command
}

/// What a finished command reports to the console.
pub fn reported(outcome: Result<CommandOutput, DefaultError>) -> (report: Result<
    ConsoleOutput,
    DefaultError,
>)
    ensures
        reported_as(outcome, report),
{
    match outcome {
        Ok(output) => Ok(ConsoleOutput::new(output.stdout, output.stderr)),
        Err(error) => Err(error),
    }
}

/// What staging and committing report together: the first failure, or
/// what both commands wrote, one after the other.
pub fn commit_report(
    staged: CommandOutput,
    committed: Result<CommandOutput, DefaultError>,
) -> (report: Result<ConsoleOutput, DefaultError>)
    ensures
        commit_reported_as(staged, committed, report),
{
    match committed {
        Ok(output) => {
            let mut out = ConsoleOutput::empty();
            out.append_command_output(staged);
            out.append_command_output(output);
            proof {
                assert(out.stdout@ =~= staged.stdout@ + output.stdout@);
                assert(out.stderr@ =~= staged.stderr@ + output.stderr@);
            }
            Ok(out)
        },
        Err(error) => Err(error),
    }
}

/// Version control by `git`, run through a shell in the storage directory.
pub struct GitImpl<'a, S: Shell> {
    shell: &'a S,
}

impl<'a, S: Shell> GitImpl<'a, S> {
    /// The shell that the commands are run through.
    pub closed spec fn shell(&self) -> &S {
        self.shell
    }

    pub fn new(shell: &'a S) -> (git: Self)
        ensures
            git.shell() == shell,
    {
        GitImpl { shell }
    }

    /// Whether `report` may be what committing reports once the note's file
    /// is staged: the shell ran the commit in the storage directory.
    pub open spec fn may_commit_staged(
        &self,
        staged: CommandOutput,
        note: Note,
        message: Seq<char>,
        report: Result<ConsoleOutput, DefaultError>,
    ) -> bool {
        exists|committed: Result<CommandOutput, DefaultError>|
            #[trigger] self.shell().may_execute_in_repo(
                commit_command_text(message, note@.path),
                committed,
            ) && commit_reported_as(staged, committed, report)
    }
}

impl<'a, S: Shell> Git for GitImpl<'a, S> {
    /// The shell ran `git init` in the storage directory.
    open spec fn may_init(&self, report: Result<ConsoleOutput, DefaultError>) -> bool {
        exists|outcome: Result<CommandOutput, DefaultError>|
            #[trigger] self.shell().may_execute_in_repo("git init"@, outcome) && reported_as(
                outcome,
                report,
            )
    }

    /// The shell staged the note's file and, where that went well, committed it.
    open spec fn may_commit(
        &self,
        note: Note,
        message: Seq<char>,
        report: Result<ConsoleOutput, DefaultError>,
    ) -> bool {
        exists|staged: Result<CommandOutput, DefaultError>|
            #[trigger] self.shell().may_execute_in_repo(add_command_text(note@.path), staged)
                && match staged {
                Ok(output) => self.may_commit_staged(output, note, message, report),
                Err(error) => report == Err::<ConsoleOutput, DefaultError>(error),
            }
    }

    /// The shell compared the note's file with the last commit; the file
    /// has changed exactly where that command failed.
    open spec fn may_have_changed(&self, note: Note, changed: bool) -> bool {
        exists|outcome: Result<CommandOutput, DefaultError>|
            #[trigger] self.shell().may_execute_in_repo(diff_command_text(note@.path), outcome)
                && changed == outcome is Err
    }

    /// The shell ran `git push` on the terminal.
    open spec fn may_push(&self, report: Result<ConsoleOutput, DefaultError>) -> bool {
        exists|outcome: Result<CommandOutput, DefaultError>|
            #[trigger] self.shell().may_execute_interactive_in_repo("git push"@, outcome)
                && reported_as(outcome, report)
    }

    /// The shell ran `git pull` on the terminal.
    open spec fn may_pull(&self, report: Result<ConsoleOutput, DefaultError>) -> bool {
        exists|outcome: Result<CommandOutput, DefaultError>|
            #[trigger] self.shell().may_execute_interactive_in_repo("git pull"@, outcome)
                && reported_as(outcome, report)
    }

    fn init(&self) -> (report: Result<ConsoleOutput, DefaultError>) {
        let outcome = self.shell.execute_in_repo("git init");
        proof {
            assert(self.shell().may_execute_in_repo("git init"@, outcome));
        }
        reported(outcome)
    }

    fn commit(&self, note: &Note, message: &str) -> (report: Result<ConsoleOutput, DefaultError>) {
        let path = note.path();
        let staged = self.shell.execute_in_repo(add_command(path.as_str()).as_str());
        proof {
            assert(self.shell().may_execute_in_repo(add_command_text(note@.path), staged));
        }
        match staged {
            Ok(output) => {
                let committed = self.shell.execute_in_repo(
                    commit_command(message, path.as_str()).as_str(),
                );
                proof {
                    assert(self.shell().may_execute_in_repo(
                        commit_command_text(message@, note@.path),
                        committed,
                    ));
                }
                let report = commit_report(output, committed);
                proof {
                    assert(self.may_commit_staged(output, *note, message@, report));
                }
                report
            },
            Err(error) => Err(error),
        }
    }

    fn has_changed(&self, note: &Note) -> (changed: bool) {
        let outcome = self.shell.execute_in_repo(diff_command(note.path().as_str()).as_str());
        proof {
            assert(self.shell().may_execute_in_repo(diff_command_text(note@.path), outcome));
        }
        outcome.is_err()
    }

    fn push(&self) -> (report: Result<ConsoleOutput, DefaultError>) {
        let outcome = self.shell.execute_interactive_in_repo("git push");
        proof {
            assert(self.shell().may_execute_interactive_in_repo("git push"@, outcome));
        }
        reported(outcome)
    }

    fn pull(&self) -> (report: Result<ConsoleOutput, DefaultError>) {
        let outcome = self.shell.execute_interactive_in_repo("git pull");
        proof {
            assert(self.shell().may_execute_interactive_in_repo("git pull"@, outcome));
        }
        reported(outcome)
    }
}

} // verus!
