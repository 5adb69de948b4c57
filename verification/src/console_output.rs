//! What a command hands back for the two output streams.

use crate::shell::CommandOutput;
use vstd::prelude::*;
use vstd::std_specs::convert::FromSpecImpl;
use vstd::string::*;

verus! {

/// The text for standard output and the text for standard error.
#[derive(Debug)]
pub struct ConsoleOutput {
    pub stdout: String,
    pub stderr: String,
}

impl ConsoleOutput {
    pub fn new(out: String, err: String) -> (output: Self)
        ensures
            output.stdout == out,
            output.stderr == err,
    {
        ConsoleOutput { stdout: out, stderr: err }
    }

    /// No text on either stream.
    pub fn empty() -> (output: Self)
        ensures
            output.stdout@ == Seq::<char>::empty(),
            output.stderr@ == Seq::<char>::empty(),
    {
        ConsoleOutput { stdout: String::new(), stderr: String::new() }
    }

    pub fn from_stdout(out: &str) -> (output: Self)
        ensures
            output.stdout@ == out@,
            output.stderr@ == Seq::<char>::empty(),
    {
        ConsoleOutput { stdout: out.to_string(), stderr: String::new() }
    }

    pub fn from_stderr(out: &str) -> (output: Self)
        ensures
            output.stdout@ == Seq::<char>::empty(),
            output.stderr@ == out@,
    {
        ConsoleOutput { stdout: String::new(), stderr: out.to_string() }
    }

    /// Appends both streams of `out` to the streams of `self`.
    pub fn append(&mut self, out: ConsoleOutput)
        ensures
            final(self).stdout@ == old(self).stdout@ + out.stdout@,
            final(self).stderr@ == old(self).stderr@ + out.stderr@,
    {
        self.append_stdout(out.stdout.as_str());
        self.append_stderr(out.stderr.as_str());
    }

    /// Appends both streams of a finished command to the streams of `self`.
    pub fn append_command_output(&mut self, out: CommandOutput)
        ensures
            final(self).stdout@ == old(self).stdout@ + out.stdout@,
            final(self).stderr@ == old(self).stderr@ + out.stderr@,
    {
        self.append_stdout(out.stdout.as_str());
        self.append_stderr(out.stderr.as_str());
    }

    pub fn append_stdout(&mut self, out: &str)
        ensures
            final(self).stdout@ == old(self).stdout@ + out@,
            final(self).stderr == old(self).stderr,
    {
        self.stdout.append(out);
    }

    pub fn append_stderr(&mut self, out: &str)
        ensures
            final(self).stdout == old(self).stdout,
            final(self).stderr@ == old(self).stderr@ + out@,
    {
        self.stderr.append(out);
    }
}

impl Default for ConsoleOutput {
    fn default() -> (output: Self)
        ensures
            output.stdout@ == Seq::<char>::empty(),
            output.stderr@ == Seq::<char>::empty(),
    {
        ConsoleOutput::empty()
    }
}

impl From<CommandOutput> for ConsoleOutput {
    fn from(o: CommandOutput) -> (output: Self) {
        ConsoleOutput { stderr: o.stderr, stdout: o.stdout }
    }
}

impl FromSpecImpl<CommandOutput> for ConsoleOutput {
    open spec fn obeys_from_spec() -> bool {
        true
    }

    open spec fn from_spec(o: CommandOutput) -> Self {
        ConsoleOutput { stderr: o.stderr, stdout: o.stdout }
    }
}

} // verus!
