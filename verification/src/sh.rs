//! Shell-command options and the choice of how to run a script.

use vstd::prelude::*;

use crate::text::{has_prefix, starts_with, trim_start, trimmed_start};

verus! {

/// What to do with a child process's output stream.
#[derive(Clone, Copy, Debug, PartialEq, Eq, Structural)]
pub enum StreamMode {
    Inherit,
    Pipe,
    Null,
}

impl Default for StreamMode {
    fn default() -> (r: Self)
        ensures
            r == StreamMode::Inherit,
    {
        StreamMode::Inherit
    }
}

/// How to run a shell command.
#[derive(Clone, Debug)]
pub struct ShOptions {
    pub stdout: StreamMode,
    pub stderr: StreamMode,
    /// Working directory (the current one when absent).
    pub cwd: Option<String>,
    /// Do not log the command.
    pub quiet: bool,
}

impl Default for ShOptions {
    fn default() -> (r: Self)
        ensures
            r.stdout == StreamMode::Inherit,
            r.stderr == StreamMode::Inherit,
            r.cwd is None,
            !r.quiet,
    {
        ShOptions {
            stdout: StreamMode::Inherit,
            stderr: StreamMode::Inherit,
            cwd: None,
            quiet: false,
        }
    }
}

/// How a script is run, and how it is described in messages.
pub struct ScriptPlan {
    /// The script starts with `#!`: it is written to a file that is run.
    /// Otherwise it is handed, untrimmed, to `sh -c`.
    pub as_file: bool,
    /// The script without its leading white space: what is written to the
    /// file, and what messages show.
    pub text: String,
}

/// How to run the script `cmd`.
pub fn plan_script(cmd: &str) -> (r: ScriptPlan)
    ensures
        r.text@ == trimmed_start(cmd@),
        r.as_file == has_prefix(trimmed_start(cmd@), "#!"@),
{
    let text = trim_start(cmd);
    let as_file = starts_with(text.as_str(), "#!");
    ScriptPlan { as_file, text }
}

} // verus!
