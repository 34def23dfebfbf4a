//! The errors that end a run, and the exit codes that go with them.

use vstd::prelude::*;
use vstd::string::StringExecFns;
use crate::text::names_view;

verus! {

/// The exit code of a run that went well.
pub const SUCCESS: i32 = 0;

/// The exit code of a run that failed for another reason than a missing runner.
pub const GENERIC_ERROR: i32 = 1;

/// The exit code of a run that found no runner.
pub const RUNNER_NOT_FOUND: i32 = 2;

/// Why a run ended before a command was started.
#[derive(Debug)]
pub enum RunError {
    /// No directory within the search depth has a marker file that is not ignored.
    RunnerNotFound,
    /// There is no runner to choose from.
    NoRunnerAvailable,
    /// The project has no script of this name.
    ScriptNotFound { command: String, available: Vec<String>, suggestion: Option<String> },
    /// The runner's program could not be started.
    SpawnFailure { program: String, reason: String },
}

/// What a `RunError` stands for.
pub enum RunErrorSpec {
    RunnerNotFound,
    NoRunnerAvailable,
    ScriptNotFound { command: Seq<char>, available: Seq<Seq<char>>, suggestion: Option<Seq<char>> },
    SpawnFailure { program: Seq<char>, reason: Seq<char> },
}

impl View for RunError {
    type V = RunErrorSpec;

    open spec fn view(&self) -> RunErrorSpec {
        match self {
            RunError::RunnerNotFound => RunErrorSpec::RunnerNotFound,
            RunError::NoRunnerAvailable => RunErrorSpec::NoRunnerAvailable,
            RunError::ScriptNotFound { command, available, suggestion } => {
                RunErrorSpec::ScriptNotFound {
                    command: command@,
                    available: names_view(available@),
                    suggestion: match suggestion {
                        Some(name) => Some(name@),
                        None => None,
                    },
                }
            },
            RunError::SpawnFailure { program, reason } => RunErrorSpec::SpawnFailure {
                program: program@,
                reason: reason@,
            },
        }
    }
}

/// The exit code that goes with an error: one for a missing runner, another
/// for every other failure, and none of them that of a success.
pub open spec fn exit_code_of(error: RunErrorSpec) -> i32 {
    match error {
        RunErrorSpec::RunnerNotFound => RUNNER_NOT_FOUND,
        RunErrorSpec::NoRunnerAvailable => RUNNER_NOT_FOUND,
        RunErrorSpec::ScriptNotFound { .. } => GENERIC_ERROR,
        RunErrorSpec::SpawnFailure { .. } => GENERIC_ERROR,
    }
}

/// What an error says to the user.
pub open spec fn message_of(error: RunErrorSpec) -> Seq<char> {
    match error {
        RunErrorSpec::RunnerNotFound => "No runner found within the search depth"@,
        RunErrorSpec::NoRunnerAvailable => "No runner available"@,
        RunErrorSpec::ScriptNotFound { command, .. } => "Script \""@ + command + "\" not found"@,
        RunErrorSpec::SpawnFailure { program, reason } => "Failed to start "@ + program + ": "@
            + reason,
    }
}

impl RunError {
    /// The exit code of the process for this error.
    pub fn exit_code(&self) -> (code: i32)
        ensures
            code == exit_code_of(self@),
            code != SUCCESS,
    {
        match self {
            RunError::RunnerNotFound => RUNNER_NOT_FOUND,
            RunError::NoRunnerAvailable => RUNNER_NOT_FOUND,
            RunError::ScriptNotFound { .. } => GENERIC_ERROR,
            RunError::SpawnFailure { .. } => GENERIC_ERROR,
        }
    }

    /// The message for the user.
    pub fn message(&self) -> (text: String)
        ensures
            text@ == message_of(self@),
    {
        match self {
            RunError::RunnerNotFound => String::from_str("No runner found within the search depth"),
            RunError::NoRunnerAvailable => String::from_str("No runner available"),
            RunError::ScriptNotFound { command, .. } => {
                let mut text = String::from_str("Script \"");
                text.append(command.as_str());
                text.append("\" not found");
                text
            },
            RunError::SpawnFailure { program, reason } => {
                let mut text = String::from_str("Failed to start ");
                text.append(program.as_str());
                text.append(": ");
                text.append(reason.as_str());
                text
            },
        }
    }
}

} // verus!
