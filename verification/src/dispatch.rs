//! Deciding what to run for a command, and what to make of how it ended.

use vstd::prelude::*;
use vstd::string::StringExecFns;
use crate::detectors::{DetectedRunner, Ecosystem, RunnerSpec};
use crate::error::{RunError, RunErrorSpec, GENERIC_ERROR};
use crate::fuzzy::{has_exact_match, is_exact_match, suggest_script, suggestion};
use crate::project::{Directory, FileSpec};
use crate::scripts::{get_scripts_for_runner, scripts_in, ScriptList, ScriptSpec};
use crate::text::names_view;

verus! {

/// What to do for a command.
#[derive(Debug)]
pub enum Dispatch {
    /// Nothing is to be run: this is the command that would be.
    Describe { command_line: String },
    /// Run `program` with `args`.
    Run { program: String, args: Vec<String> },
}

/// What a `Dispatch` stands for.
pub enum DispatchSpec {
    Describe { command_line: Seq<char> },
    Run { program: Seq<char>, args: Seq<Seq<char>> },
}

impl View for Dispatch {
    type V = DispatchSpec;

    open spec fn view(&self) -> DispatchSpec {
        match self {
            Dispatch::Describe { command_line } => DispatchSpec::Describe {
                command_line: command_line@,
            },
            Dispatch::Run { program, args } => DispatchSpec::Run {
                program: program@,
                args: names_view(args@),
            },
        }
    }
}

/// The program and its arguments on one line, with a space between two of them.
pub open spec fn command_line(program: Seq<char>, args: Seq<Seq<char>>) -> Seq<char>
    decreases args.len(),
{
    if args.len() == 0 {
        program
    } else {
        command_line(program, args.drop_last()) + " "@ + args.last()
    }
}

/// The arguments that the runner gets: the command, then the caller's own.
pub open spec fn invocation(command: Seq<char>, args: Seq<Seq<char>>) -> Seq<Seq<char>> {
    seq![command] + args
}

/// What is done for a command that was not rejected: on a dry run the command
/// is described, else the runner is run with it.
pub open spec fn planned(
    runner: RunnerSpec,
    command: Seq<char>,
    args: Seq<Seq<char>>,
    dry_run: bool,
) -> DispatchSpec {
    if dry_run {
        DispatchSpec::Describe {
            command_line: command_line(runner.name, invocation(command, args)),
        }
    } else {
        DispatchSpec::Run { program: runner.name, args: invocation(command, args) }
    }
}

/// Plans the run of `command` by `runner`.
pub fn plan(runner: &DetectedRunner, command: &str, args: &[String], dry_run: bool) -> (dispatch:
    Dispatch)
    ensures
        dispatch@ == planned(runner@, command@, names_view(args@), dry_run),
{
    let ghost wanted = invocation(command@, names_view(args@));
    let mut all: Vec<String> = Vec::new();
    all.push(String::from_str(command));
    let mut line = runner.name.clone();
    line.append(" ");
    line.append(command);
    let mut i: usize = 0;
    assert(wanted.take(1).drop_last() =~= wanted.take(0));
    assert(command_line(runner@.name, wanted.take(0)) == runner@.name);
    while i < args.len()
        invariant
            i <= args@.len(),
            wanted == invocation(command@, names_view(args@)),
            names_view(all@) == wanted.take(i + 1),
            line@ == command_line(runner@.name, wanted.take(i + 1)),
        decreases args@.len() - i,
    {
        all.push(args[i].clone());
        line.append(" ");
        line.append(args[i].as_str());
        assert(wanted.take(i + 2).drop_last() =~= wanted.take(i + 1));
        i += 1;
    }
    assert(wanted.take(args@.len() as int + 1) =~= wanted);
    if dry_run {
        Dispatch::Describe { command_line: line }
    } else {
        Dispatch::Run { program: runner.name.clone(), args: all }
    }
}

/// The names of `scripts`.
pub open spec fn script_names(scripts: Seq<ScriptSpec>) -> Seq<Seq<char>> {
    scripts.map_values(|script: ScriptSpec| script.name)
}

/// The names of the scripts of `list`.
pub fn names_of(list: &ScriptList) -> (names: Vec<String>)
    ensures
        names_view(names@) == script_names(list@.scripts),
{
    let mut names: Vec<String> = Vec::new();
    let mut i: usize = 0;
    while i < list.scripts.len()
        invariant
            i <= list.scripts@.len(),
            names@.len() == i,
            forall|k: int| 0 <= k < i ==> names@[k]@ == list.scripts@[k]@.name,
        decreases list.scripts@.len() - i,
    {
        names.push(list.scripts[i].name.clone());
        i += 1;
    }
    names
}

/// The error for a command that is none of the scripts `names`, whatever the
/// case of their letters: it carries the names, and the script that the
/// command most likely stands for. There is none where the command is one of them.
pub open spec fn missing_script(command: Seq<char>, names: Seq<Seq<char>>) -> Option<RunErrorSpec> {
    if has_exact_match(command, names) {
        None
    } else {
        Some(
            RunErrorSpec::ScriptNotFound {
                command,
                available: names,
                suggestion: suggestion(command, names),
            },
        )
    }
}

/// Checks that `command` is one of the scripts `names`.
pub fn check_script(command: &str, names: Vec<String>) -> (checked: Result<(), RunError>)
    ensures
        match checked {
            Ok(_) => missing_script(command@, names_view(names@)) is None,
            Err(error) => missing_script(command@, names_view(names@)) == Some(error@),
        },
{
    if is_exact_match(command, names.as_slice()) {
        Ok(())
    } else {
        let suggestion = suggest_script(command, names.as_slice());
        Err(
            RunError::ScriptNotFound {
                command: String::from_str(command),
                available: names,
                suggestion,
            },
        )
    }
}

/// The error for a command that the project's scripts rule out. Only the
/// scripts of a Node.js project do so, and only where they could be read: a
/// runner of another ecosystem gets whatever command it is given.
pub open spec fn rejection(
    ecosystem: Ecosystem,
    command: Seq<char>,
    entries: Seq<FileSpec>,
) -> Option<RunErrorSpec> {
    if ecosystem == Ecosystem::NodeJs {
        match scripts_in(ecosystem, entries) {
            Some(list) => missing_script(command, script_names(list.scripts)),
            None => None,
        }
    } else {
        None
    }
}

/// Decides what to do for `command` with the runner `runner` in `dir`: the
/// error where the project's scripts rule the command out, else the plan.
pub fn dispatch(
    runner: &DetectedRunner,
    command: &str,
    args: &[String],
    dir: &Directory,
    dry_run: bool,
) -> (decided: Result<Dispatch, RunError>)
    ensures
        match decided {
            Ok(dispatch) => rejection(runner@.ecosystem, command@, dir@) is None && dispatch@
                == planned(runner@, command@, names_view(args@), dry_run),
            Err(error) => rejection(runner@.ecosystem, command@, dir@) == Some(error@),
        },
{
    if runner.ecosystem == Ecosystem::NodeJs {
        if let Some(list) = get_scripts_for_runner(runner, dir) {
            match check_script(command, names_of(&list)) {
                Ok(_) => {},
                Err(error) => {
                    return Err(error);
                },
            }
        }
    }
    Ok(plan(runner, command, args, dry_run))
}

/// How the run of a program ended.
#[derive(Debug)]
pub enum Outcome {
    /// The program ran and ended, with an exit code unless a signal ended it.
    Exited { code: Option<i32> },
    /// The program could not be started.
    NotStarted { reason: String },
}

/// Turns the outcome of running `program` into the exit code to hand on: the
/// program's own, unchanged, whatever it is. A program that could not be
/// started is an error, not an exit code.
pub fn conclude(program: &str, outcome: Outcome) -> (concluded: Result<i32, RunError>)
    ensures
        match outcome {
            Outcome::Exited { code: Some(code) } => concluded == Ok::<i32, RunError>(code),
            Outcome::Exited { code: None } => concluded == Ok::<i32, RunError>(GENERIC_ERROR),
            Outcome::NotStarted { reason } => concluded matches Err(error) && error@
                == (RunErrorSpec::SpawnFailure { program: program@, reason: reason@ }),
        },
{
    match outcome {
        Outcome::Exited { code: Some(code) } => Ok(code),
        Outcome::Exited { code: None } => Ok(GENERIC_ERROR),
        Outcome::NotStarted { reason } => Err(
            RunError::SpawnFailure { program: String::from_str(program), reason },
        ),
    }
}

} // verus!
