//! The detectors: each looks for the marker files of one tool among the
//! entries of a directory. Each has a priority of its own, fixed in its
//! module, and the registry runs them in the order of their priorities, from
//! the most specific tool to the most generic. The priorities leave gaps, so
//! that a detector for a more specific tool can be put between two others.

use vstd::prelude::*;
use vstd::string::StringExecFns;
use crate::project::{has_file, lemma_same_index, same_names, Directory, FileSpec};
use crate::text::{ascii_case_equal, eq_ignore_ascii_case, names_view};

pub mod cargo;
pub mod make;
pub mod node;
pub mod python;
pub mod swift;
pub mod zig;

verus! {

/// The family of tools that a runner belongs to.
#[derive(Clone, Copy, Debug, PartialEq, Eq, Structural)]
pub enum Ecosystem {
    NodeJs,
    Python,
    Rust,
    Swift,
    Zig,
    Generic,
}

impl Ecosystem {
    /// The ecosystem's name.
    pub open spec fn name(self) -> Seq<char> {
        match self {
            Ecosystem::NodeJs => "nodejs"@,
            Ecosystem::Python => "python"@,
            Ecosystem::Rust => "rust"@,
            Ecosystem::Swift => "swift"@,
            Ecosystem::Zig => "zig"@,
            Ecosystem::Generic => "generic"@,
        }
    }

    /// The ecosystem's name.
    pub fn as_str(&self) -> (name: &'static str)
        ensures
            name@ == self.name(),
    {
        match self {
            Ecosystem::NodeJs => "nodejs",
            Ecosystem::Python => "python",
            Ecosystem::Rust => "rust",
            Ecosystem::Swift => "swift",
            Ecosystem::Zig => "zig",
            Ecosystem::Generic => "generic",
        }
    }
}

/// A tool that a marker file in a directory speaks for.
#[derive(Debug)]
pub struct DetectedRunner {
    /// The tool's name, which is also the program to run.
    pub name: String,
    /// The marker file that was found.
    pub detected_file: String,
    pub ecosystem: Ecosystem,
    /// The detector's priority: the lower number is preferred.
    pub priority: u8,
}

/// What a `DetectedRunner` stands for.
pub struct RunnerSpec {
    pub name: Seq<char>,
    pub detected_file: Seq<char>,
    pub ecosystem: Ecosystem,
    pub priority: u8,
}

impl View for DetectedRunner {
    type V = RunnerSpec;

    open spec fn view(&self) -> RunnerSpec {
        RunnerSpec {
            name: self.name@,
            detected_file: self.detected_file@,
            ecosystem: self.ecosystem,
            priority: self.priority,
        }
    }
}

/// The runners that `runners` stand for.
pub open spec fn runners_view(runners: Seq<DetectedRunner>) -> Seq<RunnerSpec> {
    runners.map_values(|runner: DetectedRunner| runner@)
}

impl DetectedRunner {
    /// The runner `name`, detected by the file `detected_file`.
    pub fn new(name: &str, detected_file: &str, ecosystem: Ecosystem, priority: u8) -> (runner:
        DetectedRunner)
        ensures
            runner@ == (RunnerSpec {
                name: name@,
                detected_file: detected_file@,
                ecosystem,
                priority,
            }),
    {
        DetectedRunner {
            name: String::from_str(name),
            detected_file: String::from_str(detected_file),
            ecosystem,
            priority,
        }
    }
}

impl Clone for DetectedRunner {
    /// A copy that stands for the same runner.
    fn clone(&self) -> (copy: DetectedRunner)
        ensures
            copy@ == self@,
    {
        DetectedRunner {
            name: self.name.clone(),
            detected_file: self.detected_file.clone(),
            ecosystem: self.ecosystem,
            priority: self.priority,
        }
    }
}

/// What a detector with one marker file finds among `entries`.
pub open spec fn marker_matches(
    entries: Seq<FileSpec>,
    name: Seq<char>,
    marker: Seq<char>,
    ecosystem: Ecosystem,
    priority: u8,
) -> Seq<RunnerSpec> {
    if has_file(entries, marker) {
        seq![RunnerSpec { name, detected_file: marker, ecosystem, priority }]
    } else {
        seq![]
    }
}

/// Runs a detector with one marker file.
pub fn detect_marker(
    dir: &Directory,
    name: &str,
    marker: &str,
    ecosystem: Ecosystem,
    priority: u8,
) -> (runners: Vec<DetectedRunner>)
    ensures
        runners_view(runners@) == marker_matches(dir@, name@, marker@, ecosystem, priority),
{
    let mut runners: Vec<DetectedRunner> = Vec::new();
    if dir.contains(marker) {
        runners.push(DetectedRunner::new(name, marker, ecosystem, priority));
    }
    runners
}

/// What all the detectors find among `entries`, in the order of their priorities.
pub open spec fn all_matches(entries: Seq<FileSpec>) -> Seq<RunnerSpec> {
    node::matches(entries) + python::matches(entries) + cargo::matches(entries) + swift::matches(
        entries,
    ) + zig::matches(entries) + make::matches(entries)
}

/// Whether `name` is on the ignore list, whatever the case of its letters.
pub open spec fn is_ignored(name: Seq<char>, ignore: Seq<Seq<char>>) -> bool {
    exists|i: int| 0 <= i < ignore.len() && ascii_case_equal(#[trigger] ignore[i], name)
}

/// `runners` without those whose names are on the ignore list.
pub open spec fn without_ignored(runners: Seq<RunnerSpec>, ignore: Seq<Seq<char>>) -> Seq<
    RunnerSpec,
>
    decreases runners.len(),
{
    if runners.len() == 0 {
        seq![]
    } else if is_ignored(runners.last().name, ignore) {
        without_ignored(runners.drop_last(), ignore)
    } else {
        without_ignored(runners.drop_last(), ignore).push(runners.last())
    }
}

/// What the detectors find among `entries` that is not ignored.
pub open spec fn detected(entries: Seq<FileSpec>, ignore: Seq<Seq<char>>) -> Seq<RunnerSpec> {
    without_ignored(all_matches(entries), ignore)
}

/// No two detectors share a priority, and the registry runs them in the order
/// of their priorities: what it finds in a directory has ascending priorities.
pub proof fn lemma_priorities_ascend(entries: Seq<FileSpec>)
    ensures
        forall|i: int, j: int|
            0 <= i < j < all_matches(entries).len() ==> all_matches(entries)[i].priority
                < all_matches(entries)[j].priority,
{
}

/// What is kept of `runners` is among them, in their order.
pub proof fn lemma_without_ignored(runners: Seq<RunnerSpec>, ignore: Seq<Seq<char>>)
    ensures
        without_ignored(runners, ignore).len() <= runners.len(),
        forall|k: int|
            0 <= k < without_ignored(runners, ignore).len() ==> !is_ignored(
                (#[trigger] without_ignored(runners, ignore)[k]).name,
                ignore,
            ) && runners.contains(without_ignored(runners, ignore)[k]),
        forall|k: int|
            0 <= k < runners.len() && !is_ignored(runners[k].name, ignore) ==> without_ignored(
                runners,
                ignore,
            ).contains(#[trigger] runners[k]),
    decreases runners.len(),
{
    if runners.len() > 0 {
        let front = runners.drop_last();
        let kept = without_ignored(runners, ignore);
        lemma_without_ignored(front, ignore);
        assert forall|k: int|
            0 <= k < runners.len() && !is_ignored(runners[k].name, ignore) implies kept.contains(
            #[trigger] runners[k],
        ) by {
            if k < front.len() {
                let at = choose|at: int|
                    0 <= at < without_ignored(front, ignore).len() && without_ignored(
                        front,
                        ignore,
                    )[at] == front[k];
                assert(kept[at] == runners[k]);
            } else {
                assert(kept[kept.len() - 1] == runners[k]);
            }
        }
    }
}

/// Whether `name` is on the ignore list, whatever the case of its letters.
pub fn is_ignored_name(name: &str, ignore_list: &[String]) -> (ignored: bool)
    ensures
        ignored == is_ignored(name@, names_view(ignore_list@)),
{
    let mut i: usize = 0;
    while i < ignore_list.len()
        invariant
            i <= ignore_list@.len(),
            forall|k: int| 0 <= k < i ==> !ascii_case_equal(names_view(ignore_list@)[k], name@),
        decreases ignore_list@.len() - i,
    {
        if eq_ignore_ascii_case(ignore_list[i].as_str(), name) {
            assert(ascii_case_equal(names_view(ignore_list@)[i as int], name@));
            return true;
        }
        i += 1;
    }
    false
}

/// Those of `runners` whose names are not on the ignore list.
pub fn filter_ignored(runners: &Vec<DetectedRunner>, ignore_list: &[String]) -> (kept: Vec<
    DetectedRunner,
>)
    ensures
        runners_view(kept@) == without_ignored(runners_view(runners@), names_view(ignore_list@)),
{
    let mut kept: Vec<DetectedRunner> = Vec::new();
    let ghost all = runners_view(runners@);
    let ghost ignore = names_view(ignore_list@);
    let mut i: usize = 0;
    while i < runners.len()
        invariant
            i <= runners@.len(),
            all == runners_view(runners@),
            ignore == names_view(ignore_list@),
            runners_view(kept@) == without_ignored(all.take(i as int), ignore),
        decreases runners@.len() - i,
    {
        assert(all.take(i + 1).drop_last() =~= all.take(i as int));
        if !is_ignored_name(runners[i].name.as_str(), ignore_list) {
            kept.push(runners[i].clone());
        }
        i += 1;
    }
    assert(all.take(runners@.len() as int) =~= all);
    kept
}

/// Runs every detector on `dir`, in the order of their priorities, and leaves
/// out the runners whose names are on the ignore list.
pub fn detect_all(dir: &Directory, ignore_list: &[String]) -> (runners: Vec<DetectedRunner>)
    ensures
        runners_view(runners@) == detected(dir@, names_view(ignore_list@)),
{
    let mut found = node::detect(dir);
    let mut python_found = python::detect(dir);
    let mut cargo_found = cargo::detect(dir);
    let mut swift_found = swift::detect(dir);
    let mut zig_found = zig::detect(dir);
    let mut make_found = make::detect(dir);
    let ghost parts = (
        found@,
        python_found@,
        cargo_found@,
        swift_found@,
        zig_found@,
        make_found@,
    );
    found.append(&mut python_found);
    found.append(&mut cargo_found);
    found.append(&mut swift_found);
    found.append(&mut zig_found);
    found.append(&mut make_found);
    assert(runners_view(found@) =~= runners_view(parts.0) + runners_view(parts.1) + runners_view(
        parts.2,
    ) + runners_view(parts.3) + runners_view(parts.4) + runners_view(parts.5));
    filter_ignored(&found, ignore_list)
}

/// The detectors read no file: listings that name the same entries give the
/// same runners, whatever the files hold.
pub proof fn lemma_detection_reads_names_only(
    a: Seq<FileSpec>,
    b: Seq<FileSpec>,
    ignore: Seq<Seq<char>>,
)
    requires
        same_names(a, b),
    ensures
        all_matches(a) == all_matches(b),
        detected(a, ignore) == detected(b, ignore),
{
    lemma_same_index(a, b, "package.json"@);
    lemma_same_index(a, b, "pyproject.toml"@);
    lemma_same_index(a, b, "Cargo.toml"@);
    lemma_same_index(a, b, "Package.swift"@);
    lemma_same_index(a, b, "build.zig"@);
    make::lemma_same_makefile(a, b);
}

} // verus!
