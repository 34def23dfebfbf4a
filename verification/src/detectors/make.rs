//! The detector of Makefile projects: the last resort, behind every tool that
//! is more specific.

use vstd::prelude::*;
use vstd::string::StringExecFns;
use crate::detectors::{runners_view, DetectedRunner, Ecosystem, RunnerSpec};
use crate::project::{same_names, Directory, FileSpec};

verus! {

/// The priority of this detector.
pub const PRIORITY: u8 = 21;

/// Whether `name` is the name of a Makefile, in one of its two spellings.
pub open spec fn is_makefile_name(name: Seq<char>) -> bool {
    name == "Makefile"@ || name == "makefile"@
}

/// The index of the first of `entries` that is a Makefile, or their number
/// where none is.
pub open spec fn makefile_index(entries: Seq<FileSpec>) -> int
    decreases entries.len(),
{
    if entries.len() == 0 || is_makefile_name(entries.first().name) {
        0
    } else {
        1 + makefile_index(entries.drop_first())
    }
}

/// What the detector finds among `entries`: `make`, for the first Makefile
/// listed. It names no second one, so that a directory which lists the file
/// under both spellings counts once.
pub open spec fn matches(entries: Seq<FileSpec>) -> Seq<RunnerSpec> {
    let index = makefile_index(entries);
    if index < entries.len() {
        seq![
            RunnerSpec {
                name: "make"@,
                detected_file: entries[index].name,
                ecosystem: Ecosystem::Generic,
                priority: PRIORITY,
            },
        ]
    } else {
        seq![]
    }
}

/// Detects a Makefile project by its `Makefile` or `makefile`.
pub fn detect(dir: &Directory) -> (runners: Vec<DetectedRunner>)
    ensures
        runners_view(runners@) == matches(dir@),
{
    let mut runners: Vec<DetectedRunner> = Vec::new();
    let upper = String::from_str("Makefile");
    let lower = String::from_str("makefile");
    let mut i: usize = 0;
    assert(dir@.skip(0) =~= dir@);
    while i < dir.entries.len()
        invariant
            i <= dir.entries@.len(),
            upper@ == "Makefile"@,
            lower@ == "makefile"@,
            runners@.len() == 0,
            makefile_index(dir@) == i + makefile_index(dir@.skip(i as int)),
        decreases dir.entries@.len() - i,
    {
        if dir.entries[i].name == upper || dir.entries[i].name == lower {
            runners.push(
                DetectedRunner::new(
                    "make",
                    dir.entries[i].name.as_str(),
                    Ecosystem::Generic,
                    PRIORITY,
                ),
            );
            return runners;
        }
        assert(dir@.skip(i as int).drop_first() =~= dir@.skip(i + 1));
        i += 1;
    }
    runners
}

/// Listings that name the same entries have their first Makefile at the same place.
pub proof fn lemma_same_makefile(a: Seq<FileSpec>, b: Seq<FileSpec>)
    requires
        same_names(a, b),
    ensures
        makefile_index(a) == makefile_index(b),
        matches(a) == matches(b),
    decreases a.len(),
{
    if a.len() > 0 {
        if !is_makefile_name(a.first().name) {
            lemma_same_makefile(a.drop_first(), b.drop_first());
        }
    }
    lemma_makefile_index(a);
}

/// The index of the first Makefile lies within the entries or just behind them.
pub proof fn lemma_makefile_index(entries: Seq<FileSpec>)
    ensures
        0 <= makefile_index(entries) <= entries.len(),
    decreases entries.len(),
{
    if entries.len() > 0 && !is_makefile_name(entries.first().name) {
        lemma_makefile_index(entries.drop_first());
    }
}

} // verus!
