//! The detector of Python projects.

use vstd::prelude::*;
use crate::detectors::{
    detect_marker, marker_matches, runners_view, DetectedRunner, Ecosystem, RunnerSpec,
};
use crate::project::{Directory, FileSpec};

verus! {

/// The priority of this detector.
pub const PRIORITY: u8 = 8;

/// What the detector finds among `entries`: `python`, where `pyproject.toml` is there.
pub open spec fn matches(entries: Seq<FileSpec>) -> Seq<RunnerSpec> {
    marker_matches(entries, "python"@, "pyproject.toml"@, Ecosystem::Python, PRIORITY)
}

/// Detects a Python project by its `pyproject.toml`.
pub fn detect(dir: &Directory) -> (runners: Vec<DetectedRunner>)
    ensures
        runners_view(runners@) == matches(dir@),
{
    detect_marker(dir, "python", "pyproject.toml", Ecosystem::Python, PRIORITY)
}

} // verus!
