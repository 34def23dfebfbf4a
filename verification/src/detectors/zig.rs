//! The detector of Zig Build projects.

use vstd::prelude::*;
use crate::detectors::{
    detect_marker, marker_matches, runners_view, DetectedRunner, Ecosystem, RunnerSpec,
};
use crate::project::{Directory, FileSpec};

verus! {

/// The priority of this detector.
pub const PRIORITY: u8 = 20;

/// What the detector finds among `entries`: `zig`, where `build.zig` is there.
pub open spec fn matches(entries: Seq<FileSpec>) -> Seq<RunnerSpec> {
    marker_matches(entries, "zig"@, "build.zig"@, Ecosystem::Zig, PRIORITY)
}

/// Detects a Zig Build project by its `build.zig`.
pub fn detect(dir: &Directory) -> (runners: Vec<DetectedRunner>)
    ensures
        runners_view(runners@) == matches(dir@),
{
    detect_marker(dir, "zig", "build.zig", Ecosystem::Zig, PRIORITY)
}

} // verus!
