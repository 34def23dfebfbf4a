//! The detector of Swift Package Manager projects.

use vstd::prelude::*;
use crate::detectors::{
    detect_marker, marker_matches, runners_view, DetectedRunner, Ecosystem, RunnerSpec,
};
use crate::project::{Directory, FileSpec};

verus! {

/// The priority of this detector.
pub const PRIORITY: u8 = 19;

/// What the detector finds among `entries`: `swift`, where `Package.swift` is there.
pub open spec fn matches(entries: Seq<FileSpec>) -> Seq<RunnerSpec> {
    marker_matches(entries, "swift"@, "Package.swift"@, Ecosystem::Swift, PRIORITY)
}

/// Detects a Swift Package Manager project by its `Package.swift`.
pub fn detect(dir: &Directory) -> (runners: Vec<DetectedRunner>)
    ensures
        runners_view(runners@) == matches(dir@),
{
    detect_marker(dir, "swift", "Package.swift", Ecosystem::Swift, PRIORITY)
}

} // verus!
