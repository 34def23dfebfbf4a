//! The detector of Node.js projects.

use vstd::prelude::*;
use crate::detectors::{
    detect_marker, marker_matches, runners_view, DetectedRunner, Ecosystem, RunnerSpec,
};
use crate::project::{Directory, FileSpec};

verus! {

/// The priority of this detector.
pub const PRIORITY: u8 = 4;

/// What the detector finds among `entries`: `npm`, where `package.json` is there.
pub open spec fn matches(entries: Seq<FileSpec>) -> Seq<RunnerSpec> {
    marker_matches(entries, "npm"@, "package.json"@, Ecosystem::NodeJs, PRIORITY)
}

/// Detects a Node.js project by its `package.json`.
pub fn detect(dir: &Directory) -> (runners: Vec<DetectedRunner>)
    ensures
        runners_view(runners@) == matches(dir@),
{
    detect_marker(dir, "npm", "package.json", Ecosystem::NodeJs, PRIORITY)
}

} // verus!
