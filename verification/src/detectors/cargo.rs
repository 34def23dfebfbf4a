//! The detector of Cargo projects.

use vstd::prelude::*;
use crate::detectors::{
    detect_marker, marker_matches, runners_view, DetectedRunner, Ecosystem, RunnerSpec,
};
use crate::project::{Directory, FileSpec};

verus! {

/// The priority of this detector.
pub const PRIORITY: u8 = 9;

/// What the detector finds among `entries`: `cargo`, where `Cargo.toml` is there.
pub open spec fn matches(entries: Seq<FileSpec>) -> Seq<RunnerSpec> {
    marker_matches(entries, "cargo"@, "Cargo.toml"@, Ecosystem::Rust, PRIORITY)
}

/// Detects a Cargo project by its `Cargo.toml`.
pub fn detect(dir: &Directory) -> (runners: Vec<DetectedRunner>)
    ensures
        runners_view(runners@) == matches(dir@),
{
    detect_marker(dir, "cargo", "Cargo.toml", Ecosystem::Rust, PRIORITY)
}

} // verus!
