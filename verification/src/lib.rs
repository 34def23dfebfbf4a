//! A project-agnostic command dispatcher: it finds the build tool that governs a
//! directory, lists the scripts that tool exposes and plans the command to run.

pub mod detectors;
pub mod dispatch;
pub mod document;
pub mod edits;
pub mod error;
pub mod fuzzy;
pub mod makefile;
pub mod project;
pub mod ranking;
pub mod ratio;
pub mod runner;
pub mod scripts;
pub mod text;
pub mod tools;
