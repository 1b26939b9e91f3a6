//! Verified core of a command-line client for a game store: the settings
//! model and its edits, the ordering of game builds, the scan filters for
//! game executables, the launch plan for a game under Proton, the progress
//! bookkeeping of downloads, and the command lines shown as hints.
pub mod builds;
pub mod cli;
pub mod download;
pub mod executables;
pub mod hint;
pub mod management;
pub mod order;
pub mod progress;
pub mod proton;
pub mod runner;
pub mod settings;
pub mod text;
