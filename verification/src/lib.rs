//! Command-line rules of the mapache backup program.

pub mod access;
pub mod cmd_bundle;
pub mod cmd_forget;
pub mod cmd_mount;
pub mod cmd_restore;
pub mod cmd_snapshot;
pub mod command;
pub mod doubles;
pub mod errors;
pub mod export_walk;
pub mod global;
pub mod ids;
pub mod merge;
pub mod options;
pub mod report;
pub mod sizes;
pub mod snapshots;
pub mod tags;
pub mod text;
pub mod text_set;
pub mod units;
pub mod verify_sample;
