//! The decisions behind `rip`, a tool that deletes directory trees as fast as
//! the disk allows.
//!
//! Everything here is a function of plain values. The program around it parses
//! the command line, walks the disk, removes entries and talks to the terminal;
//! what it finds it hands to this library, which says what to do next.
//!
//! - [`session`]: a run from the command line to the summary
//! - [`path`]: paths by their components, and the guard against roots
//! - [`tree`]: a target, what the walk found below it, and reports
//! - [`schedule`]: the order in which directories are removed
//! - [`platform`]: the removal of a single entry, step by step
//! - [`recycle`]: the move to the Recycle Bin or trash
//! - [`ui`], [`paint`], [`progress`]: warnings, colours and bars
//! - [`wording`]: what the warnings say, and what they do not
//! - [`options`], [`tally`], [`text`]: switches, counts and numbers
pub mod options;
pub mod paint;
pub mod path;
pub mod platform;
pub mod progress;
pub mod recycle;
pub mod schedule;
pub mod session;
pub mod tally;
pub mod text;
pub mod tree;
pub mod ui;
pub mod wording;
