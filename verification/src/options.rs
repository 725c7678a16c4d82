//! The switches of a run.
use vstd::prelude::*;

verus! {

/// What the command line asks for.
#[derive(Clone, Copy)]
pub struct Options {
    /// Show what would be deleted, delete nothing.
    pub dry_run: bool,
    /// Move to the Recycle Bin or trash instead of deleting.
    pub trash: bool,
    /// Skip the warning and the confirmation.
    pub force: bool,
    /// Print each path.
    pub verbose: bool,
}

} // verus!
