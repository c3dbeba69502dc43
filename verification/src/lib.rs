//! The engine of an interactive file finder: what a scan of a directory
//! offers to the match index, the sorted window over the matches that the
//! screen shows, the ring of preview jobs, and the caches beside them.

use vstd::prelude::*;

pub mod action;
pub mod bytes;
pub mod cache;
pub mod colour;
pub mod comms;
pub mod dir_stack;
pub mod engine;
pub mod file_attrs;
pub mod fuzz;
pub mod fuzzy;
pub mod git;
pub mod handle;
pub mod item;
pub mod line_stop;
pub mod order;
pub mod preview;
pub mod snapped;
pub mod store;
pub mod ui_state;
pub mod view;
pub mod walk;

verus! {

/// How a chosen path is printed.
#[derive(Copy, Clone)]
pub struct ResultOpts {
    pub force_absolute_path: bool,
}

} // verus!
