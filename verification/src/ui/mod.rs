//! The views of the program and which of them is shown.

pub mod log_view;

use log_view::{initial_state, LogView};
use vstd::prelude::*;

verus! {

/// The views that the program can show.
#[derive(Clone, Copy, Debug, PartialEq, Eq, Structural)]
pub enum View {
    Log,
    Settings,
}

impl Default for View {
    /// The log view.
    fn default() -> (r: Self)
        ensures
            r == View::Log,
    {
        View::Log
    }
}

/// The state of each view.
#[derive(Debug)]
pub struct Views {
    pub log: LogView,
}

impl Default for Views {
    /// Every view in its first state.
    fn default() -> (r: Self)
        ensures
            vstd::view::View::view(&r.log) == initial_state(),
    {
        Views { log: LogView::default() }
    }
}

} // verus!
