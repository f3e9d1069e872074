//! The help page.

use vstd::prelude::*;

verus! {

/// Whether the about box is open.
pub struct HelpState {
    pub show_about: bool,
}

impl HelpState {
    /// The about box closed.
    pub fn new() -> (r: Self)
        ensures
            !r.show_about,
    {
        HelpState { show_about: false }
    }
}

} // verus!
