//! The about-dialog flag.
//!
//! Presentation draws the dialog; the core only remembers whether it is open.

use vstd::prelude::*;

verus! {

/// Visibility of the about dialog.
pub struct About {
    pub open: bool,
}

impl About {
    pub fn title(&self) -> (r: &'static str)
        ensures
            r@ == "About TimelineRS"@,
    {
        "About TimelineRS"
    }
}

impl Default for About {
    /// The dialog starts closed.
    fn default() -> (a: About)
        ensures
            !a.open,
    {
        About { open: false }
    }
}

} // verus!
