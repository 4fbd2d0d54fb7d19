//! Which runtime pieces the generated plugin includes.
use vstd::prelude::*;

verus! {

/// The runtime pieces to include.
#[derive(Debug, Clone, Copy, PartialEq, Eq, Structural)]
pub struct Include {
    pub icon_themes: bool,
}

impl Include {
    /// Nothing to include.
    pub fn none() -> (r: Include)
        ensures
            !r.icon_themes,
    {
        Include { icon_themes: false }
    }

    /// Whether nothing is included, so that no entry point is generated.
    pub fn is_default(&self) -> (r: bool)
        ensures
            r == (*self == Include::none_spec()),
    {
        *self == Include::none()
    }

    pub open spec fn none_spec() -> Include {
        Include { icon_themes: false }
    }
}

} // verus!
