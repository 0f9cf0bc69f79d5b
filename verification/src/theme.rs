//! The colour-theme mode the drawing layer renders with.  The colour
//! and font tables themselves live with the drawing layer; only the
//! mode and its toggle are session logic.

use vstd::prelude::*;

verus! {

/// Light or dark rendering mode.
#[derive(Debug, Clone, Copy, PartialEq, Eq, Structural)]
pub enum ThemeMode {
    Light,
    Dark,
}

impl ThemeMode {
    /// The other mode.
    pub open spec fn spec_toggled(self) -> ThemeMode {
        match self {
            ThemeMode::Light => ThemeMode::Dark,
            ThemeMode::Dark => ThemeMode::Light,
        }
    }

    /// Switch between light and dark.
    pub fn toggled(self) -> (r: ThemeMode)
        ensures
            r == self.spec_toggled(),
    {
        match self {
            ThemeMode::Light => ThemeMode::Dark,
            ThemeMode::Dark => ThemeMode::Light,
        }
    }
}

} // verus!
