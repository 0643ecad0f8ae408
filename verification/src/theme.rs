//! Whether the launcher shows its dark or its light palette.

use vstd::prelude::*;

verus! {

/// Appearance mode preference.
#[derive(Debug, Clone, Copy, PartialEq, Eq, Structural)]
pub enum Appearance {
    Light,
    Dark,
    System,
}

impl Default for Appearance {
    fn default() -> (r: Self)
        ensures
            r == Appearance::System,
    {
        Appearance::System
    }
}

impl Appearance {
    /// Whether the theme is dark: forced by a light or dark preference,
    /// following the system otherwise.
    pub fn is_dark(&self, system_is_dark: bool) -> (r: bool)
        ensures
            r == match self {
                Appearance::Dark => true,
                Appearance::Light => false,
                Appearance::System => system_is_dark,
            },
    {
        match self {
            Appearance::Dark => true,
            Appearance::Light => false,
            Appearance::System => system_is_dark,
        }
    }
}

} // verus!
