//! Selection mode of a view.

use vstd::prelude::*;

verus! {

/// Selection mode for a view.
#[derive(Debug, Clone, Copy, PartialEq, Eq, Structural)]
pub enum SelectionMode {
    /// Selecting an item clears previous selection.
    Single,
    /// Selecting toggles. Multiple items can be selected.
    Multi,
    /// `on_select` hook controls all selection logic.
    Custom,
}

/// The name of a selection mode, as Lua view tables write it.
pub open spec fn mode_name(m: SelectionMode) -> Seq<char> {
    match m {
        SelectionMode::Single => "single"@,
        SelectionMode::Multi => "multi"@,
        SelectionMode::Custom => "custom"@,
    }
}

impl Default for SelectionMode {
    fn default() -> (r: Self)
        ensures
            r == SelectionMode::Single,
    {
        SelectionMode::Single
    }
}

} // verus!
