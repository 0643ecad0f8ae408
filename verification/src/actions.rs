//! The launcher's built-in actions, which key bindings dispatch, and their
//! lookup by name.

use vstd::prelude::*;

use crate::text::str_equal;

verus! {

/// A built-in launcher action.
#[derive(Debug, Clone, Copy, PartialEq, Eq, Structural)]
pub enum LauncherAction {
    /// Move the cursor up.
    CursorUp,
    /// Move the cursor down.
    CursorDown,
    /// Move the cursor to the first item.
    CursorHome,
    /// Move the cursor to the last item.
    CursorEnd,
    /// Move the cursor up a page.
    PageUp,
    /// Move the cursor down a page.
    PageDown,
    /// Toggle the selection of the item at the cursor.
    ToggleSelection,
    /// Select all items.
    SelectAll,
    /// Clear the selection.
    ClearSelection,
    /// Run the default action or submit the query.
    Submit,
    /// Open the action menu.
    OpenActionMenu,
    /// Dismiss the launcher.
    Dismiss,
    /// Return to the previous view.
    Pop,
    /// Delete the character before the caret.
    Backspace,
    /// Delete the character after the caret.
    Delete,
    /// Move the caret left.
    MoveLeft,
    /// Move the caret right.
    MoveRight,
    /// Extend the text selection left.
    SelectLeft,
    /// Extend the text selection right.
    SelectRight,
    /// Select all query text.
    TextSelectAll,
    /// Move the caret to the start.
    Home,
    /// Move the caret to the end.
    End,
    /// Copy the selected text.
    Copy,
    /// Paste text.
    Paste,
    /// Cut the selected text.
    Cut,
}

/// Action for Lua function bindings: the handler looks up the Lua function
/// by this id.
#[derive(Debug, Clone)]
pub struct RunLuaHandler {
    /// ID that maps to a Lua function in the keymap registry.
    pub id: String,
}

impl LauncherAction {
    /// The name under which key bindings refer to an action.
    pub open spec fn name_spec(self) -> Seq<char> {
        match self {
            LauncherAction::CursorUp => "cursor_up"@,
            LauncherAction::CursorDown => "cursor_down"@,
            LauncherAction::CursorHome => "cursor_home"@,
            LauncherAction::CursorEnd => "cursor_end"@,
            LauncherAction::PageUp => "page_up"@,
            LauncherAction::PageDown => "page_down"@,
            LauncherAction::ToggleSelection => "toggle_selection"@,
            LauncherAction::SelectAll => "select_all"@,
            LauncherAction::ClearSelection => "clear_selection"@,
            LauncherAction::Submit => "submit"@,
            LauncherAction::OpenActionMenu => "open_action_menu"@,
            LauncherAction::Dismiss => "dismiss"@,
            LauncherAction::Pop => "pop"@,
            LauncherAction::Backspace => "backspace"@,
            LauncherAction::Delete => "delete"@,
            LauncherAction::MoveLeft => "move_left"@,
            LauncherAction::MoveRight => "move_right"@,
            LauncherAction::SelectLeft => "select_left"@,
            LauncherAction::SelectRight => "select_right"@,
            LauncherAction::TextSelectAll => "text_select_all"@,
            LauncherAction::Home => "home"@,
            LauncherAction::End => "end"@,
            LauncherAction::Copy => "copy"@,
            LauncherAction::Paste => "paste"@,
            LauncherAction::Cut => "cut"@,
        }
    }

    /// The name of this action.
    pub fn name(&self) -> (r: &'static str)
        ensures
            r@ == self.name_spec(),
    {
        match self {
            LauncherAction::CursorUp => "cursor_up",
            LauncherAction::CursorDown => "cursor_down",
            LauncherAction::CursorHome => "cursor_home",
            LauncherAction::CursorEnd => "cursor_end",
            LauncherAction::PageUp => "page_up",
            LauncherAction::PageDown => "page_down",
            LauncherAction::ToggleSelection => "toggle_selection",
            LauncherAction::SelectAll => "select_all",
            LauncherAction::ClearSelection => "clear_selection",
            LauncherAction::Submit => "submit",
            LauncherAction::OpenActionMenu => "open_action_menu",
            LauncherAction::Dismiss => "dismiss",
            LauncherAction::Pop => "pop",
            LauncherAction::Backspace => "backspace",
            LauncherAction::Delete => "delete",
            LauncherAction::MoveLeft => "move_left",
            LauncherAction::MoveRight => "move_right",
            LauncherAction::SelectLeft => "select_left",
            LauncherAction::SelectRight => "select_right",
            LauncherAction::TextSelectAll => "text_select_all",
            LauncherAction::Home => "home",
            LauncherAction::End => "end",
            LauncherAction::Copy => "copy",
            LauncherAction::Paste => "paste",
            LauncherAction::Cut => "cut",
        }
    }
}

/// The action with a name, if any.
pub open spec fn from_name_spec(name: Seq<char>) -> Option<LauncherAction> {
    if name == "cursor_up"@ {
        Some(LauncherAction::CursorUp)
    } else if name == "cursor_down"@ {
        Some(LauncherAction::CursorDown)
    } else if name == "cursor_home"@ {
        Some(LauncherAction::CursorHome)
    } else if name == "cursor_end"@ {
        Some(LauncherAction::CursorEnd)
    } else if name == "page_up"@ {
        Some(LauncherAction::PageUp)
    } else if name == "page_down"@ {
        Some(LauncherAction::PageDown)
    } else if name == "toggle_selection"@ {
        Some(LauncherAction::ToggleSelection)
    } else if name == "select_all"@ {
        Some(LauncherAction::SelectAll)
    } else if name == "clear_selection"@ {
        Some(LauncherAction::ClearSelection)
    } else if name == "submit"@ {
        Some(LauncherAction::Submit)
    } else if name == "open_action_menu"@ {
        Some(LauncherAction::OpenActionMenu)
    } else if name == "dismiss"@ {
        Some(LauncherAction::Dismiss)
    } else if name == "pop"@ {
        Some(LauncherAction::Pop)
    } else if name == "backspace"@ {
        Some(LauncherAction::Backspace)
    } else if name == "delete"@ {
        Some(LauncherAction::Delete)
    } else if name == "move_left"@ {
        Some(LauncherAction::MoveLeft)
    } else if name == "move_right"@ {
        Some(LauncherAction::MoveRight)
    } else if name == "select_left"@ {
        Some(LauncherAction::SelectLeft)
    } else if name == "select_right"@ {
        Some(LauncherAction::SelectRight)
    } else if name == "text_select_all"@ {
        Some(LauncherAction::TextSelectAll)
    } else if name == "home"@ {
        Some(LauncherAction::Home)
    } else if name == "end"@ {
        Some(LauncherAction::End)
    } else if name == "copy"@ {
        Some(LauncherAction::Copy)
    } else if name == "paste"@ {
        Some(LauncherAction::Paste)
    } else if name == "cut"@ {
        Some(LauncherAction::Cut)
    } else {
        None
    }
}

/// All actions, in the order they are listed.
pub open spec fn all_actions() -> Seq<LauncherAction> {
    seq![
        LauncherAction::CursorUp,
        LauncherAction::CursorDown,
        LauncherAction::CursorHome,
        LauncherAction::CursorEnd,
        LauncherAction::PageUp,
        LauncherAction::PageDown,
        LauncherAction::ToggleSelection,
        LauncherAction::SelectAll,
        LauncherAction::ClearSelection,
        LauncherAction::Submit,
        LauncherAction::OpenActionMenu,
        LauncherAction::Dismiss,
        LauncherAction::Pop,
        LauncherAction::Backspace,
        LauncherAction::Delete,
        LauncherAction::MoveLeft,
        LauncherAction::MoveRight,
        LauncherAction::SelectLeft,
        LauncherAction::SelectRight,
        LauncherAction::TextSelectAll,
        LauncherAction::Home,
        LauncherAction::End,
        LauncherAction::Copy,
        LauncherAction::Paste,
        LauncherAction::Cut,
    ]
}

/// Look up an action by name.
pub fn action_from_name(name: &str) -> (r: Option<LauncherAction>)
    ensures
        r == from_name_spec(name@),
{
    if str_equal(name, "cursor_up") {
        Some(LauncherAction::CursorUp)
    } else if str_equal(name, "cursor_down") {
        Some(LauncherAction::CursorDown)
    } else if str_equal(name, "cursor_home") {
        Some(LauncherAction::CursorHome)
    } else if str_equal(name, "cursor_end") {
        Some(LauncherAction::CursorEnd)
    } else if str_equal(name, "page_up") {
        Some(LauncherAction::PageUp)
    } else if str_equal(name, "page_down") {
        Some(LauncherAction::PageDown)
    } else if str_equal(name, "toggle_selection") {
        Some(LauncherAction::ToggleSelection)
    } else if str_equal(name, "select_all") {
        Some(LauncherAction::SelectAll)
    } else if str_equal(name, "clear_selection") {
        Some(LauncherAction::ClearSelection)
    } else if str_equal(name, "submit") {
        Some(LauncherAction::Submit)
    } else if str_equal(name, "open_action_menu") {
        Some(LauncherAction::OpenActionMenu)
    } else if str_equal(name, "dismiss") {
        Some(LauncherAction::Dismiss)
    } else if str_equal(name, "pop") {
        Some(LauncherAction::Pop)
    } else if str_equal(name, "backspace") {
        Some(LauncherAction::Backspace)
    } else if str_equal(name, "delete") {
        Some(LauncherAction::Delete)
    } else if str_equal(name, "move_left") {
        Some(LauncherAction::MoveLeft)
    } else if str_equal(name, "move_right") {
        Some(LauncherAction::MoveRight)
    } else if str_equal(name, "select_left") {
        Some(LauncherAction::SelectLeft)
    } else if str_equal(name, "select_right") {
        Some(LauncherAction::SelectRight)
    } else if str_equal(name, "text_select_all") {
        Some(LauncherAction::TextSelectAll)
    } else if str_equal(name, "home") {
        Some(LauncherAction::Home)
    } else if str_equal(name, "end") {
        Some(LauncherAction::End)
    } else if str_equal(name, "copy") {
        Some(LauncherAction::Copy)
    } else if str_equal(name, "paste") {
        Some(LauncherAction::Paste)
    } else if str_equal(name, "cut") {
        Some(LauncherAction::Cut)
    } else {
        None
    }
}

/// The names of all available actions, in order.
pub fn available_actions() -> (r: Vec<&'static str>)
    ensures
        r@.len() == all_actions().len(),
        forall|i: int| 0 <= i < r@.len() ==> (#[trigger] r@[i])@ == all_actions()[i].name_spec(),
        r@.map_values(|n: &'static str| n@) == available_names(),
{
    let mut v: Vec<&'static str> = Vec::new();
    v.push(LauncherAction::CursorUp.name());
    v.push(LauncherAction::CursorDown.name());
    v.push(LauncherAction::CursorHome.name());
    v.push(LauncherAction::CursorEnd.name());
    v.push(LauncherAction::PageUp.name());
    v.push(LauncherAction::PageDown.name());
    v.push(LauncherAction::ToggleSelection.name());
    v.push(LauncherAction::SelectAll.name());
    v.push(LauncherAction::ClearSelection.name());
    v.push(LauncherAction::Submit.name());
    v.push(LauncherAction::OpenActionMenu.name());
    v.push(LauncherAction::Dismiss.name());
    v.push(LauncherAction::Pop.name());
    v.push(LauncherAction::Backspace.name());
    v.push(LauncherAction::Delete.name());
    v.push(LauncherAction::MoveLeft.name());
    v.push(LauncherAction::MoveRight.name());
    v.push(LauncherAction::SelectLeft.name());
    v.push(LauncherAction::SelectRight.name());
    v.push(LauncherAction::TextSelectAll.name());
    v.push(LauncherAction::Home.name());
    v.push(LauncherAction::End.name());
    v.push(LauncherAction::Copy.name());
    v.push(LauncherAction::Paste.name());
    v.push(LauncherAction::Cut.name());
    proof {
        assert(v@.len() == all_actions().len());
        assert(v@.map_values(|n: &'static str| n@) =~= available_names());
    }
    v
}

/// An action's name leads back to the action.
pub proof fn lemma_name_round_trip(a: LauncherAction)
    ensures
        from_name_spec(a.name_spec()) == Some(a),
{
    match a {
        LauncherAction::CursorUp => {
            assert(from_name_spec("cursor_up"@) == Some(LauncherAction::CursorUp)) by {
                reveal_strlit("cursor_up");
            }
        },
        LauncherAction::CursorDown => {
            assert(from_name_spec("cursor_down"@) == Some(LauncherAction::CursorDown)) by {
                reveal_strlit("cursor_down");
                reveal_strlit("cursor_up");
                assert("cursor_down"@.len() != "cursor_up"@.len());
            }
        },
        LauncherAction::CursorHome => {
            assert(from_name_spec("cursor_home"@) == Some(LauncherAction::CursorHome)) by {
                reveal_strlit("cursor_home");
                reveal_strlit("cursor_up");
                assert("cursor_home"@.len() != "cursor_up"@.len());
                reveal_strlit("cursor_down");
                assert("cursor_home"@[7] != "cursor_down"@[7]);
            }
        },
        LauncherAction::CursorEnd => {
            assert(from_name_spec("cursor_end"@) == Some(LauncherAction::CursorEnd)) by {
                reveal_strlit("cursor_end");
                reveal_strlit("cursor_up");
                assert("cursor_end"@.len() != "cursor_up"@.len());
                reveal_strlit("cursor_down");
                assert("cursor_end"@.len() != "cursor_down"@.len());
                reveal_strlit("cursor_home");
                assert("cursor_end"@.len() != "cursor_home"@.len());
            }
        },
        LauncherAction::PageUp => {
            assert(from_name_spec("page_up"@) == Some(LauncherAction::PageUp)) by {
                reveal_strlit("page_up");
                reveal_strlit("cursor_up");
                assert("page_up"@.len() != "cursor_up"@.len());
                reveal_strlit("cursor_down");
                assert("page_up"@.len() != "cursor_down"@.len());
                reveal_strlit("cursor_home");
                assert("page_up"@.len() != "cursor_home"@.len());
                reveal_strlit("cursor_end");
                assert("page_up"@.len() != "cursor_end"@.len());
            }
        },
        LauncherAction::PageDown => {
            assert(from_name_spec("page_down"@) == Some(LauncherAction::PageDown)) by {
                reveal_strlit("page_down");
                reveal_strlit("cursor_up");
                assert("page_down"@[0] != "cursor_up"@[0]);
                reveal_strlit("cursor_down");
                assert("page_down"@.len() != "cursor_down"@.len());
                reveal_strlit("cursor_home");
                assert("page_down"@.len() != "cursor_home"@.len());
                reveal_strlit("cursor_end");
                assert("page_down"@.len() != "cursor_end"@.len());
                reveal_strlit("page_up");
                assert("page_down"@.len() != "page_up"@.len());
            }
        },
        LauncherAction::ToggleSelection => {
            assert(from_name_spec("toggle_selection"@) == Some(LauncherAction::ToggleSelection)) by {
                reveal_strlit("toggle_selection");
                reveal_strlit("cursor_up");
                assert("toggle_selection"@.len() != "cursor_up"@.len());
                reveal_strlit("cursor_down");
                assert("toggle_selection"@.len() != "cursor_down"@.len());
                reveal_strlit("cursor_home");
                assert("toggle_selection"@.len() != "cursor_home"@.len());
                reveal_strlit("cursor_end");
                assert("toggle_selection"@.len() != "cursor_end"@.len());
                reveal_strlit("page_up");
                assert("toggle_selection"@.len() != "page_up"@.len());
                reveal_strlit("page_down");
                assert("toggle_selection"@.len() != "page_down"@.len());
            }
        },
        LauncherAction::SelectAll => {
            assert(from_name_spec("select_all"@) == Some(LauncherAction::SelectAll)) by {
                reveal_strlit("select_all");
                reveal_strlit("cursor_up");
                assert("select_all"@.len() != "cursor_up"@.len());
                reveal_strlit("cursor_down");
                assert("select_all"@.len() != "cursor_down"@.len());
                reveal_strlit("cursor_home");
                assert("select_all"@.len() != "cursor_home"@.len());
                reveal_strlit("cursor_end");
                assert("select_all"@[0] != "cursor_end"@[0]);
                reveal_strlit("page_up");
                assert("select_all"@.len() != "page_up"@.len());
                reveal_strlit("page_down");
                assert("select_all"@.len() != "page_down"@.len());
                reveal_strlit("toggle_selection");
                assert("select_all"@.len() != "toggle_selection"@.len());
            }
        },
        LauncherAction::ClearSelection => {
            assert(from_name_spec("clear_selection"@) == Some(LauncherAction::ClearSelection)) by {
                reveal_strlit("clear_selection");
                reveal_strlit("cursor_up");
                assert("clear_selection"@.len() != "cursor_up"@.len());
                reveal_strlit("cursor_down");
                assert("clear_selection"@.len() != "cursor_down"@.len());
                reveal_strlit("cursor_home");
                assert("clear_selection"@.len() != "cursor_home"@.len());
                reveal_strlit("cursor_end");
                assert("clear_selection"@.len() != "cursor_end"@.len());
                reveal_strlit("page_up");
                assert("clear_selection"@.len() != "page_up"@.len());
                reveal_strlit("page_down");
                assert("clear_selection"@.len() != "page_down"@.len());
                reveal_strlit("toggle_selection");
                assert("clear_selection"@.len() != "toggle_selection"@.len());
                reveal_strlit("select_all");
                assert("clear_selection"@.len() != "select_all"@.len());
            }
        },
        LauncherAction::Submit => {
            assert(from_name_spec("submit"@) == Some(LauncherAction::Submit)) by {
                reveal_strlit("submit");
                reveal_strlit("cursor_up");
                assert("submit"@.len() != "cursor_up"@.len());
                reveal_strlit("cursor_down");
                assert("submit"@.len() != "cursor_down"@.len());
                reveal_strlit("cursor_home");
                assert("submit"@.len() != "cursor_home"@.len());
                reveal_strlit("cursor_end");
                assert("submit"@.len() != "cursor_end"@.len());
                reveal_strlit("page_up");
                assert("submit"@.len() != "page_up"@.len());
                reveal_strlit("page_down");
                assert("submit"@.len() != "page_down"@.len());
                reveal_strlit("toggle_selection");
                assert("submit"@.len() != "toggle_selection"@.len());
                reveal_strlit("select_all");
                assert("submit"@.len() != "select_all"@.len());
                reveal_strlit("clear_selection");
                assert("submit"@.len() != "clear_selection"@.len());
            }
        },
        LauncherAction::OpenActionMenu => {
            assert(from_name_spec("open_action_menu"@) == Some(LauncherAction::OpenActionMenu)) by {
                reveal_strlit("open_action_menu");
                reveal_strlit("cursor_up");
                assert("open_action_menu"@.len() != "cursor_up"@.len());
                reveal_strlit("cursor_down");
                assert("open_action_menu"@.len() != "cursor_down"@.len());
                reveal_strlit("cursor_home");
                assert("open_action_menu"@.len() != "cursor_home"@.len());
                reveal_strlit("cursor_end");
                assert("open_action_menu"@.len() != "cursor_end"@.len());
                reveal_strlit("page_up");
                assert("open_action_menu"@.len() != "page_up"@.len());
                reveal_strlit("page_down");
                assert("open_action_menu"@.len() != "page_down"@.len());
                reveal_strlit("toggle_selection");
                assert("open_action_menu"@[0] != "toggle_selection"@[0]);
                reveal_strlit("select_all");
                assert("open_action_menu"@.len() != "select_all"@.len());
                reveal_strlit("clear_selection");
                assert("open_action_menu"@.len() != "clear_selection"@.len());
                reveal_strlit("submit");
                assert("open_action_menu"@.len() != "submit"@.len());
            }
        },
        LauncherAction::Dismiss => {
            assert(from_name_spec("dismiss"@) == Some(LauncherAction::Dismiss)) by {
                reveal_strlit("dismiss");
                reveal_strlit("cursor_up");
                assert("dismiss"@.len() != "cursor_up"@.len());
                reveal_strlit("cursor_down");
                assert("dismiss"@.len() != "cursor_down"@.len());
                reveal_strlit("cursor_home");
                assert("dismiss"@.len() != "cursor_home"@.len());
                reveal_strlit("cursor_end");
                assert("dismiss"@.len() != "cursor_end"@.len());
                reveal_strlit("page_up");
                assert("dismiss"@[0] != "page_up"@[0]);
                reveal_strlit("page_down");
                assert("dismiss"@.len() != "page_down"@.len());
                reveal_strlit("toggle_selection");
                assert("dismiss"@.len() != "toggle_selection"@.len());
                reveal_strlit("select_all");
                assert("dismiss"@.len() != "select_all"@.len());
                reveal_strlit("clear_selection");
                assert("dismiss"@.len() != "clear_selection"@.len());
                reveal_strlit("submit");
                assert("dismiss"@.len() != "submit"@.len());
                reveal_strlit("open_action_menu");
                assert("dismiss"@.len() != "open_action_menu"@.len());
            }
        },
        LauncherAction::Pop => {
            assert(from_name_spec("pop"@) == Some(LauncherAction::Pop)) by {
                reveal_strlit("pop");
                reveal_strlit("cursor_up");
                assert("pop"@.len() != "cursor_up"@.len());
                reveal_strlit("cursor_down");
                assert("pop"@.len() != "cursor_down"@.len());
                reveal_strlit("cursor_home");
                assert("pop"@.len() != "cursor_home"@.len());
                reveal_strlit("cursor_end");
                assert("pop"@.len() != "cursor_end"@.len());
                reveal_strlit("page_up");
                assert("pop"@.len() != "page_up"@.len());
                reveal_strlit("page_down");
                assert("pop"@.len() != "page_down"@.len());
                reveal_strlit("toggle_selection");
                assert("pop"@.len() != "toggle_selection"@.len());
                reveal_strlit("select_all");
                assert("pop"@.len() != "select_all"@.len());
                reveal_strlit("clear_selection");
                assert("pop"@.len() != "clear_selection"@.len());
                reveal_strlit("submit");
                assert("pop"@.len() != "submit"@.len());
                reveal_strlit("open_action_menu");
                assert("pop"@.len() != "open_action_menu"@.len());
                reveal_strlit("dismiss");
                assert("pop"@.len() != "dismiss"@.len());
            }
        },
        LauncherAction::Backspace => {
            assert(from_name_spec("backspace"@) == Some(LauncherAction::Backspace)) by {
                reveal_strlit("backspace");
                reveal_strlit("cursor_up");
                assert("backspace"@[0] != "cursor_up"@[0]);
                reveal_strlit("cursor_down");
                assert("backspace"@.len() != "cursor_down"@.len());
                reveal_strlit("cursor_home");
                assert("backspace"@.len() != "cursor_home"@.len());
                reveal_strlit("cursor_end");
                assert("backspace"@.len() != "cursor_end"@.len());
                reveal_strlit("page_up");
                assert("backspace"@.len() != "page_up"@.len());
                reveal_strlit("page_down");
                assert("backspace"@[0] != "page_down"@[0]);
                reveal_strlit("toggle_selection");
                assert("backspace"@.len() != "toggle_selection"@.len());
                reveal_strlit("select_all");
                assert("backspace"@.len() != "select_all"@.len());
                reveal_strlit("clear_selection");
                assert("backspace"@.len() != "clear_selection"@.len());
                reveal_strlit("submit");
                assert("backspace"@.len() != "submit"@.len());
                reveal_strlit("open_action_menu");
                assert("backspace"@.len() != "open_action_menu"@.len());
                reveal_strlit("dismiss");
                assert("backspace"@.len() != "dismiss"@.len());
                reveal_strlit("pop");
                assert("backspace"@.len() != "pop"@.len());
            }
        },
        LauncherAction::Delete => {
            assert(from_name_spec("delete"@) == Some(LauncherAction::Delete)) by {
                reveal_strlit("delete");
                reveal_strlit("cursor_up");
                assert("delete"@.len() != "cursor_up"@.len());
                reveal_strlit("cursor_down");
                assert("delete"@.len() != "cursor_down"@.len());
                reveal_strlit("cursor_home");
                assert("delete"@.len() != "cursor_home"@.len());
                reveal_strlit("cursor_end");
                assert("delete"@.len() != "cursor_end"@.len());
                reveal_strlit("page_up");
                assert("delete"@.len() != "page_up"@.len());
                reveal_strlit("page_down");
                assert("delete"@.len() != "page_down"@.len());
                reveal_strlit("toggle_selection");
                assert("delete"@.len() != "toggle_selection"@.len());
                reveal_strlit("select_all");
                assert("delete"@.len() != "select_all"@.len());
                reveal_strlit("clear_selection");
                assert("delete"@.len() != "clear_selection"@.len());
                reveal_strlit("submit");
                assert("delete"@[0] != "submit"@[0]);
                reveal_strlit("open_action_menu");
                assert("delete"@.len() != "open_action_menu"@.len());
                reveal_strlit("dismiss");
                assert("delete"@.len() != "dismiss"@.len());
                reveal_strlit("pop");
                assert("delete"@.len() != "pop"@.len());
                reveal_strlit("backspace");
                assert("delete"@.len() != "backspace"@.len());
            }
        },
        LauncherAction::MoveLeft => {
            assert(from_name_spec("move_left"@) == Some(LauncherAction::MoveLeft)) by {
                reveal_strlit("move_left");
                reveal_strlit("cursor_up");
                assert("move_left"@[0] != "cursor_up"@[0]);
                reveal_strlit("cursor_down");
                assert("move_left"@.len() != "cursor_down"@.len());
                reveal_strlit("cursor_home");
                assert("move_left"@.len() != "cursor_home"@.len());
                reveal_strlit("cursor_end");
                assert("move_left"@.len() != "cursor_end"@.len());
                reveal_strlit("page_up");
                assert("move_left"@.len() != "page_up"@.len());
                reveal_strlit("page_down");
                assert("move_left"@[0] != "page_down"@[0]);
                reveal_strlit("toggle_selection");
                assert("move_left"@.len() != "toggle_selection"@.len());
                reveal_strlit("select_all");
                assert("move_left"@.len() != "select_all"@.len());
                reveal_strlit("clear_selection");
                assert("move_left"@.len() != "clear_selection"@.len());
                reveal_strlit("submit");
                assert("move_left"@.len() != "submit"@.len());
                reveal_strlit("open_action_menu");
                assert("move_left"@.len() != "open_action_menu"@.len());
                reveal_strlit("dismiss");
                assert("move_left"@.len() != "dismiss"@.len());
                reveal_strlit("pop");
                assert("move_left"@.len() != "pop"@.len());
                reveal_strlit("backspace");
                assert("move_left"@[0] != "backspace"@[0]);
                reveal_strlit("delete");
                assert("move_left"@.len() != "delete"@.len());
            }
        },
        LauncherAction::MoveRight => {
            assert(from_name_spec("move_right"@) == Some(LauncherAction::MoveRight)) by {
                reveal_strlit("move_right");
                reveal_strlit("cursor_up");
                assert("move_right"@.len() != "cursor_up"@.len());
                reveal_strlit("cursor_down");
                assert("move_right"@.len() != "cursor_down"@.len());
                reveal_strlit("cursor_home");
                assert("move_right"@.len() != "cursor_home"@.len());
                reveal_strlit("cursor_end");
                assert("move_right"@[0] != "cursor_end"@[0]);
                reveal_strlit("page_up");
                assert("move_right"@.len() != "page_up"@.len());
                reveal_strlit("page_down");
                assert("move_right"@.len() != "page_down"@.len());
                reveal_strlit("toggle_selection");
                assert("move_right"@.len() != "toggle_selection"@.len());
                reveal_strlit("select_all");
                assert("move_right"@[0] != "select_all"@[0]);
                reveal_strlit("clear_selection");
                assert("move_right"@.len() != "clear_selection"@.len());
                reveal_strlit("submit");
                assert("move_right"@.len() != "submit"@.len());
                reveal_strlit("open_action_menu");
                assert("move_right"@.len() != "open_action_menu"@.len());
                reveal_strlit("dismiss");
                assert("move_right"@.len() != "dismiss"@.len());
                reveal_strlit("pop");
                assert("move_right"@.len() != "pop"@.len());
                reveal_strlit("backspace");
                assert("move_right"@.len() != "backspace"@.len());
                reveal_strlit("delete");
                assert("move_right"@.len() != "delete"@.len());
                reveal_strlit("move_left");
                assert("move_right"@.len() != "move_left"@.len());
            }
        },
        LauncherAction::SelectLeft => {
            assert(from_name_spec("select_left"@) == Some(LauncherAction::SelectLeft)) by {
                reveal_strlit("select_left");
                reveal_strlit("cursor_up");
                assert("select_left"@.len() != "cursor_up"@.len());
                reveal_strlit("cursor_down");
                assert("select_left"@[0] != "cursor_down"@[0]);
                reveal_strlit("cursor_home");
                assert("select_left"@[0] != "cursor_home"@[0]);
                reveal_strlit("cursor_end");
                assert("select_left"@.len() != "cursor_end"@.len());
                reveal_strlit("page_up");
                assert("select_left"@.len() != "page_up"@.len());
                reveal_strlit("page_down");
                assert("select_left"@.len() != "page_down"@.len());
                reveal_strlit("toggle_selection");
                assert("select_left"@.len() != "toggle_selection"@.len());
                reveal_strlit("select_all");
                assert("select_left"@.len() != "select_all"@.len());
                reveal_strlit("clear_selection");
                assert("select_left"@.len() != "clear_selection"@.len());
                reveal_strlit("submit");
                assert("select_left"@.len() != "submit"@.len());
                reveal_strlit("open_action_menu");
                assert("select_left"@.len() != "open_action_menu"@.len());
                reveal_strlit("dismiss");
                assert("select_left"@.len() != "dismiss"@.len());
                reveal_strlit("pop");
                assert("select_left"@.len() != "pop"@.len());
                reveal_strlit("backspace");
                assert("select_left"@.len() != "backspace"@.len());
                reveal_strlit("delete");
                assert("select_left"@.len() != "delete"@.len());
                reveal_strlit("move_left");
                assert("select_left"@.len() != "move_left"@.len());
                reveal_strlit("move_right");
                assert("select_left"@.len() != "move_right"@.len());
            }
        },
        LauncherAction::SelectRight => {
            assert(from_name_spec("select_right"@) == Some(LauncherAction::SelectRight)) by {
                reveal_strlit("select_right");
                reveal_strlit("cursor_up");
                assert("select_right"@.len() != "cursor_up"@.len());
                reveal_strlit("cursor_down");
                assert("select_right"@.len() != "cursor_down"@.len());
                reveal_strlit("cursor_home");
                assert("select_right"@.len() != "cursor_home"@.len());
                reveal_strlit("cursor_end");
                assert("select_right"@.len() != "cursor_end"@.len());
                reveal_strlit("page_up");
                assert("select_right"@.len() != "page_up"@.len());
                reveal_strlit("page_down");
                assert("select_right"@.len() != "page_down"@.len());
                reveal_strlit("toggle_selection");
                assert("select_right"@.len() != "toggle_selection"@.len());
                reveal_strlit("select_all");
                assert("select_right"@.len() != "select_all"@.len());
                reveal_strlit("clear_selection");
                assert("select_right"@.len() != "clear_selection"@.len());
                reveal_strlit("submit");
                assert("select_right"@.len() != "submit"@.len());
                reveal_strlit("open_action_menu");
                assert("select_right"@.len() != "open_action_menu"@.len());
                reveal_strlit("dismiss");
                assert("select_right"@.len() != "dismiss"@.len());
                reveal_strlit("pop");
                assert("select_right"@.len() != "pop"@.len());
                reveal_strlit("backspace");
                assert("select_right"@.len() != "backspace"@.len());
                reveal_strlit("delete");
                assert("select_right"@.len() != "delete"@.len());
                reveal_strlit("move_left");
                assert("select_right"@.len() != "move_left"@.len());
                reveal_strlit("move_right");
                assert("select_right"@.len() != "move_right"@.len());
                reveal_strlit("select_left");
                assert("select_right"@.len() != "select_left"@.len());
            }
        },
        LauncherAction::TextSelectAll => {
            assert(from_name_spec("text_select_all"@) == Some(LauncherAction::TextSelectAll)) by {
                reveal_strlit("text_select_all");
                reveal_strlit("cursor_up");
                assert("text_select_all"@.len() != "cursor_up"@.len());
                reveal_strlit("cursor_down");
                assert("text_select_all"@.len() != "cursor_down"@.len());
                reveal_strlit("cursor_home");
                assert("text_select_all"@.len() != "cursor_home"@.len());
                reveal_strlit("cursor_end");
                assert("text_select_all"@.len() != "cursor_end"@.len());
                reveal_strlit("page_up");
                assert("text_select_all"@.len() != "page_up"@.len());
                reveal_strlit("page_down");
                assert("text_select_all"@.len() != "page_down"@.len());
                reveal_strlit("toggle_selection");
                assert("text_select_all"@.len() != "toggle_selection"@.len());
                reveal_strlit("select_all");
                assert("text_select_all"@.len() != "select_all"@.len());
                reveal_strlit("clear_selection");
                assert("text_select_all"@[0] != "clear_selection"@[0]);
                reveal_strlit("submit");
                assert("text_select_all"@.len() != "submit"@.len());
                reveal_strlit("open_action_menu");
                assert("text_select_all"@.len() != "open_action_menu"@.len());
                reveal_strlit("dismiss");
                assert("text_select_all"@.len() != "dismiss"@.len());
                reveal_strlit("pop");
                assert("text_select_all"@.len() != "pop"@.len());
                reveal_strlit("backspace");
                assert("text_select_all"@.len() != "backspace"@.len());
                reveal_strlit("delete");
                assert("text_select_all"@.len() != "delete"@.len());
                reveal_strlit("move_left");
                assert("text_select_all"@.len() != "move_left"@.len());
                reveal_strlit("move_right");
                assert("text_select_all"@.len() != "move_right"@.len());
                reveal_strlit("select_left");
                assert("text_select_all"@.len() != "select_left"@.len());
                reveal_strlit("select_right");
                assert("text_select_all"@.len() != "select_right"@.len());
            }
        },
        LauncherAction::Home => {
            assert(from_name_spec("home"@) == Some(LauncherAction::Home)) by {
                reveal_strlit("home");
                reveal_strlit("cursor_up");
                assert("home"@.len() != "cursor_up"@.len());
                reveal_strlit("cursor_down");
                assert("home"@.len() != "cursor_down"@.len());
                reveal_strlit("cursor_home");
                assert("home"@.len() != "cursor_home"@.len());
                reveal_strlit("cursor_end");
                assert("home"@.len() != "cursor_end"@.len());
                reveal_strlit("page_up");
                assert("home"@.len() != "page_up"@.len());
                reveal_strlit("page_down");
                assert("home"@.len() != "page_down"@.len());
                reveal_strlit("toggle_selection");
                assert("home"@.len() != "toggle_selection"@.len());
                reveal_strlit("select_all");
                assert("home"@.len() != "select_all"@.len());
                reveal_strlit("clear_selection");
                assert("home"@.len() != "clear_selection"@.len());
                reveal_strlit("submit");
                assert("home"@.len() != "submit"@.len());
                reveal_strlit("open_action_menu");
                assert("home"@.len() != "open_action_menu"@.len());
                reveal_strlit("dismiss");
                assert("home"@.len() != "dismiss"@.len());
                reveal_strlit("pop");
                assert("home"@.len() != "pop"@.len());
                reveal_strlit("backspace");
                assert("home"@.len() != "backspace"@.len());
                reveal_strlit("delete");
                assert("home"@.len() != "delete"@.len());
                reveal_strlit("move_left");
                assert("home"@.len() != "move_left"@.len());
                reveal_strlit("move_right");
                assert("home"@.len() != "move_right"@.len());
                reveal_strlit("select_left");
                assert("home"@.len() != "select_left"@.len());
                reveal_strlit("select_right");
                assert("home"@.len() != "select_right"@.len());
                reveal_strlit("text_select_all");
                assert("home"@.len() != "text_select_all"@.len());
            }
        },
        LauncherAction::End => {
            assert(from_name_spec("end"@) == Some(LauncherAction::End)) by {
                reveal_strlit("end");
                reveal_strlit("cursor_up");
                assert("end"@.len() != "cursor_up"@.len());
                reveal_strlit("cursor_down");
                assert("end"@.len() != "cursor_down"@.len());
                reveal_strlit("cursor_home");
                assert("end"@.len() != "cursor_home"@.len());
                reveal_strlit("cursor_end");
                assert("end"@.len() != "cursor_end"@.len());
                reveal_strlit("page_up");
                assert("end"@.len() != "page_up"@.len());
                reveal_strlit("page_down");
                assert("end"@.len() != "page_down"@.len());
                reveal_strlit("toggle_selection");
                assert("end"@.len() != "toggle_selection"@.len());
                reveal_strlit("select_all");
                assert("end"@.len() != "select_all"@.len());
                reveal_strlit("clear_selection");
                assert("end"@.len() != "clear_selection"@.len());
                reveal_strlit("submit");
                assert("end"@.len() != "submit"@.len());
                reveal_strlit("open_action_menu");
                assert("end"@.len() != "open_action_menu"@.len());
                reveal_strlit("dismiss");
                assert("end"@.len() != "dismiss"@.len());
                reveal_strlit("pop");
                assert("end"@[0] != "pop"@[0]);
                reveal_strlit("backspace");
                assert("end"@.len() != "backspace"@.len());
                reveal_strlit("delete");
                assert("end"@.len() != "delete"@.len());
                reveal_strlit("move_left");
                assert("end"@.len() != "move_left"@.len());
                reveal_strlit("move_right");
                assert("end"@.len() != "move_right"@.len());
                reveal_strlit("select_left");
                assert("end"@.len() != "select_left"@.len());
                reveal_strlit("select_right");
                assert("end"@.len() != "select_right"@.len());
                reveal_strlit("text_select_all");
                assert("end"@.len() != "text_select_all"@.len());
                reveal_strlit("home");
                assert("end"@.len() != "home"@.len());
            }
        },
        LauncherAction::Copy => {
            assert(from_name_spec("copy"@) == Some(LauncherAction::Copy)) by {
                reveal_strlit("copy");
                reveal_strlit("cursor_up");
                assert("copy"@.len() != "cursor_up"@.len());
                reveal_strlit("cursor_down");
                assert("copy"@.len() != "cursor_down"@.len());
                reveal_strlit("cursor_home");
                assert("copy"@.len() != "cursor_home"@.len());
                reveal_strlit("cursor_end");
                assert("copy"@.len() != "cursor_end"@.len());
                reveal_strlit("page_up");
                assert("copy"@.len() != "page_up"@.len());
                reveal_strlit("page_down");
                assert("copy"@.len() != "page_down"@.len());
                reveal_strlit("toggle_selection");
                assert("copy"@.len() != "toggle_selection"@.len());
                reveal_strlit("select_all");
                assert("copy"@.len() != "select_all"@.len());
                reveal_strlit("clear_selection");
                assert("copy"@.len() != "clear_selection"@.len());
                reveal_strlit("submit");
                assert("copy"@.len() != "submit"@.len());
                reveal_strlit("open_action_menu");
                assert("copy"@.len() != "open_action_menu"@.len());
                reveal_strlit("dismiss");
                assert("copy"@.len() != "dismiss"@.len());
                reveal_strlit("pop");
                assert("copy"@.len() != "pop"@.len());
                reveal_strlit("backspace");
                assert("copy"@.len() != "backspace"@.len());
                reveal_strlit("delete");
                assert("copy"@.len() != "delete"@.len());
                reveal_strlit("move_left");
                assert("copy"@.len() != "move_left"@.len());
                reveal_strlit("move_right");
                assert("copy"@.len() != "move_right"@.len());
                reveal_strlit("select_left");
                assert("copy"@.len() != "select_left"@.len());
                reveal_strlit("select_right");
                assert("copy"@.len() != "select_right"@.len());
                reveal_strlit("text_select_all");
                assert("copy"@.len() != "text_select_all"@.len());
                reveal_strlit("home");
                assert("copy"@[0] != "home"@[0]);
                reveal_strlit("end");
                assert("copy"@.len() != "end"@.len());
            }
        },
        LauncherAction::Paste => {
            assert(from_name_spec("paste"@) == Some(LauncherAction::Paste)) by {
                reveal_strlit("paste");
                reveal_strlit("cursor_up");
                assert("paste"@.len() != "cursor_up"@.len());
                reveal_strlit("cursor_down");
                assert("paste"@.len() != "cursor_down"@.len());
                reveal_strlit("cursor_home");
                assert("paste"@.len() != "cursor_home"@.len());
                reveal_strlit("cursor_end");
                assert("paste"@.len() != "cursor_end"@.len());
                reveal_strlit("page_up");
                assert("paste"@.len() != "page_up"@.len());
                reveal_strlit("page_down");
                assert("paste"@.len() != "page_down"@.len());
                reveal_strlit("toggle_selection");
                assert("paste"@.len() != "toggle_selection"@.len());
                reveal_strlit("select_all");
                assert("paste"@.len() != "select_all"@.len());
                reveal_strlit("clear_selection");
                assert("paste"@.len() != "clear_selection"@.len());
                reveal_strlit("submit");
                assert("paste"@.len() != "submit"@.len());
                reveal_strlit("open_action_menu");
                assert("paste"@.len() != "open_action_menu"@.len());
                reveal_strlit("dismiss");
                assert("paste"@.len() != "dismiss"@.len());
                reveal_strlit("pop");
                assert("paste"@.len() != "pop"@.len());
                reveal_strlit("backspace");
                assert("paste"@.len() != "backspace"@.len());
                reveal_strlit("delete");
                assert("paste"@.len() != "delete"@.len());
                reveal_strlit("move_left");
                assert("paste"@.len() != "move_left"@.len());
                reveal_strlit("move_right");
                assert("paste"@.len() != "move_right"@.len());
                reveal_strlit("select_left");
                assert("paste"@.len() != "select_left"@.len());
                reveal_strlit("select_right");
                assert("paste"@.len() != "select_right"@.len());
                reveal_strlit("text_select_all");
                assert("paste"@.len() != "text_select_all"@.len());
                reveal_strlit("home");
                assert("paste"@.len() != "home"@.len());
                reveal_strlit("end");
                assert("paste"@.len() != "end"@.len());
                reveal_strlit("copy");
                assert("paste"@.len() != "copy"@.len());
            }
        },
        LauncherAction::Cut => {
            assert(from_name_spec("cut"@) == Some(LauncherAction::Cut)) by {
                reveal_strlit("cut");
                reveal_strlit("cursor_up");
                assert("cut"@.len() != "cursor_up"@.len());
                reveal_strlit("cursor_down");
                assert("cut"@.len() != "cursor_down"@.len());
                reveal_strlit("cursor_home");
                assert("cut"@.len() != "cursor_home"@.len());
                reveal_strlit("cursor_end");
                assert("cut"@.len() != "cursor_end"@.len());
                reveal_strlit("page_up");
                assert("cut"@.len() != "page_up"@.len());
                reveal_strlit("page_down");
                assert("cut"@.len() != "page_down"@.len());
                reveal_strlit("toggle_selection");
                assert("cut"@.len() != "toggle_selection"@.len());
                reveal_strlit("select_all");
                assert("cut"@.len() != "select_all"@.len());
                reveal_strlit("clear_selection");
                assert("cut"@.len() != "clear_selection"@.len());
                reveal_strlit("submit");
                assert("cut"@.len() != "submit"@.len());
                reveal_strlit("open_action_menu");
                assert("cut"@.len() != "open_action_menu"@.len());
                reveal_strlit("dismiss");
                assert("cut"@.len() != "dismiss"@.len());
                reveal_strlit("pop");
                assert("cut"@[0] != "pop"@[0]);
                reveal_strlit("backspace");
                assert("cut"@.len() != "backspace"@.len());
                reveal_strlit("delete");
                assert("cut"@.len() != "delete"@.len());
                reveal_strlit("move_left");
                assert("cut"@.len() != "move_left"@.len());
                reveal_strlit("move_right");
                assert("cut"@.len() != "move_right"@.len());
                reveal_strlit("select_left");
                assert("cut"@.len() != "select_left"@.len());
                reveal_strlit("select_right");
                assert("cut"@.len() != "select_right"@.len());
                reveal_strlit("text_select_all");
                assert("cut"@.len() != "text_select_all"@.len());
                reveal_strlit("home");
                assert("cut"@.len() != "home"@.len());
                reveal_strlit("end");
                assert("cut"@[0] != "end"@[0]);
                reveal_strlit("copy");
                assert("cut"@.len() != "copy"@.len());
                reveal_strlit("paste");
                assert("cut"@.len() != "paste"@.len());
            }
        },
    }
}

/// Where an action stands in the list of all actions.
pub open spec fn action_index(a: LauncherAction) -> int {
    match a {
        LauncherAction::CursorUp => 0,
        LauncherAction::CursorDown => 1,
        LauncherAction::CursorHome => 2,
        LauncherAction::CursorEnd => 3,
        LauncherAction::PageUp => 4,
        LauncherAction::PageDown => 5,
        LauncherAction::ToggleSelection => 6,
        LauncherAction::SelectAll => 7,
        LauncherAction::ClearSelection => 8,
        LauncherAction::Submit => 9,
        LauncherAction::OpenActionMenu => 10,
        LauncherAction::Dismiss => 11,
        LauncherAction::Pop => 12,
        LauncherAction::Backspace => 13,
        LauncherAction::Delete => 14,
        LauncherAction::MoveLeft => 15,
        LauncherAction::MoveRight => 16,
        LauncherAction::SelectLeft => 17,
        LauncherAction::SelectRight => 18,
        LauncherAction::TextSelectAll => 19,
        LauncherAction::Home => 20,
        LauncherAction::End => 21,
        LauncherAction::Copy => 22,
        LauncherAction::Paste => 23,
        LauncherAction::Cut => 24,
    }
}

/// Every action's name is available, and looking an available name up gives
/// that action back: `action_from_name` and `available_actions` agree.
pub proof fn law_available_actions_resolve(a: LauncherAction)
    ensures
        all_actions().contains(a),
        from_name_spec(a.name_spec()) == Some(a),
{
    lemma_name_round_trip(a);
    assert(all_actions()[action_index(a)] == a);
}

/// The position of each listed action is its index.
proof fn lemma_index_of_listed(i: int)
    requires
        0 <= i < all_actions().len(),
    ensures
        action_index(all_actions()[i]) == i,
{
    assert(action_index(all_actions()[0]) == 0);
    assert(action_index(all_actions()[1]) == 1);
    assert(action_index(all_actions()[2]) == 2);
    assert(action_index(all_actions()[3]) == 3);
    assert(action_index(all_actions()[4]) == 4);
    assert(action_index(all_actions()[5]) == 5);
    assert(action_index(all_actions()[6]) == 6);
    assert(action_index(all_actions()[7]) == 7);
    assert(action_index(all_actions()[8]) == 8);
    assert(action_index(all_actions()[9]) == 9);
    assert(action_index(all_actions()[10]) == 10);
    assert(action_index(all_actions()[11]) == 11);
    assert(action_index(all_actions()[12]) == 12);
    assert(action_index(all_actions()[13]) == 13);
    assert(action_index(all_actions()[14]) == 14);
    assert(action_index(all_actions()[15]) == 15);
    assert(action_index(all_actions()[16]) == 16);
    assert(action_index(all_actions()[17]) == 17);
    assert(action_index(all_actions()[18]) == 18);
    assert(action_index(all_actions()[19]) == 19);
    assert(action_index(all_actions()[20]) == 20);
    assert(action_index(all_actions()[21]) == 21);
    assert(action_index(all_actions()[22]) == 22);
    assert(action_index(all_actions()[23]) == 23);
    assert(action_index(all_actions()[24]) == 24);
}

/// The names of all actions, in the order `available_actions` lists them.
pub open spec fn available_names() -> Seq<Seq<char>> {
    all_actions().map_values(|a: LauncherAction| a.name_spec())
}

/// The available actions are exactly the names that `action_from_name`
/// accepts: there are 25 of them, no name is listed twice, and a text is
/// listed exactly when looking it up finds an action.
pub proof fn law_available_names(name: Seq<char>)
    ensures
        available_names().len() == 25,
        available_names().no_duplicates(),
        available_names().contains(name) <==> from_name_spec(name) is Some,
{
    let names = available_names();
    assert forall|i: int, j: int| 0 <= i < names.len() && 0 <= j < names.len() && i != j implies names[i] != names[j] by {
        let a = all_actions()[i];
        let b = all_actions()[j];
        lemma_index_of_listed(i);
        lemma_index_of_listed(j);
        if a.name_spec() == b.name_spec() {
            lemma_name_round_trip(a);
            lemma_name_round_trip(b);
        }
    }
    if names.contains(name) {
        let i = choose|i: int| 0 <= i < names.len() && names[i] == name;
        lemma_name_round_trip(all_actions()[i]);
    }
    if from_name_spec(name) is Some {
        let a = from_name_spec(name)->0;
        assert(name == a.name_spec());
        law_available_actions_resolve(a);
        assert(all_actions()[action_index(a)] == a);
        assert(names[action_index(a)] == name);
    }
}

/// Different actions have different names.
pub proof fn law_names_distinct(a: LauncherAction, b: LauncherAction)
    requires
        a != b,
    ensures
        a.name_spec() != b.name_spec(),
{
    lemma_name_round_trip(a);
    lemma_name_round_trip(b);
}

} // verus!
