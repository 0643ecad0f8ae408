//! Action-related types.

use vstd::prelude::*;

use crate::item::Group;

verus! {

/// Information about an available action.
#[derive(Debug)]
pub struct ActionInfo {
    /// Plugin that provides this action.
    pub plugin_name: String,
    /// Index of the action within the plugin.
    pub action_index: usize,
    /// Unique identifier for the action.
    pub id: String,
    /// Display text in action list.
    pub title: String,
    /// Icon identifier.
    pub icon: Option<String>,
}

/// A follow-up action shown after completion.
#[derive(Debug)]
pub struct FollowUpAction {
    pub title: String,
    pub icon: Option<String>,
}

/// Result returned by action execution.
#[derive(Debug)]
pub enum ActionResult {
    /// Close Lux entirely.
    Dismiss,
    /// Push a new view onto the stack.
    PushView { title: Option<String>, query: Option<String> },
    /// Replace current view.
    ReplaceView { title: Option<String> },
    /// Pop current view, return to previous.
    Pop,
    /// Keep launcher open, continue.
    Continue,
    /// Show progress message.
    Progress { message: String },
    /// Action completed successfully.
    Complete { message: String, actions: Vec<FollowUpAction> },
    /// Action failed.
    Fail { error: String },
    /// New results to show (e.g. a keybinding handler updating results).
    UpdateResults { groups: Vec<Group> },
}

} // verus!
