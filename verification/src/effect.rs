//! Effects: what a Lua callback asks the engine to do. Callbacks collect
//! effects; the engine applies them afterwards in one place.

use vstd::prelude::*;

use crate::item::Group;
use crate::json::{json_is_null, json_null};
use crate::selection::SelectionMode;

verus! {

/// The description of a view to push or replace.
#[derive(Debug)]
pub struct ViewSpec {
    /// Stable view identifier.
    pub id: Option<String>,
    /// View title.
    pub title: Option<String>,
    /// Search placeholder.
    pub placeholder: Option<String>,
    /// Registry key of the source function.
    pub source_fn_key: String,
    /// Registry key of the get_actions function.
    pub get_actions_fn_key: Option<String>,
    /// Selection mode.
    pub selection_mode: SelectionMode,
    /// Registry key of the on_select function.
    pub on_select_fn_key: Option<String>,
    /// Registry key of the on_submit function.
    pub on_submit_fn_key: Option<String>,
    /// Data available to source and actions.
    pub view_data: serde_json::Value,
    /// Lua registry keys to clean up when the view leaves the stack.
    pub registry_keys: Vec<String>,
}

impl ViewSpec {
    /// A view spec with only a source function; single selection, no hooks.
    pub fn new(source_fn_key: String) -> (r: Self)
        ensures
            r.source_fn_key@ == source_fn_key@,
            r.id is None,
            r.title is None,
            r.placeholder is None,
            r.get_actions_fn_key is None,
            r.selection_mode == SelectionMode::Single,
            r.on_select_fn_key is None,
            r.on_submit_fn_key is None,
            json_is_null(r.view_data),
            r.registry_keys@.len() == 0,
    {
        ViewSpec {
            id: None,
            title: None,
            placeholder: None,
            source_fn_key,
            get_actions_fn_key: None,
            selection_mode: SelectionMode::Single,
            on_select_fn_key: None,
            on_submit_fn_key: None,
            view_data: json_null(),
            registry_keys: Vec::new(),
        }
    }
}

/// An effect requested by a Lua callback.
#[derive(Debug)]
pub enum Effect {
    /// Set the grouped results.
    SetGroups(Vec<Group>),
    /// Push a new view onto the stack.
    PushView(ViewSpec),
    /// Replace the current view.
    ReplaceView(ViewSpec),
    /// Pop the current view.
    Pop,
    /// Dismiss the launcher.
    Dismiss,
    /// Report progress of a long-running operation.
    Progress(String),
    /// The action completed.
    Complete { message: String },
    /// The action failed.
    Fail { error: String },
    /// Show a notification (does not dismiss).
    Notify(String),
    /// Change the loading state.
    SetLoading(bool),
    /// Select items by id.
    Select(Vec<String>),
    /// Deselect items by id.
    Deselect(Vec<String>),
    /// Clear the selection.
    ClearSelection,
}

/// Collects effects in the order they were requested.
#[derive(Debug)]
pub struct EffectCollector {
    effects: Vec<Effect>,
}

impl EffectCollector {
    /// The effects collected so far.
    pub closed spec fn effects(&self) -> Seq<Effect> {
        self.effects@
    }

    /// An empty collector.
    pub fn new() -> (r: Self)
        ensures
            r.effects().len() == 0,
    {
        EffectCollector { effects: Vec::new() }
    }

    /// Record an effect.
    pub fn push(&mut self, effect: Effect)
        ensures
            final(self).effects() == old(self).effects().push(effect),
    {
        self.effects.push(effect);
    }

    /// Take the collected effects, leaving the collector empty.
    pub fn take(&mut self) -> (r: Vec<Effect>)
        ensures
            r@ == old(self).effects(),
            final(self).effects().len() == 0,
    {
        let mut out: Vec<Effect> = Vec::new();
        std::mem::swap(&mut out, &mut self.effects);
        out
    }

    /// The number of collected effects.
    pub fn len(&self) -> (r: usize)
        ensures
            r == self.effects().len(),
    {
        self.effects.len()
    }
}

impl Default for EffectCollector {
    fn default() -> (r: Self)
        ensures
            r.effects().len() == 0,
    {
        Self::new()
    }
}

} // verus!
