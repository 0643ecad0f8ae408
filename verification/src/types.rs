//! Core types of the plugin API: function references, views, view instances
//! and the view state shown by the frontend.

use vstd::prelude::*;
use vstd::view::View as ModelView;

use crate::item::{clone_opt_string, opt_view};
use crate::json::clone_json;
use crate::selection::SelectionMode;

verus! {

/// A reference to a Lua function stored in the Lua registry under a string key.
#[derive(Debug)]
pub struct LuaFunctionRef {
    /// The key used to look up this function in Lua's named registry.
    pub key: String,
}

impl Clone for LuaFunctionRef {
    fn clone(&self) -> (r: Self)
        ensures
            r == *self,
    {
        LuaFunctionRef { key: self.key.clone() }
    }
}

impl LuaFunctionRef {
    /// Create a new function reference with a key.
    pub fn new(key: String) -> (r: Self)
        ensures
            r.key == key,
    {
        LuaFunctionRef { key }
    }
}

/// The key of an optional function reference.
pub open spec fn opt_key(f: Option<LuaFunctionRef>) -> Option<Seq<char>> {
    match f {
        Some(r) => Some(r.key@),
        None => None,
    }
}

/// Copies an optional function reference.
pub fn clone_opt_fn(f: &Option<LuaFunctionRef>) -> (r: Option<LuaFunctionRef>)
    ensures
        r == *f,
{
    match f {
        Some(x) => Some(x.clone()),
        None => None,
    }
}

/// A view is a search context with source, selection, and submission handling.
#[derive(Debug)]
pub struct View {
    /// Stable view identifier (keybindings, logging).
    pub id: Option<String>,
    /// Displayed in view header.
    pub title: Option<String>,
    /// Hint text in search input.
    pub placeholder: Option<String>,
    /// Source function: `source(ctx) -> Groups`.
    pub source_fn: LuaFunctionRef,
    /// Get actions function: `get_actions(item, ctx) -> Actions`.
    pub get_actions_fn: Option<LuaFunctionRef>,
    /// Selection mode.
    pub selection: SelectionMode,
    /// Custom selection hook: `on_select(ctx)`.
    pub on_select_fn: Option<LuaFunctionRef>,
    /// Submission hook: `on_submit(ctx)`.
    pub on_submit_fn: Option<LuaFunctionRef>,
    /// Data available to source and actions.
    pub view_data: serde_json::Value,
}

/// A view instance in the view stack: the view and the Lua registry keys to
/// clean up when it leaves the stack.
#[derive(Debug)]
pub struct ViewInstance {
    /// The view definition.
    pub view: View,
    /// Lua registry keys to clean up when this view is popped.
    pub registry_keys: Vec<String>,
}

impl ViewInstance {
    /// Create a new view instance.
    pub fn new(view: View) -> (r: Self)
        ensures
            r.view == view,
            r.registry_keys@.len() == 0,
    {
        ViewInstance { view, registry_keys: Vec::new() }
    }

    /// Create a new view instance with registry keys for cleanup.
    pub fn with_registry_keys(view: View, registry_keys: Vec<String>) -> (r: Self)
        ensures
            r.view == view,
            r.registry_keys == registry_keys,
    {
        ViewInstance { view, registry_keys }
    }
}

/// View configuration state sent to the frontend: id, title, placeholder and
/// selection mode. Cursor, selection and query are owned by the UI.
#[derive(Debug, PartialEq)]
pub struct ViewState {
    /// View identifier.
    pub id: Option<String>,
    /// View title.
    pub title: Option<String>,
    /// Search placeholder.
    pub placeholder: Option<String>,
    /// Selection mode.
    pub selection: SelectionMode,
}

/// The abstract content of a view state.
pub struct ViewStateView {
    pub id: Option<Seq<char>>,
    pub title: Option<Seq<char>>,
    pub placeholder: Option<Seq<char>>,
    pub selection: SelectionMode,
}

impl ModelView for ViewState {
    type V = ViewStateView;

    open spec fn view(&self) -> ViewStateView {
        ViewStateView {
            id: opt_view(self.id),
            title: opt_view(self.title),
            placeholder: opt_view(self.placeholder),
            selection: self.selection,
        }
    }
}

/// The state the frontend sees of a view.
pub open spec fn state_of(v: View) -> ViewStateView {
    ViewStateView {
        id: opt_view(v.id),
        title: opt_view(v.title),
        placeholder: opt_view(v.placeholder),
        selection: v.selection,
    }
}

impl Clone for ViewState {
    fn clone(&self) -> (r: Self)
        ensures
            r@ == self@,
    {
        ViewState {
            id: clone_opt_string(&self.id),
            title: clone_opt_string(&self.title),
            placeholder: clone_opt_string(&self.placeholder),
            selection: self.selection,
        }
    }
}

impl ViewState {
    /// The state of a view instance.
    pub fn from_instance(instance: &ViewInstance) -> (r: Self)
        ensures
            r@ == state_of(instance.view),
    {
        ViewState {
            id: clone_opt_string(&instance.view.id),
            title: clone_opt_string(&instance.view.title),
            placeholder: clone_opt_string(&instance.view.placeholder),
            selection: instance.view.selection,
        }
    }
}

impl View {
    /// Copies a view.
    pub fn duplicate(&self) -> (r: Self)
        ensures
            state_of(r) == state_of(*self),
            r.source_fn.key@ == self.source_fn.key@,
            opt_key(r.get_actions_fn) == opt_key(self.get_actions_fn),
            opt_key(r.on_select_fn) == opt_key(self.on_select_fn),
            opt_key(r.on_submit_fn) == opt_key(self.on_submit_fn),
            r.view_data == self.view_data,
    {
        View {
            id: clone_opt_string(&self.id),
            title: clone_opt_string(&self.title),
            placeholder: clone_opt_string(&self.placeholder),
            source_fn: self.source_fn.clone(),
            get_actions_fn: clone_opt_fn(&self.get_actions_fn),
            selection: self.selection,
            on_select_fn: clone_opt_fn(&self.on_select_fn),
            on_submit_fn: clone_opt_fn(&self.on_submit_fn),
            view_data: clone_json(&self.view_data),
        }
    }
}

} // verus!
