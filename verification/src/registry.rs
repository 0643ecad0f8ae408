//! Plugin registry: the custom root view and the keymap, view and hook registries.

use vstd::prelude::*;

use crate::hooks::{HookInfo, HookRegistry};
use crate::keymap::KeymapRegistry;
use crate::types::View;
use crate::views::ViewRegistry;

verus! {

/// The plugin registry stores the root view and the sub-registries.
pub struct PluginRegistry {
    root_view: Option<View>,
    keymap: KeymapRegistry,
    view_registry: ViewRegistry,
    hook_registry: HookRegistry,
}

impl PluginRegistry {
    /// The custom root view, if one was set.
    pub closed spec fn root(&self) -> Option<View> {
        self.root_view
    }

    /// The keymap registry.
    pub closed spec fn keymap_state(&self) -> KeymapRegistry {
        self.keymap
    }

    /// The view registry.
    pub closed spec fn views_state(&self) -> ViewRegistry {
        self.view_registry
    }

    /// The hook registry.
    pub closed spec fn hooks_state(&self) -> HookRegistry {
        self.hook_registry
    }

    /// The sub-registries' invariants.
    pub open spec fn wf(&self) -> bool {
        self.keymap_state().wf() && self.views_state().wf()
    }

    /// Create a new empty registry.
    pub fn new() -> (r: Self)
        ensures
            r.wf(),
            r.root() is None,
            r.keymap_state().bindings().len() == 0,
            r.keymap_state().hotkeys().len() == 0,
            r.keymap_state().handlers().len() == 0,
            r.views_state().views().len() == 0,
            r.hooks_state().hooks() == Seq::<HookInfo>::empty(),
            r.hooks_state().next_number() == 0,
    {
        PluginRegistry {
            root_view: None,
            keymap: KeymapRegistry::new(),
            view_registry: ViewRegistry::new(),
            hook_registry: HookRegistry::new(),
        }
    }

    /// Get the keymap registry.
    pub fn keymap(&self) -> (r: &KeymapRegistry)
        ensures
            *r == self.keymap_state(),
    {
        &self.keymap
    }

    /// Get the keymap registry for modification.
    pub fn keymap_mut(&mut self) -> (r: &mut KeymapRegistry)
        ensures
            *r == old(self).keymap_state(),
            final(self).keymap_state() == *final(r),
            final(self).root() == old(self).root(),
            final(self).views_state() == old(self).views_state(),
            final(self).hooks_state() == old(self).hooks_state(),
    {
        &mut self.keymap
    }

    /// Get the view registry.
    pub fn views(&self) -> (r: &ViewRegistry)
        ensures
            *r == self.views_state(),
    {
        &self.view_registry
    }

    /// Get the view registry for modification.
    pub fn views_mut(&mut self) -> (r: &mut ViewRegistry)
        ensures
            *r == old(self).views_state(),
            final(self).views_state() == *final(r),
            final(self).root() == old(self).root(),
            final(self).keymap_state() == old(self).keymap_state(),
            final(self).hooks_state() == old(self).hooks_state(),
    {
        &mut self.view_registry
    }

    /// Get the hook registry.
    pub fn hooks(&self) -> (r: &HookRegistry)
        ensures
            *r == self.hooks_state(),
    {
        &self.hook_registry
    }

    /// Get the hook registry for modification.
    pub fn hooks_mut(&mut self) -> (r: &mut HookRegistry)
        ensures
            *r == old(self).hooks_state(),
            final(self).hooks_state() == *final(r),
            final(self).root() == old(self).root(),
            final(self).keymap_state() == old(self).keymap_state(),
            final(self).views_state() == old(self).views_state(),
    {
        &mut self.hook_registry
    }

    /// Set a custom root view, replacing any earlier one.
    pub fn set_root_view(&mut self, view: View)
        ensures
            final(self).root() == Some(view),
            final(self).keymap_state() == old(self).keymap_state(),
            final(self).views_state() == old(self).views_state(),
            final(self).hooks_state() == old(self).hooks_state(),
    {
        self.root_view = Some(view);
    }

    /// Take the root view, leaving none.
    pub fn take_root_view(&mut self) -> (r: Option<View>)
        ensures
            r == old(self).root(),
            final(self).root() is None,
            final(self).keymap_state() == old(self).keymap_state(),
            final(self).views_state() == old(self).views_state(),
            final(self).hooks_state() == old(self).hooks_state(),
    {
        self.root_view.take()
    }

    /// Check if a custom root view was set.
    pub fn has_root_view(&self) -> (r: bool)
        ensures
            r == self.root() is Some,
    {
        self.root_view.is_some()
    }
}

impl Default for PluginRegistry {
    fn default() -> (r: Self)
        ensures
            r.wf(),
            r.root() is None,
    {
        Self::new()
    }
}

} // verus!
