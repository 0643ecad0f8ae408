//! Contexts handed to Lua callbacks. Each context offers only the effects that
//! its callback may request:
//!
//! | Callback | Context | Effects |
//! |----------|---------|---------|
//! | `trigger.run` | TriggerContext | set_groups, push_view, replace_view, dismiss |
//! | `source.search` | SourceContext | set_groups |
//! | `action.run` | ActionContext | push_view, replace_view, pop, dismiss, progress, complete, fail |
//! | `view.on_select` | SelectContext | select, deselect, clear_selection |
//! | `view.on_submit` | SubmitContext | push_view, replace_view, pop, dismiss |

use vstd::prelude::*;

use crate::effect::{Effect, EffectCollector, ViewSpec};
use crate::item::{Group, Item};
use crate::text::{owned, str_equal};

verus! {

/// Context for trigger.run callbacks.
pub struct TriggerContext<'a> {
    query: &'a str,
    args: &'a str,
    effects: EffectCollector,
}

impl<'a> TriggerContext<'a> {
    /// The effects requested so far.
    pub closed spec fn effects(&self) -> Seq<Effect> {
        self.effects.effects()
    }

    /// The query.
    pub closed spec fn query_spec(&self) -> Seq<char> {
        self.query@
    }

    /// The arguments.
    pub closed spec fn args_spec(&self) -> Seq<char> {
        self.args@
    }

    /// Create a new trigger context that adds to the given collector.
    pub fn new(query: &'a str, args: &'a str, effects: EffectCollector) -> (r: Self)
        ensures
            r.query_spec() == query@,
            r.args_spec() == args@,
            r.effects() == effects.effects(),
    {
        TriggerContext { query, args, effects }
    }

    /// Get the query string.
    pub fn query(&self) -> (r: &str)
        ensures
            r@ == self.query_spec(),
    {
        self.query
    }

    /// Get the arguments (portion after trigger prefix).
    pub fn args(&self) -> (r: &str)
        ensures
            r@ == self.args_spec(),
    {
        self.args
    }

    /// Set grouped results.
    pub fn set_groups(&mut self, groups: Vec<Group>)
        ensures
            final(self).effects() == old(self).effects().push(Effect::SetGroups(groups)),
            final(self).query_spec() == old(self).query_spec(),
            final(self).args_spec() == old(self).args_spec(),
    {
        self.effects.push(Effect::SetGroups(groups));
    }

    /// Push a new view onto the stack.
    pub fn push_view(&mut self, spec: ViewSpec)
        ensures
            final(self).effects() == old(self).effects().push(Effect::PushView(spec)),
            final(self).query_spec() == old(self).query_spec(),
            final(self).args_spec() == old(self).args_spec(),
    {
        self.effects.push(Effect::PushView(spec));
    }

    /// Replace the current view.
    pub fn replace_view(&mut self, spec: ViewSpec)
        ensures
            final(self).effects() == old(self).effects().push(Effect::ReplaceView(spec)),
            final(self).query_spec() == old(self).query_spec(),
            final(self).args_spec() == old(self).args_spec(),
    {
        self.effects.push(Effect::ReplaceView(spec));
    }

    /// Dismiss the launcher.
    pub fn dismiss(&mut self)
        ensures
            final(self).effects() == old(self).effects().push(Effect::Dismiss),
            final(self).query_spec() == old(self).query_spec(),
            final(self).args_spec() == old(self).args_spec(),
    {
        self.effects.push(Effect::Dismiss);
    }

    /// Hand back the collector with the requested effects.
    pub fn finish(self) -> (r: EffectCollector)
        ensures
            r.effects() == self.effects(),
    {
        self.effects
    }
}

/// Context for source.search callbacks.
pub struct SourceContext<'a> {
    query: &'a str,
    view_data: &'a serde_json::Value,
    effects: EffectCollector,
}

impl<'a> SourceContext<'a> {
    /// The effects requested so far.
    pub closed spec fn effects(&self) -> Seq<Effect> {
        self.effects.effects()
    }

    /// The query.
    pub closed spec fn query_spec(&self) -> Seq<char> {
        self.query@
    }

    /// The view data.
    pub closed spec fn view_data_spec(&self) -> serde_json::Value {
        *self.view_data
    }

    /// Create a new source context.
    pub fn new(query: &'a str, view_data: &'a serde_json::Value, effects: EffectCollector) -> (r: Self)
        ensures
            r.query_spec() == query@,
            r.view_data_spec() == *view_data,
            r.effects() == effects.effects(),
    {
        SourceContext { query, view_data, effects }
    }

    /// Get the query string.
    pub fn query(&self) -> (r: &str)
        ensures
            r@ == self.query_spec(),
    {
        self.query
    }

    /// Get the view data.
    pub fn view_data(&self) -> (r: &serde_json::Value)
        ensures
            *r == self.view_data_spec(),
    {
        self.view_data
    }

    /// Set grouped results.
    pub fn set_groups(&mut self, groups: Vec<Group>)
        ensures
            final(self).effects() == old(self).effects().push(Effect::SetGroups(groups)),
            final(self).query_spec() == old(self).query_spec(),
    {
        self.effects.push(Effect::SetGroups(groups));
    }

    /// Hand back the collector with the requested effects.
    pub fn finish(self) -> (r: EffectCollector)
        ensures
            r.effects() == self.effects(),
    {
        self.effects
    }
}

/// Context for action.run callbacks.
pub struct ActionContext<'a> {
    items: &'a [Item],
    view_data: &'a serde_json::Value,
    effects: EffectCollector,
}

impl<'a> ActionContext<'a> {
    /// The effects requested so far.
    pub closed spec fn effects(&self) -> Seq<Effect> {
        self.effects.effects()
    }

    /// The items acted upon.
    pub closed spec fn items_spec(&self) -> Seq<Item> {
        self.items@
    }

    /// The view data.
    pub closed spec fn view_data_spec(&self) -> serde_json::Value {
        *self.view_data
    }

    /// Create a new action context.
    pub fn new(items: &'a [Item], view_data: &'a serde_json::Value, effects: EffectCollector) -> (r: Self)
        ensures
            r.items_spec() == items@,
            r.view_data_spec() == *view_data,
            r.effects() == effects.effects(),
    {
        ActionContext { items, view_data, effects }
    }

    /// Get the items the action is operating on.
    pub fn items(&self) -> (r: &[Item])
        ensures
            r@ == self.items_spec(),
    {
        self.items
    }

    /// Get the first item.
    pub fn item(&self) -> (r: Option<&Item>)
        ensures
            r == (if self.items_spec().len() > 0 { Some(&self.items_spec()[0]) } else { None }),
    {
        if self.items.len() > 0 {
            Some(&self.items[0])
        } else {
            None
        }
    }

    /// Get the view data.
    pub fn view_data(&self) -> (r: &serde_json::Value)
        ensures
            *r == self.view_data_spec(),
    {
        self.view_data
    }

    /// Push a new view onto the stack.
    pub fn push_view(&mut self, spec: ViewSpec)
        ensures
            final(self).effects() == old(self).effects().push(Effect::PushView(spec)),
            final(self).items_spec() == old(self).items_spec(),
    {
        self.effects.push(Effect::PushView(spec));
    }

    /// Replace the current view.
    pub fn replace_view(&mut self, spec: ViewSpec)
        ensures
            final(self).effects() == old(self).effects().push(Effect::ReplaceView(spec)),
            final(self).items_spec() == old(self).items_spec(),
    {
        self.effects.push(Effect::ReplaceView(spec));
    }

    /// Pop the current view.
    pub fn pop(&mut self)
        ensures
            final(self).effects() == old(self).effects().push(Effect::Pop),
            final(self).items_spec() == old(self).items_spec(),
    {
        self.effects.push(Effect::Pop);
    }

    /// Dismiss the launcher.
    pub fn dismiss(&mut self)
        ensures
            final(self).effects() == old(self).effects().push(Effect::Dismiss),
            final(self).items_spec() == old(self).items_spec(),
    {
        self.effects.push(Effect::Dismiss);
    }

    /// Report progress for a long-running operation.
    pub fn progress(&mut self, message: &str)
        ensures
            final(self).effects().len() == old(self).effects().len() + 1,
            final(self).effects().take(old(self).effects().len() as int) == old(self).effects(),
            final(self).effects().last() matches Effect::Progress(m) && m@ == message@,
            final(self).items_spec() == old(self).items_spec(),
    {
        self.effects.push(Effect::Progress(owned(message)));
        proof {
            assert(self.effects().take(old(self).effects().len() as int) =~= old(self).effects());
        }
    }

    /// Mark the action as complete.
    pub fn complete(&mut self, message: &str)
        ensures
            final(self).effects().len() == old(self).effects().len() + 1,
            final(self).effects().take(old(self).effects().len() as int) == old(self).effects(),
            final(self).effects().last() matches Effect::Complete { message: m } && m@ == message@,
            final(self).items_spec() == old(self).items_spec(),
    {
        self.effects.push(Effect::Complete { message: owned(message) });
        proof {
            assert(self.effects().take(old(self).effects().len() as int) =~= old(self).effects());
        }
    }

    /// Mark the action as failed.
    pub fn fail(&mut self, error: &str)
        ensures
            final(self).effects().len() == old(self).effects().len() + 1,
            final(self).effects().take(old(self).effects().len() as int) == old(self).effects(),
            final(self).effects().last() matches Effect::Fail { error: m } && m@ == error@,
            final(self).items_spec() == old(self).items_spec(),
    {
        self.effects.push(Effect::Fail { error: owned(error) });
        proof {
            assert(self.effects().take(old(self).effects().len() as int) =~= old(self).effects());
        }
    }

    /// Hand back the collector with the requested effects.
    pub fn finish(self) -> (r: EffectCollector)
        ensures
            r.effects() == self.effects(),
    {
        self.effects
    }
}

/// Context for view.on_select callbacks.
pub struct SelectContext<'a> {
    item: &'a Item,
    view_data: &'a serde_json::Value,
    current_selection: &'a [String],
    effects: EffectCollector,
}

impl<'a> SelectContext<'a> {
    /// The effects requested so far.
    pub closed spec fn effects(&self) -> Seq<Effect> {
        self.effects.effects()
    }

    /// The ids selected when the callback started.
    pub closed spec fn selection_spec(&self) -> Seq<String> {
        self.current_selection@
    }

    /// The item that was selected.
    pub closed spec fn item_spec(&self) -> Item {
        *self.item
    }

    /// The view data.
    pub closed spec fn view_data_spec(&self) -> serde_json::Value {
        *self.view_data
    }

    /// Create a new select context.
    pub fn new(item: &'a Item, view_data: &'a serde_json::Value, current_selection: &'a [String], effects: EffectCollector) -> (r: Self)
        ensures
            r.item_spec() == *item,
            r.view_data_spec() == *view_data,
            r.selection_spec() == current_selection@,
            r.effects() == effects.effects(),
    {
        SelectContext { item, view_data, current_selection, effects }
    }

    /// Get the item that was selected.
    pub fn item(&self) -> (r: &Item)
        ensures
            *r == self.item_spec(),
    {
        self.item
    }

    /// Get the view data.
    pub fn view_data(&self) -> (r: &serde_json::Value)
        ensures
            *r == self.view_data_spec(),
    {
        self.view_data
    }

    /// Check if an item is currently selected.
    pub fn is_selected(&self, id: &str) -> (r: bool)
        ensures
            r == exists|i: int| 0 <= i < self.selection_spec().len() && (#[trigger] self.selection_spec()[i])@ == id@,
    {
        let mut i: usize = 0;
        while i < self.current_selection.len()
            invariant
                0 <= i <= self.current_selection@.len(),
                forall|j: int| 0 <= j < i ==> (#[trigger] self.current_selection@[j])@ != id@,
            decreases self.current_selection@.len() - i,
        {
            if str_equal(self.current_selection[i].as_str(), id) {
                proof {
                    assert(self.selection_spec()[i as int]@ == id@);
                }
                return true;
            }
            i = i + 1;
        }
        false
    }

    /// Get the current selection as a vector of IDs.
    pub fn get_selection(&self) -> (r: Vec<String>)
        ensures
            r@ == self.selection_spec(),
    {
        let mut out: Vec<String> = Vec::new();
        let mut i: usize = 0;
        while i < self.current_selection.len()
            invariant
                0 <= i <= self.current_selection@.len(),
                out@ == self.current_selection@.take(i as int),
            decreases self.current_selection@.len() - i,
        {
            out.push(self.current_selection[i].clone());
            proof {
                assert(out@ =~= self.current_selection@.take(i as int + 1));
            }
            i = i + 1;
        }
        proof {
            assert(self.current_selection@.take(self.current_selection@.len() as int) =~= self.current_selection@);
        }
        out
    }

    /// Select an item by ID.
    pub fn select(&mut self, id: &str)
        ensures
            final(self).effects().len() == old(self).effects().len() + 1,
            final(self).effects().take(old(self).effects().len() as int) == old(self).effects(),
            final(self).effects().last() matches Effect::Select(ids) && ids@.len() == 1 && ids@[0]@ == id@,
            final(self).selection_spec() == old(self).selection_spec(),
    {
        let mut ids: Vec<String> = Vec::new();
        ids.push(owned(id));
        self.effects.push(Effect::Select(ids));
        proof {
            assert(self.effects().take(old(self).effects().len() as int) =~= old(self).effects());
        }
    }

    /// Deselect an item by ID.
    pub fn deselect(&mut self, id: &str)
        ensures
            final(self).effects().len() == old(self).effects().len() + 1,
            final(self).effects().take(old(self).effects().len() as int) == old(self).effects(),
            final(self).effects().last() matches Effect::Deselect(ids) && ids@.len() == 1 && ids@[0]@ == id@,
            final(self).selection_spec() == old(self).selection_spec(),
    {
        let mut ids: Vec<String> = Vec::new();
        ids.push(owned(id));
        self.effects.push(Effect::Deselect(ids));
        proof {
            assert(self.effects().take(old(self).effects().len() as int) =~= old(self).effects());
        }
    }

    /// Clear all selection.
    pub fn clear_selection(&mut self)
        ensures
            final(self).effects() == old(self).effects().push(Effect::ClearSelection),
            final(self).selection_spec() == old(self).selection_spec(),
    {
        self.effects.push(Effect::ClearSelection);
    }

    /// Hand back the collector with the requested effects.
    pub fn finish(self) -> (r: EffectCollector)
        ensures
            r.effects() == self.effects(),
    {
        self.effects
    }
}

/// Context for view.on_submit callbacks.
pub struct SubmitContext<'a> {
    query: &'a str,
    view_data: &'a serde_json::Value,
    effects: EffectCollector,
}

impl<'a> SubmitContext<'a> {
    /// The effects requested so far.
    pub closed spec fn effects(&self) -> Seq<Effect> {
        self.effects.effects()
    }

    /// The query.
    pub closed spec fn query_spec(&self) -> Seq<char> {
        self.query@
    }

    /// The view data.
    pub closed spec fn view_data_spec(&self) -> serde_json::Value {
        *self.view_data
    }

    /// Create a new submit context.
    pub fn new(query: &'a str, view_data: &'a serde_json::Value, effects: EffectCollector) -> (r: Self)
        ensures
            r.query_spec() == query@,
            r.view_data_spec() == *view_data,
            r.effects() == effects.effects(),
    {
        SubmitContext { query, view_data, effects }
    }

    /// Get the current query.
    pub fn query(&self) -> (r: &str)
        ensures
            r@ == self.query_spec(),
    {
        self.query
    }

    /// Get the view data.
    pub fn view_data(&self) -> (r: &serde_json::Value)
        ensures
            *r == self.view_data_spec(),
    {
        self.view_data
    }

    /// Push a new view onto the stack.
    pub fn push_view(&mut self, spec: ViewSpec)
        ensures
            final(self).effects() == old(self).effects().push(Effect::PushView(spec)),
            final(self).query_spec() == old(self).query_spec(),
    {
        self.effects.push(Effect::PushView(spec));
    }

    /// Replace the current view.
    pub fn replace_view(&mut self, spec: ViewSpec)
        ensures
            final(self).effects() == old(self).effects().push(Effect::ReplaceView(spec)),
            final(self).query_spec() == old(self).query_spec(),
    {
        self.effects.push(Effect::ReplaceView(spec));
    }

    /// Pop the current view.
    pub fn pop(&mut self)
        ensures
            final(self).effects() == old(self).effects().push(Effect::Pop),
            final(self).query_spec() == old(self).query_spec(),
    {
        self.effects.push(Effect::Pop);
    }

    /// Dismiss the launcher.
    pub fn dismiss(&mut self)
        ensures
            final(self).effects() == old(self).effects().push(Effect::Dismiss),
            final(self).query_spec() == old(self).query_spec(),
    {
        self.effects.push(Effect::Dismiss);
    }

    /// Hand back the collector with the requested effects.
    pub fn finish(self) -> (r: EffectCollector)
        ensures
            r.effects() == self.effects(),
    {
        self.effects
    }
}

} // verus!
