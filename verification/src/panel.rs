//! The launcher panel's decisions: the display state of each view depth and
//! what the panel does on each event (backend state changes, cursor moves,
//! selection, dismissal, search and action results).
//!
//! The panel owns the ephemeral display state (cursor, selection, cached
//! results); the backend owns the views' configuration. Each event handler
//! changes the display state and says what the UI should do next (start a
//! search, fetch actions, scroll, emit a dismissal); the UI performs it and
//! reports the outcome as the next event.

use vstd::prelude::*;
use vstd::view::View as ModelView;

use crate::action::ActionResult;
use crate::actions::RunLuaHandler;
use crate::editor::SearchInputEvent;
use crate::engine::ActionInfo;
use crate::error::BackendError;
use crate::item::{
    clone_opt_string, groups_view, item_id_eq, items_view, opt_view, Group, GroupView, Item, ItemId,
    ItemView,
};
use crate::selection::SelectionMode;
use crate::state::{
    entries_of, entries_view, flat_items, flatten_groups, ids_view, item_ids_of, lemma_push_distinct,
    lemma_remove_distinct, row_position, toggled, ActionMenuItem, ActionMenuState, ExecutionFeedback,
    ListEntry,
};
use crate::text::{lemma_take_succ, starts_with};
use crate::types::{ViewState, ViewStateView};

verus! {

/// The first position of an item with a given id.
pub open spec fn first_with_id(items: Seq<ItemView>, id: Seq<char>) -> Option<int>
    decreases items.len(),
{
    if items.len() == 0 {
        None
    } else {
        match first_with_id(items.drop_last(), id) {
            Some(i) => Some(i),
            None => if items.last().id == id {
                Some(items.len() - 1)
            } else {
                None
            },
        }
    }
}

/// Facts about the first position of an id.
pub proof fn lemma_first_with_id(items: Seq<ItemView>, id: Seq<char>)
    ensures
        match first_with_id(items, id) {
            Some(i) => 0 <= i < items.len() && items[i].id == id && forall|j: int| 0 <= j < i ==> items[j].id != id,
            None => forall|j: int| 0 <= j < items.len() ==> items[j].id != id,
        },
    decreases items.len(),
{
    if items.len() > 0 {
        let t = items.drop_last();
        lemma_first_with_id(t, id);
        assert forall|j: int| 0 <= j < t.len() implies t[j] == items[j] by {}
    }
}

/// The items whose id is selected, in display order.
pub open spec fn items_selected(items: Seq<ItemView>, selected: Set<Seq<char>>) -> Seq<ItemView> {
    items.filter(|i: ItemView| selected.contains(i.id))
}

/// Ephemeral display state of one view depth, owned by the UI and reset when
/// the view is pushed.
#[derive(Debug)]
pub struct ViewDisplayState {
    /// View identifier for the keybinding context.
    pub view_id: Option<String>,
    /// Cursor position as index into the items.
    pub cursor_index: usize,
    /// Selection mode from the backend.
    pub selection_mode: SelectionMode,
    /// Selected item ids, each at most once.
    pub selected_ids: Vec<ItemId>,
    /// Current query text.
    pub query: String,
    /// Cached search results.
    pub cached_groups: Vec<Group>,
    /// Flattened entries for rendering.
    pub flat_entries: Vec<ListEntry>,
    /// Item ids in display order.
    pub item_ids: Vec<ItemId>,
    /// Items in display order.
    pub items: Vec<Item>,
    /// Generation counter for discarding stale search results.
    pub generation: u64,
    /// Whether a search is in progress.
    pub loading: bool,
}

impl ViewDisplayState {
    /// The cached groups' contents.
    pub open spec fn groups_model(&self) -> Seq<GroupView> {
        groups_view(self.cached_groups@)
    }

    /// The selected ids as a set.
    pub open spec fn selected_set(&self) -> Set<Seq<char>> {
        ids_view(self.selected_ids@).to_set()
    }

    /// The invariant: the cached entries, ids and items are those of the
    /// groups, and no id is selected twice. The cursor may stand past the
    /// last item (a click can put it anywhere); it then selects no item.
    pub open spec fn wf(&self) -> bool {
        &&& entries_view(self.flat_entries@) == entries_of(self.groups_model())
        &&& items_view(self.items@) == flat_items(self.groups_model())
        &&& ids_view(self.item_ids@) == item_ids_of(flat_items(self.groups_model()))
        &&& ids_view(self.selected_ids@).no_duplicates()
    }

    /// The item under the cursor: the first item with the cursor's id.
    pub open spec fn cursor_item_spec(&self) -> Option<ItemView> {
        if self.cursor_index < self.item_ids@.len() {
            match first_with_id(items_view(self.items@), self.item_ids@[self.cursor_index as int].0@) {
                Some(i) => Some(items_view(self.items@)[i]),
                None => None,
            }
        } else {
            None
        }
    }

    /// Update the groups, rebuild the cached entries and pull the cursor back
    /// onto the last item if it is past the end.
    pub fn set_groups(&mut self, groups: Vec<Group>)
        requires
            ids_view(old(self).selected_ids@).no_duplicates(),
        ensures
            final(self).wf(),
            final(self).groups_model() == groups_view(groups@),
            final(self).cursor_index == (if old(self).cursor_index >= flat_items(groups_view(groups@)).len() {
                if flat_items(groups_view(groups@)).len() == 0 { 0 } else { flat_items(groups_view(groups@)).len() - 1 }
            } else {
                old(self).cursor_index as int
            }),
            final(self).selected_ids@ == old(self).selected_ids@,
            final(self).query@ == old(self).query@,
            final(self).view_id == old(self).view_id,
            final(self).selection_mode == old(self).selection_mode,
            final(self).loading == old(self).loading,
            final(self).generation == old(self).generation,
    {
        self.cached_groups = groups;
        self.rebuild_indices();
        proof {
            assert(ids_view(self.item_ids@).len() == self.item_ids@.len());
            assert(item_ids_of(flat_items(self.groups_model())).len() == flat_items(self.groups_model()).len());
        }
        if self.cursor_index >= self.item_ids.len() {
            self.cursor_index = self.item_ids.len().saturating_sub(1);
        }
    }

    fn rebuild_indices(&mut self)
        ensures
            entries_view(final(self).flat_entries@) == entries_of(final(self).groups_model()),
            items_view(final(self).items@) == flat_items(final(self).groups_model()),
            ids_view(final(self).item_ids@) == item_ids_of(flat_items(final(self).groups_model())),
            final(self).cached_groups@ == old(self).cached_groups@,
            final(self).cursor_index == old(self).cursor_index,
            final(self).selected_ids@ == old(self).selected_ids@,
            final(self).query@ == old(self).query@,
            final(self).view_id == old(self).view_id,
            final(self).selection_mode == old(self).selection_mode,
            final(self).loading == old(self).loading,
            final(self).generation == old(self).generation,
    {
        let (entries, ids, items) = flatten_groups(&self.cached_groups);
        self.flat_entries = entries;
        self.item_ids = ids;
        self.items = items;
    }

    /// Move the cursor up (stops at the first item).
    pub fn cursor_up(&mut self)
        requires
            old(self).wf(),
        ensures
            final(self).wf(),
            final(self).cursor_index == (if old(self).cursor_index > 0 { old(self).cursor_index - 1 } else { 0 }),
            final(self).cached_groups@ == old(self).cached_groups@,
            final(self).selected_ids@ == old(self).selected_ids@,
            final(self).query@ == old(self).query@,
            final(self).generation == old(self).generation,
    {
        if self.cursor_index > 0 {
            self.cursor_index = self.cursor_index - 1;
        }
    }

    /// Move the cursor down (stops at the last item).
    pub fn cursor_down(&mut self)
        requires
            old(self).wf(),
        ensures
            final(self).wf(),
            final(self).cursor_index == (if old(self).cursor_index + 1 < old(self).item_ids@.len() {
                old(self).cursor_index + 1
            } else {
                old(self).cursor_index as int
            }),
            final(self).cached_groups@ == old(self).cached_groups@,
            final(self).selected_ids@ == old(self).selected_ids@,
            final(self).query@ == old(self).query@,
            final(self).generation == old(self).generation,
    {
        if self.cursor_index < self.item_ids.len() && self.cursor_index + 1 < self.item_ids.len() {
            self.cursor_index = self.cursor_index + 1;
        }
    }

    /// The item under the cursor: the first item with the cursor's id.
    pub fn cursor_item(&self) -> (r: Option<&Item>)
        ensures
            match r {
                Some(t) => self.cursor_item_spec() == Some(t@),
                None => self.cursor_item_spec() is None,
            },
    {
        if self.cursor_index >= self.item_ids.len() {
            return None;
        }
        let id = &self.item_ids[self.cursor_index];
        let ghost iv = items_view(self.items@);
        let mut i: usize = 0;
        while i < self.items.len()
            invariant
                0 <= i <= self.items@.len(),
                iv == items_view(self.items@),
                self.cursor_index < self.item_ids@.len(),
                *id == self.item_ids@[self.cursor_index as int],
                forall|j: int| 0 <= j < i ==> iv[j].id != id.0@,
            decreases self.items@.len() - i,
        {
            proof {
                assert(iv[i as int] == self.items@[i as int]@);
            }
            let candidate = self.items[i].item_id();
            if item_id_eq(&candidate, id) {
                proof {
                    lemma_first_with_id(iv, id.0@);
                    assert(iv[i as int].id == id.0@);
                    assert(first_with_id(iv, id.0@) == Some(i as int)) by {
                        match first_with_id(iv, id.0@) {
                            Some(k) => {
                                if k < i {
                                    assert(iv[k].id != id.0@);
                                }
                                if k > i {
                                    assert(iv[i as int].id != id.0@);
                                }
                            },
                            None => {
                                assert(iv[i as int].id != id.0@);
                            },
                        }
                    }
                    assert(id.0@ == self.item_ids@[self.cursor_index as int].0@);
                }
                return Some(&self.items[i]);
            }
            i = i + 1;
        }
        proof {
            lemma_first_with_id(iv, id.0@);
            match first_with_id(iv, id.0@) {
                Some(k) => {
                    assert(iv[k].id != id.0@);
                },
                None => {},
            }
        }
        None
    }

    /// Convert the cursor index to a list entry index (accounting for
    /// headers): the first row whose flat index is the cursor, or 0.
    pub fn cursor_to_list_index(&self) -> (r: usize)
        ensures
            r == row_position(entries_view(self.flat_entries@), self.cursor_index as nat, 0),
    {
        let ghost ev = entries_view(self.flat_entries@);
        let mut i: usize = 0;
        while i < self.flat_entries.len()
            invariant
                0 <= i <= self.flat_entries@.len(),
                ev == entries_view(self.flat_entries@),
                row_position(ev, self.cursor_index as nat, 0) == row_position(ev, self.cursor_index as nat, i as int),
            decreases self.flat_entries@.len() - i,
        {
            match &self.flat_entries[i] {
                ListEntry::Item { flat_index, .. } => {
                    if *flat_index == self.cursor_index {
                        return i;
                    }
                },
                ListEntry::GroupHeader { .. } => {},
            }
            i = i + 1;
        }
        0
    }

    fn selected_position(&self, id: &ItemId) -> (r: Option<usize>)
        ensures
            match r {
                Some(i) => i < self.selected_ids@.len() && self.selected_ids@[i as int].0@ == id.0@,
                None => !ids_view(self.selected_ids@).contains(id.0@),
            },
    {
        let mut i: usize = 0;
        while i < self.selected_ids.len()
            invariant
                0 <= i <= self.selected_ids@.len(),
                forall|j: int| 0 <= j < i ==> self.selected_ids@[j].0@ != id.0@,
            decreases self.selected_ids@.len() - i,
        {
            if item_id_eq(&self.selected_ids[i], id) {
                return Some(i);
            }
            i = i + 1;
        }
        proof {
            assert forall|j: int| 0 <= j < ids_view(self.selected_ids@).len() implies ids_view(self.selected_ids@)[j] != id.0@ by {
                assert(ids_view(self.selected_ids@)[j] == self.selected_ids@[j].0@);
            }
        }
        None
    }

    /// Toggle the selection of the item at the cursor. In single mode the
    /// selection follows the cursor and this does nothing.
    pub fn toggle_selection_at_cursor(&mut self)
        requires
            old(self).wf(),
        ensures
            final(self).wf(),
            final(self).selected_set() == (if old(self).selection_mode != SelectionMode::Single
                && old(self).cursor_index < old(self).item_ids@.len() {
                toggled(old(self).selected_set(), old(self).item_ids@[old(self).cursor_index as int].0@)
            } else {
                old(self).selected_set()
            }),
            old(self).selection_mode == SelectionMode::Single ==> final(self).selected_ids@ == old(self).selected_ids@,
            final(self).cached_groups@ == old(self).cached_groups@,
            final(self).cursor_index == old(self).cursor_index,
            final(self).query@ == old(self).query@,
            final(self).generation == old(self).generation,
    {
        if self.selection_mode == SelectionMode::Single {
            return;
        }
        if self.cursor_index < self.item_ids.len() {
            let id = self.item_ids[self.cursor_index].clone();
            let ghost s0 = ids_view(self.selected_ids@);
            match self.selected_position(&id) {
                Some(i) => {
                    self.selected_ids.remove(i);
                    proof {
                        assert(ids_view(self.selected_ids@) =~= s0.remove(i as int));
                        lemma_remove_distinct(s0, i as int);
                    }
                },
                None => {
                    self.selected_ids.push(id);
                    proof {
                        assert(ids_view(self.selected_ids@) =~= s0.push(id.0@));
                        lemma_push_distinct(s0, id.0@);
                    }
                },
            }
        }
    }

    fn is_selected(&self, id: &ItemId) -> (r: bool)
        ensures
            r == self.selected_set().contains(id.0@),
    {
        match self.selected_position(id) {
            Some(i) => {
                proof {
                    assert(ids_view(self.selected_ids@)[i as int] == id.0@);
                }
                true
            },
            None => false,
        }
    }

    /// The selected items, in display order.
    pub fn selected_items(&self) -> (r: Vec<Item>)
        ensures
            items_view(r@) == items_selected(items_view(self.items@), self.selected_set()),
    {
        let ghost iv = items_view(self.items@);
        let ghost pred = |i: ItemView| self.selected_set().contains(i.id);
        let mut out: Vec<Item> = Vec::new();
        let mut i: usize = 0;
        while i < self.items.len()
            invariant
                0 <= i <= self.items@.len(),
                iv == items_view(self.items@),
                pred == (|i: ItemView| self.selected_set().contains(i.id)),
                items_view(out@) == iv.take(i as int).filter(pred),
            decreases self.items@.len() - i,
        {
            let ghost before = items_view(out@);
            proof {
                lemma_take_succ(iv, i as int);
                assert(iv.take(i as int + 1).drop_last() =~= iv.take(i as int));
                assert(iv[i as int] == self.items@[i as int]@);
            }
            let id = self.items[i].item_id();
            if self.is_selected(&id) {
                out.push(self.items[i].clone());
                proof {
                    assert(items_view(out@) =~= before.push(iv[i as int]));
                }
            } else {
                proof {
                    assert(items_view(out@) =~= before);
                }
            }
            proof {
                assert(iv.take(i as int + 1).filter(pred) == (if pred(iv[i as int]) {
                    iv.take(i as int).filter(pred).push(iv[i as int])
                } else {
                    iv.take(i as int).filter(pred)
                })) by {
                    crate::text::lemma_filter_push(iv.take(i as int), iv[i as int], pred);
                    assert(iv.take(i as int).push(iv[i as int]) =~= iv.take(i as int + 1));
                }
            }
            i = i + 1;
        }
        proof {
            assert(iv.take(iv.len() as int) =~= iv);
        }
        out
    }

    /// The items an action applies to: the selected items if any, else the
    /// item under the cursor (if any).
    pub fn target_items(&self) -> (r: Vec<Item>)
        ensures
            self.selected_ids@.len() > 0 ==> items_view(r@) == items_selected(items_view(self.items@), self.selected_set()),
            self.selected_ids@.len() == 0 ==> items_view(r@) == match self.cursor_item_spec() {
                Some(t) => seq![t],
                None => Seq::<ItemView>::empty(),
            },
    {
        if self.selected_ids.len() > 0 {
            self.selected_items()
        } else {
            let mut out: Vec<Item> = Vec::new();
            match self.cursor_item() {
                Some(t) => {
                    out.push(t.clone());
                    proof {
                        assert(items_view(out@) =~= seq![t@]);
                    }
                },
                None => {
                    proof {
                        assert(items_view(out@) =~= Seq::<ItemView>::empty());
                    }
                },
            }
            out
        }
    }
}

impl Default for ViewDisplayState {
    fn default() -> (r: Self)
        ensures
            r.wf(),
            r.view_id is None,
            r.cursor_index == 0,
            r.selection_mode == SelectionMode::Single,
            r.selected_ids@.len() == 0,
            r.query@.len() == 0,
            r.cached_groups@.len() == 0,
            r.generation == 0,
            !r.loading,
    {
        let r = ViewDisplayState {
            view_id: None,
            cursor_index: 0,
            selection_mode: SelectionMode::Single,
            selected_ids: Vec::new(),
            query: String::new(),
            cached_groups: Vec::new(),
            flat_entries: Vec::new(),
            item_ids: Vec::new(),
            items: Vec::new(),
            generation: 0,
            loading: false,
        };
        proof {
            assert(r.groups_model() =~= Seq::<GroupView>::empty());
            assert(entries_view(r.flat_entries@) =~= entries_of(r.groups_model()));
            assert(items_view(r.items@) =~= flat_items(r.groups_model()));
            assert(ids_view(r.item_ids@) =~= item_ids_of(flat_items(r.groups_model())));
            assert(ids_view(r.selected_ids@) =~= Seq::<Seq<char>>::empty());
        }
        r
    }
}

/// A search the UI should start: the query, and the generation its results
/// must carry to be applied.
#[derive(Debug)]
pub struct SearchRequest {
    pub query: String,
    pub generation: u64,
}

/// How a result row is highlighted.
#[derive(Debug, Clone, Copy, PartialEq, Eq, Structural)]
pub enum RowHighlight {
    /// The cursor is on the row.
    Cursor,
    /// The row's item is selected.
    Selected,
    /// Neither.
    Plain,
}

/// How a result row's icon is drawn.
#[derive(Debug, Clone)]
pub enum RowIcon {
    /// An image loaded from this absolute path.
    Image(String),
    /// This text, such as an emoji.
    Text(String),
    /// A placeholder square, for an item without an icon.
    Placeholder,
}

/// What a result row shows.
#[derive(Debug)]
pub struct RowLook {
    pub highlight: RowHighlight,
    pub icon: RowIcon,
    pub title: String,
    pub subtitle: Option<String>,
}

/// The cursor's highlight wins over the selection's.
pub open spec fn highlight_of(is_cursor: bool, is_selected: bool) -> RowHighlight {
    if is_cursor {
        RowHighlight::Cursor
    } else if is_selected {
        RowHighlight::Selected
    } else {
        RowHighlight::Plain
    }
}

/// Whether `r` draws the icon text `icon`: a text starting with `/` is an
/// image path, any other text is drawn as it is, and no icon gives the
/// placeholder.
pub open spec fn icon_drawn(icon: Option<Seq<char>>, r: RowIcon) -> bool {
    match icon {
        None => r is Placeholder,
        Some(s) => if s.len() > 0 && s[0] == '/' {
            r matches RowIcon::Image(p) && p@ == s
        } else {
            r matches RowIcon::Text(t) && t@ == s
        },
    }
}

/// What the result row of an item shows: its highlight, its icon, its title
/// and its subtitle.
pub fn result_row(item: &Item, is_cursor: bool, is_selected: bool) -> (r: RowLook)
    ensures
        r.highlight == highlight_of(is_cursor, is_selected),
        icon_drawn(opt_view(item.icon), r.icon),
        r.title@ == item.title@,
        opt_view(r.subtitle) == opt_view(item.subtitle),
{
    let highlight = if is_cursor {
        RowHighlight::Cursor
    } else if is_selected {
        RowHighlight::Selected
    } else {
        RowHighlight::Plain
    };
    let icon = match &item.icon {
        None => RowIcon::Placeholder,
        Some(text) => {
            proof {
                reveal_strlit("/");
            }
            if starts_with(text.as_str(), "/") {
                proof {
                    assert(text@.subrange(0, 1)[0] == text@[0]);
                }
                RowIcon::Image(text.clone())
            } else {
                proof {
                    if text@.len() > 0 && text@[0] == '/' {
                        assert(text@.subrange(0, 1) =~= "/"@);
                    }
                }
                RowIcon::Text(text.clone())
            }
        },
    };
    RowLook { highlight, icon, title: item.title.clone(), subtitle: clone_opt_string(&item.subtitle) }
}

/// Events the launcher panel emits to its host.
#[derive(Debug, Clone, Copy, PartialEq, Eq, Structural)]
pub enum LauncherPanelEvent {
    /// Request to dismiss the launcher.
    Dismiss,
}

/// What dismissing (Escape) does, in order of precedence.
#[derive(Debug, Clone, Copy, PartialEq, Eq, Structural)]
pub enum DismissStep {
    /// The action menu was open; it is closed.
    CloseActionMenu,
    /// The search input holds text; clear it.
    ClearInput,
    /// Not at the root view; pop the view.
    PopView,
    /// At the root with nothing else to undo; hide the launcher.
    Dismiss,
}

/// What the UI does after the backend's view stack changed.
#[derive(Debug)]
pub struct StateSync {
    /// A search for a newly pushed view.
    pub search: Option<SearchRequest>,
    /// The list row to scroll to after a pop.
    pub scroll_to: Option<usize>,
    /// The placeholder of the current view, if it has one.
    pub placeholder: Option<String>,
}

/// What the UI does after an action's result arrived.
#[derive(Debug)]
pub enum ResultFollowUp {
    /// Hide the launcher.
    EmitDismiss,
    /// Refresh the results with this search.
    Search(SearchRequest),
    /// Nothing more (view changes come through the backend's state).
    Nothing,
}

/// What the UI does after the search input reported an event.
#[derive(Debug)]
pub enum InputStep {
    /// Start this search.
    Search(SearchRequest),
    /// Run the default action on these items.
    ExecuteDefault(Vec<Item>),
    /// Ask the backend to pop the view.
    PopView,
    /// Nothing to do.
    Nothing,
}

/// The number after `n` (wrapping).
pub open spec fn next_generation(n: u64) -> u64 {
    if n == u64::MAX {
        0
    } else {
        (n + 1) as u64
    }
}

/// The menu entry for an action.
pub open spec fn menu_item_of(info: ActionInfo, m: ActionMenuItem) -> bool {
    &&& m.view_id == info.view_id
    &&& m.action_id == info.id
    &&& m.handler_key == info.handler_key
    &&& m.title == info.title
    &&& m.icon == info.icon
}

/// The panel's state: one display state per view depth (never none) and the
/// action menu and execution feedback overlays.
pub struct PanelModel {
    view_states: Vec<ViewDisplayState>,
    action_menu: Option<ActionMenuState>,
    execution_feedback: Option<ExecutionFeedback>,
}

impl PanelModel {
    /// The display states, root first.
    pub closed spec fn displays(&self) -> Seq<ViewDisplayState> {
        self.view_states@
    }

    /// The action menu, if open.
    pub closed spec fn menu(&self) -> Option<ActionMenuState> {
        self.action_menu
    }

    /// The execution feedback, if any.
    pub closed spec fn feedback(&self) -> Option<ExecutionFeedback> {
        self.execution_feedback
    }

    /// There is a display state for the root, and each is well formed.
    pub open spec fn wf(&self) -> bool {
        &&& self.displays().len() > 0
        &&& forall|i: int| 0 <= i < self.displays().len() ==> (#[trigger] self.displays()[i]).wf()
    }

    /// The display state of the current view.
    pub open spec fn top(&self) -> ViewDisplayState {
        self.displays().last()
    }

    /// A panel with one fresh display state and no overlays.
    pub fn new() -> (r: Self)
        ensures
            r.wf(),
            r.displays().len() == 1,
            r.top().cursor_index == 0,
            r.top().generation == 0,
            r.top().cached_groups@.len() == 0,
            r.menu() is None,
            r.feedback() is None,
    {
        let mut v: Vec<ViewDisplayState> = Vec::new();
        v.push(ViewDisplayState::default());
        PanelModel { view_states: v, action_menu: None, execution_feedback: None }
    }

    /// The display state of the current view.
    pub fn current(&self) -> (r: &ViewDisplayState)
        requires
            self.wf(),
        ensures
            *r == self.top(),
    {
        &self.view_states[self.view_states.len() - 1]
    }

    /// The number of view depths.
    pub fn depth(&self) -> (r: usize)
        ensures
            r == self.displays().len(),
    {
        self.view_states.len()
    }

    /// The open action menu.
    pub fn action_menu(&self) -> (r: &Option<ActionMenuState>)
        ensures
            *r == self.menu(),
    {
        &self.action_menu
    }

    /// The current execution feedback.
    pub fn execution_feedback(&self) -> (r: &Option<ExecutionFeedback>)
        ensures
            *r == self.feedback(),
    {
        &self.execution_feedback
    }

    /// Start a search on the current view: advance its generation, record the
    /// query and mark it loading.
    pub fn trigger_search(&mut self, query: String) -> (r: SearchRequest)
        requires
            old(self).wf(),
        ensures
            final(self).wf(),
            final(self).displays().len() == old(self).displays().len(),
            final(self).displays().drop_last() == old(self).displays().drop_last(),
            final(self).top().generation == next_generation(old(self).top().generation),
            final(self).top().query@ == query@,
            final(self).top().loading,
            final(self).top().cached_groups@ == old(self).top().cached_groups@,
            final(self).top().cursor_index == old(self).top().cursor_index,
            final(self).top().selected_ids@ == old(self).top().selected_ids@,
            final(self).top().selection_mode == old(self).top().selection_mode,
            final(self).top().view_id == old(self).top().view_id,
            r.query@ == query@,
            r.generation == final(self).top().generation,
            final(self).menu() == old(self).menu(),
            final(self).feedback() == old(self).feedback(),
    {
        let last = self.view_states.len() - 1;
        let mut d = self.view_states.remove(last);
        d.generation = if d.generation == u64::MAX {
            0
        } else {
            d.generation + 1
        };
        d.query = query.clone();
        d.loading = true;
        let generation = d.generation;
        self.view_states.push(d);
        proof {
            assert(self.view_states@.drop_last() =~= old(self).view_states@.drop_last());
            assert forall|i: int| 0 <= i < self.displays().len() implies (#[trigger] self.displays()[i]).wf() by {
                if i < self.displays().len() - 1 {
                    assert(self.displays()[i] == old(self).displays()[i]);
                }
            }
        }
        SearchRequest { query, generation }
    }

    /// Apply search results to the current view, unless a newer search was
    /// started since: the view stops loading and, on success, shows the
    /// groups.
    pub fn apply_search_results(&mut self, generation: u64, result: Result<Vec<Group>, BackendError>)
        requires
            old(self).wf(),
        ensures
            final(self).wf(),
            final(self).displays().len() == old(self).displays().len(),
            final(self).displays().drop_last() == old(self).displays().drop_last(),
            old(self).top().generation != generation ==> final(self).displays() == old(self).displays(),
            old(self).top().generation == generation ==> {
                &&& !final(self).top().loading
                &&& final(self).top().generation == generation
                &&& final(self).top().query@ == old(self).top().query@
                &&& final(self).top().selected_ids@ == old(self).top().selected_ids@
                &&& match result {
                    Ok(groups) => final(self).top().groups_model() == groups_view(groups@),
                    Err(_) => final(self).top().cached_groups@ == old(self).top().cached_groups@
                        && final(self).top().cursor_index == old(self).top().cursor_index,
                }
            },
            final(self).menu() == old(self).menu(),
            final(self).feedback() == old(self).feedback(),
    {
        let last = self.view_states.len() - 1;
        if self.view_states[last].generation != generation {
            return;
        }
        let mut d = self.view_states.remove(last);
        d.loading = false;
        match result {
            Ok(groups) => {
                d.set_groups(groups);
            },
            Err(_) => {},
        }
        self.view_states.push(d);
        proof {
            assert(self.view_states@.drop_last() =~= old(self).view_states@.drop_last());
            assert forall|i: int| 0 <= i < self.displays().len() implies (#[trigger] self.displays()[i]).wf() by {
                if i < self.displays().len() - 1 {
                    assert(self.displays()[i] == old(self).displays()[i]);
                }
            }
        }
    }

    /// Move the cursor up; returns the list row to scroll to.
    pub fn on_cursor_up(&mut self) -> (r: usize)
        requires
            old(self).wf(),
        ensures
            final(self).wf(),
            final(self).displays().len() == old(self).displays().len(),
            final(self).displays().drop_last() == old(self).displays().drop_last(),
            final(self).top().cursor_index == (if old(self).top().cursor_index > 0 {
                old(self).top().cursor_index - 1
            } else {
                0
            }),
            final(self).top().cached_groups@ == old(self).top().cached_groups@,
            r == row_position(entries_view(final(self).top().flat_entries@), final(self).top().cursor_index as nat, 0),
            final(self).menu() == old(self).menu(),
            final(self).feedback() == old(self).feedback(),
    {
        let last = self.view_states.len() - 1;
        let mut d = self.view_states.remove(last);
        d.cursor_up();
        let row = d.cursor_to_list_index();
        self.view_states.push(d);
        proof {
            assert(self.view_states@.drop_last() =~= old(self).view_states@.drop_last());
            assert forall|i: int| 0 <= i < self.displays().len() implies (#[trigger] self.displays()[i]).wf() by {
                if i < self.displays().len() - 1 {
                    assert(self.displays()[i] == old(self).displays()[i]);
                }
            }
        }
        row
    }

    /// Move the cursor down; returns the list row to scroll to.
    pub fn on_cursor_down(&mut self) -> (r: usize)
        requires
            old(self).wf(),
        ensures
            final(self).wf(),
            final(self).displays().len() == old(self).displays().len(),
            final(self).displays().drop_last() == old(self).displays().drop_last(),
            final(self).top().cursor_index == (if old(self).top().cursor_index + 1 < old(self).top().item_ids@.len() {
                old(self).top().cursor_index + 1
            } else {
                old(self).top().cursor_index as int
            }),
            final(self).top().cached_groups@ == old(self).top().cached_groups@,
            r == row_position(entries_view(final(self).top().flat_entries@), final(self).top().cursor_index as nat, 0),
            final(self).menu() == old(self).menu(),
            final(self).feedback() == old(self).feedback(),
    {
        let last = self.view_states.len() - 1;
        let mut d = self.view_states.remove(last);
        d.cursor_down();
        let row = d.cursor_to_list_index();
        self.view_states.push(d);
        proof {
            assert(self.view_states@.drop_last() =~= old(self).view_states@.drop_last());
            assert forall|i: int| 0 <= i < self.displays().len() implies (#[trigger] self.displays()[i]).wf() by {
                if i < self.displays().len() - 1 {
                    assert(self.displays()[i] == old(self).displays()[i]);
                }
            }
        }
        row
    }

    /// Toggle the selection at the cursor of the current view.
    pub fn on_toggle_selection(&mut self)
        requires
            old(self).wf(),
        ensures
            final(self).wf(),
            final(self).displays().len() == old(self).displays().len(),
            final(self).displays().drop_last() == old(self).displays().drop_last(),
            final(self).top().selected_set() == (if old(self).top().selection_mode != SelectionMode::Single
                && old(self).top().cursor_index < old(self).top().item_ids@.len() {
                toggled(old(self).top().selected_set(), old(self).top().item_ids@[old(self).top().cursor_index as int].0@)
            } else {
                old(self).top().selected_set()
            }),
            final(self).top().cursor_index == old(self).top().cursor_index,
            final(self).menu() == old(self).menu(),
            final(self).feedback() == old(self).feedback(),
    {
        let last = self.view_states.len() - 1;
        let mut d = self.view_states.remove(last);
        d.toggle_selection_at_cursor();
        self.view_states.push(d);
        proof {
            assert(self.view_states@.drop_last() =~= old(self).view_states@.drop_last());
            assert forall|i: int| 0 <= i < self.displays().len() implies (#[trigger] self.displays()[i]).wf() by {
                if i < self.displays().len() - 1 {
                    assert(self.displays()[i] == old(self).displays()[i]);
                }
            }
        }
    }

    /// Put the cursor on a clicked item.
    pub fn on_item_click(&mut self, index: usize)
        requires
            old(self).wf(),
        ensures
            final(self).wf(),
            final(self).displays().len() == old(self).displays().len(),
            final(self).displays().drop_last() == old(self).displays().drop_last(),
            final(self).top().cursor_index == index,
            final(self).top().cached_groups@ == old(self).top().cached_groups@,
            final(self).top().selected_ids@ == old(self).top().selected_ids@,
            final(self).menu() == old(self).menu(),
            final(self).feedback() == old(self).feedback(),
    {
        let last = self.view_states.len() - 1;
        let mut d = self.view_states.remove(last);
        d.cursor_index = index;
        self.view_states.push(d);
        proof {
            assert(self.view_states@.drop_last() =~= old(self).view_states@.drop_last());
            assert forall|i: int| 0 <= i < self.displays().len() implies (#[trigger] self.displays()[i]).wf() by {
                if i < self.displays().len() - 1 {
                    assert(self.displays()[i] == old(self).displays()[i]);
                }
            }
        }
    }

    /// The items to fetch actions for when the action menu is asked for:
    /// none while the menu is open or when there is nothing to act on.
    pub fn on_open_action_menu(&self) -> (r: Option<Vec<Item>>)
        requires
            self.wf(),
        ensures
            self.menu() is Some ==> r is None,
            self.menu() is None ==> {
                let d = self.top();
                let targets = if d.selected_ids@.len() > 0 {
                    items_selected(items_view(d.items@), d.selected_set())
                } else {
                    match d.cursor_item_spec() {
                        Some(t) => seq![t],
                        None => Seq::<ItemView>::empty(),
                    }
                };
                &&& targets.len() == 0 ==> r is None
                &&& targets.len() > 0 ==> (r matches Some(items) && items_view(items@) == targets)
            },
    {
        if self.action_menu.is_some() {
            return None;
        }
        let items = self.current().target_items();
        if items.len() == 0 {
            None
        } else {
            Some(items)
        }
    }

    /// The items the default action runs on (as for the action menu, but
    /// regardless of it); none when there is nothing to act on.
    pub fn execute_default_action(&self) -> (r: Option<Vec<Item>>)
        requires
            self.wf(),
        ensures
            ({
                let d = self.top();
                let targets = if d.selected_ids@.len() > 0 {
                    items_selected(items_view(d.items@), d.selected_set())
                } else {
                    match d.cursor_item_spec() {
                        Some(t) => seq![t],
                        None => Seq::<ItemView>::empty(),
                    }
                };
                &&& targets.len() == 0 ==> r is None
                &&& targets.len() > 0 ==> (r matches Some(items) && items_view(items@) == targets)
            }),
    {
        let items = self.current().target_items();
        if items.len() == 0 {
            None
        } else {
            Some(items)
        }
    }

    /// The Lua handler to run for a key binding and the items it runs on.
    pub fn on_run_lua_handler(&self, action: &RunLuaHandler) -> (r: (String, Vec<Item>))
        requires
            self.wf(),
        ensures
            r.0@ == action.id@,
            ({
                let d = self.top();
                items_view(r.1@) == if d.selected_ids@.len() > 0 {
                    items_selected(items_view(d.items@), d.selected_set())
                } else {
                    match d.cursor_item_spec() {
                        Some(t) => seq![t],
                        None => Seq::<ItemView>::empty(),
                    }
                }
            }),
    {
        (action.id.clone(), self.current().target_items())
    }

    /// Dismissal (Escape) undoes one thing: close the action menu if open,
    /// else clear the input if it holds text, else pop the view if not at
    /// the root, else hide the launcher.
    pub fn on_dismiss(&mut self, input_is_empty: bool) -> (r: DismissStep)
        ensures
            old(self).menu() is Some ==> r == DismissStep::CloseActionMenu,
            old(self).menu() is None && !input_is_empty ==> r == DismissStep::ClearInput,
            old(self).menu() is None && input_is_empty && old(self).displays().len() > 1 ==> r == DismissStep::PopView,
            old(self).menu() is None && input_is_empty && old(self).displays().len() <= 1 ==> r == DismissStep::Dismiss,
            final(self).menu() is None,
            final(self).displays() == old(self).displays(),
            final(self).feedback() == old(self).feedback(),
    {
        if self.action_menu.is_some() {
            self.action_menu = None;
            return DismissStep::CloseActionMenu;
        }
        if !input_is_empty {
            return DismissStep::ClearInput;
        }
        if self.view_states.len() > 1 {
            return DismissStep::PopView;
        }
        DismissStep::Dismiss
    }

    /// Follow the backend's view stack: a deeper stack gets fresh display
    /// states and a search; a shallower one drops display states (never the
    /// root's) and scrolls to the restored cursor. Then the current view's
    /// selection mode and id are taken from the backend, and its placeholder
    /// is handed to the search input.
    pub fn on_backend_state_changed(&mut self, state: &Vec<ViewState>) -> (r: StateSync)
        requires
            old(self).wf(),
        ensures
            final(self).wf(),
            state@.len() > old(self).displays().len() ==> {
                &&& final(self).displays().len() == state@.len()
                &&& final(self).displays().take(old(self).displays().len() as int) == old(self).displays()
                &&& r.search matches Some(req) && req.query@.len() == 0
                    && req.generation == final(self).top().generation
                &&& r.scroll_to is None
            },
            state@.len() < old(self).displays().len() ==> {
                let n = if state@.len() > 1 { state@.len() as int } else { 1 };
                &&& final(self).displays().len() == n
                &&& final(self).displays().drop_last() == old(self).displays().take(n - 1)
                &&& final(self).top().cursor_index == old(self).displays()[n - 1].cursor_index
                &&& final(self).top().cached_groups@ == old(self).displays()[n - 1].cached_groups@
                &&& r.search is None
                &&& r.scroll_to == Some(row_position(entries_view(final(self).top().flat_entries@), final(self).top().cursor_index as nat, 0) as usize)
            },
            state@.len() == old(self).displays().len() ==> {
                &&& final(self).displays().drop_last() == old(self).displays().drop_last()
                &&& final(self).top().cursor_index == old(self).top().cursor_index
                &&& final(self).top().cached_groups@ == old(self).top().cached_groups@
                &&& r.search is None
                &&& r.scroll_to is None
            },
            state@.len() > 0 ==> {
                &&& final(self).top().selection_mode == state@.last().selection
                &&& opt_view(final(self).top().view_id) == opt_view(state@.last().id)
                &&& opt_view(r.placeholder) == opt_view(state@.last().placeholder)
            },
            state@.len() == 0 ==> r.placeholder is None,
            final(self).menu() == old(self).menu(),
            final(self).feedback() == old(self).feedback(),
    {
        let new_depth = state.len();
        let current_depth = self.view_states.len();
        let mut search: Option<SearchRequest> = None;
        let mut scroll_to: Option<usize> = None;
        if new_depth > current_depth {
            let mut k = current_depth;
            while k < new_depth
                invariant
                    current_depth <= k <= new_depth,
                    self.view_states@.len() == k,
                    self.view_states@.take(current_depth as int) == old(self).view_states@,
                    current_depth == old(self).view_states@.len(),
                    self.wf(),
                    self.action_menu == old(self).action_menu,
                    self.execution_feedback == old(self).execution_feedback,
                decreases new_depth - k,
            {
                let ghost before = self.view_states@;
                self.view_states.push(ViewDisplayState::default());
                proof {
                    assert(self.view_states@.take(current_depth as int) =~= before.take(current_depth as int));
                    assert forall|i: int| 0 <= i < self.displays().len() implies (#[trigger] self.displays()[i]).wf() by {
                        if i < before.len() {
                            assert(self.displays()[i] == before[i]);
                        }
                    }
                }
                k = k + 1;
            }
            let ghost grown = self.view_states@;
            search = Some(self.trigger_search(String::new()));
            proof {
                assert(self.view_states@.take(current_depth as int) =~= grown.take(current_depth as int));
            }
        } else if new_depth < current_depth {
            while self.view_states.len() > new_depth && self.view_states.len() > 1
                invariant
                    self.wf(),
                    self.view_states@.len() <= old(self).view_states@.len(),
                    self.view_states@ == old(self).view_states@.take(self.view_states@.len() as int),
                    self.view_states@.len() >= 1,
                    new_depth < current_depth,
                    current_depth == old(self).view_states@.len(),
                    self.view_states@.len() >= new_depth,
                    self.action_menu == old(self).action_menu,
                    self.execution_feedback == old(self).execution_feedback,
                decreases self.view_states@.len(),
            {
                let ghost before = self.view_states@;
                let _ = self.view_states.pop();
                proof {
                    assert(self.view_states@ =~= old(self).view_states@.take(self.view_states@.len() as int));
                    assert forall|i: int| 0 <= i < self.displays().len() implies (#[trigger] self.displays()[i]).wf() by {
                        assert(self.displays()[i] == before[i]);
                    }
                }
            }
            let row = self.current().cursor_to_list_index();
            scroll_to = Some(row);
            proof {
                let n = if new_depth > 1 { new_depth as int } else { 1 };
                assert(self.view_states@.len() == n);
                assert(self.view_states@.drop_last() =~= old(self).view_states@.take(n - 1));
                assert(self.top() == old(self).displays()[n - 1]);
            }
        }
        let ghost synced = self.view_states@;
        let mut placeholder: Option<String> = None;
        if new_depth > 0 {
            let view = &state[new_depth - 1];
            let last = self.view_states.len() - 1;
            let mut d = self.view_states.remove(last);
            d.selection_mode = view.selection;
            d.view_id = clone_opt_string(&view.id);
            self.view_states.push(d);
            placeholder = clone_opt_string(&view.placeholder);
            proof {
                assert(self.view_states@.drop_last() =~= synced.drop_last());
                assert forall|i: int| 0 <= i < self.displays().len() implies (#[trigger] self.displays()[i]).wf() by {
                    if i < self.displays().len() - 1 {
                        assert(self.displays()[i] == synced[i]);
                    }
                }
                if new_depth > current_depth {
                    assert(self.view_states@.take(current_depth as int) =~= synced.take(current_depth as int));
                }
            }
        }
        StateSync { search, scroll_to, placeholder }
    }

    /// Open the action menu with the actions that came back, unless there
    /// are none or fetching them failed.
    pub fn apply_actions(&mut self, result: Result<Vec<ActionInfo>, BackendError>)
        ensures
            match result {
                Ok(infos) => if infos@.len() == 0 {
                    final(self).menu() == old(self).menu()
                } else {
                    final(self).menu() matches Some(m) && m.cursor_index == 0
                        && m.actions@.len() == infos@.len()
                        && forall|i: int| 0 <= i < infos@.len() ==> menu_item_of(infos@[i], #[trigger] m.actions@[i])
                },
                Err(_) => final(self).menu() == old(self).menu(),
            },
            final(self).displays() == old(self).displays(),
            final(self).feedback() == old(self).feedback(),
    {
        match result {
            Ok(infos) => {
                if infos.len() == 0 {
                    return;
                }
                let mut rest = infos;
                let ghost all = rest@;
                let mut actions: Vec<ActionMenuItem> = Vec::new();
                while rest.len() > 0
                    invariant
                        actions@.len() + rest@.len() == all.len(),
                        rest@ == all.skip(actions@.len() as int),
                        forall|i: int| 0 <= i < actions@.len() ==> menu_item_of(all[i], #[trigger] actions@[i]),
                    decreases rest@.len(),
                {
                    let info = rest.remove(0);
                    proof {
                        assert(all.skip(actions@.len() as int).drop_first() =~= all.skip(actions@.len() as int + 1));
                    }
                    actions.push(ActionMenuItem {
                        view_id: info.view_id,
                        action_id: info.id,
                        handler_key: info.handler_key,
                        title: info.title,
                        icon: info.icon,
                    });
                }
                self.action_menu = Some(ActionMenuState::new(actions));
            },
            Err(_) => {},
        }
    }

    /// React to an action's result: hide on dismiss; refresh the results on
    /// continue; show new results; record completion, progress or failure
    /// (a backend error is a failure with its message). View pushes and pops
    /// arrive through the backend's state.
    pub fn apply_action_result(&mut self, result: Result<ActionResult, BackendError>) -> (r: ResultFollowUp)
        requires
            old(self).wf(),
        ensures
            final(self).wf(),
            final(self).menu() == old(self).menu(),
            final(self).displays().len() == old(self).displays().len(),
            match result {
                Ok(ActionResult::Dismiss) => r is EmitDismiss && final(self).displays() == old(self).displays()
                    && final(self).feedback() == old(self).feedback(),
                Ok(ActionResult::Continue) => (r matches ResultFollowUp::Search(req) && req.query@ == old(self).top().query@
                    && req.generation == next_generation(old(self).top().generation))
                    && final(self).feedback() == old(self).feedback(),
                Ok(ActionResult::Complete { message, .. }) => r is Nothing && final(self).displays() == old(self).displays()
                    && final(self).feedback() == Some(ExecutionFeedback::Complete { message }),
                Ok(ActionResult::Progress { message }) => r is Nothing && final(self).displays() == old(self).displays()
                    && final(self).feedback() == Some(ExecutionFeedback::Progress { message }),
                Ok(ActionResult::Fail { error }) => r is Nothing && final(self).displays() == old(self).displays()
                    && final(self).feedback() == Some(ExecutionFeedback::Failed { error }),
                Ok(ActionResult::UpdateResults { groups }) => r is Nothing
                    && final(self).top().groups_model() == groups_view(groups@)
                    && final(self).displays().drop_last() == old(self).displays().drop_last()
                    && final(self).feedback() == old(self).feedback(),
                Ok(_) => r is Nothing && final(self).displays() == old(self).displays()
                    && final(self).feedback() == old(self).feedback(),
                Err(e) => r is Nothing && final(self).displays() == old(self).displays()
                    && (final(self).feedback() matches Some(ExecutionFeedback::Failed { error })
                        && error@ == e.message_spec()),
            },
    {
        match result {
            Ok(ActionResult::Dismiss) => ResultFollowUp::EmitDismiss,
            Ok(ActionResult::Continue) => {
                let query = self.current().query.clone();
                ResultFollowUp::Search(self.trigger_search(query))
            },
            Ok(ActionResult::Complete { message, .. }) => {
                self.execution_feedback = Some(ExecutionFeedback::Complete { message });
                ResultFollowUp::Nothing
            },
            Ok(ActionResult::Progress { message }) => {
                self.execution_feedback = Some(ExecutionFeedback::Progress { message });
                ResultFollowUp::Nothing
            },
            Ok(ActionResult::Fail { error }) => {
                self.execution_feedback = Some(ExecutionFeedback::Failed { error });
                ResultFollowUp::Nothing
            },
            Ok(ActionResult::UpdateResults { groups }) => {
                let last = self.view_states.len() - 1;
                let mut d = self.view_states.remove(last);
                d.set_groups(groups);
                self.view_states.push(d);
                proof {
                    assert(self.view_states@.drop_last() =~= old(self).view_states@.drop_last());
                    assert forall|i: int| 0 <= i < self.displays().len() implies (#[trigger] self.displays()[i]).wf() by {
                        if i < self.displays().len() - 1 {
                            assert(self.displays()[i] == old(self).displays()[i]);
                        }
                    }
                }
                ResultFollowUp::Nothing
            },
            Ok(_) => ResultFollowUp::Nothing,
            Err(e) => {
                self.execution_feedback = Some(ExecutionFeedback::Failed { error: e.message() });
                ResultFollowUp::Nothing
            },
        }
    }

    /// React to the search input: a changed query starts a search, Enter runs
    /// the default action (if there is something to act on), backspace on
    /// empty input goes back a view.
    pub fn on_search_input_event(&mut self, event: SearchInputEvent) -> (r: InputStep)
        requires
            old(self).wf(),
        ensures
            final(self).wf(),
            final(self).displays().len() == old(self).displays().len(),
            match event {
                SearchInputEvent::Changed(query) => r matches InputStep::Search(req) && req.query@ == query@
                    && req.generation == next_generation(old(self).top().generation)
                    && final(self).top().query@ == query@,
                SearchInputEvent::Submit => *final(self) == *old(self) && ({
                    let d = old(self).top();
                    let targets = if d.selected_ids@.len() > 0 {
                        items_selected(items_view(d.items@), d.selected_set())
                    } else {
                        match d.cursor_item_spec() {
                            Some(t) => seq![t],
                            None => Seq::<ItemView>::empty(),
                        }
                    };
                    &&& targets.len() == 0 ==> r is Nothing
                    &&& targets.len() > 0 ==> (r matches InputStep::ExecuteDefault(items) && items_view(items@) == targets)
                }),
                SearchInputEvent::Back => r is PopView && *final(self) == *old(self),
            },
    {
        match event {
            SearchInputEvent::Changed(query) => InputStep::Search(self.trigger_search(query)),
            SearchInputEvent::Submit => match self.execute_default_action() {
                Some(items) => InputStep::ExecuteDefault(items),
                None => InputStep::Nothing,
            },
            SearchInputEvent::Back => InputStep::PopView,
        }
    }

    /// Show the launcher afresh: start a search with an empty query (the UI
    /// clears its input).
    pub fn show(&mut self) -> (r: SearchRequest)
        requires
            old(self).wf(),
        ensures
            final(self).wf(),
            r.query@.len() == 0,
            r.generation == final(self).top().generation,
            final(self).top().generation == next_generation(old(self).top().generation),
            final(self).displays().len() == old(self).displays().len(),
    {
        self.trigger_search(String::new())
    }

    /// Hide the launcher: the panel's state stays as it is and the host is
    /// asked to dismiss.
    pub fn hide_launcher(&self) -> (e: LauncherPanelEvent)
        ensures
            e == LauncherPanelEvent::Dismiss,
    {
        LauncherPanelEvent::Dismiss
    }
}

} // verus!
