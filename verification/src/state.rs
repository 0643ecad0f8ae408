//! UI state model of the launcher: the phase state machine, the stack of view
//! frames with their search results, cursor and selection, and the action menu.

use vstd::prelude::*;

use crate::ids::{next_id, IdSequence};
use crate::item::{
    clone_opt_string, groups_view, item_id_eq, items_view, opt_view, Group, GroupView, Item, ItemId,
    ItemView,
};
use crate::selection::SelectionMode;
use crate::text::{lemma_take_succ, owned};

verus! {

// =============================================================================
// Action menu
// =============================================================================

/// An action in the menu.
#[derive(Debug)]
pub struct ActionMenuItem {
    /// View that provides this action.
    pub view_id: String,
    /// Action ID within the view.
    pub action_id: String,
    /// Lua registry key for the handler function.
    pub handler_key: Option<String>,
    /// Display title.
    pub title: String,
    /// Optional icon.
    pub icon: Option<String>,
}

impl Clone for ActionMenuItem {
    fn clone(&self) -> (r: Self)
        ensures
            r.view_id@ == self.view_id@,
            r.action_id@ == self.action_id@,
            opt_view(r.handler_key) == opt_view(self.handler_key),
            r.title@ == self.title@,
            opt_view(r.icon) == opt_view(self.icon),
    {
        ActionMenuItem {
            view_id: self.view_id.clone(),
            action_id: self.action_id.clone(),
            handler_key: clone_opt_string(&self.handler_key),
            title: self.title.clone(),
            icon: clone_opt_string(&self.icon),
        }
    }
}

/// State for the action menu overlay.
#[derive(Debug)]
pub struct ActionMenuState {
    /// Available actions for current selection.
    pub actions: Vec<ActionMenuItem>,
    /// Currently highlighted action index.
    pub cursor_index: usize,
}

impl ActionMenuState {
    /// The cursor is on an action, or at 0 when there is none.
    pub open spec fn cursor_valid(&self) -> bool {
        self.cursor_index == 0 || self.cursor_index < self.actions@.len()
    }

    /// Create a new action menu with the cursor on the first action.
    pub fn new(actions: Vec<ActionMenuItem>) -> (r: Self)
        ensures
            r.actions@ == actions@,
            r.cursor_index == 0,
            r.cursor_valid(),
    {
        ActionMenuState { actions, cursor_index: 0 }
    }

    /// Move cursor up (stops at the first action).
    pub fn cursor_up(&mut self)
        ensures
            final(self).actions@ == old(self).actions@,
            final(self).cursor_index == (if old(self).cursor_index > 0 { old(self).cursor_index - 1 } else { 0 }),
            old(self).cursor_valid() ==> final(self).cursor_valid(),
    {
        if self.cursor_index > 0 {
            self.cursor_index = self.cursor_index - 1;
        }
    }

    /// Move cursor down (stops at the last action).
    pub fn cursor_down(&mut self)
        ensures
            final(self).actions@ == old(self).actions@,
            final(self).cursor_index == (if old(self).cursor_index + 1 < old(self).actions@.len() {
                old(self).cursor_index + 1
            } else {
                old(self).cursor_index as int
            }),
            old(self).cursor_valid() ==> final(self).cursor_valid(),
    {
        if self.cursor_index < self.actions.len() && self.cursor_index + 1 < self.actions.len() {
            self.cursor_index = self.cursor_index + 1;
        }
    }

    /// Get the selected action.
    pub fn selected_action(&self) -> (r: Option<&ActionMenuItem>)
        ensures
            r == (if self.cursor_index < self.actions@.len() {
                Some(&self.actions@[self.cursor_index as int])
            } else {
                None
            }),
    {
        if self.cursor_index < self.actions.len() {
            Some(&self.actions[self.cursor_index])
        } else {
            None
        }
    }
}

// =============================================================================
// Execution feedback
// =============================================================================

/// Feedback displayed during/after action execution.
#[derive(Debug)]
pub enum ExecutionFeedback {
    /// Action is in progress.
    Progress { message: String },
    /// Action completed successfully.
    Complete { message: String },
    /// Action failed.
    Failed { error: String },
}

// =============================================================================
// List entries and their model
// =============================================================================

/// An entry in the flattened list for rendering.
#[derive(Debug)]
pub enum ListEntry {
    /// A group header row.
    GroupHeader { title: String },
    /// An item row, with its index into the flat item list.
    Item { item: Item, flat_index: usize },
}

/// The abstract content of a list entry.
pub enum EntryView {
    Header(Seq<char>),
    Row(ItemView, nat),
}

impl View for ListEntry {
    type V = EntryView;

    open spec fn view(&self) -> EntryView {
        match self {
            ListEntry::GroupHeader { title } => EntryView::Header(title@),
            ListEntry::Item { item, flat_index } => EntryView::Row(item@, *flat_index as nat),
        }
    }
}

/// The contents of a list of entries.
pub open spec fn entries_view(v: Seq<ListEntry>) -> Seq<EntryView> {
    v.map_values(|e: ListEntry| e@)
}

/// All items of the groups, in display order.
pub open spec fn flat_items(gs: Seq<GroupView>) -> Seq<ItemView>
    decreases gs.len(),
{
    if gs.len() == 0 {
        Seq::empty()
    } else {
        flat_items(gs.drop_last()) + gs.last().items
    }
}

/// The header row of a group, if it has a title.
pub open spec fn header_part(g: GroupView) -> Seq<EntryView> {
    match g.title {
        Some(t) => seq![EntryView::Header(t)],
        None => Seq::empty(),
    }
}

/// The rows of a group whose first item has flat index `start`.
pub open spec fn group_rows(g: GroupView, start: nat, n: int) -> Seq<EntryView> {
    Seq::new(n as nat, |i: int| EntryView::Row(g.items[i], (start + i) as nat))
}

/// The rendered entries of the groups: each group's header (if titled), then
/// its items numbered consecutively across groups.
pub open spec fn entries_of(gs: Seq<GroupView>) -> Seq<EntryView>
    decreases gs.len(),
{
    if gs.len() == 0 {
        Seq::empty()
    } else {
        entries_of(gs.drop_last()) + header_part(gs.last()) + group_rows(
            gs.last(),
            flat_items(gs.drop_last()).len(),
            gs.last().items.len() as int,
        )
    }
}

/// The number of header rows among the groups.
pub open spec fn header_count(gs: Seq<GroupView>) -> nat
    decreases gs.len(),
{
    if gs.len() == 0 {
        0
    } else {
        header_count(gs.drop_last()) + header_part(gs.last()).len()
    }
}

/// There is one entry per header and per item.
pub proof fn lemma_entries_len(gs: Seq<GroupView>)
    ensures
        entries_of(gs).len() == header_count(gs) + flat_items(gs).len(),
    decreases gs.len(),
{
    if gs.len() > 0 {
        lemma_entries_len(gs.drop_last());
    }
}

/// The last position of an item with a given id (a later item with the same id
/// hides an earlier one).
pub open spec fn last_with_id(items: Seq<ItemView>, id: Seq<char>) -> Option<int>
    decreases items.len(),
{
    if items.len() == 0 {
        None
    } else if items.last().id == id {
        Some(items.len() - 1)
    } else {
        last_with_id(items.drop_last(), id)
    }
}

/// Facts about the last position of an id.
pub proof fn lemma_last_with_id(items: Seq<ItemView>, id: Seq<char>)
    ensures
        match last_with_id(items, id) {
            Some(i) => 0 <= i < items.len() && items[i].id == id && forall|j: int| i < j < items.len() ==> items[j].id != id,
            None => forall|j: int| 0 <= j < items.len() ==> items[j].id != id,
        },
    decreases items.len(),
{
    if items.len() > 0 && items.last().id != id {
        let t = items.drop_last();
        lemma_last_with_id(t, id);
        assert forall|j: int| 0 <= j < t.len() implies t[j] == items[j] by {}
    }
}

/// The position of the first row whose flat index is `index`, or 0.
pub open spec fn row_position(entries: Seq<EntryView>, index: nat, from: int) -> int
    decreases entries.len() - from,
{
    if from < 0 || from >= entries.len() {
        0
    } else if entries[from] matches EntryView::Row(_, k) && k == index {
        from
    } else {
        row_position(entries, index, from + 1)
    }
}

/// The texts of a list of ids.
pub open spec fn ids_view(v: Seq<ItemId>) -> Seq<Seq<char>> {
    v.map_values(|i: ItemId| i.0@)
}

/// The ids of a list of items.
pub open spec fn item_ids_of(items: Seq<ItemView>) -> Seq<Seq<char>> {
    items.map_values(|i: ItemView| i.id)
}

/// The items found for the selected ids, in selection order; ids with no
/// item are skipped.
pub open spec fn selected_items_of(selected: Seq<Seq<char>>, items: Seq<ItemView>) -> Seq<ItemView>
    decreases selected.len(),
{
    if selected.len() == 0 {
        Seq::empty()
    } else {
        let rest = selected_items_of(selected.drop_last(), items);
        match last_with_id(items, selected.last()) {
            Some(i) => rest.push(items[i]),
            None => rest,
        }
    }
}

/// Toggling an id in a set of ids.
pub open spec fn toggled(s: Set<Seq<char>>, id: Seq<char>) -> Set<Seq<char>> {
    if s.contains(id) {
        s.remove(id)
    } else {
        s.insert(id)
    }
}

// =============================================================================
// View frames
// =============================================================================

/// Unique identifier for a view frame.
#[derive(Debug, Clone, Copy, PartialEq, Eq, Hash, Structural)]
pub struct ViewId(pub u64);

impl ViewId {
    /// The sequence that view ids are taken from: the first id is 1.
    pub fn sequence() -> (r: IdSequence)
        ensures
            r.peek() == 1,
    {
        IdSequence::starting_at(1)
    }

    /// Take the next id from a sequence.
    pub fn new(ids: &mut IdSequence) -> (r: Self)
        ensures
            r.0 == old(ids).peek(),
            final(ids).peek() == (if old(ids).peek() == u64::MAX { 0 } else { old(ids).peek() + 1 }),
    {
        ViewId(ids.take())
    }
}

/// The list rows, item ids and items of groups, in display order: each
/// group's header (if it has a title) followed by its items, numbered
/// consecutively across groups.
pub fn flatten_groups(groups: &Vec<Group>) -> (r: (Vec<ListEntry>, Vec<ItemId>, Vec<Item>))
    ensures
        entries_view(r.0@) == entries_of(groups_view(groups@)),
        ids_view(r.1@) == item_ids_of(flat_items(groups_view(groups@))),
        items_view(r.2@) == flat_items(groups_view(groups@)),
{
    let mut entries: Vec<ListEntry> = Vec::new();
    let mut ids: Vec<ItemId> = Vec::new();
    let mut items: Vec<Item> = Vec::new();
    let ghost gs = groups_view(groups@);
    let mut k: usize = 0;
    while k < groups.len()
        invariant
            0 <= k <= groups@.len(),
            gs == groups_view(groups@),
            entries_view(entries@) == entries_of(gs.take(k as int)),
            items_view(items@) == flat_items(gs.take(k as int)),
            ids_view(ids@) == item_ids_of(flat_items(gs.take(k as int))),
            ids@.len() == items@.len(),
        decreases groups@.len() - k,
    {
        let group = &groups[k];
        let ghost g = gs[k as int];
        proof {
            assert(g == group@);
            lemma_take_succ(gs, k as int);
            assert(gs.take(k as int + 1).drop_last() =~= gs.take(k as int));
        }
        let ghost before_entries = entries_view(entries@);
        match &group.title {
            Some(title) => {
                entries.push(ListEntry::GroupHeader { title: title.clone() });
            },
            None => {},
        }
        proof {
            assert(entries_view(entries@) =~= before_entries + header_part(g));
        }
        let ghost start = items@.len();
        let ghost with_header = entries_view(entries@);
        let mut j: usize = 0;
        while j < group.items.len()
            invariant
                0 <= j <= group.items@.len(),
                g == group@,
                items@.len() == start + j,
                ids@.len() == items@.len(),
                entries_view(entries@) == with_header + group_rows(g, start as nat, j as int),
                items_view(items@) == flat_items(gs.take(k as int)) + g.items.take(j as int),
                ids_view(ids@) == item_ids_of(flat_items(gs.take(k as int)) + g.items.take(j as int)),
                start == flat_items(gs.take(k as int)).len(),
            decreases group.items@.len() - j,
        {
            let item = &group.items[j];
            let flat_index = items.len();
            let ghost iv = item@;
            proof {
                assert(iv == g.items[j as int]);
            }
            let ghost e0 = entries_view(entries@);
            let ghost i0 = items_view(items@);
            let ghost d0 = ids_view(ids@);
            let copy = item.clone();
            let entry = ListEntry::Item { item: copy, flat_index };
            proof {
                assert(entry@ == EntryView::Row(iv, flat_index as nat));
            }
            entries.push(entry);
            ids.push(item.item_id());
            items.push(item.clone());
            proof {
                assert(entries_view(entries@) =~= e0.push(EntryView::Row(iv, flat_index as nat)));
                assert(items_view(items@) =~= i0.push(iv));
                assert(ids_view(ids@) =~= d0.push(iv.id));
                assert(flat_index == start + j);
                assert(group_rows(g, start as nat, j as int + 1) =~= group_rows(g, start as nat, j as int).push(EntryView::Row(iv, flat_index as nat)));
                assert(entries_view(entries@) =~= with_header + group_rows(g, start as nat, j as int + 1));
                assert(g.items.take(j as int + 1) =~= g.items.take(j as int).push(iv));
                assert(items_view(items@) =~= flat_items(gs.take(k as int)) + g.items.take(j as int + 1));
                assert(ids_view(ids@) =~= item_ids_of(flat_items(gs.take(k as int)) + g.items.take(j as int + 1)));
            }
            j = j + 1;
        }
        proof {
            assert(g.items.take(g.items.len() as int) =~= g.items);
            assert(entries_view(entries@) =~= entries_of(gs.take(k as int + 1)));
            assert(items_view(items@) =~= flat_items(gs.take(k as int + 1)));
        }
        k = k + 1;
    }
    proof {
        assert(gs.take(gs.len() as int) =~= gs);
    }
    (entries, ids, items)
}

/// A single frame in the view stack with its full UI state, so that popping
/// back to it restores query, results, cursor and selection.
#[derive(Debug)]
pub struct ViewFrame {
    /// Unique identifier for this frame.
    pub view_id: ViewId,
    /// Current search query.
    pub query: String,
    /// Groups returned by the source.
    pub groups: Vec<Group>,
    /// Flattened entries for rendering.
    pub flat_entries: Vec<ListEntry>,
    /// Item IDs in display order (for cursor navigation).
    pub item_ids: Vec<ItemId>,
    /// Items in display order, looked up by id (a later item with the same id
    /// hides an earlier one).
    pub items: Vec<Item>,
    /// Whether a search is in progress.
    pub loading: bool,
    /// Generation counter for async cancellation.
    pub generation: u64,
    /// Index into item_ids of the cursor position.
    pub cursor_index: usize,
    /// Selection mode for this view.
    pub selection_mode: SelectionMode,
    /// Selected item IDs, each at most once.
    pub selected_ids: Vec<ItemId>,
    /// Placeholder text for the search input.
    pub placeholder: String,
    /// Title shown in breadcrumbs/header.
    pub title: Option<String>,
}

impl ViewFrame {
    /// The groups' contents.
    pub open spec fn groups_model(&self) -> Seq<GroupView> {
        groups_view(self.groups@)
    }

    /// The selected ids as a set.
    pub open spec fn selected_set(&self) -> Set<Seq<char>> {
        ids_view(self.selected_ids@).to_set()
    }

    /// The frame's invariant: the cached entries, ids and items are those of
    /// the groups, the cursor is on an item (or 0 when there is none), and no
    /// id is selected twice.
    pub open spec fn wf(&self) -> bool {
        &&& entries_view(self.flat_entries@) == entries_of(self.groups_model())
        &&& items_view(self.items@) == flat_items(self.groups_model())
        &&& ids_view(self.item_ids@) == item_ids_of(flat_items(self.groups_model()))
        &&& (self.cursor_index == 0 || self.cursor_index < self.item_ids@.len())
        &&& ids_view(self.selected_ids@).no_duplicates()
    }

    fn blank(view_id: ViewId, placeholder: String, title: Option<String>, selection_mode: SelectionMode) -> (r: Self)
        ensures
            r.wf(),
            r.view_id == view_id,
            r.query@.len() == 0,
            r.groups@.len() == 0,
            r.cursor_index == 0,
            r.selected_ids@.len() == 0,
            r.selection_mode == selection_mode,
            r.placeholder@ == placeholder@,
            opt_view(r.title) == opt_view(title),
            !r.loading,
            r.generation == 0,
    {
        let r = ViewFrame {
            view_id,
            query: String::new(),
            groups: Vec::new(),
            flat_entries: Vec::new(),
            item_ids: Vec::new(),
            items: Vec::new(),
            loading: false,
            generation: 0,
            cursor_index: 0,
            selection_mode,
            selected_ids: Vec::new(),
            placeholder,
            title,
        };
        proof {
            assert(r.groups_model() =~= Seq::<GroupView>::empty());
            assert(entries_view(r.flat_entries@) =~= entries_of(r.groups_model()));
            assert(items_view(r.items@) =~= flat_items(r.groups_model()));
            assert(ids_view(r.item_ids@) =~= item_ids_of(flat_items(r.groups_model())));
            assert(ids_view(r.selected_ids@) =~= Seq::<Seq<char>>::empty());
        }
        r
    }

    /// Create a root frame: empty results, single selection, placeholder
    /// "Search...", no title.
    pub fn root(view_id: ViewId) -> (r: Self)
        ensures
            r.wf(),
            r.view_id == view_id,
            r.query@.len() == 0,
            r.groups@.len() == 0,
            r.cursor_index == 0,
            r.selected_ids@.len() == 0,
            r.selection_mode == SelectionMode::Single,
            r.placeholder@ == "Search..."@,
            r.title is None,
    {
        Self::blank(view_id, owned("Search..."), None, SelectionMode::Single)
    }

    /// Create a new frame for a pushed view.
    pub fn new_push(view_id: ViewId, placeholder: &str, title: Option<String>, selection_mode: SelectionMode) -> (r: Self)
        ensures
            r.wf(),
            r.view_id == view_id,
            r.query@.len() == 0,
            r.groups@.len() == 0,
            r.cursor_index == 0,
            r.selected_ids@.len() == 0,
            r.selection_mode == selection_mode,
            r.placeholder@ == placeholder@,
            opt_view(r.title) == opt_view(title),
    {
        Self::blank(view_id, owned(placeholder), title, selection_mode)
    }

    /// Replace the groups, rebuild the cached entries, ids and items, and pull
    /// the cursor back onto the last item if it is past the end.
    pub fn set_groups(&mut self, groups: Vec<Group>)
        requires
            ids_view(old(self).selected_ids@).no_duplicates(),
        ensures
            final(self).wf(),
            final(self).groups_model() == groups_view(groups@),
            final(self).cursor_index == (if old(self).cursor_index >= flat_items(groups_view(groups@)).len() {
                if flat_items(groups_view(groups@)).len() == 0 { 0 } else { flat_items(groups_view(groups@)).len() - 1 }
            } else {
                old(self).cursor_index as int
            }),
            final(self).selected_ids@ == old(self).selected_ids@,
            final(self).query@ == old(self).query@,
            final(self).view_id == old(self).view_id,
            final(self).selection_mode == old(self).selection_mode,
            final(self).placeholder@ == old(self).placeholder@,
            opt_view(final(self).title) == opt_view(old(self).title),
            final(self).loading == old(self).loading,
            final(self).generation == old(self).generation,
    {
        self.groups = groups;
        self.rebuild_indices();
        proof {
            assert(ids_view(self.item_ids@).len() == self.item_ids@.len());
            assert(item_ids_of(flat_items(self.groups_model())).len() == flat_items(self.groups_model()).len());
        }
        self.clamp_cursor();
    }

    fn rebuild_indices(&mut self)
        ensures
            entries_view(final(self).flat_entries@) == entries_of(final(self).groups_model()),
            items_view(final(self).items@) == flat_items(final(self).groups_model()),
            ids_view(final(self).item_ids@) == item_ids_of(flat_items(final(self).groups_model())),
            final(self).groups@ == old(self).groups@,
            final(self).cursor_index == old(self).cursor_index,
            final(self).selected_ids@ == old(self).selected_ids@,
            final(self).query@ == old(self).query@,
            final(self).view_id == old(self).view_id,
            final(self).selection_mode == old(self).selection_mode,
            final(self).placeholder@ == old(self).placeholder@,
            final(self).title == old(self).title,
            final(self).loading == old(self).loading,
            final(self).generation == old(self).generation,
    {
        let (entries, ids, items) = flatten_groups(&self.groups);
        self.flat_entries = entries;
        self.item_ids = ids;
        self.items = items;
    }

    fn clamp_cursor(&mut self)
        ensures
            final(self).cursor_index == (if old(self).cursor_index >= old(self).item_ids@.len() {
                if old(self).item_ids@.len() == 0 { 0 } else { old(self).item_ids@.len() - 1 }
            } else {
                old(self).cursor_index as int
            }),
            final(self).groups@ == old(self).groups@,
            final(self).flat_entries@ == old(self).flat_entries@,
            final(self).item_ids@ == old(self).item_ids@,
            final(self).items@ == old(self).items@,
            final(self).selected_ids@ == old(self).selected_ids@,
            final(self).query@ == old(self).query@,
            final(self).view_id == old(self).view_id,
            final(self).selection_mode == old(self).selection_mode,
            final(self).placeholder@ == old(self).placeholder@,
            final(self).title == old(self).title,
            final(self).loading == old(self).loading,
            final(self).generation == old(self).generation,
    {
        if self.cursor_index >= self.item_ids.len() {
            self.cursor_index = self.item_ids.len().saturating_sub(1);
        }
    }

    /// The item under the cursor: the item found for the cursor's id.
    pub open spec fn cursor_item_spec(&self) -> Option<ItemView> {
        if self.cursor_index < self.item_ids@.len() {
            match last_with_id(items_view(self.items@), self.item_ids@[self.cursor_index as int].0@) {
                Some(i) => Some(items_view(self.items@)[i]),
                None => None,
            }
        } else {
            None
        }
    }

    fn find_item(&self, id: &ItemId) -> (r: Option<usize>)
        ensures
            match r {
                Some(i) => last_with_id(items_view(self.items@), id.0@) == Some(i as int) && i < self.items@.len(),
                None => last_with_id(items_view(self.items@), id.0@) is None,
            },
    {
        let ghost iv = items_view(self.items@);
        let mut i: usize = self.items.len();
        proof {
            assert(iv.take(i as int) =~= iv);
        }
        while i > 0
            invariant
                0 <= i <= self.items@.len(),
                iv == items_view(self.items@),
                last_with_id(iv, id.0@) == last_with_id(iv.take(i as int), id.0@),
            decreases i,
        {
            let ghost t = iv.take(i as int);
            proof {
                assert(t.last() == iv[i - 1]);
                assert(t.drop_last() =~= iv.take(i - 1));
            }
            if self.items[i - 1].id == id.0 {
                return Some(i - 1);
            }
            i = i - 1;
        }
        proof {
            assert(iv.take(0) =~= Seq::<ItemView>::empty());
        }
        None
    }

    /// Get the item at the cursor position.
    pub fn cursor_item(&self) -> (r: Option<&Item>)
        ensures
            match r {
                Some(t) => self.cursor_item_spec() == Some(t@),
                None => self.cursor_item_spec() is None,
            },
    {
        if self.cursor_index < self.item_ids.len() {
            match self.find_item(&self.item_ids[self.cursor_index]) {
                Some(i) => Some(&self.items[i]),
                None => None,
            }
        } else {
            None
        }
    }

    /// Get the cursor item's ID.
    pub fn cursor_id(&self) -> (r: Option<&ItemId>)
        ensures
            r == (if self.cursor_index < self.item_ids@.len() {
                Some(&self.item_ids@[self.cursor_index as int])
            } else {
                None
            }),
    {
        if self.cursor_index < self.item_ids.len() {
            Some(&self.item_ids[self.cursor_index])
        } else {
            None
        }
    }

    /// Move cursor up (stops at the first item).
    pub fn cursor_up(&mut self)
        requires
            old(self).wf(),
        ensures
            final(self).wf(),
            final(self).cursor_index == (if old(self).cursor_index > 0 { old(self).cursor_index - 1 } else { 0 }),
            final(self).groups@ == old(self).groups@,
            final(self).selected_ids@ == old(self).selected_ids@,
    {
        if self.cursor_index > 0 {
            self.cursor_index = self.cursor_index - 1;
        }
    }

    /// Move cursor down (stops at the last item).
    pub fn cursor_down(&mut self)
        requires
            old(self).wf(),
        ensures
            final(self).wf(),
            final(self).cursor_index == (if old(self).cursor_index + 1 < old(self).item_ids@.len() {
                old(self).cursor_index + 1
            } else {
                old(self).cursor_index as int
            }),
            final(self).groups@ == old(self).groups@,
            final(self).selected_ids@ == old(self).selected_ids@,
    {
        if self.cursor_index < self.item_ids.len() && self.cursor_index + 1 < self.item_ids.len() {
            self.cursor_index = self.cursor_index + 1;
        }
    }

    /// Get the number of items.
    pub fn item_count(&self) -> (r: usize)
        ensures
            r == self.item_ids@.len(),
    {
        self.item_ids.len()
    }

    /// Check if the frame has any items.
    pub fn has_items(&self) -> (r: bool)
        ensures
            r == (self.item_ids@.len() > 0),
    {
        self.item_ids.len() > 0
    }

    fn selected_position(&self, id: &ItemId) -> (r: Option<usize>)
        ensures
            match r {
                Some(i) => i < self.selected_ids@.len() && self.selected_ids@[i as int].0@ == id.0@,
                None => !ids_view(self.selected_ids@).contains(id.0@),
            },
    {
        let mut i: usize = 0;
        while i < self.selected_ids.len()
            invariant
                0 <= i <= self.selected_ids@.len(),
                forall|j: int| 0 <= j < i ==> self.selected_ids@[j].0@ != id.0@,
            decreases self.selected_ids@.len() - i,
        {
            if item_id_eq(&self.selected_ids[i], id) {
                return Some(i);
            }
            i = i + 1;
        }
        proof {
            assert forall|j: int| 0 <= j < ids_view(self.selected_ids@).len() implies ids_view(self.selected_ids@)[j] != id.0@ by {
                assert(ids_view(self.selected_ids@)[j] == self.selected_ids@[j].0@);
            }
        }
        None
    }

    /// Toggle selection of the item under the cursor (for multi-select mode).
    pub fn toggle_selection_at_cursor(&mut self)
        requires
            old(self).wf(),
        ensures
            final(self).wf(),
            final(self).selected_set() == (if old(self).cursor_index < old(self).item_ids@.len() {
                toggled(old(self).selected_set(), old(self).item_ids@[old(self).cursor_index as int].0@)
            } else {
                old(self).selected_set()
            }),
            final(self).groups@ == old(self).groups@,
            final(self).cursor_index == old(self).cursor_index,
    {
        if self.cursor_index < self.item_ids.len() {
            let id = self.item_ids[self.cursor_index].clone();
            let ghost s0 = ids_view(self.selected_ids@);
            match self.selected_position(&id) {
                Some(i) => {
                    self.selected_ids.remove(i);
                    proof {
                        assert(ids_view(self.selected_ids@) =~= s0.remove(i as int));
                        lemma_remove_distinct(s0, i as int);
                    }
                },
                None => {
                    self.selected_ids.push(id);
                    proof {
                        assert(ids_view(self.selected_ids@) =~= s0.push(id.0@));
                        lemma_push_distinct(s0, id.0@);
                    }
                },
            }
        }
    }

    /// Get the selected items, in selection order.
    pub fn selected_items(&self) -> (r: Vec<&Item>)
        ensures
            r@.map_values(|t: &Item| t@) == selected_items_of(ids_view(self.selected_ids@), items_view(self.items@)),
    {
        let ghost sel = ids_view(self.selected_ids@);
        let mut out: Vec<&Item> = Vec::new();
        let mut i: usize = 0;
        while i < self.selected_ids.len()
            invariant
                0 <= i <= self.selected_ids@.len(),
                sel == ids_view(self.selected_ids@),
                out@.map_values(|t: &Item| t@) == selected_items_of(sel.take(i as int), items_view(self.items@)),
            decreases self.selected_ids@.len() - i,
        {
            proof {
                lemma_take_succ(sel, i as int);
                assert(sel.take(i as int + 1).drop_last() =~= sel.take(i as int));
                assert(sel[i as int] == self.selected_ids@[i as int].0@);
            }
            let ghost before = out@;
            proof {
                assert(before.map_values(|t: &Item| t@) == selected_items_of(sel.take(i as int), items_view(self.items@)));
            }
            match self.find_item(&self.selected_ids[i]) {
                Some(k) => {
                    out.push(&self.items[k]);
                    proof {
                        assert(out@.map_values(|t: &Item| t@) =~= before.map_values(|t: &Item| t@).push(self.items@[k as int]@));
                    }
                },
                None => {},
            }
            i = i + 1;
        }
        proof {
            assert(sel.take(sel.len() as int) =~= sel);
        }
        out
    }

    /// Clear selection.
    pub fn clear_selection(&mut self)
        requires
            old(self).wf(),
        ensures
            final(self).wf(),
            final(self).selected_set() == Set::<Seq<char>>::empty(),
            final(self).selected_ids@.len() == 0,
            final(self).groups@ == old(self).groups@,
            final(self).cursor_index == old(self).cursor_index,
    {
        self.selected_ids = Vec::new();
        proof {
            assert(ids_view(self.selected_ids@) =~= Seq::<Seq<char>>::empty());
            assert(self.selected_set() =~= Set::<Seq<char>>::empty());
        }
    }

    /// Convert the cursor index to a list entry index (accounting for
    /// headers): the first row whose flat index is the cursor, or 0.
    pub fn cursor_to_list_index(&self) -> (r: usize)
        ensures
            r == row_position(entries_view(self.flat_entries@), self.cursor_index as nat, 0),
    {
        let ghost ev = entries_view(self.flat_entries@);
        let mut i: usize = 0;
        while i < self.flat_entries.len()
            invariant
                0 <= i <= self.flat_entries@.len(),
                ev == entries_view(self.flat_entries@),
                row_position(ev, self.cursor_index as nat, 0) == row_position(ev, self.cursor_index as nat, i as int),
            decreases self.flat_entries@.len() - i,
        {
            match &self.flat_entries[i] {
                ListEntry::Item { flat_index, .. } => {
                    if *flat_index == self.cursor_index {
                        return i;
                    }
                },
                ListEntry::GroupHeader { .. } => {},
            }
            i = i + 1;
        }
        0
    }
}

/// Appending an element that is not present keeps a sequence duplicate-free
/// and adds it to its set.
pub proof fn lemma_push_distinct<A>(s: Seq<A>, x: A)
    requires
        s.no_duplicates(),
        !s.contains(x),
    ensures
        s.push(x).no_duplicates(),
        s.push(x).to_set() == s.to_set().insert(x),
{
    let t = s.push(x);
    assert forall|a: int, b: int| 0 <= a < t.len() && 0 <= b < t.len() && a != b implies t[a] != t[b] by {
        if a < s.len() && b < s.len() {
            assert(t[a] == s[a] && t[b] == s[b]);
        } else if a < s.len() {
            assert(t[a] == s[a]);
        } else if b < s.len() {
            assert(t[b] == s[b]);
        }
    }
    assert forall|v: A| t.to_set().contains(v) <==> s.to_set().insert(x).contains(v) by {
        if t.to_set().contains(v) {
            let a = choose|a: int| 0 <= a < t.len() && t[a] == v;
            if a < s.len() {
                assert(s[a] == v);
            }
        }
        if s.to_set().contains(v) {
            let a = choose|a: int| 0 <= a < s.len() && s[a] == v;
            assert(t[a] == v);
        }
        if v == x {
            assert(t[s.len() as int] == v);
        }
    }
    assert(t.to_set() =~= s.to_set().insert(x));
}

/// Removing an element keeps a duplicate-free sequence duplicate-free and
/// removes exactly that element from its set.
pub proof fn lemma_remove_distinct<A>(s: Seq<A>, i: int)
    requires
        s.no_duplicates(),
        0 <= i < s.len(),
    ensures
        s.remove(i).no_duplicates(),
        s.remove(i).to_set() == s.to_set().remove(s[i]),
{
    let t = s.remove(i);
    assert forall|a: int, b: int| 0 <= a < t.len() && 0 <= b < t.len() && a != b implies t[a] != t[b] by {
        let x = if a < i { a } else { a + 1 };
        let y = if b < i { b } else { b + 1 };
        assert(t[a] == s[x] && t[b] == s[y]);
    }
    assert forall|v: A| t.to_set().contains(v) <==> s.to_set().remove(s[i]).contains(v) by {
        if t.to_set().contains(v) {
            let a = choose|a: int| 0 <= a < t.len() && t[a] == v;
            let x = if a < i { a } else { a + 1 };
            assert(s[x] == v && x != i);
        }
        if s.to_set().remove(s[i]).contains(v) {
            let x = choose|x: int| 0 <= x < s.len() && s[x] == v;
            assert(x != i);
            let a = if x < i { x } else { x - 1 };
            assert(t[a] == v);
        }
    }
    assert(t.to_set() =~= s.to_set().remove(s[i]));
}

/// Toggling the same id twice restores the selection.
pub proof fn law_toggle_twice(s: Set<Seq<char>>, id: Seq<char>)
    ensures
        toggled(toggled(s, id), id) == s,
{
    if s.contains(id) {
        assert(toggled(toggled(s, id), id) =~= s);
    } else {
        assert(toggled(toggled(s, id), id) =~= s);
    }
}

// =============================================================================
// View stack
// =============================================================================

/// Stack of view frames with full state preservation. The root frame is
/// never popped.
#[derive(Debug)]
pub struct ViewStack {
    frames: Vec<ViewFrame>,
}

impl ViewStack {
    /// The frames, root first.
    pub closed spec fn frames(&self) -> Seq<ViewFrame> {
        self.frames@
    }

    /// Create a new view stack with a root frame.
    pub fn new_root(root_id: ViewId) -> (r: Self)
        ensures
            r.frames().len() == 1,
            r.frames()[0].wf(),
            r.frames()[0].view_id == root_id,
            r.frames()[0].title is None,
            r.frames()[0].selection_mode == SelectionMode::Single,
    {
        let mut frames: Vec<ViewFrame> = Vec::new();
        frames.push(ViewFrame::root(root_id));
        ViewStack { frames }
    }

    /// Get the current (top) frame.
    pub fn current(&self) -> (r: Option<&ViewFrame>)
        ensures
            r == (if self.frames().len() > 0 { Some(&self.frames().last()) } else { None }),
    {
        let n = self.frames.len();
        if n > 0 {
            Some(&self.frames[n - 1])
        } else {
            None
        }
    }

    /// Get the current frame for modification.
    pub fn current_mut(&mut self) -> (r: Option<&mut ViewFrame>)
        ensures
            old(self).frames().len() == 0 ==> r is None && final(self).frames() == old(self).frames(),
            old(self).frames().len() > 0 ==> r is Some && *r->0 == old(self).frames().last()
                && final(self).frames() == old(self).frames().update(old(self).frames().len() - 1, *final(r->0)),
    {
        self.frames.as_mut_slice().last_mut()
    }

    /// Push a new frame onto the stack.
    pub fn push(&mut self, frame: ViewFrame)
        ensures
            final(self).frames() == old(self).frames().push(frame),
    {
        self.frames.push(frame);
    }

    /// Pop the top frame. Never pops the root.
    pub fn pop(&mut self) -> (r: Option<ViewFrame>)
        ensures
            old(self).frames().len() > 1 ==> r == Some(old(self).frames().last())
                && final(self).frames() == old(self).frames().drop_last(),
            old(self).frames().len() <= 1 ==> r is None && final(self).frames() == old(self).frames(),
    {
        if self.frames.len() > 1 {
            self.frames.pop()
        } else {
            None
        }
    }

    /// Replace the current frame.
    pub fn replace(&mut self, frame: ViewFrame)
        ensures
            old(self).frames().len() > 0 ==> final(self).frames() == old(self).frames().update(old(self).frames().len() - 1, frame),
            old(self).frames().len() == 0 ==> final(self).frames() == old(self).frames(),
    {
        let n = self.frames.len();
        if n > 0 {
            self.frames.set(n - 1, frame);
        }
    }

    /// Get the depth of the stack.
    pub fn depth(&self) -> (r: usize)
        ensures
            r == self.frames().len(),
    {
        self.frames.len()
    }

    /// Check if we're at the root view.
    pub fn is_root(&self) -> (r: bool)
        ensures
            r == (self.frames().len() == 1),
    {
        self.frames.len() == 1
    }

    /// Breadcrumb titles for navigation display, root first.
    pub fn breadcrumbs(&self) -> (r: Vec<Option<&str>>)
        ensures
            r@.len() == self.frames().len(),
            forall|i: int| 0 <= i < r@.len() ==> (match #[trigger] r@[i] {
                Some(t) => Some(t@),
                None => None,
            }) == opt_view(self.frames()[i].title),
    {
        let mut out: Vec<Option<&str>> = Vec::new();
        let mut i: usize = 0;
        while i < self.frames.len()
            invariant
                0 <= i <= self.frames@.len(),
                out@.len() == i,
                forall|j: int| 0 <= j < i ==> (match #[trigger] out@[j] {
                    Some(t) => Some(t@),
                    None => None,
                }) == opt_view(self.frames@[j].title),
            decreases self.frames@.len() - i,
        {
            let crumb = match &self.frames[i].title {
                Some(t) => Some(t.as_str()),
                None => None,
            };
            out.push(crumb);
            i = i + 1;
        }
        out
    }
}

/// A push followed by a pop gives back the pushed frame and the stack before
/// the push; the root alone is never popped.
pub proof fn law_push_then_pop(before: Seq<ViewFrame>, frame: ViewFrame)
    requires
        before.len() >= 1,
    ensures
        before.push(frame).len() > 1,
        before.push(frame).last() == frame,
        before.push(frame).drop_last() == before,
{
    assert(before.push(frame).drop_last() =~= before);
}

// =============================================================================
// Launcher phase
// =============================================================================

/// State when the launcher is visible and interactive.
#[derive(Debug)]
pub struct ActiveState {
    /// Stack of views with full state preservation.
    pub view_stack: ViewStack,
    /// Action menu state when open.
    pub action_menu: Option<ActionMenuState>,
    /// Execution feedback for long-running actions.
    pub execution: Option<ExecutionFeedback>,
}

impl ActiveState {
    /// A fresh active state: a root view, no menu, no feedback.
    pub fn new(root_id: ViewId) -> (r: Self)
        ensures
            r.view_stack.frames().len() == 1,
            r.view_stack.frames()[0].wf(),
            r.view_stack.frames()[0].view_id == root_id,
            r.action_menu is None,
            r.execution is None,
    {
        ActiveState { view_stack: ViewStack::new_root(root_id), action_menu: None, execution: None }
    }
}

/// Top-level state machine: hidden, or active with full state.
#[derive(Debug)]
pub enum LauncherPhase {
    /// Launcher is hidden, no UI visible.
    Hidden,
    /// Launcher is active with full state.
    Active(ActiveState),
}

impl Default for LauncherPhase {
    fn default() -> (r: Self)
        ensures
            r is Hidden,
    {
        LauncherPhase::Hidden
    }
}

impl LauncherPhase {
    /// Get the active state if the launcher is active.
    pub fn active(&self) -> (r: Option<&ActiveState>)
        ensures
            r == (match self {
                LauncherPhase::Active(s) => Some(s),
                LauncherPhase::Hidden => None,
            }),
    {
        match self {
            LauncherPhase::Active(state) => Some(state),
            LauncherPhase::Hidden => None,
        }
    }

    /// Get mutable active state if the launcher is active.
    pub fn active_mut(&mut self) -> (r: Option<&mut ActiveState>)
        ensures
            (*old(self) is Hidden) ==> r is None && *final(self) == *old(self),
            (*old(self) is Active) ==> r is Some && *r->0 == (*old(self))->0 && *final(self) == LauncherPhase::Active(*final(r->0)),
    {
        match self {
            LauncherPhase::Active(state) => Some(state),
            LauncherPhase::Hidden => None,
        }
    }

    /// Get the current view frame if active.
    pub fn current_frame(&self) -> (r: Option<&ViewFrame>)
        ensures
            r == (match self {
                LauncherPhase::Active(s) => if s.view_stack.frames().len() > 0 {
                    Some(&s.view_stack.frames().last())
                } else {
                    None
                },
                LauncherPhase::Hidden => None,
            }),
    {
        match self {
            LauncherPhase::Active(state) => state.view_stack.current(),
            LauncherPhase::Hidden => None,
        }
    }

    /// Get the current view frame for modification if active.
    pub fn current_frame_mut(&mut self) -> (r: Option<&mut ViewFrame>)
        ensures
            (*old(self) is Hidden) ==> r is None && *final(self) == *old(self),
            (*old(self) is Active) ==> (*final(self) is Active)
                && (*final(self))->0.action_menu == (*old(self))->0.action_menu
                && (*final(self))->0.execution == (*old(self))->0.execution,
            (*old(self) is Active) && (*old(self))->0.view_stack.frames().len() == 0 ==> r is None
                && (*final(self))->0.view_stack.frames() == (*old(self))->0.view_stack.frames(),
            (*old(self) is Active) && (*old(self))->0.view_stack.frames().len() > 0 ==> r is Some
                && *r->0 == (*old(self))->0.view_stack.frames().last()
                && (*final(self))->0.view_stack.frames() == (*old(self))->0.view_stack.frames().update(
                    (*old(self))->0.view_stack.frames().len() - 1, *final(r->0)),
    {
        match self {
            LauncherPhase::Active(state) => state.view_stack.current_mut(),
            LauncherPhase::Hidden => None,
        }
    }

    /// Check if the launcher is active.
    pub fn is_active(&self) -> (r: bool)
        ensures
            r == (self is Active),
    {
        match self {
            LauncherPhase::Active(_) => true,
            LauncherPhase::Hidden => false,
        }
    }
}

/// View ids increase: `before[i]` is the sequence just before the `i`-th
/// call of `ViewId::new` and `ids[i]` is the id it returned, starting from a
/// sequence made by `ViewId::sequence`. Every id is at least 1 and each is
/// larger than the ones before it, so no two frames share an id, as long as
/// fewer ids were taken than there are `u64`s above 0.
pub proof fn law_view_ids_increase(before: Seq<IdSequence>, ids: Seq<ViewId>)
    requires
        ids.len() == before.len(),
        ids.len() <= u64::MAX,
        before.len() > 0 ==> before[0].peek() == 1,
        forall|i: int| 0 <= i < ids.len() ==> (#[trigger] ids[i]).0 == before[i].peek(),
        forall|i: int| 0 <= i < before.len() - 1 ==> before[i + 1].peek() == next_id(#[trigger] before[i].peek()),
    ensures
        forall|i: int| 0 <= i < ids.len() ==> (#[trigger] ids[i]).0 == i + 1,
        forall|i: int, j: int| 0 <= i < j < ids.len() ==> ids[i].0 < ids[j].0,
{
    assert forall|i: int| 0 <= i < ids.len() implies (#[trigger] ids[i]).0 == i + 1 by {
        lemma_view_id_nth(before, i);
    }
    assert forall|i: int, j: int| 0 <= i < j < ids.len() implies ids[i].0 < ids[j].0 by {
        assert(ids[i].0 == i + 1);
        assert(ids[j].0 == j + 1);
    }
}

/// The `i`-th view id of a sequence that starts at 1 is `i + 1`.
proof fn lemma_view_id_nth(before: Seq<IdSequence>, i: int)
    requires
        0 <= i < before.len(),
        before.len() <= u64::MAX,
        before[0].peek() == 1,
        forall|k: int| 0 <= k < before.len() - 1 ==> before[k + 1].peek() == next_id(#[trigger] before[k].peek()),
    ensures
        before[i].peek() == i + 1,
    decreases i,
{
    if i > 0 {
        lemma_view_id_nth(before, i - 1);
        assert(before[i].peek() == next_id(before[i - 1].peek()));
    }
}

} // verus!
