//! Item and Group types for search results.

use vstd::prelude::*;

use crate::json::clone_json_opt;
use crate::text::owned;

verus! {

/// Stable item identifier.
#[derive(Debug, PartialEq, Eq, Hash)]
pub struct ItemId(pub String);

impl Clone for ItemId {
    fn clone(&self) -> (r: Self)
        ensures
            r == *self,
    {
        ItemId(self.0.clone())
    }
}

impl ItemId {
    /// An id holding the given text.
    pub fn from_str(s: &str) -> (r: Self)
        ensures
            r.0@ == s@,
    {
        ItemId(owned(s))
    }

    /// The id's text.
    pub fn as_str(&self) -> (r: &str)
        ensures
            r@ == self.0@,
    {
        self.0.as_str()
    }
}

/// Compares two string lists element by element.
pub fn strings_equal(a: &Vec<String>, b: &Vec<String>) -> (r: bool)
    ensures
        r == (a@.map_values(|s: String| s@) == b@.map_values(|s: String| s@)),
{
    if a.len() != b.len() {
        proof {
            assert(a@.map_values(|s: String| s@).len() != b@.map_values(|s: String| s@).len());
        }
        return false;
    }
    let mut i: usize = 0;
    while i < a.len()
        invariant
            a@.len() == b@.len(),
            0 <= i <= a@.len(),
            forall|j: int| 0 <= j < i ==> a@[j]@ == b@[j]@,
        decreases a@.len() - i,
    {
        if a[i] != b[i] {
            proof {
                assert(a@.map_values(|s: String| s@)[i as int] != b@.map_values(|s: String| s@)[i as int]);
            }
            return false;
        }
        i = i + 1;
    }
    proof {
        assert(a@.map_values(|s: String| s@) =~= b@.map_values(|s: String| s@));
    }
    true
}

/// Copies an optional string.
pub fn clone_opt_string(v: &Option<String>) -> (r: Option<String>)
    ensures
        r == *v,
{
    match v {
        Some(s) => Some(s.clone()),
        None => None,
    }
}

/// Ids compare equal exactly when their texts are equal.
pub fn item_id_eq(a: &ItemId, b: &ItemId) -> (r: bool)
    ensures
        r == (a.0@ == b.0@),
{
    a.0 == b.0
}

/// Copies a list of strings.
pub fn clone_strings(v: &Vec<String>) -> (r: Vec<String>)
    ensures
        r@ == v@,
        strings_view(r@) == strings_view(v@),
{
    let mut out: Vec<String> = Vec::new();
    let mut i: usize = 0;
    while i < v.len()
        invariant
            0 <= i <= v@.len(),
            out@ == v@.take(i as int),
        decreases v@.len() - i,
    {
        out.push(v[i].clone());
        proof {
            assert(out@ =~= v@.take(i as int + 1));
        }
        i = i + 1;
    }
    proof {
        assert(v@.take(v@.len() as int) =~= v@);
    }
    out
}

/// An item is the atomic unit of data: everything users search, select, and
/// act upon is an item.
#[derive(Debug)]
pub struct Item {
    /// Unique identifier within the current result set.
    pub id: String,
    /// Primary display text.
    pub title: String,
    /// Secondary display text.
    pub subtitle: Option<String>,
    /// Icon identifier (path, emoji, or named icon).
    pub icon: Option<String>,
    /// Type tags for action filtering, e.g. `["file", "typescript"]`.
    pub types: Vec<String>,
    /// Arbitrary data for actions to consume.
    pub data: Option<serde_json::Value>,
}

/// The abstract content of an item.
pub struct ItemView {
    pub id: Seq<char>,
    pub title: Seq<char>,
    pub subtitle: Option<Seq<char>>,
    pub icon: Option<Seq<char>>,
    pub types: Seq<Seq<char>>,
    pub data: Option<serde_json::Value>,
}

/// The text of an optional string.
pub open spec fn opt_view(s: Option<String>) -> Option<Seq<char>> {
    match s {
        Some(t) => Some(t@),
        None => None,
    }
}

/// The texts of a list of strings.
pub open spec fn strings_view(v: Seq<String>) -> Seq<Seq<char>> {
    v.map_values(|s: String| s@)
}

impl View for Item {
    type V = ItemView;

    open spec fn view(&self) -> ItemView {
        ItemView {
            id: self.id@,
            title: self.title@,
            subtitle: opt_view(self.subtitle),
            icon: opt_view(self.icon),
            types: strings_view(self.types@),
            data: self.data,
        }
    }
}

impl Clone for Item {
    fn clone(&self) -> (r: Self)
        ensures
            r@ == self@,
    {
        Item {
            id: self.id.clone(),
            title: self.title.clone(),
            subtitle: clone_opt_string(&self.subtitle),
            icon: clone_opt_string(&self.icon),
            types: clone_strings(&self.types),
            data: clone_json_opt(&self.data),
        }
    }
}

impl Item {
    /// Whether the item carries a type tag.
    pub open spec fn has_type_spec(self, tag: Seq<char>) -> bool {
        exists|i: int| 0 <= i < self.types@.len() && (#[trigger] self.types@[i])@ == tag
    }

    /// Create a new item with required fields.
    pub fn new(id: &str, title: &str) -> (r: Self)
        ensures
            r.id@ == id@,
            r.title@ == title@,
            r.subtitle is None,
            r.icon is None,
            r.types@.len() == 0,
            r.data is None,
    {
        Item {
            id: owned(id),
            title: owned(title),
            subtitle: None,
            icon: None,
            types: Vec::new(),
            data: None,
        }
    }

    /// Check if this item has a specific type tag.
    pub fn has_type(&self, tag: &str) -> (r: bool)
        ensures
            r == self.has_type_spec(tag@),
    {
        let mut i: usize = 0;
        while i < self.types.len()
            invariant
                0 <= i <= self.types@.len(),
                forall|j: int| 0 <= j < i ==> (#[trigger] self.types@[j])@ != tag@,
            decreases self.types@.len() - i,
        {
            if crate::text::str_equal(self.types[i].as_str(), tag) {
                return true;
            }
            i = i + 1;
        }
        false
    }

    /// Get the item's ID as an ItemId.
    pub fn item_id(&self) -> (r: ItemId)
        ensures
            r.0@ == self.id@,
    {
        ItemId(self.id.clone())
    }
}

/// A group of items with an optional title, for sectioned results.
#[derive(Debug)]
pub struct Group {
    /// Optional section title. If None, items are ungrouped.
    pub title: Option<String>,
    /// Items in this group.
    pub items: Vec<Item>,
}

/// Copies a list of items.
pub fn clone_items(v: &Vec<Item>) -> (r: Vec<Item>)
    ensures
        items_view(r@) == items_view(v@),
{
    let mut out: Vec<Item> = Vec::new();
    let mut i: usize = 0;
    while i < v.len()
        invariant
            0 <= i <= v@.len(),
            out@.len() == i,
            forall|j: int| 0 <= j < i ==> (#[trigger] out@[j])@ == v@[j]@,
        decreases v@.len() - i,
    {
        out.push(v[i].clone());
        i = i + 1;
    }
    proof {
        assert(items_view(out@) =~= items_view(v@));
    }
    out
}

/// The abstract content of a group.
pub struct GroupView {
    pub title: Option<Seq<char>>,
    pub items: Seq<ItemView>,
}

/// The contents of a list of items.
pub open spec fn items_view(v: Seq<Item>) -> Seq<ItemView> {
    v.map_values(|i: Item| i@)
}

/// The contents of a list of groups.
pub open spec fn groups_view(v: Seq<Group>) -> Seq<GroupView> {
    v.map_values(|g: Group| g@)
}

impl View for Group {
    type V = GroupView;

    open spec fn view(&self) -> GroupView {
        GroupView { title: opt_view(self.title), items: items_view(self.items@) }
    }
}

impl Clone for Group {
    fn clone(&self) -> (r: Self)
        ensures
            r@ == self@,
    {
        Group { title: clone_opt_string(&self.title), items: clone_items(&self.items) }
    }
}

impl Group {
    /// Create a new group with a title.
    pub fn new(title: &str, items: Vec<Item>) -> (r: Self)
        ensures
            r.title matches Some(t) && t@ == title@,
            r.items@ == items@,
    {
        Group { title: Some(owned(title)), items }
    }

    /// Create an ungrouped group (no title).
    pub fn ungrouped(items: Vec<Item>) -> (r: Self)
        ensures
            r.title is None,
            r.items@ == items@,
    {
        Group { title: None, items }
    }

    /// Check if the group is empty.
    pub fn is_empty(&self) -> (r: bool)
        ensures
            r == (self.items@.len() == 0),
    {
        self.items.len() == 0
    }

    /// Get the number of items in the group.
    pub fn len(&self) -> (r: usize)
        ensures
            r == self.items@.len(),
    {
        self.items.len()
    }
}

/// Copies a list of groups.
pub fn clone_groups(v: &Vec<Group>) -> (r: Vec<Group>)
    ensures
        groups_view(r@) == groups_view(v@),
{
    let mut out: Vec<Group> = Vec::new();
    let mut i: usize = 0;
    while i < v.len()
        invariant
            0 <= i <= v@.len(),
            out@.len() == i,
            forall|j: int| 0 <= j < i ==> (#[trigger] out@[j])@ == v@[j]@,
        decreases v@.len() - i,
    {
        out.push(v[i].clone());
        i = i + 1;
    }
    proof {
        assert(groups_view(out@) =~= groups_view(v@));
    }
    out
}

} // verus!
