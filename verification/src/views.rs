//! View registry: views registered by id via `lux.views.add`.

use vstd::prelude::*;

use crate::keymap::{keys_distinct, position_of, lemma_position_unique};
use crate::selection::SelectionMode;
use crate::text::{owned, str_equal};
use crate::types::LuaFunctionRef;

verus! {

/// A registered view definition with its search and get_actions functions.
#[derive(Debug)]
pub struct ViewDefinition {
    /// Unique identifier for the view.
    pub id: String,
    /// Optional title displayed in the view header.
    pub title: Option<String>,
    /// Optional placeholder text for the search input.
    pub placeholder: Option<String>,
    /// Selection mode: single, multi, or custom.
    pub selection: SelectionMode,
    /// Search function: `search(query, ctx) -> { groups = [...] }`.
    pub search_fn: LuaFunctionRef,
    /// Get actions function: `get_actions(item, ctx) -> { action, ... }`.
    pub get_actions_fn: LuaFunctionRef,
}

/// A lightweight reference to a registered view.
#[derive(Debug, Clone)]
pub struct ViewDefinitionRef {
    /// The view ID.
    pub id: String,
}

/// Errors that can occur during view registry operations.
#[derive(Debug)]
pub enum ViewRegistryError {
    ViewAlreadyExists(String),
    ViewNotFound(String),
    InvalidView(String),
}

impl ViewRegistryError {
    /// The error's message text.
    pub open spec fn message_spec(&self) -> Seq<char> {
        match self {
            ViewRegistryError::ViewAlreadyExists(id) => "View '"@ + id@ + "' already exists"@,
            ViewRegistryError::ViewNotFound(id) => "View '"@ + id@ + "' not found"@,
            ViewRegistryError::InvalidView(m) => "Invalid view definition: "@ + m@,
        }
    }

    /// The error's message text.
    pub fn message(&self) -> (r: String)
        ensures
            r@ == self.message_spec(),
    {
        match self {
            ViewRegistryError::ViewAlreadyExists(id) => {
                let mut m = String::from_str("View '");
                m.append(id.as_str());
                m.append("' already exists");
                m
            },
            ViewRegistryError::ViewNotFound(id) => {
                let mut m = String::from_str("View '");
                m.append(id.as_str());
                m.append("' not found");
                m
            },
            ViewRegistryError::InvalidView(s) => {
                let mut m = String::from_str("Invalid view definition: ");
                m.append(s.as_str());
                m
            },
        }
    }
}

/// The key of a view definition: its id.
pub open spec fn view_key(v: ViewDefinition) -> Seq<char> {
    v.id@
}

/// Registry of view definitions, one per id.
pub struct ViewRegistry {
    views: Vec<ViewDefinition>,
}

impl ViewRegistry {
    /// The registered views in registration order.
    pub closed spec fn views(&self) -> Seq<ViewDefinition> {
        self.views@
    }

    /// No two views share an id.
    pub open spec fn wf(&self) -> bool {
        keys_distinct(self.views(), |v: ViewDefinition| view_key(v))
    }

    /// Whether a view with the id is registered.
    pub open spec fn has(&self, id: Seq<char>) -> bool {
        position_of(self.views(), |v: ViewDefinition| view_key(v), id) is Some
    }

    /// Create a new empty view registry.
    pub fn new() -> (r: Self)
        ensures
            r.wf(),
            r.views().len() == 0,
    {
        ViewRegistry { views: Vec::new() }
    }

    fn find(&self, id: &str) -> (r: Option<usize>)
        requires
            self.wf(),
        ensures
            match r {
                Some(i) => position_of(self.views(), |v: ViewDefinition| view_key(v), id@) == Some(i as int),
                None => position_of(self.views(), |v: ViewDefinition| view_key(v), id@) is None,
            },
    {
        let ghost kf = |v: ViewDefinition| view_key(v);
        let mut i: usize = 0;
        while i < self.views.len()
            invariant
                self.wf(),
                kf == (|v: ViewDefinition| view_key(v)),
                0 <= i <= self.views@.len(),
                forall|j: int| 0 <= j < i ==> kf(self.views@[j]) != id@,
            decreases self.views@.len() - i,
        {
            if str_equal(self.views[i].id.as_str(), id) {
                proof {
                    assert(kf(self.views@[i as int]) == id@);
                    lemma_position_unique(self.views@, kf, id@, i as int);
                }
                return Some(i);
            }
            i = i + 1;
        }
        None
    }

    /// Register a view definition; an error if a view with the same id exists.
    pub fn add(&mut self, view: ViewDefinition) -> (r: Result<(), ViewRegistryError>)
        requires
            old(self).wf(),
        ensures
            final(self).wf(),
            old(self).has(view.id@) ==> (r matches Err(ViewRegistryError::ViewAlreadyExists(id)) && id@ == view.id@)
                && final(self).views() == old(self).views(),
            !old(self).has(view.id@) ==> r is Ok && final(self).views() == old(self).views().push(view),
    {
        match self.find(view.id.as_str()) {
            Some(_) => Err(ViewRegistryError::ViewAlreadyExists(view.id)),
            None => {
                let ghost before = self.views@;
                let ghost kf = |v: ViewDefinition| view_key(v);
                self.views.push(view);
                proof {
                    assert forall|i: int, j: int| 0 <= i < self.views@.len() && 0 <= j < self.views@.len() && i != j implies kf(self.views@[i]) != kf(self.views@[j]) by {
                        if i < before.len() && j < before.len() {
                        } else if i < before.len() {
                            assert(kf(before[i]) != view.id@);
                        } else {
                            assert(kf(before[j]) != view.id@);
                        }
                    }
                }
                Ok(())
            },
        }
    }

    /// Get a reference to a registered view by id.
    pub fn get(&self, id: &str) -> (r: Option<ViewDefinitionRef>)
        requires
            self.wf(),
        ensures
            match r {
                Some(v) => self.has(id@) && v.id@ == id@,
                None => !self.has(id@),
            },
    {
        match self.find(id) {
            Some(_) => Some(ViewDefinitionRef { id: owned(id) }),
            None => None,
        }
    }

    /// The definition registered under an id.
    pub fn lookup(&self, id: &str) -> (r: Option<&ViewDefinition>)
        requires
            self.wf(),
        ensures
            match position_of(self.views(), |v: ViewDefinition| view_key(v), id@) {
                Some(i) => r == Some(&self.views()[i]),
                None => r is None,
            },
    {
        match self.find(id) {
            Some(i) => Some(&self.views[i]),
            None => None,
        }
    }

    /// Run a function on the view registered under an id.
    pub fn with_view<F: FnOnce(&ViewDefinition) -> R, R>(&self, id: &str, f: F) -> (r: Option<R>)
        requires
            self.wf(),
            forall|v: &ViewDefinition| f.requires((v,)),
        ensures
            match position_of(self.views(), |v: ViewDefinition| view_key(v), id@) {
                Some(i) => (r matches Some(x) && f.ensures((&self.views()[i],), x)),
                None => r is None,
            },
    {
        match self.lookup(id) {
            Some(v) => Some(f(v)),
            None => None,
        }
    }

    /// List all registered view IDs, in registration order.
    pub fn list(&self) -> (r: Vec<String>)
        ensures
            r@.len() == self.views().len(),
            forall|i: int| 0 <= i < r@.len() ==> (#[trigger] r@[i])@ == self.views()[i].id@,
    {
        let mut out: Vec<String> = Vec::new();
        let mut i: usize = 0;
        while i < self.views.len()
            invariant
                0 <= i <= self.views@.len(),
                out@.len() == i,
                forall|j: int| 0 <= j < i ==> (#[trigger] out@[j])@ == self.views@[j].id@,
            decreases self.views@.len() - i,
        {
            out.push(self.views[i].id.clone());
            i = i + 1;
        }
        out
    }

    /// Check if a view with the given ID exists.
    pub fn view_exists(&self, id: &str) -> (r: bool)
        requires
            self.wf(),
        ensures
            r == self.has(id@),
    {
        self.find(id).is_some()
    }

    /// Get the count of registered views.
    pub fn count(&self) -> (r: usize)
        ensures
            r == self.views().len(),
    {
        self.views.len()
    }
}

impl Default for ViewRegistry {
    fn default() -> (r: Self)
        ensures
            r.wf(),
            r.views().len() == 0,
    {
        Self::new()
    }
}

/// A view that was added can be found by its id, and adding a second view
/// with the same id is refused and leaves the registry as it was.
pub proof fn law_add_then_lookup(before: Seq<ViewDefinition>, view: ViewDefinition)
    requires
        keys_distinct(before, |v: ViewDefinition| view_key(v)),
        position_of(before, |v: ViewDefinition| view_key(v), view.id@) is None,
    ensures
        position_of(before.push(view), |v: ViewDefinition| view_key(v), view.id@) == Some(before.len() as int),
        keys_distinct(before.push(view), |v: ViewDefinition| view_key(v)),
{
    let kf = |v: ViewDefinition| view_key(v);
    let after = before.push(view);
    assert(after[before.len() as int] == view);
    assert forall|i: int, j: int| 0 <= i < after.len() && 0 <= j < after.len() && i != j implies kf(after[i]) != kf(after[j]) by {
        if i < before.len() && j < before.len() {
            assert(after[i] == before[i] && after[j] == before[j]);
        } else if i < before.len() {
            assert(after[i] == before[i]);
        } else {
            assert(after[j] == before[j]);
        }
    }
    lemma_position_unique(after, kf, view.id@, before.len() as int);
}

} // verus!
