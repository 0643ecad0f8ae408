//! A view stack that records a snapshot of its view states whenever its
//! structure changes: mutation means notification.
//!
//! Subscribers see the last published snapshot. Every mutation method
//! (`push`, `pop`, `replace_top`, `clear`, `modify_top_and_broadcast`)
//! publishes the new states and advances the version; `modify_top` changes the
//! top view without publishing.

use vstd::prelude::*;

use crate::types::{state_of, ViewInstance, ViewState, ViewStateView};

verus! {

/// The states of a sequence of view instances, bottom first.
pub open spec fn states_of(stack: Seq<ViewInstance>) -> Seq<ViewStateView> {
    stack.map_values(|vi: ViewInstance| state_of(vi.view))
}

/// The abstract contents of a sequence of view states.
pub open spec fn state_views(states: Seq<ViewState>) -> Seq<ViewStateView> {
    states.map_values(|s: ViewState| s@)
}

/// The version that follows `v` (versions wrap around).
pub open spec fn next_version(v: u64) -> u64 {
    if v == u64::MAX {
        0
    } else {
        (v + 1) as u64
    }
}

/// The snapshot of the view states of a stack.
pub fn snapshot(inner: &Vec<ViewInstance>) -> (r: Vec<ViewState>)
    ensures
        state_views(r@) == states_of(inner@),
{
    let mut out: Vec<ViewState> = Vec::new();
    let mut i: usize = 0;
    while i < inner.len()
        invariant
            i <= inner@.len(),
            state_views(out@) == states_of(inner@.take(i as int)),
        decreases inner@.len() - i,
    {
        let ghost before = out@;
        out.push(ViewState::from_instance(&inner[i]));
        proof {
            assert(inner@.take(i as int + 1) =~= inner@.take(i as int).push(inner@[i as int]));
            assert(state_views(out@) =~= state_views(before).push(state_of(inner@[i as int].view)));
            assert(states_of(inner@.take(i as int + 1)) =~= states_of(inner@.take(i as int)).push(state_of(inner@[i as int].view)));
        }
        i = i + 1;
    }
    proof {
        assert(inner@.take(inner@.len() as int) =~= inner@);
    }
    out
}

/// A view stack that publishes its view states after every structural change.
pub struct ObservableViewStack {
    inner: Vec<ViewInstance>,
    published: Vec<ViewState>,
    version: u64,
}

impl ObservableViewStack {
    /// The view instances, bottom (root) first.
    pub closed spec fn stack(&self) -> Seq<ViewInstance> {
        self.inner@
    }

    /// The last published snapshot: what subscribers see.
    pub closed spec fn published(&self) -> Seq<ViewStateView> {
        state_views(self.published@)
    }

    /// The number of the last publication (wrapping).
    pub closed spec fn version(&self) -> u64 {
        self.version
    }

    /// After a publication: subscribers see the current states, and the
    /// version has advanced by one.
    pub open spec fn published_now(old_version: u64, new: Self) -> bool {
        &&& new.published() == states_of(new.stack())
        &&& new.version() == next_version(old_version)
    }

    /// Nothing was published.
    pub open spec fn nothing_published(old: Self, new: Self) -> bool {
        &&& new.published() == old.published()
        &&& new.version() == old.version()
    }

    /// Create a new empty stack; the published snapshot is empty.
    pub fn new() -> (r: Self)
        ensures
            r.stack().len() == 0,
            r.published().len() == 0,
            r.version() == 0,
    {
        ObservableViewStack { inner: Vec::new(), published: Vec::new(), version: 0 }
    }

    fn publish(&mut self)
        ensures
            final(self).stack() == old(self).stack(),
            Self::published_now(old(self).version(), *final(self)),
    {
        self.published = snapshot(&self.inner);
        self.version = if self.version == u64::MAX {
            0
        } else {
            self.version + 1
        };
    }

    /// Push a view onto the stack and publish.
    pub fn push(&mut self, view: ViewInstance)
        ensures
            final(self).stack() == old(self).stack().push(view),
            Self::published_now(old(self).version(), *final(self)),
    {
        self.inner.push(view);
        self.publish();
    }

    /// Pop the top view. Returns `None` if the stack is empty; publishes only
    /// if something was popped.
    pub fn pop(&mut self) -> (r: Option<ViewInstance>)
        ensures
            old(self).stack().len() == 0 ==> r is None && final(self).stack() == old(self).stack()
                && Self::nothing_published(*old(self), *final(self)),
            old(self).stack().len() > 0 ==> r == Some(old(self).stack().last())
                && final(self).stack() == old(self).stack().drop_last()
                && Self::published_now(old(self).version(), *final(self)),
    {
        let r = self.inner.pop();
        if r.is_some() {
            self.publish();
        }
        r
    }

    /// Pop the top view only if there is more than one view. Returns whether a
    /// view was popped; publishes only then.
    pub fn pop_if_not_root(&mut self) -> (r: bool)
        ensures
            r == (old(self).stack().len() > 1),
            r ==> final(self).stack() == old(self).stack().drop_last()
                && Self::published_now(old(self).version(), *final(self)),
            !r ==> final(self).stack() == old(self).stack()
                && Self::nothing_published(*old(self), *final(self)),
    {
        if self.inner.len() > 1 {
            let _ = self.inner.pop();
            self.publish();
            true
        } else {
            false
        }
    }

    /// Replace the top view (push if the stack is empty). Returns the old top
    /// view; always publishes.
    pub fn replace_top(&mut self, view: ViewInstance) -> (r: Option<ViewInstance>)
        ensures
            old(self).stack().len() == 0 ==> r is None && final(self).stack() == seq![view],
            old(self).stack().len() > 0 ==> r == Some(old(self).stack().last())
                && final(self).stack() == old(self).stack().drop_last().push(view),
            Self::published_now(old(self).version(), *final(self)),
    {
        let old = self.inner.pop();
        self.inner.push(view);
        proof {
            if old is None {
                assert(self.inner@ =~= seq![view]);
            }
        }
        self.publish();
        old
    }

    /// Remove all views, returning them; publishes the empty state.
    pub fn clear(&mut self) -> (r: Vec<ViewInstance>)
        ensures
            r@ == old(self).stack(),
            final(self).stack().len() == 0,
            Self::published_now(old(self).version(), *final(self)),
    {
        let mut old: Vec<ViewInstance> = Vec::new();
        std::mem::swap(&mut old, &mut self.inner);
        self.publish();
        old
    }

    /// Change the top view without publishing. Returns whether there was a
    /// view to change.
    pub fn modify_top<F: FnOnce(ViewInstance) -> ViewInstance>(&mut self, f: F) -> (r: bool)
        requires
            forall|v: ViewInstance| f.requires((v,)),
        ensures
            r == (old(self).stack().len() > 0),
            r ==> final(self).stack().len() == old(self).stack().len()
                && final(self).stack().drop_last() == old(self).stack().drop_last()
                && f.ensures((old(self).stack().last(),), final(self).stack().last()),
            !r ==> final(self).stack() == old(self).stack(),
            Self::nothing_published(*old(self), *final(self)),
    {
        match self.inner.pop() {
            Some(top) => {
                let changed = f(top);
                self.inner.push(changed);
                proof {
                    assert(self.inner@.drop_last() =~= old(self).stack().drop_last());
                }
                true
            },
            None => false,
        }
    }

    /// Change the top view and publish. Returns whether there was a view to
    /// change; publishes only then.
    pub fn modify_top_and_broadcast<F: FnOnce(ViewInstance) -> ViewInstance>(&mut self, f: F) -> (r: bool)
        requires
            forall|v: ViewInstance| f.requires((v,)),
        ensures
            r == (old(self).stack().len() > 0),
            r ==> final(self).stack().len() == old(self).stack().len()
                && final(self).stack().drop_last() == old(self).stack().drop_last()
                && f.ensures((old(self).stack().last(),), final(self).stack().last())
                && Self::published_now(old(self).version(), *final(self)),
            !r ==> final(self).stack() == old(self).stack()
                && Self::nothing_published(*old(self), *final(self)),
    {
        let modified = self.modify_top(f);
        if modified {
            self.publish();
        }
        modified
    }

    /// A snapshot of the current view states.
    pub fn get_states(&self) -> (r: Vec<ViewState>)
        ensures
            state_views(r@) == states_of(self.stack()),
    {
        snapshot(&self.inner)
    }

    /// The state of the top view.
    pub fn get_current_state(&self) -> (r: Option<ViewState>)
        ensures
            self.stack().len() == 0 ==> r is None,
            self.stack().len() > 0 ==> (r matches Some(s) && s@ == state_of(self.stack().last().view)),
    {
        if self.inner.len() == 0 {
            None
        } else {
            Some(ViewState::from_instance(&self.inner[self.inner.len() - 1]))
        }
    }

    /// The stack depth.
    pub fn len(&self) -> (r: usize)
        ensures
            r == self.stack().len(),
    {
        self.inner.len()
    }

    /// Whether the stack is empty.
    pub fn is_empty(&self) -> (r: bool)
        ensures
            r == (self.stack().len() == 0),
    {
        self.inner.len() == 0
    }

    /// The top view, if any.
    pub fn top(&self) -> (r: Option<&ViewInstance>)
        ensures
            self.stack().len() == 0 ==> r is None,
            self.stack().len() > 0 ==> r == Some(&self.stack().last()),
    {
        if self.inner.len() == 0 {
            None
        } else {
            Some(&self.inner[self.inner.len() - 1])
        }
    }

    /// Read the top view with a function.
    pub fn with_top<F: FnOnce(&ViewInstance) -> R, R>(&self, f: F) -> (r: Option<R>)
        requires
            forall|v: &ViewInstance| f.requires((v,)),
        ensures
            self.stack().len() == 0 ==> r is None,
            self.stack().len() > 0 ==> (r matches Some(x) && f.ensures((&self.stack().last(),), x)),
    {
        match self.top() {
            Some(v) => Some(f(v)),
            None => None,
        }
    }

    /// Read the whole stack with a function.
    pub fn with_stack<F: FnOnce(&[ViewInstance]) -> R, R>(&self, f: F) -> (r: R)
        requires
            forall|s: &[ViewInstance]| f.requires((s,)),
        ensures
            exists|s: &[ViewInstance]| s@ == self.stack() && f.ensures((s,), r),
    {
        let s = self.inner.as_slice();
        f(s)
    }

    /// The last published snapshot.
    pub fn published_states(&self) -> (r: &Vec<ViewState>)
        ensures
            state_views(r@) == self.published(),
    {
        &self.published
    }

    /// The number of the last publication.
    pub fn published_version(&self) -> (r: u64)
        ensures
            r == self.version(),
    {
        self.version
    }

    /// Publish the current states again.
    pub fn broadcast(&mut self)
        ensures
            final(self).stack() == old(self).stack(),
            Self::published_now(old(self).version(), *final(self)),
    {
        self.publish();
    }
}

impl Default for ObservableViewStack {
    fn default() -> (r: Self)
        ensures
            r.stack().len() == 0,
            r.published().len() == 0,
            r.version() == 0,
    {
        Self::new()
    }
}

} // verus!
