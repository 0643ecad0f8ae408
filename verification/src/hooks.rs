//! Hook registry.
//!
//! Hook paths:
//! - `search`, `get_actions`: global hooks;
//! - `views.{id}.search`, `views.{id}.get_actions`: hooks of one view.
//!
//! The chain for a hook name lists the view's hooks first (registration
//! order), then the global hooks (registration order): view hooks see raw
//! results, global hooks wrap them.

use vstd::prelude::*;

use crate::ids::{law_ids_never_repeat, next_id, numbered, numbered_id, IdSequence, lemma_numbered_injective};
use crate::text::{char_len, find_char, index_from, lemma_filter_push, lemma_index_from, lemma_take_succ, owned, starts_with, str_equal, substring};
use crate::types::LuaFunctionRef;

verus! {

// =============================================================================
// Hook paths
// =============================================================================

/// The view id and hook name of a path `views.{id}.{hook}`, both non-empty;
/// `None` for any other path.
pub open spec fn parse_view_hook_spec(path: Seq<char>) -> Option<(Seq<char>, Seq<char>)> {
    let pre = "views."@;
    if pre.len() <= path.len() && path.subrange(0, pre.len() as int) == pre {
        match index_from(path, '.', pre.len() as int) {
            Some(d) => {
                let view_id = path.subrange(pre.len() as int, d);
                let hook = path.subrange(d + 1, path.len() as int);
                if view_id.len() > 0 && hook.len() > 0 {
                    Some((view_id, hook))
                } else {
                    None
                }
            },
            None => None,
        }
    } else {
        None
    }
}

/// Parse a view-specific hook path like "views.files.search" into
/// (view_id, hook_name). Returns None for global hooks like "search".
pub fn parse_view_hook_path(path: &str) -> (r: Option<(&str, &str)>)
    ensures
        match r {
            Some((v, h)) => parse_view_hook_spec(path@) == Some((v@, h@)),
            None => parse_view_hook_spec(path@) is None,
        },
{
    let prefix = "views.";
    if !starts_with(path, prefix) {
        return None;
    }
    let start = char_len(prefix);
    let n = char_len(path);
    match find_char(path, '.', start) {
        Some(dot) => {
            proof {
                lemma_index_from(path@, '.', start as int);
            }
            let view_id = substring(path, start, dot);
            let hook = substring(path, dot + 1, n);
            if char_len(view_id) > 0 && char_len(hook) > 0 {
                Some((view_id, hook))
            } else {
                None
            }
        },
        None => None,
    }
}

/// Errors that can occur during hook operations.
#[derive(Debug)]
pub enum HookError {
    InvalidPath(String),
    HookNotFound(String),
    ExecutionError(String),
}

impl HookError {
    /// The error's message text.
    pub open spec fn message_spec(&self) -> Seq<char> {
        match self {
            HookError::InvalidPath(s) => "Invalid hook path: "@ + s@,
            HookError::HookNotFound(s) => "Hook not found: "@ + s@,
            HookError::ExecutionError(s) => "Hook execution error: "@ + s@,
        }
    }

    /// The error's message text.
    pub fn message(&self) -> (r: String)
        ensures
            r@ == self.message_spec(),
    {
        let (mut m, s) = match self {
            HookError::InvalidPath(s) => (String::from_str("Invalid hook path: "), s),
            HookError::HookNotFound(s) => (String::from_str("Hook not found: "), s),
            HookError::ExecutionError(s) => (String::from_str("Hook execution error: "), s),
        };
        m.append(s.as_str());
        m
    }
}

/// The outcome of validating a hook path: `None` when valid, else the text of
/// the `InvalidPath` error.
pub open spec fn validate_hook_spec(path: Seq<char>) -> Option<Seq<char>> {
    if path == "search"@ || path == "get_actions"@ {
        None
    } else if "views."@.len() <= path.len() && path.subrange(0, "views."@.len() as int) == "views."@ {
        match parse_view_hook_spec(path) {
            Some((view_id, hook)) => {
                if hook != "search"@ && hook != "get_actions"@ {
                    Some("Invalid hook name '"@ + hook + "' in '"@ + path + "'. Expected 'search' or 'get_actions'"@)
                } else {
                    None
                }
            },
            None => Some("Invalid view hook path '"@ + path + "'. Expected 'views.{id}.search' or 'views.{id}.get_actions'"@),
        }
    } else {
        Some("Invalid hook path '"@ + path + "'. Expected 'search', 'get_actions', or 'views.{id}.{hook}'"@)
    }
}

/// The hook path `views.<id>.<hook>`.
pub open spec fn view_hook_path(id: Seq<char>, hook: Seq<char>) -> Seq<char> {
    "views."@ + id + "."@ + hook
}

/// The hook paths that are accepted: `search`, `get_actions`, and
/// `views.<id>.search` or `views.<id>.get_actions` for a view id that is not
/// empty and holds no dot.
pub open spec fn is_valid_hook_path(path: Seq<char>) -> bool {
    ||| path == "search"@
    ||| path == "get_actions"@
    ||| exists|id: Seq<char>, hook: Seq<char>|
        #![trigger view_hook_path(id, hook)]
        id.len() > 0 && !id.contains('.') && (hook == "search"@ || hook == "get_actions"@) && path == view_hook_path(id, hook)
}

/// Hook path validation accepts exactly the valid hook paths, and rejects
/// every other path with an `InvalidPath` error.
pub proof fn law_valid_hook_paths(path: Seq<char>)
    ensures
        (validate_hook_spec(path) is None) <==> is_valid_hook_path(path),
{
    reveal_strlit("views.");
    reveal_strlit(".");
    reveal_strlit("search");
    reveal_strlit("get_actions");
    let pre = "views."@;
    if validate_hook_spec(path) is None && path != "search"@ && path != "get_actions"@ {
        let (id, hook) = parse_view_hook_spec(path)->0;
        let d = index_from(path, '.', pre.len() as int)->0;
        lemma_index_from(path, '.', pre.len() as int);
        assert(id == path.subrange(6, d));
        assert(!id.contains('.')) by {
            if id.contains('.') {
                let j = choose|j: int| 0 <= j < id.len() && id[j] == '.';
                assert(path[6 + j] == '.');
            }
        }
        assert(path =~= view_hook_path(id, hook));
    }
    if is_valid_hook_path(path) && path != "search"@ && path != "get_actions"@ {
        let (id, hook) = choose|id: Seq<char>, hook: Seq<char>|
            #![trigger view_hook_path(id, hook)]
            id.len() > 0 && !id.contains('.') && (hook == "search"@ || hook == "get_actions"@) && path == view_hook_path(id, hook);
        assert(path.subrange(0, 6) =~= pre);
        let d: int = 6 + id.len() as int;
        assert(path[d] == '.');
        lemma_index_from(path, '.', 6);
        assert forall|j: int| 6 <= j < d implies path[j] != '.' by {
            assert(path[j] == id[j - 6]);
        }
        assert(index_from(path, '.', 6) == Some(d));
        assert(path.subrange(6, d) =~= id);
        assert(path.subrange(d + 1, path.len() as int) =~= hook);
    }
}

/// Validate a hook path: `search`, `get_actions`, `views.{id}.search` or
/// `views.{id}.get_actions`.
pub fn validate_hook_path(path: &str) -> (r: Result<(), HookError>)
    ensures
        match validate_hook_spec(path@) {
            None => r is Ok,
            Some(m) => r matches Err(HookError::InvalidPath(s)) && s@ == m,
        },
{
    if str_equal(path, "search") || str_equal(path, "get_actions") {
        return Ok(());
    }
    if starts_with(path, "views.") {
        match parse_view_hook_path(path) {
            Some((_view_id, hook)) => {
                if !str_equal(hook, "search") && !str_equal(hook, "get_actions") {
                    let mut m = String::from_str("Invalid hook name '");
                    m.append(hook);
                    m.append("' in '");
                    m.append(path);
                    m.append("'. Expected 'search' or 'get_actions'");
                    return Err(HookError::InvalidPath(m));
                }
                Ok(())
            },
            None => {
                let mut m = String::from_str("Invalid view hook path '");
                m.append(path);
                m.append("'. Expected 'views.{id}.search' or 'views.{id}.get_actions'");
                Err(HookError::InvalidPath(m))
            },
        }
    } else {
        let mut m = String::from_str("Invalid hook path '");
        m.append(path);
        m.append("'. Expected 'search', 'get_actions', or 'views.{id}.{hook}'");
        Err(HookError::InvalidPath(m))
    }
}

// =============================================================================
// Hook registry
// =============================================================================

/// A registered hook entry.
#[derive(Debug)]
pub struct HookEntry {
    /// Unique identifier for unhooking.
    pub id: String,
    /// Reference to the Lua function.
    pub function: LuaFunctionRef,
}

/// What the registry knows of one hook: the view it belongs to (`None` for a
/// global hook), the hook name, its id, and the key of its function.
pub struct HookInfo {
    pub scope: Option<Seq<char>>,
    pub name: Seq<char>,
    pub id: Seq<char>,
    pub key: Seq<char>,
}

struct HookRecord {
    scope: Option<String>,
    name: String,
    entry: HookEntry,
}

spec fn record_info(r: HookRecord) -> HookInfo {
    HookInfo {
        scope: match r.scope { Some(s) => Some(s@), None => None },
        name: r.name@,
        id: r.entry.id@,
        key: r.entry.function.key@,
    }
}

/// The scope and name under which a path registers its hook.
pub open spec fn hook_target(path: Seq<char>) -> (Option<Seq<char>>, Seq<char>) {
    match parse_view_hook_spec(path) {
        Some((view_id, hook)) => (Some(view_id), hook),
        None => (None, path),
    }
}

/// The first position at or after `from` of a hook with this id, among global
/// hooks (`global`) or among view hooks (`!global`).
pub open spec fn find_hook(hooks: Seq<HookInfo>, id: Seq<char>, global: bool, from: int) -> Option<int>
    decreases hooks.len() - from,
{
    if from < 0 || from >= hooks.len() {
        None
    } else if hooks[from].id == id && (hooks[from].scope is None) == global {
        Some(from)
    } else {
        find_hook(hooks, id, global, from + 1)
    }
}

/// The hook that `remove(id)` takes out: the first global hook with the id,
/// else the first view hook with it.
pub open spec fn removal_index(hooks: Seq<HookInfo>, id: Seq<char>) -> Option<int> {
    match find_hook(hooks, id, true, 0) {
        Some(i) => Some(i),
        None => find_hook(hooks, id, false, 0),
    }
}

/// The hooks of one view with a given name.
pub open spec fn view_hooks_of(view_id: Seq<char>, name: Seq<char>) -> spec_fn(HookInfo) -> bool {
    |h: HookInfo| h.scope == Some(view_id) && h.name == name
}

/// The global hooks with a given name.
pub open spec fn global_hooks_of(name: Seq<char>) -> spec_fn(HookInfo) -> bool {
    |h: HookInfo| h.scope is None && h.name == name
}

/// The hooks of a chain: the view's hooks, then the global hooks, each in
/// registration order.
pub open spec fn chain_hooks(hooks: Seq<HookInfo>, name: Seq<char>, view_id: Option<Seq<char>>) -> Seq<HookInfo> {
    let view_part = match view_id {
        Some(v) => hooks.filter(view_hooks_of(v, name)),
        None => Seq::empty(),
    };
    view_part + hooks.filter(global_hooks_of(name))
}

/// The function keys of a chain.
pub open spec fn chain_keys(hooks: Seq<HookInfo>, name: Seq<char>, view_id: Option<Seq<char>>) -> Seq<Seq<char>> {
    chain_hooks(hooks, name, view_id).map_values(|h: HookInfo| h.key)
}

/// Registry for storing hooks registered via `lux.hook(path, fn)`.
pub struct HookRegistry {
    records: Vec<HookRecord>,
    ids: IdSequence,
}

impl HookRegistry {
    /// The registered hooks in registration order.
    pub closed spec fn hooks(&self) -> Seq<HookInfo> {
        self.records@.map_values(|r: HookRecord| record_info(r))
    }

    /// The number that the next hook id is made from.
    pub closed spec fn next_number(&self) -> u64 {
        self.ids.peek()
    }

    /// Every registered hook's id was made from a number below the next one.
    pub open spec fn ids_issued_below(&self) -> bool {
        forall|i: int| 0 <= i < self.hooks().len() ==> exists|k: nat| k < self.next_number() && (#[trigger] self.hooks()[i]).id == numbered("hook"@, k)
    }

    /// Create a new empty hook registry.
    pub fn new() -> (r: Self)
        ensures
            r.hooks() == Seq::<HookInfo>::empty(),
            r.next_number() == 0,
    {
        let r = HookRegistry { records: Vec::new(), ids: IdSequence::starting_at(0) };
        proof {
            assert(r.hooks() =~= Seq::<HookInfo>::empty());
        }
        r
    }

    /// Add a hook at the path and return its id, `hook:{n}`.
    pub fn add(&mut self, path: &str, func: LuaFunctionRef) -> (id: String)
        ensures
            id@ == numbered("hook"@, old(self).next_number() as nat),
            final(self).hooks() == old(self).hooks().push(HookInfo {
                scope: hook_target(path@).0,
                name: hook_target(path@).1,
                id: id@,
                key: func.key@,
            }),
            final(self).next_number() == (if old(self).next_number() == u64::MAX { 0 } else { old(self).next_number() + 1 }),
    {
        let n = self.ids.take();
        let id = numbered_id("hook", n);
        let entry = HookEntry { id: id.clone(), function: func };
        let record = match parse_view_hook_path(path) {
            Some((view_id, hook)) => HookRecord { scope: Some(owned(view_id)), name: owned(hook), entry },
            None => HookRecord { scope: None, name: owned(path), entry },
        };
        self.records.push(record);
        proof {
            assert(self.hooks() =~= old(self).hooks().push(HookInfo {
                scope: hook_target(path@).0,
                name: hook_target(path@).1,
                id: id@,
                key: func.key@,
            }));
        }
        id
    }

    fn find(&self, id: &str, global: bool) -> (r: Option<usize>)
        ensures
            match r {
                Some(i) => find_hook(self.hooks(), id@, global, 0) == Some(i as int),
                None => find_hook(self.hooks(), id@, global, 0) is None,
            },
    {
        let mut i: usize = 0;
        while i < self.records.len()
            invariant
                0 <= i <= self.records@.len(),
                find_hook(self.hooks(), id@, global, 0) == find_hook(self.hooks(), id@, global, i as int),
            decreases self.records@.len() - i,
        {
            let rec = &self.records[i];
            proof {
                assert(self.hooks()[i as int] == record_info(self.records@[i as int]));
            }
            if str_equal(rec.entry.id.as_str(), id) && rec.scope.is_none() == global {
                return Some(i);
            }
            i = i + 1;
        }
        None
    }

    /// Remove a hook by ID. Returns true if the hook was found and removed.
    pub fn remove(&mut self, id: &str) -> (r: bool)
        ensures
            final(self).next_number() == old(self).next_number(),
            match removal_index(old(self).hooks(), id@) {
                Some(i) => r && final(self).hooks() == old(self).hooks().remove(i),
                None => !r && final(self).hooks() == old(self).hooks(),
            },
    {
        let at = match self.find(id, true) {
            Some(i) => Some(i),
            None => self.find(id, false),
        };
        match at {
            Some(i) => {
                proof {
                    lemma_find_hook(self.hooks(), id@, true, 0);
                    lemma_find_hook(self.hooks(), id@, false, 0);
                }
                self.records.remove(i);
                proof {
                    assert(self.hooks() =~= old(self).hooks().remove(i as int));
                }
                true
            },
            None => false,
        }
    }

    fn collect(&self, out: &mut Vec<LuaFunctionRef>, Ghost(pred): Ghost<spec_fn(HookInfo) -> bool>, scope: Option<&str>, hook_name: &str)
        requires
            pred == (match scope {
                Some(v) => view_hooks_of(v@, hook_name@),
                None => global_hooks_of(hook_name@),
            }),
        ensures
            final(out)@.map_values(|f: LuaFunctionRef| f.key@) == old(out)@.map_values(|f: LuaFunctionRef| f.key@)
                + self.hooks().filter(pred).map_values(|h: HookInfo| h.key),
    {
        let ghost start = out@.map_values(|f: LuaFunctionRef| f.key@);
        let mut i: usize = 0;
        while i < self.records.len()
            invariant
                0 <= i <= self.records@.len(),
                pred == (match scope {
                    Some(v) => view_hooks_of(v@, hook_name@),
                    None => global_hooks_of(hook_name@),
                }),
                out@.map_values(|f: LuaFunctionRef| f.key@) == start + self.hooks().take(i as int).filter(pred).map_values(|h: HookInfo| h.key),
            decreases self.records@.len() - i,
        {
            let rec = &self.records[i];
            let ghost info = self.hooks()[i as int];
            proof {
                assert(info == record_info(self.records@[i as int]));
                lemma_take_succ(self.hooks(), i as int);
                lemma_filter_push(self.hooks().take(i as int), info, pred);
            }
            let in_scope = match (scope, &rec.scope) {
                (Some(v), Some(s)) => str_equal(v, s.as_str()),
                (None, None) => true,
                _ => false,
            };
            if in_scope && str_equal(rec.name.as_str(), hook_name) {
                let ghost before = out@;
                out.push(rec.entry.function.clone());
                proof {
                    assert(out@.map_values(|f: LuaFunctionRef| f.key@) =~= before.map_values(|f: LuaFunctionRef| f.key@).push(info.key));
                    assert(self.hooks().take(i as int + 1).filter(pred).map_values(|h: HookInfo| h.key) =~= self.hooks().take(i as int).filter(pred).map_values(|h: HookInfo| h.key).push(info.key));
                }
            }
            i = i + 1;
        }
        proof {
            assert(self.hooks().take(self.hooks().len() as int) =~= self.hooks());
        }
    }

    /// Get the hook chain for a hook name and optional view ID: the view's
    /// hooks, then the global hooks, each in registration order.
    pub fn get_chain(&self, hook_name: &str, view_id: Option<&str>) -> (r: Vec<LuaFunctionRef>)
        ensures
            r@.map_values(|f: LuaFunctionRef| f.key@) == chain_keys(self.hooks(), hook_name@, match view_id {
                Some(v) => Some(v@),
                None => None,
            }),
    {
        let mut chain: Vec<LuaFunctionRef> = Vec::new();
        match view_id {
            Some(v) => {
                self.collect(&mut chain, Ghost(view_hooks_of(v@, hook_name@)), Some(v), hook_name);
            },
            None => {},
        }
        let ghost mid = chain@.map_values(|f: LuaFunctionRef| f.key@);
        self.collect(&mut chain, Ghost(global_hooks_of(hook_name@)), None, hook_name);
        proof {
            let vid = match view_id { Some(v) => Some(v@), None => None };
            assert(chain_keys(self.hooks(), hook_name@, vid) =~= (match vid {
                Some(v) => self.hooks().filter(view_hooks_of(v, hook_name@)),
                None => Seq::empty(),
            }).map_values(|h: HookInfo| h.key) + self.hooks().filter(global_hooks_of(hook_name@)).map_values(|h: HookInfo| h.key));
            if view_id is None {
                assert(mid =~= Seq::<Seq<char>>::empty());
            }
        }
        chain
    }

    /// Check if any hooks are registered for the hook name (and view).
    pub fn has_hooks(&self, hook_name: &str, view_id: Option<&str>) -> (r: bool)
        ensures
            r == (chain_keys(self.hooks(), hook_name@, match view_id {
                Some(v) => Some(v@),
                None => None,
            }).len() > 0),
    {
        self.count(hook_name, view_id) > 0
    }

    /// Get the count of hooks for the hook name (and view).
    pub fn count(&self, hook_name: &str, view_id: Option<&str>) -> (r: usize)
        ensures
            r == chain_keys(self.hooks(), hook_name@, match view_id {
                Some(v) => Some(v@),
                None => None,
            }).len(),
    {
        let chain = self.get_chain(hook_name, view_id);
        proof {
            assert(chain@.map_values(|f: LuaFunctionRef| f.key@).len() == chain@.len());
        }
        chain.len()
    }

    /// Clear all hooks.
    pub fn clear(&mut self)
        ensures
            final(self).hooks() == Seq::<HookInfo>::empty(),
            final(self).next_number() == old(self).next_number(),
    {
        self.records = Vec::new();
        proof {
            assert(self.hooks() =~= Seq::<HookInfo>::empty());
        }
    }
}

impl Default for HookRegistry {
    fn default() -> (r: Self)
        ensures
            r.hooks() == Seq::<HookInfo>::empty(),
            r.next_number() == 0,
    {
        Self::new()
    }
}

/// Facts about the first hook with an id.
pub proof fn lemma_find_hook(hooks: Seq<HookInfo>, id: Seq<char>, global: bool, from: int)
    requires
        0 <= from,
    ensures
        match find_hook(hooks, id, global, from) {
            Some(i) => from <= i < hooks.len() && hooks[i].id == id && (hooks[i].scope is None) == global
                && forall|j: int| from <= j < i ==> !(hooks[j].id == id && (hooks[j].scope is None) == global),
            None => forall|j: int| from <= j < hooks.len() ==> !(#[trigger] hooks[j].id == id && (hooks[j].scope is None) == global),
        },
    decreases hooks.len() - from,
{
    if from < hooks.len() && !(hooks[from].id == id && (hooks[from].scope is None) == global) {
        lemma_find_hook(hooks, id, global, from + 1);
    }
}

/// Removing a hook by the id that `add` returned undoes the add: the call
/// reports a removal and the registered hooks are those before the add.
/// This holds while every registered id was made from a number below the
/// counter, and the counter has not wrapped around.
pub proof fn law_remove_undoes_add(
    before: Seq<HookInfo>, next: u64, added: HookInfo, after_remove: Seq<HookInfo>, removed: bool,
)
    requires
        forall|i: int| 0 <= i < before.len() ==> exists|k: nat| k < next && (#[trigger] before[i]).id == numbered("hook"@, k),
        next < u64::MAX,
        added.id == numbered("hook"@, next as nat),
        match removal_index(before.push(added), added.id) {
            Some(i) => removed && after_remove == before.push(added).remove(i),
            None => !removed && after_remove == before.push(added),
        },
    ensures
        removed,
        after_remove == before,
{
    let mid = before.push(added);
    assert forall|j: int| 0 <= j < before.len() implies mid[j].id != added.id by {
        assert(mid[j] == before[j]);
        let k = choose|k: nat| k < next && (#[trigger] before[j]).id == numbered("hook"@, k);
        if mid[j].id == added.id {
            lemma_numbered_injective("hook"@, k, next as nat);
        }
    }
    lemma_find_hook(mid, added.id, true, 0);
    lemma_find_hook(mid, added.id, false, 0);
    let last = before.len() as int;
    assert(mid[last] == added);
    assert(mid.remove(last) =~= before);
}

/// Hook ids are fresh: `before[i]` is the registry just before the `i`-th
/// call of `add` and `ids[i]` is the id that call returned; the calls in
/// between (`remove`, `clear`, lookups) keep the next number. Then no id is
/// returned twice, even after removals, until the registry has handed out
/// every `u64` once.
pub proof fn law_hook_ids_fresh(before: Seq<HookRegistry>, ids: Seq<Seq<char>>)
    requires
        ids.len() == before.len(),
        ids.len() <= u64::MAX + 1,
        forall|i: int| 0 <= i < ids.len() ==> #[trigger] ids[i] == numbered("hook"@, before[i].next_number() as nat),
        forall|i: int| 0 <= i < before.len() - 1 ==> before[i + 1].next_number() == next_id(#[trigger] before[i].next_number()),
    ensures
        ids.no_duplicates(),
{
    let ns = before.map_values(|r: HookRegistry| r.next_number());
    assert forall|i: int| 0 <= i < ns.len() - 1 implies ns[i + 1] == next_id(#[trigger] ns[i]) by {
        assert(before[i + 1].next_number() == next_id(before[i].next_number()));
    }
    law_ids_never_repeat("hook"@, ns);
    assert forall|i: int, j: int| 0 <= i < ids.len() && 0 <= j < ids.len() && i != j implies ids[i] != ids[j] by {
        if i < j {
            assert(numbered("hook"@, ns[i] as nat) != numbered("hook"@, ns[j] as nat));
        } else {
            assert(numbered("hook"@, ns[j] as nat) != numbered("hook"@, ns[i] as nat));
        }
    }
}

} // verus!
