//! Keymap registry for Lua-scriptable keybindings.
//!
//! Bindings are collected while the Lua config loads and handed to the UI in
//! bulk before it shows. A later binding for the same (keystroke, context,
//! view) replaces the earlier one; global hotkeys are keyed by keystroke.

use vstd::prelude::*;

use crate::ids::{law_ids_never_repeat, next_id, numbered, numbered_id, IdSequence};
use crate::item::opt_view;
use crate::text::str_equal;
use crate::types::LuaFunctionRef;

verus! {

// =============================================================================
// ID generation
// =============================================================================

/// Generate a unique id for a Lua function binding: `keyhandler:{n}`, where
/// `n` is the next number of the sequence.
pub fn generate_handler_id(ids: &mut IdSequence) -> (r: String)
    ensures
        r@ == numbered("keyhandler"@, old(ids).peek() as nat),
        final(ids).peek() == (if old(ids).peek() == u64::MAX { 0 } else { old(ids).peek() + 1 }),
{
    let n = ids.take();
    numbered_id("keyhandler", n)
}

// =============================================================================
// Handlers
// =============================================================================

/// A keybinding handler - either an action name or a Lua function.
#[derive(Clone, Debug)]
pub enum KeyHandler {
    /// Built-in action name (e.g., "cursor_down").
    Action(String),
    /// Lua function - stores ID for lookup, function stored separately.
    Function { id: String },
}

/// Built-in global hotkey actions.
#[derive(Clone, Debug, Copy, PartialEq, Eq, Structural)]
pub enum BuiltInHotkey {
    /// Toggle launcher visibility.
    ToggleLauncher,
}

impl BuiltInHotkey {
    /// The name of an action.
    pub open spec fn name_spec(self) -> Seq<char> {
        match self {
            BuiltInHotkey::ToggleLauncher => "toggle_launcher"@,
        }
    }

    /// Parse a built-in hotkey action from a string name.
    pub fn from_name(name: &str) -> (r: Option<Self>)
        ensures
            match r {
                Some(h) => h.name_spec() == name@,
                None => name@ != "toggle_launcher"@,
            },
    {
        if str_equal(name, "toggle_launcher") {
            Some(BuiltInHotkey::ToggleLauncher)
        } else {
            None
        }
    }

    /// Get the string name of this action.
    pub fn as_str(&self) -> (r: &'static str)
        ensures
            r@ == self.name_spec(),
    {
        match self {
            BuiltInHotkey::ToggleLauncher => "toggle_launcher",
        }
    }
}

/// Handler for global system hotkeys.
#[derive(Clone, Debug)]
pub enum GlobalHandler {
    /// Built-in action (e.g., toggle_launcher).
    BuiltIn(BuiltInHotkey),
    /// Lua function to call when hotkey fires.
    Function { id: String },
}

/// A pending global hotkey registration.
#[derive(Clone, Debug)]
pub struct PendingHotkey {
    /// Keystroke string (e.g., "cmd+shift+space").
    pub key: String,
    /// Handler to invoke when hotkey fires.
    pub handler: GlobalHandler,
}

/// A registered keybinding, pending registration with the UI.
#[derive(Clone, Debug)]
pub struct PendingBinding {
    /// Keystroke string (e.g., "ctrl+n" or "cmd-shift-z").
    pub key: String,
    /// The handler to invoke.
    pub handler: KeyHandler,
    /// Optional context predicate (e.g., "Launcher", "SearchInput").
    pub context: Option<String>,
    /// Optional view ID for view-specific bindings (e.g., "file_browser").
    pub view: Option<String>,
}

/// The key under which a binding is stored: (keystroke, context, view).
pub open spec fn binding_key(b: PendingBinding) -> (Seq<char>, Option<Seq<char>>, Option<Seq<char>>) {
    (b.key@, opt_view(b.context), opt_view(b.view))
}

/// Whether no two elements of a list share a key.
pub open spec fn keys_distinct<T, K>(s: Seq<T>, key: spec_fn(T) -> K) -> bool {
    forall|i: int, j: int| 0 <= i < s.len() && 0 <= j < s.len() && i != j ==> key(s[i]) != key(s[j])
}

/// The position of the element with a key, if any.
pub open spec fn position_of<T, K>(s: Seq<T>, key: spec_fn(T) -> K, k: K) -> Option<int> {
    if exists|i: int| 0 <= i < s.len() && key(s[i]) == k {
        Some(choose|i: int| 0 <= i < s.len() && key(s[i]) == k)
    } else {
        None
    }
}

/// Storing `x` in a list keyed by `key`: it replaces the element with the
/// same key in place, or is appended.
pub open spec fn upserted<T, K>(s: Seq<T>, key: spec_fn(T) -> K, x: T) -> Seq<T> {
    match position_of(s, key, key(x)) {
        Some(i) => s.update(i, x),
        None => s.push(x),
    }
}

/// Removing the element with key `k` from a list.
pub open spec fn deleted<T, K>(s: Seq<T>, key: spec_fn(T) -> K, k: K) -> Seq<T> {
    match position_of(s, key, k) {
        Some(i) => s.remove(i),
        None => s,
    }
}

/// In a list with distinct keys, an element with the key is the one found.
pub proof fn lemma_position_unique<T, K>(s: Seq<T>, key: spec_fn(T) -> K, k: K, i: int)
    requires
        keys_distinct(s, key),
        0 <= i < s.len(),
        key(s[i]) == k,
    ensures
        position_of(s, key, k) == Some(i),
{
    let c = choose|c: int| 0 <= c < s.len() && key(s[c]) == k;
    if c != i {
        assert(key(s[c]) != key(s[i]));
    }
}

/// Storing keeps keys distinct, and afterwards `x` is the one element with its key.
pub proof fn lemma_upserted<T, K>(s: Seq<T>, key: spec_fn(T) -> K, x: T)
    requires
        keys_distinct(s, key),
    ensures
        keys_distinct(upserted(s, key, x), key),
        position_of(upserted(s, key, x), key, key(x)) matches Some(i) && upserted(s, key, x)[i] == x,
        forall|k: K| k != key(x) ==> (#[trigger] position_of(upserted(s, key, x), key, k) is Some) == (position_of(s, key, k) is Some),
        forall|k: K| k != key(x) && (#[trigger] position_of(upserted(s, key, x), key, k) is Some) ==> upserted(s, key, x)[position_of(upserted(s, key, x), key, k)->0] == s[position_of(s, key, k)->0],
{
    let t = upserted(s, key, x);
    match position_of(s, key, key(x)) {
        Some(p) => {
            assert(t[p] == x);
        },
        None => {
            assert(t[t.len() - 1] == x);
        },
    }
    assert forall|k: K| k != key(x) implies (#[trigger] position_of(t, key, k) is Some) == (position_of(s, key, k) is Some) && ((position_of(t, key, k) is Some) ==> t[position_of(t, key, k)->0] == s[position_of(s, key, k)->0]) by {
        if position_of(t, key, k) is Some {
            let i = position_of(t, key, k)->0;
            assert(0 <= i < s.len() && key(s[i]) == k);
            let j = position_of(s, key, k)->0;
            assert(i == j);
        }
        if position_of(s, key, k) is Some {
            let j = position_of(s, key, k)->0;
            assert(0 <= j < t.len() && key(t[j]) == k);
        }
    }
}

/// Removing keeps keys distinct, and afterwards no element has the key.
pub proof fn lemma_deleted<T, K>(s: Seq<T>, key: spec_fn(T) -> K, k: K)
    requires
        keys_distinct(s, key),
    ensures
        keys_distinct(deleted(s, key, k), key),
        position_of(deleted(s, key, k), key, k) is None,
{
    let t = deleted(s, key, k);
    match position_of(s, key, k) {
        Some(p) => {
            assert forall|i: int, j: int| 0 <= i < t.len() && 0 <= j < t.len() && i != j implies key(t[i]) != key(t[j]) by {
                let a = if i < p { i } else { i + 1 };
                let b = if j < p { j } else { j + 1 };
                assert(t[i] == s[a] && t[j] == s[b]);
            }
            assert forall|i: int| 0 <= i < t.len() implies key(t[i]) != k by {
                let a = if i < p { i } else { i + 1 };
                assert(t[i] == s[a]);
            }
        },
        None => {},
    }
}

fn opt_str_equal_ref(a: &Option<String>, b: Option<&str>) -> (r: bool)
    ensures
        r == (opt_view(*a) == match b { Some(s) => Some(s@), None => None::<Seq<char>> }),
{
    match (a, b) {
        (Some(x), Some(y)) => str_equal(x.as_str(), y),
        (None, None) => true,
        _ => false,
    }
}

/// Registry for keybindings, global hotkeys and Lua handlers during config loading.
pub struct KeymapRegistry {
    bindings: Vec<PendingBinding>,
    hotkeys: Vec<PendingHotkey>,
    lua_handlers: Vec<(String, LuaFunctionRef)>,
}

/// The key of a global hotkey: its keystroke.
pub open spec fn hotkey_key(h: PendingHotkey) -> Seq<char> {
    h.key@
}

/// The key of a stored Lua handler: its id.
pub open spec fn handler_key(h: (String, LuaFunctionRef)) -> Seq<char> {
    h.0@
}

impl KeymapRegistry {
    /// Pending bindings, one per (keystroke, context, view).
    pub closed spec fn bindings(&self) -> Seq<PendingBinding> {
        self.bindings@
    }

    /// Pending global hotkeys, one per keystroke.
    pub closed spec fn hotkeys(&self) -> Seq<PendingHotkey> {
        self.hotkeys@
    }

    /// Stored Lua handlers, one per id.
    pub closed spec fn handlers(&self) -> Seq<(String, LuaFunctionRef)> {
        self.lua_handlers@
    }

    /// No two bindings, hotkeys or handlers share a key.
    pub open spec fn wf(&self) -> bool {
        &&& keys_distinct(self.bindings(), |b: PendingBinding| binding_key(b))
        &&& keys_distinct(self.hotkeys(), |h: PendingHotkey| hotkey_key(h))
        &&& keys_distinct(self.handlers(), |h: (String, LuaFunctionRef)| handler_key(h))
    }

    /// Create a new empty keymap registry.
    pub fn new() -> (r: Self)
        ensures
            r.wf(),
            r.bindings().len() == 0,
            r.hotkeys().len() == 0,
            r.handlers().len() == 0,
    {
        KeymapRegistry { bindings: Vec::new(), hotkeys: Vec::new(), lua_handlers: Vec::new() }
    }

    fn find_binding(&self, key: &str, context: Option<&str>, view: Option<&str>) -> (r: Option<usize>)
        requires
            self.wf(),
        ensures
            match r {
                Some(i) => position_of(self.bindings(), |b: PendingBinding| binding_key(b), (key@, match context { Some(s) => Some(s@), None => None::<Seq<char>> }, match view { Some(s) => Some(s@), None => None::<Seq<char>> })) == Some(i as int),
                None => position_of(self.bindings(), |b: PendingBinding| binding_key(b), (key@, match context { Some(s) => Some(s@), None => None::<Seq<char>> }, match view { Some(s) => Some(s@), None => None::<Seq<char>> })) is None,
            },
    {
        let ghost k = (key@, match context { Some(s) => Some(s@), None => None::<Seq<char>> }, match view { Some(s) => Some(s@), None => None::<Seq<char>> });
        let ghost kf = |b: PendingBinding| binding_key(b);
        let mut i: usize = 0;
        while i < self.bindings.len()
            invariant
                self.wf(),
                0 <= i <= self.bindings@.len(),
                kf == (|b: PendingBinding| binding_key(b)),
                k == (key@, match context { Some(s) => Some(s@), None => None::<Seq<char>> }, match view { Some(s) => Some(s@), None => None::<Seq<char>> }),
                forall|j: int| 0 <= j < i ==> kf(self.bindings@[j]) != k,
            decreases self.bindings@.len() - i,
        {
            let b = &self.bindings[i];
            if str_equal(b.key.as_str(), key) && opt_str_equal_ref(&b.context, context) && opt_str_equal_ref(&b.view, view) {
                proof {
                    assert(kf(self.bindings@[i as int]) == k);
                    lemma_position_unique(self.bindings@, kf, k, i as int);
                }
                return Some(i);
            }
            i = i + 1;
        }
        None
    }

    /// Add a binding. If the same (key, context, view) exists, it is overwritten.
    pub fn set(&mut self, binding: PendingBinding)
        requires
            old(self).wf(),
        ensures
            final(self).wf(),
            final(self).bindings() == upserted(old(self).bindings(), |b: PendingBinding| binding_key(b), binding),
            final(self).hotkeys() == old(self).hotkeys(),
            final(self).handlers() == old(self).handlers(),
    {
        let ghost kf = |b: PendingBinding| binding_key(b);
        let at = {
            let context = match &binding.context { Some(s) => Some(s.as_str()), None => None };
            let view = match &binding.view { Some(s) => Some(s.as_str()), None => None };
            self.find_binding(binding.key.as_str(), context, view)
        };
        proof {
            assert(kf(binding) == (binding.key@, opt_view(binding.context), opt_view(binding.view)));
            lemma_upserted(old(self).bindings(), kf, binding);
        }
        match at {
            Some(i) => {
                self.bindings.set(i, binding);
            },
            None => {
                self.bindings.push(binding);
            },
        }
    }

    /// Remove a binding by key, context, and optional view. Returns `true` if
    /// a binding was removed.
    pub fn del(&mut self, key: &str, context: Option<&str>, view: Option<&str>) -> (r: bool)
        requires
            old(self).wf(),
        ensures
            final(self).wf(),
            r == position_of(old(self).bindings(), |b: PendingBinding| binding_key(b), (key@, match context { Some(s) => Some(s@), None => None::<Seq<char>> }, match view { Some(s) => Some(s@), None => None::<Seq<char>> })) is Some,
            final(self).bindings() == deleted(old(self).bindings(), |b: PendingBinding| binding_key(b), (key@, match context { Some(s) => Some(s@), None => None::<Seq<char>> }, match view { Some(s) => Some(s@), None => None::<Seq<char>> })),
            final(self).hotkeys() == old(self).hotkeys(),
            final(self).handlers() == old(self).handlers(),
    {
        let ghost k = (key@, match context { Some(s) => Some(s@), None => None::<Seq<char>> }, match view { Some(s) => Some(s@), None => None::<Seq<char>> });
        proof {
            lemma_deleted(old(self).bindings(), |b: PendingBinding| binding_key(b), k);
        }
        match self.find_binding(key, context, view) {
            Some(i) => {
                self.bindings.remove(i);
                true
            },
            None => false,
        }
    }

    fn find_handler(&self, id: &str) -> (r: Option<usize>)
        requires
            self.wf(),
        ensures
            match r {
                Some(i) => position_of(self.handlers(), |h: (String, LuaFunctionRef)| handler_key(h), id@) == Some(i as int),
                None => position_of(self.handlers(), |h: (String, LuaFunctionRef)| handler_key(h), id@) is None,
            },
    {
        let ghost kf = |h: (String, LuaFunctionRef)| handler_key(h);
        let mut i: usize = 0;
        while i < self.lua_handlers.len()
            invariant
                self.wf(),
                0 <= i <= self.lua_handlers@.len(),
                kf == (|h: (String, LuaFunctionRef)| handler_key(h)),
                forall|j: int| 0 <= j < i ==> kf(self.lua_handlers@[j]) != id@,
            decreases self.lua_handlers@.len() - i,
        {
            if str_equal(self.lua_handlers[i].0.as_str(), id) {
                proof {
                    assert(kf(self.lua_handlers@[i as int]) == id@);
                    lemma_position_unique(self.lua_handlers@, kf, id@, i as int);
                }
                return Some(i);
            }
            i = i + 1;
        }
        None
    }

    /// Store a Lua function handler under an id, replacing one with the same id.
    pub fn store_lua_handler(&mut self, id: String, func_ref: LuaFunctionRef)
        requires
            old(self).wf(),
        ensures
            final(self).wf(),
            final(self).handlers() == upserted(old(self).handlers(), |h: (String, LuaFunctionRef)| handler_key(h), (id, func_ref)),
            final(self).bindings() == old(self).bindings(),
            final(self).hotkeys() == old(self).hotkeys(),
    {
        let ghost kf = |h: (String, LuaFunctionRef)| handler_key(h);
        proof {
            lemma_upserted(old(self).handlers(), kf, (id, func_ref));
        }
        match self.find_handler(id.as_str()) {
            Some(i) => {
                self.lua_handlers.set(i, (id, func_ref));
            },
            None => {
                self.lua_handlers.push((id, func_ref));
            },
        }
    }

    /// Get the Lua handler stored under an id.
    pub fn get_lua_handler(&self, id: &str) -> (r: Option<LuaFunctionRef>)
        requires
            self.wf(),
        ensures
            match position_of(self.handlers(), |h: (String, LuaFunctionRef)| handler_key(h), id@) {
                Some(i) => r matches Some(f) && f.key@ == self.handlers()[i].1.key@,
                None => r is None,
            },
    {
        match self.find_handler(id) {
            Some(i) => Some(self.lua_handlers[i].1.clone()),
            None => None,
        }
    }

    /// Take all pending bindings; the registry keeps none.
    pub fn take_bindings(&mut self) -> (r: Vec<PendingBinding>)
        requires
            old(self).wf(),
        ensures
            final(self).wf(),
            r@ == old(self).bindings(),
            final(self).bindings().len() == 0,
            final(self).hotkeys() == old(self).hotkeys(),
            final(self).handlers() == old(self).handlers(),
    {
        let mut taken: Vec<PendingBinding> = Vec::new();
        std::mem::swap(&mut taken, &mut self.bindings);
        taken
    }

    /// The number of pending bindings.
    pub fn binding_count(&self) -> (r: usize)
        ensures
            r == self.bindings().len(),
    {
        self.bindings.len()
    }

    /// The number of stored Lua handlers.
    pub fn handler_count(&self) -> (r: usize)
        ensures
            r == self.handlers().len(),
    {
        self.lua_handlers.len()
    }

    fn find_hotkey(&self, key: &str) -> (r: Option<usize>)
        requires
            self.wf(),
        ensures
            match r {
                Some(i) => position_of(self.hotkeys(), |h: PendingHotkey| hotkey_key(h), key@) == Some(i as int),
                None => position_of(self.hotkeys(), |h: PendingHotkey| hotkey_key(h), key@) is None,
            },
    {
        let ghost kf = |h: PendingHotkey| hotkey_key(h);
        let mut i: usize = 0;
        while i < self.hotkeys.len()
            invariant
                self.wf(),
                0 <= i <= self.hotkeys@.len(),
                kf == (|h: PendingHotkey| hotkey_key(h)),
                forall|j: int| 0 <= j < i ==> kf(self.hotkeys@[j]) != key@,
            decreases self.hotkeys@.len() - i,
        {
            if str_equal(self.hotkeys[i].key.as_str(), key) {
                proof {
                    assert(kf(self.hotkeys@[i as int]) == key@);
                    lemma_position_unique(self.hotkeys@, kf, key@, i as int);
                }
                return Some(i);
            }
            i = i + 1;
        }
        None
    }

    /// Add a global hotkey. If the same keystroke exists, it is overwritten.
    pub fn set_global(&mut self, hotkey: PendingHotkey)
        requires
            old(self).wf(),
        ensures
            final(self).wf(),
            final(self).hotkeys() == upserted(old(self).hotkeys(), |h: PendingHotkey| hotkey_key(h), hotkey),
            final(self).bindings() == old(self).bindings(),
            final(self).handlers() == old(self).handlers(),
    {
        proof {
            lemma_upserted(old(self).hotkeys(), |h: PendingHotkey| hotkey_key(h), hotkey);
        }
        match self.find_hotkey(hotkey.key.as_str()) {
            Some(i) => {
                self.hotkeys.set(i, hotkey);
            },
            None => {
                self.hotkeys.push(hotkey);
            },
        }
    }

    /// Remove a global hotkey by keystroke. Returns `true` if one was removed.
    pub fn del_global(&mut self, key: &str) -> (r: bool)
        requires
            old(self).wf(),
        ensures
            final(self).wf(),
            r == position_of(old(self).hotkeys(), |h: PendingHotkey| hotkey_key(h), key@) is Some,
            final(self).hotkeys() == deleted(old(self).hotkeys(), |h: PendingHotkey| hotkey_key(h), key@),
            final(self).bindings() == old(self).bindings(),
            final(self).handlers() == old(self).handlers(),
    {
        proof {
            lemma_deleted(old(self).hotkeys(), |h: PendingHotkey| hotkey_key(h), key@);
        }
        match self.find_hotkey(key) {
            Some(i) => {
                self.hotkeys.remove(i);
                true
            },
            None => false,
        }
    }

    /// Take all pending hotkeys; the registry keeps none.
    pub fn take_hotkeys(&mut self) -> (r: Vec<PendingHotkey>)
        requires
            old(self).wf(),
        ensures
            final(self).wf(),
            r@ == old(self).hotkeys(),
            final(self).hotkeys().len() == 0,
            final(self).bindings() == old(self).bindings(),
            final(self).handlers() == old(self).handlers(),
    {
        let mut taken: Vec<PendingHotkey> = Vec::new();
        std::mem::swap(&mut taken, &mut self.hotkeys);
        taken
    }

    /// The number of pending hotkeys.
    pub fn hotkey_count(&self) -> (r: usize)
        ensures
            r == self.hotkeys().len(),
    {
        self.hotkeys.len()
    }
}

impl Default for KeymapRegistry {
    fn default() -> (r: Self)
        ensures
            r.wf(),
            r.bindings().len() == 0,
            r.hotkeys().len() == 0,
            r.handlers().len() == 0,
    {
        Self::new()
    }
}

/// A later binding for the same key replaces the earlier one: the list keeps
/// its length and holds the later binding under that key.
pub proof fn law_set_overrides<T, K>(s0: Seq<T>, key: spec_fn(T) -> K, first: T, second: T)
    requires
        keys_distinct(s0, key),
        key(first) == key(second),
    ensures
        upserted(upserted(s0, key, first), key, second).len() == upserted(s0, key, first).len(),
        position_of(upserted(upserted(s0, key, first), key, second), key, key(second)) matches Some(i)
            && upserted(upserted(s0, key, first), key, second)[i] == second,
        keys_distinct(upserted(upserted(s0, key, first), key, second), key),
{
    lemma_upserted(s0, key, first);
    let s1 = upserted(s0, key, first);
    lemma_upserted(s1, key, second);
}

/// Deleting the key of a binding just stored leaves no binding under that
/// key, and leaves every other key as it was before the store.
pub proof fn law_del_after_set<T, K>(s0: Seq<T>, key: spec_fn(T) -> K, x: T, other: K)
    requires
        keys_distinct(s0, key),
        other != key(x),
    ensures
        position_of(deleted(upserted(s0, key, x), key, key(x)), key, key(x)) is None,
        keys_distinct(deleted(upserted(s0, key, x), key, key(x)), key),
        (position_of(deleted(upserted(s0, key, x), key, key(x)), key, other) is Some) == (position_of(s0, key, other) is Some),
        position_of(s0, key, other) is Some ==> deleted(upserted(s0, key, x), key, key(x))[position_of(deleted(upserted(s0, key, x), key, key(x)), key, other)->0] == s0[position_of(s0, key, other)->0],
{
    lemma_upserted(s0, key, x);
    let s1 = upserted(s0, key, x);
    lemma_deleted(s1, key, key(x));
    let s2 = deleted(s1, key, key(x));
    let p = position_of(s1, key, key(x))->0;
    if position_of(s2, key, other) is Some {
        let i = position_of(s2, key, other)->0;
        let a = if i < p { i } else { i + 1 };
        assert(s2[i] == s1[a]);
        lemma_position_unique(s1, key, other, a);
    }
    if position_of(s1, key, other) is Some {
        let a = position_of(s1, key, other)->0;
        assert(a != p);
        let i = if a < p { a } else { a - 1 };
        assert(s2[i] == s1[a]);
    }
}

/// Handler ids from one sequence are distinct: `before[i]` is the sequence
/// just before the `i`-th call of `generate_handler_id` and `ids[i]` is the id
/// it returned. No id is returned twice until the sequence has handed out
/// every `u64` once.
pub proof fn law_handler_ids_distinct(before: Seq<IdSequence>, ids: Seq<Seq<char>>)
    requires
        ids.len() == before.len(),
        ids.len() <= u64::MAX + 1,
        forall|i: int| 0 <= i < ids.len() ==> #[trigger] ids[i] == numbered("keyhandler"@, before[i].peek() as nat),
        forall|i: int| 0 <= i < before.len() - 1 ==> before[i + 1].peek() == next_id(#[trigger] before[i].peek()),
    ensures
        ids.no_duplicates(),
{
    let ns = before.map_values(|q: IdSequence| q.peek());
    assert forall|i: int| 0 <= i < ns.len() - 1 implies ns[i + 1] == next_id(#[trigger] ns[i]) by {
        assert(before[i + 1].peek() == next_id(before[i].peek()));
    }
    law_ids_never_repeat("keyhandler"@, ns);
    assert forall|i: int, j: int| 0 <= i < ids.len() && 0 <= j < ids.len() && i != j implies ids[i] != ids[j] by {
        if i < j {
            assert(numbered("keyhandler"@, ns[i] as nat) != numbered("keyhandler"@, ns[j] as nat));
        } else {
            assert(numbered("keyhandler"@, ns[j] as nat) != numbered("keyhandler"@, ns[i] as nat));
        }
    }
}

} // verus!
