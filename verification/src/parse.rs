//! Reading view tables from the Lua config into views and view definitions.
//!
//! The Lua runtime reads each field of a table (which may run Lua code
//! through metamethods) and hands over what it found: a value, nothing, or
//! the error of reading it. The rules of the table shape, the error messages
//! and the registry keys under which the view's functions are stored are
//! decided here.

use vstd::prelude::*;
use vstd::view::View as ModelView;

use crate::ids::{numbered, numbered_id, IdSequence};
use crate::selection::{mode_name, SelectionMode};
use crate::text::{owned, str_equal};
use crate::types::{LuaFunctionRef, View};
use crate::views::ViewDefinition;

verus! {

/// What a view table (for `lux.set_root` or `ctx:push`) holds, field by
/// field, as the Lua runtime read it.
#[derive(Debug)]
pub struct ViewTable {
    /// `id`: optional stable view identifier.
    pub id: Result<Option<String>, String>,
    /// `title`: optional.
    pub title: Result<Option<String>, String>,
    /// `placeholder`: optional.
    pub placeholder: Result<Option<String>, String>,
    /// Whether `search` (or, for compatibility, `source`) is a function.
    pub has_search: bool,
    /// `selection`: optional, "single", "multi" or "custom".
    pub selection: Result<Option<String>, String>,
    /// Whether `on_select` is a function.
    pub on_select: Result<bool, String>,
    /// Whether `on_submit` is a function.
    pub on_submit: Result<bool, String>,
    /// Whether `get_actions` is a function.
    pub get_actions: Result<bool, String>,
    /// `view_data` as JSON (null when absent).
    pub view_data: Result<serde_json::Value, String>,
}

/// What a view definition table (for `lux.views.add`) holds.
#[derive(Debug)]
pub struct ViewDefinitionTable {
    /// `id`: required; `None` when missing or not a string.
    pub id: Option<String>,
    /// `title`: optional.
    pub title: Result<Option<String>, String>,
    /// `placeholder`: optional.
    pub placeholder: Result<Option<String>, String>,
    /// `selection`: optional, "single" or "multi".
    pub selection: Result<Option<String>, String>,
    /// Whether `search` is a function.
    pub has_search: bool,
    /// Whether `get_actions` is a function.
    pub has_get_actions: bool,
}

/// The number after `n` (wrapping).
pub open spec fn following(n: u64) -> u64 {
    if n == u64::MAX {
        0
    } else {
        (n + 1) as u64
    }
}

/// The number `k` steps after `n`.
pub open spec fn advance_by(n: u64, k: nat) -> u64
    decreases k,
{
    if k == 0 {
        n
    } else {
        following(advance_by(n, (k - 1) as nat))
    }
}

/// The first few steps from a number.
proof fn lemma_advance_small(n: u64)
    ensures
        advance_by(n, 0) == n,
        advance_by(n, 1) == following(n),
        advance_by(n, 2) == following(following(n)),
        advance_by(n, 3) == following(following(following(n))),
        advance_by(n, 4) == following(following(following(following(n)))),
        advance_by(n, 5) == following(following(following(following(following(n))))),
{
    reveal_with_fuel(advance_by, 6);
}

/// The text of an optional string.
pub open spec fn text_of(s: Option<String>) -> Option<Seq<char>> {
    match s {
        Some(t) => Some(t@),
        None => None,
    }
}

/// The selection mode a `selection` field names; `None` when it names none
/// of the allowed modes. Absent means single.
pub open spec fn selection_spec(s: Option<Seq<char>>, allow_custom: bool) -> Option<SelectionMode> {
    match s {
        None => Some(SelectionMode::Single),
        Some(t) => if t == "single"@ {
            Some(SelectionMode::Single)
        } else if t == "multi"@ {
            Some(SelectionMode::Multi)
        } else if allow_custom && t == "custom"@ {
            Some(SelectionMode::Custom)
        } else {
            None
        },
    }
}

/// A `selection` field is read by the mode's name: a field that names a mode
/// gives that mode (custom only where it is allowed), a field that gives a
/// mode names it, and a missing field gives single selection.
pub proof fn law_selection_by_name(t: Seq<char>, m: SelectionMode, allow_custom: bool)
    ensures
        (allow_custom || m != SelectionMode::Custom) ==> selection_spec(Some(mode_name(m)), allow_custom) == Some(m),
        selection_spec(Some(t), allow_custom) == Some(m) ==> t == mode_name(m),
        selection_spec(Some(t), allow_custom) == Some(SelectionMode::Custom) ==> allow_custom,
        selection_spec(None, allow_custom) == Some(SelectionMode::Single),
{
    reveal_strlit("single");
    reveal_strlit("multi");
    reveal_strlit("custom");
    assert("single"@ != "multi"@) by {
        assert("single"@[0] != "multi"@[0]);
    }
    assert("single"@ != "custom"@) by {
        assert("single"@[0] != "custom"@[0]);
    }
    assert("multi"@ != "custom"@) by {
        assert("multi"@[0] != "custom"@[0]);
    }
}

/// The message for a selection mode that is not allowed.
pub open spec fn invalid_selection_message(s: Seq<char>, allow_custom: bool) -> Seq<char> {
    if allow_custom {
        "Invalid selection mode '"@ + s + "'. Expected 'single', 'multi', or 'custom'"@
    } else {
        "Invalid selection mode '"@ + s + "'. Expected 'single' or 'multi'"@
    }
}

/// The selection mode a `selection` field names, or the error message.
pub fn parse_selection(s: &Option<String>, allow_custom: bool) -> (r: Result<SelectionMode, String>)
    ensures
        match selection_spec(text_of(*s), allow_custom) {
            Some(m) => r == Ok::<SelectionMode, String>(m),
            None => r matches Err(e) && e@ == invalid_selection_message(s->0@, allow_custom),
        },
        (r is Ok && s is Some) ==> s->0@ == mode_name(r->Ok_0),
        s is None ==> r == Ok::<SelectionMode, String>(SelectionMode::Single),
{
    proof {
        if s is Some {
            law_selection_by_name(s->0@, SelectionMode::Single, allow_custom);
            law_selection_by_name(s->0@, SelectionMode::Multi, allow_custom);
            law_selection_by_name(s->0@, SelectionMode::Custom, allow_custom);
        }
    }
    match s {
        None => Ok(SelectionMode::Single),
        Some(t) => {
            if str_equal(t.as_str(), "single") {
                Ok(SelectionMode::Single)
            } else if str_equal(t.as_str(), "multi") {
                Ok(SelectionMode::Multi)
            } else if allow_custom && str_equal(t.as_str(), "custom") {
                Ok(SelectionMode::Custom)
            } else {
                let mut e = owned("Invalid selection mode '");
                e.append(t.as_str());
                if allow_custom {
                    e.append("'. Expected 'single', 'multi', or 'custom'");
                } else {
                    e.append("'. Expected 'single' or 'multi'");
                }
                Err(e)
            }
        },
    }
}

/// The message of a read error, if the field could not be read.
pub open spec fn read_error<T>(f: Result<T, String>) -> Option<Seq<char>> {
    match f {
        Ok(_) => None,
        Err(e) => Some(e@),
    }
}

/// Whether a function field holds a function (false when it failed to read).
pub open spec fn holds_fn(f: Result<bool, String>) -> bool {
    f == Ok::<bool, String>(true)
}

/// The first error of a view table, in the order its fields are read: id,
/// title, placeholder, the required search function, selection, on_select,
/// a custom selection without on_select, on_submit, get_actions, view_data.
pub open spec fn view_table_error(t: ViewTable) -> Option<Seq<char>> {
    if t.id is Err {
        read_error(t.id)
    } else if t.title is Err {
        read_error(t.title)
    } else if t.placeholder is Err {
        read_error(t.placeholder)
    } else if !t.has_search {
        Some("View missing required 'search' function"@)
    } else if t.selection is Err {
        read_error(t.selection)
    } else if selection_spec(text_of(t.selection->Ok_0), true) is None {
        Some(invalid_selection_message(t.selection->Ok_0->0@, true))
    } else if t.on_select is Err {
        read_error(t.on_select)
    } else if selection_spec(text_of(t.selection->Ok_0), true) == Some(SelectionMode::Custom)
        && !holds_fn(t.on_select) {
        Some("View with selection='custom' must have 'on_select' function"@)
    } else if t.on_submit is Err {
        read_error(t.on_submit)
    } else if t.get_actions is Err {
        read_error(t.get_actions)
    } else if t.view_data is Err {
        read_error(t.view_data)
    } else {
        None
    }
}

/// How many numbers reading a view table draws: one for the view key, one
/// for each function stored before the table is done or an error stops it.
pub open spec fn view_table_draws(t: ViewTable) -> nat {
    if t.id is Err || t.title is Err || t.placeholder is Err || !t.has_search {
        1
    } else if t.selection is Err || selection_spec(text_of(t.selection->Ok_0), true) is None
        || t.on_select is Err {
        2
    } else {
        let after_select: nat = if holds_fn(t.on_select) { 3 } else { 2 };
        if selection_spec(text_of(t.selection->Ok_0), true) == Some(SelectionMode::Custom)
            && !holds_fn(t.on_select) {
            2
        } else if t.on_submit is Err {
            after_select
        } else {
            let after_submit: nat = if holds_fn(t.on_submit) { after_select + 1 } else { after_select };
            if t.get_actions is Err {
                after_submit
            } else if holds_fn(t.get_actions) {
                after_submit + 1
            } else {
                after_submit
            }
        }
    }
}

/// The registry key of an optional function: `prefix:name:n` if present.
pub open spec fn fn_key(prefix: Seq<char>, name: Seq<char>, n: u64, present: bool) -> Option<Seq<char>> {
    if present {
        Some(numbered(prefix + name, n as nat))
    } else {
        None
    }
}

/// The key of an optional function reference.
pub open spec fn key_of(f: Option<LuaFunctionRef>) -> Option<Seq<char>> {
    match f {
        Some(r) => Some(r.key@),
        None => None,
    }
}

/// Store an optional function under the next number.
fn optional_fn(prefix: &str, name: &str, present: bool, ids: &mut IdSequence) -> (r: Option<LuaFunctionRef>)
    ensures
        key_of(r) == fn_key(prefix@, name@, old(ids).peek(), present),
        final(ids).peek() == (if present { following(old(ids).peek()) } else { old(ids).peek() }),
{
    if present {
        let mut p = owned(prefix);
        p.append(name);
        let n = ids.take();
        Some(LuaFunctionRef::new(numbered_id(p.as_str(), n)))
    } else {
        None
    }
}

/// Read a view table into a view. The view key is `view:n` for the next
/// number `n`; each function present is stored under
/// `view:n:<field>:m` with the numbers that follow, in the order search,
/// on_select, on_submit, get_actions. The runtime stores each function of
/// the table under the key its reference carries.
pub fn parse_view(t: ViewTable, ids: &mut IdSequence) -> (r: Result<View, String>)
    ensures
        final(ids).peek() == advance_by(old(ids).peek(), view_table_draws(t)),
        view_table_error(t) is Some <==> r is Err,
        view_table_error(t) matches Some(e) ==> (r matches Err(m) && m@ == e),
        r matches Ok(v) ==> {
            let n0 = old(ids).peek();
            let vk = numbered("view"@, n0 as nat);
            let n1 = following(n0);
            let n2 = following(n1);
            let n3 = if holds_fn(t.on_select) { following(n2) } else { n2 };
            let n4 = if holds_fn(t.on_submit) { following(n3) } else { n3 };
            &&& v.id == t.id->Ok_0
            &&& v.title == t.title->Ok_0
            &&& v.placeholder == t.placeholder->Ok_0
            &&& v.source_fn.key@ == numbered(vk + ":search"@, n1 as nat)
            &&& Some(v.selection) == selection_spec(text_of(t.selection->Ok_0), true)
            &&& key_of(v.on_select_fn) == fn_key(vk, ":on_select"@, n2, holds_fn(t.on_select))
            &&& key_of(v.on_submit_fn) == fn_key(vk, ":on_submit"@, n3, holds_fn(t.on_submit))
            &&& key_of(v.get_actions_fn) == fn_key(vk, ":get_actions"@, n4, holds_fn(t.get_actions))
            &&& v.view_data == t.view_data->Ok_0
        },
{
    proof {
        lemma_advance_small(old(ids).peek());
    }
    let n = ids.take();
    let view_key = numbered_id("view", n);
    let id = match t.id {
        Ok(v) => v,
        Err(e) => return Err(e),
    };
    let title = match t.title {
        Ok(v) => v,
        Err(e) => return Err(e),
    };
    let placeholder = match t.placeholder {
        Ok(v) => v,
        Err(e) => return Err(e),
    };
    if !t.has_search {
        return Err(owned("View missing required 'search' function"));
    }
    let mut search_prefix = view_key.clone();
    search_prefix.append(":search");
    let m = ids.take();
    let source_fn = LuaFunctionRef::new(numbered_id(search_prefix.as_str(), m));
    let selection_text = match t.selection {
        Ok(v) => v,
        Err(e) => return Err(e),
    };
    let selection = match parse_selection(&selection_text, true) {
        Ok(s) => s,
        Err(e) => return Err(e),
    };
    let has_on_select = match t.on_select {
        Ok(b) => b,
        Err(e) => return Err(e),
    };
    let on_select_fn = optional_fn(view_key.as_str(), ":on_select", has_on_select, ids);
    if selection == SelectionMode::Custom && !has_on_select {
        return Err(owned("View with selection='custom' must have 'on_select' function"));
    }
    let has_on_submit = match t.on_submit {
        Ok(b) => b,
        Err(e) => return Err(e),
    };
    let on_submit_fn = optional_fn(view_key.as_str(), ":on_submit", has_on_submit, ids);
    let has_get_actions = match t.get_actions {
        Ok(b) => b,
        Err(e) => return Err(e),
    };
    let get_actions_fn = optional_fn(view_key.as_str(), ":get_actions", has_get_actions, ids);
    let view_data = match t.view_data {
        Ok(v) => v,
        Err(e) => return Err(e),
    };
    Ok(View {
        id,
        title,
        placeholder,
        source_fn,
        get_actions_fn,
        selection,
        on_select_fn,
        on_submit_fn,
        view_data,
    })
}

/// The first error of a view definition table, in the order its fields are
/// read: the required id, title, placeholder, selection, the required search
/// and get_actions functions.
pub open spec fn definition_table_error(t: ViewDefinitionTable) -> Option<Seq<char>> {
    if t.id is None {
        Some("View missing required 'id' field"@)
    } else if t.title is Err {
        read_error(t.title)
    } else if t.placeholder is Err {
        read_error(t.placeholder)
    } else if t.selection is Err {
        read_error(t.selection)
    } else if selection_spec(text_of(t.selection->Ok_0), false) is None {
        Some(invalid_selection_message(t.selection->Ok_0->0@, false))
    } else if !t.has_search {
        Some("View missing required 'search' function"@)
    } else if !t.has_get_actions {
        Some("View missing required 'get_actions' function"@)
    } else {
        None
    }
}

/// How many numbers reading a view definition table draws: one for each of
/// its two functions stored before the table is done or an error stops it.
pub open spec fn definition_table_draws(t: ViewDefinitionTable) -> nat {
    if t.id is None || t.title is Err || t.placeholder is Err || t.selection is Err
        || selection_spec(text_of(t.selection->Ok_0), false) is None || !t.has_search {
        0
    } else if !t.has_get_actions {
        1
    } else {
        2
    }
}

/// Read a view definition table. Its search function is stored under
/// `view:<id>:search:n` and its get_actions function under
/// `view:<id>:get_actions:m`, for the next two numbers.
pub fn parse_view_definition(t: ViewDefinitionTable, ids: &mut IdSequence) -> (r: Result<ViewDefinition, String>)
    ensures
        definition_table_error(t) is Some <==> r is Err,
        definition_table_error(t) matches Some(e) ==> (r matches Err(m) && m@ == e),
        final(ids).peek() == advance_by(old(ids).peek(), definition_table_draws(t)),
        r matches Ok(d) ==> {
            let prefix = "view:"@ + t.id->0@;
            let n0 = old(ids).peek();
            &&& d.id == t.id->0
            &&& d.title == t.title->Ok_0
            &&& d.placeholder == t.placeholder->Ok_0
            &&& Some(d.selection) == selection_spec(text_of(t.selection->Ok_0), false)
            &&& d.search_fn.key@ == numbered(prefix + ":search"@, n0 as nat)
            &&& d.get_actions_fn.key@ == numbered(prefix + ":get_actions"@, following(n0) as nat)
        },
{
    proof {
        lemma_advance_small(old(ids).peek());
    }
    let id = match t.id {
        Some(v) => v,
        None => return Err(owned("View missing required 'id' field")),
    };
    let title = match t.title {
        Ok(v) => v,
        Err(e) => return Err(e),
    };
    let placeholder = match t.placeholder {
        Ok(v) => v,
        Err(e) => return Err(e),
    };
    let selection_text = match t.selection {
        Ok(v) => v,
        Err(e) => return Err(e),
    };
    let selection = match parse_selection(&selection_text, false) {
        Ok(s) => s,
        Err(e) => return Err(e),
    };
    if !t.has_search {
        return Err(owned("View missing required 'search' function"));
    }
    let mut prefix = owned("view:");
    prefix.append(id.as_str());
    let mut search_prefix = prefix.clone();
    search_prefix.append(":search");
    let n = ids.take();
    let search_fn = LuaFunctionRef::new(numbered_id(search_prefix.as_str(), n));
    if !t.has_get_actions {
        return Err(owned("View missing required 'get_actions' function"));
    }
    let mut actions_prefix = prefix.clone();
    actions_prefix.append(":get_actions");
    let m = ids.take();
    let get_actions_fn = LuaFunctionRef::new(numbered_id(actions_prefix.as_str(), m));
    Ok(ViewDefinition { id, title, placeholder, selection, search_fn, get_actions_fn })
}

} // verus!
