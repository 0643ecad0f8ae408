//! The rules behind the `lux` namespace that the Lua config calls: argument
//! checks and error messages, handler ids and hook keys, and the changes to
//! the registries. The Lua runtime converts the arguments it received and
//! stores any Lua function under the key or id decided here.

use vstd::prelude::*;

use crate::hooks::{validate_hook_path, validate_hook_spec, HookError};
use crate::ids::{numbered, IdSequence};
use crate::keymap::{
    binding_key, deleted, generate_handler_id, handler_key, hotkey_key, position_of, upserted,
    BuiltInHotkey, GlobalHandler, KeyHandler, KeymapRegistry, PendingBinding, PendingHotkey,
};
use crate::selection::{mode_name, SelectionMode};
use crate::hotkey::{split_on, split_parts, trim_str, trimmed};
use crate::text::{lemma_filter_push, lemma_take_succ, owned};
use crate::types::LuaFunctionRef;
use crate::views::{ViewDefinition, ViewRegistry, ViewRegistryError};

verus! {

/// A handler argument as the Lua runtime received it.
#[derive(Debug)]
pub enum HandlerArg {
    /// No handler was passed.
    Missing,
    /// A string: the name of an action.
    Name(String),
    /// A Lua function.
    Function,
    /// Any other value.
    Other,
}

/// A key argument: `None` when missing, `Some(None)` when not a string.
pub type KeyArg = Option<Option<String>>;

/// The key of a `keymap` call, or the error for a missing or non-string key.
pub open spec fn key_arg_result(key: KeyArg, call: Seq<char>) -> Result<Seq<char>, Seq<char>> {
    match key {
        None => Err(call + " requires key argument"@),
        Some(None) => Err("key must be a string"@),
        Some(Some(k)) => Ok(k@),
    }
}

fn take_key(key: KeyArg, call: &str) -> (r: Result<String, String>)
    ensures
        match key_arg_result(key, call@) {
            Ok(k) => r matches Ok(s) && s@ == k,
            Err(e) => r matches Err(s) && s@ == e,
        },
{
    match key {
        None => {
            let mut e = owned(call);
            e.append(" requires key argument");
            Err(e)
        },
        Some(None) => Err(owned("key must be a string")),
        Some(Some(k)) => Ok(k),
    }
}

/// `lux.keymap.set(key, handler, opts)`: bind a keystroke to an action name
/// or to a Lua function, globally or for a context and view. A function gets
/// a fresh handler id, under which it is recorded; the id is returned so that
/// the runtime stores the function under it.
pub fn keymap_set(
    keymap: &mut KeymapRegistry,
    ids: &mut IdSequence,
    key: KeyArg,
    handler: HandlerArg,
    context: Option<String>,
    view: Option<String>,
) -> (r: Result<Option<String>, String>)
    requires
        old(keymap).wf(),
    ensures
        final(keymap).wf(),
        key_arg_result(key, "keymap.set"@) matches Err(e) ==> (r matches Err(m) && m@ == e)
            && *final(keymap) == *old(keymap) && final(ids).peek() == old(ids).peek(),
        key_arg_result(key, "keymap.set"@) is Ok ==> match handler {
            HandlerArg::Missing => (r matches Err(m) && m@ == "keymap.set requires handler argument"@)
                && *final(keymap) == *old(keymap) && final(ids).peek() == old(ids).peek(),
            HandlerArg::Other => (r matches Err(m) && m@ == "handler must be string or function"@)
                && *final(keymap) == *old(keymap) && final(ids).peek() == old(ids).peek(),
            HandlerArg::Name(name) => r == Ok::<Option<String>, String>(None)
                && final(ids).peek() == old(ids).peek()
                && final(keymap).handlers() == old(keymap).handlers()
                && exists|b: PendingBinding| {
                    &&& b.key@ == key->0->0@
                    &&& b.handler == KeyHandler::Action(name)
                    &&& b.context == context
                    &&& b.view == view
                    &&& final(keymap).bindings() == upserted(old(keymap).bindings(), |x: PendingBinding| binding_key(x), b)
                },
            HandlerArg::Function => r matches Ok(Some(id)) && id@ == numbered("keyhandler"@, old(ids).peek() as nat)
                && final(ids).peek() == (if old(ids).peek() == u64::MAX { 0 } else { old(ids).peek() + 1 })
                && final(keymap).handlers() == upserted(old(keymap).handlers(), |h: (String, LuaFunctionRef)| handler_key(h), (id, LuaFunctionRef { key: id }))
                && exists|b: PendingBinding| {
                    &&& b.key@ == key->0->0@
                    &&& b.handler == KeyHandler::Function { id }
                    &&& b.context == context
                    &&& b.view == view
                    &&& final(keymap).bindings() == upserted(old(keymap).bindings(), |x: PendingBinding| binding_key(x), b)
                },
        },
        final(keymap).hotkeys() == old(keymap).hotkeys(),
{
    let key = match take_key(key, "keymap.set") {
        Ok(k) => k,
        Err(e) => return Err(e),
    };
    let (handler, stored) = match handler {
        HandlerArg::Missing => return Err(owned("keymap.set requires handler argument")),
        HandlerArg::Other => return Err(owned("handler must be string or function")),
        HandlerArg::Name(name) => (KeyHandler::Action(name), None),
        HandlerArg::Function => {
            let id = generate_handler_id(ids);
            keymap.store_lua_handler(id.clone(), LuaFunctionRef::new(id.clone()));
            (KeyHandler::Function { id: id.clone() }, Some(id))
        },
    };
    keymap.set(PendingBinding { key, handler, context, view });
    Ok(stored)
}

/// `lux.keymap.del(key, opts)`: remove the binding of a keystroke in a
/// context and view; returns whether there was one.
pub fn keymap_del(
    keymap: &mut KeymapRegistry,
    key: KeyArg,
    context: Option<String>,
    view: Option<String>,
) -> (r: Result<bool, String>)
    requires
        old(keymap).wf(),
    ensures
        final(keymap).wf(),
        key_arg_result(key, "keymap.del"@) matches Err(e) ==> (r matches Err(m) && m@ == e)
            && *final(keymap) == *old(keymap),
        key_arg_result(key, "keymap.del"@) matches Ok(k) ==> {
            let bk = (k, match context { Some(s) => Some(s@), None => None::<Seq<char>> }, match view {
                Some(s) => Some(s@),
                None => None::<Seq<char>>,
            });
            &&& r == Ok::<bool, String>(position_of(old(keymap).bindings(), |b: PendingBinding| binding_key(b), bk) is Some)
            &&& final(keymap).bindings() == deleted(old(keymap).bindings(), |b: PendingBinding| binding_key(b), bk)
        },
        final(keymap).hotkeys() == old(keymap).hotkeys(),
        final(keymap).handlers() == old(keymap).handlers(),
{
    let key = match take_key(key, "keymap.del") {
        Ok(k) => k,
        Err(e) => return Err(e),
    };
    let c: Option<&str> = match &context {
        Some(s) => Some(s.as_str()),
        None => None,
    };
    let v: Option<&str> = match &view {
        Some(s) => Some(s.as_str()),
        None => None,
    };
    Ok(keymap.del(key.as_str(), c, v))
}

/// `lux.keymap.set_global(key, handler)`: bind a system-wide hotkey to a
/// built-in action (by name) or to a Lua function. A function gets a fresh
/// handler id, returned so that the runtime stores the function under it.
pub fn keymap_set_global(
    keymap: &mut KeymapRegistry,
    ids: &mut IdSequence,
    key: KeyArg,
    handler: HandlerArg,
) -> (r: Result<Option<String>, String>)
    requires
        old(keymap).wf(),
    ensures
        final(keymap).wf(),
        key_arg_result(key, "keymap.set_global"@) matches Err(e) ==> (r matches Err(m) && m@ == e)
            && *final(keymap) == *old(keymap) && final(ids).peek() == old(ids).peek(),
        key_arg_result(key, "keymap.set_global"@) is Ok ==> match handler {
            HandlerArg::Missing => (r matches Err(m) && m@ == "keymap.set_global requires handler argument"@)
                && *final(keymap) == *old(keymap) && final(ids).peek() == old(ids).peek(),
            HandlerArg::Other => (r matches Err(m) && m@ == "handler must be string or function"@)
                && *final(keymap) == *old(keymap) && final(ids).peek() == old(ids).peek(),
            HandlerArg::Name(name) => if name@ == BuiltInHotkey::ToggleLauncher.name_spec() {
                r == Ok::<Option<String>, String>(None) && final(ids).peek() == old(ids).peek()
                    && final(keymap).handlers() == old(keymap).handlers()
                    && exists|h: PendingHotkey| {
                        &&& h.key@ == key->0->0@
                        &&& h.handler == GlobalHandler::BuiltIn(BuiltInHotkey::ToggleLauncher)
                        &&& final(keymap).hotkeys() == upserted(old(keymap).hotkeys(), |x: PendingHotkey| hotkey_key(x), h)
                    }
            } else {
                (r matches Err(m) && m@ == "Unknown global action: '"@ + name@ + "'. Available: toggle_launcher"@)
                    && *final(keymap) == *old(keymap) && final(ids).peek() == old(ids).peek()
            },
            HandlerArg::Function => r matches Ok(Some(id)) && id@ == numbered("keyhandler"@, old(ids).peek() as nat)
                && final(ids).peek() == (if old(ids).peek() == u64::MAX { 0 } else { old(ids).peek() + 1 })
                && final(keymap).handlers() == upserted(old(keymap).handlers(), |h: (String, LuaFunctionRef)| handler_key(h), (id, LuaFunctionRef { key: id }))
                && exists|h: PendingHotkey| {
                    &&& h.key@ == key->0->0@
                    &&& h.handler == GlobalHandler::Function { id }
                    &&& final(keymap).hotkeys() == upserted(old(keymap).hotkeys(), |x: PendingHotkey| hotkey_key(x), h)
                },
        },
        final(keymap).bindings() == old(keymap).bindings(),
{
    let key = match take_key(key, "keymap.set_global") {
        Ok(k) => k,
        Err(e) => return Err(e),
    };
    let (handler, stored) = match handler {
        HandlerArg::Missing => return Err(owned("keymap.set_global requires handler argument")),
        HandlerArg::Other => return Err(owned("handler must be string or function")),
        HandlerArg::Name(name) => match BuiltInHotkey::from_name(name.as_str()) {
            Some(builtin) => (GlobalHandler::BuiltIn(builtin), None),
            None => {
                let mut e = owned("Unknown global action: '");
                e.append(name.as_str());
                e.append("'. Available: toggle_launcher");
                return Err(e);
            },
        },
        HandlerArg::Function => {
            let id = generate_handler_id(ids);
            keymap.store_lua_handler(id.clone(), LuaFunctionRef::new(id.clone()));
            (GlobalHandler::Function { id: id.clone() }, Some(id))
        },
    };
    keymap.set_global(PendingHotkey { key, handler });
    Ok(stored)
}

/// `lux.keymap.del_global(key)`: remove a global hotkey; returns whether
/// there was one.
pub fn keymap_del_global(keymap: &mut KeymapRegistry, key: Option<String>) -> (r: Result<bool, String>)
    requires
        old(keymap).wf(),
    ensures
        final(keymap).wf(),
        key is None ==> (r matches Err(m) && m@ == "key must be a string"@) && *final(keymap) == *old(keymap),
        key matches Some(k) ==> r == Ok::<bool, String>(position_of(old(keymap).hotkeys(), |h: PendingHotkey| hotkey_key(h), k@) is Some)
            && final(keymap).hotkeys() == deleted(old(keymap).hotkeys(), |h: PendingHotkey| hotkey_key(h), k@),
        final(keymap).bindings() == old(keymap).bindings(),
        final(keymap).handlers() == old(keymap).handlers(),
{
    match key {
        None => Err(owned("key must be a string")),
        Some(k) => Ok(keymap.del_global(k.as_str())),
    }
}

/// `lux.hook(path, fn)`: the registry key for the hook's function,
/// `hook:<path>:keyhandler:<n>`, or the message of the path's validation
/// error.
pub fn hook_function_key(path: &str, ids: &mut IdSequence) -> (r: Result<String, String>)
    ensures
        validate_hook_spec(path@) matches Some(e) ==> (r matches Err(m) && m@ == "Invalid hook path: "@ + e)
            && final(ids).peek() == old(ids).peek(),
        validate_hook_spec(path@) is None ==> (r matches Ok(k) && k@ == "hook:"@ + path@ + ":"@ + numbered("keyhandler"@, old(ids).peek() as nat))
            && final(ids).peek() == (if old(ids).peek() == u64::MAX { 0 } else { old(ids).peek() + 1 }),
{
    match validate_hook_path(path) {
        Err(e) => Err(e.message()),
        Ok(()) => {
            let mut key = owned("hook:");
            key.append(path);
            key.append(":");
            let id = generate_handler_id(ids);
            key.append(id.as_str());
            Ok(key)
        },
    }
}

/// `lux.views.add(def)`: register a view definition; an id already taken is
/// an error with its message.
pub fn views_add(views: &mut ViewRegistry, def: ViewDefinition) -> (r: Result<(), String>)
    requires
        old(views).wf(),
    ensures
        final(views).wf(),
        old(views).has(def.id@) ==> (r matches Err(m) && m@ == "View '"@ + def.id@ + "' already exists"@)
            && final(views).views() == old(views).views(),
        !old(views).has(def.id@) ==> r is Ok && final(views).views() == old(views).views().push(def),
{
    match views.add(def) {
        Ok(()) => Ok(()),
        Err(e) => Err(e.message()),
    }
}

/// The name of a selection mode, as the Lua API shows it.
pub fn selection_name(mode: SelectionMode) -> (r: &'static str)
    ensures
        r@ == match mode {
            SelectionMode::Single => "single"@,
            SelectionMode::Multi => "multi"@,
            SelectionMode::Custom => "custom"@,
        },
        r@ == mode_name(mode),
{
    match mode {
        SelectionMode::Single => "single",
        SelectionMode::Multi => "multi",
        SelectionMode::Custom => "custom",
    }
}

/// `lux.shell(...)`: the command line of a fire-and-forget call, its parts
/// joined by spaces; at least one part is needed.
pub open spec fn joined(parts: Seq<Seq<char>>) -> Seq<char>
    decreases parts.len(),
{
    if parts.len() == 0 {
        Seq::empty()
    } else if parts.len() == 1 {
        parts[0]
    } else {
        joined(parts.drop_last()) + " "@ + parts.last()
    }
}

/// The command line for `lux.shell(...)`.
pub fn shell_command(parts: &Vec<String>) -> (r: Result<String, String>)
    ensures
        parts@.len() == 0 ==> (r matches Err(m) && m@ == "shell() requires at least one argument"@),
        parts@.len() > 0 ==> (r matches Ok(c) && c@ == joined(parts@.map_values(|p: String| p@))),
{
    if parts.len() == 0 {
        return Err(owned("shell() requires at least one argument"));
    }
    let ghost ps = parts@.map_values(|p: String| p@);
    let mut out = parts[0].clone();
    let mut i: usize = 1;
    proof {
        assert(ps.take(1).drop_last() =~= Seq::<Seq<char>>::empty());
        assert(joined(ps.take(1)) == ps.take(1)[0]);
    }
    while i < parts.len()
        invariant
            1 <= i <= parts@.len(),
            ps == parts@.map_values(|p: String| p@),
            out@ == joined(ps.take(i as int)),
        decreases parts@.len() - i,
    {
        out.append(" ");
        out.append(parts[i].as_str());
        proof {
            assert(ps.take(i as int + 1).drop_last() =~= ps.take(i as int));
            assert(ps.take(i as int + 1).last() == parts@[i as int]@);
        }
        i = i + 1;
    }
    proof {
        assert(ps.take(parts@.len() as int) =~= ps);
    }
    Ok(out)
}

/// Whether a line is not empty.
pub open spec fn non_empty_line() -> spec_fn(Seq<char>) -> bool {
    |l: Seq<char>| l.len() > 0
}

/// The paths that a shell listing names: its non-empty lines, once the
/// listing is trimmed of surrounding white space.
pub open spec fn listed_paths(output: Seq<char>) -> Seq<Seq<char>> {
    split_parts(trimmed(output), '\n').filter(non_empty_line())
}

/// The paths of a glob from the shell's listing of it, one per line, in
/// order (`lux.fs.glob`).
pub fn glob_paths(output: &str) -> (r: Vec<String>)
    ensures
        r@.map_values(|p: String| p@) == listed_paths(output@),
{
    let lines = split_on(trim_str(output), '\n');
    let ghost all = lines@.map_values(|p: &str| p@);
    let mut out: Vec<String> = Vec::new();
    let mut i: usize = 0;
    while i < lines.len()
        invariant
            0 <= i <= lines@.len(),
            all == lines@.map_values(|p: &str| p@),
            out@.map_values(|p: String| p@) == all.take(i as int).filter(non_empty_line()),
        decreases lines@.len() - i,
    {
        let line = lines[i];
        proof {
            lemma_take_succ(all, i as int);
            lemma_filter_push(all.take(i as int), line@, non_empty_line());
        }
        if line.unicode_len() > 0 {
            let ghost before = out@.map_values(|p: String| p@);
            out.push(owned(line));
            proof {
                assert(out@.map_values(|p: String| p@) =~= before.push(line@));
            }
        }
        i = i + 1;
    }
    proof {
        assert(all.take(all.len() as int) =~= all);
    }
    out
}

} // verus!
