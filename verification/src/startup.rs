//! What the launcher registers before the user's Lua config loads, so that
//! the config can override it: the default toggle hotkey and the default key
//! bindings.

use vstd::prelude::*;

use crate::keymap::{
    binding_key, hotkey_key, upserted, BuiltInHotkey, GlobalHandler, KeyHandler, KeymapRegistry,
    PendingBinding, PendingHotkey,
};
use crate::actions::{from_name_spec, lemma_name_round_trip, LauncherAction};
use crate::keybindings::{default_binding_table, normalized};
use crate::text::owned;

verus! {

/// The default bindings in the config's notation: (keystroke, action name,
/// context). Navigation in the launcher, text editing in the search input.
pub open spec fn default_keymap_table() -> Seq<(Seq<char>, Seq<char>, Seq<char>)> {
    seq![
        ("up"@, "cursor_up"@, "Launcher"@),
        ("down"@, "cursor_down"@, "Launcher"@),
        ("tab"@, "open_action_menu"@, "Launcher"@),
        ("cmd+enter"@, "toggle_selection"@, "Launcher"@),
        ("escape"@, "dismiss"@, "Launcher"@),
        ("backspace"@, "backspace"@, "SearchInput"@),
        ("delete"@, "delete"@, "SearchInput"@),
        ("left"@, "move_left"@, "SearchInput"@),
        ("right"@, "move_right"@, "SearchInput"@),
        ("shift+left"@, "select_left"@, "SearchInput"@),
        ("shift+right"@, "select_right"@, "SearchInput"@),
        ("cmd+a"@, "text_select_all"@, "SearchInput"@),
        ("home"@, "home"@, "SearchInput"@),
        ("end"@, "end"@, "SearchInput"@),
        ("cmd+c"@, "copy"@, "SearchInput"@),
        ("cmd+v"@, "paste"@, "SearchInput"@),
        ("cmd+x"@, "cut"@, "SearchInput"@),
        ("enter"@, "submit"@, "SearchInput"@),
    ]
}

/// Whether a binding is the global binding an entry of the table describes.
pub open spec fn is_table_binding(b: PendingBinding, e: (Seq<char>, Seq<char>, Seq<char>)) -> bool {
    &&& b.key@ == e.0
    &&& b.handler matches KeyHandler::Action(name) && name@ == e.1
    &&& b.context matches Some(c) && c@ == e.2
    &&& b.view is None
}

/// Set bindings one after the other.
pub open spec fn upsert_all(s: Seq<PendingBinding>, bs: Seq<PendingBinding>) -> Seq<PendingBinding>
    decreases bs.len(),
{
    if bs.len() == 0 {
        s
    } else {
        upserted(upsert_all(s, bs.drop_last()), |b: PendingBinding| binding_key(b), bs.last())
    }
}

/// A global binding of a keystroke to a built-in action in a context.
fn action_binding(key: &str, action: &str, context: &str) -> (r: PendingBinding)
    ensures
        is_table_binding(r, (key@, action@, context@)),
{
    PendingBinding {
        key: owned(key),
        handler: KeyHandler::Action(owned(action)),
        context: Some(owned(context)),
        view: None,
    }
}

/// The default bindings, in order.
pub fn default_keymap_bindings() -> (r: Vec<PendingBinding>)
    ensures
        r@.len() == default_keymap_table().len(),
        forall|i: int| 0 <= i < r@.len() ==> is_table_binding(#[trigger] r@[i], default_keymap_table()[i]),
{
    let mut v: Vec<PendingBinding> = Vec::new();
    v.push(action_binding("up", "cursor_up", "Launcher"));
    v.push(action_binding("down", "cursor_down", "Launcher"));
    v.push(action_binding("tab", "open_action_menu", "Launcher"));
    v.push(action_binding("cmd+enter", "toggle_selection", "Launcher"));
    v.push(action_binding("escape", "dismiss", "Launcher"));
    v.push(action_binding("backspace", "backspace", "SearchInput"));
    v.push(action_binding("delete", "delete", "SearchInput"));
    v.push(action_binding("left", "move_left", "SearchInput"));
    v.push(action_binding("right", "move_right", "SearchInput"));
    v.push(action_binding("shift+left", "select_left", "SearchInput"));
    v.push(action_binding("shift+right", "select_right", "SearchInput"));
    v.push(action_binding("cmd+a", "text_select_all", "SearchInput"));
    v.push(action_binding("home", "home", "SearchInput"));
    v.push(action_binding("end", "end", "SearchInput"));
    v.push(action_binding("cmd+c", "copy", "SearchInput"));
    v.push(action_binding("cmd+v", "paste", "SearchInput"));
    v.push(action_binding("cmd+x", "cut", "SearchInput"));
    v.push(action_binding("enter", "submit", "SearchInput"));
    v
}

/// Register the default bindings, before the user's config loads: each is
/// set in turn, replacing a binding with the same keystroke, context and view.
pub fn register_default_bindings(keymap: &mut KeymapRegistry)
    requires
        old(keymap).wf(),
    ensures
        final(keymap).wf(),
        exists|l: Seq<PendingBinding>|
            {
                &&& l.len() == default_keymap_table().len()
                &&& forall|i: int| 0 <= i < l.len() ==> is_table_binding(#[trigger] l[i], default_keymap_table()[i])
                &&& final(keymap).bindings() == upsert_all(old(keymap).bindings(), l)
            },
        final(keymap).hotkeys() == old(keymap).hotkeys(),
        final(keymap).handlers() == old(keymap).handlers(),
{
    let mut rest = default_keymap_bindings();
    let ghost all = rest@;
    let ghost mut done: int = 0;
    while rest.len() > 0
        invariant
            0 <= done <= all.len(),
            rest@ == all.skip(done),
            keymap.wf(),
            keymap.bindings() == upsert_all(old(keymap).bindings(), all.take(done)),
            keymap.hotkeys() == old(keymap).hotkeys(),
            keymap.handlers() == old(keymap).handlers(),
        decreases rest@.len(),
    {
        let b = rest.remove(0);
        proof {
            assert(all.skip(done).drop_first() =~= all.skip(done + 1));
            assert(all.take(done + 1).drop_last() =~= all.take(done));
            assert(all.take(done + 1).last() == b);
        }
        keymap.set(b);
        proof {
            done = done + 1;
            assert(rest@ =~= all.skip(done));
        }
    }
    proof {
        assert(all.take(done) =~= all);
    }
}

/// Register the default toggle hotkey, Cmd+Shift+Space, before the user's
/// config loads.
pub fn register_default_hotkey(keymap: &mut KeymapRegistry)
    requires
        old(keymap).wf(),
    ensures
        final(keymap).wf(),
        exists|h: PendingHotkey|
            {
                &&& h.key@ == "cmd+shift+space"@
                &&& h.handler == GlobalHandler::BuiltIn(BuiltInHotkey::ToggleLauncher)
                &&& final(keymap).hotkeys() == upserted(old(keymap).hotkeys(), |x: PendingHotkey| hotkey_key(x), h)
            },
        final(keymap).bindings() == old(keymap).bindings(),
        final(keymap).handlers() == old(keymap).handlers(),
{
    let h = PendingHotkey {
        key: owned("cmd+shift+space"),
        handler: GlobalHandler::BuiltIn(BuiltInHotkey::ToggleLauncher),
    };
    let ghost hg = h;
    keymap.set_global(h);
    proof {
        assert(hg.key@ == "cmd+shift+space"@);
    }
}

/// The defaults registered before the config loads are the UI's default
/// bindings: each keystroke, put in the UI's notation, is the UI default's
/// keystroke, each action name resolves to the UI default's action, and the
/// contexts agree.
pub proof fn law_defaults_match_ui_bindings()
    ensures
        default_keymap_table().len() == default_binding_table().len(),
        forall|i: int|
            0 <= i < default_keymap_table().len() ==> {
                &&& normalized((#[trigger] default_keymap_table()[i]).0) == default_binding_table()[i].0
                &&& from_name_spec(default_keymap_table()[i].1) == Some(default_binding_table()[i].1)
                &&& default_keymap_table()[i].2 == default_binding_table()[i].2
            },
{
    lemma_name_round_trip(LauncherAction::CursorUp);
    reveal_strlit("up");
    assert(normalized("up"@) =~= "up"@);
    lemma_name_round_trip(LauncherAction::CursorDown);
    reveal_strlit("down");
    assert(normalized("down"@) =~= "down"@);
    lemma_name_round_trip(LauncherAction::OpenActionMenu);
    reveal_strlit("tab");
    assert(normalized("tab"@) =~= "tab"@);
    lemma_name_round_trip(LauncherAction::ToggleSelection);
    reveal_strlit("cmd+enter");
    reveal_strlit("cmd-enter");
    assert(normalized("cmd+enter"@) =~= "cmd-enter"@);
    lemma_name_round_trip(LauncherAction::Dismiss);
    reveal_strlit("escape");
    assert(normalized("escape"@) =~= "escape"@);
    lemma_name_round_trip(LauncherAction::Backspace);
    reveal_strlit("backspace");
    assert(normalized("backspace"@) =~= "backspace"@);
    lemma_name_round_trip(LauncherAction::Delete);
    reveal_strlit("delete");
    assert(normalized("delete"@) =~= "delete"@);
    lemma_name_round_trip(LauncherAction::MoveLeft);
    reveal_strlit("left");
    assert(normalized("left"@) =~= "left"@);
    lemma_name_round_trip(LauncherAction::MoveRight);
    reveal_strlit("right");
    assert(normalized("right"@) =~= "right"@);
    lemma_name_round_trip(LauncherAction::SelectLeft);
    reveal_strlit("shift+left");
    reveal_strlit("shift-left");
    assert(normalized("shift+left"@) =~= "shift-left"@);
    lemma_name_round_trip(LauncherAction::SelectRight);
    reveal_strlit("shift+right");
    reveal_strlit("shift-right");
    assert(normalized("shift+right"@) =~= "shift-right"@);
    lemma_name_round_trip(LauncherAction::TextSelectAll);
    reveal_strlit("cmd+a");
    reveal_strlit("cmd-a");
    assert(normalized("cmd+a"@) =~= "cmd-a"@);
    lemma_name_round_trip(LauncherAction::Home);
    reveal_strlit("home");
    assert(normalized("home"@) =~= "home"@);
    lemma_name_round_trip(LauncherAction::End);
    reveal_strlit("end");
    assert(normalized("end"@) =~= "end"@);
    lemma_name_round_trip(LauncherAction::Copy);
    reveal_strlit("cmd+c");
    reveal_strlit("cmd-c");
    assert(normalized("cmd+c"@) =~= "cmd-c"@);
    lemma_name_round_trip(LauncherAction::Paste);
    reveal_strlit("cmd+v");
    reveal_strlit("cmd-v");
    assert(normalized("cmd+v"@) =~= "cmd-v"@);
    lemma_name_round_trip(LauncherAction::Cut);
    reveal_strlit("cmd+x");
    reveal_strlit("cmd-x");
    assert(normalized("cmd+x"@) =~= "cmd-x"@);
    lemma_name_round_trip(LauncherAction::Submit);
    reveal_strlit("enter");
    assert(normalized("enter"@) =~= "enter"@);
    assert forall|i: int| 0 <= i < default_keymap_table().len() implies {
        &&& normalized((#[trigger] default_keymap_table()[i]).0) == default_binding_table()[i].0
        &&& from_name_spec(default_keymap_table()[i].1) == Some(default_binding_table()[i].1)
        &&& default_keymap_table()[i].2 == default_binding_table()[i].2
    } by {
    }
}

} // verus!
