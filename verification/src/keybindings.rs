//! Key bindings for the launcher UI: the default bindings, the keystroke and
//! context text that bindings are registered under, and the plan for each
//! binding that the Lua config registered.
//!
//! Later bindings win over earlier ones at the same context depth, so the
//! defaults are registered first and the user's bindings after them.

use vstd::prelude::*;

use crate::actions::{action_from_name, from_name_spec, LauncherAction, RunLuaHandler};
use crate::keymap::{KeyHandler, KeymapRegistry, PendingBinding};
use crate::text::{char_len, owned, substring};

verus! {

/// A keystroke in the UI's notation: every `+` written as `-`.
pub open spec fn normalized(s: Seq<char>) -> Seq<char> {
    s.map_values(|c: char| if c == '+' { '-' } else { c })
}

/// Convert a user-friendly keystroke ("ctrl+n", "cmd+shift+z") to the UI's
/// notation ("ctrl-n", "cmd-shift-z"); one already in that notation is kept.
pub fn normalize_keystroke(s: &str) -> (r: String)
    ensures
        r@ == normalized(s@),
{
    let n = char_len(s);
    let mut out = String::new();
    let mut i: usize = 0;
    while i < n
        invariant
            n == s@.len(),
            i <= n,
            out@ == normalized(s@.take(i as int)),
        decreases n - i,
    {
        let ghost before = out@;
        if s.get_char(i) == '+' {
            out.append("-");
            proof {
                reveal_strlit("-");
            }
        } else {
            out.append(substring(s, i, i + 1));
        }
        proof {
            assert(s@.take(i as int + 1) =~= s@.take(i as int).push(s@[i as int]));
            assert(out@ =~= normalized(s@.take(i as int + 1)));
        }
        i = i + 1;
    }
    proof {
        assert(s@.take(n as int) =~= s@);
    }
    out
}

/// The context text of a binding: its context (`Launcher` when it has none),
/// combined with its view as `<context> && view_id == <view>` for a
/// view-specific binding.
pub open spec fn context_text(context: Option<Seq<char>>, view: Option<Seq<char>>) -> Seq<char> {
    let base = match context {
        Some(c) => c,
        None => "Launcher"@,
    };
    match view {
        None => base,
        Some(v) => base + " && view_id == "@ + v,
    }
}

/// The optional text of an optional string, as contracts speak of it.
pub open spec fn opt_text(s: Option<String>) -> Option<Seq<char>> {
    match s {
        Some(v) => Some(v@),
        None => None,
    }
}

/// The context predicate text for a binding with the given context and view.
pub fn context_predicate_source(context: Option<&str>, view: Option<&str>) -> (r: String)
    ensures
        r@ == context_text(
            match context {
                Some(c) => Some(c@),
                None => None,
            },
            match view {
                Some(v) => Some(v@),
                None => None,
            },
        ),
{
    let mut s = match context {
        Some(c) => owned(c),
        None => owned("Launcher"),
    };
    match view {
        None => {},
        Some(v) => {
            let ghost base = s@;
            s.append(" && view_id == ");
            s.append(v);
            proof {
                assert(s@ =~= base + " && view_id == "@ + v@);
            }
        },
    }
    s
}

/// What a binding dispatches.
#[derive(Debug, Clone)]
pub enum BoundAction {
    /// A built-in action.
    BuiltIn(LauncherAction),
    /// A Lua function, looked up by id.
    Lua(RunLuaHandler),
}

/// A binding ready to be registered with the UI.
#[derive(Debug)]
pub struct BindingPlan {
    /// The keystroke in the UI's notation.
    pub keystroke: String,
    /// What the binding dispatches.
    pub action: BoundAction,
    /// The context predicate text.
    pub context: String,
}

/// Whether `r` is the plan for a pending binding: keystroke normalized,
/// context from the binding's context and view, a built-in action found by name (an unknown name
/// is an error), a Lua function dispatched by id.
pub open spec fn planned(pending: PendingBinding, r: Result<BindingPlan, String>) -> bool {
    match pending.handler {
        KeyHandler::Action(name) => match from_name_spec(name@) {
            Some(a) => r matches Ok(plan) && plan.keystroke@ == normalized(pending.key@)
                && plan.context@ == context_text(opt_text(pending.context), opt_text(pending.view)) && plan.action == BoundAction::BuiltIn(a),
            None => r matches Err(e) && e@ == "Unknown action: "@ + name@,
        },
        KeyHandler::Function { id } => r matches Ok(plan) && plan.keystroke@ == normalized(pending.key@)
            && plan.context@ == context_text(opt_text(pending.context), opt_text(pending.view)) && plan.action == BoundAction::Lua(RunLuaHandler { id }),
    }
}

/// The plan for a registered binding.
pub fn plan_binding(pending: PendingBinding) -> (r: Result<BindingPlan, String>)
    ensures
        planned(pending, r),
{
    let context_name: Option<&str> = match &pending.context {
        Some(c) => Some(c.as_str()),
        None => None,
    };
    let view: Option<&str> = match &pending.view {
        Some(v) => Some(v.as_str()),
        None => None,
    };
    let context = context_predicate_source(context_name, view);
    let keystroke = normalize_keystroke(pending.key.as_str());
    match pending.handler {
        KeyHandler::Action(name) => match action_from_name(name.as_str()) {
            Some(a) => Ok(BindingPlan { keystroke, action: BoundAction::BuiltIn(a), context }),
            None => {
                let mut e = owned("Unknown action: ");
                e.append(name.as_str());
                Err(e)
            },
        },
        KeyHandler::Function { id } => Ok(BindingPlan {
            keystroke,
            action: BoundAction::Lua(RunLuaHandler { id }),
            context,
        }),
    }
}

/// Take all pending bindings from the registry and plan each, in the order
/// they were registered.
pub fn plan_keybindings(keymap: &mut KeymapRegistry) -> (r: Vec<Result<BindingPlan, String>>)
    requires
        old(keymap).wf(),
    ensures
        final(keymap).wf(),
        final(keymap).bindings().len() == 0,
        final(keymap).hotkeys() == old(keymap).hotkeys(),
        final(keymap).handlers() == old(keymap).handlers(),
        r@.len() == old(keymap).bindings().len(),
        forall|i: int| 0 <= i < r@.len() ==> planned(old(keymap).bindings()[i], #[trigger] r@[i]),
{
    let mut rest = keymap.take_bindings();
    let ghost all = rest@;
    let mut out: Vec<Result<BindingPlan, String>> = Vec::new();
    while rest.len() > 0
        invariant
            out@.len() + rest@.len() == all.len(),
            all == old(keymap).bindings(),
            rest@ == all.skip(out@.len() as int),
            forall|i: int| 0 <= i < out@.len() ==> planned(all[i], #[trigger] out@[i]),
        decreases rest@.len(),
    {
        let b = rest.remove(0);
        proof {
            assert(all.skip(out@.len() as int).drop_first() =~= all.skip(out@.len() as int + 1));
        }
        out.push(plan_binding(b));
    }
    out
}

/// A default key binding.
#[derive(Debug, Clone, Copy)]
pub struct DefaultBinding {
    /// The keystroke in the UI's notation.
    pub keystroke: &'static str,
    /// The action it dispatches.
    pub action: LauncherAction,
    /// The context it applies in.
    pub context: &'static str,
}

/// The default bindings as (keystroke, action, context): navigation in the
/// launcher, text editing in the search input.
pub open spec fn default_binding_table() -> Seq<(Seq<char>, LauncherAction, Seq<char>)> {
    seq![
        ("up"@, LauncherAction::CursorUp, "Launcher"@),
        ("down"@, LauncherAction::CursorDown, "Launcher"@),
        ("tab"@, LauncherAction::OpenActionMenu, "Launcher"@),
        ("cmd-enter"@, LauncherAction::ToggleSelection, "Launcher"@),
        ("escape"@, LauncherAction::Dismiss, "Launcher"@),
        ("backspace"@, LauncherAction::Backspace, "SearchInput"@),
        ("delete"@, LauncherAction::Delete, "SearchInput"@),
        ("left"@, LauncherAction::MoveLeft, "SearchInput"@),
        ("right"@, LauncherAction::MoveRight, "SearchInput"@),
        ("shift-left"@, LauncherAction::SelectLeft, "SearchInput"@),
        ("shift-right"@, LauncherAction::SelectRight, "SearchInput"@),
        ("cmd-a"@, LauncherAction::TextSelectAll, "SearchInput"@),
        ("home"@, LauncherAction::Home, "SearchInput"@),
        ("end"@, LauncherAction::End, "SearchInput"@),
        ("cmd-c"@, LauncherAction::Copy, "SearchInput"@),
        ("cmd-v"@, LauncherAction::Paste, "SearchInput"@),
        ("cmd-x"@, LauncherAction::Cut, "SearchInput"@),
        ("enter"@, LauncherAction::Submit, "SearchInput"@),
    ]
}

/// The default bindings, which user bindings may override. Escape is bound in
/// the launcher context only.
pub fn default_bindings() -> (r: Vec<DefaultBinding>)
    ensures
        r@.len() == default_binding_table().len(),
        forall|i: int|
            0 <= i < r@.len() ==> ((#[trigger] r@[i]).keystroke@, r@[i].action, r@[i].context@)
                == default_binding_table()[i],
{
    let mut v: Vec<DefaultBinding> = Vec::new();
    v.push(DefaultBinding { keystroke: "up", action: LauncherAction::CursorUp, context: "Launcher" });
    v.push(DefaultBinding { keystroke: "down", action: LauncherAction::CursorDown, context: "Launcher" });
    v.push(DefaultBinding { keystroke: "tab", action: LauncherAction::OpenActionMenu, context: "Launcher" });
    v.push(DefaultBinding { keystroke: "cmd-enter", action: LauncherAction::ToggleSelection, context: "Launcher" });
    v.push(DefaultBinding { keystroke: "escape", action: LauncherAction::Dismiss, context: "Launcher" });
    v.push(DefaultBinding { keystroke: "backspace", action: LauncherAction::Backspace, context: "SearchInput" });
    v.push(DefaultBinding { keystroke: "delete", action: LauncherAction::Delete, context: "SearchInput" });
    v.push(DefaultBinding { keystroke: "left", action: LauncherAction::MoveLeft, context: "SearchInput" });
    v.push(DefaultBinding { keystroke: "right", action: LauncherAction::MoveRight, context: "SearchInput" });
    v.push(DefaultBinding { keystroke: "shift-left", action: LauncherAction::SelectLeft, context: "SearchInput" });
    v.push(DefaultBinding { keystroke: "shift-right", action: LauncherAction::SelectRight, context: "SearchInput" });
    v.push(DefaultBinding { keystroke: "cmd-a", action: LauncherAction::TextSelectAll, context: "SearchInput" });
    v.push(DefaultBinding { keystroke: "home", action: LauncherAction::Home, context: "SearchInput" });
    v.push(DefaultBinding { keystroke: "end", action: LauncherAction::End, context: "SearchInput" });
    v.push(DefaultBinding { keystroke: "cmd-c", action: LauncherAction::Copy, context: "SearchInput" });
    v.push(DefaultBinding { keystroke: "cmd-v", action: LauncherAction::Paste, context: "SearchInput" });
    v.push(DefaultBinding { keystroke: "cmd-x", action: LauncherAction::Cut, context: "SearchInput" });
    v.push(DefaultBinding { keystroke: "enter", action: LauncherAction::Submit, context: "SearchInput" });
    v
}

} // verus!
