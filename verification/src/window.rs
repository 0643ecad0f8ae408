//! The launcher window's decisions on global hotkeys: which hotkeys to
//! register and what each event does to the window.

use vstd::prelude::*;

use crate::action::ActionResult;
use crate::hotkey::{hotkey_of, parse_hotkey, Hotkey};
use crate::keymap::{BuiltInHotkey, GlobalHandler, KeymapRegistry, PendingHotkey};

verus! {

/// Events sent from a hotkey callback to the UI thread.
#[derive(Debug, Clone)]
pub enum HotkeyEvent {
    /// Toggle launcher visibility.
    Toggle,
    /// Run a Lua handler by id.
    RunLuaHandler(String),
}

/// What the UI does with the window.
#[derive(Debug, Clone, Copy, PartialEq, Eq, Structural)]
pub enum WindowCommand {
    /// Show the launcher (afresh) and activate its window.
    Show,
    /// Hide the application.
    Hide,
}

/// The event a global hotkey's handler sends.
pub open spec fn event_for(handler: GlobalHandler) -> HotkeyEvent {
    match handler {
        GlobalHandler::BuiltIn(BuiltInHotkey::ToggleLauncher) => HotkeyEvent::Toggle,
        GlobalHandler::Function { id } => HotkeyEvent::RunLuaHandler(id),
    }
}

/// Whether `r` is the registration of a pending global hotkey: its parsed
/// hotkey with the event its handler sends, or its text when it does not
/// parse (it is skipped).
pub open spec fn registration_of(p: PendingHotkey, r: Result<(Hotkey, HotkeyEvent), String>) -> bool {
    match hotkey_of(p.key@) {
        Some(h) => r == Ok::<(Hotkey, HotkeyEvent), String>((h, event_for(p.handler))),
        None => r matches Err(k) && k@ == p.key@,
    }
}

/// Take the global hotkeys registered by the config and say, for each in
/// order, what to register.
pub fn plan_global_hotkeys(keymap: &mut KeymapRegistry) -> (r: Vec<Result<(Hotkey, HotkeyEvent), String>>)
    requires
        old(keymap).wf(),
    ensures
        final(keymap).wf(),
        final(keymap).hotkeys().len() == 0,
        final(keymap).bindings() == old(keymap).bindings(),
        r@.len() == old(keymap).hotkeys().len(),
        forall|i: int| 0 <= i < r@.len() ==> registration_of(old(keymap).hotkeys()[i], #[trigger] r@[i]),
{
    let mut rest = keymap.take_hotkeys();
    let ghost all = rest@;
    let mut out: Vec<Result<(Hotkey, HotkeyEvent), String>> = Vec::new();
    while rest.len() > 0
        invariant
            out@.len() + rest@.len() == all.len(),
            all == old(keymap).hotkeys(),
            rest@ == all.skip(out@.len() as int),
            forall|i: int| 0 <= i < out@.len() ==> registration_of(all[i], #[trigger] out@[i]),
        decreases rest@.len(),
    {
        let p = rest.remove(0);
        proof {
            assert(all.skip(out@.len() as int).drop_first() =~= all.skip(out@.len() as int + 1));
        }
        let entry = match parse_hotkey(p.key.as_str()) {
            Some(h) => {
                let event = match p.handler {
                    GlobalHandler::BuiltIn(BuiltInHotkey::ToggleLauncher) => HotkeyEvent::Toggle,
                    GlobalHandler::Function { id } => HotkeyEvent::RunLuaHandler(id),
                };
                Ok((h, event))
            },
            None => Err(p.key),
        };
        out.push(entry);
    }
    out
}

/// A toggle hides the launcher when its window is active, else shows it.
pub fn on_toggle(window_active: bool) -> (r: WindowCommand)
    ensures
        window_active ==> r == WindowCommand::Hide,
        !window_active ==> r == WindowCommand::Show,
{
    if window_active {
        WindowCommand::Hide
    } else {
        WindowCommand::Show
    }
}

/// After a global hotkey's Lua handler ran: show the window when the handler
/// pushed or replaced a view.
pub fn after_global_handler(result: &ActionResult) -> (r: Option<WindowCommand>)
    ensures
        (result is PushView || result is ReplaceView) ==> r == Some(WindowCommand::Show),
        !(result is PushView || result is ReplaceView) ==> r is None,
{
    match result {
        ActionResult::PushView { .. } => Some(WindowCommand::Show),
        ActionResult::ReplaceView { .. } => Some(WindowCommand::Show),
        _ => None,
    }
}

} // verus!
