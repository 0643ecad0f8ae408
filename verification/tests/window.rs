use lux::action::ActionResult;
use lux::keycodes;
use lux::keymap::{BuiltInHotkey, GlobalHandler, KeymapRegistry, PendingHotkey};
use lux::window::{after_global_handler, on_toggle, plan_global_hotkeys, HotkeyEvent, WindowCommand};

#[test]
fn global_hotkeys_are_planned_in_order() {
    let mut keymap = KeymapRegistry::new();
    keymap.set_global(PendingHotkey {
        key: "cmd+shift+space".to_string(),
        handler: GlobalHandler::BuiltIn(BuiltInHotkey::ToggleLauncher),
    });
    keymap.set_global(PendingHotkey {
        key: "cmd+bogus".to_string(),
        handler: GlobalHandler::Function { id: "keyhandler:0".to_string() },
    });
    keymap.set_global(PendingHotkey {
        key: "ctrl+n".to_string(),
        handler: GlobalHandler::Function { id: "keyhandler:1".to_string() },
    });
    let plans = plan_global_hotkeys(&mut keymap);
    assert_eq!(plans.len(), 3);
    let (hk, ev) = plans[0].as_ref().unwrap();
    assert_eq!(hk.keycode, keycodes::SPACE);
    assert!(matches!(ev, HotkeyEvent::Toggle));
    assert_eq!(plans[1].as_ref().unwrap_err(), "cmd+bogus");
    let (hk, ev) = plans[2].as_ref().unwrap();
    assert_eq!(hk.keycode, keycodes::N);
    assert!(matches!(ev, HotkeyEvent::RunLuaHandler(id) if id == "keyhandler:1"));
    assert_eq!(keymap.hotkey_count(), 0);
}

#[test]
fn toggle_and_handler_results() {
    assert_eq!(on_toggle(true), WindowCommand::Hide);
    assert_eq!(on_toggle(false), WindowCommand::Show);
    assert_eq!(
        after_global_handler(&ActionResult::PushView { title: None, query: None }),
        Some(WindowCommand::Show)
    );
    assert_eq!(after_global_handler(&ActionResult::Continue), None);
}
