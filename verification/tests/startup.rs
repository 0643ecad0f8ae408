use lux::keymap::{GlobalHandler, KeyHandler, KeymapRegistry};
use lux::startup::{default_keymap_bindings, register_default_bindings, register_default_hotkey};

#[test]
fn defaults_are_registered_before_config() {
    let mut keymap = KeymapRegistry::new();
    register_default_hotkey(&mut keymap);
    register_default_bindings(&mut keymap);
    assert_eq!(keymap.binding_count(), 18);
    assert_eq!(keymap.hotkey_count(), 1);
    let hotkeys = keymap.take_hotkeys();
    assert_eq!(hotkeys[0].key, "cmd+shift+space");
    assert!(matches!(hotkeys[0].handler, GlobalHandler::BuiltIn(_)));
    let bindings = keymap.take_bindings();
    assert_eq!(bindings[3].key, "cmd+enter");
    assert!(matches!(&bindings[3].handler, KeyHandler::Action(a) if a == "toggle_selection"));
    assert_eq!(bindings[3].context.as_deref(), Some("Launcher"));
}

#[test]
fn user_binding_overrides_default() {
    let mut keymap = KeymapRegistry::new();
    register_default_bindings(&mut keymap);
    keymap.del("escape", Some("Launcher"), None);
    assert_eq!(keymap.binding_count(), 17);
    let defaults = default_keymap_bindings();
    assert_eq!(defaults.len(), 18);
    assert_eq!(defaults[17].key, "enter");
}
