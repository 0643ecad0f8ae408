use lux::ids::IdSequence;
use lux::keymap::{
    generate_handler_id, BuiltInHotkey, GlobalHandler, KeyHandler, KeymapRegistry, PendingBinding,
    PendingHotkey,
};
use lux::types::LuaFunctionRef;

#[test]
fn test_generate_handler_id() {
    let mut ids = IdSequence::starting_at(0);
    let id1 = generate_handler_id(&mut ids);
    let id2 = generate_handler_id(&mut ids);
    assert!(id1.starts_with("keyhandler:"));
    assert!(id2.starts_with("keyhandler:"));
    assert_ne!(id1, id2);
}

#[test]
fn test_keymap_registry_set() {
    let mut registry = KeymapRegistry::new();

    registry.set(PendingBinding {
        key: "ctrl+n".to_string(),
        handler: KeyHandler::Action("cursor_down".to_string()),
        context: Some("Launcher".to_string()),
        view: None,
    });

    assert_eq!(registry.binding_count(), 1);

    // Override same key + context + view
    registry.set(PendingBinding {
        key: "ctrl+n".to_string(),
        handler: KeyHandler::Action("cursor_up".to_string()),
        context: Some("Launcher".to_string()),
        view: None,
    });

    assert_eq!(registry.binding_count(), 1);

    // Different context is a different binding
    registry.set(PendingBinding {
        key: "ctrl+n".to_string(),
        handler: KeyHandler::Action("submit".to_string()),
        context: Some("SearchInput".to_string()),
        view: None,
    });

    assert_eq!(registry.binding_count(), 2);

    // Different view is also a different binding
    registry.set(PendingBinding {
        key: "ctrl+n".to_string(),
        handler: KeyHandler::Action("delete".to_string()),
        context: Some("Launcher".to_string()),
        view: Some("file_browser".to_string()),
    });

    assert_eq!(registry.binding_count(), 3);
}

#[test]
fn test_keymap_registry_del() {
    let mut registry = KeymapRegistry::new();

    registry.set(PendingBinding {
        key: "ctrl+n".to_string(),
        handler: KeyHandler::Action("cursor_down".to_string()),
        context: Some("Launcher".to_string()),
        view: None,
    });

    assert_eq!(registry.binding_count(), 1);
    assert!(registry.del("ctrl+n", Some("Launcher"), None));
    assert_eq!(registry.binding_count(), 0);
    assert!(!registry.del("ctrl+n", Some("Launcher"), None)); // Already deleted
}

#[test]
fn test_keymap_registry_take_bindings() {
    let mut registry = KeymapRegistry::new();

    registry.set(PendingBinding {
        key: "ctrl+n".to_string(),
        handler: KeyHandler::Action("cursor_down".to_string()),
        context: Some("Launcher".to_string()),
        view: None,
    });

    registry.set(PendingBinding {
        key: "ctrl+p".to_string(),
        handler: KeyHandler::Action("cursor_up".to_string()),
        context: Some("Launcher".to_string()),
        view: None,
    });

    let bindings = registry.take_bindings();
    assert_eq!(bindings.len(), 2);
    assert_eq!(registry.binding_count(), 0);
}

#[test]
fn test_global_hotkeys() {
    let mut registry = KeymapRegistry::new();

    registry.set_global(PendingHotkey {
        key: "cmd+space".to_string(),
        handler: GlobalHandler::BuiltIn(BuiltInHotkey::ToggleLauncher),
    });

    assert_eq!(registry.hotkey_count(), 1);

    // Override same key
    registry.set_global(PendingHotkey {
        key: "cmd+space".to_string(),
        handler: GlobalHandler::Function {
            id: "test".to_string(),
        },
    });

    assert_eq!(registry.hotkey_count(), 1);

    // Add another hotkey
    registry.set_global(PendingHotkey {
        key: "cmd+shift+space".to_string(),
        handler: GlobalHandler::BuiltIn(BuiltInHotkey::ToggleLauncher),
    });

    assert_eq!(registry.hotkey_count(), 2);

    // Delete hotkey
    assert!(registry.del_global("cmd+space"));
    assert_eq!(registry.hotkey_count(), 1);

    // Delete non-existent
    assert!(!registry.del_global("cmd+space"));

    // Take all
    let hotkeys = registry.take_hotkeys();
    assert_eq!(hotkeys.len(), 1);
    assert_eq!(hotkeys[0].key, "cmd+shift+space");
    assert_eq!(registry.hotkey_count(), 0);
}

#[test]
fn handler_ids_count_up() {
    let mut ids = IdSequence::starting_at(41);
    assert_eq!(generate_handler_id(&mut ids), "keyhandler:41");
    assert_eq!(generate_handler_id(&mut ids), "keyhandler:42");
}

#[test]
fn handler_ids_wrap_around() {
    let mut ids = IdSequence::starting_at(u64::MAX);
    assert_eq!(generate_handler_id(&mut ids), "keyhandler:18446744073709551615");
    assert_eq!(generate_handler_id(&mut ids), "keyhandler:0");
}

#[test]
fn later_binding_replaces_earlier_in_place() {
    let mut registry = KeymapRegistry::default();
    registry.set(PendingBinding {
        key: "ctrl+n".to_string(),
        handler: KeyHandler::Action("cursor_down".to_string()),
        context: None,
        view: None,
    });
    registry.set(PendingBinding {
        key: "ctrl+p".to_string(),
        handler: KeyHandler::Action("cursor_up".to_string()),
        context: None,
        view: None,
    });
    registry.set(PendingBinding {
        key: "ctrl+n".to_string(),
        handler: KeyHandler::Function { id: "keyhandler:3".to_string() },
        context: None,
        view: None,
    });
    let bindings = registry.take_bindings();
    assert_eq!(bindings.len(), 2);
    assert_eq!(bindings[0].key, "ctrl+n");
    assert!(matches!(&bindings[0].handler, KeyHandler::Function { id } if id == "keyhandler:3"));
    assert_eq!(bindings[1].key, "ctrl+p");
}

#[test]
fn lua_handlers_store_and_get() {
    let mut registry = KeymapRegistry::new();
    registry.store_lua_handler("keyhandler:0".to_string(), LuaFunctionRef::new("k0".to_string()));
    registry.store_lua_handler("keyhandler:0".to_string(), LuaFunctionRef::new("k1".to_string()));
    assert_eq!(registry.handler_count(), 1);
    assert_eq!(registry.get_lua_handler("keyhandler:0").unwrap().key, "k1");
    assert!(registry.get_lua_handler("missing").is_none());
}

#[test]
fn builtin_hotkey_names() {
    assert_eq!(BuiltInHotkey::from_name("toggle_launcher"), Some(BuiltInHotkey::ToggleLauncher));
    assert_eq!(BuiltInHotkey::from_name("other"), None);
    assert_eq!(BuiltInHotkey::ToggleLauncher.as_str(), "toggle_launcher");
}
