use lux::api::{
    glob_paths, hook_function_key, keymap_del, keymap_del_global, keymap_set, keymap_set_global,
    selection_name, shell_command, views_add, HandlerArg,
};
use lux::ids::IdSequence;
use lux::keymap::KeymapRegistry;
use lux::selection::SelectionMode;
use lux::types::LuaFunctionRef;
use lux::views::{ViewDefinition, ViewRegistry};

#[test]
fn keymap_set_checks_arguments() {
    let mut keymap = KeymapRegistry::new();
    let mut ids = IdSequence::starting_at(0);
    assert_eq!(
        keymap_set(&mut keymap, &mut ids, None, HandlerArg::Missing, None, None).unwrap_err(),
        "keymap.set requires key argument"
    );
    assert_eq!(
        keymap_set(&mut keymap, &mut ids, Some(None), HandlerArg::Missing, None, None).unwrap_err(),
        "key must be a string"
    );
    assert_eq!(
        keymap_set(&mut keymap, &mut ids, Some(Some("ctrl+n".to_string())), HandlerArg::Missing, None, None)
            .unwrap_err(),
        "keymap.set requires handler argument"
    );
    assert_eq!(
        keymap_set(&mut keymap, &mut ids, Some(Some("ctrl+n".to_string())), HandlerArg::Other, None, None)
            .unwrap_err(),
        "handler must be string or function"
    );
    assert_eq!(keymap.binding_count(), 0);
}

#[test]
fn keymap_set_binds_names_and_functions() {
    let mut keymap = KeymapRegistry::new();
    let mut ids = IdSequence::starting_at(2);
    let stored = keymap_set(
        &mut keymap,
        &mut ids,
        Some(Some("ctrl+n".to_string())),
        HandlerArg::Name("cursor_down".to_string()),
        Some("Launcher".to_string()),
        None,
    )
    .unwrap();
    assert!(stored.is_none());
    let stored = keymap_set(
        &mut keymap,
        &mut ids,
        Some(Some("ctrl+d".to_string())),
        HandlerArg::Function,
        None,
        Some("files".to_string()),
    )
    .unwrap();
    assert_eq!(stored.as_deref(), Some("keyhandler:2"));
    assert_eq!(keymap.binding_count(), 2);
    assert_eq!(keymap.handler_count(), 1);
    assert!(keymap.get_lua_handler("keyhandler:2").is_some());
    assert!(keymap_del(&mut keymap, Some(Some("ctrl+d".to_string())), None, Some("files".to_string())).unwrap());
    assert!(!keymap_del(&mut keymap, Some(Some("ctrl+d".to_string())), None, None).unwrap());
    assert_eq!(keymap.binding_count(), 1);
}

#[test]
fn global_hotkeys_through_the_api() {
    let mut keymap = KeymapRegistry::new();
    let mut ids = IdSequence::starting_at(0);
    assert_eq!(
        keymap_set_global(
            &mut keymap,
            &mut ids,
            Some(Some("cmd+k".to_string())),
            HandlerArg::Name("fly".to_string())
        )
        .unwrap_err(),
        "Unknown global action: 'fly'. Available: toggle_launcher"
    );
    keymap_set_global(
        &mut keymap,
        &mut ids,
        Some(Some("cmd+shift+space".to_string())),
        HandlerArg::Name("toggle_launcher".to_string()),
    )
    .unwrap();
    assert_eq!(keymap.hotkey_count(), 1);
    assert!(keymap_del_global(&mut keymap, Some("cmd+shift+space".to_string())).unwrap());
    assert_eq!(keymap_del_global(&mut keymap, None).unwrap_err(), "key must be a string");
    assert_eq!(keymap.hotkey_count(), 0);
}

#[test]
fn hook_keys_and_validation() {
    let mut ids = IdSequence::starting_at(5);
    assert_eq!(
        hook_function_key("views.files.search", &mut ids).unwrap(),
        "hook:views.files.search:keyhandler:5"
    );
    let err = hook_function_key("invalid", &mut ids).unwrap_err();
    assert!(err.starts_with("Invalid hook path: Invalid hook path 'invalid'"));
    assert_eq!(ids.take(), 6);
}

#[test]
fn views_add_reports_duplicates() {
    let mut views = ViewRegistry::new();
    let def = |title: &str| ViewDefinition {
        id: "files".to_string(),
        title: Some(title.to_string()),
        placeholder: None,
        selection: SelectionMode::Single,
        search_fn: LuaFunctionRef::new("s".to_string()),
        get_actions_fn: LuaFunctionRef::new("g".to_string()),
    };
    views_add(&mut views, def("A")).unwrap();
    assert_eq!(views_add(&mut views, def("B")).unwrap_err(), "View 'files' already exists");
}

#[test]
fn names_and_commands() {
    assert_eq!(selection_name(SelectionMode::Multi), "multi");
    assert_eq!(selection_name(SelectionMode::Custom), "custom");
    assert_eq!(
        shell_command(&vec!["open".to_string(), "-a".to_string(), "Notes".to_string()]).unwrap(),
        "open -a Notes"
    );
    assert_eq!(shell_command(&vec![]).unwrap_err(), "shell() requires at least one argument");
}

#[test]
fn glob_listing_gives_one_path_per_line() {
    assert_eq!(glob_paths("/a/x.txt\n/a/y.txt\n"), vec!["/a/x.txt", "/a/y.txt"]);
    assert_eq!(glob_paths("  \n/a/x.txt\n\n/b\n"), vec!["/a/x.txt", "/b"]);
    assert!(glob_paths("").is_empty());
    assert!(glob_paths(" \n\t").is_empty());
}
