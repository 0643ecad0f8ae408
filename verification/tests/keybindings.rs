use lux::actions::{LauncherAction, RunLuaHandler};
use lux::keybindings::{
    context_predicate_source, default_bindings, normalize_keystroke, plan_binding, plan_keybindings,
    BoundAction,
};
use lux::keymap::{KeyHandler, KeymapRegistry, PendingBinding};

#[test]
fn test_normalize_keystroke() {
    assert_eq!(normalize_keystroke("ctrl+n"), "ctrl-n");
    assert_eq!(normalize_keystroke("cmd+shift+z"), "cmd-shift-z");
    assert_eq!(normalize_keystroke("ctrl-n"), "ctrl-n"); // Already normalized
}

#[test]
fn context_predicates() {
    assert_eq!(context_predicate_source(None, None), "Launcher");
    assert_eq!(
        context_predicate_source(None, Some("file_browser")),
        "Launcher && view_id == file_browser"
    );
    assert_eq!(context_predicate_source(Some("SearchInput"), None), "SearchInput");
    assert_eq!(
        context_predicate_source(Some("SearchInput"), Some("files")),
        "SearchInput && view_id == files"
    );
}

#[test]
fn view_binding_keeps_its_context() {
    let plan = plan_binding(PendingBinding {
        key: "enter".to_string(),
        handler: KeyHandler::Action("submit".to_string()),
        context: Some("SearchInput".to_string()),
        view: Some("files".to_string()),
    })
    .unwrap();
    assert_eq!(plan.keystroke, "enter");
    assert_eq!(plan.context, "SearchInput && view_id == files");
    assert!(matches!(plan.action, BoundAction::BuiltIn(LauncherAction::Submit)));
}

#[test]
fn plan_for_action_and_function_bindings() {
    let plan = plan_binding(PendingBinding {
        key: "ctrl+n".to_string(),
        handler: KeyHandler::Action("cursor_down".to_string()),
        context: Some("Launcher".to_string()),
        view: None,
    })
    .unwrap();
    assert_eq!(plan.keystroke, "ctrl-n");
    assert_eq!(plan.context, "Launcher");
    assert!(matches!(plan.action, BoundAction::BuiltIn(LauncherAction::CursorDown)));

    let plan = plan_binding(PendingBinding {
        key: "ctrl+d".to_string(),
        handler: KeyHandler::Function { id: "keyhandler:7".to_string() },
        context: None,
        view: Some("files".to_string()),
    })
    .unwrap();
    assert_eq!(plan.context, "Launcher && view_id == files");
    assert!(matches!(plan.action, BoundAction::Lua(RunLuaHandler { ref id }) if id == "keyhandler:7"));
}

#[test]
fn unknown_action_is_reported() {
    let err = plan_binding(PendingBinding {
        key: "ctrl+q".to_string(),
        handler: KeyHandler::Action("fly".to_string()),
        context: None,
        view: None,
    })
    .unwrap_err();
    assert_eq!(err, "Unknown action: fly");
}

#[test]
fn planning_takes_all_bindings_in_order() {
    let mut keymap = KeymapRegistry::new();
    keymap.set(PendingBinding {
        key: "ctrl+n".to_string(),
        handler: KeyHandler::Action("cursor_down".to_string()),
        context: None,
        view: None,
    });
    keymap.set(PendingBinding {
        key: "ctrl+p".to_string(),
        handler: KeyHandler::Action("cursor_up".to_string()),
        context: None,
        view: None,
    });
    let plans = plan_keybindings(&mut keymap);
    assert_eq!(plans.len(), 2);
    assert_eq!(plans[0].as_ref().unwrap().keystroke, "ctrl-n");
    assert_eq!(plans[1].as_ref().unwrap().keystroke, "ctrl-p");
    assert_eq!(keymap.binding_count(), 0);
}

#[test]
fn default_ui_bindings() {
    let defaults = default_bindings();
    assert_eq!(defaults.len(), 18);
    assert_eq!(defaults[0].keystroke, "up");
    assert_eq!(defaults[0].action, LauncherAction::CursorUp);
    assert_eq!(defaults[0].context, "Launcher");
    assert_eq!(defaults[17].keystroke, "enter");
    assert_eq!(defaults[17].action, LauncherAction::Submit);
    assert_eq!(defaults[17].context, "SearchInput");
    assert!(defaults
        .iter()
        .any(|b| b.keystroke == "escape" && b.action == LauncherAction::Dismiss && b.context == "Launcher"));
}
