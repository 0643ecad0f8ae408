use lux::actions::{action_from_name, available_actions, LauncherAction};

#[test]
fn test_action_from_name() {
    assert!(action_from_name("cursor_up").is_some());
    assert!(action_from_name("submit").is_some());
    assert!(action_from_name("unknown_action").is_none());
}

#[test]
fn test_available_actions() {
    let actions = available_actions();
    assert!(actions.contains(&"cursor_up"));
    assert!(actions.contains(&"submit"));
    assert!(actions.contains(&"dismiss"));
}

#[test]
fn every_available_action_resolves_to_itself() {
    let actions = available_actions();
    assert_eq!(actions.len(), 25);
    for name in actions {
        let action = action_from_name(name).unwrap();
        assert_eq!(action.name(), name);
    }
    assert_eq!(action_from_name("text_select_all"), Some(LauncherAction::TextSelectAll));
    assert_eq!(action_from_name("Cursor_Up"), None);
}

#[test]
fn available_actions_are_the_names_that_resolve() {
    let names = available_actions();
    assert_eq!(names.len(), 25);
    for (i, a) in names.iter().enumerate() {
        assert!(action_from_name(a).is_some());
        assert!(!names[i + 1..].contains(a));
    }
    assert!(action_from_name("fly").is_none());
    assert!(!names.contains(&"fly"));
}
