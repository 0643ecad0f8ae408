use lux::selection::SelectionMode;
use lux::types::LuaFunctionRef;
use lux::views::{ViewDefinition, ViewRegistry, ViewRegistryError};

fn make_test_fn_ref(key: &str) -> LuaFunctionRef {
    LuaFunctionRef::new(key.to_string())
}

#[test]
fn test_view_registry_add_and_get() {
    let mut registry = ViewRegistry::new();

    let view = ViewDefinition {
        id: "files".to_string(),
        title: Some("Files".to_string()),
        placeholder: Some("Search files...".to_string()),
        selection: SelectionMode::Single,
        search_fn: make_test_fn_ref("files:search"),
        get_actions_fn: make_test_fn_ref("files:get_actions"),
    };

    registry.add(view).unwrap();

    assert!(registry.view_exists("files"));
    assert!(!registry.view_exists("other"));

    let view_ref = registry.get("files").unwrap();
    assert_eq!(view_ref.id, "files");
}

#[test]
fn test_view_registry_duplicate_error() {
    let mut registry = ViewRegistry::new();

    let view1 = ViewDefinition {
        id: "files".to_string(),
        title: None,
        placeholder: None,
        selection: SelectionMode::Single,
        search_fn: make_test_fn_ref("files:search"),
        get_actions_fn: make_test_fn_ref("files:get_actions"),
    };

    let view2 = ViewDefinition {
        id: "files".to_string(),
        title: Some("Different".to_string()),
        placeholder: None,
        selection: SelectionMode::Multi,
        search_fn: make_test_fn_ref("files:search2"),
        get_actions_fn: make_test_fn_ref("files:get_actions2"),
    };

    registry.add(view1).unwrap();
    let result = registry.add(view2);

    assert!(matches!(result, Err(ViewRegistryError::ViewAlreadyExists(_))));
}

#[test]
fn test_view_registry_list() {
    let mut registry = ViewRegistry::new();

    let view1 = ViewDefinition {
        id: "files".to_string(),
        title: None,
        placeholder: None,
        selection: SelectionMode::Single,
        search_fn: make_test_fn_ref("files:search"),
        get_actions_fn: make_test_fn_ref("files:get_actions"),
    };

    let view2 = ViewDefinition {
        id: "clipboard".to_string(),
        title: None,
        placeholder: None,
        selection: SelectionMode::Single,
        search_fn: make_test_fn_ref("clipboard:search"),
        get_actions_fn: make_test_fn_ref("clipboard:get_actions"),
    };

    registry.add(view1).unwrap();
    registry.add(view2).unwrap();

    let ids = registry.list();
    assert_eq!(ids.len(), 2);
    assert!(ids.contains(&"files".to_string()));
    assert!(ids.contains(&"clipboard".to_string()));
}

#[test]
fn test_view_registry_with_view() {
    let mut registry = ViewRegistry::new();

    let view = ViewDefinition {
        id: "files".to_string(),
        title: Some("Files".to_string()),
        placeholder: None,
        selection: SelectionMode::Multi,
        search_fn: make_test_fn_ref("files:search"),
        get_actions_fn: make_test_fn_ref("files:get_actions"),
    };

    registry.add(view).unwrap();

    let title = registry.with_view("files", |v| v.title.clone());
    assert_eq!(title, Some(Some("Files".to_string())));

    let selection = registry.with_view("files", |v| v.selection);
    assert_eq!(selection, Some(SelectionMode::Multi));

    let missing = registry.with_view("other", |v| v.title.clone());
    assert!(missing.is_none());
}

#[test]
fn duplicate_view_keeps_first_definition_and_message() {
    let mut registry = ViewRegistry::new();
    let first = ViewDefinition {
        id: "files".to_string(),
        title: Some("First".to_string()),
        placeholder: None,
        selection: SelectionMode::Single,
        search_fn: make_test_fn_ref("a"),
        get_actions_fn: make_test_fn_ref("b"),
    };
    let second = ViewDefinition {
        id: "files".to_string(),
        title: Some("Second".to_string()),
        placeholder: None,
        selection: SelectionMode::Single,
        search_fn: make_test_fn_ref("c"),
        get_actions_fn: make_test_fn_ref("d"),
    };
    registry.add(first).unwrap();
    let err = registry.add(second).unwrap_err();
    assert_eq!(err.message(), "View 'files' already exists");
    assert_eq!(registry.count(), 1);
    assert_eq!(
        registry.with_view("files", |v| v.title.clone()),
        Some(Some("First".to_string()))
    );
}

#[test]
fn view_registry_lookup_after_add() {
    let mut registry = ViewRegistry::new();
    registry
        .add(ViewDefinition {
            id: "clipboard".to_string(),
            title: None,
            placeholder: Some("Paste...".to_string()),
            selection: SelectionMode::Multi,
            search_fn: make_test_fn_ref("clipboard:search"),
            get_actions_fn: make_test_fn_ref("clipboard:get_actions"),
        })
        .unwrap();
    let found = registry.lookup("clipboard").unwrap();
    assert_eq!(found.search_fn.key, "clipboard:search");
    assert_eq!(found.placeholder.as_deref(), Some("Paste..."));
    assert!(registry.lookup("files").is_none());
}
