use lux::registry::PluginRegistry;
use lux::selection::SelectionMode;
use lux::types::{LuaFunctionRef, View};

#[test]
fn test_registry_new() {
    let registry = PluginRegistry::new();
    // Registry should have empty sub-registries
    assert_eq!(registry.keymap().binding_count(), 0);
    assert_eq!(registry.views().count(), 0);
}

#[test]
fn root_view_is_taken_once() {
    let mut registry = PluginRegistry::new();
    assert!(!registry.has_root_view());
    registry.set_root_view(View {
        id: Some("root".to_string()),
        title: None,
        placeholder: None,
        source_fn: LuaFunctionRef::new("root:search".to_string()),
        get_actions_fn: None,
        selection: SelectionMode::Single,
        on_select_fn: None,
        on_submit_fn: None,
        view_data: serde_json::Value::Null,
    });
    assert!(registry.has_root_view());
    let taken = registry.take_root_view().unwrap();
    assert_eq!(taken.id.as_deref(), Some("root"));
    assert!(registry.take_root_view().is_none());
}
