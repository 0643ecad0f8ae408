use lux::hooks::{parse_view_hook_path, validate_hook_path, HookError, HookRegistry};
use lux::types::LuaFunctionRef;

fn make_test_fn_ref(key: &str) -> LuaFunctionRef {
    LuaFunctionRef::new(key.to_string())
}

#[test]
fn test_parse_view_hook_path() {
    assert_eq!(
        parse_view_hook_path("views.files.search"),
        Some(("files", "search"))
    );
    assert_eq!(
        parse_view_hook_path("views.clipboard.get_actions"),
        Some(("clipboard", "get_actions"))
    );
    assert_eq!(parse_view_hook_path("search"), None);
    assert_eq!(parse_view_hook_path("get_actions"), None);
    assert_eq!(parse_view_hook_path("views."), None);
    assert_eq!(parse_view_hook_path("views..search"), None);
}

#[test]
fn test_validate_hook_path() {
    assert!(validate_hook_path("search").is_ok());
    assert!(validate_hook_path("get_actions").is_ok());
    assert!(validate_hook_path("views.files.search").is_ok());
    assert!(validate_hook_path("views.files.get_actions").is_ok());

    assert!(validate_hook_path("invalid").is_err());
    assert!(validate_hook_path("views.files.invalid").is_err());
    assert!(validate_hook_path("views..search").is_err());
}

#[test]
fn test_add_global_hook() {
    let mut registry = HookRegistry::new();

    let id = registry.add("search", make_test_fn_ref("hook1:search"));
    assert!(id.starts_with("hook:"));
    assert!(registry.has_hooks("search", None));
    assert_eq!(registry.count("search", None), 1);
}

#[test]
fn test_add_view_hook() {
    let mut registry = HookRegistry::new();

    let id = registry.add("views.files.search", make_test_fn_ref("files:hook:search"));
    assert!(id.starts_with("hook:"));
    assert!(registry.has_hooks("search", Some("files")));
    assert_eq!(registry.count("search", Some("files")), 1);
    assert!(!registry.has_hooks("search", Some("other")));
}

#[test]
fn test_remove_hook() {
    let mut registry = HookRegistry::new();

    let id1 = registry.add("search", make_test_fn_ref("hook1"));
    let id2 = registry.add("search", make_test_fn_ref("hook2"));

    assert_eq!(registry.count("search", None), 2);

    assert!(registry.remove(&id1));
    assert_eq!(registry.count("search", None), 1);

    assert!(registry.remove(&id2));
    assert_eq!(registry.count("search", None), 0);

    // Removing again should return false
    assert!(!registry.remove(&id1));
}

#[test]
fn test_get_chain_order() {
    let mut registry = HookRegistry::new();

    registry.add("views.files.search", make_test_fn_ref("view1"));
    registry.add("views.files.search", make_test_fn_ref("view2"));

    registry.add("search", make_test_fn_ref("global1"));
    registry.add("search", make_test_fn_ref("global2"));

    let chain = registry.get_chain("search", Some("files"));

    assert_eq!(chain.len(), 4);
    assert_eq!(chain[0].key, "view1");
    assert_eq!(chain[1].key, "view2");
    assert_eq!(chain[2].key, "global1");
    assert_eq!(chain[3].key, "global2");
}

#[test]
fn test_get_chain_no_view() {
    let mut registry = HookRegistry::new();

    registry.add("search", make_test_fn_ref("global1"));
    registry.add("views.files.search", make_test_fn_ref("view1"));

    let chain = registry.get_chain("search", None);
    assert_eq!(chain.len(), 1);
    assert_eq!(chain[0].key, "global1");
}

#[test]
fn hook_ids_are_numbered_from_zero() {
    let mut registry = HookRegistry::default();
    assert_eq!(registry.add("search", make_test_fn_ref("a")), "hook:0");
    assert_eq!(registry.add("get_actions", make_test_fn_ref("b")), "hook:1");
    assert_eq!(registry.count("get_actions", None), 1);
}

#[test]
fn hook_remove_undoes_add() {
    let mut registry = HookRegistry::new();
    registry.add("search", make_test_fn_ref("keep"));
    let id = registry.add("views.files.search", make_test_fn_ref("gone"));
    assert!(registry.remove(&id));
    let chain = registry.get_chain("search", Some("files"));
    assert_eq!(chain.len(), 1);
    assert_eq!(chain[0].key, "keep");
}

#[test]
fn hook_clear_removes_everything() {
    let mut registry = HookRegistry::new();
    registry.add("search", make_test_fn_ref("a"));
    registry.clear();
    assert!(!registry.has_hooks("search", None));
}

#[test]
fn validate_hook_path_error_messages() {
    match validate_hook_path("views.files.invalid") {
        Err(HookError::InvalidPath(m)) => assert_eq!(
            m,
            "Invalid hook name 'invalid' in 'views.files.invalid'. Expected 'search' or 'get_actions'"
        ),
        _ => panic!("expected an invalid path"),
    }
    match validate_hook_path("views..search") {
        Err(e) => assert_eq!(
            e.message(),
            "Invalid hook path: Invalid view hook path 'views..search'. Expected 'views.{id}.search' or 'views.{id}.get_actions'"
        ),
        _ => panic!("expected an invalid path"),
    }
    match validate_hook_path("invalid") {
        Err(HookError::InvalidPath(m)) => assert_eq!(
            m,
            "Invalid hook path 'invalid'. Expected 'search', 'get_actions', or 'views.{id}.{hook}'"
        ),
        _ => panic!("expected an invalid path"),
    }
}

#[test]
fn hook_error_messages() {
    assert_eq!(HookError::HookNotFound("x".to_string()).message(), "Hook not found: x");
    assert_eq!(HookError::ExecutionError("y".to_string()).message(), "Hook execution error: y");
}

#[test]
fn hook_ids_never_repeat_after_removals() {
    let mut registry = HookRegistry::new();
    let mut ids = Vec::new();
    for i in 0..20 {
        let id = registry.add("search", make_test_fn_ref(&format!("f{i}")));
        if i % 3 == 0 {
            registry.remove(&id);
        }
        assert!(!ids.contains(&id));
        ids.push(id);
    }
}
