use lux::action::ActionResult;
use lux::effect::{Effect, ViewSpec};
use lux::engine::{
    actions_from_outcome, actions_from_parsed, extract_groups_from_effects, search_effects, view_from_spec, ApplyResult, ParsedAction,
    QueryEngine,
};
use lux::item::{Group, Item};
use lux::registry::PluginRegistry;
use lux::selection::SelectionMode;
use lux::types::{LuaFunctionRef, View};

fn view(id: &str, title: &str, source: &str, selection: SelectionMode) -> View {
    View {
        id: Some(id.to_string()),
        title: Some(title.to_string()),
        placeholder: None,
        source_fn: LuaFunctionRef::new(source.to_string()),
        get_actions_fn: None,
        selection,
        on_select_fn: None,
        on_submit_fn: None,
        view_data: serde_json::Value::Null,
    }
}

fn spec_with_keys(source: &str, keys: &[&str]) -> ViewSpec {
    let mut spec = ViewSpec::new(source.to_string());
    spec.registry_keys = keys.iter().map(|k| k.to_string()).collect();
    spec
}

#[test]
fn test_engine_new() {
    let registry = PluginRegistry::new();
    let engine = QueryEngine::new(registry);

    assert!(engine.get_current_view_state().is_none());
    assert!(engine.get_view_stack().is_empty());
}

#[test]
fn test_view_stack_operations() {
    let registry = PluginRegistry::new();
    let mut engine = QueryEngine::new(registry);

    let view1 = view("view1", "View 1", "test:source:1", SelectionMode::Single);
    let view2 = view("view2", "View 2", "test:source:2", SelectionMode::Multi);

    // Push views
    engine.push_view(view1);
    assert_eq!(engine.get_view_stack().len(), 1);

    engine.push_view(view2);
    assert_eq!(engine.get_view_stack().len(), 2);

    // Check current view
    let current = engine.get_current_view_state().unwrap();
    assert_eq!(current.title, Some("View 2".to_string()));
    assert_eq!(current.selection, SelectionMode::Multi);

    // Pop view
    assert!(engine.pop_view());
    assert_eq!(engine.get_view_stack().len(), 1);

    let current = engine.get_current_view_state().unwrap();
    assert_eq!(current.title, Some("View 1".to_string()));

    // Can't pop last view
    assert!(!engine.pop_view());
    assert_eq!(engine.get_view_stack().len(), 1);
}

#[test]
fn test_subscribe_broadcasts_changes() {
    let registry = PluginRegistry::new();
    let mut engine = QueryEngine::new(registry);

    // Nothing published before any change
    assert!(engine.published_states().is_empty());

    let mut v = view("test_view", "Test View", "test:source", SelectionMode::Single);
    v.placeholder = Some("Search...".to_string());
    engine.push_view(v);

    // Subscribers see the change
    let states = engine.published_states().clone();
    assert_eq!(states.len(), 1);
    assert_eq!(states[0].title, Some("Test View".to_string()));
    assert_eq!(states[0].placeholder, Some("Search...".to_string()));
}

#[test]
fn initialize_uses_default_root_view() {
    let mut engine = QueryEngine::new(PluginRegistry::new());
    engine.initialize();
    let state = engine.get_current_view_state().unwrap();
    assert_eq!(state.placeholder, Some("Search...".to_string()));
    assert_eq!(state.title, None);
    let call = engine.begin_search("abc").unwrap();
    assert_eq!(call.source_key, "empty:source");
    assert_eq!(call.query, "abc");
    assert!(call.hook_keys.is_empty());
}

#[test]
fn initialize_takes_custom_root_view() {
    let mut registry = PluginRegistry::new();
    registry.set_root_view(view("root", "Root", "root:search", SelectionMode::Multi));
    let mut engine = QueryEngine::new(registry);
    engine.initialize();
    assert!(!engine.registry().has_root_view());
    let state = engine.get_current_view_state().unwrap();
    assert_eq!(state.id, Some("root".to_string()));
    assert_eq!(state.selection, SelectionMode::Multi);
}

#[test]
fn search_without_view_fails_and_advances_generation() {
    let mut engine = QueryEngine::new(PluginRegistry::new());
    let err = engine.begin_search("q").unwrap_err();
    assert_eq!(err, "No current view");
    assert_eq!(engine.query_generation(), 1);
}

#[test]
fn search_runs_view_hooks_before_global_hooks() {
    let mut registry = PluginRegistry::new();
    registry
        .hooks_mut()
        .add("search", LuaFunctionRef::new("global1".to_string()));
    registry
        .hooks_mut()
        .add("views.files.search", LuaFunctionRef::new("view1".to_string()));
    let mut engine = QueryEngine::new(registry);
    engine.push_view(view("files", "Files", "files:search", SelectionMode::Single));
    let call = engine.begin_search("x").unwrap();
    assert_eq!(call.hook_keys, vec!["view1".to_string(), "global1".to_string()]);
    assert_eq!(call.source_key, "files:search");
}

#[test]
fn extract_groups_takes_first_set_groups() {
    let effects = vec![
        Effect::Dismiss,
        Effect::SetGroups(vec![Group::new("First", vec![Item::new("1", "One")])]),
        Effect::SetGroups(vec![Group::new("Second", vec![])]),
    ];
    let groups = extract_groups_from_effects(effects);
    assert_eq!(groups.len(), 1);
    assert_eq!(groups[0].title, Some("First".to_string()));
    assert!(extract_groups_from_effects(vec![Effect::Pop]).is_empty());
}

#[test]
fn apply_effects_push_then_pop_cleans_up_keys() {
    let mut engine = QueryEngine::new(PluginRegistry::new());
    engine.push_view(view("root", "Root", "root:search", SelectionMode::Single));
    let result = engine.apply_effects(vec![
        Effect::PushView(spec_with_keys("child:search", &["k1", "k2"])),
        Effect::Pop,
    ]);
    assert!(result.popped);
    assert_eq!(result.cleanup_keys, vec!["k1".to_string(), "k2".to_string()]);
    assert_eq!(engine.get_view_stack().len(), 1);
    assert_eq!(engine.published_version(), 3);
}

#[test]
fn apply_effects_replace_hands_back_old_keys() {
    let mut engine = QueryEngine::new(PluginRegistry::new());
    engine.apply_effects(vec![Effect::PushView(spec_with_keys("a:search", &["old"]))]);
    let result = engine.apply_effects(vec![Effect::ReplaceView(spec_with_keys("b:search", &["new"]))]);
    assert_eq!(result.cleanup_keys, vec!["old".to_string()]);
    assert_eq!(engine.get_view_stack().len(), 1);
    let call = engine.begin_search("").unwrap();
    assert_eq!(call.source_key, "b:search");
}

#[test]
fn pop_effect_at_root_keeps_root() {
    let mut engine = QueryEngine::new(PluginRegistry::new());
    engine.push_view(view("root", "Root", "root:search", SelectionMode::Single));
    let version = engine.published_version();
    let result = engine.apply_effects(vec![Effect::Pop]);
    assert!(result.popped);
    assert!(result.cleanup_keys.is_empty());
    assert_eq!(engine.get_view_stack().len(), 1);
    assert_eq!(engine.published_version(), version);
}

#[test]
fn apply_effects_records_messages_and_ignores_selection() {
    let mut engine = QueryEngine::new(PluginRegistry::new());
    let result = engine.apply_effects(vec![
        Effect::Select(vec!["a".to_string()]),
        Effect::Progress("half".to_string()),
        Effect::Notify("hello".to_string()),
        Effect::SetLoading(true),
        Effect::Complete { message: "done".to_string() },
        Effect::Fail { error: "bad".to_string() },
        Effect::ClearSelection,
    ]);
    assert_eq!(result.progress.as_deref(), Some("half"));
    assert_eq!(result.notification.as_deref(), Some("hello"));
    assert_eq!(result.loading, Some(true));
    assert_eq!(result.completed.as_deref(), Some("done"));
    assert_eq!(result.error.as_deref(), Some("bad"));
    assert!(!result.dismissed);
    assert!(engine.get_view_stack().is_empty());
}

#[test]
fn action_result_precedence() {
    let mut engine = QueryEngine::new(PluginRegistry::new());
    engine.push_view(view("root", "Root", "root:search", SelectionMode::Single));

    let mut r = ApplyResult::default();
    r.dismissed = true;
    r.popped = true;
    assert!(matches!(engine.apply_result_to_action_result(r), ActionResult::Dismiss));

    let mut r = ApplyResult::default();
    r.error = Some("e".to_string());
    r.completed = Some("c".to_string());
    assert!(matches!(engine.apply_result_to_action_result(r), ActionResult::Fail { error } if error == "e"));

    let mut r = ApplyResult::default();
    r.completed = Some("c".to_string());
    r.progress = Some("p".to_string());
    assert!(matches!(engine.apply_result_to_action_result(r), ActionResult::Complete { message, .. } if message == "c"));

    let r = ApplyResult::default();
    assert!(matches!(engine.apply_result_to_action_result(r), ActionResult::Continue));

    // A deeper stack alone is no pushed view: the effects must have grown it.
    engine.push_view(view("child", "Child", "child:search", SelectionMode::Single));
    let r = ApplyResult::default();
    assert!(matches!(engine.apply_result_to_action_result(r), ActionResult::Continue));

    let r = engine.apply_effects(vec![Effect::PushView(ViewSpec::new("grand:search".to_string()))]);
    assert!(r.pushed);
    assert!(matches!(
        engine.apply_result_to_action_result(r),
        ActionResult::PushView { title: None, query: None }
    ));

    let r = engine.apply_effects(vec![Effect::ReplaceView(ViewSpec::new("other:search".to_string()))]);
    assert!(!r.pushed);
    assert!(matches!(engine.apply_result_to_action_result(r), ActionResult::Continue));
}

#[test]
fn actions_call_needs_items_and_view() {
    let mut engine = QueryEngine::new(PluginRegistry::new());
    let items = vec![Item::new("1", "One")];
    assert!(engine.actions_call(&[]).unwrap().is_none());
    assert_eq!(engine.actions_call(&items).unwrap_err(), "No current view");
    engine.push_view(view("files", "Files", "files:search", SelectionMode::Single));
    assert!(engine.actions_call(&items).unwrap().is_none());
    let mut with_actions = view("files2", "Files", "files:search", SelectionMode::Single);
    with_actions.get_actions_fn = Some(LuaFunctionRef::new("files:get_actions".to_string()));
    engine.push_view(with_actions);
    let call = engine.actions_call(&items).unwrap().unwrap();
    assert_eq!(call.get_actions_key, "files:get_actions");
    assert_eq!(call.view_id, "files2");

    let two = vec![Item::new("1", "One"), Item::new("2", "Two")];
    let call = engine.actions_call(&two).unwrap().unwrap();
    assert_eq!(call.item.id, "1");
}

#[test]
fn get_actions_outcome_gives_infos_or_error() {
    let mut engine = QueryEngine::new(PluginRegistry::new());
    let mut with_actions = view("files", "Files", "files:search", SelectionMode::Single);
    with_actions.get_actions_fn = Some(LuaFunctionRef::new("files:get_actions".to_string()));
    engine.push_view(with_actions);
    let call = engine.actions_call(&[Item::new("1", "One")]).unwrap().unwrap();
    let ok = actions_from_outcome(
        &call,
        Ok(vec![ParsedAction {
            id: "open".to_string(),
            title: "Open".to_string(),
            icon: None,
            handler_key: "files:open".to_string(),
        }]),
    )
    .unwrap();
    assert_eq!(ok.len(), 1);
    assert_eq!(ok[0].view_id, "files");
    let err = actions_from_outcome(&call, Err("boom".to_string())).unwrap_err();
    assert_eq!(err, "get_actions failed: boom");
}

#[test]
fn parsed_actions_become_action_infos() {
    let infos = actions_from_parsed(
        "files",
        vec![ParsedAction {
            id: "open".to_string(),
            title: "Open".to_string(),
            icon: None,
            handler_key: "files:open".to_string(),
        }],
    );
    assert_eq!(infos.len(), 1);
    assert_eq!(infos[0].view_id, "files");
    assert_eq!(infos[0].id, "open");
    assert_eq!(infos[0].handler_key.as_deref(), Some("files:open"));
    assert!(!infos[0].bulk);
}

#[test]
fn view_from_spec_copies_keys() {
    let mut spec = ViewSpec::new("s".to_string());
    spec.on_submit_fn_key = Some("submit".to_string());
    spec.selection_mode = SelectionMode::Custom;
    let v = view_from_spec(&spec);
    assert_eq!(v.source_fn.key, "s");
    assert_eq!(v.on_submit_fn.unwrap().key, "submit");
    assert_eq!(v.selection, SelectionMode::Custom);
    assert!(v.on_select_fn.is_none());
}

#[test]
fn hook_calls_follow_the_current_view() {
    let mut engine = QueryEngine::new(PluginRegistry::new());
    assert!(engine.select_call().is_none());
    let mut v = view("form", "Form", "form:search", SelectionMode::Custom);
    v.on_select_fn = Some(LuaFunctionRef::new("form:select".to_string()));
    v.on_submit_fn = Some(LuaFunctionRef::new("form:submit".to_string()));
    engine.push_view(v);
    assert_eq!(engine.select_call().unwrap().key, "form:select");
    assert_eq!(engine.submit_call().unwrap().key, "form:submit");
}

#[test]
fn returned_results_come_after_recorded_effects() {
    let recorded = vec![Effect::SetLoading(true)];
    let groups = vec![Group::new("G", vec![Item::new("1", "One")])];
    let effects = search_effects(recorded, Some(groups));
    assert_eq!(effects.len(), 2);
    assert!(matches!(effects[0], Effect::SetLoading(true)));
    assert!(matches!(&effects[1], Effect::SetGroups(g) if g.len() == 1));
    let effects = search_effects(vec![Effect::Dismiss], None);
    assert_eq!(effects.len(), 1);
}
