use lux::ids::IdSequence;
use lux::parse::{parse_view, parse_view_definition, ViewDefinitionTable, ViewTable};
use lux::selection::SelectionMode;

fn table() -> ViewTable {
    ViewTable {
        id: Ok(None),
        title: Ok(None),
        placeholder: Ok(None),
        has_search: false,
        selection: Ok(None),
        on_select: Ok(false),
        on_submit: Ok(false),
        get_actions: Ok(false),
        view_data: Ok(serde_json::Value::Null),
    }
}

fn definition() -> ViewDefinitionTable {
    ViewDefinitionTable {
        id: None,
        title: Ok(None),
        placeholder: Ok(None),
        selection: Ok(None),
        has_search: false,
        has_get_actions: false,
    }
}

#[test]
fn test_parse_view() {
    let mut ids = IdSequence::starting_at(0);
    let mut t = table();
    t.title = Ok(Some("Test View".to_string()));
    t.has_search = true;
    let view = parse_view(t, &mut ids).unwrap();
    assert_eq!(view.title, Some("Test View".to_string()));
    assert_eq!(view.selection, SelectionMode::Single);
}

#[test]
fn test_parse_view_missing_search() {
    let mut ids = IdSequence::starting_at(0);
    let mut t = table();
    t.title = Ok(Some("Test View".to_string()));
    let err = parse_view(t, &mut ids).unwrap_err();
    assert!(err.contains("search"));
}

#[test]
fn test_parse_view_definition() {
    let mut ids = IdSequence::starting_at(0);
    let mut t = definition();
    t.id = Some("test-view".to_string());
    t.title = Ok(Some("Test View".to_string()));
    t.has_search = true;
    t.has_get_actions = true;
    let view_def = parse_view_definition(t, &mut ids).unwrap();
    assert_eq!(view_def.id, "test-view");
    assert_eq!(view_def.title, Some("Test View".to_string()));
}

#[test]
fn test_parse_view_definition_missing_id() {
    let mut ids = IdSequence::starting_at(0);
    let mut t = definition();
    t.has_search = true;
    t.has_get_actions = true;
    let err = parse_view_definition(t, &mut ids).unwrap_err();
    assert!(err.contains("id"));
}

#[test]
fn view_function_keys_are_numbered_in_order() {
    let mut ids = IdSequence::starting_at(4);
    let mut t = table();
    t.has_search = true;
    t.selection = Ok(Some("custom".to_string()));
    t.on_select = Ok(true);
    t.get_actions = Ok(true);
    let view = parse_view(t, &mut ids).unwrap();
    assert_eq!(view.source_fn.key, "view:4:search:5");
    assert_eq!(view.on_select_fn.unwrap().key, "view:4:on_select:6");
    assert!(view.on_submit_fn.is_none());
    assert_eq!(view.get_actions_fn.unwrap().key, "view:4:get_actions:7");
    assert_eq!(view.selection, SelectionMode::Custom);
    assert_eq!(ids.take(), 8);
}

#[test]
fn view_table_errors() {
    let mut ids = IdSequence::starting_at(0);
    let mut t = table();
    t.has_search = true;
    t.selection = Ok(Some("many".to_string()));
    assert_eq!(
        parse_view(t, &mut ids).unwrap_err(),
        "Invalid selection mode 'many'. Expected 'single', 'multi', or 'custom'"
    );
    let mut t = table();
    t.has_search = true;
    t.selection = Ok(Some("custom".to_string()));
    assert_eq!(
        parse_view(t, &mut ids).unwrap_err(),
        "View with selection='custom' must have 'on_select' function"
    );
    let mut t = table();
    t.title = Err("bad title".to_string());
    assert_eq!(parse_view(t, &mut ids).unwrap_err(), "bad title");
}

#[test]
fn definition_keys_and_errors() {
    let mut ids = IdSequence::starting_at(10);
    let mut t = definition();
    t.id = Some("files".to_string());
    t.has_search = true;
    t.has_get_actions = true;
    t.selection = Ok(Some("multi".to_string()));
    let def = parse_view_definition(t, &mut ids).unwrap();
    assert_eq!(def.search_fn.key, "view:files:search:10");
    assert_eq!(def.get_actions_fn.key, "view:files:get_actions:11");
    assert_eq!(def.selection, SelectionMode::Multi);

    let mut t = definition();
    t.id = Some("files".to_string());
    t.has_search = true;
    t.selection = Ok(Some("custom".to_string()));
    assert_eq!(
        parse_view_definition(t, &mut ids).unwrap_err(),
        "Invalid selection mode 'custom'. Expected 'single' or 'multi'"
    );
    let mut t = definition();
    t.id = Some("files".to_string());
    t.has_search = true;
    assert_eq!(
        parse_view_definition(t, &mut ids).unwrap_err(),
        "View missing required 'get_actions' function"
    );
}
