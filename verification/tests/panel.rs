use lux::action::ActionResult;
use lux::actions::RunLuaHandler;
use lux::engine::ActionInfo;
use lux::error::BackendError;
use lux::item::{Group, Item};
use lux::editor::SearchInputEvent;
use lux::panel::{
    result_row, DismissStep, InputStep, LauncherPanelEvent, PanelModel, ResultFollowUp, RowHighlight, RowIcon,
    ViewDisplayState,
};
use lux::selection::SelectionMode;
use lux::state::ExecutionFeedback;
use lux::types::ViewState;

fn two_items() -> Vec<Group> {
    vec![Group::new(
        "Test",
        vec![Item::new("1", "Item 1"), Item::new("2", "Item 2")],
    )]
}

fn state(id: &str, selection: SelectionMode, placeholder: Option<&str>) -> ViewState {
    ViewState {
        id: Some(id.to_string()),
        title: None,
        placeholder: placeholder.map(|p| p.to_string()),
        selection,
    }
}

#[test]
fn test_view_display_state_cursor() {
    let mut state = ViewDisplayState::default();
    assert_eq!(state.cursor_index, 0);

    // Empty state - cursor should stay at 0
    state.cursor_down();
    assert_eq!(state.cursor_index, 0);

    // Add some items
    state.set_groups(two_items());

    assert_eq!(state.item_ids.len(), 2);
    assert_eq!(state.cursor_index, 0);

    state.cursor_down();
    assert_eq!(state.cursor_index, 1);

    state.cursor_down();
    assert_eq!(state.cursor_index, 1); // Can't go past end

    state.cursor_up();
    assert_eq!(state.cursor_index, 0);
}

#[test]
fn cursor_item_is_first_with_id_and_rows_skip_headers() {
    let mut state = ViewDisplayState::default();
    state.set_groups(vec![
        Group::new("A", vec![Item::new("x", "First")]),
        Group::new("B", vec![Item::new("x", "Second"), Item::new("y", "Y")]),
    ]);
    assert_eq!(state.cursor_item().unwrap().title, "First");
    state.cursor_down();
    state.cursor_down();
    assert_eq!(state.cursor_index, 2);
    assert_eq!(state.cursor_item().unwrap().title, "Y");
    // rows: header A, x, header B, x, y
    assert_eq!(state.cursor_to_list_index(), 4);
}

#[test]
fn toggle_does_nothing_in_single_mode() {
    let mut state = ViewDisplayState::default();
    state.set_groups(two_items());
    state.toggle_selection_at_cursor();
    assert!(state.selected_ids.is_empty());
    state.selection_mode = SelectionMode::Multi;
    state.toggle_selection_at_cursor();
    state.cursor_down();
    state.toggle_selection_at_cursor();
    let selected = state.selected_items();
    assert_eq!(selected.len(), 2);
    assert_eq!(selected[0].id, "1");
    state.toggle_selection_at_cursor();
    assert_eq!(state.selected_items().len(), 1);
}

#[test]
fn stale_search_results_are_ignored() {
    let mut panel = PanelModel::new();
    let first = panel.trigger_search("a".to_string());
    let second = panel.trigger_search("ab".to_string());
    assert_ne!(first.generation, second.generation);
    panel.apply_search_results(first.generation, Ok(two_items()));
    assert!(panel.current().cached_groups.is_empty());
    assert!(panel.current().loading);
    panel.apply_search_results(second.generation, Ok(two_items()));
    assert_eq!(panel.current().item_ids.len(), 2);
    assert!(!panel.current().loading);
    assert_eq!(panel.current().query, "ab");
}

#[test]
fn dismiss_undoes_one_thing_at_a_time() {
    let mut panel = PanelModel::new();
    panel.apply_actions(Ok(vec![ActionInfo {
        view_id: "v".to_string(),
        id: "open".to_string(),
        title: "Open".to_string(),
        icon: None,
        bulk: false,
        handler_key: Some("v:open".to_string()),
    }]));
    assert!(panel.action_menu().is_some());
    assert_eq!(panel.on_dismiss(true), DismissStep::CloseActionMenu);
    assert!(panel.action_menu().is_none());
    assert_eq!(panel.on_dismiss(false), DismissStep::ClearInput);
    assert_eq!(panel.on_dismiss(true), DismissStep::Dismiss);
    let states = vec![
        state("root", SelectionMode::Single, None),
        state("files", SelectionMode::Multi, Some("Find files")),
    ];
    panel.on_backend_state_changed(&states);
    assert_eq!(panel.on_dismiss(true), DismissStep::PopView);
}

#[test]
fn backend_push_and_pop_follow_the_stack() {
    let mut panel = PanelModel::new();
    panel.apply_search_results(0, Ok(two_items()));
    panel.on_cursor_down();
    let states = vec![
        state("root", SelectionMode::Single, Some("Search...")),
        state("files", SelectionMode::Multi, Some("Find files")),
    ];
    let sync = panel.on_backend_state_changed(&states);
    assert_eq!(panel.depth(), 2);
    let search = sync.search.unwrap();
    assert_eq!(search.query, "");
    assert_eq!(search.generation, 1);
    assert_eq!(sync.placeholder.as_deref(), Some("Find files"));
    assert_eq!(panel.current().selection_mode, SelectionMode::Multi);
    assert_eq!(panel.current().view_id.as_deref(), Some("files"));

    let sync = panel.on_backend_state_changed(&states[..1].to_vec());
    assert_eq!(panel.depth(), 1);
    assert!(sync.search.is_none());
    assert_eq!(panel.current().cursor_index, 1);
    assert_eq!(sync.scroll_to, Some(2));

    // The root's display state is never dropped
    panel.on_backend_state_changed(&Vec::new());
    assert_eq!(panel.depth(), 1);
}

#[test]
fn action_results_update_feedback() {
    let mut panel = PanelModel::new();
    assert!(matches!(panel.apply_action_result(Ok(ActionResult::Dismiss)), ResultFollowUp::EmitDismiss));
    panel.trigger_search("q".to_string());
    match panel.apply_action_result(Ok(ActionResult::Continue)) {
        ResultFollowUp::Search(req) => assert_eq!(req.query, "q"),
        _ => panic!("expected a refresh"),
    }
    panel.apply_action_result(Ok(ActionResult::Complete {
        message: "done".to_string(),
        actions: vec![],
    }));
    assert!(matches!(panel.execution_feedback(), Some(ExecutionFeedback::Complete { message }) if message == "done"));
    panel.apply_action_result(Err(BackendError::Lua("boom".to_string())));
    assert!(matches!(panel.execution_feedback(), Some(ExecutionFeedback::Failed { error }) if error == "Lua error: boom"));
    panel.apply_action_result(Ok(ActionResult::UpdateResults { groups: two_items() }));
    assert_eq!(panel.current().item_ids.len(), 2);
}

#[test]
fn targets_are_selection_or_cursor_item() {
    let mut panel = PanelModel::new();
    assert!(panel.execute_default_action().is_none());
    panel.apply_search_results(0, Ok(two_items()));
    let items = panel.execute_default_action().unwrap();
    assert_eq!(items.len(), 1);
    assert_eq!(items[0].id, "1");
    let (id, items) = panel.on_run_lua_handler(&RunLuaHandler { id: "keyhandler:3".to_string() });
    assert_eq!(id, "keyhandler:3");
    assert_eq!(items.len(), 1);
    assert_eq!(panel.on_open_action_menu().unwrap().len(), 1);
}

#[test]
fn search_input_events_drive_the_panel() {
    let mut panel = PanelModel::new();
    match panel.on_search_input_event(SearchInputEvent::Changed("fi".to_string())) {
        InputStep::Search(req) => {
            assert_eq!(req.query, "fi");
            assert_eq!(req.generation, 1);
        }
        _ => panic!("expected a search"),
    }
    assert!(matches!(panel.on_search_input_event(SearchInputEvent::Submit), InputStep::Nothing));
    panel.apply_search_results(1, Ok(two_items()));
    assert!(matches!(
        panel.on_search_input_event(SearchInputEvent::Submit),
        InputStep::ExecuteDefault(items) if items.len() == 1
    ));
    assert!(matches!(panel.on_search_input_event(SearchInputEvent::Back), InputStep::PopView));
}

#[test]
fn test_launcher_panel_events() {
    let _event = LauncherPanelEvent::Dismiss;
}

#[test]
fn hide_asks_host_to_dismiss() {
    let panel = PanelModel::new();
    assert_eq!(panel.hide_launcher(), LauncherPanelEvent::Dismiss);
}

#[test]
fn result_rows_pick_highlight_and_icon() {
    let mut item = Item::new("1", "Readme");
    item.subtitle = Some("~/docs".to_string());
    let row = result_row(&item, true, true);
    assert_eq!(row.highlight, RowHighlight::Cursor);
    assert!(matches!(row.icon, RowIcon::Placeholder));
    assert_eq!(row.title, "Readme");
    assert_eq!(row.subtitle.as_deref(), Some("~/docs"));

    item.icon = Some("/usr/share/icons/doc.png".to_string());
    let row = result_row(&item, false, true);
    assert_eq!(row.highlight, RowHighlight::Selected);
    assert!(matches!(row.icon, RowIcon::Image(ref p) if p == "/usr/share/icons/doc.png"));

    item.icon = Some("📄".to_string());
    let row = result_row(&item, false, false);
    assert_eq!(row.highlight, RowHighlight::Plain);
    assert!(matches!(row.icon, RowIcon::Text(ref t) if t == "📄"));
}

#[test]
fn click_past_the_last_item_selects_nothing() {
    let mut panel = PanelModel::new();
    panel.on_item_click(5);
    assert_eq!(panel.current().cursor_index, 5);
    assert!(panel.current().cursor_item().is_none());
}
