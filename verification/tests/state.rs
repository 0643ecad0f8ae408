use lux::ids::IdSequence;
use lux::item::{Group, Item};
use lux::selection::SelectionMode;
use lux::state::{
    ActionMenuItem, ActionMenuState, ActiveState, LauncherPhase, ListEntry, ViewFrame, ViewId,
    ViewStack,
};

fn test_item(id: &str, title: &str) -> Item {
    Item::new(id, title)
}

fn test_groups() -> Vec<Group> {
    vec![
        Group::new(
            "Recent",
            vec![test_item("1", "Item 1"), test_item("2", "Item 2")],
        ),
        Group::new("All", vec![test_item("3", "Item 3")]),
    ]
}

#[test]
fn test_launcher_phase_default() {
    let phase = LauncherPhase::default();
    assert!(!phase.is_active());
    assert!(phase.current_frame().is_none());
}

#[test]
fn test_launcher_phase_active() {
    let phase = LauncherPhase::Active(ActiveState::new(ViewId(1)));
    assert!(phase.is_active());
    assert!(phase.current_frame().is_some());
}

#[test]
fn test_view_stack_root() {
    let stack = ViewStack::new_root(ViewId(1));
    assert!(stack.is_root());
    assert_eq!(stack.depth(), 1);
    assert!(stack.current().is_some());
}

#[test]
fn test_view_stack_push_pop() {
    let mut stack = ViewStack::new_root(ViewId(1));
    assert!(stack.is_root());

    stack.push(ViewFrame::new_push(
        ViewId(2),
        "Search files",
        Some("Files".to_string()),
        SelectionMode::Single,
    ));
    assert!(!stack.is_root());
    assert_eq!(stack.depth(), 2);

    let popped = stack.pop();
    assert!(popped.is_some());
    assert!(stack.is_root());
    assert_eq!(stack.depth(), 1);

    // Can't pop root
    let popped = stack.pop();
    assert!(popped.is_none());
    assert!(stack.is_root());
}

#[test]
fn test_view_frame_set_groups() {
    let mut frame = ViewFrame::root(ViewId(1));
    assert!(!frame.has_items());

    frame.set_groups(test_groups());
    assert!(frame.has_items());
    assert_eq!(frame.item_count(), 3);

    // Check flat entries include headers
    assert_eq!(frame.flat_entries.len(), 5); // 2 headers + 3 items
}

#[test]
fn test_view_frame_cursor_navigation() {
    let mut frame = ViewFrame::root(ViewId(1));
    frame.set_groups(test_groups());

    assert_eq!(frame.cursor_index, 0);
    assert_eq!(frame.cursor_item().unwrap().id, "1");

    frame.cursor_down();
    assert_eq!(frame.cursor_index, 1);
    assert_eq!(frame.cursor_item().unwrap().id, "2");

    frame.cursor_down();
    assert_eq!(frame.cursor_index, 2);
    assert_eq!(frame.cursor_item().unwrap().id, "3");

    // Can't go past end
    frame.cursor_down();
    assert_eq!(frame.cursor_index, 2);

    frame.cursor_up();
    assert_eq!(frame.cursor_index, 1);

    // Go all the way up
    frame.cursor_up();
    frame.cursor_up();
    assert_eq!(frame.cursor_index, 0);
}

#[test]
fn test_view_frame_selection() {
    let mut frame = ViewFrame::root(ViewId(1));
    frame.set_groups(test_groups());

    assert!(frame.selected_ids.is_empty());

    frame.toggle_selection_at_cursor();
    assert_eq!(frame.selected_ids.len(), 1);

    frame.cursor_down();
    frame.toggle_selection_at_cursor();
    assert_eq!(frame.selected_ids.len(), 2);

    // Toggle off
    frame.cursor_up();
    frame.toggle_selection_at_cursor();
    assert_eq!(frame.selected_ids.len(), 1);

    frame.clear_selection();
    assert!(frame.selected_ids.is_empty());
}

#[test]
fn test_action_menu_navigation() {
    let actions = vec![
        ActionMenuItem {
            view_id: "test".to_string(),
            action_id: "open".to_string(),
            handler_key: None,
            title: "Open".to_string(),
            icon: None,
        },
        ActionMenuItem {
            view_id: "test".to_string(),
            action_id: "delete".to_string(),
            handler_key: None,
            title: "Delete".to_string(),
            icon: None,
        },
    ];

    let mut menu = ActionMenuState::new(actions);
    assert_eq!(menu.cursor_index, 0);
    assert_eq!(menu.selected_action().unwrap().title, "Open");

    menu.cursor_down();
    assert_eq!(menu.cursor_index, 1);
    assert_eq!(menu.selected_action().unwrap().title, "Delete");

    // Can't go past end
    menu.cursor_down();
    assert_eq!(menu.cursor_index, 1);

    menu.cursor_up();
    assert_eq!(menu.cursor_index, 0);
}

#[test]
fn test_breadcrumbs() {
    let mut stack = ViewStack::new_root(ViewId(1));

    let crumbs: Vec<_> = stack.breadcrumbs();
    assert_eq!(crumbs.len(), 1);
    assert_eq!(crumbs[0], None); // Root has no title

    stack.push(ViewFrame::new_push(
        ViewId(2),
        "",
        Some("Files".to_string()),
        SelectionMode::Single,
    ));
    stack.push(ViewFrame::new_push(
        ViewId(3),
        "",
        Some("Recent".to_string()),
        SelectionMode::Single,
    ));

    let crumbs: Vec<_> = stack.breadcrumbs();
    assert_eq!(crumbs.len(), 3);
    assert_eq!(crumbs[1], Some("Files"));
    assert_eq!(crumbs[2], Some("Recent"));
}

#[test]
fn view_ids_come_from_the_sequence() {
    let mut ids = IdSequence::starting_at(1);
    assert_eq!(ViewId::new(&mut ids), ViewId(1));
    assert_eq!(ViewId::new(&mut ids), ViewId(2));
}

#[test]
fn view_ids_start_at_one_and_increase() {
    let mut ids = ViewId::sequence();
    let a = ViewId::new(&mut ids);
    let b = ViewId::new(&mut ids);
    assert_eq!(a, ViewId(1));
    assert!(b.0 > a.0);
}

#[test]
fn cursor_is_clamped_when_results_shrink() {
    let mut frame = ViewFrame::root(ViewId(1));
    frame.set_groups(test_groups());
    frame.cursor_down();
    frame.cursor_down();
    assert_eq!(frame.cursor_index, 2);
    frame.set_groups(vec![Group::ungrouped(vec![test_item("a", "A")])]);
    assert_eq!(frame.cursor_index, 0);
    frame.set_groups(vec![]);
    assert_eq!(frame.cursor_index, 0);
    assert!(frame.cursor_item().is_none());
    assert!(frame.cursor_id().is_none());
}

#[test]
fn cursor_to_list_index_skips_headers() {
    let mut frame = ViewFrame::root(ViewId(1));
    frame.set_groups(test_groups());
    assert_eq!(frame.cursor_to_list_index(), 1);
    frame.cursor_down();
    frame.cursor_down();
    assert_eq!(frame.cursor_to_list_index(), 4);
    match &frame.flat_entries[4] {
        ListEntry::Item { item, flat_index } => {
            assert_eq!(item.id, "3");
            assert_eq!(*flat_index, 2);
        }
        _ => panic!("expected an item row"),
    }
}

#[test]
fn duplicate_ids_resolve_to_the_last_item() {
    let mut frame = ViewFrame::root(ViewId(1));
    frame.set_groups(vec![Group::ungrouped(vec![test_item("x", "first"), test_item("x", "second")])]);
    assert_eq!(frame.cursor_item().unwrap().title, "second");
}

#[test]
fn selected_items_follow_selection_order() {
    let mut frame = ViewFrame::root(ViewId(1));
    frame.set_groups(test_groups());
    frame.cursor_down();
    frame.toggle_selection_at_cursor();
    frame.cursor_up();
    frame.toggle_selection_at_cursor();
    let titles: Vec<_> = frame.selected_items().into_iter().map(|i| i.title.clone()).collect();
    assert_eq!(titles, vec!["Item 2", "Item 1"]);
    // toggling twice restores
    frame.toggle_selection_at_cursor();
    frame.toggle_selection_at_cursor();
    assert_eq!(frame.selected_ids.len(), 2);
}

#[test]
fn replace_and_current_mut() {
    let mut stack = ViewStack::new_root(ViewId(1));
    stack.replace(ViewFrame::new_push(ViewId(5), "p", Some("T".to_string()), SelectionMode::Multi));
    assert_eq!(stack.depth(), 1);
    assert_eq!(stack.current().unwrap().view_id, ViewId(5));
    stack.current_mut().unwrap().query = "q".to_string();
    assert_eq!(stack.current().unwrap().query, "q");
}

#[test]
fn phase_active_mut_and_current_frame_mut() {
    let mut phase = LauncherPhase::Active(ActiveState::new(ViewId(1)));
    phase.current_frame_mut().unwrap().loading = true;
    assert!(phase.current_frame().unwrap().loading);
    assert!(phase.active_mut().is_some());
    let mut hidden = LauncherPhase::Hidden;
    assert!(hidden.active_mut().is_none());
    assert!(hidden.current_frame_mut().is_none());
}
