use lux::observable_view_stack::ObservableViewStack;
use lux::selection::SelectionMode;
use lux::types::{LuaFunctionRef, View, ViewInstance};

fn test_view(title: &str) -> View {
    View {
        id: None,
        title: Some(title.to_string()),
        placeholder: None,
        source_fn: LuaFunctionRef::new(format!("test:source:{}", title)),
        get_actions_fn: None,
        selection: SelectionMode::Single,
        on_select_fn: None,
        on_submit_fn: None,
        view_data: serde_json::Value::Null,
    }
}

fn test_instance(title: &str) -> ViewInstance {
    ViewInstance::new(test_view(title))
}

#[test]
fn test_push_broadcasts() {
    let mut stack = ObservableViewStack::new();

    // Initially empty
    assert_eq!(stack.published_states().len(), 0);

    // Push broadcasts
    stack.push(test_instance("View 1"));
    assert_eq!(stack.published_states().len(), 1);
    assert_eq!(stack.published_states()[0].title, Some("View 1".to_string()));

    // Push again
    stack.push(test_instance("View 2"));
    assert_eq!(stack.published_states().len(), 2);
}

#[test]
fn test_pop_broadcasts() {
    let mut stack = ObservableViewStack::new();

    stack.push(test_instance("View 1"));
    stack.push(test_instance("View 2"));
    assert_eq!(stack.published_states().len(), 2);

    // Pop broadcasts
    let popped = stack.pop();
    assert!(popped.is_some());
    assert_eq!(stack.published_states().len(), 1);

    // Pop the last one
    stack.pop();
    assert_eq!(stack.published_states().len(), 0);
}

#[test]
fn test_pop_if_not_root() {
    let mut stack = ObservableViewStack::new();

    stack.push(test_instance("Root"));
    stack.push(test_instance("Child"));
    assert_eq!(stack.published_states().len(), 2);

    // Can pop child
    assert!(stack.pop_if_not_root());
    assert_eq!(stack.published_states().len(), 1);

    // Cannot pop root
    assert!(!stack.pop_if_not_root());
    assert_eq!(stack.published_states().len(), 1);
}

#[test]
fn test_replace_top_broadcasts() {
    let mut stack = ObservableViewStack::new();

    stack.push(test_instance("View 1"));
    assert_eq!(stack.published_states()[0].title, Some("View 1".to_string()));

    // Replace broadcasts
    let old = stack.replace_top(test_instance("View 2"));
    assert!(old.is_some());
    assert_eq!(stack.published_states().len(), 1);
    assert_eq!(stack.published_states()[0].title, Some("View 2".to_string()));
}

#[test]
fn test_clear_broadcasts() {
    let mut stack = ObservableViewStack::new();

    stack.push(test_instance("View 1"));
    stack.push(test_instance("View 2"));
    assert_eq!(stack.published_states().len(), 2);

    // Clear broadcasts empty
    let old = stack.clear();
    assert_eq!(old.len(), 2);
    assert_eq!(stack.published_states().len(), 0);
}

#[test]
fn test_modify_top_no_broadcast() {
    let mut stack = ObservableViewStack::new();

    stack.push(test_instance("View 1"));
    let version = stack.published_version();

    // Modify without broadcast (e.g., add a registry key)
    stack.modify_top(|mut view| {
        view.registry_keys.push("test_key".to_string());
        view
    });

    // Verify the modification happened
    let key_count = stack.with_top(|v| v.registry_keys.len()).unwrap();
    assert_eq!(key_count, 1);
    assert_eq!(stack.published_version(), version);
}

#[test]
fn test_modify_top_and_broadcast() {
    let mut stack = ObservableViewStack::new();

    stack.push(test_instance("View 1"));
    let initial_len = stack.published_states().len();
    let version = stack.published_version();

    // Modify with broadcast - this publishes again
    // even though the view states do not change (registry_keys are not in ViewState)
    stack.modify_top_and_broadcast(|mut view| {
        view.registry_keys.push("test_key".to_string());
        view
    });

    // Subscriber still sees the view (broadcast happened)
    assert_eq!(stack.published_states().len(), initial_len);
    assert_ne!(stack.published_version(), version);
}

#[test]
fn test_with_top() {
    let mut stack = ObservableViewStack::new();

    // Empty stack returns None
    assert!(stack.with_top(|_| ()).is_none());

    stack.push(test_instance("View 1"));

    // Can read top
    let title = stack.with_top(|v| v.view.title.clone());
    assert_eq!(title, Some(Some("View 1".to_string())));
}

#[test]
fn test_with_stack() {
    let mut stack = ObservableViewStack::new();

    stack.push(test_instance("View 1"));
    stack.push(test_instance("View 2"));

    let len = stack.with_stack(|s| s.len());
    assert_eq!(len, 2);
}

#[test]
fn pop_of_empty_stack_publishes_nothing() {
    let mut stack = ObservableViewStack::new();
    let version = stack.published_version();
    assert!(stack.pop().is_none());
    assert_eq!(stack.published_version(), version);
    assert_eq!(stack.published_states().len(), 0);
}

#[test]
fn replace_on_empty_stack_pushes() {
    let mut stack = ObservableViewStack::new();
    assert!(stack.replace_top(test_instance("Only")).is_none());
    assert_eq!(stack.len(), 1);
    assert_eq!(stack.get_current_state().unwrap().title, Some("Only".to_string()));
}

#[test]
fn every_publication_advances_the_version() {
    let mut stack = ObservableViewStack::new();
    assert_eq!(stack.published_version(), 0);
    stack.push(test_instance("A"));
    assert_eq!(stack.published_version(), 1);
    stack.broadcast();
    assert_eq!(stack.published_version(), 2);
    assert_eq!(stack.get_states(), stack.published_states().clone());
}
