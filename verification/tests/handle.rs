use lux::handle::{ActionRegistry, SourceRegistry, TriggerRegistry};

#[test]
fn test_trigger_registry_basic() {
    let mut registry: TriggerRegistry<String> = TriggerRegistry::new();

    let h1 = registry.insert("plugin-a", "trigger-1".to_string());
    let h2 = registry.insert("plugin-a", "trigger-2".to_string());
    let h3 = registry.insert("plugin-b", "trigger-3".to_string());

    assert_eq!(registry.len(), 3);
    assert_eq!(registry.get(h1), Some(&"trigger-1".to_string()));
    assert_eq!(registry.get(h2), Some(&"trigger-2".to_string()));
    assert_eq!(registry.get(h3), Some(&"trigger-3".to_string()));

    // Order preserved
    let order: Vec<_> = registry.iter().into_iter().map(|(_, _, t)| t.as_str()).collect();
    assert_eq!(order, vec!["trigger-1", "trigger-2", "trigger-3"]);
}

#[test]
fn test_trigger_registry_remove() {
    let mut registry: TriggerRegistry<String> = TriggerRegistry::new();

    let h1 = registry.insert("plugin-a", "trigger-1".to_string());
    let _h2 = registry.insert("plugin-a", "trigger-2".to_string());

    assert_eq!(registry.remove(h1), Some("trigger-1".to_string()));
    assert_eq!(registry.len(), 1);
    assert_eq!(registry.get(h1), None); // Stale handle returns None
}

#[test]
fn test_trigger_registry_remove_plugin() {
    let mut registry: TriggerRegistry<String> = TriggerRegistry::new();

    registry.insert("plugin-a", "trigger-1".to_string());
    registry.insert("plugin-a", "trigger-2".to_string());
    registry.insert("plugin-b", "trigger-3".to_string());

    let removed = registry.remove_plugin("plugin-a");
    assert_eq!(removed.len(), 2);
    assert_eq!(registry.len(), 1);
}

#[test]
fn test_handles_are_unique() {
    let mut registry: TriggerRegistry<String> = TriggerRegistry::new();

    let h1 = registry.insert("plugin", "a".to_string());
    let h2 = registry.insert("plugin", "b".to_string());

    assert_ne!(h1, h2);
}

#[test]
fn test_stale_handle_returns_none() {
    let mut registry: TriggerRegistry<String> = TriggerRegistry::new();

    let h1 = registry.insert("plugin", "a".to_string());
    registry.remove(h1);

    // Stale handle returns None, doesn't crash
    assert_eq!(registry.get(h1), None);
}

#[test]
fn registry_get_with_plugin_reports_owner() {
    let mut registry: SourceRegistry<u32> = SourceRegistry::new();
    let h = registry.insert("files", 7);
    assert_eq!(registry.get_with_plugin(h), Some(("files", &7)));
    assert!(!registry.is_empty());
}

#[test]
fn registry_handles_for_plugin_in_registration_order() {
    let mut registry: ActionRegistry<&str> = ActionRegistry::new();
    let a1 = registry.insert("a", "one");
    let _b = registry.insert("b", "two");
    let a2 = registry.insert("a", "three");
    assert_eq!(registry.handles_for_plugin("a"), vec![a1, a2]);
    assert_eq!(registry.handles_for_plugin("missing"), vec![]);
}

#[test]
fn registry_remove_plugin_keeps_others_and_order() {
    let mut registry: ActionRegistry<&str> = ActionRegistry::new();
    registry.insert("a", "one");
    let b = registry.insert("b", "two");
    registry.insert("a", "three");
    let removed = registry.remove_plugin("a");
    assert_eq!(removed, vec!["one", "three"]);
    assert_eq!(registry.get(b), Some(&"two"));
    let order: Vec<_> = registry.iter().into_iter().map(|(_, p, v)| (p, *v)).collect();
    assert_eq!(order, vec![("b", "two")]);
}

#[test]
fn registry_new_handle_after_remove_is_fresh() {
    let mut registry: TriggerRegistry<u8> = TriggerRegistry::default();
    let h1 = registry.insert("p", 1);
    registry.remove(h1);
    let h2 = registry.insert("p", 2);
    assert_ne!(h1, h2);
    assert_eq!(registry.get(h1), None);
    assert_eq!(registry.get(h2), Some(&2));
    assert!(registry.remove(h1).is_none());
}

#[test]
fn remove_plugin_twice_changes_nothing_the_second_time() {
    let mut registry: ActionRegistry<&str> = ActionRegistry::new();
    registry.insert("a", "one");
    registry.insert("b", "two");
    registry.insert("a", "three");
    assert_eq!(registry.remove_plugin("a").len(), 2);
    assert!(registry.handles_for_plugin("a").is_empty());
    assert_eq!(registry.len(), 1);
    assert_eq!(registry.remove_plugin("a"), Vec::<&str>::new());
    assert_eq!(registry.len(), 1);
    let order: Vec<_> = registry.iter().into_iter().map(|(_, p, v)| (p, *v)).collect();
    assert_eq!(order, vec![("b", "two")]);
}

#[test]
fn same_history_gives_same_registries() {
    let mut sources: SourceRegistry<u8> = SourceRegistry::new();
    let mut triggers: TriggerRegistry<u8> = TriggerRegistry::new();
    let s1 = sources.insert("a", 1);
    let t1 = triggers.insert("a", 1);
    sources.insert("b", 2);
    triggers.insert("b", 2);
    sources.insert("a", 3);
    triggers.insert("a", 3);
    sources.remove(s1);
    triggers.remove(t1);
    let mut from_sources = sources.remove_plugin("a");
    let mut from_triggers = triggers.remove_plugin("a");
    from_sources.sort();
    from_triggers.sort();
    assert_eq!(from_sources, from_triggers);
    assert_eq!(sources.len(), triggers.len());
    let s: Vec<_> = sources.iter().into_iter().map(|(_, p, v)| (p, *v)).collect();
    let t: Vec<_> = triggers.iter().into_iter().map(|(_, p, v)| (p, *v)).collect();
    assert_eq!(s, t);
}

#[test]
fn iteration_keeps_registration_order_after_removals() {
    let mut registry: TriggerRegistry<u8> = TriggerRegistry::new();
    let h1 = registry.insert("a", 1);
    let h2 = registry.insert("b", 2);
    let h3 = registry.insert("a", 3);
    registry.remove(h2);
    let h4 = registry.insert("c", 4);
    let handles: Vec<_> = registry.iter().into_iter().map(|(h, _, _)| h).collect();
    assert_eq!(handles, vec![h1, h3, h4]);
    assert!(h4 != h1 && h4 != h2 && h4 != h3);
}
