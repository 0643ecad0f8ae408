use lux::context::{ActionContext, SelectContext, SourceContext, SubmitContext, TriggerContext};
use lux::effect::{Effect, EffectCollector, ViewSpec};
use lux::item::{Group, Item};

#[test]
fn test_trigger_context_collects_effects() {
    let collector = EffectCollector::new();
    let mut ctx = TriggerContext::new("query", "args", collector);

    ctx.set_groups(vec![Group {
        title: None,
        items: vec![],
    }]);
    ctx.dismiss();

    let mut collector = ctx.finish();
    let effects = collector.take();
    assert_eq!(effects.len(), 2);
    assert!(matches!(effects[0], Effect::SetGroups(_)));
    assert!(matches!(effects[1], Effect::Dismiss));
}

#[test]
fn test_source_context_limited_methods() {
    let collector = EffectCollector::new();
    let view_data = serde_json::Value::Null;
    let mut ctx = SourceContext::new("query", &view_data, collector);

    // Can set groups
    ctx.set_groups(vec![]);

    let mut collector = ctx.finish();
    let effects = collector.take();
    assert_eq!(effects.len(), 1);
}

#[test]
fn test_action_context_has_all_navigation() {
    let collector = EffectCollector::new();
    let view_data = serde_json::Value::Null;
    let items: Vec<Item> = vec![];
    let mut ctx = ActionContext::new(&items, &view_data, collector);

    ctx.push_view(ViewSpec::new("test".to_string()));
    ctx.pop();
    ctx.dismiss();
    ctx.progress("working...");
    ctx.complete("done!");

    let mut collector = ctx.finish();
    let effects = collector.take();
    assert_eq!(effects.len(), 5);
}

#[test]
fn test_select_context_collects_effects() {
    let collector = EffectCollector::new();
    let item = Item {
        id: "item1".to_string(),
        title: "Test Item".to_string(),
        subtitle: None,
        icon: None,
        types: vec![],
        data: None,
    };
    let view_data = serde_json::Value::Null;
    let selection: Vec<String> = Vec::new();
    let mut ctx = SelectContext::new(&item, &view_data, &selection, collector);

    ctx.select("item1");
    ctx.deselect("item2");
    ctx.clear_selection();

    let mut collector = ctx.finish();
    let effects = collector.take();
    assert_eq!(effects.len(), 3);
    assert!(matches!(effects[0], Effect::Select(_)));
    assert!(matches!(effects[1], Effect::Deselect(_)));
    assert!(matches!(effects[2], Effect::ClearSelection));
}

#[test]
fn test_submit_context_navigation() {
    let collector = EffectCollector::new();
    let view_data = serde_json::Value::Null;
    let mut ctx = SubmitContext::new("query", &view_data, collector);

    ctx.push_view(ViewSpec::new("test".to_string()));
    ctx.pop();
    ctx.dismiss();

    let mut collector = ctx.finish();
    let effects = collector.take();
    assert_eq!(effects.len(), 3);
}

#[test]
fn trigger_context_reads_query_and_args() {
    let ctx = TriggerContext::new("test query", "query", EffectCollector::new());
    assert_eq!(ctx.query(), "test query");
    assert_eq!(ctx.args(), "query");
}

#[test]
fn action_context_messages_are_recorded() {
    let view_data = serde_json::Value::Null;
    let items = vec![Item::new("test-id", "Test Item")];
    let mut ctx = ActionContext::new(&items, &view_data, EffectCollector::new());
    assert_eq!(ctx.item().unwrap().id, "test-id");
    ctx.fail("broken");
    let mut collector = ctx.finish();
    let effects = collector.take();
    assert!(matches!(&effects[0], Effect::Fail { error } if error == "broken"));
}

#[test]
fn select_context_sees_current_selection() {
    let item = Item::new("a", "A");
    let view_data = serde_json::Value::Null;
    let selection = vec!["a".to_string(), "b".to_string()];
    let ctx = SelectContext::new(&item, &view_data, &selection, EffectCollector::new());
    assert!(ctx.is_selected("a"));
    assert!(!ctx.is_selected("c"));
    assert_eq!(ctx.get_selection(), vec!["a".to_string(), "b".to_string()]);
}
