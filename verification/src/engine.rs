//! The query engine: the view stack, the preparation of calls into the Lua
//! runtime (search, actions, selection and submission hooks) and the one place
//! where the effects that Lua callbacks collect are applied.
//!
//! A call into Lua goes in three steps: the engine says what to call (a
//! registry key, the hook chain, the view data), the runtime makes the call,
//! and the engine applies what came back.

use vstd::prelude::*;
use vstd::view::View as ModelView;

use crate::action::{ActionResult, FollowUpAction};
use crate::effect::{Effect, ViewSpec};
use crate::hooks::chain_keys;
use crate::item::{clone_opt_string, Group, Item};
use crate::json::{clone_json, json_is_null, json_null};
use crate::observable_view_stack::{next_version, state_views, states_of, ObservableViewStack};
use crate::registry::PluginRegistry;
use crate::selection::SelectionMode;
use crate::text::owned;
use crate::types::{state_of, LuaFunctionRef, View, ViewInstance, ViewState, ViewStateView};

verus! {

/// Information about an action that applies to the focused item.
#[derive(Debug)]
pub struct ActionInfo {
    /// View ID that provides this action.
    pub view_id: String,
    /// Action ID within the view.
    pub id: String,
    /// Display title.
    pub title: String,
    /// Optional icon.
    pub icon: Option<String>,
    /// Whether this action supports bulk selection.
    pub bulk: bool,
    /// Lua registry key for the action handler function.
    pub handler_key: Option<String>,
}

/// An action as a view's `get_actions` function returned it.
#[derive(Debug)]
pub struct ParsedAction {
    /// Action ID within the view.
    pub id: String,
    /// Display title.
    pub title: String,
    /// Optional icon.
    pub icon: Option<String>,
    /// Lua registry key for the action handler function.
    pub handler_key: String,
}

/// What a search asks of the Lua runtime: run the hook chain, ending in the
/// view's source function, on the query and the view data.
#[derive(Debug)]
pub struct SearchCall {
    /// Registry key of the current view's source function.
    pub source_key: String,
    /// Registry keys of the `search` hooks: the view's, then the global ones.
    pub hook_keys: Vec<String>,
    /// The query.
    pub query: String,
    /// The current view's data.
    pub view_data: serde_json::Value,
}

/// What an actions request asks of the Lua runtime: call the view's
/// `get_actions` function on the focused item.
#[derive(Debug)]
pub struct ActionsCall {
    /// Registry key of the view's `get_actions` function.
    pub get_actions_key: String,
    /// The current view's data.
    pub view_data: serde_json::Value,
    /// The current view's id (empty when it has none).
    pub view_id: String,
    /// The focused item, which `get_actions` is called on.
    pub item: Item,
}

/// A call of a view hook (`on_select`, `on_submit`) with the view data.
#[derive(Debug)]
pub struct HookCall {
    /// Registry key of the hook function.
    pub key: String,
    /// The current view's data.
    pub view_data: serde_json::Value,
}

/// What applying a list of effects did.
#[derive(Debug)]
pub struct ApplyResult {
    /// Groups to display (from the last SetGroups effect).
    pub groups: Option<Vec<Group>>,
    /// Whether dismiss was called.
    pub dismissed: bool,
    /// Whether pop was called.
    pub popped: bool,
    /// Whether the effects left the view stack deeper than they found it:
    /// a view was pushed.
    pub pushed: bool,
    /// Progress message, if any.
    pub progress: Option<String>,
    /// Completion message, if any.
    pub completed: Option<String>,
    /// Error message, if any.
    pub error: Option<String>,
    /// Notification message (doesn't dismiss).
    pub notification: Option<String>,
    /// Loading state, if changed.
    pub loading: Option<bool>,
    /// Lua registry keys of the views that left the stack, to clean up.
    pub cleanup_keys: Vec<String>,
}

impl Default for ApplyResult {
    fn default() -> (r: Self)
        ensures
            r.groups is None,
            !r.dismissed,
            !r.popped,
            !r.pushed,
            r.progress is None,
            r.completed is None,
            r.error is None,
            r.notification is None,
            r.loading is None,
            r.cleanup_keys@.len() == 0,
    {
        ApplyResult {
            groups: None,
            dismissed: false,
            popped: false,
            pushed: false,
            progress: None,
            completed: None,
            error: None,
            notification: None,
            loading: None,
            cleanup_keys: Vec::new(),
        }
    }
}

/// A function reference for an optional key.
pub open spec fn opt_fn(key: Option<String>) -> Option<LuaFunctionRef> {
    match key {
        Some(k) => Some(LuaFunctionRef { key: k }),
        None => None,
    }
}

/// The view that a view spec describes.
pub open spec fn spec_view(spec: ViewSpec) -> View {
    View {
        id: spec.id,
        title: spec.title,
        placeholder: spec.placeholder,
        source_fn: LuaFunctionRef { key: spec.source_fn_key },
        get_actions_fn: opt_fn(spec.get_actions_fn_key),
        selection: spec.selection_mode,
        on_select_fn: opt_fn(spec.on_select_fn_key),
        on_submit_fn: opt_fn(spec.on_submit_fn_key),
        view_data: spec.view_data,
    }
}

/// The view instance that a view spec describes, with its cleanup keys.
pub open spec fn spec_instance(spec: ViewSpec) -> ViewInstance {
    ViewInstance { view: spec_view(spec), registry_keys: spec.registry_keys }
}

/// The state of the engine and of the result while effects are applied.
pub struct Outcome {
    pub stack: Seq<ViewInstance>,
    pub groups: Option<Vec<Group>>,
    pub dismissed: bool,
    pub popped: bool,
    pub progress: Option<String>,
    pub completed: Option<String>,
    pub error: Option<String>,
    pub notification: Option<String>,
    pub loading: Option<bool>,
    /// Registry keys of the views that left the stack, in order.
    pub cleanup: Seq<String>,
    /// How many times the stack published its states.
    pub publications: nat,
}

/// The outcome before any effect is applied.
pub open spec fn initial_outcome(stack: Seq<ViewInstance>) -> Outcome {
    Outcome {
        stack,
        groups: None,
        dismissed: false,
        popped: false,
        progress: None,
        completed: None,
        error: None,
        notification: None,
        loading: None,
        cleanup: Seq::empty(),
        publications: 0,
    }
}

/// Apply one effect. Views that leave the stack hand their registry keys to
/// the cleanup list; a pop at the root only records that pop was called;
/// selection effects change nothing here (the UI owns the selection).
pub open spec fn apply_step(o: Outcome, e: Effect) -> Outcome {
    match e {
        Effect::SetGroups(groups) => Outcome { groups: Some(groups), ..o },
        Effect::PushView(spec) => Outcome {
            stack: o.stack.push(spec_instance(spec)),
            publications: o.publications + 1,
            ..o
        },
        Effect::ReplaceView(spec) => if o.stack.len() > 0 {
            Outcome {
                stack: o.stack.drop_last().push(spec_instance(spec)),
                cleanup: o.cleanup + o.stack.last().registry_keys@,
                publications: o.publications + 1,
                ..o
            }
        } else {
            Outcome {
                stack: seq![spec_instance(spec)],
                publications: o.publications + 1,
                ..o
            }
        },
        Effect::Pop => if o.stack.len() > 1 {
            Outcome {
                stack: o.stack.drop_last(),
                cleanup: o.cleanup + o.stack.last().registry_keys@,
                publications: o.publications + 1,
                popped: true,
                ..o
            }
        } else {
            Outcome { popped: true, ..o }
        },
        Effect::Dismiss => Outcome { dismissed: true, ..o },
        Effect::Progress(message) => Outcome { progress: Some(message), ..o },
        Effect::Complete { message } => Outcome { completed: Some(message), ..o },
        Effect::Fail { error } => Outcome { error: Some(error), ..o },
        Effect::Notify(message) => Outcome { notification: Some(message), ..o },
        Effect::SetLoading(loading) => Outcome { loading: Some(loading), ..o },
        Effect::Select(_) => o,
        Effect::Deselect(_) => o,
        Effect::ClearSelection => o,
    }
}

/// Apply a list of effects in order, starting from a stack.
pub open spec fn apply_all(stack: Seq<ViewInstance>, effects: Seq<Effect>) -> Outcome
    decreases effects.len(),
{
    if effects.len() == 0 {
        initial_outcome(stack)
    } else {
        apply_step(apply_all(stack, effects.drop_last()), effects.last())
    }
}

/// The groups an effect sets, if it is `SetGroups`.
pub open spec fn groups_set_by(e: Effect) -> Option<Vec<Group>> {
    match e {
        Effect::SetGroups(g) => Some(g),
        _ => None,
    }
}

/// The error an effect reports, if it is `Fail`.
pub open spec fn error_set_by(e: Effect) -> Option<String> {
    match e {
        Effect::Fail { error } => Some(error),
        _ => None,
    }
}

/// The completion message of an effect, if it is `Complete`.
pub open spec fn completion_set_by(e: Effect) -> Option<String> {
    match e {
        Effect::Complete { message } => Some(message),
        _ => None,
    }
}

/// The progress message of an effect, if it is `Progress`.
pub open spec fn progress_set_by(e: Effect) -> Option<String> {
    match e {
        Effect::Progress(message) => Some(message),
        _ => None,
    }
}

/// Whether the value of a field after a list of effects is what the last
/// effect that sets it set, or none when no effect sets it.
pub open spec fn last_set<A>(effects: Seq<Effect>, set_by: spec_fn(Effect) -> Option<A>, value: Option<A>) -> bool {
    &&& (forall|i: int| 0 <= i < effects.len() ==> (#[trigger] set_by(effects[i])) is None) ==> value is None
    &&& forall|i: int|
        0 <= i < effects.len() && (#[trigger] set_by(effects[i])) is Some && (forall|j: int| i < j < effects.len() ==> set_by(effects[j]) is None)
            ==> value == set_by(effects[i])
}

/// One more effect: the field is what that effect sets, if it sets it, else
/// what it was.
proof fn lemma_last_set_push<A>(effects: Seq<Effect>, e: Effect, set_by: spec_fn(Effect) -> Option<A>, before: Option<A>, after: Option<A>)
    requires
        last_set(effects, set_by, before),
        after == (if set_by(e) is Some { set_by(e) } else { before }),
    ensures
        last_set(effects.push(e), set_by, after),
{
    let all = effects.push(e);
    let n = effects.len() as int;
    assert(all[n] == e);
    assert forall|i: int| 0 <= i < n implies all[i] == effects[i] by {}
    if forall|i: int| 0 <= i < all.len() ==> (#[trigger] set_by(all[i])) is None {
        assert(set_by(all[n]) is None);
        assert forall|i: int| 0 <= i < effects.len() implies (#[trigger] set_by(effects[i])) is None by {
            assert(set_by(all[i]) is None);
        }
    }
    assert forall|i: int|
        0 <= i < all.len() && (#[trigger] set_by(all[i])) is Some && (forall|j: int| i < j < all.len() ==> set_by(all[j]) is None)
        implies after == set_by(all[i]) by {
        if i < n {
            assert(set_by(all[n]) is None);
            assert forall|j: int| i < j < effects.len() implies set_by(effects[j]) is None by {
                assert(set_by(all[j]) is None);
            }
        }
    }
}

/// What one effect does to the reported fields.
proof fn lemma_step_reported(o: Outcome, e: Effect)
    ensures
        apply_step(o, e).dismissed == (o.dismissed || e == Effect::Dismiss),
        apply_step(o, e).popped == (o.popped || e == Effect::Pop),
        apply_step(o, e).groups == (if groups_set_by(e) is Some { groups_set_by(e) } else { o.groups }),
        apply_step(o, e).error == (if error_set_by(e) is Some { error_set_by(e) } else { o.error }),
        apply_step(o, e).completed == (if completion_set_by(e) is Some { completion_set_by(e) } else { o.completed }),
        apply_step(o, e).progress == (if progress_set_by(e) is Some { progress_set_by(e) } else { o.progress }),
{
}

/// Dismissal and pop are reported exactly when such an effect occurs.
proof fn lemma_reported_flags(stack: Seq<ViewInstance>, effects: Seq<Effect>)
    ensures
        apply_all(stack, effects).dismissed == effects.contains(Effect::Dismiss),
        apply_all(stack, effects).popped == effects.contains(Effect::Pop),
    decreases effects.len(),
{
    if effects.len() > 0 {
        let prev = effects.drop_last();
        let e = effects.last();
        lemma_reported_flags(stack, prev);
        lemma_step_reported(apply_all(stack, prev), e);
        let n = prev.len() as int;
        assert(effects[n] == e);
        if prev.contains(Effect::Dismiss) {
            let i = choose|i: int| 0 <= i < prev.len() && prev[i] == Effect::Dismiss;
            assert(effects[i] == prev[i]);
        }
        if effects.contains(Effect::Dismiss) && e != Effect::Dismiss {
            let i = choose|i: int| 0 <= i < effects.len() && effects[i] == Effect::Dismiss;
            assert(prev[i] == effects[i]);
        }
        if prev.contains(Effect::Pop) {
            let i = choose|i: int| 0 <= i < prev.len() && prev[i] == Effect::Pop;
            assert(effects[i] == prev[i]);
        }
        if effects.contains(Effect::Pop) && e != Effect::Pop {
            let i = choose|i: int| 0 <= i < effects.len() && effects[i] == Effect::Pop;
            assert(prev[i] == effects[i]);
        }
    }
}

/// The groups, error, completion and progress reported are those of the
/// last effect that sets each.
proof fn lemma_reported_last(stack: Seq<ViewInstance>, effects: Seq<Effect>)
    ensures
        last_set(effects, |e: Effect| groups_set_by(e), apply_all(stack, effects).groups),
        last_set(effects, |e: Effect| error_set_by(e), apply_all(stack, effects).error),
        last_set(effects, |e: Effect| completion_set_by(e), apply_all(stack, effects).completed),
        last_set(effects, |e: Effect| progress_set_by(e), apply_all(stack, effects).progress),
    decreases effects.len(),
{
    if effects.len() > 0 {
        let prev = effects.drop_last();
        let e = effects.last();
        lemma_reported_last(stack, prev);
        let o = apply_all(stack, prev);
        lemma_step_reported(o, e);
        assert(effects =~= prev.push(e));
        lemma_last_set_push(prev, e, |e: Effect| groups_set_by(e), o.groups, apply_step(o, e).groups);
        lemma_last_set_push(prev, e, |e: Effect| error_set_by(e), o.error, apply_step(o, e).error);
        lemma_last_set_push(prev, e, |e: Effect| completion_set_by(e), o.completed, apply_step(o, e).completed);
        lemma_last_set_push(prev, e, |e: Effect| progress_set_by(e), o.progress, apply_step(o, e).progress);
    }
}

/// What applying effects reports, over any list of effects: dismissal and
/// pop are reported exactly when such an effect is among them, and the
/// groups, error, completion and progress reported are those of the last
/// effect that sets each, or none when no effect does.
pub proof fn law_effects_reported(stack: Seq<ViewInstance>, effects: Seq<Effect>)
    ensures
        apply_all(stack, effects).dismissed == effects.contains(Effect::Dismiss),
        apply_all(stack, effects).popped == effects.contains(Effect::Pop),
        last_set(effects, |e: Effect| groups_set_by(e), apply_all(stack, effects).groups),
        last_set(effects, |e: Effect| error_set_by(e), apply_all(stack, effects).error),
        last_set(effects, |e: Effect| completion_set_by(e), apply_all(stack, effects).completed),
        last_set(effects, |e: Effect| progress_set_by(e), apply_all(stack, effects).progress),
{
    lemma_reported_flags(stack, effects);
    lemma_reported_last(stack, effects);
}

/// The version after `n` publications starting at `v`.
pub open spec fn advance(v: u64, n: nat) -> u64
    decreases n,
{
    if n == 0 {
        v
    } else {
        next_version(advance(v, (n - 1) as nat))
    }
}

/// The action result that an apply result stands for: dismiss, then pop,
/// then error, completion, progress and new results, then a pushed view (the
/// effects grew the stack), else continue on the current view.
pub open spec fn action_result_for(result: ApplyResult, r: ActionResult) -> bool {
    if result.dismissed {
        r is Dismiss
    } else if result.popped {
        r is Pop
    } else if result.error is Some {
        r == ActionResult::Fail { error: result.error->0 }
    } else if result.completed is Some {
        r matches ActionResult::Complete { message, actions } && message == result.completed->0
            && actions@.len() == 0
    } else if result.progress is Some {
        r == ActionResult::Progress { message: result.progress->0 }
    } else if result.groups is Some {
        r == ActionResult::UpdateResults { groups: result.groups->0 }
    } else if result.pushed {
        r == ActionResult::PushView { title: None, query: None }
    } else {
        r is Continue
    }
}

/// What the UI is told after an action: a dismissal hides the launcher, a
/// pop goes back, an error, completion or progress message is shown, new
/// groups replace the results, a pushed view is shown, and only when the
/// action reported none of these does the UI continue on the current view.
/// Nothing an action reports is dropped: each field, when it is the first
/// in this order to be set, decides the result and is carried in it.
pub proof fn law_action_result(result: ApplyResult, r: ActionResult)
    requires
        action_result_for(result, r),
    ensures
        (r is Dismiss) <==> result.dismissed,
        (r is Pop) <==> (!result.dismissed && result.popped),
        (!result.dismissed && !result.popped && result.error is Some) ==> (r == ActionResult::Fail { error: result.error->0 }),
        (!result.dismissed && !result.popped && result.error is None && result.completed is Some) ==> (
        r matches ActionResult::Complete { message, .. } && message == result.completed->0),
        (!result.dismissed && !result.popped && result.error is None && result.completed is None
            && result.progress is Some) ==> (r == ActionResult::Progress { message: result.progress->0 }),
        (!result.dismissed && !result.popped && result.error is None && result.completed is None
            && result.progress is None && result.groups is Some) ==> (r == ActionResult::UpdateResults { groups: result.groups->0 }),
        (r is PushView) ==> result.pushed,
        (r is Continue) <==> (!result.dismissed && !result.popped && result.error is None && result.completed is None
            && result.progress is None && result.groups is None && !result.pushed),
{
}

/// The groups of the first SetGroups effect, if any.
pub open spec fn first_groups(effects: Seq<Effect>) -> Option<Vec<Group>>
    decreases effects.len(),
{
    if effects.len() == 0 {
        None
    } else {
        match effects[0] {
            Effect::SetGroups(groups) => Some(groups),
            _ => first_groups(effects.drop_first()),
        }
    }
}

/// Extract the groups of the first SetGroups effect; no groups if there is none.
pub fn extract_groups_from_effects(effects: Vec<Effect>) -> (r: Vec<Group>)
    ensures
        first_groups(effects@) is Some ==> r == first_groups(effects@)->0,
        first_groups(effects@) is None ==> r@.len() == 0,
{
    let mut rest = effects;
    let ghost all = rest@;
    let ghost mut done: int = 0;
    while rest.len() > 0
        invariant
            0 <= done <= all.len(),
            all == effects@,
            rest@ == all.skip(done),
            first_groups(all) == first_groups(all.skip(done)),
        decreases rest@.len(),
    {
        let ghost cur = rest@;
        let e = rest.remove(0);
        proof {
            assert(all.skip(done).drop_first() =~= all.skip(done + 1));
            done = done + 1;
            assert(rest@ =~= all.skip(done));
        }
        match e {
            Effect::SetGroups(groups) => {
                proof {
                    assert(first_groups(cur) == Some(groups));
                }
                return groups;
            },
            _ => {
                proof {
                    assert(first_groups(cur) == first_groups(cur.drop_first()));
                }
            },
        }
    }
    proof {
        assert(all.skip(done).len() == 0);
    }
    Vec::new()
}

/// The view that a view spec describes.
pub fn view_from_spec(spec: &ViewSpec) -> (r: View)
    ensures
        r == spec_view(*spec),
{
    View {
        id: clone_opt_string(&spec.id),
        title: clone_opt_string(&spec.title),
        placeholder: clone_opt_string(&spec.placeholder),
        source_fn: LuaFunctionRef::new(spec.source_fn_key.clone()),
        get_actions_fn: match &spec.get_actions_fn_key {
            Some(k) => Some(LuaFunctionRef::new(k.clone())),
            None => None,
        },
        selection: spec.selection_mode,
        on_select_fn: match &spec.on_select_fn_key {
            Some(k) => Some(LuaFunctionRef::new(k.clone())),
            None => None,
        },
        on_submit_fn: match &spec.on_submit_fn_key {
            Some(k) => Some(LuaFunctionRef::new(k.clone())),
            None => None,
        },
        view_data: clone_json(&spec.view_data),
    }
}

/// The view instance that a view spec describes, taking its parts.
fn instance_from_spec(spec: ViewSpec) -> (r: ViewInstance)
    ensures
        r == spec_instance(spec),
{
    let view = View {
        id: spec.id,
        title: spec.title,
        placeholder: spec.placeholder,
        source_fn: LuaFunctionRef::new(spec.source_fn_key),
        get_actions_fn: match spec.get_actions_fn_key {
            Some(k) => Some(LuaFunctionRef::new(k)),
            None => None,
        },
        selection: spec.selection_mode,
        on_select_fn: match spec.on_select_fn_key {
            Some(k) => Some(LuaFunctionRef::new(k)),
            None => None,
        },
        on_submit_fn: match spec.on_submit_fn_key {
            Some(k) => Some(LuaFunctionRef::new(k)),
            None => None,
        },
        view_data: spec.view_data,
    };
    ViewInstance::with_registry_keys(view, spec.registry_keys)
}

/// The effects of a search: what the hooks and the source recorded through
/// the ctx, then, when the chain returned results, those results shown as
/// the groups.
pub fn search_effects(recorded: Vec<Effect>, returned: Option<Vec<Group>>) -> (r: Vec<Effect>)
    ensures
        match returned {
            None => r@ == recorded@,
            Some(groups) => r@ == recorded@.push(Effect::SetGroups(groups)),
        },
{
    let mut r = recorded;
    match returned {
        None => {},
        Some(groups) => r.push(Effect::SetGroups(groups)),
    }
    r
}

/// Whether `r` are the action infos, in order, for the actions a view's
/// `get_actions` returned: each keeps its id, title and icon, belongs to the
/// view, is not a bulk action and runs its own handler.
pub open spec fn infos_for(view_id: Seq<char>, parsed: Seq<ParsedAction>, r: Seq<ActionInfo>) -> bool {
    &&& r.len() == parsed.len()
    &&& forall|i: int|
        0 <= i < r.len() ==> {
            &&& (#[trigger] r[i]).view_id@ == view_id
            &&& r[i].id == parsed[i].id
            &&& r[i].title == parsed[i].title
            &&& r[i].icon == parsed[i].icon
            &&& !r[i].bulk
            &&& r[i].handler_key == Some(parsed[i].handler_key)
        }
}

/// The actions of the focused item from what calling the view's
/// `get_actions` on it gave: the action infos, or the error
/// `get_actions failed: <reason>`.
pub fn actions_from_outcome(call: &ActionsCall, outcome: Result<Vec<ParsedAction>, String>) -> (r: Result<Vec<ActionInfo>, String>)
    ensures
        match outcome {
            Ok(parsed) => r matches Ok(v) && infos_for(call.view_id@, parsed@, v@),
            Err(reason) => r matches Err(e) && e@ == "get_actions failed: "@ + reason@,
        },
{
    match outcome {
        Ok(parsed) => Ok(actions_from_parsed(call.view_id.as_str(), parsed)),
        Err(reason) => {
            let mut e = owned("get_actions failed: ");
            e.append(reason.as_str());
            Err(e)
        },
    }
}

/// Action infos for the actions a view's `get_actions` returned, in order.
pub fn actions_from_parsed(view_id: &str, parsed: Vec<ParsedAction>) -> (r: Vec<ActionInfo>)
    ensures
        r@.len() == parsed@.len(),
        forall|i: int|
            0 <= i < r@.len() ==> {
                &&& (#[trigger] r@[i]).view_id@ == view_id@
                &&& r@[i].id == parsed@[i].id
                &&& r@[i].title == parsed@[i].title
                &&& r@[i].icon == parsed@[i].icon
                &&& !r@[i].bulk
                &&& r@[i].handler_key == Some(parsed@[i].handler_key)
            },
{
    let mut rest = parsed;
    let ghost all = rest@;
    let mut out: Vec<ActionInfo> = Vec::new();
    while rest.len() > 0
        invariant
            out@.len() + rest@.len() == all.len(),
            rest@ == all.skip(out@.len() as int),
            forall|i: int|
                0 <= i < out@.len() ==> {
                    &&& (#[trigger] out@[i]).view_id@ == view_id@
                    &&& out@[i].id == all[i].id
                    &&& out@[i].title == all[i].title
                    &&& out@[i].icon == all[i].icon
                    &&& !out@[i].bulk
                    &&& out@[i].handler_key == Some(all[i].handler_key)
                },
        decreases rest@.len(),
    {
        let a = rest.remove(0);
        proof {
            assert(all.skip(out@.len() as int).drop_first() =~= all.skip(out@.len() as int + 1));
        }
        out.push(ActionInfo {
            view_id: owned(view_id),
            id: a.id,
            title: a.title,
            icon: a.icon,
            bulk: false,
            handler_key: Some(a.handler_key),
        });
    }
    out
}

/// The query engine: the plugin registry, the observable view stack and the
/// query generation.
pub struct QueryEngine {
    registry: PluginRegistry,
    view_stack: ObservableViewStack,
    query_generation: u64,
}

impl QueryEngine {
    /// The view instances, root first.
    pub closed spec fn stack(&self) -> Seq<ViewInstance> {
        self.view_stack.stack()
    }

    /// What subscribers see.
    pub closed spec fn published(&self) -> Seq<ViewStateView> {
        self.view_stack.published()
    }

    /// The number of the last publication.
    pub closed spec fn version(&self) -> u64 {
        self.view_stack.version()
    }

    /// The plugin registry.
    pub closed spec fn registry_state(&self) -> PluginRegistry {
        self.registry
    }

    /// The query generation, advanced by each search.
    pub closed spec fn generation(&self) -> u64 {
        self.query_generation
    }

    /// Create a new engine with the given registry and an empty view stack.
    pub fn new(registry: PluginRegistry) -> (r: Self)
        ensures
            r.stack().len() == 0,
            r.published().len() == 0,
            r.version() == 0,
            r.registry_state() == registry,
            r.generation() == 0,
    {
        QueryEngine { registry, view_stack: ObservableViewStack::new(), query_generation: 0 }
    }

    /// The plugin registry.
    pub fn registry(&self) -> (r: &PluginRegistry)
        ensures
            *r == self.registry_state(),
    {
        &self.registry
    }

    /// The plugin registry, for registration.
    pub fn registry_mut(&mut self) -> (r: &mut PluginRegistry)
        ensures
            *r == old(self).registry_state(),
            final(self).registry_state() == *final(r),
            final(self).stack() == old(self).stack(),
            final(self).published() == old(self).published(),
            final(self).version() == old(self).version(),
            final(self).generation() == old(self).generation(),
    {
        &mut self.registry
    }

    /// The last published view states.
    pub fn published_states(&self) -> (r: &Vec<ViewState>)
        ensures
            state_views(r@) == self.published(),
    {
        self.view_stack.published_states()
    }

    /// The number of the last publication.
    pub fn published_version(&self) -> (r: u64)
        ensures
            r == self.version(),
    {
        self.view_stack.published_version()
    }

    /// The query generation.
    pub fn query_generation(&self) -> (r: u64)
        ensures
            r == self.generation(),
    {
        self.query_generation
    }

    /// Initialize with the root view: the custom root view if one was set
    /// (it is taken from the registry), else an empty default view with the
    /// placeholder "Search..." and the source key "empty:source".
    pub fn initialize(&mut self)
        ensures
            final(self).stack().len() == 1,
            final(self).stack()[0].registry_keys@.len() == 0,
            old(self).registry_state().root() matches Some(v) ==> final(self).stack()[0].view == v,
            old(self).registry_state().root() is None ==> {
                let v = final(self).stack()[0].view;
                &&& v.id is None
                &&& v.title is None
                &&& v.placeholder matches Some(p) && p@ == "Search..."@
                &&& v.source_fn.key@ == "empty:source"@
                &&& v.get_actions_fn is None
                &&& v.selection == SelectionMode::Single
                &&& v.on_select_fn is None
                &&& v.on_submit_fn is None
                &&& json_is_null(v.view_data)
            },
            final(self).registry_state().root() is None,
            final(self).registry_state().wf() == old(self).registry_state().wf(),
            final(self).published() == states_of(final(self).stack()),
            final(self).version() == next_version(next_version(old(self).version())),
            final(self).generation() == old(self).generation(),
    {
        let _ = self.view_stack.clear();
        let root_view = match self.registry.take_root_view() {
            Some(v) => v,
            None => View {
                id: None,
                title: None,
                placeholder: Some(owned("Search...")),
                source_fn: LuaFunctionRef::new(owned("empty:source")),
                get_actions_fn: None,
                selection: SelectionMode::Single,
                on_select_fn: None,
                on_submit_fn: None,
                view_data: json_null(),
            },
        };
        let ghost cleared = self.view_stack.stack();
        self.view_stack.push(ViewInstance::new(root_view));
        proof {
            assert(self.view_stack.stack() =~= seq![ViewInstance { view: root_view, registry_keys: self.view_stack.stack()[0].registry_keys }]);
        }
    }

    /// The state of the current view.
    pub fn get_current_view_state(&self) -> (r: Option<ViewState>)
        ensures
            self.stack().len() == 0 ==> r is None,
            self.stack().len() > 0 ==> (r matches Some(s) && s@ == state_of(self.stack().last().view)),
    {
        self.view_stack.get_current_state()
    }

    /// The states of the whole view stack, root first.
    pub fn get_view_stack(&self) -> (r: Vec<ViewState>)
        ensures
            state_views(r@) == states_of(self.stack()),
    {
        self.view_stack.get_states()
    }

    /// Push a new view onto the stack; publishes.
    pub fn push_view(&mut self, view: View)
        ensures
            final(self).stack() == old(self).stack().push(ViewInstance { view, registry_keys: final(self).stack().last().registry_keys }),
            final(self).stack().last().registry_keys@.len() == 0,
            final(self).published() == states_of(final(self).stack()),
            final(self).version() == next_version(old(self).version()),
            final(self).registry_state() == old(self).registry_state(),
            final(self).generation() == old(self).generation(),
    {
        self.view_stack.push(ViewInstance::new(view));
    }

    /// Replace the current view (push it on an empty stack); publishes.
    pub fn replace_view(&mut self, view: View)
        ensures
            final(self).stack().len() > 0,
            final(self).stack().drop_last() == (if old(self).stack().len() > 0 {
                old(self).stack().drop_last()
            } else {
                old(self).stack()
            }),
            final(self).stack().last().view == view,
            final(self).stack().last().registry_keys@.len() == 0,
            final(self).published() == states_of(final(self).stack()),
            final(self).version() == next_version(old(self).version()),
            final(self).registry_state() == old(self).registry_state(),
            final(self).generation() == old(self).generation(),
    {
        let _ = self.view_stack.replace_top(ViewInstance::new(view));
        proof {
            if old(self).stack().len() == 0 {
                assert(self.view_stack.stack().drop_last() =~= old(self).stack());
            }
        }
    }

    /// Pop the current view. Returns false (and changes nothing) at the root.
    pub fn pop_view(&mut self) -> (r: bool)
        ensures
            r == (old(self).stack().len() > 1),
            r ==> final(self).stack() == old(self).stack().drop_last()
                && final(self).published() == states_of(final(self).stack())
                && final(self).version() == next_version(old(self).version()),
            !r ==> final(self).stack() == old(self).stack()
                && final(self).published() == old(self).published()
                && final(self).version() == old(self).version(),
            final(self).registry_state() == old(self).registry_state(),
            final(self).generation() == old(self).generation(),
    {
        self.view_stack.pop_if_not_root()
    }

    /// Start a search: advance the query generation and say what to run, the
    /// current view's source behind its `search` hook chain (the view's hooks,
    /// then the global ones). Fails when there is no current view.
    pub fn begin_search(&mut self, query: &str) -> (r: Result<SearchCall, String>)
        ensures
            final(self).generation() == next_version(old(self).generation()),
            final(self).stack() == old(self).stack(),
            final(self).published() == old(self).published(),
            final(self).version() == old(self).version(),
            final(self).registry_state() == old(self).registry_state(),
            old(self).stack().len() == 0 ==> (r matches Err(e) && e@ == "No current view"@),
            old(self).stack().len() > 0 ==> (r matches Ok(call) && {
                let top = old(self).stack().last().view;
                &&& call.source_key@ == top.source_fn.key@
                &&& call.query@ == query@
                &&& call.view_data == top.view_data
                &&& call.hook_keys@.map_values(|k: String| k@) == chain_keys(
                    old(self).registry_state().hooks_state().hooks(),
                    "search"@,
                    match top.id {
                        Some(id) => Some(id@),
                        None => None,
                    },
                )
            }),
    {
        self.query_generation = if self.query_generation == u64::MAX {
            0
        } else {
            self.query_generation + 1
        };
        match self.view_stack.top() {
            None => Err(owned("No current view")),
            Some(top) => {
                let view_id: Option<&str> = match &top.view.id {
                    Some(id) => Some(id.as_str()),
                    None => None,
                };
                let chain = self.registry.hooks().get_chain("search", view_id);
                let mut hook_keys: Vec<String> = Vec::new();
                let mut i: usize = 0;
                while i < chain.len()
                    invariant
                        i <= chain@.len(),
                        hook_keys@.map_values(|k: String| k@) == chain@.take(i as int).map_values(
                            |f: LuaFunctionRef| f.key@,
                        ),
                    decreases chain@.len() - i,
                {
                    let ghost before = hook_keys@;
                    hook_keys.push(chain[i].key.clone());
                    proof {
                        assert(chain@.take(i as int + 1) =~= chain@.take(i as int).push(chain@[i as int]));
                        assert(hook_keys@.map_values(|k: String| k@) =~= before.map_values(|k: String| k@).push(chain@[i as int].key@));
                        assert(chain@.take(i as int + 1).map_values(|f: LuaFunctionRef| f.key@) =~= chain@.take(i as int).map_values(|f: LuaFunctionRef| f.key@).push(chain@[i as int].key@));
                    }
                    i = i + 1;
                }
                proof {
                    assert(chain@.take(chain@.len() as int) =~= chain@);
                }
                Ok(SearchCall {
                    source_key: top.view.source_fn.key.clone(),
                    hook_keys,
                    query: owned(query),
                    view_data: clone_json(&top.view.view_data),
                })
            },
        }
    }

    /// The current view's data, or JSON null when there is no view.
    pub fn current_view_data(&self) -> (r: serde_json::Value)
        ensures
            self.stack().len() > 0 ==> r == self.stack().last().view.view_data,
            self.stack().len() == 0 ==> json_is_null(r),
    {
        match self.view_stack.top() {
            Some(top) => clone_json(&top.view.view_data),
            None => json_null(),
        }
    }

    /// What to call for the actions of the focused item (the first of
    /// `items`): nothing when there are no items or the view has no
    /// `get_actions` function; an error when there is no current view.
    /// The call carries the focused item.
    pub fn actions_call(&self, items: &[Item]) -> (r: Result<Option<ActionsCall>, String>)
        ensures
            items@.len() == 0 ==> r == Ok::<Option<ActionsCall>, String>(None),
            items@.len() > 0 && self.stack().len() == 0 ==> (r matches Err(e) && e@ == "No current view"@),
            items@.len() > 0 && self.stack().len() > 0 ==> {
                let top = self.stack().last().view;
                match top.get_actions_fn {
                    None => r == Ok::<Option<ActionsCall>, String>(None),
                    Some(f) => r matches Ok(Some(call)) && call.get_actions_key@ == f.key@
                        && call.view_data == top.view_data
                        && call.item@ == items@[0]@
                        && call.view_id@ == match top.id {
                            Some(id) => id@,
                            None => Seq::<char>::empty(),
                        },
                }
            },
    {
        if items.len() == 0 {
            return Ok(None);
        }
        match self.view_stack.top() {
            None => Err(owned("No current view")),
            Some(top) => match &top.view.get_actions_fn {
                None => Ok(None),
                Some(f) => {
                    let view_id = match &top.view.id {
                        Some(id) => id.clone(),
                        None => String::new(),
                    };
                    Ok(Some(ActionsCall {
                        get_actions_key: f.key.clone(),
                        view_data: clone_json(&top.view.view_data),
                        view_id,
                        item: items[0].clone(),
                    }))
                },
            },
        }
    }

    /// The current view's `on_select` hook with the view data, if it has one.
    pub fn select_call(&self) -> (r: Option<HookCall>)
        ensures
            self.stack().len() == 0 ==> r is None,
            self.stack().len() > 0 ==> match self.stack().last().view.on_select_fn {
                None => r is None,
                Some(f) => r matches Some(call) && call.key@ == f.key@
                    && call.view_data == self.stack().last().view.view_data,
            },
    {
        match self.view_stack.top() {
            None => None,
            Some(top) => match &top.view.on_select_fn {
                None => None,
                Some(f) => Some(HookCall { key: f.key.clone(), view_data: clone_json(&top.view.view_data) }),
            },
        }
    }

    /// The current view's `on_submit` hook with the view data, if it has one.
    pub fn submit_call(&self) -> (r: Option<HookCall>)
        ensures
            self.stack().len() == 0 ==> r is None,
            self.stack().len() > 0 ==> match self.stack().last().view.on_submit_fn {
                None => r is None,
                Some(f) => r matches Some(call) && call.key@ == f.key@
                    && call.view_data == self.stack().last().view.view_data,
            },
    {
        match self.view_stack.top() {
            None => None,
            Some(top) => match &top.view.on_submit_fn {
                None => None,
                Some(f) => Some(HookCall { key: f.key.clone(), view_data: clone_json(&top.view.view_data) }),
            },
        }
    }

    /// Apply collected effects: the single point where Lua callbacks change
    /// the engine. View stack changes publish; views that leave the stack
    /// hand their registry keys to `cleanup_keys`; selection effects are
    /// ignored.
    pub fn apply_effects(&mut self, effects: Vec<Effect>) -> (r: ApplyResult)
        ensures
            ({
                let o = apply_all(old(self).stack(), effects@);
                &&& final(self).stack() == o.stack
                &&& r.groups == o.groups
                &&& r.dismissed == o.dismissed
                &&& r.popped == o.popped
                &&& r.progress == o.progress
                &&& r.completed == o.completed
                &&& r.error == o.error
                &&& r.notification == o.notification
                &&& r.loading == o.loading
                &&& r.cleanup_keys@ == o.cleanup
                &&& r.pushed == (o.stack.len() > old(self).stack().len())
                &&& r.dismissed == effects@.contains(Effect::Dismiss)
                &&& r.popped == effects@.contains(Effect::Pop)
                &&& last_set(effects@, |e: Effect| groups_set_by(e), r.groups)
                &&& last_set(effects@, |e: Effect| error_set_by(e), r.error)
                &&& last_set(effects@, |e: Effect| completion_set_by(e), r.completed)
                &&& last_set(effects@, |e: Effect| progress_set_by(e), r.progress)
                &&& final(self).version() == advance(old(self).version(), o.publications)
                &&& o.publications > 0 ==> final(self).published() == states_of(final(self).stack())
                &&& o.publications == 0 ==> final(self).published() == old(self).published()
            }),
            final(self).registry_state() == old(self).registry_state(),
            final(self).generation() == old(self).generation(),
    {
        let mut result = ApplyResult::default();
        let depth_before = self.view_stack.len();
        let mut rest = effects;
        let ghost all = rest@;
        let ghost stack0 = self.view_stack.stack();
        let ghost version0 = self.view_stack.version();
        let ghost published0 = self.view_stack.published();
        let ghost mut done: int = 0;
        while rest.len() > 0
            invariant
                0 <= done <= all.len(),
                rest@ == all.skip(done),
                ({
                    let o = apply_all(stack0, all.take(done));
                    &&& self.view_stack.stack() == o.stack
                    &&& result.groups == o.groups
                    &&& result.dismissed == o.dismissed
                    &&& result.popped == o.popped
                    &&& result.progress == o.progress
                    &&& result.completed == o.completed
                    &&& result.error == o.error
                    &&& result.notification == o.notification
                    &&& result.loading == o.loading
                    &&& result.cleanup_keys@ == o.cleanup
                    &&& self.view_stack.version() == advance(version0, o.publications)
                    &&& o.publications > 0 ==> self.view_stack.published() == states_of(self.view_stack.stack())
                    &&& o.publications == 0 ==> self.view_stack.published() == published0
                }),
                self.registry == old(self).registry,
                self.query_generation == old(self).query_generation,
            decreases rest@.len(),
        {
            let effect = rest.remove(0);
            proof {
                assert(all.skip(done).drop_first() =~= all.skip(done + 1));
                assert(all.take(done + 1).drop_last() =~= all.take(done));
                assert(all.take(done + 1).last() == effect);
            }
            let ghost prev = apply_all(stack0, all.take(done));
            match effect {
                Effect::SetGroups(groups) => {
                    result.groups = Some(groups);
                },
                Effect::PushView(spec) => {
                    let instance = instance_from_spec(spec);
                    self.view_stack.push(instance);
                },
                Effect::ReplaceView(spec) => {
                    let instance = instance_from_spec(spec);
                    match self.view_stack.replace_top(instance) {
                        Some(mut old_view) => {
                            result.cleanup_keys.append(&mut old_view.registry_keys);
                        },
                        None => {},
                    }
                },
                Effect::Pop => {
                    if self.view_stack.len() > 1 {
                        match self.view_stack.pop() {
                            Some(mut old_view) => {
                                result.cleanup_keys.append(&mut old_view.registry_keys);
                            },
                            None => {},
                        }
                    }
                    result.popped = true;
                },
                Effect::Dismiss => {
                    result.dismissed = true;
                },
                Effect::Progress(message) => {
                    result.progress = Some(message);
                },
                Effect::Complete { message } => {
                    result.completed = Some(message);
                },
                Effect::Fail { error } => {
                    result.error = Some(error);
                },
                Effect::Notify(message) => {
                    result.notification = Some(message);
                },
                Effect::SetLoading(loading) => {
                    result.loading = Some(loading);
                },
                Effect::Select(_) => {},
                Effect::Deselect(_) => {},
                Effect::ClearSelection => {},
            }
            proof {
                done = done + 1;
                assert(rest@ =~= all.skip(done));
            }
        }
        proof {
            assert(all.take(done) =~= all);
            law_effects_reported(stack0, all);
        }
        result.pushed = self.view_stack.len() > depth_before;
        result
    }

    /// The action result for what applying effects did.
    pub fn apply_result_to_action_result(&self, result: ApplyResult) -> (r: ActionResult)
        ensures
            action_result_for(result, r),
            (!result.dismissed && !result.popped && result.error is None && result.completed is None
                && result.progress is None && result.groups is Some) ==> (r == ActionResult::UpdateResults { groups: result.groups->0 }),
            (r is Continue) <==> (!result.dismissed && !result.popped && result.error is None && result.completed is None
                && result.progress is None && result.groups is None && !result.pushed),
    {
        if result.dismissed {
            return ActionResult::Dismiss;
        }
        if result.popped {
            return ActionResult::Pop;
        }
        if let Some(error) = result.error {
            return ActionResult::Fail { error };
        }
        if let Some(message) = result.completed {
            let actions: Vec<FollowUpAction> = Vec::new();
            return ActionResult::Complete { message, actions };
        }
        if let Some(message) = result.progress {
            return ActionResult::Progress { message };
        }
        if let Some(groups) = result.groups {
            return ActionResult::UpdateResults { groups };
        }
        if result.pushed {
            return ActionResult::PushView { title: None, query: None };
        }
        ActionResult::Continue
    }
}

/// A view pushed by an effect and popped by the next one leaves the stack as
/// it was (when the stack has a root), and the pushed view's registry keys
/// are handed to the cleanup list.
pub proof fn law_push_then_pop_effects(stack: Seq<ViewInstance>, spec: ViewSpec)
    requires
        stack.len() >= 1,
    ensures
        ({
            let o = apply_all(stack, seq![Effect::PushView(spec), Effect::Pop]);
            &&& o.stack == stack
            &&& o.cleanup == spec.registry_keys@
            &&& o.popped
            &&& o.publications == 2
        }),
{
    let one = seq![Effect::PushView(spec)];
    let effects = seq![Effect::PushView(spec), Effect::Pop];
    assert(effects.drop_last() =~= one);
    assert(effects.last() == Effect::Pop);
    assert(one.drop_last() =~= Seq::<Effect>::empty());
    assert(one.last() == Effect::PushView(spec));
    let zero = apply_all(stack, Seq::<Effect>::empty());
    assert(zero == initial_outcome(stack));
    let first = apply_all(stack, one);
    assert(first == apply_step(zero, Effect::PushView(spec)));
    assert(first.stack == stack.push(spec_instance(spec)));
    assert(first.stack.drop_last() =~= stack);
    assert(apply_all(stack, effects) == apply_step(first, Effect::Pop));
    assert(Seq::<String>::empty() + spec.registry_keys@ =~= spec.registry_keys@);
}

/// Selection effects change neither the stack nor the result: the UI owns
/// the selection.
pub proof fn law_selection_effects_ignored(stack: Seq<ViewInstance>, e: Effect)
    requires
        e is Select || e is Deselect || e is ClearSelection,
    ensures
        apply_all(stack, seq![e]) == initial_outcome(stack),
{
    assert(seq![e].drop_last() =~= Seq::<Effect>::empty());
    assert(seq![e].last() == e);
    assert(apply_all(stack, Seq::<Effect>::empty()) == initial_outcome(stack));
    assert(apply_all(stack, seq![e]) == apply_step(apply_all(stack, Seq::<Effect>::empty()), e));
}

/// Replacing the current view keeps the depth of a non-empty stack, puts the
/// new view on top and hands the old view's registry keys to the cleanup list.
pub proof fn law_replace_keeps_depth(stack: Seq<ViewInstance>, spec: ViewSpec)
    requires
        stack.len() >= 1,
    ensures
        ({
            let o = apply_all(stack, seq![Effect::ReplaceView(spec)]);
            &&& o.stack.len() == stack.len()
            &&& o.stack.last() == spec_instance(spec)
            &&& o.stack.drop_last() == stack.drop_last()
            &&& o.cleanup == stack.last().registry_keys@
        }),
{
    let one = seq![Effect::ReplaceView(spec)];
    assert(one.drop_last() =~= Seq::<Effect>::empty());
    assert(one.last() == Effect::ReplaceView(spec));
    assert(apply_all(stack, Seq::<Effect>::empty()) == initial_outcome(stack));
    assert(apply_all(stack, one) == apply_step(initial_outcome(stack), Effect::ReplaceView(spec)));
    assert(stack.drop_last().push(spec_instance(spec)).drop_last() =~= stack.drop_last());
    assert(Seq::<String>::empty() + stack.last().registry_keys@ =~= stack.last().registry_keys@);
}

} // verus!
