//! A reload, from the new configuration to the flows that are spawned.
use vstd::prelude::*;

use crate::config::{flows_by_name, the_last_flow_of_a_name_counts, Config, FlowConfig};
use crate::names::{ascending, before, NameMap, NameSet};
use crate::supervisor::action::{
    action_flows, compute_reload_actions, flow_at, wanted, ActionKind, ReloadAction,
};
use crate::supervisor::diff::{flow_config_unchanged, flow_shape};
use crate::supervisor::types::{
    error_recorded, errors_are_recorded_for_one_flow, exit_seen, record_last_error, FlowExit,
    FlowLastError, FlowLastErrorView, FlowRegistry, RELOAD_SYNTHETIC_KEY,
};
use crate::text::{join, joined, views};
use crate::time::Timestamp;

verus! {

/// What becomes of a running flow when actions are applied.
pub ghost enum Verdict {
    /// No action that bears on running tasks names the flow.
    Unnamed,
    /// The flow runs on.
    Kept,
    /// The flow's tasks are cancelled.
    Cancelled,
}

/// Whether an action of this kind bears on the tasks of a running flow.
pub open spec fn bears_on_tasks(k: ActionKind) -> bool {
    match k {
        ActionKind::Spawn => false,
        ActionKind::Remove { live_handle } => live_handle,
        _ => true,
    }
}

/// What becomes of `flow`: the first action that names it and bears on running tasks
/// decides.
pub open spec fn verdict(actions: Seq<ReloadAction>, flow: Seq<char>) -> Verdict
    decreases actions.len(),
{
    if actions.len() == 0 {
        Verdict::Unnamed
    } else {
        let earlier = verdict(actions.drop_last(), flow);
        let last = actions.last();
        if earlier is Unnamed && last.flow() == flow && bears_on_tasks(last.kind()) {
            if last.kind() is Keep {
                Verdict::Kept
            } else {
                Verdict::Cancelled
            }
        } else {
            earlier
        }
    }
}

/// The flows that the actions of `s` name for which `p` holds, in their order.
pub open spec fn flows_where(s: Seq<ReloadAction>, p: spec_fn(ActionKind) -> bool) -> Seq<
    Seq<char>,
>
    decreases s.len(),
{
    if s.len() == 0 {
        Seq::empty()
    } else if p(s.last().kind()) {
        flows_where(s.drop_last(), p).push(s.last().flow())
    } else {
        flows_where(s.drop_last(), p)
    }
}

/// Whether an action of this kind lets a flow run on.
pub open spec fn keeps() -> spec_fn(ActionKind) -> bool {
    |k: ActionKind| k is Keep
}

/// Whether an action of this kind removes a flow.
pub open spec fn removes() -> spec_fn(ActionKind) -> bool {
    |k: ActionKind| k is Remove
}

/// Whether an action of this kind drops a flow's persisted state because its source moved.
pub open spec fn resets() -> spec_fn(ActionKind) -> bool {
    |k: ActionKind|
        (k matches ActionKind::Disable { url_changed } && url_changed) || (
        k matches ActionKind::Restart { url_changed } && url_changed)
}

/// Whether an action of this kind ends the flow's tasks, and any respawn of them.
pub open spec fn ends() -> spec_fn(ActionKind) -> bool {
    |k: ActionKind| k is Remove || k is Disable || k is Restart
}

/// The effects of a reload that are left to carry out.
pub struct ReloadPlan<H> {
    /// The flows that run on.
    pub to_keep: NameSet,
    /// The flows whose persisted state is dropped because their source moved.
    pub url_resets: Vec<String>,
    /// The flows that are gone.
    pub removed_flows: Vec<String>,
    /// The handles of the flows whose tasks are to be cancelled.
    pub cancelled: NameMap<H>,
}

/// The names in `s` for which `p` holds of their action, and one more action.
proof fn flows_where_push(s: Seq<ReloadAction>, a: ReloadAction, p: spec_fn(ActionKind) -> bool)
    ensures
        flows_where(s.push(a), p) == if p(a.kind()) {
            flows_where(s, p).push(a.flow())
        } else {
            flows_where(s, p)
        },
{
    assert(s.push(a).drop_last() =~= s);
}

/// The set of what is in a sequence and one more.
proof fn to_set_push(s: Seq<Seq<char>>, x: Seq<char>)
    ensures
        s.push(x).to_set() == s.to_set().insert(x),
{
    assert forall|k: Seq<char>| #[trigger]
        s.push(x).to_set().contains(k) <==> s.to_set().insert(x).contains(k) by {
        if s.to_set().contains(k) {
            let j = s.index_of(k);
            assert(s.push(x)[j] == k);
        }
        if k == x {
            assert(s.push(x)[s.len() as int] == k);
        }
        if s.push(x).to_set().contains(k) && k != x {
            let j = s.push(x).index_of(k);
            assert(s[j] == k);
        }
    }
    assert(s.push(x).to_set() =~= s.to_set().insert(x));
}

/// Applies `actions` to the registry: flows that are kept keep their handles, all other
/// handles leave, and no respawn is left under way for a flow whose tasks end.
pub fn apply_actions_to_registry<H>(
    actions: &Vec<ReloadAction>,
    registry: &mut FlowRegistry<H>,
) -> (r: ReloadPlan<H>)
    ensures
        r.to_keep@ == flows_where(actions@, keeps()).to_set(),
        views(r.removed_flows@) == flows_where(actions@, removes()),
        views(r.url_resets@) == flows_where(actions@, resets()),
        final(registry).handles@ == old(registry).handles@.restrict(
            Set::new(|f: Seq<char>| verdict(actions@, f) is Kept),
        ),
        r.cancelled@ == old(registry).handles@.restrict(
            Set::new(|f: Seq<char>| !(verdict(actions@, f) is Kept)),
        ),
        final(registry).respawning_flows@ == old(registry).respawning_flows@.difference(
            flows_where(actions@, ends()).to_set(),
        ),
        final(registry).pending_exits@ == old(registry).pending_exits@,
{
    let ghost full = registry.handles@;
    let ghost respawning = registry.respawning_flows@;
    let mut to_keep: NameSet = NameSet::new();
    let mut url_resets: Vec<String> = Vec::new();
    let mut removed_flows: Vec<String> = Vec::new();
    let mut cancelled: NameMap<H> = NameMap::new();
    let mut drained: NameMap<H> = registry.handles.take();
    let mut i: usize = 0;
    proof {
        let none = actions@.take(0);
        assert(drained@ =~= full.restrict(
            Set::new(|f: Seq<char>| verdict(none, f) is Unnamed),
        ));
        assert(registry.handles@ =~= full.restrict(
            Set::new(|f: Seq<char>| verdict(none, f) is Kept),
        ));
        assert(cancelled@ =~= full.restrict(
            Set::new(|f: Seq<char>| verdict(none, f) is Cancelled),
        ));
        assert(to_keep@ =~= flows_where(none, keeps()).to_set());
        assert(registry.respawning_flows@ =~= respawning.difference(
            flows_where(none, ends()).to_set(),
        ));
        assert(views(removed_flows@) =~= flows_where(none, removes()));
        assert(views(url_resets@) =~= flows_where(none, resets()));
    }
    while i < actions.len()
        invariant
            i <= actions@.len(),
            drained@ == full.restrict(
                Set::new(|f: Seq<char>| verdict(actions@.take(i as int), f) is Unnamed),
            ),
            registry.handles@ == full.restrict(
                Set::new(|f: Seq<char>| verdict(actions@.take(i as int), f) is Kept),
            ),
            cancelled@ == full.restrict(
                Set::new(|f: Seq<char>| verdict(actions@.take(i as int), f) is Cancelled),
            ),
            to_keep@ == flows_where(actions@.take(i as int), keeps()).to_set(),
            views(removed_flows@) == flows_where(actions@.take(i as int), removes()),
            views(url_resets@) == flows_where(actions@.take(i as int), resets()),
            registry.respawning_flows@ == respawning.difference(
                flows_where(actions@.take(i as int), ends()).to_set(),
            ),
            registry.pending_exits@ == old(registry).pending_exits@,
        decreases actions@.len() - i,
    {
        let ghost (d0, h0, c0) = (drained@, registry.handles@, cancelled@);
        let ghost removed0 = removed_flows@;
        let ghost resets0 = url_resets@;
        let name: &str = actions[i].name();
        match &actions[i] {
            ReloadAction::Keep { .. } => {
                to_keep.insert(name.to_string());
                match drained.remove(name) {
                    Some(handle) => {
                        registry.handles.insert(name.to_string(), handle);
                    },
                    None => {},
                }
            },
            ReloadAction::Remove { live_handle, .. } => {
                if *live_handle {
                    match drained.remove(name) {
                        Some(handle) => {
                            cancelled.insert(name.to_string(), handle);
                        },
                        None => {},
                    }
                }
                removed_flows.push(name.to_string());
                registry.respawning_flows.remove(name);
            },
            ReloadAction::Disable { url_changed, .. } => {
                match drained.remove(name) {
                    Some(handle) => {
                        cancelled.insert(name.to_string(), handle);
                    },
                    None => {},
                }
                if *url_changed {
                    url_resets.push(name.to_string());
                }
                registry.respawning_flows.remove(name);
            },
            ReloadAction::Restart { url_changed, .. } => {
                match drained.remove(name) {
                    Some(handle) => {
                        cancelled.insert(name.to_string(), handle);
                    },
                    None => {},
                }
                if *url_changed {
                    url_resets.push(name.to_string());
                }
                registry.respawning_flows.remove(name);
            },
            ReloadAction::Spawn { .. } => {},
        }
        proof {
            let a = actions@[i as int];
            let (shorter, longer) = (actions@.take(i as int), actions@.take(i + 1));
            assert(longer =~= shorter.push(a));
            assert(longer.drop_last() =~= shorter);
            flows_where_push(shorter, a, keeps());
            flows_where_push(shorter, a, removes());
            flows_where_push(shorter, a, resets());
            flows_where_push(shorter, a, ends());
            to_set_push(flows_where(shorter, keeps()), a.flow());
            to_set_push(flows_where(shorter, ends()), a.flow());
            assert(drained@ =~= full.restrict(
                Set::new(|f: Seq<char>| verdict(longer, f) is Unnamed),
            ));
            assert(registry.handles@ =~= full.restrict(
                Set::new(|f: Seq<char>| verdict(longer, f) is Kept),
            ));
            assert(cancelled@ =~= full.restrict(
                Set::new(|f: Seq<char>| verdict(longer, f) is Cancelled),
            ));
            assert(registry.respawning_flows@ =~= respawning.difference(
                flows_where(longer, ends()).to_set(),
            ));
            assert(views(removed_flows@) =~= flows_where(longer, removes()));
            assert(views(url_resets@) =~= flows_where(longer, resets()));
        }
        i += 1;
    }
    cancelled.absorb(drained);
    proof {
        assert(actions@.take(actions@.len() as int) =~= actions@);
        assert(cancelled@ =~= full.restrict(
            Set::new(|f: Seq<char>| !(verdict(actions@, f) is Kept)),
        ));
    }
    ReloadPlan { to_keep, url_resets, removed_flows, cancelled }
}

/// Whether some action of `s` names `flow` and is of a kind for which `p` holds.
pub open spec fn some_action(
    s: Seq<ReloadAction>,
    flow: Seq<char>,
    p: spec_fn(ActionKind) -> bool,
) -> bool {
    exists|i: int| 0 <= i < s.len() && (#[trigger] s[i]).flow() == flow && p(s[i].kind())
}

/// Of actions in ascending order, those of a kind name their flows in ascending order.
proof fn flows_where_of_ascending(s: Seq<ReloadAction>, p: spec_fn(ActionKind) -> bool)
    requires
        ascending(action_flows(s)),
    ensures
        ascending(flows_where(s, p)),
        flows_where(s, p).to_set() == Set::new(|f: Seq<char>| some_action(s, f, p)),
    decreases s.len(),
{
    let found = flows_where(s, p);
    if s.len() > 0 {
        let (head, last) = (s.drop_last(), s.last());
        assert forall|a: int, b: int| 0 <= a < b < head.len() implies crate::names::before(
            #[trigger] action_flows(head)[a],
            #[trigger] action_flows(head)[b],
        ) by {
            assert(action_flows(head)[a] == action_flows(s)[a]);
            assert(action_flows(head)[b] == action_flows(s)[b]);
        }
        flows_where_of_ascending(head, p);
        let earlier = flows_where(head, p);
        if p(last.kind()) {
            to_set_push(earlier, last.flow());
            assert forall|a: int, b: int| 0 <= a < b < found.len() implies crate::names::before(
                #[trigger] found[a],
                #[trigger] found[b],
            ) by {
                if b == earlier.len() {
                    assert(earlier[a] == found[a]);
                    assert(earlier.to_set().contains(found[a]));
                    let i = choose|i: int|
                        0 <= i < head.len() && (#[trigger] head[i]).flow() == found[a] && p(
                            head[i].kind(),
                        );
                    assert(action_flows(s)[i] == found[a]);
                    assert(action_flows(s)[s.len() - 1] == last.flow());
                } else {
                    assert(earlier[a] == found[a]);
                    assert(earlier[b] == found[b]);
                }
            }
        }
        assert forall|f: Seq<char>| #[trigger]
            found.to_set().contains(f) <==> some_action(s, f, p) by {
            if some_action(head, f, p) {
                let i = choose|i: int|
                    0 <= i < head.len() && (#[trigger] head[i]).flow() == f && p(head[i].kind());
                assert(s[i] == head[i]);
            }
            if some_action(s, f, p) {
                let i = choose|i: int|
                    0 <= i < s.len() && (#[trigger] s[i]).flow() == f && p(s[i].kind());
                if i < head.len() {
                    assert(head[i] == s[i]);
                }
            }
            if p(last.kind()) && f == last.flow() {
                assert(s[s.len() - 1] == last);
            }
        }
    }
    assert(found.to_set() =~= Set::new(|f: Seq<char>| some_action(s, f, p)));
}

/// Of actions in ascending order, the one that names a flow decides on its tasks.
proof fn verdict_of_ascending(s: Seq<ReloadAction>, flow: Seq<char>)
    requires
        ascending(action_flows(s)),
    ensures
        verdict(s, flow) is Kept <==> some_action(s, flow, keeps()),
    decreases s.len(),
{
    if s.len() > 0 {
        let (head, last) = (s.drop_last(), s.last());
        assert forall|a: int, b: int| 0 <= a < b < head.len() implies crate::names::before(
            #[trigger] action_flows(head)[a],
            #[trigger] action_flows(head)[b],
        ) by {
            assert(action_flows(head)[a] == action_flows(s)[a]);
            assert(action_flows(head)[b] == action_flows(s)[b]);
        }
        verdict_of_ascending(head, flow);
        if last.flow() == flow {
            assert forall|i: int| 0 <= i < head.len() implies (#[trigger] head[i]).flow()
                != flow by {
                crate::names::ascending_has_no_duplicates(action_flows(s));
                assert(action_flows(s)[i] == head[i].flow());
                assert(action_flows(s)[s.len() - 1] == flow);
            }
            verdict_unnamed(head, flow);
            assert(s[s.len() - 1] == last);
        }
        if some_action(head, flow, keeps()) {
            let i = choose|i: int|
                0 <= i < head.len() && (#[trigger] head[i]).flow() == flow && keeps()(
                    head[i].kind(),
                );
            assert(s[i] == head[i]);
        }
        if some_action(s, flow, keeps()) {
            let i = choose|i: int|
                0 <= i < s.len() && (#[trigger] s[i]).flow() == flow && keeps()(s[i].kind());
            if i < head.len() {
                assert(head[i] == s[i]);
            }
        }
    }
}

/// A flow that no action names is left alone.
proof fn verdict_unnamed(s: Seq<ReloadAction>, flow: Seq<char>)
    requires
        forall|i: int| 0 <= i < s.len() ==> (#[trigger] s[i]).flow() != flow,
    ensures
        verdict(s, flow) is Unnamed,
    decreases s.len(),
{
    if s.len() > 0 {
        assert forall|i: int| 0 <= i < s.drop_last().len() implies (#[trigger] s.drop_last()[i]).flow()
            != flow by {
            assert(s[i] == s.drop_last()[i]);
        }
        verdict_unnamed(s.drop_last(), flow);
        assert(s[s.len() - 1].flow() != flow);
    }
}

/// The flow named `name`.
pub open spec fn named(flows: Seq<FlowConfig>, name: Seq<char>) -> Option<FlowConfig> {
    if flows_by_name(flows).dom().contains(name) {
        Some(flows_by_name(flows)[name])
    } else {
        None
    }
}

/// What a reload from `old` to `new` does to the flow `name`, where the flows in `live` run.
pub open spec fn wanted_for(
    old: Seq<FlowConfig>,
    new: Seq<FlowConfig>,
    live: Set<Seq<char>>,
    name: Seq<char>,
) -> Option<ActionKind> {
    wanted(named(old, name), named(new, name), live.contains(name))
}

/// The flows to which a reload does something of a kind for which `p` holds.
pub open spec fn wanted_where(
    old: Seq<FlowConfig>,
    new: Seq<FlowConfig>,
    live: Set<Seq<char>>,
    p: spec_fn(ActionKind) -> bool,
) -> Set<Seq<char>> {
    Set::new(
        |f: Seq<char>| wanted_for(old, new, live, f) is Some && p(wanted_for(old, new, live, f)->0),
    )
}

/// What a reload from `old_cfg` to `new_cfg` does, flow by flow.
fn compute_actions<H>(old_cfg: &Config, new_cfg: &Config, registry: &FlowRegistry<H>) -> (r: Vec<
    ReloadAction,
>)
    ensures
        ascending(action_flows(r@)),
        forall|f: Seq<char>, p: spec_fn(ActionKind) -> bool| #[trigger]
            some_action(r@, f, p) <==> wanted_where(
                old_cfg.flow@,
                new_cfg.flow@,
                registry.handles@.dom(),
                p,
            ).contains(f),
{
    let old_by_name: NameMap<&FlowConfig> = old_cfg.by_name();
    let new_by_name: NameMap<&FlowConfig> = new_cfg.by_name();
    let mut live: NameSet = NameSet::new();
    let names: Vec<String> = registry.handles.keys();
    crate::supervisor::action::add_names(&mut live, &names);
    let actions: Vec<ReloadAction> = compute_reload_actions(&old_by_name, &new_by_name, &live);
    proof {
        let handles = registry.handles@.dom();
        assert(live@ =~= handles);
        assert forall|name: Seq<char>| #![trigger named(old_cfg.flow@, name)]
            flow_at(old_by_name@, name) == named(old_cfg.flow@, name) && flow_at(
                new_by_name@,
                name,
            ) == named(new_cfg.flow@, name) by {}
        assert forall|f: Seq<char>, p: spec_fn(ActionKind) -> bool| #[trigger]
            some_action(actions@, f, p) <==> wanted_where(
                old_cfg.flow@,
                new_cfg.flow@,
                handles,
                p,
            ).contains(f) by {
            let kind = wanted_for(old_cfg.flow@, new_cfg.flow@, handles, f);
            assert(kind == wanted(
                flow_at(old_by_name@, f),
                flow_at(new_by_name@, f),
                live@.contains(f),
            ));
            if some_action(actions@, f, p) {
                let i = choose|i: int|
                    0 <= i < actions@.len() && (#[trigger] actions@[i]).flow() == f && p(
                        actions@[i].kind(),
                    );
                assert(kind == Some(actions@[i].kind()));
            }
            if kind is Some {
                assert(action_flows(actions@).contains(f));
                let i = action_flows(actions@).index_of(f);
                assert(actions@[i].flow() == f);
                assert(kind == Some(actions@[i].kind()));
            }
        }
    }
    actions
}

/// Plans a reload from `old_cfg` to `new_cfg` and takes the flows that do not run on out of
/// the registry.
pub fn plan_reload<H>(
    old_cfg: &Config,
    new_cfg: &Config,
    registry: &mut FlowRegistry<H>,
) -> (r: ReloadPlan<H>)
    ensures
        r.to_keep@ == wanted_where(
            old_cfg.flow@,
            new_cfg.flow@,
            old(registry).handles@.dom(),
            keeps(),
        ),
        ascending(views(r.removed_flows@)),
        views(r.removed_flows@).to_set() == wanted_where(
            old_cfg.flow@,
            new_cfg.flow@,
            old(registry).handles@.dom(),
            removes(),
        ),
        ascending(views(r.url_resets@)),
        views(r.url_resets@).to_set() == wanted_where(
            old_cfg.flow@,
            new_cfg.flow@,
            old(registry).handles@.dom(),
            resets(),
        ),
        final(registry).handles@ == old(registry).handles@.restrict(r.to_keep@),
        r.cancelled@ == old(registry).handles@.remove_keys(r.to_keep@),
        final(registry).respawning_flows@ == old(registry).respawning_flows@.difference(
            wanted_where(old_cfg.flow@, new_cfg.flow@, old(registry).handles@.dom(), ends()),
        ),
        final(registry).pending_exits@ == old(registry).pending_exits@,
        old(registry).consistent() ==> final(registry).consistent(),
{
    let actions: Vec<ReloadAction> = compute_actions(old_cfg, new_cfg, &*registry);
    let ghost live = registry.handles@.dom();
    let plan: ReloadPlan<H> = apply_actions_to_registry(&actions, registry);
    proof {
        let (old_flows, new_flows) = (old_cfg.flow@, new_cfg.flow@);
        flows_where_of_ascending(actions@, keeps());
        flows_where_of_ascending(actions@, removes());
        flows_where_of_ascending(actions@, resets());
        flows_where_of_ascending(actions@, ends());
        assert(plan.to_keep@ =~= wanted_where(old_flows, new_flows, live, keeps()));
        assert(views(plan.removed_flows@).to_set() =~= wanted_where(
            old_flows,
            new_flows,
            live,
            removes(),
        ));
        assert(views(plan.url_resets@).to_set() =~= wanted_where(
            old_flows,
            new_flows,
            live,
            resets(),
        ));
        assert forall|f: Seq<char>| #![trigger verdict(actions@, f)]
            verdict(actions@, f) is Kept <==> plan.to_keep@.contains(f) by {
            verdict_of_ascending(actions@, f);
        }
        assert(registry.handles@ =~= old(registry).handles@.restrict(plan.to_keep@));
        assert(plan.cancelled@ =~= old(registry).handles@.remove_keys(plan.to_keep@));
        assert(flows_where(actions@, ends()).to_set() =~= wanted_where(
            old_flows,
            new_flows,
            live,
            ends(),
        ));
    }
    plan
}

/// The flows that a reload drops the persisted state of are of two sorts, and none is of
/// both: gone flows, and flows whose source moved.
pub proof fn removed_and_reset_flows_are_exclusive(
    old: Seq<FlowConfig>,
    new: Seq<FlowConfig>,
    live: Set<Seq<char>>,
)
    ensures
        wanted_where(old, new, live, removes()).disjoint(
            wanted_where(old, new, live, resets()),
        ),
{
}

/// A flow that runs and whose configuration does the same as before runs on.
pub proof fn unchanged_running_flows_run_on(
    old: Seq<FlowConfig>,
    new: Seq<FlowConfig>,
    live: Set<Seq<char>>,
    name: Seq<char>,
)
    requires
        live.contains(name),
        named(old, name) is Some,
        named(new, name) is Some,
        named(new, name)->0.enabled,
        flow_shape(named(old, name)->0) == flow_shape(named(new, name)->0),
    ensures
        wanted_where(old, new, live, keeps()).contains(name),
        !wanted_where(old, new, live, ends()).contains(name),
{
}

/// The persisted state of a flow that stays in the configuration is dropped only if the flow
/// runs and its source moved.
pub proof fn state_survives_unless_the_source_moved(
    old: Seq<FlowConfig>,
    new: Seq<FlowConfig>,
    live: Set<Seq<char>>,
    name: Seq<char>,
)
    requires
        named(old, name) is Some,
        named(new, name) is Some,
    ensures
        !wanted_where(old, new, live, removes()).contains(name),
        wanted_where(old, new, live, resets()).contains(name) ==> live.contains(name)
            && named(old, name)->0.source.url@ != named(new, name)->0.source.url@,
        live.contains(name) && named(old, name)->0.source.url@ != named(new, name)->0.source.url@
            ==> wanted_where(old, new, live, resets()).contains(name),
{
}

/// The flow that counts under a name is one of the flows, and every name of a flow has one.
proof fn named_is_a_flow(flows: Seq<FlowConfig>, name: Seq<char>)
    ensures
        named(flows, name) is Some ==> exists|i: int|
            0 <= i < flows.len() && #[trigger] flows[i] == named(flows, name)->0 && flows[i].name@
                == name,
        named(flows, name) is Some <==> crate::config::has_flow(flows, name),
    decreases flows.len(),
{
    if flows.len() > 0 {
        let shorter = flows.drop_last();
        named_is_a_flow(shorter, name);
        if flows.last().name@ == name {
            assert(flows[flows.len() - 1].name@ == name);
        } else {
            if named(shorter, name) is Some {
                let i = choose|i: int|
                    0 <= i < shorter.len() && #[trigger] shorter[i] == named(shorter, name)->0
                        && shorter[i].name@ == name;
                assert(flows[i] == shorter[i]);
            }
            if crate::config::has_flow(flows, name) {
                let i = choose|i: int|
                    0 <= i < flows.len() && (#[trigger] flows[i]).name@ == name;
                assert(shorter[i].name@ == name);
            }
        }
    }
}

/// The names of the enabled flows.
pub open spec fn enabled_names(flows: Seq<FlowConfig>) -> Set<Seq<char>> {
    Set::new(
        |f: Seq<char>|
            exists|i: int|
                0 <= i < flows.len() && (#[trigger] flows[i]).enabled && flows[i].name@ == f,
    )
}

/// The names of the flows that a generation spawns.
pub open spec fn spawned_names(flows: Seq<FlowConfig>, to_keep: Set<Seq<char>>) -> Set<Seq<char>> {
    Set::new(
        |f: Seq<char>|
            exists|i: int|
                0 <= i < flows.len() && is_spawned(#[trigger] flows[i], to_keep) && flows[i].name@
                    == f,
    )
}

/// After a reload whose spawns all work, the enabled flows of the new configuration run, and no
/// others: those that run on, and those that were spawned, of which none is of both sorts.
pub proof fn after_a_reload_the_enabled_flows_run(
    old: Seq<FlowConfig>,
    new: Seq<FlowConfig>,
    live: Set<Seq<char>>,
)
    ensures
        wanted_where(old, new, live, keeps()).union(
            spawned_names(new, wanted_where(old, new, live, keeps())),
        ) == enabled_names(new),
        wanted_where(old, new, live, keeps()).disjoint(
            spawned_names(new, wanted_where(old, new, live, keeps())),
        ),
{
    let kept = wanted_where(old, new, live, keeps());
    let spawned = spawned_names(new, kept);
    assert forall|f: Seq<char>| #[trigger] kept.union(spawned).contains(f) <==> enabled_names(
        new,
    ).contains(f) by {
        named_is_a_flow(new, f);
        if enabled_names(new).contains(f) && !kept.contains(f) {
            let i = choose|i: int|
                0 <= i < new.len() && (#[trigger] new[i]).enabled && new[i].name@ == f;
            assert(is_spawned(new[i], kept));
        }
        if spawned.contains(f) {
            let i = choose|i: int|
                0 <= i < new.len() && is_spawned(#[trigger] new[i], kept) && new[i].name@ == f;
            assert(new[i].enabled);
        }
    }
    assert(kept.union(spawned) =~= enabled_names(new));
}

/// A reload to the configuration that is in force, while its enabled flows run, changes
/// nothing: every running flow runs on, no persisted state is dropped, and none is spawned. No
/// two flows have one name.
pub proof fn reloading_the_same_config_changes_nothing(cfg: Seq<FlowConfig>)
    requires
        forall|i: int, j: int|
            0 <= i < cfg.len() && 0 <= j < cfg.len() && i != j ==> (#[trigger] cfg[i]).name@ != (
            #[trigger] cfg[j]).name@,
    ensures
        ({
            let live = enabled_names(cfg);
            &&& wanted_where(cfg, cfg, live, keeps()) == live
            &&& wanted_where(cfg, cfg, live, ends()) == Set::<Seq<char>>::empty()
            &&& wanted_where(cfg, cfg, live, removes()) == Set::<Seq<char>>::empty()
            &&& wanted_where(cfg, cfg, live, resets()) == Set::<Seq<char>>::empty()
            &&& spawned_names(cfg, live) == Set::<Seq<char>>::empty()
        }),
{
    let live = enabled_names(cfg);
    assert forall|f: Seq<char>| #![trigger wanted_for(cfg, cfg, live, f)]
        wanted_for(cfg, cfg, live, f) == if live.contains(f) {
            Some(ActionKind::Keep)
        } else {
            None
        } by {
        named_is_a_flow(cfg, f);
        if named(cfg, f) is Some {
            let i = choose|i: int|
                0 <= i < cfg.len() && #[trigger] cfg[i] == named(cfg, f)->0 && cfg[i].name@ == f;
            if live.contains(f) {
                let j = choose|j: int|
                    0 <= j < cfg.len() && (#[trigger] cfg[j]).enabled && cfg[j].name@ == f;
                assert(i == j);
            } else {
                assert(!cfg[i].enabled);
            }
        } else if live.contains(f) {
            let j = choose|j: int|
                0 <= j < cfg.len() && (#[trigger] cfg[j]).enabled && cfg[j].name@ == f;
            assert(crate::config::has_flow(cfg, f));
        }
    }
    assert(wanted_where(cfg, cfg, live, keeps()) =~= live);
    assert(wanted_where(cfg, cfg, live, ends()) =~= Set::<Seq<char>>::empty());
    assert(wanted_where(cfg, cfg, live, removes()) =~= Set::<Seq<char>>::empty());
    assert(wanted_where(cfg, cfg, live, resets()) =~= Set::<Seq<char>>::empty());
    assert forall|f: Seq<char>| !(#[trigger] spawned_names(cfg, live).contains(f)) by {
        if spawned_names(cfg, live).contains(f) {
            let i = choose|i: int|
                0 <= i < cfg.len() && is_spawned(#[trigger] cfg[i], live) && cfg[i].name@ == f;
            assert(live.contains(cfg[i].name@));
        }
    }
    assert(spawned_names(cfg, live) =~= Set::<Seq<char>>::empty());
}

/// The flows whose persisted state a reload drops, in the order in which it does: those that
/// are gone, then those whose source moved.
pub fn flows_to_forget<H>(plan: &ReloadPlan<H>) -> (r: Vec<String>)
    ensures
        views(r@) == views(plan.removed_flows@) + views(plan.url_resets@),
{
    let mut out: Vec<String> = Vec::new();
    append_names(&mut out, &plan.removed_flows);
    append_names(&mut out, &plan.url_resets);
    out
}

/// Puts the names of `from` behind those of `out`.
fn append_names(out: &mut Vec<String>, from: &Vec<String>)
    ensures
        views(final(out)@) == views(old(out)@) + views(from@),
{
    let mut i: usize = 0;
    assert(views(out@) =~= views(old(out)@) + views(from@).take(0));
    while i < from.len()
        invariant
            i <= from@.len(),
            views(out@) == views(old(out)@) + views(from@).take(i as int),
        decreases from@.len() - i,
    {
        let ghost before = out@;
        out.push(from[i].clone());
        proof {
            assert(views(out@) =~= views(before).push(from@[i as int]@));
            assert(views(from@).take(i + 1) =~= views(from@).take(i as int).push(
                from@[i as int]@,
            ));
            assert(views(out@) =~= views(old(out)@) + views(from@).take(i + 1));
        }
        i += 1;
    }
    assert(views(from@).take(from@.len() as int) =~= views(from@));
}

/// How long a reload waits for cancelled tasks to end, in seconds.
pub const DRAIN_TIMEOUT_SECS: u64 = 30;

/// Tasks that a running flow has.
pub const TASKS_PER_FLOW: usize = 2;

/// Whether a reload that keeps `kept` flows still waits for tasks to end while `tasks` tasks
/// are left.
pub fn drain_goes_on(tasks: usize, kept: usize) -> (r: bool)
    ensures
        r == (tasks > 2 * kept),
{
    kept <= usize::MAX / 2 && tasks > TASKS_PER_FLOW * kept
}

/// A panic that a reload saw while it waited for tasks to end. `kept` is whether the task is
/// of a flow that runs on.
#[derive(Clone, Copy, PartialEq, Eq, Structural, Debug)]
pub struct DrainedPanic {
    pub kept: bool,
}

/// Counts an exit that a reload saw while it waited for tasks to end, and tells of a panic.
pub fn observe_drained_exit<H>(
    exit: &FlowExit,
    to_keep: &NameSet,
    registry: &mut FlowRegistry<H>,
) -> (r: Option<DrainedPanic>)
    ensures
        final(registry).handles@ == old(registry).handles@,
        final(registry).respawning_flows@ == old(registry).respawning_flows@,
        final(registry).pending_exits@ == exit_seen(old(registry).pending_exits@, exit.flow@),
        old(registry).consistent() ==> final(registry).consistent(),
        r == (if exit.panic is Some {
            Some(DrainedPanic { kept: to_keep@.contains(exit.flow@) })
        } else {
            None
        }),
{
    registry.note_exit(exit.flow.as_str());
    match &exit.panic {
        Some(_) => Some(DrainedPanic { kept: to_keep.contains(exit.flow.as_str()) }),
        None => None,
    }
}

/// Whether a generation that keeps the flows in `to_keep` spawns `flow`.
pub open spec fn is_spawned(flow: FlowConfig, to_keep: Set<Seq<char>>) -> bool {
    flow.enabled && !to_keep.contains(flow.name@)
}

/// The flows that a generation spawns, in the order of the configuration: the enabled ones
/// that do not run on.
pub fn spawn_order(cfg: &Config, to_keep: &NameSet) -> (r: Vec<usize>)
    ensures
        forall|a: int, b: int| 0 <= a < b < r@.len() ==> (#[trigger] r@[a]) < (#[trigger] r@[b]),
        forall|a: int|
            0 <= a < r@.len() ==> (#[trigger] r@[a]) < cfg.flow@.len() && is_spawned(
                cfg.flow@[r@[a] as int],
                to_keep@,
            ),
        forall|i: int|
            0 <= i < cfg.flow@.len() && is_spawned(#[trigger] cfg.flow@[i], to_keep@)
                ==> r@.contains(i as usize),
        forall|i: usize|
            i < cfg.flow@.len() && is_spawned(cfg.flow@[i as int], to_keep@)
                ==> #[trigger] r@.contains(i),
{
    let mut out: Vec<usize> = Vec::new();
    let mut i: usize = 0;
    while i < cfg.flow.len()
        invariant
            i <= cfg.flow@.len(),
            forall|a: int, b: int|
                0 <= a < b < out@.len() ==> (#[trigger] out@[a]) < (#[trigger] out@[b]),
            forall|a: int|
                0 <= a < out@.len() ==> (#[trigger] out@[a]) < i && is_spawned(
                    cfg.flow@[out@[a] as int],
                    to_keep@,
                ),
            forall|j: int|
                0 <= j < i && is_spawned(#[trigger] cfg.flow@[j], to_keep@) ==> out@.contains(
                    j as usize,
                ),
        decreases cfg.flow@.len() - i,
    {
        let flow: &FlowConfig = &cfg.flow[i];
        let ghost before = out@;
        if flow.enabled && !to_keep.contains(flow.name.as_str()) {
            out.push(i);
            proof {
                assert(out@[before.len() as int] == i);
            }
        }
        proof {
            assert forall|j: int|
                0 <= j < i + 1 && is_spawned(
                    #[trigger] cfg.flow@[j],
                    to_keep@,
                ) implies out@.contains(j as usize) by {
                if j < i {
                    let a = before.index_of(j as usize);
                    assert(out@[a] == j as usize);
                }
            }
        }
        i += 1;
    }
    out
}

/// Readies the registry for a spawn of `flow`: no respawn of it is under way any more.
pub fn begin_spawn<H>(registry: &mut FlowRegistry<H>, flow: &str)
    ensures
        final(registry).handles@ == old(registry).handles@,
        final(registry).respawning_flows@ == old(registry).respawning_flows@.remove(flow@),
        final(registry).pending_exits@ == old(registry).pending_exits@,
        old(registry).consistent() ==> final(registry).consistent(),
{
    registry.respawning_flows.remove(flow);
}

/// Records that the new configuration could not be loaded, with all that is wrong with it.
/// The running flows are left alone.
pub fn record_reload_failure(
    errors: &mut NameMap<FlowLastError>,
    messages: &Vec<String>,
    now: Timestamp,
)
    ensures
        error_recorded(
            old(errors)@,
            final(errors)@,
            RELOAD_SYNTHETIC_KEY@,
            (FlowLastErrorView {
                at: now,
                kind: "config_reload"@,
                message: joined(views(messages@), "; "@),
                retry_at: None,
            }),
        ),
{
    let message: String = join(messages, "; ");
    record_last_error(
        errors,
        RELOAD_SYNTHETIC_KEY,
        "config_reload",
        message.as_str(),
        None,
        now,
    );
}

/// Ends a reload: forgets the failure of an earlier one, and gives the names of the flows
/// that now run, in ascending order.
pub fn finalize_reload<H>(
    errors: &mut NameMap<FlowLastError>,
    registry: &FlowRegistry<H>,
) -> (r: Vec<String>)
    ensures
        final(errors)@ == old(errors)@.remove(RELOAD_SYNTHETIC_KEY@),
        ascending(views(r@)),
        views(r@).to_set() == registry.handles@.dom(),
{
    errors.remove(RELOAD_SYNTHETIC_KEY);
    registry.handles.keys()
}

/// A step of a reload.
#[derive(Clone, Copy, PartialEq, Eq, Structural, Debug)]
pub enum ReloadStep {
    /// Tell the service manager that a reload is under way.
    NotifyReloading,
    /// Load the new configuration.
    LoadConfig,
    /// Record why it could not be loaded.
    RecordFailure,
    /// Plan the reload and cancel the flows that do not run on.
    PlanAndCancel,
    /// Drop the credentials that no flow that runs on uses.
    InvalidateCredentials,
    /// Wait for the cancelled tasks to end.
    Drain,
    /// Drop the persisted state of flows that are gone or whose source moved.
    ForgetState,
    /// Make the new configuration the current one.
    PublishConfig,
    /// Spawn the flows that do not run on.
    SpawnGeneration,
    /// Forget the failure of an earlier reload and publish the names of the running flows.
    Finalize,
    /// Tell the service manager that the daemon is ready.
    NotifyReady,
    /// The reload is over.
    Finished,
}

/// The step after `step`. Loading gives a configuration, or `loaded` is false.
pub open spec fn step_after(step: ReloadStep, loaded: bool) -> ReloadStep {
    match step {
        ReloadStep::NotifyReloading => ReloadStep::LoadConfig,
        ReloadStep::LoadConfig => if loaded {
            ReloadStep::PlanAndCancel
        } else {
            ReloadStep::RecordFailure
        },
        ReloadStep::RecordFailure => ReloadStep::NotifyReady,
        ReloadStep::PlanAndCancel => ReloadStep::InvalidateCredentials,
        ReloadStep::InvalidateCredentials => ReloadStep::Drain,
        ReloadStep::Drain => ReloadStep::ForgetState,
        ReloadStep::ForgetState => ReloadStep::PublishConfig,
        ReloadStep::PublishConfig => ReloadStep::SpawnGeneration,
        ReloadStep::SpawnGeneration => ReloadStep::Finalize,
        ReloadStep::Finalize => ReloadStep::NotifyReady,
        ReloadStep::NotifyReady => ReloadStep::Finished,
        ReloadStep::Finished => ReloadStep::Finished,
    }
}

/// The step after `step`. Loading gives a configuration, or `loaded` is false.
pub fn next_reload_step(step: ReloadStep, loaded: bool) -> (r: ReloadStep)
    ensures
        r == step_after(step, loaded),
{
    match step {
        ReloadStep::NotifyReloading => ReloadStep::LoadConfig,
        ReloadStep::LoadConfig => if loaded {
            ReloadStep::PlanAndCancel
        } else {
            ReloadStep::RecordFailure
        },
        ReloadStep::RecordFailure => ReloadStep::NotifyReady,
        ReloadStep::PlanAndCancel => ReloadStep::InvalidateCredentials,
        ReloadStep::InvalidateCredentials => ReloadStep::Drain,
        ReloadStep::Drain => ReloadStep::ForgetState,
        ReloadStep::ForgetState => ReloadStep::PublishConfig,
        ReloadStep::PublishConfig => ReloadStep::SpawnGeneration,
        ReloadStep::SpawnGeneration => ReloadStep::Finalize,
        ReloadStep::Finalize => ReloadStep::NotifyReady,
        ReloadStep::NotifyReady => ReloadStep::Finished,
        ReloadStep::Finished => ReloadStep::Finished,
    }
}

/// The step that a reload is at after `n` steps.
pub open spec fn step_at(n: nat, loaded: bool) -> ReloadStep
    decreases n,
{
    if n == 0 {
        ReloadStep::NotifyReloading
    } else {
        step_after(step_at((n - 1) as nat, loaded), loaded)
    }
}

/// Every reload ends, and the last thing that it does is to tell the service manager that the
/// daemon is ready, whether or not the new configuration could be loaded.
pub proof fn reload_ends_ready(loaded: bool)
    ensures
        exists|n: nat| #[trigger]
            step_at(n, loaded) is NotifyReady && forall|m: nat|
                m > n ==> #[trigger] step_at(m, loaded) is Finished,
{
    reveal_with_fuel(step_at, 12);
    let n: nat = if loaded {
        9
    } else {
        3
    };
    assert(step_at(n, loaded) is NotifyReady);
    assert forall|m: nat| m > n implies #[trigger] step_at(m, loaded) is Finished by {
        finished_for_good(n, m, loaded);
    }
}

/// A finished reload stays finished.
proof fn finished_for_good(n: nat, m: nat, loaded: bool)
    requires
        step_at(n, loaded) is NotifyReady,
        m > n,
    ensures
        step_at(m, loaded) is Finished,
    decreases m,
{
    if m > n + 1 {
        finished_for_good(n, (m - 1) as nat, loaded);
    }
}

/// A reload whose configuration could not be loaded touches no flow: it plans nothing,
/// cancels nothing, and spawns nothing.
pub proof fn failed_load_touches_no_flow(n: nat)
    ensures
        step_at(n, false) is NotifyReloading || step_at(n, false) is LoadConfig || step_at(
            n,
            false,
        ) is RecordFailure || step_at(n, false) is NotifyReady || step_at(n, false) is Finished,
    decreases n,
{
    if n > 0 {
        failed_load_touches_no_flow((n - 1) as nat);
    }
}

/// In a reload, persisted state is dropped only after the cancelled tasks were waited for, and
/// the new configuration is the current one before a flow is spawned from it.
pub proof fn reload_steps_come_in_order(n: nat, m: nat)
    requires
        step_at(n, true) is Drain && step_at(m, true) is ForgetState || step_at(n, true)
            is PlanAndCancel && step_at(m, true) is Drain || step_at(n, true) is ForgetState
            && step_at(m, true) is SpawnGeneration || step_at(n, true) is PublishConfig && step_at(
            m,
            true,
        ) is SpawnGeneration || step_at(n, true) is SpawnGeneration && step_at(m, true) is Finalize,
    ensures
        n < m,
{
    reload_step_number(n);
    reload_step_number(m);
}

/// Which step a reload with a good configuration is at.
proof fn reload_step_number(n: nat)
    ensures
        step_at(n, true) == if n == 0 {
            ReloadStep::NotifyReloading
        } else if n == 1 {
            ReloadStep::LoadConfig
        } else if n == 2 {
            ReloadStep::PlanAndCancel
        } else if n == 3 {
            ReloadStep::InvalidateCredentials
        } else if n == 4 {
            ReloadStep::Drain
        } else if n == 5 {
            ReloadStep::ForgetState
        } else if n == 6 {
            ReloadStep::PublishConfig
        } else if n == 7 {
            ReloadStep::SpawnGeneration
        } else if n == 8 {
            ReloadStep::Finalize
        } else if n == 9 {
            ReloadStep::NotifyReady
        } else {
            ReloadStep::Finished
        },
    decreases n,
{
    if n > 0 {
        reload_step_number((n - 1) as nat);
    }
}

/// Whether the flow at `i` is the last one of that name.
pub open spec fn last_named(flows: Seq<FlowConfig>, name: Seq<char>, i: int) -> bool {
    &&& 0 <= i < flows.len()
    &&& flows[i].name@ == name
    &&& forall|j: int| i < j < flows.len() ==> (#[trigger] flows[j]).name@ != name
}

/// Whether no flow is of that name.
pub open spec fn none_named(flows: Seq<FlowConfig>, name: Seq<char>) -> bool {
    forall|j: int| 0 <= j < flows.len() ==> (#[trigger] flows[j]).name@ != name
}

/// What a reload does to the flow of a name, by the last flow of that name before and after. A
/// flow runs on just where it runs, is enabled, and does what it did. One that is configured no
/// more is removed, be it that it was configured or that it runs. What is persisted of a flow
/// that stays is dropped just where the flow runs and its URL changed. Every other running flow
/// is cancelled. No respawn stays under way of a flow that is removed, or that runs and does not
/// run on.
pub proof fn reloads_go_by_what_changed<H>(
    old_cfg: Config,
    new_cfg: Config,
    registry: &mut FlowRegistry<H>,
    r: ReloadPlan<H>,
    name: Seq<char>,
    i: int,
    j: int,
    unchanged: bool,
)
    requires
        call_ensures(plan_reload::<H>, (&old_cfg, &new_cfg, registry), r),
        last_named(old_cfg.flow@, name, i) || none_named(old_cfg.flow@, name),
        last_named(new_cfg.flow@, name, j) || none_named(new_cfg.flow@, name),
        last_named(old_cfg.flow@, name, i) && last_named(new_cfg.flow@, name, j) ==> call_ensures(
            flow_config_unchanged,
            (&old_cfg.flow@[i], &new_cfg.flow@[j]),
            unchanged,
        ),
    ensures
        ({
            let was = last_named(old_cfg.flow@, name, i);
            let stays = last_named(new_cfg.flow@, name, j);
            let live = old(registry).handles@.dom().contains(name);
            let kept = live && was && stays && new_cfg.flow@[j].enabled && unchanged;
            let removed = !stays && (was || live);
            let moved = live && was && stays && old_cfg.flow@[i].source.url@
                != new_cfg.flow@[j].source.url@;
            &&& r.to_keep@.contains(name) <==> kept
            &&& views(r.removed_flows@).contains(name) <==> removed
            &&& views(r.url_resets@).contains(name) <==> moved
            &&& r.cancelled@.dom().contains(name) <==> live && !kept
            &&& live && !kept ==> r.cancelled@[name] == old(registry).handles@[name]
            &&& final(registry).handles@.dom().contains(name) <==> kept
            &&& kept ==> final(registry).handles@[name] == old(registry).handles@[name]
            &&& final(registry).respawning_flows@.contains(name) <==> old(
                registry,
            ).respawning_flows@.contains(name) && !removed && !(live && !kept)
            &&& final(registry).pending_exits@ == old(registry).pending_exits@
        }),
{
    let (before, after) = (old_cfg.flow@, new_cfg.flow@);
    the_last_flow_of_a_name_counts(before, name, i);
    the_last_flow_of_a_name_counts(after, name, j);
    if last_named(before, name, i) {
        assert(before[i].name@ == name);
    }
    if last_named(after, name, j) {
        assert(after[j].name@ == name);
    }
    assert(views(r.removed_flows@).to_set().contains(name) == views(r.removed_flows@).contains(
        name,
    ));
    assert(views(r.url_resets@).to_set().contains(name) == views(r.url_resets@).contains(name));
}

/// The flows that a reload removes, and those whose persisted state it drops because their source
/// moved, are listed each once and in the order of their names, and none is listed as both.
pub proof fn reloads_list_flows_in_the_order_of_their_names<H>(
    old_cfg: Config,
    new_cfg: Config,
    registry: &mut FlowRegistry<H>,
    r: ReloadPlan<H>,
    i: int,
    j: int,
)
    requires
        call_ensures(plan_reload::<H>, (&old_cfg, &new_cfg, registry), r),
    ensures
        0 <= i < j < r.removed_flows@.len() ==> before(
            r.removed_flows@[i]@,
            r.removed_flows@[j]@,
        ),
        0 <= i < j < r.url_resets@.len() ==> before(r.url_resets@[i]@, r.url_resets@[j]@),
        0 <= i < r.removed_flows@.len() && 0 <= j < r.url_resets@.len() ==> r.removed_flows@[i]@
            != r.url_resets@[j]@,
{
    let (gone, moved) = (views(r.removed_flows@), views(r.url_resets@));
    if 0 <= i < j < gone.len() {
        assert(before(gone[i], gone[j]));
    }
    if 0 <= i < j < moved.len() {
        assert(before(moved[i], moved[j]));
    }
    if 0 <= i < gone.len() && 0 <= j < moved.len() {
        removed_and_reset_flows_are_exclusive(
            old_cfg.flow@,
            new_cfg.flow@,
            old(registry).handles@.dom(),
        );
        assert(gone.to_set().contains(gone[i]));
        assert(moved.to_set().contains(moved[j]));
    }
}

/// Whether `action` decides on the running tasks of `flow`: it names the flow, and neither spawns
/// it nor removes it without a handle.
pub open spec fn decides(action: ReloadAction, flow: Seq<char>) -> bool {
    match action {
        ReloadAction::Keep { name } => name@ == flow,
        ReloadAction::Remove { name, live_handle } => name@ == flow && live_handle,
        ReloadAction::Disable { name, .. } => name@ == flow,
        ReloadAction::Restart { name, .. } => name@ == flow,
        ReloadAction::Spawn { .. } => false,
    }
}

/// Whether the action at `i` is the first that decides on the running tasks of `flow`.
pub open spec fn first_to_decide(actions: Seq<ReloadAction>, flow: Seq<char>, i: int) -> bool {
    &&& 0 <= i < actions.len()
    &&& decides(actions[i], flow)
    &&& forall|j: int| 0 <= j < i ==> !decides(#[trigger] actions[j], flow)
}

/// The first action that decides on a flow lets it run on or does not, and a flow on which none
/// decides does not run on.
pub proof fn the_first_action_decides(actions: Seq<ReloadAction>, flow: Seq<char>, i: int)
    ensures
        first_to_decide(actions, flow, i) ==> (verdict(actions, flow) is Kept <==> actions[i]
            is Keep) && !(verdict(actions, flow) is Unnamed),
        verdict(actions, flow) is Unnamed <==> forall|j: int|
            0 <= j < actions.len() ==> !decides(#[trigger] actions[j], flow),
    decreases actions.len(),
{
    if actions.len() > 0 {
        let (head, n) = (actions.drop_last(), actions.len() - 1);
        the_first_action_decides(head, flow, i);
        assert(actions[n] == actions.last());
        assert forall|j: int| 0 <= j < n implies head[j] == actions[j] by {}
        if first_to_decide(actions, flow, i) {
            if i < n {
                assert forall|j: int| 0 <= j < i implies !decides(#[trigger] head[j], flow) by {
                    assert(!decides(actions[j], flow));
                }
            } else {
                assert forall|j: int| 0 <= j < head.len() implies !decides(
                    #[trigger] head[j],
                    flow,
                ) by {
                    assert(!decides(actions[j], flow));
                }
            }
        }
        if forall|j: int| 0 <= j < head.len() ==> !decides(#[trigger] head[j], flow) {
            assert forall|j: int| 0 <= j < n implies !decides(#[trigger] actions[j], flow) by {
                assert(!decides(head[j], flow));
            }
        }
        if forall|j: int| 0 <= j < actions.len() ==> !decides(#[trigger] actions[j], flow) {
            assert(!decides(actions[n], flow));
            assert forall|j: int| 0 <= j < head.len() implies !decides(#[trigger] head[j], flow) by {
                assert(!decides(actions[j], flow));
            }
        }
    }
}

/// The flows of some actions are collected in the order of the actions: those of a list are those
/// of its one part and then those of its other, and of a single action there is its flow or none.
/// Kept are the flows of actions that keep, removed those of actions that remove; reset are those
/// that are disabled or restarted with another URL; and the tasks end of all but the kept and the
/// spawned.
pub proof fn flows_are_collected_in_order(
    a: Seq<ReloadAction>,
    b: Seq<ReloadAction>,
    p: spec_fn(ActionKind) -> bool,
    action: ReloadAction,
)
    ensures
        flows_where(a + b, p) == flows_where(a, p) + flows_where(b, p),
        flows_where(seq![action], keeps()) == match action {
            ReloadAction::Keep { name } => seq![name@],
            _ => Seq::empty(),
        },
        flows_where(seq![action], removes()) == match action {
            ReloadAction::Remove { name, .. } => seq![name@],
            _ => Seq::empty(),
        },
        flows_where(seq![action], resets()) == match action {
            ReloadAction::Disable { name, url_changed } if url_changed => seq![name@],
            ReloadAction::Restart { name, url_changed } if url_changed => seq![name@],
            _ => Seq::empty(),
        },
        flows_where(seq![action], ends()) == match action {
            ReloadAction::Remove { name, .. } => seq![name@],
            ReloadAction::Disable { name, .. } => seq![name@],
            ReloadAction::Restart { name, .. } => seq![name@],
            _ => Seq::empty(),
        },
    decreases b.len(),
{
    let none = Seq::<ReloadAction>::empty();
    assert(seq![action] =~= none.push(action));
    flows_where_push(none, action, keeps());
    flows_where_push(none, action, removes());
    flows_where_push(none, action, resets());
    flows_where_push(none, action, ends());
    assert(Seq::<Seq<char>>::empty().push(action.flow()) =~= seq![action.flow()]);
    if b.len() > 0 {
        flows_are_collected_in_order(a, b.drop_last(), p, action);
        assert((a + b).drop_last() =~= a + b.drop_last());
        assert((a + b).last() == b.last());
        assert(flows_where(a, p) + flows_where(b.drop_last(), p).push(b.last().flow()) =~= (
        flows_where(a, p) + flows_where(b.drop_last(), p)).push(b.last().flow()));
    } else {
        assert(a + b =~= a);
        assert(flows_where(a, p) + flows_where(b, p) =~= flows_where(a, p));
    }
}

/// Applying actions leaves the registry just the handles of the flows that run on, and hands out
/// every other handle to be cancelled: by the first action that decides on the flow, and where
/// none does the flow does not run on.
pub proof fn handles_stay_or_are_cancelled<H>(
    actions: Vec<ReloadAction>,
    registry: &mut FlowRegistry<H>,
    r: ReloadPlan<H>,
    flow: Seq<char>,
    i: int,
)
    requires
        call_ensures(apply_actions_to_registry::<H>, (&actions, registry), r),
        first_to_decide(actions@, flow, i) || forall|j: int|
            0 <= j < actions@.len() ==> !decides(#[trigger] actions@[j], flow),
    ensures
        ({
            let live = old(registry).handles@.dom().contains(flow);
            let on = first_to_decide(actions@, flow, i) && actions@[i] is Keep;
            &&& final(registry).handles@.dom().contains(flow) <==> live && on
            &&& live && on ==> final(registry).handles@[flow] == old(registry).handles@[flow]
            &&& r.cancelled@.dom().contains(flow) <==> live && !on
            &&& live && !on ==> r.cancelled@[flow] == old(registry).handles@[flow]
            &&& final(registry).pending_exits@ == old(registry).pending_exits@
        }),
        r.to_keep@.contains(flow) <==> exists|j: int|
            0 <= j < actions@.len() && ((#[trigger] actions@[j]) matches ReloadAction::Keep { name }
                && name@ == flow),
        final(registry).respawning_flows@.contains(flow) <==> old(
            registry,
        ).respawning_flows@.contains(flow) && forall|j: int|
            0 <= j < actions@.len() ==> match #[trigger] actions@[j] {
                ReloadAction::Remove { name, .. } => name@ != flow,
                ReloadAction::Disable { name, .. } => name@ != flow,
                ReloadAction::Restart { name, .. } => name@ != flow,
                _ => true,
            },
{
    the_first_action_decides(actions@, flow, i);
    collected_flows_have_actions(actions@, flow, keeps());
    collected_flows_have_actions(actions@, flow, ends());
    let (kept, ended) = (flows_where(actions@, keeps()), flows_where(actions@, ends()));
    assert(kept.to_set().contains(flow) == kept.contains(flow));
    assert(ended.to_set().contains(flow) == ended.contains(flow));
}

/// A flow is among those that are collected just where some action of the kind names it.
proof fn collected_flows_have_actions(
    s: Seq<ReloadAction>,
    flow: Seq<char>,
    p: spec_fn(ActionKind) -> bool,
)
    ensures
        flows_where(s, p).contains(flow) <==> some_action(s, flow, p),
    decreases s.len(),
{
    let found = flows_where(s, p);
    if s.len() > 0 {
        let (head, last, n) = (s.drop_last(), s.last(), s.len() - 1);
        let earlier = flows_where(head, p);
        collected_flows_have_actions(head, flow, p);
        assert(s[n] == last);
        if earlier.contains(flow) {
            let k = earlier.index_of(flow);
            assert(found[k] == flow);
            let i = choose|i: int|
                0 <= i < head.len() && (#[trigger] head[i]).flow() == flow && p(head[i].kind());
            assert(s[i] == head[i]);
        }
        if found.contains(flow) && !earlier.contains(flow) {
            let k = found.index_of(flow);
            if k < earlier.len() {
                assert(earlier[k] == flow);
            }
        }
        if some_action(s, flow, p) {
            let i = choose|i: int|
                0 <= i < s.len() && (#[trigger] s[i]).flow() == flow && p(s[i].kind());
            if i < n {
                assert(head[i] == s[i]);
            } else {
                assert(found[earlier.len() as int] == flow);
            }
        }
    }
}

/// The persisted state that is dropped is that of the removed flows and then that of those whose
/// source moved, each once and in its order.
pub proof fn forgotten_flows_come_in_order<H>(plan: ReloadPlan<H>, r: Vec<String>, i: int)
    requires
        call_ensures(flows_to_forget::<H>, (&plan,), r),
        0 <= i < r@.len(),
    ensures
        r@.len() == plan.removed_flows@.len() + plan.url_resets@.len(),
        i < plan.removed_flows@.len() ==> r@[i]@ == plan.removed_flows@[i]@,
        i >= plan.removed_flows@.len() ==> r@[i]@ == plan.url_resets@[i
            - plan.removed_flows@.len()]@,
{
    assert(views(r@)[i] == r@[i]@);
    assert(views(r@).len() == r@.len());
}

/// A reload waits while there are more tasks than the two of each flow that runs on, and for half
/// a minute.
pub proof fn reloads_wait_for_cancelled_tasks(tasks: usize, kept: usize, r: bool)
    requires
        call_ensures(drain_goes_on, (tasks, kept), r),
    ensures
        r <==> tasks > kept + kept,
        DRAIN_TIMEOUT_SECS == 30,
        TASKS_PER_FLOW == 2,
{
}

/// An end that a reload sees takes one off the unseen exits of its flow and changes nothing else;
/// a panic is told, with whether the flow runs on.
pub proof fn ends_are_counted_while_a_reload_waits<H>(
    exit: FlowExit,
    to_keep: NameSet,
    registry: &mut FlowRegistry<H>,
    r: Option<DrainedPanic>,
)
    requires
        old(registry).consistent(),
        call_ensures(observe_drained_exit::<H>, (&exit, &to_keep, registry), r),
    ensures
        ({
            let before = old(registry).pending_exits@;
            let after = final(registry).pending_exits@;
            &&& r is Some <==> exit.panic is Some
            &&& r is Some ==> (r->0.kept <==> to_keep@.contains(exit.flow@))
            &&& final(registry).handles@ == old(registry).handles@
            &&& final(registry).respawning_flows@ == old(registry).respawning_flows@
            &&& after.remove(exit.flow@) == before.remove(exit.flow@)
            &&& after.dom().contains(exit.flow@) <==> before.dom().contains(exit.flow@)
                && before[exit.flow@] > 1
            &&& after.dom().contains(exit.flow@) ==> after[exit.flow@] == before[exit.flow@] - 1
        }),
{
    let before = old(registry).pending_exits@;
    let after = final(registry).pending_exits@;
    assert(after.remove(exit.flow@) =~= before.remove(exit.flow@));
}

/// A generation spawns each enabled flow that does not run on, once, in the order of the
/// configuration, and nothing else.
pub proof fn generations_spawn_what_does_not_run_on(
    cfg: &Config,
    to_keep: &NameSet,
    r: Vec<usize>,
    i: int,
    a: int,
    b: int,
)
    requires
        call_ensures(spawn_order, (cfg, to_keep), r),
        0 <= i < cfg.flow@.len(),
    ensures
        (exists|k: int| 0 <= k < r@.len() && (#[trigger] r@[k]) == i) <==> cfg.flow@[i].enabled
            && !to_keep@.contains(cfg.flow@[i].name@),
        0 <= a < b < r@.len() ==> r@[a] < r@[b],
        0 <= a < r@.len() ==> r@[a] < cfg.flow@.len(),
{
    assert(i < cfg.flow.len());
    if is_spawned(cfg.flow@[i], to_keep@) {
        assert(r@.contains(i as usize));
        let k = r@.index_of(i as usize);
        assert(r@[k] == i);
    }
}

/// Readying the registry for a spawn ends the respawn of that flow and changes nothing else.
pub proof fn spawns_end_respawns<H>(
    registry: &mut FlowRegistry<H>,
    flow: &str,
    other: Seq<char>,
)
    requires
        call_ensures(begin_spawn::<H>, (registry, flow), ()),
        other != flow@,
    ensures
        !final(registry).respawning_flows@.contains(flow@),
        final(registry).respawning_flows@.contains(other) == old(
            registry,
        ).respawning_flows@.contains(other),
        final(registry).handles@ == old(registry).handles@,
        final(registry).pending_exits@ == old(registry).pending_exits@,
{
}

/// A configuration that cannot be loaded is recorded as an error of the reload, with all that is
/// wrong with it, and as nobody else's; a reload that ends well forgets it, and no other error.
pub proof fn reload_errors_come_and_go(
    failed: &mut NameMap<FlowLastError>,
    messages: Vec<String>,
    now: Timestamp,
    other: Seq<char>,
)
    requires
        call_ensures(record_reload_failure, (failed, &messages, now), ()),
        other != "(reload)"@,
    ensures
        final(failed)@.dom().contains("(reload)"@),
        final(failed)@["(reload)"@]@.at == now,
        final(failed)@["(reload)"@]@.kind == "config_reload"@,
        final(failed)@["(reload)"@]@.message == joined(views(messages@), "; "@),
        final(failed)@["(reload)"@]@.retry_at is None,
        final(failed)@.dom().contains(other) <==> old(failed)@.dom().contains(other),
        old(failed)@.dom().contains(other) ==> final(failed)@[other] == old(failed)@[other],
{
    errors_are_recorded_for_one_flow(
        old(failed)@,
        final(failed)@,
        RELOAD_SYNTHETIC_KEY@,
        final(failed)@[RELOAD_SYNTHETIC_KEY@]@,
        other,
    );
}

/// A reload that ends forgets the error of the reload and no other, and names the running flows,
/// each once and in the order of their names.
pub proof fn ended_reloads_name_the_running_flows<H>(
    errors: &mut NameMap<FlowLastError>,
    registry: FlowRegistry<H>,
    r: Vec<String>,
    other: Seq<char>,
)
    requires
        call_ensures(finalize_reload::<H>, (errors, &registry), r),
        other != "(reload)"@,
    ensures
        !final(errors)@.dom().contains("(reload)"@),
        final(errors)@.dom().contains(other) <==> old(errors)@.dom().contains(other),
        old(errors)@.dom().contains(other) ==> final(errors)@[other] == old(errors)@[other],
        (exists|i: int| 0 <= i < r@.len() && (#[trigger] r@[i])@ == other)
            <==> registry.handles@.dom().contains(other),
        forall|i: int, j: int|
            0 <= i < j < r@.len() ==> before((#[trigger] r@[i])@, (#[trigger] r@[j])@) && r@[i]@
                != r@[j]@,
{
    let all = views(r@);
    assert(all.to_set().contains(other) == all.contains(other));
    if all.contains(other) {
        let i = all.index_of(other);
        assert(r@[i]@ == other);
    }
    if exists|i: int| 0 <= i < r@.len() && (#[trigger] r@[i])@ == other {
        let i = choose|i: int| 0 <= i < r@.len() && (#[trigger] r@[i])@ == other;
        assert(all[i] == other);
    }
    crate::names::ascending_has_no_duplicates(all);
    assert forall|i: int, j: int| 0 <= i < j < r@.len() implies before(
        (#[trigger] r@[i])@,
        (#[trigger] r@[j])@,
    ) && r@[i]@ != r@[j]@ by {
        assert(before(all[i], all[j]));
        assert(all[i] != all[j]);
    }
}

/// The steps of a reload in their order, whether or not the configuration can be loaded: whatever
/// else, the daemon is told to be reloading before and to be ready after.
pub proof fn reload_steps_follow_one_another(i: int, loaded: bool, r: ReloadStep)
    ensures
        ({
            let good = seq![
                ReloadStep::NotifyReloading,
                ReloadStep::LoadConfig,
                ReloadStep::PlanAndCancel,
                ReloadStep::InvalidateCredentials,
                ReloadStep::Drain,
                ReloadStep::ForgetState,
                ReloadStep::PublishConfig,
                ReloadStep::SpawnGeneration,
                ReloadStep::Finalize,
                ReloadStep::NotifyReady,
                ReloadStep::Finished,
                ReloadStep::Finished,
            ];
            let bad = seq![
                ReloadStep::NotifyReloading,
                ReloadStep::LoadConfig,
                ReloadStep::RecordFailure,
                ReloadStep::NotifyReady,
                ReloadStep::Finished,
                ReloadStep::Finished,
            ];
            let steps = if loaded {
                good
            } else {
                bad
            };
            &&& 0 <= i < steps.len() - 1 && call_ensures(next_reload_step, (steps[i], loaded), r)
                ==> r == steps[i + 1]
            &&& 0 <= i < good.len() - 1 && i != 1 && call_ensures(
                next_reload_step,
                (good[i], loaded),
                r,
            ) ==> r == good[i + 1]
        }),
{
}

} // verus!
