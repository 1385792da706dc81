//! What a reload does to each flow.
use vstd::prelude::*;

use crate::config::{texts_agree, Destination, FlowConfig};
use crate::names::{ascending, before, NameMap, NameSet};
use crate::supervisor::diff::{
    agreeing, destinations_count, flow_config_unchanged, flow_shape,
    flows_are_compared_in_every_part,
};
use crate::text::{same_text, views};

verus! {

/// What a reload does to one flow.
#[derive(PartialEq, Eq, Debug)]
pub enum ReloadAction {
    /// The flow does what it did before and is running: it runs on.
    Keep { name: String },
    /// The flow is gone: its tasks are cancelled, if it is running, and its persisted state
    /// is dropped.
    Remove { name: String, live_handle: bool },
    /// The flow is disabled: its tasks are cancelled, and its persisted state is dropped if
    /// it now has another source.
    Disable { name: String, url_changed: bool },
    /// The flow does something else: its tasks are cancelled and spawned anew, and its
    /// persisted state is dropped if it now has another source.
    Restart { name: String, url_changed: bool },
    /// The flow is enabled and not running: its tasks are spawned.
    Spawn { name: String },
}

/// What an action does, whichever flow it names.
pub ghost enum ActionKind {
    Keep,
    Remove { live_handle: bool },
    Disable { url_changed: bool },
    Restart { url_changed: bool },
    Spawn,
}

impl ReloadAction {
    /// The flow that the action names.
    pub open spec fn flow(self) -> Seq<char> {
        match self {
            ReloadAction::Keep { name } => name@,
            ReloadAction::Remove { name, .. } => name@,
            ReloadAction::Disable { name, .. } => name@,
            ReloadAction::Restart { name, .. } => name@,
            ReloadAction::Spawn { name } => name@,
        }
    }

    /// What the action does.
    pub open spec fn kind(self) -> ActionKind {
        match self {
            ReloadAction::Keep { .. } => ActionKind::Keep,
            ReloadAction::Remove { live_handle, .. } => ActionKind::Remove { live_handle },
            ReloadAction::Disable { url_changed, .. } => ActionKind::Disable { url_changed },
            ReloadAction::Restart { url_changed, .. } => ActionKind::Restart { url_changed },
            ReloadAction::Spawn { .. } => ActionKind::Spawn,
        }
    }

    /// The flow that the action names.
    pub fn name(&self) -> (r: &str)
        ensures
            r@ == self.flow(),
    {
        match self {
            ReloadAction::Keep { name } => name.as_str(),
            ReloadAction::Remove { name, .. } => name.as_str(),
            ReloadAction::Disable { name, .. } => name.as_str(),
            ReloadAction::Restart { name, .. } => name.as_str(),
            ReloadAction::Spawn { name } => name.as_str(),
        }
    }
}

/// The flows that `actions` name, in their order.
pub open spec fn action_flows(actions: Seq<ReloadAction>) -> Seq<Seq<char>> {
    actions.map_values(|a: ReloadAction| a.flow())
}

/// The flow at `name`.
pub open spec fn flow_at(m: Map<Seq<char>, &FlowConfig>, name: Seq<char>) -> Option<FlowConfig> {
    if m.dom().contains(name) {
        Some(*m[name])
    } else {
        None
    }
}

/// What a reload does to a flow, given the flow before and after and whether it is running.
pub open spec fn wanted(old: Option<FlowConfig>, new: Option<FlowConfig>, live: bool) -> Option<
    ActionKind,
> {
    let moved = old is Some && new is Some && old->0.source.url@ != new->0.source.url@;
    match new {
        None => if old is Some || live {
            Some(ActionKind::Remove { live_handle: live })
        } else {
            None
        },
        Some(flow) => if !flow.enabled {
            if live {
                Some(ActionKind::Disable { url_changed: moved })
            } else {
                None
            }
        } else if !live {
            Some(ActionKind::Spawn)
        } else if old is Some && flow_shape(old->0) == flow_shape(flow) {
            Some(ActionKind::Keep)
        } else {
            Some(ActionKind::Restart { url_changed: moved })
        },
    }
}

/// What a reload does to one flow.
fn classify(name: &str, old: Option<&FlowConfig>, new: Option<&FlowConfig>, live: bool) -> (r:
    Option<ReloadAction>)
    ensures
        r is Some <==> wanted(deref_flow(old), deref_flow(new), live) is Some,
        r matches Some(a) ==> a.flow() == name@ && wanted(deref_flow(old), deref_flow(new), live)
            == Some(a.kind()),
{
    match (new, old) {
        (None, Some(_)) => Some(
            ReloadAction::Remove { name: name.to_string(), live_handle: live },
        ),
        (None, None) => if live {
            Some(ReloadAction::Remove { name: name.to_string(), live_handle: true })
        } else {
            None
        },
        (Some(nf), Some(of)) => {
            if !nf.enabled {
                if live {
                    Some(
                        ReloadAction::Disable {
                            name: name.to_string(),
                            url_changed: !same_text(of.source.url.as_str(), nf.source.url.as_str()),
                        },
                    )
                } else {
                    None
                }
            } else if !live {
                Some(ReloadAction::Spawn { name: name.to_string() })
            } else if flow_config_unchanged(of, nf) {
                Some(ReloadAction::Keep { name: name.to_string() })
            } else {
                Some(
                    ReloadAction::Restart {
                        name: name.to_string(),
                        url_changed: !same_text(of.source.url.as_str(), nf.source.url.as_str()),
                    },
                )
            }
        },
        (Some(nf), None) => {
            if !live {
                if nf.enabled {
                    Some(ReloadAction::Spawn { name: name.to_string() })
                } else {
                    None
                }
            } else if nf.enabled {
                Some(ReloadAction::Restart { name: name.to_string(), url_changed: false })
            } else {
                Some(ReloadAction::Disable { name: name.to_string(), url_changed: false })
            }
        },
    }
}

/// The flow behind an optional reference.
pub open spec fn deref_flow(flow: Option<&FlowConfig>) -> Option<FlowConfig> {
    match flow {
        Some(f) => Some(*f),
        None => None,
    }
}

/// Puts every name of `from` into `names`.
pub(crate) fn add_names(names: &mut NameSet, from: &Vec<String>)
    ensures
        final(names)@ == old(names)@.union(views(from@).to_set()),
{
    let mut i: usize = 0;
    let ghost all = views(from@);
    assert(names@ =~= old(names)@.union(all.take(0).to_set()));
    while i < from.len()
        invariant
            i <= from@.len(),
            all == views(from@),
            names@ =~= old(names)@.union(all.take(i as int).to_set()),
        decreases from@.len() - i,
    {
        names.insert(from[i].clone());
        proof {
            let (shorter, longer) = (all.take(i as int), all.take(i + 1));
            assert(longer =~= shorter.push(all[i as int]));
            assert forall|k: Seq<char>| #[trigger]
                longer.to_set().contains(k) <==> shorter.to_set().contains(k) || k
                    == all[i as int] by {
                if shorter.to_set().contains(k) {
                    let j = shorter.index_of(k);
                    assert(longer[j] == k);
                }
                if k == all[i as int] {
                    assert(longer[i as int] == k);
                }
            }
        }
        i += 1;
    }
    assert(all.take(all.len() as int) =~= all);
}

/// What a reload does, flow by flow in ascending order of their names: at most one action
/// for each flow of either configuration and for each running flow.
pub fn compute_reload_actions(
    old_flows: &NameMap<&FlowConfig>,
    new_flows: &NameMap<&FlowConfig>,
    live_handles: &NameSet,
) -> (r: Vec<ReloadAction>)
    ensures
        ascending(action_flows(r@)),
        forall|i: int|
            0 <= i < r@.len() ==> wanted(
                flow_at(old_flows@, (#[trigger] r@[i]).flow()),
                flow_at(new_flows@, r@[i].flow()),
                live_handles@.contains(r@[i].flow()),
            ) == Some(r@[i].kind()),
        forall|name: Seq<char>| #[trigger]
            wanted(
                flow_at(old_flows@, name),
                flow_at(new_flows@, name),
                live_handles@.contains(name),
            ) is Some ==> action_flows(r@).contains(name),
{
    let mut union: NameSet = NameSet::new();
    add_names(&mut union, &old_flows.keys());
    add_names(&mut union, &new_flows.keys());
    add_names(&mut union, &live_handles.names());
    let names: Vec<String> = union.names();
    let ghost all = views(names@);
    let mut actions: Vec<ReloadAction> = Vec::new();
    let mut i: usize = 0;
    while i < names.len()
        invariant
            i <= names@.len(),
            all == views(names@),
            ascending(all),
            ascending(action_flows(actions@)),
            forall|k: int|
                0 <= k < actions@.len() ==> all.take(i as int).contains(
                    (#[trigger] actions@[k]).flow(),
                ),
            forall|k: int|
                0 <= k < actions@.len() ==> wanted(
                    flow_at(old_flows@, (#[trigger] actions@[k]).flow()),
                    flow_at(new_flows@, actions@[k].flow()),
                    live_handles@.contains(actions@[k].flow()),
                ) == Some(actions@[k].kind()),
            forall|j: int|
                0 <= j < i && wanted(
                    flow_at(old_flows@, #[trigger] all[j]),
                    flow_at(new_flows@, all[j]),
                    live_handles@.contains(all[j]),
                ) is Some ==> action_flows(actions@).contains(all[j]),
        decreases names@.len() - i,
    {
        let name: &str = names[i].as_str();
        let old: Option<&FlowConfig> = match old_flows.get(name) {
            Some(f) => Some(*f),
            None => None,
        };
        let new: Option<&FlowConfig> = match new_flows.get(name) {
            Some(f) => Some(*f),
            None => None,
        };
        let live: bool = live_handles.contains(name);
        let ghost before = actions@;
        assert(all[i as int] == name@);
        match classify(name, old, new, live) {
            Some(action) => {
                actions.push(action);
                proof {
                    assert(action_flows(actions@) =~= action_flows(before).push(name@));
                    assert forall|a: int, b: int| 0 <= a < b < actions@.len() implies crate::names::before(
                        #[trigger] action_flows(actions@)[a],
                        #[trigger] action_flows(actions@)[b],
                    ) by {
                        if b == before.len() {
                            let f = before[a].flow();
                            assert(action_flows(actions@)[a] == f);
                            let place = all.take(i as int).index_of(f);
                            assert(all[place] == f);
                        } else {
                            assert(action_flows(actions@)[a] == action_flows(before)[a]);
                            assert(action_flows(actions@)[b] == action_flows(before)[b]);
                        }
                    }
                    assert(action_flows(actions@)[before.len() as int] == name@);
                }
            },
            None => {},
        }
        proof {
            let (shorter, longer) = (all.take(i as int), all.take(i + 1));
            assert(longer =~= shorter.push(all[i as int]));
            assert forall|k: int| 0 <= k < actions@.len() implies longer.contains(
                (#[trigger] actions@[k]).flow(),
            ) by {
                if k < before.len() {
                    assert(actions@[k] == before[k]);
                    let place = shorter.index_of(before[k].flow());
                    assert(longer[place] == before[k].flow());
                } else {
                    assert(longer[i as int] == name@);
                }
            }
            assert forall|j: int|
                0 <= j < i + 1 && wanted(
                    flow_at(old_flows@, #[trigger] all[j]),
                    flow_at(new_flows@, all[j]),
                    live_handles@.contains(all[j]),
                ) is Some implies action_flows(actions@).contains(all[j]) by {
                if j < i {
                    let place = action_flows(before).index_of(all[j]);
                    assert(action_flows(actions@)[place] == action_flows(before)[place]);
                }
            }
        }
        i += 1;
    }
    proof {
        assert forall|name: Seq<char>| #[trigger]
            wanted(
                flow_at(old_flows@, name),
                flow_at(new_flows@, name),
                live_handles@.contains(name),
            ) is Some implies action_flows(actions@).contains(name) by {
            assert(all.to_set().contains(name));
            let j = all.index_of(name);
            assert(all[j] == name);
        }
    }
    actions
}

/// What an action means, given the flow before and after and whether it runs: a flow is kept just
/// where it runs, is enabled and does what it did; it is restarted just where it runs, is enabled
/// and does something else; it is disabled just where it runs and is not enabled; it is spawned
/// just where it is enabled and does not run; and it is removed just where it is no longer
/// configured. Its source has moved just where the URLs before and after differ.
pub proof fn actions_fit_the_flow(
    action: ReloadAction,
    name: Seq<char>,
    old: Option<FlowConfig>,
    new: Option<FlowConfig>,
    live: bool,
)
    requires
        action.flow() == name,
        wanted(old, new, live) == Some(action.kind()),
    ensures
        ({
            let moved = old is Some && new is Some && old->0.source.url@ != new->0.source.url@;
            let same = old is Some && new is Some && flow_shape(old->0) == flow_shape(new->0);
            match action {
                ReloadAction::Keep { name: n } => {
                    n@ == name && live && new is Some && new->0.enabled && same
                },
                ReloadAction::Remove { name: n, live_handle } => {
                    n@ == name && new is None && (old is Some || live) && live_handle == live
                },
                ReloadAction::Disable { name: n, url_changed } => {
                    n@ == name && live && new is Some && !new->0.enabled && url_changed == moved
                },
                ReloadAction::Restart { name: n, url_changed } => {
                    n@ == name && live && new is Some && new->0.enabled && !same && url_changed
                        == moved
                },
                ReloadAction::Spawn { name: n } => {
                    n@ == name && !live && new is Some && new->0.enabled
                },
            }
        }),
{
}

/// A flow has no action just where there is nothing to do for it: it is configured, disabled and
/// does not run, or it is neither configured, before or after, nor runs.
pub proof fn flows_without_action_need_none(
    old: Option<FlowConfig>,
    new: Option<FlowConfig>,
    live: bool,
)
    ensures
        wanted(old, new, live) is None <==> !live && (if new is Some {
            !new->0.enabled
        } else {
            old is None
        }),
{
}

/// A running enabled flow of which any part but name and description changes is restarted and
/// not kept: be it the ref or the credential of its source, any part of its action, or its poll
/// settings.
pub proof fn running_flows_that_change_are_restarted(old: FlowConfig, new: FlowConfig)
    requires
        new.enabled,
        ({
            ||| old.enabled != new.enabled
            ||| old.source.url@ != new.source.url@
            ||| old.source.ref_name@ != new.source.ref_name@
            ||| old.source.credential_id is Some && new.source.credential_id is None
            ||| old.source.credential_id is None && new.source.credential_id is Some
            ||| old.source.credential_id is Some && new.source.credential_id is Some
                && old.source.credential_id->0@ != new.source.credential_id->0@
            ||| old.action->repo@ != new.action->repo@
            ||| old.action->workflow@ != new.action->workflow@
            ||| old.action->ref_name@ != new.action->ref_name@
            ||| old.action->credential_id@ != new.action->credential_id@
            ||| !texts_agree(old.action->inputs@, new.action->inputs@)
            ||| old.poll.source_interval is Some && new.poll.source_interval is None
            ||| old.poll.source_interval is None && new.poll.source_interval is Some
            ||| old.poll.source_interval is Some && new.poll.source_interval is Some
                && old.poll.source_interval->0.nanos != new.poll.source_interval->0.nanos
            ||| !texts_agree(old.poll.others@, new.poll.others@)
            ||| old.destination@.len() != new.destination@.len()
            ||| exists|d: Destination|
                agreeing(old.destination@, d) != #[trigger] agreeing(new.destination@, d)
        }),
    ensures
        wanted(Some(old), Some(new), true) == Some(
            ActionKind::Restart { url_changed: old.source.url@ != new.source.url@ },
        ),
{
    flows_are_compared_in_every_part(old, new);
    if old.destination@.len() != new.destination@.len() {
        destinations_count(old, new);
    }
}

/// The flow at a name is the one that the map has there.
pub proof fn flows_are_taken_from_the_map(m: Map<Seq<char>, &FlowConfig>, name: Seq<char>)
    ensures
        flow_at(m, name) is Some <==> m.dom().contains(name),
        m.dom().contains(name) ==> flow_at(m, name) == Some(*m[name]),
{
}

/// What a reload does, flow by flow, is just what the flows need: a flow is kept, restarted,
/// disabled, spawned or removed in the list of actions just where it should be, and no flow has
/// two actions.
pub proof fn each_flow_gets_the_action_that_it_needs(
    old: NameMap<&FlowConfig>,
    new: NameMap<&FlowConfig>,
    live: NameSet,
    r: Vec<ReloadAction>,
    name: Seq<char>,
    unchanged: bool,
)
    requires
        call_ensures(compute_reload_actions, (&old, &new, &live), r),
        old@.dom().contains(name) && new@.dom().contains(name) ==> call_ensures(
            flow_config_unchanged,
            (old@[name], new@[name]),
            unchanged,
        ),
    ensures
        ({
            let runs = live@.contains(name);
            let was = old@.dom().contains(name);
            let stays = new@.dom().contains(name);
            let on = stays && new@[name].enabled;
            let same = was && stays && unchanged;
            let moved = was && stays && old@[name].source.url@ != new@[name].source.url@;
            &&& (exists|i: int|
                0 <= i < r@.len() && ((#[trigger] r@[i]) matches ReloadAction::Keep { name: n }
                    && n@ == name)) <==> runs && on && same
            &&& (exists|i: int|
                0 <= i < r@.len() && ((
                #[trigger] r@[i]) matches ReloadAction::Restart { name: n, url_changed } && n@
                    == name && url_changed == moved)) <==> runs && on && !same
            &&& (exists|i: int|
                0 <= i < r@.len() && ((
                #[trigger] r@[i]) matches ReloadAction::Disable { name: n, url_changed } && n@
                    == name && url_changed == moved)) <==> runs && stays && !on
            &&& (exists|i: int|
                0 <= i < r@.len() && ((#[trigger] r@[i]) matches ReloadAction::Spawn { name: n }
                    && n@ == name)) <==> !runs && on
            &&& (exists|i: int|
                0 <= i < r@.len() && ((
                #[trigger] r@[i]) matches ReloadAction::Remove { name: n, live_handle } && n@
                    == name && live_handle == runs)) <==> !stays && (was || runs)
        }),
{
    let w = wanted(flow_at(old@, name), flow_at(new@, name), live@.contains(name));
    assert forall|i: int| 0 <= i < r@.len() && (#[trigger] r@[i]).flow() == name implies w == Some(
        r@[i].kind(),
    ) by {}
    if w is Some {
        assert(action_flows(r@).contains(name));
        let i = action_flows(r@).index_of(name);
        assert(r@[i].flow() == name);
        assert(w == Some(r@[i].kind()));
    }
}

/// The actions of a reload come in the order of the names that they have, and no two have the same
/// name.
pub proof fn actions_come_in_the_order_of_their_names(
    old: NameMap<&FlowConfig>,
    new: NameMap<&FlowConfig>,
    live: NameSet,
    r: Vec<ReloadAction>,
    i: int,
    j: int,
    a: &str,
    b: &str,
)
    requires
        call_ensures(compute_reload_actions, (&old, &new, &live), r),
        0 <= i < j < r@.len(),
        call_ensures(ReloadAction::name, (&r@[i],), a),
        call_ensures(ReloadAction::name, (&r@[j],), b),
    ensures
        before(a@, b@),
        a@ != b@,
{
    let names = action_flows(r@);
    assert(before(names[i], names[j]));
    crate::names::before_is_irreflexive(a@);
}

/// An action has the name of the flow that it is about.
pub proof fn actions_have_the_names_of_their_flows(action: ReloadAction, r: &str)
    requires
        call_ensures(ReloadAction::name, (&action,), r),
    ensures
        action is Keep ==> r@ == action->Keep_name@,
        action is Remove ==> r@ == action->Remove_name@,
        action is Disable ==> r@ == action->Disable_name@,
        action is Restart ==> r@ == action->Restart_name@,
        action is Spawn ==> r@ == action->Spawn_name@,
{
}

} // verus!
