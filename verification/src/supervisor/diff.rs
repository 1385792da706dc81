//! Which flows a new configuration leaves as they were.
use vstd::multiset::Multiset;
use vstd::prelude::*;

use crate::config::{
    actions_are_compared_in_every_part, destinations_agree,
    destinations_are_compared_in_every_part, poll_settings_are_compared_in_every_part, same_action,
    same_destination, same_poll, same_source, sources_are_compared_in_every_part, texts_agree,
    ActionConfig, ActionView, Config, Destination, DestinationView, FlowConfig, PollView,
    SourceView,
};
use crate::names::NameSet;

verus! {

/// What a flow does: all of its configuration but its name and its description, with its
/// destinations, and the events of each, in no particular order.
pub ghost struct FlowShape {
    pub enabled: bool,
    pub source: SourceView,
    pub action: ActionView,
    pub poll: PollView,
    pub destinations: Multiset<DestinationView>,
}

/// What the destinations in a list do, one after the other.
pub open spec fn destination_views(s: Seq<Destination>) -> Seq<DestinationView> {
    s.map_values(|d: Destination| d@)
}

/// What `flow` does.
pub open spec fn flow_shape(flow: FlowConfig) -> FlowShape {
    FlowShape {
        enabled: flow.enabled,
        source: flow.source@,
        action: flow.action@,
        poll: flow.poll@,
        destinations: destination_views(flow.destination@).to_multiset(),
    }
}

/// How often a destination like `d` stands in `list`.
fn count_destination(list: &Vec<Destination>, d: &Destination) -> (r: usize)
    ensures
        r == destination_views(list@).to_multiset().count(d@),
{
    let ghost all = destination_views(list@);
    let mut n: usize = 0;
    let mut i: usize = 0;
    proof {
        all.take(0).to_multiset_ensures();
    }
    while i < list.len()
        invariant
            n <= i <= list@.len(),
            all == destination_views(list@),
            n == all.take(i as int).to_multiset().count(d@),
        decreases list@.len() - i,
    {
        proof {
            let prefix = all.take(i as int);
            assert(all.take(i + 1) == prefix.push(all[i as int]));
            vstd::seq_lib::to_multiset_build(prefix, all[i as int]);
            assert(prefix.push(all[i as int]).to_multiset() == prefix.to_multiset().insert(
                all[i as int],
            ));
        }
        if same_destination(&list[i], d) {
            n += 1;
        }
        i += 1;
    }
    assert(all.take(all.len() as int) == all);
    n
}

/// Whether each destination of `a` stands equally often in `a` and in `b`.
fn counts_agree_on(a: &Vec<Destination>, b: &Vec<Destination>) -> (r: bool)
    ensures
        r == forall|i: int|
            0 <= i < a@.len() ==> destination_views(a@).to_multiset().count((#[trigger] a@[i])@)
                == destination_views(b@).to_multiset().count(a@[i]@),
{
    let mut i: usize = 0;
    while i < a.len()
        invariant
            i <= a@.len(),
            forall|j: int|
                0 <= j < i ==> destination_views(a@).to_multiset().count((#[trigger] a@[j])@)
                    == destination_views(b@).to_multiset().count(a@[j]@),
        decreases a@.len() - i,
    {
        if count_destination(a, &a[i]) != count_destination(b, &a[i]) {
            return false;
        }
        i += 1;
    }
    true
}

/// Whether two lists hold the same destinations equally often, in whatever order.
pub fn same_destinations(a: &Vec<Destination>, b: &Vec<Destination>) -> (r: bool)
    ensures
        r == (destination_views(a@).to_multiset() == destination_views(b@).to_multiset()),
{
    let holds: bool = counts_agree_on(a, b) && counts_agree_on(b, a);
    proof {
        let (x, y) = (destination_views(a@), destination_views(b@));
        x.to_multiset_ensures();
        y.to_multiset_ensures();
        if holds {
            assert forall|v: DestinationView|
                x.to_multiset().count(v) == y.to_multiset().count(v) by {
                if x.contains(v) {
                    let i = x.index_of(v);
                    assert(a@[i]@ == v);
                } else if y.contains(v) {
                    let i = y.index_of(v);
                    assert(b@[i]@ == v);
                } else {
                    assert(x.to_multiset().count(v) == 0);
                    assert(y.to_multiset().count(v) == 0);
                }
            }
            assert(x.to_multiset() =~= y.to_multiset());
        }
    }
    holds
}

/// Whether two configurations describe flows that do the same, so that the tasks of the
/// running flow may go on.
pub fn flow_config_unchanged(old: &FlowConfig, new: &FlowConfig) -> (r: bool)
    ensures
        r == (flow_shape(*old) == flow_shape(*new)),
{
    if old.enabled != new.enabled {
        return false;
    }
    same_source(&old.source, &new.source) && same_action(&old.action, &new.action) && same_poll(
        &old.poll,
        &new.poll,
    ) && same_destinations(&old.destination, &new.destination)
}

/// Whether `flow` uses credential `id`: for its action, or for a Discord destination.
pub open spec fn uses_credential(flow: FlowConfig, id: Seq<char>) -> bool {
    ||| flow.action@.credential_id == id
    ||| exists|i: int|
        0 <= i < flow.destination@.len() && discord_credential(#[trigger] flow.destination@[i])
            == Some(id)
}

/// The credential of a Discord destination.
pub open spec fn discord_credential(d: Destination) -> Option<Seq<char>> {
    match d {
        Destination::DiscordWebhook(w) => Some(w.credential_id@),
        Destination::LocalMail(_) => None,
    }
}

/// The credentials that the flows named in `keep` use.
pub open spec fn kept_credentials(flows: Seq<FlowConfig>, keep: Set<Seq<char>>) -> Set<Seq<char>> {
    Set::new(
        |id: Seq<char>|
            exists|i: int|
                0 <= i < flows.len() && keep.contains((#[trigger] flows[i]).name@)
                    && uses_credential(flows[i], id),
    )
}

/// The credentials that the flows of `new_cfg` named in `to_keep` use: each one's action
/// credential, and those of its Discord destinations.
pub fn collect_kept_credentials(new_cfg: &Config, to_keep: &NameSet) -> (r: NameSet)
    ensures
        r@ == kept_credentials(new_cfg.flow@, to_keep@),
{
    let mut keep: NameSet = NameSet::new();
    let mut i: usize = 0;
    while i < new_cfg.flow.len()
        invariant
            i <= new_cfg.flow@.len(),
            keep@ =~= kept_credentials(new_cfg.flow@.take(i as int), to_keep@),
        decreases new_cfg.flow@.len() - i,
    {
        let flow: &FlowConfig = &new_cfg.flow[i];
        let ghost shorter = new_cfg.flow@.take(i as int);
        let ghost longer = new_cfg.flow@.take(i + 1);
        proof {
            assert(longer =~= shorter.push(*flow));
        }
        if to_keep.contains(flow.name.as_str()) {
            let ghost before = keep@;
            match &flow.action {
                ActionConfig::GithubWorkflowDispatch { credential_id, .. } => {
                    keep.insert(credential_id.as_str().to_string());
                },
            }
            let mut d: usize = 0;
            while d < flow.destination.len()
                invariant
                    d <= flow.destination@.len(),
                    forall|id: Seq<char>| #[trigger]
                        keep@.contains(id) <==> before.contains(id)
                            || flow.action@.credential_id == id || exists|j: int|
                            0 <= j < d && discord_credential(#[trigger] flow.destination@[j])
                                == Some(id),
                decreases flow.destination@.len() - d,
            {
                let ghost mid = keep@;
                match &flow.destination[d] {
                    Destination::DiscordWebhook(w) => {
                        keep.insert(w.credential_id.as_str().to_string());
                    },
                    Destination::LocalMail(_) => {},
                }
                proof {
                    assert forall|id: Seq<char>| #[trigger]
                        keep@.contains(id) <==> before.contains(id)
                            || flow.action@.credential_id == id || exists|j: int|
                            0 <= j < d + 1 && discord_credential(#[trigger] flow.destination@[j])
                                == Some(id) by {
                        if keep@.contains(id) && !mid.contains(id) {
                            assert(discord_credential(flow.destination@[d as int]) == Some(id));
                        }
                        if mid.contains(id) && !before.contains(id) && flow.action@.credential_id
                            != id {
                            let j = choose|j: int|
                                0 <= j < d && discord_credential(#[trigger] flow.destination@[j])
                                    == Some(id);
                            assert(0 <= j < d + 1);
                        }
                    }
                }
                d += 1;
            }
            proof {
                assert forall|id: Seq<char>| #[trigger]
                    keep@.contains(id) <==> kept_credentials(longer, to_keep@).contains(id) by {
                    if keep@.contains(id) {
                        if before.contains(id) {
                            let k = choose|k: int|
                                0 <= k < shorter.len() && to_keep@.contains(
                                    (#[trigger] shorter[k]).name@,
                                ) && uses_credential(shorter[k], id);
                            assert(longer[k] == shorter[k]);
                        } else {
                            assert(longer[i as int] == *flow);
                            assert(uses_credential(longer[i as int], id));
                        }
                    }
                    if kept_credentials(longer, to_keep@).contains(id) {
                        let k = choose|k: int|
                            0 <= k < longer.len() && to_keep@.contains(
                                (#[trigger] longer[k]).name@,
                            ) && uses_credential(longer[k], id);
                        if k < i {
                            assert(shorter[k] == longer[k]);
                            assert(kept_credentials(shorter, to_keep@).contains(id));
                        } else {
                            assert(longer[k] == *flow);
                        }
                    }
                }
            }
        } else {
            proof {
                assert forall|id: Seq<char>| #[trigger]
                    keep@.contains(id) <==> kept_credentials(longer, to_keep@).contains(id) by {
                    if keep@.contains(id) {
                        let k = choose|k: int|
                            0 <= k < shorter.len() && to_keep@.contains(
                                (#[trigger] shorter[k]).name@,
                            ) && uses_credential(shorter[k], id);
                        assert(longer[k] == shorter[k]);
                    }
                    if kept_credentials(longer, to_keep@).contains(id) {
                        let k = choose|k: int|
                            0 <= k < longer.len() && to_keep@.contains(
                                (#[trigger] longer[k]).name@,
                            ) && uses_credential(longer[k], id);
                        assert(k < i);
                        assert(shorter[k] == longer[k]);
                    }
                }
            }
        }
        i += 1;
    }
    proof {
        assert(new_cfg.flow@.take(new_cfg.flow@.len() as int) =~= new_cfg.flow@);
    }
    keep
}

/// Whether `order` lists each index of a sequence of length `n` once.
pub open spec fn is_rearrangement(order: Seq<int>, n: nat) -> bool {
    &&& order.len() == n
    &&& order.no_duplicates()
    &&& forall|i: int| 0 <= i < n ==> 0 <= #[trigger] order[i] < n
}

/// The elements of `s` in another order.
pub open spec fn rearranged<A>(s: Seq<A>, order: Seq<int>) -> Seq<A> {
    Seq::new(s.len(), |i: int| s[order[i]])
}

/// A sequence holds the same elements equally often in whatever order.
pub proof fn rearranging_keeps_the_elements<A>(s: Seq<A>, order: Seq<int>)
    requires
        is_rearrangement(order, s.len()),
    ensures
        rearranged(s, order).to_multiset() == s.to_multiset(),
    decreases s.len(),
{
    let all = rearranged(s, order);
    if s.len() == 0 {
        assert(all =~= s);
    } else {
        let k = order.last();
        let rest = s.remove(k);
        let n = rest.len();
        let head = Seq::new(n, |i: int| if order[i] < k { order[i] } else { order[i] - 1 });
        assert(order[s.len() - 1] == k);
        assert forall|i: int, j: int| 0 <= i < n && 0 <= j < n && i != j implies head[i]
            != head[j] by {
            assert(order[i] != order[j]);
            assert(order[i] != order[s.len() - 1]);
            assert(order[j] != order[s.len() - 1]);
        }
        assert forall|i: int| 0 <= i < n implies 0 <= #[trigger] head[i] < n by {
            assert(order[i] != order[s.len() - 1]);
            assert(0 <= order[i] < s.len());
        }
        rearranging_keeps_the_elements(rest, head);
        assert(all =~= rearranged(rest, head).push(s[k])) by {
            assert forall|i: int| 0 <= i < n implies all[i] == rearranged(rest, head)[i] by {
                assert(order[i] != order[s.len() - 1]);
            }
        }
        vstd::seq_lib::to_multiset_build(rearranged(rest, head), s[k]);
        vstd::seq_lib::to_multiset_insert(rest, k, s[k]);
        assert(rest.insert(k, s[k]) =~= s);
    }
}

/// A flow whose destinations are listed in another order does the same.
pub proof fn destination_order_does_not_matter(old: FlowConfig, new: FlowConfig, order: Seq<int>)
    requires
        new.enabled == old.enabled,
        new.source@ == old.source@,
        new.action@ == old.action@,
        new.poll@ == old.poll@,
        is_rearrangement(order, old.destination@.len()),
        new.destination@ == rearranged(old.destination@, order),
    ensures
        flow_shape(new) == flow_shape(old),
{
    let views = destination_views(old.destination@);
    rearranging_keeps_the_elements(views, order);
    assert(destination_views(new.destination@) =~= rearranged(views, order));
}

/// A webhook whose events are listed in another order does the same, and so does a mail
/// destination.
pub proof fn event_order_does_not_matter(old: Destination, new: Destination, order: Seq<int>)
    requires
        match (old, new) {
            (Destination::DiscordWebhook(a), Destination::DiscordWebhook(b)) => {
                &&& b.credential_id@ == a.credential_id@
                &&& b.template.parts@ == a.template.parts@
                &&& is_rearrangement(order, a.fire_on@.len())
                &&& b.fire_on@ == rearranged(a.fire_on@, order)
            },
            (Destination::LocalMail(a), Destination::LocalMail(b)) => {
                &&& b.user@ == a.user@
                &&& b.template.parts@ == a.template.parts@
                &&& is_rearrangement(order, a.fire_on@.len())
                &&& b.fire_on@ == rearranged(a.fire_on@, order)
            },
            _ => false,
        },
    ensures
        new@ == old@,
{
    match old {
        Destination::DiscordWebhook(a) => {
            rearranging_keeps_the_elements(a.fire_on@, order);
        },
        Destination::LocalMail(a) => {
            rearranging_keeps_the_elements(a.fire_on@, order);
        },
    }
}

/// Neither a flow's name nor its description bears on what it does.
pub proof fn name_and_description_do_not_matter(old: FlowConfig, new: FlowConfig)
    requires
        new == (FlowConfig { name: new.name, description: new.description, ..old }),
    ensures
        flow_shape(new) == flow_shape(old),
{
}

/// Flows with different numbers of destinations do different things, though what one has more
/// of may be like others that it has.
pub proof fn destinations_count(old: FlowConfig, new: FlowConfig)
    requires
        new.destination@.len() != old.destination@.len(),
    ensures
        flow_shape(new) != flow_shape(old),
{
    vstd::seq_lib::to_multiset_len(destination_views(old.destination@));
    vstd::seq_lib::to_multiset_len(destination_views(new.destination@));
}

/// The credentials that a kept flow uses are among those that are kept.
pub proof fn kept_flows_keep_their_credentials(
    flows: Seq<FlowConfig>,
    keep: Set<Seq<char>>,
    i: int,
    id: Seq<char>,
)
    requires
        0 <= i < flows.len(),
        keep.contains(flows[i].name@),
        uses_credential(flows[i], id),
    ensures
        kept_credentials(flows, keep).contains(id),
{
}

/// How many destinations of a list agree with `d`.
pub open spec fn agreeing(list: Seq<Destination>, d: Destination) -> nat
    decreases list.len(),
{
    if list.len() == 0 {
        0
    } else if destinations_agree(list.last(), d) {
        agreeing(list.drop_last(), d) + 1
    } else {
        agreeing(list.drop_last(), d)
    }
}

/// As many destinations of a list agree with one as are like it.
proof fn agreeing_is_counted(list: Seq<Destination>, d: Destination)
    ensures
        agreeing(list, d) == destination_views(list).to_multiset().count(d@),
    decreases list.len(),
{
    let views = destination_views(list);
    if list.len() == 0 {
        views.to_multiset_ensures();
    } else {
        let shorter = list.drop_last();
        agreeing_is_counted(shorter, d);
        assert(views =~= destination_views(shorter).push(list.last()@));
        vstd::seq_lib::to_multiset_build(destination_views(shorter), list.last()@);
        destinations_are_compared_in_every_part(list.last(), d);
    }
}

/// Two flows do the same just where everything but name and description agrees: whether they are
/// enabled, the source's URL, ref and credential, the action's repository, workflow, ref,
/// credential and inputs, the poll settings, and how often each destination is listed.
pub proof fn flows_are_compared_in_every_part(a: FlowConfig, b: FlowConfig)
    ensures
        flow_shape(a) == flow_shape(b) <==> {
            &&& a.enabled == b.enabled
            &&& a.source.url@ == b.source.url@
            &&& a.source.ref_name@ == b.source.ref_name@
            &&& a.source.credential_id is Some <==> b.source.credential_id is Some
            &&& a.source.credential_id is Some ==> a.source.credential_id->0@
                == b.source.credential_id->0@
            &&& a.action->repo@ == b.action->repo@
            &&& a.action->workflow@ == b.action->workflow@
            &&& a.action->ref_name@ == b.action->ref_name@
            &&& a.action->credential_id@ == b.action->credential_id@
            &&& texts_agree(a.action->inputs@, b.action->inputs@)
            &&& a.poll.source_interval is Some <==> b.poll.source_interval is Some
            &&& a.poll.source_interval is Some ==> a.poll.source_interval->0.nanos
                == b.poll.source_interval->0.nanos
            &&& texts_agree(a.poll.others@, b.poll.others@)
            &&& forall|d: Destination|
                agreeing(a.destination@, d) == #[trigger] agreeing(b.destination@, d)
        },
{
    sources_are_compared_in_every_part(a.source, b.source);
    actions_are_compared_in_every_part(a.action, b.action);
    poll_settings_are_compared_in_every_part(a.poll, b.poll);
    listings_are_compared(a.destination@, b.destination@);
}

/// Lists have the same destinations just where each is listed equally often in both.
proof fn listings_are_compared(a: Seq<Destination>, b: Seq<Destination>)
    ensures
        destination_views(a).to_multiset() == destination_views(b).to_multiset() <==> forall|
            d: Destination,
        |
            agreeing(a, d) == #[trigger] agreeing(b, d),
{
    let (x, y) = (destination_views(a), destination_views(b));
    x.to_multiset_ensures();
    y.to_multiset_ensures();
    assert forall|d: Destination| true implies agreeing(a, d)
        == x.to_multiset().count(d@) && #[trigger] agreeing(b, d)
        == y.to_multiset().count(d@) by {
        agreeing_is_counted(a, d);
        agreeing_is_counted(b, d);
    }
    if forall|d: Destination| agreeing(a, d) == #[trigger] agreeing(b, d) {
        assert forall|v: DestinationView|
            x.to_multiset().count(v) == y.to_multiset().count(v) by {
            if x.contains(v) {
                let d = a[x.index_of(v)];
                assert(agreeing(a, d) == agreeing(b, d));
            } else if y.contains(v) {
                let d = b[y.index_of(v)];
                assert(agreeing(a, d) == agreeing(b, d));
            } else {
                assert(x.to_multiset().count(v) == 0);
                assert(y.to_multiset().count(v) == 0);
            }
        }
        assert(x.to_multiset() =~= y.to_multiset());
    }
}

/// The credentials that are kept are just those of the actions and the Discord destinations of
/// kept flows.
pub proof fn credentials_are_kept_just_for_kept_flows(
    flows: Seq<FlowConfig>,
    keep: Set<Seq<char>>,
    id: Seq<char>,
)
    ensures
        kept_credentials(flows, keep).contains(id) <==> exists|i: int|
            0 <= i < flows.len() && keep.contains((#[trigger] flows[i]).name@) && (
            flows[i].action->credential_id@ == id || exists|j: int|
                0 <= j < flows[i].destination@.len() && ((
                #[trigger] flows[i].destination@[j]) matches Destination::DiscordWebhook(w)
                    && w.credential_id@ == id)),
{
    if kept_credentials(flows, keep).contains(id) {
        let i = choose|i: int|
            0 <= i < flows.len() && keep.contains((#[trigger] flows[i]).name@) && uses_credential(
                flows[i],
                id,
            );
        if flows[i].action->credential_id@ != id {
            let j = choose|j: int|
                0 <= j < flows[i].destination@.len() && discord_credential(
                    #[trigger] flows[i].destination@[j],
                ) == Some(id);
            assert(flows[i].destination@[j] matches Destination::DiscordWebhook(w)
                && w.credential_id@ == id);
        }
        assert(keep.contains(flows[i].name@));
    }
    if exists|i: int|
        0 <= i < flows.len() && keep.contains((#[trigger] flows[i]).name@) && (
        flows[i].action->credential_id@ == id || exists|j: int|
            0 <= j < flows[i].destination@.len() && ((
            #[trigger] flows[i].destination@[j]) matches Destination::DiscordWebhook(w)
                && w.credential_id@ == id)) {
        let i = choose|i: int|
            0 <= i < flows.len() && keep.contains((#[trigger] flows[i]).name@) && (
            flows[i].action->credential_id@ == id || exists|j: int|
                0 <= j < flows[i].destination@.len() && ((
                #[trigger] flows[i].destination@[j]) matches Destination::DiscordWebhook(w)
                    && w.credential_id@ == id));
        if flows[i].action->credential_id@ != id {
            let j = choose|j: int|
                0 <= j < flows[i].destination@.len() && ((
                #[trigger] flows[i].destination@[j]) matches Destination::DiscordWebhook(w)
                    && w.credential_id@ == id);
            assert(discord_credential(flows[i].destination@[j]) == Some(id));
        }
        assert(uses_credential(flows[i], id));
    }
}

/// A flow does the same before and after just where everything but name and description agrees:
/// whether it is enabled, the source's URL, ref and credential, the action's repository, workflow,
/// ref, credential and inputs, the poll settings, and how often each destination is listed.
pub proof fn unchanged_flows_agree_in_every_part(old: FlowConfig, new: FlowConfig, r: bool)
    requires
        call_ensures(flow_config_unchanged, (&old, &new), r),
    ensures
        r <==> {
            &&& old.enabled == new.enabled
            &&& old.source.url@ == new.source.url@
            &&& old.source.ref_name@ == new.source.ref_name@
            &&& old.source.credential_id is Some <==> new.source.credential_id is Some
            &&& old.source.credential_id is Some ==> old.source.credential_id->0@
                == new.source.credential_id->0@
            &&& old.action->repo@ == new.action->repo@
            &&& old.action->workflow@ == new.action->workflow@
            &&& old.action->ref_name@ == new.action->ref_name@
            &&& old.action->credential_id@ == new.action->credential_id@
            &&& texts_agree(old.action->inputs@, new.action->inputs@)
            &&& old.poll.source_interval is Some <==> new.poll.source_interval is Some
            &&& old.poll.source_interval is Some ==> old.poll.source_interval->0.nanos
                == new.poll.source_interval->0.nanos
            &&& texts_agree(old.poll.others@, new.poll.others@)
            &&& forall|d: Destination|
                agreeing(old.destination@, d) == #[trigger] agreeing(new.destination@, d)
        },
{
    flows_are_compared_in_every_part(old, new);
}

/// Lists of destinations are the same just where each destination is listed equally often in both,
/// in whatever order.
pub proof fn destinations_are_compared_by_how_often_they_are_listed(
    a: Vec<Destination>,
    b: Vec<Destination>,
    r: bool,
)
    requires
        call_ensures(same_destinations, (&a, &b), r),
    ensures
        r <==> forall|d: Destination| agreeing(a@, d) == #[trigger] agreeing(b@, d),
{
    listings_are_compared(a@, b@);
}

/// The credentials that are kept are just those of the actions and the Discord destinations of
/// kept flows.
pub proof fn kept_credentials_are_those_of_kept_flows(
    cfg: Config,
    to_keep: NameSet,
    r: NameSet,
    id: Seq<char>,
)
    requires
        call_ensures(collect_kept_credentials, (&cfg, &to_keep), r),
    ensures
        r@.contains(id) <==> exists|i: int|
            0 <= i < cfg.flow@.len() && to_keep@.contains((#[trigger] cfg.flow@[i]).name@) && (
            cfg.flow@[i].action->credential_id@ == id || exists|j: int|
                0 <= j < cfg.flow@[i].destination@.len() && ((
                #[trigger] cfg.flow@[i].destination@[j]) matches Destination::DiscordWebhook(w)
                    && w.credential_id@ == id)),
{
    credentials_are_kept_just_for_kept_flows(cfg.flow@, to_keep@, id);
}

} // verus!
