//! What the supervisor knows of its flows, and the last error of each.
use vstd::prelude::*;

use crate::names::{NameMap, NameSet};
use crate::text::to_chars;
use crate::time::Timestamp;

verus! {

/// The key under which a failed reload is recorded among the last errors.
pub const RELOAD_SYNTHETIC_KEY: &'static str = "(reload)";

/// Whether `name` is a key of the daemon itself rather than the name of a flow.
pub open spec fn is_synthetic(name: Seq<char>) -> bool {
    name.len() > 0 && name.first() == '(' && name.last() == ')'
}

/// Whether `name` can name a flow: one or more ASCII letters, digits, `_` and `-`.
pub open spec fn is_flow_name(name: Seq<char>) -> bool {
    name.len() > 0 && forall|i: int|
        0 <= i < name.len() ==> {
            let c = #[trigger] name[i];
            'a' <= c <= 'z' || 'A' <= c <= 'Z' || '0' <= c <= '9' || c == '_' || c == '-'
        }
}

/// No key of the daemon itself can name a flow.
pub proof fn synthetic_keys_name_no_flow(name: Seq<char>)
    requires
        is_synthetic(name),
    ensures
        !is_flow_name(name),
{
    assert(name[0] == '(');
}

/// The key of a failed reload is a key of the daemon itself.
pub proof fn reload_key_is_synthetic()
    ensures
        is_synthetic(RELOAD_SYNTHETIC_KEY@),
{
    reveal_strlit("(reload)");
}

/// Whether `name` is a key of the daemon itself rather than the name of a flow.
pub fn is_synthetic_daemon_key(name: &str) -> (r: bool)
    ensures
        r == is_synthetic(name@),
{
    let cs: Vec<char> = to_chars(name);
    cs.len() > 0 && cs[0] == '(' && cs[cs.len() - 1] == ')'
}

/// Which of a flow's two tasks.
#[derive(Clone, Copy, PartialEq, Eq, Structural, Debug)]
pub enum FlowRole {
    Poll,
    Dispatcher,
}

/// The end of one of a flow's tasks. `panic` is the panic's message, if it panicked.
#[derive(Debug)]
pub struct FlowExit {
    pub flow: String,
    pub role: FlowRole,
    pub panic: Option<String>,
}

/// What the supervisor knows of its flows. A handle reaches the two tasks of a running
/// flow: it cancels them and hands them triggers.
pub struct FlowRegistry<H> {
    /// The handles of the running flows.
    pub handles: NameMap<H>,
    /// The flows that panicked and have a respawn under way.
    pub respawning_flows: NameSet,
    /// How many tasks of each flow have started and not been seen to end. A flow without
    /// such a task is absent.
    pub pending_exits: NameMap<u8>,
}

/// What the supervisor knows of its flows, as maps and a set.
#[verifier::ext_equal]
pub ghost struct RegistryView<H> {
    pub handles: Map<Seq<char>, H>,
    pub respawning: Set<Seq<char>>,
    pub pending: Map<Seq<char>, u8>,
}

impl<H> View for FlowRegistry<H> {
    type V = RegistryView<H>;

    open spec fn view(&self) -> RegistryView<H> {
        RegistryView {
            handles: self.handles@,
            respawning: self.respawning_flows@,
            pending: self.pending_exits@,
        }
    }
}

/// How many tasks of `flow` have started and not been seen to end.
pub open spec fn pending(exits: Map<Seq<char>, u8>, flow: Seq<char>) -> int {
    if exits.dom().contains(flow) {
        exits[flow] as int
    } else {
        0
    }
}

/// The counts of unseen exits once one exit of a task of `flow` has been seen.
pub open spec fn exit_seen(exits: Map<Seq<char>, u8>, flow: Seq<char>) -> Map<Seq<char>, u8> {
    if pending(exits, flow) <= 1 {
        exits.remove(flow)
    } else {
        exits.insert(flow, (exits[flow] - 1) as u8)
    }
}

/// The counts of unseen exits once a pair of tasks of `flow` has been spawned.
pub open spec fn pair_spawned(exits: Map<Seq<char>, u8>, flow: Seq<char>) -> Map<Seq<char>, u8> {
    exits.insert(flow, (pending(exits, flow) + 2) as u8)
}

impl<H> FlowRegistry<H> {
    /// No flow is both running and about to be respawned, and a flow is listed as having
    /// unseen exits only if it has some.
    pub open spec fn consistent(self) -> bool {
        &&& self.handles@.dom().disjoint(self.respawning_flows@)
        &&& forall|f: Seq<char>| #[trigger]
            self.pending_exits@.dom().contains(f) ==> self.pending_exits@[f] > 0
    }

    /// A registry without flows.
    pub fn new() -> (r: FlowRegistry<H>)
        ensures
            r.handles@ == Map::<Seq<char>, H>::empty(),
            r.respawning_flows@ == Set::<Seq<char>>::empty(),
            r.pending_exits@ == Map::<Seq<char>, u8>::empty(),
            r.consistent(),
    {
        FlowRegistry {
            handles: NameMap::new(),
            respawning_flows: NameSet::new(),
            pending_exits: NameMap::new(),
        }
    }

    /// Counts one seen exit of a task of `flow`.
    pub fn note_exit(&mut self, flow: &str)
        ensures
            final(self).handles@ == old(self).handles@,
            final(self).respawning_flows@ == old(self).respawning_flows@,
            final(self).pending_exits@ == exit_seen(old(self).pending_exits@, flow@),
            old(self).consistent() ==> final(self).consistent(),
    {
        let count: Option<u8> = match self.pending_exits.get(flow) {
            Some(n) => Some(*n),
            None => None,
        };
        match count {
            Some(n) => {
                if n <= 1 {
                    self.pending_exits.remove(flow);
                } else {
                    self.pending_exits.insert(flow.to_string(), n - 1);
                }
            },
            None => {},
        }
        proof {
            assert(self.pending_exits@ =~= exit_seen(old(self).pending_exits@, flow@));
        }
    }

    /// Enters a freshly spawned pair of tasks of `flow`, which `handle` reaches, and gives
    /// back the handle that it replaces.
    pub fn register_spawn(&mut self, flow: &str, handle: H) -> (r: Option<H>)
        requires
            pending(old(self).pending_exits@, flow@) <= 253,
        ensures
            final(self).handles@ == old(self).handles@.insert(flow@, handle),
            final(self).respawning_flows@ == old(self).respawning_flows@,
            final(self).pending_exits@ == pair_spawned(old(self).pending_exits@, flow@),
            r is Some <==> old(self).handles@.dom().contains(flow@),
            r matches Some(h) ==> h == old(self).handles@[flow@],
            old(self).consistent() && !old(self).respawning_flows@.contains(flow@)
                ==> final(self).consistent(),
    {
        let replaced: Option<H> = self.handles.insert(flow.to_string(), handle);
        let n: u8 = match self.pending_exits.get(flow) {
            Some(n) => *n,
            None => 0,
        };
        self.pending_exits.insert(flow.to_string(), n + 2);
        replaced
    }

    /// How many tasks of `flow` have started and not been seen to end.
    pub fn pending_exits_of(&self, flow: &str) -> (r: u8)
        ensures
            r == pending(self.pending_exits@, flow@),
    {
        match self.pending_exits.get(flow) {
            Some(n) => *n,
            None => 0,
        }
    }
}

/// A pair of tasks that is spawned and seen to end twice leaves the count of unseen exits
/// where it was.
pub proof fn two_exits_undo_a_spawn(before: Map<Seq<char>, u8>, flow: Seq<char>)
    requires
        pending(before, flow) <= 253,
        before.dom().contains(flow) ==> before[flow] > 0,
    ensures
        exit_seen(exit_seen(pair_spawned(before, flow), flow), flow) == before,
{
    assert(exit_seen(exit_seen(pair_spawned(before, flow), flow), flow) =~= before);
}

/// The last error of a flow.
#[derive(Debug)]
pub struct FlowLastError {
    at: Timestamp,
    kind: String,
    message: String,
    retry_at: Option<Timestamp>,
}

/// What is known of a flow's last error.
pub ghost struct FlowLastErrorView {
    pub at: Timestamp,
    pub kind: Seq<char>,
    pub message: Seq<char>,
    pub retry_at: Option<Timestamp>,
}

impl View for FlowLastError {
    type V = FlowLastErrorView;

    closed spec fn view(&self) -> FlowLastErrorView {
        FlowLastErrorView {
            at: self.at,
            kind: self.kind@,
            message: self.message@,
            retry_at: self.retry_at,
        }
    }
}

impl FlowLastError {
    /// When the error was recorded.
    pub fn at(&self) -> (r: Timestamp)
        ensures
            r == self@.at,
    {
        self.at
    }

    /// What kind of error it is.
    pub fn kind(&self) -> (r: &str)
        ensures
            r@ == self@.kind,
    {
        self.kind.as_str()
    }

    /// What happened.
    pub fn message(&self) -> (r: &str)
        ensures
            r@ == self@.message,
    {
        self.message.as_str()
    }

    /// When the condition is expected to clear.
    pub fn retry_at(&self) -> (r: Option<Timestamp>)
        ensures
            r == self@.retry_at,
    {
        self.retry_at
    }
}

/// Whether `after` is `before` with `error` as the last error of `flow`.
pub open spec fn error_recorded(
    before: Map<Seq<char>, FlowLastError>,
    after: Map<Seq<char>, FlowLastError>,
    flow: Seq<char>,
    error: FlowLastErrorView,
) -> bool {
    &&& after.dom().contains(flow)
    &&& after[flow]@ == error
    &&& after.remove(flow) == before.remove(flow)
}

/// Records an error of `flow`, in place of the one that was recorded before.
pub fn record_last_error(
    map: &mut NameMap<FlowLastError>,
    flow: &str,
    kind: &str,
    message: &str,
    retry_at: Option<Timestamp>,
    now: Timestamp,
)
    ensures
        error_recorded(
            old(map)@,
            final(map)@,
            flow@,
            (FlowLastErrorView { at: now, kind: kind@, message: message@, retry_at }),
        ),
{
    map.insert(
        flow.to_string(),
        FlowLastError {
            at: now,
            kind: kind.to_string(),
            message: message.to_string(),
            retry_at,
        },
    );
    assert(map@.remove(flow@) =~= old(map)@.remove(flow@));
}

/// A key is the daemon's own just where it is in parentheses.
pub proof fn own_keys_stand_in_parentheses(name: Seq<char>, inner: Seq<char>)
    ensures
        is_synthetic(seq!['('] + inner + seq![')']),
        is_synthetic(name) ==> exists|s: Seq<char>| name == seq!['('] + s + seq![')'],
        name.len() > 0 && name[0] != '(' ==> !is_synthetic(name),
        name.len() > 0 && name[name.len() - 1] != ')' ==> !is_synthetic(name),
        !is_synthetic(Seq::<char>::empty()),
{
    let whole = seq!['('] + inner + seq![')'];
    assert(whole.first() == '(');
    assert(whole.last() == ')');
    if is_synthetic(name) {
        assert(name[0] == '(' && name[name.len() - 1] == ')');
        assert(name.len() > 1);
        let s = name.subrange(1, name.len() - 1);
        assert(name =~= seq!['('] + s + seq![')']);
    }
}

/// Seeing an exit takes one off the unseen exits of its flow, down to none and not below, and a
/// flow without any is not listed. A spawn adds two. What is unseen of other flows stays as it
/// was either way.
pub proof fn exits_are_counted_by_flow(
    exits: Map<Seq<char>, u8>,
    flow: Seq<char>,
    other: Seq<char>,
)
    requires
        exits.dom().contains(flow) ==> exits[flow] > 0,
        other != flow,
    ensures
        ({
            let n: int = if exits.dom().contains(flow) {
                exits[flow] as int
            } else {
                0
            };
            let seen = exit_seen(exits, flow);
            let spawned = pair_spawned(exits, flow);
            &&& pending(exits, flow) == n
            &&& seen.dom().contains(flow) <==> n > 1
            &&& n > 1 ==> seen[flow] == n - 1
            &&& seen.dom().contains(other) <==> exits.dom().contains(other)
            &&& exits.dom().contains(other) ==> seen[other] == exits[other]
            &&& spawned.dom().contains(flow)
            &&& n <= 253 ==> spawned[flow] == n + 2
            &&& spawned.dom().contains(other) <==> exits.dom().contains(other)
            &&& exits.dom().contains(other) ==> spawned[other] == exits[other]
        }),
{
}

/// In a consistent registry no running flow is about to be respawned, and every flow that is
/// listed with unseen exits has some; and a registry of which both hold is consistent.
pub proof fn consistency_tells_running_and_respawning_flows_apart<H>(
    registry: FlowRegistry<H>,
    flow: Seq<char>,
)
    ensures
        registry.consistent() ==> !(registry.handles@.dom().contains(flow)
            && registry.respawning_flows@.contains(flow)),
        registry.consistent() && registry.pending_exits@.dom().contains(flow)
            ==> registry.pending_exits@[flow] > 0,
        (forall|f: Seq<char>|
            !((#[trigger] registry.handles@.dom().contains(f))
                && registry.respawning_flows@.contains(f))) && (forall|f: Seq<char>| #[trigger]
            registry.pending_exits@.dom().contains(f) ==> registry.pending_exits@[f] > 0)
            ==> registry.consistent(),
{
}

/// What is known of a registry is its handles, its respawns and its unseen exits.
pub proof fn registries_are_known_by_their_parts<H>(registry: FlowRegistry<H>)
    ensures
        registry@.handles == registry.handles@,
        registry@.respawning == registry.respawning_flows@,
        registry@.pending == registry.pending_exits@,
{
}

/// Recording an error gives its flow that error, and leaves every other flow the one it had, or
/// none.
pub proof fn errors_are_recorded_for_one_flow(
    before: Map<Seq<char>, FlowLastError>,
    after: Map<Seq<char>, FlowLastError>,
    flow: Seq<char>,
    error: FlowLastErrorView,
    other: Seq<char>,
)
    requires
        error_recorded(before, after, flow, error),
        other != flow,
    ensures
        after.dom().contains(flow),
        after[flow]@ == error,
        after.dom().contains(other) <==> before.dom().contains(other),
        before.dom().contains(other) ==> after[other] == before[other],
{
    assert(after.remove(flow).dom().contains(other) == before.remove(flow).dom().contains(other));
    assert(after.dom().contains(other) ==> after.remove(flow)[other] == after[other]);
    assert(before.dom().contains(other) ==> before.remove(flow)[other] == before[other]);
}

/// An error is read back as it was recorded: when it was, its kind, what happened, and when it is
/// expected to clear.
pub proof fn errors_are_read_back_as_recorded(
    map: &mut NameMap<FlowLastError>,
    flow: &str,
    kind: &str,
    message: &str,
    retry_at: Option<Timestamp>,
    now: Timestamp,
    read_at: Timestamp,
    read_kind: &str,
    read_message: &str,
    read_retry_at: Option<Timestamp>,
)
    requires
        call_ensures(record_last_error, (map, flow, kind, message, retry_at, now), ()),
        call_ensures(FlowLastError::at, (&final(map)@[flow@],), read_at),
        call_ensures(FlowLastError::kind, (&final(map)@[flow@],), read_kind),
        call_ensures(FlowLastError::message, (&final(map)@[flow@],), read_message),
        call_ensures(FlowLastError::retry_at, (&final(map)@[flow@],), read_retry_at),
    ensures
        final(map)@.dom().contains(flow@),
        read_at == now,
        read_kind@ == kind@,
        read_message@ == message@,
        read_retry_at == retry_at,
{
}

/// Spawning a flow enters its handle and two tasks that are to be seen to end; each end that is
/// seen takes one off. Neither touches another flow or the respawns that are under way.
pub proof fn spawns_and_ends_of_tasks_are_entered<H>(
    spawned: &mut FlowRegistry<H>,
    ended: &mut FlowRegistry<H>,
    flow: &str,
    handle: H,
    replaced: Option<H>,
    unseen: u8,
    other: Seq<char>,
)
    requires
        old(ended).consistent(),
        pending(old(spawned).pending_exits@, flow@) <= 253,
        other != flow@,
        call_ensures(FlowRegistry::<H>::register_spawn, (spawned, flow, handle), replaced),
        call_ensures(FlowRegistry::<H>::note_exit, (ended, flow), ()),
        call_ensures(FlowRegistry::<H>::pending_exits_of, (&*old(ended), flow), unseen),
    ensures
        final(spawned).handles@ == old(spawned).handles@.insert(flow@, handle),
        replaced is Some <==> old(spawned).handles@.dom().contains(flow@),
        replaced is Some ==> replaced->0 == old(spawned).handles@[flow@],
        final(spawned).pending_exits@.dom().contains(flow@),
        final(spawned).pending_exits@[flow@] == 2 + if old(
            spawned,
        ).pending_exits@.dom().contains(flow@) {
            old(spawned).pending_exits@[flow@] as int
        } else {
            0
        },
        final(spawned).pending_exits@.remove(flow@) == old(spawned).pending_exits@.remove(flow@),
        final(spawned).respawning_flows@ == old(spawned).respawning_flows@,
        final(ended).handles@ == old(ended).handles@,
        final(ended).respawning_flows@ == old(ended).respawning_flows@,
        unseen > 0 <==> old(ended).pending_exits@.dom().contains(flow@),
        unseen > 0 ==> unseen == old(ended).pending_exits@[flow@],
        final(ended).pending_exits@.dom().contains(flow@) <==> unseen > 1,
        unseen > 1 ==> final(ended).pending_exits@[flow@] == unseen - 1,
        final(ended).pending_exits@.remove(flow@) == old(ended).pending_exits@.remove(flow@),
{
    assert(final(ended).pending_exits@.remove(flow@) =~= old(ended).pending_exits@.remove(flow@));
    assert(final(spawned).pending_exits@.remove(flow@) =~= old(spawned).pending_exits@.remove(
        flow@,
    ));
}

/// The daemon's own keys are told from the names of flows by the parentheses round them.
pub proof fn own_keys_are_told_by_their_parentheses(name: &str, r: bool)
    requires
        call_ensures(is_synthetic_daemon_key, (name,), r),
    ensures
        r <==> name@.len() > 0 && name@[0] == '(' && name@[name@.len() - 1] == ')',
        is_flow_name(name@) ==> !r,
        RELOAD_SYNTHETIC_KEY@ == "(reload)"@,
{
}

/// A flow's name is made of letters, digits, underscores and hyphens, and of at least one.
pub proof fn names_of_flows_are_made_of_few_characters(name: Seq<char>, c: char)
    ensures
        !is_flow_name(Seq::<char>::empty()),
        is_flow_name(seq![c]) <==> 'a' <= c <= 'z' || 'A' <= c <= 'Z' || '0' <= c <= '9' || c
            == '_' || c == '-',
        name.len() > 0 ==> (is_flow_name(name.push(c)) <==> is_flow_name(name) && is_flow_name(
            seq![c],
        )),
{
    assert(seq![c][0] == c);
    let longer = name.push(c);
    if name.len() > 0 {
        if is_flow_name(longer) {
            assert forall|i: int| 0 <= i < name.len() implies #[trigger] name[i] == longer[i] by {}
            assert(longer[name.len() as int] == c);
        }
        if is_flow_name(name) && is_flow_name(seq![c]) {
            assert forall|i: int| 0 <= i < longer.len() implies ({
                let d = #[trigger] longer[i];
                'a' <= d <= 'z' || 'A' <= d <= 'Z' || '0' <= d <= '9' || d == '_' || d == '-'
            }) by {
                if i < name.len() {
                    assert(longer[i] == name[i]);
                }
            }
        }
    }
}

} // verus!
