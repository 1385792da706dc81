//! What the supervisor does when a task of a flow ends, and when a flow is to be respawned.
use vstd::prelude::*;

use crate::config::{first_named, has_flow, Config};
use crate::names::NameMap;
use crate::supervisor::types::{
    error_recorded, errors_are_recorded_for_one_flow, exit_seen, pending, record_last_error,
    FlowExit, FlowLastError, FlowLastErrorView, FlowRegistry, RegistryView,
};
use crate::time::Timestamp;

verus! {

/// How long after a panic a flow is respawned, in seconds.
pub const RESPAWN_DELAY_SECS: u64 = 30;

/// How often a respawn is put off because tasks of the flow have not ended.
pub const RESPAWN_MAX_ATTEMPTS: u32 = 30;

/// How long a respawn is put off each time, in seconds.
pub const RESPAWN_RETRY_INTERVAL_SECS: u64 = 1;

/// How a task came to its end.
#[derive(Debug)]
pub enum JoinOutcome {
    /// The task ended, in a panic or without one.
    Exited(FlowExit),
    /// The runtime cancelled the task.
    Cancelled,
    /// The runtime could not say how the task ended.
    Failed,
}

/// What the end of a task calls for.
#[derive(Clone, Copy, PartialEq, Eq, Structural, Debug)]
pub enum RespawnDecision {
    /// Nothing: how the task ended is unknown.
    UnexpectedJoinError,
    /// Nothing: the task was cancelled.
    Cancelled,
    /// The flow's handle is dropped. A respawn that is under way goes on.
    CleanExit,
    /// The panic is recorded. A respawn of the flow is under way already.
    PanicDuplicate,
    /// The panic is recorded, the flow's other task is cancelled, and the flow is respawned.
    PanicFirst,
}

/// What the end of a task calls for.
pub open spec fn decision(joined: JoinOutcome, already_respawning: bool) -> RespawnDecision {
    match joined {
        JoinOutcome::Cancelled => RespawnDecision::Cancelled,
        JoinOutcome::Failed => RespawnDecision::UnexpectedJoinError,
        JoinOutcome::Exited(exit) => if exit.panic is None {
            RespawnDecision::CleanExit
        } else if already_respawning {
            RespawnDecision::PanicDuplicate
        } else {
            RespawnDecision::PanicFirst
        },
    }
}

/// What the end of a task calls for. `already_respawning` is whether a respawn of its flow
/// was under way before.
pub fn decide_respawn(joined: &JoinOutcome, already_respawning: bool) -> (r: RespawnDecision)
    ensures
        r == decision(*joined, already_respawning),
{
    match joined {
        JoinOutcome::Cancelled => RespawnDecision::Cancelled,
        JoinOutcome::Failed => RespawnDecision::UnexpectedJoinError,
        JoinOutcome::Exited(exit) => {
            if exit.panic.is_none() {
                RespawnDecision::CleanExit
            } else if already_respawning {
                RespawnDecision::PanicDuplicate
            } else {
                RespawnDecision::PanicFirst
            }
        },
    }
}

/// The registry after an exit of a task of `flow` was seen, in a panic or without one.
pub open spec fn after_exit<H>(
    reg: RegistryView<H>,
    flow: Seq<char>,
    panicked: bool,
) -> RegistryView<H> {
    let first = panicked && !reg.respawning.contains(flow);
    RegistryView {
        handles: if panicked && !first {
            reg.handles
        } else {
            reg.handles.remove(flow)
        },
        respawning: if first {
            reg.respawning.insert(flow)
        } else {
            reg.respawning
        },
        pending: exit_seen(reg.pending, flow),
    }
}

/// What is left to do after a task's end.
pub enum ExitEffect<H> {
    /// Nothing.
    Nothing,
    /// Cancel the flow's tasks, if `cancelled` reaches them, and ask for a respawn of the flow
    /// after `RESPAWN_DELAY_SECS`.
    Respawn { cancelled: Option<H>, request: RespawnRequest },
}

/// A request to respawn a flow that panicked. `attempts` is how often it was put off.
#[derive(Debug)]
pub struct RespawnRequest {
    pub flow: String,
    pub attempts: u32,
}

/// Takes in the end of a task: counts it, drops the handle of a flow that has ended, records a
/// panic, and says whether the flow is to be respawned.
pub fn handle_flow_exit<H>(
    joined: JoinOutcome,
    errors: &mut NameMap<FlowLastError>,
    registry: &mut FlowRegistry<H>,
    now: Timestamp,
) -> (r: ExitEffect<H>)
    ensures
        match joined {
            JoinOutcome::Exited(exit) => {
                &&& final(registry)@ == after_exit(
                    old(registry)@,
                    exit.flow@,
                    exit.panic is Some,
                )
                &&& match exit.panic {
                    Some(message) => error_recorded(
                        old(errors)@,
                        final(errors)@,
                        exit.flow@,
                        (FlowLastErrorView {
                            at: now,
                            kind: "panic"@,
                            message: message@,
                            retry_at: None,
                        }),
                    ),
                    None => final(errors)@ == old(errors)@,
                }
                &&& r is Respawn <==> exit.panic is Some && !old(
                    registry,
                ).respawning_flows@.contains(exit.flow@)
                &&& r matches ExitEffect::Respawn { cancelled, request } ==> {
                    &&& request.flow@ == exit.flow@
                    &&& request.attempts == 0
                    &&& cancelled is Some <==> old(registry).handles@.dom().contains(exit.flow@)
                    &&& cancelled matches Some(h) ==> h == old(registry).handles@[exit.flow@]
                }
            },
            _ => {
                &&& final(registry)@ == old(registry)@
                &&& final(errors)@ == old(errors)@
                &&& r is Nothing
            },
        },
        old(registry).consistent() ==> final(registry).consistent(),
{
    let already: bool = match &joined {
        JoinOutcome::Exited(exit) => {
            registry.note_exit(exit.flow.as_str());
            registry.respawning_flows.contains(exit.flow.as_str())
        },
        _ => false,
    };
    let decision: RespawnDecision = decide_respawn(&joined, already);
    match joined {
        JoinOutcome::Exited(exit) => {
            match exit.panic {
                None => {
                    registry.handles.remove(exit.flow.as_str());
                    ExitEffect::Nothing
                },
                Some(message) => {
                    record_last_error(
                        errors,
                        exit.flow.as_str(),
                        "panic",
                        message.as_str(),
                        None,
                        now,
                    );
                    if decision == RespawnDecision::PanicDuplicate {
                        return ExitEffect::Nothing;
                    }
                    registry.respawning_flows.insert(exit.flow.clone());
                    let cancelled: Option<H> = registry.handles.remove(exit.flow.as_str());
                    ExitEffect::Respawn {
                        cancelled,
                        request: RespawnRequest { flow: exit.flow, attempts: 0 },
                    }
                },
            }
        },
        _ => ExitEffect::Nothing,
    }
}

/// What becomes of a request to respawn a flow.
#[derive(Debug)]
pub enum RespawnOutcome {
    /// Tasks of the flow have not ended: ask again after `RESPAWN_RETRY_INTERVAL_SECS`.
    Retry(RespawnRequest),
    /// The flow runs already.
    AlreadyRunning,
    /// The flow is no longer configured.
    NotConfigured,
    /// The flow is disabled.
    Disabled,
    /// The flow at this index of the configuration is to be spawned.
    Spawn(usize),
}

/// Whether a request to respawn a flow is put off.
pub open spec fn is_put_off(pending: Map<Seq<char>, u8>, flow: Seq<char>, attempts: u32) -> bool {
    pending.dom().contains(flow) && attempts < RESPAWN_MAX_ATTEMPTS
}

/// Takes in a request to respawn a flow. A request that is not put off ends the respawn that
/// was under way, whether or not it leads to a spawn.
pub fn handle_respawn_request<H>(
    req: &RespawnRequest,
    cfg: &Config,
    registry: &mut FlowRegistry<H>,
) -> (r: RespawnOutcome)
    ensures
        r is Retry <==> is_put_off(old(registry).pending_exits@, req.flow@, req.attempts),
        r matches RespawnOutcome::Retry(next) ==> {
            &&& next.flow@ == req.flow@
            &&& next.attempts == req.attempts + 1
            &&& final(registry)@ == old(registry)@
        },
        !(r is Retry) ==> final(registry)@ == (RegistryView {
            handles: old(registry).handles@,
            respawning: old(registry).respawning_flows@.remove(req.flow@),
            pending: old(registry).pending_exits@,
        }),
        !(r is Retry) ==> {
            let running = old(registry).handles@.dom().contains(req.flow@);
            let configured = has_flow(cfg.flow@, req.flow@);
            &&& r is AlreadyRunning <==> running
            &&& r is NotConfigured <==> !running && !configured
            &&& !running && configured ==> exists|i: int| #[trigger]
                first_named(cfg.flow@, req.flow@, i) && if cfg.flow@[i].enabled {
                    r == RespawnOutcome::Spawn(i as usize)
                } else {
                    r is Disabled
                }
        },
        old(registry).consistent() ==> final(registry).consistent(),
{
    if registry.pending_exits.contains_key(req.flow.as_str()) && req.attempts
        < RESPAWN_MAX_ATTEMPTS {
        return RespawnOutcome::Retry(
            RespawnRequest { flow: req.flow.clone(), attempts: req.attempts + 1 },
        );
    }
    registry.respawning_flows.remove(req.flow.as_str());
    if registry.handles.contains_key(req.flow.as_str()) {
        return RespawnOutcome::AlreadyRunning;
    }
    match cfg.find(req.flow.as_str()) {
        None => RespawnOutcome::NotConfigured,
        Some(i) => {
            assert(first_named(cfg.flow@, req.flow@, i as int));
            if cfg.flow[i].enabled {
                RespawnOutcome::Spawn(i)
            } else {
                RespawnOutcome::Disabled
            }
        },
    }
}

/// The end of a task of one flow leaves what is known of every other flow as it was.
pub proof fn an_exit_touches_only_its_flow<H>(
    reg: RegistryView<H>,
    flow: Seq<char>,
    panicked: bool,
    other: Seq<char>,
)
    requires
        other != flow,
    ensures
        ({
            let after = after_exit(reg, flow, panicked);
            &&& after.handles.dom().contains(other) == reg.handles.dom().contains(other)
            &&& reg.handles.dom().contains(other) ==> after.handles[other] == reg.handles[other]
            &&& after.respawning.contains(other) == reg.respawning.contains(other)
            &&& after.pending.dom().contains(other) == reg.pending.dom().contains(other)
            &&& reg.pending.dom().contains(other) ==> after.pending[other] == reg.pending[other]
        }),
{
}

/// A clean exit leaves the respawns that are under way alone.
pub proof fn clean_exit_keeps_respawns<H>(reg: RegistryView<H>, flow: Seq<char>)
    ensures
        after_exit(reg, flow, false).respawning == reg.respawning,
{
}

/// Whether the supervisor sees a flow's one task panic first or its other task end cleanly
/// first, it comes to know the same.
pub proof fn panic_and_clean_exit_commute<H>(reg: RegistryView<H>, flow: Seq<char>)
    requires
        reg.handles.dom().disjoint(reg.respawning),
    ensures
        after_exit(after_exit(reg, flow, true), flow, false) == after_exit(
            after_exit(reg, flow, false),
            flow,
            true,
        ),
{
    assert(after_exit(after_exit(reg, flow, true), flow, false) =~= after_exit(
        after_exit(reg, flow, false),
        flow,
        true,
    ));
}

/// A panic that is seen after the clean exit of the flow's other task leads to a respawn just
/// as one that is seen before it.
pub proof fn panic_after_clean_exit_is_respawned<H>(
    reg: RegistryView<H>,
    flow: Seq<char>,
    exit: FlowExit,
)
    requires
        !reg.respawning.contains(flow),
        exit.panic is Some,
    ensures
        decision(
            JoinOutcome::Exited(exit),
            after_exit(reg, flow, false).respawning.contains(flow),
        ) is PanicFirst,
{
}

/// Of two panics of one flow, the second leads to no second respawn.
pub proof fn second_panic_is_a_duplicate<H>(
    reg: RegistryView<H>,
    flow: Seq<char>,
    exit: FlowExit,
)
    requires
        exit.panic is Some,
    ensures
        decision(
            JoinOutcome::Exited(exit),
            after_exit(reg, flow, true).respawning.contains(flow),
        ) is PanicDuplicate,
{
}

/// A flow of which one task panicked comes back: once both of its tasks have been seen to end,
/// whichever first and whether the other panicked too or ended cleanly, a respawn is under way,
/// nothing of the flow runs, and its request is not put off any more, however often it was.
pub proof fn panicked_flows_come_back<H>(
    reg: RegistryView<H>,
    flow: Seq<char>,
    first_panicked: bool,
    second_panicked: bool,
    attempts: u32,
)
    requires
        reg.handles.dom().contains(flow),
        !reg.respawning.contains(flow),
        reg.pending.dom().contains(flow),
        reg.pending[flow] == 2,
        first_panicked || second_panicked,
    ensures
        ({
            let after = after_exit(after_exit(reg, flow, first_panicked), flow, second_panicked);
            &&& after.respawning.contains(flow)
            &&& !after.handles.dom().contains(flow)
            &&& !is_put_off(after.pending, flow, attempts)
        }),
{
}

/// A request that has been put off as often as is allowed is not put off again.
pub proof fn respawn_is_put_off_at_most_thirty_times(
    pending: Map<Seq<char>, u8>,
    flow: Seq<char>,
    attempts: u32,
)
    requires
        attempts >= 30,
    ensures
        !is_put_off(pending, flow, attempts),
{
}

/// What the end of a task calls for: a panic is the first just where no respawn of its flow is
/// under way, and neither a clean exit nor a lost or cancelled task is a panic.
pub proof fn ends_of_tasks_are_told_apart(
    joined: JoinOutcome,
    respawning: bool,
    r: RespawnDecision,
)
    requires
        call_ensures(decide_respawn, (&joined, respawning), r),
    ensures
        r is Cancelled <==> joined is Cancelled,
        r is UnexpectedJoinError <==> joined is Failed,
        r is CleanExit <==> joined is Exited && joined->Exited_0.panic is None,
        r is PanicFirst <==> joined is Exited && joined->Exited_0.panic is Some && !respawning,
        r is PanicDuplicate <==> joined is Exited && joined->Exited_0.panic is Some && respawning,
{
}

/// The end of a task takes one off the unseen exits of its flow. A clean end takes the handle and
/// leaves the respawns; the first panic takes the handle and puts a respawn under way; a further
/// panic leaves both as they are.
pub proof fn ends_of_tasks_change_what_they_should<H>(
    before: FlowRegistry<H>,
    after: FlowRegistry<H>,
    flow: Seq<char>,
    panicked: bool,
)
    requires
        before.consistent(),
        after@ == after_exit(before@, flow, panicked),
    ensures
        ({
            let again = panicked && before.respawning_flows@.contains(flow);
            &&& again ==> after.handles@ == before.handles@
            &&& !again ==> after.handles@ == before.handles@.remove(flow)
            &&& panicked ==> after.respawning_flows@ == before.respawning_flows@.insert(flow)
            &&& !panicked ==> after.respawning_flows@ == before.respawning_flows@
            &&& pending(after.pending_exits@, flow) == if pending(before.pending_exits@, flow)
                > 0 {
                pending(before.pending_exits@, flow) - 1
            } else {
                0
            }
            &&& after.pending_exits@.remove(flow) == before.pending_exits@.remove(flow)
        }),
{
    assert(before@.pending == before.pending_exits@);
    assert(after.pending_exits@ == exit_seen(before.pending_exits@, flow));
    if before.pending_exits@.dom().contains(flow) {
        assert(before.pending_exits@[flow] > 0);
    }
    assert(after.pending_exits@.remove(flow) =~= before.pending_exits@.remove(flow));
    if panicked && before.respawning_flows@.contains(flow) {
        assert(before.respawning_flows@.insert(flow) =~= before.respawning_flows@);
    }
}

/// No two generations of a flow run at once, for as long as a respawn waits: a request is put off
/// just where some task of the flow has not been seen to end and it was put off fewer than thirty
/// times. So a flow is spawned before that only once all of its tasks have ended.
pub proof fn respawns_wait_for_the_old_tasks(
    exits: Map<Seq<char>, u8>,
    flow: Seq<char>,
    attempts: u32,
)
    requires
        exits.dom().contains(flow) ==> exits[flow] > 0,
    ensures
        is_put_off(exits, flow, attempts) <==> pending(exits, flow) > 0 && attempts < 30,
        pending(exits, flow) > 0 <==> exits.dom().contains(flow),
        attempts < 30 && !is_put_off(exits, flow, attempts) ==> pending(exits, flow) == 0,
{
}

/// A request waits a second each time, and the first comes thirty seconds after the panic.
pub proof fn respawns_come_after_half_a_minute()
    ensures
        RESPAWN_DELAY_SECS == 30,
        RESPAWN_RETRY_INTERVAL_SECS == 1,
        RESPAWN_MAX_ATTEMPTS == 30,
{
}

/// What becomes of a request to respawn a flow. It is put off, and nothing else changes, just
/// where a task of the flow is still to be seen to end and it was put off fewer than thirty
/// times. Any other ends the respawn of the flow, and of no other flow, and comes to a spawn just
/// where the flow does not run and the first flow of its name is enabled.
pub proof fn requests_come_to_a_spawn_once_the_old_tasks_have_ended<H>(
    req: RespawnRequest,
    cfg: Config,
    registry: &mut FlowRegistry<H>,
    r: RespawnOutcome,
    other: Seq<char>,
)
    requires
        old(registry).consistent(),
        other != req.flow@,
        call_ensures(handle_respawn_request::<H>, (&req, &cfg, registry), r),
    ensures
        ({
            let waits = old(registry).pending_exits@.dom().contains(req.flow@) && req.attempts
                < 30;
            let runs = old(registry).handles@.dom().contains(req.flow@);
            &&& pending(old(registry).pending_exits@, req.flow@) > 0 && req.attempts < 30
                ==> r is Retry
            &&& r is Spawn && req.attempts < 30 ==> pending(
                old(registry).pending_exits@,
                req.flow@,
            ) == 0
            &&& r is Retry <==> waits
            &&& r matches RespawnOutcome::Retry(next) ==> next.flow@ == req.flow@
                && next.attempts == req.attempts + 1
            &&& r is AlreadyRunning <==> !waits && runs
            &&& r is NotConfigured <==> !waits && !runs && forall|i: int|
                0 <= i < cfg.flow@.len() ==> (#[trigger] cfg.flow@[i]).name@ != req.flow@
            &&& r is Disabled || r is Spawn ==> exists|i: int|
                0 <= i < cfg.flow@.len() && (#[trigger] cfg.flow@[i]).name@ == req.flow@ && (
                forall|j: int| 0 <= j < i ==> (#[trigger] cfg.flow@[j]).name@ != req.flow@)
                    && cfg.flow@[i].enabled == (r is Spawn) && (r matches RespawnOutcome::Spawn(n)
                    ==> n == i)
            &&& final(registry).handles@ == old(registry).handles@
            &&& final(registry).pending_exits@ == old(registry).pending_exits@
            &&& final(registry).respawning_flows@.contains(other) == old(
                registry,
            ).respawning_flows@.contains(other)
            &&& final(registry).respawning_flows@.contains(req.flow@) == (waits && old(
                registry,
            ).respawning_flows@.contains(req.flow@))
        }),
{
    assert(old(registry).pending_exits@.dom().contains(req.flow@) ==> old(
        registry,
    ).pending_exits@[req.flow@] > 0);
    assert(final(registry)@.handles == final(registry).handles@);
    assert(final(registry)@.pending == final(registry).pending_exits@);
    assert(final(registry)@.respawning == final(registry).respawning_flows@);
    if r is Disabled || r is Spawn {
        let i = choose|i: int| #[trigger]
            first_named(cfg.flow@, req.flow@, i) && if cfg.flow@[i].enabled {
                r == RespawnOutcome::Spawn(i as usize)
            } else {
                r is Disabled
            };
        assert(cfg.flow@[i].name@ == req.flow@);
        assert(i < cfg.flow.len());
    }
}

/// The end of a task: a cancelled or lost task changes nothing; a panic is recorded as the flow's
/// error, with the time and what it said; and a respawn is asked for, with a first request, just
/// where a task panicked and no respawn of its flow was under way.
pub proof fn panics_are_recorded_and_respawned<H>(
    joined: JoinOutcome,
    errors: &mut NameMap<FlowLastError>,
    registry: &mut FlowRegistry<H>,
    now: Timestamp,
    r: ExitEffect<H>,
    other: Seq<char>,
)
    requires
        call_ensures(handle_flow_exit::<H>, (joined, errors, registry, now), r),
        joined is Exited ==> other != joined->Exited_0.flow@,
    ensures
        ({
            let exit = joined->Exited_0;
            let panicked = joined is Exited && exit.panic is Some;
            let handles = old(registry).handles@;
            &&& r is Respawn <==> panicked && !old(registry).respawning_flows@.contains(exit.flow@)
            &&& r matches ExitEffect::Respawn { cancelled, request } ==> {
                &&& request.flow@ == exit.flow@
                &&& request.attempts == 0
                &&& cancelled is Some <==> handles.dom().contains(exit.flow@)
                &&& cancelled is Some ==> cancelled->0 == handles[exit.flow@]
            }
            &&& !panicked ==> final(errors)@ == old(errors)@
            &&& panicked ==> {
                &&& final(errors)@.dom().contains(exit.flow@)
                &&& final(errors)@[exit.flow@]@.at == now
                &&& final(errors)@[exit.flow@]@.kind == "panic"@
                &&& final(errors)@[exit.flow@]@.message == exit.panic->0@
                &&& final(errors)@[exit.flow@]@.retry_at is None
            }
            &&& final(errors)@.dom().contains(other) == old(errors)@.dom().contains(other)
            &&& old(errors)@.dom().contains(other) ==> final(errors)@[other] == old(errors)@[other]
            &&& !(joined is Exited) ==> {
                &&& final(registry).handles@ == old(registry).handles@
                &&& final(registry).respawning_flows@ == old(registry).respawning_flows@
                &&& final(registry).pending_exits@ == old(registry).pending_exits@
            }
            &&& panicked ==> final(registry).respawning_flows@.contains(exit.flow@)
            &&& joined is Exited && old(registry).consistent() ==> {
                !final(registry).handles@.dom().contains(exit.flow@)
            }
        }),
{
    assert(final(registry)@.handles == final(registry).handles@);
    assert(final(registry)@.pending == final(registry).pending_exits@);
    assert(final(registry)@.respawning == final(registry).respawning_flows@);
    if joined is Exited && joined->Exited_0.panic is Some {
        let exit = joined->Exited_0;
        errors_are_recorded_for_one_flow(
            old(errors)@,
            final(errors)@,
            exit.flow@,
            FlowLastErrorView {
                at: now,
                kind: "panic"@,
                message: exit.panic->0@,
                retry_at: None,
            },
            other,
        );
    }
}

} // verus!
