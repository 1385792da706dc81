//! What is persisted of the flows, as far as the supervisor reads it.
use vstd::prelude::*;

use crate::names::NameMap;
use crate::time::Timestamp;

verus! {

/// What is persisted of one flow.
#[derive(Debug)]
pub struct FlowState {
    /// The object id that was last observed, in hexadecimal.
    pub last_sha: Option<String>,
    /// When the source was last polled.
    pub last_poll_at: Option<Timestamp>,
    /// When a workflow was last dispatched.
    pub last_dispatched_at: Option<Timestamp>,
    /// Until when no workflow is dispatched.
    pub cooldown_until: Option<Timestamp>,
    /// How many runs are being followed.
    pub active_runs: usize,
    /// How many runs were reported.
    pub notified_runs: usize,
}

impl Default for FlowState {
    fn default() -> (r: FlowState)
        ensures
            r.last_sha is None,
            r.last_poll_at is None,
            r.last_dispatched_at is None,
            r.cooldown_until is None,
            r.active_runs == 0,
            r.notified_runs == 0,
    {
        FlowState {
            last_sha: None,
            last_poll_at: None,
            last_dispatched_at: None,
            cooldown_until: None,
            active_runs: 0,
            notified_runs: 0,
        }
    }
}

/// What is persisted of the flows.
pub struct State {
    pub flows: NameMap<FlowState>,
}

impl Default for State {
    fn default() -> (r: State)
        ensures
            r.flows@ == Map::<Seq<char>, FlowState>::empty(),
    {
        State { flows: NameMap::new() }
    }
}

/// Nothing is known of a flow at first, and no flow is.
pub proof fn nothing_is_persisted_at_first(flow: FlowState, state: State, name: Seq<char>)
    requires
        call_ensures(FlowState::default, (), flow),
        call_ensures(State::default, (), state),
    ensures
        flow.last_sha is None,
        flow.last_poll_at is None,
        flow.last_dispatched_at is None,
        flow.cooldown_until is None,
        flow.active_runs == 0,
        flow.notified_runs == 0,
        !state.flows@.dom().contains(name),
{
}

} // verus!
