//! How a flow is brought up: its notifiers, its credentials, and its two tasks.
use vstd::prelude::*;
use vstd::utf8::encode_utf8;

use crate::config::{
    actions_are_compared_in_every_part, alike, copies_agree_place_by_place, copy_destinations,
    copy_events, copy_text_map, destinations_agree, text_map, text_maps_are_compared_name_by_name,
    texts_agree, ActionConfig, CredentialId, Destination, DiscordTemplateConfig, FireEvent,
    FlowConfig, LocalMailTemplateConfig,
};
use crate::git::strategy::{auto_detect, strategy_of, triggers, PollStrategy};
use crate::names::NameMap;
use crate::object_id::{decoded, is_object_hex, ObjectId};
use crate::state::{FlowState, State};
use crate::supervisor::types::{
    error_recorded, errors_are_recorded_for_one_flow, record_last_error, FlowExit, FlowLastError,
    FlowLastErrorView, FlowRole,
};
use crate::text::{decimal, decimal_text, glue, optional_view};
use crate::time::Timestamp;

verus! {

/// What is persisted of `flow`, where the persisted state can be read.
pub open spec fn persisted(mirror: Option<&State>, flow: Seq<char>) -> Option<FlowState> {
    match mirror {
        Some(state) => if state.flows@.dom().contains(flow) {
            Some(state.flows@[flow])
        } else {
            None
        },
        None => None,
    }
}

/// The object id that was last observed of `flow`, where one is persisted and makes sense.
pub open spec fn persisted_sha(mirror: Option<&State>, flow: Seq<char>) -> Option<Seq<u8>> {
    match persisted(mirror, flow) {
        Some(entry) => match entry.last_sha {
            Some(hex) => if is_object_hex(encode_utf8(hex@)) {
                Some(decoded(encode_utf8(hex@)))
            } else {
                None
            },
            None => None,
        },
        None => None,
    }
}

/// The bytes of an optional object id.
pub open spec fn id_view(id: Option<ObjectId>) -> Option<Seq<u8>> {
    match id {
        Some(id) => Some(id@),
        None => None,
    }
}

/// The object id that was last observed of the flow, so that a restart of the daemon sets off
/// no dispatch by itself. The persisted state is `None` where it cannot be read.
pub fn read_persisted_last_sha(mirror: Option<&State>, flow_name: &str) -> (r: Option<ObjectId>)
    ensures
        id_view(r) == persisted_sha(mirror, flow_name@),
{
    match mirror {
        Some(state) => match state.flows.get(flow_name) {
            Some(entry) => match &entry.last_sha {
                Some(hex) => match ObjectId::from_hex(hex.as_str().as_bytes()) {
                    Ok(id) => Some(id),
                    Err(_) => None,
                },
                None => None,
            },
            None => None,
        },
        None => None,
    }
}

/// When a workflow was last dispatched for `flow`, where that is persisted.
pub open spec fn persisted_dispatch(mirror: Option<&State>, flow: Seq<char>) -> Option<Timestamp> {
    match persisted(mirror, flow) {
        Some(entry) => entry.last_dispatched_at,
        None => None,
    }
}

/// When a workflow was last dispatched for the flow, so that a restart of the daemon does not
/// cut the pause between dispatches short.
pub fn read_persisted_last_dispatched_at(mirror: Option<&State>, flow_name: &str) -> (r: Option<
    Timestamp,
>)
    ensures
        r == persisted_dispatch(mirror, flow_name@),
{
    match mirror {
        Some(state) => match state.flows.get(flow_name) {
            Some(entry) => entry.last_dispatched_at,
            None => None,
        },
        None => None,
    }
}

/// What a panicking task left.
#[derive(Debug)]
pub enum PanicPayload {
    /// A text.
    Text(String),
    /// Something else.
    Opaque,
}

/// The message of a panic.
pub open spec fn panic_text(payload: PanicPayload) -> Seq<char> {
    match payload {
        PanicPayload::Text(s) => s@,
        PanicPayload::Opaque => "(panic payload not stringifiable)"@,
    }
}

/// The message of a panic.
pub fn panic_payload_to_string(payload: PanicPayload) -> (r: String)
    ensures
        r@ == panic_text(payload),
{
    match payload {
        PanicPayload::Text(s) => s,
        PanicPayload::Opaque => "(panic payload not stringifiable)".to_string(),
    }
}

/// The end of a task of `flow`, given what it came to.
pub fn flow_exit_from_result(
    result: Result<(), PanicPayload>,
    flow: String,
    role: FlowRole,
) -> (r: FlowExit)
    ensures
        r.flow == flow,
        r.role == role,
        optional_view(r.panic) == match result {
            Ok(_) => None,
            Err(payload) => Some(panic_text(payload)),
        },
{
    match result {
        Ok(()) => FlowExit { flow, role, panic: None },
        Err(payload) => FlowExit { flow, role, panic: Some(panic_payload_to_string(payload)) },
    }
}

/// The name of the notifier for the destination at index `idx` of `flow`.
pub open spec fn notifier_id_text(flow: Seq<char>, idx: nat) -> Seq<char> {
    flow + ".dest"@ + decimal_text(idx)
}

/// The name of the notifier for the destination at index `idx` of `flow`.
pub fn notifier_id(flow: &str, idx: usize) -> (r: String)
    ensures
        r@ == notifier_id_text(flow@, idx as nat),
{
    let mut s: String = glue(flow, ".dest");
    s.append(decimal(idx as u64).as_str());
    s
}

/// A notifier that is to be made.
pub enum NotifierPlan {
    /// One that posts to the webhook whose URL is the secret of `credential_id`.
    Discord {
        id: String,
        credential_id: CredentialId,
        fire_on: Vec<FireEvent>,
        template: DiscordTemplateConfig,
    },
    /// One that mails `user`.
    Mail {
        id: String,
        user: String,
        fire_on: Vec<FireEvent>,
        template: LocalMailTemplateConfig,
    },
}

/// Whether `plan` makes the notifier for the destination at index `idx` of `flow`.
pub open spec fn plans(plan: NotifierPlan, flow: FlowConfig, idx: int) -> bool {
    match (plan, flow.destination@[idx]) {
        (
            NotifierPlan::Discord { id, credential_id, fire_on, template },
            Destination::DiscordWebhook(w),
        ) => {
            &&& id@ == notifier_id_text(flow.name@, idx as nat)
            &&& credential_id@ == w.credential_id@
            &&& fire_on@ == w.fire_on@
            &&& text_map(template.parts@) == text_map(w.template.parts@)
        },
        (NotifierPlan::Mail { id, user, fire_on, template }, Destination::LocalMail(m)) => {
            &&& id@ == notifier_id_text(flow.name@, idx as nat)
            &&& user@ == m.user@
            &&& fire_on@ == m.fire_on@
            &&& text_map(template.parts@) == text_map(m.template.parts@)
        },
        _ => false,
    }
}

/// Why a notifier could not be made.
#[derive(Debug)]
pub enum NotifierFailure {
    /// The webhook's URL could not be found.
    Credential(String),
    /// The webhook's URL makes no sense.
    WebhookUrl(String),
    /// There is no client to post with.
    Client(String),
    /// The user cannot be mailed.
    MailUser(String),
}

/// What is reported of a notifier that could not be made.
pub open spec fn failure_text(failure: NotifierFailure) -> Seq<char> {
    match failure {
        NotifierFailure::Credential(e) => "discord credential: "@ + e@,
        NotifierFailure::WebhookUrl(e) => "discord webhook URL: "@ + e@,
        NotifierFailure::Client(e) => "discord client: "@ + e@,
        NotifierFailure::MailUser(e) => "local_mail user: "@ + e@,
    }
}

/// The notifiers that have been made once the making of one more came to `made`, or what is
/// reported: the first failure ends the making of all.
pub open spec fn accepted<N>(built: Seq<N>, made: Result<N, NotifierFailure>) -> Result<
    Seq<N>,
    Seq<char>,
> {
    match made {
        Ok(n) => Ok(built.push(n)),
        Err(failure) => Err(failure_text(failure)),
    }
}

/// The notifiers that have been made, or what is reported.
pub open spec fn build_view<N>(r: Result<NotifierBuild<N>, String>) -> Result<Seq<N>, Seq<char>> {
    match r {
        Ok(b) => Ok(b.built@),
        Err(e) => Err(e@),
    }
}

/// The notifiers of a flow that have been made so far, in the order of its destinations.
pub struct NotifierBuild<N> {
    pub built: Vec<N>,
}

impl<N> NotifierBuild<N> {
    /// No notifier has been made.
    pub fn new() -> (r: NotifierBuild<N>)
        ensures
            r.built@ == Seq::<N>::empty(),
    {
        NotifierBuild { built: Vec::new() }
    }

    /// The notifier of `flow` that is to be made next: the one for the first destination that
    /// has none.
    pub fn next(&self, flow: &FlowConfig) -> (r: Option<NotifierPlan>)
        ensures
            r is Some <==> self.built@.len() < flow.destination@.len(),
            r matches Some(plan) ==> is_next(*flow, self.built@, plan),
    {
        let idx: usize = self.built.len();
        if idx >= flow.destination.len() {
            return None;
        }
        let id: String = notifier_id(flow.name.as_str(), idx);
        match &flow.destination[idx] {
            Destination::DiscordWebhook(w) => Some(
                NotifierPlan::Discord {
                    id,
                    credential_id: w.credential_id.copy(),
                    fire_on: copy_events(&w.fire_on),
                    template: DiscordTemplateConfig { parts: copy_text_map(&w.template.parts) },
                },
            ),
            Destination::LocalMail(m) => Some(
                NotifierPlan::Mail {
                    id,
                    user: m.user.clone(),
                    fire_on: copy_events(&m.fire_on),
                    template: LocalMailTemplateConfig { parts: copy_text_map(&m.template.parts) },
                },
            ),
        }
    }

    /// Takes in what the making of the next notifier came to. The first failure ends the making
    /// of all.
    pub fn accept(self, made: Result<N, NotifierFailure>) -> (r: Result<NotifierBuild<N>, String>)
        ensures
            build_view(r) == accepted(self.built@, made),
    {
        match made {
            Ok(n) => {
                let mut built: Vec<N> = self.built;
                built.push(n);
                Ok(NotifierBuild { built })
            },
            Err(failure) => Err(
                match failure {
                    NotifierFailure::Credential(e) => glue("discord credential: ", e.as_str()),
                    NotifierFailure::WebhookUrl(e) => glue("discord webhook URL: ", e.as_str()),
                    NotifierFailure::Client(e) => glue("discord client: ", e.as_str()),
                    NotifierFailure::MailUser(e) => glue("local_mail user: ", e.as_str()),
                },
            ),
        }
    }
}

/// One round of making notifiers: what was to be made, and what that came to.
pub ghost struct NotifierRound<N> {
    pub plan: NotifierPlan,
    pub made: Result<N, NotifierFailure>,
}

/// What some rounds of making notifiers have come to.
pub open spec fn built_by<N>(rounds: Seq<NotifierRound<N>>) -> Result<Seq<N>, Seq<char>>
    decreases rounds.len(),
{
    if rounds.len() == 0 {
        Ok(Seq::empty())
    } else {
        match built_by(rounds.drop_last()) {
            Ok(built) => accepted(built, rounds.last().made),
            Err(e) => Err(e),
        }
    }
}

/// Whether `plan` is what is to be made next for `flow` after `built` was made.
pub open spec fn is_next<N>(flow: FlowConfig, built: Seq<N>, plan: NotifierPlan) -> bool {
    built.len() < flow.destination@.len() && plans(plan, flow, built.len() as int)
}

/// Whether each of `rounds` made what was to be made next for `flow`.
pub open spec fn is_build<N>(flow: FlowConfig, rounds: Seq<NotifierRound<N>>) -> bool
    decreases rounds.len(),
{
    rounds.len() > 0 ==> {
        &&& is_build(flow, rounds.drop_last())
        &&& built_by(rounds.drop_last()) matches Ok(built) && is_next(
            flow,
            built,
            rounds.last().plan,
        )
    }
}

/// A build makes the notifiers of a flow one for each destination, in their order: the i-th
/// round is for the i-th destination. While none has failed, the i-th notifier is what the i-th
/// round made, and there are as many as rounds. A failure is that of the last round, after all
/// others worked, and is what is reported.
pub proof fn notifiers_stand_for_destinations<N>(flow: FlowConfig, rounds: Seq<NotifierRound<N>>)
    requires
        is_build(flow, rounds),
    ensures
        rounds.len() <= flow.destination@.len(),
        forall|i: int|
            0 <= i < rounds.len() ==> plans((#[trigger] rounds[i]).plan, flow, i),
        forall|i: int| 0 <= i < rounds.len() - 1 ==> (#[trigger] rounds[i]).made is Ok,
        match built_by(rounds) {
            Ok(built) => {
                &&& built.len() == rounds.len()
                &&& forall|i: int|
                    0 <= i < rounds.len() ==> (#[trigger] rounds[i]).made == Ok::<
                        N,
                        NotifierFailure,
                    >(built[i])
            },
            Err(e) => {
                &&& rounds.len() > 0
                &&& rounds.last().made matches Err(failure) && e == failure_text(failure)
            },
        },
    decreases rounds.len(),
{
    if rounds.len() > 0 {
        let shorter = rounds.drop_last();
        let n = rounds.len() - 1;
        notifiers_stand_for_destinations(flow, shorter);
        assert(rounds[n] == rounds.last());
        assert forall|i: int| 0 <= i < rounds.len() implies plans(
            (#[trigger] rounds[i]).plan,
            flow,
            i,
        ) by {
            if i < n {
                assert(shorter[i] == rounds[i]);
            }
        }
        assert forall|i: int| 0 <= i < n implies (#[trigger] rounds[i]).made == Ok::<
            N,
            NotifierFailure,
        >(built_by(shorter)->Ok_0[i]) by {
            assert(shorter[i] == rounds[i]);
        }
    }
}

/// A build that ends well, with nothing left to make, has made as many notifiers as the flow has
/// destinations, each for its destination.
pub proof fn a_build_that_ends_well_serves_every_destination<N>(
    flow: FlowConfig,
    rounds: Seq<NotifierRound<N>>,
)
    requires
        is_build(flow, rounds),
        built_by(rounds) matches Ok(built) && built.len() >= flow.destination@.len(),
    ensures
        built_by(rounds)->Ok_0.len() == flow.destination@.len(),
        forall|i: int|
            0 <= i < flow.destination@.len() ==> plans((#[trigger] rounds[i]).plan, flow, i)
                && rounds[i].made == Ok::<N, NotifierFailure>(built_by(rounds)->Ok_0[i]),
{
    notifiers_stand_for_destinations(flow, rounds);
}

/// A step of bringing a flow up.
#[derive(Clone, Copy, PartialEq, Eq, Structural, Debug)]
pub enum SpawnStep {
    /// Make its notifiers.
    BuildNotifiers,
    /// Find the credential of its action.
    AcquireCredentials,
    /// Start its tasks.
    StartTasks,
    /// The flow is not brought up.
    Abandoned,
}

/// The step to go on with after `step`, which worked or did not.
pub open spec fn setup_next(step: SpawnStep, worked: bool) -> SpawnStep {
    if !worked {
        SpawnStep::Abandoned
    } else if step is BuildNotifiers {
        SpawnStep::AcquireCredentials
    } else {
        SpawnStep::StartTasks
    }
}

/// A flow's tasks are started just where its notifiers were made and its credential was found,
/// and the credential is looked for only where the notifiers were made.
pub proof fn tasks_start_only_after_the_whole_setup(notifiers: bool, credential: bool)
    ensures
        ({
            let second = setup_next(SpawnStep::BuildNotifiers, notifiers);
            &&& second is AcquireCredentials <==> notifiers
            &&& !notifiers ==> second is Abandoned
            &&& notifiers ==> (setup_next(second, credential) is StartTasks <==> credential)
            &&& notifiers && !credential ==> setup_next(second, credential) is Abandoned
        }),
{
}

/// The kind of error that a step leaves if it fails.
pub open spec fn setup_kind(step: SpawnStep) -> Seq<char> {
    match step {
        SpawnStep::BuildNotifiers => "notifier_setup"@,
        _ => "credential"@,
    }
}

/// Takes in what the making of notifiers, or the finding of the credential, came to: the step
/// to go on with. A failure is recorded as the last error of the flow, which is then not
/// brought up.
pub fn after_setup(
    step: SpawnStep,
    outcome: Result<(), String>,
    flow: &str,
    errors: &mut NameMap<FlowLastError>,
    now: Timestamp,
) -> (r: SpawnStep)
    requires
        step is BuildNotifiers || step is AcquireCredentials,
    ensures
        r == setup_next(step, outcome is Ok),
        match outcome {
            Ok(_) => final(errors)@ == old(errors)@,
            Err(e) => error_recorded(
                old(errors)@,
                final(errors)@,
                flow@,
                (FlowLastErrorView {
                    at: now,
                    kind: setup_kind(step),
                    message: "flow `"@ + flow@ + "`: "@ + e@,
                    retry_at: None,
                }),
            ),
        },
{
    match outcome {
        Ok(()) => match step {
            SpawnStep::BuildNotifiers => SpawnStep::AcquireCredentials,
            _ => SpawnStep::StartTasks,
        },
        Err(e) => {
            let mut message: String = glue("flow `", flow);
            message.append("`: ");
            message.append(e.as_str());
            let kind: &str = match step {
                SpawnStep::BuildNotifiers => "notifier_setup",
                _ => "credential",
            };
            record_last_error(errors, flow, kind, message.as_str(), None, now);
            SpawnStep::Abandoned
        },
    }
}

/// What a flow's poll task starts from.
#[derive(Debug)]
pub struct PollSeed {
    pub flow_name: String,
    pub url: String,
    pub ref_name: String,
    pub strategy: PollStrategy,
    pub last_sha: Option<ObjectId>,
    pub last_dispatched_at: Option<Timestamp>,
}

/// What the poll task of `flow` starts from: its source, and what is persisted of it.
pub fn build_poll_params(flow: &FlowConfig, mirror: Option<&State>) -> (r: PollSeed)
    ensures
        r.flow_name@ == flow.name@,
        r.url@ == flow.source.url@,
        r.ref_name@ == flow.source.ref_name@,
        r.strategy == strategy_of(flow.source.url@),
        id_view(r.last_sha) == persisted_sha(mirror, flow.name@),
        r.last_dispatched_at == persisted_dispatch(mirror, flow.name@),
{
    PollSeed {
        flow_name: flow.name.clone(),
        url: flow.source.url.clone(),
        ref_name: flow.source.ref_name.clone(),
        strategy: auto_detect(flow.source.url.as_str()),
        last_sha: read_persisted_last_sha(mirror, flow.name.as_str()),
        last_dispatched_at: read_persisted_last_dispatched_at(mirror, flow.name.as_str()),
    }
}

/// What a flow's dispatcher task starts from.
pub struct DispatchSeed {
    pub flow_name: String,
    pub flow_description: Option<String>,
    pub url: String,
    pub ref_name: String,
    pub action: ActionConfig,
    pub destinations: Vec<Destination>,
}

/// What the dispatcher task of `flow` starts from.
pub fn build_dispatcher_params(flow: &FlowConfig) -> (r: DispatchSeed)
    ensures
        r.flow_name@ == flow.name@,
        optional_view(r.flow_description) == optional_view(flow.description),
        r.url@ == flow.source.url@,
        r.ref_name@ == flow.source.ref_name@,
        r.action@ == flow.action@,
        alike(r.destinations@, flow.destination@),
{
    DispatchSeed {
        flow_name: flow.name.clone(),
        flow_description: match &flow.description {
            Some(d) => Some(d.clone()),
            None => None,
        },
        url: flow.source.url.clone(),
        ref_name: flow.source.ref_name.clone(),
        action: flow.action.copy(),
        destinations: copy_destinations(&flow.destination),
    }
}

/// A flow that is brought up again after a restart of the daemon, and whose ref has not moved
/// since, sets off no dispatch: the id that is persisted reads back as the id that was observed.
pub proof fn restart_sets_off_no_dispatch(state: State, flow: Seq<char>, observed: Seq<u8>)
    requires
        observed.len() == 20,
        state.flows@.dom().contains(flow),
        state.flows@[flow].last_sha matches Some(hex) && hex@ == crate::object_id::hex_text(
            observed,
        ),
    ensures
        persisted_sha(Some(&state), flow) == Some(observed),
        !triggers(persisted_sha(Some(&state), flow), observed),
{
    crate::object_id::hex_reads_back(observed);
}

/// A flow of which nothing is persisted, be it new or one whose persisted state was dropped,
/// sets off no dispatch by the first object id that is observed of it.
pub proof fn first_observation_sets_off_no_dispatch(
    mirror: Option<&State>,
    flow: Seq<char>,
    observed: Seq<u8>,
)
    requires
        persisted(mirror, flow) is None,
    ensures
        !triggers(persisted_sha(mirror, flow), observed),
{
}

/// Destinations of one flow have notifiers of different names.
pub proof fn notifiers_have_different_names(flow: Seq<char>, i: nat, j: nat)
    requires
        notifier_id_text(flow, i) == notifier_id_text(flow, j),
    ensures
        i == j,
{
    let head = flow + ".dest"@;
    assert(decimal_text(i) =~= notifier_id_text(flow, i).skip(head.len() as int));
    assert(decimal_text(j) =~= notifier_id_text(flow, j).skip(head.len() as int));
    crate::text::decimals_differ(i, j);
}

/// A flow starts from the id and from the time of dispatch that are persisted of it; from an id
/// only where it is spelled as one.
pub proof fn flows_start_from_what_is_persisted(
    mirror: Option<&State>,
    flow_name: &str,
    sha: Option<ObjectId>,
    dispatched_at: Option<Timestamp>,
)
    requires
        call_ensures(read_persisted_last_sha, (mirror, flow_name), sha),
        call_ensures(read_persisted_last_dispatched_at, (mirror, flow_name), dispatched_at),
    ensures
        ({
            let known = mirror is Some && mirror->0.flows@.dom().contains(flow_name@);
            let entry = mirror->0.flows@[flow_name@];
            let hex = encode_utf8(entry.last_sha->0@);
            &&& sha is Some <==> known && entry.last_sha is Some && is_object_hex(hex)
            &&& sha is Some ==> sha->0.bytes@ == decoded(hex)
            &&& known ==> dispatched_at == entry.last_dispatched_at
            &&& !known ==> dispatched_at is None
        }),
{
}

/// What is persisted of a flow is what the state has under its name.
pub proof fn persisted_state_is_found_by_name(mirror: Option<&State>, flow: Seq<char>)
    ensures
        persisted(mirror, flow) is Some <==> mirror is Some && mirror->0.flows@.dom().contains(
            flow,
        ),
        persisted(mirror, flow) is Some ==> persisted(mirror, flow)->0 == mirror->0.flows@[flow],
{
}

/// The end of a task keeps the flow and the task that it is of, and is a panic just where the
/// task panicked: with the text that the panic left, if it left one.
pub proof fn ends_of_tasks_keep_what_panics_said(
    result: Result<(), PanicPayload>,
    flow: String,
    role: FlowRole,
    r: FlowExit,
)
    requires
        call_ensures(flow_exit_from_result, (result, flow, role), r),
    ensures
        r.flow@ == flow@,
        r.role == role,
        r.panic is Some <==> result is Err,
        result is Err && result->Err_0 is Text ==> r.panic->0@ == result->Err_0->Text_0@,
        result is Err && result->Err_0 is Opaque ==> r.panic->0@
            == "(panic payload not stringifiable)"@,
{
}

/// The message of a panic is the text that it left, if it left one.
pub proof fn panics_say_what_they_left(payload: PanicPayload, r: String)
    requires
        call_ensures(panic_payload_to_string, (payload,), r),
    ensures
        payload is Text ==> r@ == payload->Text_0@,
        payload is Opaque ==> r@ == "(panic payload not stringifiable)"@,
{
}

/// A notifier is named by its flow and by the place of its destination.
pub proof fn notifiers_are_named_by_their_places(flow: &str, idx: usize, r: String)
    requires
        call_ensures(notifier_id, (flow, idx), r),
    ensures
        r@ == flow@ + ".dest"@ + decimal_text(idx as nat),
{
}

/// The next notifier is for the destination at the place of as many as have been made, and takes
/// from it whom it reaches, its events in their order, and its template.
pub proof fn the_next_notifier_takes_after_its_destination<N>(
    build: NotifierBuild<N>,
    flow: FlowConfig,
    r: Option<NotifierPlan>,
)
    requires
        call_ensures(NotifierBuild::<N>::next, (&build, &flow), r),
    ensures
        r is None <==> build.built@.len() >= flow.destination@.len(),
        r matches Some(plan) ==> {
            let n = build.built@.len();
            match (plan, flow.destination@[n as int]) {
                (
                    NotifierPlan::Discord { id, credential_id, fire_on, template },
                    Destination::DiscordWebhook(w),
                ) => {
                    &&& id@ == flow.name@ + ".dest"@ + decimal_text(n)
                    &&& credential_id@ == w.credential_id@
                    &&& fire_on@ == w.fire_on@
                    &&& texts_agree(template.parts@, w.template.parts@)
                },
                (
                    NotifierPlan::Mail { id, user, fire_on, template },
                    Destination::LocalMail(m),
                ) => {
                    &&& id@ == flow.name@ + ".dest"@ + decimal_text(n)
                    &&& user@ == m.user@
                    &&& fire_on@ == m.fire_on@
                    &&& texts_agree(template.parts@, m.template.parts@)
                },
                _ => false,
            }
        },
{
    if r is Some {
        let n = build.built@.len() as int;
        match (r->0, flow.destination@[n]) {
            (NotifierPlan::Discord { template, .. }, Destination::DiscordWebhook(w)) => {
                text_maps_are_compared_name_by_name(template.parts@, w.template.parts@);
            },
            (NotifierPlan::Mail { template, .. }, Destination::LocalMail(m)) => {
                text_maps_are_compared_name_by_name(template.parts@, m.template.parts@);
            },
            _ => {},
        }
    }
}

/// A notifier that was made stands behind those that were made before it, which stay; and one
/// that could not be made ends the making, with what went wrong.
pub proof fn notifiers_are_kept_in_order_until_one_fails<N>(
    build: NotifierBuild<N>,
    made: Result<N, NotifierFailure>,
    r: Result<NotifierBuild<N>, String>,
)
    requires
        call_ensures(NotifierBuild::<N>::accept, (build, made), r),
    ensures
        r is Ok <==> made is Ok,
        r matches Ok(next) ==> {
            let n = build.built@.len() as int;
            &&& next.built@.len() == n + 1
            &&& next.built@[n] == made->Ok_0
            &&& forall|i: int| 0 <= i < n ==> #[trigger] next.built@[i] == build.built@[i]
        },
        made matches Err(NotifierFailure::Credential(e)) ==> r->Err_0@ == "discord credential: "@
            + e@,
        made matches Err(NotifierFailure::WebhookUrl(e)) ==> r->Err_0@ == "discord webhook URL: "@
            + e@,
        made matches Err(NotifierFailure::Client(e)) ==> r->Err_0@ == "discord client: "@ + e@,
        made matches Err(NotifierFailure::MailUser(e)) ==> r->Err_0@ == "local_mail user: "@ + e@,
{
}

/// No notifier has been made when the making begins.
pub proof fn making_begins_with_no_notifier<N>(r: NotifierBuild<N>)
    requires
        call_ensures(NotifierBuild::<N>::new, (), r),
    ensures
        r.built@.len() == 0,
{
}

/// A flow is brought up in two steps, of which the first makes its notifiers and the second finds
/// its credential; where either fails it is not brought up, and what failed is recorded as the
/// flow's error, under the kind of the step. Nothing else is recorded.
pub proof fn failed_steps_are_recorded(
    step: SpawnStep,
    outcome: Result<(), String>,
    flow: &str,
    errors: &mut NameMap<FlowLastError>,
    now: Timestamp,
    r: SpawnStep,
    other: Seq<char>,
)
    requires
        step is BuildNotifiers || step is AcquireCredentials,
        call_ensures(after_setup, (step, outcome, flow, errors, now), r),
        other != flow@,
    ensures
        r is Abandoned <==> outcome is Err,
        r is AcquireCredentials <==> outcome is Ok && step is BuildNotifiers,
        r is StartTasks <==> outcome is Ok && step is AcquireCredentials,
        outcome is Ok ==> final(errors)@ == old(errors)@,
        outcome is Err ==> {
            let error = final(errors)@[flow@]@;
            &&& final(errors)@.dom().contains(flow@)
            &&& error.at == now
            &&& step is BuildNotifiers ==> error.kind == "notifier_setup"@
            &&& step is AcquireCredentials ==> error.kind == "credential"@
            &&& error.message == "flow `"@ + flow@ + "`: "@ + outcome->Err_0@
            &&& error.retry_at is None
        },
        final(errors)@.dom().contains(other) <==> old(errors)@.dom().contains(other),
        old(errors)@.dom().contains(other) ==> final(errors)@[other] == old(errors)@[other],
{
    if outcome is Err {
        errors_are_recorded_for_one_flow(
            old(errors)@,
            final(errors)@,
            flow@,
            final(errors)@[flow@]@,
            other,
        );
    }
}

/// A poll task polls the flow's own source, as its URL says that it is polled, from what is
/// persisted of the flow.
pub proof fn poll_tasks_start_from_the_flow(
    flow: FlowConfig,
    mirror: Option<&State>,
    r: PollSeed,
    name: &str,
    url: &str,
    strategy: PollStrategy,
    sha: Option<ObjectId>,
    dispatched_at: Option<Timestamp>,
)
    requires
        call_ensures(build_poll_params, (&flow, mirror), r),
        name@ == flow.name@,
        url@ == flow.source.url@,
        call_ensures(auto_detect, (url,), strategy),
        call_ensures(read_persisted_last_sha, (mirror, name), sha),
        call_ensures(read_persisted_last_dispatched_at, (mirror, name), dispatched_at),
    ensures
        r.flow_name@ == flow.name@,
        r.url@ == flow.source.url@,
        r.ref_name@ == flow.source.ref_name@,
        r.strategy == strategy,
        r.last_sha is Some <==> sha is Some,
        r.last_sha is Some ==> r.last_sha->0.bytes@ == sha->0.bytes@,
        r.last_dispatched_at == dispatched_at,
{
}

/// A dispatcher task dispatches the flow's own action for its own source, and notifies its
/// destinations, each at its place and with its events in their order.
pub proof fn dispatcher_tasks_start_from_the_flow(flow: FlowConfig, r: DispatchSeed, i: int)
    requires
        call_ensures(build_dispatcher_params, (&flow,), r),
    ensures
        r.flow_name@ == flow.name@,
        r.flow_description is Some <==> flow.description is Some,
        flow.description is Some ==> r.flow_description->0@ == flow.description->0@,
        r.url@ == flow.source.url@,
        r.ref_name@ == flow.source.ref_name@,
        r.action->repo@ == flow.action->repo@,
        r.action->workflow@ == flow.action->workflow@,
        r.action->ref_name@ == flow.action->ref_name@,
        r.action->credential_id@ == flow.action->credential_id@,
        texts_agree(r.action->inputs@, flow.action->inputs@),
        r.destinations@.len() == flow.destination@.len(),
        0 <= i < flow.destination@.len() ==> destinations_agree(
            r.destinations@[i],
            flow.destination@[i],
        ) && match (r.destinations@[i], flow.destination@[i]) {
            (Destination::DiscordWebhook(x), Destination::DiscordWebhook(y)) => x.fire_on@
                == y.fire_on@,
            (Destination::LocalMail(x), Destination::LocalMail(y)) => x.fire_on@ == y.fire_on@,
            _ => false,
        },
{
    actions_are_compared_in_every_part(r.action, flow.action);
    if 0 <= i < flow.destination@.len() {
        copies_agree_place_by_place(r.destinations@, flow.destination@, i);
    }
    assert(optional_view(r.flow_description) == optional_view(flow.description));
}

} // verus!
