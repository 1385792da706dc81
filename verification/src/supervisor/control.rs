//! What the daemon answers over its control channel.
use vstd::prelude::*;
use vstd::utf8::encode_utf8;

use crate::config::{first_named, has_flow, ActionConfig, Config, FlowConfig};
use crate::names::NameMap;
use crate::object_id::{decoded, hex_error_text, hex_text, is_object_hex, ObjectId};
use crate::state::{FlowState, State};
use crate::supervisor::types::{
    error_recorded, FlowLastError, FlowLastErrorView, FlowRegistry,
};
use crate::text::{glue, optional_view, same_text, views};
use crate::time::{opt_rfc3339, optional_rfc3339, rfc3339_text, Timestamp};

verus! {

/// What is told of a flow's last error.
#[derive(Debug)]
pub struct StatusError {
    pub at: String,
    pub kind: String,
    pub message: String,
    pub retry_at: Option<String>,
}

/// What is told of a flow.
#[derive(Debug)]
pub struct StatusEntry {
    /// `errored` if the flow has a last error, else `running` if something is persisted of it,
    /// else `starting`.
    pub state: &'static str,
    pub last_sha: Option<String>,
    pub last_poll_at: Option<String>,
    pub last_dispatched_at: Option<String>,
    pub cooldown_until: Option<String>,
    pub active_runs: usize,
    pub notified_runs: usize,
    pub last_error: Option<StatusError>,
}

/// What is told of a flow's last error, over the views of texts.
pub ghost struct StatusErrorView {
    pub at: Seq<char>,
    pub kind: Seq<char>,
    pub message: Seq<char>,
    pub retry_at: Option<Seq<char>>,
}

/// What is told of a flow, over the views of texts.
pub ghost struct StatusView {
    pub state: Seq<char>,
    pub last_sha: Option<Seq<char>>,
    pub last_poll_at: Option<Seq<char>>,
    pub last_dispatched_at: Option<Seq<char>>,
    pub cooldown_until: Option<Seq<char>>,
    pub active_runs: nat,
    pub notified_runs: nat,
    pub last_error: Option<StatusErrorView>,
}

impl View for StatusError {
    type V = StatusErrorView;

    open spec fn view(&self) -> StatusErrorView {
        StatusErrorView {
            at: self.at@,
            kind: self.kind@,
            message: self.message@,
            retry_at: optional_view(self.retry_at),
        }
    }
}

impl View for StatusEntry {
    type V = StatusView;

    open spec fn view(&self) -> StatusView {
        StatusView {
            state: self.state@,
            last_sha: optional_view(self.last_sha),
            last_poll_at: optional_view(self.last_poll_at),
            last_dispatched_at: optional_view(self.last_dispatched_at),
            cooldown_until: optional_view(self.cooldown_until),
            active_runs: self.active_runs as nat,
            notified_runs: self.notified_runs as nat,
            last_error: match self.last_error {
                Some(e) => Some(e@),
                None => None,
            },
        }
    }
}

/// What is told of a last error.
pub open spec fn error_status(error: FlowLastError) -> StatusErrorView {
    StatusErrorView {
        at: rfc3339_text(error@.at.spec_secs(), error@.at.spec_nanos()),
        kind: error@.kind,
        message: error@.message,
        retry_at: optional_rfc3339(error@.retry_at),
    }
}

/// What is told of a flow, given what is persisted of it and its last error.
pub open spec fn flow_status(st: Option<FlowState>, error: Option<FlowLastError>) -> StatusView {
    StatusView {
        state: if error is Some {
            "errored"@
        } else if st is Some {
            "running"@
        } else {
            "starting"@
        },
        last_sha: match st {
            Some(s) => optional_view(s.last_sha),
            None => None,
        },
        last_poll_at: match st {
            Some(s) => optional_rfc3339(s.last_poll_at),
            None => None,
        },
        last_dispatched_at: match st {
            Some(s) => optional_rfc3339(s.last_dispatched_at),
            None => None,
        },
        cooldown_until: match st {
            Some(s) => optional_rfc3339(s.cooldown_until),
            None => None,
        },
        active_runs: match st {
            Some(s) => s.active_runs as nat,
            None => 0,
        },
        notified_runs: match st {
            Some(s) => s.notified_runs as nat,
            None => 0,
        },
        last_error: match error {
            Some(e) => Some(error_status(e)),
            None => None,
        },
    }
}

/// The value at `name`, if there is one.
pub open spec fn value_at<T>(m: Map<Seq<char>, T>, name: Seq<char>) -> Option<T> {
    if m.dom().contains(name) {
        Some(m[name])
    } else {
        None
    }
}

/// What is told of `name`, given all that is persisted and all last errors.
pub open spec fn status_of(
    name: Seq<char>,
    flows: Map<Seq<char>, FlowState>,
    errors: Map<Seq<char>, FlowLastError>,
) -> StatusView {
    flow_status(value_at(flows, name), value_at(errors, name))
}

/// What is told of the flow, or of the daemon's own key, `name`.
pub fn render_one(
    name: &str,
    flows: &NameMap<FlowState>,
    errors: &NameMap<FlowLastError>,
) -> (r: StatusEntry)
    ensures
        r@ == status_of(name@, flows@, errors@),
{
    let st: Option<&FlowState> = flows.get(name);
    let error: Option<&FlowLastError> = errors.get(name);
    let state: &'static str = match (error, st) {
        (Some(_), _) => "errored",
        (None, Some(_)) => "running",
        (None, None) => "starting",
    };
    let last_error: Option<StatusError> = match error {
        Some(e) => Some(
            StatusError {
                at: e.at().to_rfc3339(),
                kind: e.kind().to_string(),
                message: e.message().to_string(),
                retry_at: opt_rfc3339(e.retry_at()),
            },
        ),
        None => None,
    };
    match st {
        Some(s) => StatusEntry {
            state,
            last_sha: match &s.last_sha {
                Some(sha) => Some(sha.clone()),
                None => None,
            },
            last_poll_at: opt_rfc3339(s.last_poll_at),
            last_dispatched_at: opt_rfc3339(s.last_dispatched_at),
            cooldown_until: opt_rfc3339(s.cooldown_until),
            active_runs: s.active_runs,
            notified_runs: s.notified_runs,
            last_error,
        },
        None => StatusEntry {
            state,
            last_sha: None,
            last_poll_at: None,
            last_dispatched_at: None,
            cooldown_until: None,
            active_runs: 0,
            notified_runs: 0,
            last_error,
        },
    }
}

/// Whether `name` is among `names`.
fn is_among(names: &Vec<String>, name: &str) -> (r: bool)
    ensures
        r == views(names@).contains(name@),
{
    let mut i: usize = 0;
    while i < names.len()
        invariant
            i <= names@.len(),
            forall|j: int| 0 <= j < i ==> (#[trigger] names@[j])@ != name@,
        decreases names@.len() - i,
    {
        if same_text(names[i].as_str(), name) {
            assert(views(names@)[i as int] == name@);
            return true;
        }
        i += 1;
    }
    false
}

/// What is told of each name in `from`, put among what is told of others in `out`.
fn render_all(
    out: &mut NameMap<StatusEntry>,
    from: &Vec<String>,
    flows: &NameMap<FlowState>,
    errors: &NameMap<FlowLastError>,
)
    requires
        tells_rightly(old(out)@, flows@, errors@),
    ensures
        final(out)@.dom() == old(out)@.dom().union(views(from@).to_set()),
        tells_rightly(final(out)@, flows@, errors@),
{
    let ghost all = views(from@);
    let mut i: usize = 0;
    assert(out@.dom() =~= old(out)@.dom().union(all.take(0).to_set()));
    while i < from.len()
        invariant
            i <= from@.len(),
            all == views(from@),
            out@.dom() =~= old(out)@.dom().union(all.take(i as int).to_set()),
            tells_rightly(out@, flows@, errors@),
        decreases from@.len() - i,
    {
        let entry: StatusEntry = render_one(from[i].as_str(), flows, errors);
        out.insert(from[i].clone(), entry);
        proof {
            let (shorter, longer) = (all.take(i as int), all.take(i + 1));
            assert(longer =~= shorter.push(all[i as int]));
            assert forall|k: Seq<char>| #[trigger]
                longer.to_set().contains(k) <==> shorter.to_set().contains(k) || k
                    == all[i as int] by {
                if shorter.to_set().contains(k) {
                    let j = shorter.index_of(k);
                    assert(longer[j] == k);
                }
                if k == all[i as int] {
                    assert(longer[i as int] == k);
                }
            }
        }
        i += 1;
    }
    assert(all.take(all.len() as int) =~= all);
}

/// Whether each name in `out` is told of as it should be.
pub open spec fn tells_rightly(
    out: Map<Seq<char>, StatusEntry>,
    flows: Map<Seq<char>, FlowState>,
    errors: Map<Seq<char>, FlowLastError>,
) -> bool {
    forall|k: Seq<char>| #[trigger]
        out.dom().contains(k) ==> out[k]@ == status_of(k, flows, errors)
}

/// What is told of the flow `flow`, which must be among `names`, or of all names and of every
/// other key that has a last error. `mirror` is what is persisted, where that can be read.
pub fn status(
    names: &Vec<String>,
    errors: &NameMap<FlowLastError>,
    mirror: Option<&State>,
    flow: Option<&str>,
) -> (r: Result<NameMap<StatusEntry>, String>)
    ensures
        r is Ok <==> mirror is Some && (flow matches Some(f) ==> views(names@).contains(f@)),
        r matches Err(e) ==> e@ == if mirror is None {
            "state mirror mutex poisoned"@
        } else {
            "flow `"@ + flow->0@ + "` not running"@
        },
        r matches Ok(out) ==> {
            &&& out@.dom() == match flow {
                Some(f) => set![f@],
                None => views(names@).to_set().union(errors@.dom()),
            }
            &&& tells_rightly(out@, mirror->0.flows@, errors@)
        },
{
    let state: &State = match mirror {
        Some(s) => s,
        None => {
            return Err("state mirror mutex poisoned".to_string());
        },
    };
    let mut out: NameMap<StatusEntry> = NameMap::new();
    match flow {
        Some(f) => {
            if !is_among(names, f) {
                let mut m: String = glue("flow `", f);
                m.append("` not running");
                return Err(m);
            }
            out.insert(f.to_string(), render_one(f, &state.flows, errors));
            assert(out@.dom() =~= set![f@]);
        },
        None => {
            render_all(&mut out, names, &state.flows, errors);
            let keys: Vec<String> = errors.keys();
            render_all(&mut out, &keys, &state.flows, errors);
            assert(out@.dom() =~= views(names@).to_set().union(errors@.dom()));
        },
    }
    Ok(out)
}

/// An error that is recorded is told of with the status of its flow, or of the daemon's own key,
/// and of that alone.
pub proof fn recorded_errors_are_told(
    before: Map<Seq<char>, FlowLastError>,
    after: Map<Seq<char>, FlowLastError>,
    flow: Seq<char>,
    error: FlowLastErrorView,
    flows: Map<Seq<char>, FlowState>,
    other: Seq<char>,
)
    requires
        error_recorded(before, after, flow, error),
        other != flow,
    ensures
        status_of(flow, flows, after).state == "errored"@,
        status_of(flow, flows, after).last_error == Some(
            StatusErrorView {
                at: rfc3339_text(error.at.spec_secs(), error.at.spec_nanos()),
                kind: error.kind,
                message: error.message,
                retry_at: optional_rfc3339(error.retry_at),
            },
        ),
        status_of(other, flows, after) == status_of(other, flows, before),
{
    assert(after.remove(flow).dom().contains(other) == before.remove(flow).dom().contains(other));
    assert(after.dom().contains(other) ==> after.remove(flow)[other] == after[other]);
    assert(before.dom().contains(other) ==> before.remove(flow)[other] == before[other]);
}

/// What a request to the supervisor came to: whether it could be put to the supervisor, and
/// what the supervisor replied, if it did.
pub fn command_reply<T>(sent: bool, reply: Option<Result<T, String>>) -> (r: Result<T, String>)
    ensures
        !sent ==> (r matches Err(e) && e@ == "supervisor command channel closed"@),
        sent && reply is None ==> (r matches Err(e) && e@ == "supervisor reply dropped"@),
        sent && reply is Some ==> r == reply->0,
{
    if !sent {
        return Err("supervisor command channel closed".to_string());
    }
    match reply {
        None => Err("supervisor reply dropped".to_string()),
        Some(answer) => answer,
    }
}

/// What is told of a reload that is over.
#[derive(Debug)]
pub struct ReloadReply {
    /// How many flows run.
    pub flows: usize,
    pub result: &'static str,
}

/// What is told of a reload that is over.
pub fn reload_reply<H>(registry: &FlowRegistry<H>) -> (r: ReloadReply)
    ensures
        r.flows == registry.handles@.dom().len(),
        r.result@ == "reload completed"@,
{
    ReloadReply { flows: registry.handles.len(), result: "reload completed" }
}

/// The text `what` about `flow`, in single quotes.
pub open spec fn about_flow(flow: Seq<char>, what: Seq<char>) -> Seq<char> {
    "flow '"@ + flow + what
}

/// The text `what` about `flow`, in single quotes.
fn say_of_flow(flow: &str, what: &str) -> (r: String)
    ensures
        r@ == about_flow(flow@, what@),
{
    let mut m: String = glue("flow '", flow);
    m.append(what);
    m
}

/// The object id that was last observed of `flow`, or why there is none, given what is
/// persisted.
pub open spec fn last_sha(mirror: Option<&State>, flow: Seq<char>) -> Result<Seq<u8>, Seq<char>> {
    match mirror {
        None => Err("state mirror mutex poisoned"@),
        Some(state) => match value_at(state.flows@, flow) {
            None => Err(about_flow(flow, "' has no recorded state yet"@)),
            Some(entry) => match entry.last_sha {
                None => Err(
                    about_flow(
                        flow,
                        "' has no observed sha yet (manual trigger requires at least one poll cycle)"@,
                    ),
                ),
                Some(hex) => if is_object_hex(encode_utf8(hex@)) {
                    Ok(decoded(encode_utf8(hex@)))
                } else {
                    Err(
                        about_flow(flow, "' last_sha is not valid hex: "@) + hex_error_text(
                            encode_utf8(hex@),
                        ),
                    )
                },
            },
        },
    }
}

/// The bytes of an object id, or the view of a complaint.
pub open spec fn sha_view(r: Result<ObjectId, String>) -> Result<Seq<u8>, Seq<char>> {
    match r {
        Ok(id) => Ok(id@),
        Err(e) => Err(e@),
    }
}

/// The object id that was last observed of `flow`, or why there is none.
pub fn read_last_sha(mirror: Option<&State>, flow: &str) -> (r: Result<ObjectId, String>)
    ensures
        sha_view(r) == last_sha(mirror, flow@),
{
    let state: &State = match mirror {
        Some(s) => s,
        None => {
            return Err("state mirror mutex poisoned".to_string());
        },
    };
    match state.flows.get(flow) {
        None => Err(say_of_flow(flow, "' has no recorded state yet")),
        Some(entry) => match &entry.last_sha {
            None => Err(
                say_of_flow(
                    flow,
                    "' has no observed sha yet (manual trigger requires at least one poll cycle)",
                ),
            ),
            Some(hex) => match ObjectId::from_hex(hex.as_str().as_bytes()) {
                Ok(id) => Ok(id),
                Err(e) => {
                    let mut m: String = say_of_flow(flow, "' last_sha is not valid hex: ");
                    m.append(e.as_str());
                    Err(m)
                },
            },
        },
    }
}

/// What a request to trigger a flow by hand leads to.
#[derive(Debug)]
pub enum TriggerPlan {
    /// What would be dispatched for the flow at this index of the configuration is shown.
    Preview(usize),
    /// The running flow is told to dispatch for this object id.
    Enqueue { observed: ObjectId },
}

/// What a request to trigger a flow by hand leads to, over the bytes of ids.
pub ghost enum TriggerView {
    Preview(int),
    Enqueue(Seq<u8>),
}

impl View for TriggerPlan {
    type V = TriggerView;

    open spec fn view(&self) -> TriggerView {
        match self {
            TriggerPlan::Preview(i) => TriggerView::Preview(*i as int),
            TriggerPlan::Enqueue { observed } => TriggerView::Enqueue(observed@),
        }
    }
}

/// What a request to trigger `flow` leads to, where `i` is the index of the first flow of that
/// name and `running` is whether it runs.
pub open spec fn trigger_of(
    flow: Seq<char>,
    dry_run: bool,
    flows: Seq<FlowConfig>,
    i: int,
    mirror: Option<&State>,
    running: bool,
) -> Result<TriggerView, Seq<char>> {
    if !flows[i].enabled {
        Err(about_flow(flow, "' is disabled in current config"@))
    } else if dry_run {
        Ok(TriggerView::Preview(i))
    } else {
        match last_sha(mirror, flow) {
            Err(e) => Err(e),
            Ok(sha) => if running {
                Ok(TriggerView::Enqueue(sha))
            } else {
                Err(about_flow(flow, "' is not currently running"@))
            },
        }
    }
}

/// The view of what a request to trigger a flow leads to, or of why it is refused.
pub open spec fn trigger_view(r: Result<TriggerPlan, String>) -> Result<TriggerView, Seq<char>> {
    match r {
        Ok(p) => Ok(p@),
        Err(e) => Err(e@),
    }
}

/// What a request to trigger `flow_name` by hand leads to. It is refused if the flow is not
/// configured, or disabled, or, unless only a preview is wanted, if no object id was observed
/// of it or it does not run, in this order.
pub fn plan_trigger<H>(
    flow_name: &str,
    dry_run: bool,
    handles: &NameMap<H>,
    cfg: &Config,
    mirror: Option<&State>,
) -> (r: Result<TriggerPlan, String>)
    ensures
        !has_flow(cfg.flow@, flow_name@) ==> trigger_view(r) == Err::<TriggerView, Seq<char>>(
            about_flow(flow_name@, "' not found in current config"@),
        ),
        has_flow(cfg.flow@, flow_name@) ==> exists|i: int| #[trigger]
            first_named(cfg.flow@, flow_name@, i) && trigger_view(r) == trigger_of(
                flow_name@,
                dry_run,
                cfg.flow@,
                i,
                mirror,
                handles@.dom().contains(flow_name@),
            ),
{
    let i: usize = match cfg.find(flow_name) {
        Some(i) => i,
        None => {
            return Err(say_of_flow(flow_name, "' not found in current config"));
        },
    };
    assert(first_named(cfg.flow@, flow_name@, i as int));
    if !cfg.flow[i].enabled {
        return Err(say_of_flow(flow_name, "' is disabled in current config"));
    }
    if dry_run {
        return Ok(TriggerPlan::Preview(i));
    }
    match read_last_sha(mirror, flow_name) {
        Err(e) => Err(e),
        Ok(observed) => {
            if handles.contains_key(flow_name) {
                Ok(TriggerPlan::Enqueue { observed })
            } else {
                Err(say_of_flow(flow_name, "' is not currently running"))
            }
        },
    }
}

/// A preview needs no observed object id and no running flow: neither what is persisted nor
/// whether the flow runs bears on it.
pub proof fn previews_need_no_observation(
    flow: Seq<char>,
    flows: Seq<FlowConfig>,
    i: int,
    mirror: Option<&State>,
    other: Option<&State>,
    running: bool,
)
    ensures
        trigger_of(flow, true, flows, i, mirror, running) == trigger_of(
            flow,
            true,
            flows,
            i,
            other,
            !running,
        ),
{
}

/// What is told of a trigger that the running flow was told of.
#[derive(Debug)]
pub struct TriggerReply {
    pub flow: String,
    pub result: &'static str,
    pub observed_sha: String,
}

/// What is told of a trigger for `observed`, given whether the running flow could be told.
pub fn trigger_reply(flow_name: &str, observed: &ObjectId, sent: Result<(), String>) -> (r: Result<
    TriggerReply,
    String,
>)
    ensures
        match sent {
            Ok(_) => {
                &&& r matches Ok(reply)
                &&& reply.flow@ == flow_name@
                &&& reply.result@ == "trigger enqueued"@
                &&& reply.observed_sha@ == hex_text(observed@)
            },
            Err(why) => r matches Err(e) && e@ == "failed to enqueue trigger: "@ + why@,
        },
{
    match sent {
        Ok(()) => Ok(
            TriggerReply {
                flow: flow_name.to_string(),
                result: "trigger enqueued",
                observed_sha: observed.to_hex(),
            },
        ),
        Err(why) => Err(glue("failed to enqueue trigger: ", why.as_str())),
    }
}

/// Whether `c` is a small hexadecimal digit.
pub open spec fn is_small_hex(c: char) -> bool {
    '0' <= c <= '9' || 'a' <= c <= 'f'
}

/// Whether `text` is the id of a run: a random UUID, in small hexadecimal digits with hyphens.
pub open spec fn is_run_id(text: Seq<char>) -> bool {
    &&& text.len() == 36
    &&& forall|i: int|
        0 <= i < 36 ==> if i == 8 || i == 13 || i == 18 || i == 23 {
            (#[trigger] text[i]) == '-'
        } else {
            is_small_hex(text[i])
        }
    &&& text[14] == '4'
    &&& text[19] == '8' || text[19] == '9' || text[19] == 'a' || text[19] == 'b'
}

/// A fresh random id, from `uuid::Uuid::new_v4` and its `Display`. Claimed of them: the text is
/// a UUID of version 4 in small hexadecimal digits with hyphens. Which one it is, is left to
/// chance; that no two are the same is left unsaid.
#[verifier::external_body]
fn fresh_uuid() -> (r: String)
    ensures
        is_run_id(r@),
{
    uuid::Uuid::new_v4().to_string()
}

/// What the inputs of a preview are rendered from. No run stands behind it: its object id is
/// that of no object, and its run has number zero and no URL.
#[derive(Debug)]
pub struct PreviewContext {
    pub flow_name: String,
    pub flow_description: Option<String>,
    pub url: String,
    pub ref_name: String,
    pub sha: ObjectId,
    pub sha_short: &'static str,
    pub repo: String,
    pub workflow: String,
    pub run_id: u64,
    pub run_url: &'static str,
    pub gcit_run_id: String,
}

/// Whether `ctx` is what the inputs of a preview of `flow` under `run_id` are rendered from.
pub open spec fn previews(ctx: PreviewContext, flow: FlowConfig, run_id: Seq<char>) -> bool {
    &&& ctx.flow_name@ == flow.name@
    &&& optional_view(ctx.flow_description) == optional_view(flow.description)
    &&& ctx.url@ == flow.source.url@
    &&& ctx.ref_name@ == flow.source.ref_name@
    &&& ctx.sha@ == Seq::new(20, |i: int| 0u8)
    &&& ctx.sha_short@ == "000000000000"@
    &&& ctx.repo@ == flow.action@.repo
    &&& ctx.workflow@ == flow.action@.workflow
    &&& ctx.run_id == 0
    &&& ctx.run_url@ == ""@
    &&& ctx.gcit_run_id@ == run_id
}

/// What the inputs of a preview of `flow` under `run_id` are rendered from.
pub fn preview_context(flow: &FlowConfig, run_id: String) -> (r: PreviewContext)
    ensures
        previews(r, *flow, run_id@),
{
    match &flow.action {
        ActionConfig::GithubWorkflowDispatch { repo, workflow, .. } => PreviewContext {
            flow_name: flow.name.clone(),
            flow_description: match &flow.description {
                Some(d) => Some(d.clone()),
                None => None,
            },
            url: flow.source.url.clone(),
            ref_name: flow.source.ref_name.clone(),
            sha: ObjectId::null(),
            sha_short: "000000000000",
            repo: repo.clone(),
            workflow: workflow.clone(),
            run_id: 0,
            run_url: "",
            gcit_run_id: run_id,
        },
    }
}

/// Begins a preview of `flow`: what its inputs are rendered from, under a fresh run id.
pub fn begin_preview(flow: &FlowConfig) -> (r: PreviewContext)
    ensures
        previews(r, *flow, r.gcit_run_id@),
        is_run_id(r.gcit_run_id@),
{
    preview_context(flow, fresh_uuid())
}

/// What would be dispatched for a flow.
pub struct DryRunPayload {
    pub flow: String,
    pub dry_run: bool,
    pub repo: String,
    pub workflow: String,
    pub ref_name: String,
    pub gcit_run_id: String,
    pub rendered_inputs: NameMap<String>,
}

/// What would be dispatched for `flow` under `run_id`, given what the rendering of its inputs
/// came to. The run id goes along as one more input.
pub fn render_dry_run_payload(
    flow: &FlowConfig,
    run_id: &str,
    rendered: Result<NameMap<String>, String>,
) -> (r: Result<DryRunPayload, String>)
    ensures
        match rendered {
            Err(e) => r matches Err(m) && m@ == "render inputs (dry-run): "@ + e@,
            Ok(inputs) => {
                &&& r matches Ok(p)
                &&& p.flow@ == flow.name@
                &&& p.dry_run
                &&& p.repo@ == flow.action@.repo
                &&& p.workflow@ == flow.action@.workflow
                &&& p.ref_name@ == flow.action@.ref_name
                &&& p.gcit_run_id@ == run_id@
                &&& p.rendered_inputs@.dom() == inputs@.dom().insert("gcit_run_id"@)
                &&& p.rendered_inputs@["gcit_run_id"@]@ == run_id@
                &&& p.rendered_inputs@.remove("gcit_run_id"@) == inputs@.remove("gcit_run_id"@)
            },
        },
{
    match rendered {
        Err(e) => Err(glue("render inputs (dry-run): ", e.as_str())),
        Ok(inputs) => {
            let ghost given = inputs@;
            let mut payload: NameMap<String> = inputs;
            payload.insert("gcit_run_id".to_string(), run_id.to_string());
            proof {
                assert(payload@.remove("gcit_run_id"@) =~= given.remove("gcit_run_id"@));
                assert(payload@.dom() =~= given.dom().insert("gcit_run_id"@));
            }
            match &flow.action {
                ActionConfig::GithubWorkflowDispatch { repo, workflow, ref_name, .. } => Ok(
                    DryRunPayload {
                        flow: flow.name.clone(),
                        dry_run: true,
                        repo: repo.clone(),
                        workflow: workflow.clone(),
                        ref_name: ref_name.clone(),
                        gcit_run_id: run_id.to_string(),
                        rendered_inputs: payload,
                    },
                ),
            }
        },
    }
}

/// Whether two optional texts are the same.
pub open spec fn same_optional(a: Option<String>, b: Option<String>) -> bool {
    &&& a is Some <==> b is Some
    &&& a is Some ==> a->0@ == b->0@
}

/// Whether `text` tells the time `t`, or neither is there.
pub open spec fn tells_time(text: Option<String>, t: Option<Timestamp>) -> bool {
    &&& text is Some <==> t is Some
    &&& text is Some ==> text->0@ == rfc3339_text(t->0.spec_secs(), t->0.spec_nanos())
}

/// Whether `entry` tells of all that is persisted in `st`, part by part.
pub open spec fn tells_persisted(entry: StatusEntry, st: FlowState) -> bool {
    &&& same_optional(entry.last_sha, st.last_sha)
    &&& tells_time(entry.last_poll_at, st.last_poll_at)
    &&& tells_time(entry.last_dispatched_at, st.last_dispatched_at)
    &&& tells_time(entry.cooldown_until, st.cooldown_until)
    &&& entry.active_runs == st.active_runs
    &&& entry.notified_runs == st.notified_runs
}

/// Whether `entry` tells of nothing that is persisted.
pub open spec fn tells_nothing_persisted(entry: StatusEntry) -> bool {
    &&& entry.last_sha is None
    &&& entry.last_poll_at is None
    &&& entry.last_dispatched_at is None
    &&& entry.cooldown_until is None
    &&& entry.active_runs == 0
    &&& entry.notified_runs == 0
}

/// Whether `told` tells of the error `error`, part by part.
pub open spec fn tells_error(told: StatusError, error: FlowLastErrorView) -> bool {
    &&& told.at@ == rfc3339_text(error.at.spec_secs(), error.at.spec_nanos())
    &&& told.kind@ == error.kind
    &&& told.message@ == error.message
    &&& tells_time(told.retry_at, error.retry_at)
}

/// The status of a flow tells all that is persisted of it, whether or not it has a last error,
/// and tells nothing of a flow of which nothing is persisted.
pub proof fn what_is_persisted_is_told_whatever_the_error(
    name: &str,
    flows: NameMap<FlowState>,
    errors: NameMap<FlowLastError>,
    r: StatusEntry,
)
    requires
        call_ensures(render_one, (name, &flows, &errors), r),
    ensures
        flows@.dom().contains(name@) ==> tells_persisted(r, flows@[name@]),
        !flows@.dom().contains(name@) ==> tells_nothing_persisted(r),
{
    assert(r@.last_sha == optional_view(r.last_sha));
    assert(r@.last_poll_at == optional_view(r.last_poll_at));
    assert(r@.last_dispatched_at == optional_view(r.last_dispatched_at));
    assert(r@.cooldown_until == optional_view(r.cooldown_until));
}

/// The status of a flow is that of an error just where it has a last error, which is then told
/// in full; else it runs just where something is persisted of it, and else it starts.
pub proof fn errors_are_told_in_full(
    name: &str,
    flows: NameMap<FlowState>,
    errors: NameMap<FlowLastError>,
    r: StatusEntry,
)
    requires
        call_ensures(render_one, (name, &flows, &errors), r),
    ensures
        ({
            let errored = errors@.dom().contains(name@);
            let persisted = flows@.dom().contains(name@);
            &&& errored ==> r.state@ == "errored"@
            &&& !errored && persisted ==> r.state@ == "running"@
            &&& !errored && !persisted ==> r.state@ == "starting"@
            &&& r.last_error is Some <==> errored
            &&& errored ==> tells_error(r.last_error->0, errors@[name@]@)
        }),
{
    if r.last_error is Some {
        let told = r.last_error->0;
        assert(told@.retry_at == optional_view(told.retry_at));
    }
}

/// Recording an error of a flow, or forgetting it, changes nothing of the flow's status but its
/// state and its last error: whatever errors there are, the rest is told alike.
pub proof fn errors_change_only_the_state_and_the_error(
    name: &str,
    flows: NameMap<FlowState>,
    errors: NameMap<FlowLastError>,
    r: StatusEntry,
    others: NameMap<FlowLastError>,
    with_others: StatusEntry,
)
    requires
        call_ensures(render_one, (name, &flows, &errors), r),
        call_ensures(render_one, (name, &flows, &others), with_others),
    ensures
        same_optional(r.last_sha, with_others.last_sha),
        same_optional(r.last_poll_at, with_others.last_poll_at),
        same_optional(r.last_dispatched_at, with_others.last_dispatched_at),
        same_optional(r.cooldown_until, with_others.cooldown_until),
        r.active_runs == with_others.active_runs,
        r.notified_runs == with_others.notified_runs,
{
    what_is_persisted_is_told_whatever_the_error(name, flows, errors, r);
    what_is_persisted_is_told_whatever_the_error(name, flows, others, with_others);
}

/// The status is refused where what is persisted cannot be read, or where the one flow that is
/// asked for is none of the daemon's. Else it tells of the one flow that is asked for, or of
/// every flow and of every key that has an error; and it tells of each what it tells of it
/// alone.
pub proof fn the_status_tells_of_each_flow_as_of_it_alone(
    names: Vec<String>,
    errors: NameMap<FlowLastError>,
    mirror: Option<&State>,
    flow: Option<&str>,
    r: Result<NameMap<StatusEntry>, String>,
    k: Seq<char>,
)
    requires
        call_ensures(status, (&names, &errors, mirror, flow), r),
    ensures
        ({
            let ours = |f: Seq<char>| exists|i: int|
                0 <= i < names@.len() && (#[trigger] names@[i])@ == f;
            &&& r is Err <==> mirror is None || (flow is Some && !ours(flow->0@))
            &&& mirror is None ==> r->Err_0@ == "state mirror mutex poisoned"@
            &&& mirror is Some && r is Err ==> r->Err_0@ == "flow `"@ + flow->0@
                + "` not running"@
            &&& r matches Ok(out) ==> {
                let flows = mirror->0.flows@;
                let entry = out@[k];
                &&& flow is Some ==> (out@.dom().contains(k) <==> k == flow->0@)
                &&& flow is None ==> (out@.dom().contains(k) <==> ours(k)
                    || errors@.dom().contains(k))
                &&& out@.dom().contains(k) && flows.dom().contains(k) ==> tells_persisted(
                    entry,
                    flows[k],
                )
                &&& out@.dom().contains(k) && !flows.dom().contains(k) ==> tells_nothing_persisted(
                    entry,
                )
                &&& out@.dom().contains(k) ==> (entry.last_error is Some
                    <==> errors@.dom().contains(k))
                &&& out@.dom().contains(k) && errors@.dom().contains(k) ==> entry.state@
                    == "errored"@ && tells_error(entry.last_error->0, errors@[k]@)
                &&& out@.dom().contains(k) && !errors@.dom().contains(k) ==> entry.state@ == (
                if flows.dom().contains(k) {
                    "running"@
                } else {
                    "starting"@
                })
            }
        }),
{
    let all = views(names@);
    assert forall|f: Seq<char>| #[trigger]
        all.contains(f) <==> exists|i: int| 0 <= i < names@.len() && (#[trigger] names@[i])@ == f by {
        if all.contains(f) {
            let i = all.index_of(f);
            assert(names@[i]@ == f);
        }
        if exists|i: int| 0 <= i < names@.len() && (#[trigger] names@[i])@ == f {
            let i = choose|i: int| 0 <= i < names@.len() && (#[trigger] names@[i])@ == f;
            assert(all[i] == f);
        }
    }
    if flow is Some {
        assert(all.contains(flow->0@) == all.contains(flow->0@));
    }
    if r is Ok && r->Ok_0@.dom().contains(k) {
        let entry = r->Ok_0@[k];
        assert(all.to_set().contains(k) == all.contains(k));
        assert(entry@.last_sha == optional_view(entry.last_sha));
        assert(entry@.last_poll_at == optional_view(entry.last_poll_at));
        assert(entry@.last_dispatched_at == optional_view(entry.last_dispatched_at));
        assert(entry@.cooldown_until == optional_view(entry.cooldown_until));
        if entry.last_error is Some {
            let told = entry.last_error->0;
            assert(told@.retry_at == optional_view(told.retry_at));
        }
    }
    assert(all.to_set().contains(k) == all.contains(k));
}

/// The id that was last observed of a flow is the one that is persisted, spelled in hexadecimal,
/// and where there is none it is said why.
pub proof fn observed_ids_are_read_from_what_is_persisted(
    mirror: Option<&State>,
    flow: &str,
    r: Result<ObjectId, String>,
)
    requires
        call_ensures(read_last_sha, (mirror, flow), r),
    ensures
        ({
            let flows = mirror->0.flows@;
            let known = mirror is Some && flows.dom().contains(flow@);
            let sha = flows[flow@].last_sha;
            let hex = encode_utf8(sha->0@);
            &&& r is Ok <==> known && sha is Some && is_object_hex(hex)
            &&& r is Ok ==> r->Ok_0.bytes@ == decoded(hex)
            &&& mirror is None ==> r->Err_0@ == "state mirror mutex poisoned"@
            &&& mirror is Some && !known ==> r->Err_0@ == "flow '"@ + flow@
                + "' has no recorded state yet"@
            &&& known && sha is None ==> r->Err_0@ == "flow '"@ + flow@
                + "' has no observed sha yet (manual trigger requires at least one poll cycle)"@
            &&& known && sha is Some && r is Err ==> r->Err_0@ == "flow '"@ + flow@
                + "' last_sha is not valid hex: "@ + hex_error_text(hex)
        }),
{
}

/// What a request to trigger a flow by hand leads to. The first flow of the name decides: one
/// that is disabled is refused, be it for a preview or not; one that is enabled is previewed; and
/// without a preview it is triggered for the id that was last observed of it, just where there is
/// one and the flow runs.
pub proof fn triggers_go_by_the_first_flow_of_the_name<H>(
    flow_name: &str,
    dry_run: bool,
    handles: NameMap<H>,
    cfg: Config,
    mirror: Option<&State>,
    r: Result<TriggerPlan, String>,
    sha: Result<ObjectId, String>,
    i: int,
)
    requires
        call_ensures(plan_trigger::<H>, (flow_name, dry_run, &handles, &cfg, mirror), r),
        call_ensures(read_last_sha, (mirror, flow_name), sha),
    ensures
        ({
            let name = flow_name@;
            let first = 0 <= i < cfg.flow@.len() && cfg.flow@[i].name@ == name && forall|j: int|
                0 <= j < i ==> (#[trigger] cfg.flow@[j]).name@ != name;
            let on = first && cfg.flow@[i].enabled;
            let runs = handles@.dom().contains(name);
            &&& (forall|j: int|
                0 <= j < cfg.flow@.len() ==> (#[trigger] cfg.flow@[j]).name@ != name) ==> r is Err
                && r->Err_0@ == "flow '"@ + name + "' not found in current config"@
            &&& first && !cfg.flow@[i].enabled ==> r is Err && r->Err_0@ == "flow '"@ + name
                + "' is disabled in current config"@
            &&& on && dry_run ==> r is Ok && r->Ok_0 is Preview && r->Ok_0->Preview_0 == i
            &&& on && !dry_run && sha is Err ==> r is Err && r->Err_0@ == sha->Err_0@
            &&& on && !dry_run && sha is Ok && !runs ==> r is Err && r->Err_0@ == "flow '"@ + name
                + "' is not currently running"@
            &&& on && !dry_run && sha is Ok && runs ==> r is Ok && r->Ok_0 is Enqueue
                && r->Ok_0->observed.bytes@ == sha->Ok_0.bytes@
        }),
{
    let flows = cfg.flow@;
    let name = flow_name@;
    if 0 <= i < flows.len() && flows[i].name@ == name && forall|j: int|
        0 <= j < i ==> (#[trigger] flows[j]).name@ != name {
        assert(has_flow(flows, name));
        let k = choose|k: int| #[trigger]
            first_named(flows, name, k) && trigger_view(r) == trigger_of(
                name,
                dry_run,
                flows,
                k,
                mirror,
                handles@.dom().contains(name),
            );
        assert(flows[k].name@ == name);
        assert(k == i) by {
            if k < i {
                assert(flows[k].name@ != name);
            }
            if i < k {
                assert(flows[i].name@ != name);
            }
        }
    }
}

/// A reply of the supervisor is handed on as it is, and where none comes it is said why.
pub proof fn replies_are_handed_on<T>(
    sent: bool,
    reply: Option<Result<T, String>>,
    r: Result<T, String>,
)
    requires
        call_ensures(command_reply::<T>, (sent, reply), r),
    ensures
        sent && reply is Some ==> r == reply->0,
        !sent ==> r is Err && r->Err_0@ == "supervisor command channel closed"@,
        sent && reply is None ==> r is Err && r->Err_0@ == "supervisor reply dropped"@,
{
}

/// A reload that is over is told with how many flows run after it.
pub proof fn reloads_are_told_with_the_running_flows<H>(registry: FlowRegistry<H>, r: ReloadReply)
    requires
        call_ensures(reload_reply::<H>, (&registry,), r),
    ensures
        r.flows == registry.handles@.dom().len(),
        r.result@ == "reload completed"@,
{
}

/// A trigger that the flow was told of is told with the flow and the id in hexadecimal; one that
/// it could not be told of is told with why.
pub proof fn triggers_are_told_with_their_ids(
    flow_name: &str,
    observed: ObjectId,
    sent: Result<(), String>,
    r: Result<TriggerReply, String>,
)
    requires
        call_ensures(trigger_reply, (flow_name, &observed, sent), r),
    ensures
        r is Ok <==> sent is Ok,
        r is Ok ==> r->Ok_0.flow@ == flow_name@ && r->Ok_0.result@ == "trigger enqueued"@
            && r->Ok_0.observed_sha@ == hex_text(observed.bytes@),
        r is Err ==> r->Err_0@ == "failed to enqueue trigger: "@ + sent->Err_0@,
{
}

/// A preview is rendered from the flow's own name, description, source and action, and from a run
/// that is none: an id of zeros, number zero and no URL.
pub proof fn previews_are_rendered_from_the_flow(flow: FlowConfig, run_id: String, r: PreviewContext)
    requires
        call_ensures(preview_context, (&flow, run_id), r),
    ensures
        r.flow_name@ == flow.name@,
        same_optional(r.flow_description, flow.description),
        r.url@ == flow.source.url@,
        r.ref_name@ == flow.source.ref_name@,
        r.repo@ == flow.action->repo@,
        r.workflow@ == flow.action->workflow@,
        forall|i: int| 0 <= i < 20 ==> #[trigger] r.sha.bytes@[i] == 0,
        r.sha_short@ == "000000000000"@,
        r.run_id == 0,
        r.run_url@ == ""@,
        r.gcit_run_id@ == run_id@,
{
    assert(r.sha@ == r.sha.bytes@);
}

/// A preview that is begun has a run id of 36 characters: hyphens at four places, the version 4,
/// and small hexadecimal digits else. The rest of it is as for any other run id.
pub proof fn begun_previews_have_run_ids(
    flow: FlowConfig,
    r: PreviewContext,
    run_id: String,
    as_such: PreviewContext,
    i: int,
)
    requires
        call_ensures(begin_preview, (&flow,), r),
        call_ensures(preview_context, (&flow, run_id), as_such),
        0 <= i < 36,
    ensures
        ({
            let id = r.gcit_run_id@;
            let c = id[i];
            &&& id.len() == 36
            &&& i == 8 || i == 13 || i == 18 || i == 23 ==> c == '-'
            &&& i != 8 && i != 13 && i != 18 && i != 23 ==> '0' <= c <= '9' || 'a' <= c <= 'f'
            &&& i == 14 ==> c == '4'
            &&& i == 19 ==> c == '8' || c == '9' || c == 'a' || c == 'b'
        }),
        r.flow_name@ == as_such.flow_name@,
        same_optional(r.flow_description, as_such.flow_description),
        r.url@ == as_such.url@,
        r.ref_name@ == as_such.ref_name@,
        r.repo@ == as_such.repo@,
        r.workflow@ == as_such.workflow@,
        r.sha.bytes@ == as_such.sha.bytes@,
        r.sha_short@ == as_such.sha_short@,
        r.run_id == as_such.run_id,
        r.run_url@ == as_such.run_url@,
{
    assert(r.sha@ == r.sha.bytes@);
    assert(as_such.sha@ == as_such.sha.bytes@);
}

/// What would be dispatched has the flow's own action and every rendered input as it was
/// rendered; the run id goes along as one more input, in place of one of that name. Where the
/// inputs could not be rendered it is said why.
pub proof fn dry_runs_show_what_would_be_dispatched(
    flow: FlowConfig,
    run_id: &str,
    rendered: Result<NameMap<String>, String>,
    r: Result<DryRunPayload, String>,
    k: Seq<char>,
)
    requires
        call_ensures(render_dry_run_payload, (&flow, run_id, rendered), r),
        k != "gcit_run_id"@,
    ensures
        r is Ok <==> rendered is Ok,
        r is Err ==> r->Err_0@ == "render inputs (dry-run): "@ + rendered->Err_0@,
        r is Ok ==> {
            let p = r->Ok_0;
            let inputs = rendered->Ok_0@;
            &&& p.flow@ == flow.name@
            &&& p.dry_run
            &&& p.repo@ == flow.action->repo@
            &&& p.workflow@ == flow.action->workflow@
            &&& p.ref_name@ == flow.action->ref_name@
            &&& p.gcit_run_id@ == run_id@
            &&& p.rendered_inputs@.dom().contains("gcit_run_id"@)
            &&& p.rendered_inputs@["gcit_run_id"@]@ == run_id@
            &&& p.rendered_inputs@.dom().contains(k) <==> inputs.dom().contains(k)
            &&& inputs.dom().contains(k) ==> p.rendered_inputs@[k] == inputs[k]
        },
{
    if r is Ok {
        let (p, inputs) = (r->Ok_0, rendered->Ok_0@);
        assert(inputs.dom().contains(k) ==> p.rendered_inputs@.remove("gcit_run_id"@)[k]
            == inputs.remove("gcit_run_id"@)[k]);
    }
}

} // verus!
