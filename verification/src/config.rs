//! The configured flows, as far as the supervisor decides on them.
use vstd::multiset::Multiset;
use vstd::prelude::*;

use crate::names::NameMap;
use crate::text::{glue, same_text, upper_snake, variable_char};
use crate::time::Duration;

verus! {

/// The name under which a credential is looked up.
#[derive(Debug)]
pub struct CredentialId {
    id: String,
}

impl View for CredentialId {
    type V = Seq<char>;

    closed spec fn view(&self) -> Seq<char> {
        self.id@
    }
}

impl CredentialId {
    /// The credential named `id`.
    pub fn new(id: &str) -> (r: CredentialId)
        ensures
            r@ == id@,
    {
        CredentialId { id: id.to_string() }
    }

    /// The name of the credential.
    pub fn as_str(&self) -> (r: &str)
        ensures
            r@ == self@,
    {
        self.id.as_str()
    }

    /// The name of the environment variable that may hold the credential.
    pub fn to_env_var(&self) -> (r: String)
        ensures
            r@ == env_var_of(self@),
    {
        glue("GCIT_CREDENTIAL_", upper_snake(self.id.as_str()).as_str())
    }

    /// Another value for the same credential.
    pub fn copy(&self) -> (r: CredentialId)
        ensures
            r@ == self@,
    {
        CredentialId { id: self.id.clone() }
    }
}

/// The name of the environment variable that may hold the credential `id`.
pub open spec fn env_var_of(id: Seq<char>) -> Seq<char> {
    "GCIT_CREDENTIAL_"@ + id.map_values(|c: char| variable_char(c))
}

/// The name of an optional credential.
pub open spec fn optional_id(id: Option<CredentialId>) -> Option<Seq<char>> {
    match id {
        Some(c) => Some(c@),
        None => None,
    }
}

/// An event that a notifier may be told of.
#[derive(Clone, Copy, PartialEq, Eq, Structural, Debug)]
pub enum FireEvent {
    RunStart,
    RunComplete,
    JobComplete,
}

/// The texts in a map.
pub open spec fn text_map(m: Map<Seq<char>, String>) -> Map<Seq<char>, Seq<char>> {
    m.map_values(|s: String| s@)
}

/// The templates of a Discord destination, each under its name.
pub struct DiscordTemplateConfig {
    pub parts: NameMap<String>,
}

/// The templates of a local-mail destination, each under its name.
pub struct LocalMailTemplateConfig {
    pub parts: NameMap<String>,
}

/// A Discord webhook that is told of `fire_on`. The credential is the webhook's URL.
pub struct DiscordWebhookConfig {
    pub credential_id: CredentialId,
    pub fire_on: Vec<FireEvent>,
    pub template: DiscordTemplateConfig,
}

/// A local user that is mailed about `fire_on`.
pub struct LocalMailConfig {
    pub user: String,
    pub fire_on: Vec<FireEvent>,
    pub template: LocalMailTemplateConfig,
}

/// Where a flow's events are reported.
pub enum Destination {
    DiscordWebhook(DiscordWebhookConfig),
    LocalMail(LocalMailConfig),
}

/// What a destination does, whatever the order in which its events are listed.
pub ghost enum DestinationView {
    DiscordWebhook {
        credential_id: Seq<char>,
        fire_on: Multiset<FireEvent>,
        template: Map<Seq<char>, Seq<char>>,
    },
    LocalMail {
        user: Seq<char>,
        fire_on: Multiset<FireEvent>,
        template: Map<Seq<char>, Seq<char>>,
    },
}

impl View for Destination {
    type V = DestinationView;

    open spec fn view(&self) -> DestinationView {
        match self {
            Destination::DiscordWebhook(w) => DestinationView::DiscordWebhook {
                credential_id: w.credential_id@,
                fire_on: w.fire_on@.to_multiset(),
                template: text_map(w.template.parts@),
            },
            Destination::LocalMail(m) => DestinationView::LocalMail {
                user: m.user@,
                fire_on: m.fire_on@.to_multiset(),
                template: text_map(m.template.parts@),
            },
        }
    }
}

/// The git ref that a flow watches.
pub struct SourceConfig {
    pub url: String,
    pub ref_name: String,
    pub credential_id: Option<CredentialId>,
}

/// What a source is.
pub ghost struct SourceView {
    pub url: Seq<char>,
    pub ref_name: Seq<char>,
    pub credential_id: Option<Seq<char>>,
}

impl View for SourceConfig {
    type V = SourceView;

    open spec fn view(&self) -> SourceView {
        SourceView {
            url: self.url@,
            ref_name: self.ref_name@,
            credential_id: optional_id(self.credential_id),
        }
    }
}

/// What a flow does when its ref moves.
pub enum ActionConfig {
    GithubWorkflowDispatch {
        repo: String,
        workflow: String,
        ref_name: String,
        credential_id: CredentialId,
        inputs: NameMap<String>,
    },
}

/// What an action is.
pub ghost struct ActionView {
    pub repo: Seq<char>,
    pub workflow: Seq<char>,
    pub ref_name: Seq<char>,
    pub credential_id: Seq<char>,
    pub inputs: Map<Seq<char>, Seq<char>>,
}

impl View for ActionConfig {
    type V = ActionView;

    open spec fn view(&self) -> ActionView {
        match self {
            ActionConfig::GithubWorkflowDispatch {
                repo,
                workflow,
                ref_name,
                credential_id,
                inputs,
            } => ActionView {
                repo: repo@,
                workflow: workflow@,
                ref_name: ref_name@,
                credential_id: credential_id@,
                inputs: text_map(inputs@),
            },
        }
    }
}

/// A flow's own poll settings.
pub struct PollOverride {
    /// The interval between polls, if the flow sets one.
    pub source_interval: Option<Duration>,
    /// The other settings of the flow, each as text under its name.
    pub others: NameMap<String>,
}

/// What poll settings are.
pub ghost struct PollView {
    pub source_interval: Option<Duration>,
    pub others: Map<Seq<char>, Seq<char>>,
}

impl View for PollOverride {
    type V = PollView;

    open spec fn view(&self) -> PollView {
        PollView { source_interval: self.source_interval, others: text_map(self.others@) }
    }
}

/// One flow: a source, an action, and the destinations that are told of its runs.
pub struct FlowConfig {
    pub name: String,
    pub enabled: bool,
    pub description: Option<String>,
    pub source: SourceConfig,
    pub action: ActionConfig,
    pub destination: Vec<Destination>,
    pub poll: PollOverride,
}

/// The configured flows.
pub struct Config {
    pub flow: Vec<FlowConfig>,
}

impl Default for DiscordTemplateConfig {
    fn default() -> (r: DiscordTemplateConfig)
        ensures
            r.parts@ == Map::<Seq<char>, String>::empty(),
    {
        DiscordTemplateConfig { parts: NameMap::new() }
    }
}

impl Default for LocalMailTemplateConfig {
    fn default() -> (r: LocalMailTemplateConfig)
        ensures
            r.parts@ == Map::<Seq<char>, String>::empty(),
    {
        LocalMailTemplateConfig { parts: NameMap::new() }
    }
}

impl Default for PollOverride {
    fn default() -> (r: PollOverride)
        ensures
            r.source_interval is None,
            r.others@ == Map::<Seq<char>, String>::empty(),
    {
        PollOverride { source_interval: None, others: NameMap::new() }
    }
}

/// The flows by name. Of flows with one name the last counts.
pub open spec fn flows_by_name(flows: Seq<FlowConfig>) -> Map<Seq<char>, FlowConfig>
    decreases flows.len(),
{
    if flows.len() == 0 {
        Map::empty()
    } else {
        flows_by_name(flows.drop_last()).insert(flows.last().name@, flows.last())
    }
}

/// The first flow named `name`.
pub open spec fn first_named(flows: Seq<FlowConfig>, name: Seq<char>, i: int) -> bool {
    &&& 0 <= i < flows.len()
    &&& flows[i].name@ == name
    &&& forall|j: int| 0 <= j < i ==> (#[trigger] flows[j]).name@ != name
}

/// Whether some flow is named `name`.
pub open spec fn has_flow(flows: Seq<FlowConfig>, name: Seq<char>) -> bool {
    exists|i: int| 0 <= i < flows.len() && (#[trigger] flows[i]).name@ == name
}

impl Config {
    /// The flows by name. Of flows with one name the last counts.
    pub fn by_name(&self) -> (r: NameMap<&FlowConfig>)
        ensures
            r@.dom() == flows_by_name(self.flow@).dom(),
            forall|k: Seq<char>|
                r@.dom().contains(k) ==> *(#[trigger] r@[k]) == flows_by_name(self.flow@)[k],
    {
        let mut out: NameMap<&FlowConfig> = NameMap::new();
        let mut i: usize = 0;
        while i < self.flow.len()
            invariant
                i <= self.flow@.len(),
                out@.dom() == flows_by_name(self.flow@.take(i as int)).dom(),
                forall|k: Seq<char>|
                    out@.dom().contains(k) ==> *(#[trigger] out@[k]) == flows_by_name(
                        self.flow@.take(i as int),
                    )[k],
            decreases self.flow@.len() - i,
        {
            out.insert(self.flow[i].name.clone(), &self.flow[i]);
            proof {
                let shorter = self.flow@.take(i as int);
                let longer = self.flow@.take(i + 1);
                assert(longer.drop_last() == shorter);
                assert(longer.last() == self.flow@[i as int]);
                assert(out@.dom() =~= flows_by_name(longer).dom());
            }
            i += 1;
        }
        proof {
            assert(self.flow@.take(self.flow@.len() as int) == self.flow@);
        }
        out
    }

    /// The index of the first flow named `name`.
    pub fn find(&self, name: &str) -> (r: Option<usize>)
        ensures
            r is Some <==> has_flow(self.flow@, name@),
            r matches Some(i) ==> first_named(self.flow@, name@, i as int),
    {
        let mut i: usize = 0;
        while i < self.flow.len()
            invariant
                i <= self.flow@.len(),
                forall|j: int| 0 <= j < i ==> (#[trigger] self.flow@[j]).name@ != name@,
            decreases self.flow@.len() - i,
        {
            if same_text(self.flow[i].name.as_str(), name) {
                return Some(i);
            }
            i += 1;
        }
        None
    }
}

/// Whether two maps of texts are equal.
pub fn same_text_map(a: &NameMap<String>, b: &NameMap<String>) -> (r: bool)
    ensures
        r == (text_map(a@) == text_map(b@)),
{
    let holds: bool = covered_by(a, b) && covered_by(b, a);
    proof {
        if holds {
            assert(text_map(a@) =~= text_map(b@));
        } else {
            assert(text_map(a@) == text_map(b@) ==> {
                &&& forall|k: Seq<char>| #[trigger]
                    a@.dom().contains(k) ==> text_map(a@)[k] == text_map(b@)[k]
                &&& a@.dom() == text_map(a@).dom()
                &&& b@.dom() == text_map(b@).dom()
            });
        }
    }
    holds
}

/// Whether every entry of `a` is an entry of `b`, up to the views of the texts.
fn covered_by(a: &NameMap<String>, b: &NameMap<String>) -> (r: bool)
    ensures
        r == forall|k: Seq<char>| #[trigger]
            a@.dom().contains(k) ==> b@.dom().contains(k) && a@[k]@ == b@[k]@,
{
    let keys: Vec<String> = a.keys();
    let ghost names = crate::text::views(keys@);
    let mut i: usize = 0;
    while i < keys.len()
        invariant
            i <= keys@.len(),
            names == crate::text::views(keys@),
            names.to_set() == a@.dom(),
            forall|j: int|
                0 <= j < i ==> b@.dom().contains(#[trigger] names[j]) && a@[names[j]]@
                    == b@[names[j]]@,
        decreases keys@.len() - i,
    {
        let name: &str = keys[i].as_str();
        assert(names[i as int] == name@);
        assert(names.to_set().contains(name@));
        let x: Option<&String> = a.get(name);
        let y: Option<&String> = b.get(name);
        match (x, y) {
            (Some(x), Some(y)) => {
                if !same_text(x.as_str(), y.as_str()) {
                    assert(a@.dom().contains(name@) && a@[name@]@ != b@[name@]@);
                    return false;
                }
            },
            _ => {
                assert(a@.dom().contains(name@) && !b@.dom().contains(name@));
                return false;
            },
        }
        i += 1;
    }
    proof {
        assert forall|k: Seq<char>| #[trigger] a@.dom().contains(k) implies b@.dom().contains(k)
            && a@[k]@ == b@[k]@ by {
            assert(names.to_set().contains(k));
            let j = names.index_of(k);
            assert(names[j] == k);
        }
    }
    true
}

/// Another map of the same texts.
pub fn copy_text_map(m: &NameMap<String>) -> (r: NameMap<String>)
    ensures
        text_map(r@) == text_map(m@),
{
    let keys: Vec<String> = m.keys();
    let ghost names = crate::text::views(keys@);
    let mut out: NameMap<String> = NameMap::new();
    let mut i: usize = 0;
    while i < keys.len()
        invariant
            i <= keys@.len(),
            names == crate::text::views(keys@),
            names.to_set() == m@.dom(),
            forall|j: int| 0 <= j < i ==> out@.dom().contains(#[trigger] names[j]),
            forall|k: Seq<char>| #[trigger]
                out@.dom().contains(k) ==> m@.dom().contains(k) && out@[k]@ == m@[k]@,
        decreases keys@.len() - i,
    {
        assert(names[i as int] == keys@[i as int]@);
        assert(names.to_set().contains(names[i as int]));
        match m.get(keys[i].as_str()) {
            Some(text) => {
                out.insert(keys[i].clone(), text.clone());
            },
            None => {},
        }
        i += 1;
    }
    proof {
        assert forall|k: Seq<char>| m@.dom().contains(k) implies #[trigger] out@.dom().contains(
            k,
        ) by {
            assert(names.to_set().contains(k));
            let j = names.index_of(k);
            assert(names[j] == k);
        }
        assert(text_map(out@) =~= text_map(m@));
    }
    out
}

/// A copy of a list of events.
pub fn copy_events(events: &Vec<FireEvent>) -> (r: Vec<FireEvent>)
    ensures
        r@ == events@,
{
    let mut out: Vec<FireEvent> = Vec::new();
    let mut i: usize = 0;
    while i < events.len()
        invariant
            i <= events@.len(),
            out@ == events@.take(i as int),
        decreases events@.len() - i,
    {
        out.push(events[i]);
        proof {
            assert(events@.take(i + 1) =~= events@.take(i as int).push(events@[i as int]));
        }
        i += 1;
    }
    assert(events@.take(events@.len() as int) =~= events@);
    out
}

impl ActionConfig {
    /// Another value for the same action.
    pub fn copy(&self) -> (r: ActionConfig)
        ensures
            r@ == self@,
    {
        match self {
            ActionConfig::GithubWorkflowDispatch {
                repo,
                workflow,
                ref_name,
                credential_id,
                inputs,
            } => ActionConfig::GithubWorkflowDispatch {
                repo: repo.clone(),
                workflow: workflow.clone(),
                ref_name: ref_name.clone(),
                credential_id: credential_id.copy(),
                inputs: copy_text_map(inputs),
            },
        }
    }
}

impl Destination {
    /// The events that the destination is told of, in the order in which they are listed.
    pub open spec fn events(self) -> Seq<FireEvent> {
        match self {
            Destination::DiscordWebhook(w) => w.fire_on@,
            Destination::LocalMail(m) => m.fire_on@,
        }
    }

    /// Another value for the same destination.
    pub fn copy(&self) -> (r: Destination)
        ensures
            r@ == self@,
            r.events() == self.events(),
    {
        match self {
            Destination::DiscordWebhook(w) => Destination::DiscordWebhook(
                DiscordWebhookConfig {
                    credential_id: w.credential_id.copy(),
                    fire_on: copy_events(&w.fire_on),
                    template: DiscordTemplateConfig { parts: copy_text_map(&w.template.parts) },
                },
            ),
            Destination::LocalMail(m) => Destination::LocalMail(
                LocalMailConfig {
                    user: m.user.clone(),
                    fire_on: copy_events(&m.fire_on),
                    template: LocalMailTemplateConfig { parts: copy_text_map(&m.template.parts) },
                },
            ),
        }
    }
}

/// Whether the destinations of `a` are those of `b`, in the same order, with their events in
/// the same order.
pub open spec fn alike(a: Seq<Destination>, b: Seq<Destination>) -> bool {
    a.len() == b.len() && forall|i: int|
        0 <= i < a.len() ==> (#[trigger] a[i])@ == b[i]@ && a[i].events() == b[i].events()
}

/// Another list of the same destinations.
pub fn copy_destinations(list: &Vec<Destination>) -> (r: Vec<Destination>)
    ensures
        alike(r@, list@),
{
    let mut out: Vec<Destination> = Vec::new();
    let mut i: usize = 0;
    while i < list.len()
        invariant
            i <= list@.len(),
            alike(out@, list@.take(i as int)),
        decreases list@.len() - i,
    {
        out.push(list[i].copy());
        i += 1;
    }
    assert(list@.take(list@.len() as int) =~= list@);
    out
}

/// Whether two optional credentials are the same.
pub fn same_optional_id(a: &Option<CredentialId>, b: &Option<CredentialId>) -> (r: bool)
    ensures
        r == (optional_id(*a) == optional_id(*b)),
{
    match (a, b) {
        (Some(x), Some(y)) => same_text(x.as_str(), y.as_str()),
        (None, None) => true,
        _ => false,
    }
}

/// Whether two sources are the same.
pub fn same_source(a: &SourceConfig, b: &SourceConfig) -> (r: bool)
    ensures
        r == (a@ == b@),
{
    same_text(a.url.as_str(), b.url.as_str()) && same_text(
        a.ref_name.as_str(),
        b.ref_name.as_str(),
    ) && same_optional_id(&a.credential_id, &b.credential_id)
}

/// Whether two actions are the same.
pub fn same_action(a: &ActionConfig, b: &ActionConfig) -> (r: bool)
    ensures
        r == (a@ == b@),
{
    match (a, b) {
        (
            ActionConfig::GithubWorkflowDispatch {
                repo: repo_a,
                workflow: workflow_a,
                ref_name: ref_a,
                credential_id: id_a,
                inputs: inputs_a,
            },
            ActionConfig::GithubWorkflowDispatch {
                repo: repo_b,
                workflow: workflow_b,
                ref_name: ref_b,
                credential_id: id_b,
                inputs: inputs_b,
            },
        ) => {
            same_text(repo_a.as_str(), repo_b.as_str()) && same_text(
                workflow_a.as_str(),
                workflow_b.as_str(),
            ) && same_text(ref_a.as_str(), ref_b.as_str()) && same_text(
                id_a.as_str(),
                id_b.as_str(),
            ) && same_text_map(inputs_a, inputs_b)
        },
    }
}

/// Whether two poll settings are the same.
pub fn same_poll(a: &PollOverride, b: &PollOverride) -> (r: bool)
    ensures
        r == (a@ == b@),
{
    let same_interval: bool = match (&a.source_interval, &b.source_interval) {
        (Some(x), Some(y)) => x.nanos == y.nanos,
        (None, None) => true,
        _ => false,
    };
    same_interval && same_text_map(&a.others, &b.others)
}

/// How often `event` stands in `events`.
fn count_event(events: &Vec<FireEvent>, event: FireEvent) -> (r: usize)
    ensures
        r == events@.to_multiset().count(event),
{
    broadcast use vstd::seq_lib::group_to_multiset_ensures;

    let mut n: usize = 0;
    let mut i: usize = 0;
    assert(events@.take(0).to_multiset().len() == 0);
    while i < events.len()
        invariant
            n <= i <= events@.len(),
            n == events@.take(i as int).to_multiset().count(event),
        decreases events@.len() - i,
    {
        proof {
            let prefix = events@.take(i as int);
            assert(events@.take(i + 1) == prefix.push(events@[i as int]));
            vstd::seq_lib::to_multiset_build(prefix, events@[i as int]);
            assert(prefix.push(events@[i as int]).to_multiset() == prefix.to_multiset().insert(
                events@[i as int],
            ));
        }
        if events[i] == event {
            n += 1;
        }
        i += 1;
    }
    assert(events@.take(events@.len() as int) == events@);
    n
}

/// Whether two lists name the same events equally often.
pub fn same_events(a: &Vec<FireEvent>, b: &Vec<FireEvent>) -> (r: bool)
    ensures
        r == (a@.to_multiset() == b@.to_multiset()),
{
    let holds: bool = count_event(a, FireEvent::RunStart) == count_event(b, FireEvent::RunStart)
        && count_event(a, FireEvent::RunComplete) == count_event(b, FireEvent::RunComplete)
        && count_event(a, FireEvent::JobComplete) == count_event(b, FireEvent::JobComplete);
    proof {
        if holds {
            let (x, y) = (a@.to_multiset(), b@.to_multiset());
            assert forall|e: FireEvent| x.count(e) == y.count(e) by {
                match e {
                    FireEvent::RunStart => {},
                    FireEvent::RunComplete => {},
                    FireEvent::JobComplete => {},
                }
            }
            assert(x =~= y);
        }
    }
    holds
}

/// Whether two destinations do the same, whatever the order in which their events are
/// listed.
pub fn same_destination(a: &Destination, b: &Destination) -> (r: bool)
    ensures
        r == (a@ == b@),
{
    match (a, b) {
        (Destination::DiscordWebhook(x), Destination::DiscordWebhook(y)) => {
            same_text(x.credential_id.as_str(), y.credential_id.as_str()) && same_events(
                &x.fire_on,
                &y.fire_on,
            ) && same_text_map(&x.template.parts, &y.template.parts)
        },
        (Destination::LocalMail(x), Destination::LocalMail(y)) => {
            same_text(x.user.as_str(), y.user.as_str()) && same_events(&x.fire_on, &y.fire_on)
                && same_text_map(&x.template.parts, &y.template.parts)
        },
        _ => false,
    }
}

/// The environment variable of a credential is spelled as the credential behind a fixed word,
/// with small letters as capitals and hyphens as underscores, and with everything else as it is.
pub proof fn env_vars_spell_the_credential(id: Seq<char>, i: int)
    requires
        0 <= i < id.len(),
    ensures
        env_var_of(id).len() == 16 + id.len(),
        env_var_of(id).take(16) == "GCIT_CREDENTIAL_"@,
        'a' <= id[i] <= 'z' ==> env_var_of(id)[16 + i] as int == id[i] as int - 32,
        id[i] == '-' ==> env_var_of(id)[16 + i] == '_',
        !('a' <= id[i] <= 'z') && id[i] != '-' ==> env_var_of(id)[16 + i] == id[i],
{
    reveal_strlit("GCIT_CREDENTIAL_");
    assert(env_var_of(id).take(16) =~= "GCIT_CREDENTIAL_"@);
    let mapped = id.map_values(|c: char| variable_char(c));
    assert(env_var_of(id)[16 + i] == mapped[i]);
}

/// Of the flows of one name the last counts, and a name that no flow has counts for none.
pub proof fn the_last_flow_of_a_name_counts(flows: Seq<FlowConfig>, name: Seq<char>, i: int)
    ensures
        0 <= i < flows.len() && flows[i].name@ == name && (forall|j: int|
            i < j < flows.len() ==> (#[trigger] flows[j]).name@ != name) ==> flows_by_name(
            flows,
        ).dom().contains(name) && flows_by_name(flows)[name] == flows[i],
        (forall|j: int| 0 <= j < flows.len() ==> (#[trigger] flows[j]).name@ != name)
            ==> !flows_by_name(flows).dom().contains(name),
    decreases flows.len(),
{
    if flows.len() > 0 {
        let shorter = flows.drop_last();
        the_last_flow_of_a_name_counts(shorter, name, i);
        assert(flows[flows.len() - 1] == flows.last());
        assert forall|j: int| 0 <= j < shorter.len() implies shorter[j] == flows[j] by {}
        if 0 <= i < flows.len() && flows[i].name@ == name && (forall|j: int|
            i < j < flows.len() ==> (#[trigger] flows[j]).name@ != name) && i < shorter.len() {
            assert(flows[flows.len() - 1].name@ != name);
            assert forall|j: int| i < j < shorter.len() implies (#[trigger] shorter[j]).name@
                != name by {
                assert(flows[j].name@ != name);
            }
        }
        if forall|j: int| 0 <= j < flows.len() ==> (#[trigger] flows[j]).name@ != name {
            assert(flows[flows.len() - 1].name@ != name);
            assert forall|j: int| 0 <= j < shorter.len() implies (#[trigger] shorter[j]).name@
                != name by {
                assert(flows[j].name@ != name);
            }
        }
    }
}

/// The first flow of a name has that name and no flow before it has, and there is one just
/// where some flow has the name.
pub proof fn the_first_flow_of_a_name_is_found(flows: Seq<FlowConfig>, name: Seq<char>, i: int)
    ensures
        first_named(flows, name, i) <==> 0 <= i < flows.len() && flows[i].name@ == name && forall|
            j: int,
        |
            0 <= j < i ==> (#[trigger] flows[j]).name@ != name,
        0 <= i < flows.len() ==> has_flow(flows, flows[i].name@),
        has_flow(flows, name) ==> exists|k: int|
            0 <= k < flows.len() && (#[trigger] flows[k]).name@ == name,
{
}

/// Whether two maps hold the same texts under the same names.
pub open spec fn texts_agree(a: Map<Seq<char>, String>, b: Map<Seq<char>, String>) -> bool {
    &&& forall|k: Seq<char>| #[trigger] a.dom().contains(k) <==> b.dom().contains(k)
    &&& forall|k: Seq<char>| #[trigger] a.dom().contains(k) ==> a[k]@ == b[k]@
}

/// Two maps have the same texts just where they agree name by name.
pub proof fn text_maps_are_compared_name_by_name(
    a: Map<Seq<char>, String>,
    b: Map<Seq<char>, String>,
)
    ensures
        text_map(a) == text_map(b) <==> texts_agree(a, b),
{
    let (x, y) = (text_map(a), text_map(b));
    if x == y {
        assert forall|k: Seq<char>| #[trigger] a.dom().contains(k) <==> b.dom().contains(k) by {
            assert(x.dom().contains(k) == a.dom().contains(k));
            assert(y.dom().contains(k) == b.dom().contains(k));
        }
        assert forall|k: Seq<char>| #[trigger] a.dom().contains(k) implies a[k]@ == b[k]@ by {
            assert(x[k] == y[k]);
        }
    }
    if texts_agree(a, b) {
        assert forall|k: Seq<char>| x.dom().contains(k) <==> y.dom().contains(k) by {
            assert(a.dom().contains(k) <==> b.dom().contains(k));
        }
        assert(x =~= y);
    }
}

/// Two sources are the same just where URL, ref and credential are.
pub proof fn sources_are_compared_in_every_part(a: SourceConfig, b: SourceConfig)
    ensures
        a@ == b@ <==> {
            &&& a.url@ == b.url@
            &&& a.ref_name@ == b.ref_name@
            &&& a.credential_id is Some <==> b.credential_id is Some
            &&& a.credential_id is Some ==> a.credential_id->0@ == b.credential_id->0@
        },
{
}

/// Two actions are the same just where repository, workflow, ref, credential and inputs are.
pub proof fn actions_are_compared_in_every_part(a: ActionConfig, b: ActionConfig)
    ensures
        a@ == b@ <==> {
            &&& a->repo@ == b->repo@
            &&& a->workflow@ == b->workflow@
            &&& a->ref_name@ == b->ref_name@
            &&& a->credential_id@ == b->credential_id@
            &&& texts_agree(a->inputs@, b->inputs@)
        },
{
    text_maps_are_compared_name_by_name(a->inputs@, b->inputs@);
}

/// Two poll settings are the same just where the interval and every other setting are.
pub proof fn poll_settings_are_compared_in_every_part(a: PollOverride, b: PollOverride)
    ensures
        a@ == b@ <==> {
            &&& a.source_interval is Some <==> b.source_interval is Some
            &&& a.source_interval is Some ==> a.source_interval->0.nanos
                == b.source_interval->0.nanos
            &&& texts_agree(a.others@, b.others@)
        },
{
    text_maps_are_compared_name_by_name(a.others@, b.others@);
}

/// Whether two destinations are of one sort, reach the same, list the same events equally often,
/// and have the same templates.
pub open spec fn destinations_agree(a: Destination, b: Destination) -> bool {
    match (a, b) {
        (Destination::DiscordWebhook(x), Destination::DiscordWebhook(y)) => {
            &&& x.credential_id@ == y.credential_id@
            &&& x.fire_on@.to_multiset() == y.fire_on@.to_multiset()
            &&& texts_agree(x.template.parts@, y.template.parts@)
        },
        (Destination::LocalMail(x), Destination::LocalMail(y)) => {
            &&& x.user@ == y.user@
            &&& x.fire_on@.to_multiset() == y.fire_on@.to_multiset()
            &&& texts_agree(x.template.parts@, y.template.parts@)
        },
        _ => false,
    }
}

/// Two destinations do the same just where they are of one sort and agree in whom they reach,
/// in their templates, and in their events but for the order.
pub proof fn destinations_are_compared_in_every_part(a: Destination, b: Destination)
    ensures
        a@ == b@ <==> destinations_agree(a, b),
{
    match (a, b) {
        (Destination::DiscordWebhook(x), Destination::DiscordWebhook(y)) => {
            text_maps_are_compared_name_by_name(x.template.parts@, y.template.parts@);
        },
        (Destination::LocalMail(x), Destination::LocalMail(y)) => {
            text_maps_are_compared_name_by_name(x.template.parts@, y.template.parts@);
        },
        _ => {},
    }
}

/// Lists of destinations that are alike have the same destinations at the same places, and each
/// of these the same events in the same order.
pub proof fn copies_agree_place_by_place(a: Seq<Destination>, b: Seq<Destination>, i: int)
    requires
        alike(a, b),
        0 <= i < b.len(),
    ensures
        a.len() == b.len(),
        destinations_agree(a[i], b[i]),
        match (a[i], b[i]) {
            (Destination::DiscordWebhook(x), Destination::DiscordWebhook(y)) => x.fire_on@
                == y.fire_on@,
            (Destination::LocalMail(x), Destination::LocalMail(y)) => x.fire_on@ == y.fire_on@,
            _ => false,
        },
{
    assert(a[i]@ == b[i]@ && a[i].events() == b[i].events());
    destinations_are_compared_in_every_part(a[i], b[i]);
}

/// A credential is known by the name that it was made with, and so is its copy; its environment
/// variable is spelled after it.
pub proof fn credentials_are_known_by_their_names(
    id: &str,
    r: CredentialId,
    name: &str,
    again: CredentialId,
    variable: String,
    i: int,
)
    requires
        call_ensures(CredentialId::new, (id,), r),
        call_ensures(CredentialId::as_str, (&r,), name),
        call_ensures(CredentialId::copy, (&r,), again),
        call_ensures(CredentialId::to_env_var, (&r,), variable),
        0 <= i < id@.len(),
    ensures
        name@ == id@,
        again@ == r@,
        variable@.len() == 16 + id@.len(),
        variable@.take(16) == "GCIT_CREDENTIAL_"@,
        'a' <= id@[i] <= 'z' ==> variable@[16 + i] as int == id@[i] as int - 32,
        id@[i] == '-' ==> variable@[16 + i] == '_',
        !('a' <= id@[i] <= 'z') && id@[i] != '-' ==> variable@[16 + i] == id@[i],
{
    env_vars_spell_the_credential(id@, i);
}

/// A flow is found by name: the first of the name where one is looked for, and the last of the name
/// where they are taken by name.
pub proof fn flows_are_found_by_name(
    cfg: Config,
    name: &str,
    first: Option<usize>,
    by_name: NameMap<&FlowConfig>,
    i: int,
)
    requires
        call_ensures(Config::find, (&cfg, name), first),
        call_ensures(Config::by_name, (&cfg,), by_name),
    ensures
        ({
            let flows = cfg.flow@;
            let here = 0 <= i < flows.len() && flows[i].name@ == name@;
            &&& here && (forall|j: int| 0 <= j < i ==> (#[trigger] flows[j]).name@ != name@)
                ==> first is Some && first->0 == i
            &&& (forall|j: int| 0 <= j < flows.len() ==> (#[trigger] flows[j]).name@ != name@)
                ==> first is None && !by_name@.dom().contains(name@)
            &&& here && (forall|j: int|
                i < j < flows.len() ==> (#[trigger] flows[j]).name@ != name@)
                ==> by_name@.dom().contains(name@) && *by_name@[name@] == flows[i]
        }),
{
    let flows = cfg.flow@;
    the_last_flow_of_a_name_counts(flows, name@, i);
    if 0 <= i < flows.len() && flows[i].name@ == name@ && (forall|j: int|
        0 <= j < i ==> (#[trigger] flows[j]).name@ != name@) {
        assert(has_flow(flows, name@));
        let k = first->0 as int;
        assert(first_named(flows, name@, k));
        assert(k == i) by {
            if k < i {
                assert(flows[k].name@ != name@);
            }
            if i < k {
                assert(flows[i].name@ != name@);
            }
        }
    }
    if forall|j: int| 0 <= j < flows.len() ==> (#[trigger] flows[j]).name@ != name@ {
        assert(!has_flow(flows, name@));
    }
    if by_name@.dom().contains(name@) {
        assert(*by_name@[name@] == flows_by_name(flows)[name@]);
    }
}

/// Two sources are the same just where URL, ref and credential are.
pub proof fn same_sources_agree_in_every_part(a: SourceConfig, b: SourceConfig, r: bool)
    requires
        call_ensures(same_source, (&a, &b), r),
    ensures
        r <==> {
            &&& a.url@ == b.url@
            &&& a.ref_name@ == b.ref_name@
            &&& a.credential_id is Some <==> b.credential_id is Some
            &&& a.credential_id is Some ==> a.credential_id->0@ == b.credential_id->0@
        },
{
    sources_are_compared_in_every_part(a, b);
}

/// Two actions are the same just where repository, workflow, ref, credential and inputs are.
pub proof fn same_actions_agree_in_every_part(a: ActionConfig, b: ActionConfig, r: bool)
    requires
        call_ensures(same_action, (&a, &b), r),
    ensures
        r <==> {
            &&& a->repo@ == b->repo@
            &&& a->workflow@ == b->workflow@
            &&& a->ref_name@ == b->ref_name@
            &&& a->credential_id@ == b->credential_id@
            &&& texts_agree(a->inputs@, b->inputs@)
        },
{
    actions_are_compared_in_every_part(a, b);
}

/// Two poll settings are the same just where the interval and every other setting are.
pub proof fn same_poll_settings_agree_in_every_part(a: PollOverride, b: PollOverride, r: bool)
    requires
        call_ensures(same_poll, (&a, &b), r),
    ensures
        r <==> {
            &&& a.source_interval is Some <==> b.source_interval is Some
            &&& a.source_interval is Some ==> a.source_interval->0.nanos
                == b.source_interval->0.nanos
            &&& texts_agree(a.others@, b.others@)
        },
{
    poll_settings_are_compared_in_every_part(a, b);
}

/// Two destinations are the same just where they are of one sort and agree in whom they reach, in
/// their templates, and in how often each event is listed.
pub proof fn same_destinations_agree_in_every_part(
    a: Destination,
    b: Destination,
    r: bool,
    events: Vec<FireEvent>,
    others: Vec<FireEvent>,
    same: bool,
    x: Option<CredentialId>,
    y: Option<CredentialId>,
    same_id: bool,
    m: NameMap<String>,
    n: NameMap<String>,
    same_texts: bool,
)
    requires
        call_ensures(same_destination, (&a, &b), r),
        call_ensures(same_events, (&events, &others), same),
        call_ensures(same_optional_id, (&x, &y), same_id),
        call_ensures(same_text_map, (&m, &n), same_texts),
    ensures
        r <==> destinations_agree(a, b),
        same <==> events@.to_multiset() == others@.to_multiset(),
        same_id <==> (x is Some <==> y is Some) && (x is Some ==> x->0@ == y->0@),
        same_texts <==> texts_agree(m@, n@),
{
    destinations_are_compared_in_every_part(a, b);
    text_maps_are_compared_name_by_name(m@, n@);
}

/// A copy agrees with what it was made of: of texts name by name, of events and destinations place
/// by place, and of an action in every part.
pub proof fn copies_agree_with_what_they_were_made_of(
    m: NameMap<String>,
    texts: NameMap<String>,
    e: Vec<FireEvent>,
    events: Vec<FireEvent>,
    a: ActionConfig,
    action: ActionConfig,
    d: Destination,
    destination: Destination,
    l: Vec<Destination>,
    list: Vec<Destination>,
    i: int,
)
    requires
        call_ensures(copy_text_map, (&m,), texts),
        call_ensures(copy_events, (&e,), events),
        call_ensures(ActionConfig::copy, (&a,), action),
        call_ensures(Destination::copy, (&d,), destination),
        call_ensures(copy_destinations, (&l,), list),
    ensures
        texts_agree(texts@, m@),
        events@ == e@,
        action->repo@ == a->repo@,
        action->workflow@ == a->workflow@,
        action->ref_name@ == a->ref_name@,
        action->credential_id@ == a->credential_id@,
        texts_agree(action->inputs@, a->inputs@),
        destinations_agree(destination, d),
        match (destination, d) {
            (Destination::DiscordWebhook(x), Destination::DiscordWebhook(y)) => x.fire_on@
                == y.fire_on@,
            (Destination::LocalMail(x), Destination::LocalMail(y)) => x.fire_on@ == y.fire_on@,
            _ => false,
        },
        list@.len() == l@.len(),
        0 <= i < l@.len() ==> destinations_agree(list@[i], l@[i]),
{
    text_maps_are_compared_name_by_name(texts@, m@);
    actions_are_compared_in_every_part(action, a);
    destinations_are_compared_in_every_part(destination, d);
    if 0 <= i < l@.len() {
        copies_agree_place_by_place(list@, l@, i);
    }
}

/// Templates and poll settings that are not configured have nothing in them.
pub proof fn nothing_is_set_by_default(
    discord: DiscordTemplateConfig,
    mail: LocalMailTemplateConfig,
    poll: PollOverride,
    name: Seq<char>,
)
    requires
        call_ensures(DiscordTemplateConfig::default, (), discord),
        call_ensures(LocalMailTemplateConfig::default, (), mail),
        call_ensures(PollOverride::default, (), poll),
    ensures
        !discord.parts@.dom().contains(name),
        !mail.parts@.dom().contains(name),
        poll.source_interval is None,
        !poll.others@.dom().contains(name),
{
}

} // verus!
