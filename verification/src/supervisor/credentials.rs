//! Where credentials are looked for, and what is kept of those that were found.
use vstd::prelude::*;

use crate::config::{env_var_of, CredentialId, FlowConfig};
use crate::git::rate_bucket::{RateBucket, RateBucketView};
use crate::names::{NameMap, NameSet};
use crate::supervisor::diff::{kept_credentials, uses_credential};
use crate::text::{decimal, decimal_text, glue, trim_end_of, trimmed_end};
use crate::time::Duration;

verus! {

/// How many credential files are read at one time.
pub const CREDENTIAL_READ_CONCURRENCY: usize = 8;

/// How long the reading of a credential file may take, in seconds.
pub const READ_TIMEOUT_SECS: u64 = 5;

/// The credentials that were found. `R` is what a GitHub credential was turned into, `S` is a
/// secret.
pub struct CredentialPool<R, S> {
    /// What GitHub credentials were turned into, by the credential's name.
    pub by_id: NameMap<R>,
    /// The secrets that were found, by the credential's name.
    pub secrets: NameMap<S>,
    /// The directory of the configuration, if it is known.
    pub config_dir: Option<String>,
}

/// What there is to do for a secret.
pub enum SecretLookup<'a, S> {
    /// Nothing: it was found before.
    Known(&'a S),
    /// It is searched for, from this state on.
    Search(SearchState),
}

/// What there is to do for what a GitHub credential is turned into.
pub enum GithubLookup<'a, R> {
    /// Nothing: it was turned into this before.
    Known(&'a R),
    /// Its secret is looked for, and it is turned into something from that.
    Build,
}

/// What a pool keeps once `found` was to be kept under `id`: only what was found is.
pub open spec fn kept_with<T, E>(
    kept: Map<Seq<char>, T>,
    id: Seq<char>,
    found: Result<T, E>,
) -> Map<Seq<char>, T> {
    match found {
        Ok(value) => kept.insert(id, value),
        Err(_) => kept,
    }
}

/// What asking for `id` comes to, where `found` is what is found if it is not kept.
pub open spec fn asked<T, E>(
    kept: Map<Seq<char>, T>,
    id: Seq<char>,
    found: Result<T, E>,
) -> Result<T, E> {
    if kept.dom().contains(id) {
        Ok(kept[id])
    } else {
        found
    }
}

/// What a pool keeps after `id` was asked for, where `found` is what is found if it is not kept.
pub open spec fn after_asking<T, E>(
    kept: Map<Seq<char>, T>,
    id: Seq<char>,
    found: Result<T, E>,
) -> Map<Seq<char>, T> {
    if kept.dom().contains(id) {
        kept
    } else {
        kept_with(kept, id, found)
    }
}

impl<R, S> CredentialPool<R, S> {
    /// An empty pool that looks for credential files below `config_dir`.
    pub fn new(config_dir: Option<String>) -> (r: CredentialPool<R, S>)
        ensures
            r.by_id@ == Map::<Seq<char>, R>::empty(),
            r.secrets@ == Map::<Seq<char>, S>::empty(),
            r.config_dir == config_dir,
    {
        CredentialPool { by_id: NameMap::new(), secrets: NameMap::new(), config_dir }
    }

    /// Drops all but the credentials in `keep_credentials`, and gives back what the dropped
    /// GitHub credentials were turned into.
    pub fn invalidate_except(&mut self, keep_credentials: &NameSet) -> (r: NameMap<R>)
        ensures
            final(self).by_id@ == old(self).by_id@.restrict(keep_credentials@),
            final(self).secrets@ == old(self).secrets@.restrict(keep_credentials@),
            final(self).config_dir == old(self).config_dir,
            r@ == old(self).by_id@.remove_keys(keep_credentials@),
    {
        let dropped: NameMap<R> = self.by_id.split_off_except(keep_credentials);
        let _ = self.secrets.split_off_except(keep_credentials);
        dropped
    }

    /// The secret of `id`, if it was found before.
    pub fn cached_secret(&self, id: &CredentialId) -> (r: Option<&S>)
        ensures
            r is Some <==> self.secrets@.dom().contains(id@),
            r matches Some(s) ==> *s == self.secrets@[id@],
    {
        self.secrets.get(id.as_str())
    }

    /// Begins to look for the secret of `id`: one that was found before is used, and only one
    /// that was not is searched for.
    pub fn begin_secret(&self, id: &CredentialId) -> (r: SecretLookup<'_, S>)
        ensures
            self.secrets@.dom().contains(id@) ==> r == SecretLookup::Known(&self.secrets@[id@]),
            !self.secrets@.dom().contains(id@) ==> r == SecretLookup::<S>::Search(
                SearchState::Start,
            ),
    {
        match self.cached_secret(id) {
            Some(secret) => SecretLookup::Known(secret),
            None => SecretLookup::Search(SearchState::Start),
        }
    }

    /// Ends the search for the secret of `id`: one that was found is kept, and a search that
    /// found none leaves the pool as it was.
    pub fn finish_secret(&mut self, id: &CredentialId, found: Result<S, String>) -> (r: Result<
        &S,
        String,
    >)
        ensures
            final(self).secrets@ == kept_with(old(self).secrets@, id@, found),
            final(self).by_id@ == old(self).by_id@,
            final(self).config_dir == old(self).config_dir,
            match found {
                Ok(secret) => r matches Ok(kept) && *kept == secret,
                Err(e) => r == Err::<&S, String>(e),
            },
    {
        match found {
            Ok(secret) => {
                self.secrets.insert(id.as_str().to_string(), secret);
                match self.secrets.get(id.as_str()) {
                    Some(kept) => Ok(kept),
                    None => {
                        // What was just put in is there.
                        assert(false);
                        Err(String::new())
                    },
                }
            },
            Err(e) => Err(e),
        }
    }

    /// What the GitHub credential `id` was turned into, if it was before.
    pub fn github_resources(&self, id: &CredentialId) -> (r: Option<&R>)
        ensures
            r is Some <==> self.by_id@.dom().contains(id@),
            r matches Some(v) ==> *v == self.by_id@[id@],
    {
        self.by_id.get(id.as_str())
    }

    /// Begins to get what the GitHub credential `id` is turned into: what it was turned into
    /// before is used, and only where there is none it is turned into something.
    pub fn begin_github(&self, id: &CredentialId) -> (r: GithubLookup<'_, R>)
        ensures
            self.by_id@.dom().contains(id@) ==> r == GithubLookup::Known(&self.by_id@[id@]),
            !self.by_id@.dom().contains(id@) ==> r == GithubLookup::<R>::Build,
    {
        match self.github_resources(id) {
            Some(known) => GithubLookup::Known(known),
            None => GithubLookup::Build,
        }
    }

    /// Keeps what the GitHub credential `id` was turned into, or says why it could not be.
    pub fn finish_github(&mut self, id: &CredentialId, built: Result<R, String>) -> (r: Result<
        &R,
        String,
    >)
        ensures
            final(self).by_id@ == kept_with(old(self).by_id@, id@, built),
            final(self).secrets@ == old(self).secrets@,
            final(self).config_dir == old(self).config_dir,
            match built {
                Ok(v) => r matches Ok(kept) && *kept == v,
                Err(e) => r matches Err(m) && m@ == "github client: "@ + e@,
            },
    {
        match built {
            Ok(v) => {
                self.by_id.insert(id.as_str().to_string(), v);
                match self.by_id.get(id.as_str()) {
                    Some(kept) => Ok(kept),
                    None => {
                        // What was just put in is there.
                        assert(false);
                        Err(String::new())
                    },
                }
            },
            Err(e) => Err(glue("github client: ", e.as_str())),
        }
    }
}

/// The shortest time between two requests under one GitHub credential, in seconds.
pub const GITHUB_PACING_SECS: u64 = 1;

/// The bucket that keeps the requests under one GitHub credential apart. No request has gone
/// through it.
pub fn github_bucket() -> (r: RateBucket)
    ensures
        r@ == (RateBucketView { min_interval: 1_000_000_000, last: None }),
{
    RateBucket::new(Duration::from_secs(GITHUB_PACING_SECS))
}

/// After a reload that keeps the flows in `keep`, a credential that none of them uses is looked
/// for anew, so that a changed one is found, and one that some of them uses is as it was.
pub proof fn only_unused_credentials_are_looked_for_anew<S>(
    found: Map<Seq<char>, S>,
    flows: Seq<FlowConfig>,
    keep: Set<Seq<char>>,
    id: Seq<char>,
)
    ensures
        ({
            let used = exists|i: int|
                0 <= i < flows.len() && keep.contains((#[trigger] flows[i]).name@)
                    && uses_credential(flows[i], id);
            let after = found.restrict(kept_credentials(flows, keep));
            &&& !used ==> !after.dom().contains(id)
            &&& used ==> (after.dom().contains(id) <==> found.dom().contains(id))
            &&& used && found.dom().contains(id) ==> after[id] == found[id]
        }),
{
}

/// Where a credential file is looked for.
#[derive(Clone, Copy, PartialEq, Eq, Structural, Debug)]
pub enum FilePlace {
    /// In the directory that `$CREDENTIALS_DIRECTORY` names.
    CredentialsDirectory,
    /// In `credentials` below the directory of the configuration.
    ConfigDirectory,
}

/// What is found where a credential file is looked for.
#[derive(Debug)]
pub enum FileProbe {
    /// A file that may be used.
    Usable,
    /// Nothing.
    NotPresent,
    /// Something that may not be used, or that cannot be told of, for the given reason.
    Rejected(String),
}

/// How far the search for a credential has come.
#[derive(Clone, Copy, PartialEq, Eq, Structural, Debug)]
pub enum SearchState {
    /// It is about to be asked whether `$CREDENTIALS_DIRECTORY` names a directory.
    Start,
    /// It was asked what is at the place of a file.
    Probing(FilePlace),
    /// The file at a place is being read.
    Reading(FilePlace),
    /// It was asked for the environment variable.
    AskingEnvironment,
    /// The search is over.
    Over,
}

/// What the search has come to know.
#[derive(Debug)]
pub enum SearchEvent {
    /// Whether `$CREDENTIALS_DIRECTORY` names a directory.
    DirectoryKnown(bool),
    /// What is at the place of a file.
    Probed(FileProbe),
    /// What a file holds, or why it cannot be read.
    FileRead(Result<String, String>),
    /// The value of the environment variable, if it is set.
    VariableKnown(Option<String>),
}

/// What the search does next.
#[derive(Debug)]
pub enum SearchAction {
    /// Find out what is at the place of a file.
    Probe(FilePlace),
    /// Read the file at a place.
    Read(FilePlace),
    /// Find out the value of the credential's environment variable.
    AskEnvironment,
    /// The search is over, with this secret or this complaint.
    Finish(Result<String, String>),
    /// Nothing: the event does not answer what was asked.
    Ignore,
}

/// What the search does next, over the views of texts.
pub ghost enum ActionView {
    Probe(FilePlace),
    Read(FilePlace),
    AskEnvironment,
    Finish(Result<Seq<char>, Seq<char>>),
    Ignore,
}

impl View for SearchAction {
    type V = ActionView;

    open spec fn view(&self) -> ActionView {
        match self {
            SearchAction::Probe(p) => ActionView::Probe(*p),
            SearchAction::Read(p) => ActionView::Read(*p),
            SearchAction::AskEnvironment => ActionView::AskEnvironment,
            SearchAction::Finish(r) => ActionView::Finish(result_view(*r)),
            SearchAction::Ignore => ActionView::Ignore,
        }
    }
}

/// The view of a text or a complaint.
pub open spec fn result_view(r: Result<String, String>) -> Result<Seq<char>, Seq<char>> {
    match r {
        Ok(s) => Ok(s@),
        Err(e) => Err(e@),
    }
}

/// What the search for a credential is about.
pub ghost struct SearchSubject {
    /// The credential's name.
    pub id: Seq<char>,
    /// The directory of the configuration, if it is known.
    pub config_dir: Option<Seq<char>>,
}

/// The line ends that a credential file's secret does not include.
pub open spec fn line_ends() -> Seq<char> {
    seq!['\r', '\n']
}

/// The complaint about a credential that is nowhere.
pub open spec fn not_found(about: SearchSubject) -> Seq<char> {
    let place = match about.config_dir {
        Some(dir) => dir + "/credentials/"@ + about.id,
        None => "<config_dir>/credentials/"@ + about.id,
    };
    "credential `"@ + about.id + "` not found at $CREDENTIALS_DIRECTORY/"@ + about.id
        + " or env $"@ + env_var_of(about.id) + " or "@ + place
}

/// What the search does after a place of a file had nothing.
pub open spec fn after_absent(about: SearchSubject, place: FilePlace) -> (SearchState, ActionView) {
    match place {
        FilePlace::CredentialsDirectory => (
            SearchState::AskingEnvironment,
            ActionView::AskEnvironment,
        ),
        FilePlace::ConfigDirectory => (
            SearchState::Over,
            ActionView::Finish(Err(not_found(about))),
        ),
    }
}

/// The state that the search goes to, and what it does next, when it comes to know `event`.
pub open spec fn search_step(
    about: SearchSubject,
    state: SearchState,
    event: SearchEvent,
) -> (SearchState, ActionView) {
    match (state, event) {
        (SearchState::Start, SearchEvent::DirectoryKnown(true)) => (
            SearchState::Probing(FilePlace::CredentialsDirectory),
            ActionView::Probe(FilePlace::CredentialsDirectory),
        ),
        (SearchState::Start, SearchEvent::DirectoryKnown(false)) => (
            SearchState::AskingEnvironment,
            ActionView::AskEnvironment,
        ),
        (SearchState::Probing(place), SearchEvent::Probed(FileProbe::Usable)) => (
            SearchState::Reading(place),
            ActionView::Read(place),
        ),
        (SearchState::Probing(place), SearchEvent::Probed(FileProbe::NotPresent)) => after_absent(
            about,
            place,
        ),
        (SearchState::Probing(_), SearchEvent::Probed(FileProbe::Rejected(why))) => (
            SearchState::Over,
            ActionView::Finish(Err(why@)),
        ),
        (SearchState::Reading(_), SearchEvent::FileRead(Ok(text))) => (
            SearchState::Over,
            ActionView::Finish(Ok(trimmed_end(text@, line_ends()))),
        ),
        (SearchState::Reading(_), SearchEvent::FileRead(Err(why))) => (
            SearchState::Over,
            ActionView::Finish(Err(why@)),
        ),
        (SearchState::AskingEnvironment, SearchEvent::VariableKnown(Some(value))) => (
            SearchState::Over,
            ActionView::Finish(Ok(value@)),
        ),
        (SearchState::AskingEnvironment, SearchEvent::VariableKnown(None)) => {
            if about.config_dir is Some {
                (
                    SearchState::Probing(FilePlace::ConfigDirectory),
                    ActionView::Probe(FilePlace::ConfigDirectory),
                )
            } else {
                (SearchState::Over, ActionView::Finish(Err(not_found(about))))
            }
        },
        _ => (state, ActionView::Ignore),
    }
}

/// The complaint about a credential that is nowhere.
fn not_found_message(id: &CredentialId, config_dir: &Option<String>) -> (r: String)
    ensures
        r@ == not_found(
            SearchSubject {
                id: id@,
                config_dir: crate::text::optional_view(*config_dir),
            },
        ),
{
    let mut place: String = match config_dir {
        Some(dir) => glue(dir.as_str(), "/credentials/"),
        None => "<config_dir>/credentials/".to_string(),
    };
    place.append(id.as_str());
    let mut m: String = glue("credential `", id.as_str());
    m.append("` not found at $CREDENTIALS_DIRECTORY/");
    m.append(id.as_str());
    m.append(" or env $");
    m.append(id.to_env_var().as_str());
    m.append(" or ");
    m.append(place.as_str());
    m
}

/// Moves the search for credential `id` on by one event. The configuration is in `config_dir`.
pub fn resolve_secret_step(
    id: &CredentialId,
    config_dir: &Option<String>,
    state: SearchState,
    event: SearchEvent,
) -> (r: (SearchState, SearchAction))
    ensures
        (r.0, r.1@) == search_step(
            SearchSubject {
                id: id@,
                config_dir: crate::text::optional_view(*config_dir),
            },
            state,
            event,
        ),
{
    match (state, event) {
        (SearchState::Start, SearchEvent::DirectoryKnown(known)) => {
            if known {
                (
                    SearchState::Probing(FilePlace::CredentialsDirectory),
                    SearchAction::Probe(FilePlace::CredentialsDirectory),
                )
            } else {
                (SearchState::AskingEnvironment, SearchAction::AskEnvironment)
            }
        },
        (SearchState::Probing(place), SearchEvent::Probed(probe)) => match probe {
            FileProbe::Usable => (SearchState::Reading(place), SearchAction::Read(place)),
            FileProbe::NotPresent => match place {
                FilePlace::CredentialsDirectory => (
                    SearchState::AskingEnvironment,
                    SearchAction::AskEnvironment,
                ),
                FilePlace::ConfigDirectory => (
                    SearchState::Over,
                    SearchAction::Finish(
                        Err(not_found_message(id, config_dir)),
                    ),
                ),
            },
            FileProbe::Rejected(why) => (SearchState::Over, SearchAction::Finish(Err(why))),
        },
        (SearchState::Reading(_), SearchEvent::FileRead(read)) => match read {
            Ok(text) => {
                let ends: [char; 2] = ['\r', '\n'];
                proof {
                    assert(ends@ =~= line_ends());
                }
                let secret: String = trim_end_of(text.as_str(), &ends).to_string();
                (SearchState::Over, SearchAction::Finish(Ok(secret)))
            },
            Err(why) => (SearchState::Over, SearchAction::Finish(Err(why))),
        },
        (SearchState::AskingEnvironment, SearchEvent::VariableKnown(value)) => match value {
            Some(value) => (SearchState::Over, SearchAction::Finish(Ok(value))),
            None => match config_dir {
                Some(_) => (
                    SearchState::Probing(FilePlace::ConfigDirectory),
                    SearchAction::Probe(FilePlace::ConfigDirectory),
                ),
                None => (
                    SearchState::Over,
                    SearchAction::Finish(
                        Err(not_found_message(id, config_dir)),
                    ),
                ),
            },
        },
        (state, _) => (state, SearchAction::Ignore),
    }
}

/// What the world holds of a credential.
pub ghost struct World {
    /// Whether `$CREDENTIALS_DIRECTORY` names a directory.
    pub directory: bool,
    /// What is in that directory, and what the file there holds.
    pub in_directory: (FileProbe, Result<String, String>),
    /// The environment variable.
    pub variable: Option<String>,
    /// What is below the directory of the configuration, and what the file there holds.
    pub in_config: (FileProbe, Result<String, String>),
}

/// What the world answers to the search.
pub open spec fn answer(world: World, action: ActionView) -> SearchEvent {
    match action {
        ActionView::Probe(FilePlace::CredentialsDirectory) => SearchEvent::Probed(
            world.in_directory.0,
        ),
        ActionView::Probe(FilePlace::ConfigDirectory) => SearchEvent::Probed(world.in_config.0),
        ActionView::Read(FilePlace::CredentialsDirectory) => SearchEvent::FileRead(
            world.in_directory.1,
        ),
        ActionView::Read(FilePlace::ConfigDirectory) => SearchEvent::FileRead(world.in_config.1),
        ActionView::AskEnvironment => SearchEvent::VariableKnown(world.variable),
        _ => SearchEvent::DirectoryKnown(world.directory),
    }
}

/// Where the search has come to, and what it does next, after `n` answers of the world.
pub open spec fn search_at(about: SearchSubject, world: World, n: nat) -> (SearchState, ActionView)
    decreases n,
{
    if n == 0 {
        (SearchState::Start, ActionView::Ignore)
    } else {
        let (state, action) = search_at(about, world, (n - 1) as nat);
        search_step(about, state, answer(world, action))
    }
}

/// What a place of a file says of the secret, if it says anything.
pub open spec fn says(place: (FileProbe, Result<String, String>)) -> Option<
    Result<Seq<char>, Seq<char>>,
> {
    match place.0 {
        FileProbe::NotPresent => None,
        FileProbe::Rejected(why) => Some(Err(why@)),
        FileProbe::Usable => Some(
            match place.1 {
                Ok(text) => Ok(trimmed_end(text@, line_ends())),
                Err(why) => Err(why@),
            },
        ),
    }
}

/// What the search finds: what the first of these says that says anything: the file in the
/// directory that `$CREDENTIALS_DIRECTORY` names, the environment variable, and the file
/// below the directory of the configuration.
pub open spec fn found(about: SearchSubject, world: World) -> Result<Seq<char>, Seq<char>> {
    if world.directory && says(world.in_directory) is Some {
        says(world.in_directory)->0
    } else if world.variable is Some {
        Ok(world.variable->0@)
    } else if about.config_dir is Some && says(world.in_config) is Some {
        says(world.in_config)->0
    } else {
        Err(not_found(about))
    }
}

/// The search ends after at most six answers, with what the first place that says anything
/// says. What is at a place but may not be used ends it: no later place is asked.
pub proof fn search_finds_the_first_that_says_anything(about: SearchSubject, world: World)
    ensures
        exists|n: nat|
            n <= 6 && (#[trigger] search_at(about, world, n)) == (
                SearchState::Over,
                ActionView::Finish(found(about, world)),
            ),
{
    reveal_with_fuel(search_at, 7);
    let end = (SearchState::Over, ActionView::Finish(found(about, world)));
    assert(search_at(about, world, 2) == end || search_at(about, world, 3) == end || search_at(
        about,
        world,
        4,
    ) == end || search_at(about, world, 5) == end || search_at(about, world, 6) == end);
}

/// What the search comes to, with the text that it finds made into a secret by `make`.
pub open spec fn found_secret<S>(
    about: SearchSubject,
    world: World,
    make: spec_fn(Seq<char>) -> S,
) -> Result<S, Seq<char>> {
    match found(about, world) {
        Ok(text) => Ok(make(text)),
        Err(e) => Err(e),
    }
}

/// What looking for a secret comes to: the one that was found before, or else what the search
/// comes to.
pub open spec fn resolved<S>(
    secrets: Map<Seq<char>, S>,
    about: SearchSubject,
    world: World,
    make: spec_fn(Seq<char>) -> S,
) -> Result<S, Seq<char>> {
    asked(secrets, about.id, found_secret(about, world, make))
}

/// The secrets that a pool keeps after a secret was looked for.
pub open spec fn after_resolving<S>(
    secrets: Map<Seq<char>, S>,
    about: SearchSubject,
    world: World,
    make: spec_fn(Seq<char>) -> S,
) -> Map<Seq<char>, S> {
    after_asking(secrets, about.id, found_secret(about, world, make))
}

/// What is asked for and found is kept, whether it was found before or just now, and where
/// nothing is found the pool stays as it was. What is kept of other credentials stays as it was
/// either way.
pub proof fn what_is_found_is_kept<T, E>(
    kept: Map<Seq<char>, T>,
    id: Seq<char>,
    found: Result<T, E>,
)
    ensures
        ({
            let after = after_asking(kept, id, found);
            &&& match asked(kept, id, found) {
                Ok(value) => after.dom().contains(id) && after[id] == value,
                Err(_) => after == kept,
            }
            &&& after.remove(id) == kept.remove(id)
        }),
{
    assert(after_asking(kept, id, found).remove(id) =~= kept.remove(id));
}

/// What was found for a credential outlives a reload that keeps the credential.
pub proof fn what_is_found_outlives_reloads_that_keep_it<T>(
    kept: Map<Seq<char>, T>,
    id: Seq<char>,
    value: T,
    keep: Set<Seq<char>>,
)
    requires
        keep.contains(id),
    ensures
        ({
            let after = kept_with(kept, id, Ok::<T, Seq<char>>(value)).restrict(keep);
            after.dom().contains(id) && after[id] == value
        }),
{
}

/// What may happen to what a pool keeps.
pub ghost enum PoolEvent<T> {
    /// A credential is asked for, of which this is found if nothing is kept.
    Ask(Seq<char>, Result<T, Seq<char>>),
    /// All but these credentials are dropped.
    Invalidate(Set<Seq<char>>),
}

/// What a pool keeps after some events.
pub open spec fn kept_after<T>(kept: Map<Seq<char>, T>, events: Seq<PoolEvent<T>>) -> Map<
    Seq<char>,
    T,
>
    decreases events.len(),
{
    if events.len() == 0 {
        kept
    } else {
        let earlier = kept_after(kept, events.drop_last());
        match events.last() {
            PoolEvent::Ask(id, found) => after_asking(earlier, id, found),
            PoolEvent::Invalidate(keep) => earlier.restrict(keep),
        }
    }
}

/// Whether no event drops the credential `id`.
pub open spec fn keeps_credential<T>(events: Seq<PoolEvent<T>>, id: Seq<char>) -> bool {
    forall|i: int|
        0 <= i < events.len() ==> ((#[trigger] events[i]) matches PoolEvent::Invalidate(keep)
            ==> keep.contains(id))
}

/// A secret that was found once is not searched for again, as long as its credential is not
/// dropped: whatever else is looked for or dropped in between, and whatever has become of files
/// and variables, it is known, looking for it gives the same secret, and the pool stays as it
/// was.
pub proof fn found_secrets_are_not_searched_for_again<S>(
    secrets: Map<Seq<char>, S>,
    about: SearchSubject,
    world: World,
    events: Seq<PoolEvent<S>>,
    later: World,
    make: spec_fn(Seq<char>) -> S,
)
    requires
        resolved(secrets, about, world, make) is Ok,
        keeps_credential(events, about.id),
    ensures
        ({
            let now = kept_after(after_resolving(secrets, about, world, make), events);
            &&& now.dom().contains(about.id)
            &&& resolved(now, about, later, make) == resolved(secrets, about, world, make)
            &&& after_resolving(now, about, later, make) == now
        }),
{
    known_values_stay(after_resolving(secrets, about, world, make), about.id, events);
}

/// What a GitHub credential was turned into once is handed out again, as long as the credential
/// is not dropped: whatever else is asked for or dropped in between, it is known, it is the same,
/// nothing that might be built later takes its place, and the pool stays as it was. Two flows
/// that share a credential so share what it was turned into.
pub proof fn github_resources_are_handed_out_again<R>(
    by_id: Map<Seq<char>, R>,
    id: Seq<char>,
    built: Result<R, Seq<char>>,
    events: Seq<PoolEvent<R>>,
    later: Result<R, Seq<char>>,
)
    requires
        asked(by_id, id, built) is Ok,
        keeps_credential(events, id),
    ensures
        ({
            let now = kept_after(after_asking(by_id, id, built), events);
            &&& now.dom().contains(id)
            &&& asked(now, id, later) == asked(by_id, id, built)
            &&& after_asking(now, id, later) == now
        }),
{
    known_values_stay(after_asking(by_id, id, built), id, events);
}

/// A GitHub credential that was dropped is turned into something anew.
pub proof fn dropped_github_credentials_are_built_anew<R>(
    by_id: Map<Seq<char>, R>,
    id: Seq<char>,
    keep: Set<Seq<char>>,
    built: Result<R, Seq<char>>,
)
    requires
        !keep.contains(id),
    ensures
        !by_id.restrict(keep).dom().contains(id),
        asked(by_id.restrict(keep), id, built) == built,
{
}

/// What a pool keeps of a credential stays as it is while the credential is not dropped.
proof fn known_values_stay<T>(
    kept: Map<Seq<char>, T>,
    id: Seq<char>,
    events: Seq<PoolEvent<T>>,
)
    requires
        kept.dom().contains(id),
        keeps_credential(events, id),
    ensures
        kept_after(kept, events).dom().contains(id),
        kept_after(kept, events)[id] == kept[id],
    decreases events.len(),
{
    if events.len() > 0 {
        let shorter = events.drop_last();
        assert forall|i: int| 0 <= i < shorter.len() implies ((
        #[trigger] shorter[i]) matches PoolEvent::Invalidate(keep) ==> keep.contains(id)) by {
            assert(events[i] == shorter[i]);
        }
        known_values_stay(kept, id, shorter);
        assert(events[events.len() - 1] == events.last());
    }
}

/// How the reading of a credential file came out.
#[derive(Debug)]
pub enum ReadOutcome {
    /// No turn to read came, because turns are no longer given.
    TurnsClosed,
    /// No turn to read came in time.
    NoTurn,
    /// The file was read.
    Read(String),
    /// The file could not be read.
    Failed(String),
    /// The task that was to read the file failed.
    TaskFailed(String),
    /// The file was not read in time.
    TimedOut,
}

/// What is said of the reading of the credential file at `path`.
pub open spec fn read_report(path: Seq<char>, outcome: ReadOutcome) -> Result<
    Seq<char>,
    Seq<char>,
> {
    match outcome {
        ReadOutcome::TurnsClosed => Err(
            "read "@ + path + ": credential read semaphore closed (bug)"@,
        ),
        ReadOutcome::NoTurn => Err(
            "read "@ + path + ": timed out after "@ + decimal_text(5)
                + "s waiting for credential read slot"@,
        ),
        ReadOutcome::Read(text) => Ok(text@),
        ReadOutcome::Failed(e) => Err("read "@ + path + ": "@ + e@),
        ReadOutcome::TaskFailed(e) => Err("read "@ + path + ": blocking task failed: "@ + e@),
        ReadOutcome::TimedOut => Err(
            "read "@ + path + ": timed out after "@ + decimal_text(5)
                + "s (slow or hung backing store)"@,
        ),
    }
}

/// What is said of the reading of the credential file at `path`.
pub fn credential_read_result(path: &str, outcome: ReadOutcome) -> (r: Result<String, String>)
    ensures
        result_view(r) == read_report(path@, outcome),
{
    let mut m: String = glue("read ", path);
    match outcome {
        ReadOutcome::TurnsClosed => {
            m.append(": credential read semaphore closed (bug)");
        },
        ReadOutcome::NoTurn => {
            m.append(": timed out after ");
            m.append(decimal(READ_TIMEOUT_SECS).as_str());
            m.append("s waiting for credential read slot");
        },
        ReadOutcome::Read(text) => {
            return Ok(text);
        },
        ReadOutcome::Failed(e) => {
            m.append(": ");
            m.append(e.as_str());
        },
        ReadOutcome::TaskFailed(e) => {
            m.append(": blocking task failed: ");
            m.append(e.as_str());
        },
        ReadOutcome::TimedOut => {
            m.append(": timed out after ");
            m.append(decimal(READ_TIMEOUT_SECS).as_str());
            m.append("s (slow or hung backing store)");
        },
    }
    Err(m)
}

/// What the world answers to what the search does.
pub open spec fn reply(world: World, action: SearchAction) -> SearchEvent {
    match action {
        SearchAction::Probe(FilePlace::CredentialsDirectory) => SearchEvent::Probed(
            world.in_directory.0,
        ),
        SearchAction::Probe(FilePlace::ConfigDirectory) => SearchEvent::Probed(world.in_config.0),
        SearchAction::Read(FilePlace::CredentialsDirectory) => SearchEvent::FileRead(
            world.in_directory.1,
        ),
        SearchAction::Read(FilePlace::ConfigDirectory) => SearchEvent::FileRead(world.in_config.1),
        SearchAction::AskEnvironment => SearchEvent::VariableKnown(world.variable),
        _ => SearchEvent::DirectoryKnown(world.directory),
    }
}

/// Whether the step at `k` is taken from where the one before it came to and from what the world
/// answered to it.
pub open spec fn is_search_step(
    id: CredentialId,
    config_dir: Option<String>,
    world: World,
    steps: Seq<(SearchState, SearchAction)>,
    k: int,
) -> bool {
    let (state, event) = if k == 0 {
        (SearchState::Start, SearchEvent::DirectoryKnown(world.directory))
    } else {
        (steps[k - 1].0, reply(world, steps[k - 1].1))
    };
    call_ensures(resolve_secret_step, (&id, &config_dir, state, event), steps[k])
}

/// Whether `steps` are the steps of a search in `world`.
pub open spec fn is_search(
    id: CredentialId,
    config_dir: Option<String>,
    world: World,
    steps: Seq<(SearchState, SearchAction)>,
) -> bool {
    forall|k: int|
        0 <= k < steps.len() ==> #[trigger] is_search_step(id, config_dir, world, steps, k)
}

/// Whether `secret` is `text` without the line ends behind it, and without anything else less.
pub open spec fn without_line_ends(secret: Seq<char>, text: Seq<char>) -> bool {
    &&& secret.len() <= text.len()
    &&& secret == text.take(secret.len() as int)
    &&& forall|i: int|
        secret.len() <= i < text.len() ==> (#[trigger] text[i]) == '\r' || text[i] == '\n'
    &&& secret.len() > 0 ==> secret.last() != '\r' && secret.last() != '\n'
}

/// Whether `found` is what a place says: a file that may be used says what it holds without the
/// line ends behind it, or why it cannot be read, and anything else there says why it may not
/// be used.
pub open spec fn is_said(
    found: Result<String, String>,
    place: (FileProbe, Result<String, String>),
) -> bool {
    match place.0 {
        FileProbe::Usable => match place.1 {
            Ok(text) => found is Ok && without_line_ends(found->Ok_0@, text@),
            Err(why) => found is Err && found->Err_0@ == why@,
        },
        FileProbe::Rejected(why) => found is Err && found->Err_0@ == why@,
        FileProbe::NotPresent => false,
    }
}

/// A search ends with what the first of three says that says anything: the file in the credentials
/// directory, where there is such a directory; the environment variable, word for word; and the
/// file below the directory of the configuration, where that is known. Where none says anything it
/// ends with a complaint that names all three.
pub proof fn searches_end_with_the_first_that_says_anything(
    id: CredentialId,
    config_dir: Option<String>,
    world: World,
    steps: Seq<(SearchState, SearchAction)>,
    n: int,
)
    requires
        is_search(id, config_dir, world, steps),
        0 <= n < steps.len(),
        steps[n].1 is Finish,
        forall|k: int| 0 <= k < n ==> !((#[trigger] steps[k]).1 is Finish),
    ensures
        ({
            let found = steps[n].1->Finish_0;
            let first = world.directory && !(world.in_directory.0 is NotPresent);
            let second = world.variable is Some;
            let third = config_dir is Some && !(world.in_config.0 is NotPresent);
            &&& steps[n].0 is Over
            &&& n <= 5
            &&& first ==> is_said(found, world.in_directory)
            &&& !first && second ==> found is Ok && found->Ok_0@ == world.variable->0@
            &&& !first && !second && third ==> is_said(found, world.in_config)
            &&& !first && !second && !third ==> found is Err && found->Err_0@ == "credential `"@
                + id@ + "` not found at $CREDENTIALS_DIRECTORY/"@ + id@ + " or env $"@ + env_var_of(
                id@,
            ) + " or "@ + (if config_dir is Some {
                config_dir->0@ + "/credentials/"@ + id@
            } else {
                "<config_dir>/credentials/"@ + id@
            })
        }),
{
    files_say_their_text_without_line_ends(world.in_directory);
    files_say_their_text_without_line_ends(world.in_config);
    let about = SearchSubject { id: id@, config_dir: crate::text::optional_view(config_dir) };
    let last = if n > 5 {
        5
    } else {
        n
    };
    search_is_taken_step_by_step(id, config_dir, world, steps, last);
    search_is_taken_step_by_step(id, config_dir, world, steps, 0);
    if n >= 1 {
        search_is_taken_step_by_step(id, config_dir, world, steps, 1);
    }
    if n >= 2 {
        search_is_taken_step_by_step(id, config_dir, world, steps, 2);
    }
    if n >= 3 {
        search_is_taken_step_by_step(id, config_dir, world, steps, 3);
    }
    if n >= 4 {
        search_is_taken_step_by_step(id, config_dir, world, steps, 4);
    }
    searches_take_six_steps(about, world);
}

/// A search comes to what it finds at the latest with its sixth step, and not to anything else.
proof fn searches_take_six_steps(about: SearchSubject, world: World)
    ensures
        ({
            let end = (SearchState::Over, ActionView::Finish(found(about, world)));
            let at = |n: nat| search_at(about, world, n);
            &&& !(at(1).1 is Finish)
            &&& at(2).1 is Finish ==> at(2) == end
            &&& at(3).1 is Finish ==> at(3) == end
            &&& at(4).1 is Finish ==> at(4) == end
            &&& at(5).1 is Finish ==> at(5) == end
            &&& at(6).1 is Finish ==> at(6) == end
            &&& at(2).1 is Finish || at(3).1 is Finish || at(4).1 is Finish || at(5).1 is Finish
                || at(6).1 is Finish
        }),
{
    reveal_with_fuel(search_at, 7);
}

/// The steps of a search come to where it is after as many answers of the world.
proof fn search_is_taken_step_by_step(
    id: CredentialId,
    config_dir: Option<String>,
    world: World,
    steps: Seq<(SearchState, SearchAction)>,
    k: int,
)
    requires
        is_search(id, config_dir, world, steps),
        0 <= k < steps.len(),
    ensures
        (steps[k].0, steps[k].1@) == search_at(
            SearchSubject { id: id@, config_dir: crate::text::optional_view(config_dir) },
            world,
            (k + 1) as nat,
        ),
    decreases k,
{
    let about = SearchSubject { id: id@, config_dir: crate::text::optional_view(config_dir) };
    if k == 0 {
        reveal_with_fuel(search_at, 2);
        assert(is_search_step(id, config_dir, world, steps, 0));
    } else {
        search_is_taken_step_by_step(id, config_dir, world, steps, k - 1);
        assert(is_search_step(id, config_dir, world, steps, k));
        let (before, after) = (steps[k - 1], steps[k]);
        assert(reply(world, before.1) == answer(world, before.1@));
        assert((after.0, after.1@) == search_step(about, before.0, reply(world, before.1)));
    }
}

/// What a file says is its text without the line ends behind it.
proof fn files_say_their_text_without_line_ends(place: (FileProbe, Result<String, String>))
    ensures
        place.0 is Usable && place.1 is Ok ==> without_line_ends(
            trimmed_end(place.1->Ok_0@, line_ends()),
            place.1->Ok_0@,
        ),
{
    if place.0 is Usable && place.1 is Ok {
        line_ends_are_trimmed(place.1->Ok_0@);
    }
}

proof fn line_ends_are_trimmed(text: Seq<char>)
    ensures
        without_line_ends(trimmed_end(text, line_ends()), text),
    decreases text.len(),
{
    assert(forall|c: char| line_ends().contains(c) <==> c == '\r' || c == '\n') by {
        assert(line_ends()[0] == '\r' && line_ends()[1] == '\n');
    }
    if text.len() > 0 && line_ends().contains(text.last()) {
        let shorter = text.drop_last();
        line_ends_are_trimmed(shorter);
        let secret = trimmed_end(shorter, line_ends());
        assert(secret =~= text.take(secret.len() as int));
        assert forall|i: int| secret.len() <= i < text.len() implies (#[trigger] text[i]) == '\r'
            || text[i] == '\n' by {
            if i < shorter.len() {
                assert(shorter[i] == text[i]);
            }
        }
    } else {
        assert(text =~= text.take(text.len() as int));
    }
}

/// A search that is over takes in nothing more, and one that is asked something takes in nothing
/// else.
pub proof fn searches_ignore_what_they_did_not_ask(
    id: CredentialId,
    config_dir: Option<String>,
    state: SearchState,
    event: SearchEvent,
    r: (SearchState, SearchAction),
)
    requires
        call_ensures(resolve_secret_step, (&id, &config_dir, state, event), r),
    ensures
        ({
            let fits = (state is Start && event is DirectoryKnown) || (state is Probing
                && event is Probed) || (state is Reading && event is FileRead) || (
            state is AskingEnvironment && event is VariableKnown);
            &&& r.1 is Ignore <==> !fits
            &&& !fits ==> r.0 == state
            &&& r.1 is Finish <==> fits && r.0 is Over
            &&& r.1 matches SearchAction::Probe(place) ==> r.0 == SearchState::Probing(place)
            &&& r.1 matches SearchAction::Read(place) ==> r.0 == SearchState::Reading(place)
                && state == SearchState::Probing(place)
            &&& r.1 is AskEnvironment ==> r.0 is AskingEnvironment
        }),
{
}

/// A pool begins empty and keeps the directory that it was made with.
pub proof fn pools_begin_empty<R, S>(config_dir: Option<String>, r: CredentialPool<R, S>, id: Seq<char>)
    requires
        call_ensures(CredentialPool::<R, S>::new, (config_dir,), r),
    ensures
        !r.by_id@.dom().contains(id),
        !r.secrets@.dom().contains(id),
        r.config_dir == config_dir,
{
}

/// Dropping all but some credentials leaves what is known of those as it was and nothing of any
/// other, and hands out what the others were turned into.
pub proof fn all_but_some_credentials_are_dropped<R, S>(
    pool: &mut CredentialPool<R, S>,
    keep: NameSet,
    r: NameMap<R>,
    id: Seq<char>,
)
    requires
        call_ensures(CredentialPool::<R, S>::invalidate_except, (pool, &keep), r),
    ensures
        ({
            let kept = keep@.contains(id);
            let (by_id, secrets) = (old(pool).by_id@, old(pool).secrets@);
            &&& final(pool).by_id@.dom().contains(id) <==> kept && by_id.dom().contains(id)
            &&& kept && by_id.dom().contains(id) ==> final(pool).by_id@[id] == by_id[id]
            &&& final(pool).secrets@.dom().contains(id) <==> kept && secrets.dom().contains(id)
            &&& kept && secrets.dom().contains(id) ==> final(pool).secrets@[id] == secrets[id]
            &&& r@.dom().contains(id) <==> !kept && by_id.dom().contains(id)
            &&& !kept && by_id.dom().contains(id) ==> r@[id] == by_id[id]
            &&& final(pool).config_dir == old(pool).config_dir
        }),
{
}

/// A secret is searched for, from the start on, just where it is not known, and what is known is
/// used as it is. What a GitHub credential is turned into is built just where it is not known.
pub proof fn what_is_known_is_not_looked_for<'a, R, S>(
    pool: &'a CredentialPool<R, S>,
    id: CredentialId,
    secret: SecretLookup<'a, S>,
    cached: Option<&'a S>,
    github: GithubLookup<'a, R>,
    resources: Option<&'a R>,
)
    requires
        call_ensures(CredentialPool::<R, S>::begin_secret, (pool, &id), secret),
        call_ensures(CredentialPool::<R, S>::cached_secret, (pool, &id), cached),
        call_ensures(CredentialPool::<R, S>::begin_github, (pool, &id), github),
        call_ensures(CredentialPool::<R, S>::github_resources, (pool, &id), resources),
    ensures
        secret is Known <==> pool.secrets@.dom().contains(id@),
        secret is Known ==> *secret->Known_0 == pool.secrets@[id@],
        secret is Search ==> secret->Search_0 is Start,
        cached is Some <==> pool.secrets@.dom().contains(id@),
        cached is Some ==> *cached->0 == pool.secrets@[id@],
        github is Known <==> pool.by_id@.dom().contains(id@),
        github is Known ==> *github->Known_0 == pool.by_id@[id@],
        resources is Some <==> pool.by_id@.dom().contains(id@),
        resources is Some ==> *resources->0 == pool.by_id@[id@],
{
}

/// A secret that was found is handed out and kept, in place of one that was kept before; where none
/// was found it is said why, and nothing changes. What is kept of other credentials, and what
/// GitHub credentials were turned into, stays.
pub proof fn found_secrets_are_kept<R, S>(
    pool: &mut CredentialPool<R, S>,
    id: CredentialId,
    found: Result<S, String>,
    r: Result<&S, String>,
    other: Seq<char>,
)
    requires
        call_ensures(CredentialPool::<R, S>::finish_secret, (pool, &id, found), r),
        other != id@,
    ensures
        ({
            let (before, after) = (old(pool).secrets@, final(pool).secrets@);
            &&& r is Ok <==> found is Ok
            &&& r is Ok ==> *r->Ok_0 == found->Ok_0
            &&& r is Err ==> r->Err_0@ == found->Err_0@
            &&& found is Ok ==> after.dom().contains(id@) && after[id@] == found->Ok_0
            &&& found is Err ==> after == before
            &&& after.dom().contains(other) <==> before.dom().contains(other)
            &&& before.dom().contains(other) ==> after[other] == before[other]
            &&& final(pool).by_id@ == old(pool).by_id@
            &&& final(pool).config_dir == old(pool).config_dir
        }),
{
}

/// What a GitHub credential was turned into is handed out and kept; where it could not be it is
/// said why, and nothing changes. What is kept of other credentials, and the secrets, stay.
pub proof fn what_github_credentials_are_turned_into_is_kept<R, S>(
    pool: &mut CredentialPool<R, S>,
    id: CredentialId,
    built: Result<R, String>,
    r: Result<&R, String>,
    other: Seq<char>,
)
    requires
        call_ensures(CredentialPool::<R, S>::finish_github, (pool, &id, built), r),
        other != id@,
    ensures
        ({
            let (before, after) = (old(pool).by_id@, final(pool).by_id@);
            &&& r is Ok <==> built is Ok
            &&& r is Ok ==> *r->Ok_0 == built->Ok_0
            &&& r is Err ==> r->Err_0@ == "github client: "@ + built->Err_0@
            &&& built is Ok ==> after.dom().contains(id@) && after[id@] == built->Ok_0
            &&& built is Err ==> after == before
            &&& after.dom().contains(other) <==> before.dom().contains(other)
            &&& before.dom().contains(other) ==> after[other] == before[other]
            &&& final(pool).secrets@ == old(pool).secrets@
            &&& final(pool).config_dir == old(pool).config_dir
        }),
{
}

/// Requests under one GitHub credential are a second apart, and the first goes through at once.
pub proof fn requests_under_one_credential_are_a_second_apart(
    bucket: RateBucket,
    interval: Duration,
)
    requires
        call_ensures(github_bucket, (), bucket),
        call_ensures(RateBucket::min_interval, (&bucket,), interval),
    ensures
        interval.nanos == 1_000_000_000,
        bucket@.last is None,
        GITHUB_PACING_SECS == 1,
        CREDENTIAL_READ_CONCURRENCY == 8,
        READ_TIMEOUT_SECS == 5,
{
}

/// A credential file that was read says what it holds, as it is; one that was not says which file
/// it is and why.
pub proof fn files_that_are_not_read_say_why(
    path: &str,
    outcome: ReadOutcome,
    r: Result<String, String>,
)
    requires
        call_ensures(credential_read_result, (path, outcome), r),
    ensures
        r is Ok <==> outcome is Read,
        r is Ok ==> r->Ok_0@ == outcome->Read_0@,
        ({
            let said = "read "@ + path@;
            let why = r->Err_0@;
            &&& outcome is TurnsClosed ==> why == said
                + ": credential read semaphore closed (bug)"@
            &&& outcome is NoTurn ==> why == said + ": timed out after "@ + decimal_text(5)
                + "s waiting for credential read slot"@
            &&& outcome is TimedOut ==> why == said + ": timed out after "@ + decimal_text(5)
                + "s (slow or hung backing store)"@
            &&& outcome is Failed ==> why == said + ": "@ + outcome->Failed_0@
            &&& outcome is TaskFailed ==> why == said + ": blocking task failed: "@
                + outcome->TaskFailed_0@
        }),
{
}

} // verus!
