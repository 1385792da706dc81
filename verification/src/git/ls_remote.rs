//! Polling by listing the refs of a remote.
use vstd::prelude::*;
use vstd::utf8::encode_utf8;

use crate::git::PollOutcome;
use crate::object_id::ObjectId;
use crate::text::{debug_quoted, glue, quoted};

verus! {

/// The name that the daemon gives to remotes.
pub const AGENT: &'static str = "gcit";

/// How long one poll may take, in seconds.
pub const POLL_TIMEOUT_SECS: u64 = 60;

/// Why listing the refs of a remote failed.
#[derive(Debug)]
pub enum LsRemoteError {
    /// It may work at the next try.
    Transient { message: String },
    /// It will not work at the next try either.
    Permanent { message: String },
}

/// Why listing the refs of a remote failed, over the views of texts.
pub ghost enum ErrorView {
    Transient(Seq<char>),
    Permanent(Seq<char>),
}

impl View for LsRemoteError {
    type V = ErrorView;

    open spec fn view(&self) -> ErrorView {
        match self {
            LsRemoteError::Transient { message } => ErrorView::Transient(message@),
            LsRemoteError::Permanent { message } => ErrorView::Permanent(message@),
        }
    }
}

impl LsRemoteError {
    /// What the error says.
    pub fn to_text(&self) -> (r: String)
        ensures
            r@ == match self@ {
                ErrorView::Transient(m) => "transient: "@ + m,
                ErrorView::Permanent(m) => "permanent: "@ + m,
            },
    {
        match self {
            LsRemoteError::Transient { message } => glue("transient: ", message.as_str()),
            LsRemoteError::Permanent { message } => glue("permanent: ", message.as_str()),
        }
    }
}

/// What is reported of a poll that took too long.
pub fn poll_timeout_error() -> (r: LsRemoteError)
    ensures
        r@ == ErrorView::Transient("ls-remote timed out after 60s"@),
{
    LsRemoteError::Transient { message: "ls-remote timed out after 60s".to_string() }
}

/// What is reported of a poll whose task failed.
pub fn poll_join_error(error: &str) -> (r: LsRemoteError)
    ensures
        r@ == ErrorView::Transient("ls-remote task join error: "@ + error@),
{
    LsRemoteError::Transient { message: glue("ls-remote task join error: ", error) }
}

/// A ref that a remote lists.
#[derive(Debug)]
pub enum RemoteRef {
    /// It points at an object.
    Direct { full_ref_name: Vec<u8>, object: ObjectId },
    /// It points at the annotated tag `tag`, which points at `object`.
    Peeled { full_ref_name: Vec<u8>, tag: ObjectId, object: ObjectId },
    /// It points at the ref `target`, which points at `object`.
    Symbolic { full_ref_name: Vec<u8>, target: Vec<u8>, object: ObjectId },
    /// It points at the ref `target`, which points at nothing yet.
    Unborn { full_ref_name: Vec<u8>, target: Vec<u8> },
}

impl RemoteRef {
    /// The name of the ref.
    pub open spec fn ref_name(self) -> Seq<u8> {
        match self {
            RemoteRef::Direct { full_ref_name, .. } => full_ref_name@,
            RemoteRef::Peeled { full_ref_name, .. } => full_ref_name@,
            RemoteRef::Symbolic { full_ref_name, .. } => full_ref_name@,
            RemoteRef::Unborn { full_ref_name, .. } => full_ref_name@,
        }
    }

    /// What a search that finds this ref has found.
    pub open spec fn found(self) -> FoundRef {
        match self {
            RemoteRef::Direct { object, .. } => FoundRef::Direct(object),
            RemoteRef::Peeled { tag, .. } => FoundRef::PeeledTag(tag),
            RemoteRef::Symbolic { object, .. } => FoundRef::Symbolic(object),
            RemoteRef::Unborn { .. } => FoundRef::Unborn,
        }
    }

    /// Whether the name of the ref is `name`.
    fn is_named(&self, name: &[u8]) -> (r: bool)
        ensures
            r == (self.ref_name() == name@),
    {
        match self {
            RemoteRef::Direct { full_ref_name, .. } => same_bytes(full_ref_name.as_slice(), name),
            RemoteRef::Peeled { full_ref_name, .. } => same_bytes(full_ref_name.as_slice(), name),
            RemoteRef::Symbolic { full_ref_name, .. } => same_bytes(
                full_ref_name.as_slice(),
                name,
            ),
            RemoteRef::Unborn { full_ref_name, .. } => same_bytes(full_ref_name.as_slice(), name),
        }
    }
}

/// Whether two byte strings are equal.
fn same_bytes(a: &[u8], b: &[u8]) -> (r: bool)
    ensures
        r == (a@ == b@),
{
    if a.len() != b.len() {
        return false;
    }
    let mut i: usize = 0;
    while i < a.len()
        invariant
            a@.len() == b@.len(),
            i <= a@.len(),
            forall|j: int| 0 <= j < i ==> a@[j] == b@[j],
        decreases a@.len() - i,
    {
        if a[i] != b[i] {
            return false;
        }
        i += 1;
    }
    assert(a@ =~= b@);
    true
}

/// What a search for a ref has found.
#[derive(Clone, Copy, Debug)]
pub enum FoundRef {
    /// A ref that points at an object.
    Direct(ObjectId),
    /// An annotated tag, by its own id and not by that of what it points at.
    PeeledTag(ObjectId),
    /// A ref that points at another ref, by the id of the object there.
    Symbolic(ObjectId),
    /// A ref that points at nothing yet.
    Unborn,
    /// No such ref.
    NotPresent,
}

/// The index of the first ref named `name`, or the number of refs.
pub open spec fn first_ref(refs: Seq<RemoteRef>, name: Seq<u8>) -> int
    decreases refs.len(),
{
    if refs.len() == 0 {
        0
    } else {
        let earlier = first_ref(refs.drop_last(), name);
        if earlier < refs.len() - 1 || refs.last().ref_name() == name {
            earlier
        } else {
            refs.len() as int
        }
    }
}

/// What the first ref named `name` is.
pub open spec fn found_in(refs: Seq<RemoteRef>, name: Seq<u8>) -> FoundRef {
    let i = first_ref(refs, name);
    if i < refs.len() {
        refs[i].found()
    } else {
        FoundRef::NotPresent
    }
}

/// The first ref named `name` is the one before which no other is so named.
pub proof fn first_ref_is_the_first(refs: Seq<RemoteRef>, name: Seq<u8>)
    ensures
        0 <= first_ref(refs, name) <= refs.len(),
        first_ref(refs, name) < refs.len() ==> refs[first_ref(refs, name)].ref_name() == name,
        forall|j: int| 0 <= j < first_ref(refs, name) ==> (#[trigger] refs[j]).ref_name() != name,
    decreases refs.len(),
{
    if refs.len() > 0 {
        first_ref_is_the_first(refs.drop_last(), name);
        assert forall|j: int| 0 <= j < first_ref(refs, name) implies (#[trigger] refs[j]).ref_name()
            != name by {
            if j < refs.len() - 1 {
                assert(refs.drop_last()[j] == refs[j]);
            }
        }
    }
}

/// Looks for `ref_name` among the refs of a remote, in their order.
pub fn find_ref(refs: &Vec<RemoteRef>, ref_name: &str) -> (r: FoundRef)
    ensures
        r == found_in(refs@, encode_utf8(ref_name@)),
{
    let target: &[u8] = ref_name.as_bytes();
    let ghost name = encode_utf8(ref_name@);
    proof {
        first_ref_is_the_first(refs@, name);
    }
    let mut i: usize = 0;
    while i < refs.len()
        invariant
            i <= refs@.len(),
            target@ == name,
            i <= first_ref(refs@, name) <= refs@.len(),
            first_ref(refs@, name) < refs@.len() ==> refs@[first_ref(refs@, name)].ref_name()
                == name,
            forall|j: int|
                0 <= j < first_ref(refs@, name) ==> (#[trigger] refs@[j]).ref_name() != name,
            name == encode_utf8(ref_name@),
        decreases refs@.len() - i,
    {
        if refs[i].is_named(target) {
            assert(first_ref(refs@, name) == i);
            return match &refs[i] {
                RemoteRef::Direct { object, .. } => FoundRef::Direct(*object),
                RemoteRef::Peeled { tag, .. } => FoundRef::PeeledTag(*tag),
                RemoteRef::Symbolic { object, .. } => FoundRef::Symbolic(*object),
                RemoteRef::Unborn { .. } => FoundRef::Unborn,
            };
        }
        i += 1;
    }
    FoundRef::NotPresent
}

/// What a found ref means for a poll.
pub open spec fn outcome_of(found: FoundRef) -> PollOutcome {
    match found {
        FoundRef::Direct(sha) => PollOutcome::Refreshed { sha },
        FoundRef::PeeledTag(sha) => PollOutcome::Refreshed { sha },
        FoundRef::Symbolic(sha) => PollOutcome::Refreshed { sha },
        FoundRef::Unborn => PollOutcome::UnbornRef,
        FoundRef::NotPresent => PollOutcome::UnbornRef,
    }
}

/// What a found ref means for a poll.
pub fn poll_outcome(found: FoundRef) -> (r: PollOutcome)
    ensures
        r == outcome_of(found),
{
    match found {
        FoundRef::Direct(sha) => PollOutcome::Refreshed { sha },
        FoundRef::PeeledTag(sha) => PollOutcome::Refreshed { sha },
        FoundRef::Symbolic(sha) => PollOutcome::Refreshed { sha },
        FoundRef::Unborn => PollOutcome::UnbornRef,
        FoundRef::NotPresent => PollOutcome::UnbornRef,
    }
}

/// A poll of a ref that is an annotated tag gives the id of the tag, not of what it points at.
pub proof fn tags_are_polled_by_their_own_id(refs: Seq<RemoteRef>, name: Seq<u8>)
    requires
        first_ref(refs, name) < refs.len(),
        refs[first_ref(refs, name)] is Peeled,
    ensures
        outcome_of(found_in(refs, name)) == (PollOutcome::Refreshed {
            sha: refs[first_ref(refs, name)]->Peeled_tag,
        }),
{
}

/// Why a remote could not be connected to.
#[derive(Clone, Copy, PartialEq, Eq, Structural, Debug)]
pub enum ConnectFailure {
    /// The URL cannot be parsed.
    Url,
    /// The URL's path is none that the system has.
    PathConversion,
    /// The URL's scheme is not supported.
    UnsupportedScheme,
    /// A part of the URL is not supported.
    UnsupportedUrlTokens,
    /// There was no connection.
    Connection,
    /// Something else.
    Other,
}

/// The text `what`, the URL in quotes, and the error.
pub open spec fn complaint(what: Seq<char>, url: Seq<char>, error: Seq<char>) -> Seq<char> {
    what + debug_quoted(url) + ": "@ + error
}

/// The text `what`, the URL in quotes, and the error.
fn complain(what: &str, url: &str, error: &str) -> (r: String)
    ensures
        r@ == complaint(what@, url@, error@),
{
    let mut m: String = glue(what, quoted(url).as_str());
    m.append(": ");
    m.append(error);
    m
}

/// What is reported of a remote at `url` that could not be connected to.
pub open spec fn connect_report(why: ConnectFailure, url: Seq<char>, error: Seq<char>) -> ErrorView {
    let text = complaint("connect to "@, url, error);
    match why {
        ConnectFailure::Connection => ErrorView::Transient(text),
        ConnectFailure::Other => ErrorView::Transient(text),
        _ => ErrorView::Permanent(text),
    }
}

/// What is reported of a remote at `url` that could not be connected to.
pub fn classify_connect_error(why: ConnectFailure, url: &str, error: &str) -> (r: LsRemoteError)
    ensures
        r@ == connect_report(why, url@, error@),
{
    let message: String = complain("connect to ", url, error);
    match why {
        ConnectFailure::Url | ConnectFailure::PathConversion | ConnectFailure::UnsupportedScheme
        | ConnectFailure::UnsupportedUrlTokens => LsRemoteError::Permanent { message },
        ConnectFailure::Connection | ConnectFailure::Other => LsRemoteError::Transient { message },
    }
}

/// Why a remote did not agree to talk.
#[derive(Clone, Copy, PartialEq, Eq, Structural, Debug)]
pub enum HandshakeFailure {
    /// The remote did not accept the credentials.
    InvalidCredentials,
    /// The remote speaks a version of the protocol that is not allowed.
    TransportProtocolPolicyViolation,
    /// The credentials could not be had.
    Credentials,
    /// There are no credentials.
    EmptyCredentials,
    /// The connection failed.
    Transport,
    /// The refs that the remote sent make no sense.
    ParseRefs,
}

/// What is reported of a remote at `url` that did not agree to talk.
pub open spec fn handshake_report(
    why: HandshakeFailure,
    url: Seq<char>,
    error: Seq<char>,
) -> ErrorView {
    match why {
        HandshakeFailure::InvalidCredentials => ErrorView::Permanent(
            complaint("invalid credentials for "@, url, error),
        ),
        HandshakeFailure::TransportProtocolPolicyViolation => ErrorView::Permanent(
            complaint("server rejected protocol version for "@, url, error),
        ),
        HandshakeFailure::Credentials => ErrorView::Permanent(
            complaint("credential helper failure for "@, url, error),
        ),
        HandshakeFailure::EmptyCredentials => ErrorView::Permanent(
            complaint("credential helper failure for "@, url, error),
        ),
        HandshakeFailure::Transport => ErrorView::Transient(
            complaint("transport failure during handshake to "@, url, error),
        ),
        HandshakeFailure::ParseRefs => ErrorView::Transient(
            complaint("ref parsing during handshake to "@, url, error),
        ),
    }
}

/// What is reported of a remote at `url` that did not agree to talk.
pub fn classify_handshake_error(why: HandshakeFailure, url: &str, error: &str) -> (r: LsRemoteError)
    ensures
        r@ == handshake_report(why, url@, error@),
{
    match why {
        HandshakeFailure::InvalidCredentials => LsRemoteError::Permanent {
            message: complain("invalid credentials for ", url, error),
        },
        HandshakeFailure::TransportProtocolPolicyViolation => LsRemoteError::Permanent {
            message: complain("server rejected protocol version for ", url, error),
        },
        HandshakeFailure::Credentials | HandshakeFailure::EmptyCredentials => {
            LsRemoteError::Permanent {
                message: complain("credential helper failure for ", url, error),
            }
        },
        HandshakeFailure::Transport => LsRemoteError::Transient {
            message: complain("transport failure during handshake to ", url, error),
        },
        HandshakeFailure::ParseRefs => LsRemoteError::Transient {
            message: complain("ref parsing during handshake to ", url, error),
        },
    }
}

/// Why a remote did not list its refs.
#[derive(Clone, Copy, PartialEq, Eq, Structural, Debug)]
pub enum LsRefsFailure {
    /// Reading or writing failed.
    Io,
    /// The connection failed.
    Transport,
    /// The refs that the remote sent make no sense.
    Parse,
    /// The remote does not take the arguments.
    ArgumentValidation,
    /// Something else.
    Other,
}

/// What is reported of a remote at `url` that did not list its refs.
pub open spec fn ls_refs_report(why: LsRefsFailure, url: Seq<char>, error: Seq<char>) -> ErrorView {
    match why {
        LsRefsFailure::Io => ErrorView::Transient(
            complaint("ls-refs IO/transport for "@, url, error),
        ),
        LsRefsFailure::Transport => ErrorView::Transient(
            complaint("ls-refs IO/transport for "@, url, error),
        ),
        LsRefsFailure::Parse => ErrorView::Permanent(
            complaint("ls-refs parse/validation for "@, url, error),
        ),
        LsRefsFailure::ArgumentValidation => ErrorView::Permanent(
            complaint("ls-refs parse/validation for "@, url, error),
        ),
        LsRefsFailure::Other => ErrorView::Transient(
            complaint("unknown ls-refs error for "@, url, error),
        ),
    }
}

/// What is reported of a remote at `url` that did not list its refs.
pub fn classify_ls_refs_error(why: LsRefsFailure, url: &str, error: &str) -> (r: LsRemoteError)
    ensures
        r@ == ls_refs_report(why, url@, error@),
{
    match why {
        LsRefsFailure::Io | LsRefsFailure::Transport => LsRemoteError::Transient {
            message: complain("ls-refs IO/transport for ", url, error),
        },
        LsRefsFailure::Parse | LsRefsFailure::ArgumentValidation => LsRemoteError::Permanent {
            message: complain("ls-refs parse/validation for ", url, error),
        },
        LsRefsFailure::Other => LsRemoteError::Transient {
            message: complain("unknown ls-refs error for ", url, error),
        },
    }
}

/// What the listed refs of a remote came to.
#[derive(Clone, Copy, PartialEq, Eq, Debug)]
pub struct ListedPoll {
    /// What the poll came to.
    pub outcome: PollOutcome,
    /// How many refs were listed, where none of them has the name that was polled. A ref that
    /// is listed and points at nothing yet is not missing.
    pub missing_among: Option<usize>,
}

/// What the listed refs of a remote mean for a poll of `ref_name`, and whether it is missing.
pub open spec fn listed_poll(refs: Seq<RemoteRef>, ref_name: Seq<char>) -> ListedPoll {
    let found = found_in(refs, encode_utf8(ref_name));
    ListedPoll {
        outcome: outcome_of(found),
        missing_among: if found is NotPresent {
            Some(refs.len() as usize)
        } else {
            None
        },
    }
}

/// What the listed refs of a remote mean for a poll of `ref_name`, and whether it is missing.
pub fn poll_listed(refs: &Vec<RemoteRef>, ref_name: &str) -> (r: ListedPoll)
    ensures
        r == listed_poll(refs@, ref_name@),
{
    let found: FoundRef = find_ref(refs, ref_name);
    let missing_among: Option<usize> = match found {
        FoundRef::NotPresent => Some(refs.len()),
        _ => None,
    };
    ListedPoll { outcome: poll_outcome(found), missing_among }
}

/// What a poll by listing came to, over the views of texts.
pub open spec fn listing_view(r: Result<ListedPoll, LsRemoteError>) -> Result<
    ListedPoll,
    ErrorView,
> {
    match r {
        Ok(o) => Ok(o),
        Err(e) => Err(e@),
    }
}

/// What comes after a remote was asked to talk.
#[derive(Debug)]
pub enum AfterHandshake {
    /// The remote is asked for its refs.
    ListRefs,
    /// The poll is over.
    Ended(Result<ListedPoll, LsRemoteError>),
}

/// What a poll of `ref_name` at `url` came to, given the refs that the remote listed, or why it
/// did not.
pub open spec fn listing_report(
    listed: Result<Vec<RemoteRef>, (LsRefsFailure, String)>,
    url: Seq<char>,
    ref_name: Seq<char>,
) -> Result<ListedPoll, ErrorView> {
    match listed {
        Ok(refs) => Ok(listed_poll(refs@, ref_name)),
        Err((why, error)) => Err(ls_refs_report(why, url, error@)),
    }
}

/// What a poll of `ref_name` at `url` came to, given the refs that the remote listed, or why it
/// did not.
pub fn after_listing(
    listed: Result<Vec<RemoteRef>, (LsRefsFailure, String)>,
    url: &str,
    ref_name: &str,
) -> (r: Result<ListedPoll, LsRemoteError>)
    ensures
        listing_view(r) == listing_report(listed, url@, ref_name@),
{
    match listed {
        Ok(refs) => Ok(poll_listed(&refs, ref_name)),
        Err((why, error)) => Err(classify_ls_refs_error(why, url, error.as_str())),
    }
}

/// What comes after a remote at `url` was asked to talk: a remote that sent its refs when it
/// agreed is not asked for them, and one that did not agree ends the poll.
pub fn after_handshake(
    agreed: Result<Option<Vec<RemoteRef>>, (HandshakeFailure, String)>,
    url: &str,
    ref_name: &str,
) -> (r: AfterHandshake)
    ensures
        match agreed {
            Ok(Some(refs)) => r is Ended && listing_view(r->Ended_0) == listing_report(
                Ok(refs),
                url@,
                ref_name@,
            ),
            Ok(None) => r is ListRefs,
            Err((why, error)) => r is Ended && listing_view(r->Ended_0) == Err::<
                ListedPoll,
                ErrorView,
            >(handshake_report(why, url@, error@)),
        },
{
    match agreed {
        Ok(Some(refs)) => AfterHandshake::Ended(after_listing(Ok(refs), url, ref_name)),
        Ok(None) => AfterHandshake::ListRefs,
        Err((why, error)) => AfterHandshake::Ended(
            Err(classify_handshake_error(why, url, error.as_str())),
        ),
    }
}

/// An error is told with what kind it is of and with what it says.
pub proof fn errors_tell_their_kind(e: LsRemoteError, r: String)
    requires
        call_ensures(LsRemoteError::to_text, (&e,), r),
    ensures
        e is Transient ==> r@ == "transient: "@ + e->Transient_message@,
        e is Permanent ==> r@ == "permanent: "@ + e->Permanent_message@,
{
}

/// A poll that took too long, or whose task failed, may go right the next time.
pub proof fn polls_that_do_not_end_are_passing_trouble(
    error: &str,
    slow: LsRemoteError,
    lost: LsRemoteError,
)
    requires
        call_ensures(poll_timeout_error, (), slow),
        call_ensures(poll_join_error, (error,), lost),
    ensures
        slow is Transient && slow->Transient_message@ == "ls-remote timed out after 60s"@,
        lost is Transient && lost->Transient_message@ == "ls-remote task join error: "@ + error@,
        POLL_TIMEOUT_SECS == 60,
        AGENT@ == "gcit"@,
{
}

/// A ref is known by its name, of whichever kind it is.
pub proof fn refs_are_known_by_their_names(listed: RemoteRef)
    ensures
        listed is Direct ==> listed.ref_name() == listed->Direct_full_ref_name@,
        listed is Peeled ==> listed.ref_name() == listed->Peeled_full_ref_name@,
        listed is Symbolic ==> listed.ref_name() == listed->Symbolic_full_ref_name@,
        listed is Unborn ==> listed.ref_name() == listed->Unborn_full_ref_name@,
{
}

/// A search finds the first ref of the name, whatever comes after it: an annotated tag by its own
/// id, any other by that of the object that it points at; and it finds none just where none has
/// the name.
pub proof fn searches_find_the_first_of_the_name(
    refs: Vec<RemoteRef>,
    ref_name: &str,
    r: FoundRef,
    i: int,
)
    requires
        call_ensures(find_ref, (&refs, ref_name), r),
        0 <= i < refs@.len(),
        refs@[i].ref_name() == encode_utf8(ref_name@),
        forall|j: int| 0 <= j < i ==> (#[trigger] refs@[j]).ref_name() != encode_utf8(ref_name@),
    ensures
        refs@[i] is Direct ==> r == FoundRef::Direct(refs@[i]->Direct_object),
        refs@[i] is Peeled ==> r == FoundRef::PeeledTag(refs@[i]->Peeled_tag),
        refs@[i] is Symbolic ==> r == FoundRef::Symbolic(refs@[i]->Symbolic_object),
        refs@[i] is Unborn ==> r is Unborn,
{
    first_ref_is_the_first(refs@, encode_utf8(ref_name@));
}

/// A search for a name that no ref has finds none.
pub proof fn searches_find_nothing_where_nothing_is(
    refs: Vec<RemoteRef>,
    ref_name: &str,
    r: FoundRef,
)
    requires
        call_ensures(find_ref, (&refs, ref_name), r),
    ensures
        r is NotPresent <==> forall|j: int|
            0 <= j < refs@.len() ==> (#[trigger] refs@[j]).ref_name() != encode_utf8(ref_name@),
{
    let name = encode_utf8(ref_name@);
    first_ref_is_the_first(refs@, name);
    if r is NotPresent {
        assert(first_ref(refs@, name) == refs@.len());
    }
}

/// A poll gives the id of whatever ref was found, and tells neither one that points at nothing
/// nor one that is not there from the other.
pub proof fn found_refs_are_polled_by_their_ids(found: FoundRef, r: PollOutcome)
    requires
        call_ensures(poll_outcome, (found,), r),
    ensures
        found is Direct ==> r == (PollOutcome::Refreshed { sha: found->Direct_0 }),
        found is PeeledTag ==> r == (PollOutcome::Refreshed { sha: found->PeeledTag_0 }),
        found is Symbolic ==> r == (PollOutcome::Refreshed { sha: found->Symbolic_0 }),
        found is Unborn || found is NotPresent ==> r is UnbornRef,
{
}

/// A poll of a name goes by the first ref of that name, and a name that no ref has is told as
/// missing, with how many refs there are.
pub proof fn polls_go_by_the_first_of_the_name(
    refs: Vec<RemoteRef>,
    ref_name: &str,
    r: ListedPoll,
    i: int,
)
    requires
        call_ensures(poll_listed, (&refs, ref_name), r),
    ensures
        ({
            let name = encode_utf8(ref_name@);
            let first = 0 <= i < refs@.len() && refs@[i].ref_name() == name && forall|j: int|
                0 <= j < i ==> (#[trigger] refs@[j]).ref_name() != name;
            &&& first && refs@[i] is Direct ==> r.outcome == (PollOutcome::Refreshed {
                sha: refs@[i]->Direct_object,
            })
            &&& first && refs@[i] is Peeled ==> r.outcome == (PollOutcome::Refreshed {
                sha: refs@[i]->Peeled_tag,
            })
            &&& first && refs@[i] is Symbolic ==> r.outcome == (PollOutcome::Refreshed {
                sha: refs@[i]->Symbolic_object,
            })
            &&& first && refs@[i] is Unborn ==> r.outcome is UnbornRef
            &&& first ==> r.missing_among is None
            &&& (forall|j: int| 0 <= j < refs@.len() ==> (#[trigger] refs@[j]).ref_name() != name)
                ==> r.outcome is UnbornRef && r.missing_among == Some(refs.len())
        }),
{
    first_ref_is_the_first(refs@, encode_utf8(ref_name@));
}

/// A remote that cannot be connected to may be reached the next time, unless its URL is at fault.
pub proof fn faults_of_the_url_stay(
    why: ConnectFailure,
    url: &str,
    error: &str,
    r: LsRemoteError,
)
    requires
        call_ensures(classify_connect_error, (why, url, error), r),
    ensures
        r is Transient <==> why is Connection || why is Other,
        r is Transient ==> r->Transient_message@ == "connect to "@ + debug_quoted(url@) + ": "@
            + error@,
        r is Permanent ==> r->Permanent_message@ == "connect to "@ + debug_quoted(url@) + ": "@
            + error@,
{
}

/// A remote that does not agree to talk may agree the next time only where the connection failed
/// or what came over it made no sense.
pub proof fn faults_of_credentials_and_protocol_stay(
    why: HandshakeFailure,
    url: &str,
    error: &str,
    r: LsRemoteError,
)
    requires
        call_ensures(classify_handshake_error, (why, url, error), r),
    ensures
        r is Transient <==> why is Transport || why is ParseRefs,
        ({
            let said = debug_quoted(url@) + ": "@ + error@;
            &&& why is Transport ==> r->Transient_message@
                == "transport failure during handshake to "@ + said
            &&& why is ParseRefs ==> r->Transient_message@ == "ref parsing during handshake to "@
                + said
            &&& why is InvalidCredentials ==> r->Permanent_message@ == "invalid credentials for "@
                + said
            &&& why is TransportProtocolPolicyViolation ==> r->Permanent_message@
                == "server rejected protocol version for "@ + said
            &&& why is Credentials || why is EmptyCredentials ==> r->Permanent_message@
                == "credential helper failure for "@ + said
        }),
{
    let (q, colon, e) = (debug_quoted(url@), ": "@, error@);
    assert("transport failure during handshake to "@ + q + colon + e
        =~= "transport failure during handshake to "@ + (q + colon + e));
    assert("ref parsing during handshake to "@ + q + colon + e
        =~= "ref parsing during handshake to "@ + (q + colon + e));
    assert("invalid credentials for "@ + q + colon + e =~= "invalid credentials for "@ + (q + colon
        + e));
    assert("server rejected protocol version for "@ + q + colon + e
        =~= "server rejected protocol version for "@ + (q + colon + e));
    assert("credential helper failure for "@ + q + colon + e =~= "credential helper failure for "@
        + (q + colon + e));
}

/// A remote that does not list its refs may list them the next time, unless it answered what
/// makes no sense or does not take the arguments.
pub proof fn faults_of_the_listing_stay(
    why: LsRefsFailure,
    url: &str,
    error: &str,
    r: LsRemoteError,
)
    requires
        call_ensures(classify_ls_refs_error, (why, url, error), r),
    ensures
        r is Permanent <==> why is Parse || why is ArgumentValidation,
        ({
            let said = debug_quoted(url@) + ": "@ + error@;
            &&& why is Io || why is Transport ==> r->Transient_message@
                == "ls-refs IO/transport for "@ + said
            &&& why is Parse || why is ArgumentValidation ==> r->Permanent_message@
                == "ls-refs parse/validation for "@ + said
            &&& why is Other ==> r->Transient_message@ == "unknown ls-refs error for "@ + said
        }),
{
    let (q, colon, e) = (debug_quoted(url@), ": "@, error@);
    assert("ls-refs IO/transport for "@ + q + colon + e =~= "ls-refs IO/transport for "@ + (q
        + colon + e));
    assert("ls-refs parse/validation for "@ + q + colon + e =~= "ls-refs parse/validation for "@
        + (q + colon + e));
    assert("unknown ls-refs error for "@ + q + colon + e =~= "unknown ls-refs error for "@ + (q
        + colon + e));
}

/// Refs that a remote lists are polled, and one that does not list them is reported.
pub proof fn listings_are_polled_or_reported(
    listed: Result<Vec<RemoteRef>, (LsRefsFailure, String)>,
    url: &str,
    ref_name: &str,
    r: Result<ListedPoll, LsRemoteError>,
    error: &str,
    polled: ListedPoll,
    reported: LsRemoteError,
)
    requires
        call_ensures(after_listing, (listed, url, ref_name), r),
        listed is Ok ==> call_ensures(poll_listed, (&listed->Ok_0, ref_name), polled),
        listed is Err ==> error@ == listed->Err_0.1@ && call_ensures(
            classify_ls_refs_error,
            (listed->Err_0.0, url, error),
            reported,
        ),
    ensures
        r is Ok <==> listed is Ok,
        r is Ok ==> r->Ok_0 == polled,
        r is Err ==> r->Err_0@ == reported@ && (r->Err_0 is Permanent <==> reported is Permanent),
{
}

/// A remote that agrees to talk is asked for its refs just where it did not send them along; refs
/// that it sent are polled as listed ones are; and one that does not agree is reported.
pub proof fn refs_that_were_sent_are_not_asked_for(
    agreed: Result<Option<Vec<RemoteRef>>, (HandshakeFailure, String)>,
    url: &str,
    ref_name: &str,
    r: AfterHandshake,
    error: &str,
    polled: ListedPoll,
    reported: LsRemoteError,
)
    requires
        call_ensures(after_handshake, (agreed, url, ref_name), r),
        agreed is Ok && agreed->Ok_0 is Some ==> call_ensures(
            poll_listed,
            (&agreed->Ok_0->0, ref_name),
            polled,
        ),
        agreed is Err ==> error@ == agreed->Err_0.1@ && call_ensures(
            classify_handshake_error,
            (agreed->Err_0.0, url, error),
            reported,
        ),
    ensures
        r is ListRefs <==> agreed is Ok && agreed->Ok_0 is None,
        agreed is Ok && agreed->Ok_0 is Some ==> r is Ended && r->Ended_0 is Ok && r->Ended_0->Ok_0
            == polled,
        agreed is Err ==> r is Ended && r->Ended_0 is Err && r->Ended_0->Err_0@ == reported@ && (
        r->Ended_0->Err_0 is Permanent <==> reported is Permanent),
{
}

} // verus!
