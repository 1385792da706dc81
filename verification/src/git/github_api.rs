//! Polling one ref over the GitHub API.
use vstd::prelude::*;
use vstd::utf8::encode_utf8;

use crate::git::PollOutcome;
use crate::object_id::{decoded, hex_error_text, is_object_hex, ObjectId};
use crate::text::{
    after_prefix, contains_ignoring_ascii_case, debug_quoted, decimal, decimal_text, glue,
    has_prefix, occurs_in, quoted,
};

verus! {

/// Why polling over the GitHub API failed.
#[derive(Debug)]
pub enum GithubError {
    /// It will not work at the next try either.
    Permanent { message: String },
    /// It may work at the next try.
    Transient { message: String },
    /// The API cannot be asked for such a ref.
    InvalidRef { ref_name: String, message: String },
}

/// Why polling over the GitHub API failed, over the views of texts.
pub ghost enum ErrorView {
    Permanent(Seq<char>),
    Transient(Seq<char>),
    InvalidRef(Seq<char>, Seq<char>),
}

impl View for GithubError {
    type V = ErrorView;

    open spec fn view(&self) -> ErrorView {
        match self {
            GithubError::Permanent { message } => ErrorView::Permanent(message@),
            GithubError::Transient { message } => ErrorView::Transient(message@),
            GithubError::InvalidRef { ref_name, message } => ErrorView::InvalidRef(
                ref_name@,
                message@,
            ),
        }
    }
}

impl GithubError {
    /// What the error says.
    pub fn to_text(&self) -> (r: String)
        ensures
            r@ == match self@ {
                ErrorView::Permanent(m) => "permanent: "@ + m,
                ErrorView::Transient(m) => "transient: "@ + m,
                ErrorView::InvalidRef(n, m) => "invalid ref `"@ + n + "`: "@ + m,
            },
    {
        match self {
            GithubError::Permanent { message } => glue("permanent: ", message.as_str()),
            GithubError::Transient { message } => glue("transient: ", message.as_str()),
            GithubError::InvalidRef { ref_name, message } => {
                let mut m: String = glue("invalid ref `", ref_name.as_str());
                m.append("`: ");
                m.append(message.as_str());
                m
            },
        }
    }
}

/// A ref that the API can be asked for.
#[derive(Debug)]
pub enum Reference {
    Branch(String),
    Tag(String),
}

/// A ref that the API can be asked for, over the views of texts.
pub ghost enum ReferenceView {
    Branch(Seq<char>),
    Tag(Seq<char>),
}

impl View for Reference {
    type V = ReferenceView;

    open spec fn view(&self) -> ReferenceView {
        match self {
            Reference::Branch(b) => ReferenceView::Branch(b@),
            Reference::Tag(t) => ReferenceView::Tag(t@),
        }
    }
}

/// The branch or tag whose full name is `ref_name`.
pub open spec fn reference_named(ref_name: Seq<char>) -> Result<ReferenceView, ErrorView> {
    if has_prefix(ref_name, "refs/heads/"@) {
        let name = ref_name.skip("refs/heads/"@.len() as int);
        if name.len() == 0 {
            Err(
                ErrorView::InvalidRef(
                    ref_name,
                    "branch name is empty after stripping refs/heads/"@,
                ),
            )
        } else {
            Ok(ReferenceView::Branch(name))
        }
    } else if has_prefix(ref_name, "refs/tags/"@) {
        let name = ref_name.skip("refs/tags/"@.len() as int);
        if name.len() == 0 {
            Err(
                ErrorView::InvalidRef(ref_name, "tag name is empty after stripping refs/tags/"@),
            )
        } else {
            Ok(ReferenceView::Tag(name))
        }
    } else {
        Err(
            ErrorView::InvalidRef(
                ref_name,
                "octocrab get_ref only supports refs/heads/* and refs/tags/* — pass the full ref path with one of those prefixes"@,
            ),
        )
    }
}

/// The branch or tag whose full name is `ref_name`.
pub fn ref_to_reference(ref_name: &str) -> (r: Result<Reference, GithubError>)
    ensures
        match r {
            Ok(v) => reference_named(ref_name@) == Ok::<ReferenceView, ErrorView>(v@),
            Err(e) => reference_named(ref_name@) == Err::<ReferenceView, ErrorView>(e@),
        },
{
    match after_prefix(ref_name, "refs/heads/") {
        Some(branch) => {
            if branch.is_empty() {
                return Err(
                    GithubError::InvalidRef {
                        ref_name: ref_name.to_string(),
                        message: "branch name is empty after stripping refs/heads/".to_string(),
                    },
                );
            }
            return Ok(Reference::Branch(branch.to_string()));
        },
        None => {},
    }
    match after_prefix(ref_name, "refs/tags/") {
        Some(tag) => {
            if tag.is_empty() {
                return Err(
                    GithubError::InvalidRef {
                        ref_name: ref_name.to_string(),
                        message: "tag name is empty after stripping refs/tags/".to_string(),
                    },
                );
            }
            Ok(Reference::Tag(tag.to_string()))
        },
        None => Err(
            GithubError::InvalidRef {
                ref_name: ref_name.to_string(),
                message:
                    "octocrab get_ref only supports refs/heads/* and refs/tags/* — pass the full ref path with one of those prefixes".to_string(),
            },
        ),
    }
}

/// The full name of a branch or tag.
pub open spec fn full_name(reference: ReferenceView) -> Seq<char> {
    match reference {
        ReferenceView::Branch(b) => "refs/heads/"@ + b,
        ReferenceView::Tag(t) => "refs/tags/"@ + t,
    }
}

/// A branch or tag is found under its own full name, and under no other.
pub proof fn references_have_their_full_names(ref_name: Seq<char>, reference: ReferenceView)
    requires
        match reference {
            ReferenceView::Branch(b) => b.len() > 0,
            ReferenceView::Tag(t) => t.len() > 0,
        },
    ensures
        reference_named(ref_name) == Ok::<ReferenceView, ErrorView>(reference) <==> ref_name
            == full_name(reference),
{
    reveal_strlit("refs/heads/");
    reveal_strlit("refs/tags/");
    let (heads, tags) = ("refs/heads/"@, "refs/tags/"@);
    if ref_name == full_name(reference) {
        match reference {
            ReferenceView::Branch(b) => {
                assert(ref_name.take(heads.len() as int) =~= heads);
                assert(ref_name.skip(heads.len() as int) =~= b);
            },
            ReferenceView::Tag(t) => {
                assert(ref_name.take(tags.len() as int) =~= tags);
                assert(ref_name.skip(tags.len() as int) =~= t);
                assert(ref_name[5] == 't');
                if has_prefix(ref_name, heads) {
                    assert(ref_name.take(heads.len() as int)[5] == heads[5]);
                    assert(heads[5] == 'h');
                }
            },
        }
    }
    if reference_named(ref_name) == Ok::<ReferenceView, ErrorView>(reference) {
        if has_prefix(ref_name, heads) {
            assert(ref_name =~= heads + ref_name.skip(heads.len() as int));
        } else {
            assert(ref_name =~= tags + ref_name.skip(tags.len() as int));
        }
    }
}

/// What an error answer of GitHub is reported as.
pub open spec fn status_report(status: u16, message: Seq<char>) -> ErrorView {
    if status == 404 {
        ErrorView::Permanent("ref not found: "@ + message)
    } else if status == 429 {
        ErrorView::Transient("rate-limited (429): "@ + message)
    } else if status == 403 {
        if occurs_in(message, "rate limit"@) {
            ErrorView::Transient("rate-limited (403): "@ + message)
        } else {
            ErrorView::Permanent(
                "github 403 (permission denied): "@ + message
                    + " — verify the PAT has `Actions: read+write` for the target repo"@,
            )
        }
    } else if 500 <= status < 600 {
        ErrorView::Transient("github 5xx: "@ + decimal_text(status as nat) + " "@ + message)
    } else {
        ErrorView::Permanent("github "@ + decimal_text(status as nat) + ": "@ + message)
    }
}

/// What an error answer of GitHub is reported as.
pub fn classify_status(status: u16, message: &str) -> (r: GithubError)
    ensures
        r@ == status_report(status, message@),
{
    if status == 404 {
        return GithubError::Permanent { message: glue("ref not found: ", message) };
    }
    if status == 429 {
        return GithubError::Transient { message: glue("rate-limited (429): ", message) };
    }
    if status == 403 {
        if contains_ignoring_ascii_case(message, "rate limit") {
            return GithubError::Transient { message: glue("rate-limited (403): ", message) };
        }
        let mut m: String = glue("github 403 (permission denied): ", message);
        m.append(" — verify the PAT has `Actions: read+write` for the target repo");
        return GithubError::Permanent { message: m };
    }
    if 500 <= status && status < 600 {
        let mut m: String = glue("github 5xx: ", decimal(status as u64).as_str());
        m.append(" ");
        m.append(message);
        return GithubError::Transient { message: m };
    }
    let mut m: String = glue("github ", decimal(status as u64).as_str());
    m.append(": ");
    m.append(message);
    GithubError::Permanent { message: m }
}

/// Why the API gave no ref.
#[derive(Debug)]
pub enum ApiFailure {
    /// GitHub answered with an error.
    Answer { status: u16, message: String },
    /// GitHub did not answer, or not in a way that makes sense.
    Transport { message: String },
}

/// What a failure is reported as.
pub open spec fn failure_report(failure: ApiFailure) -> ErrorView {
    match failure {
        ApiFailure::Answer { status, message } => status_report(status, message@),
        ApiFailure::Transport { message } => ErrorView::Transient(
            "transport error: "@ + message@,
        ),
    }
}

/// What a failure is reported as.
pub fn classify_error(failure: &ApiFailure) -> (r: GithubError)
    ensures
        r@ == failure_report(*failure),
{
    match failure {
        ApiFailure::Answer { status, message } => classify_status(*status, message.as_str()),
        ApiFailure::Transport { message } => GithubError::Transient {
            message: glue("transport error: ", message.as_str()),
        },
    }
}

/// The object that a ref points at.
#[derive(Debug)]
pub enum RefObject {
    Commit { sha: String },
    Tag { sha: String },
    /// Something that is neither.
    Other,
}

/// What a poll of `ref_name` came to, given what the API gave.
pub open spec fn poll_report(
    ref_name: Seq<char>,
    answer: Result<RefObject, ApiFailure>,
) -> Result<PollView, ErrorView> {
    match answer {
        Err(failure) => if failure matches ApiFailure::Answer { status, .. } && status == 404 {
            Ok(PollView::UnbornRef)
        } else {
            Err(failure_report(failure))
        },
        Ok(RefObject::Other) => Err(
            ErrorView::Permanent(
                "unrecognised ref object type for "@ + ref_name
                    + "; gcit only handles commit + tag"@,
            ),
        ),
        Ok(RefObject::Commit { sha }) => sha_report(sha@),
        Ok(RefObject::Tag { sha }) => sha_report(sha@),
    }
}

/// What a poll came to, given the id that the API gave.
pub open spec fn sha_report(sha: Seq<char>) -> Result<PollView, ErrorView> {
    let hex = encode_utf8(sha);
    if is_object_hex(hex) {
        Ok(PollView::Refreshed(decoded(hex)))
    } else {
        Err(
            ErrorView::Permanent(
                "could not parse SHA "@ + debug_quoted(sha) + " from GitHub: "@ + hex_error_text(
                    hex,
                ),
            ),
        )
    }
}

/// What a poll came to, over the bytes of ids.
pub ghost enum PollView {
    Refreshed(Seq<u8>),
    UnbornRef,
    Unchanged,
}

/// What a poll came to, over the bytes of ids.
pub open spec fn poll_view(outcome: PollOutcome) -> PollView {
    match outcome {
        PollOutcome::Refreshed { sha } => PollView::Refreshed(sha@),
        PollOutcome::UnbornRef => PollView::UnbornRef,
        PollOutcome::Unchanged => PollView::Unchanged,
    }
}

/// What a poll came to, over the bytes of ids and the views of texts.
pub open spec fn poll_result(r: Result<PollOutcome, GithubError>) -> Result<PollView, ErrorView> {
    match r {
        Ok(o) => Ok(poll_view(o)),
        Err(e) => Err(e@),
    }
}

/// What a poll came to, given the id that the API gave.
fn outcome_of_sha(sha: &str) -> (r: Result<PollOutcome, GithubError>)
    ensures
        poll_result(r) == sha_report(sha@),
{
    match ObjectId::from_hex(sha.as_bytes()) {
        Ok(id) => Ok(PollOutcome::Refreshed { sha: id }),
        Err(e) => {
            let mut m: String = glue("could not parse SHA ", quoted(sha).as_str());
            m.append(" from GitHub: ");
            m.append(e.as_str());
            Err(GithubError::Permanent { message: m })
        },
    }
}

/// What a poll of `ref_name` came to, given what the API gave. A ref that is not there is no
/// failure.
pub fn poll_outcome(ref_name: &str, answer: Result<RefObject, ApiFailure>) -> (r: Result<
    PollOutcome,
    GithubError,
>)
    ensures
        poll_result(r) == poll_report(ref_name@, answer),
{
    match answer {
        Err(failure) => {
            match &failure {
                ApiFailure::Answer { status, .. } => {
                    if *status == 404 {
                        return Ok(PollOutcome::UnbornRef);
                    }
                },
                ApiFailure::Transport { .. } => {},
            }
            Err(classify_error(&failure))
        },
        Ok(object) => match object {
            RefObject::Commit { sha } => outcome_of_sha(sha.as_str()),
            RefObject::Tag { sha } => outcome_of_sha(sha.as_str()),
            RefObject::Other => {
                let mut m: String = glue("unrecognised ref object type for ", ref_name);
                m.append("; gcit only handles commit + tag");
                Err(GithubError::Permanent { message: m })
            },
        },
    }
}

/// An error answer is one to retry after just where it says that requests are limited (429, or
/// 403 with words to that effect) or that GitHub itself failed (5xx).
pub proof fn retried_statuses(status: u16, message: Seq<char>)
    ensures
        status_report(status, message) is Transient <==> status == 429 || 500 <= status < 600 || (
        status == 403 && occurs_in(message, "rate limit"@)),
        !(status_report(status, message) is InvalidRef),
{
}

/// The branches and tags that can be asked for, each by its full name, which is not lost; and
/// what is said of a ref that is neither.
pub proof fn only_branches_and_tags_can_be_asked_for(
    ref_name: &str,
    r: Result<Reference, GithubError>,
    name: Seq<char>,
)
    requires
        call_ensures(ref_to_reference, (ref_name,), r),
        name.len() > 0,
    ensures
        ref_name@ == "refs/heads/"@ + name ==> r is Ok && r->Ok_0 is Branch && r->Ok_0->Branch_0@
            == name,
        ref_name@ == "refs/tags/"@ + name ==> r is Ok && r->Ok_0 is Tag && r->Ok_0->Tag_0@ == name,
        r matches Ok(Reference::Branch(b)) ==> b@.len() > 0 && ref_name@ == "refs/heads/"@ + b@,
        r matches Ok(Reference::Tag(t)) ==> t@.len() > 0 && ref_name@ == "refs/tags/"@ + t@,
        r matches Err(e) ==> e is InvalidRef && e->ref_name@ == ref_name@,
        ref_name@ == "refs/heads/"@ ==> r is Err && r->Err_0->InvalidRef_message@
            == "branch name is empty after stripping refs/heads/"@,
        ref_name@ == "refs/tags/"@ ==> r is Err && r->Err_0->InvalidRef_message@
            == "tag name is empty after stripping refs/tags/"@,
        r is Err && ref_name@ != "refs/heads/"@ && ref_name@ != "refs/tags/"@
            ==> r->Err_0->InvalidRef_message@
            == "octocrab get_ref only supports refs/heads/* and refs/tags/* — pass the full ref path with one of those prefixes"@,
{
    reveal_strlit("refs/heads/");
    reveal_strlit("refs/tags/");
    let (full, heads, tags) = (ref_name@, "refs/heads/"@, "refs/tags/"@);
    references_have_their_full_names(full, ReferenceView::Branch(name));
    references_have_their_full_names(full, ReferenceView::Tag(name));
    if r is Ok {
        match r->Ok_0 {
            Reference::Branch(b) => {
                references_have_their_full_names(full, ReferenceView::Branch(b@));
            },
            Reference::Tag(t) => {
                references_have_their_full_names(full, ReferenceView::Tag(t@));
            },
        }
    }
    if full == heads {
        assert(full.take(heads.len() as int) =~= heads);
        assert(full.skip(heads.len() as int).len() == 0);
    }
    if full == tags {
        assert(full.take(tags.len() as int) =~= tags);
        assert(full.len() < heads.len());
        assert(full.skip(tags.len() as int).len() == 0);
    }
    if has_prefix(full, heads) && full.skip(heads.len() as int).len() == 0 {
        assert(full =~= heads);
    }
    if has_prefix(full, tags) && full.skip(tags.len() as int).len() == 0 {
        assert(full =~= tags);
    }
}

/// An error is told with what kind it is of and with what it says.
pub proof fn errors_tell_their_kind(e: GithubError, r: String)
    requires
        call_ensures(GithubError::to_text, (&e,), r),
    ensures
        e is Permanent ==> r@ == "permanent: "@ + e->Permanent_message@,
        e is Transient ==> r@ == "transient: "@ + e->Transient_message@,
        e is InvalidRef ==> r@ == "invalid ref `"@ + e->ref_name@ + "`: "@
            + e->InvalidRef_message@,
{
}

/// An error answer is worth another try just where requests are limited (429, or 403 with words
/// to that effect) or GitHub itself failed (5xx), and says what GitHub said.
pub proof fn answers_are_retried_where_it_helps(status: u16, message: &str, r: GithubError)
    requires
        call_ensures(classify_status, (status, message), r),
    ensures
        r is Transient <==> status == 429 || 500 <= status <= 599 || (status == 403 && occurs_in(
            message@,
            "rate limit"@,
        )),
        !(r is Transient) ==> r is Permanent,
        status == 404 ==> r->Permanent_message@ == "ref not found: "@ + message@,
        status == 429 ==> r->Transient_message@ == "rate-limited (429): "@ + message@,
        status == 403 && occurs_in(message@, "rate limit"@) ==> r->Transient_message@
            == "rate-limited (403): "@ + message@,
        status == 403 && !occurs_in(message@, "rate limit"@) ==> r->Permanent_message@
            == "github 403 (permission denied): "@ + message@
            + " — verify the PAT has `Actions: read+write` for the target repo"@,
        500 <= status <= 599 ==> r->Transient_message@ == "github 5xx: "@ + decimal_text(
            status as nat,
        ) + " "@ + message@,
        status != 404 && status != 429 && status != 403 && !(500 <= status <= 599)
            ==> r->Permanent_message@ == "github "@ + decimal_text(status as nat) + ": "@ + message@,
{
}

/// A failure without an answer is worth another try; one with an answer is judged by it.
pub proof fn failures_are_judged_by_their_answers(
    failure: ApiFailure,
    r: GithubError,
    message: &str,
    judged: GithubError,
)
    requires
        call_ensures(classify_error, (&failure,), r),
        failure is Answer ==> message@ == failure->Answer_message@ && call_ensures(
            classify_status,
            (failure->status, message),
            judged,
        ),
    ensures
        failure is Transport ==> r is Transient && r->Transient_message@ == "transport error: "@
            + failure->Transport_message@,
        failure is Answer ==> (r is Transient <==> failure->status == 429 || 500
            <= failure->status <= 599 || (failure->status == 403 && occurs_in(
            failure->Answer_message@,
            "rate limit"@,
        ))),
        !(r is Transient) ==> r is Permanent,
        failure is Answer && r is Transient ==> judged is Transient && r->Transient_message@
            == judged->Transient_message@,
        failure is Answer && r is Permanent ==> judged is Permanent && r->Permanent_message@
            == judged->Permanent_message@,
{
}

/// Of all the ways in which the API gives no ref, one is no failure of the poll: the answer 404
/// says that there is no such ref. Each other one is reported, just as it is judged by itself:
/// as worth another try where nothing answered, where requests are limited and where GitHub
/// itself failed.
pub proof fn only_a_missing_ref_is_unborn(
    ref_name: &str,
    failure: ApiFailure,
    r: Result<PollOutcome, GithubError>,
    judged: GithubError,
)
    requires
        call_ensures(poll_outcome, (ref_name, Err(failure)), r),
        call_ensures(classify_error, (&failure,), judged),
    ensures
        r is Ok <==> failure is Answer && failure->status == 404,
        r matches Ok(o) ==> o is UnbornRef,
        r matches Err(e) ==> {
            &&& e is Transient <==> failure is Transport || failure->status == 429 || 500
                <= failure->status <= 599 || (failure->status == 403 && occurs_in(
                failure->Answer_message@,
                "rate limit"@,
            ))
            &&& !(e is Transient) ==> e is Permanent
            &&& e is Transient ==> judged is Transient && e->Transient_message@
                == judged->Transient_message@
            &&& e is Permanent ==> judged is Permanent && e->Permanent_message@
                == judged->Permanent_message@
        },
{
}

/// A ref that points at a commit or a tag is polled by the id that the API gave, where it is
/// one; and an object that is neither is an error that stays.
pub proof fn refs_are_polled_by_their_ids(
    ref_name: &str,
    object: RefObject,
    r: Result<PollOutcome, GithubError>,
)
    requires
        call_ensures(poll_outcome, (ref_name, Ok(object)), r),
    ensures
        ({
            let sha = if object is Commit {
                object->Commit_sha@
            } else {
                object->Tag_sha@
            };
            let hex = encode_utf8(sha);
            &&& object is Other ==> r is Err && r->Err_0 is Permanent
                && r->Err_0->Permanent_message@ == "unrecognised ref object type for "@
                + ref_name@ + "; gcit only handles commit + tag"@
            &&& !(object is Other) ==> (r is Ok <==> is_object_hex(hex))
            &&& r matches Ok(o) ==> o is Refreshed && o->sha.bytes@ == decoded(hex)
            &&& !(object is Other) && r is Err ==> r->Err_0 is Permanent
                && r->Err_0->Permanent_message@ == "could not parse SHA "@ + debug_quoted(sha)
                + " from GitHub: "@ + hex_error_text(hex)
        }),
{
}

} // verus!
