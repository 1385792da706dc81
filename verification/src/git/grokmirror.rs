//! Polling through the manifest that a grokmirror host publishes of its repositories.
use vstd::prelude::*;

use crate::git::remote_url::{parse_url, parsed_url, RemoteUrl};
use crate::names::NameMap;
use crate::text::{
    debug_quoted, decimal, decimal_text, glue, quoted, same_text, to_chars, trim_end_of,
    trimmed_end,
};

verus! {

/// The most bytes that a manifest may unpack to.
pub const MAX_DECOMPRESSED_BYTES: u64 = 16_777_216;

/// The most bytes that a packed manifest may have.
pub const MAX_COMPRESSED_BYTES: u64 = 67_108_864;

/// How long the fetching of a manifest may take, in seconds.
pub const POLL_TIMEOUT_SECS: u64 = 60;

/// Why polling through a manifest failed.
#[derive(Debug)]
pub enum GrokmirrorError {
    /// It may work at the next try.
    Transient { message: String },
    /// The manifest does not list the repository.
    RepoNotInManifest { repo_path: String },
    /// It will not work at the next try either.
    Permanent { message: String },
}

/// Why polling through a manifest failed, over the views of texts.
pub ghost enum ErrorView {
    Transient(Seq<char>),
    RepoNotInManifest(Seq<char>),
    Permanent(Seq<char>),
}

impl View for GrokmirrorError {
    type V = ErrorView;

    open spec fn view(&self) -> ErrorView {
        match self {
            GrokmirrorError::Transient { message } => ErrorView::Transient(message@),
            GrokmirrorError::RepoNotInManifest { repo_path } => ErrorView::RepoNotInManifest(
                repo_path@,
            ),
            GrokmirrorError::Permanent { message } => ErrorView::Permanent(message@),
        }
    }
}

impl GrokmirrorError {
    /// What the error says.
    pub fn to_text(&self) -> (r: String)
        ensures
            r@ == match self@ {
                ErrorView::Transient(m) => "transient: "@ + m,
                ErrorView::RepoNotInManifest(p) => "repo `"@ + p + "` not present in manifest"@,
                ErrorView::Permanent(m) => "permanent: "@ + m,
            },
    {
        match self {
            GrokmirrorError::Transient { message } => glue("transient: ", message.as_str()),
            GrokmirrorError::RepoNotInManifest { repo_path } => {
                let mut m: String = glue("repo `", repo_path.as_str());
                m.append("` not present in manifest");
                m
            },
            GrokmirrorError::Permanent { message } => glue("permanent: ", message.as_str()),
        }
    }
}

/// What a manifest says of one repository.
#[derive(Debug)]
pub struct RepoEntry {
    /// A text that changes whenever a ref of the repository moves.
    pub fingerprint: String,
    /// When the repository was last modified, in seconds since 1970-01-01T00:00:00Z.
    pub modified: Option<u64>,
}

/// What a host says of its repositories, by their paths on the host.
pub type Manifest = NameMap<RepoEntry>;

/// The URL of the manifest of the host at `base_url`.
pub fn build_manifest_url(base_url: &str) -> (r: String)
    ensures
        r@ == manifest_url(base_url@),
{
    let slash: [char; 1] = ['/'];
    proof {
        assert(slash@ =~= seq!['/']);
    }
    glue(trim_end_of(base_url, &slash), "/manifest.js.gz")
}

/// The URL of the manifest of the host at `base_url`.
pub open spec fn manifest_url(base_url: Seq<char>) -> Seq<char> {
    trimmed_end(base_url, seq!['/']) + "/manifest.js.gz"@
}

/// A slash behind the host's URL makes no difference to the URL of its manifest.
pub proof fn trailing_slash_makes_no_difference(base_url: Seq<char>)
    ensures
        manifest_url(base_url.push('/')) == manifest_url(base_url),
{
    let longer = base_url.push('/');
    assert(longer.drop_last() =~= base_url);
    assert(seq!['/'][0] == '/');
}

/// What is reported of a manifest that could not be fetched in time.
pub fn fetch_timeout_error(url: &str) -> (r: GrokmirrorError)
    ensures
        r@ == ErrorView::Transient("manifest fetch timed out after 60s: "@ + url@),
{
    GrokmirrorError::Transient { message: glue("manifest fetch timed out after 60s: ", url) }
}

/// What is reported of a manifest that could not be asked for.
pub fn request_error(url: &str, error: &str) -> (r: GrokmirrorError)
    ensures
        r@ == ErrorView::Transient("HTTP request to "@ + url@ + ": "@ + error@),
{
    let mut m: String = glue("HTTP request to ", url);
    m.append(": ");
    m.append(error);
    GrokmirrorError::Transient { message: m }
}

/// What is reported of a manifest whose bytes stopped coming.
pub fn chunk_error(error: &str) -> (r: GrokmirrorError)
    ensures
        r@ == ErrorView::Transient("read manifest body chunk: "@ + error@),
{
    GrokmirrorError::Transient { message: glue("read manifest body chunk: ", error) }
}

/// The usual words for an HTTP status, where there are any.
pub uninterp spec fn reason_phrase(status: u16) -> Option<Seq<char>>;

/// The usual words for an HTTP status, from `http::StatusCode::canonical_reason`; none for a
/// number that `http::StatusCode::from_u16` takes for no status. Claimed of them: the words
/// are a function of the number. The words themselves are left unsaid.
#[verifier::external_body]
fn canonical_reason(status: u16) -> (r: Option<&'static str>)
    ensures
        match r {
            Some(words) => reason_phrase(status) == Some(words@),
            None => reason_phrase(status) is None,
        },
{
    http::StatusCode::from_u16(status).ok().and_then(|s| s.canonical_reason())
}

/// What is reported of the status of an answer, given the usual words for it.
pub open spec fn status_report(status: u16, words: Option<Seq<char>>) -> Result<(), ErrorView> {
    let text = "manifest fetch returned "@ + decimal_text(status as nat) + " "@ + match words {
        Some(w) => w,
        None => ""@,
    };
    if 200 <= status < 300 {
        Ok(())
    } else if 500 <= status < 600 {
        Err(ErrorView::Transient(text))
    } else {
        Err(ErrorView::Permanent(text))
    }
}

/// Whether an answer with this status holds a manifest, or what is reported of it, given the
/// usual words for the status.
pub fn judge_status(status: u16, words: Option<&str>) -> (r: Result<(), GrokmirrorError>)
    ensures
        match r {
            Ok(_) => status_report(
                status,
                match words {
                    Some(w) => Some(w@),
                    None => None,
                },
            ) is Ok,
            Err(e) => status_report(
                status,
                match words {
                    Some(w) => Some(w@),
                    None => None,
                },
            ) == Err::<(), ErrorView>(e@),
        },
{
    if 200 <= status && status < 300 {
        return Ok(());
    }
    let mut m: String = glue("manifest fetch returned ", decimal(status as u64).as_str());
    m.append(" ");
    match words {
        Some(w) => {
            m.append(w);
        },
        None => {
            m.append("");
        },
    }
    if 500 <= status && status < 600 {
        Err(GrokmirrorError::Transient { message: m })
    } else {
        Err(GrokmirrorError::Permanent { message: m })
    }
}

/// Whether an answer with this status holds a manifest, or what is reported of it.
pub fn check_status(status: u16) -> (r: Result<(), GrokmirrorError>)
    ensures
        match r {
            Ok(_) => status_report(status, reason_phrase(status)) is Ok,
            Err(e) => status_report(status, reason_phrase(status)) == Err::<(), ErrorView>(e@),
        },
{
    judge_status(status, canonical_reason(status))
}

/// Whether a manifest whose packed length is announced as `length` may be read, or what is
/// reported of it.
pub fn check_content_length(length: Option<u64>) -> (r: Result<(), GrokmirrorError>)
    ensures
        r is Ok <==> (length matches Some(n) ==> n <= 67_108_864),
        r matches Err(e) ==> e@ == ErrorView::Permanent(
            "manifest Content-Length "@ + decimal_text(length->0 as nat) + " exceeds cap of "@
                + decimal_text(67_108_864),
        ),
{
    match length {
        Some(n) => {
            if n > MAX_COMPRESSED_BYTES {
                let mut m: String = glue("manifest Content-Length ", decimal(n).as_str());
                m.append(" exceeds cap of ");
                m.append(decimal(MAX_COMPRESSED_BYTES).as_str());
                Err(GrokmirrorError::Permanent { message: m })
            } else {
                Ok(())
            }
        },
        None => Ok(()),
    }
}

/// The bytes of a packed manifest that have come so far.
pub struct Body {
    bytes: Vec<u8>,
}

impl View for Body {
    type V = Seq<u8>;

    closed spec fn view(&self) -> Seq<u8> {
        self.bytes@
    }
}

impl Body {
    #[verifier::type_invariant]
    closed spec fn within_cap(self) -> bool {
        self.bytes@.len() <= 67_108_864
    }

    /// A body of which nothing has come.
    pub fn new() -> (r: Body)
        ensures
            r@ == Seq::<u8>::empty(),
    {
        Body { bytes: Vec::new() }
    }

    /// Puts `chunk` behind the bytes that have come, unless there would be too many of them.
    pub fn push_chunk(self, chunk: &[u8]) -> (r: Result<Body, GrokmirrorError>)
        ensures
            r is Ok <==> self@.len() + chunk@.len() <= 67_108_864,
            r matches Ok(b) ==> b@ == self@ + chunk@,
            r matches Err(e) ==> e@ == ErrorView::Permanent(
                "manifest body exceeded cap of "@ + decimal_text(67_108_864)
                    + " bytes during stream read"@,
            ),
    {
        proof {
            use_type_invariant(&self);
        }
        let total: u64 = (self.bytes.len() as u64).saturating_add(chunk.len() as u64);
        if total > MAX_COMPRESSED_BYTES {
            let mut m: String = glue(
                "manifest body exceeded cap of ",
                decimal(MAX_COMPRESSED_BYTES).as_str(),
            );
            m.append(" bytes during stream read");
            return Err(GrokmirrorError::Permanent { message: m });
        }
        let mut bytes: Vec<u8> = self.bytes;
        let mut i: usize = 0;
        while i < chunk.len()
            invariant
                i <= chunk@.len(),
                bytes@ == self@ + chunk@.take(i as int),
            decreases chunk@.len() - i,
        {
            bytes.push(chunk[i]);
            proof {
                assert(chunk@.take(i + 1) =~= chunk@.take(i as int).push(chunk@[i as int]));
            }
            i += 1;
        }
        assert(chunk@.take(chunk@.len() as int) =~= chunk@);
        Ok(Body { bytes })
    }

    /// The bytes that have come: never more than the most that a packed manifest may have.
    pub fn into_bytes(self) -> (r: Vec<u8>)
        ensures
            r@ == self@,
            r@.len() <= 67_108_864,
    {
        proof {
            use_type_invariant(&self);
        }
        self.bytes
    }
}

/// What is reported of an answer before its body is read, given the usual words for its status:
/// first of the status, then of the announced length.
pub open spec fn head_report(
    status: u16,
    words: Option<Seq<char>>,
    length: Option<u64>,
) -> Result<(), ErrorView> {
    match status_report(status, words) {
        Err(e) => Err(e),
        Ok(_) => match length {
            Some(n) => if n > 67_108_864 {
                Err(
                    ErrorView::Permanent(
                        "manifest Content-Length "@ + decimal_text(n as nat) + " exceeds cap of "@
                            + decimal_text(67_108_864),
                    ),
                )
            } else {
                Ok(())
            },
            None => Ok(()),
        },
    }
}

/// A body to read an answer's bytes into, or what is reported of the answer before they are
/// read, by its status and the length that it announces.
pub fn begin_body(status: u16, length: Option<u64>) -> (r: Result<Body, GrokmirrorError>)
    ensures
        match r {
            Ok(b) => head_report(status, reason_phrase(status), length) is Ok && b@ == Seq::<
                u8,
            >::empty(),
            Err(e) => head_report(status, reason_phrase(status), length) == Err::<(), ErrorView>(
                e@,
            ),
        },
{
    match check_status(status) {
        Err(e) => Err(e),
        Ok(_) => match check_content_length(length) {
            Err(e) => Err(e),
            Ok(_) => Ok(Body::new()),
        },
    }
}

/// What unpacking at most `limit` bytes of a gzip member gives, or what is wrong with it.
pub uninterp spec fn gunzipped(packed: Seq<u8>, limit: u64) -> Result<Seq<u8>, Seq<char>>;

/// The bytes, or the complaint, that unpacking came to.
pub open spec fn unpacked_view(r: Result<Vec<u8>, String>) -> Result<Seq<u8>, Seq<char>> {
    match r {
        Ok(b) => Ok(b@),
        Err(e) => Err(e@),
    }
}

/// Unpacks at most `limit` bytes with `flate2::read::GzDecoder`, read to its end through
/// `std::io::Read::take`. Claimed of it: the bytes, or the text of the error, are a function
/// of the packed bytes and the limit, and the bytes are at most as many as the limit says.
/// What they are is left unsaid.
#[verifier::external_body]
fn gunzip(packed: &[u8], limit: u64) -> (r: Result<Vec<u8>, String>)
    ensures
        unpacked_view(r) == gunzipped(packed@, limit),
        r matches Ok(b) ==> b@.len() <= limit,
{
    let mut out = Vec::new();
    let mut reader = std::io::Read::take(flate2::read::GzDecoder::new(packed), limit);
    match std::io::Read::read_to_end(&mut reader, &mut out) {
        Ok(_) => Ok(out),
        Err(e) => Err(e.to_string()),
    }
}

/// The text of a manifest, or what is reported of it, given what unpacking one byte more than
/// a manifest may have came to.
pub open spec fn manifest_text(unpacked: Result<Seq<u8>, Seq<char>>) -> Result<Seq<u8>, ErrorView> {
    match unpacked {
        Err(e) => Err(ErrorView::Permanent("manifest decompression failed: "@ + e)),
        Ok(b) => if b.len() > 16_777_216 {
            Err(
                ErrorView::Permanent(
                    "manifest decompressed to over "@ + decimal_text(16_777_216)
                        + " bytes; rejecting as potentially hostile"@,
                ),
            )
        } else {
            Ok(b)
        },
    }
}

/// The view of a manifest's text, or of what is reported of it.
pub open spec fn text_or_error(r: Result<Vec<u8>, GrokmirrorError>) -> Result<Seq<u8>, ErrorView> {
    match r {
        Ok(b) => Ok(b@),
        Err(e) => Err(e@),
    }
}

/// The text of a manifest, or what is reported of it, given what unpacking one byte more than
/// a manifest may have came to.
pub fn judge_unpacked(unpacked: Result<Vec<u8>, String>) -> (r: Result<Vec<u8>, GrokmirrorError>)
    ensures
        text_or_error(r) == manifest_text(unpacked_view(unpacked)),
{
    match unpacked {
        Err(e) => Err(
            GrokmirrorError::Permanent {
                message: glue("manifest decompression failed: ", e.as_str()),
            },
        ),
        Ok(b) => {
            if b.len() as u64 > MAX_DECOMPRESSED_BYTES {
                let mut m: String = glue(
                    "manifest decompressed to over ",
                    decimal(MAX_DECOMPRESSED_BYTES).as_str(),
                );
                m.append(" bytes; rejecting as potentially hostile");
                Err(GrokmirrorError::Permanent { message: m })
            } else {
                Ok(b)
            }
        },
    }
}

/// Unpacks a manifest. One that has more bytes than a manifest may have is not unpacked to its
/// end, and is reported; one that has just as many is fine.
pub fn decompress_manifest(packed: &[u8]) -> (r: Result<Vec<u8>, GrokmirrorError>)
    ensures
        text_or_error(r) == manifest_text(gunzipped(packed@, 16_777_217)),
        r matches Ok(text) ==> text@.len() <= 16_777_216,
{
    judge_unpacked(gunzip(packed, MAX_DECOMPRESSED_BYTES + 1))
}

/// What is reported of a manifest whose text is no manifest.
pub fn manifest_json_error(error: &str) -> (r: GrokmirrorError)
    ensures
        r@ == ErrorView::Permanent("manifest JSON parse: "@ + error@),
{
    GrokmirrorError::Permanent { message: glue("manifest JSON parse: ", error) }
}

/// The fingerprint of the repository at `repo_path`.
pub fn lookup_fingerprint<'a>(manifest: &'a Manifest, repo_path: &str) -> (r: Result<
    &'a str,
    GrokmirrorError,
>)
    ensures
        r is Ok <==> manifest@.dom().contains(repo_path@),
        r matches Ok(f) ==> f@ == manifest@[repo_path@].fingerprint@,
        r matches Err(e) ==> e@ == ErrorView::RepoNotInManifest(repo_path@),
{
    match manifest.get(repo_path) {
        Some(entry) => Ok(entry.fingerprint.as_str()),
        None => Err(GrokmirrorError::RepoNotInManifest { repo_path: repo_path.to_string() }),
    }
}

/// The path under which a manifest lists the repository at `url`, given what parsing the URL
/// came to: the URL's path, from the root.
pub open spec fn manifest_key(
    url: Seq<char>,
    parsed: Result<(Option<Seq<char>>, Seq<char>), Seq<char>>,
) -> Result<Seq<char>, ErrorView> {
    match parsed {
        Err(e) => Err(
            ErrorView::Permanent(
                "could not parse source URL "@ + debug_quoted(url) + ": "@ + e,
            ),
        ),
        Ok((_, path)) => if path.len() == 0 || path == "/"@ {
            Err(
                ErrorView::Permanent(
                    "source URL "@ + debug_quoted(url) + " has no path component"@,
                ),
            )
        } else if path[0] == '/' {
            Ok(path)
        } else {
            Ok("/"@ + path)
        },
    }
}

/// The view of a path, or of what is reported of it.
pub open spec fn key_or_error(r: Result<String, GrokmirrorError>) -> Result<Seq<char>, ErrorView> {
    match r {
        Ok(s) => Ok(s@),
        Err(e) => Err(e@),
    }
}

/// The path under which a manifest lists the repository at `url`, given what parsing the URL
/// came to.
pub fn repo_path_of(url: &str, parsed: Result<RemoteUrl, String>) -> (r: Result<
    String,
    GrokmirrorError,
>)
    ensures
        key_or_error(r) == manifest_key(url@, crate::git::remote_url::parsed_view(parsed)),
{
    match parsed {
        Err(e) => {
            let mut m: String = glue("could not parse source URL ", quoted(url).as_str());
            m.append(": ");
            m.append(e.as_str());
            Err(GrokmirrorError::Permanent { message: m })
        },
        Ok(u) => {
            let path: Vec<char> = to_chars(u.path.as_str());
            if path.len() == 0 || same_text(u.path.as_str(), "/") {
                let mut m: String = glue("source URL ", quoted(url).as_str());
                m.append(" has no path component");
                Err(GrokmirrorError::Permanent { message: m })
            } else if path[0] == '/' {
                Ok(u.path)
            } else {
                Ok(glue("/", u.path.as_str()))
            }
        },
    }
}

/// The path under which a manifest lists the repository at `url`.
pub fn extract_repo_path_from_url(url: &str) -> (r: Result<String, GrokmirrorError>)
    ensures
        key_or_error(r) == manifest_key(url@, parsed_url(url@)),
{
    repo_path_of(url, parse_url(url))
}

/// A path under which a manifest lists a repository starts at the root, and is not the root.
pub proof fn manifest_keys_start_at_the_root(
    url: Seq<char>,
    parsed: Result<(Option<Seq<char>>, Seq<char>), Seq<char>>,
)
    requires
        manifest_key(url, parsed) is Ok,
    ensures
        manifest_key(url, parsed)->Ok_0.len() > 1,
        manifest_key(url, parsed)->Ok_0[0] == '/',
{
    reveal_strlit("/");
    let path = parsed->Ok_0.1;
    if path.len() == 1 && path[0] == '/' {
        assert(path =~= "/"@);
    }
}

/// An error is told with what kind it is of and with what it says.
pub proof fn errors_tell_their_kind(e: GrokmirrorError, r: String)
    requires
        call_ensures(GrokmirrorError::to_text, (&e,), r),
    ensures
        e is Transient ==> r@ == "transient: "@ + e->Transient_message@,
        e is RepoNotInManifest ==> r@ == "repo `"@ + e->repo_path@ + "` not present in manifest"@,
        e is Permanent ==> r@ == "permanent: "@ + e->Permanent_message@,
{
}

/// The manifest lies right behind the host's URL, with one slash between them, however many
/// slashes the URL ends in.
pub proof fn manifests_lie_behind_one_slash(
    base_url: &str,
    r: String,
    slashed: &str,
    from_slashed: String,
)
    requires
        call_ensures(build_manifest_url, (base_url,), r),
        call_ensures(build_manifest_url, (slashed,), from_slashed),
        slashed@ == base_url@.push('/'),
    ensures
        base_url@.len() == 0 || base_url@.last() != '/' ==> r@ == base_url@ + "/manifest.js.gz"@,
        from_slashed@ == r@,
{
    trailing_slash_makes_no_difference(base_url@);
    assert(seq!['/'].contains('/') && forall|c: char| seq!['/'].contains(c) ==> c == '/') by {
        assert(seq!['/'][0] == '/');
    }
}

/// What goes wrong on the way to a manifest may go right the next time: too slow an answer, a
/// request that fails, and bytes that stop coming. A text that is no manifest stays one.
pub proof fn trouble_on_the_way_is_passing(
    url: &str,
    error: &str,
    slow: GrokmirrorError,
    failed: GrokmirrorError,
    stopped: GrokmirrorError,
    nonsense: GrokmirrorError,
)
    requires
        call_ensures(fetch_timeout_error, (url,), slow),
        call_ensures(request_error, (url, error), failed),
        call_ensures(chunk_error, (error,), stopped),
        call_ensures(manifest_json_error, (error,), nonsense),
    ensures
        slow is Transient && slow->Transient_message@ == "manifest fetch timed out after 60s: "@
            + url@,
        failed is Transient && failed->Transient_message@ == "HTTP request to "@ + url@ + ": "@
            + error@,
        stopped is Transient && stopped->Transient_message@ == "read manifest body chunk: "@
            + error@,
        nonsense is Permanent && nonsense->Permanent_message@ == "manifest JSON parse: "@ + error@,
        POLL_TIMEOUT_SECS == 60,
{
}

/// An answer holds a manifest just where its status is one of success; a failure of the host may
/// pass, and any other answer stays. What is said of it has the status and the usual words.
pub proof fn answers_are_judged_by_their_status(
    status: u16,
    words: Option<&str>,
    r: Result<(), GrokmirrorError>,
)
    requires
        call_ensures(judge_status, (status, words), r),
    ensures
        r is Ok <==> 200 <= status <= 299,
        r matches Err(e) ==> {
            let said = "manifest fetch returned "@ + decimal_text(status as nat) + " "@;
            &&& e is Transient <==> 500 <= status <= 599
            &&& !(e is Transient) ==> e is Permanent
            &&& e is Transient && words is Some ==> e->Transient_message@ == said + words->0@
            &&& e is Permanent && words is Some ==> e->Permanent_message@ == said + words->0@
            &&& e is Transient && words is None ==> e->Transient_message@ == said
            &&& e is Permanent && words is None ==> e->Permanent_message@ == said
        },
{
    reveal_strlit("");
    let said = "manifest fetch returned "@ + decimal_text(status as nat) + " "@;
    assert(said + ""@ =~= said);
}

/// An answer is judged with the usual words for its status.
pub proof fn statuses_have_their_usual_words(
    status: u16,
    r: Result<(), GrokmirrorError>,
    words: Option<&str>,
    judged: Result<(), GrokmirrorError>,
)
    requires
        call_ensures(check_status, (status,), r),
        call_ensures(judge_status, (status, words), judged),
    ensures
        r is Ok <==> 200 <= status <= 299,
        r matches Err(e) ==> {
            let usual = if words is Some {
                reason_phrase(status) == Some(words->0@)
            } else {
                reason_phrase(status) is None
            };
            &&& judged is Err
            &&& e is Transient <==> 500 <= status <= 599
            &&& !(e is Transient) ==> e is Permanent
            &&& usual && e is Transient ==> e->Transient_message@
                == judged->Err_0->Transient_message@
            &&& usual && e is Permanent ==> e->Permanent_message@
                == judged->Err_0->Permanent_message@
        },
{
}

/// A packed manifest may be announced with 64 MiB, or without a length, and not with more.
pub proof fn announced_lengths_have_a_limit(length: Option<u64>, r: Result<(), GrokmirrorError>)
    requires
        call_ensures(check_content_length, (length,), r),
    ensures
        r is Ok <==> length is None || length->0 <= 64 * 1024 * 1024,
        r matches Err(e) ==> e is Permanent && e->Permanent_message@ == "manifest Content-Length "@
            + decimal_text(length->0 as nat) + " exceeds cap of "@ + decimal_text(67_108_864),
        MAX_COMPRESSED_BYTES == 64 * 1024 * 1024,
        MAX_DECOMPRESSED_BYTES == 16 * 1024 * 1024,
{
}

/// A body is read just where the status is one of success and the announced length, if there is
/// one, is not too long; what is wrong with the status goes before what is wrong with the length.
pub proof fn bodies_are_read_after_their_heads(
    status: u16,
    length: Option<u64>,
    r: Result<Body, GrokmirrorError>,
    by_status: Result<(), GrokmirrorError>,
    by_length: Result<(), GrokmirrorError>,
)
    requires
        call_ensures(begin_body, (status, length), r),
        call_ensures(check_status, (status,), by_status),
        call_ensures(check_content_length, (length,), by_length),
    ensures
        r is Ok <==> 200 <= status <= 299 && (length is None || length->0 <= 64 * 1024 * 1024),
        r matches Ok(body) ==> body@.len() == 0,
        r matches Err(e) ==> {
            &&& !(200 <= status <= 299) ==> by_status is Err && e@ == by_status->Err_0@ && (
            e is Transient <==> 500 <= status <= 599)
            &&& 200 <= status <= 299 ==> by_length is Err && e@ == by_length->Err_0@
                && e is Permanent
        },
{
}

/// The bytes of a body are those of its chunks, in their order, up to 64 MiB of them; the chunk
/// with which there would be more is refused.
pub proof fn bodies_hold_their_chunks(
    empty: Body,
    a: &[u8],
    b: &[u8],
    first: Result<Body, GrokmirrorError>,
    second: Result<Body, GrokmirrorError>,
    bytes: Vec<u8>,
)
    requires
        call_ensures(Body::new, (), empty),
        call_ensures(Body::push_chunk, (empty, a), first),
        first is Ok ==> call_ensures(Body::push_chunk, (first->Ok_0, b), second),
        first is Ok && second is Ok ==> call_ensures(Body::into_bytes, (second->Ok_0,), bytes),
    ensures
        first is Ok <==> a@.len() <= 64 * 1024 * 1024,
        first is Ok ==> (second is Ok <==> a@.len() + b@.len() <= 64 * 1024 * 1024),
        first is Ok && second is Ok ==> bytes@ == a@ + b@,
        first matches Err(e) ==> e is Permanent && e->Permanent_message@
            == "manifest body exceeded cap of "@ + decimal_text(67_108_864)
            + " bytes during stream read"@,
{
    assert(Seq::<u8>::empty() + a@ =~= a@);
}

/// A manifest may unpack to 16 MiB and not to more, and is handed on as it was unpacked.
pub proof fn unpacked_manifests_have_a_limit(
    unpacked: Result<Vec<u8>, String>,
    r: Result<Vec<u8>, GrokmirrorError>,
)
    requires
        call_ensures(judge_unpacked, (unpacked,), r),
    ensures
        r is Ok <==> unpacked is Ok && unpacked->Ok_0@.len() <= 16 * 1024 * 1024,
        r is Ok ==> r->Ok_0@ == unpacked->Ok_0@,
        r matches Err(e) ==> e is Permanent,
        unpacked is Err ==> r->Err_0->Permanent_message@ == "manifest decompression failed: "@
            + unpacked->Err_0@,
        unpacked is Ok && r is Err ==> r->Err_0->Permanent_message@
            == "manifest decompressed to over "@ + decimal_text(16_777_216)
            + " bytes; rejecting as potentially hostile"@,
{
}

/// A packed manifest is unpacked to one byte more than it may have, which tells one that is too
/// long from one that is just long enough.
pub proof fn one_byte_more_tells_too_long_a_manifest(
    packed: &[u8],
    r: Result<Vec<u8>, GrokmirrorError>,
)
    requires
        call_ensures(decompress_manifest, (packed,), r),
    ensures
        ({
            let unpacked = gunzipped(packed@, 16_777_217);
            &&& r is Ok <==> unpacked is Ok && unpacked->Ok_0.len() <= 16 * 1024 * 1024
            &&& r is Ok ==> r->Ok_0@ == unpacked->Ok_0
            &&& r is Err ==> r->Err_0 is Permanent
            &&& unpacked is Err ==> r->Err_0->Permanent_message@
                == "manifest decompression failed: "@ + unpacked->Err_0
        }),
{
}

/// The fingerprint of a repository is the one that the manifest has for it, and a repository that
/// the manifest does not have is reported by its path.
pub proof fn fingerprints_come_from_the_manifest<'a>(
    manifest: &'a Manifest,
    repo_path: &str,
    r: Result<&'a str, GrokmirrorError>,
)
    requires
        call_ensures(lookup_fingerprint, (manifest, repo_path), r),
    ensures
        r is Ok <==> manifest@.dom().contains(repo_path@),
        r is Ok ==> r->Ok_0@ == manifest@[repo_path@].fingerprint@,
        r is Err ==> r->Err_0 is RepoNotInManifest && r->Err_0->repo_path@ == repo_path@,
{
}

/// A repository is listed under the path of its URL, with a slash in front where there is none.
/// A URL that cannot be parsed, or whose path is the root, has no repository.
pub proof fn repositories_are_listed_under_their_paths(
    url: &str,
    parsed: Result<RemoteUrl, String>,
    r: Result<String, GrokmirrorError>,
)
    requires
        call_ensures(repo_path_of, (url, parsed), r),
    ensures
        r is Ok <==> parsed is Ok && parsed->Ok_0.path@.len() > 0 && parsed->Ok_0.path@ != "/"@,
        r is Ok && parsed->Ok_0.path@[0] == '/' ==> r->Ok_0@ == parsed->Ok_0.path@,
        r is Ok && parsed->Ok_0.path@[0] != '/' ==> r->Ok_0@ == "/"@ + parsed->Ok_0.path@,
        r is Err ==> r->Err_0 is Permanent,
        parsed is Err ==> r->Err_0->Permanent_message@ == "could not parse source URL "@
            + debug_quoted(url@) + ": "@ + parsed->Err_0@,
        parsed is Ok && r is Err ==> r->Err_0->Permanent_message@ == "source URL "@ + debug_quoted(
            url@,
        ) + " has no path component"@,
{
}

/// The path of a repository is taken from its own URL.
pub proof fn paths_are_taken_from_the_url(url: &str, r: Result<String, GrokmirrorError>)
    requires
        call_ensures(extract_repo_path_from_url, (url,), r),
    ensures
        ({
            let parsed = parsed_url(url@);
            let path = parsed->Ok_0.1;
            &&& r is Ok <==> parsed is Ok && path.len() > 0 && path != "/"@
            &&& r is Ok && path[0] == '/' ==> r->Ok_0@ == path
            &&& r is Ok && path[0] != '/' ==> r->Ok_0@ == "/"@ + path
            &&& r is Err ==> r->Err_0 is Permanent
        }),
{
}

} // verus!
