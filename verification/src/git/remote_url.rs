//! The parts of a remote's URL that the daemon goes by.
use vstd::prelude::*;

use crate::text::optional_view;

verus! {

/// The host and the path of a URL.
#[derive(Debug)]
pub struct RemoteUrl {
    /// The host, where the URL names one.
    pub host: Option<String>,
    /// The path, with what is no UTF-8 in it replaced.
    pub path: String,
}

/// What parsing a URL gives: the host, if any, and the path, or what is wrong with it.
pub uninterp spec fn parsed_url(url: Seq<char>) -> Result<(Option<Seq<char>>, Seq<char>), Seq<char>>;

/// What parsing a URL gives, as a `Result`.
pub open spec fn parsed_view(r: Result<RemoteUrl, String>) -> Result<
    (Option<Seq<char>>, Seq<char>),
    Seq<char>,
> {
    match r {
        Ok(u) => Ok((optional_view(u.host), u.path@)),
        Err(e) => Err(e@),
    }
}

/// Parses a URL with `gix_url::parse`, and takes the host and the path of the
/// `gix_url::Url`, or the text of the error. Claimed of it: they are a function of the
/// characters of the URL. Which URLs parse, and to what, is left unsaid.
#[verifier::external_body]
pub(crate) fn parse_url(url: &str) -> (r: Result<RemoteUrl, String>)
    ensures
        parsed_view(r) == parsed_url(url@),
{
    match gix_url::parse(url.as_bytes().into()) {
        Ok(u) => Ok(RemoteUrl { host: u.host().map(String::from), path: u.path.to_string() }),
        Err(e) => Err(e.to_string()),
    }
}

} // verus!
