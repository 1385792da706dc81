//! How a source is polled, how often, and when a poll sets off a dispatch.
use vstd::prelude::*;

use crate::git::remote_url::{parse_url, parsed_url};
use crate::object_id::ObjectId;
use crate::text::{equals_ignoring_ascii_case, optional_view, same_ignoring_ascii_case};
use crate::time::Duration;

verus! {

/// The shortest interval between two polls, in seconds.
pub const MIN_INTERVAL_SECS: u64 = 15;

/// How a source is polled.
#[derive(Clone, Copy, PartialEq, Eq, Structural, Debug)]
pub enum PollStrategy {
    /// One ref is asked for over the GitHub API.
    GithubApi,
    /// The host's manifest is fetched, which tells of every repository on it.
    Grokmirror,
    /// The refs of the remote are listed.
    LsRemote,
}

/// The interval between two polls where none is configured.
pub open spec fn default_secs(strategy: PollStrategy) -> nat {
    match strategy {
        PollStrategy::GithubApi => 60,
        PollStrategy::Grokmirror => 60,
        PollStrategy::LsRemote => 300,
    }
}

/// The interval between two polls where none is configured.
pub fn default_interval(strategy: PollStrategy) -> (r: Duration)
    ensures
        r.nanos == default_secs(strategy) * 1_000_000_000,
{
    match strategy {
        PollStrategy::GithubApi => Duration::from_secs(60),
        PollStrategy::Grokmirror => Duration::from_secs(60),
        PollStrategy::LsRemote => Duration::from_secs(300),
    }
}

/// The name of a strategy.
pub open spec fn kind_text(strategy: PollStrategy) -> Seq<char> {
    match strategy {
        PollStrategy::GithubApi => "github_api"@,
        PollStrategy::Grokmirror => "grokmirror"@,
        PollStrategy::LsRemote => "ls_remote"@,
    }
}

/// The name of a strategy.
pub fn kind_str(strategy: PollStrategy) -> (r: &'static str)
    ensures
        r@ == kind_text(strategy),
{
    match strategy {
        PollStrategy::GithubApi => "github_api",
        PollStrategy::Grokmirror => "grokmirror",
        PollStrategy::LsRemote => "ls_remote",
    }
}

/// Different strategies have different names.
pub proof fn kind_names_the_strategy(a: PollStrategy, b: PollStrategy)
    requires
        kind_text(a) == kind_text(b),
    ensures
        a == b,
{
    reveal_strlit("github_api");
    reveal_strlit("grokmirror");
    reveal_strlit("ls_remote");
    assert("github_api"@[1] == 'i');
    assert("grokmirror"@[1] == 'r');
    assert("ls_remote"@[1] == 's');
}

/// How a source on `host` is polled. A host counts only if it is the whole name, in whatever
/// case.
pub open spec fn strategy_on(host: Option<Seq<char>>) -> PollStrategy {
    match host {
        Some(h) => if same_ignoring_ascii_case(h, "github.com"@) || same_ignoring_ascii_case(
            h,
            "www.github.com"@,
        ) {
            PollStrategy::GithubApi
        } else if same_ignoring_ascii_case(h, "git.kernel.org"@) {
            PollStrategy::Grokmirror
        } else {
            PollStrategy::LsRemote
        },
        None => PollStrategy::LsRemote,
    }
}

/// How a source on `host` is polled.
pub fn strategy_for_host(host: &Option<String>) -> (r: PollStrategy)
    ensures
        r == strategy_on(optional_view(*host)),
{
    match host {
        Some(h) => {
            if equals_ignoring_ascii_case(h.as_str(), "github.com") || equals_ignoring_ascii_case(
                h.as_str(),
                "www.github.com",
            ) {
                PollStrategy::GithubApi
            } else if equals_ignoring_ascii_case(h.as_str(), "git.kernel.org") {
                PollStrategy::Grokmirror
            } else {
                PollStrategy::LsRemote
            }
        },
        None => PollStrategy::LsRemote,
    }
}

/// How the source at `url` is polled: by its host, where the URL can be parsed.
pub open spec fn strategy_of(url: Seq<char>) -> PollStrategy {
    match parsed_url(url) {
        Ok((host, _)) => strategy_on(host),
        Err(_) => PollStrategy::LsRemote,
    }
}

/// How the source at `url` is polled.
pub fn auto_detect(url: &str) -> (r: PollStrategy)
    ensures
        r == strategy_of(url@),
{
    match parse_url(url) {
        Ok(parsed) => strategy_for_host(&parsed.host),
        Err(_) => PollStrategy::LsRemote,
    }
}

/// The interval `d`, or the shortest interval where `d` is shorter.
pub fn at_least_min_interval(d: Duration) -> (r: Duration)
    ensures
        r.nanos == if d.nanos < 15_000_000_000 {
            15_000_000_000
        } else {
            d.nanos as int
        },
{
    let floor: Duration = Duration::from_secs(MIN_INTERVAL_SECS);
    if d.is_shorter_than(&floor) {
        floor
    } else {
        d
    }
}

/// Hosts that differ only in the case of letters are polled alike.
pub proof fn case_of_hosts_does_not_matter(a: Seq<char>, b: Seq<char>)
    requires
        same_ignoring_ascii_case(a, b),
    ensures
        strategy_on(Some(a)) == strategy_on(Some(b)),
{
    assert forall|x: Seq<char>| same_ignoring_ascii_case(a, x) == #[trigger]
        same_ignoring_ascii_case(b, x) by {
        if same_ignoring_ascii_case(a, x) {
            assert forall|i: int| 0 <= i < b.len() implies crate::text::folded(b[i])
                == crate::text::folded(x[i]) by {
                assert(crate::text::folded(a[i]) == crate::text::folded(b[i]));
            }
        }
        if same_ignoring_ascii_case(b, x) {
            assert forall|i: int| 0 <= i < a.len() implies crate::text::folded(a[i])
                == crate::text::folded(x[i]) by {
                assert(crate::text::folded(a[i]) == crate::text::folded(b[i]));
            }
        }
    }
    assert(same_ignoring_ascii_case(b, "github.com"@) == same_ignoring_ascii_case(
        a,
        "github.com"@,
    ));
}

/// Whether an observed object id sets off a dispatch: one was recorded before, and it was
/// another.
pub open spec fn triggers(last: Option<Seq<u8>>, observed: Seq<u8>) -> bool {
    last is Some && last->0 != observed
}

/// What an observed object id means against the one recorded before.
#[derive(Clone, Copy, PartialEq, Eq, Debug)]
pub struct DiffOutcome {
    /// The observed id.
    pub observed: ObjectId,
    /// Whether a dispatch is set off.
    pub trigger: bool,
}

/// Compares an observed object id with the one recorded before. A dispatch is set off only
/// where one was recorded and the observed one is another.
pub fn compare_sha(last: Option<ObjectId>, observed: ObjectId) -> (r: DiffOutcome)
    ensures
        r.observed == observed,
        r.trigger == triggers(
            match last {
                Some(id) => Some(id@),
                None => None,
            },
            observed@,
        ),
{
    let trigger: bool = match last {
        None => false,
        Some(prev) => !prev.same(&observed),
    };
    DiffOutcome { observed, trigger }
}

/// Whatever two ids are, a dispatch is set off just where they differ in some byte.
pub proof fn any_other_id_triggers(last: Seq<u8>, observed: Seq<u8>)
    requires
        last.len() == 20,
        observed.len() == 20,
    ensures
        !triggers(None, observed),
        last != observed ==> triggers(Some(last), observed),
        triggers(Some(last), observed) <==> exists|i: int|
            0 <= i < 20 && (#[trigger] last[i]) != observed[i],
{
    if forall|i: int| 0 <= i < 20 ==> (#[trigger] last[i]) == observed[i] {
        assert(last =~= observed);
    }
}

/// Comparing an observed id with the one recorded before hands on the observed one, and sets off
/// a dispatch just where one was recorded and some byte of it was another.
pub proof fn ids_are_compared_byte_by_byte(
    last: Option<ObjectId>,
    observed: ObjectId,
    r: DiffOutcome,
)
    requires
        call_ensures(compare_sha, (last, observed), r),
    ensures
        r.observed == observed,
        last is None ==> !r.trigger,
        last is Some ==> (r.trigger <==> exists|i: int|
            0 <= i < 20 && (#[trigger] last->0.bytes@[i]) != observed.bytes@[i]),
{
    if last is Some {
        any_other_id_triggers(last->0.bytes@, observed.bytes@);
    }
}

/// A source is polled over the GitHub API just where its host is GitHub's, over the manifest just
/// where it is that of the Linux kernel, and by listing its refs everywhere else.
pub proof fn hosts_decide_how_they_are_polled(host: Option<String>, r: PollStrategy)
    requires
        call_ensures(strategy_for_host, (&host,), r),
    ensures
        r is GithubApi <==> host is Some && (same_ignoring_ascii_case(host->0@, "github.com"@)
            || same_ignoring_ascii_case(host->0@, "www.github.com"@)),
        r is Grokmirror <==> host is Some && same_ignoring_ascii_case(
            host->0@,
            "git.kernel.org"@,
        ),
        host is None ==> r is LsRemote,
{
    reveal_strlit("github.com");
    reveal_strlit("www.github.com");
    reveal_strlit("git.kernel.org");
    if host is Some && same_ignoring_ascii_case(host->0@, "git.kernel.org"@) {
        let h = host->0@;
        assert(h.len() == 14);
        if same_ignoring_ascii_case(h, "www.github.com"@) {
            assert(crate::text::folded(h[0]) == crate::text::folded("git.kernel.org"@[0]));
            assert(crate::text::folded(h[0]) == crate::text::folded("www.github.com"@[0]));
        }
    }
}

/// A source whose URL cannot be parsed, or names no host, is polled by listing its refs; another
/// just as its host is.
pub proof fn urls_are_polled_by_their_hosts(
    url: &str,
    r: PollStrategy,
    host: Option<String>,
    by_host: PollStrategy,
)
    requires
        call_ensures(auto_detect, (url,), r),
        call_ensures(strategy_for_host, (&host,), by_host),
    ensures
        parsed_url(url@) is Err ==> r is LsRemote,
        parsed_url(url@) is Ok && parsed_url(url@)->Ok_0.0 is None ==> r is LsRemote,
        parsed_url(url@) is Ok && parsed_url(url@)->Ok_0.0 is Some && host is Some
            && parsed_url(url@)->Ok_0.0->0 == host->0@ ==> r == by_host,
{
}

/// Where no interval is configured, a minute lies between two polls over the GitHub API or a
/// manifest, and five minutes between two listings of refs.
pub proof fn intervals_go_by_the_strategy(strategy: PollStrategy, r: Duration)
    requires
        call_ensures(default_interval, (strategy,), r),
    ensures
        strategy is GithubApi || strategy is Grokmirror ==> r.nanos == 60_000_000_000,
        strategy is LsRemote ==> r.nanos == 300_000_000_000,
        r.nanos >= 15_000_000_000,
{
}

/// Each strategy has its own name.
pub proof fn strategies_have_names(strategy: PollStrategy, r: &'static str)
    requires
        call_ensures(kind_str, (strategy,), r),
    ensures
        strategy is GithubApi <==> r@ == "github_api"@,
        strategy is Grokmirror <==> r@ == "grokmirror"@,
        strategy is LsRemote <==> r@ == "ls_remote"@,
{
    reveal_strlit("github_api");
    reveal_strlit("grokmirror");
    reveal_strlit("ls_remote");
    assert("github_api"@[1] == 'i');
    assert("grokmirror"@[1] == 'r');
    assert("ls_remote"@[1] == 's');
}

/// An interval is never shorter than a quarter of a minute, and one that is not shorter stays as
/// it is.
pub proof fn intervals_are_not_too_short(d: Duration, r: Duration)
    requires
        call_ensures(at_least_min_interval, (d,), r),
    ensures
        r.nanos >= 15_000_000_000,
        r.nanos >= d.nanos,
        r.nanos == d.nanos || r.nanos == 15_000_000_000,
{
}

} // verus!
