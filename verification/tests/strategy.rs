use gcit::git::strategy::{
    at_least_min_interval, auto_detect, compare_sha, default_interval, kind_str, strategy_for_host,
    PollStrategy,
};
use gcit::object_id::ObjectId;
use gcit::time::Duration;

fn sha(byte: u8) -> ObjectId {
    ObjectId::from_hex(format!("{byte:02x}").repeat(20).as_bytes()).unwrap()
}

#[test]
fn auto_detect_github_variants() {
    for url in [
        "https://github.com/torvalds/linux.git",
        "ssh://git@github.com/torvalds/linux.git",
        "https://github.com/torvalds/linux",
        "https://www.github.com/torvalds/linux.git",
        "https://github.com/octocat/Hello-World.git",
    ] {
        assert_eq!(auto_detect(url), PollStrategy::GithubApi, "url={url}");
    }
}

#[test]
fn auto_detect_kernel_org() {
    for url in [
        "https://git.kernel.org/pub/scm/linux/kernel/git/torvalds/linux.git",
        "https://git.kernel.org",
        "https://git.kernel.org/pub/scm/linux/kernel/git/stable/linux.git",
    ] {
        assert_eq!(auto_detect(url), PollStrategy::Grokmirror, "url={url}");
    }
}

#[test]
fn auto_detect_falls_back_to_ls_remote() {
    for url in [
        "https://gitlab.com/foo/bar.git",
        "https://git.example.com/proj.git",
        "https://git.sr.ht/~user/proj",
        "git://anonscm.example.org/foo.git",
        "ssh://git@example.com/foo.git",
    ] {
        assert_eq!(auto_detect(url), PollStrategy::LsRemote, "url={url}");
    }
}

#[test]
fn auto_detect_subdomain_lookalikes_dont_match() {
    for url in [
        "https://api.github.com/foo.git",
        "https://www.kernel.org/foo.git",
        "https://github.com.evil.example.com/foo.git",
    ] {
        assert_eq!(auto_detect(url), PollStrategy::LsRemote, "url={url}");
    }
}

#[test]
fn auto_detect_malformed_falls_back_to_ls_remote() {
    for url in ["", "hello world"] {
        assert_eq!(auto_detect(url), PollStrategy::LsRemote, "url={url:?}");
    }
}

#[test]
fn hosts_match_whole_and_in_any_case() {
    let on = |h: &str| strategy_for_host(&Some(h.to_string()));
    assert_eq!(on("GitHub.COM"), PollStrategy::GithubApi);
    assert_eq!(on("WWW.github.com"), PollStrategy::GithubApi);
    assert_eq!(on("GIT.Kernel.org"), PollStrategy::Grokmirror);
    assert_eq!(on("github.co"), PollStrategy::LsRemote);
    assert_eq!(on("xgithub.com"), PollStrategy::LsRemote);
    assert_eq!(on(""), PollStrategy::LsRemote);
    assert_eq!(strategy_for_host(&None), PollStrategy::LsRemote);
}

#[test]
fn default_intervals_match_documented_values() {
    assert_eq!(default_interval(PollStrategy::GithubApi), Duration::from_secs(60));
    assert_eq!(default_interval(PollStrategy::Grokmirror), Duration::from_secs(60));
    assert_eq!(default_interval(PollStrategy::LsRemote), Duration::from_secs(300));
}

#[test]
fn intervals_have_a_floor() {
    assert_eq!(at_least_min_interval(Duration::from_secs(14)), Duration::from_secs(15));
    assert_eq!(at_least_min_interval(Duration::from_secs(15)), Duration::from_secs(15));
    assert_eq!(at_least_min_interval(Duration::from_millis(15_001)), Duration::from_millis(15_001));
}

#[test]
fn compare_sha_first_poll_no_trigger() {
    let observed = sha(0xaa);
    let outcome = compare_sha(None, observed);
    assert_eq!(outcome.observed, observed);
    assert!(!outcome.trigger);
}

#[test]
fn compare_sha_unchanged_no_trigger() {
    let s = sha(0xaa);
    let outcome = compare_sha(Some(s), s);
    assert_eq!(outcome.observed, s);
    assert!(!outcome.trigger);
}

#[test]
fn compare_sha_changed_triggers() {
    let prev = sha(0xaa);
    let curr = sha(0xbb);
    let outcome = compare_sha(Some(prev), curr);
    assert_eq!(outcome.observed, curr);
    assert!(outcome.trigger);
}

#[test]
fn compare_sha_is_pure() {
    let prev = sha(0x01);
    let curr = sha(0x02);
    let a = compare_sha(Some(prev), curr);
    let b = compare_sha(Some(prev), curr);
    assert_eq!(a, b);
}

#[test]
fn kind_str_round_trip() {
    assert_eq!(kind_str(PollStrategy::GithubApi), "github_api");
    assert_eq!(kind_str(PollStrategy::Grokmirror), "grokmirror");
    assert_eq!(kind_str(PollStrategy::LsRemote), "ls_remote");
}
