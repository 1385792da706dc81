use gcit::config::CredentialId;
use gcit::names::NameSet;
use gcit::supervisor::credentials::{
    credential_read_result, github_bucket, resolve_secret_step, CredentialPool, FilePlace,
    FileProbe, GithubLookup, ReadOutcome, SearchAction, SearchEvent, SearchState, SecretLookup,
};
use gcit::time::{Duration, Instant};
use secrecy::{ExposeSecret, SecretString};

struct World {
    directory: bool,
    in_directory: Option<Result<&'static str, &'static str>>,
    variable: Option<&'static str>,
    in_config: Option<Result<&'static str, &'static str>>,
}

fn probe(place: &Option<Result<&'static str, &'static str>>) -> SearchEvent {
    SearchEvent::Probed(match place {
        None => FileProbe::NotPresent,
        Some(Ok(_)) => FileProbe::Usable,
        Some(Err(why)) => FileProbe::Rejected(why.to_string()),
    })
}

fn read(place: &Option<Result<&'static str, &'static str>>) -> SearchEvent {
    match place {
        Some(Ok(text)) => SearchEvent::FileRead(Ok(text.to_string())),
        _ => panic!("only usable files are read"),
    }
}

fn resolve(id: &str, dir: Option<&str>, world: &World) -> Result<String, String> {
    let id = CredentialId::new(id);
    let dir = dir.map(|d| d.to_string());
    let mut state = SearchState::Start;
    let mut event = SearchEvent::DirectoryKnown(world.directory);
    for _ in 0..6 {
        let (next, action) = resolve_secret_step(&id, &dir, state, event);
        state = next;
        event = match action {
            SearchAction::Probe(FilePlace::CredentialsDirectory) => probe(&world.in_directory),
            SearchAction::Probe(FilePlace::ConfigDirectory) => probe(&world.in_config),
            SearchAction::Read(FilePlace::CredentialsDirectory) => read(&world.in_directory),
            SearchAction::Read(FilePlace::ConfigDirectory) => read(&world.in_config),
            SearchAction::AskEnvironment => {
                SearchEvent::VariableKnown(world.variable.map(|v| v.to_string()))
            }
            SearchAction::Finish(result) => {
                assert_eq!(state, SearchState::Over);
                return result;
            }
            SearchAction::Ignore => panic!("every event answers what was asked"),
        };
    }
    panic!("the search must end");
}

const NOWHERE: World =
    World { directory: false, in_directory: None, variable: None, in_config: None };

#[test]
fn resolve_secret_step3_reads_credentials_file_under_config_dir() {
    let world = World { in_config: Some(Ok("step3-secret-value")), ..NOWHERE };
    assert_eq!(resolve("step3-cred", Some("/etc/gcit"), &world).unwrap(), "step3-secret-value");
}

#[test]
fn resolve_secret_step3_trims_trailing_newline() {
    let world = World { in_config: Some(Ok("trimmed-secret\n")), ..NOWHERE };
    assert_eq!(resolve("trim-cred", Some("/etc/gcit"), &world).unwrap(), "trimmed-secret");
    let world = World { in_config: Some(Ok(" a\nb \r\n\n")), ..NOWHERE };
    assert_eq!(resolve("trim-cred", Some("/etc/gcit"), &world).unwrap(), " a\nb ");
}

#[test]
fn resolve_secret_step2_reads_env_var() {
    let world = World { variable: Some("env-secret-value"), ..NOWHERE };
    assert_eq!(resolve("env-cred", Some("/nonexistent"), &world).unwrap(), "env-secret-value");
}

#[test]
fn variables_are_not_trimmed() {
    let world = World { variable: Some(" env-secret-value\n"), ..NOWHERE };
    assert_eq!(resolve("env-cred", Some("/nonexistent"), &world).unwrap(), " env-secret-value\n");
}

#[test]
fn resolve_secret_step1_takes_precedence_over_step2_and_step3() {
    let world = World {
        directory: true,
        in_directory: Some(Ok("step1-wins")),
        variable: Some("step2-loses"),
        in_config: Some(Ok("step3-loses")),
    };
    assert_eq!(resolve("prec-cred", Some("/etc/gcit"), &world).unwrap(), "step1-wins");
    let world = World { directory: false, ..world };
    assert_eq!(resolve("prec-cred", Some("/etc/gcit"), &world).unwrap(), "step2-loses");
}

#[test]
fn resolve_secret_errors_when_no_resolution_step_succeeds() {
    assert_eq!(
        resolve("missing-cred", Some("/etc/gcit"), &NOWHERE).unwrap_err(),
        "credential `missing-cred` not found at $CREDENTIALS_DIRECTORY/missing-cred or env $GCIT_CREDENTIAL_MISSING_CRED or /etc/gcit/credentials/missing-cred",
    );
    let world = World { in_config: Some(Ok("unreachable")), ..NOWHERE };
    assert_eq!(
        resolve("missing-cred", None, &world).unwrap_err(),
        "credential `missing-cred` not found at $CREDENTIALS_DIRECTORY/missing-cred or env $GCIT_CREDENTIAL_MISSING_CRED or <config_dir>/credentials/missing-cred",
    );
}

#[test]
fn rejected_files_end_the_search() {
    let world = World {
        directory: true,
        in_directory: Some(Err("must be 0600")),
        variable: Some("masked"),
        in_config: Some(Ok("masked")),
    };
    assert_eq!(resolve("c", Some("/etc/gcit"), &world).unwrap_err(), "must be 0600");
    let world = World { in_config: Some(Err("must be 0600")), ..NOWHERE };
    assert_eq!(resolve("c", Some("/etc/gcit"), &world).unwrap_err(), "must be 0600");
}

#[test]
fn events_that_answer_nothing_are_ignored() {
    let id = CredentialId::new("c");
    let (state, action) = resolve_secret_step(
        &id,
        &None,
        SearchState::AskingEnvironment,
        SearchEvent::DirectoryKnown(true),
    );
    assert_eq!(state, SearchState::AskingEnvironment);
    assert!(matches!(action, SearchAction::Ignore));
}

type Pool = CredentialPool<u8, SecretString>;

fn resolve_with(pool: &mut Pool, id: &str, world: &World) -> Result<String, String> {
    let known = match pool.begin_secret(&CredentialId::new(id)) {
        SecretLookup::Known(secret) => Some(secret.expose_secret().to_string()),
        SecretLookup::Search(state) => {
            assert_eq!(state, SearchState::Start);
            None
        }
    };
    match known {
        Some(secret) => Ok(secret),
        None => {
            let found = resolve(id, pool.config_dir.as_deref(), world);
            pool.finish_secret(&CredentialId::new(id), found.map(SecretString::from))
                .map(|s| s.expose_secret().to_string())
        }
    }
}

#[test]
fn resolve_secret_caches_resolved_secret() {
    let mut pool: Pool = CredentialPool::new(Some("/etc/gcit".to_string()));
    let world = World { in_config: Some(Ok("cached-secret")), ..NOWHERE };
    assert_eq!(resolve_with(&mut pool, "cache-cred", &world).unwrap(), "cached-secret");
    assert_eq!(resolve_with(&mut pool, "cache-cred", &NOWHERE).unwrap(), "cached-secret");
    let changed = World { variable: Some("another"), ..NOWHERE };
    assert_eq!(resolve_with(&mut pool, "cache-cred", &changed).unwrap(), "cached-secret");
}

#[test]
fn found_secrets_outlive_what_happens_to_other_credentials() {
    let mut pool: Pool = CredentialPool::new(None);
    let world = World { variable: Some("first"), ..NOWHERE };
    resolve_with(&mut pool, "a", &world).unwrap();
    resolve_with(&mut pool, "b", &world).unwrap();
    let mut keep = NameSet::new();
    keep.insert("a".to_string());
    pool.invalidate_except(&keep);
    let later = World { variable: Some("second"), ..NOWHERE };
    assert_eq!(resolve_with(&mut pool, "b", &later).unwrap(), "second");
    assert_eq!(resolve_with(&mut pool, "a", &later).unwrap(), "first");
}

#[test]
fn searches_that_find_nothing_are_not_kept() {
    let mut pool: Pool = CredentialPool::new(None);
    let id = CredentialId::new("c");
    let lost = pool.finish_secret(&id, Err("nowhere".to_string())).map(|_| ());
    assert_eq!(lost, Err("nowhere".to_string()));
    assert!(pool.cached_secret(&id).is_none());
    assert!(resolve_with(&mut pool, "c", &NOWHERE).is_err());
    let world = World { variable: Some("there now"), ..NOWHERE };
    assert_eq!(resolve_with(&mut pool, "c", &world).unwrap(), "there now");
    assert_eq!(pool.cached_secret(&id).unwrap().expose_secret(), "there now");
}

#[test]
fn invalidate_except_drops_credentials_not_in_keep_set() {
    let mut pool: CredentialPool<u8, SecretString> = CredentialPool::new(None);
    let id_keep = CredentialId::new("keep-me");
    let id_drop = CredentialId::new("drop-me");
    pool.finish_secret(&id_keep, Ok(SecretString::from("keep-secret".to_string()))).unwrap();
    pool.finish_secret(&id_drop, Ok(SecretString::from("drop-secret".to_string()))).unwrap();
    pool.finish_github(&id_keep, Ok(1)).unwrap();
    pool.finish_github(&id_drop, Ok(2)).unwrap();
    let mut keep = NameSet::new();
    keep.insert("keep-me".to_string());
    let dropped = pool.invalidate_except(&keep);
    assert!(pool.secrets.contains_key("keep-me"), "kept credential must remain in secrets");
    assert!(
        !pool.secrets.contains_key("drop-me"),
        "non-kept credential must be dropped from secrets",
    );
    assert_eq!(pool.github_resources(&id_keep), Some(&1));
    assert_eq!(pool.github_resources(&id_drop), None);
    assert_eq!(dropped.keys(), vec!["drop-me".to_string()]);
    assert_eq!(dropped.get("drop-me"), Some(&2));
}

#[test]
fn github_clients_that_cannot_be_built_are_not_kept() {
    let mut pool: CredentialPool<u8, SecretString> = CredentialPool::new(None);
    let id = CredentialId::new("gh");
    assert_eq!(
        pool.finish_github(&id, Err("bad token".to_string())).unwrap_err(),
        "github client: bad token",
    );
    assert!(pool.github_resources(&id).is_none());
}

#[test]
fn reads_of_credential_files_are_reported() {
    let report = |o| credential_read_result("/c/f", o);
    assert_eq!(report(ReadOutcome::Read("x\n".to_string())), Ok("x\n".to_string()));
    assert_eq!(
        report(ReadOutcome::TurnsClosed).unwrap_err(),
        "read /c/f: credential read semaphore closed (bug)",
    );
    assert_eq!(
        report(ReadOutcome::NoTurn).unwrap_err(),
        "read /c/f: timed out after 5s waiting for credential read slot",
    );
    assert_eq!(report(ReadOutcome::Failed("denied".to_string())).unwrap_err(), "read /c/f: denied");
    assert_eq!(
        report(ReadOutcome::TaskFailed("gone".to_string())).unwrap_err(),
        "read /c/f: blocking task failed: gone",
    );
    assert_eq!(
        report(ReadOutcome::TimedOut).unwrap_err(),
        "read /c/f: timed out after 5s (slow or hung backing store)",
    );
}

#[test]
fn github_resources_are_handed_out_again_until_dropped() {
    let mut pool: Pool = CredentialPool::new(None);
    let id = CredentialId::new("gh");
    let ask = |pool: &mut Pool, fresh: u8| {
        let known = match pool.begin_github(&CredentialId::new("gh")) {
            GithubLookup::Known(r) => Some(*r),
            GithubLookup::Build => None,
        };
        match known {
            Some(r) => r,
            None => *pool.finish_github(&CredentialId::new("gh"), Ok(fresh)).unwrap(),
        }
    };
    assert_eq!(ask(&mut pool, 1), 1);
    assert_eq!(ask(&mut pool, 2), 1);
    let mut keep = NameSet::new();
    keep.insert("gh".to_string());
    pool.invalidate_except(&keep);
    assert_eq!(ask(&mut pool, 3), 1);
    pool.invalidate_except(&NameSet::new());
    assert!(pool.github_resources(&id).is_none());
    assert_eq!(ask(&mut pool, 4), 4);
}

#[test]
fn github_requests_are_a_second_apart() {
    let mut bucket = github_bucket();
    assert_eq!(bucket.min_interval(), Duration::from_secs(1));
    let start = Instant { nanos: 0 };
    assert_eq!(bucket.reserve(start).nanos, 0);
    assert_eq!(bucket.reserve(start).nanos, 1_000_000_000);
}
