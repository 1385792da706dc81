use gcit::config::{ActionConfig, Config, CredentialId, FlowConfig, PollOverride, SourceConfig};
use gcit::names::NameMap;
use gcit::supervisor::respawn::{
    decide_respawn, handle_flow_exit, handle_respawn_request, ExitEffect, JoinOutcome,
    RespawnDecision, RespawnOutcome, RespawnRequest, RESPAWN_MAX_ATTEMPTS,
};
use gcit::supervisor::types::{FlowExit, FlowLastError, FlowRegistry, FlowRole};
use gcit::time::Timestamp;

fn exit(name: &str, role: FlowRole, panic: Option<&str>) -> JoinOutcome {
    JoinOutcome::Exited(FlowExit {
        flow: name.to_string(),
        role,
        panic: panic.map(|m| m.to_string()),
    })
}

fn poll_clean(name: &str) -> JoinOutcome {
    exit(name, FlowRole::Poll, None)
}

fn dispatcher_clean(name: &str) -> JoinOutcome {
    exit(name, FlowRole::Dispatcher, None)
}

fn poll_panic(name: &str, msg: &str) -> JoinOutcome {
    exit(name, FlowRole::Poll, Some(msg))
}

fn dispatcher_panic(name: &str, msg: &str) -> JoinOutcome {
    exit(name, FlowRole::Dispatcher, Some(msg))
}

fn runtime() -> tokio::runtime::Runtime {
    tokio::runtime::Builder::new_current_thread().enable_all().build().expect("rt build")
}

fn outcome(joined: Result<FlowExit, tokio::task::JoinError>) -> JoinOutcome {
    match joined {
        Ok(e) => JoinOutcome::Exited(e),
        Err(e) if e.is_cancelled() => JoinOutcome::Cancelled,
        Err(_) => JoinOutcome::Failed,
    }
}

#[test]
fn respawn_decide_respawn_clean_exit_returns_clean_exit() {
    let r = poll_clean("flow1");
    assert_eq!(decide_respawn(&r, false), RespawnDecision::CleanExit);
}

#[test]
fn respawn_decide_respawn_clean_exit_with_sibling_already_respawning_returns_clean_exit() {
    let r = dispatcher_clean("flow1");
    assert_eq!(decide_respawn(&r, true), RespawnDecision::CleanExit);
}

#[test]
fn respawn_decide_respawn_first_panic_returns_panic_first() {
    let r = poll_panic("flow1", "boom");
    assert_eq!(decide_respawn(&r, false), RespawnDecision::PanicFirst);
}

#[test]
fn respawn_decide_respawn_duplicate_panic_returns_panic_duplicate() {
    let r = dispatcher_panic("flow1", "boom");
    assert_eq!(decide_respawn(&r, true), RespawnDecision::PanicDuplicate);
}

#[test]
fn respawn_decide_respawn_panic_race_clean_exit_observed_first_then_panic_returns_panic_first() {
    let clean = poll_clean("flow1");
    assert_eq!(decide_respawn(&clean, false), RespawnDecision::CleanExit);
    let panicked = dispatcher_panic("flow1", "boom");
    assert_eq!(decide_respawn(&panicked, false), RespawnDecision::PanicFirst);
}

#[test]
fn respawn_decide_respawn_panic_then_clean_exit_classifies_clean_exit_with_already_respawning() {
    let panicked = dispatcher_panic("flow1", "boom");
    assert_eq!(decide_respawn(&panicked, false), RespawnDecision::PanicFirst);
    let clean = poll_clean("flow1");
    assert_eq!(decide_respawn(&clean, true), RespawnDecision::CleanExit);
}

#[test]
fn respawn_decide_respawn_join_cancelled_returns_cancelled() {
    let cancelled: Result<FlowExit, tokio::task::JoinError> = runtime().block_on(async {
        let h = tokio::spawn(async { std::future::pending::<FlowExit>().await });
        h.abort();
        h.await
    });
    assert!(cancelled.as_ref().map(|_| ()).err().unwrap().is_cancelled());
    assert_eq!(decide_respawn(&outcome(cancelled), false), RespawnDecision::Cancelled);
}

#[test]
fn respawn_decide_respawn_uncaught_panic_returns_unexpected_join_error() {
    let panicked: Result<FlowExit, tokio::task::JoinError> = runtime().block_on(async {
        let h: tokio::task::JoinHandle<FlowExit> = tokio::spawn(async {
            panic!("test panic that escapes catch_unwind");
        });
        h.await
    });
    let err = panicked.as_ref().expect_err("must be Err");
    assert!(err.is_panic());
    assert!(!err.is_cancelled());
    assert_eq!(decide_respawn(&outcome(panicked), false), RespawnDecision::UnexpectedJoinError);
}

fn now() -> Timestamp {
    Timestamp::new(1_777_636_800, 0).expect("a calendar time")
}

fn registry(handle: bool, pending: u8, respawning: bool) -> FlowRegistry<&'static str> {
    let mut reg = FlowRegistry::new();
    if handle {
        reg.handles.insert("flow1".to_string(), "handle");
    }
    if pending > 0 {
        reg.pending_exits.insert("flow1".to_string(), pending);
    }
    if respawning {
        reg.respawning_flows.insert("flow1".to_string());
    }
    reg
}

fn config(enabled: bool) -> Config {
    Config {
        flow: vec![FlowConfig {
            name: "flow1".to_string(),
            enabled,
            description: None,
            source: SourceConfig {
                url: "https://github.com/myorg/linux-builder.git".to_string(),
                ref_name: "refs/heads/main".to_string(),
                credential_id: None,
            },
            action: ActionConfig::GithubWorkflowDispatch {
                repo: "myorg/linux-builder".to_string(),
                workflow: "ci.yml".to_string(),
                ref_name: "refs/heads/main".to_string(),
                credential_id: CredentialId::new("github_pat"),
                inputs: NameMap::new(),
            },
            destination: vec![],
            poll: PollOverride::default(),
        }],
    }
}

fn request(attempts: u32) -> RespawnRequest {
    RespawnRequest { flow: "flow1".to_string(), attempts }
}

#[test]
fn first_panic_records_cancels_and_asks_for_a_respawn() {
    let mut reg = registry(true, 2, false);
    let mut errors: NameMap<FlowLastError> = NameMap::new();
    match handle_flow_exit(poll_panic("flow1", "boom"), &mut errors, &mut reg, now()) {
        ExitEffect::Respawn { cancelled, request } => {
            assert_eq!(cancelled, Some("handle"));
            assert_eq!(request.flow, "flow1");
            assert_eq!(request.attempts, 0);
        }
        ExitEffect::Nothing => panic!("a first panic must be respawned"),
    }
    assert!(reg.respawning_flows.contains("flow1"));
    assert!(!reg.handles.contains_key("flow1"));
    assert_eq!(reg.pending_exits_of("flow1"), 1);
    let e = errors.get("flow1").expect("recorded");
    assert_eq!(e.kind(), "panic");
    assert_eq!(e.message(), "boom");
    assert_eq!(e.at(), now());
    assert_eq!(e.retry_at(), None);
}

#[test]
fn second_panic_is_recorded_but_not_respawned() {
    let mut reg = registry(false, 1, true);
    let mut errors: NameMap<FlowLastError> = NameMap::new();
    let effect = handle_flow_exit(dispatcher_panic("flow1", "again"), &mut errors, &mut reg, now());
    assert!(matches!(effect, ExitEffect::Nothing));
    assert_eq!(errors.get("flow1").expect("recorded").message(), "again");
    assert!(!reg.pending_exits.contains_key("flow1"));
    assert!(reg.respawning_flows.contains("flow1"));
}

#[test]
fn clean_exit_then_panic_is_respawned() {
    let mut reg = registry(true, 2, false);
    let mut errors: NameMap<FlowLastError> = NameMap::new();
    let first = handle_flow_exit(poll_clean("flow1"), &mut errors, &mut reg, now());
    assert!(matches!(first, ExitEffect::Nothing));
    assert!(!reg.handles.contains_key("flow1"));
    assert_eq!(errors.len(), 0);
    let second = handle_flow_exit(dispatcher_panic("flow1", "boom"), &mut errors, &mut reg, now());
    match second {
        ExitEffect::Respawn { cancelled, .. } => assert_eq!(cancelled, None),
        ExitEffect::Nothing => panic!("the panic must be respawned"),
    }
    assert!(!reg.pending_exits.contains_key("flow1"));
}

#[test]
fn clean_exit_of_a_sibling_keeps_the_respawn_under_way() {
    let mut reg = registry(false, 1, true);
    let mut errors: NameMap<FlowLastError> = NameMap::new();
    handle_flow_exit(dispatcher_clean("flow1"), &mut errors, &mut reg, now());
    assert!(reg.respawning_flows.contains("flow1"));
    assert!(!reg.pending_exits.contains_key("flow1"));
}

#[test]
fn cancelled_and_failed_joins_touch_nothing() {
    for joined in [JoinOutcome::Cancelled, JoinOutcome::Failed] {
        let mut reg = registry(true, 2, false);
        let mut errors: NameMap<FlowLastError> = NameMap::new();
        let effect = handle_flow_exit(joined, &mut errors, &mut reg, now());
        assert!(matches!(effect, ExitEffect::Nothing));
        assert!(reg.handles.contains_key("flow1"));
        assert_eq!(reg.pending_exits_of("flow1"), 2);
        assert_eq!(errors.len(), 0);
    }
}

#[test]
fn exits_of_one_flow_leave_another_alone() {
    let mut reg = registry(true, 2, false);
    reg.register_spawn("other", "other handle");
    let mut errors: NameMap<FlowLastError> = NameMap::new();
    handle_flow_exit(poll_panic("flow1", "boom"), &mut errors, &mut reg, now());
    assert_eq!(reg.handles.get("other"), Some(&"other handle"));
    assert_eq!(reg.pending_exits_of("other"), 2);
    assert!(!reg.respawning_flows.contains("other"));
    assert!(!errors.contains_key("other"));
}

#[test]
fn two_exits_undo_the_count_of_a_spawn() {
    let mut reg: FlowRegistry<u8> = FlowRegistry::new();
    reg.register_spawn("flow1", 1);
    reg.register_spawn("flow1", 2);
    assert_eq!(reg.pending_exits_of("flow1"), 4);
    reg.note_exit("flow1");
    reg.note_exit("flow1");
    assert_eq!(reg.pending_exits_of("flow1"), 2);
    reg.note_exit("flow1");
    reg.note_exit("flow1");
    reg.note_exit("flow1");
    assert_eq!(reg.pending_exits.len(), 0);
}

#[test]
fn respawn_is_put_off_while_tasks_have_not_ended() {
    let mut reg = registry(false, 2, true);
    match handle_respawn_request(&request(0), &config(true), &mut reg) {
        RespawnOutcome::Retry(next) => {
            assert_eq!(next.flow, "flow1");
            assert_eq!(next.attempts, 1);
        }
        other => panic!("expected Retry, got {other:?}"),
    }
    assert!(reg.respawning_flows.contains("flow1"));
}

#[test]
fn respawn_goes_ahead_once_the_budget_is_spent() {
    let mut reg = registry(false, 1, true);
    let outcome = handle_respawn_request(&request(RESPAWN_MAX_ATTEMPTS), &config(true), &mut reg);
    assert!(matches!(outcome, RespawnOutcome::Spawn(0)), "got {outcome:?}");
    assert!(!reg.respawning_flows.contains("flow1"));
    let mut reg = registry(false, 1, true);
    let outcome =
        handle_respawn_request(&request(RESPAWN_MAX_ATTEMPTS - 1), &config(true), &mut reg);
    assert!(matches!(outcome, RespawnOutcome::Retry(_)), "got {outcome:?}");
}

#[test]
fn respawn_yields_to_a_running_flow_and_to_the_config() {
    let mut reg = registry(true, 0, true);
    let outcome = handle_respawn_request(&request(0), &config(true), &mut reg);
    assert!(matches!(outcome, RespawnOutcome::AlreadyRunning));
    assert!(!reg.respawning_flows.contains("flow1"));
    let mut reg = registry(false, 0, true);
    let outcome = handle_respawn_request(&request(0), &Config { flow: vec![] }, &mut reg);
    assert!(matches!(outcome, RespawnOutcome::NotConfigured));
    let mut reg = registry(false, 0, true);
    let outcome = handle_respawn_request(&request(0), &config(false), &mut reg);
    assert!(matches!(outcome, RespawnOutcome::Disabled));
    assert!(!reg.respawning_flows.contains("flow1"));
    let mut reg = registry(false, 0, true);
    let outcome = handle_respawn_request(&request(0), &config(true), &mut reg);
    assert!(matches!(outcome, RespawnOutcome::Spawn(0)));
}
