use gcit::supervisor::respawn::{decide_respawn, JoinOutcome, RespawnDecision};
use gcit::supervisor::types::{FlowExit, FlowRole};

fn exit(name: &str, role: FlowRole, panic: Option<&str>) -> JoinOutcome {
    JoinOutcome::Exited(FlowExit {
        flow: name.to_string(),
        role,
        panic: panic.map(|m| m.to_string()),
    })
}

fn poll_clean(name: &str) -> JoinOutcome {
    exit(name, FlowRole::Poll, None)
}

fn dispatcher_clean(name: &str) -> JoinOutcome {
    exit(name, FlowRole::Dispatcher, None)
}

fn poll_panic(name: &str, msg: &str) -> JoinOutcome {
    exit(name, FlowRole::Poll, Some(msg))
}

fn dispatcher_panic(name: &str, msg: &str) -> JoinOutcome {
    exit(name, FlowRole::Dispatcher, Some(msg))
}

fn runtime() -> tokio::runtime::Runtime {
    tokio::runtime::Builder::new_current_thread().enable_all().build().expect("rt build")
}

fn outcome(joined: Result<FlowExit, tokio::task::JoinError>) -> JoinOutcome {
    match joined {
        Ok(e) => JoinOutcome::Exited(e),
        Err(e) if e.is_cancelled() => JoinOutcome::Cancelled,
        Err(_) => JoinOutcome::Failed,
    }
}

#[test]
fn decision_decide_respawn_clean_exit_returns_clean_exit() {
    let r = poll_clean("flow1");
    assert_eq!(decide_respawn(&r, false), RespawnDecision::CleanExit);
}

#[test]
fn decision_decide_respawn_clean_exit_with_sibling_already_respawning_returns_clean_exit() {
    let r = dispatcher_clean("flow1");
    assert_eq!(decide_respawn(&r, true), RespawnDecision::CleanExit);
}

#[test]
fn decision_decide_respawn_first_panic_returns_panic_first() {
    let r = poll_panic("flow1", "boom");
    assert_eq!(decide_respawn(&r, false), RespawnDecision::PanicFirst);
}

#[test]
fn decision_decide_respawn_duplicate_panic_returns_panic_duplicate() {
    let r = dispatcher_panic("flow1", "boom");
    assert_eq!(decide_respawn(&r, true), RespawnDecision::PanicDuplicate);
}

#[test]
fn decision_decide_respawn_panic_race_clean_exit_observed_first_then_panic_returns_panic_first() {
    let clean = poll_clean("flow1");
    assert_eq!(decide_respawn(&clean, false), RespawnDecision::CleanExit);
    let panicked = dispatcher_panic("flow1", "boom");
    assert_eq!(decide_respawn(&panicked, false), RespawnDecision::PanicFirst);
}

#[test]
fn decision_decide_respawn_panic_then_clean_exit_classifies_clean_exit_with_already_respawning() {
    let panicked = dispatcher_panic("flow1", "boom");
    assert_eq!(decide_respawn(&panicked, false), RespawnDecision::PanicFirst);
    let clean = poll_clean("flow1");
    assert_eq!(decide_respawn(&clean, true), RespawnDecision::CleanExit);
}

#[test]
fn decision_decide_respawn_join_cancelled_returns_cancelled() {
    let cancelled: Result<FlowExit, tokio::task::JoinError> = runtime().block_on(async {
        let h = tokio::spawn(async { std::future::pending::<FlowExit>().await });
        h.abort();
        h.await
    });
    assert!(cancelled.as_ref().map(|_| ()).err().unwrap().is_cancelled());
    assert_eq!(decide_respawn(&outcome(cancelled), false), RespawnDecision::Cancelled);
}

#[test]
fn decision_decide_respawn_uncaught_panic_returns_unexpected_join_error() {
    let panicked: Result<FlowExit, tokio::task::JoinError> = runtime().block_on(async {
        let h: tokio::task::JoinHandle<FlowExit> = tokio::spawn(async {
            panic!("test panic that escapes catch_unwind");
        });
        h.await
    });
    let err = panicked.as_ref().expect_err("must be Err");
    assert!(err.is_panic());
    assert!(!err.is_cancelled());
    assert_eq!(decide_respawn(&outcome(panicked), false), RespawnDecision::UnexpectedJoinError);
}
