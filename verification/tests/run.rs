use gcit::supervisor::run::{
    bind_control_step, first_listen_step, lock_failure, next_boot_step, next_shutdown_step, react,
    watchdog_tick, BootOutcome, BootStep, ConfigError, DaemonError, DaemonEvent, DaemonReaction,
    ListenEvent, ListenStep, ShutdownStep, StateError,
};
use gcit::time::Duration;

fn make_config_error() -> ConfigError {
    ConfigError::Parse {
        path: "config.toml".to_string(),
        line: 7,
        message: "duplicate flow name".to_string(),
    }
}

#[test]
fn daemon_error_config_display_starts_with_config_and_lists_count() {
    let err = DaemonError::Config(vec![make_config_error()]);
    let rendered = err.to_text();
    assert!(
        rendered.starts_with("config: "),
        "Config Display must lead with 'config: '; got: {rendered}",
    );
    assert!(
        rendered.contains("error(s)"),
        "Config Display must surface the count phrase 'error(s)'; got: {rendered}",
    );
}

#[test]
fn daemon_error_config_display_renders_each_nested_error_on_its_own_line() {
    let err = DaemonError::Config(vec![make_config_error(), make_config_error()]);
    let rendered = err.to_text();
    let dashes = rendered.matches("\n  - ").count();
    assert_eq!(
        dashes, 2,
        "Config Display must render one bulleted line per nested ConfigError; got: {rendered}",
    );
    assert_eq!(
        rendered,
        "config: 2 error(s):\n  - config.toml:7: duplicate flow name\n  - config.toml:7: duplicate flow name\n",
    );
}

#[test]
fn daemon_error_state_display_starts_with_state_prefix() {
    let io_err = std::io::Error::new(std::io::ErrorKind::NotFound, "missing");
    let state_err =
        StateError::LockOpen { path: "state.json".to_string(), source: io_err.to_string() };
    let rendered = DaemonError::State(state_err).to_text();
    assert!(
        rendered.starts_with("state: "),
        "State Display must lead with 'state: '; got: {rendered}",
    );
}

#[test]
fn daemon_error_control_listener_display_starts_with_control_listener_prefix() {
    let rendered =
        DaemonError::ControlListener("bind socket.path: address in use".to_string()).to_text();
    assert!(
        rendered.starts_with("control listener: "),
        "ControlListener Display must lead with 'control listener: '; got: {rendered}",
    );
}

#[test]
fn daemon_error_signal_setup_display_starts_with_signal_setup_prefix() {
    let rendered = DaemonError::SignalSetup("registering SIGHUP failed".to_string()).to_text();
    assert!(
        rendered.starts_with("signal setup: "),
        "SignalSetup Display must lead with 'signal setup: '; got: {rendered}",
    );
}

#[test]
fn daemon_error_http_client_display_starts_with_http_client_construction_prefix() {
    let rendered = DaemonError::HttpClient("invalid TLS config".to_string()).to_text();
    assert!(
        rendered.starts_with("http client construction: "),
        "HttpClient Display must lead with 'http client construction: '; got: {rendered}",
    );
}

#[test]
fn daemon_error_source_returns_some_for_state_variant() {
    let io_err = std::io::Error::new(std::io::ErrorKind::PermissionDenied, "denied");
    let state_err =
        StateError::LockOpen { path: "state.json".to_string(), source: io_err.to_string() };
    let err = DaemonError::State(state_err);
    assert!(
        err.source().is_some(),
        "State variant must surface its nested StateError via source()",
    );
}

#[test]
fn daemon_error_source_returns_none_for_string_carrying_variants() {
    assert!(DaemonError::Config(vec![make_config_error()]).source().is_none());
    assert!(DaemonError::ControlListener("x".to_string()).source().is_none());
    assert!(DaemonError::SignalSetup("y".to_string()).source().is_none());
    assert!(DaemonError::HttpClient("z".to_string()).source().is_none());
}

#[test]
fn state_errors_say_what_is_wrong() {
    assert_eq!(
        lock_failure("/run/gcit.lock", true, "busy").to_text(),
        "lock file /run/gcit.lock is held by another daemon",
    );
    assert_eq!(
        lock_failure("/run/gcit.lock", false, "denied").to_text(),
        "lock file /run/gcit.lock: denied",
    );
    assert_eq!(StateError::Other { text: "odd".to_string() }.to_text(), "odd");
    assert_eq!(ConfigError::Other { text: "no flows".to_string() }.to_text(), "no flows");
}

#[test]
fn inherited_control_socket_comes_first() {
    let fds = vec![
        (3, "other".to_string()),
        (4, "control".to_string()),
        (5, "control".to_string()),
    ];
    assert!(matches!(first_listen_step(&fds), ListenStep::Adopt(4)));
    assert!(matches!(first_listen_step(&vec![]), ListenStep::CreateParents));
}

#[test]
fn stale_sockets_are_removed_and_live_ones_are_not() {
    let step = bind_control_step("/run/s", ListenStep::CreateParents, ListenEvent::Done(Ok(())));
    assert!(matches!(step, ListenStep::CheckPath));
    let fresh = bind_control_step("/run/s", ListenStep::CheckPath, ListenEvent::Answer(false));
    assert!(matches!(fresh, ListenStep::Bind));
    let step = bind_control_step("/run/s", step, ListenEvent::Answer(true));
    assert!(matches!(step, ListenStep::TryConnect));
    match bind_control_step("/run/s", ListenStep::TryConnect, ListenEvent::Answer(true)) {
        ListenStep::Failed(e) => assert_eq!(
            e.to_text(),
            "control listener: /run/s: another gcit daemon is already listening; refusing to start",
        ),
        other => panic!("expected Failed, got {other:?}"),
    }
    let step = bind_control_step("/run/s", step, ListenEvent::Answer(false));
    assert!(matches!(step, ListenStep::RemoveStale));
    let step =
        bind_control_step("/run/s", step, ListenEvent::Done(Err("already gone".to_string())));
    assert!(matches!(step, ListenStep::Bind));
    let step = bind_control_step("/run/s", step, ListenEvent::Done(Ok(())));
    assert!(matches!(step, ListenStep::Listening));
}

#[test]
fn listening_fails_with_the_reason() {
    for step in [ListenStep::Adopt(3), ListenStep::CreateParents, ListenStep::Bind] {
        match bind_control_step("/run/s", step, ListenEvent::Done(Err("denied".to_string()))) {
            ListenStep::Failed(e) => assert_eq!(e.to_text(), "control listener: denied"),
            other => panic!("expected Failed, got {other:?}"),
        }
    }
}

#[test]
fn boot_goes_through_every_step() {
    let mut step = BootStep::LoadConfig;
    let mut seen = vec![step];
    while step != BootStep::Running {
        step = next_boot_step(step, BootOutcome::Done).expect("no failure");
        seen.push(step);
    }
    assert_eq!(
        seen,
        vec![
            BootStep::LoadConfig,
            BootStep::LocateLock,
            BootStep::OpenLock,
            BootStep::TakeLock,
            BootStep::LocateState,
            BootStep::LoadState,
            BootStep::StartStateWriter,
            BootStep::BuildHttpClient,
            BootStep::SpawnFlows,
            BootStep::Listen,
            BootStep::StartControl,
            BootStep::StartWatchdog,
            BootStep::InstallSignals,
            BootStep::NotifyReady,
            BootStep::Running,
        ],
    );
}

#[test]
fn boot_failures_are_told_apart() {
    let failed = |step, outcome| next_boot_step(step, outcome).unwrap_err();
    let text = "no".to_string();
    assert!(matches!(
        failed(BootStep::LoadConfig, BootOutcome::ConfigRejected(vec![make_config_error()])),
        DaemonError::Config(_),
    ));
    let held = StateError::LockHeld { path: "/run/l".to_string() };
    assert!(matches!(
        failed(BootStep::TakeLock, BootOutcome::StateFailed(held)),
        DaemonError::State(StateError::LockHeld { .. }),
    ));
    assert!(matches!(
        failed(BootStep::BuildHttpClient, BootOutcome::Failed(text.clone())),
        DaemonError::HttpClient(_),
    ));
    assert!(matches!(
        failed(BootStep::Listen, BootOutcome::Failed(text.clone())),
        DaemonError::ControlListener(_),
    ));
    assert!(matches!(
        failed(BootStep::InstallSignals, BootOutcome::Failed(text.clone())),
        DaemonError::SignalSetup(_),
    ));
    assert_eq!(
        next_boot_step(BootStep::StartWatchdog, BootOutcome::Failed(text)).unwrap(),
        BootStep::StartWatchdog,
    );
}

#[test]
fn only_stop_signals_shut_the_daemon_down() {
    assert_eq!(react(DaemonEvent::Hangup), DaemonReaction::Reload);
    assert_eq!(react(DaemonEvent::Terminate), DaemonReaction::ShutDown);
    assert_eq!(react(DaemonEvent::Interrupt), DaemonReaction::ShutDown);
    assert_eq!(react(DaemonEvent::Command), DaemonReaction::ServeCommand);
    assert_eq!(react(DaemonEvent::TaskEnded), DaemonReaction::HandleExit);
    assert_eq!(react(DaemonEvent::RespawnRequested), DaemonReaction::HandleRespawn);
}

#[test]
fn shutdown_waits_for_the_writer_last() {
    let mut step = ShutdownStep::NotifyStopping;
    let mut seen = vec![step];
    while step != ShutdownStep::Down {
        step = next_shutdown_step(step);
        seen.push(step);
    }
    assert_eq!(
        seen,
        vec![
            ShutdownStep::NotifyStopping,
            ShutdownStep::CancelAll,
            ShutdownStep::AwaitFlows,
            ShutdownStep::AwaitControl,
            ShutdownStep::AwaitWatchdog,
            ShutdownStep::DropSpawnContext,
            ShutdownStep::DropStateSender,
            ShutdownStep::JoinStateWriter,
            ShutdownStep::Down,
        ],
    );
}

#[test]
fn watchdog_ticks_twice_in_its_interval() {
    assert_eq!(watchdog_tick(Some(Duration::from_secs(5))), Some(Duration::from_millis(2500)));
    assert_eq!(watchdog_tick(None), None);
}
