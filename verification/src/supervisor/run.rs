//! How the daemon comes up, what it reacts to, and how it goes down.
use vstd::prelude::*;

use crate::text::{decimal, decimal_text, glue, same_text};
use crate::time::Duration;

verus! {

/// How many updates of the persisted state may wait to be written.
pub const STATE_QUEUE: usize = 256;

/// How many requests over the control channel may wait for the supervisor.
pub const CONTROL_COMMAND_QUEUE: usize = 8;

/// How many requests to respawn a flow may wait for the supervisor.
pub const RESPAWN_QUEUE: usize = 32;

/// What is wrong with a configuration.
#[derive(Debug)]
pub enum ConfigError {
    /// A line of a file makes no sense.
    Parse { path: String, line: usize, message: String },
    /// Something else, which the text says.
    Other { text: String },
}

/// What is said of a fault of a configuration.
pub open spec fn config_error_text(error: ConfigError) -> Seq<char> {
    match error {
        ConfigError::Parse { path, line, message } => path@ + ":"@ + decimal_text(line as nat)
            + ": "@ + message@,
        ConfigError::Other { text } => text@,
    }
}

impl ConfigError {
    /// What is said of the fault.
    pub fn to_text(&self) -> (r: String)
        ensures
            r@ == config_error_text(*self),
    {
        match self {
            ConfigError::Parse { path, line, message } => {
                let mut m: String = glue(path.as_str(), ":");
                m.append(decimal(*line as u64).as_str());
                m.append(": ");
                m.append(message.as_str());
                m
            },
            ConfigError::Other { text } => text.clone(),
        }
    }
}

/// Why the persisted state cannot be had.
#[derive(Debug)]
pub enum StateError {
    /// The lock file cannot be opened.
    LockOpen { path: String, source: String },
    /// Another daemon holds the lock.
    LockHeld { path: String },
    /// The lock cannot be taken.
    LockAcquireFailed { path: String, source: String },
    /// Something else, which the text says.
    Other { text: String },
}

/// What is said of persisted state that cannot be had.
pub open spec fn state_error_text(error: StateError) -> Seq<char> {
    match error {
        StateError::LockOpen { path, source } => "open lock file "@ + path@ + ": "@ + source@,
        StateError::LockHeld { path } => "lock file "@ + path@ + " is held by another daemon"@,
        StateError::LockAcquireFailed { path, source } => "lock file "@ + path@ + ": "@ + source@,
        StateError::Other { text } => text@,
    }
}

impl StateError {
    /// What is said of the failure.
    pub fn to_text(&self) -> (r: String)
        ensures
            r@ == state_error_text(*self),
    {
        match self {
            StateError::LockOpen { path, source } => {
                let mut m: String = glue("open lock file ", path.as_str());
                m.append(": ");
                m.append(source.as_str());
                m
            },
            StateError::LockHeld { path } => {
                let mut m: String = glue("lock file ", path.as_str());
                m.append(" is held by another daemon");
                m
            },
            StateError::LockAcquireFailed { path, source } => {
                let mut m: String = glue("lock file ", path.as_str());
                m.append(": ");
                m.append(source.as_str());
                m
            },
            StateError::Other { text } => text.clone(),
        }
    }
}

/// What is reported of a lock that could not be taken: that another daemon holds it, where
/// taking it would have meant to wait, or else what went wrong.
pub fn lock_failure(path: &str, would_block: bool, source: &str) -> (r: StateError)
    ensures
        would_block ==> (r matches StateError::LockHeld { path: p } && p@ == path@),
        !would_block ==> (r matches StateError::LockAcquireFailed { path: p, source: s } && p@
            == path@ && s@ == source@),
{
    if would_block {
        StateError::LockHeld { path: path.to_string() }
    } else {
        StateError::LockAcquireFailed { path: path.to_string(), source: source.to_string() }
    }
}

/// Why the daemon does not come up.
#[derive(Debug)]
pub enum DaemonError {
    Config(Vec<ConfigError>),
    State(StateError),
    ControlListener(String),
    SignalSetup(String),
    HttpClient(String),
}

/// One line for each fault of a configuration.
pub open spec fn fault_lines(errors: Seq<ConfigError>) -> Seq<char>
    decreases errors.len(),
{
    if errors.len() == 0 {
        Seq::empty()
    } else {
        fault_lines(errors.drop_last()) + "  - "@ + config_error_text(errors.last()) + "\n"@
    }
}

/// What is said of a daemon that does not come up.
pub open spec fn daemon_error_text(error: DaemonError) -> Seq<char> {
    match error {
        DaemonError::Config(errors) => "config: "@ + decimal_text(errors@.len()) + " error(s):\n"@
            + fault_lines(errors@),
        DaemonError::State(e) => "state: "@ + state_error_text(e),
        DaemonError::ControlListener(s) => "control listener: "@ + s@,
        DaemonError::SignalSetup(s) => "signal setup: "@ + s@,
        DaemonError::HttpClient(s) => "http client construction: "@ + s@,
    }
}

impl DaemonError {
    /// What is said of the failure: for a bad configuration, one line for each fault.
    pub fn to_text(&self) -> (r: String)
        ensures
            r@ == daemon_error_text(*self),
    {
        match self {
            DaemonError::Config(errors) => {
                let mut m: String = glue("config: ", decimal(errors.len() as u64).as_str());
                m.append(" error(s):\n");
                let ghost head = m@;
                let mut i: usize = 0;
                assert(m@ =~= head + fault_lines(errors@.take(0)));
                while i < errors.len()
                    invariant
                        i <= errors@.len(),
                        m@ == head + fault_lines(errors@.take(i as int)),
                    decreases errors@.len() - i,
                {
                    m.append("  - ");
                    m.append(errors[i].to_text().as_str());
                    m.append("\n");
                    proof {
                        let longer = errors@.take(i + 1);
                        assert(longer.drop_last() =~= errors@.take(i as int));
                        assert(longer.last() == errors@[i as int]);
                        assert(m@ =~= head + fault_lines(longer));
                    }
                    i += 1;
                }
                assert(errors@.take(errors@.len() as int) =~= errors@);
                m
            },
            DaemonError::State(e) => glue("state: ", e.to_text().as_str()),
            DaemonError::ControlListener(s) => glue("control listener: ", s.as_str()),
            DaemonError::SignalSetup(s) => glue("signal setup: ", s.as_str()),
            DaemonError::HttpClient(s) => glue("http client construction: ", s.as_str()),
        }
    }

    /// The error behind this one, where there is one: only that of the persisted state.
    pub fn source(&self) -> (r: Option<&StateError>)
        ensures
            match self {
                DaemonError::State(e) => r == Some(e),
                _ => r is None,
            },
    {
        match self {
            DaemonError::State(e) => Some(e),
            _ => None,
        }
    }
}

/// The index of the first socket named `control` among inherited ones.
pub open spec fn control_socket_at(fds: Seq<(i32, String)>, i: int) -> bool {
    &&& 0 <= i < fds.len()
    &&& fds[i].1@ == "control"@
    &&& forall|j: int| 0 <= j < i ==> (#[trigger] fds[j]).1@ != "control"@
}

/// Whether none of the inherited sockets is named `control`.
pub open spec fn no_control_socket(fds: Seq<(i32, String)>) -> bool {
    forall|i: int| 0 <= i < fds.len() ==> (#[trigger] fds[i]).1@ != "control"@
}

/// A step of getting the control socket.
#[derive(Debug)]
pub enum ListenStep {
    /// Listen on an inherited socket.
    Adopt(i32),
    /// Make the directories above the socket's path.
    CreateParents,
    /// Find out whether there is something at the path.
    CheckPath,
    /// Find out whether someone listens there.
    TryConnect,
    /// Remove what is there.
    RemoveStale,
    /// Listen on a new socket at the path.
    Bind,
    /// The daemon listens.
    Listening,
    /// The daemon does not come up.
    Failed(DaemonError),
}

/// What a step came to.
#[derive(Debug)]
pub enum ListenEvent {
    /// Whether it worked.
    Done(Result<(), String>),
    /// The answer to what was to be found out.
    Answer(bool),
}

/// The first step of getting the control socket: an inherited one named `control` is taken
/// before any other is made.
pub fn first_listen_step(listen_fds: &Vec<(i32, String)>) -> (r: ListenStep)
    ensures
        r is Adopt || r is CreateParents,
        r matches ListenStep::Adopt(fd) ==> exists|i: int| #[trigger]
            control_socket_at(listen_fds@, i) && listen_fds@[i].0 == fd,
        r is CreateParents <==> forall|i: int|
            0 <= i < listen_fds@.len() ==> (#[trigger] listen_fds@[i]).1@ != "control"@,
        r is CreateParents <==> no_control_socket(listen_fds@),
{
    let mut i: usize = 0;
    while i < listen_fds.len()
        invariant
            i <= listen_fds@.len(),
            forall|j: int| 0 <= j < i ==> (#[trigger] listen_fds@[j]).1@ != "control"@,
        decreases listen_fds@.len() - i,
    {
        if same_text(listen_fds[i].1.as_str(), "control") {
            assert(control_socket_at(listen_fds@, i as int));
            return ListenStep::Adopt(listen_fds[i].0);
        }
        i += 1;
    }
    ListenStep::CreateParents
}

/// What getting the control socket has come to, over the views of texts.
pub ghost enum ListenView {
    Adopt(i32),
    CreateParents,
    CheckPath,
    TryConnect,
    RemoveStale,
    Bind,
    Listening,
    Failed(Seq<char>),
}

impl View for ListenStep {
    type V = ListenView;

    open spec fn view(&self) -> ListenView {
        match self {
            ListenStep::Adopt(fd) => ListenView::Adopt(*fd),
            ListenStep::CreateParents => ListenView::CreateParents,
            ListenStep::CheckPath => ListenView::CheckPath,
            ListenStep::TryConnect => ListenView::TryConnect,
            ListenStep::RemoveStale => ListenView::RemoveStale,
            ListenStep::Bind => ListenView::Bind,
            ListenStep::Listening => ListenView::Listening,
            ListenStep::Failed(e) => ListenView::Failed(daemon_error_text(*e)),
        }
    }
}

/// The step after `step`, which came to `event`. A removal that fails does not matter: it shows
/// when the new socket is made.
pub open spec fn listen_after(path: Seq<char>, step: ListenView, event: ListenEvent) -> ListenView {
    match (step, event) {
        (ListenView::Adopt(_), ListenEvent::Done(Ok(_))) => ListenView::Listening,
        (ListenView::CreateParents, ListenEvent::Done(Ok(_))) => ListenView::CheckPath,
        (ListenView::CheckPath, ListenEvent::Answer(true)) => ListenView::TryConnect,
        (ListenView::CheckPath, ListenEvent::Answer(false)) => ListenView::Bind,
        (ListenView::TryConnect, ListenEvent::Answer(true)) => ListenView::Failed(
            "control listener: "@ + (path
                + ": another gcit daemon is already listening; refusing to start"@),
        ),
        (ListenView::TryConnect, ListenEvent::Answer(false)) => ListenView::RemoveStale,
        (ListenView::RemoveStale, ListenEvent::Done(_)) => ListenView::Bind,
        (ListenView::Bind, ListenEvent::Done(Ok(_))) => ListenView::Listening,
        (ListenView::Adopt(_), ListenEvent::Done(Err(e))) => ListenView::Failed(
            "control listener: "@ + e@,
        ),
        (ListenView::CreateParents, ListenEvent::Done(Err(e))) => ListenView::Failed(
            "control listener: "@ + e@,
        ),
        (ListenView::Bind, ListenEvent::Done(Err(e))) => ListenView::Failed(
            "control listener: "@ + e@,
        ),
        _ => step,
    }
}

/// The step after `step`, which came to `event`, where the socket's path is `path`.
pub fn bind_control_step(path: &str, step: ListenStep, event: ListenEvent) -> (r: ListenStep)
    ensures
        r@ == listen_after(path@, step@, event),
        r is Failed && !(step is Failed) ==> r->Failed_0 is ControlListener,
{
    match (step, event) {
        (ListenStep::Adopt(_), ListenEvent::Done(done)) => match done {
            Ok(()) => ListenStep::Listening,
            Err(e) => ListenStep::Failed(DaemonError::ControlListener(e)),
        },
        (ListenStep::CreateParents, ListenEvent::Done(done)) => match done {
            Ok(()) => ListenStep::CheckPath,
            Err(e) => ListenStep::Failed(DaemonError::ControlListener(e)),
        },
        (ListenStep::CheckPath, ListenEvent::Answer(present)) => if present {
            ListenStep::TryConnect
        } else {
            ListenStep::Bind
        },
        (ListenStep::TryConnect, ListenEvent::Answer(alive)) => if alive {
            ListenStep::Failed(
                DaemonError::ControlListener(
                    glue(path, ": another gcit daemon is already listening; refusing to start"),
                ),
            )
        } else {
            ListenStep::RemoveStale
        },
        (ListenStep::RemoveStale, ListenEvent::Done(_)) => ListenStep::Bind,
        (ListenStep::Bind, ListenEvent::Done(done)) => match done {
            Ok(()) => ListenStep::Listening,
            Err(e) => ListenStep::Failed(DaemonError::ControlListener(e)),
        },
        (step, _) => step,
    }
}

/// What is at a socket's path is removed only after no one was found to listen there.
pub proof fn live_sockets_are_not_removed(path: Seq<char>, step: ListenView, event: ListenEvent)
    requires
        !(step is RemoveStale),
        listen_after(path, step, event) is RemoveStale,
    ensures
        step is TryConnect,
        event == ListenEvent::Answer(false),
{
}

/// A new socket is made only at a path where nothing is, or after what is there was to be
/// removed.
pub proof fn sockets_are_bound_to_free_paths(path: Seq<char>, step: ListenView, event: ListenEvent)
    requires
        !(step is Bind),
        listen_after(path, step, event) is Bind,
    ensures
        step is RemoveStale || (step is CheckPath && event == ListenEvent::Answer(false)),
{
}

/// A step of coming up.
#[derive(Clone, Copy, PartialEq, Eq, Structural, Debug)]
pub enum BootStep {
    LoadConfig,
    LocateLock,
    OpenLock,
    TakeLock,
    LocateState,
    LoadState,
    StartStateWriter,
    BuildHttpClient,
    SpawnFlows,
    Listen,
    StartControl,
    StartWatchdog,
    InstallSignals,
    NotifyReady,
    Running,
}

/// What a step of coming up came to.
#[derive(Debug)]
pub enum BootOutcome {
    Done,
    ConfigRejected(Vec<ConfigError>),
    StateFailed(StateError),
    Failed(String),
}

/// The step of coming up that follows `step`.
pub open spec fn boot_after(step: BootStep) -> BootStep {
    match step {
        BootStep::LoadConfig => BootStep::LocateLock,
        BootStep::LocateLock => BootStep::OpenLock,
        BootStep::OpenLock => BootStep::TakeLock,
        BootStep::TakeLock => BootStep::LocateState,
        BootStep::LocateState => BootStep::LoadState,
        BootStep::LoadState => BootStep::StartStateWriter,
        BootStep::StartStateWriter => BootStep::BuildHttpClient,
        BootStep::BuildHttpClient => BootStep::SpawnFlows,
        BootStep::SpawnFlows => BootStep::Listen,
        BootStep::Listen => BootStep::StartControl,
        BootStep::StartControl => BootStep::StartWatchdog,
        BootStep::StartWatchdog => BootStep::InstallSignals,
        BootStep::InstallSignals => BootStep::NotifyReady,
        BootStep::NotifyReady => BootStep::Running,
        BootStep::Running => BootStep::Running,
    }
}

/// The place of a step in the order of coming up.
pub open spec fn boot_rank(step: BootStep) -> nat {
    match step {
        BootStep::LoadConfig => 0,
        BootStep::LocateLock => 1,
        BootStep::OpenLock => 2,
        BootStep::TakeLock => 3,
        BootStep::LocateState => 4,
        BootStep::LoadState => 5,
        BootStep::StartStateWriter => 6,
        BootStep::BuildHttpClient => 7,
        BootStep::SpawnFlows => 8,
        BootStep::Listen => 9,
        BootStep::StartControl => 10,
        BootStep::StartWatchdog => 11,
        BootStep::InstallSignals => 12,
        BootStep::NotifyReady => 13,
        BootStep::Running => 14,
    }
}

/// The error that a step leaves if it comes to `outcome`, where it can.
pub open spec fn boot_error(step: BootStep, outcome: BootOutcome) -> Option<DaemonError> {
    match (step, outcome) {
        (BootStep::LoadConfig, BootOutcome::ConfigRejected(errors)) => Some(
            DaemonError::Config(errors),
        ),
        (BootStep::LocateLock, BootOutcome::StateFailed(e)) => Some(DaemonError::State(e)),
        (BootStep::OpenLock, BootOutcome::StateFailed(e)) => Some(DaemonError::State(e)),
        (BootStep::TakeLock, BootOutcome::StateFailed(e)) => Some(DaemonError::State(e)),
        (BootStep::LocateState, BootOutcome::StateFailed(e)) => Some(DaemonError::State(e)),
        (BootStep::LoadState, BootOutcome::StateFailed(e)) => Some(DaemonError::State(e)),
        (BootStep::BuildHttpClient, BootOutcome::Failed(s)) => Some(DaemonError::HttpClient(s)),
        (BootStep::Listen, BootOutcome::Failed(s)) => Some(DaemonError::ControlListener(s)),
        (BootStep::InstallSignals, BootOutcome::Failed(s)) => Some(DaemonError::SignalSetup(s)),
        _ => None,
    }
}

/// The step after `step`, which came to `outcome`, or why the daemon does not come up.
pub open spec fn boot_next(step: BootStep, outcome: BootOutcome) -> Result<BootStep, DaemonError> {
    if outcome is Done {
        Ok(boot_after(step))
    } else {
        match boot_error(step, outcome) {
            Some(e) => Err(e),
            None => Ok(step),
        }
    }
}

/// The step after `step`, which came to `outcome`, or why the daemon does not come up. A step
/// that comes to what it cannot come to is done over.
pub fn next_boot_step(step: BootStep, outcome: BootOutcome) -> (r: Result<BootStep, DaemonError>)
    ensures
        r == boot_next(step, outcome),
{
    match outcome {
        BootOutcome::Done => Ok(
            match step {
                BootStep::LoadConfig => BootStep::LocateLock,
                BootStep::LocateLock => BootStep::OpenLock,
                BootStep::OpenLock => BootStep::TakeLock,
                BootStep::TakeLock => BootStep::LocateState,
                BootStep::LocateState => BootStep::LoadState,
                BootStep::LoadState => BootStep::StartStateWriter,
                BootStep::StartStateWriter => BootStep::BuildHttpClient,
                BootStep::BuildHttpClient => BootStep::SpawnFlows,
                BootStep::SpawnFlows => BootStep::Listen,
                BootStep::Listen => BootStep::StartControl,
                BootStep::StartControl => BootStep::StartWatchdog,
                BootStep::StartWatchdog => BootStep::InstallSignals,
                BootStep::InstallSignals => BootStep::NotifyReady,
                BootStep::NotifyReady => BootStep::Running,
                BootStep::Running => BootStep::Running,
            },
        ),
        BootOutcome::ConfigRejected(errors) => match step {
            BootStep::LoadConfig => Err(DaemonError::Config(errors)),
            _ => Ok(step),
        },
        BootOutcome::StateFailed(e) => match step {
            BootStep::LocateLock | BootStep::OpenLock | BootStep::TakeLock | BootStep::LocateState
            | BootStep::LoadState => Err(DaemonError::State(e)),
            _ => Ok(step),
        },
        BootOutcome::Failed(s) => match step {
            BootStep::BuildHttpClient => Err(DaemonError::HttpClient(s)),
            BootStep::Listen => Err(DaemonError::ControlListener(s)),
            BootStep::InstallSignals => Err(DaemonError::SignalSetup(s)),
            _ => Ok(step),
        },
    }
}

/// The step that coming up is at after steps that came to `outcomes`, or why the daemon does
/// not come up.
pub open spec fn boot_at(outcomes: Seq<BootOutcome>) -> Result<BootStep, DaemonError>
    decreases outcomes.len(),
{
    if outcomes.len() == 0 {
        Ok(BootStep::LoadConfig)
    } else {
        match boot_at(outcomes.drop_last()) {
            Ok(step) => boot_next(step, outcomes.last()),
            Err(e) => Err(e),
        }
    }
}

/// Whether `step` was taken, and worked, among steps that came to `outcomes`.
pub open spec fn was_done(outcomes: Seq<BootOutcome>, step: BootStep) -> bool {
    exists|k: int|
        0 <= k < outcomes.len() && #[trigger] boot_at(outcomes.take(k)) == Ok::<
            BootStep,
            DaemonError,
        >(step) && outcomes[k] is Done
}

/// Coming up skips no step: a daemon that has come to a step has done every step before it.
pub proof fn no_boot_step_is_skipped(outcomes: Seq<BootOutcome>, at: BootStep, earlier: BootStep)
    requires
        boot_at(outcomes) == Ok::<BootStep, DaemonError>(at),
        boot_rank(earlier) < boot_rank(at),
    ensures
        was_done(outcomes, earlier),
    decreases outcomes.len(),
{
    if outcomes.len() > 0 {
        let shorter = outcomes.drop_last();
        let n = outcomes.len() - 1;
        assert(outcomes.take(n) =~= shorter);
        let before = boot_at(shorter)->Ok_0;
        if before == earlier && outcomes.last() is Done {
            assert(boot_at(outcomes.take(n)) == Ok::<BootStep, DaemonError>(earlier));
        } else {
            assert(boot_rank(earlier) < boot_rank(before));
            no_boot_step_is_skipped(shorter, before, earlier);
            let k = choose|k: int|
                0 <= k < shorter.len() && #[trigger] boot_at(shorter.take(k)) == Ok::<
                    BootStep,
                    DaemonError,
                >(earlier) && shorter[k] is Done;
            assert(outcomes.take(k) =~= shorter.take(k));
            assert(outcomes[k] == shorter[k]);
            assert(boot_at(outcomes.take(k)) == Ok::<BootStep, DaemonError>(earlier));
        }
    }
}

/// A daemon that loads its persisted state, or does anything after that, has taken the
/// single-instance lock before.
pub proof fn the_lock_comes_before_the_state(outcomes: Seq<BootOutcome>)
    requires
        boot_at(outcomes) is Ok,
        boot_rank(boot_at(outcomes)->Ok_0) >= boot_rank(BootStep::LocateState),
    ensures
        was_done(outcomes, BootStep::TakeLock),
{
    no_boot_step_is_skipped(outcomes, boot_at(outcomes)->Ok_0, BootStep::TakeLock);
}

/// What the running daemon hears of.
#[derive(Clone, Copy, PartialEq, Eq, Structural, Debug)]
pub enum DaemonEvent {
    /// The signal to reload.
    Hangup,
    /// The signal to stop.
    Terminate,
    /// The signal to stop, from a terminal.
    Interrupt,
    /// A request over the control channel.
    Command,
    /// The end of a task of a flow.
    TaskEnded,
    /// A request to respawn a flow.
    RespawnRequested,
}

/// What the running daemon does.
#[derive(Clone, Copy, PartialEq, Eq, Structural, Debug)]
pub enum DaemonReaction {
    Reload,
    ShutDown,
    ServeCommand,
    HandleExit,
    HandleRespawn,
}

/// What the running daemon does when it hears of `event`. It goes down on the two signals to
/// stop, and on nothing else.
pub fn react(event: DaemonEvent) -> (r: DaemonReaction)
    ensures
        r is ShutDown <==> event is Terminate || event is Interrupt,
        r is Reload <==> event is Hangup,
        r is ServeCommand <==> event is Command,
        r is HandleExit <==> event is TaskEnded,
        r is HandleRespawn <==> event is RespawnRequested,
{
    match event {
        DaemonEvent::Hangup => DaemonReaction::Reload,
        DaemonEvent::Terminate => DaemonReaction::ShutDown,
        DaemonEvent::Interrupt => DaemonReaction::ShutDown,
        DaemonEvent::Command => DaemonReaction::ServeCommand,
        DaemonEvent::TaskEnded => DaemonReaction::HandleExit,
        DaemonEvent::RespawnRequested => DaemonReaction::HandleRespawn,
    }
}

/// A step of going down.
#[derive(Clone, Copy, PartialEq, Eq, Structural, Debug)]
pub enum ShutdownStep {
    /// Tell the service manager that the daemon goes down.
    NotifyStopping,
    /// Cancel everything.
    CancelAll,
    /// Wait for the tasks of the flows to end.
    AwaitFlows,
    /// Wait for the control channel to close.
    AwaitControl,
    /// Wait for the watchdog to end.
    AwaitWatchdog,
    /// Let go of what flows are spawned with, which can write persisted state.
    DropSpawnContext,
    /// Let go of the last means to write persisted state.
    DropStateSender,
    /// Wait until all persisted state is written.
    JoinStateWriter,
    /// The daemon is down.
    Down,
}

/// The place of a step in the order of going down.
pub open spec fn shutdown_rank(step: ShutdownStep) -> nat {
    match step {
        ShutdownStep::NotifyStopping => 0,
        ShutdownStep::CancelAll => 1,
        ShutdownStep::AwaitFlows => 2,
        ShutdownStep::AwaitControl => 3,
        ShutdownStep::AwaitWatchdog => 4,
        ShutdownStep::DropSpawnContext => 5,
        ShutdownStep::DropStateSender => 6,
        ShutdownStep::JoinStateWriter => 7,
        ShutdownStep::Down => 8,
    }
}

/// The step of going down after `step`.
pub open spec fn shutdown_after(step: ShutdownStep) -> ShutdownStep {
    match step {
        ShutdownStep::NotifyStopping => ShutdownStep::CancelAll,
        ShutdownStep::CancelAll => ShutdownStep::AwaitFlows,
        ShutdownStep::AwaitFlows => ShutdownStep::AwaitControl,
        ShutdownStep::AwaitControl => ShutdownStep::AwaitWatchdog,
        ShutdownStep::AwaitWatchdog => ShutdownStep::DropSpawnContext,
        ShutdownStep::DropSpawnContext => ShutdownStep::DropStateSender,
        ShutdownStep::DropStateSender => ShutdownStep::JoinStateWriter,
        ShutdownStep::JoinStateWriter => ShutdownStep::Down,
        ShutdownStep::Down => ShutdownStep::Down,
    }
}

/// The step of going down after `step`.
pub fn next_shutdown_step(step: ShutdownStep) -> (r: ShutdownStep)
    ensures
        r == shutdown_after(step),
{
    match step {
        ShutdownStep::NotifyStopping => ShutdownStep::CancelAll,
        ShutdownStep::CancelAll => ShutdownStep::AwaitFlows,
        ShutdownStep::AwaitFlows => ShutdownStep::AwaitControl,
        ShutdownStep::AwaitControl => ShutdownStep::AwaitWatchdog,
        ShutdownStep::AwaitWatchdog => ShutdownStep::DropSpawnContext,
        ShutdownStep::DropSpawnContext => ShutdownStep::DropStateSender,
        ShutdownStep::DropStateSender => ShutdownStep::JoinStateWriter,
        ShutdownStep::JoinStateWriter => ShutdownStep::Down,
        ShutdownStep::Down => ShutdownStep::Down,
    }
}

/// The step that going down is at after `n` steps.
pub open spec fn shutdown_at(n: nat) -> ShutdownStep
    decreases n,
{
    if n == 0 {
        ShutdownStep::NotifyStopping
    } else {
        shutdown_after(shutdown_at((n - 1) as nat))
    }
}

/// The steps of going down are taken in their order.
pub proof fn shutdown_steps_come_in_order(n: nat, m: nat)
    requires
        shutdown_rank(shutdown_at(n)) < shutdown_rank(shutdown_at(m)),
    ensures
        n < m,
{
    shutdown_step_number(n);
    shutdown_step_number(m);
}

/// The writer of persisted state is waited for only after the flows have ended and everything
/// that can hand it something to write is gone.
pub proof fn the_writer_is_waited_for_last(n: nat, m: nat)
    requires
        shutdown_at(m) is JoinStateWriter,
        shutdown_at(n) is CancelAll || shutdown_at(n) is AwaitFlows || shutdown_at(n)
            is DropSpawnContext || shutdown_at(n) is DropStateSender,
    ensures
        n < m,
{
    shutdown_steps_come_in_order(n, m);
}

/// Going down ends.
pub proof fn shutdown_ends(n: nat)
    requires
        n >= 8,
    ensures
        shutdown_at(n) is Down,
{
    shutdown_step_number(n);
}

/// Which step going down is at.
proof fn shutdown_step_number(n: nat)
    ensures
        shutdown_rank(shutdown_at(n)) == if n < 8 {
            n
        } else {
            8
        },
    decreases n,
{
    if n > 0 {
        shutdown_step_number((n - 1) as nat);
    }
}

/// How often the watchdog is told that the daemon is alive: twice in the interval that the
/// service manager asks for, if it asks for one.
pub fn watchdog_tick(interval: Option<Duration>) -> (r: Option<Duration>)
    ensures
        r is Some <==> interval is Some,
        r matches Some(tick) ==> tick.nanos == interval->0.nanos / 2,
{
    match interval {
        Some(d) => Some(d.half()),
        None => None,
    }
}

/// A fault of a configuration is told with its file and line, where it has them.
pub proof fn faults_are_told_with_file_and_line(error: ConfigError, r: String)
    requires
        call_ensures(ConfigError::to_text, (&error,), r),
    ensures
        error is Parse ==> r@ == error->path@ + ":"@ + decimal_text(error->line as nat) + ": "@
            + error->message@,
        error is Other ==> r@ == error->text@,
{
}

/// A lock that cannot be had is told with its file, and with whether another daemon holds it.
pub proof fn locks_are_told_with_their_files(error: StateError, r: String)
    requires
        call_ensures(StateError::to_text, (&error,), r),
    ensures
        error is LockOpen ==> r@ == "open lock file "@ + error->LockOpen_path@ + ": "@
            + error->LockOpen_source@,
        error is LockHeld ==> r@ == "lock file "@ + error->LockHeld_path@
            + " is held by another daemon"@,
        error is LockAcquireFailed ==> r@ == "lock file "@ + error->LockAcquireFailed_path@ + ": "@
            + error->LockAcquireFailed_source@,
        error is Other ==> r@ == error->text@,
{
}

/// A lock is held by another daemon just where taking it would have meant to wait.
pub proof fn held_locks_are_told_from_broken_ones(
    path: &str,
    would_block: bool,
    source: &str,
    r: StateError,
)
    requires
        call_ensures(lock_failure, (path, would_block, source), r),
    ensures
        r is LockHeld <==> would_block,
        r is LockHeld ==> r->LockHeld_path@ == path@,
        r is LockAcquireFailed <==> !would_block,
        r is LockAcquireFailed ==> r->LockAcquireFailed_path@ == path@
            && r->LockAcquireFailed_source@ == source@,
{
}

/// What is said of a daemon that does not come up starts with what it stumbled over. Of a bad
/// configuration the number of faults is told, and then each fault.
pub proof fn failures_to_come_up_are_told_by_their_cause(
    error: DaemonError,
    r: String,
    of_state: String,
    source: Option<&StateError>,
)
    requires
        call_ensures(DaemonError::to_text, (&error,), r),
        error is State ==> call_ensures(StateError::to_text, (&error->State_0,), of_state),
        call_ensures(DaemonError::source, (&error,), source),
    ensures
        error is Config ==> r@ == "config: "@ + decimal_text(error->Config_0@.len())
            + " error(s):\n"@ + fault_lines(error->Config_0@),
        error is State ==> r@ == "state: "@ + of_state@,
        error is ControlListener ==> r@ == "control listener: "@ + error->ControlListener_0@,
        error is SignalSetup ==> r@ == "signal setup: "@ + error->SignalSetup_0@,
        error is HttpClient ==> r@ == "http client construction: "@ + error->HttpClient_0@,
        source is Some <==> error is State,
        source is Some ==> *source->0 == error->State_0,
{
}

/// The faults of a configuration are told one line each, in their order, each as it is told by
/// itself.
pub proof fn faults_are_told_line_by_line(
    a: Seq<ConfigError>,
    b: Seq<ConfigError>,
    error: ConfigError,
    text: String,
)
    requires
        call_ensures(ConfigError::to_text, (&error,), text),
    ensures
        fault_lines(a + b) == fault_lines(a) + fault_lines(b),
        fault_lines(seq![error]) == "  - "@ + text@ + "\n"@,
        fault_lines(Seq::empty()).len() == 0,
    decreases b.len(),
{
    reveal_with_fuel(fault_lines, 2);
    assert(seq![error].drop_last() =~= Seq::<ConfigError>::empty());
    assert(seq![error].last() == error);
    assert(Seq::<char>::empty() + "  - "@ =~= "  - "@);
    if b.len() > 0 {
        faults_are_told_line_by_line(a, b.drop_last(), error, text);
        assert((a + b).drop_last() =~= a + b.drop_last());
        assert((a + b).last() == b.last());
        assert(fault_lines(a + b) =~= fault_lines(a) + fault_lines(b));
    } else {
        assert(a + b =~= a);
        assert(fault_lines(a) + fault_lines(b) =~= fault_lines(a));
    }
}

/// The daemon listens on the first inherited socket that is named for it, and makes one just where
/// none is.
pub proof fn inherited_sockets_are_taken_first(fds: Vec<(i32, String)>, r: ListenStep, i: int)
    requires
        call_ensures(first_listen_step, (&fds,), r),
    ensures
        0 <= i < fds@.len() && fds@[i].1@ == "control"@ && (forall|j: int|
            0 <= j < i ==> (#[trigger] fds@[j]).1@ != "control"@) ==> r is Adopt && r->Adopt_0
            == fds@[i].0,
        (forall|j: int| 0 <= j < fds@.len() ==> (#[trigger] fds@[j]).1@ != "control"@)
            ==> r is CreateParents,
{
    if 0 <= i < fds@.len() && fds@[i].1@ == "control"@ && (forall|j: int|
        0 <= j < i ==> (#[trigger] fds@[j]).1@ != "control"@) {
        assert(!no_control_socket(fds@));
        assert(r is Adopt);
        let k = choose|k: int| #[trigger]
            control_socket_at(fds@, k) && fds@[k].0 == r->Adopt_0;
        assert(fds@[k].1@ == "control"@);
        assert(k == i) by {
            if k < i {
                assert(fds@[k].1@ != "control"@);
            }
            if i < k {
                assert(fds@[i].1@ != "control"@);
            }
        }
    }
}

/// How the control socket is got, step by step. The daemon listens once it has taken an inherited
/// socket or made one. It makes one where nothing is at the path, or after what is there was to be
/// removed, which it is only where no one listens on it; someone who does keeps the daemon from
/// coming up, as does a socket that cannot be taken or made.
pub proof fn sockets_are_got_step_by_step(
    path: &str,
    step: ListenStep,
    event: ListenEvent,
    r: ListenStep,
    text: String,
)
    requires
        call_ensures(bind_control_step, (path, step, event), r),
        r is Failed ==> call_ensures(DaemonError::to_text, (&r->Failed_0,), text),
    ensures
        ({
            let well = event matches ListenEvent::Done(done) && done is Ok;
            let ill = event matches ListenEvent::Done(done) && done is Err;
            let yes = event matches ListenEvent::Answer(answer) && answer;
            let no = event matches ListenEvent::Answer(answer) && !answer;
            let tried = step is Adopt || step is CreateParents || step is Bind;
            &&& (step is Adopt || step is Bind) && well ==> r is Listening
            &&& step is CreateParents && well ==> r is CheckPath
            &&& step is CheckPath && yes ==> r is TryConnect
            &&& step is CheckPath && no ==> r is Bind
            &&& step is TryConnect && no ==> r is RemoveStale
            &&& step is TryConnect && yes ==> r is Failed && r->Failed_0 is ControlListener
                && text@ == "control listener: "@ + (path@
                + ": another gcit daemon is already listening; refusing to start"@)
            &&& step is RemoveStale && (well || ill) ==> r is Bind
            &&& tried && ill ==> r is Failed && r->Failed_0 is ControlListener && text@
                == "control listener: "@ + event->Done_0->Err_0@
            &&& tried && (yes || no) ==> r@ == step@
            &&& (step is CheckPath || step is TryConnect) && (well || ill) ==> r@ == step@
            &&& step is RemoveStale && (yes || no) ==> r is RemoveStale
            &&& step is Listening ==> r is Listening
            &&& step is Adopt && r is Adopt ==> r->Adopt_0 == step->Adopt_0
            &&& r is Listening && !(step is Listening) ==> well && (step is Adopt || step is Bind)
            &&& r is RemoveStale && !(step is RemoveStale) ==> step is TryConnect && no
            &&& step is Failed ==> r is Failed
        }),
{
}

/// The steps of coming up in their order: one that is done is followed by the next, until the
/// daemon runs. The lock is had before the persisted state is looked for, and the service manager
/// is told that the daemon is ready last.
pub proof fn boot_steps_follow_one_another(i: int, r: Result<BootStep, DaemonError>)
    ensures
        ({
            let steps = seq![
                BootStep::LoadConfig,
                BootStep::LocateLock,
                BootStep::OpenLock,
                BootStep::TakeLock,
                BootStep::LocateState,
                BootStep::LoadState,
                BootStep::StartStateWriter,
                BootStep::BuildHttpClient,
                BootStep::SpawnFlows,
                BootStep::Listen,
                BootStep::StartControl,
                BootStep::StartWatchdog,
                BootStep::InstallSignals,
                BootStep::NotifyReady,
                BootStep::Running,
                BootStep::Running,
            ];
            0 <= i < steps.len() - 1 && call_ensures(
                next_boot_step,
                (steps[i], BootOutcome::Done),
                r,
            ) ==> r is Ok && r->Ok_0 == steps[i + 1]
        }),
{
}

/// A step that fails keeps the daemon from coming up, with the error that it left: a bad
/// configuration, persisted state that cannot be locked, found or loaded, a client that cannot be
/// made, a control socket that cannot be got, or signals that cannot be caught. No other step can
/// fail, and a step that comes to what it cannot come to is done over.
pub proof fn failed_boot_steps_leave_their_errors(
    step: BootStep,
    outcome: BootOutcome,
    r: Result<BootStep, DaemonError>,
)
    requires
        call_ensures(next_boot_step, (step, outcome), r),
    ensures
        ({
            let of_state = step is LocateLock || step is OpenLock || step is TakeLock
                || step is LocateState || step is LoadState;
            &&& outcome is Done ==> r is Ok
            &&& outcome matches BootOutcome::ConfigRejected(errors) ==> if step is LoadConfig {
                r == Err::<BootStep, DaemonError>(DaemonError::Config(errors))
            } else {
                r == Ok::<BootStep, DaemonError>(step)
            }
            &&& outcome matches BootOutcome::StateFailed(e) ==> if of_state {
                r == Err::<BootStep, DaemonError>(DaemonError::State(e))
            } else {
                r == Ok::<BootStep, DaemonError>(step)
            }
            &&& outcome matches BootOutcome::Failed(s) ==> {
                &&& step is BuildHttpClient ==> r == Err::<BootStep, DaemonError>(
                    DaemonError::HttpClient(s),
                )
                &&& step is Listen ==> r == Err::<BootStep, DaemonError>(
                    DaemonError::ControlListener(s),
                )
                &&& step is InstallSignals ==> r == Err::<BootStep, DaemonError>(
                    DaemonError::SignalSetup(s),
                )
                &&& !(step is BuildHttpClient) && !(step is Listen) && !(step is InstallSignals)
                    ==> r == Ok::<BootStep, DaemonError>(step)
            }
        }),
{
}

/// Only one daemon at a time reads the persisted state: one that has come past the taking of the
/// lock has taken it.
pub proof fn the_state_is_read_under_the_lock(outcomes: Seq<BootOutcome>)
    ensures
        boot_at(outcomes) is Ok ==> {
            let at = boot_at(outcomes)->Ok_0;
            ||| at is LoadConfig || at is LocateLock || at is OpenLock || at is TakeLock
            ||| exists|k: int|
                0 <= k < outcomes.len() && #[trigger] boot_at(outcomes.take(k)) == Ok::<
                    BootStep,
                    DaemonError,
                >(BootStep::TakeLock) && outcomes[k] is Done
        },
{
    if boot_at(outcomes) is Ok {
        let at = boot_at(outcomes)->Ok_0;
        if !(at is LoadConfig || at is LocateLock || at is OpenLock || at is TakeLock) {
            the_lock_comes_before_the_state(outcomes);
        }
    }
}

/// The running daemon reloads on a hangup and on nothing else, goes down on the two signals to
/// stop and on nothing else, and serves whatever else it hears of as what it is.
pub proof fn only_the_signals_to_stop_stop_the_daemon(event: DaemonEvent, r: DaemonReaction)
    requires
        call_ensures(react, (event,), r),
    ensures
        r is ShutDown <==> event is Terminate || event is Interrupt,
        r is Reload <==> event is Hangup,
        event is Command ==> r is ServeCommand,
        event is TaskEnded ==> r is HandleExit,
        event is RespawnRequested ==> r is HandleRespawn,
{
}

/// The steps of going down in their order: the writer of persisted state is waited for last, after
/// the flows have ended and after everything is gone that can hand it something to write.
pub proof fn shutdown_steps_follow_one_another(i: int, r: ShutdownStep)
    ensures
        ({
            let steps = seq![
                ShutdownStep::NotifyStopping,
                ShutdownStep::CancelAll,
                ShutdownStep::AwaitFlows,
                ShutdownStep::AwaitControl,
                ShutdownStep::AwaitWatchdog,
                ShutdownStep::DropSpawnContext,
                ShutdownStep::DropStateSender,
                ShutdownStep::JoinStateWriter,
                ShutdownStep::Down,
                ShutdownStep::Down,
            ];
            0 <= i < steps.len() - 1 && call_ensures(next_shutdown_step, (steps[i],), r) ==> r
                == steps[i + 1]
        }),
{
}

/// The watchdog hears of the daemon twice in the interval that is asked for, to the nanosecond,
/// and not at all where none is.
pub proof fn the_watchdog_hears_twice(interval: Option<Duration>, r: Option<Duration>)
    requires
        call_ensures(watchdog_tick, (interval,), r),
    ensures
        r is Some <==> interval is Some,
        r is Some ==> r->0.nanos + r->0.nanos <= interval->0.nanos <= r->0.nanos + r->0.nanos + 1,
        STATE_QUEUE == 256,
        CONTROL_COMMAND_QUEUE == 8,
        RESPAWN_QUEUE == 32,
{
}

} // verus!
