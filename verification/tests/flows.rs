use gcit::config::{
    ActionConfig, CredentialId, Destination, DiscordTemplateConfig, DiscordWebhookConfig,
    FireEvent, FlowConfig, LocalMailConfig, LocalMailTemplateConfig, PollOverride, SourceConfig,
};
use gcit::git::strategy::{compare_sha, PollStrategy};
use gcit::names::NameMap;
use gcit::object_id::ObjectId;
use gcit::state::{FlowState, State};
use gcit::supervisor::diff::same_destinations;
use gcit::supervisor::flows::{
    after_setup, build_dispatcher_params, build_poll_params, flow_exit_from_result, notifier_id,
    panic_payload_to_string, read_persisted_last_dispatched_at, read_persisted_last_sha,
    NotifierBuild, NotifierFailure, NotifierPlan, PanicPayload, SpawnStep,
};
use gcit::supervisor::types::{FlowLastError, FlowRole};
use gcit::time::Timestamp;

fn payload_of(payload: Box<dyn std::any::Any + Send>) -> PanicPayload {
    if let Some(s) = payload.downcast_ref::<&'static str>() {
        PanicPayload::Text((*s).to_string())
    } else if let Some(s) = payload.downcast_ref::<String>() {
        PanicPayload::Text(s.clone())
    } else {
        PanicPayload::Opaque
    }
}

fn state_with_sha(sha: Option<&str>) -> State {
    let mut s = State::default();
    s.flows.insert(
        "flow1".to_string(),
        FlowState { last_sha: sha.map(|h| h.to_string()), ..Default::default() },
    );
    s
}

fn flow_with(name: &str, destination: Vec<Destination>) -> FlowConfig {
    FlowConfig {
        name: name.to_string(),
        enabled: true,
        description: Some("ci".to_string()),
        source: SourceConfig {
            url: "https://github.com/myorg/linux-builder.git".to_string(),
            ref_name: "refs/heads/main".to_string(),
            credential_id: None,
        },
        action: ActionConfig::GithubWorkflowDispatch {
            repo: "myorg/linux-builder".to_string(),
            workflow: "ci.yml".to_string(),
            ref_name: "refs/heads/main".to_string(),
            credential_id: CredentialId::new("github_pat"),
            inputs: NameMap::new(),
        },
        destination,
        poll: PollOverride::default(),
    }
}

#[test]
fn state_panic_payload_to_string_recovers_static_str() {
    let payload: Box<dyn std::any::Any + Send> = Box::new("static panic message");
    assert_eq!(panic_payload_to_string(payload_of(payload)), "static panic message".to_string());
}

#[test]
fn state_panic_payload_to_string_recovers_owned_string() {
    let payload: Box<dyn std::any::Any + Send> = Box::new("owned panic message".to_string());
    assert_eq!(panic_payload_to_string(payload_of(payload)), "owned panic message".to_string());
}

#[test]
fn state_panic_payload_to_string_falls_back_for_arbitrary_payload() {
    let payload: Box<dyn std::any::Any + Send> = Box::new(42u64);
    assert_eq!(
        panic_payload_to_string(payload_of(payload)),
        "(panic payload not stringifiable)".to_string(),
    );
}

#[test]
fn state_read_persisted_last_sha_returns_some_when_state_has_valid_hex() {
    let s = state_with_sha(Some("deadbeefcafe1234567890abcdef1234567890ab"));
    let sha = read_persisted_last_sha(Some(&s), "flow1").expect("must be Some");
    assert_eq!(sha.to_hex(), "deadbeefcafe1234567890abcdef1234567890ab");
}

#[test]
fn state_read_persisted_last_sha_returns_none_when_flow_absent() {
    assert!(read_persisted_last_sha(Some(&State::default()), "missing-flow").is_none());
}

#[test]
fn state_read_persisted_last_sha_returns_none_when_flow_has_no_sha_field() {
    let s = state_with_sha(None);
    assert!(read_persisted_last_sha(Some(&s), "flow1").is_none());
}

#[test]
fn state_read_persisted_last_sha_returns_none_when_stored_hex_is_malformed() {
    let s = state_with_sha(Some("not-valid-hex"));
    assert!(read_persisted_last_sha(Some(&s), "flow1").is_none());
}

#[test]
fn flows_panic_payload_to_string_recovers_static_str() {
    let payload: Box<dyn std::any::Any + Send> = Box::new("static panic message");
    assert_eq!(panic_payload_to_string(payload_of(payload)), "static panic message".to_string());
}

#[test]
fn flows_panic_payload_to_string_recovers_owned_string() {
    let payload: Box<dyn std::any::Any + Send> = Box::new("owned panic message".to_string());
    assert_eq!(panic_payload_to_string(payload_of(payload)), "owned panic message".to_string());
}

#[test]
fn flows_panic_payload_to_string_falls_back_for_arbitrary_payload() {
    let payload: Box<dyn std::any::Any + Send> = Box::new(42u64);
    assert_eq!(
        panic_payload_to_string(payload_of(payload)),
        "(panic payload not stringifiable)".to_string(),
    );
}

#[test]
fn flows_read_persisted_last_sha_returns_some_when_state_has_valid_hex() {
    let s = state_with_sha(Some("deadbeefcafe1234567890abcdef1234567890ab"));
    let sha = read_persisted_last_sha(Some(&s), "flow1").expect("must be Some");
    assert_eq!(sha.to_hex(), "deadbeefcafe1234567890abcdef1234567890ab");
}

#[test]
fn flows_read_persisted_last_sha_returns_none_when_flow_absent() {
    assert!(read_persisted_last_sha(Some(&State::default()), "missing-flow").is_none());
}

#[test]
fn flows_read_persisted_last_sha_returns_none_when_flow_has_no_sha_field() {
    let s = state_with_sha(None);
    assert!(read_persisted_last_sha(Some(&s), "flow1").is_none());
}

#[test]
fn flows_read_persisted_last_sha_returns_none_when_stored_hex_is_malformed() {
    let s = state_with_sha(Some("not-valid-hex"));
    assert!(read_persisted_last_sha(Some(&s), "flow1").is_none());
}

#[test]
fn read_persisted_last_dispatched_at_returns_some_when_state_has_value() {
    let parsed = chrono::DateTime::parse_from_rfc3339("2026-05-01T12:00:00Z").unwrap();
    let ts = Timestamp::new(parsed.timestamp(), 0).expect("a calendar time");
    let mut s = State::default();
    s.flows.insert(
        "flow1".to_string(),
        FlowState { last_dispatched_at: Some(ts), ..Default::default() },
    );
    assert_eq!(read_persisted_last_dispatched_at(Some(&s), "flow1"), Some(ts));
}

#[test]
fn read_persisted_last_dispatched_at_returns_none_when_field_absent() {
    let s = state_with_sha(None);
    assert!(read_persisted_last_dispatched_at(Some(&s), "flow1").is_none());
}

#[test]
fn read_persisted_last_dispatched_at_returns_none_when_flow_absent() {
    assert!(read_persisted_last_dispatched_at(Some(&State::default()), "missing-flow").is_none());
}

#[test]
fn unreadable_state_seeds_nothing() {
    assert!(read_persisted_last_sha(None, "flow1").is_none());
    assert!(read_persisted_last_dispatched_at(None, "flow1").is_none());
}

#[test]
fn restart_against_an_unmoved_ref_sets_off_no_dispatch() {
    let observed = ObjectId::from_hex(b"DEADBEEFcafe1234567890abcdef1234567890ab").unwrap();
    let s = state_with_sha(Some(&observed.to_hex()));
    let seed = read_persisted_last_sha(Some(&s), "flow1");
    assert!(!compare_sha(seed, observed).trigger);
    assert!(compare_sha(seed, ObjectId::null()).trigger);
    assert!(!compare_sha(read_persisted_last_sha(Some(&s), "new"), observed).trigger);
}

#[test]
fn task_ends_keep_flow_and_role() {
    let clean = flow_exit_from_result(Ok(()), "ci".to_string(), FlowRole::Poll);
    assert_eq!(clean.flow, "ci");
    assert_eq!(clean.role, FlowRole::Poll);
    assert_eq!(clean.panic, None);
    let panicked = flow_exit_from_result(
        Err(PanicPayload::Opaque),
        "ci".to_string(),
        FlowRole::Dispatcher,
    );
    assert_eq!(panicked.role, FlowRole::Dispatcher);
    assert_eq!(panicked.panic.as_deref(), Some("(panic payload not stringifiable)"));
}

fn two_destinations() -> Vec<Destination> {
    let mut mail = LocalMailTemplateConfig::default();
    mail.parts.insert("subject".to_string(), "{{flow}}".to_string());
    vec![
        Destination::LocalMail(LocalMailConfig {
            user: "alice".to_string(),
            fire_on: vec![FireEvent::RunComplete],
            template: mail,
        }),
        Destination::DiscordWebhook(DiscordWebhookConfig {
            credential_id: CredentialId::new("hook"),
            fire_on: vec![FireEvent::RunStart, FireEvent::JobComplete],
            template: DiscordTemplateConfig::default(),
        }),
    ]
}

#[test]
fn notifiers_are_made_in_the_order_of_destinations() {
    let flow = flow_with("ci", two_destinations());
    let build: NotifierBuild<u8> = NotifierBuild::new();
    match build.next(&flow).expect("a first notifier") {
        NotifierPlan::Mail { id, user, fire_on, template } => {
            assert_eq!(template.parts.get("subject").unwrap(), "{{flow}}");
            assert_eq!(id, "ci.dest0");
            assert_eq!(user, "alice");
            assert_eq!(fire_on, vec![FireEvent::RunComplete]);
        }
        NotifierPlan::Discord { .. } => panic!("expected Mail"),
    }
    let build = build.accept(Ok(7)).unwrap();
    match build.next(&flow).expect("a second notifier") {
        NotifierPlan::Discord { id, credential_id, fire_on, template } => {
            assert_eq!(template.parts.len(), 0);
            assert_eq!(id, "ci.dest1");
            assert_eq!(credential_id.as_str(), "hook");
            assert_eq!(fire_on, vec![FireEvent::RunStart, FireEvent::JobComplete]);
        }
        NotifierPlan::Mail { .. } => panic!("expected Discord"),
    }
    let build = build.accept(Ok(8)).unwrap();
    assert!(build.next(&flow).is_none());
    assert_eq!(build.built, vec![7, 8]);
    assert_eq!(notifier_id("ci", 120), "ci.dest120");
}

#[test]
fn notifier_failures_name_their_stage() {
    let fail = |f| match NotifierBuild::<u8>::new().accept(Err(f)) {
        Err(e) => e,
        Ok(_) => panic!("must fail"),
    };
    let e = || "why".to_string();
    assert_eq!(fail(NotifierFailure::Credential(e())), "discord credential: why");
    assert_eq!(fail(NotifierFailure::WebhookUrl(e())), "discord webhook URL: why");
    assert_eq!(fail(NotifierFailure::Client(e())), "discord client: why");
    assert_eq!(fail(NotifierFailure::MailUser(e())), "local_mail user: why");
}

#[test]
fn setup_failures_are_recorded_with_the_flow() {
    let now = Timestamp::new(5, 0).unwrap();
    let mut errors: NameMap<FlowLastError> = NameMap::new();
    let step = after_setup(SpawnStep::BuildNotifiers, Ok(()), "ci", &mut errors, now);
    assert_eq!(step, SpawnStep::AcquireCredentials);
    let step = after_setup(step, Ok(()), "ci", &mut errors, now);
    assert_eq!(step, SpawnStep::StartTasks);
    assert_eq!(errors.len(), 0);
    let e = || Err("no token".to_string());
    let step = after_setup(SpawnStep::AcquireCredentials, e(), "ci", &mut errors, now);
    assert_eq!(step, SpawnStep::Abandoned);
    assert_eq!(errors.get("ci").unwrap().kind(), "credential");
    assert_eq!(errors.get("ci").unwrap().message(), "flow `ci`: no token");
    after_setup(SpawnStep::BuildNotifiers, e(), "ci", &mut errors, now);
    assert_eq!(errors.get("ci").unwrap().kind(), "notifier_setup");
}

#[test]
fn tasks_start_from_config_and_persisted_state() {
    let flow = flow_with("flow1", vec![]);
    let s = state_with_sha(Some("deadbeefcafe1234567890abcdef1234567890ab"));
    let poll = build_poll_params(&flow, Some(&s));
    assert_eq!(poll.flow_name, "flow1");
    assert_eq!(poll.url, "https://github.com/myorg/linux-builder.git");
    assert_eq!(poll.ref_name, "refs/heads/main");
    assert_eq!(poll.strategy, PollStrategy::GithubApi);
    assert_eq!(poll.last_sha.unwrap().to_hex(), "deadbeefcafe1234567890abcdef1234567890ab");
    assert_eq!(poll.last_dispatched_at, None);
    let flow = flow_with("flow1", two_destinations());
    let dispatch = build_dispatcher_params(&flow);
    let ActionConfig::GithubWorkflowDispatch { repo, credential_id, .. } = &dispatch.action;
    assert_eq!(repo, "myorg/linux-builder");
    assert_eq!(credential_id.as_str(), "github_pat");
    assert!(same_destinations(&dispatch.destinations, &flow.destination));
    assert_eq!(dispatch.destinations.len(), 2);
    assert_eq!(dispatch.flow_name, "flow1");
    assert_eq!(dispatch.flow_description.as_deref(), Some("ci"));
    assert_eq!(dispatch.url, "https://github.com/myorg/linux-builder.git");
    assert_eq!(dispatch.ref_name, "refs/heads/main");
}

#[test]
fn the_first_failure_ends_a_build() {
    let flow = flow_with("ci", two_destinations());
    let build: NotifierBuild<u8> = NotifierBuild::new();
    assert!(build.next(&flow).is_some());
    let build = build.accept(Ok(7)).unwrap();
    assert_eq!(build.built, vec![7]);
    assert!(build.next(&flow).is_some());
    match build.accept(Err(NotifierFailure::Credential("gone".to_string()))) {
        Err(e) => assert_eq!(e, "discord credential: gone"),
        Ok(_) => panic!("must fail"),
    }
    let none: NotifierBuild<u8> = NotifierBuild::new();
    assert!(none.next(&flow_with("ci", vec![])).is_none());
}
