use gcit::config::{
    ActionConfig, Config, CredentialId, Destination, DiscordTemplateConfig, DiscordWebhookConfig,
    FireEvent, FlowConfig, LocalMailConfig, LocalMailTemplateConfig, PollOverride, SourceConfig,
};
use gcit::names::NameMap;
use gcit::state::{FlowState, State};
use gcit::supervisor::control::{
    begin_preview, command_reply, plan_trigger, read_last_sha, reload_reply,
    render_dry_run_payload, status, trigger_reply, DryRunPayload, StatusEntry, TriggerPlan,
};
use gcit::supervisor::types::{record_last_error, FlowLastError, FlowRegistry};
use gcit::time::Timestamp;

fn state_with_sha(sha: Option<&str>) -> State {
    let mut s = State::default();
    s.flows.insert(
        "flow1".to_string(),
        FlowState { last_sha: sha.map(|h| h.to_string()), ..Default::default() },
    );
    s
}

fn preview(flow: &FlowConfig, inputs: &[(&str, &str)]) -> DryRunPayload {
    let ctx = begin_preview(flow);
    let mut rendered = NameMap::new();
    for (k, v) in inputs {
        rendered.insert(k.to_string(), v.to_string());
    }
    match render_dry_run_payload(flow, &ctx.gcit_run_id, Ok(rendered)) {
        Ok(v) => v,
        Err(e) => panic!("render must succeed: {e}"),
    }
}

fn names(of: &[&str]) -> Vec<String> {
    of.iter().map(|s| s.to_string()).collect()
}

fn no_errors() -> NameMap<FlowLastError> {
    NameMap::new()
}

fn at(secs: i64) -> Timestamp {
    Timestamp::new(secs, 0).expect("a calendar time")
}

fn flow_with(name: &str, destination: Vec<Destination>) -> FlowConfig {
    FlowConfig {
        name: name.to_string(),
        enabled: true,
        description: Some("ci".to_string()),
        source: SourceConfig {
            url: "https://github.com/myorg/linux-builder.git".to_string(),
            ref_name: "refs/heads/main".to_string(),
            credential_id: None,
        },
        action: ActionConfig::GithubWorkflowDispatch {
            repo: "myorg/linux-builder".to_string(),
            workflow: "ci.yml".to_string(),
            ref_name: "refs/heads/main".to_string(),
            credential_id: CredentialId::new("github_pat"),
            inputs: NameMap::new(),
        },
        destination,
        poll: PollOverride::default(),
    }
}

#[test]
fn trigger_read_last_sha_returns_observed_sha_when_state_has_entry() {
    let s = state_with_sha(Some("deadbeefcafe1234567890abcdef1234567890ab"));
    let sha = read_last_sha(Some(&s), "flow1").expect("must succeed");
    assert_eq!(sha.to_hex(), "deadbeefcafe1234567890abcdef1234567890ab");
}

#[test]
fn trigger_read_last_sha_errors_when_flow_has_no_state_entry() {
    let err = read_last_sha(Some(&State::default()), "missing-flow").expect_err("must error");
    assert!(
        err.contains("missing-flow") && err.contains("no recorded state"),
        "error must name the flow and reason; got: {err}",
    );
}

#[test]
fn trigger_read_last_sha_errors_when_flow_has_state_but_no_sha_yet() {
    let s = state_with_sha(None);
    let err = read_last_sha(Some(&s), "flow1").expect_err("must error");
    assert!(err.contains("no observed sha yet"), "error must explain why; got: {err}");
}

#[test]
fn trigger_read_last_sha_errors_when_stored_hex_is_malformed() {
    let s = state_with_sha(Some("not-valid-hex"));
    let err = read_last_sha(Some(&s), "flow1").expect_err("must error");
    assert!(err.contains("not valid hex"), "error must name the parse failure; got: {err}");
}

#[test]
fn trigger_render_dry_run_payload_returns_json_with_repo_workflow_ref_and_run_id() {
    let flow = flow_with("ci-flow", vec![]);
    let v = preview(&flow, &[("static_key", "static_value")]);
    assert_eq!(v.flow, "ci-flow");
    assert!(v.dry_run);
    assert_eq!(v.repo, "myorg/linux-builder");
    assert_eq!(v.workflow, "ci.yml");
    assert_eq!(v.ref_name, "refs/heads/main");
    let run_id_str = v.gcit_run_id.as_str();
    assert_eq!(run_id_str.len(), 36, "uuid v4 canonical length");
    assert!(
        run_id_str.contains('-'),
        "uuid v4 canonical must contain hyphens; got: {run_id_str}",
    );
    assert_eq!(v.rendered_inputs.get("static_key").unwrap(), "static_value");
}

#[test]
fn trigger_render_dry_run_payload_injects_gcit_run_id_into_inputs() {
    let flow = flow_with("ci-flow", vec![]);
    let v = preview(&flow, &[]);
    let injected = v
        .rendered_inputs
        .get("gcit_run_id")
        .expect("gcit_run_id must be present in rendered_inputs");
    assert_eq!(injected, &v.gcit_run_id);
}

#[test]
fn trigger_render_dry_run_payload_errors_on_undefined_handlebars_variable() {
    let flow = flow_with("ci-flow", vec![]);
    let rendered = Err("Variable \"undefined.variable.path\" not found".to_string());
    let Err(err) = render_dry_run_payload(&flow, "run", rendered) else {
        panic!("must error");
    };
    assert!(
        err.starts_with("render inputs (dry-run):"),
        "error must lead with the render-stage prefix; got: {err}",
    );
}

#[test]
fn mod_destination_variants_compile_with_expected_fields() {
    let _disc = Destination::DiscordWebhook(DiscordWebhookConfig {
        credential_id: CredentialId::new("disc-cred"),
        fire_on: vec![FireEvent::RunStart, FireEvent::RunComplete],
        template: DiscordTemplateConfig::default(),
    });
    let _mail = Destination::LocalMail(LocalMailConfig {
        user: "ci".to_string(),
        fire_on: vec![FireEvent::RunComplete],
        template: LocalMailTemplateConfig::default(),
    });
}

#[test]
fn control_read_last_sha_returns_observed_sha_when_state_has_entry() {
    let s = state_with_sha(Some("deadbeefcafe1234567890abcdef1234567890ab"));
    let sha = read_last_sha(Some(&s), "flow1").expect("must succeed");
    assert_eq!(sha.to_hex(), "deadbeefcafe1234567890abcdef1234567890ab");
}

#[test]
fn control_read_last_sha_errors_when_flow_has_no_state_entry() {
    let err = read_last_sha(Some(&State::default()), "missing-flow").expect_err("must error");
    assert!(
        err.contains("missing-flow") && err.contains("no recorded state"),
        "error must name the flow and reason; got: {err}",
    );
}

#[test]
fn control_read_last_sha_errors_when_flow_has_state_but_no_sha_yet() {
    let s = state_with_sha(None);
    let err = read_last_sha(Some(&s), "flow1").expect_err("must error");
    assert!(err.contains("no observed sha yet"), "error must explain why; got: {err}");
}

#[test]
fn control_read_last_sha_errors_when_stored_hex_is_malformed() {
    let s = state_with_sha(Some("not-valid-hex"));
    let err = read_last_sha(Some(&s), "flow1").expect_err("must error");
    assert!(err.contains("not valid hex"), "error must name the parse failure; got: {err}");
}

#[test]
fn control_render_dry_run_payload_returns_json_with_repo_workflow_ref_and_run_id() {
    let flow = flow_with("ci-flow", vec![]);
    let v = preview(&flow, &[("static_key", "static_value")]);
    assert_eq!(v.flow, "ci-flow");
    assert!(v.dry_run);
    assert_eq!(v.repo, "myorg/linux-builder");
    assert_eq!(v.workflow, "ci.yml");
    assert_eq!(v.ref_name, "refs/heads/main");
    let run_id_str = v.gcit_run_id.as_str();
    assert_eq!(run_id_str.len(), 36, "uuid v4 canonical length");
    assert!(
        run_id_str.contains('-'),
        "uuid v4 canonical must contain hyphens; got: {run_id_str}",
    );
    assert_eq!(v.rendered_inputs.get("static_key").unwrap(), "static_value");
}

#[test]
fn control_render_dry_run_payload_injects_gcit_run_id_into_inputs() {
    let flow = flow_with("ci-flow", vec![]);
    let v = preview(&flow, &[]);
    let injected = v
        .rendered_inputs
        .get("gcit_run_id")
        .expect("gcit_run_id must be present in rendered_inputs");
    assert_eq!(injected, &v.gcit_run_id);
}

#[test]
fn control_render_dry_run_payload_errors_on_undefined_handlebars_variable() {
    let flow = flow_with("ci-flow", vec![]);
    let rendered = Err("Variable \"undefined.variable.path\" not found".to_string());
    let Err(err) = render_dry_run_payload(&flow, "run", rendered) else {
        panic!("must error");
    };
    assert!(
        err.starts_with("render inputs (dry-run):"),
        "error must lead with the render-stage prefix; got: {err}",
    );
}

#[test]
fn control_destination_variants_compile_with_expected_fields() {
    let _disc = Destination::DiscordWebhook(DiscordWebhookConfig {
        credential_id: CredentialId::new("disc-cred"),
        fire_on: vec![FireEvent::RunStart, FireEvent::RunComplete],
        template: DiscordTemplateConfig::default(),
    });
    let _mail = Destination::LocalMail(LocalMailConfig {
        user: "ci".to_string(),
        fire_on: vec![FireEvent::RunComplete],
        template: LocalMailTemplateConfig::default(),
    });
}

#[test]
fn previews_are_rendered_from_a_run_that_is_not_there() {
    let flow = flow_with("ci-flow", vec![]);
    let ctx = begin_preview(&flow);
    assert_eq!(ctx.flow_name, "ci-flow");
    assert_eq!(ctx.flow_description.as_deref(), Some("ci"));
    assert_eq!(ctx.url, "https://github.com/myorg/linux-builder.git");
    assert_eq!(ctx.ref_name, "refs/heads/main");
    assert_eq!(ctx.sha.to_hex(), "0".repeat(40));
    assert_eq!(ctx.sha_short, "0".repeat(12));
    assert_eq!(ctx.repo, "myorg/linux-builder");
    assert_eq!(ctx.workflow, "ci.yml");
    assert_eq!(ctx.run_id, 0);
    assert_eq!(ctx.run_url, "");
    assert_eq!(ctx.gcit_run_id.as_bytes()[14], b'4');
    assert_ne!(ctx.gcit_run_id, begin_preview(&flow).gcit_run_id);
}

#[test]
fn status_returns_empty_object_when_no_flows_and_no_errors() {
    let out = status(&names(&[]), &no_errors(), Some(&State::default()), None).expect("ok");
    assert_eq!(out.len(), 0, "no flows + no errors must yield empty map");
}

#[test]
fn status_renders_starting_label_for_flow_with_no_state_or_error() {
    let out = status(&names(&["ci"]), &no_errors(), Some(&State::default()), None).expect("ok");
    let ci = out.get("ci").unwrap();
    assert_eq!(ci.state, "starting");
    assert_eq!(ci.last_sha, None);
    assert_eq!(ci.last_poll_at, None);
    assert_eq!(ci.active_runs, 0);
    assert_eq!(ci.notified_runs, 0);
    assert!(ci.last_error.is_none());
}

#[test]
fn status_renders_running_label_when_state_present_and_no_error() {
    let mut s = State::default();
    s.flows.insert(
        "ci".to_string(),
        FlowState {
            last_sha: Some("deadbeefcafe1234567890abcdef1234567890ab".to_string()),
            ..Default::default()
        },
    );
    let out = status(&names(&["ci"]), &no_errors(), Some(&s), None).expect("ok");
    let ci = out.get("ci").unwrap();
    assert_eq!(ci.state, "running");
    assert_eq!(ci.last_sha.as_deref(), Some("deadbeefcafe1234567890abcdef1234567890ab"));
}

fn status_of_ci(st: FlowState) -> StatusEntry {
    let mut s = State::default();
    s.flows.insert("ci".to_string(), st);
    let mut out = status(&names(&["ci"]), &no_errors(), Some(&s), None).expect("ok");
    out.remove("ci").unwrap()
}

#[test]
fn mod_status_includes_active_and_notified_run_counts() {
    let ci = status_of_ci(FlowState { active_runs: 1, notified_runs: 2, ..Default::default() });
    assert_eq!(ci.active_runs, 1);
    assert_eq!(ci.notified_runs, 2);
}

#[test]
fn status_renders_cooldown_window_fields_when_state_present() {
    let ci = status_of_ci(FlowState {
        last_dispatched_at: Some(at(1_777_636_800)),
        cooldown_until: Some(at(1_777_637_100)),
        ..Default::default()
    });
    assert_eq!(ci.last_dispatched_at.as_deref(), Some("2026-05-01T12:00:00+00:00"));
    assert_eq!(ci.cooldown_until.as_deref(), Some("2026-05-01T12:05:00+00:00"));
    assert_eq!(ci.last_poll_at, None);
}

#[test]
fn status_tells_when_the_source_was_last_polled() {
    let ci = status_of_ci(FlowState { last_poll_at: Some(at(0)), ..Default::default() });
    assert_eq!(ci.last_poll_at.as_deref(), Some("1970-01-01T00:00:00+00:00"));
    assert_eq!(ci.last_dispatched_at, None);
    assert_eq!(ci.cooldown_until, None);
}

#[test]
fn status_renders_errored_label_when_last_error_present() {
    let mut errors = no_errors();
    record_last_error(&mut errors, "ci", "git_poll_failed", "boom", None, at(60));
    let out = status(&names(&["ci"]), &errors, Some(&State::default()), None).expect("ok");
    let ci = out.get("ci").unwrap();
    assert_eq!(ci.state, "errored");
    let e = ci.last_error.as_ref().unwrap();
    assert_eq!(e.kind, "git_poll_failed");
    assert_eq!(e.message, "boom");
    assert_eq!(e.at, "1970-01-01T00:01:00+00:00");
    assert_eq!(e.retry_at, None);
}

#[test]
fn status_surfaces_synthetic_reload_key_alongside_real_flows() {
    let mut errors = no_errors();
    record_last_error(&mut errors, "(reload)", "config_reload", "parse error", None, at(0));
    let out = status(&names(&["ci"]), &errors, Some(&State::default()), None).expect("ok");
    assert_eq!(out.keys(), names(&["(reload)", "ci"]));
    let r = out.get("(reload)").unwrap();
    assert_eq!(r.state, "errored");
    assert_eq!(r.last_error.as_ref().unwrap().kind, "config_reload");
    assert_eq!(r.last_error.as_ref().unwrap().message, "parse error");
}

#[test]
fn status_tells_when_an_error_is_expected_to_clear() {
    let mut errors = no_errors();
    record_last_error(&mut errors, "ci", "rate_limited", "wait", Some(at(1)), at(0));
    let all = names(&["ci", "release"]);
    let out = status(&all, &errors, Some(&State::default()), None).expect("ok");
    let e = out.get("ci").unwrap().last_error.as_ref().unwrap();
    assert_eq!(e.retry_at.as_deref(), Some("1970-01-01T00:00:01+00:00"));
    assert_eq!(out.get("release").unwrap().state, "starting");
}

#[test]
fn status_filtered_to_specific_flow_returns_only_that_entry() {
    let all = names(&["ci", "release"]);
    let out = status(&all, &no_errors(), Some(&State::default()), Some("ci")).expect("ok");
    assert_eq!(out.len(), 1);
    assert!(out.contains_key("ci"));
    assert!(!out.contains_key("release"));
}

#[test]
fn status_filtered_to_unknown_flow_returns_error() {
    let result = status(&names(&["ci"]), &no_errors(), Some(&State::default()), Some("missing"));
    match result {
        Err(e) => assert_eq!(e, "flow `missing` not running"),
        Ok(_) => panic!("must error"),
    }
}

#[test]
fn status_needs_readable_state() {
    match status(&names(&["ci"]), &no_errors(), None, None) {
        Err(e) => assert_eq!(e, "state mirror mutex poisoned"),
        Ok(_) => panic!("must error"),
    }
    assert_eq!(read_last_sha(None, "ci").unwrap_err(), "state mirror mutex poisoned");
}

#[test]
fn lost_commands_and_replies_are_told_apart() {
    assert_eq!(
        command_reply::<u8>(false, None).unwrap_err(),
        "supervisor command channel closed",
    );
    assert_eq!(command_reply::<u8>(true, None).unwrap_err(), "supervisor reply dropped");
    assert_eq!(command_reply(true, Some(Ok(3))), Ok(3));
    assert_eq!(command_reply::<u8>(true, Some(Err("no".to_string()))), Err("no".to_string()));
}

#[test]
fn reload_reply_counts_the_running_flows() {
    let mut reg: FlowRegistry<()> = FlowRegistry::new();
    reg.register_spawn("a", ());
    reg.register_spawn("b", ());
    let reply = reload_reply(&reg);
    assert_eq!(reply.flows, 2);
    assert_eq!(reply.result, "reload completed");
}

fn observed() -> State {
    let mut s = State::default();
    s.flows.insert(
        "ci-flow".to_string(),
        FlowState {
            last_sha: Some("deadbeefcafe1234567890abcdef1234567890ab".to_string()),
            ..Default::default()
        },
    );
    s
}

fn handles_of(running: &[&str]) -> NameMap<()> {
    let mut handles = NameMap::new();
    for name in running {
        handles.insert(name.to_string(), ());
    }
    handles
}

#[test]
fn run_trigger_errors_when_flow_is_disabled_in_current_config() {
    let mut flow = flow_with("ci-flow", vec![]);
    flow.enabled = false;
    let cfg = Config { flow: vec![flow] };
    let s = State::default();
    assert_eq!(
        plan_trigger("ci-flow", false, &handles_of(&[]), &cfg, Some(&s)).unwrap_err(),
        "flow 'ci-flow' is disabled in current config",
    );
    assert_eq!(
        plan_trigger("ci-flow", true, &handles_of(&["ci-flow"]), &cfg, Some(&observed()))
            .unwrap_err(),
        "flow 'ci-flow' is disabled in current config",
    );
}

#[test]
fn run_trigger_errors_when_flow_is_not_in_current_config() {
    let cfg = Config { flow: vec![flow_with("ci-flow", vec![])] };
    let s = State::default();
    assert_eq!(
        plan_trigger("missing-flow", false, &handles_of(&[]), &cfg, Some(&s)).unwrap_err(),
        "flow 'missing-flow' not found in current config",
    );
}

#[test]
fn run_trigger_errors_when_flow_is_not_currently_running() {
    let cfg = Config { flow: vec![flow_with("ci-flow", vec![])] };
    assert_eq!(
        plan_trigger("ci-flow", false, &handles_of(&[]), &cfg, Some(&observed())).unwrap_err(),
        "flow 'ci-flow' is not currently running",
    );
}

#[test]
fn triggers_need_an_observation_before_a_running_flow() {
    let cfg = Config { flow: vec![flow_with("ci-flow", vec![])] };
    let s = State::default();
    assert_eq!(
        plan_trigger("ci-flow", false, &handles_of(&[]), &cfg, Some(&s)).unwrap_err(),
        "flow 'ci-flow' has no recorded state yet",
    );
}

#[test]
fn run_trigger_real_path_enqueues_trigger_signal_with_observed_sha() {
    let expected_sha_hex = "deadbeefcafe1234567890abcdef1234567890ab";
    let cfg = Config { flow: vec![flow_with("ci-flow", vec![])] };
    let handles = handles_of(&["ci-flow"]);
    match plan_trigger("ci-flow", false, &handles, &cfg, Some(&observed())).expect("accepted") {
        TriggerPlan::Enqueue { observed } => {
            assert_eq!(observed.to_hex(), expected_sha_hex);
            let reply = trigger_reply("ci-flow", &observed, Ok(())).expect("sent");
            assert_eq!(reply.flow, "ci-flow");
            assert_eq!(reply.result, "trigger enqueued");
            assert_eq!(reply.observed_sha, expected_sha_hex);
            assert_eq!(
                trigger_reply("ci-flow", &observed, Err("full".to_string())).unwrap_err(),
                "failed to enqueue trigger: full",
            );
        }
        other => panic!("expected Enqueue, got {other:?}"),
    }
}

#[test]
fn previews_need_no_running_flow_and_no_observation() {
    let cfg = Config { flow: vec![flow_with("other", vec![]), flow_with("ci-flow", vec![])] };
    let s = State::default();
    match plan_trigger("ci-flow", true, &handles_of(&[]), &cfg, Some(&s)).expect("accepted") {
        TriggerPlan::Preview(i) => assert_eq!(i, 1),
        other => panic!("expected Preview, got {other:?}"),
    }
}
