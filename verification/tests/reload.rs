use gcit::config::{
    ActionConfig, Config, CredentialId, Destination, DiscordTemplateConfig, DiscordWebhookConfig,
    FireEvent, FlowConfig, LocalMailConfig, LocalMailTemplateConfig, PollOverride, SourceConfig,
};
use gcit::names::{NameMap, NameSet};
use gcit::supervisor::action::{compute_reload_actions, ReloadAction};
use gcit::supervisor::diff::{collect_kept_credentials, flow_config_unchanged, same_destinations};
use gcit::supervisor::reload::{
    apply_actions_to_registry, begin_spawn, drain_goes_on, finalize_reload, flows_to_forget,
    next_reload_step, observe_drained_exit, plan_reload, record_reload_failure, spawn_order,
    DrainedPanic, ReloadStep,
};
use gcit::supervisor::types::{record_last_error, FlowExit, FlowRegistry, FlowRole};
use gcit::time::{Duration, Timestamp};

fn cred(id: &str) -> CredentialId {
    CredentialId::new(id)
}

fn discord_dest(id: &str, fire_on: Vec<FireEvent>) -> Destination {
    Destination::DiscordWebhook(DiscordWebhookConfig {
        credential_id: cred(id),
        fire_on,
        template: DiscordTemplateConfig::default(),
    })
}

fn mail_dest(user: &str, fire_on: Vec<FireEvent>) -> Destination {
    Destination::LocalMail(LocalMailConfig {
        user: user.to_string(),
        fire_on,
        template: LocalMailTemplateConfig::default(),
    })
}

fn flow(name: &str, url: &str, enabled: bool, destinations: Vec<Destination>) -> FlowConfig {
    FlowConfig {
        name: name.to_string(),
        enabled,
        description: None,
        source: SourceConfig {
            url: url.to_string(),
            ref_name: "refs/heads/main".to_string(),
            credential_id: None,
        },
        action: ActionConfig::GithubWorkflowDispatch {
            repo: "owner/repo".to_string(),
            workflow: "ci.yml".to_string(),
            ref_name: "refs/heads/main".to_string(),
            credential_id: CredentialId::new("gh"),
            inputs: NameMap::new(),
        },
        destination: destinations,
        poll: PollOverride::default(),
    }
}

fn run(old: Vec<FlowConfig>, new: Vec<FlowConfig>, live: &[&str]) -> Vec<ReloadAction> {
    let old_cfg = Config { flow: old };
    let new_cfg = Config { flow: new };
    let mut live_set = NameSet::new();
    for name in live {
        live_set.insert(name.to_string());
    }
    compute_reload_actions(&old_cfg.by_name(), &new_cfg.by_name(), &live_set)
}

fn flow_with_action_cred(name: &str, action_cred: &str, destinations: Vec<Destination>) -> FlowConfig {
    let mut f = flow(name, "https://example.com/repo.git", true, destinations);
    let ActionConfig::GithubWorkflowDispatch { credential_id, .. } = &mut f.action;
    *credential_id = cred(action_cred);
    f
}

fn keep_set(names: &[&str]) -> NameSet {
    let mut set = NameSet::new();
    for n in names {
        set.insert(n.to_string());
    }
    set
}

#[test]
fn reload_flow_config_unchanged_treats_destination_reorder_as_unchanged() {
    let old = flow(
        "f",
        "u",
        true,
        vec![
            discord_dest("hookA", vec![FireEvent::RunComplete]),
            mail_dest("alice", vec![FireEvent::RunComplete]),
        ],
    );
    let new = flow(
        "f",
        "u",
        true,
        vec![
            mail_dest("alice", vec![FireEvent::RunComplete]),
            discord_dest("hookA", vec![FireEvent::RunComplete]),
        ],
    );
    assert!(flow_config_unchanged(&old, &new));
}

#[test]
fn reload_flow_config_unchanged_treats_fire_on_reorder_as_unchanged() {
    let old = flow(
        "f",
        "u",
        true,
        vec![discord_dest("hookA", vec![FireEvent::RunStart, FireEvent::RunComplete])],
    );
    let new = flow(
        "f",
        "u",
        true,
        vec![discord_dest("hookA", vec![FireEvent::RunComplete, FireEvent::RunStart])],
    );
    assert!(flow_config_unchanged(&old, &new));
}

#[test]
fn reload_flow_config_unchanged_detects_destination_content_change() {
    let old = flow("f", "u", true, vec![discord_dest("hookA", vec![FireEvent::RunComplete])]);
    let new = flow("f", "u", true, vec![discord_dest("hookB", vec![FireEvent::RunComplete])]);
    assert!(!flow_config_unchanged(&old, &new));
}

#[test]
fn reload_flow_config_unchanged_distinguishes_duplicate_count() {
    let dest = || discord_dest("hookA", vec![FireEvent::RunComplete]);
    let old = flow("f", "u", true, vec![dest(), dest()]);
    let new = flow("f", "u", true, vec![dest()]);
    assert!(!flow_config_unchanged(&old, &new));
}

#[test]
fn reload_flow_config_unchanged_detects_url_change() {
    let old = flow("f", "https://example.com/old.git", true, Vec::new());
    let new = flow("f", "https://example.com/new.git", true, Vec::new());
    assert!(!flow_config_unchanged(&old, &new));
}

#[test]
fn reload_flow_config_unchanged_detects_enabled_change_short_circuits() {
    let old = flow("f", "https://example.com/repo.git", true, Vec::new());
    let new = flow("f", "https://example.com/repo.git", false, Vec::new());
    assert!(!flow_config_unchanged(&old, &new));
    assert!(!flow_config_unchanged(&new, &old));
}

#[test]
fn reload_flow_config_unchanged_ignores_description_change() {
    let mut old = flow("f", "https://example.com/repo.git", true, Vec::new());
    let mut new = flow("f", "https://example.com/repo.git", true, Vec::new());
    old.description = Some("CI pipeline".to_string());
    new.description = Some("CI pipeline (rev 2)".to_string());
    assert!(flow_config_unchanged(&old, &new));
}

#[test]
fn reload_flow_config_unchanged_detects_action_repo_change() {
    let mut old = flow("f", "https://example.com/repo.git", true, Vec::new());
    let mut new = flow("f", "https://example.com/repo.git", true, Vec::new());
    let ActionConfig::GithubWorkflowDispatch { repo, .. } = &mut old.action;
    *repo = "owner/old-repo".to_string();
    let ActionConfig::GithubWorkflowDispatch { repo, .. } = &mut new.action;
    *repo = "owner/new-repo".to_string();
    assert!(!flow_config_unchanged(&old, &new));
}

#[test]
fn reload_flow_config_unchanged_detects_poll_override_change() {
    let mut old = flow("f", "https://example.com/repo.git", true, Vec::new());
    let mut new = flow("f", "https://example.com/repo.git", true, Vec::new());
    old.poll.source_interval = Some(Duration::from_secs(60));
    new.poll.source_interval = Some(Duration::from_secs(120));
    assert!(!flow_config_unchanged(&old, &new));
}

#[test]
fn reload_canonical_destination_multiset_sorts_outer_and_fire_on() {
    let one = vec![
        discord_dest("a", vec![FireEvent::RunStart, FireEvent::RunComplete]),
        mail_dest("u", vec![FireEvent::JobComplete]),
    ];
    let two = vec![
        mail_dest("u", vec![FireEvent::JobComplete]),
        discord_dest("a", vec![FireEvent::RunComplete, FireEvent::RunStart]),
    ];
    assert!(same_destinations(&one, &two));
}

#[test]
fn reload_collect_kept_credentials_includes_action_credential() {
    let cfg = Config { flow: vec![flow_with_action_cred("kept", "ghpat", Vec::new())] };
    let keep = collect_kept_credentials(&cfg, &keep_set(&["kept"]));
    assert!(keep.contains("ghpat"));
    assert_eq!(keep.len(), 1);
}

#[test]
fn reload_collect_kept_credentials_includes_discord_destination_credential() {
    let f = flow_with_action_cred(
        "kept",
        "ghpat",
        vec![discord_dest("hookA", vec![FireEvent::RunComplete])],
    );
    let cfg = Config { flow: vec![f] };
    let keep = collect_kept_credentials(&cfg, &keep_set(&["kept"]));
    assert!(keep.contains("ghpat"));
    assert!(keep.contains("hookA"));
    assert_eq!(keep.len(), 2);
}

#[test]
fn reload_collect_kept_credentials_excludes_local_mail_destinations() {
    let f = flow_with_action_cred(
        "kept",
        "ghpat",
        vec![mail_dest("alice", vec![FireEvent::RunComplete])],
    );
    let cfg = Config { flow: vec![f] };
    let keep = collect_kept_credentials(&cfg, &keep_set(&["kept"]));
    assert!(keep.contains("ghpat"));
    assert_eq!(keep.len(), 1);
}

#[test]
fn reload_collect_kept_credentials_skips_non_kept_flows() {
    let kept = flow_with_action_cred("kept", "ghpat", Vec::new());
    let respawning = flow_with_action_cred("respawning", "other", Vec::new());
    let cfg = Config { flow: vec![kept, respawning] };
    let keep = collect_kept_credentials(&cfg, &keep_set(&["kept"]));
    assert!(keep.contains("ghpat"));
    assert!(!keep.contains("other"));
    assert_eq!(keep.len(), 1);
}

#[test]
fn reload_collect_kept_credentials_dedups_shared_credentials() {
    let a = flow_with_action_cred("a", "ghpat", Vec::new());
    let b = flow_with_action_cred(
        "b",
        "ghpat",
        vec![discord_dest("ghpat", vec![FireEvent::RunComplete])],
    );
    let cfg = Config { flow: vec![a, b] };
    let keep = collect_kept_credentials(&cfg, &keep_set(&["a", "b"]));
    assert_eq!(keep.len(), 1);
    assert!(keep.contains("ghpat"));
}

#[test]
fn reload_compute_reload_actions_keep_for_unchanged_enabled_live_flow() {
    let actions = run(
        vec![flow("ci", "https://example.com/repo.git", true, Vec::new())],
        vec![flow("ci", "https://example.com/repo.git", true, Vec::new())],
        &["ci"],
    );
    assert_eq!(actions, vec![ReloadAction::Keep { name: "ci".to_string() }]);
}

#[test]
fn reload_compute_reload_actions_remove_when_flow_drops_out_of_new_config() {
    let actions = run(
        vec![flow("ci", "https://example.com/repo.git", true, Vec::new())],
        vec![],
        &["ci"],
    );
    assert_eq!(actions, vec![ReloadAction::Remove { name: "ci".to_string(), live_handle: true }]);
}

#[test]
fn reload_compute_reload_actions_remove_without_live_handle_when_flow_drops_out() {
    let actions = run(
        vec![flow("ci", "https://example.com/repo.git", true, Vec::new())],
        vec![],
        &[],
    );
    assert_eq!(actions, vec![ReloadAction::Remove { name: "ci".to_string(), live_handle: false }]);
}

#[test]
fn reload_compute_reload_actions_disable_when_new_config_disables_flow() {
    let actions = run(
        vec![flow("ci", "https://example.com/repo.git", true, Vec::new())],
        vec![flow("ci", "https://example.com/repo.git", false, Vec::new())],
        &["ci"],
    );
    assert_eq!(actions, vec![ReloadAction::Disable { name: "ci".to_string(), url_changed: false }]);
}

#[test]
fn reload_compute_reload_actions_disable_with_url_changed_when_disable_and_url_diff() {
    let actions = run(
        vec![flow("ci", "https://example.com/old.git", true, Vec::new())],
        vec![flow("ci", "https://example.com/new.git", false, Vec::new())],
        &["ci"],
    );
    assert_eq!(actions, vec![ReloadAction::Disable { name: "ci".to_string(), url_changed: true }]);
}

#[test]
fn reload_compute_reload_actions_no_action_for_disabled_flow_with_no_live_handle() {
    let actions = run(
        vec![flow("ci", "https://example.com/repo.git", false, Vec::new())],
        vec![flow("ci", "https://example.com/repo.git", false, Vec::new())],
        &[],
    );
    assert_eq!(actions, vec![]);
}

#[test]
fn reload_compute_reload_actions_restart_with_url_changed_for_url_diff() {
    let actions = run(
        vec![flow("ci", "https://example.com/old.git", true, Vec::new())],
        vec![flow("ci", "https://example.com/new.git", true, Vec::new())],
        &["ci"],
    );
    assert_eq!(actions, vec![ReloadAction::Restart { name: "ci".to_string(), url_changed: true }]);
}

#[test]
fn reload_compute_reload_actions_spawn_for_genuinely_new_flow() {
    let actions = run(
        vec![],
        vec![flow("ci", "https://example.com/repo.git", true, Vec::new())],
        &[],
    );
    assert_eq!(actions, vec![ReloadAction::Spawn { name: "ci".to_string() }]);
}

#[test]
fn reload_compute_reload_actions_spawn_for_revived_flow_with_no_live_handle() {
    let actions = run(
        vec![flow("ci", "https://example.com/repo.git", true, Vec::new())],
        vec![flow("ci", "https://example.com/repo.git", true, Vec::new())],
        &[],
    );
    assert_eq!(actions, vec![ReloadAction::Spawn { name: "ci".to_string() }]);
}

#[test]
fn reload_compute_reload_actions_restart_for_changed_enabled_live_flow() {
    let mut old_f = flow("ci", "https://example.com/repo.git", true, Vec::new());
    let ActionConfig::GithubWorkflowDispatch { repo, .. } = &mut old_f.action;
    *repo = "owner/old-repo".to_string();
    let mut new_f = flow("ci", "https://example.com/repo.git", true, Vec::new());
    let ActionConfig::GithubWorkflowDispatch { repo, .. } = &mut new_f.action;
    *repo = "owner/new-repo".to_string();
    let actions = run(vec![old_f], vec![new_f], &["ci"]);
    assert_eq!(actions, vec![ReloadAction::Restart { name: "ci".to_string(), url_changed: false }]);
}

#[test]
fn reload_compute_reload_actions_handles_multiple_flows_independently() {
    let actions = run(
        vec![
            flow("kept", "https://example.com/k.git", true, Vec::new()),
            flow("removed", "https://example.com/r.git", true, Vec::new()),
            flow("dis", "https://example.com/d.git", true, Vec::new()),
            flow("rs", "https://example.com/old.git", true, Vec::new()),
        ],
        vec![
            flow("kept", "https://example.com/k.git", true, Vec::new()),
            flow("dis", "https://example.com/d.git", false, Vec::new()),
            flow("rs", "https://example.com/new.git", true, Vec::new()),
        ],
        &["kept", "removed", "dis", "rs"],
    );
    assert_eq!(
        actions,
        vec![
            ReloadAction::Disable { name: "dis".to_string(), url_changed: false },
            ReloadAction::Keep { name: "kept".to_string() },
            ReloadAction::Remove { name: "removed".to_string(), live_handle: true },
            ReloadAction::Restart { name: "rs".to_string(), url_changed: true },
        ],
    );
}

fn now() -> Timestamp {
    Timestamp::new(1_777_636_800, 0).expect("a calendar time")
}

fn registry_of(names: &[&str]) -> FlowRegistry<String> {
    let mut reg = FlowRegistry::new();
    for name in names {
        reg.register_spawn(name, format!("handle of {name}"));
    }
    reg
}

#[test]
fn plan_keeps_unchanged_flows_and_cancels_the_others() {
    let mut reg = registry_of(&["dis", "kept", "removed", "rs"]);
    reg.respawning_flows.insert("gone".to_string());
    reg.respawning_flows.insert("kept-respawn".to_string());
    let old = Config {
        flow: vec![
            flow("kept", "https://example.com/k.git", true, Vec::new()),
            flow("removed", "https://example.com/r.git", true, Vec::new()),
            flow("dis", "https://example.com/d.git", true, Vec::new()),
            flow("rs", "https://example.com/old.git", true, Vec::new()),
            flow("gone", "https://example.com/g.git", true, Vec::new()),
            flow("kept-respawn", "https://example.com/kr.git", true, Vec::new()),
        ],
    };
    let new = Config {
        flow: vec![
            flow("kept", "https://example.com/k.git", true, Vec::new()),
            flow("dis", "https://example.com/d.git", false, Vec::new()),
            flow("rs", "https://example.com/new.git", true, Vec::new()),
            flow("kept-respawn", "https://example.com/kr.git", true, Vec::new()),
        ],
    };
    let plan = plan_reload(&old, &new, &mut reg);
    assert_eq!(plan.to_keep.names(), vec!["kept".to_string()]);
    assert_eq!(plan.removed_flows, vec!["gone".to_string(), "removed".to_string()]);
    assert_eq!(plan.url_resets, vec!["rs".to_string()]);
    assert_eq!(
        flows_to_forget(&plan),
        vec!["gone".to_string(), "removed".to_string(), "rs".to_string()],
    );
    assert_eq!(
        plan.cancelled.keys(),
        vec!["dis".to_string(), "removed".to_string(), "rs".to_string()],
    );
    assert_eq!(plan.cancelled.get("rs"), Some(&"handle of rs".to_string()));
    assert_eq!(reg.handles.keys(), vec!["kept".to_string()]);
    assert_eq!(reg.handles.get("kept"), Some(&"handle of kept".to_string()));
    assert_eq!(reg.respawning_flows.names(), vec!["kept-respawn".to_string()]);
    assert_eq!(reg.pending_exits_of("rs"), 2);
    assert_eq!(spawn_order(&new, &plan.to_keep), vec![2, 3]);
}

#[test]
fn reloading_the_same_config_keeps_every_running_flow() {
    let cfg = Config {
        flow: vec![
            flow("a", "https://example.com/a.git", true, Vec::new()),
            flow("b", "https://example.com/b.git", false, Vec::new()),
            flow("c", "https://example.com/c.git", true, Vec::new()),
        ],
    };
    let mut reg = registry_of(&["a", "c"]);
    let plan = plan_reload(&cfg, &cfg, &mut reg);
    assert_eq!(plan.to_keep.names(), vec!["a".to_string(), "c".to_string()]);
    assert_eq!(plan.cancelled.len(), 0);
    assert!(flows_to_forget(&plan).is_empty());
    assert!(spawn_order(&cfg, &plan.to_keep).is_empty());
    assert_eq!(reg.handles.len(), 2);
}

#[test]
fn handles_that_no_action_names_are_cancelled() {
    let mut reg = registry_of(&["kept", "orphan"]);
    let actions = vec![ReloadAction::Keep { name: "kept".to_string() }];
    let plan = apply_actions_to_registry(&actions, &mut reg);
    assert_eq!(plan.cancelled.keys(), vec!["orphan".to_string()]);
    assert_eq!(reg.handles.keys(), vec!["kept".to_string()]);
}

#[test]
fn drain_waits_until_only_kept_tasks_are_left() {
    assert!(drain_goes_on(5, 2));
    assert!(!drain_goes_on(4, 2));
    assert!(!drain_goes_on(0, 0));
    assert!(drain_goes_on(1, 0));
}

#[test]
fn exits_seen_while_draining_are_counted_and_panics_told() {
    let mut reg = registry_of(&["kept", "rs"]);
    let mut keep = NameSet::new();
    keep.insert("kept".to_string());
    let clean = FlowExit { flow: "rs".to_string(), role: FlowRole::Poll, panic: None };
    assert_eq!(observe_drained_exit(&clean, &keep, &mut reg), None);
    assert_eq!(reg.pending_exits_of("rs"), 1);
    let lost = FlowExit {
        flow: "rs".to_string(),
        role: FlowRole::Dispatcher,
        panic: Some("boom".to_string()),
    };
    assert_eq!(observe_drained_exit(&lost, &keep, &mut reg), Some(DrainedPanic { kept: false }));
    assert_eq!(reg.pending_exits_of("rs"), 0);
    assert!(!reg.pending_exits.contains_key("rs"));
    let kept = FlowExit {
        flow: "kept".to_string(),
        role: FlowRole::Poll,
        panic: Some("boom".to_string()),
    };
    assert_eq!(observe_drained_exit(&kept, &keep, &mut reg), Some(DrainedPanic { kept: true }));
}

#[test]
fn spawning_ends_a_respawn_that_is_under_way() {
    let mut reg: FlowRegistry<u8> = FlowRegistry::new();
    reg.respawning_flows.insert("ci".to_string());
    begin_spawn(&mut reg, "ci");
    assert!(!reg.respawning_flows.contains("ci"));
    reg.register_spawn("ci", 7);
    assert_eq!(reg.handles.get("ci"), Some(&7));
    assert_eq!(reg.pending_exits_of("ci"), 2);
}

#[test]
fn failed_loads_are_recorded_and_forgotten_by_the_next_reload() {
    let mut errors = NameMap::new();
    record_last_error(&mut errors, "ci", "panic", "boom", None, now());
    let faults = vec!["a.toml:1: bad".to_string(), "a.toml:9: worse".to_string()];
    record_reload_failure(&mut errors, &faults, now());
    let recorded = errors.get("(reload)").expect("recorded");
    assert_eq!(recorded.kind(), "config_reload");
    assert_eq!(recorded.message(), "a.toml:1: bad; a.toml:9: worse");
    assert_eq!(recorded.retry_at(), None);
    let reg = registry_of(&["b", "a"]);
    assert_eq!(finalize_reload(&mut errors, &reg), vec!["a".to_string(), "b".to_string()]);
    assert!(!errors.contains_key("(reload)"));
    assert!(errors.contains_key("ci"));
}

#[test]
fn reload_steps_run_to_ready_with_and_without_a_config() {
    let walk = |loaded: bool| {
        let mut step = ReloadStep::NotifyReloading;
        let mut seen = vec![step];
        while step != ReloadStep::Finished {
            step = next_reload_step(step, loaded);
            seen.push(step);
        }
        seen
    };
    assert_eq!(
        walk(true),
        vec![
            ReloadStep::NotifyReloading,
            ReloadStep::LoadConfig,
            ReloadStep::PlanAndCancel,
            ReloadStep::InvalidateCredentials,
            ReloadStep::Drain,
            ReloadStep::ForgetState,
            ReloadStep::PublishConfig,
            ReloadStep::SpawnGeneration,
            ReloadStep::Finalize,
            ReloadStep::NotifyReady,
            ReloadStep::Finished,
        ],
    );
    assert_eq!(
        walk(false),
        vec![
            ReloadStep::NotifyReloading,
            ReloadStep::LoadConfig,
            ReloadStep::RecordFailure,
            ReloadStep::NotifyReady,
            ReloadStep::Finished,
        ],
    );
}
