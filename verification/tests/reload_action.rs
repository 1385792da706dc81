use gcit::config::{
    ActionConfig, Config, CredentialId, Destination, FlowConfig, PollOverride, SourceConfig,
};
use gcit::names::{NameMap, NameSet};
use gcit::supervisor::action::{compute_reload_actions, ReloadAction};

fn flow(name: &str, url: &str, enabled: bool, destinations: Vec<Destination>) -> FlowConfig {
    FlowConfig {
        name: name.to_string(),
        enabled,
        description: None,
        source: SourceConfig {
            url: url.to_string(),
            ref_name: "refs/heads/main".to_string(),
            credential_id: None,
        },
        action: ActionConfig::GithubWorkflowDispatch {
            repo: "owner/repo".to_string(),
            workflow: "ci.yml".to_string(),
            ref_name: "refs/heads/main".to_string(),
            credential_id: CredentialId::new("gh"),
            inputs: NameMap::new(),
        },
        destination: destinations,
        poll: PollOverride::default(),
    }
}

fn run(old: Vec<FlowConfig>, new: Vec<FlowConfig>, live: &[&str]) -> Vec<ReloadAction> {
    let old_cfg = Config { flow: old };
    let new_cfg = Config { flow: new };
    let mut live_set = NameSet::new();
    for name in live {
        live_set.insert(name.to_string());
    }
    compute_reload_actions(&old_cfg.by_name(), &new_cfg.by_name(), &live_set)
}

#[test]
fn action_compute_reload_actions_keep_for_unchanged_enabled_live_flow() {
    let actions = run(
        vec![flow("ci", "https://example.com/repo.git", true, Vec::new())],
        vec![flow("ci", "https://example.com/repo.git", true, Vec::new())],
        &["ci"],
    );
    assert_eq!(actions, vec![ReloadAction::Keep { name: "ci".to_string() }]);
}

#[test]
fn action_compute_reload_actions_remove_when_flow_drops_out_of_new_config() {
    let actions = run(
        vec![flow("ci", "https://example.com/repo.git", true, Vec::new())],
        vec![],
        &["ci"],
    );
    assert_eq!(actions, vec![ReloadAction::Remove { name: "ci".to_string(), live_handle: true }]);
}

#[test]
fn action_compute_reload_actions_remove_without_live_handle_when_flow_drops_out() {
    let actions = run(
        vec![flow("ci", "https://example.com/repo.git", true, Vec::new())],
        vec![],
        &[],
    );
    assert_eq!(actions, vec![ReloadAction::Remove { name: "ci".to_string(), live_handle: false }]);
}

#[test]
fn action_compute_reload_actions_disable_when_new_config_disables_flow() {
    let actions = run(
        vec![flow("ci", "https://example.com/repo.git", true, Vec::new())],
        vec![flow("ci", "https://example.com/repo.git", false, Vec::new())],
        &["ci"],
    );
    assert_eq!(actions, vec![ReloadAction::Disable { name: "ci".to_string(), url_changed: false }]);
}

#[test]
fn action_compute_reload_actions_disable_with_url_changed_when_disable_and_url_diff() {
    let actions = run(
        vec![flow("ci", "https://example.com/old.git", true, Vec::new())],
        vec![flow("ci", "https://example.com/new.git", false, Vec::new())],
        &["ci"],
    );
    assert_eq!(actions, vec![ReloadAction::Disable { name: "ci".to_string(), url_changed: true }]);
}

#[test]
fn action_compute_reload_actions_no_action_for_disabled_flow_with_no_live_handle() {
    let actions = run(
        vec![flow("ci", "https://example.com/repo.git", false, Vec::new())],
        vec![flow("ci", "https://example.com/repo.git", false, Vec::new())],
        &[],
    );
    assert_eq!(actions, vec![]);
}

#[test]
fn action_compute_reload_actions_restart_with_url_changed_for_url_diff() {
    let actions = run(
        vec![flow("ci", "https://example.com/old.git", true, Vec::new())],
        vec![flow("ci", "https://example.com/new.git", true, Vec::new())],
        &["ci"],
    );
    assert_eq!(actions, vec![ReloadAction::Restart { name: "ci".to_string(), url_changed: true }]);
}

#[test]
fn action_compute_reload_actions_spawn_for_genuinely_new_flow() {
    let actions = run(
        vec![],
        vec![flow("ci", "https://example.com/repo.git", true, Vec::new())],
        &[],
    );
    assert_eq!(actions, vec![ReloadAction::Spawn { name: "ci".to_string() }]);
}

#[test]
fn action_compute_reload_actions_spawn_for_revived_flow_with_no_live_handle() {
    let actions = run(
        vec![flow("ci", "https://example.com/repo.git", true, Vec::new())],
        vec![flow("ci", "https://example.com/repo.git", true, Vec::new())],
        &[],
    );
    assert_eq!(actions, vec![ReloadAction::Spawn { name: "ci".to_string() }]);
}

#[test]
fn action_compute_reload_actions_restart_for_changed_enabled_live_flow() {
    let mut old_f = flow("ci", "https://example.com/repo.git", true, Vec::new());
    let ActionConfig::GithubWorkflowDispatch { repo, .. } = &mut old_f.action;
    *repo = "owner/old-repo".to_string();
    let mut new_f = flow("ci", "https://example.com/repo.git", true, Vec::new());
    let ActionConfig::GithubWorkflowDispatch { repo, .. } = &mut new_f.action;
    *repo = "owner/new-repo".to_string();
    let actions = run(vec![old_f], vec![new_f], &["ci"]);
    assert_eq!(actions, vec![ReloadAction::Restart { name: "ci".to_string(), url_changed: false }]);
}

#[test]
fn action_compute_reload_actions_handles_multiple_flows_independently() {
    let actions = run(
        vec![
            flow("kept", "https://example.com/k.git", true, Vec::new()),
            flow("removed", "https://example.com/r.git", true, Vec::new()),
            flow("dis", "https://example.com/d.git", true, Vec::new()),
            flow("rs", "https://example.com/old.git", true, Vec::new()),
        ],
        vec![
            flow("kept", "https://example.com/k.git", true, Vec::new()),
            flow("dis", "https://example.com/d.git", false, Vec::new()),
            flow("rs", "https://example.com/new.git", true, Vec::new()),
        ],
        &["kept", "removed", "dis", "rs"],
    );
    assert_eq!(
        actions,
        vec![
            ReloadAction::Disable { name: "dis".to_string(), url_changed: false },
            ReloadAction::Keep { name: "kept".to_string() },
            ReloadAction::Remove { name: "removed".to_string(), live_handle: true },
            ReloadAction::Restart { name: "rs".to_string(), url_changed: true },
        ],
    );
}

#[test]
fn orphan_handles_are_removed_and_unknown_live_flows_restarted() {
    let actions = run(
        vec![],
        vec![
            flow("on", "https://example.com/a.git", true, Vec::new()),
            flow("off", "https://example.com/b.git", false, Vec::new()),
        ],
        &["on", "off", "orphan"],
    );
    assert_eq!(
        actions,
        vec![
            ReloadAction::Disable { name: "off".to_string(), url_changed: false },
            ReloadAction::Restart { name: "on".to_string(), url_changed: false },
            ReloadAction::Remove { name: "orphan".to_string(), live_handle: true },
        ],
    );
    assert_eq!(actions[0].name(), "off");
}
