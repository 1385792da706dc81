use gcit::names::NameMap;
use gcit::supervisor::types::{
    is_synthetic_daemon_key, record_last_error, FlowLastError, FlowRegistry, RELOAD_SYNTHETIC_KEY,
};
use gcit::time::Timestamp;

#[test]
fn is_synthetic_daemon_key_recognises_parenthesized_keys() {
    assert!(is_synthetic_daemon_key(RELOAD_SYNTHETIC_KEY));
    assert!(is_synthetic_daemon_key("(reload)"));
    assert!(is_synthetic_daemon_key("(future-sentinel)"));
}

#[test]
fn is_synthetic_daemon_key_rejects_real_flow_names() {
    assert!(!is_synthetic_daemon_key("ci-flow"));
    assert!(!is_synthetic_daemon_key("flow_name"));
    assert!(!is_synthetic_daemon_key("(no-trailing"));
    assert!(!is_synthetic_daemon_key("no-leading)"));
    assert!(!is_synthetic_daemon_key(""));
}

#[test]
fn flow_registry_new_starts_with_empty_collections() {
    let reg: FlowRegistry<()> = FlowRegistry::new();
    assert_eq!(reg.handles.len(), 0);
    assert_eq!(reg.respawning_flows.len(), 0);
    assert_eq!(reg.pending_exits.len(), 0);
}

#[test]
fn record_last_error_overwrites_the_error_of_its_flow_only() {
    let at = |s| Timestamp::new(s, 0).expect("a calendar time");
    let mut map: NameMap<FlowLastError> = NameMap::new();
    record_last_error(&mut map, "ci", "git_poll_failed", "boom", None, at(1));
    record_last_error(&mut map, "other", "panic", "ouch", None, at(2));
    record_last_error(&mut map, "ci", "github_error", "limited", Some(at(9)), at(3));
    assert_eq!(map.len(), 2);
    let ci = map.get("ci").unwrap();
    assert_eq!(ci.kind(), "github_error");
    assert_eq!(ci.message(), "limited");
    assert_eq!(ci.at(), at(3));
    assert_eq!(ci.retry_at(), Some(at(9)));
    assert_eq!(map.get("other").unwrap().message(), "ouch");
}
