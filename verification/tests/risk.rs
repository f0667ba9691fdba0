use overslash_api::risk::{
    ActionRisk, DerivedKey, Risk, ServiceDefinition, ServiceRegistry, derive_risk_class,
    http_status_code, render_action_detail, replay_template_key, risk_class, runtime_tag,
    truncate_utf8,
};

fn registry_with(key: &str, action: &str, risk: Risk) -> ServiceRegistry {
    let mut registry = ServiceRegistry::default();
    registry.insert(ServiceDefinition {
        key: key.to_string(),
        actions: vec![ActionRisk { action: action.to_string(), risk }],
    });
    registry
}

fn dk(service: &str, action: &str) -> DerivedKey {
    DerivedKey { service: service.to_string(), action: action.to_string() }
}

#[test]
fn risk_read_maps_low() {
    let reg = registry_with("github", "list_repos", Risk::Read);
    let keys = vec![dk("github", "list_repos")];
    assert_eq!(derive_risk_class(&reg, &keys), "low");
}

#[test]
fn risk_write_maps_med() {
    let reg = registry_with("github", "create_pr", Risk::Write);
    let keys = vec![dk("github", "create_pr")];
    assert_eq!(derive_risk_class(&reg, &keys), "med");
}

#[test]
fn risk_delete_maps_high() {
    let reg = registry_with("postgres", "drop_database", Risk::Delete);
    let keys = vec![dk("postgres", "drop_database")];
    assert_eq!(derive_risk_class(&reg, &keys), "high");
}

#[test]
fn missing_service_falls_back_to_med() {
    let reg = ServiceRegistry::default();
    let keys = vec![dk("ghost", "vanish")];
    assert_eq!(derive_risk_class(&reg, &keys), "med");
}

#[test]
fn missing_action_falls_back_to_med() {
    let reg = registry_with("github", "list_repos", Risk::Read);
    let keys = vec![dk("github", "create_pr")];
    assert_eq!(derive_risk_class(&reg, &keys), "med");
}

#[test]
fn empty_derived_keys_falls_back_to_med() {
    let reg = ServiceRegistry::default();
    assert_eq!(derive_risk_class(&reg, &[]), "med");
}

#[test]
fn only_first_derived_key_counts() {
    let reg = registry_with("postgres", "drop_database", Risk::Delete);
    let keys = vec![dk("ghost", "vanish"), dk("postgres", "drop_database")];
    assert_eq!(derive_risk_class(&reg, &keys), "med");
}

#[test]
fn insert_replaces_template_with_same_key() {
    let mut reg = registry_with("github", "list_repos", Risk::Read);
    reg.insert(ServiceDefinition {
        key: "github".to_string(),
        actions: vec![ActionRisk { action: "list_repos".to_string(), risk: Risk::Delete }],
    });
    assert_eq!(reg.action_risk("github", "list_repos"), Some(Risk::Delete));
    reg.insert(ServiceDefinition { key: "slack".to_string(), actions: vec![] });
    assert_eq!(reg.action_risk("github", "list_repos"), Some(Risk::Delete));
    assert!(reg.contains("slack"));
    assert!(!reg.contains("jira"));
}

#[test]
fn risk_class_of_each_level() {
    assert_eq!(risk_class(Some(Risk::Read)), "low");
    assert_eq!(risk_class(Some(Risk::Write)), "med");
    assert_eq!(risk_class(Some(Risk::Delete)), "high");
    assert_eq!(risk_class(None), "med");
}

#[test]
fn risk_names_round_trip() {
    for r in [Risk::Read, Risk::Write, Risk::Delete] {
        assert_eq!(Risk::parse(&r.name()), Some(r));
    }
    assert_eq!(Risk::parse("READ"), None);
    assert_eq!(Risk::Write.at_least(), vec![Risk::Write, Risk::Delete]);
}

#[test]
fn replay_template_key_uses_known_service_prefix() {
    let reg = registry_with("github", "list_repos", Risk::Read);
    assert_eq!(replay_template_key(&reg, &["github:list_repos:*".to_string()]), "github");
    assert_eq!(replay_template_key(&reg, &["slack:post:*".to_string()]), "_unknown");
    assert_eq!(replay_template_key(&reg, &[":x".to_string()]), "_unknown");
    assert_eq!(replay_template_key(&reg, &[]), "_unknown");
    assert_eq!(replay_template_key(&reg, &["github".to_string()]), "github");
}

#[test]
fn truncate_utf8_backs_off_to_char_boundary() {
    assert_eq!(truncate_utf8("héllo", 2), "h");
    assert_eq!(truncate_utf8("héllo", 3), "hé");
    assert_eq!(truncate_utf8("abc", 10), "abc");
    assert_eq!(truncate_utf8("abc", 0), "");
}

#[test]
fn action_detail_rendering() {
    assert_eq!(render_action_detail(None), (None, false, 0));
    assert_eq!(render_action_detail(Some("{}")), (Some("{}"), false, 2));
    let big = "a".repeat(102_401);
    let (text, cut, size) = render_action_detail(Some(&big));
    assert!(cut);
    assert_eq!(size, 102_401);
    assert_eq!(text.unwrap().len(), 102_400);
}

#[test]
fn stored_result_probes() {
    assert_eq!(runtime_tag(Some("mcp"), true), Some("mcp".to_string()));
    assert_eq!(runtime_tag(None, true), Some("http".to_string()));
    assert_eq!(runtime_tag(None, false), None);
    assert_eq!(http_status_code(Some(404)), Some(404));
    assert_eq!(http_status_code(Some(70_000)), None);
    assert_eq!(http_status_code(None), None);
}
