use nexus::access::{matches_any, root_token, AccessError, DEV_ROOT_TOKEN, ENV_ROOT_TOKEN, HEADER};
use nexus::app::App;
use nexus::funnel::{evaluate, refusal, FunnelResult, OperationIntent};
use nexus::gateway::task_planned_message;

#[test]
fn root_token_falls_back_to_the_development_token() {
    assert_eq!(root_token(None), DEV_ROOT_TOKEN);
    assert_eq!(root_token(Some("prod-token".into())), "prod-token");
    assert_eq!(HEADER, "x-nexus-system-token");
    assert_eq!(ENV_ROOT_TOKEN, "NEXUS_SYSTEM_TOKEN");
}

#[test]
fn more_patterns_never_revoke() {
    let mut granted = vec!["tasks:read".to_string()];
    assert!(matches_any(&granted, "tasks:read"));
    granted.push("agents:*".to_string());
    assert!(matches_any(&granted, "tasks:read"));
    assert!(matches_any(&granted, "agents:read"));
}

#[test]
fn funnel_refusals() {
    assert!(refusal(FunnelResult { allowed: true, denied_at_tier: None, reason: None }).is_ok());
    match refusal(FunnelResult { allowed: false, denied_at_tier: Some(4), reason: None }) {
        Err(AccessError::Unauthorized(m)) => assert_eq!(m, "Permission denied"),
        _ => panic!("expected an unauthorized error"),
    }
    let create = OperationIntent::new("tasks:create");
    match refusal(evaluate(&[], &create, None)) {
        Err(AccessError::Unauthorized(m)) => assert_eq!(m, "RBAC: user lacks permission 'tasks:create'"),
        _ => panic!("expected an unauthorized error"),
    }
}

#[test]
fn version_label() {
    assert_eq!(App::app_version("0.1.0", Some("abc123"), Some("def")), "0.1.0 (abc123)");
    assert_eq!(App::app_version("0.1.0", None, Some("def")), "0.1.0 (def)");
    assert_eq!(App::app_version("0.1.0", None, None), "0.1.0 (dev)");
}

#[test]
fn audit_messages() {
    assert_eq!(task_planned_message("patch hosts"), "task planned: patch hosts");
}
