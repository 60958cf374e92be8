use nexus::funnel::{evaluate, mentions_destructive_action, OperationIntent};

fn strings(v: &[&str]) -> Vec<String> {
    v.iter().map(|s| s.to_string()).collect()
}

#[test]
fn destructive_actions_are_detected() {
    assert!(OperationIntent::new("tasks:cancel").is_destructive);
    assert!(OperationIntent::new("Disks:WIPE").is_destructive);
    assert!(OperationIntent::new("hosts:REPartition").is_destructive);
    assert!(!OperationIntent::new("tasks:create").is_destructive);
    assert!(OperationIntent::detect_destructive("DELETE"));
    assert!(mentions_destructive_action("remove-node"));
    assert!(!mentions_destructive_action("REMOVE"));
}

#[test]
fn intents_carry_resources() {
    let i = OperationIntent::new("tasks:read").with_resource("host-7");
    assert_eq!(i.permission, "tasks:read");
    assert_eq!(i.resource_id.as_deref(), Some("host-7"));
    assert!(!i.is_destructive);
    assert_eq!(OperationIntent::new("tasks:read").resource_id, None);
}

#[test]
fn funnel_tiers() {
    let create = OperationIntent::new("tasks:create");
    let denied = evaluate(&strings(&["tasks:read"]), &create, None);
    assert!(!denied.allowed);
    assert_eq!(denied.denied_at_tier, Some(2));
    assert_eq!(denied.reason.as_deref(), Some("RBAC: user lacks permission 'tasks:create'"));

    let allowed = evaluate(&strings(&["tasks:*"]), &create, None);
    assert!(allowed.allowed);
    assert_eq!(allowed.denied_at_tier, None);
    assert_eq!(allowed.reason, None);

    let cancel = OperationIntent::new("tasks:cancel");
    let step_up = evaluate(&strings(&["tasks:*"]), &cancel, None);
    assert!(!step_up.allowed);
    assert_eq!(step_up.denied_at_tier, Some(4));
    assert_eq!(
        step_up.reason.as_deref(),
        Some("Step-up authentication required for destructive operations")
    );
    assert!(evaluate(&strings(&["tasks:*"]), &cancel, Some("otp")).allowed);
}
