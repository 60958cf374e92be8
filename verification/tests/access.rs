use nexus::access::{
    authenticate, authenticate_bearer, bearer_token, check_permission, conclude_lookup,
    constant_time_eq, get_effective_permissions, matches_any, presented_token, require,
    require_permission, root_context, validate_token, AccessError, SystemContext, TokenScreen,
};

fn strings(v: &[&str]) -> Vec<String> {
    v.iter().map(|s| s.to_string()).collect()
}

#[test]
fn wildcards_and_exact_patterns() {
    assert!(matches_any(&strings(&["*"]), "tasks:create"));
    assert!(matches_any(&strings(&["tasks:create"]), "tasks:create"));
    assert!(matches_any(&strings(&["tasks:*"]), "tasks:cancel"));
    assert!(matches_any(&strings(&["tasks:**"]), "tasks:cancel"));
    assert!(!matches_any(&strings(&["tasks:*"]), "agents:read"));
    assert!(!matches_any(&strings(&["tasks:create"]), "tasks:cancel"));
    assert!(!matches_any(&[], "tasks:read"));
    assert!(check_permission(&strings(&["roles:read", "housing:*"]), "housing:write"));
}

#[test]
fn require_permission_names_the_permission() {
    assert!(require_permission(&strings(&["*"]), "system:tokens").is_ok());
    match require_permission(&strings(&["tasks:read"]), "system:tokens") {
        Err(AccessError::Unauthorized(m)) => {
            assert_eq!(m, "Permission denied: requires 'system:tokens'")
        }
        _ => panic!("expected an unauthorized error"),
    }
}

#[test]
fn effective_permissions_are_sorted_union() {
    let roles = strings(&[r#"["tasks:read","agents:*"]"#, "not json", r#"["tasks:read","b"]"#]);
    let plan = strings(&["wallet:read", "agents:*", "a"]);
    let eff = get_effective_permissions(&roles, &plan);
    assert_eq!(eff, strings(&["a", "agents:*", "b", "tasks:read", "wallet:read"]));
    assert!(check_permission(&eff, "agents:enroll"));
    assert!(!check_permission(&eff, "tasks:create"));
    assert!(get_effective_permissions(&[], &[]).is_empty());
}

#[test]
fn constant_time_comparison() {
    assert!(constant_time_eq("dev-nexus-system-token", "dev-nexus-system-token"));
    assert!(!constant_time_eq("dev-nexus-system-token", "dev-nexus-system-tokeN"));
    assert!(!constant_time_eq("abc", "abcd"));
    assert!(constant_time_eq("", ""));
    assert!(constant_time_eq("é", "é"));
}

#[test]
fn scopes() {
    let svc = SystemContext { service: "publisher".into(), scopes: strings(&["nodes:*", "wallet:read"]) };
    assert!(svc.has_scope("nodes:create"));
    assert!(svc.has_scope("wallet:read"));
    assert!(!svc.has_scope("wallet:write"));
    let root = root_context();
    assert_eq!(root.service, "root");
    assert_eq!(root.scopes, strings(&["*"]));
    assert!(root.has_scope("anything:at-all"));
}

#[test]
fn require_scope_reports_service_and_scope() {
    let svc = SystemContext { service: "publisher".into(), scopes: strings(&["nodes:read"]) };
    match require(svc.clone(), "wallet:write") {
        Err(AccessError::Unauthorized(m)) => {
            assert_eq!(m, "system token for 'publisher' lacks scope 'wallet:write'")
        }
        _ => panic!("expected an unauthorized error"),
    }
    let ok = require(svc, "nodes:read").unwrap();
    assert_eq!(ok.service, "publisher");
}

#[test]
fn header_tokens_are_trimmed() {
    assert_eq!(presented_token(Some("  abc \t")), Some("abc"));
    assert_eq!(presented_token(Some("   ")), None);
    assert_eq!(presented_token(None), None);
    assert_eq!(bearer_token(Some("Bearer  xyz ")), Some("xyz"));
    assert_eq!(bearer_token(Some("bearer xyz")), Some("xyz"));
    assert_eq!(bearer_token(Some("BEARER xyz")), None);
    assert_eq!(bearer_token(Some("Bearer ")), None);
    assert_eq!(bearer_token(None), None);
}

fn rejection(s: TokenScreen) -> String {
    match s {
        TokenScreen::Rejected(AccessError::Unauthorized(m)) => m,
        _ => panic!("expected a rejection"),
    }
}

#[test]
fn screening_tokens() {
    let root = "dev-nexus-system-token";
    assert!(matches!(authenticate(Some(" dev-nexus-system-token "), root), TokenScreen::Root(_)));
    assert!(matches!(authenticate(Some("other"), root), TokenScreen::Lookup("other")));
    assert_eq!(rejection(authenticate(None, root)), "missing system token");
    assert_eq!(rejection(authenticate(Some(""), root)), "missing system token");
    assert!(matches!(authenticate_bearer(Some("Bearer dev-nexus-system-token"), root), TokenScreen::Root(_)));
    assert!(matches!(authenticate_bearer(Some("Bearer key-1"), root), TokenScreen::Lookup("key-1")));
    assert_eq!(rejection(authenticate_bearer(Some("Token key-1"), root)), "missing bearer token");
    assert_eq!(rejection(validate_token("  ", root)), "empty token");
    assert!(matches!(validate_token(" key-2 ", root), TokenScreen::Lookup("key-2")));
}

#[test]
fn lookup_outcomes() {
    let svc = SystemContext { service: "hub".into(), scopes: vec![] };
    assert_eq!(conclude_lookup(Some(svc)).unwrap().service, "hub");
    match conclude_lookup(None) {
        Err(AccessError::Unauthorized(m)) => assert_eq!(m, "invalid system token"),
        _ => panic!("expected an unauthorized error"),
    }
}
