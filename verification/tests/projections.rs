use nexus::access::AccessError;
use nexus::demiurge::ContributionKind;
use nexus::gateway::{
    agent_detail, agent_state, last_report_at, log_limit, log_line, parse_uuid, task_requester,
    AgentFacts, LogRecord, Timestamp,
};
use nexus::gateway_client::{
    agent_logs_url, configured, decimal_text, logger_url, orch_url, plan_url, service_token,
    ship_log_url, task_result_url,
};
use nexus::housing::{
    activation_contribution, backing_node, council_reviewer, decisive_vote_contribution,
    default_quorum,
};
use nexus::nexus::{
    commission_phase, default_human, issued_scopes, live_lots, parse_capabilities,
    parse_node_uuid, FloorResponse, LotResponse,
};

fn strings(v: &[&str]) -> Vec<String> {
    v.iter().map(|s| s.to_string()).collect()
}

#[test]
fn capabilities_from_json_or_commas() {
    assert_eq!(parse_capabilities(&None), Vec::<String>::new());
    assert_eq!(parse_capabilities(&Some(r#"["gpu", " ssd "]"#.into())), strings(&["gpu", " ssd "]));
    assert_eq!(parse_capabilities(&Some(" gpu, ssd ,,net ".into())), strings(&["gpu", "ssd", "net"]));
    assert_eq!(parse_capabilities(&Some("".into())), Vec::<String>::new());
    assert_eq!(parse_capabilities(&Some("solo".into())), strings(&["solo"]));
}

fn lot(amount: i64, expires: i64, origin: &str) -> LotResponse {
    LotResponse {
        amount,
        original_amount: 100,
        minted_at_unix: 0,
        expires_at_unix: expires,
        origin: origin.into(),
        origin_ref: None,
    }
}

#[test]
fn wallets_show_only_live_lots() {
    let lots = vec![lot(5, 100, "a"), lot(0, 100, "b"), lot(7, 50, "c"), lot(9, 51, "d")];
    let live = live_lots(lots, 50);
    let origins: Vec<&str> = live.iter().map(|l| l.origin.as_str()).collect();
    assert_eq!(origins, vec!["a", "d"]);
    assert!(live_lots(vec![], 0).is_empty());
}

#[test]
fn floor_is_guaranteed() {
    let f = FloorResponse::default();
    assert!(f.housing && f.power && f.food && f.water && f.healthcare && f.education);
}

#[test]
fn commissioning_defaults() {
    assert_eq!(default_human(), "human");
    assert_eq!(commission_phase(None).as_deref(), Some("labor"));
    assert_eq!(commission_phase(Some("childhood".into())).as_deref(), Some("childhood"));
    assert_eq!(
        issued_scopes(None),
        "nodes:create,nodes:read,wallet:read,wallet:write,demiurge:mint,demiurge:redeem,payments:process,payments:read"
    );
    assert_eq!(issued_scopes(Some("nodes:read".into())), "nodes:read");
}

#[test]
fn identifiers_parse_as_uuids() {
    let id = "67e55044-10b1-426f-9247-bb680e5fe0c8";
    assert_eq!(parse_node_uuid(id).unwrap(), 0x67e5504410b1426f9247bb680e5fe0c8u128);
    assert_eq!(parse_uuid(id).unwrap(), 0x67e5504410b1426f9247bb680e5fe0c8u128);
    match parse_node_uuid("nope") {
        Err(AccessError::BadRequest(m)) => assert!(m.starts_with("invalid node id: ")),
        _ => panic!("expected a bad request"),
    }
    match parse_uuid("nope") {
        Err(AccessError::BadRequest(m)) => assert!(m.starts_with("invalid agent id: ") && m.len() > 18),
        _ => panic!("expected a bad request"),
    }
}

#[test]
fn agent_states() {
    let now = Timestamp { secs: 10_000, nanos: 0 };
    let recent = Some(Timestamp { secs: 10_000 - 600, nanos: 0 });
    let stale = Some(Timestamp { secs: 10_000 - 600, nanos: 0 });
    let just_stale = Some(Timestamp { secs: 10_000 - 601, nanos: 999_999_999 });
    assert_eq!(agent_state("active", recent, now), "healthy");
    assert_eq!(agent_state("active", just_stale, now), "offline");
    assert_eq!(agent_state("drift", stale, now), "drift");
    assert_eq!(agent_state("active", None, now), "offline");
    assert_eq!(agent_state("active", Some(Timestamp { secs: 9_000, nanos: 0 }), now), "offline");
}

#[test]
fn last_report_falls_back() {
    assert_eq!(last_report_at(Some(3), Some(2), 1), 3);
    assert_eq!(last_report_at(None, Some(2), 1), 2);
    assert_eq!(last_report_at(None::<i32>, None, 1), 1);
}

#[test]
fn agent_details_have_no_gaps() {
    let d = agent_detail(AgentFacts {
        hostgroup: None,
        os: Some("linux".into()),
        kernel: None,
        arch: Some("x86_64".into()),
        cpu_cores: Some(8),
        memory_mb: None,
        disk_gb: Some(512),
        agent_version: None,
        uptime_seconds: None,
    });
    assert_eq!(d.hostgroup, "");
    assert_eq!(d.os, "linux");
    assert_eq!(d.kernel, "");
    assert_eq!(d.arch, "x86_64");
    assert_eq!(d.cpu_cores, 8);
    assert_eq!(d.memory_mb, 0);
    assert_eq!(d.disk_gb, 512);
    assert_eq!(d.agent_version, "");
    assert_eq!(d.uptime_seconds, 0);
}

#[test]
fn log_lines_and_limits() {
    let line = log_line(LogRecord { timestamp: None, level: None, source: None, message: Some("up".into()) });
    assert_eq!(line.timestamp, "");
    assert_eq!(line.level, "info");
    assert_eq!(line.source, "agent");
    assert_eq!(line.message, "up");
    let line = log_line(LogRecord {
        timestamp: Some("t".into()),
        level: Some("warn".into()),
        source: Some("nexus".into()),
        message: None,
    });
    assert_eq!((line.timestamp.as_str(), line.level.as_str(), line.source.as_str(), line.message.as_str()), ("t", "warn", "nexus", ""));
    assert_eq!(log_limit(None), 100);
    assert_eq!(log_limit(Some(0)), 1);
    assert_eq!(log_limit(Some(5_000)), 1_000);
    assert_eq!(log_limit(Some(42)), 42);
}

#[test]
fn task_requesters() {
    assert_eq!(task_requester("", "hub"), "service:hub");
    assert_eq!(task_requester("alice", "hub"), "alice");
}

#[test]
fn outbound_addresses() {
    assert_eq!(orch_url(None), "http://127.0.0.1:5152");
    assert_eq!(logger_url(None), "http://127.0.0.1:5151");
    assert_eq!(orch_url(Some("http://o".into())), "http://o");
    assert_eq!(plan_url("http://o"), "http://o/plan");
    assert_eq!(ship_log_url("http://l"), "http://l/logs");
    assert_eq!(agent_logs_url("http://l", "abc", 100), "http://l/logs?agent_id=abc&limit=100");
    assert_eq!(task_result_url("https://hub//"), "https://hub/api/v1/automation/results/task");
    assert_eq!(task_result_url("https://hub"), "https://hub/api/v1/automation/results/task");
    assert_eq!(service_token(Some("".into())), None);
    assert_eq!(service_token(Some("k".into())).as_deref(), Some("k"));
    assert_eq!(configured(None), None);
}

#[test]
fn decimal_rendering() {
    assert_eq!(decimal_text(0), "0");
    assert_eq!(decimal_text(7), "7");
    assert_eq!(decimal_text(1000), "1000");
    assert_eq!(decimal_text(-42), "-42");
    assert_eq!(decimal_text(i64::MIN), i64::MIN.to_string());
    assert_eq!(decimal_text(i64::MAX), i64::MAX.to_string());
}

#[test]
fn housing_rules() {
    assert_eq!(default_quorum(None), 2);
    assert_eq!(default_quorum(Some(5)), 5);
    let c = decisive_vote_contribution(1_209_600 + 10, "Elm Court");
    assert_eq!(c.kind, ContributionKind::Labor);
    assert_eq!(c.minutes, 30);
    assert!(!c.essential && !c.coverage);
    assert_eq!(c.week_index, 2);
    assert_eq!(c.note, "housing council · decisive vote · Elm Court");
    assert_eq!(c.at_unix, 1_209_610);
    assert_eq!(decisive_vote_contribution(-604_801, "x").week_index, -1);
}

#[test]
fn planning_status() {
    assert_eq!(nexus::gateway::status_after_planning(true), "planned");
    assert_eq!(nexus::gateway::status_after_planning(false), "accepted");
}

#[test]
fn record_ids_fail_internally() {
    let id = "67e55044-10b1-426f-9247-bb680e5fe0c8";
    assert_eq!(nexus::gateway::parse_record_id(id).unwrap(), 0x67e5504410b1426f9247bb680e5fe0c8u128);
    match nexus::gateway::parse_record_id("bad") {
        Err(AccessError::Internal(m)) => assert!(!m.is_empty() && !m.contains("bad id")),
        _ => panic!("expected an internal error"),
    }
}

#[test]
fn requested_capabilities_are_stored_as_json() {
    assert_eq!(nexus::nexus::stored_capabilities(&None), None);
    let stored = nexus::nexus::stored_capabilities(&Some(strings(&["gpu", "ssd"])));
    assert_eq!(stored.as_deref(), Some(r#"["gpu","ssd"]"#));
    assert_eq!(parse_capabilities(&stored), strings(&["gpu", "ssd"]));
}

#[test]
fn council_vote_decisions() {
    assert_eq!(council_reviewer(Some(7)).unwrap(), 7);
    match council_reviewer::<i32>(None) {
        Err(AccessError::BadRequest(m)) => assert_eq!(m, "User has no associated node"),
        _ => panic!("expected a bad request"),
    }
    assert!(activation_contribution(None, 0).is_none());
    let c = activation_contribution(Some("Elm Court"), 604_800).unwrap();
    assert_eq!((c.minutes, c.week_index), (30, 1));
    assert_eq!(c.note, "housing council · decisive vote · Elm Court");
    let b = backing_node("Elm Court", "ref-1".into());
    assert_eq!(b.class, "housing");
    assert_eq!(b.label, "Elm Court");
    assert_eq!(b.lifecycle_phase.as_deref(), Some("active"));
    assert_eq!(b.source.as_deref(), Some("housing_manager"));
    assert_eq!(b.external_ref.as_deref(), Some("ref-1"));
    assert!(b.capabilities.is_none() && b.public_key.is_none() && b.owner_user_id.is_none());
}

#[test]
fn capability_json_escapes() {
    let stored = nexus::nexus::stored_capabilities(&Some(strings(&["a\"b\\c\n\u{1}\u{7f}é", ""])));
    assert_eq!(stored.as_deref(), Some("[\"a\\\"b\\\\c\\n\\u0001\u{7f}é\",\"\"]"));
    assert_eq!(nexus::nexus::stored_capabilities(&Some(vec![])).as_deref(), Some("[]"));
}

#[test]
fn normalized_words_parse_alike() {
    for raw in ["  CaRe ", "Rehab", "\tcontent\n", "unknown"] {
        let normalized = raw.trim().to_ascii_lowercase();
        assert_eq!(ContributionKind::from_str_lenient(raw), ContributionKind::from_str_lenient(&normalized));
    }
}
