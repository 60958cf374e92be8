//! Projections for the agent gateway: agent liveness state, the reported
//! timestamp, machine facts rendered without gaps, log lines, the log tail
//! limit and the requester recorded for a dispatched task.

use vstd::prelude::*;

use crate::access::AccessError;
use crate::nexus::{parse_id, uuid_parse};
use crate::text;

verus! {

/// An instant: whole seconds since the Unix epoch and nanoseconds past them.
#[derive(Clone, Copy, Debug)]
pub struct Timestamp {
    pub secs: i64,
    pub nanos: u32,
}

/// Nanoseconds from `then` to `now`.
pub open spec fn nanos_between(now: Timestamp, then: Timestamp) -> int {
    (now.secs - then.secs) * 1_000_000_000 + (now.nanos - then.nanos)
}

/// Ten minutes, in nanoseconds: the freshest report that counts as healthy.
pub open spec fn healthy_window() -> int {
    600_000_000_000
}

/// The state shown for an agent: `drift` when it was marked drifted,
/// `healthy` when its last heartbeat is at most ten minutes old, and
/// `offline` when it is older or there never was one.
pub open spec fn agent_state_of(status: Seq<char>, last_heartbeat: Option<Timestamp>, now: Timestamp) -> Seq<
    char,
> {
    if status == "drift"@ {
        "drift"@
    } else {
        match last_heartbeat {
            Some(t) => if nanos_between(now, t) <= healthy_window() {
                "healthy"@
            } else {
                "offline"@
            },
            None => "offline"@,
        }
    }
}

/// The `healthy | drift | offline` state of an agent at `now`.
pub fn agent_state(status: &str, last_heartbeat: Option<Timestamp>, now: Timestamp) -> (r: String)
    ensures
        r@ == agent_state_of(status@, last_heartbeat, now),
{
    if text::same_text(status, "drift") {
        return String::from_str("drift");
    }
    match last_heartbeat {
        Some(t) => {
            let age: i128 = (now.secs as i128 - t.secs as i128) * 1_000_000_000 + (now.nanos as i128
                - t.nanos as i128);
            if age <= 600_000_000_000 {
                String::from_str("healthy")
            } else {
                String::from_str("offline")
            }
        },
        None => String::from_str("offline"),
    }
}

/// The timestamp shown as an agent's last report: its last heartbeat, else
/// its enrollment, else the creation of its record.
pub fn last_report_at<T>(last_heartbeat_at: Option<T>, enrolled_at: Option<T>, created_at: T) -> (r:
    T)
    ensures
        last_heartbeat_at matches Some(h) ==> r == h,
        enrolled_at matches Some(e) ==> (last_heartbeat_at is None ==> r == e),
        last_heartbeat_at is None && enrolled_at is None ==> r == created_at,
{
    match last_heartbeat_at {
        Some(h) => h,
        None => match enrolled_at {
            Some(e) => e,
            None => created_at,
        },
    }
}

/// Facts an agent reported, each possibly absent.
#[derive(Debug)]
pub struct AgentFacts {
    pub hostgroup: Option<String>,
    pub os: Option<String>,
    pub kernel: Option<String>,
    pub arch: Option<String>,
    pub cpu_cores: Option<i32>,
    pub memory_mb: Option<i32>,
    pub disk_gb: Option<i32>,
    pub agent_version: Option<String>,
    pub uptime_seconds: Option<i64>,
}

/// Facts as rendered: an absent text is empty and an absent count is zero.
#[derive(Debug)]
pub struct AgentDetail {
    pub hostgroup: String,
    pub os: String,
    pub kernel: String,
    pub arch: String,
    pub cpu_cores: i32,
    pub memory_mb: i32,
    pub disk_gb: i32,
    pub agent_version: String,
    pub uptime_seconds: i64,
}

/// A text, or the empty text when absent.
pub open spec fn text_or_empty(v: Option<String>) -> Seq<char> {
    match v {
        Some(s) => s@,
        None => Seq::empty(),
    }
}

/// A count, or zero when absent.
pub open spec fn count_or_zero(v: Option<i64>) -> int {
    match v {
        Some(n) => n as int,
        None => 0,
    }
}

fn string_or_empty(v: Option<String>) -> (r: String)
    ensures
        r@ == text_or_empty(v),
{
    match v {
        Some(s) => s,
        None => String::new(),
    }
}

fn i32_or_zero(v: Option<i32>) -> (r: i32)
    ensures
        v matches Some(n) ==> r == n,
        v is None ==> r == 0,
{
    match v {
        Some(n) => n,
        None => 0,
    }
}

/// Render reported facts without gaps, so that every field decodes.
pub fn agent_detail(facts: AgentFacts) -> (r: AgentDetail)
    ensures
        r.hostgroup@ == text_or_empty(facts.hostgroup),
        r.os@ == text_or_empty(facts.os),
        r.kernel@ == text_or_empty(facts.kernel),
        r.arch@ == text_or_empty(facts.arch),
        r.agent_version@ == text_or_empty(facts.agent_version),
        r.cpu_cores == (match facts.cpu_cores {
            Some(n) => n,
            None => 0i32,
        }),
        r.memory_mb == (match facts.memory_mb {
            Some(n) => n,
            None => 0i32,
        }),
        r.disk_gb == (match facts.disk_gb {
            Some(n) => n,
            None => 0i32,
        }),
        r.uptime_seconds == count_or_zero(facts.uptime_seconds),
{
    AgentDetail {
        hostgroup: string_or_empty(facts.hostgroup),
        os: string_or_empty(facts.os),
        kernel: string_or_empty(facts.kernel),
        arch: string_or_empty(facts.arch),
        cpu_cores: i32_or_zero(facts.cpu_cores),
        memory_mb: i32_or_zero(facts.memory_mb),
        disk_gb: i32_or_zero(facts.disk_gb),
        agent_version: string_or_empty(facts.agent_version),
        uptime_seconds: match facts.uptime_seconds {
            Some(n) => n,
            None => 0,
        },
    }
}

/// The text fields of one logger record, each possibly absent.
#[derive(Debug)]
pub struct LogRecord {
    pub timestamp: Option<String>,
    pub level: Option<String>,
    pub source: Option<String>,
    pub message: Option<String>,
}

/// A log line as the gateway renders it.
#[derive(Debug)]
pub struct LogLine {
    pub timestamp: String,
    pub level: String,
    pub source: String,
    pub message: String,
}

/// A text, or `default` when absent.
pub open spec fn text_or(v: Option<String>, default: Seq<char>) -> Seq<char> {
    match v {
        Some(s) => s@,
        None => default,
    }
}

fn string_or(v: Option<String>, default: &str) -> (r: String)
    ensures
        r@ == text_or(v, default@),
{
    match v {
        Some(s) => s,
        None => String::from_str(default),
    }
}

/// Render a logger record: an absent level is `info`, an absent source is
/// `agent`, and an absent timestamp or message is empty.
pub fn log_line(record: LogRecord) -> (r: LogLine)
    ensures
        r.timestamp@ == text_or_empty(record.timestamp),
        r.level@ == text_or(record.level, "info"@),
        r.source@ == text_or(record.source, "agent"@),
        r.message@ == text_or_empty(record.message),
{
    LogLine {
        timestamp: string_or_empty(record.timestamp),
        level: string_or(record.level, "info"),
        source: string_or(record.source, "agent"),
        message: string_or_empty(record.message),
    }
}

/// How many log lines to fetch: the requested number (100 when none was
/// requested), kept within 1 to 1000.
pub fn log_limit(requested: Option<i64>) -> (r: i64)
    ensures
        ({
            let n = match requested {
                Some(n) => n as int,
                None => 100,
            };
            r == if n < 1 {
                1
            } else if n > 1000 {
                1000
            } else {
                n
            }
        }),
{
    let n = match requested {
        Some(n) => n,
        None => 100,
    };
    if n < 1 {
        1
    } else if n > 1000 {
        1000
    } else {
        n
    }
}

/// Who a dispatched task is recorded as created by: the requester named in
/// the request, or `service:<name>` of the calling service when none was.
pub fn task_requester(requester_id: &str, service: &str) -> (r: String)
    ensures
        requester_id@.len() == 0 ==> r@ == "service:"@ + service@,
        requester_id@.len() > 0 ==> r@ == requester_id@,
{
    if requester_id.unicode_len() == 0 {
        let mut s = String::from_str("service:");
        s.append(service);
        s
    } else {
        String::from_str(requester_id)
    }
}

/// Parse an agent identifier, refusing a malformed one with
/// `invalid agent id: <error>`.
pub fn parse_uuid(raw: &str) -> (r: Result<u128, AccessError>)
    ensures
        uuid_parse(raw@) matches Ok(v) ==> r == Ok::<u128, AccessError>(v),
        uuid_parse(raw@) matches Err(e) ==> (r matches Err(AccessError::BadRequest(m)) && m@
            == "invalid agent id: "@ + e),
{
    parse_id(raw, "invalid agent id: ")
}

/// The audit message recorded when a task is planned.
pub fn task_planned_message(intent: &str) -> (r: String)
    ensures
        r@ == "task planned: "@ + intent@,
{
    let mut s = String::from_str("task planned: ");
    s.append(intent);
    s
}

/// The status a dispatched task is left in: `planned` when the orchestrator
/// returned a plan, `accepted` (recorded, unplanned) when it could not be
/// reached.
pub fn status_after_planning(planned: bool) -> (r: String)
    ensures
        planned ==> r@ == "planned"@,
        !planned ==> r@ == "accepted"@,
{
    if planned {
        String::from_str("planned")
    } else {
        String::from_str("accepted")
    }
}

/// Parse an agent or task identifier taken from a request path, treating a
/// malformed one as an internal failure whose message is the parse error.
pub fn parse_record_id(raw: &str) -> (r: Result<u128, AccessError>)
    ensures
        uuid_parse(raw@) matches Ok(v) ==> r == Ok::<u128, AccessError>(v),
        uuid_parse(raw@) matches Err(e) ==> (r matches Err(AccessError::Internal(m)) && m@ == e),
{
    match crate::nexus::parse_uuid_text(raw) {
        Ok(v) => Ok(v),
        Err(e) => Err(AccessError::Internal(e)),
    }
}

/// An agent marked drifted shows as drifted; otherwise it is healthy exactly
/// when it sent a heartbeat at most ten minutes (600 s) before now, and
/// offline when its last heartbeat is older or it never sent one.
pub proof fn law_agent_state(status: Seq<char>, last_heartbeat: Option<Timestamp>, now: Timestamp)
    ensures
        status == "drift"@ ==> agent_state_of(status, last_heartbeat, now) == "drift"@,
        status != "drift"@ && last_heartbeat is None ==> agent_state_of(status, last_heartbeat, now)
            == "offline"@,
        status != "drift"@ && last_heartbeat is Some ==> (agent_state_of(
            status,
            last_heartbeat,
            now,
        ) == "healthy"@ <==> (now.secs - last_heartbeat->Some_0.secs) * 1_000_000_000 + now.nanos
            - last_heartbeat->Some_0.nanos <= 600 * 1_000_000_000),
        status != "drift"@ && last_heartbeat is Some ==> (agent_state_of(
            status,
            last_heartbeat,
            now,
        ) != "healthy"@ ==> agent_state_of(status, last_heartbeat, now) == "offline"@),
{
    reveal_strlit("healthy");
    reveal_strlit("offline");
    assert("healthy"@ != "offline"@) by {
        assert("healthy"@[0] != "offline"@[0]);
    }
}

} // verus!
