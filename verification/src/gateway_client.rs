//! Addresses and credentials of the services the Nexus calls out to: the
//! orchestrator (planning), the logger (audit trail) and the hub's automation
//! results ingest. Configuration values are handed in as read from the
//! environment; the requests themselves are made by the caller.

use vstd::prelude::*;

use crate::access::trim_end_matches_char;

verus! {

/// The decimal digit `d` (0 to 9).
pub open spec fn digit_char(d: int) -> char {
    if d == 0 {
        '0'
    } else if d == 1 {
        '1'
    } else if d == 2 {
        '2'
    } else if d == 3 {
        '3'
    } else if d == 4 {
        '4'
    } else if d == 5 {
        '5'
    } else if d == 6 {
        '6'
    } else if d == 7 {
        '7'
    } else if d == 8 {
        '8'
    } else {
        '9'
    }
}

/// The decimal digits of `m`, most significant first, without leading zeros.
pub open spec fn digits(m: nat) -> Seq<char>
    decreases m,
{
    if m < 10 {
        seq![digit_char(m as int)]
    } else {
        digits(m / 10).push(digit_char((m % 10) as int))
    }
}

/// `n` written in decimal, with a leading `-` when negative.
pub open spec fn decimal(n: int) -> Seq<char> {
    if n < 0 {
        seq!['-'] + digits((-n) as nat)
    } else {
        digits(n as nat)
    }
}

fn digit_text(d: u64) -> (t: &'static str)
    requires
        d < 10,
    ensures
        t@ == seq![digit_char(d as int)],
{
    if d == 0 {
        proof {
            reveal_strlit("0");
        }
        "0"
    } else if d == 1 {
        proof {
            reveal_strlit("1");
        }
        "1"
    } else if d == 2 {
        proof {
            reveal_strlit("2");
        }
        "2"
    } else if d == 3 {
        proof {
            reveal_strlit("3");
        }
        "3"
    } else if d == 4 {
        proof {
            reveal_strlit("4");
        }
        "4"
    } else if d == 5 {
        proof {
            reveal_strlit("5");
        }
        "5"
    } else if d == 6 {
        proof {
            reveal_strlit("6");
        }
        "6"
    } else if d == 7 {
        proof {
            reveal_strlit("7");
        }
        "7"
    } else if d == 8 {
        proof {
            reveal_strlit("8");
        }
        "8"
    } else {
        proof {
            reveal_strlit("9");
        }
        "9"
    }
}

fn push_digits(out: &mut String, m: u64)
    ensures
        final(out)@ == old(out)@ + digits(m as nat),
    decreases m,
{
    if m >= 10 {
        push_digits(out, m / 10);
    }
    out.append(digit_text(m % 10));
    assert(out@ =~= old(out)@ + digits(m as nat));
}

/// `n` written in decimal.
pub fn decimal_text(n: i64) -> (r: String)
    ensures
        r@ == decimal(n as int),
{
    let mut out = String::new();
    if n < 0 {
        out.append("-");
        proof {
            reveal_strlit("-");
        }
        let mag = (0i128 - n as i128) as u64;
        push_digits(&mut out, mag);
    } else {
        push_digits(&mut out, n as u64);
    }
    out
}

/// A configured value, treated as absent when empty.
pub open spec fn configured_text(value: Option<String>) -> Option<Seq<char>> {
    match value {
        Some(s) => if s@.len() > 0 {
            Some(s@)
        } else {
            None
        },
        None => None,
    }
}

/// A configured value, or nothing when it is absent or empty.
pub fn configured(value: Option<String>) -> (r: Option<String>)
    ensures
        match r {
            Some(s) => configured_text(value) == Some(s@),
            None => configured_text(value) is None,
        },
{
    match value {
        Some(s) => if s.as_str().unicode_len() > 0 {
            Some(s)
        } else {
            None
        },
        None => None,
    }
}

/// The service token presented to the orchestrator and the logger: the
/// configured one, unless it is empty.
pub fn service_token(value: Option<String>) -> (r: Option<String>)
    ensures
        match r {
            Some(s) => configured_text(value) == Some(s@),
            None => configured_text(value) is None,
        },
{
    configured(value)
}

/// The orchestrator's origin: the configured one, or `http://127.0.0.1:5152`.
pub fn orch_url(value: Option<String>) -> (r: String)
    ensures
        value matches Some(s) ==> r == s,
        value is None ==> r@ == "http://127.0.0.1:5152"@,
{
    match value {
        Some(s) => s,
        None => String::from_str("http://127.0.0.1:5152"),
    }
}

/// The logger's origin: the configured one, or `http://127.0.0.1:5151`.
pub fn logger_url(value: Option<String>) -> (r: String)
    ensures
        value matches Some(s) ==> r == s,
        value is None ==> r@ == "http://127.0.0.1:5151"@,
{
    match value {
        Some(s) => s,
        None => String::from_str("http://127.0.0.1:5151"),
    }
}

/// Where a plan request goes.
pub fn plan_url(orch: &str) -> (r: String)
    ensures
        r@ == orch@ + "/plan"@,
{
    let mut s = String::from_str(orch);
    s.append("/plan");
    s
}

/// Where log entries are shipped.
pub fn ship_log_url(logger: &str) -> (r: String)
    ensures
        r@ == logger@ + "/logs"@,
{
    let mut s = String::from_str(logger);
    s.append("/logs");
    s
}

/// Where an agent's most recent `limit` log entries are fetched from.
pub fn agent_logs_url(logger: &str, agent_id: &str, limit: i64) -> (r: String)
    ensures
        r@ == logger@ + "/logs?agent_id="@ + agent_id@ + "&limit="@ + decimal(limit as int),
{
    let mut s = String::from_str(logger);
    s.append("/logs?agent_id=");
    s.append(agent_id);
    s.append("&limit=");
    let d = decimal_text(limit);
    s.append(d.as_str());
    s
}

/// Where a terminal task result is forwarded: the ingest origin without its
/// trailing slashes, then the task-results path.
pub fn task_result_url(ingest_base: &str) -> (r: String)
    ensures
        r@ == crate::text::trim_end_char(ingest_base@, '/') + "/api/v1/automation/results/task"@,
{
    let base = trim_end_matches_char(ingest_base, '/');
    let mut s = String::from_str(base);
    s.append("/api/v1/automation/results/task");
    s
}

} // verus!
