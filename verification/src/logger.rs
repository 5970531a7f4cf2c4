//! Logging rules: which records reach the console and the log table, and the
//! query that reads the log table back.

use vstd::prelude::*;
use crate::text::{has_prefix, str_eq};

verus! {

/// A log level filter, from most to least severe (`Off` lets nothing through).
#[derive(Debug, Clone, Copy, PartialEq, Eq, Structural)]
pub enum LevelFilter {
    Off,
    Error,
    Warn,
    Info,
    Debug,
    Trace,
}

/// The rank of a level: a record passes a filter when its rank is at most the
/// filter's.
pub open spec fn rank(l: LevelFilter) -> int {
    match l {
        LevelFilter::Off => 0,
        LevelFilter::Error => 1,
        LevelFilter::Warn => 2,
        LevelFilter::Info => 3,
        LevelFilter::Debug => 4,
        LevelFilter::Trace => 5,
    }
}

/// The rank of a level.
pub fn level_rank(l: LevelFilter) -> (r: u8)
    ensures
        r == rank(l),
{
    match l {
        LevelFilter::Off => 0,
        LevelFilter::Error => 1,
        LevelFilter::Warn => 2,
        LevelFilter::Info => 3,
        LevelFilter::Debug => 4,
        LevelFilter::Trace => 5,
    }
}

/// The level name stored in the log table.
pub fn level_name(l: LevelFilter) -> (r: &'static str)
    ensures
        r@ == (match l {
            LevelFilter::Off => "off"@,
            LevelFilter::Error => "error"@,
            LevelFilter::Warn => "warn"@,
            LevelFilter::Info => "info"@,
            LevelFilter::Debug => "debug"@,
            LevelFilter::Trace => "trace"@,
        }),
{
    match l {
        LevelFilter::Off => "off",
        LevelFilter::Error => "error",
        LevelFilter::Warn => "warn",
        LevelFilter::Info => "info",
        LevelFilter::Debug => "debug",
        LevelFilter::Trace => "trace",
    }
}

/// The level named by a string (as `LOG_LEVEL` and the configuration write it).
pub fn parse_level(name: &str) -> (r: Option<LevelFilter>)
    ensures
        r == (if name@ == "off"@ {
            Some(LevelFilter::Off)
        } else if name@ == "error"@ {
            Some(LevelFilter::Error)
        } else if name@ == "warn"@ {
            Some(LevelFilter::Warn)
        } else if name@ == "info"@ {
            Some(LevelFilter::Info)
        } else if name@ == "debug"@ {
            Some(LevelFilter::Debug)
        } else if name@ == "trace"@ {
            Some(LevelFilter::Trace)
        } else {
            None
        }),
{
    if str_eq(name, "off") {
        Some(LevelFilter::Off)
    } else if str_eq(name, "error") {
        Some(LevelFilter::Error)
    } else if str_eq(name, "warn") {
        Some(LevelFilter::Warn)
    } else if str_eq(name, "info") {
        Some(LevelFilter::Info)
    } else if str_eq(name, "debug") {
        Some(LevelFilter::Debug)
    } else if str_eq(name, "trace") {
        Some(LevelFilter::Trace)
    } else {
        None
    }
}

/// Whether a log target belongs to this program (its module paths start with
/// `squid`).
pub fn is_squid_target(target: &str) -> (r: bool)
    ensures
        r == (has_prefix(target@, "squid"@) || has_prefix(target@, "squid_rs"@)),
{
    let v = crate::text::chars_of(target);
    let a = crate::text::vec_starts_with_str(&v, "squid");
    let b = crate::text::vec_starts_with_str(&v, "squid_rs");
    a || b
}

/// The console level when none is given.
pub fn console_level_or_default(log_level: Option<&str>) -> (r: &str)
    ensures
        r@ == (match log_level { Some(l) => l@, None => "error"@ }),
{
    match log_level {
        Some(l) => l,
        None => "error",
    }
}

/// The database level when none is given: `Info`.
pub fn db_level_or_default(db_level: Option<LevelFilter>) -> (r: LevelFilter)
    ensures
        r == (match db_level { Some(l) => l, None => LevelFilter::Info }),
{
    match db_level {
        Some(l) => l,
        None => LevelFilter::Info,
    }
}

/// The logger's routing settings.
#[derive(Debug, Clone, Copy, PartialEq, Eq, Structural)]
pub struct LogRouting {
    /// Whether a log table is configured.
    pub has_db: bool,
    pub db_level: LevelFilter,
}

/// Whether a record is written to the log table: a table is configured, the
/// record's level passes the table's filter, and it comes from this program.
pub open spec fn goes_to_db(routing: LogRouting, level: LevelFilter, target: Seq<char>) -> bool {
    routing.has_db && rank(level) <= rank(routing.db_level) && (has_prefix(target, "squid"@) || has_prefix(
        target,
        "squid_rs"@,
    ))
}

/// Levels go from most to least severe: error, warn, info, debug, trace. A filter
/// that lets a record into the log table lets in every more severe record too;
/// the `off` filter lets nothing in; and only this program's records go there.
pub proof fn law_db_filter_by_severity(routing: LogRouting, level: LevelFilter, more_severe: LevelFilter, target: Seq<char>)
    ensures
        rank(LevelFilter::Off) < rank(LevelFilter::Error) < rank(LevelFilter::Warn) < rank(LevelFilter::Info) < rank(
            LevelFilter::Debug) < rank(LevelFilter::Trace),
        (goes_to_db(routing, level, target) && rank(more_severe) <= rank(level)) ==> goes_to_db(
            routing,
            more_severe,
            target,
        ),
        (routing.db_level == LevelFilter::Off && level != LevelFilter::Off) ==> !goes_to_db(routing, level, target),
        goes_to_db(routing, level, target) ==> routing.has_db && has_prefix(target, "squid"@),
        (routing.has_db && routing.db_level == LevelFilter::Trace && has_prefix(target, "squid"@)) ==> goes_to_db(
            routing,
            level,
            target,
        ),
{
    reveal_strlit("squid");
    reveal_strlit("squid_rs");
    if has_prefix(target, "squid_rs"@) {
        assert(target.subrange(0, 5) =~= target.subrange(0, 8).subrange(0, 5));
        assert("squid_rs"@.subrange(0, 5) =~= "squid"@);
    }
}

/// Whether a record is written to the log table.
pub fn writes_to_db(routing: LogRouting, level: LevelFilter, target: &str) -> (r: bool)
    ensures
        r == goes_to_db(routing, level, target@),
{
    routing.has_db && level_rank(level) <= level_rank(routing.db_level) && is_squid_target(target)
}

/// Whether the logger handles a record at all: the console takes it, or it goes to
/// the log table.
pub fn logger_enabled(console_enabled: bool, routing: LogRouting, level: LevelFilter, target: &str) -> (r: bool)
    ensures
        r == (console_enabled || goes_to_db(routing, level, target@)),
{
    console_enabled || writes_to_db(routing, level, target)
}

/// The global level: the more verbose of the console and database levels, so
/// that neither output loses records to the other's filter.
pub fn max_level(console: LevelFilter, db: LevelFilter) -> (r: LevelFilter)
    ensures
        rank(r) == (if rank(console) > rank(db) { rank(console) } else { rank(db) }),
        r == console || r == db,
{
    if level_rank(console) > level_rank(db) {
        console
    } else {
        db
    }
}

/// A stored log entry.
#[derive(Debug, Clone)]
pub struct LogEntry {
    pub id: i64,
    pub timestamp: i64,
    pub level: String,
    pub target: String,
    pub message: String,
    pub session_id: Option<String>,
}

/// A parameter bound into the log query.
#[derive(Debug, Clone)]
pub enum QueryParam {
    Text(String),
    Integer(i64),
}

/// The text of the log query for the given filters.
pub open spec fn logs_query_text(by_level: bool, by_session: bool, limited: bool) -> Seq<char> {
    "SELECT id, timestamp, level, target, message, session_id FROM logs WHERE 1=1"@
        + (if by_level { " AND level = ?"@ } else { Seq::empty() })
        + (if by_session { " AND session_id = ?"@ } else { Seq::empty() })
        + " ORDER BY timestamp DESC"@
        + (if limited { " LIMIT ?"@ } else { Seq::empty() })
}

/// Builds the log query and its parameters, newest entries first: a level filter,
/// a session filter and a limit are each added when given, in that order.
pub fn build_logs_query(limit: Option<usize>, level: Option<&str>, session_id: Option<&str>) -> (r: (String, Vec<QueryParam>))
    requires
        limit matches Some(n) ==> n <= i64::MAX,
    ensures
        r.0@ == logs_query_text(level is Some, session_id is Some, limit is Some),
        r.1@.len() == (if level is Some { 1int } else { 0int }) + (if session_id is Some { 1int } else { 0int }) + (
        if limit is Some { 1int } else { 0int }),
        level matches Some(l) ==> (r.1@[0] matches QueryParam::Text(t) && t@ == l@),
        session_id matches Some(s) ==> (r.1@[if level is Some { 1int } else { 0int }] matches QueryParam::Text(t)
            && t@ == s@),
        limit matches Some(n) ==> (r.1@[r.1@.len() - 1] matches QueryParam::Integer(k) && k == n),
{
    let mut q = String::from_str("SELECT id, timestamp, level, target, message, session_id FROM logs WHERE 1=1");
    let mut params: Vec<QueryParam> = Vec::new();
    match level {
        Some(l) => {
            q.append(" AND level = ?");
            params.push(QueryParam::Text(String::from_str(l)));
        },
        None => {},
    }
    match session_id {
        Some(s) => {
            q.append(" AND session_id = ?");
            params.push(QueryParam::Text(String::from_str(s)));
        },
        None => {},
    }
    q.append(" ORDER BY timestamp DESC");
    match limit {
        Some(n) => {
            q.append(" LIMIT ?");
            params.push(QueryParam::Integer(n as i64));
        },
        None => {},
    }
    proof {
        assert(q@ =~= logs_query_text(level is Some, session_id is Some, limit is Some));
    }
    (q, params)
}

} // verus!
