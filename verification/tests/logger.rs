use squid::logger::{
    build_logs_query, is_squid_target, logger_enabled, max_level, parse_level, writes_to_db, LevelFilter, LogRouting,
    QueryParam,
};

#[test]
fn test_target_filtering() {
    assert!(is_squid_target("squid_rs::api"));
    assert!(is_squid_target("squid::jobs"));
    assert!(!is_squid_target("actix_web::middleware"));
}

#[test]
fn test_logger_level_filtering() {
    let routing = LogRouting { has_db: true, db_level: LevelFilter::Info };
    assert!(logger_enabled(false, routing, LevelFilter::Info, "squid_rs::api"));
    assert!(!logger_enabled(false, routing, LevelFilter::Info, "actix_web"));
    assert!(!writes_to_db(routing, LevelFilter::Debug, "squid_rs::api"));
    assert_eq!(max_level(LevelFilter::Error, LevelFilter::Info), LevelFilter::Info);
    assert_eq!(parse_level("warn"), Some(LevelFilter::Warn));
    assert_eq!(parse_level("loud"), None);
}

#[test]
fn log_query_text_and_parameters() {
    let (q, params) = build_logs_query(Some(10), Some("info"), None);
    assert_eq!(
        q,
        "SELECT id, timestamp, level, target, message, session_id FROM logs WHERE 1=1 AND level = ? ORDER BY timestamp DESC LIMIT ?"
    );
    assert_eq!(params.len(), 2);
    assert!(matches!(&params[0], QueryParam::Text(t) if t == "info"));
    assert!(matches!(&params[1], QueryParam::Integer(10)));
}
