use insights_core::api_keys::{api_key_expired, has_passed};
use insights_core::config::{
    is_development_name, level_from_name, parse_db_log_level, LogLevel, PoolConfig, SqlLogConfig,
    StatementLogging,
};
use insights_core::health::{
    component_health, health_status_code, overall_status, running_health, LoggingMetrics, Probe,
};
use insights_core::query::in_clause_placeholders;
use insights_core::scheduler::{
    advance_loop,
    LoopAction::{LogFailureAndWait, Nothing, StartCycle, Stop, Wait},
    LoopEvent::{Cancel, CycleFailed, CycleSucceeded, Tick},
    LoopState::{Idle, Running, Stopped, Stopping},
};
use insights_core::table::{group_by_key, TextMap};
use insights_core::text::{str_equal, str_less, to_decimal};

#[test]
fn pool_config_defaults() {
    let c = PoolConfig::default();
    assert_eq!(c.max_connections, 10);
    assert_eq!(c.min_connections, 2);
    assert_eq!(c.connect_timeout_seconds, 30);
    assert_eq!(c.idle_timeout_seconds, 600);
    assert_eq!(c.max_lifetime_seconds, 1800);
}

#[test]
fn pool_config_from_settings_parses_or_defaults() {
    let c = PoolConfig::from_settings(Some("25"), Some("abc"), None, Some("+90"), Some("-1"));
    assert_eq!(c.max_connections, 25);
    assert_eq!(c.min_connections, 2);
    assert_eq!(c.connect_timeout_seconds, 30);
    assert_eq!(c.idle_timeout_seconds, 90);
    assert_eq!(c.max_lifetime_seconds, 1800);
    let d = PoolConfig::from_settings(Some("4294967296"), Some(" 3"), Some("18446744073709551615"), Some(""), None);
    assert_eq!(d.max_connections, 10);
    assert_eq!(d.min_connections, 2);
    assert_eq!(d.connect_timeout_seconds, u64::MAX);
    assert_eq!(d.idle_timeout_seconds, 600);
    let e = PoolConfig::from_values(Some(1), None, Some(2), None, Some(3));
    assert_eq!((e.max_connections, e.min_connections), (1, 2));
    assert_eq!((e.connect_timeout_seconds, e.idle_timeout_seconds, e.max_lifetime_seconds), (2, 600, 3));
}

#[test]
fn sql_log_config_defaults() {
    let c = SqlLogConfig::default();
    assert_eq!(c.level, LogLevel::Debug);
    assert!(c.log_all_in_dev);
    assert_eq!(c.slow_query_threshold_ms, 100);
}

#[test]
fn sql_log_config_from_settings() {
    let c = SqlLogConfig::from_settings(None, None, None, None);
    assert_eq!(c.level, LogLevel::Debug);
    assert!(c.log_all_in_dev);
    assert_eq!(c.slow_query_threshold_ms, 100);

    let c = SqlLogConfig::from_settings(Some("Production"), Some("dev"), None, Some("250"));
    assert_eq!(c.level, LogLevel::Info);
    assert!(!c.log_all_in_dev);
    assert_eq!(c.slow_query_threshold_ms, 250);

    let c = SqlLogConfig::from_settings(None, Some("DEV"), Some("warning"), Some("x"));
    assert_eq!(c.level, LogLevel::Warn);
    assert!(c.log_all_in_dev);
    assert_eq!(c.slow_query_threshold_ms, 100);

    let c = SqlLogConfig::from_settings(Some("DEVELOPMENT"), None, Some("none"), None);
    assert_eq!(c.level, LogLevel::Off);
}

#[test]
fn level_names() {
    assert_eq!(parse_db_log_level(true, "trace"), LogLevel::Trace);
    assert_eq!(parse_db_log_level(false, "Debug"), LogLevel::Debug);
    assert_eq!(parse_db_log_level(true, "INFO"), LogLevel::Info);
    assert_eq!(parse_db_log_level(true, "warn"), LogLevel::Warn);
    assert_eq!(parse_db_log_level(true, "error"), LogLevel::Error);
    assert_eq!(parse_db_log_level(true, "off"), LogLevel::Off);
    assert_eq!(parse_db_log_level(true, ""), LogLevel::Debug);
    assert_eq!(parse_db_log_level(false, ""), LogLevel::Info);
    assert_eq!(parse_db_log_level(false, "verbose"), LogLevel::Info);
    assert_eq!(level_from_name("trace", false), LogLevel::Info);
    assert_eq!(level_from_name("TRACE", false), LogLevel::Trace);
    assert!(is_development_name("dev"));
    assert!(is_development_name("development"));
    assert!(!is_development_name("Dev"));
    assert!(!is_development_name("production"));
}

#[test]
fn statement_logging_follows_level_and_mode() {
    let mut c = SqlLogConfig::default();
    assert_eq!(c.statement_logging(), StatementLogging::All { level: LogLevel::Debug });
    c.log_all_in_dev = false;
    c.slow_query_threshold_ms = 75;
    assert_eq!(
        c.statement_logging(),
        StatementLogging::SlowOnly { level: LogLevel::Debug, threshold_ms: 75 }
    );
    c.level = LogLevel::Off;
    assert_eq!(c.statement_logging(), StatementLogging::Disabled);
}

#[test]
fn api_key_expiry() {
    let now = 1_700_000_000i64;
    assert!(api_key_expired(Some("2023-11-14T22:13:19Z"), now, 0));
    assert!(!api_key_expired(Some("2023-11-14T22:13:20Z"), now, 0));
    assert!(api_key_expired(Some("2023-11-14T22:13:20Z"), now, 1));
    assert!(!api_key_expired(Some("2023-11-14T22:13:20.000000001Z"), now, 1));
    assert!(api_key_expired(Some("2023-11-15T00:13:19+02:00"), now, 0));
    assert!(!api_key_expired(Some("2023-11-14T17:13:21-05:00"), now, 0));
    assert!(!api_key_expired(Some("not a date"), now, 0));
    assert!(!api_key_expired(Some("2023-11-14"), now, 0));
    assert!(!api_key_expired(None, now, 0));
    assert!(has_passed(Some((5, 0)), 5, 1));
    assert!(has_passed(Some((-5, 3)), -4, 0));
    assert!(!has_passed(Some((5, 1)), 5, 1));
    assert!(!has_passed(Some((6, 0)), 5, 999));
    assert!(!has_passed(None, i64::MAX, u32::MAX));
}

#[test]
fn health_decisions() {
    let h = component_health(Probe::Reachable { reported_status: Some("green".to_string()) });
    assert_eq!((h.status.as_str(), h.reachable), ("green", true));
    let h = component_health(Probe::Reachable { reported_status: None });
    assert_eq!((h.status.as_str(), h.reachable), ("unknown", true));
    let h = component_health(Probe::Unreachable);
    assert_eq!((h.status.as_str(), h.reachable), ("unreachable", false));
    let h = running_health(true);
    assert_eq!((h.status.as_str(), h.reachable), ("running", true));
    let h = running_health(false);
    assert_eq!((h.status.as_str(), h.reachable), ("unreachable", false));
    assert_eq!(overall_status(true, true, true), "healthy");
    assert_eq!(health_status_code(true, true, true), 200);
    for (a, b, c) in [(false, true, true), (true, false, true), (true, true, false), (false, false, false)] {
        assert_eq!(overall_status(a, b, c), "degraded");
        assert_eq!(health_status_code(a, b, c), 503);
    }
    let m = LoggingMetrics::connected();
    assert_eq!((m.logs_sent, m.logs_failed), (0, 0));
    assert_eq!(m.connection_status, "connected");
    assert_eq!(m.last_error, None);
}

#[test]
fn placeholders_are_numbered_from_one() {
    assert_eq!(in_clause_placeholders(0), "");
    assert_eq!(in_clause_placeholders(1), "?1");
    assert_eq!(in_clause_placeholders(3), "?1, ?2, ?3");
    let twelve = in_clause_placeholders(12);
    assert!(twelve.ends_with("?9, ?10, ?11, ?12"));
    assert_eq!(to_decimal(0), "0");
    assert_eq!(to_decimal(1090), "1090");
    assert_eq!(to_decimal(u64::MAX), u64::MAX.to_string());
}

#[test]
fn string_order_and_equality_match_std() {
    let samples = ["", "a", "ab", "b", "B", "é", "e", "日本", "z", "ab\u{0}", "M", "MA"];
    for a in samples.iter() {
        for b in samples.iter() {
            assert_eq!(str_less(a, b), a < b, "{:?} {:?}", a, b);
            assert_eq!(str_equal(a, b), a == b, "{:?} {:?}", a, b);
        }
    }
}

#[test]
fn loop_is_single_flight_and_survives_failures() {
    assert_eq!(advance_loop(Idle, Tick), (Running, StartCycle));
    assert_eq!(advance_loop(Running, Tick), (Running, Nothing));
    assert_eq!(advance_loop(Running, CycleFailed), (Idle, LogFailureAndWait));
    assert_eq!(advance_loop(Running, CycleSucceeded), (Idle, Wait));
    assert_eq!(advance_loop(Idle, Cancel), (Stopped, Stop));
    assert_eq!(advance_loop(Running, Cancel), (Stopping, Nothing));
    assert_eq!(advance_loop(Stopping, Tick), (Stopping, Nothing));
    assert_eq!(advance_loop(Stopping, Cancel), (Stopping, Nothing));
    assert_eq!(advance_loop(Stopping, CycleSucceeded), (Stopped, Stop));
    assert_eq!(advance_loop(Stopping, CycleFailed), (Stopped, Stop));
    assert_eq!(advance_loop(Stopped, Tick), (Stopped, Nothing));
    assert_eq!(advance_loop(Idle, CycleFailed), (Idle, Nothing));
    let mut state = Idle;
    for event in [Tick, CycleFailed, Tick, Tick, CycleFailed, Tick, CycleSucceeded] {
        state = advance_loop(state, event).0;
        assert_ne!(state, Stopped);
    }
    assert_eq!(state, Idle);
}

#[test]
fn rows_are_grouped_by_key_in_order() {
    let rows = vec![
        ("b".to_string(), 1),
        ("a".to_string(), 2),
        ("b".to_string(), 3),
        ("c".to_string(), 4),
        ("a".to_string(), 5),
        ("b".to_string(), 6),
    ];
    let groups = group_by_key(rows);
    assert_eq!(groups.len(), 3);
    assert_eq!(groups.get("a"), Some(&vec![2, 5]));
    assert_eq!(groups.get("b"), Some(&vec![1, 3, 6]));
    assert_eq!(groups.get("c"), Some(&vec![4]));
    assert_eq!(groups.get("d"), None);
    assert!(group_by_key(Vec::<(String, u8)>::new()).into_entries().is_empty());
}

#[test]
fn text_map_insert_replaces_and_get_finds() {
    let mut map: TextMap<u32> = TextMap::new();
    assert_eq!(map.get("x"), None);
    map.insert("x".to_string(), 1);
    map.insert("y".to_string(), 2);
    map.insert("x".to_string(), 3);
    assert_eq!(map.get("x"), Some(&3));
    assert_eq!(map.get("y"), Some(&2));
    assert!(map.contains_key("y"));
    assert!(!map.contains_key(""));
    assert_eq!(map.len(), 2);
    assert_eq!(map.entry(0), Some((&"x".to_string(), &3)));
    assert_eq!(map.entry(2), None);
    let mut lists: TextMap<Vec<u8>> = TextMap::new();
    lists.append_to("k".to_string(), 7);
    lists.append_to("k".to_string(), 8);
    assert_eq!(lists.into_entries(), vec![("k".to_string(), vec![7, 8])]);
}
