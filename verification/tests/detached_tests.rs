//! Detached-session bookkeeping: file names, reports and cleanup planning.

use brp_tool::detached::{
    format_duration, get_session_prefix, plan_cleanup, session_info_file_name,
    session_log_file_name, session_report, ScanEntry, SessionInfo,
};

#[test]
fn test_session_file_names() {
    assert_eq!(get_session_prefix(), "brp_session");
    assert_eq!(session_info_file_name(17000), "brp_session_port_17000.json");
    assert_eq!(session_log_file_name(1700000000123), "brp_session_1700000000123.log");
}

#[test]
fn test_format_duration() {
    assert_eq!(format_duration(0), "0s");
    assert_eq!(format_duration(59), "59s");
    assert_eq!(format_duration(65), "1m 5s");
    assert_eq!(format_duration(3600), "1h 0m 0s");
    assert_eq!(format_duration(3661), "1h 1m 1s");
}

#[test]
fn test_session_report_live_session() {
    // a detached session on port 17000 whose process answers both probes
    let info = SessionInfo {
        pid: 4242,
        port: 17000,
        log_file: "brp_session_1000.log".to_string(),
        start_time_ms: 1000,
        app_binary: "my_game".to_string(),
    };
    let report = session_report(&info, true, true, 62_000);
    assert!(report.process_alive);
    assert!(report.app_running);
    assert_eq!(report.pid, 4242);
    assert_eq!(report.port, 17000);
    assert_eq!(report.uptime_seconds, 61);
    assert!(!report.remove_stale_descriptor);
}

#[test]
fn test_session_report_stale_descriptor() {
    let info = SessionInfo {
        pid: 4242,
        port: 17000,
        log_file: "brp_session_1000.log".to_string(),
        start_time_ms: 5000,
        app_binary: "my_game".to_string(),
    };
    // process dead and port silent: the descriptor is stale and may go
    let report = session_report(&info, false, false, 4000);
    assert!(report.remove_stale_descriptor);
    // a clock standing before the start yields zero uptime
    assert_eq!(report.uptime_seconds, 0);

    // one probe positive keeps the descriptor
    assert!(!session_report(&info, true, false, 9000).remove_stale_descriptor);
    assert!(!session_report(&info, false, true, 9000).remove_stale_descriptor);
}

#[test]
fn test_cleanup_removes_dead_session_files_only() {
    // one dead session, one live session, one unrelated file
    let entries = vec![
        ScanEntry {
            name: "brp_session_port_17000.json".to_string(),
            log_name: Some("brp_session_100.log".to_string()),
            process_alive: false,
        },
        ScanEntry {
            name: "brp_session_100.log".to_string(),
            log_name: None,
            process_alive: false,
        },
        ScanEntry {
            name: "brp_session_port_17001.json".to_string(),
            log_name: Some("brp_session_200.log".to_string()),
            process_alive: true,
        },
        ScanEntry {
            name: "brp_session_200.log".to_string(),
            log_name: None,
            process_alive: false,
        },
        ScanEntry {
            name: "unrelated.txt".to_string(),
            log_name: None,
            process_alive: false,
        },
    ];
    let plan = plan_cleanup(&entries);
    // the dead session's descriptor and log are among the inactive files removed
    assert!(plan.remove.contains(&"brp_session_port_17000.json".to_string()));
    assert!(plan.remove.contains(&"brp_session_100.log".to_string()));
    assert_eq!(plan.remove.len(), 2);
    // the live session's files are preserved, never removed
    assert!(plan.preserve.contains(&"brp_session_port_17001.json".to_string()));
    assert!(plan.preserve.contains(&"brp_session_200.log".to_string()));
    assert_eq!(plan.preserve.len(), 2);
    // files outside the session naming are left alone entirely
    assert!(!plan.remove.contains(&"unrelated.txt".to_string()));
    assert!(!plan.preserve.contains(&"unrelated.txt".to_string()));
}

#[test]
fn test_cleanup_unparseable_descriptor_removed() {
    // a descriptor that did not parse is never protected
    let entries = vec![ScanEntry {
        name: "brp_session_port_17002.json".to_string(),
        log_name: None,
        process_alive: true,
    }];
    let plan = plan_cleanup(&entries);
    assert_eq!(plan.remove, vec!["brp_session_port_17002.json".to_string()]);
}
