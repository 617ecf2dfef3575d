//! Managed-mode decisions: batch splitting, the wait directive, and the
//! reserved-range port choice.

use brp_tool::managed::{
    choose_port, parse_command_list, parse_wait_directive, port_exhausted_message,
    random_reserved_port, PortChoice, PortSearch, MANAGED_PORT_MAX, MANAGED_PORT_MIN,
    MAX_PORT_ATTEMPTS,
};
use brp_tool::DEFAULT_REMOTE_PORT;

#[test]
fn test_parse_command_list_plain() {
    assert_eq!(
        parse_command_list("list, query Foo ,ready"),
        vec!["list".to_string(), "query Foo".to_string(), "ready".to_string()]
    );
}

#[test]
fn test_parse_command_list_keeps_json_whole() {
    let cmds = parse_command_list(r#"spawn {"a": {"b": [1,2]}, "c": "x,y"},list"#);
    assert_eq!(
        cmds,
        vec![
            r#"spawn {"a": {"b": [1,2]}, "c": "x,y"}"#.to_string(),
            "list".to_string()
        ]
    );
}

#[test]
fn test_parse_command_list_drops_blanks() {
    assert_eq!(
        parse_command_list(" ,list,, ,ready , "),
        vec!["list".to_string(), "ready".to_string()]
    );
    assert_eq!(parse_command_list(""), Vec::<String>::new());
}

#[test]
fn test_parse_wait_directive() {
    assert_eq!(parse_wait_directive("wait:5"), Some(5));
    assert_eq!(parse_wait_directive("wait:0"), Some(0));
    assert_eq!(parse_wait_directive("wait:x"), None);
    assert_eq!(parse_wait_directive("wait:"), None);
    assert_eq!(parse_wait_directive("list"), None);
}

#[test]
fn test_choose_port() {
    assert_eq!(
        choose_port(DEFAULT_REMOTE_PORT),
        PortChoice::PickFromReservedRange
    );
    assert_eq!(choose_port(17000), PortChoice::UseRequested(17000));
}

#[test]
fn test_random_reserved_port_avoids_default() {
    // the default port was requested and happens to be occupied: every pick
    // from the reserved range is a different port
    for _ in 0..100 {
        let p = random_reserved_port();
        assert!(MANAGED_PORT_MIN <= p && p <= MANAGED_PORT_MAX);
        assert_ne!(p, DEFAULT_REMOTE_PORT);
    }
}

#[test]
fn test_port_search_is_bounded() {
    let mut search = PortSearch::new();
    let mut attempts = 0;
    loop {
        attempts += 1;
        if !search.record_unavailable() {
            break;
        }
    }
    assert_eq!(attempts, MAX_PORT_ATTEMPTS);
}

#[test]
fn test_port_exhausted_message() {
    assert_eq!(
        port_exhausted_message(),
        "Could not find an available port after 50 attempts"
    );
}
