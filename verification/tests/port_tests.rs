//! Port probing interpretation and connection-error classification.

use brp_tool::port::{
    classify_wait_timeout, is_connection_error, no_app_running_message, probe_available,
    probe_connectable, ready_disposition, wait_port_error_message, PortStatus, ReadyDisposition,
    WaitPortFailure,
};

#[test]
fn test_is_connection_error() {
    assert!(is_connection_error("Connection refused (os error 111)"));
    assert!(is_connection_error("client error: tcp connect error"));
    assert!(is_connection_error("error sending request for url"));
    assert!(!is_connection_error("Remote error [-32601]: Method not found"));
    assert!(!is_connection_error(""));
}

#[test]
fn test_probes_mutually_exclusive() {
    for status in [PortStatus::Free, PortStatus::Listening] {
        let available = probe_available(status);
        let connectable = probe_connectable(status);
        assert!(!(available && connectable));
        // and at one instant exactly one of them holds
        assert!(available != connectable);
    }
}

#[test]
fn test_classify_wait_timeout() {
    assert_eq!(classify_wait_timeout(true), WaitPortFailure::AppFailedToStart);
    assert_eq!(classify_wait_timeout(false), WaitPortFailure::PortInUse);
}

#[test]
fn test_wait_port_error_messages() {
    assert_eq!(
        wait_port_error_message(17000, WaitPortFailure::AppFailedToStart),
        "Timeout waiting for app to start on port 17000. The app may have failed to start."
    );
    assert_eq!(
        wait_port_error_message(15702, WaitPortFailure::PortInUse),
        "Port 15702 is already in use by another process. Use -p/--port to specify a different port."
    );
}

#[test]
fn test_no_app_running_message() {
    assert_eq!(
        no_app_running_message(65432),
        "No app is running on port 65432. Start the app first or use --managed mode."
    );
}

#[test]
fn test_ready_disposition() {
    assert_eq!(ready_disposition(true, ""), ReadyDisposition::Ready);
    assert_eq!(
        ready_disposition(false, "Connection refused"),
        ReadyDisposition::Unreachable
    );
    assert_eq!(
        ready_disposition(false, "Remote error [1]: busy"),
        ReadyDisposition::NotReady
    );
}
