//! Port probing logic. The two probes themselves — binding a listening
//! socket and opening a TCP connection — are outside work; what lives here
//! is their interpretation: what each result means, how a connection failure
//! is recognized in an error's text, and which message a timed-out wait for
//! a port deserves.
use vstd::prelude::*;

use crate::text::{
    chars_extend, chars_to_string, contains_sub, dec_digits, str_contains_sub, str_to_chars,
    u64_to_chars,
};

verus! {

/// How often waiting operations re-check, in milliseconds.
pub const POLL_INTERVAL_MS: u64 = 50;

/// Whether an error's rendered text shows a connection failure: the target
/// is not listening at all, as opposed to listening and misbehaving.
pub open spec fn spec_is_connection_error(s: Seq<char>) -> bool {
    contains_sub(s, "Connection refused"@) || contains_sub(s, "tcp connect error"@) || contains_sub(
        s,
        "error sending request"@,
    )
}

/// Recognizes the connection-failure wordings in an error's rendered text.
pub fn is_connection_error(error_str: &str) -> (r: bool)
    ensures
        r == spec_is_connection_error(error_str@),
{
    str_contains_sub(error_str, "Connection refused") || str_contains_sub(
        error_str,
        "tcp connect error",
    ) || str_contains_sub(error_str, "error sending request")
}

/// What the operating system shows for a TCP port at one instant: free to
/// bind, or already held by a listener.
#[derive(Debug, PartialEq, Eq, Clone, Copy, Structural)]
pub enum PortStatus {
    Free,
    Listening,
}

/// What the bind probe reports: a port is available exactly when it is free.
pub fn probe_available(status: PortStatus) -> (r: bool)
    ensures
        r == (status is Free),
{
    match status {
        PortStatus::Free => true,
        PortStatus::Listening => false,
    }
}

/// What the connect probe reports: a port is connectable exactly when
/// something listens on it.
pub fn probe_connectable(status: PortStatus) -> (r: bool)
    ensures
        r == (status is Listening),
{
    match status {
        PortStatus::Free => false,
        PortStatus::Listening => true,
    }
}

/// Availability and connectability are mutually exclusive: whatever a port's
/// status is at one instant, the two probes cannot both report true of it.
pub proof fn lemma_probes_exclusive(status: PortStatus)
    ensures
        !((status is Free) && (status is Listening)),
{
}

/// Why a wait for a connectable port timed out.
#[derive(Debug, PartialEq, Eq, Clone, Copy, Structural)]
pub enum WaitPortFailure {
    /// The port is bindable now, so nothing took it: the app likely never
    /// started listening.
    AppFailedToStart,
    /// The port is still occupied by something that does not answer: another
    /// process holds it.
    PortInUse,
}

/// After a timed-out wait, a re-probe of availability settles the blame: a
/// bindable port means the app failed to start, an occupied one means
/// another process holds it.
pub fn classify_wait_timeout(now_bindable: bool) -> (r: WaitPortFailure)
    ensures
        r == WaitPortFailure::AppFailedToStart <==> now_bindable,
        r == WaitPortFailure::PortInUse <==> !now_bindable,
{
    if now_bindable {
        WaitPortFailure::AppFailedToStart
    } else {
        WaitPortFailure::PortInUse
    }
}

/// The message for a wait that found the port bindable afterwards.
pub open spec fn spec_app_failed_message(port: u16) -> Seq<char> {
    "Timeout waiting for app to start on port "@ + dec_digits(port as int)
        + ". The app may have failed to start."@
}

/// The message for a wait that found the port still occupied afterwards.
pub open spec fn spec_port_in_use_message(port: u16) -> Seq<char> {
    "Port "@ + dec_digits(port as int)
        + " is already in use by another process. Use -p/--port to specify a different port."@
}

/// The error message a timed-out wait for `port` reports, by its cause.
pub fn wait_port_error_message(port: u16, failure: WaitPortFailure) -> (r: String)
    ensures
        failure == WaitPortFailure::AppFailedToStart ==> r@ == spec_app_failed_message(port),
        failure == WaitPortFailure::PortInUse ==> r@ == spec_port_in_use_message(port),
{
    let digits = u64_to_chars(port as u64);
    let mut out: Vec<char>;
    match failure {
        WaitPortFailure::AppFailedToStart => {
            out = str_to_chars("Timeout waiting for app to start on port ");
            chars_extend(&mut out, &digits);
            let tail = str_to_chars(". The app may have failed to start.");
            chars_extend(&mut out, &tail);
        },
        WaitPortFailure::PortInUse => {
            out = str_to_chars("Port ");
            chars_extend(&mut out, &digits);
            let tail = str_to_chars(
                " is already in use by another process. Use -p/--port to specify a different port.",
            );
            chars_extend(&mut out, &tail);
        },
    }
    chars_to_string(&out)
}

/// The message for a readiness wait that never saw the app answer.
pub open spec fn spec_no_app_running_message(port: u16) -> Seq<char> {
    "No app is running on port "@ + dec_digits(port as int)
        + ". Start the app first or use --managed mode."@
}

/// The error message a timed-out readiness wait on `port` reports.
pub fn no_app_running_message(port: u16) -> (r: String)
    ensures
        r@ == spec_no_app_running_message(port),
{
    let digits = u64_to_chars(port as u64);
    let mut out = str_to_chars("No app is running on port ");
    chars_extend(&mut out, &digits);
    let tail = str_to_chars(". Start the app first or use --managed mode.");
    chars_extend(&mut out, &tail);
    chars_to_string(&out)
}

/// What one readiness check concludes.
#[derive(Debug, PartialEq, Eq, Clone, Copy, Structural)]
pub enum ReadyDisposition {
    /// The call succeeded: the app is ready.
    Ready,
    /// The call failed for a reason other than the connection: the app runs
    /// but is not ready yet, so the caller keeps polling.
    NotReady,
    /// The call failed to connect at all: the app is not running, which is
    /// propagated rather than retried into silence.
    Unreachable,
}

/// Classifies the outcome of one readiness call from whether it succeeded
/// and, when it failed, from its error's rendered text.
pub fn ready_disposition(request_succeeded: bool, error_text: &str) -> (r: ReadyDisposition)
    ensures
        request_succeeded ==> r == ReadyDisposition::Ready,
        !request_succeeded && spec_is_connection_error(error_text@) ==> r
            == ReadyDisposition::Unreachable,
        !request_succeeded && !spec_is_connection_error(error_text@) ==> r
            == ReadyDisposition::NotReady,
{
    if request_succeeded {
        ReadyDisposition::Ready
    } else if is_connection_error(error_text) {
        ReadyDisposition::Unreachable
    } else {
        ReadyDisposition::NotReady
    }
}

} // verus!
