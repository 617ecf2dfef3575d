//! Detached-session bookkeeping. A detached target runs on after the
//! invocation that started it; what survives is a descriptor file keyed by
//! port and a log file keyed by a start timestamp, both under a shared
//! prefix in the temp directory. This module decides the file names, the
//! liveness report a later invocation computes from the descriptor and two
//! independent probes, and which files a cleanup pass may remove — never a
//! live session's. Reading, writing and deleting the files, spawning and
//! killing the target, and the process-table query are outside work.
use vstd::prelude::*;

use crate::text::{
    chars_extend, chars_have_prefix, chars_have_suffix, chars_to_string, dec_digits, has_prefix,
    has_suffix, str_to_chars, string_eq, u64_to_chars,
};

verus! {

/// What a freshly started detached session hands back to its caller.
#[derive(Debug, PartialEq)]
pub struct DetachedSession {
    pub pid: u32,
    pub port: u16,
    pub log_file: String,
}

/// The descriptor persisted for a detached session, one file per port.
/// The start time is kept as milliseconds since the epoch.
#[derive(Debug, PartialEq)]
pub struct SessionInfo {
    pub pid: u32,
    pub port: u16,
    pub log_file: String,
    pub start_time_ms: u64,
    pub app_binary: String,
}

/// The shared prefix of every session-owned file name.
pub open spec fn spec_session_prefix() -> Seq<char> {
    "brp_session"@
}

/// The prefix under which all session files are named.
pub fn get_session_prefix() -> (r: String)
    ensures
        r@ == spec_session_prefix(),
{
    <String as vstd::string::StringExecFns>::from_str("brp_session")
}

/// The descriptor file's name for a port.
pub open spec fn spec_session_info_file_name(port: u16) -> Seq<char> {
    spec_session_prefix() + "_port_"@ + dec_digits(port as int) + ".json"@
}

/// Names the descriptor file of the session on `port`.
pub fn session_info_file_name(port: u16) -> (r: String)
    ensures
        r@ == spec_session_info_file_name(port),
{
    let mut out = str_to_chars("brp_session_port_");
    let digits = u64_to_chars(port as u64);
    chars_extend(&mut out, &digits);
    let tail = str_to_chars(".json");
    chars_extend(&mut out, &tail);
    proof {
        reveal_strlit("brp_session_port_");
        reveal_strlit("brp_session");
        reveal_strlit("_port_");
        assert("brp_session_port_"@ =~= spec_session_prefix() + "_port_"@);
        assert(out@ =~= spec_session_info_file_name(port));
    }
    chars_to_string(&out)
}

/// The log file's name for a session started at `timestamp_ms`.
pub open spec fn spec_session_log_file_name(timestamp_ms: u64) -> Seq<char> {
    spec_session_prefix() + "_"@ + dec_digits(timestamp_ms as int) + ".log"@
}

/// Names the log file of a session started at `timestamp_ms`; the timestamp
/// component keeps concurrent starts from colliding.
pub fn session_log_file_name(timestamp_ms: u64) -> (r: String)
    ensures
        r@ == spec_session_log_file_name(timestamp_ms),
{
    let mut out = str_to_chars("brp_session_");
    let digits = u64_to_chars(timestamp_ms);
    chars_extend(&mut out, &digits);
    let tail = str_to_chars(".log");
    chars_extend(&mut out, &tail);
    proof {
        reveal_strlit("brp_session_");
        reveal_strlit("brp_session");
        reveal_strlit("_");
        assert("brp_session_"@ =~= spec_session_prefix() + "_"@);
        assert(out@ =~= spec_session_log_file_name(timestamp_ms));
    }
    chars_to_string(&out)
}

/// A duration in whole seconds, rendered for people: hours, minutes and
/// seconds, leading zero fields dropped.
pub open spec fn spec_format_duration(seconds: u64) -> Seq<char> {
    let hours = seconds as int / 3600;
    let minutes = (seconds as int % 3600) / 60;
    let secs = seconds as int % 60;
    if hours > 0 {
        dec_digits(hours) + "h "@ + dec_digits(minutes) + "m "@ + dec_digits(secs) + "s"@
    } else if minutes > 0 {
        dec_digits(minutes) + "m "@ + dec_digits(secs) + "s"@
    } else {
        dec_digits(secs) + "s"@
    }
}

/// Renders a duration in whole seconds for people.
pub fn format_duration(seconds: u64) -> (r: String)
    ensures
        r@ == spec_format_duration(seconds),
{
    let hours = seconds / 3600;
    let minutes = (seconds % 3600) / 60;
    let secs = seconds % 60;
    let mut out: Vec<char> = Vec::new();
    if hours > 0 {
        let h = u64_to_chars(hours);
        chars_extend(&mut out, &h);
        let sep = str_to_chars("h ");
        chars_extend(&mut out, &sep);
    }
    if hours > 0 || minutes > 0 {
        let m = u64_to_chars(minutes);
        chars_extend(&mut out, &m);
        let sep = str_to_chars("m ");
        chars_extend(&mut out, &sep);
    }
    let s = u64_to_chars(secs);
    chars_extend(&mut out, &s);
    let sep = str_to_chars("s");
    chars_extend(&mut out, &sep);
    proof {
        if hours > 0 {
            assert(out@ =~= spec_format_duration(seconds));
        } else if minutes > 0 {
            assert(out@ =~= spec_format_duration(seconds));
        } else {
            assert(out@ =~= spec_format_duration(seconds));
        }
    }
    chars_to_string(&out)
}

/// What a later invocation reports about a detached session: the two
/// independent liveness checks, the identity from the descriptor, the
/// computed uptime, and whether the descriptor is stale and may go.
#[derive(Debug, PartialEq)]
pub struct SessionReport {
    pub app_running: bool,
    pub process_alive: bool,
    pub pid: u32,
    pub port: u16,
    pub uptime_seconds: u64,
    pub remove_stale_descriptor: bool,
}

/// Computes a session's report from its descriptor and the two probes: the
/// process-table check and the port liveness check. Uptime counts from the
/// descriptor's start time, zero if the clock stands before it; the
/// descriptor is stale exactly when both probes came back negative.
pub fn session_report(
    info: &SessionInfo,
    process_alive: bool,
    app_running: bool,
    now_ms: u64,
) -> (r: SessionReport)
    ensures
        r.pid == info.pid,
        r.port == info.port,
        r.app_running == app_running,
        r.process_alive == process_alive,
        r.uptime_seconds == (if now_ms >= info.start_time_ms {
            (now_ms - info.start_time_ms) / 1000
        } else {
            0
        }),
        r.remove_stale_descriptor == (!app_running && !process_alive),
{
    let uptime_seconds = if now_ms >= info.start_time_ms {
        (now_ms - info.start_time_ms) / 1000
    } else {
        0
    };
    SessionReport {
        app_running,
        process_alive,
        pid: info.pid,
        port: info.port,
        uptime_seconds,
        remove_stale_descriptor: !app_running && !process_alive,
    }
}

/// One entry of the temp-directory scan that cleanup works from: the file's
/// base name; for a descriptor file that parsed, the log file name its
/// descriptor points at; and whether the descriptor's process is alive in
/// the process table.
#[derive(Debug, PartialEq)]
pub struct ScanEntry {
    pub name: String,
    pub log_name: Option<String>,
    pub process_alive: bool,
}

/// A descriptor file's name: the session prefix and the `.json` ending.
pub open spec fn is_session_json(name: Seq<char>) -> bool {
    has_prefix(name, spec_session_prefix()) && has_suffix(name, ".json"@)
}

/// A session-owned file's name: the session prefix and either ending.
pub open spec fn is_session_file(name: Seq<char>) -> bool {
    has_prefix(name, spec_session_prefix()) && (has_suffix(name, ".log"@) || has_suffix(
        name,
        ".json"@,
    ))
}

/// An entry that stands for a live session: a parsed descriptor file whose
/// process is still alive.
pub open spec fn entry_live(e: ScanEntry) -> bool {
    is_session_json(e.name@) && e.process_alive && e.log_name is Some
}

/// Whether a live entry protects the file called `name`: its own descriptor
/// file, or the log file its descriptor points at.
pub open spec fn entry_marks(e: ScanEntry, name: Seq<char>) -> bool {
    entry_live(e) && (e.name@ == name || (e.log_name matches Some(l) && l@ == name))
}

/// Whether some live session protects the file called `name`.
pub open spec fn active(name: Seq<char>, entries: Seq<ScanEntry>) -> bool {
    exists|i: int| 0 <= i < entries.len() && entry_marks(#[trigger] entries[i], name)
}

/// What a cleanup pass decides: the session files to delete and the session
/// files to keep.
#[derive(Debug, PartialEq)]
pub struct CleanupPlan {
    pub remove: Vec<String>,
    pub preserve: Vec<String>,
}

/// Whether some name in `names` reads as `n`.
pub open spec fn names_contain(names: Seq<String>, n: Seq<char>) -> bool {
    exists|j: int| 0 <= j < names.len() && (#[trigger] names[j])@ == n
}

fn entry_is_session_file(name: &String) -> (r: bool)
    ensures
        r == is_session_file(name@),
{
    let chars = str_to_chars(name.as_str());
    let prefix = str_to_chars("brp_session");
    let log_end = str_to_chars(".log");
    let json_end = str_to_chars(".json");
    chars_have_prefix(&chars, &prefix) && (chars_have_suffix(&chars, &log_end)
        || chars_have_suffix(&chars, &json_end))
}

fn name_is_active(name: &String, entries: &Vec<ScanEntry>) -> (r: bool)
    ensures
        r == active(name@, entries@),
{
    let mut i: usize = 0;
    while i < entries.len()
        invariant
            i <= entries@.len(),
            forall|j: int| 0 <= j < i ==> !entry_marks(#[trigger] entries@[j], name@),
        decreases entries@.len() - i,
    {
        let e = &entries[i];
        let ghost ev = entries@[i as int];
        let e_chars = str_to_chars(e.name.as_str());
        let prefix = str_to_chars("brp_session");
        let json_end = str_to_chars(".json");
        let live = chars_have_prefix(&e_chars, &prefix) && chars_have_suffix(&e_chars, &json_end)
            && e.process_alive && e.log_name.is_some();
        if live {
            if string_eq(&e.name, name.as_str()) {
                proof {
                    assert(entry_marks(ev, name@));
                }
                return true;
            }
            match &e.log_name {
                Some(l) => {
                    if string_eq(l, name.as_str()) {
                        proof {
                            assert(entry_marks(ev, name@));
                        }
                        return true;
                    }
                },
                None => {},
            }
        }
        proof {
            assert(!entry_marks(ev, name@));
        }
        i = i + 1;
    }
    false
}

/// Splits the scanned files into the session files to delete and those to
/// keep. A session-owned file is kept exactly when a live session protects
/// it — its own descriptor, or the log its descriptor points at — and
/// deleted exactly otherwise; files without the session naming are left
/// alone entirely.
pub fn plan_cleanup(entries: &Vec<ScanEntry>) -> (plan: CleanupPlan)
    ensures
        forall|j: int|
            0 <= j < plan.remove@.len() ==> is_session_file((#[trigger] plan.remove@[j])@)
                && !active(plan.remove@[j]@, entries@),
        forall|j: int|
            0 <= j < plan.preserve@.len() ==> is_session_file((#[trigger] plan.preserve@[j])@)
                && active(plan.preserve@[j]@, entries@),
        forall|i: int|
            0 <= i < entries@.len() && is_session_file((#[trigger] entries@[i]).name@) ==> (if active(
                entries@[i].name@,
                entries@,
            ) {
                names_contain(plan.preserve@, entries@[i].name@)
            } else {
                names_contain(plan.remove@, entries@[i].name@)
            }),
{
    let mut remove: Vec<String> = Vec::new();
    let mut preserve: Vec<String> = Vec::new();
    let mut i: usize = 0;
    while i < entries.len()
        invariant
            i <= entries@.len(),
            forall|j: int|
                0 <= j < remove@.len() ==> is_session_file((#[trigger] remove@[j])@) && !active(
                    remove@[j]@,
                    entries@,
                ),
            forall|j: int|
                0 <= j < preserve@.len() ==> is_session_file((#[trigger] preserve@[j])@) && active(
                    preserve@[j]@,
                    entries@,
                ),
            forall|k: int|
                0 <= k < i && is_session_file((#[trigger] entries@[k]).name@) ==> (if active(
                    entries@[k].name@,
                    entries@,
                ) {
                    names_contain(preserve@, entries@[k].name@)
                } else {
                    names_contain(remove@, entries@[k].name@)
                }),
        decreases entries@.len() - i,
    {
        let name = &entries[i].name;
        let ghost pre_preserve = preserve@;
        let ghost pre_remove = remove@;
        if entry_is_session_file(name) {
            let copy = <String as vstd::string::StringExecFns>::from_str(name.as_str());
            if name_is_active(name, entries) {
                preserve.push(copy);
                proof {
                    assert(names_contain(preserve@, entries@[i as int].name@)) by {
                        assert(preserve@[preserve@.len() - 1]@ == entries@[i as int].name@);
                    }
                    assert forall|k: int|
                        0 <= k < i + 1 && is_session_file(
                            (#[trigger] entries@[k]).name@,
                        ) implies (if active(entries@[k].name@, entries@) {
                        names_contain(preserve@, entries@[k].name@)
                    } else {
                        names_contain(remove@, entries@[k].name@)
                    }) by {
                        if k < i && active(entries@[k].name@, entries@) {
                            lemma_names_contain_push(pre_preserve, copy, entries@[k].name@);
                        }
                    }
                }
            } else {
                remove.push(copy);
                proof {
                    assert(names_contain(remove@, entries@[i as int].name@)) by {
                        assert(remove@[remove@.len() - 1]@ == entries@[i as int].name@);
                    }
                    assert forall|k: int|
                        0 <= k < i + 1 && is_session_file(
                            (#[trigger] entries@[k]).name@,
                        ) implies (if active(entries@[k].name@, entries@) {
                        names_contain(preserve@, entries@[k].name@)
                    } else {
                        names_contain(remove@, entries@[k].name@)
                    }) by {
                        if k < i && !active(entries@[k].name@, entries@) {
                            lemma_names_contain_push(pre_remove, copy, entries@[k].name@);
                        }
                    }
                }
            }
        }
        i = i + 1;
    }
    CleanupPlan { remove, preserve }
}

proof fn lemma_names_contain_push(names: Seq<String>, x: String, n: Seq<char>)
    requires
        names_contain(names, n),
    ensures
        names_contain(names.push(x), n),
{
    let j = choose|j: int| 0 <= j < names.len() && (#[trigger] names[j])@ == n;
    assert(names.push(x)[j]@ == n);
}

/// A live session's own files are protected: both its descriptor file and
/// its log file count as active, so a plan whose removals are inactive —
/// as every plan this module computes is — never touches them.
pub proof fn lemma_live_session_files_active(entries: Seq<ScanEntry>, i: int)
    requires
        0 <= i < entries.len(),
        entry_live(entries[i]),
    ensures
        active(entries[i].name@, entries),
        entries[i].log_name matches Some(l) ==> active(l@, entries),
{
    assert(entry_marks(entries[i], entries[i].name@));
    match entries[i].log_name {
        Some(l) => {
            assert(entry_marks(entries[i], l@));
        },
        None => {},
    }
}

} // verus!
