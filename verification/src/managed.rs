//! Managed-mode decisions: how a batch string is split into commands
//! without cutting through JSON arguments, how the literal wait directive is
//! read, and how a port is chosen when the default is requested — a random
//! pick from a reserved range, retried a bounded number of times against
//! the availability probe.
use vstd::prelude::*;

use crate::text::{
    chars_have_prefix, chars_to_string, has_prefix, parse_u64_chars, spec_parse_u64,
    str_to_chars, trim_chars, trim_chars_exec,
};
use crate::DEFAULT_REMOTE_PORT;

verus! {

/// Lowest port of the reserved managed range: one above the default port,
/// so the range is disjoint from it.
pub const MANAGED_PORT_MIN: u16 = 15703;

/// Highest port of the reserved managed range.
pub const MANAGED_PORT_MAX: u16 = 16702;

/// How many random picks are tried before giving up.
pub const MAX_PORT_ATTEMPTS: u32 = 50;

/// The splitter's state after some prefix of the batch string: the command
/// being accumulated, the commands already cut, and where the scan stands
/// with respect to JSON braces, string literals and escapes.
pub struct SplitState {
    pub cur: Seq<char>,
    pub cmds: Seq<Seq<char>>,
    pub in_json: bool,
    pub braces: int,
    pub in_string: bool,
    pub escape: bool,
}

/// The state before any input.
pub open spec fn split_init() -> SplitState {
    SplitState {
        cur: Seq::empty(),
        cmds: Seq::empty(),
        in_json: false,
        braces: 0,
        in_string: false,
        escape: false,
    }
}

/// Cuts the accumulated command off, trimmed, dropping it when blank.
pub open spec fn split_cut(st: SplitState) -> Seq<Seq<char>> {
    if trim_chars(st.cur).len() == 0 {
        st.cmds
    } else {
        st.cmds.push(trim_chars(st.cur))
    }
}

/// One character's effect on the splitter: a comma outside JSON cuts a
/// command; braces, string literals and escapes only track whether the scan
/// is inside a JSON argument.
pub open spec fn split_step(st: SplitState, ch: char) -> SplitState {
    if st.escape {
        SplitState { cur: st.cur.push(ch), escape: false, ..st }
    } else if ch == '\\' && st.in_json {
        SplitState { cur: st.cur.push(ch), escape: true, ..st }
    } else if ch == '"' && st.in_json {
        SplitState { cur: st.cur.push(ch), in_string: !st.in_string, ..st }
    } else if ch == '{' && !st.in_string {
        SplitState { cur: st.cur.push(ch), in_json: true, braces: st.braces + 1, ..st }
    } else if ch == '}' && !st.in_string && st.in_json {
        SplitState {
            cur: st.cur.push(ch),
            braces: st.braces - 1,
            in_json: st.braces - 1 != 0,
            ..st
        }
    } else if ch == ',' && !st.in_json {
        SplitState { cur: Seq::empty(), cmds: split_cut(st), ..st }
    } else {
        SplitState { cur: st.cur.push(ch), ..st }
    }
}

/// The splitter's state after all of `s`.
pub open spec fn split_run(s: Seq<char>) -> SplitState
    decreases s.len(),
{
    if s.len() == 0 {
        split_init()
    } else {
        split_step(split_run(s.drop_last()), s.last())
    }
}

/// The commands of a batch string: comma-separated, trimmed, blanks
/// dropped, with commas inside JSON arguments left alone.
pub open spec fn spec_parse_command_list(s: Seq<char>) -> Seq<Seq<char>> {
    split_cut(split_run(s))
}

/// The views of the produced command strings.
pub open spec fn cmds_model(cmds: Seq<String>) -> Seq<Seq<char>> {
    cmds.map_values(|t: String| t@)
}

/// Splits a comma-separated command batch, leaving JSON arguments whole.
pub fn parse_command_list(input: &str) -> (r: Vec<String>)
    ensures
        cmds_model(r@) == spec_parse_command_list(input@),
{
    let chars = str_to_chars(input);
    let n = chars.len();
    let mut cur: Vec<char> = Vec::new();
    let mut cmds: Vec<String> = Vec::new();
    let mut in_json = false;
    let mut braces: usize = 0;
    let mut in_string = false;
    let mut escape = false;
    let mut i: usize = 0;
    proof {
        assert(chars@.take(0) =~= Seq::<char>::empty());
    }
    while i < n
        invariant
            i <= n,
            n == chars@.len(),
            chars@ == input@,
            ({
                let st = split_run(chars@.take(i as int));
                cur@ == st.cur && cmds_model(cmds@) == st.cmds && in_json == st.in_json && braces
                    == st.braces && in_string == st.in_string && escape == st.escape && st.braces
                    >= 0 && st.braces <= i && (st.in_json <==> st.braces > 0)
            }),
        decreases n - i,
    {
        let ghost st = split_run(chars@.take(i as int));
        let ch = chars[i];
        proof {
            assert(chars@.take(i + 1).drop_last() =~= chars@.take(i as int));
            assert(chars@.take(i + 1).last() == chars@[i as int]);
            assert(split_run(chars@.take(i + 1)) == split_step(st, chars@[i as int]));
        }
        if escape {
            cur.push(ch);
            escape = false;
        } else if ch == '\\' && in_json {
            cur.push(ch);
            escape = true;
        } else if ch == '"' && in_json {
            cur.push(ch);
            in_string = !in_string;
        } else if ch == '{' && !in_string {
            cur.push(ch);
            in_json = true;
            braces = braces + 1;
        } else if ch == '}' && !in_string && in_json {
            cur.push(ch);
            braces = braces - 1;
            in_json = braces != 0;
        } else if ch == ',' && !in_json {
            let t = trim_chars_exec(&cur);
            if t.len() > 0 {
                let s = chars_to_string(&t);
                proof {
                    assert(cmds_model(cmds@.push(s)) =~= cmds_model(cmds@).push(s@));
                }
                cmds.push(s);
            }
            cur = Vec::new();
        } else {
            cur.push(ch);
        }
        i = i + 1;
    }
    proof {
        assert(chars@.take(n as int) =~= chars@);
    }
    let t = trim_chars_exec(&cur);
    if t.len() > 0 {
        let s = chars_to_string(&t);
        proof {
            assert(cmds_model(cmds@.push(s)) =~= cmds_model(cmds@).push(s@));
        }
        cmds.push(s);
    }
    cmds
}

/// What a wait directive asks for: `wait:` followed by a number of seconds.
pub open spec fn spec_parse_wait_directive(s: Seq<char>) -> Option<u64> {
    if has_prefix(s, "wait:"@) {
        spec_parse_u64(s.skip("wait:"@.len() as int))
    } else {
        None
    }
}

/// Reads the literal wait directive that may stand between batch commands.
pub fn parse_wait_directive(command: &str) -> (r: Option<u64>)
    ensures
        r == spec_parse_wait_directive(command@),
{
    let chars = str_to_chars(command);
    let prefix = str_to_chars("wait:");
    if !chars_have_prefix(&chars, &prefix) {
        return None;
    }
    let plen = prefix.len();
    let rest = crate::text::chars_sub(&chars, plen, chars.len());
    proof {
        assert(rest@ =~= command@.skip("wait:"@.len() as int));
    }
    parse_u64_chars(&rest)
}

/// Which port a managed run uses: the caller's own choice as it stands, or,
/// when the default was requested, a fresh pick from the reserved range.
#[derive(Debug, PartialEq, Eq, Clone, Copy, Structural)]
pub enum PortChoice {
    UseRequested(u16),
    PickFromReservedRange,
}

/// Decides whether a requested port is used as given: only a request for
/// the default port triggers the random pick.
pub fn choose_port(requested: u16) -> (r: PortChoice)
    ensures
        requested != DEFAULT_REMOTE_PORT ==> r == PortChoice::UseRequested(requested),
        requested == DEFAULT_REMOTE_PORT ==> r == PortChoice::PickFromReservedRange,
{
    if requested == DEFAULT_REMOTE_PORT {
        PortChoice::PickFromReservedRange
    } else {
        PortChoice::UseRequested(requested)
    }
}

/// Relies on rand::rng and rand::RngExt::random_range over `lo..=hi`: the
/// sample lies within the inclusive range; the range is not empty, so the
/// call does not panic.
#[verifier::external_body]
fn random_in_range(lo: u16, hi: u16) -> (r: u16)
    requires
        lo <= hi,
    ensures
        lo <= r <= hi,
{
    rand::RngExt::random_range(&mut rand::rng(), lo..=hi)
}

/// Draws one candidate port from the reserved managed range; whatever comes
/// out is in the range, and the range avoids the default port.
pub fn random_reserved_port() -> (p: u16)
    ensures
        MANAGED_PORT_MIN <= p <= MANAGED_PORT_MAX,
        p != DEFAULT_REMOTE_PORT,
{
    random_in_range(MANAGED_PORT_MIN, MANAGED_PORT_MAX)
}

/// Counts the random-pick attempts against their bound.
pub struct PortSearch {
    pub attempts: u32,
}

impl PortSearch {
    /// A search that has tried nothing yet.
    pub fn new() -> (r: Self)
        ensures
            r.attempts == 0,
    {
        PortSearch { attempts: 0 }
    }

    /// Records one candidate that probed unavailable; the search goes on
    /// exactly while the bound is not exhausted.
    pub fn record_unavailable(&mut self) -> (keep_trying: bool)
        requires
            old(self).attempts < MAX_PORT_ATTEMPTS,
        ensures
            final(self).attempts == old(self).attempts + 1,
            keep_trying == (final(self).attempts < MAX_PORT_ATTEMPTS),
    {
        self.attempts = self.attempts + 1;
        self.attempts < MAX_PORT_ATTEMPTS
    }
}

/// The message reported when every random pick probed unavailable.
pub open spec fn spec_port_exhausted_message() -> Seq<char> {
    "Could not find an available port after "@ + crate::text::dec_digits(MAX_PORT_ATTEMPTS as int)
        + " attempts"@
}

/// The error message for an exhausted port search.
pub fn port_exhausted_message() -> (r: String)
    ensures
        r@ == spec_port_exhausted_message(),
{
    let digits = crate::text::u64_to_chars(MAX_PORT_ATTEMPTS as u64);
    let mut out = str_to_chars("Could not find an available port after ");
    crate::text::chars_extend(&mut out, &digits);
    let tail = str_to_chars(" attempts");
    crate::text::chars_extend(&mut out, &tail);
    chars_to_string(&out)
}

} // verus!
