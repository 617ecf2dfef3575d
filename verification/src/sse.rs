//! The Server-Sent-Events decoder: an incremental parser that turns a byte
//! stream, arriving in chunks cut at arbitrary boundaries, into the sequence
//! of JSON payloads carried by complete `data:` lines. Only a full line is
//! ever acted on; everything after the last newline waits in the buffer, so
//! the decoding cannot depend on where the chunks were cut — which
//! [`lemma_chunking_irrelevant`] states and proves.
use vstd::prelude::*;

use crate::json::{parse_json_bytes, parsed_json, JsonValue};

verus! {

/// One element of the decoded sequence: a parsed payload, or the raw bytes
/// of a `data:` line whose payload was not valid JSON.
#[derive(Debug, PartialEq)]
pub enum SseEvent {
    Json(JsonValue),
    Malformed(Vec<u8>),
}

/// The specification-level form of an event.
pub enum SseEventModel {
    Json(JsonValue),
    Malformed(Seq<u8>),
}

impl View for SseEvent {
    type V = SseEventModel;

    open spec fn view(&self) -> SseEventModel {
        match self {
            SseEvent::Json(v) => SseEventModel::Json(*v),
            SseEvent::Malformed(b) => SseEventModel::Malformed(b@),
        }
    }
}

/// The newline byte that terminates a line.
pub open spec fn is_nl(b: u8) -> bool {
    b == 10
}

/// The bytes of the `data: ` field prefix.
pub open spec fn data_prefix() -> Seq<u8> {
    seq![100u8, 97u8, 116u8, 97u8, 58u8, 32u8]
}

/// The line with one trailing carriage return removed.
pub open spec fn trim_cr(line: Seq<u8>) -> Seq<u8> {
    if line.len() > 0 && line.last() == 13 {
        line.drop_last()
    } else {
        line
    }
}

/// What one complete line contributes: a `data:` line yields its payload,
/// parsed or kept raw; any other field or a blank line yields nothing.
pub open spec fn line_event(line: Seq<u8>) -> Option<SseEventModel> {
    let t = trim_cr(line);
    if t.len() >= 6 && t.take(6) == data_prefix() {
        let payload = t.skip(6);
        match parsed_json(payload) {
            Some(v) => Some(SseEventModel::Json(v)),
            None => Some(SseEventModel::Malformed(payload)),
        }
    } else {
        None
    }
}

/// An option's contribution as a sequence.
pub open spec fn opt_seq(e: Option<SseEventModel>) -> Seq<SseEventModel> {
    match e {
        Some(ev) => seq![ev],
        None => Seq::empty(),
    }
}

/// The first complete line of `s` and what follows its newline, when `s`
/// holds a newline at all.
pub open spec fn split_first_line(s: Seq<u8>) -> Option<(Seq<u8>, Seq<u8>)>
    decreases s.len(),
{
    if s.len() == 0 {
        None
    } else if is_nl(s[0]) {
        Some((Seq::empty(), s.drop_first()))
    } else {
        match split_first_line(s.drop_first()) {
            None => None,
            Some((l, r)) => Some((seq![s[0]] + l, r)),
        }
    }
}

proof fn lemma_split_line_len(s: Seq<u8>)
    ensures
        split_first_line(s) matches Some((l, r)) ==> l.len() + 1 + r.len() == s.len(),
    decreases s.len(),
{
    if s.len() > 0 && !is_nl(s[0]) {
        lemma_split_line_len(s.drop_first());
    }
}

/// A byte string without newlines has no complete line.
proof fn lemma_split_line_none(s: Seq<u8>)
    requires
        forall|i: int| 0 <= i < s.len() ==> !is_nl(#[trigger] s[i]),
    ensures
        split_first_line(s) is None,
    decreases s.len(),
{
    if s.len() > 0 {
        let d = s.drop_first();
        assert(forall|i: int| 0 <= i < d.len() ==> #[trigger] d[i] == s[i + 1]);
        lemma_split_line_none(d);
    }
}

/// The first newline at position `k` settles the first line.
proof fn lemma_split_line_at(s: Seq<u8>, k: int)
    requires
        0 <= k < s.len(),
        forall|m: int| 0 <= m < k ==> !is_nl(#[trigger] s[m]),
        is_nl(s[k]),
    ensures
        split_first_line(s) == Some((s.take(k), s.skip(k + 1))),
    decreases k,
{
    if k == 0 {
        assert(s.take(0) =~= Seq::<u8>::empty());
        assert(s.skip(1) =~= s.drop_first());
    } else {
        let d = s.drop_first();
        assert(forall|m: int| 0 <= m < d.len() ==> #[trigger] d[m] == s[m + 1]);
        lemma_split_line_at(d, k - 1);
        assert(seq![s[0]] + d.take(k - 1) =~= s.take(k));
        assert(d.skip(k) =~= s.skip(k + 1));
    }
}

/// The events carried by the complete lines of `s`, in order.
pub open spec fn sse_events(s: Seq<u8>) -> Seq<SseEventModel>
    decreases s.len(),
    via sse_events_dec
{
    match split_first_line(s) {
        None => Seq::empty(),
        Some((l, r)) => opt_seq(line_event(l)) + sse_events(r),
    }
}

#[via_fn]
proof fn sse_events_dec(s: Seq<u8>) {
    lemma_split_line_len(s);
}

/// What stays buffered after the complete lines of `s` are consumed: the
/// part after the last newline.
pub open spec fn sse_leftover(s: Seq<u8>) -> Seq<u8>
    decreases s.len(),
    via sse_leftover_dec
{
    match split_first_line(s) {
        None => s,
        Some((l, r)) => sse_leftover(r),
    }
}

#[via_fn]
proof fn sse_leftover_dec(s: Seq<u8>) {
    lemma_split_line_len(s);
}

/// Without a newline there is no complete line: nothing is emitted and all
/// of `s` stays buffered.
proof fn lemma_sse_no_newline(s: Seq<u8>)
    requires
        forall|i: int| 0 <= i < s.len() ==> !is_nl(#[trigger] s[i]),
    ensures
        sse_events(s) == Seq::<SseEventModel>::empty(),
        sse_leftover(s) == s,
{
    lemma_split_line_none(s);
}

/// The leftover never holds a newline.
proof fn lemma_leftover_no_newline(s: Seq<u8>)
    ensures
        forall|i: int| 0 <= i < sse_leftover(s).len() ==> !is_nl(#[trigger] sse_leftover(s)[i]),
    decreases s.len(),
{
    match split_first_line(s) {
        None => {
            lemma_split_line_nl_exists(s);
            assert(sse_leftover(s) == s);
        },
        Some((l, r)) => {
            lemma_split_line_len(s);
            lemma_leftover_no_newline(r);
            assert(sse_leftover(s) == sse_leftover(r));
            assert forall|i: int| 0 <= i < sse_leftover(s).len() implies !is_nl(
                sse_leftover(s)[i],
            ) by {
                assert(sse_leftover(s)[i] == sse_leftover(r)[i]);
            }
        },
    }
}

/// When `s` has no first line, it holds no newline at all.
proof fn lemma_split_line_nl_exists(s: Seq<u8>)
    requires
        split_first_line(s) is None,
    ensures
        forall|i: int| 0 <= i < s.len() ==> !is_nl(#[trigger] s[i]),
    decreases s.len(),
{
    if s.len() > 0 {
        assert(!is_nl(s[0]));
        let d = s.drop_first();
        lemma_split_line_nl_exists(d);
        assert forall|i: int| 0 <= i < s.len() implies !is_nl(s[i]) by {
            if i >= 1 {
                assert(s[i] == d[i - 1]);
            }
        }
    }
}

/// Appending more input extends the decoded sequence from the leftover:
/// what `s` decides is already decided, and `t` only continues the tail.
proof fn lemma_sse_extend(s: Seq<u8>, t: Seq<u8>)
    ensures
        sse_events(s + t) == sse_events(s) + sse_events(sse_leftover(s) + t),
        sse_leftover(s + t) == sse_leftover(sse_leftover(s) + t),
    decreases s.len(),
{
    match split_first_line(s) {
        None => {
            lemma_split_line_nl_exists(s);
            lemma_sse_no_newline(s);
            assert(sse_leftover(s) + t =~= s + t);
            assert(sse_events(s) + sse_events(s + t) =~= sse_events(s + t));
        },
        Some((l, r)) => {
            lemma_split_line_len(s);
            assert(s =~= l + seq![10u8] + r) by {
                lemma_split_line_shape(s, l, r);
            }
            let st = s + t;
            assert(forall|m: int| 0 <= m < l.len() ==> #[trigger] st[m] == l[m]);
            assert(st[l.len() as int] == 10);
            assert(forall|m: int| 0 <= m < l.len() ==> !is_nl(#[trigger] st[m])) by {
                lemma_split_line_no_nl(s, l, r);
            }
            assert(st.take(l.len() as int) =~= l);
            assert(st.skip(l.len() + 1int) =~= r + t);
            lemma_split_line_at(st, l.len() as int);
            assert(split_first_line(st) == Some((l, r + t)));
            lemma_sse_extend(r, t);
            assert(sse_events(s + t) =~= opt_seq(line_event(l)) + sse_events(r + t));
            assert(sse_events(s) =~= opt_seq(line_event(l)) + sse_events(r));
            assert(sse_leftover(s) == sse_leftover(r));
            assert((opt_seq(line_event(l)) + sse_events(r)) + sse_events(sse_leftover(s) + t)
                =~= opt_seq(line_event(l)) + (sse_events(r) + sse_events(sse_leftover(r) + t)));
        },
    }
}

/// The first line and the rest reassemble `s` around its first newline.
proof fn lemma_split_line_shape(s: Seq<u8>, l: Seq<u8>, r: Seq<u8>)
    requires
        split_first_line(s) == Some((l, r)),
    ensures
        s =~= l + seq![10u8] + r,
    decreases s.len(),
{
    if s.len() > 0 {
        if is_nl(s[0]) {
            assert(l =~= Seq::<u8>::empty());
            assert(s =~= l + seq![10u8] + r);
        } else {
            let d = s.drop_first();
            match split_first_line(d) {
                Some((l2, r2)) => {
                    lemma_split_line_shape(d, l2, r2);
                    assert(l == seq![s[0]] + l2);
                    assert(r == r2);
                    assert(s =~= seq![s[0]] + d);
                    assert(seq![s[0]] + (l2 + seq![10u8] + r) =~= (seq![s[0]] + l2) + seq![10u8]
                        + r);
                },
                None => {},
            }
        }
    }
}

/// The first line holds no newline.
proof fn lemma_split_line_no_nl(s: Seq<u8>, l: Seq<u8>, r: Seq<u8>)
    requires
        split_first_line(s) == Some((l, r)),
    ensures
        forall|m: int| 0 <= m < l.len() ==> !is_nl(#[trigger] l[m]),
    decreases s.len(),
{
    if s.len() > 0 && !is_nl(s[0]) {
        let d = s.drop_first();
        match split_first_line(d) {
            Some((l2, r2)) => {
                lemma_split_line_no_nl(d, l2, r2);
                assert(l =~= seq![s[0]] + l2);
                assert(forall|m: int| 1 <= m < l.len() ==> #[trigger] l[m] == l2[m - 1]);
            },
            None => {},
        }
    }
}

/// The events a sequence of chunks produces, fed one after the other into a
/// decoder whose buffer starts as `buf`.
pub open spec fn feed_events(buf: Seq<u8>, chunks: Seq<Seq<u8>>) -> Seq<SseEventModel>
    decreases chunks.len(),
{
    if chunks.len() == 0 {
        Seq::empty()
    } else {
        sse_events(buf + chunks[0]) + feed_events(
            sse_leftover(buf + chunks[0]),
            chunks.drop_first(),
        )
    }
}

/// The buffer left after a sequence of chunks is fed in.
pub open spec fn feed_leftover(buf: Seq<u8>, chunks: Seq<Seq<u8>>) -> Seq<u8>
    decreases chunks.len(),
{
    if chunks.len() == 0 {
        buf
    } else {
        feed_leftover(sse_leftover(buf + chunks[0]), chunks.drop_first())
    }
}

/// Chunk-boundary independence: an input split into arbitrarily many chunks
/// at arbitrary byte boundaries yields the same decoded sequence, and the
/// same final buffer, as the same input delivered as one chunk.
pub proof fn lemma_chunking_irrelevant(buf: Seq<u8>, chunks: Seq<Seq<u8>>)
    requires
        forall|i: int| 0 <= i < buf.len() ==> !is_nl(#[trigger] buf[i]),
    ensures
        feed_events(buf, chunks) == sse_events(buf + chunks.flatten()),
        feed_leftover(buf, chunks) == sse_leftover(buf + chunks.flatten()),
    decreases chunks.len(),
{
    if chunks.len() == 0 {
        assert(chunks.flatten() =~= Seq::<u8>::empty());
        assert(buf + chunks.flatten() =~= buf);
        lemma_sse_no_newline(buf);
    } else {
        let first = buf + chunks[0];
        let l0 = sse_leftover(first);
        lemma_leftover_no_newline(first);
        lemma_chunking_irrelevant(l0, chunks.drop_first());
        assert(chunks.flatten() == chunks[0] + chunks.drop_first().flatten()) by {
            assert(chunks.first() == chunks[0]);
        }
        lemma_sse_extend(first, chunks.drop_first().flatten());
        assert(first + chunks.drop_first().flatten() =~= buf + chunks.flatten());
    }
}

} // verus!

verus! {

/// Copies `v[from..to]` into a fresh vector.
fn bytes_sub(v: &Vec<u8>, from: usize, to: usize) -> (r: Vec<u8>)
    requires
        from <= to <= v@.len(),
    ensures
        r@ == v@.subrange(from as int, to as int),
{
    let mut r: Vec<u8> = Vec::new();
    let mut i = from;
    while i < to
        invariant
            from <= i <= to <= v@.len(),
            r@ =~= v@.subrange(from as int, i as int),
        decreases to - i,
    {
        r.push(v[i]);
        proof {
            assert(v@.subrange(from as int, i + 1) =~= v@.subrange(from as int, i as int).push(
                v@[i as int],
            ));
        }
        i = i + 1;
    }
    r
}

/// Decodes one complete line, newline already removed.
fn line_event_exec(line: Vec<u8>) -> (r: Option<SseEvent>)
    ensures
        match r {
            Some(e) => line_event(line@) == Some(e@),
            None => line_event(line@) is None,
        },
{
    let ghost orig = line@;
    let mut t = line;
    if t.len() > 0 && t[t.len() - 1] == 13 {
        t.pop();
    }
    proof {
        assert(t@ == trim_cr(orig));
    }
    let is_data = t.len() >= 6 && t[0] == 100 && t[1] == 97 && t[2] == 116 && t[3] == 97 && t[4]
        == 58 && t[5] == 32;
    if is_data {
        proof {
            assert(t@.take(6)[0] == 100);
            assert(t@.take(6)[1] == 97);
            assert(t@.take(6)[2] == 116);
            assert(t@.take(6)[3] == 97);
            assert(t@.take(6)[4] == 58);
            assert(t@.take(6)[5] == 32);
            assert(t@.take(6) =~= data_prefix());
        }
        let n = t.len();
        let payload = bytes_sub(&t, 6, n);
        proof {
            assert(payload@ =~= t@.skip(6));
        }
        match parse_json_bytes(payload.as_slice()) {
            Some(v) => Some(SseEvent::Json(v)),
            None => Some(SseEvent::Malformed(payload)),
        }
    } else {
        proof {
            if t@.len() >= 6 && t@.take(6) == data_prefix() {
                assert(t@[0] == t@.take(6)[0] && data_prefix()[0] == 100);
                assert(t@[1] == t@.take(6)[1] && data_prefix()[1] == 97);
                assert(t@[2] == t@.take(6)[2] && data_prefix()[2] == 116);
                assert(t@[3] == t@.take(6)[3] && data_prefix()[3] == 97);
                assert(t@[4] == t@.take(6)[4] && data_prefix()[4] == 58);
                assert(t@[5] == t@.take(6)[5] && data_prefix()[5] == 32);
            }
        }
        None
    }
}

/// The events of a vector of decoded events, in specification form.
pub open spec fn events_model(events: Seq<SseEvent>) -> Seq<SseEventModel> {
    events.map_values(|e: SseEvent| e@)
}

/// An incremental SSE decoder. Input chunks are appended to an internal
/// buffer; every complete line is decoded at once, and the tail after the
/// last newline waits for more input.
pub struct SseStream {
    pub buf: Vec<u8>,
}

impl SseStream {
    /// The buffer never holds a newline: complete lines are consumed as
    /// soon as they arrive.
    pub open spec fn wf(self) -> bool {
        forall|i: int| 0 <= i < self.buf@.len() ==> !is_nl(#[trigger] self.buf@[i])
    }

    /// A decoder with an empty buffer.
    pub fn new() -> (r: Self)
        ensures
            r.buf@ == Seq::<u8>::empty(),
            r.wf(),
    {
        SseStream { buf: Vec::new() }
    }

    /// Feeds one chunk in and yields the events of every line the buffered
    /// input now completes; the input after the last newline stays buffered.
    pub fn push_chunk(&mut self, chunk: &[u8]) -> (events: Vec<SseEvent>)
        requires
            old(self).wf(),
        ensures
            final(self).wf(),
            events_model(events@) == sse_events(old(self).buf@ + chunk@),
            final(self).buf@ == sse_leftover(old(self).buf@ + chunk@),
    {
        let mut data: Vec<u8> = Vec::new();
        data.append(&mut self.buf);
        let mut ci: usize = 0;
        while ci < chunk.len()
            invariant
                ci <= chunk@.len(),
                data@ =~= old(self).buf@ + chunk@.take(ci as int),
            decreases chunk@.len() - ci,
        {
            data.push(chunk[ci]);
            proof {
                assert(old(self).buf@ + chunk@.take(ci + 1) =~= (old(self).buf@ + chunk@.take(
                    ci as int,
                )).push(chunk@[ci as int]));
            }
            ci = ci + 1;
        }
        proof {
            assert(chunk@.take(chunk@.len() as int) =~= chunk@);
            assert(data@ =~= old(self).buf@ + chunk@);
        }
        let ghost whole = data@;
        let mut events: Vec<SseEvent> = Vec::new();
        let mut start: usize = 0;
        let mut i: usize = 0;
        proof {
            assert(whole.skip(0) =~= whole);
            assert(events_model(events@) =~= Seq::<SseEventModel>::empty());
        }
        let n = data.len();
        while i < n
            invariant
                start <= i <= n,
                n == data@.len(),
                data@ == whole,
                old(self).wf(),
                forall|m: int| start <= m < i ==> !is_nl(#[trigger] whole[m]),
                sse_events(whole) =~= events_model(events@) + sse_events(whole.skip(start as int)),
                sse_leftover(whole) == sse_leftover(whole.skip(start as int)),
            decreases n - i,
        {
            if data[i] == 10 {
                let line = bytes_sub(&data, start, i);
                proof {
                    let suffix = whole.skip(start as int);
                    assert(forall|m: int|
                        0 <= m < suffix.len() ==> #[trigger] suffix[m] == whole[m + start]);
                    lemma_split_line_at(suffix, i - start);
                    assert(suffix.take(i - start) =~= whole.subrange(start as int, i as int));
                    assert(suffix.skip(i - start + 1) =~= whole.skip(i + 1));
                    assert(split_first_line(suffix) == Some(
                        (line@, whole.skip(i + 1)),
                    ));
                }
                match line_event_exec(line) {
                    Some(ev) => {
                        proof {
                            assert(events_model(events@.push(ev)) =~= events_model(events@).push(
                                ev@,
                            ));
                            assert(events_model(events@).push(ev@) =~= events_model(events@) + seq![
                                ev@,
                            ]);
                            assert((events_model(events@) + seq![ev@]) + sse_events(
                                whole.skip(i + 1),
                            ) =~= events_model(events@) + (seq![ev@] + sse_events(whole.skip(i + 1))));
                        }
                        events.push(ev);
                    },
                    None => {
                        proof {
                            assert(events_model(events@) + (Seq::<SseEventModel>::empty()
                                + sse_events(whole.skip(i + 1))) =~= events_model(events@)
                                + sse_events(whole.skip(i + 1)));
                        }
                    },
                }
                start = i + 1;
            }
            i = i + 1;
        }
        proof {
            let suffix = whole.skip(start as int);
            assert(forall|m: int|
                0 <= m < suffix.len() ==> #[trigger] suffix[m] == whole[m + start]);
            lemma_sse_no_newline(suffix);
            assert(events_model(events@) + Seq::<SseEventModel>::empty() =~= events_model(
                events@,
            ));
        }
        let rest = bytes_sub(&data, start, n);
        proof {
            assert(rest@ =~= whole.skip(start as int));
        }
        self.buf = rest;
        events
    }
}

} // verus!
