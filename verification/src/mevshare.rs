//! Events of the MEV-share streaming endpoint, and the interpretation of one
//! frame of its stream: a frame is split into lines, each line carrying the
//! `data:` prefix holds a payload, surrounding whitespace is trimmed, and an
//! empty payload or the literal sentinel `[DONE]` is ignored. A payload is
//! decoded as an [`Event`]; a payload that fails to decode is dropped without
//! tearing the stream down.

use vstd::prelude::*;

use crate::frames::{delim_at, find_first, split_frame};

verus! {

/// An event emitted by the MEV-share endpoint: a transaction or bundle hash
/// together with the transactions and logs the endpoint chose to reveal.
#[derive(Clone, Debug)]
pub struct Event {
    /// Transaction or bundle hash, as 32 bytes.
    pub hash: Vec<u8>,
    /// Transactions referenced by the event.
    pub transactions: Vec<EventTransaction>,
    /// Logs emitted while executing the event transaction.
    pub logs: Vec<EventTransactionLog>,
}

/// Transaction metadata carried in an MEV-share event.
#[derive(Clone, Debug)]
pub struct EventTransaction {
    /// Recipient address, as 20 bytes.
    pub to: Option<Vec<u8>>,
    /// 4-byte function selector.
    pub function_selector: Option<Vec<u8>>,
    /// Raw calldata.
    pub calldata: Option<Vec<u8>>,
}

/// Log metadata carried in an MEV-share event.
#[derive(Clone, Debug)]
pub struct EventTransactionLog {
    /// Address of the contract that emitted the log, as 20 bytes.
    pub address: Vec<u8>,
    /// Topics of the log, each 32 bytes.
    pub topics: Vec<Vec<u8>>,
}

/// What a payload decodes to: `Some` exactly for the payloads the outside
/// JSON decoder accepts as an MEV-share event, a function of the bytes alone.
pub uninterp spec fn spec_decode_event(payload: Seq<u8>) -> Option<Event>;

/// Decode one payload as an MEV-share event.
///
/// Relies on `serde_json::from_slice` decoding the JSON wire form of
/// `alloy::rpc::types::mev::mevshare::Event`; the result is a function of the
/// payload bytes alone, and the body only moves its fields into plain bytes.
#[verifier::external_body]
pub(crate) fn decode_event(payload: &Vec<u8>) -> (r: Option<Event>)
    ensures
        r == spec_decode_event(payload@),
{
    let w: alloy::rpc::types::mev::mevshare::Event = serde_json::from_slice(
        payload.as_slice(),
    ).ok()?;
    let transactions = w.transactions.into_iter().map(|t| EventTransaction {
        to: t.to.map(|a| a.to_vec()),
        function_selector: t.function_selector.map(|s| s.0.to_vec()),
        calldata: t.calldata.map(|c| c.to_vec()),
    }).collect();
    let logs = w.logs.into_iter().map(|l| EventTransactionLog {
        address: l.address.to_vec(),
        topics: l.topics.into_iter().map(|t| t.to_vec()).collect(),
    }).collect();
    Some(Event { hash: w.hash.to_vec(), transactions, logs })
}

/// An ASCII whitespace byte: space, tab, line feed, form feed or carriage
/// return.
pub open spec fn is_ascii_ws(c: u8) -> bool {
    c == 32 || c == 9 || c == 10 || c == 12 || c == 13
}

/// `s` without leading ASCII whitespace.
pub open spec fn trim_front(s: Seq<u8>) -> Seq<u8>
    decreases s.len(),
{
    if s.len() > 0 && is_ascii_ws(s[0]) {
        trim_front(s.skip(1))
    } else {
        s
    }
}

/// `s` without trailing ASCII whitespace.
pub open spec fn trim_back(s: Seq<u8>) -> Seq<u8>
    decreases s.len(),
{
    if s.len() > 0 && is_ascii_ws(s.last()) {
        trim_back(s.drop_last())
    } else {
        s
    }
}

/// `s` without surrounding ASCII whitespace.
pub open spec fn trim_ascii(s: Seq<u8>) -> Seq<u8> {
    trim_back(trim_front(s))
}

/// The bytes of the line prefix `data:`.
pub open spec fn data_prefix() -> Seq<u8> {
    seq![100u8, 97u8, 116u8, 97u8, 58u8]
}

/// The bytes of the sentinel payload `[DONE]`.
pub open spec fn done_sentinel() -> Seq<u8> {
    seq![91u8, 68u8, 79u8, 78u8, 69u8, 93u8]
}

/// The payload a line carries: the trimmed remainder after a `data:` prefix,
/// with a trailing carriage return stripped first. Lines without the prefix,
/// empty payloads and the sentinel `[DONE]` carry none.
pub open spec fn line_payload(line: Seq<u8>) -> Option<Seq<u8>> {
    let l = if line.len() > 0 && line.last() == 13 {
        line.drop_last()
    } else {
        line
    };
    if l.len() >= 5 && l.subrange(0, 5) == data_prefix() {
        let p = trim_ascii(l.skip(5));
        if p.len() == 0 || p == done_sentinel() {
            None
        } else {
            Some(p)
        }
    } else {
        None
    }
}

/// The lines of a frame, split at line feeds; the final line needs no
/// terminator, and an empty frame has no lines.
pub open spec fn split_lines(b: Seq<u8>) -> Seq<Seq<u8>>
    decreases b.len(),
{
    if b.len() == 0 {
        seq![]
    } else {
        match find_first(b, seq![10u8]) {
            Some(p) => if 0 <= p < b.len() {
                seq![b.subrange(0, p)] + split_lines(b.subrange(p + 1, b.len() as int))
            } else {
                seq![b]
            },
            None => seq![b],
        }
    }
}

/// The payloads of a frame's lines, in line order.
pub open spec fn payloads_of_lines(lines: Seq<Seq<u8>>) -> Seq<Seq<u8>>
    decreases lines.len(),
{
    if lines.len() == 0 {
        seq![]
    } else {
        (match line_payload(lines[0]) {
            Some(p) => seq![p],
            None => Seq::<Seq<u8>>::empty(),
        }) + payloads_of_lines(lines.skip(1))
    }
}

/// The payloads one frame carries.
pub open spec fn frame_payloads(frame: Seq<u8>) -> Seq<Seq<u8>> {
    payloads_of_lines(split_lines(frame))
}

/// The events a sequence of payloads decodes to, in order, with payloads that
/// fail to decode dropped.
pub open spec fn decoded_events(payloads: Seq<Seq<u8>>) -> Seq<Event>
    decreases payloads.len(),
{
    if payloads.len() == 0 {
        seq![]
    } else {
        (match spec_decode_event(payloads[0]) {
            Some(e) => seq![e],
            None => Seq::<Event>::empty(),
        }) + decoded_events(payloads.skip(1))
    }
}

/// The events one frame carries: every payload that decodes, in line order.
pub open spec fn frame_events(frame: Seq<u8>) -> Seq<Event> {
    decoded_events(frame_payloads(frame))
}

/// Line payloads distribute over concatenation of line sequences.
proof fn lemma_payloads_concat(a: Seq<Seq<u8>>, b: Seq<Seq<u8>>)
    ensures
        payloads_of_lines(a + b) == payloads_of_lines(a) + payloads_of_lines(b),
    decreases a.len(),
{
    if a.len() == 0 {
        assert(a + b =~= b);
        assert(payloads_of_lines(a) + payloads_of_lines(b) =~= payloads_of_lines(b));
    } else {
        lemma_payloads_concat(a.skip(1), b);
        assert((a + b).skip(1) =~= a.skip(1) + b);
        assert(payloads_of_lines(a + b) =~= payloads_of_lines(a) + payloads_of_lines(b));
    }
}

/// Decoded events distribute over concatenation of payload sequences.
proof fn lemma_decoded_concat(a: Seq<Seq<u8>>, b: Seq<Seq<u8>>)
    ensures
        decoded_events(a + b) == decoded_events(a) + decoded_events(b),
    decreases a.len(),
{
    if a.len() == 0 {
        assert(a + b =~= b);
        assert(decoded_events(a) + decoded_events(b) =~= decoded_events(b));
    } else {
        lemma_decoded_concat(a.skip(1), b);
        assert((a + b).skip(1) =~= a.skip(1) + b);
        assert(decoded_events(a + b) =~= decoded_events(a) + decoded_events(b));
    }
}

/// One line's payloads: the payload of the line, when it carries one.
proof fn lemma_payloads_singleton(l: Seq<u8>)
    ensures
        payloads_of_lines(seq![l]) == (match line_payload(l) {
            Some(p) => seq![p],
            None => Seq::<Seq<u8>>::empty(),
        }),
{
    let s: Seq<Seq<u8>> = seq![l];
    assert(s.skip(1) =~= Seq::<Seq<u8>>::empty());
    assert(payloads_of_lines(s.skip(1)) =~= Seq::<Seq<u8>>::empty());
    match line_payload(l) {
        Some(p) => {
            assert(payloads_of_lines(s) =~= seq![p]);
        },
        None => {
            assert(payloads_of_lines(s) =~= Seq::<Seq<u8>>::empty());
        },
    }
}

/// One payload's events: the decoded event, when it decodes.
proof fn lemma_decoded_singleton(p: Seq<u8>)
    ensures
        decoded_events(seq![p]) == (match spec_decode_event(p) {
            Some(e) => seq![e],
            None => Seq::<Event>::empty(),
        }),
{
    let s: Seq<Seq<u8>> = seq![p];
    assert(s.skip(1) =~= Seq::<Seq<u8>>::empty());
    assert(decoded_events(s.skip(1)) =~= Seq::<Event>::empty());
    match spec_decode_event(p) {
        Some(e) => {
            assert(decoded_events(s) =~= seq![e]);
        },
        None => {
            assert(decoded_events(s) =~= Seq::<Event>::empty());
        },
    }
}

/// Remove and return the first line of `work`: the bytes before the first
/// line feed, or all of `work` when none remains; `None` once `work` is empty.
pub(crate) fn next_line(work: &mut Vec<u8>) -> (r: Option<Vec<u8>>)
    ensures
        old(work)@.len() == 0 ==> r is None && final (work)@ == old(work)@,
        old(work)@.len() > 0 ==> (r matches Some(l) && split_lines(old(work)@) == seq![l@]
            + split_lines(final (work)@) && final (work)@.len() < old(work)@.len()),
{
    if work.len() == 0 {
        return None;
    }
    let ghost w0 = work@;
    let lfpat = vec![10u8];
    proof {
        assert(lfpat@ =~= seq![10u8]);
    }
    if let Some(p) = crate::frames::find_pattern(work, &lfpat) {
        proof {
            crate::frames::lemma_find_from_characterizes(work@, seq![10u8], 0);
        }
        let mut tail = work.split_off(p);
        let mut rest = tail.split_off(1);
        core::mem::swap(work, &mut rest);
        proof {
            assert(rest@ =~= w0.subrange(0, p as int));
            assert(work@ =~= w0.subrange(p + 1, w0.len() as int));
            assert(split_lines(w0) =~= seq![rest@] + split_lines(work@));
        }
        Some(rest)
    } else {
        let mut line: Vec<u8> = Vec::new();
        core::mem::swap(work, &mut line);
        proof {
            assert(split_lines(w0) =~= seq![line@] + split_lines(work@));
        }
        Some(line)
    }
}

/// Trailing ASCII whitespace of `s` ends exactly at the last non-whitespace
/// byte.
proof fn lemma_trim_back_at(s: Seq<u8>, end: int)
    requires
        0 <= end <= s.len(),
        forall|k: int| end <= k < s.len() ==> is_ascii_ws(s[k]),
        end > 0 ==> !is_ascii_ws(s[end - 1]),
    ensures
        trim_back(s) == s.subrange(0, end),
    decreases s.len(),
{
    if s.len() > 0 && is_ascii_ws(s.last()) {
        lemma_trim_back_at(s.drop_last(), end);
        assert(s.drop_last().subrange(0, end) =~= s.subrange(0, end));
    } else {
        assert(end == s.len());
        assert(s.subrange(0, end) =~= s);
    }
}

/// Leading ASCII whitespace of `s` ends exactly at the first non-whitespace
/// byte.
proof fn lemma_trim_front_at(s: Seq<u8>, start: int)
    requires
        0 <= start <= s.len(),
        forall|k: int| 0 <= k < start ==> is_ascii_ws(s[k]),
        start < s.len() ==> !is_ascii_ws(s[start]),
    ensures
        trim_front(s) == s.skip(start),
    decreases start,
{
    if start == 0 {
        if s.len() > 0 && is_ascii_ws(s[0]) {
            assert(false);
        }
        assert(s.skip(0) =~= s);
    } else {
        assert(is_ascii_ws(s[0]));
        lemma_trim_front_at(s.skip(1), start - 1);
        assert(s.skip(1).skip(start - 1) =~= s.skip(start));
    }
}

/// Whether `c` is ASCII whitespace.
fn is_ws_byte(c: u8) -> (r: bool)
    ensures
        r == is_ascii_ws(c),
{
    c == 32 || c == 9 || c == 10 || c == 12 || c == 13
}

/// Trim surrounding ASCII whitespace off `s` in place.
fn trim_in_place(s: &mut Vec<u8>)
    ensures
        final (s)@ == trim_ascii(old(s)@),
{
    let ghost s0 = s@;
    let _len = s.len();
    let mut start: usize = 0;
    while start < s.len() && is_ws_byte(s[start])
        invariant
            0 <= start <= s@.len(),
            s@ == s0,
            s@.len() <= usize::MAX,
            forall|k: int| 0 <= k < start ==> is_ascii_ws(s@[k]),
        decreases s@.len() - start,
    {
        start += 1;
    }
    proof {
        lemma_trim_front_at(s0, start as int);
    }
    let mut front = s.split_off(start);
    core::mem::swap(s, &mut front);
    let ghost s1 = s@;
    proof {
        assert(s1 =~= s0.skip(start as int));
    }
    let mut end: usize = s.len();
    while end > 0 && is_ws_byte(s[end - 1])
        invariant
            0 <= end <= s@.len(),
            s@ == s1,
            forall|k: int| end <= k < s@.len() ==> is_ascii_ws(s@[k]),
        decreases end,
    {
        end -= 1;
    }
    proof {
        lemma_trim_back_at(s1, end as int);
    }
    s.truncate(end);
    proof {
        assert(s@ =~= s1.subrange(0, end as int));
    }
}

/// The payload of one line: the trimmed remainder after a `data:` prefix,
/// with a trailing carriage return stripped; `None` for lines without the
/// prefix, an empty payload or the sentinel `[DONE]`.
fn line_to_payload(line: Vec<u8>) -> (r: Option<Vec<u8>>)
    ensures
        match line_payload(line@) {
            Some(p) => r matches Some(v) && v@ == p,
            None => r is None,
        },
{
    let ghost raw = line@;
    let mut l = line;
    if l.len() > 0 && l[l.len() - 1] == 13 {
        let n = l.len();
        l.truncate(n - 1);
        proof {
            assert(l@ =~= raw.drop_last());
        }
    }
    let ghost stripped = l@;
    if l.len() < 5 {
        return None;
    }
    let pref = vec![100u8, 97u8, 116u8, 97u8, 58u8];
    proof {
        assert(pref@ =~= data_prefix());
    }
    if !crate::frames::match_at(&l, &pref, 0) {
        proof {
            if stripped.subrange(0, 5) == data_prefix() {
                assert(forall|k: int|
                    0 <= k < 5 ==> stripped[k] == #[trigger] stripped.subrange(0, 5)[k]);
                assert(delim_at(stripped, data_prefix(), 0));
            }
        }
        return None;
    }
    proof {
        assert(stripped.subrange(0, 5) =~= data_prefix());
    }
    let mut p = l.split_off(5);
    proof {
        assert(p@ =~= stripped.skip(5));
    }
    trim_in_place(&mut p);
    if p.len() == 0 {
        return None;
    }
    let done = vec![91u8, 68u8, 79u8, 78u8, 69u8, 93u8];
    proof {
        assert(done@ =~= done_sentinel());
    }
    if p.len() == 6 && crate::frames::match_at(&p, &done, 0) {
        proof {
            assert(p@ =~= done_sentinel());
        }
        return None;
    }
    proof {
        if p@ == done_sentinel() {
            assert(p@.len() == 6);
            assert(forall|k: int| 0 <= k < 6 ==> p@[k] == done_sentinel()[k]);
            assert(delim_at(p@, done_sentinel(), 0));
        }
    }
    Some(p)
}

/// The events carried by one frame: for each line with a `data:` prefix, the
/// trimmed payload is decoded, skipping empty payloads, the sentinel `[DONE]`
/// and payloads that fail to decode.
pub fn parse_frame(frame: Vec<u8>) -> (events: Vec<Event>)
    ensures
        events@ == frame_events(frame@),
{
    let ghost f0 = frame@;
    let mut work = frame;
    let mut events: Vec<Event> = Vec::new();
    let ghost mut done_lines: Seq<Seq<u8>> = seq![];
    loop
        invariant
            split_lines(f0) == done_lines + split_lines(work@),
            events@ == decoded_events(payloads_of_lines(done_lines)),
        ensures
            events@ == frame_events(f0),
        decreases work@.len(),
    {
        match next_line(&mut work) {
            None => {
                proof {
                    assert(done_lines + split_lines(work@) =~= done_lines);
                    assert(events@ == frame_events(f0));
                }
                break;
            },
            Some(line) => {
                let ghost l = line@;
                proof {
                    assert(done_lines + (seq![l] + split_lines(work@)) =~= (done_lines + seq![l])
                        + split_lines(work@));
                    lemma_payloads_concat(done_lines, seq![l]);
                    lemma_decoded_concat(
                        payloads_of_lines(done_lines),
                        payloads_of_lines(seq![l]),
                    );
                    lemma_payloads_singleton(l);
                }
                match line_to_payload(line) {
                    Some(payload) => {
                        let ghost pv = payload@;
                        proof {
                            lemma_decoded_singleton(pv);
                        }
                        if let Some(e) = decode_event(&payload) {
                            events.push(e);
                        }
                    },
                    None => {
                        proof {
                            assert(decoded_events(Seq::<Seq<u8>>::empty())
                                =~= Seq::<Event>::empty());
                        }
                    },
                }
                proof {
                    done_lines = done_lines + seq![l];
                }
            },
        }
    }
    events
}

/// The complete frames at the front of a buffer, in order, and the remainder
/// that still waits for its separator.
pub open spec fn drain_frames(b: Seq<u8>) -> (Seq<Seq<u8>>, Seq<u8>)
    decreases b.len(),
{
    match split_frame(b) {
        Some(fr) => if fr.1.len() < b.len() {
            let (fs, rest) = drain_frames(fr.1);
            (seq![fr.0] + fs, rest)
        } else {
            (seq![], b)
        },
        None => (seq![], b),
    }
}

/// Splitting a frame off always shortens the buffer, so the remainder of
/// [`drain_frames`] is reached by repeated splitting.
pub proof fn lemma_split_frame_shrinks(b: Seq<u8>)
    requires
        split_frame(b) is Some,
    ensures
        split_frame(b) matches Some(fr) && fr.1.len() < b.len(),
{
    crate::frames::lemma_find_from_characterizes(b, crate::frames::crlf_delim(), 0);
    crate::frames::lemma_find_from_characterizes(b, crate::frames::lf_delim(), 0);
}

/// The events a sequence of frames carries, in frame order.
pub open spec fn frames_events(fs: Seq<Seq<u8>>) -> Seq<Event>
    decreases fs.len(),
{
    if fs.len() == 0 {
        seq![]
    } else {
        frame_events(fs[0]) + frames_events(fs.skip(1))
    }
}

/// The events carried by every complete frame at the front of a buffer.
pub open spec fn buffered_events(b: Seq<u8>) -> Seq<Event> {
    frames_events(drain_frames(b).0)
}

/// Frame event sequences distribute over concatenation of frame sequences.
proof fn lemma_frames_events_concat(a: Seq<Seq<u8>>, b: Seq<Seq<u8>>)
    ensures
        frames_events(a + b) == frames_events(a) + frames_events(b),
    decreases a.len(),
{
    if a.len() == 0 {
        assert(a + b =~= b);
        assert(frames_events(a) + frames_events(b) =~= frames_events(b));
    } else {
        lemma_frames_events_concat(a.skip(1), b);
        assert((a + b).skip(1) =~= a.skip(1) + b);
        assert(frames_events(a + b) =~= frames_events(a) + frames_events(b));
    }
}

/// The events of one frame, then of the rest.
proof fn lemma_frames_events_step(f: Seq<u8>, fs: Seq<Seq<u8>>)
    ensures
        frames_events(seq![f] + fs) == frame_events(f) + frames_events(fs),
{
    assert((seq![f] + fs).skip(1) =~= fs);
    assert(frames_events(seq![f] + fs) =~= frame_events(f) + frames_events(fs));
}

/// Append one chunk to the working buffer, extract every frame that is now
/// complete, and return the events those frames carry, in order; incomplete
/// trailing bytes stay in the buffer for the next chunk.
pub fn process_chunk(buffer: &mut Vec<u8>, chunk: Vec<u8>) -> (events: Vec<Event>)
    ensures
        final (buffer)@ == drain_frames(old(buffer)@ + chunk@).1,
        events@ == buffered_events(old(buffer)@ + chunk@),
{
    let mut chunk = chunk;
    buffer.append(&mut chunk);
    let ghost b0 = buffer@;
    let mut events: Vec<Event> = Vec::new();
    let ghost mut done_frames: Seq<Seq<u8>> = seq![];
    loop
        invariant
            drain_frames(b0).0 == done_frames + drain_frames(buffer@).0,
            drain_frames(b0).1 == drain_frames(buffer@).1,
            events@ == frames_events(done_frames),
        ensures
            buffer@ == drain_frames(b0).1,
            events@ == frames_events(drain_frames(b0).0),
        decreases buffer@.len(),
    {
        let ghost b_prev = buffer@;
        match crate::frames::extract_event(buffer) {
            None => {
                proof {
                    assert(done_frames + drain_frames(buffer@).0 =~= done_frames);
                }
                break;
            },
            Some(frame) => {
                let ghost fv = frame@;
                proof {
                    lemma_split_frame_shrinks(b_prev);
                    assert(drain_frames(b_prev).0 =~= seq![fv] + drain_frames(buffer@).0);
                    assert(done_frames + (seq![fv] + drain_frames(buffer@).0) =~= (done_frames
                        + seq![fv]) + drain_frames(buffer@).0);
                    lemma_frames_events_concat(done_frames, seq![fv]);
                    lemma_frames_events_step(fv, Seq::<Seq<u8>>::empty());
                    assert(seq![fv] + Seq::<Seq<u8>>::empty() =~= seq![fv]);
                    assert(frames_events(Seq::<Seq<u8>>::empty()) =~= Seq::<Event>::empty());
                    assert(frames_events(seq![fv]) =~= frame_events(fv));
                }
                let mut new_events = parse_frame(frame);
                events.append(&mut new_events);
                proof {
                    done_frames = done_frames + seq![fv];
                }
            },
        }
    }
    events
}

} // verus!
