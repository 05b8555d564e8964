//! The streaming decoder: a pure transform from a raw server-sent-event
//! response body to the ordered sequence of events it carries.
//!
//! The body is split on newline boundaries into candidate frames.  A frame
//! is ignored unless, after leading whitespace is trimmed, it starts with
//! the literal prefix `data: `.  The payload after the prefix is either the
//! termination sentinel `[DONE]` — which yields [`StreamEvent::Done`] and
//! stops all further processing — or a JSON candidate from which the nested
//! delta text is extracted.  A payload that does not parse, carries no
//! delta field, or carries an empty one is silently skipped: one malformed
//! event must not abort the whole decode.

use vstd::prelude::*;

verus! {

/// One decoded event: an incremental text fragment, or the end marker.
#[derive(Debug, PartialEq, Eq)]
pub enum StreamEvent {
    Delta(String),
    Done,
}

/// The mathematical image of a [`StreamEvent`].
pub enum EventV {
    Delta(Seq<char>),
    Done,
}

impl View for StreamEvent {
    type V = EventV;

    open spec fn view(&self) -> EventV {
        match self {
            StreamEvent::Delta(s) => EventV::Delta(s@),
            StreamEvent::Done => EventV::Done,
        }
    }
}

/// The view of a decoded event list.
pub open spec fn events_view(evs: Seq<StreamEvent>) -> Seq<EventV> {
    evs.map_values(|e: StreamEvent| e@)
}

/// What a JSON extraction attempt on one payload yields: the text at
/// `choices[0].delta.content` if the payload parses to an object carrying
/// it, and nothing otherwise.  The result depends on the payload bytes
/// alone; it is given a name here because writing out the JSON grammar
/// would restate the parser rather than specify this library.
pub uninterp spec fn delta_of(payload: Seq<u8>) -> Option<Seq<char>>;

/// Relies on `serde_json::from_slice` and `serde_json::Value::get` /
/// `Value::as_str`: parses the payload as JSON and reads the string at
/// `choices[0].delta.content`, if any.  The outcome is a function of the
/// payload bytes alone.
#[verifier::external_body]
fn parse_delta(payload: &[u8]) -> (r: Option<String>)
    ensures
        r.deep_view() == delta_of(payload@),
{
    let v: serde_json::Value = match serde_json::from_slice(payload) {
        Ok(v) => v,
        Err(_) => return None,
    };
    v.get("choices")
        .and_then(|c| c.get(0))
        .and_then(|c| c.get("delta"))
        .and_then(|d| d.get("content"))
        .and_then(|c| c.as_str())
        .map(|s| s.to_owned())
}

/// ASCII whitespace, as trimmed from the start of a candidate frame.
pub open spec fn is_ws_byte(b: u8) -> bool {
    b == 9 || b == 11 || b == 12 || b == 13 || b == 32
}

/// Whether `b` is ASCII whitespace.
fn is_ws(b: u8) -> (r: bool)
    ensures
        r == is_ws_byte(b),
{
    b == 9 || b == 11 || b == 12 || b == 13 || b == 32
}

/// A frame with its leading ASCII whitespace removed.
pub open spec fn trim_start_bytes(s: Seq<u8>) -> Seq<u8>
    decreases s.len(),
{
    if s.len() > 0 && is_ws_byte(s[0]) {
        trim_start_bytes(s.drop_first())
    } else {
        s
    }
}

/// The frame prefix `data: `, as bytes.
pub open spec fn data_prefix() -> Seq<u8> {
    seq!['d' as u8, 'a' as u8, 't' as u8, 'a' as u8, ':' as u8, ' ' as u8]
}

/// The termination sentinel `[DONE]`, as bytes.
pub open spec fn done_sentinel() -> Seq<u8> {
    seq!['[' as u8, 'D' as u8, 'O' as u8, 'N' as u8, 'E' as u8, ']' as u8]
}

/// What one candidate frame contributes to the decode.
pub enum LineClass {
    /// The frame is ignored: no `data: ` prefix, unparsable payload,
    /// missing delta field, or empty delta text.
    Skip,
    /// The frame carries this non-empty delta text.
    Text(Seq<char>),
    /// The frame is the termination sentinel.
    Stop,
}

/// Classify one frame, per the decoding rules of this module.
pub open spec fn classify_line(line: Seq<u8>) -> LineClass {
    let t = trim_start_bytes(line);
    if !(t.len() >= 6 && t.take(6) == data_prefix()) {
        LineClass::Skip
    } else {
        let payload = t.skip(6);
        if payload == done_sentinel() {
            LineClass::Stop
        } else {
            match delta_of(payload) {
                Some(text) => if text.len() > 0 {
                    LineClass::Text(text)
                } else {
                    LineClass::Skip
                },
                None => LineClass::Skip,
            }
        }
    }
}

/// The position of the first newline byte in `s`, or `s.len()` if none.
pub open spec fn first_nl(s: Seq<u8>) -> nat
    decreases s.len(),
{
    if s.len() == 0 {
        0
    } else if s[0] == 10 {
        0
    } else {
        1 + first_nl(s.drop_first())
    }
}

/// `first_nl` is a position in `s` (or just past it), the byte there is a
/// newline when it is in range, and no earlier byte is one.
pub proof fn lemma_first_nl(s: Seq<u8>)
    ensures
        first_nl(s) <= s.len(),
        first_nl(s) < s.len() ==> s[first_nl(s) as int] == 10,
        forall|k: int| 0 <= k < first_nl(s) ==> s[k] != 10,
    decreases s.len(),
{
    if s.len() > 0 && s[0] != 10 {
        lemma_first_nl(s.drop_first());
        assert forall|k: int| 0 <= k < first_nl(s) implies s[k] != 10 by {
            if k > 0 {
                assert(s.drop_first()[k - 1] != 10);
            }
        }
    }
}

/// Any position with no newline before it and a newline (or the end) at it
/// is `first_nl`.
pub proof fn lemma_first_nl_at(s: Seq<u8>, m: int)
    requires
        0 <= m <= s.len(),
        forall|k: int| 0 <= k < m ==> s[k] != 10,
        m < s.len() ==> s[m] == 10,
    ensures
        first_nl(s) == m,
    decreases s.len(),
{
    if s.len() > 0 && s[0] != 10 {
        lemma_first_nl_at(s.drop_first(), m - 1);
    }
}

/// The candidate frames of a body: maximal newline-free segments, in
/// order, including a final segment after the last newline (possibly
/// empty).
pub open spec fn split_lines(s: Seq<u8>) -> Seq<Seq<u8>>
    decreases s.len(),
{
    let k = first_nl(s);
    if k >= s.len() {
        seq![s]
    } else {
        seq![s.take(k as int)] + split_lines(s.skip(k + 1 as int))
    }
}

/// The events a frame list yields: each frame contributes per its class,
/// and the sentinel is terminal — frames after it are never examined.
pub open spec fn events_of_lines(lines: Seq<Seq<u8>>) -> Seq<EventV>
    decreases lines.len(),
{
    if lines.len() == 0 {
        Seq::<EventV>::empty()
    } else {
        match classify_line(lines[0]) {
            LineClass::Skip => events_of_lines(lines.drop_first()),
            LineClass::Text(t) => seq![EventV::Delta(t)] + events_of_lines(lines.drop_first()),
            LineClass::Stop => seq![EventV::Done],
        }
    }
}

/// The full decode of a raw response body.
pub open spec fn sse_events(body: Seq<u8>) -> Seq<EventV> {
    events_of_lines(split_lines(body))
}

/// Unfolding of `events_of_lines` on a list with an explicit head.
proof fn lemma_events_cons(l: Seq<u8>, tl: Seq<Seq<u8>>)
    ensures
        classify_line(l) is Skip ==> events_of_lines(seq![l] + tl) == events_of_lines(tl),
        classify_line(l) matches LineClass::Text(t) ==> events_of_lines(seq![l] + tl) == seq![
            EventV::Delta(t),
        ] + events_of_lines(tl),
        classify_line(l) is Stop ==> events_of_lines(seq![l] + tl) == seq![EventV::Done],
{
    let lines = seq![l] + tl;
    assert(lines.len() > 0);
    assert(lines[0] == l);
    assert(lines.drop_first() =~= tl);
}

/// Helper for [`lemma_done_is_terminal`], by induction over the frames.
proof fn lemma_done_terminal_lines(lines: Seq<Seq<u8>>)
    ensures
        forall|i: int|
            0 <= i < events_of_lines(lines).len() - 1 ==> events_of_lines(lines)[i] is Delta,
    decreases lines.len(),
{
    if lines.len() > 0 {
        lemma_done_terminal_lines(lines.drop_first());
        let evs = events_of_lines(lines);
        let tl = events_of_lines(lines.drop_first());
        match classify_line(lines[0]) {
            LineClass::Skip => {},
            LineClass::Text(t) => {
                assert forall|i: int| 0 <= i < evs.len() - 1 implies evs[i] is Delta by {
                    if i > 0 {
                        assert(evs[i] == tl[i - 1]);
                    }
                }
            },
            LineClass::Stop => {},
        }
    }
}

/// Law: the termination event is terminal.  In a decoded event list, every
/// event before the last one is a delta; in particular nothing — no delta
/// and no second termination event — ever follows `Done`.
pub proof fn lemma_done_is_terminal(body: Seq<u8>)
    ensures
        forall|i: int| 0 <= i < sse_events(body).len() - 1 ==> sse_events(body)[i] is Delta,
{
    lemma_done_terminal_lines(split_lines(body));
}

/// Law: a frame the decoder skips — one without the `data: ` prefix, or
/// whose payload yields no (non-empty) delta text — can be inserted between
/// any two frames without changing the decoded events: the surrounding
/// deltas are still yielded, in the same order.
pub proof fn lemma_skipped_frame_inserted(xs: Seq<Seq<u8>>, l: Seq<u8>, ys: Seq<Seq<u8>>)
    requires
        classify_line(l) is Skip,
    ensures
        events_of_lines(xs + seq![l] + ys) == events_of_lines(xs + ys),
    decreases xs.len(),
{
    if xs.len() == 0 {
        assert(xs + seq![l] + ys =~= seq![l] + ys);
        lemma_events_cons(l, ys);
        assert(xs + ys =~= ys);
    } else {
        let with = xs + seq![l] + ys;
        let without = xs + ys;
        assert(with[0] == xs[0]);
        assert(without[0] == xs[0]);
        assert(with.drop_first() =~= xs.drop_first() + seq![l] + ys);
        assert(without.drop_first() =~= xs.drop_first() + ys);
        lemma_skipped_frame_inserted(xs.drop_first(), l, ys);
    }
}

/// Law: whatever stands after the termination sentinel is never yielded.
/// Once a sentinel frame follows frames without one, the decode is what
/// those frames give plus the one `Done` — the frames behind the sentinel,
/// valid or not, contribute nothing.
pub proof fn lemma_frames_after_done_ignored(xs: Seq<Seq<u8>>, done_frame: Seq<u8>, ys: Seq<
    Seq<u8>,
>)
    requires
        classify_line(done_frame) is Stop,
        forall|k: int| 0 <= k < xs.len() ==> !(classify_line(#[trigger] xs[k]) is Stop),
    ensures
        events_of_lines(xs + seq![done_frame] + ys) == events_of_lines(xs) + seq![EventV::Done],
    decreases xs.len(),
{
    if xs.len() == 0 {
        assert(xs + seq![done_frame] + ys =~= seq![done_frame] + ys);
        lemma_events_cons(done_frame, ys);
        assert(events_of_lines(xs) =~= Seq::<EventV>::empty());
        assert(Seq::<EventV>::empty() + seq![EventV::Done] =~= seq![EventV::Done]);
    } else {
        let with = xs + seq![done_frame] + ys;
        assert(with[0] == xs[0]);
        assert(with.drop_first() =~= xs.drop_first() + seq![done_frame] + ys);
        assert(forall|k: int|
            0 <= k < xs.drop_first().len() ==> !(classify_line(
                #[trigger] xs.drop_first()[k],
            ) is Stop));
        lemma_frames_after_done_ignored(xs.drop_first(), done_frame, ys);
        match classify_line(xs[0]) {
            LineClass::Skip => {},
            LineClass::Text(t) => {
                assert(seq![EventV::Delta(t)] + (events_of_lines(xs.drop_first()) + seq![
                    EventV::Done,
                ]) =~= (seq![EventV::Delta(t)] + events_of_lines(xs.drop_first())) + seq![
                    EventV::Done,
                ]);
            },
            LineClass::Stop => {
                assert(false);
            },
        }
    }
}

/// The concatenation, in order, of all delta texts in an event list.
pub open spec fn concat_deltas(evs: Seq<EventV>) -> Seq<char>
    decreases evs.len(),
{
    if evs.len() == 0 {
        Seq::<char>::empty()
    } else {
        match evs[0] {
            EventV::Delta(t) => t + concat_deltas(evs.drop_first()),
            EventV::Done => concat_deltas(evs.drop_first()),
        }
    }
}

/// What one appended event adds to the concatenation.
proof fn lemma_concat_deltas_push(evs: Seq<EventV>, e: EventV)
    ensures
        concat_deltas(evs.push(e)) == concat_deltas(evs) + (match e {
            EventV::Delta(t) => t,
            EventV::Done => Seq::<char>::empty(),
        }),
    decreases evs.len(),
{
    let add = (match e {
        EventV::Delta(t) => t,
        EventV::Done => Seq::<char>::empty(),
    });
    if evs.len() == 0 {
        assert(evs.push(e).len() == 1);
        assert(evs.push(e)[0] == e);
        assert(evs.push(e).drop_first() =~= Seq::<EventV>::empty());
        match e {
            EventV::Delta(t) => {
                assert(concat_deltas(evs.push(e)) == t + concat_deltas(
                    Seq::<EventV>::empty(),
                ));
                assert(t + Seq::<char>::empty() =~= t);
                assert(concat_deltas(evs) + add =~= t);
            },
            EventV::Done => {
                assert(concat_deltas(evs.push(e)) == concat_deltas(Seq::<EventV>::empty()));
                assert(concat_deltas(evs) + add =~= Seq::<char>::empty());
            },
        }
    } else {
        assert(evs.push(e)[0] == evs[0]);
        assert(evs.push(e).drop_first() =~= evs.drop_first().push(e));
        lemma_concat_deltas_push(evs.drop_first(), e);
        match evs[0] {
            EventV::Delta(t) => {
                assert(concat_deltas(evs.push(e)) == t + concat_deltas(
                    evs.drop_first().push(e),
                ));
                assert(concat_deltas(evs) == t + concat_deltas(evs.drop_first()));
                assert(t + (concat_deltas(evs.drop_first()) + add) =~= (t + concat_deltas(
                    evs.drop_first(),
                )) + add);
            },
            EventV::Done => {
                assert(concat_deltas(evs.push(e)) == concat_deltas(evs.drop_first().push(e)));
                assert(concat_deltas(evs) == concat_deltas(evs.drop_first()));
            },
        }
    }
}

/// Concatenate the delta texts of a decoded event list, in order: the full
/// completion text, exactly what an incremental consumer of the deltas
/// would have assembled.
pub fn collect_deltas(events: &Vec<StreamEvent>) -> (r: String)
    ensures
        r@ == concat_deltas(events_view(events@)),
{
    let mut r = String::new();
    let mut k: usize = 0;
    proof {
        assert(events_view(events@.take(0)) =~= Seq::<EventV>::empty());
    }
    while k < events.len()
        invariant
            k <= events@.len(),
            r@ == concat_deltas(events_view(events@.take(k as int))),
        decreases events@.len() - k,
    {
        proof {
            assert(events@.take(k + 1) =~= events@.take(k as int).push(events@[k as int]));
            assert(events_view(events@.take(k + 1)) =~= events_view(events@.take(k as int)).push(
                events@[k as int]@,
            ));
            lemma_concat_deltas_push(events_view(events@.take(k as int)), events@[k as int]@);
        }
        match &events[k] {
            StreamEvent::Delta(t) => {
                r.append(t.as_str());
            },
            StreamEvent::Done => {
                proof {
                    assert(r@ + Seq::<char>::empty() =~= r@);
                }
            },
        }
        k += 1;
    }
    proof {
        assert(events@.take(events@.len() as int) =~= events@);
    }
    r
}

/// Whether any delta at all was decoded: exactly when the consumer should
/// finish its output with a trailing newline.
pub fn has_delta(events: &Vec<StreamEvent>) -> (r: bool)
    ensures
        r == exists|k: int| 0 <= k < events@.len() && events@[k] is Delta,
{
    let mut k: usize = 0;
    while k < events.len()
        invariant
            k <= events@.len(),
            forall|t: int| 0 <= t < k ==> !(events@[t] is Delta),
        decreases events@.len() - k,
    {
        match &events[k] {
            StreamEvent::Delta(_) => {
                return true;
            },
            StreamEvent::Done => {},
        }
        k += 1;
    }
    false
}

/// The outcome of classifying one frame at run time.
enum Classified {
    Skip,
    Text(String),
    Stop,
}

/// Classify one candidate frame: trim leading whitespace, require the
/// `data: ` prefix, recognise the sentinel, and otherwise attempt the
/// delta extraction.
fn classify_frame(frame: &[u8]) -> (r: Classified)
    ensures
        (match r {
            Classified::Skip => classify_line(frame@) is Skip,
            Classified::Text(s) => classify_line(frame@) == LineClass::Text(s@),
            Classified::Stop => classify_line(frame@) is Stop,
        }),
{
    let m = frame.len();
    proof {
        assert(frame@.skip(0) =~= frame@);
    }
    // Trim leading whitespace.
    let mut a: usize = 0;
    while a < m && is_ws(frame[a])
        invariant
            a <= m == frame@.len(),
            trim_start_bytes(frame@) == trim_start_bytes(frame@.skip(a as int)),
        decreases m - a,
    {
        proof {
            let cur = frame@.skip(a as int);
            assert(cur.drop_first() =~= frame@.skip(a + 1));
        }
        a += 1;
    }
    let ghost trimmed = frame@.skip(a as int);
    proof {
        assert(trim_start_bytes(trimmed) == trimmed);
    }
    // Require the `data: ` prefix.
    if !(m - a >= 6 && frame[a] == 'd' as u8 && frame[a + 1] == 'a' as u8 && frame[a + 2] == 't'
        as u8 && frame[a + 3] == 'a' as u8 && frame[a + 4] == ':' as u8 && frame[a + 5] == ' '
        as u8) {
        proof {
            if trimmed.len() >= 6 && trimmed.take(6) == data_prefix() {
                assert(trimmed.take(6)[0] == 'd' as u8);
                assert(trimmed.take(6)[1] == 'a' as u8);
                assert(trimmed.take(6)[2] == 't' as u8);
                assert(trimmed.take(6)[3] == 'a' as u8);
                assert(trimmed.take(6)[4] == ':' as u8);
                assert(trimmed.take(6)[5] == ' ' as u8);
                assert(false);
            }
        }
        return Classified::Skip;
    }
    proof {
        assert(trimmed.take(6) =~= data_prefix());
    }
    let payload: &[u8] = &frame[a + 6..m];
    proof {
        assert(payload@ =~= trimmed.skip(6));
    }
    // Recognise the termination sentinel.
    if payload.len() == 6 && payload[0] == '[' as u8 && payload[1] == 'D' as u8 && payload[2]
        == 'O' as u8 && payload[3] == 'N' as u8 && payload[4] == 'E' as u8 && payload[5] == ']'
        as u8 {
        proof {
            assert(payload@ =~= done_sentinel());
        }
        return Classified::Stop;
    }
    proof {
        if payload@ == done_sentinel() {
            assert(payload@.len() == 6);
            assert(payload@[0] == '[' as u8);
            assert(payload@[1] == 'D' as u8);
            assert(payload@[2] == 'O' as u8);
            assert(payload@[3] == 'N' as u8);
            assert(payload@[4] == 'E' as u8);
            assert(payload@[5] == ']' as u8);
            assert(false);
        }
    }
    // Attempt the delta extraction; skip empty or absent text.
    match parse_delta(payload) {
        Some(text) => {
            if !text.as_str().is_empty() {
                Classified::Text(text)
            } else {
                Classified::Skip
            }
        },
        None => Classified::Skip,
    }
}

/// Decode a raw server-sent-event body into its ordered event list.
pub fn decode_sse(body: &[u8]) -> (events: Vec<StreamEvent>)
    ensures
        events_view(events@) == sse_events(body@),
{
    let n = body.len();
    let mut events: Vec<StreamEvent> = Vec::new();
    let mut i: usize = 0;
    let mut stop = false;
    proof {
        assert(body@.skip(0) =~= body@);
    }
    while !stop
        invariant
            n == body@.len(),
            stop ==> events_view(events@) == sse_events(body@),
            !stop ==> i <= n,
            !stop ==> events_view(events@) + events_of_lines(split_lines(body@.skip(i as int)))
                == sse_events(body@),
        decreases n - i + (if stop {
            0int
        } else {
            1int
        }),
    {
        let ghost rest = body@.skip(i as int);
        let ghost pre = events@;
        // Find the end of the current frame.
        let mut j: usize = i;
        while j < n && body[j] != 10
            invariant
                n == body@.len(),
                i <= j <= n,
                forall|k: int| i <= k < j ==> body@[k] != 10,
            decreases n - j,
        {
            j += 1;
        }
        let frame: &[u8] = &body[i..j];
        let ghost line = frame@;
        let ghost tail = if j < n {
            split_lines(body@.skip(j + 1))
        } else {
            Seq::<Seq<u8>>::empty()
        };
        proof {
            assert(forall|k: int| 0 <= k < rest.len() ==> rest[k] == body@[i + k]);
            lemma_first_nl_at(rest, j - i);
            assert(rest.take(j - i) =~= line);
            if j < n {
                assert(rest.skip(j - i + 1) =~= body@.skip(j + 1));
                assert(split_lines(rest) == seq![line] + tail);
            } else {
                assert(rest.take(j - i) =~= rest);
                assert(split_lines(rest) == seq![rest]);
                assert(seq![line] + tail =~= seq![line]);
                assert(events_of_lines(tail) == Seq::<EventV>::empty());
            }
            lemma_events_cons(line, tail);
        }
        // Classify the frame and extend the event list.
        match classify_frame(frame) {
            Classified::Stop => {
                events.push(StreamEvent::Done);
                stop = true;
                proof {
                    assert(events_view(events@) =~= events_view(pre) + seq![EventV::Done]);
                }
            },
            Classified::Text(text) => {
                proof {
                    assert(classify_line(line) == LineClass::Text(text@));
                }
                events.push(StreamEvent::Delta(text));
                proof {
                    let e = events@.last();
                    assert(events_view(events@) =~= events_view(pre) + seq![e@]);
                    assert((events_view(pre) + seq![e@]) + events_of_lines(tail) =~= events_view(
                        pre,
                    ) + (seq![e@] + events_of_lines(tail)));
                }
                if j == n {
                    stop = true;
                    proof {
                        assert(events_view(events@) + Seq::<EventV>::empty() =~= events_view(
                            events@,
                        ));
                    }
                } else {
                    i = j + 1;
                }
            },
            Classified::Skip => {
                if j == n {
                    stop = true;
                    proof {
                        assert(events_view(events@) + Seq::<EventV>::empty() =~= events_view(
                            events@,
                        ));
                    }
                } else {
                    i = j + 1;
                }
            },
        }
    }
    events
}

} // verus!
