//! A whole replay file: the header, the compressed body, and in it the goals, the room
//! state and the events.
use vstd::prelude::*;
use vstd::string::StringExecFns;

use crate::codec::events::{
    lemma_allow_unknown_keeps_known, lemma_unknown_payload_takes_rest, parse_event_payload,
    spec_event_payload, event_payload, lemma_event_payload_unfold, lemma_payload_limit_irrelevant,
};
use crate::codec::inflate::{bytes_result_is, inflate_outcome, inflate_raw, inflates, raw_inflate, OutputLimit};
use crate::codec::reader::{read_as, spec_u16, spec_u8, spec_var_u32, eof_error, be32, lemma_big_endian, ReplayReader, SpecRead};
use crate::codec::room::{parse_room_state, spec_room_state};
use crate::error::{is_read_error, DecodeError, DecodeErrorView};
use crate::text::{index_context, indexed, join};
use crate::types::replay::{GoalMarker, ReplayData, ReplayDataView, ReplayEvent, ReplayEventView};

verus! {

/// The frame of the last goal read so far, 0 before the first.
pub open spec fn last_frame(markers: Seq<GoalMarker>) -> u32 {
    if markers.len() == 0 { 0 } else { markers.last().frame_no }
}

/// The first `k` goal markers from `p` on: each a variable-length frame delta added to the
/// previous goal's frame (an overflow is an error) and the scoring team.
pub open spec fn spec_markers(b: Seq<u8>, p: int, k: nat) -> SpecRead<Seq<GoalMarker>>
    decreases k,
{
    if k == 0 {
        Ok((Seq::empty(), p))
    } else {
        match spec_markers(b, p, (k - 1) as nat) {
            Err(e) => Err(e),
            Ok((markers, at)) => {
                let base = index_context("replay.goalMarkers"@, (k - 1) as nat);
                match spec_var_u32(b, at, base + ".delta"@) {
                    Err(e) => Err(e),
                    Ok((delta, at2)) => if last_frame(markers) as int + delta as int > u32::MAX {
                        Err((DecodeErrorView::IntegerOverflow { context: base + ".frameNo"@ }, at2))
                    } else {
                        match spec_u8(b, at2, base + ".teamId"@) {
                            Err(e) => Err(e),
                            Ok((team_id, at3)) => Ok((
                                markers.push(GoalMarker { frame_no: (last_frame(markers) + delta) as u32, team_id }),
                                at3,
                            )),
                        }
                    },
                }
            },
        }
    }
}

/// The goal markers: a 16-bit count, then the markers.
pub open spec fn spec_goal_markers(b: Seq<u8>, p: int) -> SpecRead<Seq<GoalMarker>> {
    match spec_u16(b, p, "replay.goalMarkers.length"@) {
        Err(e) => Err(e),
        Ok((n, at)) => spec_markers(b, at, n as nat),
    }
}

fn parse_goal_markers(reader: &mut ReplayReader) -> (r: Result<Vec<GoalMarker>, DecodeError>)
    ensures
        read_as(old(reader)@, final(reader)@, spec_goal_markers(old(reader)@.bytes, old(reader)@.cursor), r),
{
    let goal_count = reader.read_u16("replay.goalMarkers.length")? as usize;
    let ghost b = reader@.bytes;
    let ghost start = reader@.cursor;
    let mut goal_markers: Vec<GoalMarker> = Vec::new();
    let mut goal_frame: u32 = 0;
    let mut index: usize = 0;
    while index < goal_count
        invariant
            index <= goal_count,
            goal_count <= u16::MAX,
            reader@.bytes == b,
            b == old(reader)@.bytes,
            start <= reader@.cursor <= reader@.bytes.len(),
            old(reader)@.cursor <= start,
            spec_goal_markers(b, old(reader)@.cursor) == spec_markers(b, start, goal_count as nat),
            spec_markers(b, start, index as nat) == Ok::<(Seq<GoalMarker>, int), (DecodeErrorView, int)>((goal_markers@, reader@.cursor)),
            goal_frame == last_frame(goal_markers@),
        decreases goal_count - index,
    {
        let base = indexed("replay.goalMarkers", index);
        let delta = match reader.read_var_u32(join(base.as_str(), ".delta").as_str()) {
            Ok(d) => d,
            Err(e) => {
                proof { lemma_markers_error_persists(b, start, (index + 1) as nat, goal_count as nat); }
                return Err(e);
            },
        };
        goal_frame = match goal_frame.checked_add(delta) {
            Some(f) => f,
            None => {
                proof { lemma_markers_error_persists(b, start, (index + 1) as nat, goal_count as nat); }
                return Err(DecodeError::IntegerOverflow { context: join(base.as_str(), ".frameNo") });
            },
        };
        let team_id = match reader.read_u8(join(base.as_str(), ".teamId").as_str()) {
            Ok(t) => t,
            Err(e) => {
                proof { lemma_markers_error_persists(b, start, (index + 1) as nat, goal_count as nat); }
                return Err(e);
            },
        };
        goal_markers.push(GoalMarker { frame_no: goal_frame, team_id });
        index = index + 1;
    }
    Ok(goal_markers)
}

proof fn lemma_markers_error_persists(b: Seq<u8>, p: int, k: nat, n: nat)
    requires
        k <= n,
        spec_markers(b, p, k) is Err,
    ensures
        spec_markers(b, p, n) == spec_markers(b, p, k),
    decreases n - k,
{
    if k < n {
        lemma_markers_error_persists(b, p, k, (n - 1) as nat);
    }
}

/// Whether the decompression inside event `i` outgrew the output limit; past the end of
/// `vs`, it did not.
pub open spec fn verdict_at(vs: Seq<OutputLimit>, i: nat) -> OutputLimit {
    if i < vs.len() { vs[i as int] } else { OutputLimit::Within }
}

pub open spec fn prepend_events(
    prefix: Seq<ReplayEventView>,
    rest: Result<Seq<ReplayEventView>, DecodeErrorView>,
) -> Result<Seq<ReplayEventView>, DecodeErrorView> {
    match rest {
        Ok(events) => Ok(prefix + events),
        Err(e) => Err(e),
    }
}

/// One event at `p`, the event before it on frame `frame`: a variable-length frame delta
/// (the sum must fit in 32 bits), the id of the player who caused it, its type byte and its
/// payload; `f` says whether a decompression inside it outgrew the output limit.
#[verifier::opaque]
pub open spec fn spec_event(b: Seq<u8>, p: int, frame: u32, allow_unknown: bool, f: OutputLimit) -> SpecRead<ReplayEventView> {
    match spec_var_u32(b, p, "replay.events.delta"@) {
        Err(e) => Err(e),
        Ok((delta, at1)) => if frame as int + delta as int > u32::MAX {
            Err((DecodeErrorView::IntegerOverflow { context: "replay.events.frameNo"@ }, at1))
        } else {
            match spec_u16(b, at1, "replay.events.byId"@) {
                Err(e) => Err(e),
                Ok((by_id, at2)) => match spec_u8(b, at2, "replay.events.eventType"@) {
                    Err(e) => Err(e),
                    Ok((event_type, at3)) => match event_payload(b, at3, event_type, allow_unknown, f) {
                        Err(e) => Err(e),
                        Ok((payload, at4)) => Ok((ReplayEventView { frame_no: (frame + delta) as u32, by_id, payload }, at4)),
                    },
                },
            }
        },
    }
}

/// The events from `p` to the end of `b`, event `i` first, the previous event on frame
/// `frame`; `vs` says whether decompressions inside events outgrew the output limit. Every event
/// takes at least four bytes, so `p` grows.
pub open spec fn spec_events(
    b: Seq<u8>,
    p: int,
    frame: u32,
    allow_unknown: bool,
    vs: Seq<OutputLimit>,
    i: nat,
) -> Result<Seq<ReplayEventView>, DecodeErrorView>
    decreases b.len() - p,
{
    if p >= b.len() {
        Ok(Seq::empty())
    } else {
        match spec_event(b, p, frame, allow_unknown, verdict_at(vs, i)) {
            Err(e) => Err(e.0),
            Ok((event, at4)) => if p < at4 <= b.len() {
                prepend_events(seq![event], spec_events(b, at4, event.frame_no, allow_unknown, vs, i + 1))
            } else {
                Ok(seq![event])
            },
        }
    }
}

pub open spec fn events_view(events: Seq<ReplayEvent>) -> Seq<ReplayEventView> {
    events.map_values(|e: ReplayEvent| e@)
}

/// Reads one event; see [`spec_event`]. It takes at least one byte.
fn parse_event(reader: &mut ReplayReader, frame: u32, allow_unknown_event_types: bool) -> (r: Result<ReplayEvent, DecodeError>)
    ensures
        exists|f: OutputLimit|
            read_as(
                old(reader)@,
                final(reader)@,
                #[trigger] spec_event(old(reader)@.bytes, old(reader)@.cursor, frame, allow_unknown_event_types, f),
                r,
            ),
        r is Ok ==> old(reader)@.cursor < final(reader)@.cursor,
{
    reveal(spec_event);
    let ghost b = reader@.bytes;
    let ghost p = reader@.cursor;
    let delta = reader.read_var_u32("replay.events.delta")?;
    let ghost at1 = reader@.cursor;
    let frame_no = match frame.checked_add(delta) {
        Some(f) => f,
        None => {
            let r = Err(DecodeError::IntegerOverflow { context: String::from_str("replay.events.frameNo") });
            assert(read_as(old(reader)@, reader@, spec_event(b, p, frame, allow_unknown_event_types, OutputLimit::Within), r));
            return r;
        },
    };
    let by_id = reader.read_u16("replay.events.byId")?;
    let event_type = reader.read_u8("replay.events.eventType")?;
    let ghost at3 = reader@.cursor;
    let ghost before_payload = reader@;
    let payload = parse_event_payload(reader, event_type, allow_unknown_event_types);
    let ghost f = choose|f: OutputLimit|
        read_as(before_payload, reader@, #[trigger] spec_event_payload(b, at3, event_type, allow_unknown_event_types, f), payload);
    proof { lemma_event_payload_unfold(b, at3, event_type, allow_unknown_event_types, f); }
    let r = match payload {
        Ok(payload) => Ok(ReplayEvent { frame_no, by_id, payload }),
        Err(e) => Err(e),
    };
    assert(read_as(old(reader)@, reader@, spec_event(b, p, frame, allow_unknown_event_types, f), r));
    r
}

#[verifier::loop_isolation(false)]
fn parse_events(reader: &mut ReplayReader, allow_unknown_event_types: bool) -> (r: Result<Vec<ReplayEvent>, DecodeError>)
    requires
        old(reader)@.cursor <= old(reader)@.bytes.len(),
    ensures
        final(reader)@.bytes == old(reader)@.bytes,
        exists|vs: Seq<OutputLimit>|
            match #[trigger] spec_events(old(reader)@.bytes, old(reader)@.cursor, 0, allow_unknown_event_types, vs, 0) {
                Ok(events) => r matches Ok(x) && events_view(x@) == events,
                Err(e) => r matches Err(x) && x@ == e,
            },
        r matches Err(x) ==> is_read_error(x@),
{
    let ghost b = reader@.bytes;
    let ghost p0 = reader@.cursor;
    let ghost allow = allow_unknown_event_types;
    let ghost mut verdicts: Seq<OutputLimit> = Seq::empty();
    let mut events: Vec<ReplayEvent> = Vec::new();
    let mut event_frame: u32 = 0;
    assert(events_view(events@) =~= Seq::<ReplayEventView>::empty());
    assert forall|vs: Seq<OutputLimit>| vs.len() >= 0 && vs.subrange(0, 0) == verdicts implies spec_events(b, p0, 0, allow, vs, 0)
        == prepend_events(events_view(events@), spec_events(b, p0, 0, allow, vs, 0)) by {
        match spec_events(b, p0, 0, allow, vs, 0) {
            Ok(rest) => assert(events_view(events@) + rest =~= rest),
            Err(_) => {},
        }
    }
    while !reader.is_eof()
        invariant
            reader@.bytes == b,
            reader@.cursor <= b.len(),
            verdicts.len() == events@.len(),
            forall|vs: Seq<OutputLimit>| vs.len() >= verdicts.len() && vs.subrange(0, verdicts.len() as int) == verdicts
                ==> #[trigger] spec_events(b, p0, 0, allow, vs, 0) == prepend_events(
                    events_view(events@),
                    spec_events(b, reader@.cursor, event_frame, allow, vs, verdicts.len() as nat),
                ),
        decreases b.len() - reader@.cursor,
    {
        let ghost p = reader@.cursor;
        let ghost i = verdicts.len() as nat;
        let ghost before = reader@;
        let event = parse_event(reader, event_frame, allow_unknown_event_types);
        let ghost v = choose|f: OutputLimit|
            read_as(before, reader@, #[trigger] spec_event(before.bytes, before.cursor, event_frame, allow_unknown_event_types, f), event);
        let ghost extended = verdicts.push(v);
        assert(verdict_at(extended, i) == v);
        assert(extended.subrange(0, i as int) =~= verdicts);
        let event = match event {
            Ok(ev) => ev,
            Err(e) => {
                assert(spec_events(b, p0, 0, allow, extended, 0) == prepend_events(events_view(events@), spec_events(b, p, event_frame, allow, extended, i)));
                return Err(e);
            },
        };
        let next_frame = event.frame_no;
        let ghost prefix = events_view(events@);
        let ghost ev = event@;
        events.push(event);
        assert(events_view(events@) =~= prefix.push(ev));
        proof {
            assert forall|vs: Seq<OutputLimit>| vs.len() >= extended.len() && vs.subrange(0, extended.len() as int) == extended
                implies #[trigger] spec_events(b, p0, 0, allow, vs, 0) == prepend_events(
                    events_view(events@),
                    spec_events(b, reader@.cursor, next_frame, allow, vs, extended.len() as nat),
                ) by {
                assert(vs.subrange(0, i as int) =~= verdicts);
                assert(vs[i as int] == extended[i as int]);
                assert(verdict_at(vs, i) == v);
                match spec_events(b, reader@.cursor, next_frame, allow, vs, i + 1) {
                    Ok(rest) => {
                        assert(prefix + (seq![ev] + rest) =~= events_view(events@) + rest);
                    },
                    Err(_) => {},
                }
            }
        }
        event_frame = next_frame;
        proof { verdicts = extended; }
    }
    assert(verdicts.subrange(0, verdicts.len() as int) =~= verdicts);
    assert(events_view(events@) + Seq::<ReplayEventView>::empty() =~= events_view(events@));
    assert(spec_events(b, p0, 0, allow, verdicts, 0) == prepend_events(events_view(events@), spec_events(b, reader@.cursor, event_frame, allow, verdicts, verdicts.len() as nat)));
    Ok(events)
}

/// The decompressed body of a replay: goal markers, room state, then events up to the end;
/// `vs` says whether decompressions inside events outgrew the output limit.
#[verifier::opaque]
pub open spec fn spec_replay_contents(
    b: Seq<u8>,
    version: u32,
    total_frames: u32,
    allow_unknown: bool,
    vs: Seq<OutputLimit>,
) -> Result<ReplayDataView, DecodeErrorView> {
    match spec_goal_markers(b, 0) {
        Err(e) => Err(e.0),
        Ok((goal_markers, at1)) => match spec_room_state(b, at1) {
            Err(e) => Err(e.0),
            Ok((room_data, at2)) => match spec_events(b, at2, 0, allow_unknown, vs, 0) {
                Err(e) => Err(e),
                Ok(events) => Ok(ReplayDataView { room_data, events, goal_markers, total_frames, version }),
            },
        },
    }
}

/// `r` reports the outcome `o`.
pub open spec fn replay_result_is(r: Result<ReplayData, DecodeError>, o: Result<ReplayDataView, DecodeErrorView>) -> bool {
    match o {
        Ok(v) => r matches Ok(x) && x@ == v,
        Err(e) => r matches Err(x) && x@ == e,
    }
}

/// The replay in the decompressed body `inflated` of a file with the given header fields.
pub fn parse_replay_contents(version: u32, total_frames: u32, inflated: &[u8], allow_unknown_event_types: bool) -> (r: Result<ReplayData, DecodeError>)
    ensures
        exists|vs: Seq<OutputLimit>| replay_result_is(r, #[trigger] spec_replay_contents(inflated@, version, total_frames, allow_unknown_event_types, vs)),
        r matches Err(e) ==> is_read_error(e@),
{
    reveal(spec_replay_contents);
    let mut reader = ReplayReader::new(inflated);
    let goal_markers = parse_goal_markers(&mut reader);
    let goal_markers = match goal_markers {
        Ok(m) => m,
        Err(e) => {
            assert(replay_result_is(Err(e), spec_replay_contents(inflated@, version, total_frames, allow_unknown_event_types, Seq::empty())));
            return Err(e);
        },
    };
    let room_data = match parse_room_state(&mut reader) {
        Ok(room) => room,
        Err(e) => {
            assert(replay_result_is(Err(e), spec_replay_contents(inflated@, version, total_frames, allow_unknown_event_types, Seq::empty())));
            return Err(e);
        },
    };
    let ghost at2 = reader@.cursor;
    let events = parse_events(&mut reader, allow_unknown_event_types);
    let ghost vs = choose|vs: Seq<OutputLimit>| match #[trigger] spec_events(inflated@, at2, 0, allow_unknown_event_types, vs, 0) {
        Ok(evs) => events matches Ok(x) && events_view(x@) == evs,
        Err(e) => events matches Err(x) && x@ == e,
    };
    let events = match events {
        Ok(evs) => evs,
        Err(e) => {
            assert(replay_result_is(Err(e), spec_replay_contents(inflated@, version, total_frames, allow_unknown_event_types, vs)));
            return Err(e);
        },
    };
    let replay = ReplayData { room_data, events, goal_markers, total_frames, version };
    assert(replay_result_is(Ok(replay), spec_replay_contents(inflated@, version, total_frames, allow_unknown_event_types, vs)));
    Ok(replay)
}

/// The four bytes every replay file starts with: `HBR2`.
pub open spec fn replay_magic() -> Seq<u8> {
    seq![0x48u8, 0x42u8, 0x52u8, 0x32u8]
}

/// A replay file: at least 12 header bytes, the signature `HBR2`, a 32-bit big-endian
/// version and total frame count, then the raw deflate body from byte 12 on; `v` says how
/// the decompression of the body outgrew the output limit and `vs` those inside events.
pub open spec fn spec_replay(
    bytes: Seq<u8>,
    allow_unknown: bool,
    v: OutputLimit,
    vs: Seq<OutputLimit>,
) -> Result<ReplayDataView, DecodeErrorView> {
    if bytes.len() < 12 {
        Err(eof_error("replay header"@))
    } else if bytes.subrange(0, 4) != replay_magic() {
        Err(DecodeErrorView::InvalidMagic { found: bytes.subrange(0, 4) })
    } else {
        match inflate_outcome(bytes.subrange(12, bytes.len() as int), v, "replay.packedContents"@) {
            Err(e) => Err(e),
            Ok(inflated) => spec_replay_contents(inflated, be32(bytes, 4) as u32, be32(bytes, 8) as u32, allow_unknown, vs),
        }
    }
}

fn header_u32(bytes: &[u8], at: usize) -> (v: u32)
    requires
        at + 4 <= bytes@.len(),
    ensures
        v == be32(bytes@, at as int) as u32,
{
    (bytes[at] as u32 * 256 + bytes[at + 1] as u32) * 65536 + (bytes[at + 2] as u32 * 256 + bytes[at + 3] as u32)
}

/// Reads a replay file; see [`spec_replay`].
pub fn parse_replay(bytes: &[u8], allow_unknown_event_types: bool) -> (r: Result<ReplayData, DecodeError>)
    ensures
        exists|v: OutputLimit, vs: Seq<OutputLimit>| replay_result_is(r, #[trigger] spec_replay(bytes@, allow_unknown_event_types, v, vs)),
        match decoded_replay(bytes@, allow_unknown_event_types) {
            Some(x) => r matches Ok(y) && y@ == x,
            None => r is Err,
        },
        r matches Err(e) ==> is_read_error(e@),
        r matches Ok(y) ==> (!allow_unknown_event_types ==> forall|k: int| 0 <= k < y@.events.len() ==> !(#[trigger] y@.events[k].payload is Unknown)),
{
    if bytes.len() < 12 {
        let r = Err(DecodeError::UnexpectedEof { context: String::from_str("replay header") });
        assert(replay_result_is(r, spec_replay(bytes@, allow_unknown_event_types, OutputLimit::Within, Seq::empty())));
        proof { lemma_decoded_replay(bytes@, allow_unknown_event_types, OutputLimit::Within, Seq::empty()); }
        return r;
    }
    let magic = [bytes[0], bytes[1], bytes[2], bytes[3]];
    if !(magic[0] == 0x48 && magic[1] == 0x42 && magic[2] == 0x52 && magic[3] == 0x32) {
        assert(bytes@.subrange(0, 4) =~= magic@);
        let r = Err(DecodeError::InvalidMagic { found: magic });
        assert(replay_result_is(r, spec_replay(bytes@, allow_unknown_event_types, OutputLimit::Within, Seq::empty())));
        proof { lemma_decoded_replay(bytes@, allow_unknown_event_types, OutputLimit::Within, Seq::empty()); }
        return r;
    }
    assert(bytes@.subrange(0, 4) =~= replay_magic());
    let version = header_u32(bytes, 4);
    let total_frames = header_u32(bytes, 8);
    let packed = &bytes[12..bytes.len()];
    let inflated = inflate_raw(packed, "replay.packedContents");
    let ghost v = choose|v: OutputLimit| bytes_result_is(inflated, inflate_outcome(packed@, v, "replay.packedContents"@));
    let inflated = match inflated {
        Ok(data) => data,
        Err(e) => {
            assert(replay_result_is(Err(e), spec_replay(bytes@, allow_unknown_event_types, v, Seq::empty())));
            proof { lemma_decoded_replay(bytes@, allow_unknown_event_types, v, Seq::empty()); }
            return Err(e);
        },
    };
    let r = parse_replay_contents(version, total_frames, inflated.as_slice(), allow_unknown_event_types);
    let ghost vs = choose|vs: Seq<OutputLimit>| replay_result_is(r, spec_replay_contents(inflated@, version, total_frames, allow_unknown_event_types, vs));
    assert(replay_result_is(r, spec_replay(bytes@, allow_unknown_event_types, v, vs)));
    proof {
        lemma_decoded_replay(bytes@, allow_unknown_event_types, v, vs);
        if !allow_unknown_event_types && r is Ok {
            lemma_replay_without_unknown(bytes@, v, vs);
        }
    }
    r
}

/// Frame numbers never decrease along a sequence.
pub open spec fn frames_nondecreasing(frames: Seq<u32>) -> bool {
    forall|j: int, k: int| 0 <= j <= k < frames.len() ==> frames[j] <= frames[k]
}

pub open spec fn marker_frames(markers: Seq<GoalMarker>) -> Seq<u32> {
    markers.map_values(|m: GoalMarker| m.frame_no)
}

pub open spec fn event_frames(events: Seq<ReplayEventView>) -> Seq<u32> {
    events.map_values(|e: ReplayEventView| e.frame_no)
}

/// Goal markers read from a replay come in the order of their frames: every delta is
/// added to the frame before.
pub proof fn lemma_marker_frames_nondecreasing(b: Seq<u8>, p: int, k: nat)
    requires
        spec_markers(b, p, k) is Ok,
    ensures
        frames_nondecreasing(marker_frames(spec_markers(b, p, k)->Ok_0.0)),
        spec_markers(b, p, k)->Ok_0.0.len() == k,
        forall|j: int| 0 <= j < k ==> #[trigger] spec_markers(b, p, k)->Ok_0.0[j].frame_no <= last_frame(spec_markers(b, p, k)->Ok_0.0),
    decreases k,
{
    if k > 0 {
        lemma_marker_frames_nondecreasing(b, p, (k - 1) as nat);
        let prev = spec_markers(b, p, (k - 1) as nat)->Ok_0.0;
        let ms = spec_markers(b, p, k)->Ok_0.0;
        assert(ms.subrange(0, k - 1) =~= prev);
        assert forall|j: int| 0 <= j < k implies #[trigger] ms[j].frame_no <= last_frame(ms) by {
            if j < k - 1 {
                assert(ms[j] == prev[j]);
            }
        }
        assert forall|j: int, m: int| 0 <= j <= m < ms.len() implies marker_frames(ms)[j] <= marker_frames(ms)[m] by {
            if m < k - 1 {
                assert(ms[j] == prev[j]);
                assert(ms[m] == prev[m]);
                assert(marker_frames(prev)[j] <= marker_frames(prev)[m]);
            } else if j < k - 1 {
                assert(ms[j] == prev[j]);
                assert(prev[j].frame_no <= last_frame(prev));
            }
        }
    }
}

/// One event read with [`spec_event`] is on `frame` plus its delta, so not before `frame`,
/// and a delta that would carry the frame past `u32::MAX` is an overflow error; a payload
/// of an unknown type takes the rest of the stream and is read only with permission.
pub proof fn lemma_event_facts(b: Seq<u8>, p: int, frame: u32, allow_unknown: bool, f: OutputLimit)
    ensures
        match spec_var_u32(b, p, "replay.events.delta"@) {
            Ok((delta, at1)) => frame + delta > u32::MAX ==> spec_event(b, p, frame, allow_unknown, f) == Err::<
                (ReplayEventView, int),
                (DecodeErrorView, int),
            >((DecodeErrorView::IntegerOverflow { context: "replay.events.frameNo"@ }, at1)),
            Err(_) => true,
        },
        spec_event(b, p, frame, allow_unknown, f) matches Ok((ev, at)) ==> {
            &&& spec_var_u32(b, p, "replay.events.delta"@) matches Ok((delta, _))
            &&& ev.frame_no == frame + delta
            &&& frame <= ev.frame_no
            &&& ev.payload is Unknown ==> at == b.len() && allow_unknown
        },
{
    reveal(spec_event);
    if let Ok((delta, at1)) = spec_var_u32(b, p, "replay.events.delta"@) {
        if let Ok((by_id, at2)) = spec_u16(b, at1, "replay.events.byId"@) {
            if let Ok((event_type, at3)) = spec_u8(b, at2, "replay.events.eventType"@) {
                if event_payload(b, at3, event_type, allow_unknown, f) matches Ok((pl, _)) && pl is Unknown {
                    lemma_unknown_payload_takes_rest(b, at3, event_type, allow_unknown, f);
                }
            }
        }
    }
}

/// Allowing unknown event types changes nothing for an event read without it.
pub proof fn lemma_event_allow_unknown(b: Seq<u8>, p: int, frame: u32, f: OutputLimit)
    ensures
        spec_event(b, p, frame, false, f) is Ok ==> spec_event(b, p, frame, true, f) == spec_event(b, p, frame, false, f),
{
    reveal(spec_event);
    if let Ok((delta, at1)) = spec_var_u32(b, p, "replay.events.delta"@) {
        if let Ok((by_id, at2)) = spec_u16(b, at1, "replay.events.byId"@) {
            if let Ok((event_type, at3)) = spec_u8(b, at2, "replay.events.eventType"@) {
                if event_payload(b, at3, event_type, false, f) is Ok {
                    lemma_allow_unknown_keeps_known(b, at3, event_type, f);
                }
            }
        }
    }
}

/// Whether one event is read, and what is read, does not depend on whether a
/// decompression in it outgrew the output limit.
pub proof fn lemma_event_limit_irrelevant(b: Seq<u8>, p: int, frame: u32, allow_unknown: bool, f: OutputLimit, g: OutputLimit)
    ensures
        spec_event(b, p, frame, allow_unknown, f) is Ok == spec_event(b, p, frame, allow_unknown, g) is Ok,
        spec_event(b, p, frame, allow_unknown, f) is Ok ==> spec_event(b, p, frame, allow_unknown, f) == spec_event(
            b,
            p,
            frame,
            allow_unknown,
            g,
        ),
{
    reveal(spec_event);
    if let Ok((delta, at1)) = spec_var_u32(b, p, "replay.events.delta"@) {
        if let Ok((by_id, at2)) = spec_u16(b, at1, "replay.events.byId"@) {
            if let Ok((event_type, at3)) = spec_u8(b, at2, "replay.events.eventType"@) {
                lemma_payload_limit_irrelevant(b, at3, event_type, allow_unknown, f, g);
            }
        }
    }
}

/// Events read from a replay come in the order of their frames, none before `frame`.
pub proof fn lemma_event_frames_nondecreasing(
    b: Seq<u8>,
    p: int,
    frame: u32,
    allow_unknown: bool,
    vs: Seq<OutputLimit>,
    i: nat,
)
    requires
        spec_events(b, p, frame, allow_unknown, vs, i) is Ok,
    ensures
        frames_nondecreasing(event_frames(spec_events(b, p, frame, allow_unknown, vs, i)->Ok_0)),
        forall|j: int| 0 <= j < spec_events(b, p, frame, allow_unknown, vs, i)->Ok_0.len()
            ==> frame <= #[trigger] spec_events(b, p, frame, allow_unknown, vs, i)->Ok_0[j].frame_no,
    decreases b.len() - p,
{
    if p < b.len() {
        lemma_event_facts(b, p, frame, allow_unknown, verdict_at(vs, i));
        let (ev, at4) = spec_event(b, p, frame, allow_unknown, verdict_at(vs, i))->Ok_0;
        let next = ev.frame_no;
        let evs = spec_events(b, p, frame, allow_unknown, vs, i)->Ok_0;
        if p < at4 <= b.len() {
            lemma_event_frames_nondecreasing(b, at4, next, allow_unknown, vs, i + 1);
            let rest = spec_events(b, at4, next, allow_unknown, vs, i + 1)->Ok_0;
            assert(evs.subrange(1, evs.len() as int) =~= rest);
            assert forall|j: int| 0 <= j < evs.len() implies next <= #[trigger] evs[j].frame_no by {
                if j > 0 {
                    assert(evs[j] == rest[j - 1]);
                }
            }
            assert forall|j: int, k: int| 0 <= j <= k < evs.len() implies event_frames(evs)[j] <= event_frames(evs)[k] by {
                if j > 0 {
                    assert(evs[j] == rest[j - 1]);
                    assert(evs[k] == rest[k - 1]);
                    assert(event_frames(rest)[j - 1] <= event_frames(rest)[k - 1]);
                } else {
                    assert(next <= evs[k].frame_no);
                }
            }
        }
    }
}

/// An event of an unknown type takes the rest of the stream, so it is the last event.
pub proof fn lemma_unknown_event_is_last(
    b: Seq<u8>,
    p: int,
    frame: u32,
    allow_unknown: bool,
    vs: Seq<OutputLimit>,
    i: nat,
    j: int,
)
    requires
        p <= b.len(),
        spec_events(b, p, frame, allow_unknown, vs, i) matches Ok(evs) && 0 <= j < evs.len() && evs[j].payload is Unknown,
    ensures
        j == spec_events(b, p, frame, allow_unknown, vs, i)->Ok_0.len() - 1,
    decreases b.len() - p,
{
    lemma_event_facts(b, p, frame, allow_unknown, verdict_at(vs, i));
    let (ev, at4) = spec_event(b, p, frame, allow_unknown, verdict_at(vs, i))->Ok_0;
    let evs = spec_events(b, p, frame, allow_unknown, vs, i)->Ok_0;
    if p < at4 <= b.len() && j > 0 {
        let rest = spec_events(b, at4, ev.frame_no, allow_unknown, vs, i + 1)->Ok_0;
        assert(evs[j] == rest[j - 1]);
        lemma_unknown_event_is_last(b, at4, ev.frame_no, allow_unknown, vs, i + 1, j - 1);
    }
}

/// Allowing unknown event types changes nothing for events that are read without it.
pub proof fn lemma_events_allow_unknown(b: Seq<u8>, p: int, frame: u32, vs: Seq<OutputLimit>, i: nat)
    requires
        spec_events(b, p, frame, false, vs, i) is Ok,
    ensures
        spec_events(b, p, frame, true, vs, i) == spec_events(b, p, frame, false, vs, i),
    decreases b.len() - p,
{
    if p < b.len() {
        lemma_event_facts(b, p, frame, false, verdict_at(vs, i));
        lemma_event_allow_unknown(b, p, frame, verdict_at(vs, i));
        let (ev, at4) = spec_event(b, p, frame, false, verdict_at(vs, i))->Ok_0;
        if p < at4 <= b.len() {
            lemma_events_allow_unknown(b, at4, ev.frame_no, vs, i + 1);
        }
    }
}

/// Whether the events are read, and what is read, does not depend on how failed
/// decompressions in them are reported.
pub proof fn lemma_events_limits_irrelevant(
    b: Seq<u8>,
    p: int,
    frame: u32,
    allow_unknown: bool,
    vs: Seq<OutputLimit>,
    ws: Seq<OutputLimit>,
    i: nat,
)
    requires
    ensures
        spec_events(b, p, frame, allow_unknown, vs, i) is Ok == spec_events(b, p, frame, allow_unknown, ws, i) is Ok,
        spec_events(b, p, frame, allow_unknown, vs, i) is Ok ==> spec_events(b, p, frame, allow_unknown, vs, i)
            == spec_events(b, p, frame, allow_unknown, ws, i),
    decreases b.len() - p,
{
    if p < b.len() {
        lemma_event_limit_irrelevant(b, p, frame, allow_unknown, verdict_at(vs, i), verdict_at(ws, i));
        if let Ok((ev, at4)) = spec_event(b, p, frame, allow_unknown, verdict_at(vs, i)) {
            if p < at4 <= b.len() {
                lemma_events_limits_irrelevant(b, at4, ev.frame_no, allow_unknown, vs, ws, i + 1);
            }
        }
    }
}

/// Without permission for unknown event types, no event read is of an unknown type.
pub proof fn lemma_events_without_unknown(b: Seq<u8>, p: int, frame: u32, vs: Seq<OutputLimit>, i: nat)
    requires
        spec_events(b, p, frame, false, vs, i) is Ok,
    ensures
        forall|k: int| 0 <= k < spec_events(b, p, frame, false, vs, i)->Ok_0.len()
            ==> !(#[trigger] spec_events(b, p, frame, false, vs, i)->Ok_0[k].payload is Unknown),
    decreases b.len() - p,
{
    if p < b.len() {
        lemma_event_facts(b, p, frame, false, verdict_at(vs, i));
        let (ev, at4) = spec_event(b, p, frame, false, verdict_at(vs, i))->Ok_0;
        let evs = spec_events(b, p, frame, false, vs, i)->Ok_0;
        if p < at4 <= b.len() {
            lemma_events_without_unknown(b, at4, ev.frame_no, vs, i + 1);
            let rest = spec_events(b, at4, ev.frame_no, false, vs, i + 1)->Ok_0;
            assert forall|k: int| 0 <= k < evs.len() implies !(#[trigger] evs[k].payload is Unknown) by {
                if k > 0 {
                    assert(evs[k] == rest[k - 1]);
                }
            }
        }
    }
}

/// Allowing unknown event types changes nothing for a replay that is read without it.
pub proof fn lemma_replay_allow_unknown(bytes: Seq<u8>, v: OutputLimit, vs: Seq<OutputLimit>)
    requires
        spec_replay(bytes, false, v, vs) is Ok,
    ensures
        spec_replay(bytes, true, v, vs) == spec_replay(bytes, false, v, vs),
{
    reveal(spec_replay_contents);
    let inflated = inflate_outcome(bytes.subrange(12, bytes.len() as int), v, "replay.packedContents"@)->Ok_0;
    let (markers, at1) = spec_goal_markers(inflated, 0)->Ok_0;
    let (room, at2) = spec_room_state(inflated, at1)->Ok_0;
    lemma_events_allow_unknown(inflated, at2, 0, vs, 0);
}

/// The goal markers and the events of a decoded replay are in the order of their frames.
pub proof fn lemma_replay_frames_nondecreasing(bytes: Seq<u8>, allow_unknown: bool, v: OutputLimit, vs: Seq<OutputLimit>)
    requires
        spec_replay(bytes, allow_unknown, v, vs) is Ok,
    ensures
        frames_nondecreasing(marker_frames(spec_replay(bytes, allow_unknown, v, vs)->Ok_0.goal_markers)),
        frames_nondecreasing(event_frames(spec_replay(bytes, allow_unknown, v, vs)->Ok_0.events)),
{
    reveal(spec_replay_contents);
    let inflated = inflate_outcome(bytes.subrange(12, bytes.len() as int), v, "replay.packedContents"@)->Ok_0;
    let (n, at0) = spec_u16(inflated, 0, "replay.goalMarkers.length"@)->Ok_0;
    lemma_marker_frames_nondecreasing(inflated, at0, n as nat);
    let (markers, at1) = spec_goal_markers(inflated, 0)->Ok_0;
    let (room, at2) = spec_room_state(inflated, at1)->Ok_0;
    lemma_event_frames_nondecreasing(inflated, at2, 0, allow_unknown, vs, 0);
}

/// Whether a replay is read, and what is read, does not depend on whether decompressions
/// outgrew the output limit.
pub proof fn lemma_replay_limits_irrelevant(
    bytes: Seq<u8>,
    allow_unknown: bool,
    v: OutputLimit,
    vs: Seq<OutputLimit>,
    w: OutputLimit,
    ws: Seq<OutputLimit>,
)
    ensures
        spec_replay(bytes, allow_unknown, v, vs) is Ok == spec_replay(bytes, allow_unknown, w, ws) is Ok,
        spec_replay(bytes, allow_unknown, v, vs) is Ok ==> spec_replay(bytes, allow_unknown, v, vs)
            == spec_replay(bytes, allow_unknown, w, ws),
{
    reveal(spec_replay_contents);
    if bytes.len() >= 12 && bytes.subrange(0, 4) == replay_magic() {
        let packed = bytes.subrange(12, bytes.len() as int);
        if inflates(packed) {
            let inflated = raw_inflate(packed)->Some_0;
            if let Ok((markers, at1)) = spec_goal_markers(inflated, 0) {
                if let Ok((room, at2)) = spec_room_state(inflated, at1) {
                    lemma_events_limits_irrelevant(inflated, at2, 0, allow_unknown, vs, ws, 0);
                }
            }
        }
    }
}

/// The replay that `bytes` decode to, when they decode; by
/// [`lemma_replay_limits_irrelevant`] this is so whatever the output limits say.
pub open spec fn decoded_replay(bytes: Seq<u8>, allow_unknown: bool) -> Option<ReplayDataView> {
    match spec_replay(bytes, allow_unknown, OutputLimit::Within, Seq::empty()) {
        Ok(r) => Some(r),
        Err(_) => None,
    }
}

/// A reading of `bytes`, whatever its output limits, succeeds exactly when `bytes` decode, and
/// then gives [`decoded_replay`].
pub proof fn lemma_decoded_replay(bytes: Seq<u8>, allow_unknown: bool, v: OutputLimit, vs: Seq<OutputLimit>)
    ensures
        match decoded_replay(bytes, allow_unknown) {
            Some(r) => spec_replay(bytes, allow_unknown, v, vs) == Ok::<ReplayDataView, DecodeErrorView>(r),
            None => spec_replay(bytes, allow_unknown, v, vs) is Err,
        },
{
    lemma_replay_limits_irrelevant(bytes, allow_unknown, v, vs, OutputLimit::Within, Seq::empty());
}

/// Without permission for unknown event types, no event of a decoded replay is of an
/// unknown type.
pub proof fn lemma_replay_without_unknown(bytes: Seq<u8>, v: OutputLimit, vs: Seq<OutputLimit>)
    requires
        spec_replay(bytes, false, v, vs) is Ok,
    ensures
        forall|k: int| 0 <= k < spec_replay(bytes, false, v, vs)->Ok_0.events.len()
            ==> !(#[trigger] spec_replay(bytes, false, v, vs)->Ok_0.events[k].payload is Unknown),
{
    reveal(spec_replay_contents);
    let inflated = inflate_outcome(bytes.subrange(12, bytes.len() as int), v, "replay.packedContents"@)->Ok_0;
    let (markers, at1) = spec_goal_markers(inflated, 0)->Ok_0;
    let (room, at2) = spec_room_state(inflated, at1)->Ok_0;
    lemma_events_without_unknown(inflated, at2, 0, vs, 0);
}

/// The header of a decoded replay file: it has at least 12 bytes and starts with the bytes
/// `H`, `B`, `R`, `2`; the version is the big-endian 32-bit number in bytes 4 to 7 and the
/// total frame count the one in bytes 8 to 11. A file shorter than 12 bytes, or with other
/// first four bytes, is refused with the matching error, whatever the rest holds.
pub proof fn lemma_replay_header(bytes: Seq<u8>, allow_unknown: bool, v: OutputLimit, vs: Seq<OutputLimit>)
    ensures
        bytes.len() < 12 ==> spec_replay(bytes, allow_unknown, v, vs) == Err::<ReplayDataView, DecodeErrorView>(eof_error("replay header"@)),
        bytes.len() >= 12 && !(bytes[0] == 0x48 && bytes[1] == 0x42 && bytes[2] == 0x52 && bytes[3] == 0x32)
            ==> spec_replay(bytes, allow_unknown, v, vs) == Err::<ReplayDataView, DecodeErrorView>(
                DecodeErrorView::InvalidMagic { found: bytes.subrange(0, 4) }),
        spec_replay(bytes, allow_unknown, v, vs) is Ok ==> ({
            let r = spec_replay(bytes, allow_unknown, v, vs)->Ok_0;
            &&& bytes.len() >= 12
            &&& bytes[0] == 0x48 && bytes[1] == 0x42 && bytes[2] == 0x52 && bytes[3] == 0x32
            &&& r.version == bytes[4] * 0x100_0000 + bytes[5] * 0x1_0000 + bytes[6] * 0x100 + bytes[7]
            &&& r.total_frames == bytes[8] * 0x100_0000 + bytes[9] * 0x1_0000 + bytes[10] * 0x100 + bytes[11]
        }),
{
    if bytes.len() >= 12 {
        let m = bytes.subrange(0, 4);
        if bytes[0] == 0x48 && bytes[1] == 0x42 && bytes[2] == 0x52 && bytes[3] == 0x32 {
            assert(m =~= replay_magic());
        } else {
            assert(m[0] == bytes[0] && m[1] == bytes[1] && m[2] == bytes[2] && m[3] == bytes[3]);
            assert(m != replay_magic());
        }
    }
    if spec_replay(bytes, allow_unknown, v, vs) is Ok {
        lemma_big_endian(bytes, 4);
        lemma_big_endian(bytes, 8);
        let inflated = inflate_outcome(bytes.subrange(12, bytes.len() as int), v, "replay.packedContents"@)->Ok_0;
        lemma_contents_header(inflated, be32(bytes, 4) as u32, be32(bytes, 8) as u32, allow_unknown, vs);
        assert(be32(bytes, 4) < 0x1_0000_0000 && be32(bytes, 8) < 0x1_0000_0000) by {
            lemma_be32_bound(bytes, 4);
            lemma_be32_bound(bytes, 8);
        }
    }
}

proof fn lemma_be32_bound(b: Seq<u8>, p: int)
    requires
        0 <= p,
        p + 4 <= b.len(),
    ensures
        be32(b, p) < 0x1_0000_0000,
{
    assert(b[p] < 256 && b[p + 1] < 256 && b[p + 2] < 256 && b[p + 3] < 256);
}

proof fn lemma_contents_header(b: Seq<u8>, version: u32, total_frames: u32, allow_unknown: bool, vs: Seq<OutputLimit>)
    ensures
        spec_replay_contents(b, version, total_frames, allow_unknown, vs) is Ok ==> {
            &&& spec_replay_contents(b, version, total_frames, allow_unknown, vs)->Ok_0.version == version
            &&& spec_replay_contents(b, version, total_frames, allow_unknown, vs)->Ok_0.total_frames == total_frames
        },
{
    reveal(spec_replay_contents);
}

/// Each goal marker's frame is the previous marker's frame (0 for the first) plus the
/// variable-length delta read after it, and its team is the byte right after the delta.
pub proof fn lemma_marker_step(b: Seq<u8>, p: int, k: nat)
    requires
        k > 0,
        spec_markers(b, p, k) is Ok,
    ensures
        ({
            let (prev, at) = spec_markers(b, p, (k - 1) as nat)->Ok_0;
            let (markers, end) = spec_markers(b, p, k)->Ok_0;
            let (delta, at2) = spec_var_u32(b, at, index_context("replay.goalMarkers"@, (k - 1) as nat) + ".delta"@)->Ok_0;
            &&& spec_markers(b, p, (k - 1) as nat) is Ok
            &&& spec_var_u32(b, at, index_context("replay.goalMarkers"@, (k - 1) as nat) + ".delta"@) is Ok
            &&& markers.len() == k
            &&& markers.subrange(0, k - 1) == prev
            &&& markers[k - 1].frame_no == (if k == 1 { 0 } else { prev[k - 2].frame_no as int }) + delta
            &&& markers[k - 1].team_id == b[at2]
            &&& end == at2 + 1
        }),
{
    lemma_markers_len(b, p, (k - 1) as nat);
    let (prev, at) = spec_markers(b, p, (k - 1) as nat)->Ok_0;
    let (markers, end) = spec_markers(b, p, k)->Ok_0;
    assert(markers.subrange(0, k - 1) =~= prev);
}

proof fn lemma_markers_len(b: Seq<u8>, p: int, k: nat)
    ensures
        spec_markers(b, p, k) is Ok ==> spec_markers(b, p, k)->Ok_0.0.len() == k,
    decreases k,
{
    if k > 0 {
        lemma_markers_len(b, p, (k - 1) as nat);
    }
}

} // verus!
