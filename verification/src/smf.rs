//! Rebuilding a Standard MIDI File from a note table: the event plan and its encoding.

use vstd::prelude::*;
use crate::midi::MidiCsvRow;
use crate::sort::{sort_by_key, stable_sort};
use midly::MetaMessage::EndOfTrack;
use midly::MidiMessage::{NoteOff, NoteOn};
use midly::Timing::Metrical;
use midly::TrackEventKind::{Meta, Midi};
use midly::{Format, Header, TrackEvent};

verus! {

/// The format field of a rebuilt file.
#[derive(Clone, Copy, Debug, PartialEq, Eq, Structural)]
pub enum SmfFormat {
    SingleTrack,
    Parallel,
}

/// One event of a rebuilt track, with its delta time in ticks. Note events carry their
/// channel (at most 15), key and velocity (at most 127; 0 for a note-off).
#[derive(Clone, Copy, Debug, PartialEq, Eq, Structural)]
pub enum PlannedEvent {
    NoteOn { delta: u32, channel: u8, key: u8, vel: u8 },
    NoteOff { delta: u32, channel: u8, key: u8, vel: u8 },
    EndOfTrack { delta: u32 },
}

/// The header and tracks of a rebuilt file.
pub struct SmfPlan {
    pub format: SmfFormat,
    /// Ticks per quarter note, at least 1.
    pub ticks_per_quarter: u16,
    pub tracks: Vec<Vec<PlannedEvent>>,
}

impl SmfPlan {
    pub open spec fn model(&self) -> (SmfFormat, u16, Seq<Seq<PlannedEvent>>) {
        (self.format, self.ticks_per_quarter, self.tracks@.map_values(|t: Vec<PlannedEvent>| t@))
    }
}

/// A note boundary placed in time: a note-on at the start tick or a note-off at the end tick.
#[derive(Clone, Copy, Debug, PartialEq, Eq, Structural)]
pub struct TimedEvent {
    pub tick: u32,
    pub channel: u8,
    pub note: u8,
    pub velocity: u8,
    pub on: bool,
}

/// The sort key of an event: by tick, a note-off before a note-on at the same tick.
pub open spec fn event_key(e: TimedEvent) -> u64 {
    (e.tick as int * 2 + if e.on {
        1int
    } else {
        0int
    }) as u64
}

/// The two events of a row: its note-on and its note-off (velocity 0).
pub open spec fn row_events(r: MidiCsvRow) -> Seq<(u64, TimedEvent)> {
    let on = TimedEvent { tick: r.start_tick, channel: r.channel, note: r.note, velocity: r.velocity, on: true };
    let off = TimedEvent { tick: r.end_tick, channel: r.channel, note: r.note, velocity: 0, on: false };
    seq![(event_key(on), on), (event_key(off), off)]
}

/// The keyed events of the rows, row after row.
pub open spec fn timed_events(rows: Seq<MidiCsvRow>) -> Seq<(u64, TimedEvent)>
    decreases rows.len(),
{
    if rows.len() == 0 {
        Seq::empty()
    } else {
        timed_events(rows.drop_last()) + row_events(rows.last())
    }
}

pub open spec fn min_u8(a: u8, b: u8) -> u8 {
    if a < b {
        a
    } else {
        b
    }
}

/// The planned form of an event that follows an event at tick `prev`.
pub open spec fn planned_event(e: TimedEvent, prev: u32) -> PlannedEvent {
    let delta = if e.tick >= prev {
        (e.tick - prev) as u32
    } else {
        0u32
    };
    if e.on {
        PlannedEvent::NoteOn { delta, channel: min_u8(e.channel, 15), key: min_u8(e.note, 127), vel: min_u8(e.velocity, 127) }
    } else {
        PlannedEvent::NoteOff { delta, channel: min_u8(e.channel, 15), key: min_u8(e.note, 127), vel: 0 }
    }
}

/// Events in time order turned into delta-timed events, the first measured from tick 0.
pub open spec fn plan_events(evs: Seq<TimedEvent>) -> Seq<PlannedEvent> {
    Seq::new(evs.len(), |i: int| planned_event(evs[i], if i == 0 {
        0u32
    } else {
        evs[i - 1].tick
    }))
}

/// The events of one track: the notes' events in time order (a note-off with velocity 0),
/// then the end of the track with delta 0.
pub open spec fn track_plan(rows: Seq<MidiCsvRow>) -> Seq<PlannedEvent> {
    plan_events(sort_by_key(timed_events(rows)).map_values(|p: (u64, TimedEvent)| p.1)).push(
        PlannedEvent::EndOfTrack { delta: 0 },
    )
}

/// The rows of track `t`, in order.
pub open spec fn rows_of_track(rows: Seq<MidiCsvRow>, t: u16) -> Seq<MidiCsvRow>
    decreases rows.len(),
{
    if rows.len() == 0 {
        Seq::empty()
    } else if rows.last().track == t {
        rows_of_track(rows.drop_last(), t).push(rows.last())
    } else {
        rows_of_track(rows.drop_last(), t)
    }
}

/// `s` with `x` added, kept ascending and without repeats.
pub open spec fn insert_ascending(s: Seq<u16>, x: u16) -> Seq<u16>
    decreases s.len(),
{
    if s.len() == 0 {
        seq![x]
    } else if x == s[0] {
        s
    } else if x < s[0] {
        seq![x] + s
    } else {
        seq![s[0]] + insert_ascending(s.drop_first(), x)
    }
}

/// The track numbers used by the rows, ascending, each once.
pub open spec fn track_ids(rows: Seq<MidiCsvRow>) -> Seq<u16>
    decreases rows.len(),
{
    if rows.len() == 0 {
        Seq::empty()
    } else {
        insert_ascending(track_ids(rows.drop_last()), rows.last().track)
    }
}

/// The tracks of the rebuilt file: one per track number used, in ascending order; a
/// single empty track when there are no rows.
pub open spec fn plan_tracks(rows: Seq<MidiCsvRow>) -> Seq<Seq<PlannedEvent>> {
    let ids = track_ids(rows);
    if ids.len() == 0 {
        seq![seq![PlannedEvent::EndOfTrack { delta: 0 }]]
    } else {
        ids.map_values(|t: u16| track_plan(rows_of_track(rows, t)))
    }
}

/// The whole plan: parallel format when there is more than one track, and a resolution
/// of at least one tick per quarter note.
pub open spec fn plan_of(rows: Seq<MidiCsvRow>, ticks_per_quarter: u16) -> (SmfFormat, u16, Seq<Seq<PlannedEvent>>) {
    let tracks = plan_tracks(rows);
    (
        if tracks.len() > 1 {
            SmfFormat::Parallel
        } else {
            SmfFormat::SingleTrack
        },
        if ticks_per_quarter == 0 {
            1u16
        } else {
            ticks_per_quarter
        },
        tracks,
    )
}

proof fn lemma_cons_contains(a: u16, s: Seq<u16>, y: u16)
    ensures
        (seq![a] + s).contains(y) <==> (y == a || s.contains(y)),
{
    let c = seq![a] + s;
    if c.contains(y) && y != a {
        let k = choose|k: int| 0 <= k < c.len() && c[k] == y;
        assert(s[k - 1] == y);
    }
    if s.contains(y) {
        let m = choose|m: int| 0 <= m < s.len() && s[m] == y;
        assert(c[m + 1] == y);
    }
    if y == a {
        assert(c[0] == y);
    }
}

proof fn lemma_insert_ascending(s: Seq<u16>, x: u16)
    requires
        forall|i: int, j: int| 0 <= i < j < s.len() ==> s[i] < s[j],
    ensures
        forall|i: int, j: int|
            0 <= i < j < insert_ascending(s, x).len() ==> insert_ascending(s, x)[i] < insert_ascending(s, x)[j],
        forall|y: u16| insert_ascending(s, x).contains(y) <==> (s.contains(y) || y == x),
    decreases s.len(),
{
    if s.len() == 0 {
        assert forall|y: u16| insert_ascending(s, x).contains(y) <==> (s.contains(y) || y == x) by {
            lemma_cons_contains(x, s, y);
            assert(seq![x] + s =~= seq![x]);
        }
    } else {
        let t = s.drop_first();
        assert(s =~= seq![s[0]] + t);
        if x == s[0] {
            assert forall|y: u16| insert_ascending(s, x).contains(y) <==> (s.contains(y) || y == x) by {
                lemma_cons_contains(s[0], t, y);
            }
        } else if x < s[0] {
            assert forall|y: u16| insert_ascending(s, x).contains(y) <==> (s.contains(y) || y == x) by {
                lemma_cons_contains(x, s, y);
            }
            assert forall|i: int, j: int| 0 <= i < j < (seq![x] + s).len() implies (seq![x] + s)[i] < (
            seq![x] + s)[j] by {
                if i == 0 && j > 1 {
                    assert(s[0] < s[j - 1]);
                }
            }
        } else {
            lemma_insert_ascending(t, x);
            let r = insert_ascending(t, x);
            assert forall|y: u16| insert_ascending(s, x).contains(y) <==> (s.contains(y) || y == x) by {
                lemma_cons_contains(s[0], r, y);
                lemma_cons_contains(s[0], t, y);
            }
            assert forall|y: u16| r.contains(y) implies s[0] < y by {
                if t.contains(y) {
                    let m = choose|m: int| 0 <= m < t.len() && t[m] == y;
                    assert(s[0] < s[m + 1]);
                }
            }
            assert forall|i: int, j: int| 0 <= i < j < (seq![s[0]] + r).len() implies (seq![s[0]] + r)[i] < (
            seq![s[0]] + r)[j] by {
                if i == 0 {
                    assert(r.contains(r[j - 1]));
                }
            }
        }
    }
}

/// Every track of a rebuilt file ends with a single end-of-track event of delta 0, and
/// every note-off in it has velocity 0.
pub proof fn lemma_plan_tracks_shape(rows: Seq<MidiCsvRow>, ticks_per_quarter: u16)
    ensures
        forall|t: int| 0 <= t < plan_of(rows, ticks_per_quarter).2.len() ==> {
            let tr = #[trigger] plan_of(rows, ticks_per_quarter).2[t];
            &&& tr.len() >= 1
            &&& tr.last() == PlannedEvent::EndOfTrack { delta: 0 }
            &&& forall|i: int| 0 <= i < tr.len() - 1 ==> !(#[trigger] tr[i] is EndOfTrack)
            &&& forall|i: int| 0 <= i < tr.len() ==> (#[trigger] tr[i] matches PlannedEvent::NoteOff { vel, .. } ==> vel == 0)
        },
{
    let tracks = plan_of(rows, ticks_per_quarter).2;
    assert forall|t: int| 0 <= t < tracks.len() implies {
        let tr = #[trigger] tracks[t];
        &&& tr.len() >= 1
        &&& tr.last() == PlannedEvent::EndOfTrack { delta: 0 }
        &&& forall|i: int| 0 <= i < tr.len() - 1 ==> !(#[trigger] tr[i] is EndOfTrack)
        &&& forall|i: int| 0 <= i < tr.len() ==> (#[trigger] tr[i] matches PlannedEvent::NoteOff { vel, .. } ==> vel == 0)
    } by {
        let ids = track_ids(rows);
        if ids.len() > 0 {
            let evs = sort_by_key(timed_events(rows_of_track(rows, ids[t]))).map_values(|p: (u64, TimedEvent)| p.1);
            let body = plan_events(evs);
            assert(tracks[t] == body.push(PlannedEvent::EndOfTrack { delta: 0 }));
            assert forall|i: int| 0 <= i < body.len() implies !(#[trigger] body[i] is EndOfTrack) && (body[i] matches PlannedEvent::NoteOff { vel, .. } ==> vel == 0) by {
                assert(body[i] == planned_event(evs[i], if i == 0 { 0u32 } else { evs[i - 1].tick }));
            }
        }
    }
}

/// The ids used by the rows are ascending, without repeats, and are exactly the tracks used.
pub proof fn lemma_track_ids(rows: Seq<MidiCsvRow>)
    ensures
        forall|i: int, j: int| 0 <= i < j < track_ids(rows).len() ==> track_ids(rows)[i] < track_ids(rows)[j],
        forall|t: u16| track_ids(rows).contains(t) <==> (exists|k: int| 0 <= k < rows.len() && #[trigger] rows[k].track == t),
    decreases rows.len(),
{
    if rows.len() > 0 {
        let p = rows.drop_last();
        lemma_track_ids(p);
        lemma_insert_ascending(track_ids(p), rows.last().track);
        assert forall|t: u16| track_ids(rows).contains(t) <==> (exists|k: int| 0 <= k < rows.len() && #[trigger] rows[k].track == t) by {
            if exists|k: int| 0 <= k < rows.len() && #[trigger] rows[k].track == t {
                let k = choose|k: int| 0 <= k < rows.len() && #[trigger] rows[k].track == t;
                if k < rows.len() - 1 {
                    assert(p[k].track == t);
                    assert(track_ids(p).contains(t));
                }
            }
            if exists|k: int| 0 <= k < p.len() && #[trigger] p[k].track == t {
                let k = choose|k: int| 0 <= k < p.len() && #[trigger] p[k].track == t;
                assert(rows[k].track == t);
            }
            if track_ids(p).contains(t) {
                let k = choose|k: int| 0 <= k < p.len() && #[trigger] p[k].track == t;
                assert(rows[k].track == t);
            }
            if t == rows.last().track {
                assert(rows[rows.len() - 1].track == t);
            }
        }
    }
}

fn insert_id(ids: &mut Vec<u16>, x: u16)
    ensures
        final(ids)@ == insert_ascending(old(ids)@, x),
{
    let ghost s = ids@;
    let mut i: usize = 0;
    assert(s.skip(0) =~= s);
    assert(s.take(0) + insert_ascending(s, x) =~= insert_ascending(s, x));
    while i < ids.len() && ids[i] < x
        invariant
            i <= ids.len(),
            ids@ == s,
            insert_ascending(s, x) == s.take(i as int) + insert_ascending(s.skip(i as int), x),
        decreases ids.len() - i,
    {
        proof {
            let t = s.skip(i as int);
            assert(t.drop_first() =~= s.skip(i + 1));
            assert(t[0] == s[i as int]);
            assert(s.take(i + 1) =~= s.take(i as int) + seq![s[i as int]]);
        }
        i += 1;
    }
    assert(s.skip(i as int).len() == 0 ==> insert_ascending(s.skip(i as int), x) == seq![x]);
    if i < ids.len() && ids[i] == x {
        assert(s.take(i as int) + s.skip(i as int) =~= s);
    } else {
        ids.insert(i, x);
        assert(ids@ =~= s.take(i as int) + (seq![x] + s.skip(i as int)));
    }
}

fn ids_of(rows: &Vec<MidiCsvRow>) -> (ids: Vec<u16>)
    ensures
        ids@ == track_ids(rows@),
{
    let mut ids: Vec<u16> = Vec::new();
    for i in 0..rows.len()
        invariant
            ids@ == track_ids(rows@.take(i as int)),
    {
        assert(rows@.take(i + 1).drop_last() =~= rows@.take(i as int));
        insert_id(&mut ids, rows[i].track);
    }
    assert(rows@.take(rows.len() as int) =~= rows@);
    ids
}

fn select_track(rows: &Vec<MidiCsvRow>, t: u16) -> (r: Vec<MidiCsvRow>)
    ensures
        r@ == rows_of_track(rows@, t),
{
    let mut r: Vec<MidiCsvRow> = Vec::new();
    for i in 0..rows.len()
        invariant
            r@ == rows_of_track(rows@.take(i as int), t),
    {
        assert(rows@.take(i + 1).drop_last() =~= rows@.take(i as int));
        if rows[i].track == t {
            r.push(rows[i]);
        }
    }
    assert(rows@.take(rows.len() as int) =~= rows@);
    r
}

fn keyed_events(rows: &Vec<MidiCsvRow>) -> (r: Vec<(u64, TimedEvent)>)
    ensures
        r@ == timed_events(rows@),
{
    let mut r: Vec<(u64, TimedEvent)> = Vec::new();
    for i in 0..rows.len()
        invariant
            r@ == timed_events(rows@.take(i as int)),
    {
        let row = rows[i];
        assert(rows@.take(i + 1).drop_last() =~= rows@.take(i as int));
        let on = TimedEvent { tick: row.start_tick, channel: row.channel, note: row.note, velocity: row.velocity, on: true };
        let off = TimedEvent { tick: row.end_tick, channel: row.channel, note: row.note, velocity: 0, on: false };
        r.push((row.start_tick as u64 * 2 + 1, on));
        r.push((row.end_tick as u64 * 2, off));
        assert(r@ =~= timed_events(rows@.take(i as int)) + row_events(row));
    }
    assert(rows@.take(rows.len() as int) =~= rows@);
    r
}

fn min8(a: u8, b: u8) -> (r: u8)
    ensures
        r == min_u8(a, b),
{
    if a < b {
        a
    } else {
        b
    }
}

fn plan_event(e: TimedEvent, prev: u32) -> (p: PlannedEvent)
    ensures
        p == planned_event(e, prev),
{
    let delta = if e.tick >= prev {
        e.tick - prev
    } else {
        0
    };
    if e.on {
        PlannedEvent::NoteOn { delta, channel: min8(e.channel, 15), key: min8(e.note, 127), vel: min8(e.velocity, 127) }
    } else {
        PlannedEvent::NoteOff { delta, channel: min8(e.channel, 15), key: min8(e.note, 127), vel: 0 }
    }
}

/// The events of one track (see `track_plan`).
pub fn build_track(rows: &Vec<MidiCsvRow>) -> (r: Vec<PlannedEvent>)
    ensures
        r@ == track_plan(rows@),
{
    let sorted = stable_sort(keyed_events(rows));
    let ghost evs = sorted@.map_values(|p: (u64, TimedEvent)| p.1);
    let mut r: Vec<PlannedEvent> = Vec::new();
    let mut prev: u32 = 0;
    for i in 0..sorted.len()
        invariant
            evs == sorted@.map_values(|p: (u64, TimedEvent)| p.1),
            r@ == plan_events(evs).take(i as int),
            prev == (if i == 0 {
                0u32
            } else {
                evs[i - 1].tick
            }),
    {
        let e = sorted[i].1;
        r.push(plan_event(e, prev));
        prev = e.tick;
        assert(r@ =~= plan_events(evs).take(i + 1));
    }
    assert(plan_events(evs).take(sorted.len() as int) =~= plan_events(evs));
    r.push(PlannedEvent::EndOfTrack { delta: 0 });
    r
}

/// The event plan of the file rebuilt from `rows` (see `plan_of`): one track per track
/// number, in ascending order, each holding its notes' on and off events in time order
/// (offs before ons at the same tick, otherwise in row order) and an end-of-track event.
pub fn build_smf(rows: &Vec<MidiCsvRow>, ticks_per_quarter: u16) -> (plan: SmfPlan)
    ensures
        plan.model() == plan_of(rows@, ticks_per_quarter),
        plan.ticks_per_quarter >= 1,
{
    let ids = ids_of(rows);
    let mut tracks: Vec<Vec<PlannedEvent>> = Vec::new();
    for k in 0..ids.len()
        invariant
            ids@ == track_ids(rows@),
            tracks@.map_values(|t: Vec<PlannedEvent>| t@) == ids@.take(k as int).map_values(
                |t: u16| track_plan(rows_of_track(rows@, t)),
            ),
    {
        let part = select_track(rows, ids[k]);
        let events = build_track(&part);
        let ghost before = tracks@;
        tracks.push(events);
        assert(tracks@.map_values(|t: Vec<PlannedEvent>| t@) =~= before.map_values(|t: Vec<PlannedEvent>| t@).push(
            events@,
        ));
        assert(ids@.take(k + 1).map_values(|t: u16| track_plan(rows_of_track(rows@, t))) =~= ids@.take(
            k as int,
        ).map_values(|t: u16| track_plan(rows_of_track(rows@, t))).push(track_plan(rows_of_track(rows@, ids@[k as int]))));
    }
    assert(ids@.take(ids.len() as int) =~= ids@);
    if tracks.len() == 0 {
        let mut only: Vec<PlannedEvent> = Vec::new();
        only.push(PlannedEvent::EndOfTrack { delta: 0 });
        tracks.push(only);
        assert(tracks@.map_values(|t: Vec<PlannedEvent>| t@) =~= seq![seq![PlannedEvent::EndOfTrack { delta: 0 }]]);
    }
    let format = if tracks.len() > 1 {
        SmfFormat::Parallel
    } else {
        SmfFormat::SingleTrack
    };
    let tpq = if ticks_per_quarter == 0 {
        1
    } else {
        ticks_per_quarter
    };
    SmfPlan { format, ticks_per_quarter: tpq, tracks }
}

/// What `midly::write` produces for a file with this header and these tracks, note
/// events and end-of-track events built as `encode_smf` builds them: `None` when it
/// reports an error.
pub uninterp spec fn smf_encoding(format: SmfFormat, ticks_per_quarter: u16, tracks: Seq<Seq<PlannedEvent>>) -> Option<Seq<u8>>;

/// Builds the `midly` track event of a planned event: `u28::from` the delta, `u4::from`
/// the channel, `u7::from` key and velocity, and a note-on, note-off or end-of-track
/// message. Called only by `encode_smf`, whose contract covers it.
#[verifier::external_body]
fn midly_event(p: &PlannedEvent) -> midly::TrackEvent<'static> {
    match *p {
        PlannedEvent::NoteOn { delta, channel, key, vel } => TrackEvent { delta: delta.into(), kind: Midi { channel: channel.into(), message: NoteOn { key: key.into(), vel: vel.into() } } },
        PlannedEvent::NoteOff { delta, channel, key, vel } => TrackEvent { delta: delta.into(), kind: Midi { channel: channel.into(), message: NoteOff { key: key.into(), vel: vel.into() } } },
        PlannedEvent::EndOfTrack { delta } => TrackEvent { delta: delta.into(), kind: Meta(EndOfTrack) },
    }
}

/// Encodes a plan with `midly::write` into a byte vector: a header of the plan's format
/// and metrical timing of `u15::from(ticks_per_quarter)`, and every event of every track
/// built by `midly_event`. The result is what `smf_encoding` names for the plan; `None`
/// when the writer reports an error.
#[verifier::external_body]
pub(crate) fn encode_smf(plan: &SmfPlan) -> (r: Option<Vec<u8>>)
    ensures
        match r {
            Some(b) => smf_encoding(plan.model().0, plan.model().1, plan.model().2) == Some(b@),
            None => smf_encoding(plan.model().0, plan.model().1, plan.model().2) is None,
        },
{
    let format = match plan.format {
        SmfFormat::SingleTrack => Format::SingleTrack,
        SmfFormat::Parallel => Format::Parallel,
    };
    let tracks: Vec<Vec<TrackEvent>> = plan.tracks.iter().map(|t| t.iter().map(midly_event).collect()).collect();
    let mut out: Vec<u8> = Vec::new();
    midly::write(&Header::new(format, Metrical(plan.ticks_per_quarter.into())), &tracks, &mut out).ok()?;
    Some(out)
}

} // verus!
