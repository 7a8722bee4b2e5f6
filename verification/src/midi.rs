//! Standard MIDI files: header inspection, note-table extraction, CSV note tables
//! and the event plan of a rebuilt file.

use vstd::prelude::*;
use crate::sort::{sort_by_key, stable_sort};
use midly::MidiMessage::{NoteOff, NoteOn};
use midly::Smf;
use midly::Timing::{Metrical, Timecode};
use midly::TrackEventKind::Midi;

verus! {

/// One note of a MIDI note table.
#[derive(Clone, Copy, Debug, PartialEq, Eq, Structural)]
pub struct MidiCsvRow {
    pub track: u16,
    pub channel: u8,
    pub note: u8,
    pub start_tick: u32,
    pub end_tick: u32,
    pub duration_tick: u32,
    pub velocity: u8,
}

/// What a track event does, as far as note tables are concerned.
#[derive(Clone, Copy, Debug, PartialEq, Eq, Structural)]
pub enum MidiEventKind {
    NoteOn { channel: u8, key: u8, vel: u8 },
    NoteOff { channel: u8, key: u8, vel: u8 },
    Other,
}

/// A track event and its delta time in ticks.
#[derive(Clone, Copy, Debug, PartialEq, Eq, Structural)]
pub struct MidiEvent {
    pub delta: u32,
    pub kind: MidiEventKind,
}

/// The parts of a parsed MIDI file that note tables use.
pub struct MidiFile {
    /// Ticks per quarter note for metrical timing; `None` for timecode timing.
    pub ticks_per_quarter: Option<u16>,
    pub tracks: Vec<Vec<MidiEvent>>,
}

impl MidiFile {
    /// The timing and the event sequences of this file.
    pub open spec fn model(&self) -> (Option<u16>, Seq<Seq<MidiEvent>>) {
        (self.ticks_per_quarter, self.tracks@.map_values(|t: Vec<MidiEvent>| t@))
    }
}

/// What `midly::Smf::parse` makes of a byte string, reduced to note events:
/// `None` when it rejects the bytes.
pub uninterp spec fn smf_model(bytes: Seq<u8>) -> Option<(Option<u16>, Seq<Seq<MidiEvent>>)>;

/// Declares `midly::TrackEvent` as an opaque type.
#[verifier::external_type_specification]
#[verifier::external_body]
pub struct ExTrackEvent<'a>(midly::TrackEvent<'a>);

/// Reads one `midly` track event: its delta time (`u28::as_int`), and the channel, key and
/// velocity (`as_int`) of a note-on or note-off; any other event is `Other`. Called only by
/// `parse_smf`, whose contract covers it.
#[verifier::external_body]
fn event_of(e: &midly::TrackEvent) -> MidiEvent {
    let kind = match e.kind {
        Midi { channel: c, message: NoteOn { key: k, vel: v } } => MidiEventKind::NoteOn { channel: c.as_int(), key: k.as_int(), vel: v.as_int() },
        Midi { channel: c, message: NoteOff { key: k, vel: v } } => MidiEventKind::NoteOff { channel: c.as_int(), key: k.as_int(), vel: v.as_int() },
        _ => MidiEventKind::Other,
    };
    MidiEvent { delta: e.delta.as_int(), kind }
}

/// Parses a Standard MIDI File with `midly::Smf::parse`, keeps the ticks per quarter note
/// of metrical timing, and reads every event of every track with `event_of`. The result is
/// what `smf_model` names for these bytes; the parse itself is not restated.
#[verifier::external_body]
pub(crate) fn parse_smf(bytes: &[u8]) -> (r: Option<MidiFile>)
    ensures
        match r {
            Some(f) => smf_model(bytes@) == Some(f.model()),
            None => smf_model(bytes@) is None,
        },
{
    let smf = Smf::parse(bytes).ok()?;
    let ticks = match smf.header.timing {
        Metrical(v) => Some(v.as_int()),
        Timecode(..) => None,
    };
    let tracks = smf.tracks.iter().map(|t| t.iter().map(event_of).collect()).collect();
    Some(MidiFile { ticks_per_quarter: ticks, tracks })
}

/// A sounding note waiting for its note-off.
#[derive(Clone, Copy, Debug, PartialEq, Eq, Structural)]
pub struct OpenNote {
    pub channel: u8,
    pub key: u8,
    pub start: u32,
    pub velocity: u8,
}

/// A tick count capped at `u32::MAX`.
pub open spec fn clamp_tick(t: int) -> u32 {
    if t > u32::MAX {
        u32::MAX
    } else {
        t as u32
    }
}

/// The table row of a note that started as `o` and ended at `end`.
pub open spec fn closed_row(track: u16, o: OpenNote, end: u32) -> MidiCsvRow {
    MidiCsvRow {
        track,
        channel: o.channel,
        note: o.key,
        start_tick: o.start,
        end_tick: end,
        duration_tick: if end >= o.start {
            (end - o.start) as u32
        } else {
            0
        },
        velocity: o.velocity,
    }
}

/// The position of the earliest open note on `channel` and `key`.
pub open spec fn first_open(open: Seq<OpenNote>, channel: u8, key: u8) -> Option<int>
    decreases open.len(),
{
    if open.len() == 0 {
        None
    } else {
        match first_open(open.drop_last(), channel, key) {
            Some(i) => Some(i),
            None => if open.last().channel == channel && open.last().key == key {
                Some(open.len() - 1)
            } else {
                None
            },
        }
    }
}

/// The state of reading a track: the current time, the open notes and the finished rows.
pub struct TrackScan {
    pub time: int,
    pub open: Seq<OpenNote>,
    pub rows: Seq<MidiCsvRow>,
}

/// Closes the earliest open note on `channel` and `key`, if any, at the current time.
pub open spec fn close_note(st: TrackScan, track: u16, channel: u8, key: u8) -> TrackScan {
    match first_open(st.open, channel, key) {
        Some(i) => TrackScan {
            time: st.time,
            open: st.open.remove(i),
            rows: st.rows.push(closed_row(track, st.open[i], clamp_tick(st.time))),
        },
        None => st,
    }
}

/// Reads one event: a sounding note-on opens a note; a silent note-on or a note-off
/// closes the earliest open note of the same channel and key.
pub open spec fn scan_event(st: TrackScan, ev: MidiEvent, track: u16) -> TrackScan {
    let st1 = TrackScan { time: st.time + ev.delta, open: st.open, rows: st.rows };
    match ev.kind {
        MidiEventKind::NoteOn { channel, key, vel } => if vel > 0 {
            TrackScan {
                time: st1.time,
                open: st1.open.push(OpenNote { channel, key, start: clamp_tick(st1.time), velocity: vel }),
                rows: st1.rows,
            }
        } else {
            close_note(st1, track, channel, key)
        },
        MidiEventKind::NoteOff { channel, key, vel } => close_note(st1, track, channel, key),
        MidiEventKind::Other => st1,
    }
}

/// The state after reading all of `events`.
pub open spec fn scan_track(events: Seq<MidiEvent>, track: u16) -> TrackScan
    decreases events.len(),
{
    if events.len() == 0 {
        TrackScan { time: 0, open: Seq::empty(), rows: Seq::empty() }
    } else {
        scan_event(scan_track(events.drop_last(), track), events.last(), track)
    }
}

/// The rows of a track: notes in the order they ended, then the notes still sounding
/// at the end of the track, closed at its last tick.
pub open spec fn track_rows(events: Seq<MidiEvent>, track: u16) -> Seq<MidiCsvRow> {
    let st = scan_track(events, track);
    st.rows + st.open.map_values(|o: OpenNote| closed_row(track, o, clamp_tick(st.time)))
}

/// The rows of every track, track after track.
pub open spec fn file_rows(tracks: Seq<Seq<MidiEvent>>) -> Seq<MidiCsvRow>
    decreases tracks.len(),
{
    if tracks.len() == 0 {
        Seq::empty()
    } else {
        file_rows(tracks.drop_last()) + track_rows(tracks.last(), (tracks.len() - 1) as u16)
    }
}

fn clamp_exec(t: u128) -> (r: u32)
    ensures
        r == clamp_tick(t as int),
{
    if t > u32::MAX as u128 {
        u32::MAX
    } else {
        t as u32
    }
}

fn find_open(open: &Vec<OpenNote>, channel: u8, key: u8) -> (r: Option<usize>)
    ensures
        match r {
            Some(i) => first_open(open@, channel, key) == Some(i as int),
            None => first_open(open@, channel, key) is None,
        },
{
    let mut i: usize = 0;
    while i < open.len()
        invariant
            i <= open.len(),
            first_open(open@.take(i as int), channel, key) is None,
        decreases open.len() - i,
    {
        assert(open@.take(i + 1).drop_last() =~= open@.take(i as int));
        if open[i].channel == channel && open[i].key == key {
            proof {
                lemma_first_open_prefix(open@, channel, key, i + 1);
            }
            return Some(i);
        }
        i += 1;
    }
    assert(open@.take(open.len() as int) =~= open@);
    None
}

proof fn lemma_first_open_prefix(s: Seq<OpenNote>, channel: u8, key: u8, n: int)
    requires
        0 < n <= s.len(),
        first_open(s.take(n - 1), channel, key) is None,
        s[n - 1].channel == channel && s[n - 1].key == key,
    ensures
        first_open(s, channel, key) == Some(n - 1),
    decreases s.len(),
{
    assert(s.take(n).drop_last() =~= s.take(n - 1));
    if n < s.len() {
        assert(s.drop_last().take(n) =~= s.take(n));
        assert(s.drop_last().take(n - 1) =~= s.take(n - 1));
        lemma_first_open_prefix(s.drop_last(), channel, key, n);
    } else {
        assert(s.take(n) =~= s);
        assert(s.drop_last() =~= s.take(n - 1));
    }
}

proof fn lemma_first_open_bounds(s: Seq<OpenNote>, channel: u8, key: u8)
    ensures
        first_open(s, channel, key) matches Some(i) ==> 0 <= i < s.len() && s[i].channel == channel
            && s[i].key == key,
    decreases s.len(),
{
    if s.len() > 0 {
        lemma_first_open_bounds(s.drop_last(), channel, key);
    }
}

fn row_of(track: u16, o: OpenNote, end: u32) -> (r: MidiCsvRow)
    ensures
        r == closed_row(track, o, end),
{
    MidiCsvRow {
        track,
        channel: o.channel,
        note: o.key,
        start_tick: o.start,
        end_tick: end,
        duration_tick: if end >= o.start {
            end - o.start
        } else {
            0
        },
        velocity: o.velocity,
    }
}

/// The note table of one track.
pub fn extract_track_rows(events: &Vec<MidiEvent>, track: u16) -> (rows: Vec<MidiCsvRow>)
    ensures
        rows@ == track_rows(events@, track),
{
    let mut time: u128 = 0;
    let mut open: Vec<OpenNote> = Vec::new();
    let mut rows: Vec<MidiCsvRow> = Vec::new();
    for i in 0..events.len()
        invariant
            time as int == scan_track(events@.take(i as int), track).time,
            time <= i * 0x1_0000_0000,
            open@ == scan_track(events@.take(i as int), track).open,
            rows@ == scan_track(events@.take(i as int), track).rows,
    {
        assert(events@.take(i + 1).drop_last() =~= events@.take(i as int));
        let ev = events[i];
        time = time + ev.delta as u128;
        let now = clamp_exec(time);
        match ev.kind {
            MidiEventKind::NoteOn { channel, key, vel } if vel > 0 => {
                open.push(OpenNote { channel, key, start: now, velocity: vel });
            },
            MidiEventKind::NoteOn { channel, key, .. } | MidiEventKind::NoteOff { channel, key, .. } => {
                if let Some(j) = find_open(&open, channel, key) {
                    proof {
                        lemma_first_open_bounds(open@, channel, key);
                    }
                    let o = open.remove(j);
                    rows.push(row_of(track, o, now));
                }
            },
            MidiEventKind::Other => {},
        }
    }
    assert(events@.take(events.len() as int) =~= events@);
    let end = clamp_exec(time);
    let ghost st = scan_track(events@, track);
    let ghost base = rows@;
    for k in 0..open.len()
        invariant
            base == st.rows,
            open@ == st.open,
            end == clamp_tick(st.time),
            rows@ == base + open@.take(k as int).map_values(|o: OpenNote| closed_row(track, o, end)),
    {
        rows.push(row_of(track, open[k], end));
        assert(open@.take(k + 1).map_values(|o: OpenNote| closed_row(track, o, end)) =~= open@.take(
            k as int,
        ).map_values(|o: OpenNote| closed_row(track, o, end)).push(closed_row(track, open@[k as int], end)));
    }
    assert(open@.take(open.len() as int) =~= open@);
    rows
}

/// The note table of a file, track after track.
pub fn extract_midi_rows(file: &MidiFile) -> (rows: Vec<MidiCsvRow>)
    ensures
        rows@ == file_rows(file.model().1),
{
    let ghost tracks = file.model().1;
    let mut rows: Vec<MidiCsvRow> = Vec::new();
    for t in 0..file.tracks.len()
        invariant
            tracks == file.model().1,
            rows@ == file_rows(tracks.take(t as int)),
    {
        let part = extract_track_rows(&file.tracks[t], t as u16);
        assert(tracks.take(t + 1).drop_last() =~= tracks.take(t as int));
        assert(tracks.take(t + 1).last() == file.tracks@[t as int]@);
        let ghost before = rows@;
        let mut k: usize = 0;
        while k < part.len()
            invariant
                k <= part.len(),
                rows@ == before + part@.take(k as int),
            decreases part.len() - k,
        {
            rows.push(part[k]);
            k += 1;
            assert(rows@ =~= before + part@.take(k as int));
        }
        assert(part@.take(part.len() as int) =~= part@);
    }
    assert(tracks.take(file.tracks.len() as int) =~= tracks);
    rows
}

/// Whether a row ends no earlier than it starts and lasts from its start to its end.
pub open spec fn row_consistent(r: MidiCsvRow) -> bool {
    r.end_tick >= r.start_tick && r.duration_tick == r.end_tick - r.start_tick
}

proof fn lemma_scan_consistent(events: Seq<MidiEvent>, track: u16)
    ensures
        scan_track(events, track).time >= 0,
        forall|k: int| 0 <= k < scan_track(events, track).open.len() ==> #[trigger] scan_track(events, track).open[k].start
            <= clamp_tick(scan_track(events, track).time),
        forall|k: int| 0 <= k < scan_track(events, track).rows.len() ==> row_consistent(
            #[trigger] scan_track(events, track).rows[k],
        ),
    decreases events.len(),
{
    if events.len() > 0 {
        let p = events.drop_last();
        lemma_scan_consistent(p, track);
        let st = scan_track(p, track);
        let ev = events.last();
        let st1 = TrackScan { time: st.time + ev.delta, open: st.open, rows: st.rows };
        assert(clamp_tick(st.time) <= clamp_tick(st1.time));
        match ev.kind {
            MidiEventKind::NoteOn { channel, key, vel } => {
                if vel == 0 {
                    lemma_close_consistent(st1, track, channel, key);
                }
            },
            MidiEventKind::NoteOff { channel, key, vel } => {
                lemma_close_consistent(st1, track, channel, key);
            },
            MidiEventKind::Other => {},
        }
    }
}

proof fn lemma_close_consistent(st: TrackScan, track: u16, channel: u8, key: u8)
    requires
        forall|k: int| 0 <= k < st.open.len() ==> #[trigger] st.open[k].start <= clamp_tick(st.time),
        forall|k: int| 0 <= k < st.rows.len() ==> row_consistent(#[trigger] st.rows[k]),
    ensures
        close_note(st, track, channel, key).time == st.time,
        forall|k: int| 0 <= k < close_note(st, track, channel, key).open.len() ==> #[trigger] close_note(
            st,
            track,
            channel,
            key,
        ).open[k].start <= clamp_tick(st.time),
        forall|k: int| 0 <= k < close_note(st, track, channel, key).rows.len() ==> row_consistent(
            #[trigger] close_note(st, track, channel, key).rows[k],
        ),
{
    lemma_first_open_bounds(st.open, channel, key);
    match first_open(st.open, channel, key) {
        Some(i) => {
            let o = st.open[i];
            assert(o.start <= clamp_tick(st.time));
            let r = close_note(st, track, channel, key);
            assert forall|k: int| 0 <= k < r.open.len() implies #[trigger] r.open[k].start <= clamp_tick(st.time) by {
                if k < i {
                    assert(r.open[k] == st.open[k]);
                } else {
                    assert(r.open[k] == st.open[k + 1]);
                }
            }
        },
        None => {},
    }
}

/// Every row read from a MIDI file ends no earlier than it starts and lasts from its
/// start to its end: note-offs and the end of a track never come before the note-on.
pub proof fn lemma_file_rows_consistent(tracks: Seq<Seq<MidiEvent>>)
    ensures
        forall|k: int| 0 <= k < file_rows(tracks).len() ==> row_consistent(#[trigger] file_rows(tracks)[k]),
    decreases tracks.len(),
{
    if tracks.len() > 0 {
        let p = tracks.drop_last();
        lemma_file_rows_consistent(p);
        let events = tracks.last();
        let track = (tracks.len() - 1) as u16;
        lemma_scan_consistent(events, track);
        let st = scan_track(events, track);
        let tail = st.open.map_values(|o: OpenNote| closed_row(track, o, clamp_tick(st.time)));
        let rows = track_rows(events, track);
        assert forall|k: int| 0 <= k < rows.len() implies row_consistent(#[trigger] rows[k]) by {
            if k < st.rows.len() {
                assert(rows[k] == st.rows[k]);
            } else {
                assert(rows[k] == tail[k - st.rows.len()]);
                assert(st.open[k - st.rows.len()].start <= clamp_tick(st.time));
            }
        }
        let all = file_rows(tracks);
        let before = file_rows(p);
        assert forall|k: int| 0 <= k < all.len() implies row_consistent(#[trigger] all[k]) by {
            if k < before.len() {
                assert(all[k] == before[k]);
            } else {
                assert(all[k] == rows[k - before.len()]);
            }
        }
    }
}

/// The sort key of a row: track, then start tick, then note.
pub open spec fn row_key(r: MidiCsvRow) -> u64 {
    ((r.track as int) * 0x100_0000_0000 + (r.start_tick as int) * 0x100 + (r.note as int)) as u64
}

/// The rows keyed for sorting.
pub open spec fn keyed_rows(rows: Seq<MidiCsvRow>) -> Seq<(u64, MidiCsvRow)> {
    rows.map_values(|r: MidiCsvRow| (row_key(r), r))
}

/// The rows sorted by track, start tick and note, equal rows keeping their order.
pub open spec fn sorted_rows(rows: Seq<MidiCsvRow>) -> Seq<MidiCsvRow> {
    sort_by_key(keyed_rows(rows)).map_values(|p: (u64, MidiCsvRow)| p.1)
}

/// Whether row `a` may come before row `b`: by track, then start tick, then note.
pub open spec fn row_le(a: MidiCsvRow, b: MidiCsvRow) -> bool {
    a.track < b.track || (a.track == b.track && (a.start_tick < b.start_tick || (a.start_tick == b.start_tick
        && a.note <= b.note)))
}

/// A sorted note table holds as many rows as the table, ordered by track, start tick and note.
pub proof fn lemma_sorted_rows_ordered(rows: Seq<MidiCsvRow>)
    ensures
        sorted_rows(rows).len() == rows.len(),
        forall|i: int, j: int| 0 <= i <= j < rows.len() ==> row_le(#[trigger] sorted_rows(rows)[i], #[trigger] sorted_rows(rows)[j]),
{
    broadcast use vstd::seq_lib::group_to_multiset_ensures;
    let keyed = keyed_rows(rows);
    crate::sort::lemma_sort_sorted(keyed);
    let sorted = sort_by_key(keyed);
    assert forall|k: int| 0 <= k < sorted.len() implies #[trigger] sorted[k].0 == row_key(sorted[k].1) by {
        assert(sorted.contains(sorted[k]));
        assert(sorted.to_multiset().count(sorted[k]) > 0);
        assert(keyed.contains(sorted[k]));
        let m = choose|m: int| 0 <= m < keyed.len() && keyed[m] == sorted[k];
        assert(keyed[m] == (row_key(rows[m]), rows[m]));
    }
    let out = sorted_rows(rows);
    assert forall|i: int, j: int| 0 <= i <= j < rows.len() implies row_le(#[trigger] out[i], #[trigger] out[j]) by {
        assert(sorted[i].0 <= sorted[j].0);
        assert(out[i] == sorted[i].1 && out[j] == sorted[j].1);
        let a = out[i];
        let b = out[j];
        assert(row_key(a) == a.track * 0x100_0000_0000 + a.start_tick * 0x100 + a.note);
        assert(row_key(b) == b.track * 0x100_0000_0000 + b.start_tick * 0x100 + b.note);
    }
}

/// Sorts rows by track, start tick and note; rows with equal keys keep their order.
pub fn sort_rows(rows: &Vec<MidiCsvRow>) -> (r: Vec<MidiCsvRow>)
    ensures
        r@ == sorted_rows(rows@),
{
    let mut keyed: Vec<(u64, MidiCsvRow)> = Vec::new();
    for i in 0..rows.len()
        invariant
            keyed@ == keyed_rows(rows@.take(i as int)),
    {
        let row = rows[i];
        let key: u64 = (row.track as u64) * 0x100_0000_0000 + (row.start_tick as u64) * 0x100 + (row.note as u64);
        keyed.push((key, row));
        assert(keyed_rows(rows@.take(i + 1)) =~= keyed_rows(rows@.take(i as int)).push((row_key(row), row)));
    }
    assert(rows@.take(rows.len() as int) =~= rows@);
    let sorted = stable_sort(keyed);
    let mut r: Vec<MidiCsvRow> = Vec::new();
    for i in 0..sorted.len()
        invariant
            r@ == sorted@.take(i as int).map_values(|p: (u64, MidiCsvRow)| p.1),
    {
        r.push(sorted[i].1);
        assert(sorted@.take(i + 1).map_values(|p: (u64, MidiCsvRow)| p.1) =~= sorted@.take(i as int).map_values(
            |p: (u64, MidiCsvRow)| p.1,
        ).push(sorted@[i as int].1));
    }
    assert(sorted@.take(sorted.len() as int) =~= sorted@);
    r
}

} // verus!
