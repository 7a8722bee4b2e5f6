//! Note onsets of a MIDI file, as the input of timing and key estimates.

use vstd::prelude::*;
use crate::midi::{parse_smf, smf_model, MidiEvent, MidiEventKind, MidiFile};

verus! {

/// The time, in ticks, of event `n - 1` of a track (the sum of the first `n` deltas).
pub open spec fn tick_after(events: Seq<MidiEvent>, n: int) -> int
    decreases n,
{
    if n <= 0 {
        0
    } else {
        tick_after(events, n - 1) + events[n - 1].delta
    }
}

/// The sounding note-ons among the first `n` events of a track, as (key, tick).
pub open spec fn track_onsets(events: Seq<MidiEvent>, n: int) -> Seq<(u8, int)>
    decreases n,
{
    if n <= 0 {
        Seq::empty()
    } else {
        let prev = track_onsets(events, n - 1);
        match events[n - 1].kind {
            MidiEventKind::NoteOn { channel, key, vel } => if vel > 0 {
                prev.push((key, tick_after(events, n)))
            } else {
                prev
            },
            _ => prev,
        }
    }
}

/// The sounding note-ons of every track, track after track.
pub open spec fn file_onsets(tracks: Seq<Seq<MidiEvent>>) -> Seq<(u8, int)>
    decreases tracks.len(),
{
    if tracks.len() == 0 {
        Seq::empty()
    } else {
        file_onsets(tracks.drop_last()) + track_onsets(tracks.last(), tracks.last().len() as int)
    }
}

proof fn lemma_tick_bound(events: Seq<MidiEvent>, n: int)
    requires
        0 <= n,
    ensures
        0 <= tick_after(events, n) <= n * 0x1_0000_0000,
    decreases n,
{
    if n > 0 {
        lemma_tick_bound(events, n - 1);
    }
}

/// The onsets of one file: each sounding note-on's key and tick, track after track.
pub fn note_onsets(file: &MidiFile) -> (r: Vec<(u8, u128)>)
    ensures
        r@.map_values(|p: (u8, u128)| (p.0, p.1 as int)) == file_onsets(file.model().1),
{
    let ghost tracks = file.model().1;
    let mut r: Vec<(u8, u128)> = Vec::new();
    for t in 0..file.tracks.len()
        invariant
            tracks == file.model().1,
            r@.map_values(|p: (u8, u128)| (p.0, p.1 as int)) == file_onsets(tracks.take(t as int)),
    {
        let events = &file.tracks[t];
        assert(tracks.take(t + 1).drop_last() =~= tracks.take(t as int));
        assert(tracks.take(t + 1).last() == events@);
        let ghost base = r@.map_values(|p: (u8, u128)| (p.0, p.1 as int));
        let mut time: u128 = 0;
        for i in 0..events.len()
            invariant
                time == tick_after(events@, i as int),
                time <= i * 0x1_0000_0000,
                r@.map_values(|p: (u8, u128)| (p.0, p.1 as int)) == base + track_onsets(events@, i as int),
        {
            let ev = events[i];
            time = time + ev.delta as u128;
            let ghost before = r@;
            match ev.kind {
                MidiEventKind::NoteOn { key, vel, .. } => {
                    if vel > 0 {
                        r.push((key, time));
                        assert(r@.map_values(|p: (u8, u128)| (p.0, p.1 as int)) =~= before.map_values(
                            |p: (u8, u128)| (p.0, p.1 as int),
                        ).push((key, time as int)));
                    }
                },
                _ => {},
            }
        }
    }
    assert(tracks.take(file.tracks.len() as int) =~= tracks);
    r
}

/// The resolution used to time onsets: the file's ticks per quarter note, or 480 for
/// timecode timing.
pub fn ticks_per_beat(file: &MidiFile) -> (t: u16)
    ensures
        t == match file.ticks_per_quarter {
            Some(v) => v,
            None => 480u16,
        },
{
    match file.ticks_per_quarter {
        Some(v) => v,
        None => 480,
    }
}

/// Why a file gave no onsets.
#[derive(Clone, Copy, Debug, PartialEq, Eq, Structural)]
pub enum OnsetError {
    /// The bytes are not a MIDI file that the parser accepts.
    Parse,
    /// The file holds no sounding note-on.
    NoNotes,
}

/// The onsets of the MIDI file in `bytes` and its beat resolution; refused when the
/// parser rejects the bytes or no note sounds.
pub fn midi_note_onsets(bytes: &[u8]) -> (r: Result<(Vec<(u8, u128)>, u16), OnsetError>)
    ensures
        match smf_model(bytes@) {
            None => r == Err::<(Vec<(u8, u128)>, u16), OnsetError>(OnsetError::Parse),
            Some((tpq, tracks)) => if file_onsets(tracks).len() == 0 {
                r == Err::<(Vec<(u8, u128)>, u16), OnsetError>(OnsetError::NoNotes)
            } else {
                r matches Ok((onsets, t)) && onsets@.map_values(|p: (u8, u128)| (p.0, p.1 as int)) == file_onsets(tracks)
                    && t == match tpq {
                    Some(v) => v,
                    None => 480u16,
                }
            },
        },
{
    let file = match parse_smf(bytes) {
        Some(f) => f,
        None => return Err(OnsetError::Parse),
    };
    let onsets = note_onsets(&file);
    if onsets.len() == 0 {
        return Err(OnsetError::NoNotes);
    }
    Ok((onsets, ticks_per_beat(&file)))
}

/// A pitch index wrapped into the MIDI range 0..128.
pub open spec fn midi_wrap(n: int) -> u8 {
    (((n % 128) + 128) % 128) as u8
}

/// Wraps pitch indices into the MIDI range (see `midi_wrap`).
pub fn wrap_midi_pitches(notes: &Vec<i32>) -> (r: Vec<u8>)
    ensures
        r@ == notes@.map_values(|n: i32| midi_wrap(n as int)),
{
    let mut r: Vec<u8> = Vec::new();
    for i in 0..notes.len()
        invariant
            r@ == notes@.take(i as int).map_values(|n: i32| midi_wrap(n as int)),
    {
        let n = notes[i];
        let m = n % 128;
        let w = if m < 0 {
            m + 128
        } else {
            m
        };
        assert(w as int == midi_wrap(n as int));
        r.push(w as u8);
        assert(notes@.take(i + 1).map_values(|n: i32| midi_wrap(n as int)) =~= notes@.take(i as int).map_values(
            |n: i32| midi_wrap(n as int),
        ).push(midi_wrap(n as int)));
    }
    assert(notes@.take(notes.len() as int) =~= notes@);
    r
}

} // verus!
