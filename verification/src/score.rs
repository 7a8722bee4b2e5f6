//! The whole-number facts behind progression, melody and chord scores, and the remarks
//! they lead to.

use vstd::prelude::*;
use crate::analysis::{count_unique_upper, distinct_count, sanitize_progression, sanitized, span_fits};
use crate::chars::upper_seq;
use crate::pitch::{is_range, melody_range, pc_of};
use crate::roman::{cadence_of, classify_functions, detect_cadence, views, CadenceSummary, FunctionCounts};
use crate::search::{chord_pitch_classes, present_pcs};
use crate::text::{dec_nat, push_nat};

verus! {

/// How many of tonic, predominant and dominant occur.
pub open spec fn coverage_of(c: FunctionCounts) -> nat {
    (if c.tonic > 0 { 1nat } else { 0nat }) + (if c.predominant > 0 { 1nat } else { 0nat }) + (if c.dominant > 0 {
        1nat
    } else {
        0nat
    })
}

/// The remarks on a progression: its functional coverage, its cadence (convincing above
/// 85% confidence) and, when fewer than half its chords are distinct, its variety.
pub open spec fn progression_remarks(coverage: nat, cadence: Option<(Seq<char>, Seq<char>, nat)>, unique: nat, total: nat) -> Seq<Seq<char>> {
    seq![
        if coverage == 3 {
            "Balanced tonic→predominant→dominant flow detected"@
        } else if coverage == 2 {
            "Progression touches two primary functions; consider completing the cycle"@
        } else {
            "Functional coverage is narrow; add supporting chords for motion"@
        },
        match cadence {
            Some(c) => if c.2 > 85 {
                "Cadence "@ + c.0 + " lands convincingly"@
            } else {
                "Cadence present but relatively soft"@
            },
            None => "No terminal cadence detected"@,
        },
    ] + if 2 * unique < total {
        seq!["Consider introducing more harmonic variety"@]
    } else {
        Seq::empty()
    }
}

/// The facts a progression is scored on.
pub struct ProgressionScore {
    pub progression: Vec<String>,
    pub total_chords: usize,
    pub unique_chords: usize,
    pub function_counts: FunctionCounts,
    pub cadence: Option<CadenceSummary>,
    /// How many of the three primary functions occur.
    pub coverage_hits: usize,
    pub commentary: Vec<String>,
}

/// Why a score was refused.
#[derive(Clone, Copy, Debug, PartialEq, Eq, Structural)]
pub enum ScoreError {
    /// No chords or notes were given.
    Empty,
}

/// Scores a progression: trimmed non-empty tokens, their functions, distinct chords
/// (ignoring case), cadence, coverage and the remarks of `progression_remarks`.
pub fn score_progression(tokens: &Vec<String>) -> (r: Result<ProgressionScore, ScoreError>)
    ensures
        sanitized(views(tokens@)).len() == 0 <==> r is Err,
        r matches Ok(s) ==> {
            let p = sanitized(views(tokens@));
            let unique = distinct_count(p.map_values(|t: Seq<char>| upper_seq(t)));
            &&& views(s.progression@) == p
            &&& s.total_chords == p.len()
            &&& s.unique_chords == unique
            &&& s.function_counts == FunctionCounts::of(p)
            &&& match s.cadence {
                Some(c) => cadence_of(p) == Some(c.model()),
                None => cadence_of(p) is None,
            }
            &&& s.coverage_hits == coverage_of(FunctionCounts::of(p))
            &&& views(s.commentary@) == progression_remarks(coverage_of(FunctionCounts::of(p)), cadence_of(p), unique, p.len())
        },
{
    let progression = sanitize_progression(tokens);
    if progression.len() == 0 {
        return Err(ScoreError::Empty);
    }
    let counts = classify_functions(&progression);
    let unique = count_unique_upper(&progression);
    let cadence = detect_cadence(&progression);
    let total = progression.len();
    let hits: usize = (if counts.tonic > 0 { 1 } else { 0 }) + (if counts.predominant > 0 { 1 } else { 0 }) + (if counts.dominant > 0 {
        1
    } else {
        0
    });
    let mut commentary: Vec<String> = Vec::new();
    if hits == 3 {
        commentary.push(String::from_str("Balanced tonic→predominant→dominant flow detected"));
    } else if hits == 2 {
        commentary.push(String::from_str("Progression touches two primary functions; consider completing the cycle"));
    } else {
        commentary.push(String::from_str("Functional coverage is narrow; add supporting chords for motion"));
    }
    match &cadence {
        Some(c) => {
            if c.confidence_pct > 85 {
                let mut m = String::from_str("Cadence ");
                m.append(c.pattern.as_str());
                m.append(" lands convincingly");
                commentary.push(m);
            } else {
                commentary.push(String::from_str("Cadence present but relatively soft"));
            }
        },
        None => commentary.push(String::from_str("No terminal cadence detected")),
    }
    let ghost two = views(commentary@);
    if 2 * (unique as u128) < total as u128 {
        commentary.push(String::from_str("Consider introducing more harmonic variety"));
    }
    assert(views(commentary@) =~= progression_remarks(
        coverage_of(counts),
        cadence_of(sanitized(views(tokens@))),
        unique as nat,
        total as nat,
    ));
    Ok(ProgressionScore {
        progression,
        total_chords: total,
        unique_chords: unique,
        function_counts: counts,
        cadence,
        coverage_hits: hits,
        commentary,
    })
}

/// The interval from note `k` to note `k + 1`.
pub open spec fn step_at(s: Seq<i32>, k: int) -> int {
    s[k + 1] - s[k]
}

/// The sign of an integer.
pub open spec fn sign(x: int) -> int {
    if x > 0 {
        1
    } else if x < 0 {
        -1
    } else {
        0
    }
}

/// Over the first `k` intervals: the leaps (more than 7 semitones), the steps (at most
/// 2), the changes of direction (ignoring repeated notes), and the last direction moved.
pub open spec fn motion(s: Seq<i32>, k: int) -> (nat, nat, nat, int)
    decreases k,
{
    if k <= 0 {
        (0, 0, 0, 0)
    } else {
        let (leaps, steps, changes, dir) = motion(s, k - 1);
        let d = step_at(s, k - 1);
        let dist = if d < 0 {
            -d
        } else {
            d
        };
        (
            leaps + if dist > 7 {
                1nat
            } else {
                0nat
            },
            steps + if dist <= 2 {
                1nat
            } else {
                0nat
            },
            changes + if (d > 0 && dir < 0) || (d < 0 && dir > 0) {
                1nat
            } else {
                0nat
            },
            if d != 0 {
                sign(d)
            } else {
                dir
            },
        )
    }
}

/// Whether the melody changes direction at note `j + 1`: the step from note `j` moves, and
/// the last step before it that moved went the other way (repeated notes in between do
/// not count).
pub open spec fn turns_at(s: Seq<i32>, j: int) -> bool {
    &&& s[j + 1] != s[j]
    &&& exists|i: int| #![trigger s[i]]
        0 <= i < j && s[i + 1] != s[i] && (s[i + 1] > s[i]) != (s[j + 1] > s[j]) && forall|m: int|
            #![trigger s[m]]
            i < m < j ==> s[m + 1] == s[m]
}

/// How many of the first `k` steps turn the melody around (see `turns_at`).
pub open spec fn turn_count(s: Seq<i32>, k: int) -> nat
    decreases k,
{
    if k <= 0 {
        0
    } else {
        turn_count(s, k - 1) + if turns_at(s, k - 1) {
            1nat
        } else {
            0nat
        }
    }
}

proof fn lemma_motion_turns(s: Seq<i32>, k: int)
    requires
        0 <= k < s.len(),
    ensures
        motion(s, k).2 == turn_count(s, k),
        -1 <= motion(s, k).3 <= 1,
        motion(s, k).3 == 0 ==> forall|m: int| #![trigger s[m]] 0 <= m < k ==> s[m + 1] == s[m],
        motion(s, k).3 != 0 ==> exists|i: int| #![trigger s[i]]
            0 <= i < k && s[i + 1] != s[i] && (motion(s, k).3 > 0 <==> s[i + 1] > s[i]) && forall|m: int|
                #![trigger s[m]]
                i < m < k ==> s[m + 1] == s[m],
    decreases k,
{
    if k > 0 {
        lemma_motion_turns(s, k - 1);
        let dir = motion(s, k - 1).3;
        let j = k - 1;
        if dir == 0 {
            if turns_at(s, j) {
                let i = choose|i: int| #![trigger s[i]]
                    0 <= i < j && s[i + 1] != s[i] && (s[i + 1] > s[i]) != (s[j + 1] > s[j]) && forall|m: int|
                        #![trigger s[m]]
                        i < m < j ==> s[m + 1] == s[m];
                assert(s[i + 1] == s[i]);
            }
            if s[j + 1] != s[j] {
                assert(0 <= j < k && s[j + 1] != s[j]);
            }
        } else {
            let i0 = choose|i: int| #![trigger s[i]]
                0 <= i < j && s[i + 1] != s[i] && (dir > 0 <==> s[i + 1] > s[i]) && forall|m: int|
                    #![trigger s[m]]
                    i < m < j ==> s[m + 1] == s[m];
            if turns_at(s, j) {
                let i = choose|i: int| #![trigger s[i]]
                    0 <= i < j && s[i + 1] != s[i] && (s[i + 1] > s[i]) != (s[j + 1] > s[j]) && forall|m: int|
                        #![trigger s[m]]
                        i < m < j ==> s[m + 1] == s[m];
                if i < i0 {
                    assert(s[i0 + 1] == s[i0]);
                } else if i > i0 {
                    assert(s[i + 1] == s[i]);
                }
            }
            if s[j + 1] != s[j] && ((s[j + 1] > s[j]) != (dir > 0)) {
                assert(turns_at(s, j));
            }
            if s[j + 1] == s[j] {
                assert forall|m: int| #![trigger s[m]] i0 < m < k implies s[m + 1] == s[m] by {
                    if m < j {
                    }
                }
            } else {
                assert(0 <= j < k && s[j + 1] != s[j]);
            }
        }
    }
}

/// The direction changes counted when a melody is scored are exactly its turns: the steps
/// that move against the last step that moved, with repeated notes skipped.
pub proof fn lemma_direction_changes(s: Seq<i32>)
    requires
        s.len() > 0,
    ensures
        motion(s, s.len() - 1).2 == turn_count(s, s.len() - 1),
{
    lemma_motion_turns(s, s.len() - 1);
}

/// The facts a melody is scored on.
#[derive(Clone, Copy, Debug, PartialEq, Eq, Structural)]
pub struct MelodyScore {
    pub note_count: usize,
    pub lowest: i32,
    pub highest: i32,
    pub span: i32,
    pub interval_count: usize,
    pub leaps: usize,
    pub steps: usize,
    pub direction_changes: usize,
    /// The last note minus the first.
    pub closure_interval: i32,
}

/// The remarks on a melody: few leaps (under a fifth of its intervals) or many (over two
/// fifths), a wide (over 19) or compact (under 7) range, and whether it closes within a
/// whole step of its first note.
pub open spec fn melody_remarks(leaps: nat, intervals: nat, span: int, closure: int) -> Seq<Seq<char>> {
    (if intervals == 0 || 5 * leaps < intervals {
        seq!["Mostly conjunct motion keeps tension low"@]
    } else if 5 * leaps > 2 * intervals {
        seq!["Frequent leaps add excitement but increase tension"@]
    } else {
        Seq::empty()
    }) + (if span > 19 {
        seq!["Wide range — consider narrowing for tighter focus"@]
    } else if span < 7 {
        seq!["Compact range; add larger gestures for contrast"@]
    } else {
        Seq::empty()
    }) + (if -2 <= closure <= 2 {
        seq!["Closing near the opening pitch provides resolution"@]
    } else {
        seq!["Ending away from the opening pitch leaves tension unresolved"@]
    })
}

proof fn lemma_motion_bounds(s: Seq<i32>, k: int)
    requires
        0 <= k,
    ensures
        motion(s, k).0 <= k,
        motion(s, k).1 <= k,
        motion(s, k).2 <= k,
        -1 <= motion(s, k).3 <= 1,
    decreases k,
{
    if k > 0 {
        lemma_motion_bounds(s, k - 1);
    }
}

/// Scores a melody's shape: range, leaps, steps, direction changes and closure, with the
/// remarks of `melody_remarks`.
pub fn score_melody(notes: &Vec<i32>) -> (r: Result<(MelodyScore, Vec<String>), ScoreError>)
    requires
        span_fits(notes@),
    ensures
        notes.len() == 0 <==> r is Err,
        r matches Ok((m, remarks)) ==> {
            let k = notes.len() - 1;
            &&& m.note_count == notes.len()
            &&& is_range(notes@, m.lowest, m.highest)
            &&& m.span == m.highest - m.lowest
            &&& m.interval_count == k
            &&& m.leaps == motion(notes@, k).0
            &&& m.steps == motion(notes@, k).1
            &&& m.direction_changes == motion(notes@, k).2
            &&& m.closure_interval == notes@.last() - notes@[0]
            &&& views(remarks@) == melody_remarks(m.leaps as nat, k as nat, m.span as int, m.closure_interval as int)
        },
{
    if notes.len() == 0 {
        return Err(ScoreError::Empty);
    }
    let (lowest, highest) = melody_range(notes);
    proof {
        let a = choose|i: int| 0 <= i < notes@.len() && notes@[i] == lowest;
        let b = choose|i: int| 0 <= i < notes@.len() && notes@[i] == highest;
        assert(notes@[b] - notes@[a] <= i32::MAX);
    }
    let span = highest - lowest;
    let k = notes.len() - 1;
    let mut leaps: usize = 0;
    let mut steps: usize = 0;
    let mut changes: usize = 0;
    let mut dir: i32 = 0;
    for i in 0..k
        invariant
            k == notes.len() - 1,
            span_fits(notes@),
            (leaps as nat, steps as nat, changes as nat, dir as int) == motion(notes@, i as int),
    {
        proof {
            lemma_motion_bounds(notes@, i as int);
            assert(notes@[i + 1] - notes@[i as int] <= i32::MAX);
            assert(notes@[i as int] - notes@[i + 1] <= i32::MAX);
        }
        let d: i32 = notes[i + 1] - notes[i];
        if (d > 0 && dir < 0) || (d < 0 && dir > 0) {
            changes += 1;
        }
        if d != 0 {
            dir = if d > 0 {
                1
            } else {
                -1
            };
        }
        let dist: i32 = if d < 0 {
            -d
        } else {
            d
        };
        if dist <= 2 {
            steps += 1;
        }
        if dist > 7 {
            leaps += 1;
        }
    }
    proof {
        assert(notes@[k as int] - notes@[0] <= i32::MAX);
        assert(notes@[0] - notes@[k as int] <= i32::MAX);
    }
    let closure: i32 = notes[k] - notes[0];
    let mut remarks: Vec<String> = Vec::new();
    if k == 0 || 5 * (leaps as u128) < k as u128 {
        remarks.push(String::from_str("Mostly conjunct motion keeps tension low"));
    } else if 5 * (leaps as u128) > 2 * (k as u128) {
        remarks.push(String::from_str("Frequent leaps add excitement but increase tension"));
    }
    let ghost r1 = views(remarks@);
    if span > 19 {
        remarks.push(String::from_str("Wide range — consider narrowing for tighter focus"));
    } else if span < 7 {
        remarks.push(String::from_str("Compact range; add larger gestures for contrast"));
    }
    let ghost r2 = views(remarks@);
    if -2 <= closure && closure <= 2 {
        remarks.push(String::from_str("Closing near the opening pitch provides resolution"));
    } else {
        remarks.push(String::from_str("Ending away from the opening pitch leaves tension unresolved"));
    }
    assert(views(remarks@) =~= melody_remarks(leaps as nat, k as nat, span as int, closure as int));
    Ok((
        MelodyScore {
            note_count: notes.len(),
            lowest,
            highest,
            span,
            interval_count: k,
            leaps,
            steps,
            direction_changes: changes,
            closure_interval: closure,
        },
        remarks,
    ))
}

/// Whether two of the notes lie `m` semitones apart, modulo octaves.
pub open spec fn has_interval(s: Seq<i32>, m: int) -> bool {
    exists|i: int, j: int| 0 <= i < j < s.len() && #[trigger] interval_class(s[i], s[j]) == m
}

/// The distance between two notes, modulo octaves.
pub open spec fn interval_class(a: i32, b: i32) -> int {
    (if b >= a {
        b - a
    } else {
        a - b
    }) % 12
}

/// Whether two of the notes lie `m` semitones apart, modulo octaves (see `has_interval`).
pub fn has_interval_mod(notes: &Vec<i32>, target_mod: i32) -> (b: bool)
    requires
        span_fits(notes@),
    ensures
        b == has_interval(notes@, target_mod as int),
{
    for i in 0..notes.len()
        invariant
            span_fits(notes@),
            forall|a: int, c: int| 0 <= a < i && a < c < notes.len() ==> #[trigger] interval_class(notes@[a], notes@[c]) != target_mod,
    {
        for j in i + 1..notes.len()
            invariant
                span_fits(notes@),
                i < notes.len(),
                forall|a: int, c: int| 0 <= a < i && a < c < notes.len() ==> #[trigger] interval_class(notes@[a], notes@[c]) != target_mod,
                forall|c: int| i < c < j ==> #[trigger] interval_class(notes@[i as int], notes@[c]) != target_mod,
        {
            proof {
                assert(notes@[j as int] - notes@[i as int] <= i32::MAX);
                assert(notes@[i as int] - notes@[j as int] <= i32::MAX);
            }
            let a = notes[i];
            let b = notes[j];
            let d: i32 = if b >= a {
                b - a
            } else {
                a - b
            };
            if d % 12 == target_mod {
                assert(interval_class(notes@[i as int], notes@[j as int]) == target_mod);
                return true;
            }
        }
    }
    false
}

/// The number of notes at least an octave above `low`.
pub open spec fn count_above(s: Seq<i32>, low: int) -> nat
    decreases s.len(),
{
    if s.len() == 0 {
        0
    } else {
        count_above(s.drop_last(), low) + if s.last() - low >= 12 {
            1nat
        } else {
            0nat
        }
    }
}

/// The tension of a chord in tenths: 5 for a tritone, 3 for a semitone or major seventh,
/// 2 for a whole tone.
pub open spec fn tension_tenths(s: Seq<i32>) -> nat {
    (if has_interval(s, 6) { 5nat } else { 0nat }) + (if has_interval(s, 1) || has_interval(s, 11) {
        3nat
    } else {
        0nat
    }) + (if has_interval(s, 2) {
        2nat
    } else {
        0nat
    })
}

/// The facts a chord is scored on.
#[derive(Clone, Copy, Debug, PartialEq, Eq, Structural)]
pub struct ChordScore {
    pub note_count: usize,
    /// The highest note minus the lowest.
    pub pitch_span: i32,
    pub unique_pitch_classes: usize,
    /// The notes at least an octave above the lowest.
    pub extensions: usize,
    /// The chord's tension in tenths (at most 10).
    pub tension_tenths: u8,
}

/// The remarks on a chord: its upper extensions, strong (over 0.6) or no tension, and a
/// voicing wider than two octaves.
pub open spec fn chord_remarks(extensions: nat, tension: nat, span: int) -> Seq<Seq<char>> {
    (if extensions > 0 {
        seq!["Includes "@ + dec_nat(extensions) + " upper extension(s) for added color"@]
    } else {
        Seq::empty()
    }) + (if tension > 6 {
        seq!["Strong dissonance present — resolve or sustain intentionally"@]
    } else if tension < 2 {
        seq!["Stable sonority suitable for cadential use"@]
    } else {
        Seq::empty()
    }) + (if span > 24 {
        seq!["Very wide voicing; ensure ensemble can cover the span"@]
    } else {
        Seq::empty()
    })
}

fn chord_tension(notes: &Vec<i32>) -> (t: u8)
    requires
        span_fits(notes@),
    ensures
        t == tension_tenths(notes@),
{
    let mut tension: u8 = 0;
    if has_interval_mod(notes, 6) {
        tension += 5;
    }
    if has_interval_mod(notes, 1) || has_interval_mod(notes, 11) {
        tension += 3;
    }
    if has_interval_mod(notes, 2) {
        tension += 2;
    }
    tension
}

fn chord_remark_list(extensions: usize, tension: u8, span: i32) -> (remarks: Vec<String>)
    ensures
        views(remarks@) == chord_remarks(extensions as nat, tension as nat, span as int),
{
    let mut remarks: Vec<String> = Vec::new();
    if extensions > 0 {
        let mut m = String::from_str("Includes ");
        push_nat(&mut m, extensions as u128);
        m.append(" upper extension(s) for added color");
        remarks.push(m);
    }
    let ghost r1 = views(remarks@);
    if tension > 6 {
        remarks.push(String::from_str("Strong dissonance present — resolve or sustain intentionally"));
    } else if tension < 2 {
        remarks.push(String::from_str("Stable sonority suitable for cadential use"));
    }
    let ghost r2 = views(remarks@);
    if span > 24 {
        remarks.push(String::from_str("Very wide voicing; ensure ensemble can cover the span"));
    }
    assert(views(remarks@) =~= chord_remarks(extensions as nat, tension as nat, span as int));
    remarks
}

/// Scores a chord's sound: span, distinct pitch classes, upper extensions and tension,
/// with the remarks of `chord_remarks`.
pub fn score_chord(notes: &Vec<i32>) -> (r: Result<(ChordScore, Vec<String>), ScoreError>)
    requires
        span_fits(notes@),
    ensures
        notes.len() == 0 <==> r is Err,
        r matches Ok((c, remarks)) ==> {
            &&& c.note_count == notes.len()
            &&& exists|lo: i32, hi: i32| is_range(notes@, lo, hi) && c.pitch_span == hi - lo && c.extensions == count_above(
                notes@,
                lo as int,
            )
            &&& c.unique_pitch_classes == present_pcs(notes@, 12).len()
            &&& c.tension_tenths == tension_tenths(notes@)
            &&& views(remarks@) == chord_remarks(c.extensions as nat, c.tension_tenths as nat, c.pitch_span as int)
        },
{
    if notes.len() == 0 {
        return Err(ScoreError::Empty);
    }
    let (lowest, highest) = melody_range(notes);
    proof {
        let a = choose|i: int| 0 <= i < notes@.len() && notes@[i] == lowest;
        let b = choose|i: int| 0 <= i < notes@.len() && notes@[i] == highest;
        assert(notes@[b] - notes@[a] <= i32::MAX);
    }
    let span = highest - lowest;
    let mut extensions: usize = 0;
    for i in 0..notes.len()
        invariant
            extensions == count_above(notes@.take(i as int), lowest as int),
            is_range(notes@, lowest, highest),
            extensions <= i,
    {
        assert(notes@.take(i + 1).drop_last() =~= notes@.take(i as int));
        if notes[i] as i64 - lowest as i64 >= 12 {
            extensions += 1;
        }
    }
    assert(notes@.take(notes.len() as int) =~= notes@);
    let unique = chord_pitch_classes(notes).len();
    let tension = chord_tension(notes);
    let remarks = chord_remark_list(extensions, tension, span);
    Ok((
        ChordScore {
            note_count: notes.len(),
            pitch_span: span,
            unique_pitch_classes: unique,
            extensions,
            tension_tenths: tension,
        },
        remarks,
    ))
}

} // verus!
