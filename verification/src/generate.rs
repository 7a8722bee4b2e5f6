//! Patterns for generated motifs, arpeggios and rhythm cells.

use vstd::prelude::*;
use crate::cli::PatternDensity;

verus! {

/// What a generated pattern is anchored to.
pub struct PatternContext {
    pub system: String,
    pub scale: String,
    pub root_index: i32,
    pub root_label: Option<String>,
    pub density: String,
}

pub open spec fn density_name(d: PatternDensity) -> Seq<char> {
    match d {
        PatternDensity::Sparse => "Sparse"@,
        PatternDensity::Balanced => "Balanced"@,
        PatternDensity::Dense => "Dense"@,
    }
}

/// The name of a density.
pub fn density_label(d: PatternDensity) -> (s: &'static str)
    ensures
        s@ == density_name(d),
{
    match d {
        PatternDensity::Sparse => "Sparse",
        PatternDensity::Balanced => "Balanced",
        PatternDensity::Dense => "Dense",
    }
}

/// The context of a generated pattern: the scale's Debug name and the density's name.
pub fn pattern_context(system: String, scale: crate::theory::ScaleKind, root_index: i32, root_label: Option<String>, density: PatternDensity) -> (c: PatternContext)
    ensures
        c.system@ == system@,
        c.scale@ == crate::theory::kind_name(scale),
        c.root_index == root_index,
        c.root_label == root_label,
        c.density@ == density_name(density),
{
    PatternContext {
        system,
        scale: String::from_str(scale.name()),
        root_index,
        root_label,
        density: String::from_str(density_label(density)),
    }
}

/// The scale degrees (from 0) a motif walks through.
pub open spec fn motif_degrees(d: PatternDensity) -> Seq<usize> {
    match d {
        PatternDensity::Sparse => seq![0usize, 2, 4, 5],
        PatternDensity::Balanced => seq![0usize, 2, 4, 7, 5, 2, 0],
        PatternDensity::Dense => seq![0usize, 2, 4, 7, 9, 7, 5, 4, 2, 0],
    }
}

/// The scale degrees (from 0) an arpeggio walks through.
pub open spec fn arpeggio_degrees(d: PatternDensity) -> Seq<usize> {
    match d {
        PatternDensity::Sparse => seq![0usize, 2, 4, 7, 4, 2],
        PatternDensity::Balanced => seq![0usize, 2, 4, 6, 7, 6, 4, 2, 0],
        PatternDensity::Dense => seq![0usize, 2, 4, 6, 7, 9, 11, 9, 7, 6, 4, 2, 0],
    }
}

/// The degrees of a motif of this density.
pub fn motif_pattern(d: PatternDensity) -> (v: Vec<usize>)
    ensures
        v@ == motif_degrees(d),
{
    let v = match d {
        PatternDensity::Sparse => vec![0usize, 2, 4, 5],
        PatternDensity::Balanced => vec![0usize, 2, 4, 7, 5, 2, 0],
        PatternDensity::Dense => vec![0usize, 2, 4, 7, 9, 7, 5, 4, 2, 0],
    };
    assert(v@ =~= motif_degrees(d));
    v
}

/// The degrees of an arpeggio of this density.
pub fn arpeggio_pattern(d: PatternDensity) -> (v: Vec<usize>)
    ensures
        v@ == arpeggio_degrees(d),
{
    let v = match d {
        PatternDensity::Sparse => vec![0usize, 2, 4, 7, 4, 2],
        PatternDensity::Balanced => vec![0usize, 2, 4, 6, 7, 6, 4, 2, 0],
        PatternDensity::Dense => vec![0usize, 2, 4, 6, 7, 9, 11, 9, 7, 6, 4, 2, 0],
    };
    assert(v@ =~= arpeggio_degrees(d));
    v
}

/// The note lengths of a rhythm cell, in half beats.
pub open spec fn rhythm_halves(d: PatternDensity) -> Seq<u32> {
    match d {
        PatternDensity::Sparse => seq![4u32, 4],
        PatternDensity::Balanced => seq![2u32, 1, 1, 4],
        PatternDensity::Dense => seq![1u32, 1, 2, 1, 1, 2],
    }
}

/// The scale degrees suggested for the notes of a rhythm cell, in turn.
pub open spec fn rhythm_hints(d: PatternDensity) -> Seq<usize> {
    match d {
        PatternDensity::Sparse => seq![1usize, 5],
        PatternDensity::Balanced => seq![1usize, 5, 3, 2],
        PatternDensity::Dense => seq![1usize, 5, 3, 4, 6, 2],
    }
}

/// The note lengths of a rhythm cell, in half beats.
pub fn rhythm_durations(d: PatternDensity) -> (v: Vec<u32>)
    ensures
        v@ == rhythm_halves(d),
{
    let v = match d {
        PatternDensity::Sparse => vec![4u32, 4],
        PatternDensity::Balanced => vec![2u32, 1, 1, 4],
        PatternDensity::Dense => vec![1u32, 1, 2, 1, 1, 2],
    };
    assert(v@ =~= rhythm_halves(d));
    v
}

/// The degrees suggested for the notes of a rhythm cell.
pub fn rhythm_degree_hints(d: PatternDensity) -> (v: Vec<usize>)
    ensures
        v@ == rhythm_hints(d),
{
    let v = match d {
        PatternDensity::Sparse => vec![1usize, 5],
        PatternDensity::Balanced => vec![1usize, 5, 3, 2],
        PatternDensity::Dense => vec![1usize, 5, 3, 4, 6, 2],
    };
    assert(v@ =~= rhythm_hints(d));
    v
}

pub open spec fn motif_text(d: PatternDensity) -> Seq<char> {
    match d {
        PatternDensity::Sparse => "Triadic cell with a cadential descent"@,
        PatternDensity::Balanced => "Octave-reaching contour with a dominant setup"@,
        PatternDensity::Dense => "Extended diatonic sweep with upper neighbor turns"@,
    }
}

pub open spec fn arpeggio_text(d: PatternDensity) -> Seq<char> {
    match d {
        PatternDensity::Sparse => "Simple tonic arpeggiation with resolution"@,
        PatternDensity::Balanced => "Seventh arpeggio cycling up then falling back"@,
        PatternDensity::Dense => "Ninth arpeggio with pendulum motion and passing tones"@,
    }
}

pub open spec fn rhythm_text(d: PatternDensity) -> Seq<char> {
    match d {
        PatternDensity::Sparse => "Two-beat pillars for breathing room"@,
        PatternDensity::Balanced => "Backbeat syncopation feeding into a long tone"@,
        PatternDensity::Dense => "Offbeat sixteenths glued by mid-bar accents"@,
    }
}

/// The description of a motif of this density.
pub fn motif_description(d: PatternDensity) -> (s: &'static str)
    ensures
        s@ == motif_text(d),
{
    match d {
        PatternDensity::Sparse => "Triadic cell with a cadential descent",
        PatternDensity::Balanced => "Octave-reaching contour with a dominant setup",
        PatternDensity::Dense => "Extended diatonic sweep with upper neighbor turns",
    }
}

/// The description of an arpeggio of this density.
pub fn arpeggio_description(d: PatternDensity) -> (s: &'static str)
    ensures
        s@ == arpeggio_text(d),
{
    match d {
        PatternDensity::Sparse => "Simple tonic arpeggiation with resolution",
        PatternDensity::Balanced => "Seventh arpeggio cycling up then falling back",
        PatternDensity::Dense => "Ninth arpeggio with pendulum motion and passing tones",
    }
}

/// The description of a rhythm cell of this density.
pub fn rhythm_description(d: PatternDensity) -> (s: &'static str)
    ensures
        s@ == rhythm_text(d),
{
    match d {
        PatternDensity::Sparse => "Two-beat pillars for breathing room",
        PatternDensity::Balanced => "Backbeat syncopation feeding into a long tone",
        PatternDensity::Dense => "Offbeat sixteenths glued by mid-bar accents",
    }
}

/// Where a scale degree (from 0) lands in a scale of `step_count` steps (taken as at
/// least one): its degree within the octave (from 1) and its octave.
pub fn degree_position(degree: usize, step_count: usize) -> (r: (usize, i32))
    requires
        degree as int / (if step_count == 0 { 1int } else { step_count as int }) <= i32::MAX,
    ensures
        ({
            let steps = if step_count == 0 { 1int } else { step_count as int };
            r.0 == degree as int % steps + 1 && r.1 == degree as int / steps
        }),
{
    let steps = if step_count == 0 {
        1
    } else {
        step_count
    };
    ((degree % steps) + 1, (degree / steps) as i32)
}

/// Whether no two pitch indices lie further apart than `i32` can express.
pub open spec fn gaps_fit(s: Seq<i32>) -> bool {
    forall|k: int| 0 <= k < s.len() - 1 ==> i32::MIN <= #[trigger] s[k + 1] - s[k] <= i32::MAX
}

/// Tells whether each step between neighbouring notes fits `i32` (see `gaps_fit`), so
/// that a caller can test it before measuring the steps.
pub fn gaps_fit_notes(indices: &Vec<i32>) -> (b: bool)
    ensures
        b == gaps_fit(indices@),
{
    let mut k: usize = 1;
    while k < indices.len()
        invariant
            1 <= k,
            k <= indices.len() || indices.len() == 0,
            forall|j: int| 0 <= j < k - 1 && j < indices.len() - 1 ==> i32::MIN <= #[trigger] indices@[j + 1] - indices@[j] <= i32::MAX,
        decreases indices.len() - k,
    {
        let gap = indices[k] as i64 - indices[k - 1] as i64;
        if gap < i32::MIN as i64 || gap > i32::MAX as i64 {
            assert(!(i32::MIN <= indices@[(k - 1) + 1] - indices@[k - 1] <= i32::MAX));
            return false;
        }
        k += 1;
    }
    true
}

/// The interval from each note to the next.
pub fn contour(indices: &Vec<i32>) -> (c: Vec<i32>)
    requires
        gaps_fit(indices@),
    ensures
        c.len() == if indices.len() == 0 { 0 } else { indices.len() - 1 },
        forall|k: int| 0 <= k < c.len() ==> #[trigger] c@[k] == indices@[k + 1] - indices@[k],
{
    let mut c: Vec<i32> = Vec::new();
    if indices.len() < 2 {
        return c;
    }
    for k in 0..indices.len() - 1
        invariant
            indices.len() >= 2,
            gaps_fit(indices@),
            c.len() == k,
            forall|j: int| 0 <= j < k ==> #[trigger] c@[j] == indices@[j + 1] - indices@[j],
    {
        assert(i32::MIN <= indices@[k + 1] - indices@[k as int] <= i32::MAX);
        c.push(indices[k + 1] - indices[k]);
    }
    c
}

pub open spec fn direction_word(delta: int) -> Seq<char> {
    if delta > 0 {
        "up"@
    } else if delta < 0 {
        "down"@
    } else {
        "hold"@
    }
}

/// `up`, `down` or `hold` for a melodic step.
pub fn direction_symbol(delta: i32) -> (s: &'static str)
    ensures
        s@ == direction_word(delta as int),
{
    if delta > 0 {
        "up"
    } else if delta < 0 {
        "down"
    } else {
        "hold"
    }
}

/// The direction of each arpeggio note: `root` for the first, then the step from the one before.
pub fn arpeggio_directions(indices: &Vec<i32>) -> (d: Vec<String>)
    requires
        gaps_fit(indices@),
    ensures
        d.len() == indices.len(),
        forall|k: int| 0 <= k < d.len() ==> #[trigger] d@[k]@ == if k == 0 {
            "root"@
        } else {
            direction_word(indices@[k] - indices@[k - 1])
        },
{
    let mut d: Vec<String> = Vec::new();
    for k in 0..indices.len()
        invariant
            gaps_fit(indices@),
            d.len() == k,
            forall|j: int| 0 <= j < k ==> #[trigger] d@[j]@ == if j == 0 {
                "root"@
            } else {
                direction_word(indices@[j] - indices@[j - 1])
            },
    {
        if k == 0 {
            d.push(String::from_str("root"));
        } else {
            assert(i32::MIN <= indices@[(k - 1) + 1] - indices@[k - 1] <= i32::MAX);
            d.push(String::from_str(direction_symbol(indices[k] - indices[k - 1])));
        }
    }
    d
}

/// One event of a rhythm cell, timed in half beats.
#[derive(Clone, Copy, Debug, PartialEq, Eq, Structural)]
pub struct RhythmStep {
    pub beat_halves: u32,
    pub duration_halves: u32,
    pub accent: bool,
    pub suggested_degree: usize,
}

/// The start of event `k`: the lengths of the events before it.
pub open spec fn start_of(durations: Seq<u32>, k: int) -> int
    decreases k,
{
    if k <= 0 {
        0
    } else {
        start_of(durations, k - 1) + durations[k - 1]
    }
}

/// The events of a rhythm cell: each starts where the previous ends, is accented on a
/// whole beat, when it lasts a beat or more, or (when dense) at odd positions, and takes
/// the next suggested degree in turn.
pub open spec fn rhythm_step(d: PatternDensity, k: int) -> RhythmStep {
    let durs = rhythm_halves(d);
    let hints = rhythm_hints(d);
    RhythmStep {
        beat_halves: start_of(durs, k) as u32,
        duration_halves: durs[k],
        accent: start_of(durs, k) % 2 == 0 || durs[k] >= 2 || (d == PatternDensity::Dense && k % 2 == 1),
        suggested_degree: hints[k % hints.len() as int],
    }
}

/// The events of a rhythm cell and its length in half beats (see `rhythm_step`).
pub fn rhythm_cell(d: PatternDensity) -> (r: (Vec<RhythmStep>, u32))
    ensures
        r.0.len() == rhythm_halves(d).len(),
        forall|k: int| 0 <= k < r.0.len() ==> #[trigger] r.0@[k] == rhythm_step(d, k),
        r.1 == start_of(rhythm_halves(d), rhythm_halves(d).len() as int),
{
    let durations = rhythm_durations(d);
    let hints = rhythm_degree_hints(d);
    let mut beat: u32 = 0;
    let mut events: Vec<RhythmStep> = Vec::new();
    for k in 0..durations.len()
        invariant
            durations@ == rhythm_halves(d),
            hints@ == rhythm_hints(d),
            hints.len() > 0,
            beat == start_of(durations@, k as int),
            beat <= 8 * k,
            events.len() == k,
            forall|j: int| 0 <= j < k ==> #[trigger] events@[j] == rhythm_step(d, j),
    {
        let dur = durations[k];
        assert(dur <= 4);
        let accent = beat % 2 == 0 || dur >= 2 || (d == PatternDensity::Dense && k % 2 == 1);
        events.push(RhythmStep { beat_halves: beat, duration_halves: dur, accent, suggested_degree: hints[k % hints.len()] });
        beat = beat + dur;
    }
    (events, beat)
}

} // verus!
