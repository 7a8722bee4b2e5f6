//! Validation of melodies against a scale and of Roman-numeral progressions.

use vstd::prelude::*;
use crate::analysis::{ambitus_of, sanitize_progression, sanitized, span_fits, Ambitus, AnalysisError};
use crate::pitch::{is_range, normalize_pitch_class, pc_of};
use crate::roman::{
    cadence_of, classify_functions, detect_cadence, is_valid_roman, norm_roman, normalize_roman,
    valid_roman, views, CadenceSummary, FunctionCounts,
};
use crate::text::{concat_map, dbg_list, dec_int, dec_nat, dec_signed, push_dbg_list, push_int, push_nat, push_signed};
use crate::theory::{kind_name, kind_pitch_classes, ScaleKind};

verus! {

/// A melody note whose pitch class lies outside the scale.
#[derive(Clone, Copy, Debug, PartialEq, Eq, Structural)]
pub struct InvalidMelodyNote {
    pub position: usize,
    pub note_index: i32,
    pub pitch_class: u8,
}

/// Two adjacent notes further apart than the allowed interval.
#[derive(Clone, Copy, Debug, PartialEq, Eq, Structural)]
pub struct LeapViolation {
    pub position: usize,
    pub from: i32,
    pub to: i32,
    pub interval: i32,
}

/// The result of validating a melody.
pub struct MelodyValidationReport {
    pub system: String,
    pub scale: String,
    pub root_index: i32,
    pub note_count: usize,
    pub ambitus: Ambitus,
    pub max_interval: i32,
    pub allowed_pitch_classes: Vec<u8>,
    pub out_of_scale_notes: Vec<InvalidMelodyNote>,
    pub leap_violations: Vec<LeapViolation>,
}

/// Why a melody could not be validated.
#[derive(Debug, PartialEq, Eq, Structural)]
pub enum MelodyValidationError {
    /// No notes were given.
    EmptyNotes,
    /// The maximum interval is zero or negative.
    NonPositiveInterval,
}

/// The pitch class of `pc` measured upward from `root_pc`.
pub open spec fn relative_pc(pc: int, root_pc: int) -> int {
    (12 + pc - root_pc) % 12
}

/// The notes of `s` (positions below `n`) whose pitch class relative to the root is not in the scale.
pub open spec fn out_of_scale(s: Seq<i32>, root: int, kind: ScaleKind, n: int) -> Seq<InvalidMelodyNote>
    decreases n,
{
    if n <= 0 {
        Seq::empty()
    } else {
        let prev = out_of_scale(s, root, kind, n - 1);
        let pc = pc_of(s[n - 1] as int);
        if kind_pitch_classes(kind).contains(relative_pc(pc, pc_of(root)) as u8) {
            prev
        } else {
            prev.push(InvalidMelodyNote { position: (n - 1) as usize, note_index: s[n - 1], pitch_class: pc as u8 })
        }
    }
}

/// The adjacent pairs among the first `n` pairs of `s` whose interval exceeds `max`.
pub open spec fn leaps(s: Seq<i32>, max: int, n: int) -> Seq<LeapViolation>
    decreases n,
{
    if n <= 0 {
        Seq::empty()
    } else {
        let prev = leaps(s, max, n - 1);
        let interval = s[n] - s[n - 1];
        if interval > max || -interval > max {
            prev.push(LeapViolation { position: (n - 1) as usize, from: s[n - 1], to: s[n], interval: interval as i32 })
        } else {
            prev
        }
    }
}

/// Whether the step from note `k` to note `k + 1` is wider than `max`, rising or falling.
pub open spec fn wide_step(s: Seq<i32>, k: int, max: int) -> bool {
    s[k + 1] - s[k] > max || s[k] - s[k + 1] > max
}

proof fn lemma_leaps_prefix(s: Seq<i32>, max: int, n: int)
    requires
        0 <= n < s.len(),
        s.len() <= usize::MAX,
        span_fits(s),
    ensures
        forall|j: int| 0 <= j < leaps(s, max, n).len() ==> {
            let v = #[trigger] leaps(s, max, n)[j];
            let p = v.position as int;
            &&& 0 <= p < n
            &&& v.from == s[p]
            &&& v.to == s[p + 1]
            &&& v.interval == s[p + 1] - s[p]
            &&& wide_step(s, p, max)
        },
        forall|i: int, j: int| 0 <= i < j < leaps(s, max, n).len() ==> (#[trigger] leaps(s, max, n)[i]).position < (#[trigger] leaps(s, max, n)[j]).position,
        forall|k: int| 0 <= k < n && wide_step(s, k, max) ==> exists|j: int| 0 <= j < leaps(s, max, n).len() && (#[trigger] leaps(s, max, n)[j]).position == k,
    decreases n,
{
    if n > 0 {
        lemma_leaps_prefix(s, max, n - 1);
        let prev = leaps(s, max, n - 1);
        let cur = leaps(s, max, n);
        assert(s[n] - s[n - 1] <= i32::MAX && s[n - 1] - s[n] <= i32::MAX);
        if wide_step(s, n - 1, max) {
            assert(cur == prev.push(LeapViolation { position: (n - 1) as usize, from: s[n - 1], to: s[n], interval: (s[n] - s[n - 1]) as i32 }));
            assert forall|k: int| 0 <= k < n && wide_step(s, k, max) implies exists|j: int| 0 <= j < cur.len() && (#[trigger] cur[j]).position == k by {
                if k < n - 1 {
                    let j = choose|j: int| 0 <= j < prev.len() && (#[trigger] prev[j]).position == k;
                    assert(cur[j] == prev[j]);
                } else {
                    assert(cur[prev.len() as int].position == k);
                }
            }
        } else {
            assert(cur == prev);
        }
    }
}

/// The leap violations of a melody are exactly its steps wider than the limit, rising or
/// falling, in order: each names its position, its two notes and their interval, and every
/// wide step is listed.
pub proof fn lemma_leap_violations(s: Seq<i32>, max: int)
    requires
        0 < s.len() <= usize::MAX,
        span_fits(s),
    ensures
        forall|j: int| 0 <= j < leaps(s, max, s.len() - 1).len() ==> {
            let v = #[trigger] leaps(s, max, s.len() - 1)[j];
            let p = v.position as int;
            &&& 0 <= p < s.len() - 1
            &&& v.from == s[p]
            &&& v.to == s[p + 1]
            &&& v.interval == s[p + 1] - s[p]
            &&& (s[p + 1] - s[p] > max || s[p] - s[p + 1] > max)
        },
        forall|i: int, j: int| 0 <= i < j < leaps(s, max, s.len() - 1).len() ==> (#[trigger] leaps(s, max, s.len() - 1)[i]).position < (#[trigger] leaps(s, max, s.len() - 1)[j]).position,
        forall|k: int| #![trigger s[k]] 0 <= k < s.len() - 1 && (s[k + 1] - s[k] > max || s[k] - s[k + 1] > max) ==> exists|j: int| 0 <= j < leaps(s, max, s.len() - 1).len() && (#[trigger] leaps(s, max, s.len() - 1)[j]).position == k,
{
    lemma_leaps_prefix(s, max, s.len() - 1);
    assert forall|k: int| #![trigger s[k]] 0 <= k < s.len() - 1 && (s[k + 1] - s[k] > max || s[k] - s[k + 1] > max) implies exists|j: int| 0 <= j < leaps(s, max, s.len() - 1).len() && (#[trigger] leaps(s, max, s.len() - 1)[j]).position == k by {
        assert(wide_step(s, k, max));
    }
}

/// Checks each note against the scale rooted at `root` and each step against `max_interval`.
pub fn validate_melody(
    notes: &Vec<i32>,
    system: String,
    root: i32,
    scale: ScaleKind,
    max_interval: i32,
) -> (r: Result<MelodyValidationReport, MelodyValidationError>)
    requires
        notes.len() > 0 && max_interval > 0 ==> span_fits(notes@),
    ensures
        notes.len() == 0 ==> r == Err::<MelodyValidationReport, _>(MelodyValidationError::EmptyNotes),
        notes.len() > 0 && max_interval <= 0 ==> r == Err::<MelodyValidationReport, _>(MelodyValidationError::NonPositiveInterval),
        notes.len() > 0 && max_interval > 0 ==> (r matches Ok(rep) && {
            &&& rep.system@ == system@
            &&& rep.scale@ == kind_name(scale)
            &&& rep.root_index == root
            &&& rep.note_count == notes.len()
            &&& is_range(notes@, rep.ambitus.lowest, rep.ambitus.highest)
            &&& rep.ambitus.span == rep.ambitus.highest - rep.ambitus.lowest
            &&& rep.max_interval == max_interval
            &&& rep.allowed_pitch_classes@ == kind_pitch_classes(scale).map_values(
                |o: u8| ((o + pc_of(root as int)) % 12) as u8,
            )
            &&& rep.out_of_scale_notes@ == out_of_scale(notes@, root as int, scale, notes.len() as int)
            &&& rep.leap_violations@ == leaps(notes@, max_interval as int, notes.len() - 1)
        }),
{
    if notes.len() == 0 {
        return Err(MelodyValidationError::EmptyNotes);
    }
    if max_interval <= 0 {
        return Err(MelodyValidationError::NonPositiveInterval);
    }
    let offsets = scale.pitch_classes();
    let root_pc = normalize_pitch_class(root);
    let mut out: Vec<InvalidMelodyNote> = Vec::new();
    for position in 0..notes.len()
        invariant
            offsets@ == kind_pitch_classes(scale),
            root_pc as int == pc_of(root as int),
            root_pc < 12,
            out@ == out_of_scale(notes@, root as int, scale, position as int),
    {
        let note = notes[position];
        let pc = normalize_pitch_class(note);
        let relative: u8 = ((12 + pc as i32 - root_pc as i32) % 12) as u8;
        let mut allowed = false;
        for k in 0..7usize
            invariant
                offsets@ == kind_pitch_classes(scale),
                allowed == exists|j: int| 0 <= j < k && offsets@[j] == relative,
        {
            if offsets[k] == relative {
                allowed = true;
            }
        }
        assert(allowed == kind_pitch_classes(scale).contains(relative)) by {
            if kind_pitch_classes(scale).contains(relative) {
                let j = choose|j: int| 0 <= j < 7 && kind_pitch_classes(scale)[j] == relative;
                assert(offsets@[j] == relative);
            }
        }
        if !allowed {
            out.push(InvalidMelodyNote { position, note_index: note, pitch_class: pc });
        }
    }
    let mut leap_violations: Vec<LeapViolation> = Vec::new();
    let mut position: usize = 0;
    while position + 1 < notes.len()
        invariant
            notes.len() > 0,
            span_fits(notes@),
            position + 1 <= notes.len(),
            leap_violations@ == leaps(notes@, max_interval as int, position as int),
        decreases notes.len() - position,
    {
        let from = notes[position];
        let to = notes[position + 1];
        assert(to - from <= i32::MAX && from - to <= i32::MAX);
        let interval = to - from;
        if interval > max_interval || -interval > max_interval {
            leap_violations.push(LeapViolation { position, from, to, interval });
        }
        position += 1;
    }
    let ambitus = ambitus_of(notes);
    let mut allowed_pitch_classes: Vec<u8> = Vec::new();
    for k in 0..7usize
        invariant
            offsets@ == kind_pitch_classes(scale),
            root_pc as int == pc_of(root as int),
            root_pc < 12,
            allowed_pitch_classes@ == kind_pitch_classes(scale).take(k as int).map_values(
                |o: u8| ((o + pc_of(root as int)) % 12) as u8,
            ),
    {
        allowed_pitch_classes.push(((offsets[k] as i32 + root_pc as i32) % 12) as u8);
        assert(kind_pitch_classes(scale).take(k + 1).map_values(|o: u8| ((o + pc_of(root as int)) % 12) as u8)
            =~= kind_pitch_classes(scale).take(k as int).map_values(|o: u8| ((o + pc_of(root as int)) % 12) as u8).push(
            ((offsets@[k as int] + pc_of(root as int)) % 12) as u8));
    }
    assert(kind_pitch_classes(scale).take(7) =~= kind_pitch_classes(scale));
    Ok(MelodyValidationReport {
        system,
        scale: String::from_str(scale.name()),
        root_index: root,
        note_count: notes.len(),
        ambitus,
        max_interval,
        allowed_pitch_classes,
        out_of_scale_notes: out,
        leap_violations,
    })
}

/// A progression token that does not normalise to one of I..VII.
pub struct InvalidProgressionToken {
    pub position: usize,
    pub token: String,
    pub normalized: String,
}

/// The result of validating a progression.
pub struct ProgressionValidationReport {
    pub progression: Vec<String>,
    pub chord_count: usize,
    pub key_hint: Option<String>,
    pub invalid_chords: Vec<InvalidProgressionToken>,
    pub duplicate_positions: Vec<usize>,
    pub function_counts: FunctionCounts,
    pub cadence: Option<CadenceSummary>,
}

/// The positions (below `n`), tokens and normal forms of the invalid tokens of `p`.
pub open spec fn invalid_tokens(p: Seq<Seq<char>>, n: int) -> Seq<(nat, Seq<char>, Seq<char>)>
    decreases n,
{
    if n <= 0 {
        Seq::empty()
    } else {
        let prev = invalid_tokens(p, n - 1);
        if valid_roman(norm_roman(p[n - 1])) {
            prev
        } else {
            prev.push(((n - 1) as nat, p[n - 1], norm_roman(p[n - 1])))
        }
    }
}

/// The positions `i < n` where token `i` and token `i + 1` normalise alike.
pub open spec fn duplicate_positions(p: Seq<Seq<char>>, n: int) -> Seq<usize>
    decreases n,
{
    if n <= 0 {
        Seq::empty()
    } else {
        let prev = duplicate_positions(p, n - 1);
        if norm_roman(p[n - 1]) == norm_roman(p[n]) {
            prev.push((n - 1) as usize)
        } else {
            prev
        }
    }
}

impl InvalidProgressionToken {
    pub open spec fn model(&self) -> (nat, Seq<char>, Seq<char>) {
        (self.position as nat, self.token@, self.normalized@)
    }
}

/// Checks a progression for unknown numerals and repeated chords and summarises it.
pub fn validate_progression(tokens: &Vec<String>, key_hint: Option<String>) -> (r: Result<ProgressionValidationReport, AnalysisError>)
    ensures
        match r {
            Ok(rep) => {
                let p = sanitized(views(tokens@));
                &&& p.len() > 0
                &&& views(rep.progression@) == p
                &&& rep.chord_count == p.len()
                &&& rep.key_hint == key_hint
                &&& rep.invalid_chords@.map_values(|t: InvalidProgressionToken| t.model()) == invalid_tokens(p, p.len() as int)
                &&& rep.duplicate_positions@ == duplicate_positions(p, p.len() - 1)
                &&& rep.function_counts == FunctionCounts::of(p)
                &&& match rep.cadence {
                    Some(c) => cadence_of(p) == Some(c.model()),
                    None => cadence_of(p) is None,
                }
            },
            Err(e) => e is EmptyInput && sanitized(views(tokens@)).len() == 0,
        },
{
    let progression = sanitize_progression(tokens);
    if progression.len() == 0 {
        return Err(AnalysisError::EmptyInput);
    }
    let ghost p = views(progression@);
    let mut normalized: Vec<String> = Vec::new();
    for i in 0..progression.len()
        invariant
            p == views(progression@),
            normalized.len() == i,
            forall|j: int| 0 <= j < i ==> #[trigger] normalized@[j]@ == norm_roman(p[j]),
    {
        normalized.push(normalize_roman(progression[i].as_str()));
    }
    let mut invalid: Vec<InvalidProgressionToken> = Vec::new();
    for i in 0..progression.len()
        invariant
            p == views(progression@),
            normalized.len() == progression.len(),
            forall|j: int| 0 <= j < normalized.len() ==> #[trigger] normalized@[j]@ == norm_roman(p[j]),
            invalid@.map_values(|t: InvalidProgressionToken| t.model()) == invalid_tokens(p, i as int),
    {
        assert(normalized@[i as int]@ == norm_roman(p[i as int]));
        if !is_valid_roman(normalized[i].as_str()) {
            let ghost before = invalid@;
            invalid.push(InvalidProgressionToken {
                position: i,
                token: progression[i].clone(),
                normalized: normalized[i].clone(),
            });
            assert(invalid@.map_values(|t: InvalidProgressionToken| t.model()) =~= before.map_values(
                |t: InvalidProgressionToken| t.model(),
            ).push((i as nat, p[i as int], norm_roman(p[i as int]))));
        }
    }
    let mut duplicates: Vec<usize> = Vec::new();
    let mut i: usize = 0;
    while i + 1 < normalized.len()
        invariant
            normalized.len() == p.len(),
            i + 1 <= normalized.len(),
            forall|j: int| 0 <= j < normalized.len() ==> #[trigger] normalized@[j]@ == norm_roman(p[j]),
            duplicates@ == duplicate_positions(p, i as int),
        decreases normalized.len() - i,
    {
        assert(normalized@[i as int]@ == norm_roman(p[i as int]));
        assert(normalized@[i + 1]@ == norm_roman(p[i + 1]));
        if normalized[i] == normalized[i + 1] {
            duplicates.push(i);
        }
        i += 1;
    }
    let function_counts = classify_functions(&progression);
    let cadence = detect_cadence(&progression);
    let chord_count = normalized.len();
    Ok(ProgressionValidationReport {
        progression,
        chord_count,
        key_hint,
        invalid_chords: invalid,
        duplicate_positions: duplicates,
        function_counts,
        cadence,
    })
}

} // verus!

verus! {

/// The report line of a note outside the scale.
pub open spec fn note_line(n: InvalidMelodyNote) -> Seq<char> {
    "  • idx "@ + dec_int(n.note_index as int) + " (pc "@ + dec_nat(n.pitch_class as nat) + ") at position "@
        + dec_nat((n.position + 1) as nat) + "\n"@
}

/// The report line of a leap violation.
pub open spec fn leap_line(v: LeapViolation) -> Seq<char> {
    "  • pos "@ + dec_nat((v.position + 1) as nat) + ": "@ + dec_int(v.from as int) + " → "@ + dec_int(
        v.to as int,
    ) + " ("@ + dec_signed(v.interval as int) + " st)\n"@
}

/// Appends the report line of a note outside the scale.
fn push_note_line(out: &mut String, n: &InvalidMelodyNote)
    ensures
        final(out)@ == old(out)@ + note_line(*n),
{
    let ghost start = out@;
    out.append("  • idx ");
    push_int(out, n.note_index as i128);
    out.append(" (pc ");
    push_nat(out, n.pitch_class as u128);
    out.append(") at position ");
    push_nat(out, n.position as u128 + 1);
    out.append("\n");
    assert(out@ =~= start + note_line(*n));
}

/// Appends the report line of a leap violation.
fn push_leap_line(out: &mut String, v: &LeapViolation)
    ensures
        final(out)@ == old(out)@ + leap_line(*v),
{
    let ghost start = out@;
    out.append("  • pos ");
    push_nat(out, v.position as u128 + 1);
    out.append(": ");
    push_int(out, v.from as i128);
    out.append(" → ");
    push_int(out, v.to as i128);
    out.append(" (");
    push_signed(out, v.interval as i128);
    out.append(" st)\n");
    assert(out@ =~= start + leap_line(*v));
}

impl MelodyValidationReport {
    /// The first three lines of the text rendering.
    pub open spec fn head_text(&self) -> Seq<char> {
        "Melody validation in "@ + self.system@ + " — "@ + self.scale@ + " scale (root "@ + dec_int(
            self.root_index as int,
        ) + ", "@ + dec_nat(self.note_count as nat) + " note(s)).\n"@ + ("Ambitus: "@ + dec_int(
            self.ambitus.span as int,
        ) + " semitone(s) ["@ + dec_int(self.ambitus.lowest as int) + " → "@ + dec_int(
            self.ambitus.highest as int,
        ) + "]. Max interval allowed: ±"@ + dec_int(self.max_interval as int) + ".\n"@) + (
        "Allowed pitch classes (relative to root): "@ + dbg_list(
            self.allowed_pitch_classes@.map_values(|x: u8| x as int),
        ) + "\n"@)
    }

    /// The block listing the notes outside the scale (empty when there are none).
    pub open spec fn notes_block(&self) -> Seq<char> {
        let out = self.out_of_scale_notes@;
        if out.len() > 0 {
            dec_nat(out.len()) + " note(s) fall outside the implied scale:\n"@ + concat_map(
                out,
                |n: InvalidMelodyNote| note_line(n),
            )
        } else {
            Seq::empty()
        }
    }

    /// The block listing the leap violations (empty when there are none).
    pub open spec fn leaps_block(&self) -> Seq<char> {
        let lv = self.leap_violations@;
        if lv.len() > 0 {
            dec_nat(lv.len()) + " leap violation(s) exceed ±"@ + dec_int(self.max_interval as int)
                + " semitone(s):\n"@ + concat_map(lv, |v: LeapViolation| leap_line(v))
        } else {
            Seq::empty()
        }
    }

    /// The text rendering of this report.
    pub open spec fn text(&self) -> Seq<char> {
        if self.out_of_scale_notes@.len() == 0 && self.leap_violations@.len() == 0 {
            self.head_text() + "No validation issues detected.\n"@
        } else {
            self.head_text() + self.notes_block() + self.leaps_block()
        }
    }

    fn push_head(&self, out: &mut String)
        ensures
            final(out)@ == old(out)@ + self.head_text(),
    {
        let ghost start = out@;
        out.append("Melody validation in ");
        out.append(self.system.as_str());
        out.append(" — ");
        out.append(self.scale.as_str());
        out.append(" scale (root ");
        push_int(out, self.root_index as i128);
        out.append(", ");
        push_nat(out, self.note_count as u128);
        out.append(" note(s)).\n");
        let ghost l1 = out@;
        out.append("Ambitus: ");
        push_int(out, self.ambitus.span as i128);
        out.append(" semitone(s) [");
        push_int(out, self.ambitus.lowest as i128);
        out.append(" → ");
        push_int(out, self.ambitus.highest as i128);
        out.append("]. Max interval allowed: ±");
        push_int(out, self.max_interval as i128);
        out.append(".\n");
        let ghost l2 = out@;
        out.append("Allowed pitch classes (relative to root): ");
        push_dbg_list(out, &crate::text::widen_u8s(&self.allowed_pitch_classes));
        out.append("\n");
        assert(l1 =~= start + ("Melody validation in "@ + self.system@ + " — "@ + self.scale@ + " scale (root "@ + dec_int(
            self.root_index as int,
        ) + ", "@ + dec_nat(self.note_count as nat) + " note(s)).\n"@));
        assert(l2 =~= l1 + ("Ambitus: "@ + dec_int(
            self.ambitus.span as int,
        ) + " semitone(s) ["@ + dec_int(self.ambitus.lowest as int) + " → "@ + dec_int(
            self.ambitus.highest as int,
        ) + "]. Max interval allowed: ±"@ + dec_int(self.max_interval as int) + ".\n"@));
        assert(out@ =~= l2 + ("Allowed pitch classes (relative to root): "@ + dbg_list(
            self.allowed_pitch_classes@.map_values(|x: u8| x as int),
        ) + "\n"@));
        assert(out@ =~= start + self.head_text());
    }

    fn push_notes_block(&self, out: &mut String)
        ensures
            final(out)@ == old(out)@ + self.notes_block(),
    {
        let ghost head = out@;
        if self.out_of_scale_notes.len() > 0 {
            push_nat(out, self.out_of_scale_notes.len() as u128);
            out.append(" note(s) fall outside the implied scale:\n");
            let ghost base = out@;
            for i in 0..self.out_of_scale_notes.len()
                invariant
                    out@ == base + concat_map(self.out_of_scale_notes@.take(i as int), |n: InvalidMelodyNote| note_line(n)),
            {
                push_note_line(out, &self.out_of_scale_notes[i]);
                assert(self.out_of_scale_notes@.take(i + 1).drop_last() =~= self.out_of_scale_notes@.take(i as int));
                assert(out@ =~= base + concat_map(self.out_of_scale_notes@.take(i + 1), |n: InvalidMelodyNote| note_line(n)));
            }
            assert(self.out_of_scale_notes@.take(self.out_of_scale_notes.len() as int) =~= self.out_of_scale_notes@);
            assert(out@ =~= head + self.notes_block());
        } else {
            assert(out@ =~= head + self.notes_block());
        }
    }

    fn push_leaps_block(&self, out: &mut String)
        ensures
            final(out)@ == old(out)@ + self.leaps_block(),
    {
        let ghost mid = out@;
        if self.leap_violations.len() > 0 {
            push_nat(out, self.leap_violations.len() as u128);
            out.append(" leap violation(s) exceed ±");
            push_int(out, self.max_interval as i128);
            out.append(" semitone(s):\n");
            let ghost base = out@;
            for i in 0..self.leap_violations.len()
                invariant
                    out@ == base + concat_map(self.leap_violations@.take(i as int), |v: LeapViolation| leap_line(v)),
            {
                push_leap_line(out, &self.leap_violations[i]);
                assert(self.leap_violations@.take(i + 1).drop_last() =~= self.leap_violations@.take(i as int));
                assert(out@ =~= base + concat_map(self.leap_violations@.take(i + 1), |v: LeapViolation| leap_line(v)));
            }
            assert(self.leap_violations@.take(self.leap_violations.len() as int) =~= self.leap_violations@);
            assert(out@ =~= mid + self.leaps_block());
        } else {
            assert(out@ =~= mid + self.leaps_block());
        }
    }

    /// Renders the report as text.
    pub fn render_text(&self) -> (out: String)
        ensures
            out@ == self.text(),
    {
        let mut out = String::new();
        self.push_head(&mut out);
        if self.out_of_scale_notes.len() == 0 && self.leap_violations.len() == 0 {
            out.append("No validation issues detected.\n");
            return out;
        }
        let ghost head = out@;
        self.push_notes_block(&mut out);
        let ghost mid = out@;
        self.push_leaps_block(&mut out);
        assert(out@ =~= head + self.notes_block() + self.leaps_block());
        assert(out@ =~= self.text());
        out
    }
}

} // verus!

verus! {

/// The report line of an invalid token.
pub open spec fn invalid_line(t: (nat, Seq<char>, Seq<char>)) -> Seq<char> {
    "  • pos "@ + dec_nat(t.0 + 1) + ": '"@ + t.1 + "' (normalized '"@ + t.2 + "')\n"@
}

/// The function-count line shared by progression reports.
pub open spec fn counts_line(c: FunctionCounts) -> Seq<char> {
    "Function counts — tonic "@ + dec_nat(c.tonic as nat) + ", predominant "@ + dec_nat(
        c.predominant as nat,
    ) + ", dominant "@ + dec_nat(c.dominant as nat) + ", other "@ + dec_nat(c.other as nat) + ".\n"@
}

fn push_invalid_line(out: &mut String, t: &InvalidProgressionToken)
    ensures
        final(out)@ == old(out)@ + invalid_line(t.model()),
{
    let ghost start = out@;
    out.append("  • pos ");
    push_nat(out, t.position as u128 + 1);
    out.append(": '");
    out.append(t.token.as_str());
    out.append("' (normalized '");
    out.append(t.normalized.as_str());
    out.append("')\n");
    assert(out@ =~= start + invalid_line(t.model()));
}

fn push_counts_line(out: &mut String, c: &FunctionCounts)
    ensures
        final(out)@ == old(out)@ + counts_line(*c),
{
    let ghost start = out@;
    out.append("Function counts — tonic ");
    push_nat(out, c.tonic as u128);
    out.append(", predominant ");
    push_nat(out, c.predominant as u128);
    out.append(", dominant ");
    push_nat(out, c.dominant as u128);
    out.append(", other ");
    push_nat(out, c.other as u128);
    out.append(".\n");
    assert(out@ =~= start + counts_line(*c));
}

impl ProgressionValidationReport {
    pub open spec fn key_block(&self) -> Seq<char> {
        match self.key_hint {
            Some(k) => "Key hint: "@ + k@ + ".\n"@,
            None => Seq::empty(),
        }
    }

    pub open spec fn invalid_block(&self) -> Seq<char> {
        let inv = self.invalid_chords@;
        if inv.len() > 0 {
            dec_nat(inv.len()) + " invalid chord token(s) found:\n"@ + concat_map(
                inv,
                |t: InvalidProgressionToken| invalid_line(t.model()),
            )
        } else {
            "All chord tokens parse as valid Roman numerals.\n"@
        }
    }

    pub open spec fn duplicates_block(&self) -> Seq<char> {
        let d = self.duplicate_positions@;
        if d.len() > 0 {
            "Adjacent duplicates at positions: "@ + dbg_list(d.map_values(|p: usize| p + 1)) + ".\n"@
        } else {
            Seq::empty()
        }
    }

    pub open spec fn cadence_block(&self) -> Seq<char> {
        match self.cadence {
            Some(c) => "Detected cadence "@ + c.pattern@ + " ("@ + c.description@ + ", confidence "@
                + dec_nat(c.confidence_pct as nat) + "%).\n"@,
            None => "No terminal cadence detected (progression ends on "@ + (if self.progression@.len()
                > 0 {
                self.progression@.last()@
            } else {
                "—"@
            }) + ").\n"@,
        }
    }

    /// The text rendering of this report.
    pub open spec fn text(&self) -> Seq<char> {
        "Progression validation ("@ + dec_nat(self.chord_count as nat) + " chord(s)).\n"@
            + self.key_block() + self.invalid_block() + self.duplicates_block() + counts_line(
            self.function_counts,
        ) + self.cadence_block()
    }

    fn push_invalid_block(&self, out: &mut String)
        ensures
            final(out)@ == old(out)@ + self.invalid_block(),
    {
        let ghost head = out@;
        if self.invalid_chords.len() > 0 {
            push_nat(out, self.invalid_chords.len() as u128);
            out.append(" invalid chord token(s) found:\n");
            let ghost base = out@;
            for i in 0..self.invalid_chords.len()
                invariant
                    out@ == base + concat_map(
                        self.invalid_chords@.take(i as int),
                        |t: InvalidProgressionToken| invalid_line(t.model()),
                    ),
            {
                push_invalid_line(out, &self.invalid_chords[i]);
                assert(self.invalid_chords@.take(i + 1).drop_last() =~= self.invalid_chords@.take(i as int));
                assert(out@ =~= base + concat_map(
                    self.invalid_chords@.take(i + 1),
                    |t: InvalidProgressionToken| invalid_line(t.model()),
                ));
            }
            assert(self.invalid_chords@.take(self.invalid_chords.len() as int) =~= self.invalid_chords@);
            assert(out@ =~= head + self.invalid_block());
        } else {
            out.append("All chord tokens parse as valid Roman numerals.\n");
        }
    }

    fn push_duplicates_block(&self, out: &mut String)
        ensures
            final(out)@ == old(out)@ + self.duplicates_block(),
    {
        let ghost head = out@;
        if self.duplicate_positions.len() > 0 {
            out.append("Adjacent duplicates at positions: ");
            let mut shown: Vec<i128> = Vec::new();
            for i in 0..self.duplicate_positions.len()
                invariant
                    shown@.map_values(|x: i128| x as int) == self.duplicate_positions@.take(i as int).map_values(
                        |p: usize| p + 1,
                    ),
            {
                let ghost before = shown@;
                shown.push(self.duplicate_positions[i] as i128 + 1);
                assert(self.duplicate_positions@.take(i + 1) =~= self.duplicate_positions@.take(i as int).push(
                    self.duplicate_positions@[i as int],
                ));
                assert(shown@.map_values(|x: i128| x as int) =~= before.map_values(|x: i128| x as int).push(
                    self.duplicate_positions@[i as int] + 1,
                ));
            }
            assert(self.duplicate_positions@.take(self.duplicate_positions.len() as int)
                =~= self.duplicate_positions@);
            push_dbg_list(out, &shown);
            out.append(".\n");
            assert(out@ =~= head + self.duplicates_block());
        }
    }

    fn push_cadence_block(&self, out: &mut String)
        ensures
            final(out)@ == old(out)@ + self.cadence_block(),
    {
        let ghost head = out@;
        match &self.cadence {
            Some(c) => {
                out.append("Detected cadence ");
                out.append(c.pattern.as_str());
                out.append(" (");
                out.append(c.description.as_str());
                out.append(", confidence ");
                push_nat(out, c.confidence_pct as u128);
                out.append("%).\n");
            },
            None => {
                out.append("No terminal cadence detected (progression ends on ");
                if self.progression.len() > 0 {
                    out.append(self.progression[self.progression.len() - 1].as_str());
                } else {
                    out.append("—");
                }
                out.append(").\n");
            },
        }
        assert(out@ =~= head + self.cadence_block());
    }

    /// Renders the report as text.
    pub fn render_text(&self) -> (out: String)
        ensures
            out@ == self.text(),
    {
        let mut out = String::new();
        out.append("Progression validation (");
        push_nat(&mut out, self.chord_count as u128);
        out.append(" chord(s)).\n");
        let ghost l1 = out@;
        if let Some(key) = &self.key_hint {
            out.append("Key hint: ");
            out.append(key.as_str());
            out.append(".\n");
        }
        assert(out@ =~= l1 + self.key_block());
        self.push_invalid_block(&mut out);
        self.push_duplicates_block(&mut out);
        push_counts_line(&mut out, &self.function_counts);
        self.push_cadence_block(&mut out);
        assert(out@ =~= self.text());
        out
    }
}

} // verus!
