//! Comparing two melodies, two progressions, or their profiles.

use vstd::prelude::*;
use crate::analysis::{
    ambitus_of, count_unique_upper, distinct_count, hist_of, histogram_bins, bins_of, sanitize_progression,
    sanitized, span_fits, Ambitus, PitchClassBin,
};
use crate::chars::upper_seq;
use crate::order::{insert_sorted_chars, lemma_sorted_set, sorted_set, strictly_sorted};
use crate::pitch::{build_histogram, is_range};
use crate::roman::{
    cadence_of, classify_functions, detect_cadence, norm_roman, normalized_chars, views, CadenceSummary,
    FunctionCounts,
};
use crate::search::hits;
use crate::text::{concat_map, dec_int, dec_nat, join, pad_left, push_int, push_join, push_nat};

verus! {

/// A member of `hits(s, pred)` is a member of `s` that satisfies `pred`.
pub proof fn lemma_hits_contains<T>(s: Seq<T>, pred: spec_fn(T) -> bool, y: T)
    ensures
        hits(s, pred).contains(y) <==> (s.contains(y) && pred(y)),
    decreases s.len(),
{
    if s.len() > 0 {
        let p = s.drop_last();
        lemma_hits_contains(p, pred, y);
        let hp = hits(p, pred);
        let hs = hits(s, pred);
        if hs.contains(y) {
            let k = choose|k: int| 0 <= k < hs.len() && hs[k] == y;
            if k < hp.len() {
                assert(hp[k] == y);
                let m = choose|m: int| 0 <= m < p.len() && p[m] == y;
                assert(s[m] == y);
            } else {
                assert(s[s.len() - 1] == y);
            }
        }
        if s.contains(y) && pred(y) {
            let m = choose|m: int| 0 <= m < s.len() && s[m] == y;
            if m < s.len() - 1 {
                assert(p[m] == y);
                let k = choose|k: int| 0 <= k < hp.len() && hp[k] == y;
                assert(hs[k] == y);
            } else {
                assert(hs[hs.len() - 1] == y);
            }
        }
    }
}

/// The normalised Roman numerals of a progression.
pub open spec fn normalized(s: Seq<Seq<char>>) -> Seq<Seq<char>> {
    s.map_values(|t: Seq<char>| norm_roman(t))
}

/// The chords two progressions share, those only the left has and those only the right
/// has, each as a sorted set of normalised numerals.
pub open spec fn progression_split(left: Seq<Seq<char>>, right: Seq<Seq<char>>) -> (Seq<Seq<char>>, Seq<Seq<char>>, Seq<Seq<char>>) {
    let l = normalized(left);
    let r = normalized(right);
    (
        sorted_set(hits(l, |x: Seq<char>| r.contains(x))),
        sorted_set(hits(l, |x: Seq<char>| !r.contains(x))),
        sorted_set(hits(r, |x: Seq<char>| !l.contains(x))),
    )
}

/// Each numeral of either progression lands in exactly one part: shared when both have
/// it, else on the side that has it; each part is sorted without repeats.
pub proof fn lemma_progression_split(left: Seq<Seq<char>>, right: Seq<Seq<char>>)
    ensures
        ({
            let (shared, left_only, right_only) = progression_split(left, right);
            let l = normalized(left);
            let r = normalized(right);
            &&& strictly_sorted(shared)
            &&& strictly_sorted(left_only)
            &&& strictly_sorted(right_only)
            &&& forall|x: Seq<char>| shared.contains(x) <==> (l.contains(x) && r.contains(x))
            &&& forall|x: Seq<char>| left_only.contains(x) <==> (l.contains(x) && !r.contains(x))
            &&& forall|x: Seq<char>| right_only.contains(x) <==> (r.contains(x) && !l.contains(x))
        }),
{
    let l = normalized(left);
    let r = normalized(right);
    let p1 = |x: Seq<char>| r.contains(x);
    let p2 = |x: Seq<char>| !r.contains(x);
    let p3 = |x: Seq<char>| !l.contains(x);
    lemma_sorted_set(hits(l, p1));
    lemma_sorted_set(hits(l, p2));
    lemma_sorted_set(hits(r, p3));
    assert forall|x: Seq<char>| sorted_set(hits(l, p1)).contains(x) <==> (l.contains(x) && r.contains(x)) by {
        lemma_hits_contains(l, p1, x);
    }
    assert forall|x: Seq<char>| sorted_set(hits(l, p2)).contains(x) <==> (l.contains(x) && !r.contains(x)) by {
        lemma_hits_contains(l, p2, x);
    }
    assert forall|x: Seq<char>| sorted_set(hits(r, p3)).contains(x) <==> (r.contains(x) && !l.contains(x)) by {
        lemma_hits_contains(r, p3, x);
    }
}

fn normalized_list(tokens: &Vec<String>) -> (r: Vec<Vec<char>>)
    ensures
        r@.map_values(|v: Vec<char>| v@) == normalized(views(tokens@)),
{
    let mut r: Vec<Vec<char>> = Vec::new();
    for i in 0..tokens.len()
        invariant
            r@.map_values(|v: Vec<char>| v@) == normalized(views(tokens@)).take(i as int),
    {
        let v = normalized_chars(&tokens[i]);
        let ghost before = r@;
        r.push(v);
        assert(r@.map_values(|v: Vec<char>| v@) =~= before.map_values(|v: Vec<char>| v@).push(v@));
        assert(normalized(views(tokens@)).take(i + 1) =~= normalized(views(tokens@)).take(i as int).push(
            norm_roman(tokens@[i as int]@),
        ));
    }
    assert(normalized(views(tokens@)).take(tokens.len() as int) =~= normalized(views(tokens@)));
    r
}

fn strings_of(list: &Vec<Vec<char>>) -> (r: Vec<String>)
    ensures
        views(r@) == list@.map_values(|v: Vec<char>| v@),
{
    let mut r: Vec<String> = Vec::new();
    for i in 0..list.len()
        invariant
            views(r@) == list@.map_values(|v: Vec<char>| v@).take(i as int),
    {
        let ghost before = r@;
        r.push(crate::text::string_of(&list[i]));
        assert(views(r@) =~= views(before).push(list@[i as int]@));
        assert(list@.map_values(|v: Vec<char>| v@).take(i + 1) =~= list@.map_values(|v: Vec<char>| v@).take(
            i as int,
        ).push(list@[i as int]@));
    }
    assert(list@.map_values(|v: Vec<char>| v@).take(list.len() as int) =~= list@.map_values(|v: Vec<char>| v@));
    r
}

/// Splits the chords of two progressions into shared, left-only and right-only
/// (see `progression_split`).
pub fn compare_progressions(left: &Vec<String>, right: &Vec<String>) -> (r: (Vec<String>, Vec<String>, Vec<String>))
    ensures
        (views(r.0@), views(r.1@), views(r.2@)) == progression_split(views(left@), views(right@)),
{
    let l = normalized_list(left);
    let rr = normalized_list(right);
    let ghost ls = normalized(views(left@));
    let ghost rs = normalized(views(right@));
    let ghost p1 = |x: Seq<char>| rs.contains(x);
    let ghost p2 = |x: Seq<char>| !rs.contains(x);
    let ghost p3 = |x: Seq<char>| !ls.contains(x);
    let mut shared: Vec<Vec<char>> = Vec::new();
    let mut left_only: Vec<Vec<char>> = Vec::new();
    for i in 0..l.len()
        invariant
            l@.map_values(|v: Vec<char>| v@) == ls,
            rr@.map_values(|v: Vec<char>| v@) == rs,
            p1 == (|x: Seq<char>| rs.contains(x)),
            p2 == (|x: Seq<char>| !rs.contains(x)),
            shared@.map_values(|v: Vec<char>| v@) == sorted_set(hits(ls.take(i as int), p1)),
            left_only@.map_values(|v: Vec<char>| v@) == sorted_set(hits(ls.take(i as int), p2)),
    {
        assert(ls.take(i + 1).drop_last() =~= ls.take(i as int));
        assert(ls.take(i + 1).last() == l@[i as int]@);
        let x = crate::chars::slice_chars(&l[i], 0, l[i].len());
        assert(x@ =~= ls[i as int]);
        let ghost h1 = hits(ls.take(i as int), p1);
        let ghost h2 = hits(ls.take(i as int), p2);
        if crate::analysis::list_contains(&rr, &x) {
            assert(h1.push(x@).drop_last() =~= h1);
            insert_sorted_chars(&mut shared, x);
        } else {
            assert(h2.push(x@).drop_last() =~= h2);
            insert_sorted_chars(&mut left_only, x);
        }
    }
    assert(ls.take(l.len() as int) =~= ls);
    let mut right_only: Vec<Vec<char>> = Vec::new();
    for i in 0..rr.len()
        invariant
            l@.map_values(|v: Vec<char>| v@) == ls,
            rr@.map_values(|v: Vec<char>| v@) == rs,
            p3 == (|x: Seq<char>| !ls.contains(x)),
            right_only@.map_values(|v: Vec<char>| v@) == sorted_set(hits(rs.take(i as int), p3)),
    {
        assert(rs.take(i + 1).drop_last() =~= rs.take(i as int));
        assert(rs.take(i + 1).last() == rr@[i as int]@);
        let x = crate::chars::slice_chars(&rr[i], 0, rr[i].len());
        assert(x@ =~= rs[i as int]);
        let ghost h3 = hits(rs.take(i as int), p3);
        if !crate::analysis::list_contains(&l, &x) {
            assert(h3.push(x@).drop_last() =~= h3);
            insert_sorted_chars(&mut right_only, x);
        }
    }
    assert(rs.take(rr.len() as int) =~= rs);
    (strings_of(&shared), strings_of(&left_only), strings_of(&right_only))
}

/// The profile of one progression.
pub struct ProgressionProfileSummary {
    pub progression: Vec<String>,
    pub chord_count: usize,
    pub unique_chords: usize,
    pub function_counts: FunctionCounts,
    pub cadence: Option<CadenceSummary>,
}

impl ProgressionProfileSummary {
    /// Whether this profile describes the progression `p`.
    pub open spec fn describes(&self, p: Seq<Seq<char>>) -> bool {
        &&& views(self.progression@) == p
        &&& self.chord_count == p.len()
        &&& self.unique_chords == distinct_count(p.map_values(|t: Seq<char>| upper_seq(t)))
        &&& self.function_counts == FunctionCounts::of(p)
        &&& match self.cadence {
            Some(c) => cadence_of(p) == Some(c.model()),
            None => cadence_of(p) is None,
        }
    }
}

/// Counts the chords, distinct chords (ignoring case) and functions of a progression,
/// and detects its cadence.
pub fn build_progression_profile(tokens: Vec<String>) -> (p: ProgressionProfileSummary)
    ensures
        p.describes(views(tokens@)),
{
    let function_counts = classify_functions(&tokens);
    let cadence = detect_cadence(&tokens);
    let unique_chords = count_unique_upper(&tokens);
    let chord_count = tokens.len();
    ProgressionProfileSummary { progression: tokens, chord_count, unique_chords, function_counts, cadence }
}

/// A comparison of two progressions.
pub struct ProgressionDiffReport {
    pub key_hint: Option<String>,
    pub left: ProgressionProfileSummary,
    pub right: ProgressionProfileSummary,
    pub shared_chords: Vec<String>,
    pub left_unique: Vec<String>,
    pub right_unique: Vec<String>,
    pub commentary: Vec<String>,
}

/// Why a comparison was refused.
#[derive(Clone, Copy, Debug, PartialEq, Eq, Structural)]
pub enum DiffError {
    /// One side has no chords or notes.
    EmptySide,
}

/// The remarks on two progressions: which leans more on the dominant, how their
/// cadences differ, and whether they share no chord.
pub open spec fn progression_commentary(l: Seq<Seq<char>>, r: Seq<Seq<char>>, shared_empty: bool) -> Seq<Seq<char>> {
    let ld = FunctionCounts::of(l).dominant;
    let rd = FunctionCounts::of(r).dominant;
    (if ld > rd {
        seq!["Left progression leans more on dominant function"@]
    } else if rd > ld {
        seq!["Right progression emphasizes dominant function more"@]
    } else {
        Seq::empty()
    }) + (match (cadence_of(l), cadence_of(r)) {
        (Some(a), Some(b)) => if a.0 != b.0 {
            seq!["Cadence shift: left "@ + a.0 + " vs right "@ + b.0]
        } else {
            Seq::empty()
        },
        (Some(_), None) => seq!["Left progression cadences while right does not"@],
        (None, Some(_)) => seq!["Right progression cadences while left does not"@],
        (None, None) => Seq::empty(),
    }) + (if shared_empty {
        seq!["No shared chords — sequences are fully distinct"@]
    } else {
        Seq::empty()
    })
}

fn cadence_remark(l: &Option<CadenceSummary>, r: &Option<CadenceSummary>, out: &mut Vec<String>)
    ensures
        views(final(out)@) == views(old(out)@) + match (l, r) {
            (Some(a), Some(b)) => if a.pattern@ != b.pattern@ {
                seq!["Cadence shift: left "@ + a.pattern@ + " vs right "@ + b.pattern@]
            } else {
                Seq::empty()
            },
            (Some(_), None) => seq!["Left progression cadences while right does not"@],
            (None, Some(_)) => seq!["Right progression cadences while left does not"@],
            (None, None) => Seq::<Seq<char>>::empty(),
        },
{
    let ghost before = views(out@);
    match (l, r) {
        (Some(a), Some(b)) => {
            let av = crate::text::chars_of(a.pattern.as_str());
            let bv = crate::text::chars_of(b.pattern.as_str());
            if !crate::chars::vec_eq(&av, &bv) {
                let mut m = String::from_str("Cadence shift: left ");
                m.append(a.pattern.as_str());
                m.append(" vs right ");
                m.append(b.pattern.as_str());
                out.push(m);
            }
        },
        (Some(_), None) => out.push(String::from_str("Left progression cadences while right does not")),
        (None, Some(_)) => out.push(String::from_str("Right progression cadences while left does not")),
        (None, None) => {},
    }
    assert(views(out@) =~= before + match (l, r) {
        (Some(a), Some(b)) => if a.pattern@ != b.pattern@ {
            seq!["Cadence shift: left "@ + a.pattern@ + " vs right "@ + b.pattern@]
        } else {
            Seq::empty()
        },
        (Some(_), None) => seq!["Left progression cadences while right does not"@],
        (None, Some(_)) => seq!["Right progression cadences while left does not"@],
        (None, None) => Seq::<Seq<char>>::empty(),
    });
}

/// Compares two progressions: each is trimmed of blank tokens and profiled, their chords
/// are split into shared and one-sided sets (see `progression_split`), and the remarks of
/// `progression_commentary` are added. Refused when either side has no tokens at all.
pub fn explain_diff_progression(left: &Vec<String>, right: &Vec<String>, key_hint: Option<String>) -> (r: Result<ProgressionDiffReport, DiffError>)
    ensures
        (left.len() == 0 || right.len() == 0) <==> r is Err,
        r matches Ok(rep) ==> {
            let l = sanitized(views(left@));
            let rr = sanitized(views(right@));
            let (shared, left_only, right_only) = progression_split(l, rr);
            &&& rep.key_hint == key_hint
            &&& rep.left.describes(l)
            &&& rep.right.describes(rr)
            &&& views(rep.shared_chords@) == shared
            &&& views(rep.left_unique@) == left_only
            &&& views(rep.right_unique@) == right_only
            &&& views(rep.commentary@) == progression_commentary(l, rr, shared.len() == 0)
        },
{
    if left.len() == 0 || right.len() == 0 {
        return Err(DiffError::EmptySide);
    }
    let l = sanitize_progression(left);
    let rr = sanitize_progression(right);
    let (shared, left_only, right_only) = compare_progressions(&l, &rr);
    let lp = build_progression_profile(l);
    let rp = build_progression_profile(rr);
    let ghost ls = sanitized(views(left@));
    let ghost rs = sanitized(views(right@));
    let mut commentary: Vec<String> = Vec::new();
    if lp.function_counts.dominant > rp.function_counts.dominant {
        commentary.push(String::from_str("Left progression leans more on dominant function"));
    } else if rp.function_counts.dominant > lp.function_counts.dominant {
        commentary.push(String::from_str("Right progression emphasizes dominant function more"));
    }
    cadence_remark(&lp.cadence, &rp.cadence, &mut commentary);
    if shared.len() == 0 {
        let ghost before = views(commentary@);
        commentary.push(String::from_str("No shared chords — sequences are fully distinct"));
        assert(views(commentary@) =~= before.push("No shared chords — sequences are fully distinct"@));
    }
    proof {
        assert(views(shared@).len() == shared.len());
    }
    assert(views(commentary@) =~= progression_commentary(ls, rs, shared.len() == 0));
    Ok(ProgressionDiffReport {
        key_hint,
        left: lp,
        right: rp,
        shared_chords: shared,
        left_unique: left_only,
        right_unique: right_only,
        commentary,
    })
}

/// The two lines describing one progression of a comparison.
pub open spec fn progression_side_text(side: Seq<char>, p: ProgressionProfileSummary) -> Seq<char> {
    side + " progression ("@ + dec_nat(p.chord_count as nat) + " chords, "@ + dec_nat(p.unique_chords as nat)
        + " unique):\n"@ + "  "@ + join(views(p.progression@), " → "@) + "\n"@
}

fn push_progression_side(out: &mut String, side: &str, p: &ProgressionProfileSummary)
    ensures
        final(out)@ == old(out)@ + progression_side_text(side@, *p),
{
    let ghost start = out@;
    out.append(side);
    out.append(" progression (");
    push_nat(out, p.chord_count as u128);
    out.append(" chords, ");
    push_nat(out, p.unique_chords as u128);
    out.append(" unique):\n");
    out.append("  ");
    push_join(out, &p.progression, " → ");
    out.append("\n");
    assert(out@ =~= start + progression_side_text(side@, *p));
}

/// A labelled list line, shown only when the list is not empty.
pub open spec fn list_line(label: Seq<char>, items: Seq<String>) -> Seq<char> {
    if items.len() > 0 {
        label + join(views(items), ", "@) + "\n"@
    } else {
        Seq::empty()
    }
}

fn push_list_line(out: &mut String, label: &str, items: &Vec<String>)
    ensures
        final(out)@ == old(out)@ + list_line(label@, items@),
{
    let ghost start = out@;
    if items.len() > 0 {
        out.append(label);
        push_join(out, items, ", ");
        out.append("\n");
    }
    assert(out@ =~= start + list_line(label@, items@));
}

/// Remarks as a bulleted block after a blank line, when there are any.
pub open spec fn remarks_block(commentary: Seq<String>) -> Seq<char> {
    if commentary.len() > 0 {
        "\n"@ + concat_map(commentary, |c: String| "  • "@ + c@ + "\n"@)
    } else {
        Seq::empty()
    }
}

/// Appends remarks as a bulleted block (see `remarks_block`).
pub fn push_remarks(out: &mut String, commentary: &Vec<String>)
    ensures
        final(out)@ == old(out)@ + remarks_block(commentary@),
{
    let ghost start = out@;
    if commentary.len() > 0 {
        out.append("\n");
        let ghost base = out@;
        for i in 0..commentary.len()
            invariant
                out@ == base + concat_map(commentary@.take(i as int), |c: String| "  • "@ + c@ + "\n"@),
        {
            out.append("  • ");
            out.append(commentary[i].as_str());
            out.append("\n");
            assert(commentary@.take(i + 1).drop_last() =~= commentary@.take(i as int));
            assert(out@ =~= base + concat_map(commentary@.take(i + 1), |c: String| "  • "@ + c@ + "\n"@));
        }
        assert(commentary@.take(commentary.len() as int) =~= commentary@);
    }
    assert(out@ =~= start + remarks_block(commentary@));
}

impl ProgressionDiffReport {
    /// The text rendering of this report.
    pub open spec fn text(&self) -> Seq<char> {
        (match self.key_hint {
            Some(k) => "Context key: "@ + k@ + ".\n"@,
            None => Seq::empty(),
        }) + progression_side_text("Left"@, self.left) + progression_side_text("Right"@, self.right) + list_line(
            "Shared chords: "@,
            self.shared_chords@,
        ) + list_line("Left-only: "@, self.left_unique@) + list_line("Right-only: "@, self.right_unique@)
            + remarks_block(self.commentary@)
    }

    /// Renders the report as text (see `text`).
    pub fn render_text(&self) -> (out: String)
        ensures
            out@ == self.text(),
    {
        let mut out = String::new();
        if let Some(k) = &self.key_hint {
            out.append("Context key: ");
            out.append(k.as_str());
            out.append(".\n");
        }
        push_progression_side(&mut out, "Left", &self.left);
        push_progression_side(&mut out, "Right", &self.right);
        push_list_line(&mut out, "Shared chords: ", &self.shared_chords);
        push_list_line(&mut out, "Left-only: ", &self.left_unique);
        push_list_line(&mut out, "Right-only: ", &self.right_unique);
        push_remarks(&mut out, &self.commentary);
        assert(out@ =~= self.text());
        out
    }
}

/// The profile of one melody.
pub struct MelodyProfileSummary {
    pub note_count: usize,
    pub distinct_pitch_classes: usize,
    pub ambitus: Ambitus,
    pub histogram: Vec<PitchClassBin>,
}

/// Counts a melody's notes and pitch classes and finds its ambitus.
pub fn build_melody_profile(notes: &Vec<i32>) -> (p: MelodyProfileSummary)
    requires
        notes.len() > 0,
        span_fits(notes@),
    ensures
        p.note_count == notes.len(),
        p.histogram@ == bins_of(hist_of(notes@), 12),
        p.distinct_pitch_classes == p.histogram.len(),
        is_range(notes@, p.ambitus.lowest, p.ambitus.highest),
        p.ambitus.span == p.ambitus.highest - p.ambitus.lowest,
{
    let h = build_histogram(notes);
    assert(h@ =~= hist_of(notes@));
    let bins = histogram_bins(&h);
    let ambitus = ambitus_of(notes);
    MelodyProfileSummary { note_count: notes.len(), distinct_pitch_classes: bins.len(), ambitus, histogram: bins }
}

/// The lines describing one melody of a comparison.
pub open spec fn melody_side_text(label: Seq<char>, p: MelodyProfileSummary) -> Seq<char> {
    label + " — notes "@ + dec_nat(p.note_count as nat) + ", distinct pcs "@ + dec_nat(p.distinct_pitch_classes as nat)
        + ", ambitus "@ + dec_int(p.ambitus.span as int) + " st (lowest "@ + dec_int(p.ambitus.lowest as int)
        + ", highest "@ + dec_int(p.ambitus.highest as int) + ").\n"@ + if p.histogram.len() > 0 {
        "  Histogram:\n"@ + concat_map(
            p.histogram@,
            |b: PitchClassBin| "    pc "@ + pad_left(dec_nat(b.pitch_class as nat), 2) + ": "@ + dec_nat(b.count as nat) + "\n"@,
        )
    } else {
        Seq::empty()
    }
}

fn push_bin_line(out: &mut String, b: PitchClassBin)
    ensures
        final(out)@ == old(out)@ + ("    pc "@ + pad_left(dec_nat(b.pitch_class as nat), 2) + ": "@ + dec_nat(b.count as nat) + "\n"@),
{
    let ghost start = out@;
    out.append("    pc ");
    let mut digits = String::new();
    push_nat(&mut digits, b.pitch_class as u128);
    let dv = crate::text::chars_of(digits.as_str());
    crate::text::push_padded_left(out, &dv, 2);
    out.append(": ");
    push_nat(out, b.count as u128);
    out.append("\n");
    assert(out@ =~= start + ("    pc "@ + pad_left(dec_nat(b.pitch_class as nat), 2) + ": "@ + dec_nat(b.count as nat) + "\n"@));
}

/// Appends the lines describing one melody of a comparison (see `melody_side_text`).
pub fn render_melody_side(out: &mut String, label: &str, profile: &MelodyProfileSummary)
    ensures
        final(out)@ == old(out)@ + melody_side_text(label@, *profile),
{
    let ghost start = out@;
    out.append(label);
    out.append(" — notes ");
    push_nat(out, profile.note_count as u128);
    out.append(", distinct pcs ");
    push_nat(out, profile.distinct_pitch_classes as u128);
    out.append(", ambitus ");
    push_int(out, profile.ambitus.span as i128);
    out.append(" st (lowest ");
    push_int(out, profile.ambitus.lowest as i128);
    out.append(", highest ");
    push_int(out, profile.ambitus.highest as i128);
    out.append(").\n");
    let ghost head = out@;
    if profile.histogram.len() > 0 {
        out.append("  Histogram:\n");
        let ghost base = out@;
        for i in 0..profile.histogram.len()
            invariant
                out@ == base + concat_map(
                    profile.histogram@.take(i as int),
                    |b: PitchClassBin| "    pc "@ + pad_left(dec_nat(b.pitch_class as nat), 2) + ": "@ + dec_nat(b.count as nat) + "\n"@,
                ),
        {
            push_bin_line(out, profile.histogram[i]);
            assert(profile.histogram@.take(i + 1).drop_last() =~= profile.histogram@.take(i as int));
        }
        assert(profile.histogram@.take(profile.histogram.len() as int) =~= profile.histogram@);
    }
    assert(out@ =~= start + melody_side_text(label@, *profile));
}

/// The pitch classes, ascending, on which `keep` holds of the two histograms' counts.
pub open spec fn pcs_where(l: Seq<usize>, r: Seq<usize>, shared: bool, n: int) -> Seq<u8>
    decreases n,
{
    if n <= 0 {
        Seq::empty()
    } else {
        let prev = pcs_where(l, r, shared, n - 1);
        let k = n - 1;
        if l[k] > 0 && (if shared { r[k] > 0 } else { r[k] == 0 }) {
            prev.push(k as u8)
        } else {
            prev
        }
    }
}

/// The pitch classes both histograms hold, ascending.
pub fn intersect_pitch_classes(left: &[usize; 12], right: &[usize; 12]) -> (r: Vec<u8>)
    ensures
        r@ == pcs_where(left@, right@, true, 12),
{
    let mut r: Vec<u8> = Vec::new();
    for pc in 0..12usize
        invariant
            r@ == pcs_where(left@, right@, true, pc as int),
    {
        if left[pc] > 0 && right[pc] > 0 {
            r.push(pc as u8);
        }
    }
    r
}

/// The pitch classes the left histogram holds and the right does not, ascending.
pub fn diff_pitch_classes(left: &[usize; 12], right: &[usize; 12]) -> (r: Vec<u8>)
    ensures
        r@ == pcs_where(left@, right@, false, 12),
{
    let mut r: Vec<u8> = Vec::new();
    for pc in 0..12usize
        invariant
            r@ == pcs_where(left@, right@, false, pc as int),
    {
        if left[pc] > 0 && right[pc] == 0 {
            r.push(pc as u8);
        }
    }
    r
}

/// The sum over the first `n` pitch classes of both counts (`total`) or of their
/// differences (`!total`).
pub open spec fn hist_sum(l: Seq<usize>, r: Seq<usize>, total: bool, n: int) -> int
    decreases n,
{
    if n <= 0 {
        0
    } else {
        let k = n - 1;
        hist_sum(l, r, total, n - 1) + if total {
            l[k] + r[k]
        } else if l[k] >= r[k] {
            l[k] - r[k]
        } else {
            r[k] - l[k]
        }
    }
}

proof fn lemma_hist_sum_bound(l: Seq<usize>, r: Seq<usize>, n: int)
    requires
        0 <= n,
    ensures
        0 <= hist_sum(l, r, false, n) <= hist_sum(l, r, true, n),
        hist_sum(l, r, true, n) >= 0,
    decreases n,
{
    if n > 0 {
        lemma_hist_sum_bound(l, r, n - 1);
    }
}

proof fn lemma_hist_sum_parts(l: Seq<usize>, r: Seq<usize>, n: int)
    requires
        0 <= n <= l.len(),
        n <= r.len(),
    ensures
        hist_sum(l, r, false, n) == hist_sum(r, l, false, n),
        hist_sum(l, r, true, n) == hist_sum(r, l, true, n),
        hist_sum(l, r, false, n) == 0 <==> (forall|k: int| 0 <= k < n ==> #[trigger] l[k] == r[k]),
        hist_sum(l, r, false, n) == hist_sum(l, r, true, n) <==> (forall|k: int| 0 <= k < n ==> !(#[trigger] l[k] > 0 && r[k] > 0)),
    decreases n,
{
    if n > 0 {
        lemma_hist_sum_parts(l, r, n - 1);
        lemma_hist_sum_bound(l, r, n - 1);
        let k = n - 1;
        if hist_sum(l, r, false, n) == 0 {
            assert forall|j: int| 0 <= j < n implies #[trigger] l[j] == r[j] by {
                if j < k {
                    assert(hist_sum(l, r, false, n - 1) == 0);
                }
            }
        }
        if hist_sum(l, r, false, n) == hist_sum(l, r, true, n) {
            assert forall|j: int| 0 <= j < n implies !(#[trigger] l[j] > 0 && r[j] > 0) by {
                if j < k {
                    assert(hist_sum(l, r, false, n - 1) == hist_sum(l, r, true, n - 1));
                }
            }
        }
        if forall|j: int| 0 <= j < n ==> !(#[trigger] l[j] > 0 && r[j] > 0) {
            assert(!(l[k] > 0 && r[k] > 0));
            assert forall|j: int| 0 <= j < n - 1 implies !(#[trigger] l[j] > 0 && r[j] > 0) by {
                assert(!(l[j] > 0 && r[j] > 0));
            }
        }
        if forall|j: int| 0 <= j < n ==> #[trigger] l[j] == r[j] {
            assert(l[k] == r[k]);
            assert forall|j: int| 0 <= j < n - 1 implies #[trigger] l[j] == r[j] by {
                assert(l[j] == r[j]);
            }
        }
    }
}

/// The distance between two pitch-class histograms, as the parts `delta / total` that
/// `histogram_distance_parts` returns: it is symmetric, never above the total, zero exactly
/// when the histograms are equal, and the whole total exactly when no pitch class occurs in
/// both (so, for a non-empty pair, the distance is 0 iff equal and 1 iff disjoint).
pub proof fn lemma_histogram_distance(l: Seq<usize>, r: Seq<usize>)
    requires
        l.len() == 12,
        r.len() == 12,
    ensures
        hist_sum(l, r, false, 12) == hist_sum(r, l, false, 12),
        hist_sum(l, r, true, 12) == hist_sum(r, l, true, 12),
        0 <= hist_sum(l, r, false, 12) <= hist_sum(l, r, true, 12),
        hist_sum(l, r, false, 12) == 0 <==> l == r,
        hist_sum(l, r, false, 12) == hist_sum(l, r, true, 12) <==> (forall|pc: int| 0 <= pc < 12 ==> !(#[trigger] l[pc] > 0 && r[pc] > 0)),
{
    lemma_hist_sum_parts(l, r, 12);
    lemma_hist_sum_bound(l, r, 12);
    if forall|k: int| 0 <= k < 12 ==> #[trigger] l[k] == r[k] {
        assert(l =~= r);
    }
}

proof fn lemma_hist_sum_mono(l: Seq<usize>, r: Seq<usize>, a: int, b: int)
    requires
        0 <= a <= b,
    ensures
        hist_sum(l, r, true, a) <= hist_sum(l, r, true, b),
    decreases b - a,
{
    if a < b {
        lemma_hist_sum_mono(l, r, a, b - 1);
    }
}

/// The parts of the distance between two histograms: the summed count differences and
/// the summed counts (the distance is their ratio, 0 for two empty histograms).
pub fn histogram_distance_parts(left: &[usize; 12], right: &[usize; 12]) -> (r: (usize, usize))
    requires
        hist_sum(left@, right@, true, 12) <= usize::MAX,
    ensures
        r.0 == hist_sum(left@, right@, false, 12),
        r.1 == hist_sum(left@, right@, true, 12),
        r.0 <= r.1,
{
    proof {
        lemma_hist_sum_bound(left@, right@, 12);
    }
    let mut total: usize = 0;
    let mut delta: usize = 0;
    for pc in 0..12usize
        invariant
            hist_sum(left@, right@, true, 12) <= usize::MAX,
            total == hist_sum(left@, right@, true, pc as int),
            delta == hist_sum(left@, right@, false, pc as int),
    {
        proof {
            lemma_hist_sum_mono(left@, right@, pc + 1, 12);
            lemma_hist_sum_bound(left@, right@, pc + 1);
        }
        total = total + left[pc] + right[pc];
        delta = delta + if left[pc] >= right[pc] {
            left[pc] - right[pc]
        } else {
            right[pc] - left[pc]
        };
    }
    (delta, total)
}

/// The remarks on two melodies, given the distance parts, the two spans and whether
/// they share a pitch class: close (distance under 0.2) or far (over 0.5) histograms,
/// differing ambitus, no shared pitch class.
pub open spec fn melody_commentary(delta: int, total: int, left_span: int, right_span: int, shared_empty: bool) -> Seq<Seq<char>> {
    (if total == 0 || 5 * delta < total {
        seq!["Histograms are closely aligned"@]
    } else if 2 * delta > total {
        seq!["Melodies have markedly different pitch distributions"@]
    } else {
        Seq::empty()
    }) + (if left_span != right_span {
        seq!["Ambitus differs: left "@ + dec_int(left_span) + " st, right "@ + dec_int(right_span) + " st"@]
    } else {
        Seq::empty()
    }) + (if shared_empty {
        seq!["No shared pitch classes — likely contrasting keys"@]
    } else {
        Seq::empty()
    })
}

/// The remarks on two melodies (see `melody_commentary`).
pub fn melody_diff_commentary(delta: usize, total: usize, left_span: i32, right_span: i32, shared_empty: bool) -> (c: Vec<String>)
    requires
        delta <= total,
    ensures
        views(c@) == melody_commentary(delta as int, total as int, left_span as int, right_span as int, shared_empty),
{
    let mut c: Vec<String> = Vec::new();
    if total == 0 || 5 * (delta as u128) < total as u128 {
        c.push(String::from_str("Histograms are closely aligned"));
    } else if 2 * (delta as u128) > total as u128 {
        c.push(String::from_str("Melodies have markedly different pitch distributions"));
    }
    let ghost first = views(c@);
    if left_span != right_span {
        let mut m = String::from_str("Ambitus differs: left ");
        push_int(&mut m, left_span as i128);
        m.append(" st, right ");
        push_int(&mut m, right_span as i128);
        m.append(" st");
        c.push(m);
    }
    let ghost second = views(c@);
    if shared_empty {
        c.push(String::from_str("No shared pitch classes — likely contrasting keys"));
    }
    assert(views(c@) =~= melody_commentary(delta as int, total as int, left_span as int, right_span as int, shared_empty));
    c
}

} // verus!
