//! Melody and chord-progression analysis.

use vstd::prelude::*;
use crate::chars::{trim, trim_chars, upper_chars, upper_seq, vec_eq};
use crate::key::{hsum, infer_key, is_inferred_key, key_hint_spec, key_hint_splits_char, key_misses, lemma_matches_split, KeyEstimate, KeyHintError};
use crate::pitch::{build_histogram, count_pc, is_range, lemma_histogram_total, melody_range, sum_counts};
use crate::roman::{cadence_of, classify_functions, detect_cadence, views, CadenceSummary, FunctionCounts};
use crate::text::{chars_of, dec_nat, join, push_join, push_nat, string_of};

verus! {

/// The lowest and highest pitch of a melody and the distance between them.
#[derive(Clone, Copy, Debug, PartialEq, Eq, Structural)]
pub struct Ambitus {
    pub lowest: i32,
    pub highest: i32,
    pub span: i32,
}

/// How many notes fall on one pitch class.
#[derive(Clone, Copy, Debug, PartialEq, Eq, Structural)]
pub struct PitchClassBin {
    pub pitch_class: u8,
    pub count: usize,
}

/// Whether no two notes of a melody lie further apart than `i32` can express.
pub open spec fn span_fits(s: Seq<i32>) -> bool {
    forall|i: int, j: int| 0 <= i < s.len() && 0 <= j < s.len() ==> #[trigger] s[i] - #[trigger] s[j] <= i32::MAX
}

/// Tells whether a melody's span fits `i32`, so that a caller can test it before
/// analysing the melody.
pub fn melody_span_fits(notes: &Vec<i32>) -> (b: bool)
    ensures
        b == span_fits(notes@),
{
    if notes.len() == 0 {
        return true;
    }
    let (lowest, highest) = melody_range(notes);
    let ghost i = choose|i: int| 0 <= i < notes@.len() && notes@[i] == lowest;
    let ghost j = choose|j: int| 0 <= j < notes@.len() && notes@[j] == highest;
    let fits = (highest as i64) - (lowest as i64) <= i32::MAX as i64;
    proof {
        if !fits {
            assert(notes@[j] - notes@[i] > i32::MAX);
        }
    }
    fits
}

/// The ambitus of a non-empty melody.
pub fn ambitus_of(notes: &Vec<i32>) -> (a: Ambitus)
    requires
        notes.len() > 0,
        span_fits(notes@),
    ensures
        is_range(notes@, a.lowest, a.highest),
        a.span == a.highest - a.lowest,
{
    let (lowest, highest) = melody_range(notes);
    let ghost i = choose|i: int| 0 <= i < notes@.len() && notes@[i] == lowest;
    let ghost j = choose|j: int| 0 <= j < notes@.len() && notes@[j] == highest;
    assert(notes@[j] - notes@[i] <= i32::MAX);
    Ambitus { lowest, highest, span: highest - lowest }
}

/// The non-empty bins of the first `n` histogram entries, in pitch-class order.
pub open spec fn bins_of(h: Seq<usize>, n: int) -> Seq<PitchClassBin>
    decreases n,
{
    if n <= 0 {
        Seq::empty()
    } else if h[n - 1] > 0 {
        bins_of(h, n - 1).push(PitchClassBin { pitch_class: (n - 1) as u8, count: h[n - 1] })
    } else {
        bins_of(h, n - 1)
    }
}

/// The non-empty bins of a pitch-class histogram.
pub fn histogram_bins(h: &[usize; 12]) -> (bins: Vec<PitchClassBin>)
    ensures
        bins@ == bins_of(h@, 12),
{
    let mut bins: Vec<PitchClassBin> = Vec::new();
    for pc in 0..12usize
        invariant
            bins@ == bins_of(h@, pc as int),
    {
        if h[pc] > 0 {
            bins.push(PitchClassBin { pitch_class: pc as u8, count: h[pc] });
        }
    }
    bins
}

/// The histogram of a melody as a sequence.
pub open spec fn hist_of(s: Seq<i32>) -> Seq<usize> {
    Seq::new(12, |pc: int| count_pc(s, pc) as usize)
}

/// The outcome of analysing a melody.
pub struct MelodyAnalysis {
    pub note_count: usize,
    pub distinct_pitch_classes: usize,
    pub ambitus: Ambitus,
    pub best_key: KeyEstimate,
    /// The pitch index of the key's tonic in the octave of middle C: 60 plus its pitch class.
    pub tonic_index: i32,
    pub histogram: Vec<PitchClassBin>,
    pub out_of_scale: usize,
}

/// Why a melody or progression could not be analysed.
#[derive(Debug)]
pub enum AnalysisError {
    /// No notes or chords were given.
    EmptyInput,
    /// The key hint could not be read.
    KeyHint(KeyHintError),
}

proof fn lemma_hsum_counts(s: Seq<i32>, n: int)
    requires
        0 <= n <= 12,
        forall|pc: int| 0 <= pc < 12 ==> count_pc(s, pc) <= usize::MAX,
    ensures
        hsum(hist_of(s), n) == sum_counts(s, n),
    decreases n,
{
    if n > 0 {
        lemma_hsum_counts(s, n - 1);
    }
}

proof fn lemma_count_pc_bound(s: Seq<i32>, pc: int)
    ensures
        count_pc(s, pc) <= s.len(),
    decreases s.len(),
{
    if s.len() > 0 {
        lemma_count_pc_bound(s.drop_last(), pc);
    }
}

/// Infers the key of a melody, counts its pitch classes and the notes outside the key.
pub fn analyze_melody(notes: &Vec<i32>, key_hint: Option<&str>) -> (r: Result<MelodyAnalysis, AnalysisError>)
    requires
        notes.len() > 0 && (key_hint matches Some(s) ==> key_hint_spec(s@) is Some) ==> span_fits(notes@),
        notes.len() > 0 ==> (key_hint matches Some(s) ==> !key_hint_splits_char(s@)),
    ensures
        notes.len() == 0 ==> r matches Err(AnalysisError::EmptyInput),
        notes.len() > 0 ==> match r {
            Ok(a) => {
                &&& a.note_count == notes.len()
                &&& is_range(notes@, a.ambitus.lowest, a.ambitus.highest)
                &&& a.ambitus.span == a.ambitus.highest - a.ambitus.lowest
                &&& is_inferred_key(a.best_key, hist_of(notes@), notes.len() as int,
                    match key_hint { Some(s) => Some(s@), None => None })
                &&& a.histogram@ == bins_of(hist_of(notes@), 12)
                &&& a.distinct_pitch_classes == a.histogram.len()
                &&& a.out_of_scale == key_misses(hist_of(notes@), a.best_key.root_pc as int, a.best_key.mode, 12)
                &&& a.out_of_scale == notes.len() - a.best_key.matches
                &&& a.tonic_index == 60 + a.best_key.root_pc
                &&& a.best_key.enforced == (key_hint is Some)
            },
            Err(AnalysisError::KeyHint(_)) => key_hint matches Some(s) && key_hint_spec(s@) is None,
            Err(AnalysisError::EmptyInput) => false,
        },
{
    if notes.len() == 0 {
        return Err(AnalysisError::EmptyInput);
    }
    let histogram = build_histogram(notes);
    let ghost h = hist_of(notes@);
    proof {
        assert forall|pc: int| 0 <= pc < 12 implies count_pc(notes@, pc) <= usize::MAX by {
            lemma_count_pc_bound(notes@, pc);
        }
        assert(histogram@ =~= h);
        lemma_hsum_counts(notes@, 12);
        lemma_histogram_total(notes@);
    }
    let total = notes.len();
    let key = match infer_key(&histogram, total, key_hint) {
        Ok(k) => k,
        Err(e) => {
            return Err(AnalysisError::KeyHint(e));
        },
    };
    let mut out_of_scale: usize = 0;
    for pc in 0..12usize
        invariant
            histogram@ == h,
            hsum(h, 12) == total,
            key.root_pc < 12,
            forall|i: int| 0 <= i < 7 ==> #[trigger] key.scale@[i] == (key.root_pc + crate::key::flavor_steps(key.mode)[i]) % 12,
            out_of_scale == key_misses(h, key.root_pc as int, key.mode, pc as int),
    {
        proof {
            lemma_matches_split(h, key.root_pc as int, key.mode, pc + 1);
            lemma_hsum_mono12(h, pc + 1);
        }
        let mut member = false;
        for i in 0..7usize
            invariant
                pc < 12,
                forall|j: int| 0 <= j < 7 ==> #[trigger] key.scale@[j] == (key.root_pc + crate::key::flavor_steps(key.mode)[j]) % 12,
                member == exists|j: int| 0 <= j < i && key.scale@[j] == pc,
        {
            if key.scale[i] == pc as u8 {
                member = true;
            }
        }
        assert(member == crate::key::in_key(key.root_pc as int, key.mode, pc as int)) by {
            if crate::key::in_key(key.root_pc as int, key.mode, pc as int) {
                let j = choose|j: int| 0 <= j < 7 && (key.root_pc + crate::key::flavor_steps(key.mode)[j]) % 12 == pc;
                assert(key.scale@[j] == pc);
            }
        }
        if !member {
            out_of_scale = out_of_scale + histogram[pc];
        }
    }
    proof {
        lemma_matches_split(h, key.root_pc as int, key.mode, 12);
    }
    let bins = histogram_bins(&histogram);
    let ambitus = ambitus_of(notes);
    Ok(MelodyAnalysis {
        note_count: total,
        distinct_pitch_classes: bins.len(),
        ambitus,
        tonic_index: 60 + key.root_pc as i32,
        best_key: key,
        histogram: bins,
        out_of_scale,
    })
}

proof fn lemma_hsum_mono12(h: Seq<usize>, a: int)
    requires
        0 <= a <= 12,
    ensures
        hsum(h, a) <= hsum(h, 12),
    decreases 12 - a,
{
    if a < 12 {
        lemma_hsum_mono12(h, a + 1);
    }
}

/// The trimmed, non-empty tokens of a progression, in order.
pub open spec fn sanitized(s: Seq<Seq<char>>) -> Seq<Seq<char>>
    decreases s.len(),
{
    if s.len() == 0 {
        Seq::empty()
    } else {
        let prev = sanitized(s.drop_last());
        let t = trim(s.last());
        if t.len() == 0 {
            prev
        } else {
            prev.push(t)
        }
    }
}

/// Trims every token and drops the empty ones.
pub fn sanitize_progression(tokens: &Vec<String>) -> (r: Vec<String>)
    ensures
        views(r@) == sanitized(views(tokens@)),
{
    let mut r: Vec<String> = Vec::new();
    for i in 0..tokens.len()
        invariant
            views(r@) == sanitized(views(tokens@.take(i as int))),
    {
        assert(views(tokens@.take(i + 1)).drop_last() =~= views(tokens@.take(i as int)));
        let v = chars_of(tokens[i].as_str());
        let t = trim_chars(&v);
        if t.len() > 0 {
            let ghost before = r@;
            r.push(string_of(&t));
            assert(views(r@) =~= views(before).push(t@));
        }
    }
    assert(tokens@.take(tokens.len() as int) =~= tokens@);
    r
}

/// The number of distinct elements of `s`.
pub open spec fn distinct_count(s: Seq<Seq<char>>) -> nat
    decreases s.len(),
{
    if s.len() == 0 {
        0
    } else {
        distinct_count(s.drop_last()) + if s.drop_last().contains(s.last()) {
            0nat
        } else {
            1nat
        }
    }
}

/// The distinct elements of `s`, in order of first appearance.
pub open spec fn distinct_elems(s: Seq<Seq<char>>) -> Seq<Seq<char>>
    decreases s.len(),
{
    if s.len() == 0 {
        Seq::empty()
    } else {
        let prev = distinct_elems(s.drop_last());
        if s.drop_last().contains(s.last()) {
            prev
        } else {
            prev.push(s.last())
        }
    }
}

proof fn lemma_distinct_elems(s: Seq<Seq<char>>)
    ensures
        distinct_elems(s).len() == distinct_count(s),
        forall|x: Seq<char>| distinct_elems(s).contains(x) <==> s.contains(x),
    decreases s.len(),
{
    if s.len() > 0 {
        let p = s.drop_last();
        lemma_distinct_elems(p);
        let dp = distinct_elems(p);
        let ds = distinct_elems(s);
        assert forall|x: Seq<char>| ds.contains(x) <==> s.contains(x) by {
            if s.contains(x) {
                let k = choose|k: int| 0 <= k < s.len() && s[k] == x;
                if k < s.len() - 1 {
                    assert(p[k] == x);
                    assert(p.contains(x));
                    assert(dp.contains(x));
                    let m = choose|m: int| 0 <= m < dp.len() && dp[m] == x;
                    if !p.contains(s.last()) {
                        assert(ds[m] == x);
                    }
                } else {
                    if !p.contains(x) {
                        assert(ds[ds.len() - 1] == x);
                    } else {
                        assert(dp.contains(x));
                        let m = choose|m: int| 0 <= m < dp.len() && dp[m] == x;
                        assert(ds[m] == x);
                    }
                }
            }
            if ds.contains(x) {
                let m = choose|m: int| 0 <= m < ds.len() && ds[m] == x;
                if m < dp.len() {
                    assert(dp[m] == x);
                    assert(dp.contains(x));
                    assert(p.contains(x));
                    let k = choose|k: int| 0 <= k < p.len() && p[k] == x;
                    assert(s[k] == p[k]);
                    assert(s.contains(x));
                } else {
                    assert(x == s.last());
                    assert(s[s.len() - 1] == x);
                }
            }
        }
    }
}

/// Whether `list` holds an element equal to `x`.
pub fn list_contains(list: &Vec<Vec<char>>, x: &Vec<char>) -> (b: bool)
    ensures
        b == list@.map_values(|v: Vec<char>| v@).contains(x@),
{
    let ghost lv = list@.map_values(|v: Vec<char>| v@);
    for i in 0..list.len()
        invariant
            lv == list@.map_values(|v: Vec<char>| v@),
            forall|j: int| 0 <= j < i ==> lv[j] != x@,
    {
        if vec_eq(&list[i], x) {
            assert(lv[i as int] == x@);
            return true;
        }
    }
    false
}

/// The number of distinct chords of a progression, compared case-insensitively.
pub fn count_unique_upper(tokens: &Vec<String>) -> (n: usize)
    ensures
        n == distinct_count(views(tokens@).map_values(|t: Seq<char>| upper_seq(t))),
{
    let ghost all = views(tokens@).map_values(|t: Seq<char>| upper_seq(t));
    let mut seen: Vec<Vec<char>> = Vec::new();
    for i in 0..tokens.len()
        invariant
            all == views(tokens@).map_values(|t: Seq<char>| upper_seq(t)),
            seen@.map_values(|v: Vec<char>| v@) == distinct_elems(all.take(i as int)),
            seen.len() <= i,
    {
        let ghost prefix = all.take(i as int);
        let ghost next = all.take(i + 1);
        assert(next.drop_last() =~= prefix);
        let u = upper_chars(&chars_of(tokens[i].as_str()));
        assert(next.last() == u@);
        proof {
            lemma_distinct_elems(prefix);
        }
        if !list_contains(&seen, &u) {
            let ghost before = seen@;
            seen.push(u);
            assert(seen@.map_values(|v: Vec<char>| v@) =~= before.map_values(|v: Vec<char>| v@).push(
                next.last(),
            ));
        }
    }
    assert(all.take(tokens.len() as int) =~= all);
    proof {
        lemma_distinct_elems(all);
    }
    seen.len()
}

/// The outcome of analysing a chord progression.
pub struct ChordAnalysisReport {
    pub progression: Vec<String>,
    pub chord_count: usize,
    pub unique_chords: usize,
    pub function_counts: FunctionCounts,
    pub cadence: Option<CadenceSummary>,
    pub key_hint: Option<String>,
}

/// Sanitises a progression and summarises its functions, variety and cadence.
pub fn analyze_chords(tokens: &Vec<String>, key_hint: Option<String>) -> (r: Result<ChordAnalysisReport, AnalysisError>)
    ensures
        match r {
            Ok(a) => {
                let p = sanitized(views(tokens@));
                &&& p.len() > 0
                &&& views(a.progression@) == p
                &&& a.chord_count == p.len()
                &&& a.unique_chords == distinct_count(p.map_values(|t: Seq<char>| upper_seq(t)))
                &&& a.function_counts == FunctionCounts::of(p)
                &&& a.key_hint == key_hint
                &&& match a.cadence {
                    Some(c) => cadence_of(p) == Some(c.model()),
                    None => cadence_of(p) is None,
                }
            },
            Err(e) => e is EmptyInput && sanitized(views(tokens@)).len() == 0,
        },
{
    let progression = sanitize_progression(tokens);
    if progression.len() == 0 {
        return Err(AnalysisError::EmptyInput);
    }
    let function_counts = classify_functions(&progression);
    let cadence = detect_cadence(&progression);
    let unique_chords = count_unique_upper(&progression);
    let chord_count = progression.len();
    Ok(ChordAnalysisReport { progression, chord_count, unique_chords, function_counts, cadence, key_hint })
}

impl ChordAnalysisReport {
    pub open spec fn cadence_line(&self) -> Seq<char> {
        match self.cadence {
            Some(c) => "Cadence: "@ + c.pattern@ + " — "@ + c.description@ + " (confidence "@ + dec_nat(c.confidence_pct as nat)
                + "%).\n"@,
            None => "Cadence: none detected.\n"@,
        }
    }

    /// The text rendering of this report.
    pub open spec fn text(&self) -> Seq<char> {
        "Chord progression ("@ + dec_nat(self.chord_count as nat) + " chords, "@ + dec_nat(self.unique_chords as nat)
            + " unique):\n"@ + "  "@ + join(views(self.progression@), " → "@) + "\n"@ + "Functional counts: tonic "@ + dec_nat(
            self.function_counts.tonic as nat,
        ) + ", predominant "@ + dec_nat(self.function_counts.predominant as nat) + ", dominant "@ + dec_nat(
            self.function_counts.dominant as nat,
        ) + ", other "@ + dec_nat(self.function_counts.other as nat) + ".\n"@ + self.cadence_line() + match self.key_hint {
            Some(k) => "Context key hint: "@ + k@ + ".\n"@,
            None => Seq::empty(),
        }
    }

    fn push_head(&self, out: &mut String)
        ensures
            final(out)@ == old(out)@ + ("Chord progression ("@ + dec_nat(self.chord_count as nat) + " chords, "@ + dec_nat(
                self.unique_chords as nat,
            ) + " unique):\n"@ + "  "@ + join(views(self.progression@), " → "@) + "\n"@),
    {
        let ghost start = out@;
        out.append("Chord progression (");
        push_nat(out, self.chord_count as u128);
        out.append(" chords, ");
        push_nat(out, self.unique_chords as u128);
        out.append(" unique):\n");
        out.append("  ");
        push_join(out, &self.progression, " → ");
        out.append("\n");
        assert(out@ =~= start + ("Chord progression ("@ + dec_nat(self.chord_count as nat) + " chords, "@ + dec_nat(
            self.unique_chords as nat,
        ) + " unique):\n"@ + "  "@ + join(views(self.progression@), " → "@) + "\n"@));
    }

    fn push_counts(&self, out: &mut String)
        ensures
            final(out)@ == old(out)@ + ("Functional counts: tonic "@ + dec_nat(self.function_counts.tonic as nat)
                + ", predominant "@ + dec_nat(self.function_counts.predominant as nat) + ", dominant "@ + dec_nat(
                self.function_counts.dominant as nat,
            ) + ", other "@ + dec_nat(self.function_counts.other as nat) + ".\n"@),
    {
        let ghost start = out@;
        out.append("Functional counts: tonic ");
        push_nat(out, self.function_counts.tonic as u128);
        out.append(", predominant ");
        push_nat(out, self.function_counts.predominant as u128);
        out.append(", dominant ");
        push_nat(out, self.function_counts.dominant as u128);
        out.append(", other ");
        push_nat(out, self.function_counts.other as u128);
        out.append(".\n");
        assert(out@ =~= start + ("Functional counts: tonic "@ + dec_nat(self.function_counts.tonic as nat)
            + ", predominant "@ + dec_nat(self.function_counts.predominant as nat) + ", dominant "@ + dec_nat(
            self.function_counts.dominant as nat,
        ) + ", other "@ + dec_nat(self.function_counts.other as nat) + ".\n"@));
    }

    /// Renders the report as text (see `text`).
    #[verifier::spinoff_prover]
    #[verifier::rlimit(40)]
    pub fn render_text(&self) -> (out: String)
        ensures
            out@ == self.text(),
    {
        let mut out = String::new();
        self.push_head(&mut out);
        self.push_counts(&mut out);
        let ghost mid = out@;
        match &self.cadence {
            Some(c) => {
                out.append("Cadence: ");
                out.append(c.pattern.as_str());
                out.append(" — ");
                out.append(c.description.as_str());
                out.append(" (confidence ");
                push_nat(&mut out, c.confidence_pct as u128);
                out.append("%).\n");
            },
            None => out.append("Cadence: none detected.\n"),
        }
        assert(out@ =~= mid + self.cadence_line());
        if let Some(k) = &self.key_hint {
            out.append("Context key hint: ");
            out.append(k.as_str());
            out.append(".\n");
        }
        assert(out@ =~= self.text());
        out
    }
}

} // verus!
