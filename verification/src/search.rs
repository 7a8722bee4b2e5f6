//! Finding scales and chords that contain given pitch classes.

use vstd::prelude::*;
use crate::pitch::{distinct_pcs, normalize_pitch_classes, pc_of};
use crate::theory::{all_kinds, kind_name, kind_pitch_classes, ChordVoicing, ScaleKind};
use crate::text::{concat_map, dbg_list, dec_int, dec_nat, push_dbg_list, push_int, push_nat, widen_u8s};

verus! {

/// The items of `s` that satisfy `pred`, in order.
pub open spec fn hits<T>(s: Seq<T>, pred: spec_fn(T) -> bool) -> Seq<T>
    decreases s.len(),
{
    if s.len() == 0 {
        Seq::empty()
    } else {
        let p = hits(s.drop_last(), pred);
        if pred(s.last()) {
            p.push(s.last())
        } else {
            p
        }
    }
}

/// The first matches of a search that keeps at most `limit` of them.
pub open spec fn first_hits<T>(s: Seq<T>, pred: spec_fn(T) -> bool, limit: usize) -> Seq<T> {
    let h = hits(s, pred);
    if h.len() <= limit {
        h
    } else {
        h.take(limit as int)
    }
}

/// A search that may keep no match finds nothing.
proof fn lemma_first_hits_none<T>(s: Seq<T>, pred: spec_fn(T) -> bool)
    ensures
        first_hits(s, pred, 0) == Seq::<T>::empty(),
{
    assert(first_hits(s, pred, 0) =~= Seq::<T>::empty());
}

/// The matches among the first `n` items are the start of the matches among the first `m`.
pub proof fn lemma_hits_prefix<T>(s: Seq<T>, pred: spec_fn(T) -> bool, n: int, m: int)
    requires
        0 <= n <= m <= s.len(),
    ensures
        hits(s.take(n), pred).len() <= hits(s.take(m), pred).len(),
        hits(s.take(m), pred).take(hits(s.take(n), pred).len() as int) == hits(s.take(n), pred),
    decreases m - n,
{
    if n < m {
        lemma_hits_prefix(s, pred, n, m - 1);
        assert(s.take(m).drop_last() =~= s.take(m - 1));
        let a = hits(s.take(n), pred);
        let b = hits(s.take(m - 1), pred);
        let c = hits(s.take(m), pred);
        if pred(s.take(m).last()) {
            assert(c == b.push(s.take(m).last()));
            assert(c.take(a.len() as int) =~= b.take(a.len() as int));
        }
    } else {
        assert(hits(s.take(m), pred).take(hits(s.take(n), pred).len() as int) =~= hits(s.take(n), pred));
    }
}

/// Stopping at the `k`-th match, the matches seen so far are the search's result.
proof fn lemma_first_hits_stop<T>(s: Seq<T>, pred: spec_fn(T) -> bool, limit: usize, n: int)
    requires
        0 <= n <= s.len(),
        hits(s.take(n), pred).len() == limit,
    ensures
        first_hits(s, pred, limit) == hits(s.take(n), pred),
{
    lemma_hits_prefix(s, pred, n, s.len() as int);
    assert(s.take(s.len() as int) =~= s);
}

/// Every match a search keeps is one of the candidates and satisfies the condition.
pub proof fn lemma_first_hits_satisfy<T>(s: Seq<T>, pred: spec_fn(T) -> bool, limit: usize)
    ensures
        forall|k: int| 0 <= k < first_hits(s, pred, limit).len() ==> pred(#[trigger] first_hits(s, pred, limit)[k]) && s.contains(
            first_hits(s, pred, limit)[k],
        ),
{
    let h = hits(s, pred);
    let f = first_hits(s, pred, limit);
    assert forall|k: int| 0 <= k < f.len() implies pred(#[trigger] f[k]) && s.contains(f[k]) by {
        assert(f[k] == h[k]);
        assert(h.contains(h[k]));
        crate::diff::lemma_hits_contains(s, pred, h[k]);
    }
}

/// Every scale a scale search finds holds all the searched pitch classes.
pub proof fn lemma_scale_search_sound(targets: Seq<u8>, limit: usize)
    ensures
        forall|k: int| 0 <= k < scale_search(targets, limit).len() ==> covers(
            shifted(kind_pitch_classes(#[trigger] scale_search(targets, limit)[k].1), scale_search(targets, limit)[k].0 as int),
            targets,
        ),
{
    let pred = |c: (u8, ScaleKind)| scale_holds(targets, c);
    lemma_first_hits_satisfy(scale_candidates(), pred, limit);
}

/// `pattern` moved up by `root_pc` semitones, wrapped to pitch classes.
pub open spec fn shifted(pattern: Seq<u8>, root_pc: int) -> Seq<u8> {
    pattern.map_values(|step: u8| ((root_pc + step) % 12) as u8)
}

/// A scale pattern moved up to start at `root_pc`.
pub fn shifted_pattern(pattern: &[u8; 7], root_pc: u8) -> (r: Vec<u8>)
    requires
        forall|i: int| 0 <= i < 7 ==> pattern@[i] + root_pc <= 255,
    ensures
        r@ == shifted(pattern@, root_pc as int),
{
    let mut r: Vec<u8> = Vec::new();
    for i in 0..7
        invariant
            forall|i: int| 0 <= i < 7 ==> pattern@[i] + root_pc <= 255,
            r@ == shifted(pattern@.take(i as int), root_pc as int),
    {
        r.push((root_pc + pattern[i]) % 12);
        assert(shifted(pattern@.take(i + 1), root_pc as int) =~= shifted(pattern@.take(i as int), root_pc as int).push(
            ((root_pc + pattern@[i as int]) % 12) as u8,
        ));
    }
    assert(pattern@.take(7) =~= pattern@);
    r
}

/// Whether every target pitch class occurs in `pcs`.
pub open spec fn covers(pcs: Seq<u8>, targets: Seq<u8>) -> bool {
    forall|i: int| 0 <= i < targets.len() ==> pcs.contains(#[trigger] targets[i])
}

/// Whether `v` holds `x`.
pub fn contains_byte(v: &Vec<u8>, x: u8) -> (b: bool)
    ensures
        b == v@.contains(x),
{
    for i in 0..v.len()
        invariant
            forall|k: int| 0 <= k < i ==> v@[k] != x,
    {
        if v[i] == x {
            return true;
        }
    }
    false
}

/// Whether every target pitch class occurs among a chord's pitch classes.
pub fn matches_pitch_classes(chord_pcs: &Vec<u8>, targets: &Vec<u8>) -> (b: bool)
    ensures
        b == covers(chord_pcs@, targets@),
{
    for i in 0..targets.len()
        invariant
            forall|k: int| 0 <= k < i ==> chord_pcs@.contains(#[trigger] targets@[k]),
    {
        if !contains_byte(chord_pcs, targets[i]) {
            return false;
        }
    }
    true
}

/// The pitch classes below `n` that occur in `notes`, ascending.
pub open spec fn present_pcs(notes: Seq<i32>, n: int) -> Seq<u8>
    decreases n,
{
    if n <= 0 {
        Seq::empty()
    } else if exists|i: int| 0 <= i < notes.len() && pc_of(notes[i] as int) == n - 1 {
        present_pcs(notes, n - 1).push((n - 1) as u8)
    } else {
        present_pcs(notes, n - 1)
    }
}

/// The pitch classes of some pitch indices, ascending and without repeats.
pub fn chord_pitch_classes(indices: &Vec<i32>) -> (r: Vec<u8>)
    ensures
        r@ == present_pcs(indices@, 12),
{
    let mut seen = [false; 12];
    for i in 0..indices.len()
        invariant
            forall|pc: int| 0 <= pc < 12 ==> seen@[pc] == exists|k: int| 0 <= k < i && pc_of(indices@[k] as int) == pc,
    {
        let pc = crate::pitch::normalize_pitch_class(indices[i]);
        let ghost old_seen = seen@;
        seen[pc as usize] = true;
        assert forall|q: int| 0 <= q < 12 implies seen@[q] == exists|k: int| 0 <= k < i + 1 && pc_of(indices@[k] as int) == q by {
            if q == pc as int {
                assert(pc_of(indices@[i as int] as int) == q);
            } else if exists|k: int| 0 <= k < i + 1 && pc_of(indices@[k] as int) == q {
                let k = choose|k: int| 0 <= k < i + 1 && pc_of(indices@[k] as int) == q;
                assert(k < i);
            }
        }
    }
    let mut r: Vec<u8> = Vec::new();
    for pc in 0..12u8
        invariant
            forall|q: int| 0 <= q < 12 ==> seen@[q] == exists|k: int| 0 <= k < indices.len() && pc_of(indices@[k] as int) == q,
            r@ == present_pcs(indices@, pc as int),
    {
        if seen[pc as usize] {
            r.push(pc);
        }
    }
    r
}

/// A scale whose notes include the searched pitch classes.
pub struct ScaleSearchMatch {
    pub scale: String,
    pub root_index: i32,
    pub root_label: String,
}

/// The scales found for a set of pitch classes.
pub struct ScaleSearchReport {
    pub system: String,
    pub criteria: Vec<u8>,
    pub match_count: usize,
    pub matches: Vec<ScaleSearchMatch>,
}

/// The scale candidates in search order: roots C to B, each with every scale kind.
pub open spec fn scale_candidates() -> Seq<(u8, ScaleKind)> {
    Seq::new(144, |c: int| ((c / 12) as u8, all_kinds()[c % 12]))
}

/// Whether the scale of `kind` on `root_pc` holds all `targets`.
pub open spec fn scale_holds(targets: Seq<u8>, cand: (u8, ScaleKind)) -> bool {
    covers(shifted(kind_pitch_classes(cand.1), cand.0 as int), targets)
}

/// The scales found: the first matching candidates, at most `limit` of them.
pub open spec fn scale_search(targets: Seq<u8>, limit: usize) -> Seq<(u8, ScaleKind)> {
    first_hits(scale_candidates(), |c: (u8, ScaleKind)| scale_holds(targets, c), limit)
}

impl ScaleSearchMatch {
    pub open spec fn model(&self) -> (Seq<char>, int, Seq<char>) {
        (self.scale@, self.root_index as int, self.root_label@)
    }
}

/// Why a search was refused.
#[derive(Clone, Copy, Debug, PartialEq, Eq, Structural)]
pub enum SearchError {
    /// No notes were given.
    NoNotes,
}

/// Finds the scales (any kind, rooted at C4 to B4) whose notes include the pitch classes
/// of `notes`. `root_labels[pc]` names the root of pitch class `pc`. The search stops
/// once it has found `limit` matches.
pub fn search_scales(notes: &Vec<i32>, system: String, root_labels: &[String; 12], limit: usize) -> (r: Result<ScaleSearchReport, SearchError>)
    ensures
        notes.len() == 0 <==> r is Err,
        r matches Ok(rep) ==> {
            let found = scale_search(distinct_pcs(notes@), limit);
            &&& rep.system@ == system@
            &&& rep.criteria@ == distinct_pcs(notes@)
            &&& rep.match_count == found.len()
            &&& rep.matches@.map_values(|m: ScaleSearchMatch| m.model()) == found.map_values(
                |c: (u8, ScaleKind)| (kind_name(c.1), 60 + c.0, root_labels@[c.0 as int]@),
            )
        },
{
    if notes.len() == 0 {
        return Err(SearchError::NoNotes);
    }
    let targets = normalize_pitch_classes(notes);
    let kinds = ScaleKind::all();
    let ghost pred = |c: (u8, ScaleKind)| scale_holds(targets@, c);
    let ghost cands = scale_candidates();
    if limit == 0 {
        proof {
            lemma_first_hits_none(cands, pred);
        }
        let matches: Vec<ScaleSearchMatch> = Vec::new();
        assert(matches@.map_values(|m: ScaleSearchMatch| m.model()) =~= Seq::<(Seq<char>, int, Seq<char>)>::empty());
        return Ok(ScaleSearchReport { system, criteria: targets, match_count: 0, matches });
    }
    let mut found: Vec<(u8, ScaleKind)> = Vec::new();
    let mut matches: Vec<ScaleSearchMatch> = Vec::new();
    let mut c: usize = 0;
    while c < 144
        invariant
            c <= 144,
            notes.len() > 0,
            targets@ == distinct_pcs(notes@),
            kinds@ == all_kinds(),
            pred == (|c: (u8, ScaleKind)| scale_holds(targets@, c)),
            cands == scale_candidates(),
            found@ == hits(cands.take(c as int), pred),
            found@.len() < limit,
            matches@.map_values(|m: ScaleSearchMatch| m.model()) == found@.map_values(
                |c: (u8, ScaleKind)| (kind_name(c.1), 60 + c.0, root_labels@[c.0 as int]@),
            ),
        decreases 144 - c,
    {
        let root_pc: u8 = (c / 12) as u8;
        let kind = kinds[c % 12];
        assert(cands.take(c + 1).drop_last() =~= cands.take(c as int));
        assert(cands.take(c + 1).last() == (root_pc, kind));
        let pattern = shifted_pattern(&kind.pitch_classes(), root_pc);
        if matches_pitch_classes(&pattern, &targets) {
            let ghost before = matches@;
            let ghost fbefore = found@;
            found.push((root_pc, kind));
            matches.push(ScaleSearchMatch {
                scale: String::from_str(kind.name()),
                root_index: 60 + root_pc as i32,
                root_label: root_labels[root_pc as usize].clone(),
            });
            assert(matches@.map_values(|m: ScaleSearchMatch| m.model()) =~= before.map_values(
                |m: ScaleSearchMatch| m.model(),
            ).push((kind_name(kind), 60 + root_pc, root_labels@[root_pc as int]@)));
            assert(found@.map_values(|c: (u8, ScaleKind)| (kind_name(c.1), 60 + c.0, root_labels@[c.0 as int]@))
                =~= fbefore.map_values(|c: (u8, ScaleKind)| (kind_name(c.1), 60 + c.0, root_labels@[c.0 as int]@)).push(
                (kind_name(kind), 60 + root_pc, root_labels@[root_pc as int]@),
            ));
            if matches.len() >= limit {
                proof {
                    lemma_first_hits_stop(cands, pred, limit, c + 1);
                }
                return Ok(ScaleSearchReport { system, criteria: targets, match_count: matches.len(), matches });
            }
        }
        c += 1;
    }
    proof {
        assert(cands.take(144) =~= cands);
    }
    Ok(ScaleSearchReport { system, criteria: targets, match_count: matches.len(), matches })
}

/// Appends the Debug rendering of a list of pitch classes.
pub fn push_pc_list(out: &mut String, pcs: &Vec<u8>)
    ensures
        final(out)@ == old(out)@ + dbg_list(pcs@.map_values(|x: u8| x as int)),
{
    let wide = widen_u8s(pcs);
    push_dbg_list(out, &wide);
}

/// The report line of a found scale.
pub open spec fn scale_match_line(m: ScaleSearchMatch) -> Seq<char> {
    "  - "@ + m.scale@ + " rooted at "@ + m.root_label@ + " ("@ + dec_int(m.root_index as int) + ").\n"@
}

impl ScaleSearchReport {
    /// The text rendering of this report.
    pub open spec fn text(&self) -> Seq<char> {
        "Scale search in "@ + self.system@ + ": "@ + dec_nat(self.match_count as nat) + " match(es) for pcs "@
            + dbg_list(self.criteria@.map_values(|x: u8| x as int)) + ".\n"@ + concat_map(
            self.matches@,
            |m: ScaleSearchMatch| scale_match_line(m),
        )
    }

    /// Renders the report as text (see `text`).
    pub fn render_text(&self) -> (out: String)
        ensures
            out@ == self.text(),
    {
        let mut out = String::new();
        out.append("Scale search in ");
        out.append(self.system.as_str());
        out.append(": ");
        push_nat(&mut out, self.match_count as u128);
        out.append(" match(es) for pcs ");
        push_pc_list(&mut out, &self.criteria);
        out.append(".\n");
        let ghost base = out@;
        for i in 0..self.matches.len()
            invariant
                out@ == base + concat_map(self.matches@.take(i as int), |m: ScaleSearchMatch| scale_match_line(m)),
        {
            let m = &self.matches[i];
            out.append("  - ");
            out.append(m.scale.as_str());
            out.append(" rooted at ");
            out.append(m.root_label.as_str());
            out.append(" (");
            push_int(&mut out, m.root_index as i128);
            out.append(").\n");
            assert(self.matches@.take(i + 1).drop_last() =~= self.matches@.take(i as int));
            assert(out@ =~= base + concat_map(self.matches@.take(i + 1), |m: ScaleSearchMatch| scale_match_line(m)));
        }
        assert(self.matches@.take(self.matches.len() as int) =~= self.matches@);
        assert(out@ =~= self.text());
        out
    }
}

/// A diatonic chord whose tones include the searched pitch classes.
pub struct ChordSearchMatch {
    pub scale: String,
    pub degree: usize,
    pub numeral: String,
    pub root_label: String,
    pub pitch_classes: Vec<u8>,
}

/// The chords found for a set of pitch classes.
pub struct ChordSearchReport {
    pub system: String,
    pub criteria: Vec<u8>,
    pub voicing: String,
    pub match_count: usize,
    pub matches: Vec<ChordSearchMatch>,
}

/// Whether a candidate chord holds all `targets`.
pub open spec fn chord_holds(targets: Seq<u8>, m: ChordSearchMatch) -> bool {
    covers(m.pitch_classes@, targets)
}

/// Keeps the first candidates that hold all `targets`, stopping once `limit` are kept;
/// the candidates come in search order.
pub fn select_chord_matches(candidates: Vec<ChordSearchMatch>, targets: &Vec<u8>, limit: usize) -> (r: Vec<ChordSearchMatch>)
    ensures
        r@ == first_hits(candidates@, |m: ChordSearchMatch| chord_holds(targets@, m), limit),
{
    let ghost all = candidates@;
    let ghost pred = |m: ChordSearchMatch| chord_holds(targets@, m);
    assert(all.len() == candidates.len());
    if limit == 0 {
        proof {
            lemma_first_hits_none(all, pred);
        }
        return Vec::new();
    }
    let mut rest = candidates;
    let mut kept: Vec<ChordSearchMatch> = Vec::new();
    let mut i: usize = 0;
    while rest.len() > 0
        invariant
            pred == (|m: ChordSearchMatch| chord_holds(targets@, m)),
            i + rest.len() == all.len(),
            all == candidates@,
            all.len() <= usize::MAX,
            rest@ == all.skip(i as int),
            kept@ == hits(all.take(i as int), pred),
            kept@.len() < limit,
        decreases rest.len(),
    {
        let m = rest.remove(0);
        assert(all.take(i + 1).drop_last() =~= all.take(i as int));
        assert(all[i as int] == m);
        assert(rest@ =~= all.skip(i + 1));
        let hit = matches_pitch_classes(&m.pitch_classes, targets);
        i += 1;
        if hit {
            kept.push(m);
            if kept.len() >= limit {
                proof {
                    lemma_first_hits_stop(all, pred, limit, i as int);
                    assert(first_hits(all, pred, limit) == kept@);
                }
                return kept;
            }
        }
    }
    assert(all.take(i as int) =~= all);
    kept
}

/// The report line of a found chord.
pub open spec fn chord_match_line(m: ChordSearchMatch) -> Seq<char> {
    "  - "@ + m.scale@ + " degree "@ + dec_nat(m.degree as nat) + " ("@ + m.numeral@ + ") root "@ + m.root_label@
        + ", pcs "@ + dbg_list(m.pitch_classes@.map_values(|x: u8| x as int)) + ".\n"@
}

fn push_chord_match_line(out: &mut String, m: &ChordSearchMatch)
    ensures
        final(out)@ == old(out)@ + chord_match_line(*m),
{
    let ghost start = out@;
    out.append("  - ");
    out.append(m.scale.as_str());
    out.append(" degree ");
    push_nat(out, m.degree as u128);
    out.append(" (");
    out.append(m.numeral.as_str());
    out.append(") root ");
    out.append(m.root_label.as_str());
    out.append(", pcs ");
    push_pc_list(out, &m.pitch_classes);
    out.append(".\n");
    assert(out@ =~= start + chord_match_line(*m));
}

impl ChordSearchReport {
    /// The text rendering of this report.
    pub open spec fn text(&self) -> Seq<char> {
        "Chord search ("@ + self.voicing@ + ") in "@ + self.system@ + ": "@ + dec_nat(self.match_count as nat)
            + " match(es) for pcs "@ + dbg_list(self.criteria@.map_values(|x: u8| x as int)) + ".\n"@ + concat_map(
            self.matches@,
            |m: ChordSearchMatch| chord_match_line(m),
        )
    }

    /// Renders the report as text (see `text`).
    pub fn render_text(&self) -> (out: String)
        ensures
            out@ == self.text(),
    {
        let mut out = String::new();
        out.append("Chord search (");
        out.append(self.voicing.as_str());
        out.append(") in ");
        out.append(self.system.as_str());
        out.append(": ");
        push_nat(&mut out, self.match_count as u128);
        out.append(" match(es) for pcs ");
        push_pc_list(&mut out, &self.criteria);
        out.append(".\n");
        let ghost base = out@;
        for i in 0..self.matches.len()
            invariant
                out@ == base + concat_map(self.matches@.take(i as int), |m: ChordSearchMatch| chord_match_line(m)),
        {
            push_chord_match_line(&mut out, &self.matches[i]);
            assert(self.matches@.take(i + 1).drop_last() =~= self.matches@.take(i as int));
        }
        assert(self.matches@.take(self.matches.len() as int) =~= self.matches@);
        assert(out@ =~= self.text());
        out
    }
}

/// The Debug name of a voicing.
pub open spec fn voicing_name(v: ChordVoicing) -> Seq<char> {
    match v {
        ChordVoicing::Triads => "Triads"@,
        ChordVoicing::Sevenths => "Sevenths"@,
    }
}

/// The chord search report over candidate chords in search order (every diatonic chord
/// of every scale kind on every root, as the caller lists them): the criteria are the
/// distinct pitch classes of `notes`, the matches those of `select_chord_matches`.
pub fn search_chords(notes: &Vec<i32>, system: String, voicing: ChordVoicing, candidates: Vec<ChordSearchMatch>, limit: usize) -> (r: Result<ChordSearchReport, SearchError>)
    ensures
        notes.len() == 0 <==> r is Err,
        r matches Ok(rep) ==> {
            let found = first_hits(candidates@, |m: ChordSearchMatch| chord_holds(distinct_pcs(notes@), m), limit);
            &&& rep.system@ == system@
            &&& rep.criteria@ == distinct_pcs(notes@)
            &&& rep.voicing@ == voicing_name(voicing)
            &&& rep.match_count == found.len()
            &&& rep.matches@ == found
        },
{
    if notes.len() == 0 {
        return Err(SearchError::NoNotes);
    }
    let targets = normalize_pitch_classes(notes);
    let matches = select_chord_matches(candidates, &targets, limit);
    let voicing_text = match voicing {
        ChordVoicing::Triads => String::from_str("Triads"),
        ChordVoicing::Sevenths => String::from_str("Sevenths"),
    };
    Ok(ChordSearchReport { system, criteria: targets, voicing: voicing_text, match_count: matches.len(), matches })
}

} // verus!
