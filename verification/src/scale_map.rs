//! Pitch-class maps of a scale and the modal rotations that share its notes.

use vstd::prelude::*;
use crate::text::{concat_map, dbg_list, dec_int, dec_nat, pad_left, push_int, push_nat, push_padded_left};
use crate::theory::{mode_name, ScaleKind};
use crate::search::push_pc_list;

verus! {

/// A degree of a built scale: its number (from 1), pitch class and label.
pub struct ScaleDegree {
    pub degree: usize,
    pub pitch_class: u8,
    pub label: Option<String>,
}

/// One pitch class of a scale map: whether a degree falls on it, and the first one that does.
pub struct PitchClassMapEntry {
    pub pitch_class: u8,
    pub occupied: bool,
    pub degree: Option<usize>,
    pub label: Option<String>,
}

/// The position of the first degree on pitch class `pc`.
pub open spec fn first_on(members: Seq<ScaleDegree>, pc: int) -> Option<int>
    decreases members.len(),
{
    if members.len() == 0 {
        None
    } else {
        match first_on(members.drop_last(), pc) {
            Some(i) => Some(i),
            None => if members.last().pitch_class == pc {
                Some(members.len() - 1)
            } else {
                None
            },
        }
    }
}

proof fn lemma_first_on_bounds(members: Seq<ScaleDegree>, pc: int)
    ensures
        first_on(members, pc) matches Some(i) ==> 0 <= i < members.len() && members[i].pitch_class == pc,
    decreases members.len(),
{
    if members.len() > 0 {
        lemma_first_on_bounds(members.drop_last(), pc);
    }
}

proof fn lemma_first_on_prefix(members: Seq<ScaleDegree>, pc: int, n: int)
    requires
        0 <= n <= members.len(),
        first_on(members.take(n), pc) is None,
        forall|k: int| n <= k < members.len() ==> members[k].pitch_class != pc,
    ensures
        first_on(members, pc) is None,
    decreases members.len() - n,
{
    if n < members.len() {
        assert(members.take(n + 1).drop_last() =~= members.take(n));
        lemma_first_on_prefix(members, pc, n + 1);
    } else {
        assert(members.take(n) =~= members);
    }
}

proof fn lemma_first_on_found(members: Seq<ScaleDegree>, pc: int, n: int)
    requires
        0 <= n < members.len(),
        first_on(members.take(n), pc) is None,
        members[n].pitch_class == pc,
    ensures
        first_on(members, pc) == Some(n),
    decreases members.len() - n,
{
    assert(members.take(n + 1).drop_last() =~= members.take(n));
    if n + 1 < members.len() {
        lemma_first_on_later(members, pc, n + 1, n);
    } else {
        assert(members.take(n + 1) =~= members);
    }
}

proof fn lemma_first_on_later(members: Seq<ScaleDegree>, pc: int, m: int, i: int)
    requires
        0 <= i < m <= members.len(),
        first_on(members.take(m), pc) == Some(i),
    ensures
        first_on(members, pc) == Some(i),
    decreases members.len() - m,
{
    if m < members.len() {
        assert(members.take(m + 1).drop_last() =~= members.take(m));
        lemma_first_on_later(members, pc, m + 1, i);
    } else {
        assert(members.take(m) =~= members);
    }
}

/// The map entry of pitch class `pc`.
pub open spec fn map_entry(members: Seq<ScaleDegree>, pc: int) -> (int, bool, Option<usize>, Option<Seq<char>>) {
    match first_on(members, pc) {
        Some(i) => (pc, true, Some(members[i].degree), match members[i].label {
            Some(l) => Some(l@),
            None => None,
        }),
        None => (pc, false, None, None),
    }
}

impl PitchClassMapEntry {
    pub open spec fn model(&self) -> (int, bool, Option<usize>, Option<Seq<char>>) {
        (self.pitch_class as int, self.occupied, self.degree, match self.label {
            Some(l) => Some(l@),
            None => None,
        })
    }
}

/// The twelve entries of a scale's pitch-class map, from C: each names the first degree
/// that falls on it.
pub fn pitch_class_map(members: &Vec<ScaleDegree>) -> (map: Vec<PitchClassMapEntry>)
    ensures
        map.len() == 12,
        forall|pc: int| 0 <= pc < 12 ==> #[trigger] map@[pc].model() == map_entry(members@, pc),
{
    let mut map: Vec<PitchClassMapEntry> = Vec::new();
    for pc in 0..12u8
        invariant
            map.len() == pc,
            forall|q: int| 0 <= q < pc ==> #[trigger] map@[q].model() == map_entry(members@, q),
    {
        let mut i: usize = 0;
        while i < members.len() && members[i].pitch_class != pc
            invariant
                i <= members.len(),
                first_on(members@.take(i as int), pc as int) is None,
            decreases members.len() - i,
        {
            assert(members@.take(i + 1).drop_last() =~= members@.take(i as int));
            i += 1;
        }
        let entry = if i < members.len() {
            proof {
                lemma_first_on_found(members@, pc as int, i as int);
            }
            let m = &members[i];
            let label = match &m.label {
                Some(l) => Some(l.clone()),
                None => None,
            };
            PitchClassMapEntry { pitch_class: pc, occupied: true, degree: Some(m.degree), label }
        } else {
            proof {
                lemma_first_on_prefix(members@, pc as int, i as int);
            }
            PitchClassMapEntry { pitch_class: pc, occupied: false, degree: None, label: None }
        };
        map.push(entry);
    }
    map
}

/// The values below `n`, ascending, that occur in both `a` and `b`.
pub open spec fn common_ascending(a: Seq<u8>, b: Seq<u8>, n: int) -> Seq<u8>
    decreases n,
{
    if n <= 0 {
        Seq::empty()
    } else if a.contains((n - 1) as u8) && b.contains((n - 1) as u8) {
        common_ascending(a, b, n - 1).push((n - 1) as u8)
    } else {
        common_ascending(a, b, n - 1)
    }
}

/// The pitch classes a scale shares with one of its rotations, ascending.
pub fn pivot_pitch_classes(base: &Vec<u8>, rotated: &Vec<u8>) -> (r: Vec<u8>)
    ensures
        r@ == common_ascending(base@, rotated@, 256),
{
    let mut r: Vec<u8> = Vec::new();
    let mut v: u16 = 0;
    while v < 256
        invariant
            v <= 256,
            r@ == common_ascending(base@, rotated@, v as int),
        decreases 256 - v,
    {
        let b = v as u8;
        if crate::search::contains_byte(base, b) && crate::search::contains_byte(rotated, b) {
            r.push(b);
        }
        v += 1;
    }
    r
}

/// How many rotations to list: the number asked for, but fewer than the scale's steps.
pub open spec fn modulation_count(modulations: usize, step_count: usize) -> nat {
    let most = if step_count == 0 {
        0
    } else {
        step_count - 1
    };
    if modulations < most {
        modulations as nat
    } else {
        most as nat
    }
}

/// The number of rotations to list (see `modulation_count`).
pub fn modulations_to_list(modulations: usize, step_count: usize) -> (n: usize)
    ensures
        n == modulation_count(modulations, step_count),
{
    let most = if step_count == 0 {
        0
    } else {
        step_count - 1
    };
    if modulations < most {
        modulations
    } else {
        most
    }
}

/// A rotation of a scale seen as a modulation target.
pub struct ModulatoryPathSummary {
    pub rotation: usize,
    pub mode_name: Option<String>,
    pub root_index: i32,
    pub root_label: Option<String>,
    pub pivot_pitch_classes: Vec<u8>,
}

/// The summary of rotating a `kind` scale by `rotation` degrees: the mode's name and the
/// pitch classes the scale (`base`) shares with the rotation (`rotated`).
pub fn modulatory_path(kind: ScaleKind, rotation: usize, root_index: i32, root_label: Option<String>, base: &Vec<u8>, rotated: &Vec<u8>) -> (p: ModulatoryPathSummary)
    ensures
        p.rotation == rotation,
        match p.mode_name {
            Some(n) => mode_name(kind, rotation as nat) == Some(n@),
            None => mode_name(kind, rotation as nat) is None,
        },
        p.root_index == root_index,
        p.root_label == root_label,
        p.pivot_pitch_classes@ == common_ascending(base@, rotated@, 256),
{
    let mode_name = match kind.mode_name_for_rotation(rotation) {
        Some(n) => Some(String::from_str(n)),
        None => None,
    };
    ModulatoryPathSummary {
        rotation,
        mode_name,
        root_index,
        root_label,
        pivot_pitch_classes: pivot_pitch_classes(base, rotated),
    }
}

/// A scale's pitch-class map and its modulation candidates, ready to print.
pub struct ScaleMap {
    pub system: String,
    pub root_index: i32,
    pub root_label: Option<String>,
    pub scale: String,
    pub pitch_class_map: Vec<PitchClassMapEntry>,
    pub modulatory_paths: Vec<ModulatoryPathSummary>,
}

/// ` (label)` when there is a label.
pub open spec fn paren_label(l: Option<String>) -> Seq<char> {
    match l {
        Some(x) => " ("@ + x@ + ")"@,
        None => Seq::empty(),
    }
}

fn push_paren_label(out: &mut String, l: &Option<String>)
    ensures
        final(out)@ == old(out)@ + paren_label(*l),
{
    if let Some(x) = l {
        out.append(" (");
        out.append(x.as_str());
        out.append(")");
    }
}

/// The line of a map entry.
pub open spec fn entry_line(e: PitchClassMapEntry) -> Seq<char> {
    "  pc "@ + pad_left(dec_nat(e.pitch_class as nat), 2) + " "@ + seq![if e.occupied { '●' } else { '·' }] + match e.degree {
        Some(d) => " degree "@ + dec_nat(d as nat) + " ("@ + match e.label {
            Some(l) => l@,
            None => "—"@,
        } + ")"@,
        None => Seq::empty(),
    } + "\n"@
}

fn push_entry_line(out: &mut String, e: &PitchClassMapEntry)
    ensures
        final(out)@ == old(out)@ + entry_line(*e),
{
    let ghost start = out@;
    out.append("  pc ");
    let mut digits = String::new();
    push_nat(&mut digits, e.pitch_class as u128);
    let dv = crate::text::chars_of(digits.as_str());
    push_padded_left(out, &dv, 2);
    out.append(" ");
    crate::text::push_char(out, if e.occupied { '●' } else { '·' });
    if let Some(d) = e.degree {
        out.append(" degree ");
        push_nat(out, d as u128);
        out.append(" (");
        match &e.label {
            Some(l) => out.append(l.as_str()),
            None => out.append("—"),
        }
        out.append(")");
    }
    out.append("\n");
    assert(out@ =~= start + entry_line(*e));
}

/// The line of a modulation candidate.
pub open spec fn path_line(p: ModulatoryPathSummary) -> Seq<char> {
    "  Rotation "@ + dec_nat(p.rotation as nat) + ": "@ + match p.mode_name {
        Some(n) => n@,
        None => "(unknown mode)"@,
    } + ", root "@ + dec_int(p.root_index as int) + paren_label(p.root_label) + ", pivots "@ + (if p.pivot_pitch_classes.len() == 0 {
        "none"@
    } else {
        dbg_list(p.pivot_pitch_classes@.map_values(|x: u8| x as int))
    }) + ".\n"@
}

fn push_path_line(out: &mut String, p: &ModulatoryPathSummary)
    ensures
        final(out)@ == old(out)@ + path_line(*p),
{
    let ghost start = out@;
    out.append("  Rotation ");
    push_nat(out, p.rotation as u128);
    out.append(": ");
    match &p.mode_name {
        Some(n) => out.append(n.as_str()),
        None => out.append("(unknown mode)"),
    }
    out.append(", root ");
    push_int(out, p.root_index as i128);
    push_paren_label(out, &p.root_label);
    out.append(", pivots ");
    if p.pivot_pitch_classes.len() == 0 {
        out.append("none");
    } else {
        push_pc_list(out, &p.pivot_pitch_classes);
    }
    out.append(".\n");
    assert(out@ =~= start + path_line(*p));
}

impl ScaleMap {
    pub open spec fn head_text(&self) -> Seq<char> {
        "Scale map for "@ + self.scale@ + " in "@ + self.system@ + ", root "@ + dec_int(self.root_index as int)
            + paren_label(self.root_label) + ".\n"@ + "Pitch-class layout:\n"@
    }

    pub open spec fn paths_text(&self) -> Seq<char> {
        if self.modulatory_paths.len() > 0 {
            "\n"@ + "Modulatory paths:\n"@ + concat_map(self.modulatory_paths@, |p: ModulatoryPathSummary| path_line(p))
        } else {
            Seq::empty()
        }
    }

    /// The text rendering of this map.
    pub open spec fn text(&self) -> Seq<char> {
        self.head_text() + concat_map(self.pitch_class_map@, |e: PitchClassMapEntry| entry_line(e)) + self.paths_text()
    }

    /// Renders the map as text (see `text`).
    pub fn render_text(&self) -> (out: String)
        ensures
            out@ == self.text(),
    {
        let mut out = String::new();
        out.append("Scale map for ");
        out.append(self.scale.as_str());
        out.append(" in ");
        out.append(self.system.as_str());
        out.append(", root ");
        push_int(&mut out, self.root_index as i128);
        push_paren_label(&mut out, &self.root_label);
        out.append(".\n");
        out.append("Pitch-class layout:\n");
        assert(out@ =~= self.head_text());
        let ghost base = out@;
        for i in 0..self.pitch_class_map.len()
            invariant
                out@ == base + concat_map(self.pitch_class_map@.take(i as int), |e: PitchClassMapEntry| entry_line(e)),
        {
            push_entry_line(&mut out, &self.pitch_class_map[i]);
            assert(self.pitch_class_map@.take(i + 1).drop_last() =~= self.pitch_class_map@.take(i as int));
        }
        assert(self.pitch_class_map@.take(self.pitch_class_map.len() as int) =~= self.pitch_class_map@);
        let ghost mid = out@;
        if self.modulatory_paths.len() > 0 {
            out.append("\n");
            out.append("Modulatory paths:\n");
            let ghost base2 = out@;
            for i in 0..self.modulatory_paths.len()
                invariant
                    out@ == base2 + concat_map(self.modulatory_paths@.take(i as int), |p: ModulatoryPathSummary| path_line(p)),
            {
                push_path_line(&mut out, &self.modulatory_paths[i]);
                assert(self.modulatory_paths@.take(i + 1).drop_last() =~= self.modulatory_paths@.take(i as int));
            }
            assert(self.modulatory_paths@.take(self.modulatory_paths.len() as int) =~= self.modulatory_paths@);
        }
        assert(out@ =~= mid + self.paths_text());
        out
    }
}

} // verus!
