//! Pitch classes of MIDI-like pitch indices: histograms, ranges and deduplication.

use vstd::prelude::*;

verus! {

/// The pitch class (0..12) of a pitch index; negative indices wrap upward.
pub open spec fn pc_of(n: int) -> int {
    n % 12
}

/// How many notes of `s` have pitch class `pc`.
pub open spec fn count_pc(s: Seq<i32>, pc: int) -> nat
    decreases s.len(),
{
    if s.len() == 0 {
        0
    } else {
        count_pc(s.drop_last(), pc) + if pc_of(s.last() as int) == pc {
            1nat
        } else {
            0nat
        }
    }
}

/// The number of notes of `s` whose pitch class is below `n`.
pub open spec fn sum_counts(s: Seq<i32>, n: int) -> int
    decreases n,
{
    if n <= 0 {
        0
    } else {
        sum_counts(s, n - 1) + count_pc(s, n - 1)
    }
}

/// The pitch class of `value`, in 0..12.
pub fn normalize_pitch_class(value: i32) -> (pc: u8)
    ensures
        pc as int == pc_of(value as int),
        pc < 12,
{
    let mut pc = value % 12;
    if pc < 0 {
        pc += 12;
    }
    pc as u8
}

/// Counts the notes of each pitch class.
pub fn build_histogram(notes: &Vec<i32>) -> (h: [usize; 12])
    ensures
        forall|pc: int| 0 <= pc < 12 ==> h@[pc] == count_pc(notes@, pc),
{
    let mut h = [0usize; 12];
    for i in 0..notes.len()
        invariant
            forall|pc: int| 0 <= pc < 12 ==> h@[pc] == count_pc(notes@.take(i as int), pc),
            forall|pc: int| 0 <= pc < 12 ==> h@[pc] <= i,
    {
        let pc = normalize_pitch_class(notes[i]);
        assert(notes@.take(i + 1).drop_last() =~= notes@.take(i as int));
        h[pc as usize] = h[pc as usize] + 1;
    }
    assert(notes@.take(notes.len() as int) =~= notes@);
    h
}

/// Every note is counted exactly once: the twelve pitch-class counts of `s` sum to its length.
pub proof fn lemma_histogram_total(s: Seq<i32>)
    ensures
        sum_counts(s, 12) == s.len(),
    decreases s.len(),
{
    if s.len() == 0 {
        assert(sum_counts(s, 12) == 0) by {
            reveal_with_fuel(sum_counts, 13);
        }
    } else {
        lemma_histogram_total(s.drop_last());
        let p = pc_of(s.last() as int);
        assert forall|n: int| 0 <= n <= 12 implies #[trigger] sum_counts(s, n) == sum_counts(
            s.drop_last(),
            n,
        ) + (if p < n {
            1int
        } else {
            0int
        }) by {
            lemma_sum_step(s, p, n);
        }
    }
}

proof fn lemma_sum_step(s: Seq<i32>, p: int, n: int)
    requires
        0 <= n <= 12,
        s.len() > 0,
        p == pc_of(s.last() as int),
    ensures
        sum_counts(s, n) == sum_counts(s.drop_last(), n) + (if p < n {
            1int
        } else {
            0int
        }),
    decreases n,
{
    if n > 0 {
        lemma_sum_step(s, p, n - 1);
    }
}

/// The lowest and highest note of a non-empty melody.
pub open spec fn is_range(s: Seq<i32>, lowest: i32, highest: i32) -> bool {
    &&& forall|i: int| 0 <= i < s.len() ==> lowest <= #[trigger] s[i] <= highest
    &&& exists|i: int| 0 <= i < s.len() && s[i] == lowest
    &&& exists|i: int| 0 <= i < s.len() && s[i] == highest
}

/// The lowest and highest notes; `(i32::MAX, i32::MIN)` for an empty melody.
pub fn melody_range(notes: &Vec<i32>) -> (r: (i32, i32))
    ensures
        notes.len() > 0 ==> is_range(notes@, r.0, r.1),
        notes.len() == 0 ==> r == (i32::MAX, i32::MIN),
{
    let mut lowest = i32::MAX;
    let mut highest = i32::MIN;
    for i in 0..notes.len()
        invariant
            forall|j: int| 0 <= j < i ==> lowest <= #[trigger] notes@[j] <= highest,
            i > 0 ==> exists|j: int| 0 <= j < i && notes@[j] == lowest,
            i > 0 ==> exists|j: int| 0 <= j < i && notes@[j] == highest,
            i == 0 ==> lowest == i32::MAX && highest == i32::MIN,
    {
        let n = notes[i];
        if i == 0 || n < lowest {
            lowest = n;
        }
        if i == 0 || n > highest {
            highest = n;
        }
    }
    (lowest, highest)
}

/// The pitch classes of `s`, each once, in order of first appearance.
pub open spec fn distinct_pcs(s: Seq<i32>) -> Seq<u8>
    decreases s.len(),
{
    if s.len() == 0 {
        Seq::empty()
    } else {
        let prev = distinct_pcs(s.drop_last());
        let pc = pc_of(s.last() as int) as u8;
        if prev.contains(pc) {
            prev
        } else {
            prev.push(pc)
        }
    }
}

/// The distinct pitch classes of `notes`, in order of first appearance.
pub fn normalize_pitch_classes(notes: &Vec<i32>) -> (r: Vec<u8>)
    ensures
        r@ == distinct_pcs(notes@),
{
    let mut seen = [false; 12];
    let mut order: Vec<u8> = Vec::new();
    for i in 0..notes.len()
        invariant
            order@ == distinct_pcs(notes@.take(i as int)),
            forall|pc: int| 0 <= pc < 12 ==> seen@[pc] == order@.contains(pc as u8),
            forall|k: int| 0 <= k < order@.len() ==> order@[k] < 12,
    {
        assert(notes@.take(i + 1).drop_last() =~= notes@.take(i as int));
        let pc = normalize_pitch_class(notes[i]);
        if !seen[pc as usize] {
            let ghost old_seen = seen@;
            let ghost prev = order@;
            seen[pc as usize] = true;
            order.push(pc);
            assert(order@.drop_last() =~= prev);
            assert forall|q: int| 0 <= q < 12 implies seen@[q] == order@.contains(q as u8) by {
                assert(old_seen[q] == prev.contains(q as u8));
                if q == pc as int {
                    assert(order@[order@.len() - 1] == pc);
                } else {
                    if order@.contains(q as u8) {
                        let k = choose|k: int| 0 <= k < order@.len() && order@[k] == q as u8;
                        assert(k < order@.len() - 1);
                        assert(prev[k] == q as u8);
                    }
                    if prev.contains(q as u8) {
                        let k = choose|k: int| 0 <= k < prev.len() && prev[k] == q as u8;
                        assert(order@[k] == q as u8);
                    }
                }
            }
        }
    }
    assert(notes@.take(notes.len() as int) =~= notes@);
    order
}

/// Note names of the twelve pitch classes, with both spellings for black keys.
pub open spec fn pc_name(pc: int) -> Seq<char> {
    if pc == 0 {
        "C"@
    } else if pc == 1 {
        "C♯/D♭"@
    } else if pc == 2 {
        "D"@
    } else if pc == 3 {
        "D♯/E♭"@
    } else if pc == 4 {
        "E"@
    } else if pc == 5 {
        "F"@
    } else if pc == 6 {
        "F♯/G♭"@
    } else if pc == 7 {
        "G"@
    } else if pc == 8 {
        "G♯/A♭"@
    } else if pc == 9 {
        "A"@
    } else if pc == 10 {
        "A♯/B♭"@
    } else if pc == 11 {
        "B"@
    } else {
        "?"@
    }
}

/// The note name of a pitch class; `?` outside 0..12.
pub fn pitch_class_name(pc: u8) -> (r: &'static str)
    ensures
        r@ == pc_name(pc as int),
{
    match pc {
        0 => "C",
        1 => "C♯/D♭",
        2 => "D",
        3 => "D♯/E♭",
        4 => "E",
        5 => "F",
        6 => "F♯/G♭",
        7 => "G",
        8 => "G♯/A♭",
        9 => "A",
        10 => "A♯/B♭",
        11 => "B",
        _ => "?",
    }
}

} // verus!
