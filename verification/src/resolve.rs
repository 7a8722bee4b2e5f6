//! Voice-leading resolution of chord tones and notes toward the tonic triad.

use vstd::prelude::*;
use crate::chars::{chars_contain, chars_eq, contains_seq, is_ascii_digit, lower_chars, lower_seq, trim, trim_chars};
use crate::pitch::{normalize_pitch_class, pc_of};
use crate::text::{chars_of, concat_map, dec_int, dec_nat, dec_signed, pad_right, push_chars, push_int, push_nat, push_padded_right, push_signed};

verus! {

/// The number of bytes of `c` in UTF-8.
pub open spec fn utf8_len(c: char) -> nat {
    if (c as u32) < 0x80 {
        1
    } else if (c as u32) < 0x800 {
        2
    } else if (c as u32) < 0x10000 {
        3
    } else {
        4
    }
}

/// The number of bytes of `s` in UTF-8.
pub open spec fn byte_len(s: Seq<char>) -> nat
    decreases s.len(),
{
    if s.len() == 0 {
        0
    } else {
        byte_len(s.drop_last()) + utf8_len(s.last())
    }
}

/// The byte offset where a key name ends and its three-byte quality suffix begins.
pub open spec fn key_split_byte(s: Seq<char>) -> int {
    if byte_len(s) >= 3 {
        byte_len(s) - 3
    } else {
        0
    }
}

/// Whether the key's split offset falls on a character boundary; slicing elsewhere panics.
pub open spec fn key_splits_cleanly(s: Seq<char>) -> bool {
    byte_len(s) < 2 || exists|k: int| 0 <= k <= s.len() && byte_len(s.take(k)) == key_split_byte(s)
}

/// The number of characters of `s` that make up its first `b` bytes.
pub open spec fn char_index_of_byte(s: Seq<char>, b: int) -> int {
    choose|k: int| 0 <= k <= s.len() && byte_len(s.take(k)) == b
}

/// The pitch class spelled by a note name such as `C`, `F#`, `B♭`.
pub open spec fn note_name_pc(n: Seq<char>) -> Option<int> {
    if n == "C"@ {
        Some(0)
    } else if n == "C#"@ || n == "C♯"@ || n == "Db"@ || n == "D♭"@ {
        Some(1)
    } else if n == "D"@ {
        Some(2)
    } else if n == "D#"@ || n == "D♯"@ || n == "Eb"@ || n == "E♭"@ {
        Some(3)
    } else if n == "E"@ {
        Some(4)
    } else if n == "F"@ {
        Some(5)
    } else if n == "F#"@ || n == "F♯"@ || n == "Gb"@ || n == "G♭"@ {
        Some(6)
    } else if n == "G"@ {
        Some(7)
    } else if n == "G#"@ || n == "G♯"@ || n == "Ab"@ || n == "A♭"@ {
        Some(8)
    } else if n == "A"@ {
        Some(9)
    } else if n == "A#"@ || n == "A♯"@ || n == "Bb"@ || n == "B♭"@ {
        Some(10)
    } else if n == "B"@ {
        Some(11)
    } else {
        None
    }
}

/// Reads a key such as `Cmaj` or `F#min`: the last three bytes are the quality and
/// the rest, trimmed, is the tonic. Returns the tonic's pitch class and whether it is minor.
pub open spec fn key_to_pc(s: Seq<char>) -> Option<(int, bool)> {
    if byte_len(s) < 2 {
        None
    } else {
        let k = char_index_of_byte(s, key_split_byte(s));
        let name = s.take(k);
        let qual = s.skip(k);
        let minor = contains_seq(lower_seq(qual), "min"@);
        match note_name_pc(trim(name)) {
            Some(pc) => Some((pc, minor)),
            None => None,
        }
    }
}

fn utf8_len_exec(c: char) -> (n: usize)
    ensures
        n == utf8_len(c),
{
    let v = c as u32;
    if v < 0x80 {
        1
    } else if v < 0x800 {
        2
    } else if v < 0x10000 {
        3
    } else {
        4
    }
}

proof fn lemma_byte_len_take(s: Seq<char>, k: int)
    requires
        0 <= k < s.len(),
    ensures
        byte_len(s.take(k + 1)) == byte_len(s.take(k)) + utf8_len(s[k]),
{
    assert(s.take(k + 1).drop_last() =~= s.take(k));
}

proof fn lemma_byte_len_mono(s: Seq<char>, a: int, b: int)
    requires
        0 <= a <= b <= s.len(),
    ensures
        byte_len(s.take(a)) + (b - a) <= byte_len(s.take(b)),
    decreases b - a,
{
    if a < b {
        lemma_byte_len_mono(s, a, b - 1);
        lemma_byte_len_take(s, b - 1);
    }
}

/// Tells whether a key's split offset falls on a character boundary (see
/// `key_splits_cleanly`), so that a caller can test it before resolving toward the key.
pub fn key_splits_at_boundary(key: &str) -> (b: bool)
    ensures
        b == key_splits_cleanly(key@),
{
    let v = chars_of(key);
    let mut total: u128 = 0;
    let mut i: usize = 0;
    while i < v.len()
        invariant
            i <= v.len(),
            total == byte_len(v@.take(i as int)),
            total <= 4 * i,
        decreases v.len() - i,
    {
        proof {
            lemma_byte_len_take(v@, i as int);
        }
        total = total + utf8_len_exec(v[i]) as u128;
        i += 1;
    }
    assert(v@.take(v.len() as int) =~= v@);
    if total < 2 {
        return true;
    }
    let split: u128 = if total >= 3 {
        total - 3
    } else {
        0
    };
    let mut k: usize = 0;
    let mut acc: u128 = 0;
    while acc < split && k < v.len()
        invariant
            k <= v.len(),
            acc == byte_len(v@.take(k as int)),
            acc <= 4 * k,
            byte_len(v@) == total,
            split == key_split_byte(v@),
            split <= total,
            forall|j: int| 0 <= j < k ==> byte_len(v@.take(j)) < split,
        decreases v.len() - k,
    {
        proof {
            lemma_byte_len_take(v@, k as int);
        }
        acc = acc + utf8_len_exec(v[k]) as u128;
        k += 1;
    }
    if k == v.len() {
        assert(v@.take(k as int) =~= v@);
    }
    let found = acc == split;
    proof {
        if !found {
            assert forall|j: int| 0 <= j <= v.len() implies byte_len(v@.take(j)) != split by {
                if j >= k {
                    lemma_byte_len_mono(v@, k as int, j);
                }
            }
        }
    }
    found
}

fn note_name_pc_exec(n: &Vec<char>) -> (r: Option<u8>)
    ensures
        match r {
            Some(pc) => note_name_pc(n@) == Some(pc as int),
            None => note_name_pc(n@) is None,
        },
{
    if chars_eq(n, "C") {
        Some(0)
    } else if chars_eq(n, "C#") || chars_eq(n, "C♯") || chars_eq(n, "Db") || chars_eq(n, "D♭") {
        Some(1)
    } else if chars_eq(n, "D") {
        Some(2)
    } else if chars_eq(n, "D#") || chars_eq(n, "D♯") || chars_eq(n, "Eb") || chars_eq(n, "E♭") {
        Some(3)
    } else if chars_eq(n, "E") {
        Some(4)
    } else if chars_eq(n, "F") {
        Some(5)
    } else if chars_eq(n, "F#") || chars_eq(n, "F♯") || chars_eq(n, "Gb") || chars_eq(n, "G♭") {
        Some(6)
    } else if chars_eq(n, "G") {
        Some(7)
    } else if chars_eq(n, "G#") || chars_eq(n, "G♯") || chars_eq(n, "Ab") || chars_eq(n, "A♭") {
        Some(8)
    } else if chars_eq(n, "A") {
        Some(9)
    } else if chars_eq(n, "A#") || chars_eq(n, "A♯") || chars_eq(n, "Bb") || chars_eq(n, "B♭") {
        Some(10)
    } else if chars_eq(n, "B") {
        Some(11)
    } else {
        None
    }
}

/// Reads a key such as `Cmaj` or `F#min` into its tonic pitch class and whether it is minor.
pub fn parse_key_to_pc(key: &str) -> (r: Option<(u8, bool)>)
    requires
        key_splits_cleanly(key@),
    ensures
        match r {
            Some((pc, minor)) => key_to_pc(key@) == Some((pc as int, minor)) && pc < 12,
            None => key_to_pc(key@) is None,
        },
{
    let v = chars_of(key);
    let mut total: u128 = 0;
    let mut i: usize = 0;
    while i < v.len()
        invariant
            i <= v.len(),
            total == byte_len(v@.take(i as int)),
            total <= 4 * i,
        decreases v.len() - i,
    {
        proof {
            lemma_byte_len_take(v@, i as int);
        }
        total = total + utf8_len_exec(v[i]) as u128;
        i += 1;
    }
    assert(v@.take(v.len() as int) =~= v@);
    if total < 2 {
        return None;
    }
    let split: u128 = if total >= 3 {
        total - 3
    } else {
        0
    };
    let mut k: usize = 0;
    let mut acc: u128 = 0;
    while acc < split
        invariant
            k <= v.len(),
            acc == byte_len(v@.take(k as int)),
            byte_len(v@) == total,
            split == key_split_byte(v@),
            split <= total,
            exists|j: int| 0 <= j <= v.len() && byte_len(v@.take(j)) == split,
            forall|j: int| 0 <= j < k ==> byte_len(v@.take(j)) < split,
        decreases v.len() - k,
    {
        if k == v.len() {
            assert(v@.take(k as int) =~= v@);
            assert(false);
        }
        proof {
            lemma_byte_len_take(v@, k as int);
        }
        acc = acc + utf8_len_exec(v[k]) as u128;
        k += 1;
    }
    proof {
        let j = choose|j: int| 0 <= j <= v.len() && byte_len(v@.take(j)) == split;
        if j < k {
        } else if j > k {
            lemma_byte_len_mono(v@, k as int, j);
        }
        assert(j == k);
        let c = char_index_of_byte(v@, split as int);
        assert(0 <= c <= v@.len() && byte_len(v@.take(c)) == split);
        if c < k {
        } else if c > k {
            lemma_byte_len_mono(v@, k as int, c);
        }
    }
    let name = crate::chars::slice_chars(&v, 0, k);
    let qual = crate::chars::slice_chars(&v, k, v.len());
    assert(name@ =~= v@.take(k as int));
    assert(qual@ =~= v@.skip(k as int));
    let is_minor = chars_contain(&lower_chars(&qual), "min");
    let root = trim_chars(&name);
    match note_name_pc_exec(&root) {
        Some(pc) => Some((pc, is_minor)),
        None => None,
    }
}

/// The tonic triad's pitch classes: root, third (minor or major) and fifth.
pub open spec fn triad_of(tonic: int, minor: bool) -> Seq<u8> {
    seq![(tonic % 12) as u8, ((tonic + if minor { 3int } else { 4int }) % 12) as u8, ((tonic + 7) % 12) as u8]
}

/// The pitch classes of the major triad on `tonic_pc`.
pub fn major_triad_pcs(tonic_pc: u8) -> (t: [u8; 3])
    requires
        tonic_pc < 12,
    ensures
        t@ == triad_of(tonic_pc as int, false),
{
    let t = [tonic_pc % 12, (tonic_pc + 4) % 12, (tonic_pc + 7) % 12];
    assert(t@ =~= triad_of(tonic_pc as int, false));
    t
}

/// The pitch classes of the minor triad on `tonic_pc`.
pub fn minor_triad_pcs(tonic_pc: u8) -> (t: [u8; 3])
    requires
        tonic_pc < 12,
    ensures
        t@ == triad_of(tonic_pc as int, true),
{
    let t = [tonic_pc % 12, (tonic_pc + 3) % 12, (tonic_pc + 7) % 12];
    assert(t@ =~= triad_of(tonic_pc as int, true));
    t
}

/// The shortest signed step from pitch class `from` to pitch class `to` (a tritone counts upward).
pub open spec fn signed_distance(from: int, to: int) -> int {
    let d = to - from;
    if d > 6 {
        d - 12
    } else if d < -6 {
        d + 12
    } else {
        d
    }
}

/// The shortest signed step between two pitch classes.
pub fn distance_signed(from: u8, to: u8) -> (d: i8)
    requires
        from < 12,
        to < 12,
    ensures
        d == signed_distance(from as int, to as int),
        -6 <= d <= 6,
        (from + d - to) % 12 == 0,
{
    let from = from as i16;
    let to = to as i16;
    let mut d = (to - from) % 12;
    if d > 6 {
        d -= 12;
    }
    if d < -6 {
        d += 12;
    }
    d as i8
}

pub open spec fn abs(x: int) -> int {
    if x < 0 {
        -x
    } else {
        x
    }
}

/// The triad tone nearest to `pc` and the step to it; the first of equally near tones wins.
pub open spec fn nearest_in(pc: int, t: Seq<u8>) -> (u8, int) {
    let d0 = signed_distance(pc, t[0] as int);
    let d1 = signed_distance(pc, t[1] as int);
    let d2 = signed_distance(pc, t[2] as int);
    let b1 = if abs(d1) < abs(d0) {
        (t[1], d1)
    } else {
        (t[0], d0)
    };
    if abs(d2) < abs(b1.1) {
        (t[2], d2)
    } else {
        b1
    }
}

fn abs_i8(x: i8) -> (r: i16)
    ensures
        r == abs(x as int),
{
    if x < 0 {
        -(x as i16)
    } else {
        x as i16
    }
}

/// The tone of `triad` nearest to `pc`, with the signed step to reach it.
pub fn nearest_triad_pc(pc: u8, triad: &[u8; 3]) -> (r: (u8, i8))
    requires
        pc < 12,
        forall|i: int| 0 <= i < 3 ==> triad@[i] < 12,
    ensures
        (r.0, r.1 as int) == nearest_in(pc as int, triad@),
        triad@.contains(r.0),
        forall|i: int| 0 <= i < 3 ==> abs(r.1 as int) <= abs(signed_distance(pc as int, triad@[i] as int)),
{
    let mut best = (triad[0], distance_signed(pc, triad[0]));
    let d1 = distance_signed(pc, triad[1]);
    if abs_i8(d1) < abs_i8(best.1) {
        best = (triad[1], d1);
    }
    let d2 = distance_signed(pc, triad[2]);
    if abs_i8(d2) < abs_i8(best.1) {
        best = (triad[2], d2);
    }
    assert(triad@[0] == triad[0] && triad@[1] == triad[1] && triad@[2] == triad[2]);
    best
}

/// One voice's suggested motion.
pub struct VoiceResolution {
    pub from_index: Option<i32>,
    pub from_pc: u8,
    pub to_pc: u8,
    pub semitones: i8,
    pub direction: String,
}

/// Suggested voice-leading toward the tonic.
pub struct ChordResolutionReport {
    pub key: String,
    pub system: String,
    pub input_description: String,
    pub target_description: String,
    pub resolutions: Vec<VoiceResolution>,
}

/// Why no resolution could be suggested.
#[derive(Debug)]
pub enum ResolveError {
    /// The key is not of the form `<note><quality>` (the key is kept).
    InvalidKey(String),
    /// No notes were given.
    EmptyNotes,
}

/// The word for the direction of a step.
pub open spec fn direction_word(d: int) -> Seq<char> {
    if d > 0 {
        "up"@
    } else if d < 0 {
        "down"@
    } else {
        "stay"@
    }
}

fn direction(d: i8) -> (s: String)
    ensures
        s@ == direction_word(d as int),
{
    if d > 0 {
        String::from_str("up")
    } else if d < 0 {
        String::from_str("down")
    } else {
        String::from_str("stay")
    }
}

/// The resolution of one pitch class in a key: the leading tone rises to the tonic,
/// the fourth degree falls to the third, everything else moves to the nearest triad tone.
pub open spec fn chord_tone_target(pc: int, tonic: int, minor: bool) -> (u8, int) {
    let rel = (pc + 12 - tonic) % 12;
    if rel == 11 {
        ((tonic % 12) as u8, 1)
    } else if rel == 5 {
        (((tonic + if minor { 3int } else { 4int }) % 12) as u8, -1)
    } else {
        nearest_in(pc, triad_of(tonic, minor))
    }
}

/// Whether every character is an ASCII digit or a comma.
pub open spec fn is_pc_list(s: Seq<char>) -> bool {
    forall|i: int| 0 <= i < s.len() ==> is_ascii_digit(#[trigger] s[i]) || s[i] == ','
}

/// The value of a string of ASCII digits.
pub open spec fn digits_value(s: Seq<char>) -> nat
    decreases s.len(),
{
    if s.len() == 0 {
        0
    } else {
        digits_value(s.drop_last()) * 10 + (s.last() as u32 - 48) as nat
    }
}

/// The comma-separated fields of `s` (as `str::split(',')`).
pub open spec fn split_commas(s: Seq<char>) -> Seq<Seq<char>>
    decreases s.len(),
{
    if s.len() == 0 {
        seq![Seq::empty()]
    } else {
        let prev = split_commas(s.drop_last());
        if s.last() == ',' {
            prev.push(Seq::empty())
        } else {
            prev.update(prev.len() - 1, prev.last().push(s.last()))
        }
    }
}

/// The pitch classes of the fields that read as a byte (non-empty, at most 255), wrapped to 0..12.
pub open spec fn field_pcs(fields: Seq<Seq<char>>) -> Seq<u8>
    decreases fields.len(),
{
    if fields.len() == 0 {
        Seq::empty()
    } else {
        let prev = field_pcs(fields.drop_last());
        let f = fields.last();
        if f.len() > 0 && digits_value(f) <= 255 {
            prev.push((digits_value(f) % 12) as u8)
        } else {
            prev
        }
    }
}

/// The pitch classes a chord argument denotes in a key: V and V7 give the dominant
/// seventh; a list of digits and commas gives those pitch classes; anything else the tonic triad.
pub open spec fn chord_pcs(chord: Seq<char>, tonic: int, minor: bool) -> Seq<u8> {
    let c = lower_seq(trim(chord));
    if c == "v"@ || c == "v7"@ {
        let dom = (tonic + 7) % 12;
        seq![dom as u8, ((dom + 4) % 12) as u8, ((dom + 7) % 12) as u8, ((dom + 10) % 12) as u8]
    } else if is_pc_list(c) {
        field_pcs(split_commas(c))
    } else {
        triad_of(tonic, minor)
    }
}

impl VoiceResolution {
    pub open spec fn model(&self) -> (Option<i32>, u8, u8, int, Seq<char>) {
        (self.from_index, self.from_pc, self.to_pc, self.semitones as int, self.direction@)
    }
}

/// The resolution of each pitch class of `pcs`.
pub open spec fn chord_resolutions(pcs: Seq<u8>, tonic: int, minor: bool) -> Seq<(Option<i32>, u8, u8, int, Seq<char>)> {
    pcs.map_values(|pc: u8| {
        let t = chord_tone_target(pc as int, tonic, minor);
        (None::<i32>, pc, t.0, t.1, direction_word(t.1))
    })
}

fn parse_pc_list(c: &Vec<char>) -> (r: Vec<u8>)
    requires
        is_pc_list(c@),
    ensures
        r@ == field_pcs(split_commas(c@)),
        forall|i: int| 0 <= i < r@.len() ==> r@[i] < 12,
{
    let mut r: Vec<u8> = Vec::new();
    let mut value: u32 = 0;
    let mut len: usize = 0;
    let mut overflow = false;
    for i in 0..c.len()
        invariant
            is_pc_list(c@),
            split_commas(c@.take(i as int)).len() > 0,
            len == split_commas(c@.take(i as int)).last().len(),
            len <= i,
            overflow == (digits_value(split_commas(c@.take(i as int)).last()) > 255),
            !overflow ==> value == digits_value(split_commas(c@.take(i as int)).last()),
            r@ == field_pcs(split_commas(c@.take(i as int)).drop_last()),
            forall|k: int| 0 <= k < r@.len() ==> r@[k] < 12,
            is_pc_list(split_commas(c@.take(i as int)).last()),
    {
        let ch = c[i];
        let ghost prev = split_commas(c@.take(i as int));
        assert(c@.take(i + 1).drop_last() =~= c@.take(i as int));
        if ch == ',' {
            if len > 0 && !overflow {
                r.push((value % 12) as u8);
            }
            assert(split_commas(c@.take(i + 1)).drop_last() =~= prev);
            value = 0;
            len = 0;
            overflow = false;
        } else {
            let ghost f = prev.last();
            assert(split_commas(c@.take(i + 1)).drop_last() =~= prev.drop_last());
            assert(split_commas(c@.take(i + 1)).last() =~= f.push(ch));
            assert(f.push(ch).drop_last() =~= f);
            assert(is_ascii_digit(c@[i as int]));
            let digit: u32 = (ch as u32) - 48;
            if !overflow {
                let next = value * 10 + digit;
                if next > 255 {
                    overflow = true;
                } else {
                    value = next;
                }
            }
            len = len + 1;
            assert forall|k: int| 0 <= k < f.push(ch).len() implies is_ascii_digit(#[trigger] f.push(ch)[k]) || f.push(ch)[k] == ',' by {
                if k < f.len() {
                    assert(f.push(ch)[k] == f[k]);
                }
            }
        }
    }
    assert(c@.take(c.len() as int) =~= c@);
    let ghost fields = split_commas(c@);
    assert(fields.drop_last().push(fields.last()) =~= fields);
    if len > 0 && !overflow {
        r.push((value % 12) as u8);
    }
    r
}

/// Resolves the tones of a chord (V, V7, a list of pitch classes, or the tonic triad) in a key.
pub fn resolve_chord(key: String, system: String, chord: String) -> (r: Result<ChordResolutionReport, ResolveError>)
    requires
        key_splits_cleanly(key@),
    ensures
        match r {
            Ok(rep) => key_to_pc(key@) matches Some((tonic, minor)) && {
                &&& rep.key@ == key@
                &&& rep.system@ == system@
                &&& rep.input_description@ == "Chord "@ + chord@
                &&& rep.target_description@ == (if minor { "i"@ } else { "I"@ })
                &&& rep.resolutions@.map_values(|v: VoiceResolution| v.model()) == chord_resolutions(
                    chord_pcs(chord@, tonic, minor),
                    tonic,
                    minor,
                )
            },
            Err(ResolveError::InvalidKey(k)) => key_to_pc(key@) is None && k@ == key@,
            Err(ResolveError::EmptyNotes) => false,
        },
{
    let (tonic_pc, is_minor) = match parse_key_to_pc(key.as_str()) {
        Some(p) => p,
        None => {
            return Err(ResolveError::InvalidKey(key));
        },
    };
    let triad = if is_minor {
        minor_triad_pcs(tonic_pc)
    } else {
        major_triad_pcs(tonic_pc)
    };
    let c = lower_chars(&trim_chars(&chars_of(chord.as_str())));
    let pcs: Vec<u8> = if chars_eq(&c, "v") || chars_eq(&c, "v7") {
        let dom = (tonic_pc + 7) % 12;
        let third = (dom + 4) % 12;
        let fifth = (dom + 7) % 12;
        let seventh = (dom + 10) % 12;
        let v = vec![dom, third, fifth, seventh];
        assert(v@ =~= chord_pcs(chord@, tonic_pc as int, is_minor));
        v
    } else {
        let mut all_digits = true;
        for i in 0..c.len()
            invariant
                all_digits == forall|j: int| 0 <= j < i ==> is_ascii_digit(#[trigger] c@[j]) || c@[j] == ',',
        {
            if !(('0' <= c[i] && c[i] <= '9') || c[i] == ',') {
                all_digits = false;
            }
        }
        if all_digits {
            parse_pc_list(&c)
        } else {
            let mut v: Vec<u8> = Vec::new();
            v.push(triad[0]);
            v.push(triad[1]);
            v.push(triad[2]);
            assert(v@ =~= triad@);
            v
        }
    };
    let ghost expected = chord_resolutions(pcs@, tonic_pc as int, is_minor);
    let mut resolutions: Vec<VoiceResolution> = Vec::new();
    for i in 0..pcs.len()
        invariant
            tonic_pc < 12,
            forall|k: int| 0 <= k < pcs@.len() ==> pcs@[k] < 12,
            triad@ == triad_of(tonic_pc as int, is_minor),
            expected == chord_resolutions(pcs@, tonic_pc as int, is_minor),
            resolutions@.map_values(|v: VoiceResolution| v.model()) == expected.take(i as int),
    {
        let pc = pcs[i];
        let rel = (pc + 12 - tonic_pc) % 12;
        let (to_pc, delta): (u8, i8) = if rel == 11 {
            (tonic_pc % 12, 1)
        } else if rel == 5 {
            ((tonic_pc + if is_minor {
                3
            } else {
                4
            }) % 12, -1)
        } else {
            nearest_triad_pc(pc, &triad)
        };
        assert((to_pc, delta as int) == chord_tone_target(pc as int, tonic_pc as int, is_minor));
        let ghost before = resolutions@;
        let dir = direction(delta);
        let item = VoiceResolution {
            from_index: None,
            from_pc: pc,
            to_pc,
            semitones: delta,
            direction: dir,
        };
        assert(item.model() == expected[i as int]);
        resolutions.push(item);
        assert(resolutions@ =~= before.push(item));
        assert(expected.take(i + 1) =~= expected.take(i as int).push(expected[i as int]));
        assert(resolutions@.map_values(|v: VoiceResolution| v.model()) =~= before.map_values(|v: VoiceResolution| v.model()).push(item.model()));
    }
    assert(expected.take(pcs.len() as int) =~= expected);
    let mut input_description = String::from_str("Chord ");
    input_description.append(chord.as_str());
    Ok(ChordResolutionReport {
        key,
        system,
        input_description,
        target_description: String::from_str(if is_minor { "i" } else { "I" }),
        resolutions,
    })
}

/// The resolution of each note toward the nearest tonic-triad tone.
pub open spec fn note_resolutions(notes: Seq<i32>, tonic: int, minor: bool) -> Seq<(Option<i32>, u8, u8, int, Seq<char>)> {
    notes.map_values(|n: i32| {
        let pc = pc_of(n as int);
        let t = nearest_in(pc, triad_of(tonic, minor));
        (Some(n), pc as u8, t.0, t.1, direction_word(t.1))
    })
}

/// The notes joined by commas, as `Notes 60,64,67`.
pub open spec fn notes_description(notes: Seq<i32>) -> Seq<char> {
    "Notes "@ + crate::text::join(notes.map_values(|n: i32| dec_int(n as int)), ","@)
}

/// Resolves each note toward the nearest tone of the tonic triad of a key.
pub fn resolve_notes(key: String, system: String, notes: &Vec<i32>) -> (r: Result<ChordResolutionReport, ResolveError>)
    requires
        key_splits_cleanly(key@),
    ensures
        notes.len() == 0 ==> r matches Err(ResolveError::EmptyNotes),
        notes.len() > 0 ==> match r {
            Ok(rep) => key_to_pc(key@) matches Some((tonic, minor)) && {
                &&& rep.key@ == key@
                &&& rep.system@ == system@
                &&& rep.input_description@ == notes_description(notes@)
                &&& rep.target_description@ == (if minor { "i"@ } else { "I"@ })
                &&& rep.resolutions@.map_values(|v: VoiceResolution| v.model()) == note_resolutions(notes@, tonic, minor)
            },
            Err(ResolveError::InvalidKey(k)) => key_to_pc(key@) is None && k@ == key@,
            Err(ResolveError::EmptyNotes) => false,
        },
{
    if notes.len() == 0 {
        return Err(ResolveError::EmptyNotes);
    }
    let (tonic_pc, is_minor) = match parse_key_to_pc(key.as_str()) {
        Some(p) => p,
        None => {
            return Err(ResolveError::InvalidKey(key));
        },
    };
    let triad = if is_minor {
        minor_triad_pcs(tonic_pc)
    } else {
        major_triad_pcs(tonic_pc)
    };
    let ghost expected = note_resolutions(notes@, tonic_pc as int, is_minor);
    let mut resolutions: Vec<VoiceResolution> = Vec::new();
    for i in 0..notes.len()
        invariant
            tonic_pc < 12,
            triad@ == triad_of(tonic_pc as int, is_minor),
            expected == note_resolutions(notes@, tonic_pc as int, is_minor),
            resolutions@.map_values(|v: VoiceResolution| v.model()) == expected.take(i as int),
    {
        let idx = notes[i];
        let pc = normalize_pitch_class(idx);
        let (to_pc, delta) = nearest_triad_pc(pc, &triad);
        let ghost before = resolutions@;
        let dir = direction(delta);
        let item = VoiceResolution {
            from_index: Some(idx),
            from_pc: pc,
            to_pc,
            semitones: delta,
            direction: dir,
        };
        assert(item.model() == expected[i as int]);
        resolutions.push(item);
        assert(resolutions@ =~= before.push(item));
        assert(expected.take(i + 1) =~= expected.take(i as int).push(expected[i as int]));
        assert(resolutions@.map_values(|v: VoiceResolution| v.model()) =~= before.map_values(|v: VoiceResolution| v.model()).push(item.model()));
    }
    assert(expected.take(notes.len() as int) =~= expected);
    let mut input_description = String::from_str("Notes ");
    let ghost start = input_description@;
    let ghost parts = notes@.map_values(|n: i32| dec_int(n as int));
    for i in 0..notes.len()
        invariant
            parts == notes@.map_values(|n: i32| dec_int(n as int)),
            input_description@ == start + crate::text::join(parts.take(i as int), ","@),
    {
        if i > 0 {
            input_description.append(",");
        }
        push_int(&mut input_description, notes[i] as i128);
        assert(parts.take(i + 1).drop_last() =~= parts.take(i as int));
        assert(input_description@ =~= start + crate::text::join(parts.take(i + 1), ","@));
    }
    assert(parts.take(notes.len() as int) =~= parts);
    Ok(ChordResolutionReport {
        key,
        system,
        input_description,
        target_description: String::from_str(if is_minor { "i" } else { "I" }),
        resolutions,
    })
}

/// The report line of one voice: `  pc 11  → pc 0    (up +1 st)`.
pub open spec fn voice_line(v: (Option<i32>, u8, u8, int, Seq<char>)) -> Seq<char> {
    "  "@ + pad_right("pc "@ + dec_nat(v.1 as nat), 6) + " → "@ + pad_right("pc "@ + dec_nat(v.2 as nat), 6)
        + "  ("@ + v.4 + " "@ + dec_signed(v.3) + " st)\n"@
}

impl ChordResolutionReport {
    /// The text rendering of this report.
    pub open spec fn text(&self) -> Seq<char> {
        let head = "Resolution in "@ + self.key@ + " ("@ + self.system@ + ") — "@ + self.input_description@
            + " → "@ + self.target_description@ + ":\n"@;
        if self.resolutions@.len() == 0 {
            head + "No stepwise resolutions available.\n"@
        } else {
            head + "Suggested voice-leading:\n"@ + concat_map(
                self.resolutions@,
                |v: VoiceResolution| voice_line(v.model()),
            )
        }
    }

    /// Renders the report as text.
    pub fn render_text(&self) -> (out: String)
        ensures
            out@ == self.text(),
    {
        let mut out = String::new();
        out.append("Resolution in ");
        out.append(self.key.as_str());
        out.append(" (");
        out.append(self.system.as_str());
        out.append(") — ");
        out.append(self.input_description.as_str());
        out.append(" → ");
        out.append(self.target_description.as_str());
        out.append(":\n");
        let ghost head = out@;
        if self.resolutions.len() == 0 {
            out.append("No stepwise resolutions available.\n");
            return out;
        }
        out.append("Suggested voice-leading:\n");
        let ghost base = out@;
        for i in 0..self.resolutions.len()
            invariant
                out@ == base + concat_map(self.resolutions@.take(i as int), |v: VoiceResolution| voice_line(v.model())),
        {
            push_voice_line(&mut out, &self.resolutions[i]);
            assert(self.resolutions@.take(i + 1).drop_last() =~= self.resolutions@.take(i as int));
            assert(out@ =~= base + concat_map(self.resolutions@.take(i + 1), |v: VoiceResolution| voice_line(v.model())));
        }
        assert(self.resolutions@.take(self.resolutions.len() as int) =~= self.resolutions@);
        out
    }
}

fn push_voice_line(out: &mut String, v: &VoiceResolution)
    ensures
        final(out)@ == old(out)@ + voice_line(v.model()),
{
    let ghost start = out@;
    let mut from = String::from_str("pc ");
    push_nat(&mut from, v.from_pc as u128);
    let mut to = String::from_str("pc ");
    push_nat(&mut to, v.to_pc as u128);
    out.append("  ");
    push_padded_right(out, &chars_of(from.as_str()), 6);
    out.append(" → ");
    push_padded_right(out, &chars_of(to.as_str()), 6);
    out.append("  (");
    out.append(v.direction.as_str());
    out.append(" ");
    push_signed(out, v.semitones as i128);
    out.append(" st)\n");
    assert(out@ =~= start + voice_line(v.model()));
}

/// Whether pitch class `x` belongs to the tonic triad of the key on `tonic`: the tonic, its
/// third (minor in a minor key, major otherwise) or its fifth.
pub open spec fn in_tonic_triad(x: int, tonic: int, minor: bool) -> bool {
    x == tonic % 12 || x == (tonic + if minor { 3int } else { 4int }) % 12 || x == (tonic + 7) % 12
}

/// Every chord tone resolves into the key's tonic triad. The leading tone (a semitone
/// below the tonic) rises one semitone to the tonic, and the fourth degree falls to the
/// third of the triad: the minor third in a minor key, the major third otherwise.
pub proof fn lemma_chord_resolution_targets(pcs: Seq<u8>, tonic: int, minor: bool)
    requires
        0 <= tonic < 12,
    ensures
        forall|k: int| 0 <= k < pcs.len() ==> {
            let v = #[trigger] chord_resolutions(pcs, tonic, minor)[k];
            let rel = (pcs[k] + 12 - tonic) % 12;
            &&& v.1 == pcs[k]
            &&& in_tonic_triad(v.2 as int, tonic, minor)
            &&& (rel == 11 ==> v.2 == tonic && v.3 == 1)
            &&& (rel == 5 && minor ==> v.2 == (tonic + 3) % 12 && v.3 == -1)
            &&& (rel == 5 && !minor ==> v.2 == (tonic + 4) % 12 && v.3 == -1)
            &&& v.4 == (if v.3 > 0 { "up"@ } else if v.3 < 0 { "down"@ } else { "stay"@ })
        },
{
    assert forall|k: int| 0 <= k < pcs.len() implies {
        let v = #[trigger] chord_resolutions(pcs, tonic, minor)[k];
        let rel = (pcs[k] + 12 - tonic) % 12;
        &&& v.1 == pcs[k]
        &&& in_tonic_triad(v.2 as int, tonic, minor)
        &&& (rel == 11 ==> v.2 == tonic && v.3 == 1)
        &&& (rel == 5 && minor ==> v.2 == (tonic + 3) % 12 && v.3 == -1)
        &&& (rel == 5 && !minor ==> v.2 == (tonic + 4) % 12 && v.3 == -1)
        &&& v.4 == (if v.3 > 0 { "up"@ } else if v.3 < 0 { "down"@ } else { "stay"@ })
    } by {
        let pc = pcs[k] as int;
        let rel = (pc + 12 - tonic) % 12;
        let t = chord_tone_target(pc, tonic, minor);
        assert(chord_resolutions(pcs, tonic, minor)[k] == (None::<i32>, pcs[k], t.0, t.1, direction_word(t.1)));
        if rel != 11 && rel != 5 {
            let tr = triad_of(tonic, minor);
            assert(t.0 == tr[0] || t.0 == tr[1] || t.0 == tr[2]);
        }
    }
}

/// Every note resolves to the nearest tone of the key's tonic triad: the step lands on
/// that tone, and no triad tone is nearer.
pub proof fn lemma_note_resolution_targets(notes: Seq<i32>, tonic: int, minor: bool)
    requires
        0 <= tonic < 12,
    ensures
        forall|k: int| 0 <= k < notes.len() ==> {
            let v = #[trigger] note_resolutions(notes, tonic, minor)[k];
            let pc = (notes[k] as int) % 12;
            &&& v.0 == Some(notes[k])
            &&& v.1 == pc
            &&& in_tonic_triad(v.2 as int, tonic, minor)
            &&& (pc + v.3) % 12 == v.2
            &&& -6 <= v.3 <= 6
            &&& forall|x: int| 0 <= x < 12 && in_tonic_triad(x, tonic, minor) ==> abs(v.3) <= abs(x - pc)
                && abs(v.3) <= abs(x - pc + 12) && abs(v.3) <= abs(x - pc - 12)
        },
{
    assert forall|k: int| 0 <= k < notes.len() implies {
        let v = #[trigger] note_resolutions(notes, tonic, minor)[k];
        let pc = (notes[k] as int) % 12;
        &&& v.0 == Some(notes[k])
        &&& v.1 == pc
        &&& in_tonic_triad(v.2 as int, tonic, minor)
        &&& (pc + v.3) % 12 == v.2
        &&& -6 <= v.3 <= 6
        &&& forall|x: int| 0 <= x < 12 && in_tonic_triad(x, tonic, minor) ==> abs(v.3) <= abs(x - pc)
            && abs(v.3) <= abs(x - pc + 12) && abs(v.3) <= abs(x - pc - 12)
    } by {
        lemma_nearest_triad_tone((notes[k] as int) % 12, tonic, minor);
    }
}

proof fn lemma_signed_distance_shortest(from: int, to: int)
    requires
        0 <= from < 12,
        0 <= to < 12,
    ensures
        -6 <= signed_distance(from, to) <= 6,
        (from + signed_distance(from, to)) % 12 == to,
        abs(signed_distance(from, to)) <= abs(to - from),
        abs(signed_distance(from, to)) <= abs(to - from + 12),
        abs(signed_distance(from, to)) <= abs(to - from - 12),
{
}

proof fn lemma_nearest_triad_tone(pc: int, tonic: int, minor: bool)
    requires
        0 <= pc < 12,
        0 <= tonic < 12,
    ensures
        ({
            let r = nearest_in(pc, triad_of(tonic, minor));
            &&& in_tonic_triad(r.0 as int, tonic, minor)
            &&& (pc + r.1) % 12 == r.0
            &&& -6 <= r.1 <= 6
            &&& forall|x: int| 0 <= x < 12 && in_tonic_triad(x, tonic, minor) ==> abs(r.1) <= abs(x - pc)
                && abs(r.1) <= abs(x - pc + 12) && abs(r.1) <= abs(x - pc - 12)
        }),
{
    let t = triad_of(tonic, minor);
    let a = (tonic % 12) as u8;
    let b = ((tonic + if minor { 3int } else { 4int }) % 12) as u8;
    let c = ((tonic + 7) % 12) as u8;
    assert(t[0] == a && t[1] == b && t[2] == c);
    lemma_signed_distance_shortest(pc, a as int);
    lemma_signed_distance_shortest(pc, b as int);
    lemma_signed_distance_shortest(pc, c as int);
}

} // verus!
