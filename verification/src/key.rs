//! Keys: parsing key hints, scale membership and key estimation from pitch-class histograms.

use vstd::prelude::*;
use crate::chars::{
    ascii_lower, char_is_ws, chars_contain, chars_start_with, contains_seq, is_ws, lower_chars,
    lower_seq, starts_with, trim, trim_chars,
};
use crate::text::{chars_of, string_of};

verus! {

/// Major (Ionian) scale steps.
pub const MAJOR_PATTERN: [u8; 7] = [0, 2, 4, 5, 7, 9, 11];

/// Natural minor (Aeolian) scale steps.
pub const MINOR_PATTERN: [u8; 7] = [0, 2, 3, 5, 7, 8, 10];

/// The two key flavours that key estimation considers.
#[derive(Clone, Copy, Debug, PartialEq, Eq, Structural)]
pub enum ModeFlavor {
    Major,
    Minor,
}

/// The steps of a mode flavour.
pub open spec fn flavor_steps(mode: ModeFlavor) -> Seq<u8> {
    match mode {
        ModeFlavor::Major => seq![0u8, 2, 4, 5, 7, 9, 11],
        ModeFlavor::Minor => seq![0u8, 2, 3, 5, 7, 8, 10],
    }
}

/// Major is preferred to minor when two keys match equally well.
pub open spec fn flavor_priority(mode: ModeFlavor) -> int {
    match mode {
        ModeFlavor::Major => 1,
        ModeFlavor::Minor => 0,
    }
}

impl ModeFlavor {
    pub fn name(&self) -> (r: &'static str)
        ensures
            r@ == (match *self {
                ModeFlavor::Major => "Major"@,
                ModeFlavor::Minor => "Minor"@,
            }),
    {
        match self {
            ModeFlavor::Major => "Major",
            ModeFlavor::Minor => "Minor",
        }
    }

    pub fn pattern(&self) -> (r: [u8; 7])
        ensures
            r@ == flavor_steps(*self),
    {
        let r = match self {
            ModeFlavor::Major => MAJOR_PATTERN,
            ModeFlavor::Minor => MINOR_PATTERN,
        };
        assert(r@ =~= flavor_steps(*self));
        r
    }

    pub fn priority(&self) -> (r: u8)
        ensures
            r == flavor_priority(*self),
    {
        match self {
            ModeFlavor::Major => 1,
            ModeFlavor::Minor => 0,
        }
    }
}

/// Transposes a pattern of steps to `root_pc`, wrapping at the octave.
pub fn apply_pattern(root_pc: u8, pattern: &[u8; 7]) -> (out: [u8; 7])
    requires
        forall|i: int| 0 <= i < 7 ==> root_pc + #[trigger] pattern@[i] <= 255,
    ensures
        forall|i: int| 0 <= i < 7 ==> #[trigger] out@[i] == (root_pc + pattern@[i]) % 12,
{
    let mut out = [0u8; 7];
    for idx in 0..7
        invariant
            forall|i: int| 0 <= i < 7 ==> root_pc + #[trigger] pattern@[i] <= 255,
            forall|i: int| 0 <= i < idx ==> #[trigger] out@[i] == (root_pc + pattern@[i]) % 12,
    {
        out[idx] = (root_pc + pattern[idx]) % 12;
    }
    out
}

/// Whether `pc` belongs to the key of `mode` rooted at `root`.
pub open spec fn in_key(root: int, mode: ModeFlavor, pc: int) -> bool {
    exists|i: int| 0 <= i < 7 && (root + flavor_steps(mode)[i]) % 12 == pc
}

/// The total count of histogram entries below `n` whose pitch class is in the key.
pub open spec fn key_matches(h: Seq<usize>, root: int, mode: ModeFlavor, n: int) -> int
    decreases n,
{
    if n <= 0 {
        0
    } else {
        key_matches(h, root, mode, n - 1) + if in_key(root, mode, n - 1) {
            h[n - 1] as int
        } else {
            0
        }
    }
}

/// The total count of histogram entries below `n` whose pitch class is outside the key.
pub open spec fn key_misses(h: Seq<usize>, root: int, mode: ModeFlavor, n: int) -> int
    decreases n,
{
    if n <= 0 {
        0
    } else {
        key_misses(h, root, mode, n - 1) + if in_key(root, mode, n - 1) {
            0
        } else {
            h[n - 1] as int
        }
    }
}

/// The sum of the first `n` histogram entries.
pub open spec fn hsum(h: Seq<usize>, n: int) -> int
    decreases n,
{
    if n <= 0 {
        0
    } else {
        hsum(h, n - 1) + h[n - 1]
    }
}

/// Matches and misses split every histogram total.
pub proof fn lemma_matches_split(h: Seq<usize>, root: int, mode: ModeFlavor, n: int)
    ensures
        key_matches(h, root, mode, n) + key_misses(h, root, mode, n) == hsum(h, n),
        0 <= key_matches(h, root, mode, n) <= hsum(h, n),
    decreases n,
{
    if n > 0 {
        lemma_matches_split(h, root, mode, n - 1);
    }
}

/// A candidate key together with how well it explains a histogram.
#[derive(Clone, Copy, Debug)]
pub struct KeyEstimate {
    pub root_pc: u8,
    pub mode: ModeFlavor,
    pub matches: usize,
    pub total: usize,
    pub enforced: bool,
    pub scale: [u8; 7],
}

/// Whether key `(m1, p1, r1)` explains a histogram better than `(m2, p2, r2)`:
/// more matching notes first, then major over minor, then the lower root.
pub open spec fn better(m1: int, mode1: ModeFlavor, r1: int, m2: int, mode2: ModeFlavor, r2: int) -> bool {
    if m1 == m2 {
        flavor_priority(mode1) > flavor_priority(mode2) || (flavor_priority(mode1)
            == flavor_priority(mode2) && r1 < r2)
    } else {
        m1 > m2
    }
}

impl KeyEstimate {
    /// This estimate is the key `(root, mode)` scored against `h` over `total` notes.
    pub open spec fn scores(self, h: Seq<usize>, root: int, mode: ModeFlavor, total: int, enforced: bool) -> bool {
        &&& self.root_pc == root
        &&& self.mode == mode
        &&& self.matches == key_matches(h, root, mode, 12)
        &&& self.total == total
        &&& self.enforced == enforced
        &&& forall|i: int| 0 <= i < 7 ==> #[trigger] self.scale@[i] == (root + flavor_steps(mode)[i]) % 12
    }

    /// Scores the key rooted at `root_pc` in `mode` against a pitch-class histogram.
    pub fn new(root_pc: u8, mode: ModeFlavor, histogram: &[usize; 12], total: usize, enforced: bool) -> (k: KeyEstimate)
        requires
            root_pc < 12,
            hsum(histogram@, 12) <= usize::MAX,
        ensures
            k.scores(histogram@, root_pc as int, mode, total as int, enforced),
    {
        let pattern = mode.pattern();
        let scale = apply_pattern(root_pc, &pattern);
        let mut matches: usize = 0;
        for pc in 0..12usize
            invariant
                root_pc < 12,
                hsum(histogram@, 12) <= usize::MAX,
                pattern@ == flavor_steps(mode),
                forall|i: int| 0 <= i < 7 ==> #[trigger] scale@[i] == (root_pc + pattern@[i]) % 12,
                matches == key_matches(histogram@, root_pc as int, mode, pc as int),
        {
            proof {
                lemma_matches_split(histogram@, root_pc as int, mode, pc + 1);
                lemma_hsum_mono(histogram@, pc + 1, 12);
            }
            let mut member = false;
            for i in 0..7usize
                invariant
                    pc < 12,
                    forall|j: int| 0 <= j < 7 ==> #[trigger] scale@[j] == (root_pc + pattern@[j]) % 12,
                    member == exists|j: int| 0 <= j < i && scale@[j] == pc,
            {
                if scale[i] == pc as u8 {
                    member = true;
                }
            }
            assert(member == in_key(root_pc as int, mode, pc as int)) by {
                if in_key(root_pc as int, mode, pc as int) {
                    let j = choose|j: int| 0 <= j < 7 && (root_pc + flavor_steps(mode)[j]) % 12 == pc;
                    assert(scale@[j] == pc);
                }
            }
            if member {
                matches = matches + histogram[pc];
            }
        }
        KeyEstimate { root_pc, mode, matches, total, enforced, scale }
    }

    /// Whether this estimate explains the notes better than `other`.
    pub fn is_better_than(&self, other: &KeyEstimate) -> (b: bool)
        ensures
            b == better(
                self.matches as int,
                self.mode,
                self.root_pc as int,
                other.matches as int,
                other.mode,
                other.root_pc as int,
            ),
    {
        if self.matches == other.matches {
            self.mode.priority() > other.mode.priority() || (self.mode.priority()
                == other.mode.priority() && self.root_pc < other.root_pc)
        } else {
            self.matches > other.matches
        }
    }
}

proof fn lemma_hsum_mono(h: Seq<usize>, a: int, b: int)
    requires
        0 <= a <= b,
    ensures
        hsum(h, a) <= hsum(h, b),
    decreases b - a,
{
    if a < b {
        lemma_hsum_mono(h, a, b - 1);
    }
}

proof fn lemma_better_trans(
    m1: int,
    d1: ModeFlavor,
    r1: int,
    m2: int,
    d2: ModeFlavor,
    r2: int,
    m3: int,
    d3: ModeFlavor,
    r3: int,
)
    requires
        better(m1, d1, r1, m2, d2, r2) || (m1 == m2 && d1 == d2 && r1 == r2),
        better(m2, d2, r2, m3, d3, r3) || (m2 == m3 && d2 == d3 && r2 == r3),
    ensures
        better(m1, d1, r1, m3, d3, r3) || (m1 == m3 && d1 == d3 && r1 == r3),
{
}

/// Why a key hint could not be read.
#[derive(Debug)]
pub enum KeyHintError {
    /// The hint is empty or whitespace.
    Empty,
    /// The first letter is not a note name A–G (the trimmed hint is kept).
    UnknownTonic(String),
}

/// The pitch class named by a lower-case note letter.
pub open spec fn tonic_of(c: char) -> Option<int> {
    if c == 'c' {
        Some(0)
    } else if c == 'd' {
        Some(2)
    } else if c == 'e' {
        Some(4)
    } else if c == 'f' {
        Some(5)
    } else if c == 'g' {
        Some(7)
    } else if c == 'a' {
        Some(9)
    } else if c == 'b' {
        Some(11)
    } else {
        None
    }
}

/// Characters skipped between the tonic and the mode word.
pub open spec fn is_sep(c: char) -> bool {
    c == '-' || c == '_' || c == ' '
}

/// The number of leading separator characters.
pub open spec fn lead_seps(s: Seq<char>) -> nat
    decreases s.len(),
{
    if s.len() > 0 && is_sep(s[0]) {
        1 + lead_seps(s.drop_first())
    } else {
        0
    }
}

/// A key hint whose accidental is the multi-byte `♯` or `♭`; reading it slices a
/// string inside a character.
pub open spec fn key_hint_splits_char(input: Seq<char>) -> bool {
    let t = trim(input);
    let l = lower_seq(t);
    t.len() >= 2 && tonic_of(l[0]) is Some && (l[1] == '♯' || l[1] == '♭')
}

/// Tells whether a key hint's accidental is the multi-byte `♯` or `♭` right after the
/// tonic (see `key_hint_splits_char`), so that a caller can test it before reading the hint.
pub fn hint_splits_char(input: &str) -> (b: bool)
    ensures
        b == key_hint_splits_char(input@),
{
    let raw = chars_of(input);
    let t = trim_chars(&raw);
    if t.len() < 2 {
        return false;
    }
    let l = lower_chars(&t);
    tonic_exec(l[0]).is_some() && (l[1] == '♯' || l[1] == '♭')
}

/// Reads a key hint such as `Cmaj`, `F#`, `Bb minor` or `Am`: the tonic's pitch
/// class and whether the key is minor. `None` when the hint is empty or does not
/// start with a note name.
pub open spec fn key_hint_spec(input: Seq<char>) -> Option<(int, ModeFlavor)> {
    let t = trim(input);
    if t.len() == 0 {
        None
    } else {
        let l = lower_seq(t);
        match tonic_of(l[0]) {
            None => None,
            Some(base) => {
                let rem0 = l.drop_first();
                let sharp = rem0.len() > 0 && (rem0[0] == '#' || rem0[0] == '♯');
                let flat = !sharp && rem0.len() > 0 && (rem0[0] == 'b' || rem0[0] == '♭');
                let root = if sharp {
                    (base + 1) % 12
                } else if flat {
                    (base + 11) % 12
                } else {
                    base
                };
                let rem1 = if sharp || flat {
                    rem0.drop_first()
                } else {
                    rem0
                };
                let rem = trim(rem1.skip(lead_seps(rem1) as int));
                let minor = (starts_with(rem, "m"@) && !starts_with(rem, "maj"@)) || contains_seq(
                    rem,
                    "min"@,
                ) || contains_seq(rem, "aeol"@) || (rem.len() == 0 && t.last() == 'm');
                Some((root, if minor { ModeFlavor::Minor } else { ModeFlavor::Major }))
            },
        }
    }
}

fn tonic_exec(c: char) -> (r: Option<u8>)
    ensures
        match r {
            Some(pc) => tonic_of(c) == Some(pc as int),
            None => tonic_of(c) is None,
        },
{
    match c {
        'c' => Some(0),
        'd' => Some(2),
        'e' => Some(4),
        'f' => Some(5),
        'g' => Some(7),
        'a' => Some(9),
        'b' => Some(11),
        _ => None,
    }
}

fn skip_seps(v: &Vec<char>) -> (r: Vec<char>)
    ensures
        r@ == v@.skip(lead_seps(v@) as int),
{
    let mut i: usize = 0;
    assert(v@.skip(0) =~= v@);
    while i < v.len() && (v[i] == '-' || v[i] == '_' || v[i] == ' ')
        invariant
            i <= v.len(),
            lead_seps(v@) == i + lead_seps(v@.skip(i as int)),
        decreases v.len() - i,
    {
        assert(v@.skip(i as int).drop_first() =~= v@.skip(i + 1));
        i += 1;
    }
    assert(v@.skip(0) =~= v@);
    crate::chars::slice_chars(v, i, v.len())
}

/// Reads a key hint such as `Cmaj`, `F#`, `Bb minor` or `Am`.
pub fn parse_key_hint(input: &str) -> (r: Result<(u8, ModeFlavor), KeyHintError>)
    requires
        !key_hint_splits_char(input@),
    ensures
        match r {
            Ok((pc, mode)) => key_hint_spec(input@) == Some((pc as int, mode)),
            Err(KeyHintError::Empty) => trim(input@).len() == 0,
            Err(KeyHintError::UnknownTonic(t)) => {
                &&& trim(input@).len() > 0
                &&& key_hint_spec(input@) is None
                &&& t@ == trim(input@)
            },
        },
{
    let raw = chars_of(input);
    let t = trim_chars(&raw);
    if t.len() == 0 {
        return Err(KeyHintError::Empty);
    }
    let l = lower_chars(&t);
    let base = match tonic_exec(l[0]) {
        Some(pc) => pc,
        None => {
            return Err(KeyHintError::UnknownTonic(string_of(&t)));
        },
    };
    let rem0 = crate::chars::slice_chars(&l, 1, l.len());
    assert(rem0@ =~= l@.drop_first());
    let mut root = base;
    let mut rem1 = rem0;
    let sharp = rem1.len() > 0 && (rem1[0] == '#' || rem1[0] == '♯');
    let flat = !sharp && rem1.len() > 0 && (rem1[0] == 'b' || rem1[0] == '♭');
    if sharp {
        root = (root + 1) % 12;
    } else if flat {
        root = (root + 11) % 12;
    }
    if sharp || flat {
        let n = rem1.len();
        let dropped = crate::chars::slice_chars(&rem1, 1, n);
        assert(dropped@ =~= rem1@.drop_first());
        rem1 = dropped;
    }
    let stripped = skip_seps(&rem1);
    let rem = trim_chars(&stripped);
    let minor = (chars_start_with(&rem, "m") && !chars_start_with(&rem, "maj")) || chars_contain(
        &rem,
        "min",
    ) || chars_contain(&rem, "aeol") || (rem.len() == 0 && t[t.len() - 1] == 'm');
    let mode = if minor {
        ModeFlavor::Minor
    } else {
        ModeFlavor::Major
    };
    Ok((root, mode))
}

/// Why a key could not be inferred.
#[derive(Debug)]
pub enum InferKeyError {
    /// The key hint could not be read.
    Hint(KeyHintError),
}

/// The key inferred from a histogram: the hinted key when a hint is given, otherwise
/// the best of the 24 major and minor keys.
pub open spec fn is_inferred_key(k: KeyEstimate, h: Seq<usize>, total: int, hint: Option<Seq<char>>) -> bool {
    match hint {
        Some(s) => key_hint_spec(s) matches Some((root, mode)) && k.scores(h, root, mode, total, true),
        None => {
            &&& k.root_pc < 12
            &&& k.scores(h, k.root_pc as int, k.mode, total, false)
            &&& forall|r: int, m: ModeFlavor|
                0 <= r < 12 ==> !#[trigger] better(
                    key_matches(h, r, m, 12),
                    m,
                    r,
                    k.matches as int,
                    k.mode,
                    k.root_pc as int,
                )
        },
    }
}

/// Estimates the key of a pitch-class histogram over `total` notes.
pub fn infer_key(histogram: &[usize; 12], total: usize, key_hint: Option<&str>) -> (r: Result<KeyEstimate, KeyHintError>)
    requires
        hsum(histogram@, 12) <= usize::MAX,
        key_hint matches Some(s) ==> !key_hint_splits_char(s@),
    ensures
        match r {
            Ok(k) => is_inferred_key(
                k,
                histogram@,
                total as int,
                match key_hint {
                    Some(s) => Some(s@),
                    None => None,
                },
            ),
            Err(e) => key_hint matches Some(s) && key_hint_spec(s@) is None,
        },
{
    if let Some(hint) = key_hint {
        let (root_pc, mode) = match parse_key_hint(hint) {
            Ok(p) => p,
            Err(e) => {
                return Err(e);
            },
        };
        proof {
            assert(root_pc < 12) by {
                let t = trim(hint@);
                let l = lower_seq(t);
            }
        }
        return Ok(KeyEstimate::new(root_pc, mode, histogram, total, true));
    }
    let mut best = KeyEstimate::new(0, ModeFlavor::Major, histogram, total, false);
    for root in 0..12u8
        invariant
            hsum(histogram@, 12) <= usize::MAX,
            best.root_pc < 12,
            best.scores(histogram@, best.root_pc as int, best.mode, total as int, false),
            forall|r: int, m: ModeFlavor|
                0 <= r < root ==> !#[trigger] better(
                    key_matches(histogram@, r, m, 12),
                    m,
                    r,
                    best.matches as int,
                    best.mode,
                    best.root_pc as int,
                ),
    {
        let ghost b0 = best;
        let major = KeyEstimate::new(root, ModeFlavor::Major, histogram, total, false);
        if major.is_better_than(&best) {
            best = major;
        }
        let ghost b1 = best;
        let minor = KeyEstimate::new(root, ModeFlavor::Minor, histogram, total, false);
        if minor.is_better_than(&best) {
            best = minor;
        }
        assert forall|r: int, m: ModeFlavor|
            0 <= r <= root implies !#[trigger] better(
                key_matches(histogram@, r, m, 12),
                m,
                r,
                best.matches as int,
                best.mode,
                best.root_pc as int,
            ) by {
            let km = key_matches(histogram@, r, m, 12);
            if r < root {
                assert(!better(km, m, r, b0.matches as int, b0.mode, b0.root_pc as int));
                if better(km, m, r, best.matches as int, best.mode, best.root_pc as int) {
                    lemma_better_trans(km, m, r, best.matches as int, best.mode, best.root_pc as int,
                        b1.matches as int, b1.mode, b1.root_pc as int);
                    lemma_better_trans(km, m, r, b1.matches as int, b1.mode, b1.root_pc as int,
                        b0.matches as int, b0.mode, b0.root_pc as int);
                }
            } else {
                match m {
                    ModeFlavor::Major => {
                        if better(km, m, r, best.matches as int, best.mode, best.root_pc as int) {
                            lemma_better_trans(km, m, r, best.matches as int, best.mode, best.root_pc as int,
                                b1.matches as int, b1.mode, b1.root_pc as int);
                        }
                    },
                    ModeFlavor::Minor => {},
                }
            }
        }
    }
    Ok(best)
}

} // verus!
