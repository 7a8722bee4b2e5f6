//! Scale kinds, their pitch-class templates and their modal names.

use vstd::prelude::*;

verus! {

/// The scales the toolkit knows by name.
#[derive(Clone, Copy, Debug, PartialEq, Eq, Structural)]
pub enum ScaleKind {
    Ionian,
    Dorian,
    Phrygian,
    Lydian,
    Mixolydian,
    Aeolian,
    Locrian,
    Major,
    Minor,
    NaturalMinor,
    HarmonicMinor,
    MelodicMinor,
}

/// Whether diatonic chords are built as triads or as seventh chords.
#[derive(Clone, Copy, Debug, PartialEq, Eq, Structural)]
pub enum ChordVoicing {
    Triads,
    Sevenths,
}

/// Every scale kind, in declaration order.
pub open spec fn all_kinds() -> Seq<ScaleKind> {
    seq![
        ScaleKind::Ionian,
        ScaleKind::Dorian,
        ScaleKind::Phrygian,
        ScaleKind::Lydian,
        ScaleKind::Mixolydian,
        ScaleKind::Aeolian,
        ScaleKind::Locrian,
        ScaleKind::Major,
        ScaleKind::Minor,
        ScaleKind::NaturalMinor,
        ScaleKind::HarmonicMinor,
        ScaleKind::MelodicMinor,
    ]
}

/// The pitch-class offsets (from the root) of a scale kind.
pub open spec fn kind_pitch_classes(kind: ScaleKind) -> Seq<u8> {
    match kind {
        ScaleKind::Ionian | ScaleKind::Major => seq![0u8, 2, 4, 5, 7, 9, 11],
        ScaleKind::Dorian => seq![0u8, 2, 3, 5, 7, 9, 10],
        ScaleKind::Phrygian => seq![0u8, 1, 3, 5, 7, 8, 10],
        ScaleKind::Lydian => seq![0u8, 2, 4, 6, 7, 9, 11],
        ScaleKind::Mixolydian => seq![0u8, 2, 4, 5, 7, 9, 10],
        ScaleKind::Aeolian | ScaleKind::Minor | ScaleKind::NaturalMinor => seq![
            0u8,
            2,
            3,
            5,
            7,
            8,
            10,
        ],
        ScaleKind::Locrian => seq![0u8, 1, 3, 5, 6, 8, 10],
        ScaleKind::HarmonicMinor => seq![0u8, 2, 3, 5, 7, 8, 11],
        ScaleKind::MelodicMinor => seq![0u8, 2, 3, 5, 7, 9, 11],
    }
}

/// How far a diatonic mode is rotated from Ionian; `None` for the minor-derived scales.
pub open spec fn rotation_offset(kind: ScaleKind) -> Option<nat> {
    match kind {
        ScaleKind::Ionian | ScaleKind::Major => Some(0),
        ScaleKind::Dorian => Some(1),
        ScaleKind::Phrygian => Some(2),
        ScaleKind::Lydian => Some(3),
        ScaleKind::Mixolydian => Some(4),
        ScaleKind::Aeolian | ScaleKind::Minor | ScaleKind::NaturalMinor => Some(5),
        ScaleKind::Locrian => Some(6),
        _ => None,
    }
}

/// Names of the seven diatonic modes, starting at Ionian.
pub open spec fn diatonic_mode_names() -> Seq<Seq<char>> {
    seq![
        "Ionian"@,
        "Dorian"@,
        "Phrygian"@,
        "Lydian"@,
        "Mixolydian"@,
        "Aeolian"@,
        "Locrian"@,
    ]
}

/// Names of the seven modes of harmonic minor.
pub open spec fn harmonic_minor_mode_names() -> Seq<Seq<char>> {
    seq![
        "Harmonic Minor"@,
        "Locrian ♮6"@,
        "Ionian ♯5"@,
        "Dorian ♯4"@,
        "Phrygian Dominant"@,
        "Lydian ♯2"@,
        "Super Locrian"@,
    ]
}

/// Names of the seven modes of melodic minor.
pub open spec fn melodic_minor_mode_names() -> Seq<Seq<char>> {
    seq![
        "Melodic Minor"@,
        "Dorian ♭2"@,
        "Lydian Augmented"@,
        "Lydian Dominant"@,
        "Mixolydian ♭6"@,
        "Locrian ♮2"@,
        "Altered"@,
    ]
}

/// The name of the mode reached by rotating `kind` by `rotation` degrees.
pub open spec fn mode_name(kind: ScaleKind, rotation: nat) -> Option<Seq<char>> {
    match rotation_offset(kind) {
        Some(offset) => Some(diatonic_mode_names()[((rotation + offset) % 7) as int]),
        None => match kind {
            ScaleKind::HarmonicMinor => Some(harmonic_minor_mode_names()[(rotation % 7) as int]),
            ScaleKind::MelodicMinor => Some(melodic_minor_mode_names()[(rotation % 7) as int]),
            _ => None,
        },
    }
}

/// The Debug name of a scale kind.
pub open spec fn kind_name(kind: ScaleKind) -> Seq<char> {
    match kind {
        ScaleKind::Ionian => "Ionian"@,
        ScaleKind::Dorian => "Dorian"@,
        ScaleKind::Phrygian => "Phrygian"@,
        ScaleKind::Lydian => "Lydian"@,
        ScaleKind::Mixolydian => "Mixolydian"@,
        ScaleKind::Aeolian => "Aeolian"@,
        ScaleKind::Locrian => "Locrian"@,
        ScaleKind::Major => "Major"@,
        ScaleKind::Minor => "Minor"@,
        ScaleKind::NaturalMinor => "NaturalMinor"@,
        ScaleKind::HarmonicMinor => "HarmonicMinor"@,
        ScaleKind::MelodicMinor => "MelodicMinor"@,
    }
}

impl ScaleKind {
    /// Every scale kind, in declaration order.
    pub fn all() -> (v: Vec<ScaleKind>)
        ensures
            v@ == all_kinds(),
    {
        let v = vec![
            ScaleKind::Ionian,
            ScaleKind::Dorian,
            ScaleKind::Phrygian,
            ScaleKind::Lydian,
            ScaleKind::Mixolydian,
            ScaleKind::Aeolian,
            ScaleKind::Locrian,
            ScaleKind::Major,
            ScaleKind::Minor,
            ScaleKind::NaturalMinor,
            ScaleKind::HarmonicMinor,
            ScaleKind::MelodicMinor,
        ];
        assert(v@ =~= all_kinds());
        v
    }

    /// The seven pitch-class offsets of this scale, measured from its root.
    pub fn pitch_classes(&self) -> (r: [u8; 7])
        ensures
            r@ == kind_pitch_classes(*self),
    {
        let r: [u8; 7] = match self {
            ScaleKind::Ionian | ScaleKind::Major => [0, 2, 4, 5, 7, 9, 11],
            ScaleKind::Dorian => [0, 2, 3, 5, 7, 9, 10],
            ScaleKind::Phrygian => [0, 1, 3, 5, 7, 8, 10],
            ScaleKind::Lydian => [0, 2, 4, 6, 7, 9, 11],
            ScaleKind::Mixolydian => [0, 2, 4, 5, 7, 9, 10],
            ScaleKind::Aeolian | ScaleKind::Minor | ScaleKind::NaturalMinor => [
                0,
                2,
                3,
                5,
                7,
                8,
                10,
            ],
            ScaleKind::Locrian => [0, 1, 3, 5, 6, 8, 10],
            ScaleKind::HarmonicMinor => [0, 2, 3, 5, 7, 8, 11],
            ScaleKind::MelodicMinor => [0, 2, 3, 5, 7, 9, 11],
        };
        assert(r@ =~= kind_pitch_classes(*self));
        r
    }

    /// How far this diatonic mode sits from Ionian; `None` for harmonic and melodic minor.
    pub fn diatonic_rotation_offset(&self) -> (r: Option<usize>)
        ensures
            match r {
                Some(o) => rotation_offset(*self) == Some(o as nat),
                None => rotation_offset(*self) is None,
            },
    {
        match self {
            ScaleKind::Ionian | ScaleKind::Major => Some(0),
            ScaleKind::Dorian => Some(1),
            ScaleKind::Phrygian => Some(2),
            ScaleKind::Lydian => Some(3),
            ScaleKind::Mixolydian => Some(4),
            ScaleKind::Aeolian | ScaleKind::Minor | ScaleKind::NaturalMinor => Some(5),
            ScaleKind::Locrian => Some(6),
            _ => None,
        }
    }

    /// The name of the mode obtained by rotating this scale by `rotation` degrees.
    pub fn mode_name_for_rotation(&self, rotation: usize) -> (r: Option<&'static str>)
        ensures
            match r {
                Some(name) => mode_name(*self, rotation as nat) == Some(name@),
                None => mode_name(*self, rotation as nat) is None,
            },
    {
        if let Some(offset) = self.diatonic_rotation_offset() {
            let k: usize = (rotation % 7 + offset) % 7;
            assert(k == (rotation + offset) % 7) by (nonlinear_arith)
                requires
                    offset < 7,
                    k == (rotation % 7 + offset) % 7,
            ;
            return Some(diatonic_name(k));
        }
        match self {
            ScaleKind::HarmonicMinor => Some(harmonic_minor_name(rotation % 7)),
            ScaleKind::MelodicMinor => Some(melodic_minor_name(rotation % 7)),
            _ => None,
        }
    }

    /// The Debug name of this scale kind.
    pub fn name(&self) -> (r: &'static str)
        ensures
            r@ == kind_name(*self),
    {
        match self {
            ScaleKind::Ionian => "Ionian",
            ScaleKind::Dorian => "Dorian",
            ScaleKind::Phrygian => "Phrygian",
            ScaleKind::Lydian => "Lydian",
            ScaleKind::Mixolydian => "Mixolydian",
            ScaleKind::Aeolian => "Aeolian",
            ScaleKind::Locrian => "Locrian",
            ScaleKind::Major => "Major",
            ScaleKind::Minor => "Minor",
            ScaleKind::NaturalMinor => "NaturalMinor",
            ScaleKind::HarmonicMinor => "HarmonicMinor",
            ScaleKind::MelodicMinor => "MelodicMinor",
        }
    }
}

fn diatonic_name(k: usize) -> (r: &'static str)
    requires
        k < 7,
    ensures
        r@ == diatonic_mode_names()[k as int],
{
    match k {
        0 => "Ionian",
        1 => "Dorian",
        2 => "Phrygian",
        3 => "Lydian",
        4 => "Mixolydian",
        5 => "Aeolian",
        _ => "Locrian",
    }
}

fn harmonic_minor_name(k: usize) -> (r: &'static str)
    requires
        k < 7,
    ensures
        r@ == harmonic_minor_mode_names()[k as int],
{
    match k {
        0 => "Harmonic Minor",
        1 => "Locrian ♮6",
        2 => "Ionian ♯5",
        3 => "Dorian ♯4",
        4 => "Phrygian Dominant",
        5 => "Lydian ♯2",
        _ => "Super Locrian",
    }
}

fn melodic_minor_name(k: usize) -> (r: &'static str)
    requires
        k < 7,
    ensures
        r@ == melodic_minor_mode_names()[k as int],
{
    match k {
        0 => "Melodic Minor",
        1 => "Dorian ♭2",
        2 => "Lydian Augmented",
        3 => "Lydian Dominant",
        4 => "Mixolydian ♭6",
        5 => "Locrian ♮2",
        _ => "Altered",
    }
}

impl ChordVoicing {
    /// The Debug name of this voicing.
    pub fn name(&self) -> (r: &'static str)
        ensures
            r@ == (match *self {
                ChordVoicing::Triads => "Triads"@,
                ChordVoicing::Sevenths => "Sevenths"@,
            }),
    {
        match self {
            ChordVoicing::Triads => "Triads",
            ChordVoicing::Sevenths => "Sevenths",
        }
    }
}

/// The diatonic mode at position `i` of `diatonic_mode_names` (0 is Ionian).
pub open spec fn diatonic_kind(i: int) -> ScaleKind {
    if i == 0 {
        ScaleKind::Ionian
    } else if i == 1 {
        ScaleKind::Dorian
    } else if i == 2 {
        ScaleKind::Phrygian
    } else if i == 3 {
        ScaleKind::Lydian
    } else if i == 4 {
        ScaleKind::Mixolydian
    } else if i == 5 {
        ScaleKind::Aeolian
    } else {
        ScaleKind::Locrian
    }
}

/// Degree `j` of the seven-note template `p` rotated to start on its degree `r`, measured
/// from the new root.
pub open spec fn rotated_step(p: Seq<u8>, r: int, j: int) -> u8 {
    ((p[(r + j) % 7] + 12 - p[r]) % 12) as u8
}

/// The seven-note template `p` rotated to start on its degree `r`.
pub open spec fn rotated(p: Seq<u8>, r: int) -> Seq<u8> {
    seq![
        rotated_step(p, r, 0),
        rotated_step(p, r, 1),
        rotated_step(p, r, 2),
        rotated_step(p, r, 3),
        rotated_step(p, r, 4),
        rotated_step(p, r, 5),
        rotated_step(p, r, 6),
    ]
}

/// Whether the mode named for rotation `r` of `kind` is `kind` rotated to start on degree `r`.
pub open spec fn rotation_names_mode(kind: ScaleKind, r: int) -> bool {
    match rotation_offset(kind) {
        Some(o) => {
            let m = diatonic_kind((r + o) % 7);
            &&& kind_name(m) == diatonic_mode_names()[(r + o) % 7]
            &&& kind_pitch_classes(m) =~= rotated(kind_pitch_classes(kind), r)
        },
        None => true,
    }
}

/// Every kind names a mode for every rotation, and the names repeat every seven degrees.
/// For a diatonic kind, the mode named for rotation `r` (below seven) is the scale kind of
/// that name, and its template is the kind's own template rotated to start on degree `r`.
pub proof fn lemma_mode_rotation(kind: ScaleKind, r: nat)
    ensures
        mode_name(kind, r) is Some,
        mode_name(kind, r) == mode_name(kind, r % 7),
        r < 7 ==> (rotation_offset(kind) matches Some(o) ==> {
            let m = diatonic_kind(((r + o) % 7) as int);
            &&& mode_name(kind, r) == Some(kind_name(m))
            &&& kind_pitch_classes(m) == rotated(kind_pitch_classes(kind), r as int)
        }),
{
    if r < 7 {
        lemma_rotation_at(kind, r as int);
    }
}

proof fn lemma_rotation_at(kind: ScaleKind, r: int)
    requires
        0 <= r < 7,
    ensures
        rotation_names_mode(kind, r),
{
    match kind {
        ScaleKind::Ionian => lemma_rotation_of_ionian(r),
        ScaleKind::Dorian => lemma_rotation_of_dorian(r),
        ScaleKind::Phrygian => lemma_rotation_of_phrygian(r),
        ScaleKind::Lydian => lemma_rotation_of_lydian(r),
        ScaleKind::Mixolydian => lemma_rotation_of_mixolydian(r),
        ScaleKind::Aeolian => lemma_rotation_of_aeolian(r),
        ScaleKind::Locrian => lemma_rotation_of_locrian(r),
        ScaleKind::Major => lemma_rotation_of_major(r),
        ScaleKind::Minor => lemma_rotation_of_minor(r),
        ScaleKind::NaturalMinor => lemma_rotation_of_natural_minor(r),
        _ => {},
    }
}

#[verifier::spinoff_prover]
proof fn lemma_rotation_of_ionian(r: int)
    requires
        0 <= r < 7,
    ensures
        rotation_names_mode(ScaleKind::Ionian, r),
{
    if r == 0 {
        assert(rotation_names_mode(ScaleKind::Ionian, 0));
    } else if r == 1 {
        assert(rotation_names_mode(ScaleKind::Ionian, 1));
    } else if r == 2 {
        assert(rotation_names_mode(ScaleKind::Ionian, 2));
    } else if r == 3 {
        assert(rotation_names_mode(ScaleKind::Ionian, 3));
    } else if r == 4 {
        assert(rotation_names_mode(ScaleKind::Ionian, 4));
    } else if r == 5 {
        assert(rotation_names_mode(ScaleKind::Ionian, 5));
    } else {
        assert(rotation_names_mode(ScaleKind::Ionian, 6));
    }
}

#[verifier::spinoff_prover]
proof fn lemma_rotation_of_dorian(r: int)
    requires
        0 <= r < 7,
    ensures
        rotation_names_mode(ScaleKind::Dorian, r),
{
    if r == 0 {
        assert(rotation_names_mode(ScaleKind::Dorian, 0));
    } else if r == 1 {
        assert(rotation_names_mode(ScaleKind::Dorian, 1));
    } else if r == 2 {
        assert(rotation_names_mode(ScaleKind::Dorian, 2));
    } else if r == 3 {
        assert(rotation_names_mode(ScaleKind::Dorian, 3));
    } else if r == 4 {
        assert(rotation_names_mode(ScaleKind::Dorian, 4));
    } else if r == 5 {
        assert(rotation_names_mode(ScaleKind::Dorian, 5));
    } else {
        assert(rotation_names_mode(ScaleKind::Dorian, 6));
    }
}

#[verifier::spinoff_prover]
proof fn lemma_rotation_of_phrygian(r: int)
    requires
        0 <= r < 7,
    ensures
        rotation_names_mode(ScaleKind::Phrygian, r),
{
    if r == 0 {
        assert(rotation_names_mode(ScaleKind::Phrygian, 0));
    } else if r == 1 {
        assert(rotation_names_mode(ScaleKind::Phrygian, 1));
    } else if r == 2 {
        assert(rotation_names_mode(ScaleKind::Phrygian, 2));
    } else if r == 3 {
        assert(rotation_names_mode(ScaleKind::Phrygian, 3));
    } else if r == 4 {
        assert(rotation_names_mode(ScaleKind::Phrygian, 4));
    } else if r == 5 {
        assert(rotation_names_mode(ScaleKind::Phrygian, 5));
    } else {
        assert(rotation_names_mode(ScaleKind::Phrygian, 6));
    }
}

#[verifier::spinoff_prover]
proof fn lemma_rotation_of_lydian(r: int)
    requires
        0 <= r < 7,
    ensures
        rotation_names_mode(ScaleKind::Lydian, r),
{
    if r == 0 {
        assert(rotation_names_mode(ScaleKind::Lydian, 0));
    } else if r == 1 {
        assert(rotation_names_mode(ScaleKind::Lydian, 1));
    } else if r == 2 {
        assert(rotation_names_mode(ScaleKind::Lydian, 2));
    } else if r == 3 {
        assert(rotation_names_mode(ScaleKind::Lydian, 3));
    } else if r == 4 {
        assert(rotation_names_mode(ScaleKind::Lydian, 4));
    } else if r == 5 {
        assert(rotation_names_mode(ScaleKind::Lydian, 5));
    } else {
        assert(rotation_names_mode(ScaleKind::Lydian, 6));
    }
}

#[verifier::spinoff_prover]
proof fn lemma_rotation_of_mixolydian(r: int)
    requires
        0 <= r < 7,
    ensures
        rotation_names_mode(ScaleKind::Mixolydian, r),
{
    if r == 0 {
        assert(rotation_names_mode(ScaleKind::Mixolydian, 0));
    } else if r == 1 {
        assert(rotation_names_mode(ScaleKind::Mixolydian, 1));
    } else if r == 2 {
        assert(rotation_names_mode(ScaleKind::Mixolydian, 2));
    } else if r == 3 {
        assert(rotation_names_mode(ScaleKind::Mixolydian, 3));
    } else if r == 4 {
        assert(rotation_names_mode(ScaleKind::Mixolydian, 4));
    } else if r == 5 {
        assert(rotation_names_mode(ScaleKind::Mixolydian, 5));
    } else {
        assert(rotation_names_mode(ScaleKind::Mixolydian, 6));
    }
}

#[verifier::spinoff_prover]
proof fn lemma_rotation_of_aeolian(r: int)
    requires
        0 <= r < 7,
    ensures
        rotation_names_mode(ScaleKind::Aeolian, r),
{
    if r == 0 {
        assert(rotation_names_mode(ScaleKind::Aeolian, 0));
    } else if r == 1 {
        assert(rotation_names_mode(ScaleKind::Aeolian, 1));
    } else if r == 2 {
        assert(rotation_names_mode(ScaleKind::Aeolian, 2));
    } else if r == 3 {
        assert(rotation_names_mode(ScaleKind::Aeolian, 3));
    } else if r == 4 {
        assert(rotation_names_mode(ScaleKind::Aeolian, 4));
    } else if r == 5 {
        assert(rotation_names_mode(ScaleKind::Aeolian, 5));
    } else {
        assert(rotation_names_mode(ScaleKind::Aeolian, 6));
    }
}

#[verifier::spinoff_prover]
proof fn lemma_rotation_of_locrian(r: int)
    requires
        0 <= r < 7,
    ensures
        rotation_names_mode(ScaleKind::Locrian, r),
{
    if r == 0 {
        assert(rotation_names_mode(ScaleKind::Locrian, 0));
    } else if r == 1 {
        assert(rotation_names_mode(ScaleKind::Locrian, 1));
    } else if r == 2 {
        assert(rotation_names_mode(ScaleKind::Locrian, 2));
    } else if r == 3 {
        assert(rotation_names_mode(ScaleKind::Locrian, 3));
    } else if r == 4 {
        assert(rotation_names_mode(ScaleKind::Locrian, 4));
    } else if r == 5 {
        assert(rotation_names_mode(ScaleKind::Locrian, 5));
    } else {
        assert(rotation_names_mode(ScaleKind::Locrian, 6));
    }
}

#[verifier::spinoff_prover]
proof fn lemma_rotation_of_major(r: int)
    requires
        0 <= r < 7,
    ensures
        rotation_names_mode(ScaleKind::Major, r),
{
    if r == 0 {
        assert(rotation_names_mode(ScaleKind::Major, 0));
    } else if r == 1 {
        assert(rotation_names_mode(ScaleKind::Major, 1));
    } else if r == 2 {
        assert(rotation_names_mode(ScaleKind::Major, 2));
    } else if r == 3 {
        assert(rotation_names_mode(ScaleKind::Major, 3));
    } else if r == 4 {
        assert(rotation_names_mode(ScaleKind::Major, 4));
    } else if r == 5 {
        assert(rotation_names_mode(ScaleKind::Major, 5));
    } else {
        assert(rotation_names_mode(ScaleKind::Major, 6));
    }
}

#[verifier::spinoff_prover]
proof fn lemma_rotation_of_minor(r: int)
    requires
        0 <= r < 7,
    ensures
        rotation_names_mode(ScaleKind::Minor, r),
{
    if r == 0 {
        assert(rotation_names_mode(ScaleKind::Minor, 0));
    } else if r == 1 {
        assert(rotation_names_mode(ScaleKind::Minor, 1));
    } else if r == 2 {
        assert(rotation_names_mode(ScaleKind::Minor, 2));
    } else if r == 3 {
        assert(rotation_names_mode(ScaleKind::Minor, 3));
    } else if r == 4 {
        assert(rotation_names_mode(ScaleKind::Minor, 4));
    } else if r == 5 {
        assert(rotation_names_mode(ScaleKind::Minor, 5));
    } else {
        assert(rotation_names_mode(ScaleKind::Minor, 6));
    }
}

#[verifier::spinoff_prover]
proof fn lemma_rotation_of_natural_minor(r: int)
    requires
        0 <= r < 7,
    ensures
        rotation_names_mode(ScaleKind::NaturalMinor, r),
{
    if r == 0 {
        assert(rotation_names_mode(ScaleKind::NaturalMinor, 0));
    } else if r == 1 {
        assert(rotation_names_mode(ScaleKind::NaturalMinor, 1));
    } else if r == 2 {
        assert(rotation_names_mode(ScaleKind::NaturalMinor, 2));
    } else if r == 3 {
        assert(rotation_names_mode(ScaleKind::NaturalMinor, 3));
    } else if r == 4 {
        assert(rotation_names_mode(ScaleKind::NaturalMinor, 4));
    } else if r == 5 {
        assert(rotation_names_mode(ScaleKind::NaturalMinor, 5));
    } else {
        assert(rotation_names_mode(ScaleKind::NaturalMinor, 6));
    }
}

/// The minor-derived templates: harmonic minor is natural minor with its seventh raised a
/// semitone (so it holds the major seventh, 11, and not the minor seventh, 10), melodic
/// minor is harmonic minor with its sixth raised a semitone too, and neither is the
/// template of any diatonic mode.
pub proof fn lemma_minor_templates()
    ensures
        kind_pitch_classes(ScaleKind::HarmonicMinor).len() == 7,
        forall|i: int| 0 <= i < 6 ==> #[trigger] kind_pitch_classes(ScaleKind::HarmonicMinor)[i] == kind_pitch_classes(ScaleKind::Aeolian)[i],
        kind_pitch_classes(ScaleKind::HarmonicMinor)[6] == kind_pitch_classes(ScaleKind::Aeolian)[6] + 1,
        kind_pitch_classes(ScaleKind::HarmonicMinor).contains(11u8),
        !kind_pitch_classes(ScaleKind::HarmonicMinor).contains(10u8),
        kind_pitch_classes(ScaleKind::MelodicMinor).len() == 7,
        forall|i: int| 0 <= i < 7 && i != 5 ==> #[trigger] kind_pitch_classes(ScaleKind::MelodicMinor)[i] == kind_pitch_classes(ScaleKind::HarmonicMinor)[i],
        kind_pitch_classes(ScaleKind::MelodicMinor)[5] == kind_pitch_classes(ScaleKind::HarmonicMinor)[5] + 1,
        forall|d: ScaleKind| #[trigger] rotation_offset(d) is Some ==> kind_pitch_classes(ScaleKind::HarmonicMinor) != kind_pitch_classes(d)
            && kind_pitch_classes(ScaleKind::MelodicMinor) != kind_pitch_classes(d),
{
    let h = kind_pitch_classes(ScaleKind::HarmonicMinor);
    let m = kind_pitch_classes(ScaleKind::MelodicMinor);
    assert(h[6] == 11);
    assert forall|x: int| 0 <= x < 7 implies #[trigger] h[x] != 10u8 by {}
    assert forall|d: ScaleKind| #[trigger] rotation_offset(d) is Some implies h != kind_pitch_classes(d) && m != kind_pitch_classes(d) by {
        let t = kind_pitch_classes(d);
        if h == t {
            assert(h[6] == t[6]);
            assert(h[5] == t[5]);
            assert(h[2] == t[2]);
            assert(h[1] == t[1]);
        }
        if m == t {
            assert(m[6] == t[6]);
            assert(m[5] == t[5]);
            assert(m[2] == t[2]);
        }
    }
}

} // verus!
