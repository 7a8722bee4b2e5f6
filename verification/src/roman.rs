//! Roman-numeral progressions: normalisation, harmonic function and cadences.

use vstd::prelude::*;
use crate::chars::{
    ascii_upper, char_upper, chars_eq, is_ascii_alpha, is_ascii_digit,
};
use crate::text::{chars_of, string_of};

verus! {

/// Accidentals and quality marks that carry no degree information.
pub open spec fn is_roman_mark(c: char) -> bool {
    c == '#' || c == '♯' || c == 'b' || c == '♭' || c == '+' || c == '°' || c == 'ø'
}

/// The upper-cased letters of `s` up to its first `/`, without marks and digits.
pub open spec fn roman_letters(s: Seq<char>) -> Seq<char>
    decreases s.len(),
{
    if s.len() == 0 {
        Seq::empty()
    } else {
        let c = s[0];
        let rest = roman_letters(s.drop_first());
        if is_roman_mark(c) {
            rest
        } else if c == '/' {
            Seq::empty()
        } else if is_ascii_digit(c) {
            rest
        } else if is_ascii_alpha(c) {
            seq![ascii_upper(c)] + rest
        } else {
            rest
        }
    }
}

/// The normalised form of a Roman-numeral token; `UNK` when no letter remains.
pub open spec fn norm_roman(s: Seq<char>) -> Seq<char> {
    let r = roman_letters(s);
    if r.len() == 0 {
        "UNK"@
    } else {
        r
    }
}

/// Normalises a chord token: drops accidentals, quality marks, digits and
/// anything after a slash, and upper-cases the remaining letters.
pub fn normalize_roman(token: &str) -> (r: String)
    ensures
        r@ == norm_roman(token@),
{
    let v = chars_of(token);
    let out = roman_letters_exec(&v);
    if out.len() == 0 {
        String::from_str("UNK")
    } else {
        string_of(&out)
    }
}

fn roman_letters_exec(v: &Vec<char>) -> (out: Vec<char>)
    ensures
        out@ == roman_letters(v@),
{
    let mut out: Vec<char> = Vec::new();
    let mut i: usize = 0;
    assert(v@.skip(0) =~= v@);
    assert(out@ + roman_letters(v@) =~= roman_letters(v@));
    while i < v.len()
        invariant
            i <= v.len(),
            out@ + roman_letters(v@.skip(i as int)) == roman_letters(v@),
        decreases v.len() - i,
    {
        let c = v[i];
        let ghost rest = v@.skip(i as int);
        assert(rest[0] == c);
        assert(rest.drop_first() =~= v@.skip(i + 1));
        if c == '#' || c == '♯' || c == 'b' || c == '♭' || c == '+' || c == '°' || c == 'ø' {
        } else if c == '/' {
            assert(v@.skip(v.len() as int) =~= Seq::<char>::empty());
            assert(out@ + roman_letters(v@.skip(v.len() as int)) =~= out@);
            assert(out@ =~= out@ + roman_letters(rest));
            return out;
        } else if '0' <= c && c <= '9' {
        } else if ('a' <= c && c <= 'z') || ('A' <= c && c <= 'Z') {
            let ghost before = out@;
            out.push(char_upper(c));
            assert(out@ + roman_letters(v@.skip(i + 1)) =~= before + roman_letters(rest));
        }
        i += 1;
    }
    assert(v@.skip(v.len() as int) =~= Seq::<char>::empty());
    assert(out@ + roman_letters(v@.skip(v.len() as int)) =~= out@);
    out
}

/// The harmonic function of a chord.
#[derive(Clone, Copy, Debug, PartialEq, Eq, Structural)]
pub enum FunctionRole {
    Tonic,
    Predominant,
    Dominant,
    Other,
}

/// The function of a normalised numeral: I, III, VI tonic; II, IV predominant; V, VII dominant.
pub open spec fn role_of_norm(n: Seq<char>) -> FunctionRole {
    if n == "I"@ || n == "III"@ || n == "VI"@ {
        FunctionRole::Tonic
    } else if n == "II"@ || n == "IV"@ {
        FunctionRole::Predominant
    } else if n == "V"@ || n == "VII"@ {
        FunctionRole::Dominant
    } else {
        FunctionRole::Other
    }
}

/// The function of a chord token.
pub open spec fn role_of(token: Seq<char>) -> FunctionRole {
    role_of_norm(norm_roman(token))
}

fn role_of_normalized(n: &Vec<char>) -> (r: FunctionRole)
    ensures
        r == role_of_norm(n@),
{
    if chars_eq(n, "I") || chars_eq(n, "III") || chars_eq(n, "VI") {
        FunctionRole::Tonic
    } else if chars_eq(n, "II") || chars_eq(n, "IV") {
        FunctionRole::Predominant
    } else if chars_eq(n, "V") || chars_eq(n, "VII") {
        FunctionRole::Dominant
    } else {
        FunctionRole::Other
    }
}

/// The harmonic function of a chord token.
pub fn classify_function(token: &str) -> (r: FunctionRole)
    ensures
        r == role_of(token@),
{
    let n = normalize_roman(token);
    let v = chars_of(n.as_str());
    role_of_normalized(&v)
}

/// Whether a normalised token is one of the seven diatonic numerals.
pub open spec fn valid_roman(n: Seq<char>) -> bool {
    n == "I"@ || n == "II"@ || n == "III"@ || n == "IV"@ || n == "V"@ || n == "VI"@ || n
        == "VII"@
}

/// Whether a normalised token is one of I..VII.
pub fn is_valid_roman(token: &str) -> (b: bool)
    ensures
        b == valid_roman(token@),
{
    let v = chars_of(token);
    chars_eq(&v, "I") || chars_eq(&v, "II") || chars_eq(&v, "III") || chars_eq(&v, "IV")
        || chars_eq(&v, "V") || chars_eq(&v, "VI") || chars_eq(&v, "VII")
}

/// How many chords of each harmonic function a progression holds.
#[derive(Clone, Copy, Debug, PartialEq, Eq, Structural)]
pub struct FunctionCounts {
    pub tonic: usize,
    pub predominant: usize,
    pub dominant: usize,
    pub other: usize,
}

/// The number of tokens of `s` with function `role`.
pub open spec fn count_role(s: Seq<Seq<char>>, role: FunctionRole) -> nat
    decreases s.len(),
{
    if s.len() == 0 {
        0
    } else {
        count_role(s.drop_last(), role) + if role_of(s.last()) == role {
            1nat
        } else {
            0nat
        }
    }
}

/// The views of a list of strings.
pub open spec fn views(v: Seq<String>) -> Seq<Seq<char>> {
    v.map_values(|s: String| s@)
}

impl FunctionCounts {
    /// The counts of each function in `s`.
    pub open spec fn of(s: Seq<Seq<char>>) -> FunctionCounts {
        FunctionCounts {
            tonic: count_role(s, FunctionRole::Tonic) as usize,
            predominant: count_role(s, FunctionRole::Predominant) as usize,
            dominant: count_role(s, FunctionRole::Dominant) as usize,
            other: count_role(s, FunctionRole::Other) as usize,
        }
    }
}

proof fn lemma_count_role_bound(s: Seq<Seq<char>>, role: FunctionRole)
    ensures
        count_role(s, role) <= s.len(),
    decreases s.len(),
{
    if s.len() > 0 {
        lemma_count_role_bound(s.drop_last(), role);
    }
}

/// Counts the chords of each harmonic function.
pub fn classify_functions(tokens: &Vec<String>) -> (c: FunctionCounts)
    ensures
        c == FunctionCounts::of(views(tokens@)),
{
    let mut c = FunctionCounts { tonic: 0, predominant: 0, dominant: 0, other: 0 };
    for i in 0..tokens.len()
        invariant
            c.tonic == count_role(views(tokens@.take(i as int)), FunctionRole::Tonic),
            c.predominant == count_role(views(tokens@.take(i as int)), FunctionRole::Predominant),
            c.dominant == count_role(views(tokens@.take(i as int)), FunctionRole::Dominant),
            c.other == count_role(views(tokens@.take(i as int)), FunctionRole::Other),
    {
        let ghost prev = views(tokens@.take(i as int));
        let ghost next = views(tokens@.take(i + 1));
        assert(next.drop_last() =~= prev);
        assert(next.last() == tokens@[i as int]@);
        proof {
            lemma_count_role_bound(prev, FunctionRole::Tonic);
            lemma_count_role_bound(prev, FunctionRole::Predominant);
            lemma_count_role_bound(prev, FunctionRole::Dominant);
            lemma_count_role_bound(prev, FunctionRole::Other);
        }
        match classify_function(tokens[i].as_str()) {
            FunctionRole::Tonic => c.tonic = c.tonic + 1,
            FunctionRole::Predominant => c.predominant = c.predominant + 1,
            FunctionRole::Dominant => c.dominant = c.dominant + 1,
            FunctionRole::Other => c.other = c.other + 1,
        }
    }
    assert(tokens@.take(tokens.len() as int) =~= tokens@);
    c
}

/// A recognised cadence at the end of a progression.
pub struct CadenceSummary {
    pub pattern: String,
    pub description: String,
    /// Confidence, in percent.
    pub confidence_pct: u8,
}

impl CadenceSummary {
    /// The pattern, description and confidence of this summary.
    pub open spec fn model(&self) -> (Seq<char>, Seq<char>, nat) {
        (self.pattern@, self.description@, self.confidence_pct as nat)
    }
}

/// The cadence that ends a progression, as (pattern, description, confidence %).
/// V–I is authentic, IV–I plagal, V–VI deceptive; the II–V–I test comes after V–I
/// and so never fires.
pub open spec fn cadence_of(s: Seq<Seq<char>>) -> Option<(Seq<char>, Seq<char>, nat)> {
    if s.len() < 2 {
        None
    } else {
        let last = norm_roman(s[s.len() - 1]);
        let prev = norm_roman(s[s.len() - 2]);
        if prev == "V"@ && last == "I"@ {
            Some(("V–I"@, "Authentic cadence"@, 92))
        } else if prev == "IV"@ && last == "I"@ {
            Some(("IV–I"@, "Plagal cadence"@, 80))
        } else if prev == "V"@ && last == "VI"@ {
            Some(("V–VI"@, "Deceptive cadence"@, 75))
        } else if s.len() >= 3 && norm_roman(s[s.len() - 3]) == "II"@ && prev == "V"@ && last
            == "I"@ {
            Some(("II–V–I"@, "Extended authentic cadence"@, 95))
        } else {
            None
        }
    }
}

pub(crate) fn normalized_chars(token: &String) -> (v: Vec<char>)
    ensures
        v@ == norm_roman(token@),
{
    let n = normalize_roman(token.as_str());
    chars_of(n.as_str())
}

fn cadence(pattern: &str, description: &str, pct: u8) -> (c: CadenceSummary)
    ensures
        c.model() == (pattern@, description@, pct as nat),
{
    CadenceSummary {
        pattern: String::from_str(pattern),
        description: String::from_str(description),
        confidence_pct: pct,
    }
}

/// Recognises an authentic, plagal or deceptive cadence at the end of a progression.
pub fn detect_cadence(tokens: &Vec<String>) -> (r: Option<CadenceSummary>)
    ensures
        match r {
            Some(c) => cadence_of(views(tokens@)) == Some(c.model()),
            None => cadence_of(views(tokens@)) is None,
        },
{
    let ghost s = views(tokens@);
    let n = tokens.len();
    if n < 2 {
        return None;
    }
    let last = normalized_chars(&tokens[n - 1]);
    let prev = normalized_chars(&tokens[n - 2]);
    assert(s[n - 1] == tokens@[n - 1]@);
    assert(s[n - 2] == tokens@[n - 2]@);
    if chars_eq(&prev, "V") && chars_eq(&last, "I") {
        return Some(cadence("V–I", "Authentic cadence", 92));
    }
    if chars_eq(&prev, "IV") && chars_eq(&last, "I") {
        return Some(cadence("IV–I", "Plagal cadence", 80));
    }
    if chars_eq(&prev, "V") && chars_eq(&last, "VI") {
        return Some(cadence("V–VI", "Deceptive cadence", 75));
    }
    if n >= 3 {
        let third = normalized_chars(&tokens[n - 3]);
        assert(s[n - 3] == tokens@[n - 3]@);
        if chars_eq(&third, "II") && chars_eq(&prev, "V") && chars_eq(&last, "I") {
            return Some(cadence("II–V–I", "Extended authentic cadence", 95));
        }
    }
    None
}

/// The seven diatonic numerals.
pub open spec fn romans() -> Seq<Seq<char>> {
    seq!["I"@, "II"@, "III"@, "IV"@, "V"@, "VI"@, "VII"@]
}

fn roman_at(k: usize) -> (r: &'static str)
    requires
        k < 7,
    ensures
        r@ == romans()[k as int],
{
    match k {
        0 => "I",
        1 => "II",
        2 => "III",
        3 => "IV",
        4 => "V",
        5 => "VI",
        _ => "VII",
    }
}

/// The upper-case numeral of a zero-based scale degree, wrapping every seven degrees.
pub fn roman_numeral(degree: usize) -> (r: String)
    ensures
        r@ == romans()[(degree % 7) as int],
{
    String::from_str(roman_at(degree % 7))
}

/// The numeral of a zero-based degree, as a static string.
pub fn roman_for_degree(degree_idx: usize) -> (r: &'static str)
    ensures
        r@ == romans()[(degree_idx % 7) as int],
{
    roman_at(degree_idx % 7)
}

/// Names of the seven scale degrees.
pub open spec fn degree_labels() -> Seq<Seq<char>> {
    seq![
        "tonic"@,
        "supertonic"@,
        "mediant"@,
        "subdominant"@,
        "dominant"@,
        "submediant"@,
        "leading tone"@,
    ]
}

/// The name of a zero-based scale degree, wrapping every seven degrees.
pub fn diatonic_degree_label(degree_idx: usize) -> (r: &'static str)
    ensures
        r@ == degree_labels()[(degree_idx % 7) as int],
{
    match degree_idx % 7 {
        0 => "tonic",
        1 => "supertonic",
        2 => "mediant",
        3 => "subdominant",
        4 => "dominant",
        5 => "submediant",
        _ => "leading tone",
    }
}

/// The word used for a harmonic function in explanations.
pub open spec fn role_word(role: FunctionRole) -> Seq<char> {
    match role {
        FunctionRole::Tonic => "tonic"@,
        FunctionRole::Predominant => "predominant"@,
        FunctionRole::Dominant => "dominant"@,
        FunctionRole::Other => "color"@,
    }
}

/// The word used for a harmonic function in explanations.
pub fn describe_function_role(role: FunctionRole) -> (r: &'static str)
    ensures
        r@ == role_word(role),
{
    match role {
        FunctionRole::Tonic => "tonic",
        FunctionRole::Predominant => "predominant",
        FunctionRole::Dominant => "dominant",
        FunctionRole::Other => "color",
    }
}

proof fn lemma_letters_of_upper(s: Seq<char>)
    requires
        forall|i: int| 0 <= i < s.len() ==> 'A' <= #[trigger] s[i] <= 'Z',
    ensures
        roman_letters(s) == s,
    decreases s.len(),
{
    if s.len() > 0 {
        assert forall|i: int| 0 <= i < s.drop_first().len() implies 'A' <= #[trigger] s.drop_first()[i]
            <= 'Z' by {
            assert(s.drop_first()[i] == s[i + 1]);
        }
        lemma_letters_of_upper(s.drop_first());
        assert(seq![s[0]] + s.drop_first() =~= s);
    }
}

proof fn lemma_letters_upper(s: Seq<char>)
    ensures
        forall|i: int| 0 <= i < roman_letters(s).len() ==> 'A' <= #[trigger] roman_letters(s)[i]
            <= 'Z',
    decreases s.len(),
{
    if s.len() > 0 {
        lemma_letters_upper(s.drop_first());
        let c = s[0];
        let rest = roman_letters(s.drop_first());
        if !is_roman_mark(c) && c != '/' && !is_ascii_digit(c) && is_ascii_alpha(c) {
            let r = seq![ascii_upper(c)] + rest;
            assert forall|i: int| 0 <= i < r.len() implies 'A' <= #[trigger] r[i] <= 'Z' by {
                if i > 0 {
                    assert(r[i] == rest[i - 1]);
                }
            }
        }
    }
}

/// Normalising a normalised token changes nothing.
pub proof fn lemma_normalize_roman_idempotent(s: Seq<char>)
    ensures
        norm_roman(norm_roman(s)) == norm_roman(s),
{
    let r = roman_letters(s);
    if r.len() == 0 {
        reveal_strlit("UNK");
        let u = "UNK"@;
        lemma_letters_of_upper(u);
    } else {
        lemma_letters_upper(s);
        lemma_letters_of_upper(r);
    }
}

/// A chord's function follows its normalised numeral: I, III and VI are tonic; II and IV
/// predominant; V and VII dominant; so no diatonic numeral is left without a function.
pub proof fn lemma_function_roles(token: Seq<char>)
    ensures
        ({
            let n = norm_roman(token);
            &&& (n == "I"@ || n == "III"@ || n == "VI"@) ==> role_of(token) == FunctionRole::Tonic
            &&& (n == "II"@ || n == "IV"@) ==> role_of(token) == FunctionRole::Predominant
            &&& (n == "V"@ || n == "VII"@) ==> role_of(token) == FunctionRole::Dominant
            &&& valid_roman(n) ==> role_of(token) != FunctionRole::Other
        }),
{
    reveal_strlit("I");
    reveal_strlit("II");
    reveal_strlit("III");
    reveal_strlit("IV");
    reveal_strlit("V");
    reveal_strlit("VI");
    reveal_strlit("VII");
    assert("I"@ =~= seq!['I']);
    assert("II"@ =~= seq!['I', 'I']);
    assert("III"@ =~= seq!['I', 'I', 'I']);
    assert("IV"@ =~= seq!['I', 'V']);
    assert("V"@ =~= seq!['V']);
    assert("VI"@ =~= seq!['V', 'I']);
    assert("VII"@ =~= seq!['V', 'I', 'I']);
    let n = norm_roman(token);
    if n == "II"@ {
        assert(n.len() == 2 && n[0] == 'I');
        assert(n != "I"@);
        assert(n != "III"@);
        assert(n != "VI"@);
    }
    if n == "IV"@ {
        assert(n.len() == 2 && n[0] == 'I');
        assert(n != "VI"@);
    }
    if n == "V"@ {
        assert(n.len() == 1 && n[0] == 'V');
        assert(n != "I"@);
    }
    if n == "VII"@ {
        assert(n.len() == 3 && n[0] == 'V');
        assert(n != "III"@);
    }
}

/// How many tokens of `s` normalise to one of `names`.
pub open spec fn count_numerals(s: Seq<Seq<char>>, names: Set<Seq<char>>) -> nat
    decreases s.len(),
{
    if s.len() == 0 {
        0
    } else {
        count_numerals(s.drop_last(), names) + if names.contains(norm_roman(s.last())) {
            1nat
        } else {
            0nat
        }
    }
}

/// The function counts of a progression: the tonic count is the number of chords whose
/// numeral is I, III or VI, the predominant count those on II or IV, the dominant count
/// those on V or VII, and the four counts add up to the number of chords.
pub proof fn lemma_function_counts(s: Seq<Seq<char>>)
    ensures
        count_role(s, FunctionRole::Tonic) == count_numerals(s, set!["I"@, "III"@, "VI"@]),
        count_role(s, FunctionRole::Predominant) == count_numerals(s, set!["II"@, "IV"@]),
        count_role(s, FunctionRole::Dominant) == count_numerals(s, set!["V"@, "VII"@]),
        count_role(s, FunctionRole::Tonic) + count_role(s, FunctionRole::Predominant) + count_role(s, FunctionRole::Dominant)
            + count_role(s, FunctionRole::Other) == s.len(),
    decreases s.len(),
{
    if s.len() > 0 {
        lemma_function_counts(s.drop_last());
        lemma_function_roles(s.last());
        let n = norm_roman(s.last());
        assert(set!["I"@, "III"@, "VI"@].contains(n) <==> (n == "I"@ || n == "III"@ || n == "VI"@));
        assert(set!["II"@, "IV"@].contains(n) <==> (n == "II"@ || n == "IV"@));
        assert(set!["V"@, "VII"@].contains(n) <==> (n == "V"@ || n == "VII"@));
    }
}

} // verus!
