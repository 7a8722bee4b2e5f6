//! Explaining a pitch class within a key.

use vstd::prelude::*;
use crate::key::{apply_pattern, flavor_steps, key_hint_spec, key_hint_splits_char, parse_key_hint, KeyHintError, ModeFlavor};
use crate::roman::{classify_function, degree_labels, describe_function_role, diatonic_degree_label, role_of, role_word, roman_for_degree, romans};

verus! {

/// Where a pitch class sits in a key.
pub struct PitchContext {
    pub key: String,
    pub mode: String,
    /// The scale degree, from 1.
    pub degree: usize,
    pub degree_label: String,
    pub function: String,
}

/// The first of the first `n` degrees (from 0) of the key of `mode` on `root` that falls
/// on pitch class `pc`.
pub open spec fn degree_in_key(root: int, mode: ModeFlavor, pc: int, n: int) -> Option<int>
    decreases n,
{
    if n <= 0 {
        None
    } else {
        match degree_in_key(root, mode, pc, n - 1) {
            Some(i) => Some(i),
            None => if (root + flavor_steps(mode)[n - 1]) % 12 == pc {
                Some(n - 1)
            } else {
                None
            },
        }
    }
}

pub open spec fn mode_word(mode: ModeFlavor) -> Seq<char> {
    match mode {
        ModeFlavor::Major => "Major"@,
        ModeFlavor::Minor => "Minor"@,
    }
}

/// The context of pitch class `pc` in the key named by `hint`: the tonic's label, the
/// mode, the degree (from 1), its name and the function of its numeral; `None` when the
/// pitch class is not in the key.
pub open spec fn context_in_key(pc: int, root: int, mode: ModeFlavor, tonic: Seq<char>) -> Option<(Seq<char>, Seq<char>, int, Seq<char>, Seq<char>)> {
    match degree_in_key(root, mode, pc, 7) {
        Some(i) => Some((tonic, mode_word(mode), i + 1, degree_labels()[i], role_word(role_of(romans()[i])))),
        None => None,
    }
}

impl PitchContext {
    pub open spec fn model(&self) -> (Seq<char>, Seq<char>, int, Seq<char>, Seq<char>) {
        (self.key@, self.mode@, self.degree as int, self.degree_label@, self.function@)
    }
}

proof fn lemma_degree_in_key_stays(root: int, mode: ModeFlavor, pc: int, m: int, n: int, i: int)
    requires
        0 <= m <= n,
        degree_in_key(root, mode, pc, m) == Some(i),
    ensures
        degree_in_key(root, mode, pc, n) == Some(i),
    decreases n - m,
{
    if m < n {
        lemma_degree_in_key_stays(root, mode, pc, m, n - 1, i);
    }
}

/// Places a pitch class in the key named by `hint` (such as `Cmaj` or `F#m`);
/// `tonic_labels[pc]` names pitch class `pc`. Fails as the key hint's parse does.
pub fn pitch_context_in_key(pitch_class: u8, hint: &str, tonic_labels: &[String; 12]) -> (r: Result<Option<PitchContext>, KeyHintError>)
    requires
        !key_hint_splits_char(hint@),
    ensures
        match r {
            Ok(c) => key_hint_spec(hint@) matches Some((root, mode)) && match c {
                Some(ctx) => context_in_key(pitch_class as int, root, mode, tonic_labels@[root]@) == Some(ctx.model()),
                None => context_in_key(pitch_class as int, root, mode, tonic_labels@[root]@) is None,
            },
            Err(_) => key_hint_spec(hint@) is None,
        },
{
    let (root_pc, mode) = match parse_key_hint(hint) {
        Ok(k) => k,
        Err(e) => return Err(e),
    };
    let members = apply_pattern(root_pc, &mode.pattern());
    let mut idx: usize = 0;
    while idx < 7 && members[idx] != pitch_class
        invariant
            idx <= 7,
            root_pc < 12,
            forall|i: int| 0 <= i < 7 ==> #[trigger] members@[i] == (root_pc + flavor_steps(mode)[i]) % 12,
            degree_in_key(root_pc as int, mode, pitch_class as int, idx as int) is None,
        decreases 7 - idx,
    {
        idx += 1;
    }
    if idx == 7 {
        return Ok(None);
    }
    assert(degree_in_key(root_pc as int, mode, pitch_class as int, idx + 1) == Some(idx as int));
    proof {
        lemma_degree_in_key_stays(root_pc as int, mode, pitch_class as int, idx + 1, 7, idx as int);
    }
    let degree_label = String::from_str(diatonic_degree_label(idx));
    let function = String::from_str(describe_function_role(classify_function(roman_for_degree(idx))));
    Ok(Some(PitchContext {
        key: tonic_labels[root_pc as usize].clone(),
        mode: String::from_str(mode.name()),
        degree: idx + 1,
        degree_label,
        function,
    }))
}

} // verus!
