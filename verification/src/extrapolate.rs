//! Preparing melodies and progressions for continuation by an n-gram model.

use vstd::prelude::*;
use crate::analysis::{sanitize_progression, sanitized};
use crate::pitch::{normalize_pitch_class, pc_of};
use crate::roman::views;

verus! {

/// Why an input cannot be continued.
#[derive(Clone, Copy, Debug, PartialEq, Eq, Structural)]
pub enum ExtrapolateError {
    /// No notes or chords were given.
    NoInput,
    /// The input is not longer than the model's order.
    TooShort,
}

/// The pitch classes of a melody, each note's class.
pub open spec fn pcs_of(notes: Seq<i32>) -> Seq<u8> {
    notes.map_values(|n: i32| pc_of(n as int) as u8)
}

/// The pitch classes of a melody, and the last `order` of them that a model of that
/// order continues from. Refused without notes or with no more notes than `order`.
pub fn melody_context(notes: &Vec<i32>, order: usize) -> (r: Result<(Vec<u8>, Vec<u8>), ExtrapolateError>)
    ensures
        notes.len() == 0 <==> r == Err::<(Vec<u8>, Vec<u8>), ExtrapolateError>(ExtrapolateError::NoInput),
        (notes.len() > 0 && notes.len() <= order) <==> r == Err::<(Vec<u8>, Vec<u8>), ExtrapolateError>(ExtrapolateError::TooShort),
        r matches Ok((pcs, ctx)) ==> pcs@ == pcs_of(notes@) && ctx@ == pcs_of(notes@).skip(notes.len() - order),
{
    if notes.len() == 0 {
        return Err(ExtrapolateError::NoInput);
    }
    if notes.len() <= order {
        return Err(ExtrapolateError::TooShort);
    }
    let mut pcs: Vec<u8> = Vec::new();
    for i in 0..notes.len()
        invariant
            pcs@ == pcs_of(notes@.take(i as int)),
    {
        pcs.push(normalize_pitch_class(notes[i]));
        assert(pcs_of(notes@.take(i + 1)) =~= pcs_of(notes@.take(i as int)).push(pc_of(notes@[i as int] as int) as u8));
    }
    assert(notes@.take(notes.len() as int) =~= notes@);
    let start = notes.len() - order;
    let mut ctx: Vec<u8> = Vec::new();
    for k in start..notes.len()
        invariant
            start == notes.len() - order,
            pcs@ == pcs_of(notes@),
            ctx@ == pcs@.subrange(start as int, k as int),
    {
        ctx.push(pcs[k]);
        assert(ctx@ =~= pcs@.subrange(start as int, k + 1));
    }
    assert(pcs@.skip(start as int) =~= pcs@.subrange(start as int, notes.len() as int));
    Ok((pcs, ctx))
}

/// The trimmed, non-empty chords of a progression, and the last `order` of them that a
/// model of that order continues from. Refused without chords or with no more chords
/// than `order`.
pub fn chord_context(tokens: &Vec<String>, order: usize) -> (r: Result<(Vec<String>, Vec<String>), ExtrapolateError>)
    ensures
        ({
            let p = sanitized(views(tokens@));
            &&& p.len() == 0 <==> r == Err::<(Vec<String>, Vec<String>), ExtrapolateError>(ExtrapolateError::NoInput)
            &&& (p.len() > 0 && p.len() <= order) <==> r == Err::<(Vec<String>, Vec<String>), ExtrapolateError>(ExtrapolateError::TooShort)
            &&& r matches Ok((prog, ctx)) ==> views(prog@) == p && views(ctx@) == p.skip(p.len() - order)
        }),
{
    let progression = sanitize_progression(tokens);
    if progression.len() == 0 {
        return Err(ExtrapolateError::NoInput);
    }
    if progression.len() <= order {
        return Err(ExtrapolateError::TooShort);
    }
    let start = progression.len() - order;
    let mut ctx: Vec<String> = Vec::new();
    for k in start..progression.len()
        invariant
            start == progression.len() - order,
            views(ctx@) == views(progression@).subrange(start as int, k as int),
    {
        let ghost before = ctx@;
        ctx.push(progression[k].clone());
        assert(views(ctx@) =~= views(before).push(progression@[k as int]@));
        assert(views(ctx@) =~= views(progression@).subrange(start as int, k + 1));
    }
    assert(views(progression@).skip(start as int) =~= views(progression@).subrange(start as int, progression.len() as int));
    Ok((progression, ctx))
}

} // verus!
