//! The shape of interpolated envelopes: anchor syntax and sample counts.

use vstd::prelude::*;
use crate::chars::{char_views, split_chars, split_on, trim, trim_chars};
use crate::cli::InterpolationCurve;
use crate::text::{chars_of, string_of};

verus! {

/// How an envelope was sampled.
pub struct InterpolationContext {
    pub curve: String,
    pub samples: usize,
}

pub open spec fn curve_name(c: InterpolationCurve) -> Seq<char> {
    match c {
        InterpolationCurve::Linear => "Linear"@,
        InterpolationCurve::EaseIn => "EaseIn"@,
        InterpolationCurve::EaseOut => "EaseOut"@,
        InterpolationCurve::EaseInOut => "EaseInOut"@,
    }
}

/// The number of points of an envelope through `anchors` points with `samples` samples
/// per segment: each segment's samples plus the last anchor, or just the anchors when
/// there is no segment or no sample.
pub open spec fn envelope_length(anchors: nat, samples: nat) -> nat {
    if anchors < 2 || samples == 0 {
        anchors
    } else {
        (samples * (anchors - 1) + 1) as nat
    }
}

/// The context of an envelope (see `envelope_length`).
pub fn interpolation_context(curve: InterpolationCurve, anchors: usize, samples: usize) -> (c: InterpolationContext)
    requires
        anchors >= 2 && samples > 0 ==> samples * (anchors - 1) + 1 <= usize::MAX,
    ensures
        c.curve@ == curve_name(curve),
        c.samples == envelope_length(anchors as nat, samples as nat),
{
    let name = match curve {
        InterpolationCurve::Linear => "Linear",
        InterpolationCurve::EaseIn => "EaseIn",
        InterpolationCurve::EaseOut => "EaseOut",
        InterpolationCurve::EaseInOut => "EaseInOut",
    };
    let count = if anchors < 2 || samples == 0 {
        anchors
    } else {
        samples * (anchors - 1) + 1
    };
    InterpolationContext { curve: String::from_str(name), samples: count }
}

/// The two trimmed halves of a `time:value` anchor; `None` unless it has exactly one colon.
pub open spec fn anchor_parts(entry: Seq<char>) -> Option<(Seq<char>, Seq<char>)> {
    let parts = split_on(entry, ':');
    if parts.len() == 2 {
        Some((trim(parts[0]), trim(parts[1])))
    } else {
        None
    }
}

/// Splits a `time:value` anchor into its trimmed halves (see `anchor_parts`).
pub fn split_anchor(entry: &str) -> (r: Option<(String, String)>)
    ensures
        match r {
            Some((t, v)) => anchor_parts(entry@) == Some((t@, v@)),
            None => anchor_parts(entry@) is None,
        },
{
    let chars = chars_of(entry);
    let parts = split_chars(&chars, ':');
    if parts.len() != 2 {
        return None;
    }
    assert(char_views(parts@)[0] == parts@[0]@ && char_views(parts@)[1] == parts@[1]@);
    let t = trim_chars(&parts[0]);
    let v = trim_chars(&parts[1]);
    Some((string_of(&t), string_of(&v)))
}

} // verus!
