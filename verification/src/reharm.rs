//! The choices made when borrowing chords from parallel modes.

use vstd::prelude::*;

verus! {

/// Why a reharmonization table cannot be built.
#[derive(Clone, Copy, Debug, PartialEq, Eq, Structural)]
pub enum ReharmError {
    /// The scale has no steps.
    NoSteps,
    /// The requested degree is not between 1 and the number of steps.
    DegreeOutOfRange { degree: usize, step_count: usize },
}

/// Checks a requested target degree (from 1) against a scale of `step_count` steps and
/// gives the zero-based degree to resolve, if one was requested.
pub fn reharm_target(degree: Option<usize>, step_count: usize) -> (r: Result<Option<usize>, ReharmError>)
    ensures
        step_count == 0 ==> r == Err::<Option<usize>, ReharmError>(ReharmError::NoSteps),
        step_count > 0 ==> match degree {
            None => r == Ok::<Option<usize>, ReharmError>(None),
            Some(d) => if 1 <= d <= step_count {
                r == Ok::<Option<usize>, ReharmError>(Some((d - 1) as usize))
            } else {
                r == Err::<Option<usize>, ReharmError>(ReharmError::DegreeOutOfRange { degree: d, step_count })
            },
        },
{
    if step_count == 0 {
        return Err(ReharmError::NoSteps);
    }
    match degree {
        None => Ok(None),
        Some(d) => if 1 <= d && d <= step_count {
            Ok(Some(d - 1))
        } else {
            Err(ReharmError::DegreeOutOfRange { degree: d, step_count })
        },
    }
}

/// Whether a chord rooted at `root` is listed: always without a target, else only when
/// its root is the target.
pub fn keeps_chord(target: Option<i32>, root: Option<i32>) -> (b: bool)
    ensures
        b == match target {
            None => true,
            Some(t) => root == Some(t),
        },
{
    match target {
        None => true,
        Some(t) => match root {
            Some(x) => x == t,
            None => false,
        },
    }
}

/// Whether a chord rooted at `root` is marked as matching the target.
pub fn matches_target(target: Option<i32>, root: Option<i32>) -> (b: bool)
    ensures
        b == (target is Some && root == target),
{
    match (target, root) {
        (Some(t), Some(x)) => x == t,
        _ => false,
    }
}

} // verus!
