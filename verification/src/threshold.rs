//! The on/off decision for one sample.

use vstd::prelude::*;

verus! {

/// What to do with one sample.
#[derive(Clone, Copy, Debug, PartialEq, Eq, Structural)]
pub enum Decision {
    /// The cell is set on the drawing surface.
    Draw,
    /// The cell is left alone.
    Skip,
}

/// A sample is drawn when its summed intensity is strictly above this value.
pub const CUTOFF: u16 = 300;

/// The decision for a summed intensity `v`: draw exactly when `v > 300`.
pub open spec fn spec_threshold(v: int) -> Decision {
    if v > 300 {
        Decision::Draw
    } else {
        Decision::Skip
    }
}

/// Decides whether a sample of summed intensity `v` is drawn.
pub fn threshold(v: u16) -> (d: Decision)
    ensures
        d == spec_threshold(v as int),
        d == Decision::Draw <==> v > 300,
        d == Decision::Skip <==> v <= 300,
{
    if v > CUTOFF {
        Decision::Draw
    } else {
        Decision::Skip
    }
}

/// The preview character of a decision: `'0'` for a drawn sample, a space for
/// a skipped one.
pub open spec fn spec_mark(d: Decision) -> char {
    match d {
        Decision::Draw => '0',
        Decision::Skip => ' ',
    }
}

/// The preview character of a decision.
pub fn mark(d: Decision) -> (c: char)
    ensures
        c == spec_mark(d),
{
    match d {
        Decision::Draw => '0',
        Decision::Skip => ' ',
    }
}

} // verus!
