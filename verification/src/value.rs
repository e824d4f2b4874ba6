use vstd::prelude::*;
use crate::cursor::Span;

verus! {

/// The match value: the canonical tagged union of possible match outputs.
///
/// Equality is structural over the spans and counts, never over cursor
/// identity.  A primitive that promises a one-span value never returns a
/// two-span value: the spec functions in [`crate::parser`] pin the variant
/// each parser produces.
#[derive(Clone, Copy, Debug, PartialEq, Eq, Structural)]
pub enum Compute {
    /// No payload.
    Nothing,
    /// A single matched subsequence.
    One(Span),
    /// Two matched subsequences, produced by concatenating two sub-parses.
    Two(Span, Span),
    /// A count, such as the length of a run of leading spaces.
    Number(usize),
}

/// Joining the values of two concatenated sub-parses: two single spans make a
/// double span; any other combination carries no payload.
pub open spec fn spec_pair(a: Compute, b: Compute) -> Compute {
    match (a, b) {
        (Compute::One(x), Compute::One(y)) => Compute::Two(x, y),
        _ => Compute::Nothing,
    }
}

/// Join two match values as [`spec_pair`] describes.
pub fn pair(a: Compute, b: Compute) -> (r: Compute)
    ensures
        r == spec_pair(a, b),
{
    match (a, b) {
        (Compute::One(x), Compute::One(y)) => Compute::Two(x, y),
        _ => Compute::Nothing,
    }
}

} // verus!
