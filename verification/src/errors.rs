//! What construction rejects.

use vstd::prelude::*;

verus! {

/// Why a gradient, a crater or a bombardment configuration was rejected.
#[derive(Clone, Copy, Debug, PartialEq, Eq, Structural)]
pub enum ConfigError {
    /// A gradient needs at least two stops.
    TooFewStops,
    /// Gradient stops must come in strictly ascending order of value.
    UnsortedStops,
    /// A smoothing coefficient of zero would divide by zero.
    ZeroBlend,
    /// The radius range has its minimum above its maximum.
    EmptyRadiusRange,
    /// The depth range has its minimum above its maximum.
    EmptyDepthRange,
    /// The steepness range has its minimum above its maximum.
    EmptySteepnessRange,
}

} // verus!
