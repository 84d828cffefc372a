//! The names of the values a user can configure.

use vstd::prelude::*;

verus! {

/// Defines all configurable parameters.
#[derive(Debug, Clone, Copy, PartialEq, Eq, Structural)]
pub enum GranulatorParameter {
    MasterVolume,
    ActiveGrains,
    Offset,
    GrainSize,
    Pitch,
    Delay,
    Velocity,
    OffsetSpread,
    GrainSizeSpread,
    PitchSpread,
    VelocitySpread,
    DelaySpread,
    WindowParam,
}

} // verus!
