//! The shapes of the amplitude envelope that a grain can carry.

use vstd::prelude::*;

verus! {

/// All window functions that can shape a grain. `Gaussian`, `Tukey` and
/// `Trapezodial` take one shape parameter; the others take none.
#[derive(Debug, Clone, Copy, PartialEq, Eq, Structural)]
pub enum WindowFunction {
    Sine,
    Hann,
    Hamming,
    Gaussian,
    Tukey,
    Trapezodial,
}

} // verus!
