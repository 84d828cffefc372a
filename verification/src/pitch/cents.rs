//! Equal temperaments: the division of the octave into equal steps.

use vstd::prelude::*;

verus! {

/// The size of an octave in cents.
pub const CENT_OCTAVE: u32 = 1200;

/// An equal temperament, given by its number of steps per octave.
#[derive(Debug, Clone, Copy, PartialEq, Eq, Structural)]
pub struct ET(pub u32);

/// Numbers that name an equal temperament.
pub trait EqualTemperment {
    /// The temperament that the number names.
    spec fn tet_spec(&self) -> ET;

    fn tet(&self) -> (temperament: ET)
        ensures
            temperament == self.tet_spec(),
    ;
}

impl EqualTemperment for u32 {
    /// A temperament has at least two steps per octave: smaller numbers
    /// name the one with two.
    open spec fn tet_spec(&self) -> ET {
        if *self < 2 {
            ET(2)
        } else {
            ET(*self)
        }
    }

    fn tet(&self) -> (temperament: ET) {
        if *self < 2 {
            ET(2)
        } else {
            ET(*self)
        }
    }
}

} // verus!
