//! The kinds of audio source a grain can read from.

use vstd::prelude::*;

verus! {

/// Where the samples of a grain come from. Only `AudioFile` produces
/// sound; the other sources are silent.
#[derive(Debug, Clone, Copy, PartialEq, Eq, Structural)]
pub enum Source {
    AudioFile,
    DelayLine,
    Synthetic,
}

} // verus!
