//! Musical scales and tunings that pick the pitch of a grain.

pub mod cents;
pub mod scales;

pub use scales::get_semitones_for;
pub use scales::{ModeType, ScaleType};
