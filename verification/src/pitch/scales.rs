//! Heptatonic scales as semitone distances from the root.

use vstd::prelude::*;

verus! {

/// Heptatonic scales always have 7 notes.
pub const HEPTATONIC: usize = 7;

/// Types of classical tone intervals.
#[derive(Debug, Clone, Copy, PartialEq, Eq, Structural)]
pub enum ClassicalIntervals {
    Unison,
    Half,
    Whole,
    MinorThird,
    MajorThird,
    PerfectFourth,
    Tritone,
    PerfectFifth,
    MinorSixth,
    MajorSixth,
    MinorSeventh,
    MajorSeventh,
    Octave,
}

/// The mode of a scale: the degree of the scale on which it starts.
#[derive(Debug, Clone, Copy, PartialEq, Eq, Structural)]
pub enum ModeType {
    /// Major
    Ionian,
    Dorian,
    Phrygian,
    Lydian,
    Mixolydian,
    /// Natural Minor
    Aeolian,
    Locrian,
}

#[derive(Debug, Clone, Copy, PartialEq, Eq, Structural)]
pub enum ScaleType {
    Diatonic,
    Melodic,
    HarmonicMinor,
    MarmonicMajor,
}

impl ClassicalIntervals {
    /// The width of the interval in semitones.
    pub open spec fn width(self) -> u32 {
        match self {
            ClassicalIntervals::Unison => 0,
            ClassicalIntervals::Half => 1,
            ClassicalIntervals::Whole => 2,
            ClassicalIntervals::MinorThird => 3,
            ClassicalIntervals::MajorThird => 4,
            ClassicalIntervals::PerfectFourth => 5,
            ClassicalIntervals::Tritone => 6,
            ClassicalIntervals::PerfectFifth => 7,
            ClassicalIntervals::MinorSixth => 8,
            ClassicalIntervals::MajorSixth => 9,
            ClassicalIntervals::MinorSeventh => 10,
            ClassicalIntervals::MajorSeventh => 11,
            ClassicalIntervals::Octave => 12,
        }
    }

    /// The width of the interval in semitones.
    pub fn semitones(self) -> (n: u32)
        ensures
            n == self.width(),
    {
        match self {
            ClassicalIntervals::Unison => 0,
            ClassicalIntervals::Half => 1,
            ClassicalIntervals::Whole => 2,
            ClassicalIntervals::MinorThird => 3,
            ClassicalIntervals::MajorThird => 4,
            ClassicalIntervals::PerfectFourth => 5,
            ClassicalIntervals::Tritone => 6,
            ClassicalIntervals::PerfectFifth => 7,
            ClassicalIntervals::MinorSixth => 8,
            ClassicalIntervals::MajorSixth => 9,
            ClassicalIntervals::MinorSeventh => 10,
            ClassicalIntervals::MajorSeventh => 11,
            ClassicalIntervals::Octave => 12,
        }
    }
}

impl ModeType {
    /// The degree of the scale on which the mode starts, counted from 0.
    pub open spec fn first_degree(self) -> nat {
        match self {
            ModeType::Ionian => 0,
            ModeType::Dorian => 1,
            ModeType::Phrygian => 2,
            ModeType::Lydian => 3,
            ModeType::Mixolydian => 4,
            ModeType::Aeolian => 5,
            ModeType::Locrian => 6,
        }
    }

    /// The degree of the scale on which the mode starts, counted from 0.
    pub fn degree(self) -> (d: usize)
        ensures
            d == self.first_degree(),
            d < HEPTATONIC,
    {
        match self {
            ModeType::Ionian => 0,
            ModeType::Dorian => 1,
            ModeType::Phrygian => 2,
            ModeType::Lydian => 3,
            ModeType::Mixolydian => 4,
            ModeType::Aeolian => 5,
            ModeType::Locrian => 6,
        }
    }
}

impl ScaleType {
    /// The seven steps of the scale, from its first degree upward and
    /// back to the octave.
    pub open spec fn steps(self) -> Seq<ClassicalIntervals> {
        match self {
            ScaleType::Diatonic => seq![
                ClassicalIntervals::Whole,
                ClassicalIntervals::Whole,
                ClassicalIntervals::Half,
                ClassicalIntervals::Whole,
                ClassicalIntervals::Whole,
                ClassicalIntervals::Whole,
                ClassicalIntervals::Half,
            ],
            ScaleType::Melodic => seq![
                ClassicalIntervals::Whole,
                ClassicalIntervals::Half,
                ClassicalIntervals::Whole,
                ClassicalIntervals::Whole,
                ClassicalIntervals::Whole,
                ClassicalIntervals::Whole,
                ClassicalIntervals::Half,
            ],
            ScaleType::HarmonicMinor => seq![
                ClassicalIntervals::Whole,
                ClassicalIntervals::Whole,
                ClassicalIntervals::Half,
                ClassicalIntervals::Whole,
                ClassicalIntervals::Half,
                ClassicalIntervals::MinorThird,
                ClassicalIntervals::Half,
            ],
            ScaleType::MarmonicMajor => seq![
                ClassicalIntervals::Whole,
                ClassicalIntervals::Half,
                ClassicalIntervals::Whole,
                ClassicalIntervals::Whole,
                ClassicalIntervals::Half,
                ClassicalIntervals::MinorThird,
                ClassicalIntervals::Half,
            ],
        }
    }

    /// The seven steps of the scale.
    pub fn intervals(self) -> (steps: [ClassicalIntervals; HEPTATONIC])
        ensures
            steps@ == self.steps(),
    {
        let steps = match self {
            ScaleType::Diatonic => [
                ClassicalIntervals::Whole,
                ClassicalIntervals::Whole,
                ClassicalIntervals::Half,
                ClassicalIntervals::Whole,
                ClassicalIntervals::Whole,
                ClassicalIntervals::Whole,
                ClassicalIntervals::Half,
            ],
            ScaleType::Melodic => [
                ClassicalIntervals::Whole,
                ClassicalIntervals::Half,
                ClassicalIntervals::Whole,
                ClassicalIntervals::Whole,
                ClassicalIntervals::Whole,
                ClassicalIntervals::Whole,
                ClassicalIntervals::Half,
            ],
            ScaleType::HarmonicMinor => [
                ClassicalIntervals::Whole,
                ClassicalIntervals::Whole,
                ClassicalIntervals::Half,
                ClassicalIntervals::Whole,
                ClassicalIntervals::Half,
                ClassicalIntervals::MinorThird,
                ClassicalIntervals::Half,
            ],
            ScaleType::MarmonicMajor => [
                ClassicalIntervals::Whole,
                ClassicalIntervals::Half,
                ClassicalIntervals::Whole,
                ClassicalIntervals::Whole,
                ClassicalIntervals::Half,
                ClassicalIntervals::MinorThird,
                ClassicalIntervals::Half,
            ],
        };
        proof {
            assert(steps@ =~= self.steps());
        }
        steps
    }
}

/// The distance in semitones from the root of the mode to its note
/// number `degree`: the sum of the steps of the scale up to that note,
/// taken from the degree on which the mode starts and round the scale.
pub open spec fn semitones_above_root(scale: ScaleType, mode: ModeType, degree: nat) -> nat
    decreases degree,
{
    if degree == 0 {
        0
    } else {
        let step = scale.steps()[((mode.first_degree() + degree - 1) % 7) as int];
        semitones_above_root(scale, mode, (degree - 1) as nat) + step.width() as nat
    }
}

/// The seven notes of a mode of a scale, each as its distance in
/// semitones from the root.
pub fn get_semitones_for(scale: ScaleType, mode: ModeType) -> (semitones: [u32; HEPTATONIC])
    ensures
        forall|degree: int|
            0 <= degree < HEPTATONIC ==> semitones[degree] == semitones_above_root(
                scale,
                mode,
                degree as nat,
            ),
{
    let steps = scale.intervals();
    let first = mode.degree();
    let mut semitones = [0u32;HEPTATONIC];
    let mut semitone: u32 = 0;
    let mut degree: usize = 1;
    while degree < HEPTATONIC
        invariant
            1 <= degree <= HEPTATONIC,
            first == mode.first_degree(),
            first < HEPTATONIC,
            steps@ == scale.steps(),
            semitone == semitones_above_root(scale, mode, (degree - 1) as nat),
            semitone <= 12 * (degree - 1),
            forall|k: int|
                0 <= k < degree ==> semitones[k] == semitones_above_root(scale, mode, k as nat),
        decreases HEPTATONIC - degree,
    {
        let step = steps[(first + degree - 1) % HEPTATONIC];
        semitone = semitone + step.semitones();
        semitones[degree] = semitone;
        degree = degree + 1;
    }
    semitones
}

} // verus!
