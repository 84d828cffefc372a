use granulator::pitch::cents::{EqualTemperment, ET};
use granulator::pitch::scales::{ClassicalIntervals, ModeType, ScaleType};
use granulator::pitch::get_semitones_for;

#[test]
fn major_scale_in_semitones() {
    assert_eq!(
        get_semitones_for(ScaleType::Diatonic, ModeType::Ionian),
        [0, 2, 4, 5, 7, 9, 11]
    );
}

#[test]
fn natural_minor_scale_in_semitones() {
    assert_eq!(
        get_semitones_for(ScaleType::Diatonic, ModeType::Aeolian),
        [0, 2, 3, 5, 7, 8, 10]
    );
}

#[test]
fn harmonic_minor_scale_wraps_round_the_steps() {
    assert_eq!(
        get_semitones_for(ScaleType::HarmonicMinor, ModeType::Locrian),
        [0, 1, 3, 5, 6, 8, 9]
    );
    assert_eq!(
        get_semitones_for(ScaleType::Melodic, ModeType::Dorian),
        [0, 1, 3, 5, 7, 9, 10]
    );
}

#[test]
fn interval_widths() {
    assert_eq!(ClassicalIntervals::Unison.semitones(), 0);
    assert_eq!(ClassicalIntervals::MinorThird.semitones(), 3);
    assert_eq!(ClassicalIntervals::Octave.semitones(), 12);
    assert_eq!(ModeType::Mixolydian.degree(), 4);
}

#[test]
fn temperament_has_at_least_two_steps() {
    assert_eq!(0_u32.tet(), ET(2));
    assert_eq!(1_u32.tet(), ET(2));
    assert_eq!(12_u32.tet(), ET(12));
}
