use granulator::grain::Grain;
use granulator::pointer_wrapper::BufferSlice;
use granulator::window_function::WindowFunction;

#[test]
fn grain_finishes_after_length_plus_one_updates() {
    let length = 480;
    let mut g = Grain::new(1, BufferSlice { offset: 20, length }, WindowFunction::Hamming);

    for position in 0..length {
        assert!(!g.finished);
        assert_eq!(g.update_envelope(), Some(position));
    }
    assert!(!g.finished);
    assert_eq!(g.envelope_position, length);

    assert_eq!(g.update_envelope(), None);
    assert!(g.finished);

    let done = g;
    assert_eq!(g.update_envelope(), None);
    assert_eq!(g, done);
}

#[test]
fn grain_without_samples_finishes_at_once() {
    let mut g = Grain::new(1, BufferSlice { offset: 0, length: 0 }, WindowFunction::Gaussian);
    assert_eq!(g.update_envelope(), None);
    assert!(g.finished);
    assert_eq!(g.envelope_position, 0);
    assert_eq!(g.interpolation_indices(0), None);
}

#[test]
fn interpolation_reads_inside_the_view() {
    let g = Grain::new(1, BufferSlice { offset: 100, length: 10 }, WindowFunction::Sine);
    assert_eq!(g.interpolation_indices(0), Some((100, 101)));
    assert_eq!(g.interpolation_indices(8), Some((108, 109)));
    assert_eq!(g.interpolation_indices(9), Some((109, 109)));
    assert_eq!(g.interpolation_indices(usize::MAX), Some((109, 109)));
    assert_eq!(g.get_grain_size_in_samples(), 10);
}

#[test]
fn source_check_interpolation() {
    // create file stream
    let mut mock_file_stream: Vec<f32> = vec![];

    // fill file stream with arbitrary numbers
    for i in 0..50 {
        mock_file_stream.push(i as f32 * 0.123456);
    }

    // convert it to slice
    let mock_file_stream = mock_file_stream.as_slice();

    // a grain over the whole stream
    let grain = Grain::new(
        0,
        BufferSlice::from_slice(mock_file_stream),
        WindowFunction::Sine,
    );

    // create f32 offset value
    let offset = 42.314;

    // calculate interolated value
    let (first, next) = grain.interpolation_indices(offset as usize).unwrap();
    let output = (mock_file_stream[first] + mock_file_stream[next]) * 0.5;

    // convert offset to integer
    let offset = offset as usize;
    assert_eq!((first, next), (offset, offset + 1));

    // sign of gradient dictates compare logic
    let gradient = mock_file_stream[offset] - mock_file_stream[offset + 1];

    let mut success = false;

    if gradient.is_sign_negative() {
        if output > mock_file_stream[offset] && output < mock_file_stream[offset + 1] {
            success = true;
        }
    } else {
        if output < mock_file_stream[offset] && output > mock_file_stream[offset + 1] {
            success = true;
        }
    }

    assert!(
        success,
        "{} should be between {} and {}",
        output,
        mock_file_stream[offset],
        mock_file_stream[offset + 1]
    );
}
