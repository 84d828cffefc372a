use granulator::grain::Grain;
use granulator::grain_vector::{
    flush_grains, get_grain, is_finished, push_grain, remove_grain, update_envolopes,
};
use granulator::grains_vector::GrainsVector;
use granulator::pointer_wrapper::BufferSlice;
use granulator::window_function::WindowFunction;
use granulator::MAX_GRAINS;

const SLICE: [f32; 10] = [0_f32; 10];

#[test]
fn grains_vector_push_and_remove_a_grain() {
    let mut g = GrainsVector::new();

    g.push_grain(0, BufferSlice::from_slice(&SLICE), WindowFunction::Sine)
        .unwrap();

    assert!(g.grains.len() == 1);

    g.remove_grain(0).unwrap();

    assert!(g.grains.len() == 0);
}

#[test]
fn get_a_grain() {
    let mut g = GrainsVector::new();

    g.push_grain(0, BufferSlice::from_slice(&SLICE), WindowFunction::Sine)
        .unwrap();

    assert!(g.get_grains().len() == 1);
    assert!(g.get_mut_grains().len() == 1);
}

#[test]
fn flush_vector() {
    let mut g = GrainsVector::new();

    for i in 0..MAX_GRAINS {
        g.push_grain(i, BufferSlice::from_slice(&SLICE), WindowFunction::Sine)
            .unwrap();
    }

    g.flush();

    assert!(g.grains.len() == 0);
}

#[test]
fn grain_vector_push_and_remove_a_grain() {
    let mut grains = GrainsVector::new();
    let id = 0;

    assert!(push_grain(&mut grains, id).is_ok());

    assert!(remove_grain(&mut grains, id).is_ok());

    assert!(get_grain(&grains, id).is_err());
}

#[test]
fn flush_grains_vector() {
    let mut grains = GrainsVector::new();
    for id in 0..10 {
        assert!(push_grain(&mut grains, id).is_ok());
    }
    flush_grains(&mut grains);
    assert_eq!(grains.len(), 0);
}

#[test]
fn remove_grain_from_empty_vector() {
    let mut grains = GrainsVector::new();
    flush_grains(&mut grains);
    assert!(remove_grain(&mut grains, 0).is_err());
}

#[test]
fn get_a_default_grain() {
    let mut grains = GrainsVector::new();
    let id = 3;

    assert!(push_grain(&mut grains, id).is_ok());

    assert!(get_grain(&grains, id).is_ok());

    flush_grains(&mut grains);
}

#[test]
fn is_a_grain_finished() {
    let mut grains = GrainsVector::new();
    let id = 4;

    // setup audio callback length
    assert!(push_grain(&mut grains, id).is_ok());
    const BUFFER_LENGTH: usize = 512;

    // grain size needs to be smaller than buffer length for it to finish in one callback
    assert!(get_grain(&grains, id).unwrap().get_grain_size_in_samples() < BUFFER_LENGTH);

    // simulate audio callback
    for _ in 0..BUFFER_LENGTH {
        update_envolopes(&mut grains);
    }

    // grain should be finished
    assert!(get_grain(&grains, id).unwrap().finished);
    assert_eq!(is_finished(&grains, id), Ok(true));

    flush_grains(&mut grains);
}

#[test]
fn collection_is_full_at_max_grains() {
    let mut g = GrainsVector::new();
    let view = BufferSlice::from_slice(&SLICE);
    for id in 0..MAX_GRAINS {
        assert_eq!(g.push_grain(id, view, WindowFunction::Hann), Ok(()));
    }
    assert_eq!(g.len(), MAX_GRAINS);
    assert_eq!(g.push_grain(MAX_GRAINS, view, WindowFunction::Hann), Err(MAX_GRAINS));
    assert_eq!(g.len(), MAX_GRAINS);

    assert_eq!(g.remove_grain(17), Ok(()));
    assert_eq!(g.len(), MAX_GRAINS - 1);
    assert_eq!(g.push_grain(MAX_GRAINS, view, WindowFunction::Hann), Ok(()));
    assert_eq!(g.get_grains()[MAX_GRAINS - 1].id, MAX_GRAINS);
    assert_eq!(g.get_grains()[17].id, 18);
}

#[test]
fn default_grain_is_handed_back_when_full() {
    let mut grains = GrainsVector::new();
    for id in 0..MAX_GRAINS {
        assert!(push_grain(&mut grains, id).is_ok());
    }
    let refused = push_grain(&mut grains, 99).unwrap_err();
    assert_eq!(
        refused,
        Grain {
            window: WindowFunction::Sine,
            envelope_position: 0,
            source_sub_slice: BufferSlice {
                offset: 0,
                length: 48
            },
            finished: false,
            id: 99,
        }
    );
}

#[test]
fn missing_grain_is_reported_by_its_id() {
    let mut grains = GrainsVector::new();
    push_grain(&mut grains, 1).unwrap();
    assert_eq!(get_grain(&grains, 2), Err(2));
    assert_eq!(is_finished(&grains, 2), Err(2));
    assert_eq!(remove_grain(&mut grains, 2), Err(2));
    assert_eq!(grains.remove_grain(2), Err(2));
    assert_eq!(grains.position(2), None);
    assert_eq!(grains.position(1), Some(0));
    assert_eq!(is_finished(&grains, 1), Ok(false));
}

#[test]
fn remove_takes_the_first_grain_of_an_id() {
    let mut g = GrainsVector::new();
    g.push_grain(1, BufferSlice { offset: 0, length: 4 }, WindowFunction::Sine)
        .unwrap();
    g.push_grain(2, BufferSlice { offset: 1, length: 4 }, WindowFunction::Sine)
        .unwrap();
    g.push_grain(1, BufferSlice { offset: 2, length: 4 }, WindowFunction::Sine)
        .unwrap();

    let taken = g.take_grain(1).unwrap();
    assert_eq!(taken.source_sub_slice.offset, 0);
    assert_eq!(g.len(), 2);
    assert_eq!(g.get_grains()[0].id, 2);
    assert_eq!(g.get_grains()[1].source_sub_slice.offset, 2);
}

#[test]
fn finished_grains_are_listed_in_order() {
    let mut g = GrainsVector::new();
    g.push_grain(5, BufferSlice { offset: 0, length: 1 }, WindowFunction::Sine)
        .unwrap();
    g.push_grain(6, BufferSlice { offset: 0, length: 3 }, WindowFunction::Sine)
        .unwrap();
    g.push_grain(7, BufferSlice { offset: 0, length: 0 }, WindowFunction::Sine)
        .unwrap();

    assert!(g.finished().is_empty());
    update_envolopes(&mut g);
    assert_eq!(g.finished().as_slice(), &[7]);
    update_envolopes(&mut g);
    assert_eq!(g.finished().as_slice(), &[5, 7]);
}

#[test]
fn envelope_update_at_an_index() {
    let mut g = GrainsVector::new();
    g.push_grain(5, BufferSlice { offset: 0, length: 2 }, WindowFunction::Sine)
        .unwrap();

    assert_eq!(g.update_envelope_at(0), Some(0));
    assert_eq!(g.update_envelope_at(1), None);
    assert_eq!(g.get_grains()[0].envelope_position, 1);
    assert_eq!(g.update_envelope_at(0), Some(1));
    assert_eq!(g.update_envelope_at(0), None);
    assert!(g.get_grains()[0].finished);
}
