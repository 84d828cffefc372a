use core::time::Duration;
use granulator::grain_vector::update_envolopes;
use granulator::manager::Parameters;
use granulator::pointer_wrapper::BufferSlice;
use granulator::window_function::WindowFunction;
use granulator::{Granulator, MAX_GRAINS};

const FS: usize = 48_000;

#[test]
fn get_a_new_index() {
    let mut m = Granulator::new(FS);
    assert!(m.current_id_counter == 0);

    for i in 0..MAX_GRAINS {
        let new_id = m.get_new_id();

        assert!(new_id == i);
    }
}

#[test]
fn activate_all_grains() {
    let mut m = Granulator::new(FS);
    let buffer = [0_f32; 100];
    m.set_audio_buffer(&buffer);

    let mut ids = heapless::Vec::new();

    assert!(m.grains.get_grains().len() == 0);

    for _ in 0..MAX_GRAINS {
        ids.push(m.get_new_id()).unwrap();
    }

    m.activate_grains(&ids);

    assert!(m.grains.get_grains().len() == MAX_GRAINS);
}

#[test]
fn spawn_all_grains() {
    let mut m = Granulator::new(FS);
    let buffer = [0_f32; 100];
    m.set_audio_buffer(&buffer);
    m.set_active_grains(MAX_GRAINS);

    m.spawn_future_grains();

    assert!(m.scheduler.future_vector.len() == MAX_GRAINS);
}

#[test]
fn remove_all_grains() {
    // setup unit test
    let mut m = Granulator::new(FS);
    let buffer = [1_f32; 10000];

    let mut check_slice: heapless::Vec<usize, MAX_GRAINS> = heapless::Vec::new();
    let mut zero_slice: heapless::Vec<usize, MAX_GRAINS> = heapless::Vec::new();
    for i in 0..MAX_GRAINS {
        check_slice.push(i).unwrap();
        zero_slice.push(0).unwrap();
    }

    m.set_audio_buffer(&buffer);
    m.set_active_grains(MAX_GRAINS);
    m.set_grain_size(10);

    // update scheduler
    m.spawn_future_grains();
    let ids = m.scheduler.update_clock(Duration::from_millis(20));

    assert!(ids == check_slice);

    m.activate_grains(&ids);
    m.remove_finished_grains();

    assert!(m.grains.get_grains().len() == MAX_GRAINS);
    assert!(m.scheduler.future_vector.len() == MAX_GRAINS);

    // finish all grains
    for _ in 0..481 {
        update_envolopes(&mut m.grains);
    }

    // update schedular
    m.spawn_future_grains();
    let ids = m.scheduler.update_clock(Duration::from_millis(20));
    assert!(ids == heapless::Vec::<usize, MAX_GRAINS>::new());
    m.activate_grains(&ids);
    m.remove_finished_grains();

    assert!(m.grains.get_grains().len() == 0);
    assert!(m.scheduler.future_vector.len() == 0);

    // next cycle

    m.spawn_future_grains();
    assert!(m.grains.get_grains().len() == 0);
    assert!(m.scheduler.future_vector.len() == MAX_GRAINS);

    let ids = m.scheduler.update_clock(Duration::from_millis(20));
    m.activate_grains(&ids);
    assert!(m.grains.get_grains().len() == MAX_GRAINS);
    assert!(m.scheduler.future_vector.len() == MAX_GRAINS);
}

#[test]
fn set_a_grain_size() {
    let mut m = Granulator::new(FS);
    let buffer = [0_f32; 10000];
    m.set_audio_buffer(&buffer);

    m.set_grain_size(100);
    m.set_active_grains(1);

    assert!(m.settings.grain_size_in_samples == 4800);
}

#[test]
fn set_a_sample_rate() {
    let mut m = Granulator::new(FS);

    let result = m.set_sample_rate(1_000);
    assert!(m.fs == 48_000);
    assert!(result.is_err());

    let result = m.set_sample_rate(300_000);
    assert!(m.fs == 48_000);
    assert!(result.is_err());

    let result = m.set_sample_rate(44_100);
    assert!(m.fs == 44_100);
    assert!(result.is_ok());
}

#[test]
fn sample_rate_bounds_are_exclusive() {
    let mut m = Granulator::new(FS);
    assert_eq!(m.set_sample_rate(8_000), Err(8_000));
    assert_eq!(m.set_sample_rate(192_000), Err(192_000));
    assert_eq!(m.fs, FS);
    assert_eq!(m.set_sample_rate(8_001), Ok(()));
    assert_eq!(m.fs, 8_001);
    assert_eq!(m.set_sample_rate(191_999), Ok(()));
    assert_eq!(m.fs, 191_999);
}

#[test]
fn a_new_granulator_is_silent() {
    let mut m = Granulator::new(FS);
    assert_eq!(m.audio_buffer, None);
    assert_eq!(
        m.settings,
        Parameters {
            active_grains: 1,
            offset: 0,
            grain_size_in_samples: 480,
            delay: 0
        }
    );

    // without a buffer the setters and the control tick do nothing
    m.set_active_grains(10);
    m.set_offset(5);
    m.set_grain_size(20);
    m.set_grain_size_in_samples(20);
    m.set_delay(Duration::from_millis(5));
    m.update_scheduler(Duration::from_millis(20));
    assert_eq!(
        m.settings,
        Parameters {
            active_grains: 1,
            offset: 0,
            grain_size_in_samples: 480,
            delay: 0
        }
    );
    assert_eq!(m.scheduler.master_clock_counter, 0);
    assert!(m.scheduler.future_vector.is_empty());
    assert!(m.grains.get_grains().is_empty());
    assert_eq!(m.activate_grain(0, 0, 10, WindowFunction::Sine), Ok(()));
    assert!(m.grains.get_grains().is_empty());
}

#[test]
fn setters_clamp_to_the_buffer() {
    let mut m = Granulator::new(FS);
    let buffer = [0_f32; 1000];
    m.set_audio_buffer(&buffer);
    assert_eq!(m.audio_buffer, Some(BufferSlice { offset: 0, length: 1000 }));

    m.set_active_grains(MAX_GRAINS + 1);
    assert_eq!(m.settings.active_grains, MAX_GRAINS);
    m.set_active_grains(3);
    assert_eq!(m.settings.active_grains, 3);

    m.set_offset(1001);
    assert_eq!(m.settings.offset, 1000);
    m.set_offset(600);
    assert_eq!(m.settings.offset, 600);

    m.set_grain_size_in_samples(399);
    assert_eq!(m.settings.grain_size_in_samples, 399);
    m.set_grain_size_in_samples(401);
    assert_eq!(m.settings.grain_size_in_samples, 400);
    m.set_grain_size(1);
    assert_eq!(m.settings.grain_size_in_samples, 48);
    m.set_grain_size(1000);
    assert_eq!(m.settings.grain_size_in_samples, 400);

    m.set_delay(Duration::from_millis(250));
    assert_eq!(m.settings.delay, 250_000_000);
}

#[test]
fn a_new_buffer_flushes_the_grains() {
    let mut m = Granulator::new(FS);
    let buffer = [0_f32; 1000];
    m.set_audio_buffer(&buffer);
    m.set_active_grains(4);
    m.update_scheduler(Duration::from_millis(1));
    assert_eq!(m.grains.get_grains().len(), 4);

    let shorter = [0_f32; 10];
    m.set_audio_buffer(&shorter);
    assert!(m.grains.get_grains().is_empty());
    assert_eq!(m.audio_buffer, Some(BufferSlice { offset: 0, length: 10 }));
}

#[test]
fn the_tick_spawns_what_is_missing() {
    let mut m = Granulator::new(FS);
    let buffer = [0_f32; 1000];
    m.set_audio_buffer(&buffer);
    m.set_active_grains(3);
    m.set_delay(Duration::from_millis(5));
    assert_eq!(m.count_to_spawn(), 3);

    // three grains wait for their start
    m.tick(1_000_000);
    assert_eq!(m.scheduler.pending(), 3);
    assert_eq!(m.count_to_spawn(), 0);
    assert!(m.grains.get_grains().is_empty());
    assert_eq!(m.current_id_counter, 3);

    // nothing is missing, nothing is due
    m.tick(1_000_000);
    assert_eq!(m.scheduler.len(), 3);
    assert_eq!(m.current_id_counter, 3);

    // the three are due: they start, and grains are missing again
    m.tick(3_000_000);
    assert_eq!(m.grains.get_grains().len(), 3);
    assert_eq!(m.scheduler.pending(), 0);
    assert_eq!(m.count_to_spawn(), 3);
    assert_eq!(m.grains.get_grains()[2].id, 2);
    assert_eq!(
        m.grains.get_grains()[0].source_sub_slice,
        BufferSlice { offset: 0, length: 480 }
    );
}

#[test]
fn a_grain_is_cut_to_the_buffer() {
    let mut m = Granulator::new(FS);
    let buffer = [0_f32; 1000];
    m.set_audio_buffer(&buffer);

    assert_eq!(m.activate_grain(1, 900, 480, WindowFunction::Tukey), Ok(()));
    assert_eq!(m.activate_grain(2, 5000, 480, WindowFunction::Tukey), Ok(()));
    assert_eq!(
        m.grains.get_grains()[0].source_sub_slice,
        BufferSlice { offset: 900, length: 100 }
    );
    assert_eq!(
        m.grains.get_grains()[1].source_sub_slice,
        BufferSlice { offset: 999, length: 1 }
    );
    assert_eq!(m.grains.get_grains()[1].window, WindowFunction::Tukey);

    for id in 3..=MAX_GRAINS {
        assert_eq!(m.activate_grain(id, 0, 10, WindowFunction::Sine), Ok(()));
    }
    assert_eq!(
        m.activate_grain(MAX_GRAINS + 1, 0, 10, WindowFunction::Sine),
        Err(MAX_GRAINS + 1)
    );
}

#[test]
fn spawning_one_grain_reports_its_identifier() {
    let mut m = Granulator::new(FS);
    for id in 0..MAX_GRAINS {
        assert_eq!(m.spawn_future_grain(1_000), Ok(id));
    }
    assert_eq!(m.spawn_future_grain(1_000), Err(MAX_GRAINS));
    assert_eq!(m.current_id_counter, MAX_GRAINS + 1);
    assert_eq!(m.scheduler.future_vector[7].start, 1_000);
}

#[test]
fn the_identifier_counter_wraps() {
    let mut m = Granulator::new(FS);
    m.current_id_counter = usize::MAX - 1;
    assert_eq!(m.get_new_id(), usize::MAX - 1);
    assert_eq!(m.current_id_counter, 1);
    assert_eq!(m.get_new_id(), 1);
    assert_eq!(m.current_id_counter, 2);
}

#[test]
fn randomized_values_stay_in_range() {
    let mut m = Granulator::new(FS);
    let buffer = [0_f32; 5000];
    assert_eq!(m.get_new_offset(250), 0);
    assert_eq!(m.get_new_grain_size(-80), 480);

    m.set_audio_buffer(&buffer);
    m.set_offset(2000);
    m.set_grain_size_in_samples(480);
    m.set_delay(Duration::from_millis(2));

    assert_eq!(m.get_new_offset(250), 2250);
    assert_eq!(m.get_new_offset(-2500), 0);
    assert_eq!(m.get_new_offset(1999), 3999);
    assert_eq!(m.get_new_offset(2500), 3999);
    assert_eq!(m.get_new_offset(isize::MAX), 3999);

    assert_eq!(m.get_new_grain_size(-80), 400);
    assert_eq!(m.get_new_grain_size(-481), 0);
    assert_eq!(m.get_new_grain_size(5000), 5000);

    assert_eq!(m.get_new_delay(0), 2_000_000);
    assert_eq!(m.get_new_delay(3), 5_000_000);

    let short = [0_f32; 500];
    m.set_audio_buffer(&short);
    assert_eq!(m.get_new_offset(0), 0);
}

#[test]
fn the_books_stay_in_order() {
    let mut m = Granulator::new(FS);
    let buffer = [0_f32; 2000];
    m.set_audio_buffer(&buffer);
    m.set_active_grains(7);
    m.set_grain_size_in_samples(30);
    m.set_delay(Duration::from_millis(3));

    for round in 0..300 {
        m.tick(1_000_000);

        let entries = &m.scheduler.future_vector;
        let grains = m.grains.get_grains();
        for (i, entry) in entries.iter().enumerate() {
            assert!(entry.id < m.current_id_counter);
            assert!(entries.iter().skip(i + 1).all(|other| other.id != entry.id));
        }
        for (i, grain) in grains.iter().enumerate() {
            // a tick leaves no finished grain behind
            assert!(!grain.finished);
            assert!(grains.iter().skip(i + 1).all(|other| other.id != grain.id));
            assert!(entries
                .iter()
                .any(|entry| entry.id == grain.id && entry.started));
        }

        for _ in 0..(round % 17) {
            update_envolopes(&mut m.grains);
        }
    }
    assert!(m.current_id_counter > MAX_GRAINS);
}

#[test]
fn finished_grains_and_their_entries_leave() {
    let mut m = Granulator::new(FS);
    let buffer = [0_f32; 100];
    m.set_audio_buffer(&buffer);
    m.scheduler.schedule(1, 0).unwrap();
    m.scheduler.schedule(2, 0).unwrap();
    m.scheduler.schedule(3, 0).unwrap();
    m.scheduler.schedule(4, 50).unwrap();
    let ids = m.scheduler.advance(1);
    assert_eq!(ids.as_slice(), &[1, 2, 3]);
    m.activate_grain(1, 0, 2, WindowFunction::Sine).unwrap();
    m.activate_grain(2, 0, 9, WindowFunction::Sine).unwrap();
    m.activate_grain(3, 0, 1, WindowFunction::Sine).unwrap();

    for _ in 0..3 {
        update_envolopes(&mut m.grains);
    }
    m.remove_finished_grains();

    assert_eq!(m.grains.get_grains().len(), 1);
    assert_eq!(m.grains.get_grains()[0].id, 2);
    assert_eq!(m.grains.get_grains()[0].envelope_position, 3);
    assert_eq!(m.scheduler.len(), 2);
    assert_eq!(m.scheduler.future_vector[0].id, 2);
    assert_eq!(m.scheduler.future_vector[1].id, 4);
    assert_eq!(m.scheduler.pending(), 1);
}
