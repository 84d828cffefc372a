use core::time::Duration;
use granulator::manager::Granulator;
use granulator::scheduler::{Scheduler, TimeInfo};
use granulator::window_function::WindowFunction;
use granulator::MAX_GRAINS;

#[test]
fn schedule_a_grain() {
    let mut s = Scheduler::new();

    s.schedule_grain(0, Duration::ZERO).unwrap();

    assert!(!s.future_vector.is_empty());
    assert!(s.future_vector[0].id == 0);
}

#[test]
fn update_the_clock() {
    let mut s = Scheduler::new();

    s.schedule_grain(0, Duration::ZERO).unwrap();

    let ids = s.update_clock(Duration::from_millis(10));

    assert!(!ids.is_empty());
    assert!(ids[0] == 0);
}

#[test]
fn remove_a_grain() {
    let mut s = Scheduler::new();

    s.schedule_grain(0, Duration::ZERO).unwrap();

    let ids = s.update_clock(Duration::from_millis(10));

    assert!(!s.future_vector.is_empty());
    s.remove_grain(ids[0]).unwrap();
    assert!(s.future_vector.is_empty());
}

#[test]
fn spawn_grain() {
    let mut m = Granulator::new(48_000);
    let buffer = [0.0_f32; 100];
    m.set_audio_buffer(&buffer);

    assert!(m.activate_grain(0, 0, 48, WindowFunction::Sine).is_ok());
    assert_eq!(m.grains.get_grains().len(), 1);
    assert_eq!(m.grains.get_grains()[0].id, 0);
}

#[test]
fn delayed_spawn() {
    let delay = 1000;

    let mut s = Scheduler::new();

    let index = 7;

    // schedule new grain
    assert!(s
        .schedule_grain(index, Duration::from_millis(delay))
        .is_ok());

    for _ in 0..delay - 1 {
        let ids = s.update_clock(Duration::from_millis(1));

        assert!(ids.is_empty());
    }

    let ids = s.update_clock(Duration::from_millis(1));

    assert_eq!(ids.as_slice(), &[index]);
}

#[test]
fn automated_removal_of_a_finished_grain() {
    let mut m = Granulator::new(48_000);
    let buffer = [0.0_f32; 1024];
    m.set_audio_buffer(&buffer);

    // immediatly start grain and update clock to spawn the grain
    m.update_scheduler(Duration::from_millis(1));
    assert_eq!(m.grains.get_grains().len(), 1);
    let id = m.grains.get_grains()[0].id;

    // setup buffer size
    const BUFFER_LENGTH: usize = 512;

    // grain size needs to be smaller than buffer length for it to finish in one callback
    assert!(
        granulator::grain_vector::get_grain(&m.grains, id)
            .unwrap()
            .get_grain_size_in_samples()
            < BUFFER_LENGTH
    );

    // simulate audio callback
    for _ in 0..BUFFER_LENGTH {
        granulator::grain_vector::update_envolopes(&mut m.grains);
    }

    // grain should exist before clock update
    assert!(granulator::grain_vector::get_grain(&m.grains, id).is_ok());

    m.update_scheduler(Duration::from_millis(1));

    // grain should be removed after clock update
    assert!(granulator::grain_vector::get_grain(&m.grains, id).is_err());
}

#[test]
fn entry_due_exactly_at_the_clock_is_reported() {
    let mut s = Scheduler::new();
    s.schedule(3, 5_000).unwrap();

    assert!(s.advance(4_999).is_empty());
    assert_eq!(s.master_clock_counter, 4_999);

    let ids = s.advance(1);
    assert_eq!(ids.as_slice(), &[3]);
    assert_eq!(s.master_clock_counter, 5_000);
    assert_eq!(
        s.future_vector[0],
        TimeInfo {
            id: 3,
            start: 5_000,
            started: true
        }
    );
}

#[test]
fn scheduled_without_delay_is_reported_exactly_once() {
    let mut s = Scheduler::new();
    s.schedule(1, 1_000_000).unwrap();
    s.schedule(9, 0).unwrap();

    let first = s.advance(1);
    assert_eq!(first.as_slice(), &[9]);

    let second = s.advance(10);
    assert!(second.is_empty());

    let third = s.advance(1_000_000);
    assert_eq!(third.as_slice(), &[1]);
    assert_eq!(s.pending(), 0);
    assert_eq!(s.len(), 2);
}

#[test]
fn due_entries_are_reported_in_queue_order() {
    let mut s = Scheduler::new();
    s.schedule(4, 30).unwrap();
    s.schedule(2, 10).unwrap();
    s.schedule(8, 50).unwrap();
    s.schedule(6, 20).unwrap();
    assert_eq!(s.pending(), 4);

    let ids = s.advance(30);
    assert_eq!(ids.as_slice(), &[4, 2, 6]);
    assert_eq!(s.pending(), 1);
}

#[test]
fn schedule_fails_when_the_queue_is_full() {
    let mut s = Scheduler::new();
    for id in 0..MAX_GRAINS {
        assert!(s.schedule(id, 0).is_ok());
    }
    let refused = s.schedule(MAX_GRAINS, 7).unwrap_err();
    assert_eq!(
        refused,
        TimeInfo {
            id: MAX_GRAINS,
            start: 7,
            started: false
        }
    );
    assert_eq!(s.len(), MAX_GRAINS);

    s.remove_grain(10).unwrap();
    assert!(s.schedule(MAX_GRAINS, 7).is_ok());
}

#[test]
fn retire_removes_the_oldest_entry_only() {
    let mut s = Scheduler::new();
    s.schedule(5, 1).unwrap();
    s.schedule(6, 2).unwrap();
    s.schedule(5, 3).unwrap();

    assert_eq!(s.remove_grain(7), Err(7));
    assert_eq!(s.len(), 3);

    assert_eq!(s.remove_grain(5), Ok(()));
    assert_eq!(s.len(), 2);
    assert_eq!(s.future_vector[0], TimeInfo::new(6, 2));
    assert_eq!(s.future_vector[1], TimeInfo::new(5, 3));
}

#[test]
fn the_clock_stops_at_its_largest_value() {
    let mut s = Scheduler::new();
    s.advance(u128::MAX - 1);
    s.schedule(1, 5).unwrap();
    assert_eq!(s.future_vector[0].start, u128::MAX);

    let ids = s.advance(9);
    assert_eq!(s.master_clock_counter, u128::MAX);
    assert_eq!(ids.as_slice(), &[1]);
}

#[test]
fn a_duration_counts_in_nanoseconds() {
    let mut s = Scheduler::new();
    s.update_clock(Duration::from_millis(20));
    assert_eq!(s.master_clock_counter, 20_000_000);

    s.schedule_grain(2, Duration::from_micros(3)).unwrap();
    assert_eq!(s.future_vector[0].start, 20_003_000);
}
