//! The orchestrator: it owns the view of the sample buffer, the grain
//! collection and the scheduler, and runs the control tick that schedules
//! new grains, starts those that are due and retires the finished ones.

use crate::grain::Grain;
use crate::grains_vector::{finished_ids, without_grain, GrainsVector};
use crate::pointer_wrapper::BufferSlice;
use crate::scheduler::{
    clock_after, due_ids, marked_entries, pending_count, without_entry, Scheduler, TimeInfo,
};
use crate::storage::{duration_nanos, id_items, ids_as_slice, nanos_of, MAX_GRAINS};
use crate::window_function::WindowFunction;
use core::time::Duration;
use vstd::prelude::*;

verus! {

/// The sample rates that are accepted lie strictly between these two.
pub const MIN_SAMPLE_RATE: usize = 8_000;

pub const MAX_SAMPLE_RATE: usize = 192_000;

/// The control values that decide how many grains are born, and where in
/// the buffer and when they start.
#[derive(Debug, Clone, Copy, PartialEq, Eq, Structural)]
pub struct Parameters {
    pub active_grains: usize,
    pub offset: usize,
    pub grain_size_in_samples: usize,
    /// The delay between scheduling and start, in nanoseconds.
    pub delay: u128,
}

/// The brain of the granular synthesis algorithm.
#[derive(Debug)]
pub struct Granulator {
    pub scheduler: Scheduler,
    pub grains: GrainsVector,
    /// The view of the whole sample buffer, once one has been set.
    pub audio_buffer: Option<BufferSlice>,
    pub settings: Parameters,
    pub current_id_counter: usize,
    pub fs: usize,
}

/// A sample rate is valid strictly between 8 kHz and 192 kHz.
pub open spec fn valid_sample_rate(fs: usize) -> bool {
    MIN_SAMPLE_RATE < fs && fs < MAX_SAMPLE_RATE
}

/// The identifier counter after it has handed out one identifier. It
/// starts over before it would reach the largest value.
pub open spec fn next_counter(counter: usize) -> usize {
    if counter >= usize::MAX - 1 {
        1
    } else {
        (counter + 1) as usize
    }
}

/// The identifier counter after it has handed out `count` identifiers.
pub open spec fn counter_after(counter: usize, count: nat) -> usize
    decreases count,
{
    if count == 0 {
        counter
    } else {
        next_counter(counter_after(counter, (count - 1) as nat))
    }
}

/// How many grains a control tick schedules: the target number of active
/// grains less those that already wait for their start, and never less
/// than none.
pub open spec fn grains_to_spawn(active_grains: usize, pending: nat) -> nat {
    if active_grains > pending {
        (active_grains - pending) as nat
    } else {
        0
    }
}

/// How many more items a bounded vector that holds `len` items takes.
pub open spec fn room_left(len: nat) -> nat {
    if len < MAX_GRAINS {
        (MAX_GRAINS - len) as nat
    } else {
        0
    }
}

/// The queue after `count` grains have been scheduled for the clock value
/// `start`, under the identifiers that the counter hands out from
/// `counter` on: the entries of those grains follow the earlier ones, as
/// far as the queue has room. The grains beyond that are dropped.
pub open spec fn spawned_entries(
    entries: Seq<TimeInfo>,
    start: u128,
    counter: usize,
    count: nat,
) -> Seq<TimeInfo> {
    let queued = if count < room_left(entries.len()) {
        count
    } else {
        room_left(entries.len())
    };
    entries + Seq::new(
        queued,
        |k: int| TimeInfo { id: counter_after(counter, k as nat), start, started: false },
    )
}

/// The collection after a fresh grain over `view` has been asked for under
/// each of `ids` in turn: the new grains follow the earlier ones, as far
/// as the collection has room. The grains beyond that are dropped.
pub open spec fn activated_grains(
    grains: Seq<Grain>,
    ids: Seq<usize>,
    view: BufferSlice,
    window: WindowFunction,
) -> Seq<Grain> {
    let born = if ids.len() < room_left(grains.len()) {
        ids.len()
    } else {
        room_left(grains.len())
    };
    grains + Seq::new(
        born,
        |k: int|
            Grain { window, envelope_position: 0, source_sub_slice: view, finished: false, id: ids[k] },
    )
}

/// The queue after the oldest entry of each of `ids` has been removed in
/// turn.
pub open spec fn retired_entries(entries: Seq<TimeInfo>, ids: Seq<usize>) -> Seq<TimeInfo>
    decreases ids.len(),
{
    if ids.len() == 0 {
        entries
    } else {
        without_entry(retired_entries(entries, ids.drop_last()), ids.last())
    }
}

/// The collection after the first grain of each of `ids` has been removed
/// in turn.
pub open spec fn retired_grains(grains: Seq<Grain>, ids: Seq<usize>) -> Seq<Grain>
    decreases ids.len(),
{
    if ids.len() == 0 {
        grains
    } else {
        without_grain(retired_grains(grains, ids.drop_last()), ids.last())
    }
}

/// The grain size that fits a buffer of `buffer_length` samples behind
/// `offset`: `size` itself, cut back to the samples that are left.
pub open spec fn fitted_grain_size(size: usize, buffer_length: usize, offset: usize) -> usize {
    let room = if buffer_length > offset {
        buffer_length - offset
    } else {
        0
    };
    if size >= room {
        room as usize
    } else {
        size
    }
}

/// A length in milliseconds as a number of samples at the rate `fs`,
/// rounded down.
pub open spec fn samples_in(fs: usize, milliseconds: usize) -> nat {
    ((fs * milliseconds) / 1000) as nat
}

/// A randomized offset leaves more than this number of samples behind it
/// in the buffer.
pub const MIN_GRAIN_ROOM: usize = 1000;

/// The offset `base` moved by `displacement` samples and brought back
/// into its valid range: not negative, and with more than
/// `MIN_GRAIN_ROOM` samples of the buffer left behind it. In a buffer too
/// short for that the offset is 0.
pub open spec fn spread_offset_of(base: usize, displacement: isize, buffer_length: usize) -> usize {
    let moved = base + displacement;
    let limit = if buffer_length > MIN_GRAIN_ROOM {
        buffer_length - MIN_GRAIN_ROOM - 1
    } else {
        0
    };
    if moved < 0 {
        0
    } else if moved > limit {
        limit as usize
    } else {
        moved as usize
    }
}

/// The grain size `base` changed by `displacement` samples, kept between
/// nothing and the `buffer_length` samples of the buffer.
pub open spec fn spread_grain_size_of(base: usize, displacement: isize, buffer_length: usize) -> usize {
    let moved = base + displacement;
    if moved < 0 {
        0
    } else if moved > buffer_length {
        buffer_length
    } else {
        moved as usize
    }
}

/// The delay `base`, in nanoseconds, lengthened by `milliseconds`.
pub open spec fn spread_delay_of(base: u128, milliseconds: u64) -> u128 {
    clock_after(base, (milliseconds * 1_000_000) as u128)
}

/// What a control tick works on: the clock, the schedule, the live grains
/// and the identifier counter.
pub struct Lifecycle {
    pub clock: u128,
    pub entries: Seq<TimeInfo>,
    pub grains: Seq<Grain>,
    pub counter: usize,
}

impl Granulator {
    /// The state that a control tick works on.
    pub open spec fn lifecycle(&self) -> Lifecycle {
        Lifecycle {
            clock: self.scheduler.master_clock_counter,
            entries: self.scheduler.entries(),
            grains: self.grains.items(),
            counter: self.current_id_counter,
        }
    }

    /// The state after a control tick of `time_step` nanoseconds. With a
    /// buffer, the tick first schedules the grains that are missing, then
    /// advances the clock and starts the grains that are due, and at last
    /// retires the grains that have finished. Without a buffer it does
    /// nothing.
    pub open spec fn ticked(&self, time_step: u128) -> Lifecycle {
        match self.audio_buffer {
            None => self.lifecycle(),
            Some(view) => {
                let count = grains_to_spawn(
                    self.settings.active_grains,
                    pending_count(self.scheduler.entries()),
                );
                let spawned = spawned_entries(
                    self.scheduler.entries(),
                    clock_after(self.scheduler.master_clock_counter, self.settings.delay),
                    self.current_id_counter,
                    count,
                );
                let clock = clock_after(self.scheduler.master_clock_counter, time_step);
                let born = activated_grains(
                    self.grains.items(),
                    due_ids(spawned, clock),
                    view.sub_slice(self.settings.offset, self.settings.grain_size_in_samples),
                    WindowFunction::Sine,
                );
                Lifecycle {
                    clock,
                    entries: retired_entries(marked_entries(spawned, clock), finished_ids(born)),
                    grains: retired_grains(born, finished_ids(born)),
                    counter: counter_after(self.current_id_counter, count),
                }
            },
        }
    }

    /// The view of the sample buffer can be addressed.
    pub open spec fn wf(&self) -> bool {
        self.audio_buffer matches Some(view) ==> view.wf()
    }

    /// Constructs the granulator for the sample rate `fs`: no buffer, no
    /// grains, an empty schedule at clock zero, one active grain of 480
    /// samples without offset or delay.
    pub fn new(fs: usize) -> (g: Granulator)
        ensures
            g.wf(),
            g.fs == fs,
            g.audio_buffer.is_none(),
            g.current_id_counter == 0,
            g.scheduler.master_clock_counter == 0,
            g.scheduler.entries() == Seq::<TimeInfo>::empty(),
            g.grains.items() == Seq::<Grain>::empty(),
            g.settings == (Parameters {
                active_grains: 1,
                offset: 0,
                grain_size_in_samples: 480,
                delay: 0,
            }),
    {
        Granulator {
            scheduler: Scheduler::new(),
            grains: GrainsVector::new(),
            audio_buffer: None,
            settings: Parameters {
                active_grains: 1,
                offset: 0,
                grain_size_in_samples: 480,
                delay: 0,
            },
            current_id_counter: 0,
            fs,
        }
    }

    /// Sets the sample rate. A rate that is not valid is handed back and
    /// the rate in use stays as it was. Nothing else changes either way.
    pub fn set_sample_rate(&mut self, fs: usize) -> (r: Result<(), usize>)
        ensures
            r.is_ok() <==> valid_sample_rate(fs),
            r.is_ok() ==> final(self).fs == fs,
            r matches Err(refused) ==> refused == fs && final(self).fs == old(self).fs,
            final(self).scheduler == old(self).scheduler,
            final(self).grains == old(self).grains,
            final(self).audio_buffer == old(self).audio_buffer,
            final(self).settings == old(self).settings,
            final(self).current_id_counter == old(self).current_id_counter,
    {
        if fs > MIN_SAMPLE_RATE && fs < MAX_SAMPLE_RATE {
            self.fs = fs;
            Ok(())
        } else {
            Err(fs)
        }
    }

    /// Sets a new audio buffer for the algorithm to work on. The grains
    /// that played the buffer before are flushed.
    pub fn set_audio_buffer<T>(&mut self, buffer: &[T])
        ensures
            final(self).wf(),
            final(self).audio_buffer == Some(
                BufferSlice { offset: 0, length: buffer@.len() as usize },
            ),
            final(self).grains.items() == Seq::<Grain>::empty(),
            final(self).scheduler == old(self).scheduler,
            final(self).settings == old(self).settings,
            final(self).current_id_counter == old(self).current_id_counter,
            final(self).fs == old(self).fs,
    {
        self.grains.flush();
        self.audio_buffer = Some(BufferSlice::from_slice(buffer));
    }

    /// Sets the target number of active grains, at most `MAX_GRAINS`.
    /// Without a buffer nothing is set.
    pub fn set_active_grains(&mut self, active_grains: usize)
        ensures
            final(self).settings == (if old(self).audio_buffer.is_some() {
                Parameters {
                    active_grains: if active_grains > MAX_GRAINS {
                        MAX_GRAINS
                    } else {
                        active_grains
                    },
                    ..old(self).settings
                }
            } else {
                old(self).settings
            }),
            final(self).scheduler == old(self).scheduler,
            final(self).grains == old(self).grains,
            final(self).audio_buffer == old(self).audio_buffer,
            final(self).current_id_counter == old(self).current_id_counter,
            final(self).fs == old(self).fs,
    {
        if self.audio_buffer.is_some() {
            self.settings.active_grains = if active_grains > MAX_GRAINS {
                MAX_GRAINS
            } else {
                active_grains
            };
        }
    }

    /// Sets the offset into the buffer at which grains start, at most the
    /// length of the buffer. Without a buffer nothing is set.
    pub fn set_offset(&mut self, offset: usize)
        ensures
            final(self).settings == (match old(self).audio_buffer {
                Some(view) => Parameters {
                    offset: if offset > view.length {
                        view.length
                    } else {
                        offset
                    },
                    ..old(self).settings
                },
                None => old(self).settings,
            }),
            final(self).scheduler == old(self).scheduler,
            final(self).grains == old(self).grains,
            final(self).audio_buffer == old(self).audio_buffer,
            final(self).current_id_counter == old(self).current_id_counter,
            final(self).fs == old(self).fs,
    {
        match self.audio_buffer {
            Some(view) => {
                self.settings.offset = if offset > view.length {
                    view.length
                } else {
                    offset
                };
            },
            None => {},
        }
    }

    /// Sets the grain size in samples, cut back to what is left of the
    /// buffer behind the offset. Without a buffer nothing is set.
    pub fn set_grain_size_in_samples(&mut self, size: usize)
        ensures
            final(self).settings == (match old(self).audio_buffer {
                Some(view) => Parameters {
                    grain_size_in_samples: fitted_grain_size(
                        size,
                        view.length,
                        old(self).settings.offset,
                    ),
                    ..old(self).settings
                },
                None => old(self).settings,
            }),
            final(self).scheduler == old(self).scheduler,
            final(self).grains == old(self).grains,
            final(self).audio_buffer == old(self).audio_buffer,
            final(self).current_id_counter == old(self).current_id_counter,
            final(self).fs == old(self).fs,
    {
        match self.audio_buffer {
            Some(view) => {
                let room = if view.length > self.settings.offset {
                    view.length - self.settings.offset
                } else {
                    0
                };
                self.settings.grain_size_in_samples = if size >= room {
                    room
                } else {
                    size
                };
            },
            None => {},
        }
    }

    /// Sets the grain size in whole milliseconds at the current sample
    /// rate, cut back to what is left of the buffer behind the offset.
    /// Without a buffer nothing is set.
    pub fn set_grain_size(&mut self, milliseconds: usize)
        ensures
            final(self).settings == (match old(self).audio_buffer {
                Some(view) => Parameters {
                    grain_size_in_samples: if samples_in(old(self).fs, milliseconds)
                        > usize::MAX {
                        fitted_grain_size(usize::MAX, view.length, old(self).settings.offset)
                    } else {
                        fitted_grain_size(
                            samples_in(old(self).fs, milliseconds) as usize,
                            view.length,
                            old(self).settings.offset,
                        )
                    },
                    ..old(self).settings
                },
                None => old(self).settings,
            }),
            final(self).scheduler == old(self).scheduler,
            final(self).grains == old(self).grains,
            final(self).audio_buffer == old(self).audio_buffer,
            final(self).current_id_counter == old(self).current_id_counter,
            final(self).fs == old(self).fs,
    {
        let fs: u128 = self.fs as u128;
        let ms: u128 = milliseconds as u128;
        assert(fs * ms <= u128::MAX) by (nonlinear_arith)
            requires
                fs <= u64::MAX,
                ms <= u64::MAX,
        ;
        let samples: u128 = fs * ms / 1000;
        let size: usize = if samples > usize::MAX as u128 {
            usize::MAX
        } else {
            samples as usize
        };
        self.set_grain_size_in_samples(size);
    }

    /// Sets the delay between the scheduling of a grain and its start.
    /// Without a buffer nothing is set.
    pub fn set_delay(&mut self, delay: Duration)
        ensures
            final(self).settings == (if old(self).audio_buffer.is_some() {
                Parameters { delay: duration_nanos(delay), ..old(self).settings }
            } else {
                old(self).settings
            }),
            final(self).scheduler == old(self).scheduler,
            final(self).grains == old(self).grains,
            final(self).audio_buffer == old(self).audio_buffer,
            final(self).current_id_counter == old(self).current_id_counter,
            final(self).fs == old(self).fs,
    {
        if self.audio_buffer.is_some() {
            self.settings.delay = nanos_of(delay);
        }
    }

    /// Hands out the next grain identifier.
    pub fn get_new_id(&mut self) -> (id: usize)
        ensures
            id == old(self).current_id_counter,
            final(self).current_id_counter == next_counter(old(self).current_id_counter),
            final(self).scheduler == old(self).scheduler,
            final(self).grains == old(self).grains,
            final(self).audio_buffer == old(self).audio_buffer,
            final(self).settings == old(self).settings,
            final(self).fs == old(self).fs,
    {
        let current_id = self.current_id_counter;
        if self.current_id_counter >= usize::MAX - 1 {
            self.current_id_counter = 0;
        }
        self.current_id_counter = self.current_id_counter + 1;
        current_id
    }

    /// How many grains the next control tick schedules.
    pub fn count_to_spawn(&self) -> (count: usize)
        ensures
            count == grains_to_spawn(
                self.settings.active_grains,
                pending_count(self.scheduler.entries()),
            ),
    {
        let pending = self.scheduler.pending();
        if self.settings.active_grains > pending {
            self.settings.active_grains - pending
        } else {
            0
        }
    }

    /// Schedules one grain under a new identifier, to start `delay`
    /// nanoseconds from now, and returns the identifier: as `Ok` when the
    /// grain was queued, as `Err` when the queue was full and the grain
    /// was dropped.
    pub fn spawn_future_grain(&mut self, delay: u128) -> (r: Result<usize, usize>)
        ensures
            r.is_ok() <==> old(self).scheduler.entries().len() < MAX_GRAINS,
            r matches Ok(id) ==> id == old(self).current_id_counter,
            r matches Err(id) ==> id == old(self).current_id_counter,
            final(self).scheduler.entries() == spawned_entries(
                old(self).scheduler.entries(),
                clock_after(old(self).scheduler.master_clock_counter, delay),
                old(self).current_id_counter,
                1,
            ),
            final(self).scheduler.master_clock_counter == old(
                self,
            ).scheduler.master_clock_counter,
            final(self).current_id_counter == next_counter(old(self).current_id_counter),
            final(self).grains == old(self).grains,
            final(self).audio_buffer == old(self).audio_buffer,
            final(self).settings == old(self).settings,
            final(self).fs == old(self).fs,
    {
        let id = self.get_new_id();
        let ghost before = self.scheduler.entries();
        let ghost start = clock_after(self.scheduler.master_clock_counter, delay);
        let queued = self.scheduler.schedule(id, delay);
        proof {
            assert(self.scheduler.entries() =~= spawned_entries(before, start, id, 1));
        }
        match queued {
            Ok(()) => Ok(id),
            Err(_) => Err(id),
        }
    }

    /// Schedules as many grains as the target number of active grains
    /// exceeds the number of grains that wait for their start, each under
    /// a new identifier and with the configured delay.
    pub fn spawn_future_grains(&mut self)
        ensures
            final(self).scheduler.entries() == spawned_entries(
                old(self).scheduler.entries(),
                clock_after(old(self).scheduler.master_clock_counter, old(self).settings.delay),
                old(self).current_id_counter,
                grains_to_spawn(
                    old(self).settings.active_grains,
                    pending_count(old(self).scheduler.entries()),
                ),
            ),
            final(self).current_id_counter == counter_after(
                old(self).current_id_counter,
                grains_to_spawn(
                    old(self).settings.active_grains,
                    pending_count(old(self).scheduler.entries()),
                ),
            ),
            final(self).scheduler.master_clock_counter == old(
                self,
            ).scheduler.master_clock_counter,
            final(self).grains == old(self).grains,
            final(self).audio_buffer == old(self).audio_buffer,
            final(self).settings == old(self).settings,
            final(self).fs == old(self).fs,
    {
        let to_be_spawned = self.count_to_spawn();
        let delay = self.settings.delay;
        let ghost start = clock_after(self.scheduler.master_clock_counter, delay);
        let mut i: usize = 0;
        while i < to_be_spawned
            invariant
                i <= to_be_spawned,
                delay == old(self).settings.delay,
                start == clock_after(old(self).scheduler.master_clock_counter, delay),
                self.scheduler.entries() == spawned_entries(
                    old(self).scheduler.entries(),
                    start,
                    old(self).current_id_counter,
                    i as nat,
                ),
                self.current_id_counter == counter_after(old(self).current_id_counter, i as nat),
                self.scheduler.master_clock_counter == old(self).scheduler.master_clock_counter,
                self.grains == old(self).grains,
                self.audio_buffer == old(self).audio_buffer,
                self.settings == old(self).settings,
                self.fs == old(self).fs,
            decreases to_be_spawned - i,
        {
            let id = self.get_new_id();
            let _ = self.scheduler.schedule(id, delay);
            i = i + 1;
            proof {
                assert(self.scheduler.entries() =~= spawned_entries(
                    old(self).scheduler.entries(),
                    start,
                    old(self).current_id_counter,
                    i as nat,
                ));
            }
        }
    }

    /// Adds a fresh grain under the identifier `id` over the window of the
    /// buffer that starts at `offset` and spans `grain_size` samples, both
    /// clamped to the buffer. Fails with the identifier when the
    /// collection is full. Without a buffer nothing happens.
    pub fn activate_grain(
        &mut self,
        id: usize,
        offset: usize,
        grain_size: usize,
        window: WindowFunction,
    ) -> (r: Result<(), usize>)
        requires
            old(self).wf(),
        ensures
            final(self).wf(),
            r.is_err() <==> old(self).audio_buffer.is_some() && old(self).grains.items().len()
                >= MAX_GRAINS,
            r matches Err(refused) ==> refused == id,
            final(self).grains.items() == (match old(self).audio_buffer {
                Some(view) => activated_grains(
                    old(self).grains.items(),
                    seq![id],
                    view.sub_slice(offset, grain_size),
                    window,
                ),
                None => old(self).grains.items(),
            }),
            final(self).scheduler == old(self).scheduler,
            final(self).audio_buffer == old(self).audio_buffer,
            final(self).settings == old(self).settings,
            final(self).current_id_counter == old(self).current_id_counter,
            final(self).fs == old(self).fs,
    {
        match self.audio_buffer {
            Some(view) => {
                let mut start = offset;
                let mut length = grain_size;
                let sub_slice = view.get_sub_slice(&mut start, &mut length);
                let ghost before = self.grains.items();
                let pushed = self.grains.push_grain(id, sub_slice, window);
                proof {
                    assert(self.grains.items() =~= activated_grains(
                        before,
                        seq![id],
                        sub_slice,
                        window,
                    ));
                }
                pushed
            },
            None => Ok(()),
        }
    }

    /// Starts a grain for each of `ids`, in turn, at the configured offset
    /// and with the configured size and a sine window. A grain that finds
    /// the collection full is dropped. Without a buffer nothing happens.
    pub fn activate_grains(&mut self, ids: &heapless::Vec<usize, MAX_GRAINS>)
        requires
            old(self).wf(),
        ensures
            final(self).wf(),
            final(self).grains.items() == (match old(self).audio_buffer {
                Some(view) => activated_grains(
                    old(self).grains.items(),
                    id_items(*ids),
                    view.sub_slice(
                        old(self).settings.offset,
                        old(self).settings.grain_size_in_samples,
                    ),
                    WindowFunction::Sine,
                ),
                None => old(self).grains.items(),
            }),
            final(self).scheduler == old(self).scheduler,
            final(self).audio_buffer == old(self).audio_buffer,
            final(self).settings == old(self).settings,
            final(self).current_id_counter == old(self).current_id_counter,
            final(self).fs == old(self).fs,
    {
        match self.audio_buffer {
            Some(view) => {
                let ids = ids_as_slice(ids);
                let mut start = self.settings.offset;
                let mut length = self.settings.grain_size_in_samples;
                let sub_slice = view.get_sub_slice(&mut start, &mut length);
                let mut i: usize = 0;
                while i < ids.len()
                    invariant
                        i <= ids.len(),
                        self.grains.items() == activated_grains(
                            old(self).grains.items(),
                            ids@.take(i as int),
                            sub_slice,
                            WindowFunction::Sine,
                        ),
                        self.scheduler == old(self).scheduler,
                        self.audio_buffer == old(self).audio_buffer,
                        self.settings == old(self).settings,
                        self.current_id_counter == old(self).current_id_counter,
                        self.fs == old(self).fs,
                    decreases ids.len() - i,
                {
                    let _ = self.grains.push_grain(ids[i], sub_slice, WindowFunction::Sine);
                    i = i + 1;
                    proof {
                        assert(self.grains.items() =~= activated_grains(
                            old(self).grains.items(),
                            ids@.take(i as int),
                            sub_slice,
                            WindowFunction::Sine,
                        ));
                    }
                }
                proof {
                    assert(ids@.take(ids@.len() as int) == ids@);
                }
            },
            None => {},
        }
    }

    /// Retires every finished grain: its oldest entry leaves the schedule
    /// and the grain leaves the collection.
    pub fn remove_finished_grains(&mut self)
        ensures
            final(self).scheduler.entries() == retired_entries(
                old(self).scheduler.entries(),
                finished_ids(old(self).grains.items()),
            ),
            final(self).grains.items() == retired_grains(
                old(self).grains.items(),
                finished_ids(old(self).grains.items()),
            ),
            final(self).scheduler.master_clock_counter == old(
                self,
            ).scheduler.master_clock_counter,
            final(self).audio_buffer == old(self).audio_buffer,
            final(self).settings == old(self).settings,
            final(self).current_id_counter == old(self).current_id_counter,
            final(self).fs == old(self).fs,
    {
        let finished = self.grains.finished();
        let remove_ids = ids_as_slice(&finished);
        let mut i: usize = 0;
        while i < remove_ids.len()
            invariant
                i <= remove_ids.len(),
                self.scheduler.entries() == retired_entries(
                    old(self).scheduler.entries(),
                    remove_ids@.take(i as int),
                ),
                self.grains.items() == retired_grains(
                    old(self).grains.items(),
                    remove_ids@.take(i as int),
                ),
                self.scheduler.master_clock_counter == old(self).scheduler.master_clock_counter,
                self.audio_buffer == old(self).audio_buffer,
                self.settings == old(self).settings,
                self.current_id_counter == old(self).current_id_counter,
                self.fs == old(self).fs,
            decreases remove_ids.len() - i,
        {
            proof {
                assert(remove_ids@.take(i + 1).drop_last() == remove_ids@.take(i as int));
            }
            let _ = self.scheduler.remove_grain(remove_ids[i]);
            let _ = self.grains.remove_grain(remove_ids[i]);
            i = i + 1;
        }
        proof {
            assert(remove_ids@.take(remove_ids@.len() as int) == remove_ids@);
        }
    }

    /// One control tick of `time_step` nanoseconds: schedules the grains
    /// that are missing, advances the clock, starts the grains that are
    /// due and retires the grains that have finished. Without a buffer
    /// nothing happens.
    pub fn tick(&mut self, time_step: u128)
        requires
            old(self).wf(),
        ensures
            final(self).wf(),
            final(self).lifecycle() == old(self).ticked(time_step),
            final(self).audio_buffer == old(self).audio_buffer,
            final(self).settings == old(self).settings,
            final(self).fs == old(self).fs,
    {
        if self.audio_buffer.is_some() {
            self.spawn_future_grains();
            let ids = self.scheduler.advance(time_step);
            self.activate_grains(&ids);
            self.remove_finished_grains();
        }
    }

    /// Updates the internal scheduler, which keeps track of which grain
    /// is started at which point in time, and removes every grain that
    /// has finished playing: [`Granulator::tick`] with the time step given
    /// as a `Duration`.
    pub fn update_scheduler(&mut self, time_step: Duration)
        requires
            old(self).wf(),
        ensures
            final(self).wf(),
            final(self).lifecycle() == old(self).ticked(duration_nanos(time_step)),
            final(self).audio_buffer == old(self).audio_buffer,
            final(self).settings == old(self).settings,
            final(self).fs == old(self).fs,
    {
        self.tick(nanos_of(time_step));
    }

    /// The offset for a grain whose offset is to lie `displacement`
    /// samples from the configured one. Without a buffer it is the
    /// configured offset.
    pub fn get_new_offset(&self, displacement: isize) -> (offset: usize)
        ensures
            offset == (match self.audio_buffer {
                Some(view) => spread_offset_of(self.settings.offset, displacement, view.length),
                None => self.settings.offset,
            }),
    {
        match self.audio_buffer {
            Some(view) => {
                let moved: i128 = self.settings.offset as i128 + displacement as i128;
                let limit: usize = if view.length > MIN_GRAIN_ROOM {
                    view.length - MIN_GRAIN_ROOM - 1
                } else {
                    0
                };
                if moved < 0 {
                    0
                } else if moved > limit as i128 {
                    limit
                } else {
                    moved as usize
                }
            },
            None => self.settings.offset,
        }
    }

    /// The size for a grain whose size is to differ by `displacement`
    /// samples from the configured one. Without a buffer it is the
    /// configured size.
    pub fn get_new_grain_size(&self, displacement: isize) -> (size: usize)
        ensures
            size == (match self.audio_buffer {
                Some(view) => spread_grain_size_of(
                    self.settings.grain_size_in_samples,
                    displacement,
                    view.length,
                ),
                None => self.settings.grain_size_in_samples,
            }),
    {
        match self.audio_buffer {
            Some(view) => {
                let moved: i128 = self.settings.grain_size_in_samples as i128
                    + displacement as i128;
                if moved < 0 {
                    0
                } else if moved > view.length as i128 {
                    view.length
                } else {
                    moved as usize
                }
            },
            None => self.settings.grain_size_in_samples,
        }
    }

    /// The delay, in nanoseconds, for a grain that is to start
    /// `milliseconds` later than the configured delay says.
    pub fn get_new_delay(&self, milliseconds: u64) -> (delay: u128)
        ensures
            delay == spread_delay_of(self.settings.delay, milliseconds),
    {
        let extra: u128 = milliseconds as u128 * 1_000_000;
        self.settings.delay.saturating_add(extra)
    }
}

} // verus!
