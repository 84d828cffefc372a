//! A single grain: the state machine that walks an envelope once over a
//! window of the sample buffer.

use crate::pointer_wrapper::BufferSlice;
use crate::window_function::WindowFunction;
use vstd::prelude::*;

verus! {

/// One grain. Its length in samples is the length of its view into the
/// sample buffer. While the grain is active its envelope position counts
/// the samples produced so far; once the position has reached the length
/// the grain is finished and stays so.
#[derive(Debug, Clone, Copy, PartialEq, Eq, Structural)]
pub struct Grain {
    pub window: WindowFunction,
    pub envelope_position: usize,
    pub source_sub_slice: BufferSlice,
    pub finished: bool,
    pub id: usize,
}

impl Grain {
    /// The position at which the window function is to be evaluated for
    /// the next sample, or `None` where the amplitude of that sample is
    /// exactly zero: the envelope has run to its end.
    pub open spec fn envelope_phase(self) -> Option<usize> {
        if !self.finished && self.envelope_position < self.source_sub_slice.length {
            Some(self.envelope_position)
        } else {
            None
        }
    }

    /// The grain after one envelope update.
    pub open spec fn envelope_updated(self) -> Grain {
        if self.finished {
            self
        } else if self.envelope_position < self.source_sub_slice.length {
            Grain { envelope_position: (self.envelope_position + 1) as usize, ..self }
        } else {
            Grain { finished: true, ..self }
        }
    }

    /// The grain after `count` envelope updates.
    pub open spec fn after_updates(self, count: nat) -> Grain
        decreases count,
    {
        if count == 0 {
            self
        } else {
            self.after_updates((count - 1) as nat).envelope_updated()
        }
    }

    /// The two buffer indices between which the source is interpolated at
    /// whole position `position`, or `None` for a grain over an empty view.
    pub open spec fn source_indices(self, position: usize) -> Option<(usize, usize)> {
        let view = self.source_sub_slice;
        if view.length == 0 {
            None
        } else {
            let first = view.clamped_position(position);
            Some(
                (
                    (view.offset + first) as usize,
                    (view.offset + view.clamped_position((first + 1) as usize)) as usize,
                ),
            )
        }
    }

    /// A fresh grain at the start of its envelope.
    pub fn new(id: usize, source_sub_slice: BufferSlice, window: WindowFunction) -> (grain: Grain)
        ensures
            grain == (Grain {
                window,
                envelope_position: 0,
                source_sub_slice,
                finished: false,
                id,
            }),
    {
        Grain { window, envelope_position: 0, source_sub_slice, finished: false, id }
    }

    /// The length of the grain in samples.
    pub fn get_grain_size_in_samples(&self) -> (size: usize)
        ensures
            size == self.source_sub_slice.length,
    {
        self.source_sub_slice.length
    }

    /// Moves the envelope on by one sample. Returns the position at which
    /// the window function is to be evaluated for this sample, or `None`
    /// where the amplitude is exactly zero. The update that finds the
    /// position at the grain's length finishes the grain; a finished grain
    /// does not change any more.
    pub fn update_envelope(&mut self) -> (phase: Option<usize>)
        ensures
            phase == old(self).envelope_phase(),
            *final(self) == old(self).envelope_updated(),
    {
        if self.finished {
            None
        } else if self.envelope_position < self.source_sub_slice.length {
            let position = self.envelope_position;
            self.envelope_position = position + 1;
            Some(position)
        } else {
            self.finished = true;
            None
        }
    }

    /// The buffer indices of the two samples between which the source is
    /// interpolated at whole position `position`. Both lie inside the
    /// grain's view: a position at or beyond its last sample reads that
    /// sample twice.
    pub fn interpolation_indices(&self, position: usize) -> (indices: Option<(usize, usize)>)
        requires
            self.source_sub_slice.wf(),
        ensures
            indices == self.source_indices(position),
            indices matches Some(pair) ==> {
                let view = self.source_sub_slice;
                &&& view.offset <= pair.0 < view.offset + view.length
                &&& view.offset <= pair.1 < view.offset + view.length
            },
    {
        let view = &self.source_sub_slice;
        if view.length == 0 {
            None
        } else {
            let first = if position < view.length {
                position
            } else {
                view.length - 1
            };
            let second = if first + 1 < view.length {
                first + 1
            } else {
                view.length - 1
            };
            Some((view.offset + first, view.offset + second))
        }
    }
}

/// A fresh grain of length `L` is still active after each of its first `L`
/// envelope updates, which evaluate the window at the positions `0` to
/// `L - 1` in turn. The update after those yields amplitude zero and
/// finishes the grain, and it stays finished under every later update.
pub proof fn lemma_finishes_after_length_plus_one(grain: Grain, count: nat)
    requires
        !grain.finished,
        grain.envelope_position == 0,
    ensures
        count <= grain.source_sub_slice.length ==> {
            let reached = grain.after_updates(count);
            &&& !reached.finished
            &&& reached.envelope_position == count
            &&& reached.source_sub_slice == grain.source_sub_slice
            &&& reached.id == grain.id
        },
        count < grain.source_sub_slice.length ==> grain.after_updates(count).envelope_phase()
            == Some(count as usize),
        count == grain.source_sub_slice.length ==> grain.after_updates(count).envelope_phase()
            == None::<usize>,
        count > grain.source_sub_slice.length ==> {
            let reached = grain.after_updates(count);
            &&& reached.finished
            &&& reached.envelope_phase() == None::<usize>
            &&& reached.id == grain.id
        },
    decreases count,
{
    if count > 0 {
        lemma_finishes_after_length_plus_one(grain, (count - 1) as nat);
    }
}

} // verus!
