//! A non-owning, bounds-checked view into the sample buffer.
//!
//! A view is a base offset into the buffer and a length in samples. It
//! never holds sample data itself: it turns positions into buffer indices
//! that are guaranteed to lie inside the view.

use vstd::prelude::*;

verus! {

/// A window of `length` samples that begins `offset` samples into the
/// sample buffer.
#[derive(Debug, Clone, Copy, PartialEq, Eq, Structural)]
pub struct BufferSlice {
    pub offset: usize,
    pub length: usize,
}

impl BufferSlice {
    /// The end of the view is an addressable index.
    pub open spec fn wf(self) -> bool {
        self.offset + self.length <= usize::MAX
    }

    /// The view lies inside a buffer of `buffer_length` samples.
    pub open spec fn fits(self, buffer_length: nat) -> bool {
        self.offset + self.length <= buffer_length
    }

    /// The view lies inside `parent`.
    pub open spec fn within(self, parent: BufferSlice) -> bool {
        &&& parent.offset <= self.offset
        &&& self.offset + self.length <= parent.offset + parent.length
    }

    /// `position` moved back to the last sample of the view if it lies
    /// beyond it. In an empty view every position becomes 0.
    pub open spec fn clamped_position(self, position: usize) -> usize {
        if position < self.length {
            position
        } else if self.length == 0 {
            0
        } else {
            (self.length - 1) as usize
        }
    }

    /// `length` cut back so that a window starting at the clamped `offset`
    /// ends inside the view.
    pub open spec fn clamped_length(self, offset: usize, length: usize) -> usize {
        let room = self.length - self.clamped_position(offset);
        if length >= room {
            room as usize
        } else {
            length
        }
    }

    /// The window of this view that starts at `offset` and spans `length`
    /// samples, both clamped to the view.
    pub open spec fn sub_slice(self, offset: usize, length: usize) -> BufferSlice {
        BufferSlice {
            offset: (self.offset + self.clamped_position(offset)) as usize,
            length: self.clamped_length(offset, length),
        }
    }

    /// The buffer index of the sample at `position`, if the view has any
    /// sample at all.
    pub open spec fn index_at(self, position: usize) -> Option<usize> {
        if self.length == 0 {
            None
        } else {
            Some((self.offset + self.clamped_position(position)) as usize)
        }
    }

    /// The view of a whole buffer.
    pub fn from_slice<T>(slice: &[T]) -> (view: BufferSlice)
        ensures
            view == (BufferSlice { offset: 0, length: slice@.len() as usize }),
            view.wf(),
            view.fits(slice@.len()),
    {
        BufferSlice { offset: 0, length: slice.len() }
    }

    /// Cuts a window out of this view. An `offset` beyond the view is moved
    /// to its last sample, then `length` is cut back so that the window
    /// ends inside the view; both are updated to the values used.
    pub fn get_sub_slice(&self, offset: &mut usize, length: &mut usize) -> (view: BufferSlice)
        requires
            self.wf(),
        ensures
            *final(offset) == self.clamped_position(*old(offset)),
            *final(length) == self.clamped_length(*old(offset), *old(length)),
            view == self.sub_slice(*old(offset), *old(length)),
            view.within(*self),
            view.wf(),
    {
        if *offset >= self.length {
            *offset = if self.length == 0 {
                0
            } else {
                self.length - 1
            };
        }
        let room = self.length - *offset;
        if *length >= room {
            *length = room;
        }
        BufferSlice { offset: self.offset + *offset, length: *length }
    }

    /// The buffer index that a read at `position` addresses: positions
    /// beyond the view read its last sample. An empty view has no sample
    /// to read.
    pub fn sample_index(&self, position: usize) -> (index: Option<usize>)
        requires
            self.wf(),
        ensures
            index == self.index_at(position),
            index matches Some(i) ==> self.offset <= i < self.offset + self.length,
    {
        if self.length == 0 {
            None
        } else if position < self.length {
            Some(self.offset + position)
        } else {
            Some(self.offset + (self.length - 1))
        }
    }
}

/// A window cut out of a view that lies inside a buffer lies inside that
/// buffer too, whatever offset and length were asked for.
pub proof fn lemma_sub_slice_fits(
    view: BufferSlice,
    offset: usize,
    length: usize,
    buffer_length: nat,
)
    requires
        view.wf(),
        view.fits(buffer_length),
    ensures
        view.sub_slice(offset, length).fits(buffer_length),
        view.sub_slice(offset, length).within(view),
        view.sub_slice(offset, length).length <= length,
{
}

} // verus!
