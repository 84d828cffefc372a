//! Shorthands for working on a grain collection by grain identifier.

use crate::grain::Grain;
use crate::grains_vector::{
    envelopes_updated, first_grain_of, grain_absent, without_grain, GrainsVector,
};
use crate::pointer_wrapper::BufferSlice;
use crate::storage::MAX_GRAINS;
use crate::window_function::WindowFunction;
use vstd::prelude::*;

verus! {

/// The length in samples of the view that a default grain plays.
pub const DEFAULT_GRAIN_SIZE: usize = 48;

/// The grain that [`push_grain`] adds for the identifier `id`: a sine
/// window over the first `DEFAULT_GRAIN_SIZE` samples.
pub open spec fn default_grain(id: usize) -> Grain {
    Grain {
        window: WindowFunction::Sine,
        envelope_position: 0,
        source_sub_slice: BufferSlice { offset: 0, length: DEFAULT_GRAIN_SIZE },
        finished: false,
        id,
    }
}

/// Adds a default grain under the identifier `id`. Fails, handing the
/// grain back, when the collection already holds `MAX_GRAINS` grains.
pub fn push_grain(grains: &mut GrainsVector, id: usize) -> (r: Result<(), Grain>)
    ensures
        r.is_ok() <==> old(grains).items().len() < MAX_GRAINS,
        r.is_ok() ==> final(grains).items() == old(grains).items().push(default_grain(id)),
        r matches Err(refused) ==> refused == default_grain(id) && final(grains).items() == old(
            grains,
        ).items(),
{
    let view = BufferSlice { offset: 0, length: DEFAULT_GRAIN_SIZE };
    match grains.push_grain(id, view, WindowFunction::Sine) {
        Ok(()) => Ok(()),
        Err(_) => Err(Grain::new(id, view, WindowFunction::Sine)),
    }
}

/// Takes the first grain that carries the identifier `id` out of the
/// collection. Fails with the identifier when no grain carries it.
pub fn remove_grain(grains: &mut GrainsVector, id: usize) -> (r: Result<Grain, usize>)
    ensures
        r.is_err() <==> grain_absent(old(grains).items(), id),
        r matches Err(missing) ==> missing == id,
        r matches Ok(grain) ==> grain == old(grains).items()[first_grain_of(
            old(grains).items(),
            id,
        )],
        final(grains).items() == without_grain(old(grains).items(), id),
{
    grains.take_grain(id)
}

/// A copy of the first grain that carries the identifier `id`. Fails with
/// the identifier when no grain carries it.
pub fn get_grain(grains: &GrainsVector, id: usize) -> (r: Result<Grain, usize>)
    ensures
        r.is_err() <==> grain_absent(grains.items(), id),
        r matches Err(missing) ==> missing == id,
        r matches Ok(grain) ==> grain == grains.items()[first_grain_of(grains.items(), id)],
{
    grains.get_grain(id)
}

/// Removes every grain.
pub fn flush_grains(grains: &mut GrainsVector)
    ensures
        final(grains).items() == Seq::<Grain>::empty(),
{
    grains.flush();
}

/// Whether the first grain that carries the identifier `id` has finished.
/// Fails with the identifier when no grain carries it.
pub fn is_finished(grains: &GrainsVector, id: usize) -> (r: Result<bool, usize>)
    ensures
        r.is_err() <==> grain_absent(grains.items(), id),
        r matches Err(missing) ==> missing == id,
        r matches Ok(done) ==> done == grains.items()[first_grain_of(grains.items(), id)].finished,
{
    match grains.get_grain(id) {
        Ok(grain) => Ok(grain.finished),
        Err(missing) => Err(missing),
    }
}

/// Moves the envelope of every grain on by one sample.
pub fn update_envolopes(grains: &mut GrainsVector)
    ensures
        final(grains).items() == envelopes_updated(old(grains).items()),
{
    let n = grains.len();
    let mut i: usize = 0;
    while i < n
        invariant
            i <= n,
            n == old(grains).items().len(),
            grains.items().len() == n,
            forall|j: int|
                0 <= j < i ==> grains.items()[j] == old(grains).items()[j].envelope_updated(),
            forall|j: int| i <= j < n ==> grains.items()[j] == old(grains).items()[j],
        decreases n - i,
    {
        let _ = grains.update_envelope_at(i);
        i = i + 1;
    }
    proof {
        assert(grains.items() =~= envelopes_updated(old(grains).items()));
    }
}

} // verus!
