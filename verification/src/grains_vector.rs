//! The bounded collection of live grains.

use crate::grain::Grain;
use crate::pointer_wrapper::BufferSlice;
use crate::storage::{id_items, ids_new, ids_push, MAX_GRAINS};
use crate::window_function::WindowFunction;
use vstd::prelude::*;

verus! {

/// No grain of the collection carries the identifier `id`.
pub open spec fn grain_absent(grains: Seq<Grain>, id: usize) -> bool {
    forall|i: int| 0 <= i < grains.len() ==> (#[trigger] grains[i]).id != id
}

/// `index` is the first position in the collection whose grain carries
/// the identifier `id`.
pub open spec fn is_first_grain_of(grains: Seq<Grain>, id: usize, index: int) -> bool {
    &&& 0 <= index < grains.len()
    &&& grains[index].id == id
    &&& grain_absent(grains.take(index), id)
}

/// The first position whose grain carries the identifier `id`, where
/// there is one.
pub open spec fn first_grain_of(grains: Seq<Grain>, id: usize) -> int {
    choose|index: int| is_first_grain_of(grains, id, index)
}

/// The collection without the first grain that carries the identifier
/// `id`; the collection itself where no grain does.
pub open spec fn without_grain(grains: Seq<Grain>, id: usize) -> Seq<Grain> {
    if grain_absent(grains, id) {
        grains
    } else {
        grains.remove(first_grain_of(grains, id))
    }
}

/// The collection after every grain has had one envelope update.
pub open spec fn envelopes_updated(grains: Seq<Grain>) -> Seq<Grain> {
    Seq::new(grains.len(), |i: int| grains[i].envelope_updated())
}

/// The identifiers of the finished grains, in collection order.
pub open spec fn finished_ids(grains: Seq<Grain>) -> Seq<usize>
    decreases grains.len(),
{
    if grains.len() == 0 {
        Seq::empty()
    } else {
        let earlier = finished_ids(grains.drop_last());
        if grains.last().finished {
            earlier.push(grains.last().id)
        } else {
            earlier
        }
    }
}

/// The grains that have not finished, in collection order.
pub open spec fn unfinished(grains: Seq<Grain>) -> Seq<Grain>
    decreases grains.len(),
{
    if grains.len() == 0 {
        Seq::empty()
    } else {
        let earlier = unfinished(grains.drop_last());
        if grains.last().finished {
            earlier
        } else {
            earlier.push(grains.last())
        }
    }
}

/// No two grains of the collection carry the same identifier.
pub open spec fn distinct_ids(grains: Seq<Grain>) -> bool {
    forall|i: int, j: int|
        0 <= i < j < grains.len() ==> (#[trigger] grains[i]).id != (#[trigger] grains[j]).id
}

/// There is only one first position for an identifier.
pub proof fn lemma_first_grain_unique(grains: Seq<Grain>, id: usize, index: int)
    requires
        is_first_grain_of(grains, id, index),
    ensures
        first_grain_of(grains, id) == index,
        !grain_absent(grains, id),
        without_grain(grains, id) == grains.remove(index),
{
    let chosen = first_grain_of(grains, id);
    assert(is_first_grain_of(grains, id, chosen));
    if chosen < index {
        assert(grains.take(index)[chosen].id != id);
    }
    if index < chosen {
        assert(grains.take(chosen)[index].id != id);
    }
}

/// Removing a grain that is there makes room for one more: the
/// collection is one grain shorter, so a full collection takes a grain
/// again.
pub proof fn lemma_room_after_removal(grains: Seq<Grain>, id: usize)
    requires
        grains.len() <= MAX_GRAINS,
        !grain_absent(grains, id),
    ensures
        without_grain(grains, id).len() == grains.len() - 1,
        without_grain(grains, id).len() < MAX_GRAINS,
{
    let index = choose|i: int| 0 <= i < grains.len() && grains[i].id == id;
    lemma_first_grain_exists(grains, id, index);
}

/// Where some grain carries the identifier, there is a first one.
pub proof fn lemma_first_grain_exists(grains: Seq<Grain>, id: usize, index: int)
    requires
        0 <= index < grains.len(),
        grains[index].id == id,
    ensures
        is_first_grain_of(grains, id, first_grain_of(grains, id)),
        0 <= first_grain_of(grains, id) <= index,
    decreases index,
{
    if grain_absent(grains.take(index), id) {
        assert(is_first_grain_of(grains, id, index));
        lemma_first_grain_unique(grains, id, index);
    } else {
        let earlier = choose|i: int|
            0 <= i < grains.take(index).len() && (#[trigger] grains.take(index)[i]).id == id;
        assert(grains[earlier].id == id);
        lemma_first_grain_exists(grains, id, earlier);
    }
}

/// Never more identifiers are finished than the collection holds grains.
pub proof fn lemma_finished_ids_len(grains: Seq<Grain>)
    ensures
        finished_ids(grains).len() <= grains.len(),
    decreases grains.len(),
{
    if grains.len() > 0 {
        lemma_finished_ids_len(grains.drop_last());
    }
}

/// The grains that a bounded collection holds, in order.
pub uninterp spec fn grain_items(v: heapless::Vec<Grain, MAX_GRAINS>) -> Seq<Grain>;

/// `heapless::Vec::new`: the collection starts out empty.
#[verifier::external_body]
fn grains_new() -> (v: heapless::Vec<Grain, MAX_GRAINS>)
    ensures
        grain_items(v) == Seq::<Grain>::empty(),
{
    heapless::Vec::new()
}

/// `heapless::Vec::push`: appends `grain` while there is room, and hands it
/// back with the collection untouched once `MAX_GRAINS` grains are held.
#[verifier::external_body]
fn grains_push(v: &mut heapless::Vec<Grain, MAX_GRAINS>, grain: Grain) -> (r: Result<(), Grain>)
    ensures
        r.is_ok() <==> grain_items(*old(v)).len() < MAX_GRAINS,
        r.is_ok() ==> grain_items(*final(v)) == grain_items(*old(v)).push(grain),
        r matches Err(back) ==> back == grain && grain_items(*final(v)) == grain_items(*old(v)),
{
    v.push(grain)
}

/// `heapless::Vec::as_slice`: the grains as a slice, never more than
/// `MAX_GRAINS` of them.
#[verifier::external_body]
fn grains_as_slice(v: &heapless::Vec<Grain, MAX_GRAINS>) -> (s: &[Grain])
    ensures
        s@ == grain_items(*v),
        s@.len() <= MAX_GRAINS,
{
    v.as_slice()
}

/// The `DerefMut` of `heapless::Vec`, which hands out its grains as a
/// mutable slice: the grain at `index` is replaced, the others stay.
#[verifier::external_body]
fn grains_set(v: &mut heapless::Vec<Grain, MAX_GRAINS>, index: usize, grain: Grain)
    requires
        index < grain_items(*old(v)).len(),
    ensures
        grain_items(*final(v)) == grain_items(*old(v)).update(index as int, grain),
{
    v[index] = grain;
}

/// `heapless::Vec::remove`: takes the grain at `index` out and shifts the
/// later ones down by one.
#[verifier::external_body]
fn grains_remove(v: &mut heapless::Vec<Grain, MAX_GRAINS>, index: usize) -> (grain: Grain)
    requires
        index < grain_items(*old(v)).len(),
    ensures
        grain == grain_items(*old(v))[index as int],
        grain_items(*final(v)) == grain_items(*old(v)).remove(index as int),
{
    v.remove(index)
}

/// `heapless::Vec::clear`: removes every grain.
#[verifier::external_body]
fn grains_clear(v: &mut heapless::Vec<Grain, MAX_GRAINS>)
    ensures
        grain_items(*final(v)) == Seq::<Grain>::empty(),
{
    v.clear()
}

/// At most `MAX_GRAINS` live grains, in the order in which they were added.
#[derive(Debug)]
pub struct GrainsVector {
    pub grains: heapless::Vec<Grain, MAX_GRAINS>,
}

impl GrainsVector {
    /// The grains of the collection, oldest first.
    pub open spec fn items(&self) -> Seq<Grain> {
        grain_items(self.grains)
    }

    /// An empty collection.
    pub fn new() -> (g: GrainsVector)
        ensures
            g.items() == Seq::<Grain>::empty(),
    {
        GrainsVector { grains: grains_new() }
    }

    /// The number of grains held.
    pub fn len(&self) -> (n: usize)
        ensures
            n == self.items().len(),
            n <= MAX_GRAINS,
    {
        grains_as_slice(&self.grains).len()
    }

    /// Adds a fresh grain over `sub_slice`. Fails with the identifier when
    /// the collection already holds `MAX_GRAINS` grains.
    pub fn push_grain(&mut self, id: usize, sub_slice: BufferSlice, window: WindowFunction) -> (r:
        Result<(), usize>)
        ensures
            r.is_ok() <==> old(self).items().len() < MAX_GRAINS,
            r.is_ok() ==> final(self).items() == old(self).items().push(
                Grain {
                    window,
                    envelope_position: 0,
                    source_sub_slice: sub_slice,
                    finished: false,
                    id,
                },
            ),
            r matches Err(refused) ==> refused == id && final(self).items() == old(self).items(),
    {
        match grains_push(&mut self.grains, Grain::new(id, sub_slice, window)) {
            Ok(()) => Ok(()),
            Err(_) => Err(id),
        }
    }

    /// The first position whose grain carries the identifier `id`.
    pub fn position(&self, id: usize) -> (found: Option<usize>)
        ensures
            found.is_none() <==> grain_absent(self.items(), id),
            found matches Some(index) ==> is_first_grain_of(self.items(), id, index as int),
    {
        let grains = grains_as_slice(&self.grains);
        let mut i: usize = 0;
        while i < grains.len()
            invariant
                i <= grains.len(),
                grains@ == self.items(),
                grain_absent(grains@.take(i as int), id),
            decreases grains.len() - i,
        {
            if grains[i].id == id {
                return Some(i);
            }
            proof {
                assert forall|j: int| 0 <= j < i + 1 implies (#[trigger] grains@.take(i + 1)[j]).id
                    != id by {
                    if j < i {
                        assert(grains@.take(i as int)[j].id != id);
                    }
                }
            }
            i = i + 1;
        }
        proof {
            assert(grains@.take(grains@.len() as int) == grains@);
        }
        None
    }

    /// Takes the first grain that carries the identifier `id` out of the
    /// collection and hands it over. Fails with the identifier when no
    /// grain carries it.
    pub fn take_grain(&mut self, id: usize) -> (r: Result<Grain, usize>)
        ensures
            r.is_err() <==> grain_absent(old(self).items(), id),
            r matches Err(missing) ==> missing == id,
            r matches Ok(grain) ==> grain == old(self).items()[first_grain_of(
                old(self).items(),
                id,
            )],
            final(self).items() == without_grain(old(self).items(), id),
    {
        match self.position(id) {
            Some(index) => {
                proof {
                    lemma_first_grain_unique(self.items(), id, index as int);
                }
                Ok(grains_remove(&mut self.grains, index))
            },
            None => Err(id),
        }
    }

    /// Removes the first grain that carries the identifier `id`. Fails with
    /// the identifier when no grain carries it.
    pub fn remove_grain(&mut self, id: usize) -> (r: Result<(), usize>)
        ensures
            r.is_err() <==> grain_absent(old(self).items(), id),
            r matches Err(missing) ==> missing == id,
            final(self).items() == without_grain(old(self).items(), id),
    {
        match self.take_grain(id) {
            Ok(_) => Ok(()),
            Err(missing) => Err(missing),
        }
    }

    /// A copy of the first grain that carries the identifier `id`. Fails
    /// with the identifier when no grain carries it.
    pub fn get_grain(&self, id: usize) -> (r: Result<Grain, usize>)
        ensures
            r.is_err() <==> grain_absent(self.items(), id),
            r matches Err(missing) ==> missing == id,
            r matches Ok(grain) ==> grain == self.items()[first_grain_of(self.items(), id)],
    {
        match self.position(id) {
            Some(index) => {
                proof {
                    lemma_first_grain_unique(self.items(), id, index as int);
                }
                Ok(grains_as_slice(&self.grains)[index])
            },
            None => Err(id),
        }
    }

    /// Removes every grain.
    pub fn flush(&mut self)
        ensures
            final(self).items() == Seq::<Grain>::empty(),
    {
        grains_clear(&mut self.grains);
    }

    /// The underlying bounded vector.
    pub fn get_grains(&self) -> (grains: &heapless::Vec<Grain, MAX_GRAINS>)
        ensures
            grain_items(*grains) == self.items(),
    {
        &self.grains
    }

    /// The underlying bounded vector, for changes in place.
    pub fn get_mut_grains(&mut self) -> (grains: &mut heapless::Vec<Grain, MAX_GRAINS>)
        ensures
            grain_items(*grains) == old(self).items(),
            final(self).items() == grain_items(*final(grains)),
    {
        &mut self.grains
    }

    /// Moves the envelope of the grain at `index` on by one sample and
    /// returns the position at which its window function is to be
    /// evaluated, or `None` where its amplitude is exactly zero. An index
    /// beyond the collection names no grain: nothing changes.
    pub fn update_envelope_at(&mut self, index: usize) -> (phase: Option<usize>)
        ensures
            index < old(self).items().len() ==> {
                &&& phase == old(self).items()[index as int].envelope_phase()
                &&& final(self).items() == old(self).items().update(
                    index as int,
                    old(self).items()[index as int].envelope_updated(),
                )
            },
            index >= old(self).items().len() ==> phase.is_none() && final(self).items() == old(
                self,
            ).items(),
    {
        if index < self.len() {
            let mut grain = grains_as_slice(&self.grains)[index];
            let phase = grain.update_envelope();
            grains_set(&mut self.grains, index, grain);
            phase
        } else {
            None
        }
    }

    /// The identifiers of the finished grains, in collection order.
    pub fn finished(&self) -> (ids: heapless::Vec<usize, MAX_GRAINS>)
        ensures
            id_items(ids) == finished_ids(self.items()),
    {
        let grains = grains_as_slice(&self.grains);
        let mut ids = ids_new();
        let mut i: usize = 0;
        while i < grains.len()
            invariant
                i <= grains.len(),
                grains@.len() <= MAX_GRAINS,
                grains@ == self.items(),
                id_items(ids) == finished_ids(grains@.take(i as int)),
            decreases grains.len() - i,
        {
            proof {
                assert(grains@.take(i + 1).drop_last() == grains@.take(i as int));
                lemma_finished_ids_len(grains@.take(i as int));
            }
            if grains[i].finished {
                let _ = ids_push(&mut ids, grains[i].id);
            }
            i = i + 1;
        }
        proof {
            assert(grains@.take(grains@.len() as int) == grains@);
        }
        ids
    }
}

} // verus!
