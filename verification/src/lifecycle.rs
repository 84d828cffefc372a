//! The bookkeeping of the grain lifecycle.
//!
//! While every live grain has an identifier of its own, retiring grains
//! amounts to this: the finished grains leave the collection, their
//! entries leave the schedule, and everything else stays in its order.
//! A control tick keeps the books in that state.

use crate::grain::Grain;
use crate::grains_vector::{
    distinct_ids, finished_ids, grain_absent, is_first_grain_of, lemma_first_grain_unique,
    unfinished, without_grain,
};
use crate::manager::{
    activated_grains, counter_after, grains_to_spawn, retired_entries, retired_grains,
    spawned_entries, Granulator, Lifecycle,
};
use crate::pointer_wrapper::BufferSlice;
use crate::scheduler::{
    clock_after, distinct_entry_ids, due_ids, entries_outside, id_absent,
    lemma_entries_outside_absent, lemma_not_reported, lemma_without_entry_outside,
    marked_entries, pending_count, TimeInfo,
};
use crate::window_function::WindowFunction;
use vstd::prelude::*;

verus! {

/// Every entry belongs to a grain whose identifier lies below `bound`.
pub open spec fn ids_below(entries: Seq<TimeInfo>, bound: int) -> bool {
    forall|i: int| 0 <= i < entries.len() ==> (#[trigger] entries[i]).id < bound
}

/// The queue holds a started entry of grain `id`.
pub open spec fn started_entry_of(entries: Seq<TimeInfo>, id: usize) -> bool {
    exists|j: int| 0 <= j < entries.len() && (#[trigger] entries[j]).id == id && entries[j].started
}

/// Every live grain has a started entry in the queue.
pub open spec fn grains_have_entries(entries: Seq<TimeInfo>, grains: Seq<Grain>) -> bool {
    forall|i: int| 0 <= i < grains.len() ==> started_entry_of(entries, (#[trigger] grains[i]).id)
}

/// No identifier occurs twice.
pub open spec fn distinct(ids: Seq<usize>) -> bool {
    forall|a: int, b: int| 0 <= a < b < ids.len() ==> ids[a] != ids[b]
}

/// The queue holds an entry of grain `id` that is due at `clock`.
pub open spec fn due_entry_of(entries: Seq<TimeInfo>, id: usize, clock: u128) -> bool {
    exists|j: int|
        0 <= j < entries.len() && (#[trigger] entries[j]).id == id && entries[j].is_due(clock)
}

/// Each of `ids` belongs to an entry of the queue that is due at `clock`.
pub open spec fn name_due_entries(entries: Seq<TimeInfo>, ids: Seq<usize>, clock: u128) -> bool {
    forall|k: int| 0 <= k < ids.len() ==> due_entry_of(entries, #[trigger] ids[k], clock)
}

/// The books are in order: no two entries and no two live grains share an
/// identifier, every identifier in use was handed out by the counter
/// before, and every live grain has a started entry in the schedule.
pub open spec fn in_order(state: Lifecycle) -> bool {
    &&& distinct_entry_ids(state.entries)
    &&& ids_below(state.entries, state.counter as int)
    &&& distinct_ids(state.grains)
    &&& grains_have_entries(state.entries, state.grains)
}

/// An identifier that no grain carries is carried by no unfinished grain.
pub proof fn lemma_unfinished_absent(grains: Seq<Grain>, id: usize)
    requires
        grain_absent(grains, id),
    ensures
        grain_absent(unfinished(grains), id),
    decreases grains.len(),
{
    if grains.len() > 0 {
        let front = grains.drop_last();
        assert forall|i: int| 0 <= i < front.len() implies (#[trigger] front[i]).id != id by {
            assert(grains[i].id != id);
        }
        lemma_unfinished_absent(front, id);
        assert(grains[grains.len() - 1].id != id);
    }
}

/// Where no two grains carry the same identifier, retiring the finished
/// ones among the first `count` grains leaves the unfinished ones among
/// them, followed by the grains behind them.
pub proof fn lemma_retired_prefix(grains: Seq<Grain>, count: nat)
    requires
        distinct_ids(grains),
        count <= grains.len(),
    ensures
        retired_grains(grains, finished_ids(grains.take(count as int))) == unfinished(
            grains.take(count as int),
        ) + grains.skip(count as int),
    decreases count,
{
    if count == 0 {
        assert(grains.take(0) =~= Seq::<Grain>::empty());
        assert(unfinished(grains.take(0)) + grains.skip(0) =~= grains);
    } else {
        lemma_retired_prefix(grains, (count - 1) as nat);
        let shorter = grains.take(count - 1);
        let longer = grains.take(count as int);
        let grain = grains[count - 1];
        let kept = unfinished(shorter);
        let before = kept + grains.skip(count - 1);
        assert(longer.drop_last() =~= shorter);
        assert(longer.last() == grain);
        if grain.finished {
            let ids = finished_ids(longer);
            assert(ids == finished_ids(shorter).push(grain.id));
            assert(ids.drop_last() =~= finished_ids(shorter));
            assert(ids.last() == grain.id);
            assert(retired_grains(grains, ids) == without_grain(before, grain.id));
            assert forall|i: int| 0 <= i < shorter.len() implies (#[trigger] shorter[i]).id
                != grain.id by {
                assert(grains[i].id != grains[count - 1].id);
            }
            lemma_unfinished_absent(shorter, grain.id);
            assert(before.take(kept.len() as int) =~= kept);
            assert(before[kept.len() as int] == grain);
            assert(is_first_grain_of(before, grain.id, kept.len() as int));
            lemma_first_grain_unique(before, grain.id, kept.len() as int);
            assert(before.remove(kept.len() as int) =~= kept + grains.skip(count as int));
        } else {
            assert(kept.push(grain) + grains.skip(count as int) =~= before);
        }
    }
}

/// Where no two grains carry the same identifier, retiring the finished
/// grains leaves exactly the unfinished ones, in their order.
pub proof fn lemma_finished_grains_leave(grains: Seq<Grain>)
    requires
        distinct_ids(grains),
    ensures
        retired_grains(grains, finished_ids(grains)) == unfinished(grains),
{
    lemma_retired_prefix(grains, grains.len());
    assert(grains.take(grains.len() as int) =~= grains);
    assert(unfinished(grains) + grains.skip(grains.len() as int) =~= unfinished(grains));
}

/// With no grain named, every entry is kept.
pub proof fn lemma_entries_outside_none(entries: Seq<TimeInfo>)
    ensures
        entries_outside(entries, Seq::<usize>::empty()) == entries,
    decreases entries.len(),
{
    if entries.len() > 0 {
        lemma_entries_outside_none(entries.drop_last());
        assert(entries.drop_last().push(entries.last()) =~= entries);
    }
}

/// Where no two entries belong to the same grain, retiring the grains
/// `ids` leaves exactly the entries of the other grains, in their order.
pub proof fn lemma_retired_entries_leave(entries: Seq<TimeInfo>, ids: Seq<usize>)
    requires
        distinct_entry_ids(entries),
    ensures
        retired_entries(entries, ids) == entries_outside(entries, ids),
    decreases ids.len(),
{
    if ids.len() == 0 {
        assert(ids =~= Seq::<usize>::empty());
        lemma_entries_outside_none(entries);
    } else {
        lemma_retired_entries_leave(entries, ids.drop_last());
        lemma_without_entry_outside(entries, ids.drop_last(), ids.last());
        assert(ids.drop_last().push(ids.last()) =~= ids);
    }
}

/// As long as the counter does not start over, it counts up by one.
pub proof fn lemma_counter_counts_up(counter: usize, count: nat)
    requires
        counter + count < usize::MAX - 1,
    ensures
        counter_after(counter, count) == counter + count,
    decreases count,
{
    if count > 0 {
        lemma_counter_counts_up(counter, (count - 1) as nat);
    }
}

/// Scheduling new grains keeps the entries apart: the earlier entries
/// stay as they are and the new ones, not yet started, carry the
/// identifiers that the counter hands out.
pub proof fn lemma_spawned_in_order(
    entries: Seq<TimeInfo>,
    start: u128,
    counter: usize,
    count: nat,
)
    requires
        distinct_entry_ids(entries),
        ids_below(entries, counter as int),
        counter + count < usize::MAX - 1,
    ensures
        distinct_entry_ids(spawned_entries(entries, start, counter, count)),
        ids_below(spawned_entries(entries, start, counter, count), counter + count),
        entries.len() <= spawned_entries(entries, start, counter, count).len(),
        forall|i: int|
            0 <= i < entries.len() ==> spawned_entries(entries, start, counter, count)[i]
                == entries[i],
        forall|i: int|
            entries.len() <= i < spawned_entries(entries, start, counter, count).len()
                ==> !spawned_entries(entries, start, counter, count)[i].started,
{
    let spawned = spawned_entries(entries, start, counter, count);
    assert forall|i: int| entries.len() <= i < spawned.len() implies (#[trigger] spawned[i]).id
        == counter + (i - entries.len()) && !spawned[i].started by {
        lemma_counter_counts_up(counter, (i - entries.len()) as nat);
    }
    assert forall|i: int, j: int| 0 <= i < j < spawned.len() implies (#[trigger] spawned[i]).id != (
    #[trigger] spawned[j]).id by {
        if j < entries.len() {
            assert(entries[i].id != entries[j].id);
        } else if i < entries.len() {
            assert(entries[i].id < counter);
        }
    }
    assert forall|i: int| 0 <= i < spawned.len() implies (#[trigger] spawned[i]).id < counter
        + count by {
        if i < entries.len() {
            assert(entries[i].id < counter);
        }
    }
}

/// Every reported identifier belongs to an entry that is due.
pub proof fn lemma_due_ids_are_due(entries: Seq<TimeInfo>, clock: u128)
    ensures
        name_due_entries(entries, due_ids(entries, clock), clock),
    decreases entries.len(),
{
    if entries.len() > 0 {
        let front = entries.drop_last();
        lemma_due_ids_are_due(front, clock);
        let ids = due_ids(entries, clock);
        let earlier = due_ids(front, clock);
        assert forall|k: int| 0 <= k < ids.len() implies due_entry_of(
            entries,
            #[trigger] ids[k],
            clock,
        ) by {
            if k < earlier.len() {
                assert(due_entry_of(front, earlier[k], clock));
                let j = choose|j: int|
                    0 <= j < front.len() && (#[trigger] front[j]).id == earlier[k]
                        && front[j].is_due(clock);
                assert(entries[j] == front[j]);
            } else {
                assert(entries[entries.len() - 1].id == ids[k]);
            }
        }
    }
}

/// Where no two entries belong to the same grain, no identifier is
/// reported twice.
pub proof fn lemma_due_ids_distinct(entries: Seq<TimeInfo>, clock: u128)
    requires
        distinct_entry_ids(entries),
    ensures
        distinct(due_ids(entries, clock)),
    decreases entries.len(),
{
    if entries.len() > 0 {
        let front = entries.drop_last();
        let last = entries.last();
        assert forall|i: int, j: int| 0 <= i < j < front.len() implies (#[trigger] front[i]).id != (
        #[trigger] front[j]).id by {
            assert(entries[i].id != entries[j].id);
        }
        lemma_due_ids_distinct(front, clock);
        assert forall|i: int| 0 <= i < front.len() implies (#[trigger] front[i]).id != last.id by {
            assert(entries[i].id != entries[entries.len() - 1].id);
        }
        lemma_not_reported(front, clock, last.id);
        let earlier = due_ids(front, clock);
        let ids = due_ids(entries, clock);
        assert forall|a: int, b: int| 0 <= a < b < ids.len() implies ids[a] != ids[b] by {
            if b < earlier.len() {
                assert(earlier[a] != earlier[b]);
            } else {
                assert(earlier[a] == ids[a]);
                assert(earlier.contains(ids[a]));
            }
        }
    }
}

/// Starting the grains that are due keeps the grains apart, and gives
/// each of them a started entry: a grain that is due has an entry that
/// had not started, a live grain has one that had.
pub proof fn lemma_activated_in_order(
    entries: Seq<TimeInfo>,
    clock: u128,
    grains: Seq<Grain>,
    view: BufferSlice,
    window: WindowFunction,
)
    requires
        distinct_entry_ids(entries),
        distinct_ids(grains),
        grains_have_entries(entries, grains),
    ensures
        distinct_entry_ids(marked_entries(entries, clock)),
        distinct_ids(activated_grains(grains, due_ids(entries, clock), view, window)),
        grains_have_entries(
            marked_entries(entries, clock),
            activated_grains(grains, due_ids(entries, clock), view, window),
        ),
{
    let marked = marked_entries(entries, clock);
    let due = due_ids(entries, clock);
    let born = activated_grains(grains, due, view, window);
    lemma_due_ids_distinct(entries, clock);
    lemma_due_ids_are_due(entries, clock);
    assert forall|i: int, j: int| 0 <= i < j < marked.len() implies (#[trigger] marked[i]).id != (
    #[trigger] marked[j]).id by {
        assert(entries[i].id != entries[j].id);
    }
    assert forall|i: int| 0 <= i < born.len() implies started_entry_of(
        marked,
        (#[trigger] born[i]).id,
    ) by {
        if i < grains.len() {
            assert(started_entry_of(entries, grains[i].id));
            let j = choose|j: int|
                0 <= j < entries.len() && (#[trigger] entries[j]).id == grains[i].id
                    && entries[j].started;
            assert(marked[j].id == born[i].id && marked[j].started);
        } else {
            let k = i - grains.len();
            assert(born[i].id == due[k]);
            assert(due_entry_of(entries, due[k], clock));
            let j = choose|j: int|
                0 <= j < entries.len() && (#[trigger] entries[j]).id == due[k] && entries[j].is_due(
                    clock,
                );
            assert(marked[j].id == born[i].id && marked[j].started);
        }
    }
    assert forall|a: int, b: int| 0 <= a < b < born.len() implies (#[trigger] born[a]).id != (
    #[trigger] born[b]).id by {
        if b < grains.len() {
            assert(grains[a].id != grains[b].id);
        } else if a < grains.len() {
            let k = b - grains.len();
            assert(born[b].id == due[k]);
            assert(started_entry_of(entries, grains[a].id));
            assert(due_entry_of(entries, due[k], clock));
            let j = choose|j: int|
                0 <= j < entries.len() && (#[trigger] entries[j]).id == grains[a].id
                    && entries[j].started;
            let w = choose|w: int|
                0 <= w < entries.len() && (#[trigger] entries[w]).id == due[k] && entries[w].is_due(
                    clock,
                );
            if j < w {
                assert(entries[j].id != entries[w].id);
            } else if w < j {
                assert(entries[w].id != entries[j].id);
            }
        } else {
            assert(due[a - grains.len()] != due[b - grains.len()]);
        }
    }
}

/// Where no two grains carry the same identifier, neither do two of the
/// unfinished ones, and each unfinished grain is a grain of the
/// collection that has not finished.
pub proof fn lemma_unfinished_in_order(grains: Seq<Grain>)
    requires
        distinct_ids(grains),
    ensures
        distinct_ids(unfinished(grains)),
        forall|k: int|
            0 <= k < unfinished(grains).len() ==> !(#[trigger] unfinished(grains)[k]).finished
                && grains.contains(unfinished(grains)[k]),
    decreases grains.len(),
{
    if grains.len() > 0 {
        let front = grains.drop_last();
        let last = grains.last();
        assert forall|i: int, j: int| 0 <= i < j < front.len() implies (#[trigger] front[i]).id != (
        #[trigger] front[j]).id by {
            assert(grains[i].id != grains[j].id);
        }
        lemma_unfinished_in_order(front);
        assert forall|i: int| 0 <= i < front.len() implies (#[trigger] front[i]).id != last.id by {
            assert(grains[i].id != grains[grains.len() - 1].id);
        }
        lemma_unfinished_absent(front, last.id);
        let kept = unfinished(grains);
        let earlier = unfinished(front);
        assert forall|k: int| 0 <= k < kept.len() implies !(#[trigger] kept[k]).finished
            && grains.contains(kept[k]) by {
            if k < earlier.len() {
                assert(kept[k] == earlier[k]);
                let i = choose|i: int| 0 <= i < front.len() && front[i] == earlier[k];
                assert(grains[i] == kept[k]);
            } else {
                assert(grains[grains.len() - 1] == kept[k]);
            }
        }
        assert forall|i: int, j: int| 0 <= i < j < kept.len() implies (#[trigger] kept[i]).id != (
        #[trigger] kept[j]).id by {
            if j < earlier.len() {
                assert(earlier[i].id != earlier[j].id);
            } else {
                assert(earlier[i].id != last.id);
            }
        }
    }
}

/// Every identifier among the finished ones is carried by a finished
/// grain of the collection.
pub proof fn lemma_finished_ids_sources(grains: Seq<Grain>, id: usize)
    requires
        finished_ids(grains).contains(id),
    ensures
        exists|i: int| 0 <= i < grains.len() && (#[trigger] grains[i]).id == id && grains[i].finished,
    decreases grains.len(),
{
    if grains.len() > 0 {
        let front = grains.drop_last();
        let ids = finished_ids(grains);
        let earlier = finished_ids(front);
        let k = choose|k: int| 0 <= k < ids.len() && ids[k] == id;
        if k < earlier.len() {
            assert(earlier[k] == id);
            assert(earlier.contains(id));
            lemma_finished_ids_sources(front, id);
            let i = choose|i: int| 0 <= i < front.len() && (#[trigger] front[i]).id == id
                && front[i].finished;
            assert(grains[i] == front[i]);
        } else {
            assert(grains[grains.len() - 1].id == id);
        }
    }
}

/// The entries outside `ids` are entries of the queue, and each entry of
/// the queue that belongs to none of `ids` is among them. Where no two
/// entries of the queue belong to the same grain, neither do two of them.
pub proof fn lemma_entries_outside_in_order(entries: Seq<TimeInfo>, ids: Seq<usize>)
    ensures
        forall|k: int|
            0 <= k < entries_outside(entries, ids).len() ==> entries.contains(
                #[trigger] entries_outside(entries, ids)[k],
            ),
        forall|j: int|
            0 <= j < entries.len() && !ids.contains((#[trigger] entries[j]).id)
                ==> entries_outside(entries, ids).contains(entries[j]),
        distinct_entry_ids(entries) ==> distinct_entry_ids(entries_outside(entries, ids)),
    decreases entries.len(),
{
    if entries.len() > 0 {
        let front = entries.drop_last();
        let last = entries.last();
        lemma_entries_outside_in_order(front, ids);
        let kept = entries_outside(entries, ids);
        let earlier = entries_outside(front, ids);
        assert forall|k: int| 0 <= k < kept.len() implies entries.contains(#[trigger] kept[k]) by {
            if k < earlier.len() {
                assert(kept[k] == earlier[k]);
                let j = choose|j: int| 0 <= j < front.len() && front[j] == earlier[k];
                assert(entries[j] == kept[k]);
            } else {
                assert(entries[entries.len() - 1] == kept[k]);
            }
        }
        assert forall|j: int|
            0 <= j < entries.len() && !ids.contains((#[trigger] entries[j]).id) implies kept.contains(
            entries[j],
        ) by {
            if j < front.len() {
                assert(front[j] == entries[j]);
                let k = choose|k: int| 0 <= k < earlier.len() && earlier[k] == front[j];
                assert(kept[k] == entries[j]);
            } else {
                assert(kept[kept.len() - 1] == entries[j]);
            }
        }
        if distinct_entry_ids(entries) {
            assert forall|i: int, j: int| 0 <= i < j < front.len() implies (#[trigger] front[i]).id
                != (#[trigger] front[j]).id by {
                assert(entries[i].id != entries[j].id);
            }
            assert forall|i: int| 0 <= i < front.len() implies (#[trigger] front[i]).id
                != last.id by {
                assert(entries[i].id != entries[entries.len() - 1].id);
            }
            lemma_entries_outside_absent(front, ids, last.id);
            assert forall|i: int, j: int| 0 <= i < j < kept.len() implies (#[trigger] kept[i]).id
                != (#[trigger] kept[j]).id by {
                if j < earlier.len() {
                    assert(earlier[i].id != earlier[j].id);
                } else {
                    assert(earlier[i].id != last.id);
                }
            }
        }
    }
}

/// Among the unfinished grains every grain is unfinished.
pub proof fn lemma_unfinished_twice(grains: Seq<Grain>)
    ensures
        unfinished(unfinished(grains)) == unfinished(grains),
    decreases grains.len(),
{
    if grains.len() > 0 {
        lemma_unfinished_twice(grains.drop_last());
        if !grains.last().finished {
            let kept = unfinished(grains);
            assert(kept.drop_last() =~= unfinished(grains.drop_last()));
        }
    }
}

/// A control tick keeps the books in order, as long as the identifier
/// counter does not start over during the tick. With a buffer set, it
/// leaves no finished grain behind.
pub proof fn lemma_tick_keeps_order(engine: Granulator, time_step: u128)
    requires
        in_order(engine.lifecycle()),
        engine.current_id_counter + engine.settings.active_grains < usize::MAX - 1,
    ensures
        in_order(engine.ticked(time_step)),
        engine.audio_buffer.is_some() ==> unfinished(engine.ticked(time_step).grains)
            == engine.ticked(time_step).grains,
        engine.audio_buffer.is_some() ==> forall|i: int|
            0 <= i < engine.ticked(time_step).grains.len() ==> !(
            #[trigger] engine.ticked(time_step).grains[i]).finished,
{
    match engine.audio_buffer {
        None => {},
        Some(view) => {
            let entries = engine.scheduler.entries();
            let grains = engine.grains.items();
            let counter = engine.current_id_counter;
            let count = grains_to_spawn(engine.settings.active_grains, pending_count(entries));
            let start = clock_after(engine.scheduler.master_clock_counter, engine.settings.delay);
            let spawned = spawned_entries(entries, start, counter, count);
            let clock = clock_after(engine.scheduler.master_clock_counter, time_step);
            let marked = marked_entries(spawned, clock);
            let due = due_ids(spawned, clock);
            let grain_view = view.sub_slice(
                engine.settings.offset,
                engine.settings.grain_size_in_samples,
            );
            let born = activated_grains(grains, due, grain_view, WindowFunction::Sine);
            let done = finished_ids(born);
            lemma_counter_counts_up(counter, count);
            lemma_spawned_in_order(entries, start, counter, count);
            lemma_due_ids_distinct(spawned, clock);
            lemma_activated_in_order(spawned, clock, grains, grain_view, WindowFunction::Sine);
            lemma_finished_grains_leave(born);
            lemma_unfinished_in_order(born);
            assert(distinct_entry_ids(marked));
            lemma_retired_entries_leave(marked, done);
            lemma_entries_outside_in_order(marked, done);
            let kept_entries = entries_outside(marked, done);
            let kept_grains = unfinished(born);
            assert forall|k: int| 0 <= k < kept_entries.len() implies (#[trigger] kept_entries[k]).id
                < counter + count by {
                let j = choose|j: int| 0 <= j < marked.len() && marked[j] == kept_entries[k];
                assert(spawned[j].id < counter + count);
            }
            assert forall|i: int| 0 <= i < kept_grains.len() implies started_entry_of(
                kept_entries,
                (#[trigger] kept_grains[i]).id,
            ) by {
                let grain = kept_grains[i];
                let b = choose|b: int| 0 <= b < born.len() && born[b] == grain;
                assert(started_entry_of(marked, born[b].id));
                let j = choose|j: int|
                    0 <= j < marked.len() && (#[trigger] marked[j]).id == grain.id
                        && marked[j].started;
                if done.contains(grain.id) {
                    lemma_finished_ids_sources(born, grain.id);
                    let f = choose|f: int|
                        0 <= f < born.len() && (#[trigger] born[f]).id == grain.id
                            && born[f].finished;
                    if f < b {
                        assert(born[f].id != born[b].id);
                    } else if b < f {
                        assert(born[b].id != born[f].id);
                    }
                }
                assert(kept_entries.contains(marked[j]));
                let k = choose|k: int| 0 <= k < kept_entries.len() && kept_entries[k] == marked[j];
                assert(kept_entries[k].id == grain.id && kept_entries[k].started);
            }
            lemma_unfinished_twice(born);
        },
    }
}

} // verus!
