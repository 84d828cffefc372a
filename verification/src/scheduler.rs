//! The scheduler: a monotonic control clock and a bounded queue of grains
//! that wait for their start time.
//!
//! Time is kept in whole nanoseconds. An entry stays in the queue from the
//! moment its grain is scheduled until the grain is removed again; the
//! `started` flag records whether its identifier has been reported yet.

use crate::storage::{duration_nanos, id_items, ids_new, ids_push, nanos_of, MAX_GRAINS};
use core::time::Duration;
use vstd::prelude::*;

verus! {

/// One scheduled grain: its identifier, the clock value at which it is
/// due, and whether it has been reported as due.
#[derive(Debug, Clone, Copy, PartialEq, Eq, Structural)]
pub struct TimeInfo {
    pub id: usize,
    pub start: u128,
    pub started: bool,
}

impl TimeInfo {
    /// An entry for grain `id`, due at clock value `start`, not yet started.
    pub fn new(id: usize, start: u128) -> (entry: TimeInfo)
        ensures
            entry == (TimeInfo { id, start, started: false }),
    {
        TimeInfo { id, start, started: false }
    }

    /// The entry has not been reported and its start time has been reached.
    /// An entry due exactly at `clock` counts as due.
    pub open spec fn is_due(self, clock: u128) -> bool {
        !self.started && self.start <= clock
    }

    /// The entry after the clock has reached `clock`.
    pub open spec fn marked(self, clock: u128) -> TimeInfo {
        if self.is_due(clock) {
            TimeInfo { id: self.id, start: self.start, started: true }
        } else {
            self
        }
    }
}

/// The clock after `step` more nanoseconds. It stops at the largest
/// representable value instead of wrapping.
pub open spec fn clock_after(clock: u128, step: u128) -> u128 {
    if clock + step > u128::MAX {
        u128::MAX
    } else {
        (clock + step) as u128
    }
}

/// The identifiers of the entries that become due at `clock`, in queue order.
pub open spec fn due_ids(entries: Seq<TimeInfo>, clock: u128) -> Seq<usize>
    decreases entries.len(),
{
    if entries.len() == 0 {
        Seq::empty()
    } else {
        let earlier = due_ids(entries.drop_last(), clock);
        if entries.last().is_due(clock) {
            earlier.push(entries.last().id)
        } else {
            earlier
        }
    }
}

/// The queue after the clock has reached `clock`: every due entry is started.
pub open spec fn marked_entries(entries: Seq<TimeInfo>, clock: u128) -> Seq<TimeInfo> {
    Seq::new(entries.len(), |i: int| entries[i].marked(clock))
}

/// How many entries have not been started yet.
pub open spec fn pending_count(entries: Seq<TimeInfo>) -> nat
    decreases entries.len(),
{
    if entries.len() == 0 {
        0
    } else {
        let earlier = pending_count(entries.drop_last());
        if entries.last().started {
            earlier
        } else {
            earlier + 1
        }
    }
}

/// No entry of the queue belongs to grain `id`.
pub open spec fn id_absent(entries: Seq<TimeInfo>, id: usize) -> bool {
    forall|i: int| 0 <= i < entries.len() ==> (#[trigger] entries[i]).id != id
}

/// `index` is the first position in the queue that belongs to grain `id`.
pub open spec fn is_first_entry_of(entries: Seq<TimeInfo>, id: usize, index: int) -> bool {
    &&& 0 <= index < entries.len()
    &&& entries[index].id == id
    &&& id_absent(entries.take(index), id)
}

/// The first position in the queue that belongs to grain `id`, where
/// there is one.
pub open spec fn first_entry_of(entries: Seq<TimeInfo>, id: usize) -> int {
    choose|index: int| is_first_entry_of(entries, id, index)
}

/// The queue without the oldest entry of grain `id`; the queue itself
/// where it holds no entry for that grain.
pub open spec fn without_entry(entries: Seq<TimeInfo>, id: usize) -> Seq<TimeInfo> {
    if id_absent(entries, id) {
        entries
    } else {
        entries.remove(first_entry_of(entries, id))
    }
}

/// No two entries of the queue belong to the same grain.
pub open spec fn distinct_entry_ids(entries: Seq<TimeInfo>) -> bool {
    forall|i: int, j: int|
        0 <= i < j < entries.len() ==> (#[trigger] entries[i]).id != (#[trigger] entries[j]).id
}

/// The entries that belong to none of the grains `ids`, in queue order.
pub open spec fn entries_outside(entries: Seq<TimeInfo>, ids: Seq<usize>) -> Seq<TimeInfo>
    decreases entries.len(),
{
    if entries.len() == 0 {
        Seq::empty()
    } else {
        let earlier = entries_outside(entries.drop_last(), ids);
        if ids.contains(entries.last().id) {
            earlier
        } else {
            earlier.push(entries.last())
        }
    }
}

/// There is only one first position for a grain.
pub proof fn lemma_first_entry_unique(entries: Seq<TimeInfo>, id: usize, index: int)
    requires
        is_first_entry_of(entries, id, index),
    ensures
        first_entry_of(entries, id) == index,
        !id_absent(entries, id),
        without_entry(entries, id) == entries.remove(index),
{
    let chosen = first_entry_of(entries, id);
    assert(is_first_entry_of(entries, id, chosen));
    if chosen < index {
        assert(entries.take(index)[chosen].id != id);
    }
    if index < chosen {
        assert(entries.take(chosen)[index].id != id);
    }
}

/// The entries that a bounded queue holds, in order.
pub uninterp spec fn entry_items(v: heapless::Vec<TimeInfo, MAX_GRAINS>) -> Seq<TimeInfo>;

/// `heapless::Vec::new`: the queue starts out empty.
#[verifier::external_body]
fn entries_new() -> (v: heapless::Vec<TimeInfo, MAX_GRAINS>)
    ensures
        entry_items(v) == Seq::<TimeInfo>::empty(),
{
    heapless::Vec::new()
}

/// `heapless::Vec::push`: appends `entry` while there is room, and hands it
/// back with the queue untouched once `MAX_GRAINS` entries are held.
#[verifier::external_body]
fn entries_push(v: &mut heapless::Vec<TimeInfo, MAX_GRAINS>, entry: TimeInfo) -> (r: Result<
    (),
    TimeInfo,
>)
    ensures
        r.is_ok() <==> entry_items(*old(v)).len() < MAX_GRAINS,
        r.is_ok() ==> entry_items(*final(v)) == entry_items(*old(v)).push(entry),
        r matches Err(back) ==> back == entry && entry_items(*final(v)) == entry_items(*old(v)),
{
    v.push(entry)
}

/// `heapless::Vec::as_slice`: the entries as a slice, never more than
/// `MAX_GRAINS` of them.
#[verifier::external_body]
fn entries_as_slice(v: &heapless::Vec<TimeInfo, MAX_GRAINS>) -> (s: &[TimeInfo])
    ensures
        s@ == entry_items(*v),
        s@.len() <= MAX_GRAINS,
{
    v.as_slice()
}

/// The `DerefMut` of `heapless::Vec`, which hands out its entries as a
/// mutable slice: the entry at `index` is replaced, the others stay.
#[verifier::external_body]
fn entries_set(v: &mut heapless::Vec<TimeInfo, MAX_GRAINS>, index: usize, entry: TimeInfo)
    requires
        index < entry_items(*old(v)).len(),
    ensures
        entry_items(*final(v)) == entry_items(*old(v)).update(index as int, entry),
{
    v[index] = entry;
}

/// `heapless::Vec::remove`: takes the entry at `index` out and shifts the
/// later ones down by one.
#[verifier::external_body]
fn entries_remove(v: &mut heapless::Vec<TimeInfo, MAX_GRAINS>, index: usize) -> (entry: TimeInfo)
    requires
        index < entry_items(*old(v)).len(),
    ensures
        entry == entry_items(*old(v))[index as int],
        entry_items(*final(v)) == entry_items(*old(v)).remove(index as int),
{
    v.remove(index)
}

/// The control clock together with the queue of scheduled grains.
#[derive(Debug)]
pub struct Scheduler {
    pub master_clock_counter: u128,
    pub future_vector: heapless::Vec<TimeInfo, MAX_GRAINS>,
}

impl Scheduler {
    /// The queue of scheduled entries, oldest first.
    pub open spec fn entries(&self) -> Seq<TimeInfo> {
        entry_items(self.future_vector)
    }

    /// A scheduler at clock zero with an empty queue.
    pub fn new() -> (s: Scheduler)
        ensures
            s.master_clock_counter == 0,
            s.entries() == Seq::<TimeInfo>::empty(),
    {
        Scheduler { master_clock_counter: 0, future_vector: entries_new() }
    }

    /// The number of entries in the queue, started or not.
    pub fn len(&self) -> (n: usize)
        ensures
            n == self.entries().len(),
            n <= MAX_GRAINS,
    {
        entries_as_slice(&self.future_vector).len()
    }

    /// The number of entries that have not been started yet.
    pub fn pending(&self) -> (n: usize)
        ensures
            n == pending_count(self.entries()),
            n <= self.entries().len(),
    {
        let entries = entries_as_slice(&self.future_vector);
        let mut n: usize = 0;
        let mut i: usize = 0;
        while i < entries.len()
            invariant
                i <= entries.len(),
                n == pending_count(entries@.take(i as int)),
                n <= i,
            decreases entries.len() - i,
        {
            proof {
                assert(entries@.take(i + 1).drop_last() == entries@.take(i as int));
            }
            if !entries[i].started {
                n = n + 1;
            }
            i = i + 1;
        }
        proof {
            assert(entries@.take(entries@.len() as int) == entries@);
        }
        n
    }

    /// Advances the clock by `time_step` nanoseconds and reports, in queue
    /// order, the grains that have newly crossed their start time. Each
    /// reported entry is marked as started, so it is reported only once.
    pub fn advance(&mut self, time_step: u128) -> (ids: heapless::Vec<usize, MAX_GRAINS>)
        ensures
            final(self).master_clock_counter == clock_after(
                old(self).master_clock_counter,
                time_step,
            ),
            final(self).entries() == marked_entries(
                old(self).entries(),
                final(self).master_clock_counter,
            ),
            id_items(ids) == due_ids(old(self).entries(), final(self).master_clock_counter),
    {
        self.master_clock_counter = self.master_clock_counter.saturating_add(time_step);
        let clock = self.master_clock_counter;
        let mut ids = ids_new();
        let n = self.len();
        let mut i: usize = 0;
        while i < n
            invariant
                i <= n,
                n == old(self).entries().len(),
                n <= MAX_GRAINS,
                self.master_clock_counter == clock,
                self.entries().len() == n,
                forall|j: int| 0 <= j < i ==> self.entries()[j] == old(self).entries()[j].marked(clock),
                forall|j: int| i <= j < n ==> self.entries()[j] == old(self).entries()[j],
                id_items(ids) == due_ids(old(self).entries().take(i as int), clock),
            decreases n - i,
        {
            let entry = entries_as_slice(&self.future_vector)[i];
            proof {
                let before = old(self).entries();
                assert(before.take(i + 1).drop_last() == before.take(i as int));
                lemma_due_ids_len(before.take(i as int), clock);
            }
            if !entry.started && entry.start <= clock {
                entries_set(
                    &mut self.future_vector,
                    i,
                    TimeInfo { id: entry.id, start: entry.start, started: true },
                );
                let _ = ids_push(&mut ids, entry.id);
            }
            i = i + 1;
        }
        proof {
            let before = old(self).entries();
            assert(before.take(n as int) == before);
            assert(self.entries() =~= marked_entries(before, clock));
        }
        ids
    }

    /// [`Scheduler::advance`] with the time step given as a `Duration`.
    pub fn update_clock(&mut self, time_step: Duration) -> (ids: heapless::Vec<usize, MAX_GRAINS>)
        ensures
            final(self).master_clock_counter == clock_after(
                old(self).master_clock_counter,
                duration_nanos(time_step),
            ),
            final(self).entries() == marked_entries(
                old(self).entries(),
                final(self).master_clock_counter,
            ),
            id_items(ids) == due_ids(old(self).entries(), final(self).master_clock_counter),
    {
        self.advance(nanos_of(time_step))
    }

    /// Schedules grain `id` to start `delay` nanoseconds from now. Fails,
    /// handing the entry back, when the queue already holds `MAX_GRAINS`
    /// entries.
    pub fn schedule(&mut self, id: usize, delay: u128) -> (r: Result<(), TimeInfo>)
        ensures
            final(self).master_clock_counter == old(self).master_clock_counter,
            r.is_ok() <==> old(self).entries().len() < MAX_GRAINS,
            r.is_ok() ==> final(self).entries() == old(self).entries().push(
                TimeInfo {
                    id,
                    start: clock_after(old(self).master_clock_counter, delay),
                    started: false,
                },
            ),
            r matches Err(entry) ==> final(self).entries() == old(self).entries() && entry == (
            TimeInfo {
                id,
                start: clock_after(old(self).master_clock_counter, delay),
                started: false,
            }),
    {
        let start = self.master_clock_counter.saturating_add(delay);
        entries_push(&mut self.future_vector, TimeInfo::new(id, start))
    }

    /// [`Scheduler::schedule`] with the delay given as a `Duration`.
    pub fn schedule_grain(&mut self, id: usize, delay: Duration) -> (r: Result<(), TimeInfo>)
        ensures
            final(self).master_clock_counter == old(self).master_clock_counter,
            r.is_ok() <==> old(self).entries().len() < MAX_GRAINS,
            r.is_ok() ==> final(self).entries() == old(self).entries().push(
                TimeInfo {
                    id,
                    start: clock_after(old(self).master_clock_counter, duration_nanos(delay)),
                    started: false,
                },
            ),
            r matches Err(entry) ==> final(self).entries() == old(self).entries() && entry == (
            TimeInfo {
                id,
                start: clock_after(old(self).master_clock_counter, duration_nanos(delay)),
                started: false,
            }),
    {
        self.schedule(id, nanos_of(delay))
    }

    /// Removes the oldest entry of grain `id` from the queue. Fails with
    /// the identifier when the queue holds no entry for it.
    pub fn remove_grain(&mut self, id: usize) -> (r: Result<(), usize>)
        ensures
            final(self).master_clock_counter == old(self).master_clock_counter,
            r.is_err() <==> id_absent(old(self).entries(), id),
            r matches Err(missing) ==> missing == id,
            final(self).entries() == without_entry(old(self).entries(), id),
    {
        let n = self.len();
        let mut i: usize = 0;
        while i < n
            invariant
                i <= n,
                n == self.entries().len(),
                *self == *old(self),
                id_absent(self.entries().take(i as int), id),
            decreases n - i,
        {
            let entry = entries_as_slice(&self.future_vector)[i];
            if entry.id == id {
                proof {
                    lemma_first_entry_unique(self.entries(), id, i as int);
                }
                let _ = entries_remove(&mut self.future_vector, i);
                return Ok(());
            }
            proof {
                let entries = self.entries();
                assert forall|j: int| 0 <= j < i + 1 implies (#[trigger] entries.take(i + 1)[j]).id
                    != id by {
                    if j < i {
                        assert(entries.take(i as int)[j].id != id);
                    }
                }
            }
            i = i + 1;
        }
        proof {
            assert(self.entries().take(n as int) == self.entries());
        }
        Err(id)
    }
}

/// Never more identifiers are reported than the queue holds entries.
pub proof fn lemma_due_ids_len(entries: Seq<TimeInfo>, clock: u128)
    ensures
        due_ids(entries, clock).len() <= entries.len(),
    decreases entries.len(),
{
    if entries.len() > 0 {
        lemma_due_ids_len(entries.drop_last(), clock);
    }
}

/// A grain none of whose entries is due at `clock` is not reported.
pub proof fn lemma_not_reported(entries: Seq<TimeInfo>, clock: u128, id: usize)
    requires
        forall|i: int|
            0 <= i < entries.len() && (#[trigger] entries[i]).id == id ==> !entries[i].is_due(
                clock,
            ),
    ensures
        !due_ids(entries, clock).contains(id),
    decreases entries.len(),
{
    if entries.len() > 0 {
        let front = entries.drop_last();
        assert forall|i: int| 0 <= i < front.len() && (#[trigger] front[i]).id == id implies !front[i].is_due(
            clock,
        ) by {
            assert(front[i] == entries[i]);
        }
        lemma_not_reported(front, clock, id);
        let earlier = due_ids(front, clock);
        let all = due_ids(entries, clock);
        if all.contains(id) {
            let k = choose|k: int| 0 <= k < all.len() && all[k] == id;
            if k < earlier.len() {
                assert(earlier[k] == id);
                assert(earlier.contains(id));
            } else {
                assert(entries[entries.len() - 1].id == id);
            }
        }
    }
}

/// A grain scheduled without delay, under an identifier that no queued
/// entry carries, is reported by the next advance of the clock exactly
/// once, whatever the step, and is not reported again by the advance
/// after it.
pub proof fn lemma_reported_exactly_once(
    entries: Seq<TimeInfo>,
    clock: u128,
    id: usize,
    first_step: u128,
    second_step: u128,
)
    requires
        entries.len() < MAX_GRAINS,
        id_absent(entries, id),
    ensures
        ({
            let scheduled = entries.push(
                TimeInfo { id, start: clock_after(clock, 0), started: false },
            );
            let first_clock = clock_after(clock, first_step);
            let first = due_ids(scheduled, first_clock);
            let second_clock = clock_after(first_clock, second_step);
            let second = due_ids(marked_entries(scheduled, first_clock), second_clock);
            &&& first.contains(id)
            &&& forall|j: int, k: int|
                0 <= j < first.len() && 0 <= k < first.len() && first[j] == id && first[k] == id
                    ==> j == k
            &&& !second.contains(id)
        }),
{
    let entry = TimeInfo { id, start: clock_after(clock, 0), started: false };
    let scheduled = entries.push(entry);
    let first_clock = clock_after(clock, first_step);
    let first = due_ids(scheduled, first_clock);
    let earlier = due_ids(entries, first_clock);
    assert(scheduled.drop_last() == entries);
    assert(scheduled.last() == entry);
    assert(entry.is_due(first_clock));
    assert(first == earlier.push(id));
    lemma_not_reported(entries, first_clock, id);
    assert(first[earlier.len() as int] == id);
    assert forall|j: int, k: int|
        0 <= j < first.len() && 0 <= k < first.len() && first[j] == id && first[k] == id implies j
        == k by {
        if j < earlier.len() {
            assert(earlier[j] == id);
            assert(earlier.contains(id));
        }
        if k < earlier.len() {
            assert(earlier[k] == id);
            assert(earlier.contains(id));
        }
    }
    let second_clock = clock_after(first_clock, second_step);
    let after = marked_entries(scheduled, first_clock);
    assert forall|i: int| 0 <= i < after.len() && (#[trigger] after[i]).id == id implies !after[i].is_due(
        second_clock,
    ) by {
        if i < entries.len() {
            assert(scheduled[i] == entries[i]);
            assert(entries[i].id != id);
        }
    }
    lemma_not_reported(after, second_clock, id);
}

/// Where some entry belongs to the grain, there is a first one.
pub proof fn lemma_first_entry_exists(entries: Seq<TimeInfo>, id: usize, index: int)
    requires
        0 <= index < entries.len(),
        entries[index].id == id,
    ensures
        is_first_entry_of(entries, id, first_entry_of(entries, id)),
        0 <= first_entry_of(entries, id) <= index,
    decreases index,
{
    if id_absent(entries.take(index), id) {
        assert(is_first_entry_of(entries, id, index));
        lemma_first_entry_unique(entries, id, index);
    } else {
        let earlier = choose|i: int|
            0 <= i < entries.take(index).len() && (#[trigger] entries.take(index)[i]).id == id;
        assert(entries[earlier].id == id);
        lemma_first_entry_exists(entries, id, earlier);
    }
}

/// An entry of another grain, appended to the queue, stays when the
/// oldest entry of grain `id` is removed.
pub proof fn lemma_without_entry_push(entries: Seq<TimeInfo>, entry: TimeInfo, id: usize)
    requires
        entry.id != id,
    ensures
        without_entry(entries.push(entry), id) == without_entry(entries, id).push(entry),
{
    let longer = entries.push(entry);
    if id_absent(entries, id) {
        assert forall|i: int| 0 <= i < longer.len() implies (#[trigger] longer[i]).id != id by {
            if i < entries.len() {
                assert(entries[i].id != id);
            }
        }
    } else {
        let some = choose|i: int| 0 <= i < entries.len() && (#[trigger] entries[i]).id == id;
        lemma_first_entry_exists(entries, id, some);
        let first = first_entry_of(entries, id);
        assert(longer[first] == entries[first]);
        assert(longer.take(first) =~= entries.take(first));
        assert(is_first_entry_of(longer, id, first));
        lemma_first_entry_unique(longer, id, first);
        assert(longer.remove(first) =~= entries.remove(first).push(entry));
    }
}

/// A grain without an entry in the queue has none among the entries that
/// are kept.
pub proof fn lemma_entries_outside_absent(entries: Seq<TimeInfo>, ids: Seq<usize>, id: usize)
    requires
        id_absent(entries, id),
    ensures
        id_absent(entries_outside(entries, ids), id),
        entries_outside(entries, ids.push(id)) == entries_outside(entries, ids),
    decreases entries.len(),
{
    if entries.len() > 0 {
        let front = entries.drop_last();
        let last = entries.last();
        assert forall|i: int| 0 <= i < front.len() implies (#[trigger] front[i]).id != id by {
            assert(entries[i].id != id);
        }
        lemma_entries_outside_absent(front, ids, id);
        assert(entries[entries.len() - 1].id != id);
        lemma_contains_push(ids, id, last.id);
    }
}

/// An identifier is among `ids` followed by `id` where it is among `ids`
/// or is `id` itself.
pub proof fn lemma_contains_push(ids: Seq<usize>, id: usize, other: usize)
    ensures
        ids.push(id).contains(other) <==> (ids.contains(other) || other == id),
{
    let longer = ids.push(id);
    if ids.contains(other) {
        let k = choose|k: int| 0 <= k < ids.len() && ids[k] == other;
        assert(longer[k] == other);
    }
    if other == id {
        assert(longer[ids.len() as int] == other);
    }
    if longer.contains(other) {
        let k = choose|k: int| 0 <= k < longer.len() && longer[k] == other;
        if k < ids.len() {
            assert(ids[k] == other);
        }
    }
}

/// Where no two entries belong to the same grain, removing the oldest
/// entry of grain `id` from the entries outside `ids` leaves the entries
/// outside `ids` and `id`.
pub proof fn lemma_without_entry_outside(entries: Seq<TimeInfo>, ids: Seq<usize>, id: usize)
    requires
        distinct_entry_ids(entries),
    ensures
        without_entry(entries_outside(entries, ids), id) == entries_outside(entries, ids.push(id)),
    decreases entries.len(),
{
    if entries.len() > 0 {
        let front = entries.drop_last();
        let last = entries.last();
        let kept = entries_outside(front, ids);
        assert forall|i: int, j: int| 0 <= i < j < front.len() implies (#[trigger] front[i]).id != (
        #[trigger] front[j]).id by {
            assert(entries[i].id != entries[j].id);
        }
        lemma_without_entry_outside(front, ids, id);
        lemma_contains_push(ids, id, last.id);
        if ids.contains(last.id) {
        } else if last.id == id {
            assert forall|i: int| 0 <= i < front.len() implies (#[trigger] front[i]).id != id by {
                assert(entries[i].id != entries[entries.len() - 1].id);
            }
            lemma_entries_outside_absent(front, ids, id);
            let longer = kept.push(last);
            assert(longer.take(kept.len() as int) =~= kept);
            assert(is_first_entry_of(longer, id, kept.len() as int));
            lemma_first_entry_unique(longer, id, kept.len() as int);
            assert(longer.remove(kept.len() as int) =~= kept);
        } else {
            lemma_without_entry_push(kept, last, id);
        }
    } else {
        assert(id_absent(Seq::<TimeInfo>::empty(), id));
    }
}

} // verus!
