//! Fixed-capacity storage shared by the scheduler and the orchestrator:
//! the capacity bound, the bounded list of grain identifiers, and the
//! conversion of a `Duration` into whole nanoseconds.

use core::time::Duration;
use vstd::prelude::*;

verus! {

/// The most grains that can possibly play at the same time.
///
/// Increasing this will increase processing demands.
pub const MAX_GRAINS: usize = 50;

/// `heapless::Vec`, a vector with a capacity fixed at compile time. Its
/// contents are opaque to the verifier and are spoken of through a name
/// such as [`id_items`].
#[verifier::external_type_specification]
#[verifier::external_body]
#[verifier::reject_recursive_types(T)]
pub struct ExHeaplessVec<T, const N: usize>(heapless::Vec<T, N>);

/// The identifiers that a bounded list holds, in order.
pub uninterp spec fn id_items(v: heapless::Vec<usize, MAX_GRAINS>) -> Seq<usize>;

/// The length of a duration in nanoseconds.
pub uninterp spec fn duration_nanos(d: Duration) -> u128;

/// `heapless::Vec::new`: the list starts out empty.
#[verifier::external_body]
pub(crate) fn ids_new() -> (v: heapless::Vec<usize, MAX_GRAINS>)
    ensures
        id_items(v) == Seq::<usize>::empty(),
{
    heapless::Vec::new()
}

/// `heapless::Vec::push`: appends `id` while there is room, and hands it
/// back with the list untouched once `MAX_GRAINS` items are held.
#[verifier::external_body]
pub(crate) fn ids_push(v: &mut heapless::Vec<usize, MAX_GRAINS>, id: usize) -> (r: Result<
    (),
    usize,
>)
    ensures
        r.is_ok() <==> id_items(*old(v)).len() < MAX_GRAINS,
        r.is_ok() ==> id_items(*final(v)) == id_items(*old(v)).push(id),
        r matches Err(back) ==> back == id && id_items(*final(v)) == id_items(*old(v)),
{
    v.push(id)
}

/// `heapless::Vec::as_slice`: the items as a slice, never more than
/// `MAX_GRAINS` of them.
#[verifier::external_body]
pub(crate) fn ids_as_slice(v: &heapless::Vec<usize, MAX_GRAINS>) -> (s: &[usize])
    ensures
        s@ == id_items(*v),
        s@.len() <= MAX_GRAINS,
{
    v.as_slice()
}

/// `Duration::as_nanos`: the whole duration in nanoseconds.
#[verifier::external_body]
pub(crate) fn nanos_of(d: Duration) -> (n: u128)
    ensures
        n == duration_nanos(d),
{
    d.as_nanos()
}

} // verus!
