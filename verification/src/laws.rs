//! What holds of the handle kinds and the wrappers together.

use crate::capability::{CloneFromRaw, ErasablePtr};
use crate::handles::{AtomicShared, Borrowed, BorrowedMut, Owned, Shared};
use crate::heap::{Heap, Owner};
use crate::opaque::{lemma_unerase_erase, OpaquePtr};
use crate::thin::{CopyThin, RawThin, Thin};
use vstd::layout::{align_of, size_of};
use vstd::prelude::*;

verus! {

/// Converting a handle out and back in gives the same handle, directly and
/// through each of the wrappers: the handle that comes back has the same
/// address, and so reads and writes the same pointee.
pub proof fn lemma_round_trip<P: ErasablePtr>(handle: P)
    ensures
        P::spec_from_raw(handle.spec_into_raw()) == handle,
        P::spec_from_raw(RawThin::<P>::holding(handle.spec_into_raw())@) == handle,
        P::spec_from_raw(CopyThin::<P>::holding(handle.spec_into_raw())@) == handle,
        Thin::<P>::holding(handle.spec_into_raw()).handle() == handle,
{
    let ptr = handle.spec_into_raw();
    P::lemma_round_trip(handle);
    RawThin::<P>::lemma_holding_view(ptr);
    CopyThin::<P>::lemma_holding_view(ptr);
    Thin::<P>::lemma_holding_view(ptr);
}

/// Releasing the wrapper of a handle is destroying that handle, once: it
/// is in order exactly when destroying the handle is, and changes the
/// memory exactly as destroying the handle does. Unwrapping gives the
/// handle itself back and touches no memory, so whichever way a wrapper
/// ends, the handle is destroyed as often as if it had never been wrapped.
pub proof fn lemma_release_once<P: ErasablePtr>(handle: P, before: P::Memory, after: P::Memory)
    ensures
        ({
            let thin = Thin::<P>::holding(handle.spec_into_raw());
            &&& thin.handle() == handle
            &&& thin.releasable(before) == handle.releasable(before)
            &&& thin.released(before, after) == handle.released(before, after)
        }),
{
    lemma_round_trip(handle);
}

/// Destroying an exclusive owner gives its allocation back, and the handle
/// cannot be destroyed a second time. Of the pointees without size, one is
/// let go and no allocation is touched.
pub proof fn lemma_owned_release<T>(handle: Owned<T>, before: Heap<T>, after: Heap<T>)
    requires
        before.wf(),
        handle.releasable(before),
        handle.released(before, after),
    ensures
        size_of::<T>() != 0 ==> {
            &&& after@.blocks == before@.blocks.remove(handle.at@)
            &&& after@.freed == before@.freed + 1
            &&& !handle.releasable(after)
        },
        size_of::<T>() == 0 ==> {
            &&& after@.blocks == before@.blocks
            &&& after@.freed == before@.freed
            &&& after@.units.len() == before@.units.len() - 1
        },
{
    if size_of::<T>() != 0 {
        before.lemma_live_block(handle.at@);
    }
}

/// Destroying a shared handle lowers the count of its allocation by one.
/// The allocation is given back exactly when that was its last owner, and
/// then no handle to it can be destroyed again.
pub proof fn lemma_shared_release<T>(handle: Shared<T>, before: Heap<T>, after: Heap<T>)
    requires
        before.wf(),
        handle.releasable(before),
        handle.released(before, after),
    ensures
        before@.blocks[handle.at@].strong > 1 ==> {
            &&& after@.owned_by(handle.at@, Owner::Counted)
            &&& after@.blocks[handle.at@].strong == before@.blocks[handle.at@].strong - 1
            &&& after@.freed == before@.freed
        },
        before@.blocks[handle.at@].strong == 1 ==> {
            &&& !after@.live(handle.at@)
            &&& after@.freed == before@.freed + 1
            &&& !handle.releasable(after)
        },
        before@.blocks[handle.at@].strong >= 1,
{
    before.lemma_live_block(handle.at@);
}

/// Destroying an atomically shared handle lowers the count of its
/// allocation by one. The allocation is given back exactly when that was
/// its last owner, and then no handle to it can be destroyed again.
pub proof fn lemma_atomic_shared_release<T>(
    handle: AtomicShared<T>,
    before: Heap<T>,
    after: Heap<T>,
)
    requires
        before.wf(),
        handle.releasable(before),
        handle.released(before, after),
    ensures
        before@.blocks[handle.at@].strong > 1 ==> {
            &&& after@.owned_by(handle.at@, Owner::AtomicCounted)
            &&& after@.blocks[handle.at@].strong == before@.blocks[handle.at@].strong - 1
            &&& after@.freed == before@.freed
        },
        before@.blocks[handle.at@].strong == 1 ==> {
            &&& !after@.live(handle.at@)
            &&& after@.freed == before@.freed + 1
            &&& !handle.releasable(after)
        },
        before@.blocks[handle.at@].strong >= 1,
{
    before.lemma_live_block(handle.at@);
}

/// Duplicating a shared handle, of either kind, is one step of
/// `retain_times`, and destroying one is one step of `release_times`. So
/// what `lemma_duplicate_release` says of the heap holds of these handles
/// and of their wrappers.
pub proof fn lemma_shared_steps<T>(ptr: OpaquePtr, before: Heap<T>, after: Heap<T>, out: OpaquePtr)
    ensures
        Shared::<T>::duplicated(ptr, before, after, out) ==> out == ptr && after@
            == before@.retain_times(ptr@, 1),
        AtomicShared::<T>::duplicated(ptr, before, after, out) ==> out == ptr && after@
            == before@.retain_times(ptr@, 1),
        Shared::<T>::spec_from_raw(ptr).released(before, after) ==> after@
            == before@.release_times(ptr@, 1),
        AtomicShared::<T>::spec_from_raw(ptr).released(before, after) ==> after@
            == before@.release_times(ptr@, 1),
{
    lemma_unerase_erase::<T>(ptr);
    assert(before@.retain(ptr@).retain_times(ptr@, 0) == before@.retain(ptr@));
    assert(before@.release(ptr@).release_times(ptr@, 0) == before@.release(ptr@));
}

/// Duplicating an exclusive owner of a pointee without size makes no
/// allocation and touches none, and runs the pointee's duplication once.
/// The dangling address comes back; it names no allocation.
pub proof fn lemma_zero_size_duplication<T: Clone>(
    ptr: OpaquePtr,
    before: Heap<T>,
    after: Heap<T>,
    out: OpaquePtr,
)
    requires
        size_of::<T>() == 0,
        before.wf(),
        Owned::<T>::duplicable(ptr, before),
        Owned::<T>::duplicated(ptr, before, after, out),
    ensures
        out == ptr,
        out@ == align_of::<T>(),
        !after@.live(out@),
        after@.blocks == before@.blocks,
        after@.allocated == before@.allocated,
        after@.freed == before@.freed,
        after@.cloned == before@.cloned + 1,
        after@.units.len() == before@.units.len() + 1,
        cloned(before@.units.last(), after@.units.last()),
{
    out.lemma_view_injective(ptr);
    if before@.live(out@) {
        before.lemma_live_block(out@);
    }
}

/// Duplicating an exclusive owner of a pointee with a size puts a copy of
/// the pointee into one new allocation, which the new unit owns alone, and
/// leaves every other allocation as it was.
pub proof fn lemma_sized_duplication<T: Clone>(
    ptr: OpaquePtr,
    before: Heap<T>,
    after: Heap<T>,
    out: OpaquePtr,
)
    requires
        size_of::<T>() != 0,
        before.wf(),
        Owned::<T>::duplicable(ptr, before),
        Owned::<T>::duplicated(ptr, before, after, out),
    ensures
        out != ptr,
        !before@.live(out@),
        after@.owned_by(out@, Owner::Unique),
        after@.blocks[out@].strong == 1,
        cloned(before@.blocks[ptr@].value, after@.blocks[out@].value),
        after@.blocks.remove(out@) == before@.blocks,
        after@.allocated == before@.allocated + 1,
        after@.cloned == before@.cloned + 1,
        Owned::<T>::spec_from_raw(out).releasable(after),
        Owned::<T>::spec_from_raw(ptr).releasable(after),
{
    before.lemma_live_block(ptr@);
    if before@.live(out@) {
        before.lemma_live_block(out@);
    }
    lemma_unerase_erase::<T>(ptr);
    lemma_unerase_erase::<T>(out);
    assert(after@.blocks.remove(out@) =~= before@.blocks);
}

/// Duplicating a borrow, mutable or not, is in order for every pointer and
/// every heap, gives the same pointer back and leaves the heap as it was:
/// nothing is allocated and no count changes.
pub proof fn lemma_borrow_duplication<T>(
    ptr: OpaquePtr,
    before: Heap<T>,
    after: Heap<T>,
    out: OpaquePtr,
)
    ensures
        Borrowed::<T>::duplicable(ptr, before),
        BorrowedMut::<T>::duplicable(ptr, before),
        Borrowed::<T>::duplicated(ptr, before, after, out) <==> out == ptr && after == before,
        BorrowedMut::<T>::duplicated(ptr, before, after, out) <==> out == ptr && after == before,
{
}

} // verus!
