//! The kinds of handle: two that borrow, one that owns exclusively and two
//! that share ownership by a count. Each is the typed address of its
//! pointee in a heap.

use crate::capability::{CloneFromRaw, ErasablePtr, ReadThrough, WriteThrough};
use crate::heap::{Heap, Owner};
use crate::opaque::{lemma_erase_unerase, lemma_unerase_erase, Erasable, OpaquePtr, TypedPtr};
use vstd::layout::{align_of, size_of};
use vstd::prelude::*;

verus! {

/// A borrowing handle: it owns nothing, and copying it is always in order.
pub struct Borrowed<T> {
    /// The address of the pointee.
    pub at: TypedPtr<T>,
}

impl<T> Clone for Borrowed<T> {
    fn clone(&self) -> (out: Self)
        ensures
            out == *self,
    {
        *self
    }
}

impl<T> Copy for Borrowed<T> {

}

impl<T> ErasablePtr for Borrowed<T> {
    type Memory = Heap<T>;

    open spec fn spec_into_raw(self) -> OpaquePtr {
        self.at.erased()
    }

    open spec fn spec_from_raw(ptr: OpaquePtr) -> Self {
        Borrowed { at: ptr.typed() }
    }

    open spec fn spec_needs_release() -> bool {
        false
    }

    open spec fn releasable(self, mem: Heap<T>) -> bool {
        true
    }

    open spec fn released(self, before: Heap<T>, after: Heap<T>) -> bool {
        after == before
    }

    proof fn lemma_round_trip(handle: Self) {
        lemma_erase_unerase(handle.at);
    }

    proof fn lemma_raw_round_trip(ptr: OpaquePtr) {
        lemma_unerase_erase::<T>(ptr);
    }

    proof fn lemma_release_skipped(handle: Self, mem: Heap<T>) {
    }

    fn into_raw(self) -> (ptr: OpaquePtr) {
        self.at.erase()
    }

    fn from_raw(ptr: OpaquePtr) -> (handle: Self) {
        Borrowed { at: T::unerase(ptr) }
    }

    fn needs_release() -> (needed: bool) {
        false
    }

    fn release(self, mem: &mut Heap<T>) {
    }
}

/// Duplicating a borrow copies the address: nothing is allocated and no
/// count changes, whatever the pointer and the heap.
impl<T> CloneFromRaw for Borrowed<T> {
    open spec fn duplicable(ptr: OpaquePtr, mem: Heap<T>) -> bool {
        true
    }

    open spec fn duplicated(ptr: OpaquePtr, before: Heap<T>, after: Heap<T>, out: OpaquePtr) -> bool {
        out == ptr && after == before
    }

    proof fn lemma_duplicated_units(
        ptr: OpaquePtr,
        before: Heap<T>,
        after: Heap<T>,
        out: OpaquePtr,
    ) {
        lemma_unerase_erase::<T>(ptr);
        lemma_unerase_erase::<T>(out);
    }

    fn clone_from_raw(ptr: OpaquePtr, mem: &mut Heap<T>) -> (out: OpaquePtr) {
        ptr
    }
}

impl<T> ReadThrough for Borrowed<T> {
    type Target = T;

    open spec fn readable(at: TypedPtr<T>, mem: Heap<T>) -> bool {
        mem@.live(at@)
    }

    open spec fn pointee(at: TypedPtr<T>, mem: Heap<T>) -> T {
        mem@.blocks[at@].value
    }

    fn read<'m>(at: TypedPtr<T>, mem: &'m Heap<T>) -> (value: &'m T) {
        mem.read(at)
    }
}

/// A mutably borrowing handle: it owns nothing, and is the only way to its
/// pointee while it is in use.
pub struct BorrowedMut<T> {
    /// The address of the pointee.
    pub at: TypedPtr<T>,
}

impl<T> ErasablePtr for BorrowedMut<T> {
    type Memory = Heap<T>;

    open spec fn spec_into_raw(self) -> OpaquePtr {
        self.at.erased()
    }

    open spec fn spec_from_raw(ptr: OpaquePtr) -> Self {
        BorrowedMut { at: ptr.typed() }
    }

    open spec fn spec_needs_release() -> bool {
        false
    }

    open spec fn releasable(self, mem: Heap<T>) -> bool {
        true
    }

    open spec fn released(self, before: Heap<T>, after: Heap<T>) -> bool {
        after == before
    }

    proof fn lemma_round_trip(handle: Self) {
        lemma_erase_unerase(handle.at);
    }

    proof fn lemma_raw_round_trip(ptr: OpaquePtr) {
        lemma_unerase_erase::<T>(ptr);
    }

    proof fn lemma_release_skipped(handle: Self, mem: Heap<T>) {
    }

    fn into_raw(self) -> (ptr: OpaquePtr) {
        self.at.erase()
    }

    fn from_raw(ptr: OpaquePtr) -> (handle: Self) {
        BorrowedMut { at: T::unerase(ptr) }
    }

    fn needs_release() -> (needed: bool) {
        false
    }

    fn release(self, mem: &mut Heap<T>) {
    }
}

/// Duplicating a mutable borrow copies the address: nothing is allocated
/// and no count changes, whatever the pointer and the heap.
impl<T> CloneFromRaw for BorrowedMut<T> {
    open spec fn duplicable(ptr: OpaquePtr, mem: Heap<T>) -> bool {
        true
    }

    open spec fn duplicated(ptr: OpaquePtr, before: Heap<T>, after: Heap<T>, out: OpaquePtr) -> bool {
        out == ptr && after == before
    }

    proof fn lemma_duplicated_units(
        ptr: OpaquePtr,
        before: Heap<T>,
        after: Heap<T>,
        out: OpaquePtr,
    ) {
        lemma_unerase_erase::<T>(ptr);
        lemma_unerase_erase::<T>(out);
    }

    fn clone_from_raw(ptr: OpaquePtr, mem: &mut Heap<T>) -> (out: OpaquePtr) {
        ptr
    }
}

impl<T> ReadThrough for BorrowedMut<T> {
    type Target = T;

    open spec fn readable(at: TypedPtr<T>, mem: Heap<T>) -> bool {
        mem@.live(at@)
    }

    open spec fn pointee(at: TypedPtr<T>, mem: Heap<T>) -> T {
        mem@.blocks[at@].value
    }

    fn read<'m>(at: TypedPtr<T>, mem: &'m Heap<T>) -> (value: &'m T) {
        mem.read(at)
    }
}

impl<T> WriteThrough for BorrowedMut<T> {
    open spec fn written(at: TypedPtr<T>, before: Heap<T>, after: Heap<T>, value: T) -> bool {
        after@ == before@.store(at@, value)
    }

    fn write(at: TypedPtr<T>, mem: &mut Heap<T>, value: T) -> (previous: T) {
        mem.replace(at, value)
    }
}

/// An exclusively-owning handle: the only owner of its allocation, which
/// is given back when the handle is destroyed.
///
/// A pointee without size has no allocation: its handle holds the dangling
/// address, and the heap keeps the pointee without storing anything.
pub struct Owned<T> {
    /// The address of the pointee.
    pub at: TypedPtr<T>,
}

impl<T> Owned<T> {
    /// Moves `value` into the heap and hands back the handle that owns it.
    pub fn new(value: T, heap: &mut Heap<T>) -> (handle: Self)
        requires
            size_of::<T>() == 0 ==> old(heap)@.units.len() < usize::MAX,
            size_of::<T>() != 0 ==> old(heap)@.has_room(),
        ensures
            size_of::<T>() == 0 ==> handle.at@ == align_of::<T>() && final(heap)@ == old(
                heap,
            )@.push_unit(value),
            size_of::<T>() != 0 ==> handle.at@ == old(heap)@.next_addr() && final(heap)@ == old(
                heap,
            )@.allocate(value, Owner::Unique),
    {
        if core::mem::size_of::<T>() == 0 {
            heap.push_unit(value);
            Owned { at: TypedPtr::dangling() }
        } else {
            let ptr = heap.allocate(value, Owner::Unique);
            Owned { at: T::unerase(ptr) }
        }
    }
}

impl<T> ErasablePtr for Owned<T> {
    type Memory = Heap<T>;

    open spec fn spec_into_raw(self) -> OpaquePtr {
        self.at.erased()
    }

    open spec fn spec_from_raw(ptr: OpaquePtr) -> Self {
        Owned { at: ptr.typed() }
    }

    open spec fn spec_needs_release() -> bool {
        true
    }

    open spec fn releasable(self, mem: Heap<T>) -> bool {
        if size_of::<T>() == 0 {
            self.at@ == align_of::<T>() && mem@.units.len() > 0
        } else {
            mem@.owned_by(self.at@, Owner::Unique)
        }
    }

    open spec fn released(self, before: Heap<T>, after: Heap<T>) -> bool {
        if size_of::<T>() == 0 {
            after@ == before@.pop_unit()
        } else {
            after@ == before@.release(self.at@)
        }
    }

    proof fn lemma_round_trip(handle: Self) {
        lemma_erase_unerase(handle.at);
    }

    proof fn lemma_raw_round_trip(ptr: OpaquePtr) {
        lemma_unerase_erase::<T>(ptr);
    }

    proof fn lemma_release_skipped(handle: Self, mem: Heap<T>) {
    }

    fn into_raw(self) -> (ptr: OpaquePtr) {
        self.at.erase()
    }

    fn from_raw(ptr: OpaquePtr) -> (handle: Self) {
        Owned { at: T::unerase(ptr) }
    }

    fn needs_release() -> (needed: bool) {
        true
    }

    fn release(self, mem: &mut Heap<T>) {
        if core::mem::size_of::<T>() == 0 {
            mem.pop_unit();
        } else {
            mem.release(self.at.erase());
        }
    }
}

/// Duplicating an exclusive owner duplicates the pointee into a new
/// allocation. For a pointee without size the pointee's duplication is
/// still run, but nothing is allocated: the copy joins the pointees kept at
/// the dangling address, which is what comes back.
impl<T: Clone> CloneFromRaw for Owned<T> {
    open spec fn duplicable(ptr: OpaquePtr, mem: Heap<T>) -> bool {
        if size_of::<T>() == 0 {
            ptr@ == align_of::<T>() && 0 < mem@.units.len() < usize::MAX
        } else {
            mem@.owned_by(ptr@, Owner::Unique) && mem@.has_room()
        }
    }

    open spec fn duplicated(ptr: OpaquePtr, before: Heap<T>, after: Heap<T>, out: OpaquePtr) -> bool {
        if size_of::<T>() == 0 {
            let copy = after@.units.last();
            &&& out@ == align_of::<T>()
            &&& cloned(before@.units.last(), copy)
            &&& after@ == before@.count_clone().push_unit(copy)
        } else {
            let copy = after@.blocks[out@].value;
            &&& out@ == before@.next_addr()
            &&& !before@.live(out@)
            &&& cloned(before@.blocks[ptr@].value, copy)
            &&& after@ == before@.count_clone().allocate(copy, Owner::Unique)
        }
    }

    proof fn lemma_duplicated_units(
        ptr: OpaquePtr,
        before: Heap<T>,
        after: Heap<T>,
        out: OpaquePtr,
    ) {
        lemma_unerase_erase::<T>(ptr);
        lemma_unerase_erase::<T>(out);
    }

    fn clone_from_raw(ptr: OpaquePtr, mem: &mut Heap<T>) -> (out: OpaquePtr) {
        if core::mem::size_of::<T>() == 0 {
            let copy = mem.duplicate_unit();
            mem.push_unit(copy);
            TypedPtr::<T>::dangling().erase()
        } else {
            let copy = mem.duplicate_value(T::unerase(ptr));
            mem.allocate(copy, Owner::Unique)
        }
    }
}

impl<T> ReadThrough for Owned<T> {
    type Target = T;

    open spec fn readable(at: TypedPtr<T>, mem: Heap<T>) -> bool {
        mem@.owned_by(at@, Owner::Unique)
    }

    open spec fn pointee(at: TypedPtr<T>, mem: Heap<T>) -> T {
        mem@.blocks[at@].value
    }

    fn read<'m>(at: TypedPtr<T>, mem: &'m Heap<T>) -> (value: &'m T) {
        mem.read(at)
    }
}

impl<T> WriteThrough for Owned<T> {
    open spec fn written(at: TypedPtr<T>, before: Heap<T>, after: Heap<T>, value: T) -> bool {
        after@ == before@.store(at@, value)
    }

    fn write(at: TypedPtr<T>, mem: &mut Heap<T>, value: T) -> (previous: T) {
        mem.replace(at, value)
    }
}

/// A shared handle whose count is kept without synchronisation: one of the
/// owners of its allocation, which is given back with the last of them.
pub struct Shared<T> {
    /// The address of the pointee.
    pub at: TypedPtr<T>,
}

impl<T> Shared<T> {
    /// Moves `value` into a new allocation and hands back its first owner.
    pub fn new(value: T, heap: &mut Heap<T>) -> (handle: Self)
        requires
            old(heap)@.has_room(),
        ensures
            handle.at@ == old(heap)@.next_addr(),
            final(heap)@ == old(heap)@.allocate(value, Owner::Counted),
    {
        let ptr = heap.allocate(value, Owner::Counted);
        Shared { at: T::unerase(ptr) }
    }
}

impl<T> ErasablePtr for Shared<T> {
    type Memory = Heap<T>;

    open spec fn spec_into_raw(self) -> OpaquePtr {
        self.at.erased()
    }

    open spec fn spec_from_raw(ptr: OpaquePtr) -> Self {
        Shared { at: ptr.typed() }
    }

    open spec fn spec_needs_release() -> bool {
        true
    }

    open spec fn releasable(self, mem: Heap<T>) -> bool {
        mem@.owned_by(self.at@, Owner::Counted)
    }

    open spec fn released(self, before: Heap<T>, after: Heap<T>) -> bool {
        after@ == before@.release(self.at@)
    }

    proof fn lemma_round_trip(handle: Self) {
        lemma_erase_unerase(handle.at);
    }

    proof fn lemma_raw_round_trip(ptr: OpaquePtr) {
        lemma_unerase_erase::<T>(ptr);
    }

    proof fn lemma_release_skipped(handle: Self, mem: Heap<T>) {
    }

    fn into_raw(self) -> (ptr: OpaquePtr) {
        self.at.erase()
    }

    fn from_raw(ptr: OpaquePtr) -> (handle: Self) {
        Shared { at: T::unerase(ptr) }
    }

    fn needs_release() -> (needed: bool) {
        true
    }

    fn release(self, mem: &mut Heap<T>) {
        mem.release(self.at.erase());
    }
}

/// Duplicating a shared handle raises the count of its allocation by one,
/// in place: the same address comes back, and nothing is allocated.
impl<T> CloneFromRaw for Shared<T> {
    open spec fn duplicable(ptr: OpaquePtr, mem: Heap<T>) -> bool {
        mem@.owned_by(ptr@, Owner::Counted) && mem@.blocks[ptr@].strong < usize::MAX
    }

    open spec fn duplicated(ptr: OpaquePtr, before: Heap<T>, after: Heap<T>, out: OpaquePtr) -> bool {
        out == ptr && after@ == before@.retain(ptr@)
    }

    proof fn lemma_duplicated_units(
        ptr: OpaquePtr,
        before: Heap<T>,
        after: Heap<T>,
        out: OpaquePtr,
    ) {
        lemma_unerase_erase::<T>(ptr);
        lemma_unerase_erase::<T>(out);
    }

    fn clone_from_raw(ptr: OpaquePtr, mem: &mut Heap<T>) -> (out: OpaquePtr) {
        let at = T::unerase(ptr);
        mem.retain(at.erase());
        ptr
    }
}

impl<T> ReadThrough for Shared<T> {
    type Target = T;

    open spec fn readable(at: TypedPtr<T>, mem: Heap<T>) -> bool {
        mem@.owned_by(at@, Owner::Counted)
    }

    open spec fn pointee(at: TypedPtr<T>, mem: Heap<T>) -> T {
        mem@.blocks[at@].value
    }

    fn read<'m>(at: TypedPtr<T>, mem: &'m Heap<T>) -> (value: &'m T) {
        mem.read(at)
    }
}

/// A shared handle whose count is kept for use from several threads: one
/// of the owners of its allocation, which is given back with the last of
/// them.
///
/// The heap is borrowed exclusively while a count changes, so no other
/// holder sees a count in the middle of an update.
pub struct AtomicShared<T> {
    /// The address of the pointee.
    pub at: TypedPtr<T>,
}

impl<T> AtomicShared<T> {
    /// Moves `value` into a new allocation and hands back its first owner.
    pub fn new(value: T, heap: &mut Heap<T>) -> (handle: Self)
        requires
            old(heap)@.has_room(),
        ensures
            handle.at@ == old(heap)@.next_addr(),
            final(heap)@ == old(heap)@.allocate(value, Owner::AtomicCounted),
    {
        let ptr = heap.allocate(value, Owner::AtomicCounted);
        AtomicShared { at: T::unerase(ptr) }
    }
}

impl<T> ErasablePtr for AtomicShared<T> {
    type Memory = Heap<T>;

    open spec fn spec_into_raw(self) -> OpaquePtr {
        self.at.erased()
    }

    open spec fn spec_from_raw(ptr: OpaquePtr) -> Self {
        AtomicShared { at: ptr.typed() }
    }

    open spec fn spec_needs_release() -> bool {
        true
    }

    open spec fn releasable(self, mem: Heap<T>) -> bool {
        mem@.owned_by(self.at@, Owner::AtomicCounted)
    }

    open spec fn released(self, before: Heap<T>, after: Heap<T>) -> bool {
        after@ == before@.release(self.at@)
    }

    proof fn lemma_round_trip(handle: Self) {
        lemma_erase_unerase(handle.at);
    }

    proof fn lemma_raw_round_trip(ptr: OpaquePtr) {
        lemma_unerase_erase::<T>(ptr);
    }

    proof fn lemma_release_skipped(handle: Self, mem: Heap<T>) {
    }

    fn into_raw(self) -> (ptr: OpaquePtr) {
        self.at.erase()
    }

    fn from_raw(ptr: OpaquePtr) -> (handle: Self) {
        AtomicShared { at: T::unerase(ptr) }
    }

    fn needs_release() -> (needed: bool) {
        true
    }

    fn release(self, mem: &mut Heap<T>) {
        mem.release(self.at.erase());
    }
}

/// Duplicating an atomically shared handle raises the count of its
/// allocation by one, in place: the same address comes back, and nothing is
/// allocated.
impl<T> CloneFromRaw for AtomicShared<T> {
    open spec fn duplicable(ptr: OpaquePtr, mem: Heap<T>) -> bool {
        mem@.owned_by(ptr@, Owner::AtomicCounted) && mem@.blocks[ptr@].strong < usize::MAX
    }

    open spec fn duplicated(ptr: OpaquePtr, before: Heap<T>, after: Heap<T>, out: OpaquePtr) -> bool {
        out == ptr && after@ == before@.retain(ptr@)
    }

    proof fn lemma_duplicated_units(
        ptr: OpaquePtr,
        before: Heap<T>,
        after: Heap<T>,
        out: OpaquePtr,
    ) {
        lemma_unerase_erase::<T>(ptr);
        lemma_unerase_erase::<T>(out);
    }

    fn clone_from_raw(ptr: OpaquePtr, mem: &mut Heap<T>) -> (out: OpaquePtr) {
        let at = T::unerase(ptr);
        mem.retain(at.erase());
        ptr
    }
}

impl<T> ReadThrough for AtomicShared<T> {
    type Target = T;

    open spec fn readable(at: TypedPtr<T>, mem: Heap<T>) -> bool {
        mem@.owned_by(at@, Owner::AtomicCounted)
    }

    open spec fn pointee(at: TypedPtr<T>, mem: Heap<T>) -> T {
        mem@.blocks[at@].value
    }

    fn read<'m>(at: TypedPtr<T>, mem: &'m Heap<T>) -> (value: &'m T) {
        mem.read(at)
    }
}

} // verus!
