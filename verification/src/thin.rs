//! Thin wrappers: one machine word that stands for a handle of kind `P`.

use crate::capability::{CloneFromRaw, ErasablePtr, ReadThrough, WriteThrough};
use crate::opaque::{Erasable, OpaquePtr};
use core::marker::PhantomData;
use vstd::prelude::*;

verus! {

/// An opaque pointer labelled with the kind of handle it came from.
///
/// The label exists in the type only. A `RawThin` has no lifecycle of its
/// own: copying it copies the address and duplicates no ownership, and
/// nothing happens when it goes away. Its view is the opaque pointer.
pub struct RawThin<P> {
    ptr: OpaquePtr,
    _ty: PhantomData<P>,
}

impl<P> Clone for RawThin<P> {
    fn clone(&self) -> (out: Self)
        ensures
            out == *self,
    {
        *self
    }
}

impl<P> Copy for RawThin<P> {

}

impl<P> View for RawThin<P> {
    type V = OpaquePtr;

    closed spec fn view(&self) -> OpaquePtr {
        self.ptr
    }
}

impl<P> RawThin<P> {
    /// The wrapper that holds `ptr`.
    pub closed spec fn holding(ptr: OpaquePtr) -> Self {
        RawThin { ptr, _ty: PhantomData }
    }

    /// A wrapper is the opaque pointer that it holds, and nothing else.
    pub proof fn lemma_holding(self)
        ensures
            Self::holding(self@) == self,
    {
    }

    /// The wrapper that holds `ptr` has `ptr` as its view.
    pub proof fn lemma_holding_view(ptr: OpaquePtr)
        ensures
            Self::holding(ptr)@ == ptr,
    {
    }
}

impl<P: ErasablePtr> RawThin<P> {
    /// Converts `handle` out and keeps the opaque pointer, which stands
    /// for `handle`.
    pub fn new(handle: P) -> (thin: Self)
        ensures
            thin@ == handle.spec_into_raw(),
            P::spec_from_raw(thin@) == handle,
    {
        proof {
            P::lemma_round_trip(handle);
        }
        let ptr = P::into_raw(handle);
        RawThin { ptr, _ty: PhantomData }
    }

    /// Converts the opaque pointer back into a handle. The unit of
    /// ownership that the wrapper stood for passes to the handle: no copy
    /// of the wrapper stands for it any longer.
    pub fn into_inner(self) -> (handle: P)
        ensures
            handle == P::spec_from_raw(self@),
    {
        P::from_raw(self.ptr)
    }

    /// Duplicates the unit of ownership that the wrapper stands for, and
    /// wraps the opaque pointer of the new unit.
    pub fn clone_ptr(self, mem: &mut P::Memory) -> (out: Self) where P: CloneFromRaw
        requires
            P::duplicable(self@, *old(mem)),
        ensures
            P::duplicated(self@, *old(mem), *final(mem), out@),
            P::spec_from_raw(out@).releasable(*final(mem)),
            P::spec_from_raw(self@).releasable(*old(mem)) ==> P::spec_from_raw(self@).releasable(
                *final(mem),
            ),
    {
        let ghost before = *mem;
        let ptr = P::clone_from_raw(self.ptr, mem);
        proof {
            P::lemma_duplicated_units(self.ptr, before, *mem, ptr);
        }
        RawThin { ptr, _ty: PhantomData }
    }
}

/// A `RawThin` is itself a handle: a copyable one that owns nothing.
impl<P> ErasablePtr for RawThin<P> {
    type Memory = ();

    open spec fn spec_into_raw(self) -> OpaquePtr {
        self@
    }

    open spec fn spec_from_raw(ptr: OpaquePtr) -> Self {
        Self::holding(ptr)
    }

    open spec fn spec_needs_release() -> bool {
        false
    }

    open spec fn releasable(self, mem: ()) -> bool {
        true
    }

    open spec fn released(self, before: (), after: ()) -> bool {
        true
    }

    proof fn lemma_round_trip(handle: Self) {
    }

    proof fn lemma_raw_round_trip(ptr: OpaquePtr) {
    }

    proof fn lemma_release_skipped(handle: Self, mem: ()) {
    }

    fn into_raw(self) -> (ptr: OpaquePtr) {
        self.ptr
    }

    fn from_raw(ptr: OpaquePtr) -> (handle: Self) {
        RawThin { ptr, _ty: PhantomData }
    }

    fn needs_release() -> (needed: bool) {
        false
    }

    fn release(self, mem: &mut ()) {
    }
}

/// Duplicating a `RawThin` from its opaque pointer copies the address.
impl<P> CloneFromRaw for RawThin<P> {
    open spec fn duplicable(ptr: OpaquePtr, mem: ()) -> bool {
        true
    }

    open spec fn duplicated(ptr: OpaquePtr, before: (), after: (), out: OpaquePtr) -> bool {
        out == ptr
    }

    proof fn lemma_duplicated_units(ptr: OpaquePtr, before: (), after: (), out: OpaquePtr) {
    }

    fn clone_from_raw(ptr: OpaquePtr, mem: &mut ()) -> (out: OpaquePtr) {
        ptr
    }
}


/// A `RawThin` for a kind of handle that is itself freely copyable.
///
/// Such a handle needs no tracking: every copy of the wrapper is a handle
/// in its own right, and converting any of them back is always in order.
/// Its view is the opaque pointer.
pub struct CopyThin<P> {
    raw: RawThin<P>,
}

impl<P> Clone for CopyThin<P> {
    fn clone(&self) -> (out: Self)
        ensures
            out == *self,
    {
        *self
    }
}

impl<P> Copy for CopyThin<P> {

}

impl<P> View for CopyThin<P> {
    type V = OpaquePtr;

    closed spec fn view(&self) -> OpaquePtr {
        self.raw@
    }
}

impl<P> CopyThin<P> {
    /// The wrapper that holds `ptr`.
    pub closed spec fn holding(ptr: OpaquePtr) -> Self {
        CopyThin { raw: RawThin::holding(ptr) }
    }

    /// A wrapper is the opaque pointer that it holds, and nothing else.
    pub proof fn lemma_holding(self)
        ensures
            Self::holding(self@) == self,
    {
        self.raw.lemma_holding();
    }

    /// The wrapper that holds `ptr` has `ptr` as its view.
    pub proof fn lemma_holding_view(ptr: OpaquePtr)
        ensures
            Self::holding(ptr)@ == ptr,
    {
        RawThin::<P>::lemma_holding_view(ptr);
    }
}

impl<P: ErasablePtr + Copy> CopyThin<P> {
    /// Converts `handle` out and keeps the opaque pointer, which stands
    /// for `handle`.
    pub fn new(handle: P) -> (thin: Self)
        ensures
            thin@ == handle.spec_into_raw(),
            P::spec_from_raw(thin@) == handle,
    {
        CopyThin { raw: RawThin::new(handle) }
    }
}

impl<P: ErasablePtr> CopyThin<P> {
    /// Converts the opaque pointer back into a handle.
    pub fn into_inner(self) -> (handle: P)
        ensures
            handle == P::spec_from_raw(self@),
    {
        self.raw.into_inner()
    }
}

/// A `CopyThin` is itself a handle: a copyable one that owns nothing.
impl<P> ErasablePtr for CopyThin<P> {
    type Memory = ();

    open spec fn spec_into_raw(self) -> OpaquePtr {
        self@
    }

    open spec fn spec_from_raw(ptr: OpaquePtr) -> Self {
        Self::holding(ptr)
    }

    open spec fn spec_needs_release() -> bool {
        false
    }

    open spec fn releasable(self, mem: ()) -> bool {
        true
    }

    open spec fn released(self, before: (), after: ()) -> bool {
        true
    }

    proof fn lemma_round_trip(handle: Self) {
        handle.lemma_holding();
    }

    proof fn lemma_raw_round_trip(ptr: OpaquePtr) {
        Self::lemma_holding_view(ptr);
    }

    proof fn lemma_release_skipped(handle: Self, mem: ()) {
    }

    fn into_raw(self) -> (ptr: OpaquePtr) {
        self.raw.into_raw()
    }

    fn from_raw(ptr: OpaquePtr) -> (handle: Self) {
        CopyThin { raw: RawThin::from_raw(ptr) }
    }

    fn needs_release() -> (needed: bool) {
        false
    }

    fn release(self, mem: &mut ()) {
    }
}

/// Duplicating a `CopyThin` from its opaque pointer copies the address.
impl<P> CloneFromRaw for CopyThin<P> {
    open spec fn duplicable(ptr: OpaquePtr, mem: ()) -> bool {
        true
    }

    open spec fn duplicated(ptr: OpaquePtr, before: (), after: (), out: OpaquePtr) -> bool {
        out == ptr
    }

    proof fn lemma_duplicated_units(ptr: OpaquePtr, before: (), after: (), out: OpaquePtr) {
    }

    fn clone_from_raw(ptr: OpaquePtr, mem: &mut ()) -> (out: OpaquePtr) {
        ptr
    }
}

/// The owning wrapper: one machine word that holds one unit of ownership of
/// a handle of kind `P`.
///
/// A `Thin` is live from `new` or `duplicate` until it is consumed, by
/// `release`, which destroys the handle, or by `into_inner`, which hands the
/// handle back and destroys nothing. Both take the wrapper by value, so a
/// consumed wrapper cannot be used again. Its view is the opaque pointer.
pub struct Thin<P: ErasablePtr> {
    raw: RawThin<P>,
}

impl<P: ErasablePtr> View for Thin<P> {
    type V = OpaquePtr;

    closed spec fn view(&self) -> OpaquePtr {
        self.raw@
    }
}

impl<P: ErasablePtr> Thin<P> {
    /// The wrapper that holds `ptr`.
    pub closed spec fn holding(ptr: OpaquePtr) -> Self {
        Thin { raw: RawThin::holding(ptr) }
    }

    /// The handle that the wrapper stands for.
    pub open spec fn handle(self) -> P {
        P::spec_from_raw(self@)
    }

    /// A wrapper is the opaque pointer that it holds, and nothing else.
    pub proof fn lemma_holding(self)
        ensures
            Self::holding(self@) == self,
    {
        self.raw.lemma_holding();
    }

    /// The wrapper that holds `ptr` has `ptr` as its view.
    pub proof fn lemma_holding_view(ptr: OpaquePtr)
        ensures
            Self::holding(ptr)@ == ptr,
    {
        RawThin::<P>::lemma_holding_view(ptr);
    }

    /// Converts `handle` out and keeps the opaque pointer: the wrapper is
    /// live and stands for `handle`.
    pub fn new(handle: P) -> (thin: Self)
        ensures
            thin@ == handle.spec_into_raw(),
            thin.handle() == handle,
    {
        proof {
            P::lemma_round_trip(handle);
        }
        Thin { raw: RawThin::new(handle) }
    }

    /// Consumes the wrapper and hands back the handle that it stood for.
    /// Nothing is destroyed.
    pub fn into_inner(self) -> (handle: P)
        ensures
            handle == self.handle(),
    {
        self.raw.into_inner()
    }

    /// Duplicates the unit of ownership that the wrapper holds into a
    /// second live wrapper. The first stays live.
    pub fn duplicate(&self, mem: &mut P::Memory) -> (out: Self) where P: CloneFromRaw
        requires
            P::duplicable(self@, *old(mem)),
        ensures
            P::duplicated(self@, *old(mem), *final(mem), out@),
            out.handle().releasable(*final(mem)),
            self.handle().releasable(*old(mem)) ==> self.handle().releasable(*final(mem)),
    {
        Thin { raw: self.raw.clone_ptr(mem) }
    }

    /// Consumes the wrapper and destroys the handle that it stood for.
    /// Where destroying a handle of kind `P` does nothing, the handle is
    /// not even made.
    pub fn release(self, mem: &mut P::Memory)
        requires
            self.handle().releasable(*old(mem)),
        ensures
            self.handle().released(*old(mem), *final(mem)),
            !P::spec_needs_release() ==> *final(mem) == *old(mem),
    {
        if P::needs_release() {
            let handle = self.raw.into_inner();
            handle.release(mem);
        } else {
            proof {
                P::lemma_release_skipped(self.handle(), *mem);
            }
        }
    }

    /// A reference to the pointee of the handle that the wrapper stands
    /// for.
    pub fn deref<'m>(&self, mem: &'m P::Memory) -> (value: &'m P::Target) where P: ReadThrough
        requires
            P::readable(self@.typed(), *mem),
        ensures
            *value == P::pointee(self@.typed(), *mem),
    {
        P::read(<P::Target as Erasable>::unerase(self.raw.into_raw()), mem)
    }

    /// Writes `value` to the pointee of the handle that the wrapper stands
    /// for, and hands back what was there.
    pub fn replace(&mut self, mem: &mut P::Memory, value: P::Target) -> (previous:
        P::Target) where P: WriteThrough
        requires
            P::readable(old(self)@.typed(), *old(mem)),
        ensures
            *final(self) == *old(self),
            previous == P::pointee(old(self)@.typed(), *old(mem)),
            P::readable(old(self)@.typed(), *final(mem)),
            P::pointee(old(self)@.typed(), *final(mem)) == value,
            P::written(old(self)@.typed(), *old(mem), *final(mem), value),
    {
        P::write(<P::Target as Erasable>::unerase(self.raw.into_raw()), mem, value)
    }
}

/// A `Thin` is itself a handle, with the memory and the destruction of the
/// handle that it stands for.
impl<P: ErasablePtr> ErasablePtr for Thin<P> {
    type Memory = P::Memory;

    open spec fn spec_into_raw(self) -> OpaquePtr {
        self@
    }

    open spec fn spec_from_raw(ptr: OpaquePtr) -> Self {
        Self::holding(ptr)
    }

    open spec fn spec_needs_release() -> bool {
        P::spec_needs_release()
    }

    open spec fn releasable(self, mem: P::Memory) -> bool {
        self.handle().releasable(mem)
    }

    open spec fn released(self, before: P::Memory, after: P::Memory) -> bool {
        self.handle().released(before, after)
    }

    proof fn lemma_round_trip(handle: Self) {
        handle.lemma_holding();
    }

    proof fn lemma_raw_round_trip(ptr: OpaquePtr) {
        Self::lemma_holding_view(ptr);
    }

    proof fn lemma_release_skipped(handle: Self, mem: P::Memory) {
        P::lemma_release_skipped(handle.handle(), mem);
    }

    fn into_raw(self) -> (ptr: OpaquePtr) {
        self.raw.into_raw()
    }

    fn from_raw(ptr: OpaquePtr) -> (handle: Self) {
        Thin { raw: RawThin::from_raw(ptr) }
    }

    fn needs_release() -> (needed: bool) {
        P::needs_release()
    }

    fn release(self, mem: &mut P::Memory) {
        Thin::release(self, mem)
    }
}

/// Duplicating a `Thin` from its opaque pointer duplicates the handle that
/// it stands for.
impl<P: CloneFromRaw> CloneFromRaw for Thin<P> {
    open spec fn duplicable(ptr: OpaquePtr, mem: P::Memory) -> bool {
        P::duplicable(ptr, mem)
    }

    open spec fn duplicated(
        ptr: OpaquePtr,
        before: P::Memory,
        after: P::Memory,
        out: OpaquePtr,
    ) -> bool {
        P::duplicated(ptr, before, after, out)
    }

    proof fn lemma_duplicated_units(
        ptr: OpaquePtr,
        before: P::Memory,
        after: P::Memory,
        out: OpaquePtr,
    ) {
        P::lemma_duplicated_units(ptr, before, after, out);
        Self::lemma_holding_view(ptr);
        Self::lemma_holding_view(out);
    }

    fn clone_from_raw(ptr: OpaquePtr, mem: &mut P::Memory) -> (out: OpaquePtr) {
        P::clone_from_raw(ptr, mem)
    }
}

} // verus!
