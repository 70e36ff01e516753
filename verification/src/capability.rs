//! The capability contracts that a kind of handle meets: conversion to and
//! from an opaque pointer, destruction, duplication from the opaque pointer
//! alone, and access to the pointee.

use crate::opaque::{Erasable, OpaquePtr, TypedPtr};
use vstd::prelude::*;

verus! {

/// A kind of handle that can be converted into an opaque pointer and back.
///
/// A handle is an address with a discipline of ownership. What it owns lies
/// in a memory of type `Memory`; converting the handle touches no memory,
/// destroying it does. The opaque pointer that `into_raw` gives stands for
/// the unit of ownership that the handle held, and `from_raw` gives the
/// handle that holds that unit again.
pub trait ErasablePtr: Sized {
    /// The memory in which handles of this kind own their pointees.
    type Memory;

    /// The opaque pointer that the handle converts into.
    spec fn spec_into_raw(self) -> OpaquePtr;

    /// The handle that an opaque pointer converts back into.
    spec fn spec_from_raw(ptr: OpaquePtr) -> Self;

    /// Whether destroying a handle of this kind does anything.
    spec fn spec_needs_release() -> bool;

    /// Whether the handle holds a unit of ownership in `mem` that can be
    /// given up.
    spec fn releasable(self, mem: Self::Memory) -> bool;

    /// How destroying the handle changes the memory.
    spec fn released(self, before: Self::Memory, after: Self::Memory) -> bool;

    /// Converting a handle out and back in gives the same handle.
    proof fn lemma_round_trip(handle: Self)
        ensures
            Self::spec_from_raw(handle.spec_into_raw()) == handle,
    ;

    /// Converting an opaque pointer in and back out gives the same pointer.
    proof fn lemma_raw_round_trip(ptr: OpaquePtr)
        ensures
            Self::spec_from_raw(ptr).spec_into_raw() == ptr,
    ;

    /// Where destruction does nothing, leaving the memory as it is counts
    /// as destroying the handle.
    proof fn lemma_release_skipped(handle: Self, mem: Self::Memory)
        ensures
            !Self::spec_needs_release() ==> handle.released(mem, mem),
    ;

    /// Converts the handle into an opaque pointer. The handle is consumed
    /// and its destruction does not run.
    fn into_raw(self) -> (ptr: OpaquePtr)
        ensures
            ptr == self.spec_into_raw(),
    ;

    /// Converts an opaque pointer back into the handle that it stands for.
    fn from_raw(ptr: OpaquePtr) -> (handle: Self)
        ensures
            handle == Self::spec_from_raw(ptr),
    ;

    /// Whether destroying a handle of this kind does anything.
    #[verifier::when_used_as_spec(spec_needs_release)]
    fn needs_release() -> (needed: bool)
        ensures
            needed == Self::spec_needs_release(),
    ;

    /// Destroys the handle: gives up the unit of ownership that it holds.
    fn release(self, mem: &mut Self::Memory)
        requires
            self.releasable(*old(mem)),
        ensures
            self.released(*old(mem), *final(mem)),
    ;
}

/// A kind of handle of which a unit of ownership can be duplicated from the
/// opaque pointer alone.
pub trait CloneFromRaw: ErasablePtr {
    /// Whether the unit that `ptr` stands for can be duplicated in `mem`.
    spec fn duplicable(ptr: OpaquePtr, mem: Self::Memory) -> bool;

    /// How duplicating the unit that `ptr` stands for changes the memory,
    /// and which opaque pointer stands for the new unit.
    spec fn duplicated(
        ptr: OpaquePtr,
        before: Self::Memory,
        after: Self::Memory,
        out: OpaquePtr,
    ) -> bool;

    /// After a duplication the pointer that came back stands for a unit
    /// that can be given up, and so does the first, if it did before.
    proof fn lemma_duplicated_units(
        ptr: OpaquePtr,
        before: Self::Memory,
        after: Self::Memory,
        out: OpaquePtr,
    )
        requires
            Self::duplicable(ptr, before),
            Self::duplicated(ptr, before, after, out),
        ensures
            Self::spec_from_raw(out).releasable(after),
            Self::spec_from_raw(ptr).releasable(before) ==> Self::spec_from_raw(ptr).releasable(
                after,
            ),
    ;

    /// Duplicates the unit of ownership that `ptr` stands for. The opaque
    /// pointer that comes back stands for a further, independent unit.
    fn clone_from_raw(ptr: OpaquePtr, mem: &mut Self::Memory) -> (out: OpaquePtr)
        requires
            Self::duplicable(ptr, *old(mem)),
        ensures
            Self::duplicated(ptr, *old(mem), *final(mem), out),
    ;
}

/// A kind of handle through which the pointee can be read.
pub trait ReadThrough: ErasablePtr {
    /// The type of the pointee.
    type Target: Erasable;

    /// Whether `at` addresses a pointee in `mem` that a handle of this kind
    /// may read.
    spec fn readable(at: TypedPtr<Self::Target>, mem: Self::Memory) -> bool;

    /// The pointee that `at` addresses in `mem`.
    spec fn pointee(at: TypedPtr<Self::Target>, mem: Self::Memory) -> Self::Target;

    /// A reference to the pointee that `at` addresses.
    fn read<'m>(at: TypedPtr<Self::Target>, mem: &'m Self::Memory) -> (value: &'m Self::Target)
        requires
            Self::readable(at, *mem),
        ensures
            *value == Self::pointee(at, *mem),
    ;
}

/// A kind of handle through which the pointee can be written.
pub trait WriteThrough: ReadThrough {
    /// How writing `value` through `at` changes the memory.
    spec fn written(
        at: TypedPtr<Self::Target>,
        before: Self::Memory,
        after: Self::Memory,
        value: Self::Target,
    ) -> bool;

    /// Writes `value` to the pointee that `at` addresses, and hands back
    /// what was there.
    fn write(at: TypedPtr<Self::Target>, mem: &mut Self::Memory, value: Self::Target) -> (previous:
        Self::Target)
        requires
            Self::readable(at, *old(mem)),
        ensures
            previous == Self::pointee(at, *old(mem)),
            Self::readable(at, *final(mem)),
            Self::pointee(at, *final(mem)) == value,
            Self::written(at, *old(mem), *final(mem), value),
    ;
}

} // verus!
