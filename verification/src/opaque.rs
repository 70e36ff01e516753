//! Opaque and typed pointers: non-null machine words, and the erasure
//! capability that turns one into the other.

use core::marker::PhantomData;
use vstd::layout::{align_of, layout_for_type_is_valid};
use vstd::prelude::*;

verus! {

/// A non-null address of one machine word that carries no type.
///
/// Its view is the address as a mathematical integer.
#[derive(Debug, PartialEq, Eq, Structural)]
pub struct OpaquePtr {
    addr: usize,
}

impl Clone for OpaquePtr {
    fn clone(&self) -> (out: Self)
        ensures
            out == *self,
    {
        *self
    }
}

impl Copy for OpaquePtr {

}

impl View for OpaquePtr {
    type V = int;

    closed spec fn view(&self) -> int {
        self.addr as int
    }
}

impl OpaquePtr {
    #[verifier::type_invariant]
    spec fn non_null(self) -> bool {
        self.addr != 0
    }

    /// Two opaque pointers with one address are one pointer.
    pub proof fn lemma_view_injective(self, other: OpaquePtr)
        requires
            self@ == other@,
        ensures
            self == other,
    {
    }

    /// The typed pointer with the address of `self`.
    pub closed spec fn typed<T: ?Sized>(self) -> TypedPtr<T> {
        TypedPtr { addr: self.addr, _ty: PhantomData }
    }

    /// Wraps `addr`; there is no opaque pointer with the null address.
    pub fn new(addr: usize) -> (ptr: Option<OpaquePtr>)
        ensures
            ptr is Some <==> addr != 0,
            ptr matches Some(p) ==> p@ == addr,
    {
        if addr == 0 {
            None
        } else {
            Some(OpaquePtr { addr })
        }
    }

    /// The address that the pointer holds; it is never null.
    pub fn addr(self) -> (addr: usize)
        ensures
            addr == self@,
            addr != 0,
    {
        proof {
            use_type_invariant(self);
        }
        self.addr
    }

    /// Attaches a pointee type to the address. Nothing is read or written.
    pub fn cast<T: ?Sized>(self) -> (typed: TypedPtr<T>)
        ensures
            typed == self.typed::<T>(),
            typed@ == self@,
    {
        proof {
            use_type_invariant(self);
        }
        TypedPtr { addr: self.addr, _ty: PhantomData }
    }
}

/// A non-null address together with the type of what it addresses.
///
/// Its view is the address as a mathematical integer.
pub struct TypedPtr<T: ?Sized> {
    addr: usize,
    _ty: PhantomData<T>,
}

impl<T: ?Sized> Clone for TypedPtr<T> {
    fn clone(&self) -> (out: Self)
        ensures
            out == *self,
    {
        *self
    }
}

impl<T: ?Sized> Copy for TypedPtr<T> {

}

impl<T: ?Sized> View for TypedPtr<T> {
    type V = int;

    closed spec fn view(&self) -> int {
        self.addr as int
    }
}

impl<T: ?Sized> TypedPtr<T> {
    #[verifier::type_invariant]
    spec fn non_null(self) -> bool {
        self.addr != 0
    }

    /// Two typed pointers with one address are one pointer.
    pub proof fn lemma_view_injective(self, other: TypedPtr<T>)
        requires
            self@ == other@,
        ensures
            self == other,
    {
    }

    /// The opaque pointer with the address of `self`.
    pub closed spec fn erased(self) -> OpaquePtr {
        OpaquePtr { addr: self.addr }
    }

    /// The address that the pointer holds; it is never null.
    pub fn addr(self) -> (addr: usize)
        ensures
            addr == self@,
            addr != 0,
    {
        proof {
            use_type_invariant(self);
        }
        self.addr
    }

    /// Forgets the pointee type and keeps the address.
    pub fn erase(self) -> (ptr: OpaquePtr)
        ensures
            ptr == self.erased(),
            ptr@ == self@,
    {
        proof {
            use_type_invariant(self);
        }
        OpaquePtr { addr: self.addr }
    }
}

impl<T> TypedPtr<T> {
    /// The well-aligned address that stands for a pointee without storage.
    /// It names no allocation and must not be read or written through.
    pub fn dangling() -> (typed: TypedPtr<T>)
        ensures
            typed@ == align_of::<T>(),
    {
        layout_for_type_is_valid::<T>();
        TypedPtr { addr: core::mem::align_of::<T>(), _ty: PhantomData }
    }
}

/// A pointee whose typed address can be recovered from an opaque pointer
/// by address arithmetic alone.
///
/// `unerase` neither reads nor writes what the pointer addresses, and makes
/// no reference to it. Every sized type is erasable by the identity cast; a
/// pointee that keeps layout metadata out of line supplies its own recovery.
pub trait Erasable {
    /// The typed pointer to the address that `ptr` holds.
    fn unerase(ptr: OpaquePtr) -> (typed: TypedPtr<Self>)
        ensures
            typed == ptr.typed::<Self>(),
            typed@ == ptr@,
    ;
}

impl<T> Erasable for T {
    fn unerase(ptr: OpaquePtr) -> (typed: TypedPtr<Self>) {
        ptr.cast()
    }
}

/// Erasing a typed pointer and recovering it gives the same pointer back,
/// whatever address it holds.
pub broadcast proof fn lemma_erase_unerase<T: ?Sized>(typed: TypedPtr<T>)
    ensures
        #![trigger typed.erased()]
        typed.erased().typed::<T>() == typed,
        typed.erased()@ == typed@,
{
}

/// Recovering a typed pointer and erasing it gives the same opaque pointer
/// back.
pub broadcast proof fn lemma_unerase_erase<T: ?Sized>(ptr: OpaquePtr)
    ensures
        #![trigger ptr.typed::<T>()]
        ptr.typed::<T>().erased() == ptr,
        ptr.typed::<T>()@ == ptr@,
{
}

/// The two conversions between opaque and typed pointers keep the address.
pub broadcast group group_pointer_views {
    lemma_erase_unerase,
    lemma_unerase_erase,
}

} // verus!
