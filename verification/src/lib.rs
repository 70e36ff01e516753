//! A pointer-representation layer: handles of several ownership kinds are
//! converted into one-word opaque pointers and back, and thin wrappers replay
//! the ownership behaviour of the handle they hold.
//!
//! Memory is explicit. A handle is the typed address of its pointee in a
//! [`Heap`]; converting it to an [`OpaquePtr`] and back touches no memory,
//! while destroying, duplicating and reading through it take the heap and
//! ask that the handle holds what it claims.

pub mod capability;
pub mod handles;
pub mod heap;
pub mod laws;
pub mod opaque;
pub mod thin;

pub use capability::{CloneFromRaw, ErasablePtr, ReadThrough, WriteThrough};
pub use handles::{AtomicShared, Borrowed, BorrowedMut, Owned, Shared};
pub use heap::{Heap, Owner};
pub use opaque::{Erasable, OpaquePtr, TypedPtr};
pub use thin::{CopyThin, RawThin, Thin};
