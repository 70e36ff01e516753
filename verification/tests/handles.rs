use std::cell::Cell;
use std::rc::Rc;
use thin_ptr::{
    AtomicShared, Borrowed, BorrowedMut, CloneFromRaw, ErasablePtr, Heap, Owned, Owner, ReadThrough,
    Shared, TypedPtr, WriteThrough,
};

struct Tally {
    clones: Rc<Cell<u32>>,
    drops: Rc<Cell<u32>>,
    payload: u32,
}

impl Tally {
    fn new(payload: u32) -> (Tally, Rc<Cell<u32>>, Rc<Cell<u32>>) {
        let clones = Rc::new(Cell::new(0));
        let drops = Rc::new(Cell::new(0));
        (Tally { clones: clones.clone(), drops: drops.clone(), payload }, clones, drops)
    }
}

impl Clone for Tally {
    fn clone(&self) -> Self {
        self.clones.set(self.clones.get() + 1);
        Tally { clones: self.clones.clone(), drops: self.drops.clone(), payload: self.payload }
    }
}

impl Drop for Tally {
    fn drop(&mut self) {
        self.drops.set(self.drops.get() + 1);
    }
}

#[test]
fn borrowed_round_trip() {
    let mut heap: Heap<u64> = Heap::new();
    let owned = Owned::new(11, &mut heap);
    let borrowed = Borrowed { at: owned.at };
    let ptr = borrowed.into_raw();
    assert_eq!(ptr.addr(), owned.at.addr());
    let back = Borrowed::<u64>::from_raw(ptr);
    assert_eq!(back.at.addr(), borrowed.at.addr());
    assert_eq!(*Borrowed::read(back.at, &heap), 11);
    assert_eq!(*Borrowed::read(borrowed.at, &heap), 11);
}

#[test]
fn borrowed_mut_round_trip() {
    let mut heap: Heap<u64> = Heap::new();
    let owned = Owned::new(11, &mut heap);
    let at = owned.at;
    let ptr = BorrowedMut { at }.into_raw();
    assert_eq!(ptr.addr(), at.addr());
    let back = BorrowedMut::<u64>::from_raw(ptr);
    assert_eq!(back.at.addr(), at.addr());
    assert_eq!(BorrowedMut::write(back.at, &mut heap, 12), 11);
    assert_eq!(*BorrowedMut::read(at, &heap), 12);
    assert_eq!(*Owned::read(at, &heap), 12);
}

#[test]
fn owned_round_trip() {
    let mut heap: Heap<String> = Heap::new();
    let owned = Owned::new(String::from("pointee"), &mut heap);
    let addr = owned.at.addr();
    assert_eq!(addr, 2 * std::mem::size_of::<String>());
    let ptr = owned.into_raw();
    assert_eq!(ptr.addr(), addr);
    assert!(heap.is_live(ptr));
    let back = Owned::<String>::from_raw(ptr);
    assert_eq!(back.at.addr(), addr);
    assert_eq!(Owned::read(back.at, &heap), "pointee");
    assert_eq!(Owned::write(back.at, &mut heap, String::from("other")), "pointee");
    assert_eq!(Owned::read(back.at, &heap), "other");
    back.release(&mut heap);
    assert!(!heap.is_live(ptr));
}

#[test]
fn shared_round_trip() {
    let mut heap: Heap<i32> = Heap::new();
    let shared = Shared::new(42, &mut heap);
    let addr = shared.at.addr();
    let ptr = shared.into_raw();
    assert_eq!(heap.strong_count(ptr), 1);
    let back = Shared::<i32>::from_raw(ptr);
    assert_eq!(back.at.addr(), addr);
    assert_eq!(heap.strong_count(ptr), 1);
    assert_eq!(*Shared::read(back.at, &heap), 42);
    assert_eq!(heap.owner(ptr), Some(Owner::Counted));
}

#[test]
fn atomic_shared_round_trip() {
    let mut heap: Heap<i32> = Heap::new();
    let shared = AtomicShared::new(42, &mut heap);
    let addr = shared.at.addr();
    let ptr = shared.into_raw();
    assert_eq!(heap.strong_count(ptr), 1);
    let back = AtomicShared::<i32>::from_raw(ptr);
    assert_eq!(back.at.addr(), addr);
    assert_eq!(heap.strong_count(ptr), 1);
    assert_eq!(*AtomicShared::read(back.at, &heap), 42);
    assert_eq!(heap.owner(ptr), Some(Owner::AtomicCounted));
}

#[test]
fn only_owning_kinds_need_release() {
    assert!(!Borrowed::<u8>::needs_release());
    assert!(!BorrowedMut::<u8>::needs_release());
    assert!(Owned::<u8>::needs_release());
    assert!(Shared::<u8>::needs_release());
    assert!(AtomicShared::<u8>::needs_release());
}

#[test]
fn borrow_duplication_is_the_identity() {
    let mut heap: Heap<u32> = Heap::new();
    let shared = Shared::new(5, &mut heap);
    let ptr = Borrowed { at: shared.at }.into_raw();
    for _ in 0..100 {
        assert_eq!(Borrowed::<u32>::clone_from_raw(ptr, &mut heap), ptr);
        assert_eq!(BorrowedMut::<u32>::clone_from_raw(ptr, &mut heap), ptr);
    }
    assert_eq!(heap.allocated(), 1);
    assert_eq!(heap.strong_count(ptr), 1);
    assert_eq!(*Borrowed::read(shared.at, &heap), 5);
}

#[test]
fn borrow_duplication_needs_no_live_pointee() {
    let mut heap: Heap<u32> = Heap::new();
    let stale: TypedPtr<u32> = TypedPtr::dangling();
    let ptr = stale.erase();
    assert_eq!(Borrowed::<u32>::clone_from_raw(ptr, &mut heap), ptr);
    assert_eq!(BorrowedMut::<u32>::clone_from_raw(ptr, &mut heap), ptr);
    assert_eq!(heap.allocated(), 0);
}

#[test]
fn releasing_a_borrow_changes_nothing() {
    let mut heap: Heap<u32> = Heap::new();
    let owned = Owned::new(5, &mut heap);
    Borrowed { at: owned.at }.release(&mut heap);
    BorrowedMut { at: owned.at }.release(&mut heap);
    assert!(heap.is_live(owned.at.erase()));
    assert_eq!(*Owned::read(owned.at, &heap), 5);
}

#[test]
fn owned_duplication_allocates_a_copy() {
    let mut heap: Heap<Tally> = Heap::new();
    let (tally, clones, drops) = Tally::new(7);
    let owned = Owned::new(tally, &mut heap);
    let first = owned.into_raw();
    assert!(heap.has_room());
    let second = Owned::<Tally>::clone_from_raw(first, &mut heap);
    assert_ne!(second, first);
    assert_eq!(second.addr(), first.addr() + std::mem::size_of::<Tally>());
    assert_eq!(clones.get(), 1);
    assert_eq!(drops.get(), 0);
    assert_eq!(heap.allocated(), 2);
    assert_eq!(heap.owner(second), Some(Owner::Unique));
    assert_eq!(heap.strong_count(second), 1);
    assert_eq!(heap.strong_count(first), 1);
    assert_eq!(Owned::read(second.cast(), &heap).payload, 7);
    Owned::<Tally>::from_raw(first).release(&mut heap);
    assert_eq!(drops.get(), 1);
    assert!(heap.is_live(second));
    Owned::<Tally>::from_raw(second).release(&mut heap);
    assert_eq!(drops.get(), 2);
}

#[test]
fn owned_copy_is_independent_of_its_source() {
    let mut heap: Heap<u8> = Heap::new();
    let first = Owned::new(1, &mut heap).into_raw();
    let second = Owned::<u8>::clone_from_raw(first, &mut heap);
    Owned::write(second.cast(), &mut heap, 2);
    assert_eq!(*Owned::read(first.cast(), &heap), 1);
    assert_eq!(*Owned::read(second.cast(), &heap), 2);
}

#[test]
fn shared_duplication_raises_the_count_in_place() {
    let mut heap: Heap<Tally> = Heap::new();
    let (tally, clones, drops) = Tally::new(3);
    let ptr = Shared::new(tally, &mut heap).into_raw();
    let dup = Shared::<Tally>::clone_from_raw(ptr, &mut heap);
    assert_eq!(dup, ptr);
    assert_eq!(heap.strong_count(ptr), 2);
    assert_eq!(heap.allocated(), 1);
    assert_eq!(clones.get(), 0);
    Shared::<Tally>::from_raw(dup).release(&mut heap);
    assert_eq!(heap.strong_count(ptr), 1);
    assert_eq!(drops.get(), 0);
    Shared::<Tally>::from_raw(ptr).release(&mut heap);
    assert!(!heap.is_live(ptr));
    assert_eq!(drops.get(), 1);
}

#[test]
fn atomic_shared_duplication_raises_the_count_in_place() {
    let mut heap: Heap<Tally> = Heap::new();
    let (tally, clones, drops) = Tally::new(3);
    let ptr = AtomicShared::new(tally, &mut heap).into_raw();
    let dup = AtomicShared::<Tally>::clone_from_raw(ptr, &mut heap);
    assert_eq!(dup, ptr);
    assert_eq!(heap.strong_count(ptr), 2);
    assert_eq!(heap.allocated(), 1);
    assert_eq!(clones.get(), 0);
    AtomicShared::<Tally>::from_raw(dup).release(&mut heap);
    assert_eq!(heap.strong_count(ptr), 1);
    assert_eq!(drops.get(), 0);
    AtomicShared::<Tally>::from_raw(ptr).release(&mut heap);
    assert!(!heap.is_live(ptr));
    assert_eq!(drops.get(), 1);
}

#[test]
fn owned_without_size_lives_at_the_dangling_address() {
    let mut heap: Heap<()> = Heap::new();
    let owned = Owned::new((), &mut heap);
    assert_eq!(owned.at.addr(), 1);
    assert_eq!(heap.allocated(), 0);
    assert_eq!(heap.unit_count(), 1);
    assert!(!heap.is_live(owned.at.erase()));
    owned.release(&mut heap);
    assert_eq!(heap.unit_count(), 0);
}
