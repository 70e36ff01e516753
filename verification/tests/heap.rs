use thin_ptr::{Heap, OpaquePtr, Owner};

#[test]
fn new_heap_holds_nothing() {
    let heap: Heap<u64> = Heap::new();
    assert_eq!(heap.allocated(), 0);
    assert_eq!(heap.unit_count(), 0);
    assert!(heap.has_room());
    assert!(!heap.is_live(OpaquePtr::new(16).unwrap()));
    assert_eq!(heap.strong_count(OpaquePtr::new(16).unwrap()), 0);
    assert_eq!(heap.owner(OpaquePtr::new(16).unwrap()), None);
}

#[test]
fn addresses_rise_by_the_size_of_the_pointee() {
    let mut heap: Heap<u64> = Heap::new();
    let first = heap.allocate(10, Owner::Unique);
    let second = heap.allocate(20, Owner::Counted);
    let third = heap.allocate(30, Owner::AtomicCounted);
    assert_eq!(first.addr(), 16);
    assert_eq!(second.addr(), 24);
    assert_eq!(third.addr(), 32);
    assert_eq!(heap.allocated(), 3);
}

#[test]
fn addresses_of_pointees_without_size_rise_by_the_alignment() {
    let mut heap: Heap<()> = Heap::new();
    let first = heap.allocate((), Owner::Counted);
    let second = heap.allocate((), Owner::Counted);
    assert_eq!(first.addr(), 2);
    assert_eq!(second.addr(), 3);
}

#[test]
fn addresses_are_aligned_and_above_the_dangling_one() {
    let mut heap: Heap<(u32, u8)> = Heap::new();
    let align = std::mem::align_of::<(u32, u8)>();
    let size = std::mem::size_of::<(u32, u8)>();
    let first = heap.allocate((1, 2), Owner::Unique);
    let second = heap.allocate((3, 4), Owner::Unique);
    assert_eq!(first.addr() % align, 0);
    assert_eq!(second.addr() % align, 0);
    assert!(first.addr() > align);
    assert_eq!(second.addr() - first.addr(), size);
}

#[test]
fn allocation_records_owner_and_one_unit() {
    let mut heap: Heap<i32> = Heap::new();
    let ptr = heap.allocate(-5, Owner::Counted);
    assert!(heap.is_live(ptr));
    assert_eq!(heap.owner(ptr), Some(Owner::Counted));
    assert_eq!(heap.strong_count(ptr), 1);
    assert_eq!(*heap.read(ptr.cast()), -5);
}

#[test]
fn retain_and_release_move_the_count() {
    let mut heap: Heap<i32> = Heap::new();
    let ptr = heap.allocate(1, Owner::AtomicCounted);
    heap.retain(ptr);
    heap.retain(ptr);
    assert_eq!(heap.strong_count(ptr), 3);
    heap.release(ptr);
    assert_eq!(heap.strong_count(ptr), 2);
    heap.release(ptr);
    assert_eq!(heap.strong_count(ptr), 1);
    assert!(heap.is_live(ptr));
    heap.release(ptr);
    assert!(!heap.is_live(ptr));
    assert_eq!(heap.strong_count(ptr), 0);
}

#[test]
fn released_address_is_not_handed_out_again() {
    let mut heap: Heap<u16> = Heap::new();
    let first = heap.allocate(1, Owner::Unique);
    heap.release(first);
    let second = heap.allocate(2, Owner::Unique);
    assert_ne!(first, second);
    assert!(!heap.is_live(first));
    assert!(heap.is_live(second));
    assert_eq!(heap.allocated(), 2);
}

#[test]
fn replace_writes_and_hands_back_the_old_pointee() {
    let mut heap: Heap<String> = Heap::new();
    let ptr = heap.allocate(String::from("old"), Owner::Unique);
    let previous = heap.replace(ptr.cast(), String::from("new"));
    assert_eq!(previous, "old");
    assert_eq!(heap.read(ptr.cast()), "new");
    assert_eq!(heap.strong_count(ptr), 1);
    assert_eq!(heap.owner(ptr), Some(Owner::Unique));
}

#[test]
fn other_allocations_are_left_alone() {
    let mut heap: Heap<u8> = Heap::new();
    let a = heap.allocate(1, Owner::Counted);
    let b = heap.allocate(2, Owner::Counted);
    heap.retain(a);
    heap.replace(a.cast(), 9);
    heap.release(a);
    heap.release(a);
    assert_eq!(*heap.read(b.cast()), 2);
    assert_eq!(heap.strong_count(b), 1);
}

#[test]
fn duplicate_value_clones_the_pointee() {
    let mut heap: Heap<Vec<u8>> = Heap::new();
    let ptr = heap.allocate(vec![1, 2, 3], Owner::Unique);
    let copy = heap.duplicate_value(ptr.cast());
    assert_eq!(copy, vec![1, 2, 3]);
    assert_eq!(heap.allocated(), 1);
}

#[test]
fn units_take_no_allocation() {
    let mut heap: Heap<()> = Heap::new();
    heap.push_unit(());
    heap.push_unit(());
    assert_eq!(heap.unit_count(), 2);
    assert_eq!(heap.allocated(), 0);
    let _copy: () = heap.duplicate_unit();
    assert_eq!(heap.unit_count(), 2);
    heap.pop_unit();
    assert_eq!(heap.unit_count(), 1);
}
