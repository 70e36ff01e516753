use std::cell::Cell;
use std::rc::Rc;
use thin_ptr::{AtomicShared, ErasablePtr, Heap, Thin};

struct Payload {
    value: i32,
    drops: Rc<Cell<u32>>,
}

impl Drop for Payload {
    fn drop(&mut self) {
        self.drops.set(self.drops.get() + 1);
    }
}

#[test]
fn atomic_shared_duplicated_three_times_is_freed_once() {
    let drops = Rc::new(Cell::new(0));
    let mut heap: Heap<Payload> = Heap::new();
    assert!(heap.has_room());
    let first = Thin::new(AtomicShared::new(Payload { value: 42, drops: drops.clone() }, &mut heap));
    let ptr = Thin::<AtomicShared<Payload>>::into_raw(first);
    let mut all = vec![ptr];
    for holders in 1..4 {
        let source = Thin::<AtomicShared<Payload>>::from_raw(ptr);
        assert_eq!(heap.strong_count(ptr), holders);
        let copy = source.duplicate(&mut heap);
        assert_eq!(copy.deref(&heap).value, 42);
        all.push(Thin::<AtomicShared<Payload>>::into_raw(copy));
        let _ = Thin::<AtomicShared<Payload>>::into_raw(source);
    }
    assert_eq!(heap.strong_count(ptr), 4);
    assert_eq!(heap.allocated(), 1);
    let mut left = 4;
    for raw in all {
        assert_eq!(raw, ptr);
        assert_eq!(drops.get(), 0);
        assert_eq!(Thin::<AtomicShared<Payload>>::from_raw(raw).deref(&heap).value, 42);
        Thin::<AtomicShared<Payload>>::from_raw(raw).release(&mut heap);
        left -= 1;
        assert_eq!(heap.strong_count(ptr), left);
    }
    assert_eq!(drops.get(), 1);
    assert!(!heap.is_live(ptr));
}
