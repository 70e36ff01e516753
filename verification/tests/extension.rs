use thin_ptr::{CloneFromRaw, ErasablePtr, OpaquePtr, RawThin, Thin};

// The contract's ghost items are part of each impl, and never run.

struct Journal {
    duplicated: Vec<usize>,
    released: Vec<usize>,
}

struct Ticket {
    number: usize,
}

impl ErasablePtr for Ticket {
    type Memory = Journal;

    fn spec_into_raw(self) -> OpaquePtr {
        unreachable!()
    }

    fn spec_from_raw(_: OpaquePtr) -> Self {
        unreachable!()
    }

    fn spec_needs_release() -> bool {
        unreachable!()
    }

    fn releasable(self, _: Journal) -> bool {
        unreachable!()
    }

    fn released(self, _: Journal, _: Journal) -> bool {
        unreachable!()
    }

    fn lemma_round_trip(_: Self) {
        unreachable!()
    }

    fn lemma_raw_round_trip(_: OpaquePtr) {
        unreachable!()
    }

    fn lemma_release_skipped(_: Self, _: Journal) {
        unreachable!()
    }

    fn into_raw(self) -> OpaquePtr {
        OpaquePtr::new(self.number).unwrap()
    }

    fn from_raw(ptr: OpaquePtr) -> Self {
        Ticket { number: ptr.addr() }
    }

    fn needs_release() -> bool {
        true
    }

    fn release(self, mem: &mut Journal) {
        mem.released.push(self.number);
    }
}

impl CloneFromRaw for Ticket {
    fn duplicable(_: OpaquePtr, _: Journal) -> bool {
        unreachable!()
    }

    fn duplicated(_: OpaquePtr, _: Journal, _: Journal, _: OpaquePtr) -> bool {
        unreachable!()
    }

    fn lemma_duplicated_units(_: OpaquePtr, _: Journal, _: Journal, _: OpaquePtr) {
        unreachable!()
    }

    fn clone_from_raw(ptr: OpaquePtr, mem: &mut Journal) -> OpaquePtr {
        mem.duplicated.push(ptr.addr());
        OpaquePtr::new(ptr.addr() + 1).unwrap()
    }
}

#[derive(Clone, Copy)]
struct Label {
    number: usize,
}

impl ErasablePtr for Label {
    type Memory = Journal;

    fn spec_into_raw(self) -> OpaquePtr {
        unreachable!()
    }

    fn spec_from_raw(_: OpaquePtr) -> Self {
        unreachable!()
    }

    fn spec_needs_release() -> bool {
        unreachable!()
    }

    fn releasable(self, _: Journal) -> bool {
        unreachable!()
    }

    fn released(self, _: Journal, _: Journal) -> bool {
        unreachable!()
    }

    fn lemma_round_trip(_: Self) {
        unreachable!()
    }

    fn lemma_raw_round_trip(_: OpaquePtr) {
        unreachable!()
    }

    fn lemma_release_skipped(_: Self, _: Journal) {
        unreachable!()
    }

    fn into_raw(self) -> OpaquePtr {
        OpaquePtr::new(self.number).unwrap()
    }

    fn from_raw(ptr: OpaquePtr) -> Self {
        Label { number: ptr.addr() }
    }

    fn needs_release() -> bool {
        false
    }

    fn release(self, mem: &mut Journal) {
        mem.released.push(self.number);
    }
}

#[test]
fn a_new_kind_of_handle_works_with_the_wrappers() {
    let mut journal = Journal { duplicated: Vec::new(), released: Vec::new() };
    let thin = Thin::new(Ticket { number: 7 });
    let copy = thin.duplicate(&mut journal);
    assert_eq!(journal.duplicated, vec![7]);
    let back = copy.into_inner();
    assert_eq!(back.number, 8);
    assert!(journal.released.is_empty());
    thin.release(&mut journal);
    assert_eq!(journal.released, vec![7]);
    let raw = RawThin::new(back);
    assert_eq!(raw.clone_ptr(&mut journal).into_inner().number, 9);
    assert_eq!(journal.duplicated, vec![7, 8]);
}

#[test]
fn release_is_skipped_for_a_kind_that_needs_none() {
    let mut journal = Journal { duplicated: Vec::new(), released: Vec::new() };
    let thin = Thin::new(Label { number: 3 });
    thin.release(&mut journal);
    assert!(journal.released.is_empty());
    let again = Thin::new(Label { number: 3 });
    assert_eq!(again.into_inner().number, 3);
}
