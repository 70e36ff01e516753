//! The memory that handles refer into: a table of allocations, each with
//! its pointee, the kind of handle that owns it and its count of owners.

use crate::opaque::{OpaquePtr, TypedPtr};
use vstd::arithmetic::div_mod::{lemma_fundamental_div_mod, lemma_mod_multiples_basic};
use vstd::layout::{align_of, layout_for_type_is_valid, size_of};
use vstd::prelude::*;

verus! {

/// The kind of handle that owns an allocation.
#[derive(Clone, Copy, Debug, PartialEq, Eq, Structural)]
pub enum Owner {
    /// One exclusively-owning handle.
    Unique,
    /// Shared handles, counted without synchronisation.
    Counted,
    /// Shared handles, counted with atomic operations.
    AtomicCounted,
}

/// What a live allocation holds.
pub struct Allocation<T> {
    /// The pointee.
    pub value: T,
    /// The kind of handle that owns the allocation.
    pub owner: Owner,
    /// How many units of ownership are outstanding; at least one.
    pub strong: nat,
}

/// The distance between the addresses of two neighbouring allocations: the
/// size of the pointee, or its alignment where the pointee has no size.
pub open spec fn stride<T>() -> int {
    if size_of::<T>() == 0 {
        align_of::<T>() as int
    } else {
        size_of::<T>() as int
    }
}

/// The address of the `index`-th allocation ever made. The lowest stride of
/// the address space is never handed out, so that the dangling address of
/// the pointee type names no allocation.
pub open spec fn slot_addr<T>(index: int) -> int {
    (index + 2) * stride::<T>()
}

/// The mathematical model of a heap.
#[verifier::ext_equal]
pub struct HeapView<T> {
    /// The live allocations, by address.
    pub blocks: Map<int, Allocation<T>>,
    /// The pointees without size that are owned through the dangling
    /// address; they take no storage.
    pub units: Seq<T>,
    /// How many allocations were ever made.
    pub allocated: nat,
    /// How many allocations were given back.
    pub freed: nat,
    /// How often a pointee's own duplication was run.
    pub cloned: nat,
}

impl<T> HeapView<T> {
    /// The heap that holds nothing.
    pub open spec fn empty() -> Self {
        HeapView { blocks: Map::empty(), units: Seq::empty(), allocated: 0, freed: 0, cloned: 0 }
    }

    /// Whether `addr` is the address of a live allocation.
    pub open spec fn live(self, addr: int) -> bool {
        self.blocks.contains_key(addr)
    }

    /// Whether `addr` is the address of a live allocation owned by handles
    /// of kind `owner`.
    pub open spec fn owned_by(self, addr: int, owner: Owner) -> bool {
        self.live(addr) && self.blocks[addr].owner == owner
    }

    /// The address that the next allocation gets.
    pub open spec fn next_addr(self) -> int {
        slot_addr::<T>(self.allocated as int)
    }

    /// Whether the address space has room for one more allocation.
    pub open spec fn has_room(self) -> bool {
        self.next_addr() <= usize::MAX
    }

    /// The heap after `value` was put into a new allocation with one owner.
    pub open spec fn allocate(self, value: T, owner: Owner) -> Self {
        HeapView {
            blocks: self.blocks.insert(self.next_addr(), Allocation { value, owner, strong: 1 }),
            allocated: self.allocated + 1,
            ..self
        }
    }

    /// The heap after the allocation at `addr` gained one owner.
    pub open spec fn retain(self, addr: int) -> Self {
        let block = self.blocks[addr];
        HeapView {
            blocks: self.blocks.insert(
                addr,
                Allocation { strong: block.strong + 1, ..block },
            ),
            ..self
        }
    }

    /// The heap after the allocation at `addr` lost one owner: with its last
    /// owner the allocation is given back.
    pub open spec fn release(self, addr: int) -> Self {
        let block = self.blocks[addr];
        if block.strong > 1 {
            HeapView {
                blocks: self.blocks.insert(
                    addr,
                    Allocation { strong: (block.strong - 1) as nat, ..block },
                ),
                ..self
            }
        } else {
            HeapView { blocks: self.blocks.remove(addr), freed: self.freed + 1, ..self }
        }
    }

    /// The heap after the allocation at `addr` gained an owner `times`
    /// times over.
    pub open spec fn retain_times(self, addr: int, times: nat) -> Self
        decreases times,
    {
        if times == 0 {
            self
        } else {
            self.retain(addr).retain_times(addr, (times - 1) as nat)
        }
    }

    /// The heap after the allocation at `addr` lost an owner `times` times
    /// over.
    pub open spec fn release_times(self, addr: int, times: nat) -> Self
        decreases times,
    {
        if times == 0 {
            self
        } else {
            self.release(addr).release_times(addr, (times - 1) as nat)
        }
    }

    /// Gaining `times` owners raises the count by `times` and changes
    /// nothing else.
    pub proof fn lemma_retain_times(self, addr: int, times: nat)
        requires
            self.live(addr),
        ensures
            self.retain_times(addr, times) == (HeapView {
                blocks: self.blocks.insert(
                    addr,
                    Allocation {
                        strong: self.blocks[addr].strong + times,
                        ..self.blocks[addr]
                    },
                ),
                ..self
            }),
        decreases times,
    {
        let block = self.blocks[addr];
        if times == 0 {
            assert(self.blocks =~= self.blocks.insert(addr, block));
        } else {
            let next = self.retain(addr);
            next.lemma_retain_times(addr, (times - 1) as nat);
            assert(next.blocks.insert(
                addr,
                Allocation { strong: next.blocks[addr].strong + (times - 1) as nat, ..block },
            ) =~= self.blocks.insert(addr, Allocation { strong: block.strong + times, ..block }));
        }
    }

    /// Losing fewer owners than there are lowers the count and gives
    /// nothing back; losing all of them gives the allocation back, once.
    pub proof fn lemma_release_times(self, addr: int, times: nat)
        requires
            self.live(addr),
            times <= self.blocks[addr].strong,
        ensures
            times < self.blocks[addr].strong ==> self.release_times(addr, times) == (HeapView {
                blocks: self.blocks.insert(
                    addr,
                    Allocation {
                        strong: (self.blocks[addr].strong - times) as nat,
                        ..self.blocks[addr]
                    },
                ),
                ..self
            }),
            times == self.blocks[addr].strong && times >= 1 ==> self.release_times(addr, times)
                == (HeapView { blocks: self.blocks.remove(addr), freed: self.freed + 1, ..self }),
        decreases times,
    {
        let block = self.blocks[addr];
        if times == 0 {
            assert(self.blocks =~= self.blocks.insert(addr, block));
        } else {
            let next = self.release(addr);
            if block.strong > 1 {
                next.lemma_release_times(addr, (times - 1) as nat);
                let fewer = Allocation { strong: (block.strong - 1) as nat, ..block };
                if times < block.strong {
                    assert(next.blocks.insert(
                        addr,
                        Allocation { strong: (fewer.strong - (times - 1)) as nat, ..fewer },
                    ) =~= self.blocks.insert(
                        addr,
                        Allocation { strong: (block.strong - times) as nat, ..block },
                    ));
                } else {
                    assert(next.blocks.remove(addr) =~= self.blocks.remove(addr));
                }
            } else {
                assert(times == 1);
                assert(next.release_times(addr, 0) == next);
            }
        }
    }

    /// Duplicating a unit of shared ownership `times` times and then giving
    /// up all of them and the first comes to giving up the first alone: the
    /// count ends one below where it began, and the allocation is given
    /// back, once and with the last release, exactly if it began at one.
    /// Until that last release the allocation is live and nothing has been
    /// given back.
    pub proof fn lemma_duplicate_release(self, addr: int, times: nat)
        requires
            self.live(addr),
            self.blocks[addr].strong >= 1,
        ensures
            self.retain_times(addr, times).release_times(addr, times + 1) == self.release(addr),
            forall|done: nat|
                done <= times ==> {
                    let then = #[trigger] self.retain_times(addr, times).release_times(addr, done);
                    &&& then.live(addr)
                    &&& then.blocks[addr].owner == self.blocks[addr].owner
                    &&& then.blocks[addr].strong == self.blocks[addr].strong + times - done
                    &&& then.freed == self.freed
                },
    {
        let block = self.blocks[addr];
        let many = self.retain_times(addr, times);
        self.lemma_retain_times(addr, times);
        many.lemma_release_times(addr, times + 1);
        if block.strong > 1 {
            assert(many.blocks.insert(
                addr,
                Allocation {
                    strong: (many.blocks[addr].strong - (times + 1)) as nat,
                    ..many.blocks[addr]
                },
            ) =~= self.blocks.insert(
                addr,
                Allocation { strong: (block.strong - 1) as nat, ..block },
            ));
        } else {
            assert(many.blocks.remove(addr) =~= self.blocks.remove(addr));
        }
        assert forall|done: nat| done <= times implies {
            let then = #[trigger] many.release_times(addr, done);
            &&& then.live(addr)
            &&& then.blocks[addr].owner == block.owner
            &&& then.blocks[addr].strong == block.strong + times - done
            &&& then.freed == self.freed
        } by {
            many.lemma_release_times(addr, done);
        }
    }

    /// The heap after `value` was written to the allocation at `addr`.
    pub open spec fn store(self, addr: int, value: T) -> Self {
        HeapView {
            blocks: self.blocks.insert(addr, Allocation { value, ..self.blocks[addr] }),
            ..self
        }
    }

    /// The heap after a pointee's own duplication was run once.
    pub open spec fn count_clone(self) -> Self {
        HeapView { cloned: self.cloned + 1, ..self }
    }

    /// The heap after the pointee without size `value` was taken in.
    pub open spec fn push_unit(self, value: T) -> Self {
        HeapView { units: self.units.push(value), ..self }
    }

    /// The heap after the pointee without size that came last was let go.
    pub open spec fn pop_unit(self) -> Self {
        HeapView { units: self.units.drop_last(), ..self }
    }
}

struct Block<T> {
    value: T,
    owner: Owner,
    strong: usize,
}

impl<T> Block<T> {
    spec fn model(self) -> Allocation<T> {
        Allocation { value: self.value, owner: self.owner, strong: self.strong as nat }
    }
}

/// What a heap counts without keeping it at run time.
struct Ledger {
    freed: nat,
    cloned: nat,
}

/// A heap of pointees of type `T`.
///
/// Addresses are handed out in rising order and never a second time, so a
/// pointer to an allocation that was given back names no later allocation.
pub struct Heap<T> {
    slots: Vec<Option<Block<T>>>,
    units: Vec<T>,
    ledger: Ghost<Ledger>,
}

/// The index of the allocation with address `addr`.
spec fn slot_index<T>(addr: int) -> int {
    addr / stride::<T>() - 2
}

proof fn lemma_stride_positive<T>()
    ensures
        stride::<T>() >= align_of::<T>() >= 1,
        stride::<T>() % (align_of::<T>() as int) == 0,
{
    broadcast use vstd::layout::group_align_properties;

    let a = align_of::<T>() as int;
    let s = size_of::<T>() as int;
    if s == 0 {
        assert(a % a == 0) by (nonlinear_arith)
            requires
                a > 0,
        ;
    } else {
        assert(s >= a) by (nonlinear_arith)
            requires
                a > 0,
                s > 0,
                s % a == 0,
        ;
    }
}

proof fn lemma_slot_addr<T>(index: int)
    requires
        index >= 0,
    ensures
        slot_addr::<T>(index) % stride::<T>() == 0,
        slot_index::<T>(slot_addr::<T>(index)) == index,
        slot_addr::<T>(index) >= 2 * stride::<T>(),
        slot_addr::<T>(index) > align_of::<T>(),
        slot_addr::<T>(index) % (align_of::<T>() as int) == 0,
{
    lemma_stride_positive::<T>();
    let s = stride::<T>();
    let a = align_of::<T>() as int;
    let k = index + 2;
    assert((k * s) % s == 0 && (k * s) / s == k) by (nonlinear_arith)
        requires
            s > 0,
    ;
    assert(k * s >= 2 * s) by (nonlinear_arith)
        requires
            s > 0,
            k >= 2,
    ;
    let q = s / a;
    lemma_fundamental_div_mod(s, a);
    assert(k * s == (k * q) * a) by (nonlinear_arith)
        requires
            s == a * q,
    ;
    lemma_mod_multiples_basic(k * q, a);
}

proof fn lemma_slot_index<T>(addr: int)
    requires
        addr % stride::<T>() == 0,
    ensures
        slot_addr::<T>(slot_index::<T>(addr)) == addr,
{
    lemma_stride_positive::<T>();
    let s = stride::<T>();
    assert((addr / s - 2 + 2) * s == addr) by (nonlinear_arith)
        requires
            s > 0,
            addr % s == 0,
    ;
}

proof fn lemma_slot_addr_monotonic<T>(i: int, j: int)
    requires
        0 <= i <= j,
    ensures
        slot_addr::<T>(i) <= slot_addr::<T>(j),
        i < j ==> slot_addr::<T>(i) + stride::<T>() <= slot_addr::<T>(j),
{
    lemma_stride_positive::<T>();
    let s = stride::<T>();
    assert((i + 2) * s <= (j + 2) * s) by (nonlinear_arith)
        requires
            s > 0,
            i <= j,
    ;
    if i < j {
        assert((i + 2) * s + s <= (j + 2) * s) by (nonlinear_arith)
            requires
                s > 0,
                i < j,
        ;
    }
}

fn stride_of<T>() -> (distance: usize)
    ensures
        distance == stride::<T>(),
        distance >= 1,
{
    proof {
        lemma_stride_positive::<T>();
    }
    layout_for_type_is_valid::<T>();
    let size: usize = core::mem::size_of::<T>();
    if size == 0 {
        core::mem::align_of::<T>()
    } else {
        size
    }
}

impl<T> View for Heap<T> {
    type V = HeapView<T>;

    closed spec fn view(&self) -> HeapView<T> {
        HeapView {
            blocks: Map::new(|addr: int| self.occupied(addr), |addr: int| self.model_at(addr)),
            units: self.units@,
            allocated: self.slots@.len(),
            freed: self.ledger@.freed,
            cloned: self.ledger@.cloned,
        }
    }
}

impl<T> Heap<T> {
    /// What holds of every heap: its addresses fit a machine word, every
    /// live allocation has an owner, and only pointees without size are
    /// kept at the dangling address.
    #[verifier::type_invariant]
    pub closed spec fn wf(self) -> bool {
        &&& stride::<T>() <= usize::MAX
        &&& slot_addr::<T>(self.slots@.len() - 1) <= usize::MAX
        &&& forall|i: int|
            0 <= i < self.slots@.len() ==> (#[trigger] self.slots@[i] matches Some(block)
                ==> block.strong >= 1 && (block.owner == Owner::Unique ==> block.strong == 1))
        &&& size_of::<T>() != 0 ==> self.units@.len() == 0
    }

    spec fn occupied(self, addr: int) -> bool {
        &&& addr % stride::<T>() == 0
        &&& 0 <= slot_index::<T>(addr) < self.slots@.len()
        &&& self.slots@[slot_index::<T>(addr)] is Some
    }

    spec fn model_at(self, addr: int) -> Allocation<T> {
        self.slots@[slot_index::<T>(addr)]->0.model()
    }

    /// Every live allocation has an owner, lies at an address above the
    /// dangling one that fits a machine word and is aligned for the
    /// pointee, and was made before the next one.
    pub proof fn lemma_live_block(self, addr: int)
        requires
            self.wf(),
            self@.live(addr),
        ensures
            self@.blocks[addr].strong >= 1,
            self@.blocks[addr].owner == Owner::Unique ==> self@.blocks[addr].strong == 1,
            align_of::<T>() < addr <= usize::MAX,
            addr % (align_of::<T>() as int) == 0,
            addr < self@.next_addr(),
    {
        let i = slot_index::<T>(addr);
        lemma_slot_index::<T>(addr);
        lemma_slot_addr::<T>(i);
        lemma_slot_addr_monotonic::<T>(i, self.slots@.len() - 1);
        lemma_slot_addr_monotonic::<T>(i, self.slots@.len() as int);
    }
}


impl<T> Heap<T> {
    proof fn lemma_index_injective(a: int, b: int)
        requires
            a % stride::<T>() == 0,
            b % stride::<T>() == 0,
            slot_index::<T>(a) == slot_index::<T>(b),
        ensures
            a == b,
    {
        lemma_slot_index::<T>(a);
        lemma_slot_index::<T>(b);
    }

    proof fn lemma_update(self, after: Heap<T>, index: int, slot: Option<Block<T>>)
        requires
            0 <= index < self.slots@.len(),
            after.slots@ =~= self.slots@.update(index, slot),
        ensures
            after@.allocated == self@.allocated,
            after@.blocks == match slot {
                Some(block) => self@.blocks.insert(slot_addr::<T>(index), block.model()),
                None => self@.blocks.remove(slot_addr::<T>(index)),
            },
    {
        let target = slot_addr::<T>(index);
        lemma_slot_addr::<T>(index);
        let expected = match slot {
            Some(block) => self@.blocks.insert(target, block.model()),
            None => self@.blocks.remove(target),
        };
        assert forall|addr: int| after@.blocks.contains_key(addr) == expected.contains_key(
            addr,
        ) by {
            if addr != target && addr % stride::<T>() == 0 {
                if slot_index::<T>(addr) == index {
                    Self::lemma_index_injective(addr, target);
                }
            }
        }
        assert forall|addr: int| #[trigger] after@.blocks.contains_key(addr) implies after@.blocks[addr]
            == expected[addr] by {
            if addr != target {
                if slot_index::<T>(addr) == index {
                    Self::lemma_index_injective(addr, target);
                }
            }
        }
        assert(after@.blocks =~= expected);
    }

    proof fn lemma_push(self, after: Heap<T>, block: Block<T>)
        requires
            after.slots@ =~= self.slots@.push(Some(block)),
        ensures
            after@.allocated == self@.allocated + 1,
            after@.blocks == self@.blocks.insert(self@.next_addr(), block.model()),
    {
        let index = self.slots@.len() as int;
        let target = slot_addr::<T>(index);
        lemma_slot_addr::<T>(index);
        let expected = self@.blocks.insert(target, block.model());
        assert forall|addr: int| after@.blocks.contains_key(addr) == expected.contains_key(
            addr,
        ) by {
            if addr != target && addr % stride::<T>() == 0 {
                if slot_index::<T>(addr) == index {
                    Self::lemma_index_injective(addr, target);
                }
            }
        }
        assert forall|addr: int| #[trigger] after@.blocks.contains_key(addr) implies after@.blocks[addr]
            == expected[addr] by {
            if addr != target {
                if slot_index::<T>(addr) == index {
                    Self::lemma_index_injective(addr, target);
                }
            }
        }
        assert(after@.blocks =~= expected);
    }

    /// Moves the table of allocations out, to be put back after a change.
    fn take_slots(&mut self) -> (slots: Vec<Option<Block<T>>>)
        ensures
            slots == old(self).slots,
            final(self).slots@.len() == 0,
            final(self).units == old(self).units,
            final(self).ledger == old(self).ledger,
    {
        proof {
            use_type_invariant(&*self);
        }
        let mut slots = Vec::new();
        core::mem::swap(&mut slots, &mut self.slots);
        slots
    }

    /// Moves the pointees without size out, to be put back after a change.
    fn take_units(&mut self) -> (units: Vec<T>)
        ensures
            units == old(self).units,
            final(self).units@.len() == 0,
            final(self).slots == old(self).slots,
            final(self).ledger == old(self).ledger,
    {
        proof {
            use_type_invariant(&*self);
        }
        let mut units = Vec::new();
        core::mem::swap(&mut units, &mut self.units);
        units
    }

    /// The index of the live allocation at `addr`, if there is one.
    fn find(&self, addr: usize) -> (found: Option<usize>)
        ensures
            found is Some <==> self@.live(addr as int),
            found matches Some(index) ==> {
                &&& index < self.slots@.len()
                &&& index == slot_index::<T>(addr as int)
                &&& slot_addr::<T>(index as int) == addr
                &&& self.slots@[index as int] matches Some(block) && block.model()
                    == self@.blocks[addr as int]
            },
    {
        let distance: usize = stride_of::<T>();
        if addr % distance != 0 {
            return None;
        }
        let quotient: usize = addr / distance;
        if quotient < 2 {
            return None;
        }
        let index: usize = quotient - 2;
        if index >= self.slots.len() {
            return None;
        }
        proof {
            lemma_slot_index::<T>(addr as int);
        }
        if self.slots[index].is_some() {
            Some(index)
        } else {
            None
        }
    }

    /// A heap that holds nothing.
    pub fn new() -> (heap: Self)
        ensures
            heap@ == HeapView::<T>::empty(),
    {
        layout_for_type_is_valid::<T>();
        let heap = Heap {
            slots: Vec::new(),
            units: Vec::new(),
            ledger: Ghost(Ledger { freed: 0, cloned: 0 }),
        };
        assert(heap@.blocks =~= Map::<int, Allocation<T>>::empty());
        assert(heap@.units =~= Seq::<T>::empty());
        heap
    }

    /// Whether the address space has room for one more allocation.
    pub fn has_room(&self) -> (room: bool)
        ensures
            room == self@.has_room(),
    {
        let distance: usize = stride_of::<T>();
        match self.slots.len().checked_add(2) {
            Some(count) => count.checked_mul(distance).is_some(),
            None => {
                assert((self.slots@.len() + 2) * distance > usize::MAX) by (nonlinear_arith)
                    requires
                        self.slots@.len() + 2 > usize::MAX,
                        distance >= 1,
                ;
                false
            },
        }
    }

    /// How many allocations were ever made.
    pub fn allocated(&self) -> (count: usize)
        ensures
            count == self@.allocated,
    {
        self.slots.len()
    }

    /// How many pointees without size are kept at the dangling address.
    pub fn unit_count(&self) -> (count: usize)
        ensures
            count == self@.units.len(),
    {
        self.units.len()
    }

    /// Whether `ptr` addresses a live allocation.
    pub fn is_live(&self, ptr: OpaquePtr) -> (live: bool)
        ensures
            live == self@.live(ptr@),
    {
        self.find(ptr.addr()).is_some()
    }

    /// The kind of handle that owns the allocation at `ptr`, if it is live.
    pub fn owner(&self, ptr: OpaquePtr) -> (owner: Option<Owner>)
        ensures
            owner is Some <==> self@.live(ptr@),
            owner matches Some(kind) ==> kind == self@.blocks[ptr@].owner,
    {
        match self.find(ptr.addr()) {
            Some(index) => {
                let block = self.slots[index].as_ref().unwrap();
                Some(block.owner)
            },
            None => None,
        }
    }

    /// How many owners the allocation at `ptr` has: none if it is not live.
    pub fn strong_count(&self, ptr: OpaquePtr) -> (count: usize)
        ensures
            self@.live(ptr@) ==> count == self@.blocks[ptr@].strong && count >= 1,
            !self@.live(ptr@) ==> count == 0,
    {
        proof {
            use_type_invariant(self);
        }
        match self.find(ptr.addr()) {
            Some(index) => {
                let block = self.slots[index].as_ref().unwrap();
                block.strong
            },
            None => 0,
        }
    }

    /// Puts `value` into a new allocation with one owner of kind `owner`.
    pub fn allocate(&mut self, value: T, owner: Owner) -> (ptr: OpaquePtr)
        requires
            old(self)@.has_room(),
        ensures
            ptr@ == old(self)@.next_addr(),
            !old(self)@.live(ptr@),
            final(self)@ == old(self)@.allocate(value, owner),
    {
        proof {
            use_type_invariant(&*self);
            lemma_slot_addr::<T>(self.slots@.len() as int);
        }
        let distance: usize = stride_of::<T>();
        let index: usize = self.slots.len();
        assert((index + 2) * distance <= usize::MAX);
        assert(index + 2 <= usize::MAX) by (nonlinear_arith)
            requires
                (index + 2) * distance <= usize::MAX,
                distance >= 1,
        ;
        let addr: usize = (index + 2) * distance;
        let ghost before = *self;
        let block = Block { value, owner, strong: 1 };
        let mut slots = self.take_slots();
        slots.push(Some(block));
        self.slots = slots;
        proof {
            before.lemma_push(*self, block);
            if before@.live(addr as int) {
                lemma_slot_index::<T>(addr as int);
            }
        }
        OpaquePtr::new(addr).unwrap()
    }

    /// Adds one owner to the shared allocation at `ptr`.
    pub fn retain(&mut self, ptr: OpaquePtr)
        requires
            old(self)@.live(ptr@),
            old(self)@.blocks[ptr@].owner != Owner::Unique,
            old(self)@.blocks[ptr@].strong < usize::MAX,
        ensures
            final(self)@ == old(self)@.retain(ptr@),
    {
        proof {
            use_type_invariant(&*self);
        }
        let ghost before = *self;
        let index: usize = self.find(ptr.addr()).unwrap();
        let mut slots = self.take_slots();
        let mut block = slots[index].take().unwrap();
        block.strong = block.strong + 1;
        slots[index] = Some(block);
        self.slots = slots;
        proof {
            before.lemma_update(*self, index as int, Some(block));
        }
    }

    /// Takes one owner from the allocation at `ptr`. With its last owner
    /// the allocation is given back and its pointee destroyed.
    pub fn release(&mut self, ptr: OpaquePtr)
        requires
            old(self)@.live(ptr@),
        ensures
            final(self)@ == old(self)@.release(ptr@),
    {
        proof {
            use_type_invariant(&*self);
        }
        let ghost before = *self;
        let index: usize = self.find(ptr.addr()).unwrap();
        let mut slots = self.take_slots();
        let mut block = slots[index].take().unwrap();
        if block.strong > 1 {
            block.strong = block.strong - 1;
            slots[index] = Some(block);
            self.slots = slots;
            proof {
                before.lemma_update(*self, index as int, Some(block));
            }
        } else {
            self.slots = slots;
            self.ledger = Ghost(Ledger { freed: before.ledger@.freed + 1, ..before.ledger@ });
            proof {
                before.lemma_update(*self, index as int, None);
            }
        }
    }

    /// The pointee of the live allocation at `at`.
    pub fn read(&self, at: TypedPtr<T>) -> (value: &T)
        requires
            self@.live(at@),
        ensures
            *value == self@.blocks[at@].value,
    {
        let index: usize = self.find(at.addr()).unwrap();
        &self.slots[index].as_ref().unwrap().value
    }

    /// Writes `value` to the live allocation at `at` and hands back what
    /// was there.
    pub fn replace(&mut self, at: TypedPtr<T>, value: T) -> (previous: T)
        requires
            old(self)@.live(at@),
        ensures
            previous == old(self)@.blocks[at@].value,
            final(self)@ == old(self)@.store(at@, value),
    {
        proof {
            use_type_invariant(&*self);
        }
        let ghost before = *self;
        let index: usize = self.find(at.addr()).unwrap();
        let mut slots = self.take_slots();
        let block = slots[index].take().unwrap();
        let Block { value: previous, owner, strong } = block;
        let renewed = Block { value, owner, strong };
        slots[index] = Some(renewed);
        self.slots = slots;
        proof {
            before.lemma_update(*self, index as int, Some(renewed));
        }
        previous
    }

    /// Runs the duplication of the pointee at `at` and hands the copy out.
    pub fn duplicate_value(&mut self, at: TypedPtr<T>) -> (copy: T) where T: Clone
        requires
            old(self)@.live(at@),
        ensures
            cloned(old(self)@.blocks[at@].value, copy),
            final(self)@ == old(self)@.count_clone(),
    {
        proof {
            use_type_invariant(&*self);
        }
        let ghost before = *self;
        let copy = self.read(at).clone();
        self.ledger = Ghost(Ledger { cloned: before.ledger@.cloned + 1, ..before.ledger@ });
        assert(self@.blocks =~= before@.blocks);
        copy
    }

    /// Takes in a pointee without size; no allocation is made for it.
    pub fn push_unit(&mut self, value: T)
        requires
            size_of::<T>() == 0,
            old(self)@.units.len() < usize::MAX,
        ensures
            final(self)@ == old(self)@.push_unit(value),
    {
        proof {
            use_type_invariant(&*self);
        }
        let ghost before = *self;
        let mut units = self.take_units();
        units.push(value);
        self.units = units;
        assert(self@.blocks =~= before@.blocks);
    }

    /// Lets go of the pointee without size that came last, and destroys it.
    pub fn pop_unit(&mut self)
        requires
            old(self)@.units.len() > 0,
        ensures
            final(self)@ == old(self)@.pop_unit(),
    {
        proof {
            use_type_invariant(&*self);
        }
        let ghost before = *self;
        let mut units = self.take_units();
        let _ = units.pop();
        self.units = units;
        assert(self@.blocks =~= before@.blocks);
    }

    /// Runs the duplication of the pointee without size that came last and
    /// hands the copy out.
    pub fn duplicate_unit(&mut self) -> (copy: T) where T: Clone
        requires
            old(self)@.units.len() > 0,
        ensures
            cloned(old(self)@.units.last(), copy),
            final(self)@ == old(self)@.count_clone(),
    {
        proof {
            use_type_invariant(&*self);
        }
        let ghost before = *self;
        let last: usize = self.units.len() - 1;
        let copy = self.units[last].clone();
        self.ledger = Ghost(Ledger { cloned: before.ledger@.cloned + 1, ..before.ledger@ });
        assert(self@.blocks =~= before@.blocks);
        copy
    }
}

} // verus!
