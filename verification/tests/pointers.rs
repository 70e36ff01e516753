use thin_ptr::{Erasable, OpaquePtr, TypedPtr};

struct Empty;

#[test]
fn null_is_no_opaque_pointer() {
    assert!(OpaquePtr::new(0).is_none());
}

#[test]
fn opaque_pointer_keeps_its_address() {
    assert_eq!(OpaquePtr::new(1).unwrap().addr(), 1);
    assert_eq!(OpaquePtr::new(4096).unwrap().addr(), 4096);
    assert_eq!(OpaquePtr::new(usize::MAX).unwrap().addr(), usize::MAX);
}

#[test]
fn opaque_pointers_compare_by_address() {
    let a = OpaquePtr::new(64).unwrap();
    let b = OpaquePtr::new(64).unwrap();
    let c = OpaquePtr::new(72).unwrap();
    assert_eq!(a, b);
    assert_ne!(a, c);
    assert_eq!(a.clone(), a);
}

#[test]
fn cast_and_erase_keep_the_address() {
    let ptr = OpaquePtr::new(0x1238).unwrap();
    let typed: TypedPtr<u64> = ptr.cast();
    assert_eq!(typed.addr(), 0x1238);
    assert_eq!(typed.erase(), ptr);
}

#[test]
fn erase_then_unerase_is_the_identity() {
    for addr in [1usize, 2, 8, 24, 0xdead_beef, usize::MAX] {
        let typed: TypedPtr<u32> = OpaquePtr::new(addr).unwrap().cast();
        let back = <u32 as Erasable>::unerase(typed.erase());
        assert_eq!(back.addr(), typed.addr());
        assert_eq!(back.addr(), addr);
    }
}

#[test]
fn unerase_then_erase_is_the_identity() {
    let ptr = OpaquePtr::new(40).unwrap();
    assert_eq!(<String as Erasable>::unerase(ptr).erase(), ptr);
    assert_eq!(<Empty as Erasable>::unerase(ptr).erase(), ptr);
}

#[test]
fn typed_pointer_is_copied_by_address() {
    let typed: TypedPtr<String> = OpaquePtr::new(48).unwrap().cast();
    let copy = typed;
    assert_eq!(copy.addr(), typed.addr());
    assert_eq!(typed.clone().addr(), 48);
}

#[test]
fn dangling_is_the_alignment() {
    assert_eq!(TypedPtr::<u8>::dangling().addr(), 1);
    assert_eq!(TypedPtr::<u32>::dangling().addr(), 4);
    assert_eq!(TypedPtr::<u64>::dangling().addr(), std::mem::align_of::<u64>());
    assert_eq!(TypedPtr::<Empty>::dangling().addr(), 1);
}
