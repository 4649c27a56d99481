use async_socket::RawSlab;

#[test]
fn allocates_indexes_in_order() {
    let mut slab: RawSlab<u32> = RawSlab::new(3);
    assert_eq!(slab.capacity(), 3);
    assert_eq!(slab.allocated(), 0);
    assert_eq!(slab.allocate(), Some(0));
    assert_eq!(slab.allocate(), Some(1));
    assert_eq!(slab.allocate(), Some(2));
    assert_eq!(slab.allocated(), 3);
    assert_eq!(slab.allocate(), None);
}

#[test]
fn dealloc_makes_slot_reusable() {
    let mut slab: RawSlab<u32> = RawSlab::new(2);
    let a = slab.allocate().unwrap();
    let b = slab.allocate().unwrap();
    assert_eq!(slab.allocate(), None);
    slab.dealloc(a);
    assert_eq!(slab.allocated(), 1);
    // The freed slot comes back; the other stays allocated.
    assert_eq!(slab.allocate(), Some(a));
    assert_ne!(a, b);
    assert_eq!(slab.allocated(), 2);
}

#[test]
fn put_and_get_round_trip() {
    let mut slab: RawSlab<(u16, u16)> = RawSlab::new(2);
    let a = slab.allocate().unwrap();
    let b = slab.allocate().unwrap();
    slab.put(a, (7, 8));
    slab.put(b, (9, 10));
    assert_eq!(*slab.get(a), (7, 8));
    assert_eq!(*slab.get(b), (9, 10));
    slab.put(a, (1, 2));
    assert_eq!(*slab.get(a), (1, 2));
}

#[test]
fn zero_capacity_slab_is_always_full() {
    let mut slab: RawSlab<u8> = RawSlab::new(0);
    assert_eq!(slab.capacity(), 0);
    assert_eq!(slab.allocate(), None);
}
