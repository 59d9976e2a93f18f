use stack_vm::{Heap, HeapError, ObjectReference};

#[test]
fn fresh_object_data_is_zeroed() {
    let mut h = Heap::new();
    for k in [0usize, 1, 4, 17] {
        let r = h.allocate(2, k).unwrap();
        assert_eq!(h.get_data_slice(&r, 0, k).unwrap(), vec![0u8; k].as_slice());
        assert_eq!(h.get_child(&r, 0), Ok(None));
        assert_eq!(h.get_child(&r, 1), Ok(None));
    }
}

#[test]
fn references_increase_from_one() {
    let mut h = Heap::new();
    let a = h.allocate(0, 0).unwrap();
    let b = h.allocate(1, 1).unwrap();
    h.decrement_stack_references(a).unwrap();
    h.collect_garbage();
    let c = h.allocate(0, 0).unwrap();
    assert_eq!(a.get(), 1);
    assert_eq!(b.get(), 2);
    assert_eq!(c.get(), 3);
    assert!(a.get() < b.get() && b.get() < c.get());
    assert_eq!(u64::from(c), 3);
}

#[test]
fn null_reference_is_rejected() {
    assert_eq!(ObjectReference::new_option(0), None);
    assert_eq!(ObjectReference::new_result(0), Err(HeapError::IllegalNullObjectReferenceUsage));
    assert_eq!(ObjectReference::new_result(5).unwrap().get(), 5);
}

#[test]
fn stack_reference_counts_are_checked() {
    let mut h = Heap::new();
    let r = h.allocate(0, 0).unwrap();
    h.decrement_stack_references(r).unwrap();
    assert_eq!(h.decrement_stack_references(r), Err(HeapError::StackReferenceError));
    for _ in 0..u16::MAX {
        h.increment_stack_references(&r).unwrap();
    }
    assert_eq!(h.increment_stack_references(&r), Err(HeapError::StackReferenceError));
    let missing = ObjectReference::new_result(99).unwrap();
    assert_eq!(h.increment_stack_references(&missing), Err(HeapError::ObjectNotFound));
    assert_eq!(h.decrement_stack_references(missing), Err(HeapError::ObjectNotFound));
}

#[test]
fn child_slots_are_bounded() {
    let mut h = Heap::new();
    let p = h.allocate(2, 0).unwrap();
    let c = h.allocate(0, 0).unwrap();
    assert_eq!(h.set_child(&p, 1, Some(&c)), Ok(()));
    assert_eq!(h.get_child(&p, 1), Ok(Some(c)));
    assert_eq!(h.set_child(&p, 2, Some(&c)), Err(HeapError::ChildIndexOutOfBounds));
    assert_eq!(h.get_child(&p, 2), Err(HeapError::ChildIndexOutOfBounds));
    assert_eq!(h.set_child(&p, 1, None), Ok(()));
    assert_eq!(h.get_child(&p, 1), Ok(None));
}

#[test]
fn data_access_is_bounded() {
    let mut h = Heap::new();
    let r = h.allocate(0, 4).unwrap();
    assert_eq!(h.set_data_slice(&r, 1, &[7, 8]), Ok(()));
    assert_eq!(h.get_data_slice(&r, 0, 4).unwrap(), &[0u8, 7, 8, 0][..]);
    assert_eq!(h.get_data_slice(&r, 3, 2), Err(HeapError::OutOfBoundsObjectDataAccess));
    assert_eq!(h.get_data_slice(&r, usize::MAX, 2), Err(HeapError::OutOfBoundsObjectDataAccess));
    assert_eq!(h.set_data_slice(&r, 3, &[1, 2]), Err(HeapError::OutOfBoundsObjectDataAccess));
    assert_eq!(h.get_data_slice(&r, 0, 4).unwrap(), &[0u8, 7, 8, 0][..]);
}

#[test]
fn collection_removes_unreachable_cycle() {
    let mut h = Heap::new();
    let a = h.allocate(1, 0).unwrap();
    let b = h.allocate(1, 0).unwrap();
    h.set_child(&a, 0, Some(&b)).unwrap();
    h.set_child(&b, 0, Some(&a)).unwrap();
    h.decrement_stack_references(a).unwrap();
    h.decrement_stack_references(b).unwrap();
    h.collect_garbage();
    assert_eq!(h.get_child(&a, 0), Err(HeapError::ObjectNotFound));
    assert_eq!(h.get_child(&b, 0), Err(HeapError::ObjectNotFound));
}

#[test]
fn collection_keeps_what_roots_reach() {
    let mut h = Heap::new();
    let root = h.allocate(1, 0).unwrap();
    let mid = h.allocate(1, 0).unwrap();
    let leaf = h.allocate(0, 1).unwrap();
    let lone = h.allocate(0, 0).unwrap();
    h.set_child(&root, 0, Some(&mid)).unwrap();
    h.set_child(&mid, 0, Some(&leaf)).unwrap();
    h.decrement_stack_references(mid).unwrap();
    h.decrement_stack_references(leaf).unwrap();
    h.decrement_stack_references(lone).unwrap();
    h.collect_garbage();
    assert_eq!(h.get_child(&root, 0), Ok(Some(mid)));
    assert_eq!(h.get_child(&mid, 0), Ok(Some(leaf)));
    assert_eq!(h.get_data_slice(&leaf, 0, 1).unwrap(), &[0u8][..]);
    assert_eq!(h.get_child(&lone, 0), Err(HeapError::ObjectNotFound));
    // once the root goes, everything below it goes too
    h.decrement_stack_references(root).unwrap();
    h.collect_garbage();
    assert_eq!(h.get_child(&root, 0), Err(HeapError::ObjectNotFound));
    assert_eq!(h.get_child(&mid, 0), Err(HeapError::ObjectNotFound));
    assert_eq!(h.get_data_slice(&leaf, 0, 1), Err(HeapError::ObjectNotFound));
}

#[test]
fn collection_skips_dangling_children() {
    let mut h = Heap::new();
    let root = h.allocate(1, 0).unwrap();
    let ghost_ref = ObjectReference::new_result(1000).unwrap();
    h.set_child(&root, 0, Some(&ghost_ref)).unwrap();
    h.collect_garbage();
    assert_eq!(h.get_child(&root, 0), Ok(Some(ghost_ref)));
}
