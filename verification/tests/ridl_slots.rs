use mquickjs_rs::ridl_runtime::{ErasedCtxSlot, RidlCtxExtWriter, RidlSlotSetError};

#[test]
fn slot_empty_then_set_then_dropped_once() {
    let mut slot = ErasedCtxSlot::empty();
    assert!(!slot.is_set());
    slot.set(42);
    assert!(slot.is_set());
    assert_eq!(slot.token(), Some(42));
    assert_eq!(slot.drop_in_place(), Some(42));
    assert!(!slot.is_set());
    assert_eq!(slot.drop_in_place(), None);
}

#[test]
fn set_slot_without_layout_is_vtable_missing() {
    let mut w = RidlCtxExtWriter::new(None);
    assert_eq!(w.set_slot(0, 7), Err(RidlSlotSetError::VTableMissing));
    assert_eq!(w.slot_token(0), None);
}

#[test]
fn set_slot_out_of_range_is_invalid_slot() {
    let mut w = RidlCtxExtWriter::new(Some(2));
    assert_eq!(w.set_slot(2, 7), Err(RidlSlotSetError::InvalidSlot { slot_index: 2 }));
    assert_eq!(w.slot_token(0), None);
    assert_eq!(w.slot_token(1), None);
}

#[test]
fn set_slot_twice_is_already_set() {
    let mut w = RidlCtxExtWriter::new(Some(3));
    assert_eq!(w.set_slot(1, 10), Ok(()));
    assert_eq!(w.set_slot(1, 11), Err(RidlSlotSetError::AlreadySet { slot_index: 1 }));
    assert_eq!(w.slot_token(1), Some(10));
    assert_eq!(w.slot_token(0), None);
    assert_eq!(w.slot_token(2), None);
}

#[test]
fn release_all_hands_back_tokens_in_slot_order() {
    let mut w = RidlCtxExtWriter::new(Some(4));
    assert_eq!(w.set_slot(3, 30), Ok(()));
    assert_eq!(w.set_slot(0, 5), Ok(()));
    assert_eq!(w.release_all(), vec![5, 30]);
    assert_eq!(w.slot_token(0), None);
    assert_eq!(w.slot_token(3), None);
    assert_eq!(w.release_all(), Vec::<u64>::new());
    assert_eq!(w.set_slot(0, 6), Ok(()));
}
