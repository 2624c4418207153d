use lastconvoy::boundary::Boundary;

#[test]
fn new_boundary_has_all_slots_free() {
    let b = Boundary::new(6);
    assert_eq!(b.slots, vec![false; 6]);
    assert!(b.has_free_slot());
}

#[test]
fn occupy_takes_first_free_slot() {
    let mut b = Boundary::new(3);
    assert_eq!(b.occupy_slot(), Some(0));
    assert_eq!(b.occupy_slot(), Some(1));
    b.release_slot(0);
    assert_eq!(b.occupy_slot(), Some(0));
    assert_eq!(b.occupy_slot(), Some(2));
    assert_eq!(b.slots, vec![true, true, true]);
}

#[test]
fn occupy_on_full_boundary_returns_none_and_changes_nothing() {
    let mut b = Boundary::new(2);
    b.occupy_slot();
    b.occupy_slot();
    assert!(!b.has_free_slot());
    assert_eq!(b.occupy_slot(), None);
    assert_eq!(b.slots, vec![true, true]);
}

#[test]
fn empty_boundary_has_no_free_slot() {
    let mut b = Boundary::new(0);
    assert!(!b.has_free_slot());
    assert_eq!(b.occupy_slot(), None);
}

#[test]
fn release_out_of_range_is_ignored() {
    let mut b = Boundary::new(2);
    b.occupy_slot();
    b.release_slot(5);
    assert_eq!(b.slots, vec![true, false]);
}

#[test]
fn occupy_then_release_restores_state() {
    let mut b = Boundary::new(4);
    b.occupy_slot();
    let before = b.slots.clone();
    let idx = b.occupy_slot().unwrap();
    b.release_slot(idx);
    assert_eq!(b.slots, before);
}
