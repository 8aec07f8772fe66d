use periph_core::ledger::Ledger;

#[test]
fn ceiling_is_highest_accessor_priority() {
    let mut l = Ledger::new(4);
    l.register(2, &vec![0u8, 2u8, 1u8]).unwrap();
    l.seal();
    assert_eq!(l.ceiling_of(2), Some(2));
}

#[test]
fn reregistration_with_same_ceiling_is_accepted() {
    let mut l = Ledger::new(4);
    l.register(1, &vec![1u8, 2u8]).unwrap();
    l.register(1, &vec![2u8, 0u8]).unwrap();
    l.seal();
    assert_eq!(l.ceiling_of(1), Some(2));
}

#[test]
fn incompatible_reregistration_conflicts() {
    let mut l = Ledger::new(4);
    l.register(1, &vec![1u8]).unwrap();
    let err = l.register(1, &vec![2u8]).unwrap_err();
    assert_eq!(err.handle, 1);
    l.seal();
    assert_eq!(l.ceiling_of(1), Some(1));
}

#[test]
fn unregistered_handle_has_no_ceiling() {
    let mut l = Ledger::new(3);
    l.register(0, &vec![1u8]).unwrap();
    l.seal();
    assert_eq!(l.ceiling_of(2), None);
}

#[test]
fn idle_only_handle_has_ceiling_zero() {
    let mut l = Ledger::new(1);
    l.register(0, &vec![0u8]).unwrap();
    l.seal();
    assert_eq!(l.ceiling_of(0), Some(0));
}
