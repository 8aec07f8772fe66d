use periph_core::kernel::Kernel;
use periph_core::ledger::Ledger;

// Handle 0 is shared by the idle context (priority 0) and a handler at
// priority 1, so its ceiling is 1.  Handle 1 belongs to a handler at
// priority 2 alone.
fn sealed_ledger() -> Ledger {
    let mut l = Ledger::new(3);
    l.register(0, &vec![0u8, 1u8]).unwrap();
    l.register(1, &vec![2u8]).unwrap();
    l.seal();
    l
}

#[test]
fn mask_restored_exactly_after_nested_claims() {
    let mut k = Kernel::new(&sealed_ledger());
    assert_eq!(k.current_mask(), 0);
    assert!(k.acquire(0));
    assert_eq!(k.current_mask(), 1);
    assert!(k.acquire(1));
    assert_eq!(k.current_mask(), 2);
    assert!(k.release());
    assert_eq!(k.current_mask(), 1);
    assert!(k.release());
    assert_eq!(k.current_mask(), 0);
}

#[test]
fn masked_accessor_cannot_preempt_critical_section() {
    let mut k = Kernel::new(&sealed_ledger());
    assert!(k.acquire(0));
    assert!(!k.irq_enter(1));
    assert!(k.irq_enter(2));
}

#[test]
fn equal_priority_does_not_preempt() {
    let mut k = Kernel::new(&sealed_ledger());
    assert!(k.irq_enter(1));
    assert!(!k.irq_enter(1));
}

#[test]
fn write_must_commit_before_release() {
    let mut k = Kernel::new(&sealed_ledger());
    assert!(k.acquire(0));
    assert!(k.begin_write(0, 0xAB));
    assert!(!k.release());
    assert!(k.end_write(0));
    assert_eq!(k.read_reg(0), Some(0xAB));
    assert!(k.release());
}

#[test]
fn register_access_requires_open_claim() {
    let mut k = Kernel::new(&sealed_ledger());
    assert_eq!(k.read_reg(0), None);
    assert!(!k.begin_write(0, 1));
    assert!(!k.end_write(0));
}

#[test]
fn handler_must_release_before_exit() {
    let mut k = Kernel::new(&sealed_ledger());
    assert!(k.irq_enter(2));
    assert!(k.acquire(1));
    assert!(!k.irq_exit());
    assert!(k.release());
    assert!(k.irq_exit());
    assert_eq!(k.current_priority(), 0);
}

#[test]
fn context_above_ceiling_is_no_accessor() {
    let mut k = Kernel::new(&sealed_ledger());
    assert!(k.irq_enter(2));
    assert!(!k.acquire(0));
}

#[test]
fn unregistered_handle_cannot_be_claimed() {
    let mut k = Kernel::new(&sealed_ledger());
    assert!(!k.acquire(2));
    assert!(!k.acquire(99));
}

#[test]
fn idle_context_cannot_exit() {
    let mut k = Kernel::new(&sealed_ledger());
    assert!(!k.irq_exit());
}

#[test]
fn committed_value_survives_preemption_by_non_accessor() {
    let mut k = Kernel::new(&sealed_ledger());
    assert!(k.acquire(0));
    assert!(k.begin_write(0, 7));
    assert!(k.end_write(0));
    assert!(k.irq_enter(2));
    assert!(k.acquire(1));
    assert!(k.begin_write(1, 9));
    assert!(k.end_write(1));
    assert!(k.release());
    assert!(k.irq_exit());
    assert_eq!(k.read_reg(0), Some(7));
    assert!(k.release());
}
