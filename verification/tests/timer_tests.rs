use periph_core::timer::TimerSource;

#[test]
fn timer_fires_when_count_reaches_period() {
    let mut t = TimerSource::new();
    t.configure(3);
    t.enable();
    assert!(!t.tick());
    assert!(!t.tick());
    assert!(t.tick());
    assert!(t.is_pending());
}

#[test]
fn disabled_timer_never_fires() {
    let mut t = TimerSource::new();
    t.configure(1);
    assert!(!t.tick());
    assert!(!t.tick());
    assert!(!t.is_pending());
}

#[test]
fn acknowledge_clears_pending_only() {
    let mut t = TimerSource::new();
    t.configure(2);
    t.enable();
    t.tick();
    assert!(t.tick());
    t.acknowledge();
    assert!(!t.is_pending());
    assert!(t.is_enabled());
    assert!(t.tick() == false);
    assert!(t.tick());
    assert!(t.is_pending());
}

#[test]
fn pending_latch_holds_one_occurrence() {
    let mut t = TimerSource::new();
    t.configure(2);
    t.enable();
    t.tick();
    assert!(t.tick());
    assert!(t.is_pending());
    t.tick();
    assert!(t.tick());
    assert!(t.is_pending());
    t.acknowledge();
    assert!(!t.is_pending());
}

#[test]
fn enable_and_disable_keep_count() {
    let mut t = TimerSource::new();
    t.configure(3);
    t.enable();
    assert!(!t.tick());
    t.disable();
    assert!(!t.tick());
    t.enable();
    assert!(!t.tick());
    assert!(t.tick());
}

#[test]
fn two_timer_instances_are_independent() {
    let mut a = TimerSource::new();
    let mut b = TimerSource::new();
    a.configure(1);
    a.enable();
    b.configure(1);
    b.enable();
    assert!(a.tick());
    assert!(b.tick());
    a.acknowledge();
    assert!(!a.is_pending());
    assert!(b.is_pending());
}

#[test]
fn prescale_is_independent_of_period() {
    let mut t = TimerSource::new();
    t.configure(5);
    t.set_prescale(800);
    t.enable();
    assert!(!t.tick());
    t.set_prescale(7999);
    t.configure(5);
    t.enable();
    let mut fired = false;
    for _ in 0..5 {
        fired = t.tick();
    }
    assert!(fired);
}
