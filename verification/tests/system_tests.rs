use periph_core::delay;
use periph_core::edge::EdgeTrigger;
use periph_core::system::EdgeReport;
use periph_core::system::EventSourceId;
use periph_core::system::Fault;
use periph_core::system::Outcome;
use periph_core::system::System;
use periph_core::system::TimerId;

#[test]
fn timer_output_alternates_on_successive_firings() {
    let mut s = System::new(8, 4);
    s.bind(3, EventSourceId::Timer(TimerId::A)).unwrap();
    s.configure_timer(TimerId::A, 3);
    s.enable_timer(TimerId::A);
    assert!(!s.output_asserted());

    assert!(!s.timer_tick(TimerId::A));
    assert!(!s.timer_tick(TimerId::A));
    assert!(s.timer_tick(TimerId::A));
    assert!(s.timer_pending(TimerId::A));
    assert_eq!(s.dispatch(3), Outcome::TimerServed(TimerId::A));
    assert!(s.output_asserted());
    assert!(!s.timer_pending(TimerId::A));

    assert!(!s.timer_tick(TimerId::A));
    assert!(!s.timer_tick(TimerId::A));
    assert!(s.timer_tick(TimerId::A));
    assert_eq!(s.dispatch(3), Outcome::TimerServed(TimerId::A));
    assert!(!s.output_asserted());
}

#[test]
fn second_firing_before_acknowledgement_is_one_latch() {
    let mut s = System::new(8, 4);
    s.bind(3, EventSourceId::Timer(TimerId::A)).unwrap();
    s.configure_timer(TimerId::A, 2);
    s.enable_timer(TimerId::A);
    s.timer_tick(TimerId::A);
    assert!(s.timer_tick(TimerId::A));
    assert!(s.timer_pending(TimerId::A));
    s.timer_tick(TimerId::A);
    assert!(s.timer_tick(TimerId::A));
    assert!(s.timer_pending(TimerId::A));
    assert_eq!(s.dispatch(3), Outcome::TimerServed(TimerId::A));
    assert!(!s.timer_pending(TimerId::A));
}

#[test]
fn heartbeat_timer_does_not_touch_output() {
    let mut s = System::new(8, 4);
    s.bind(4, EventSourceId::Timer(TimerId::B)).unwrap();
    s.configure_timer(TimerId::B, 1);
    s.enable_timer(TimerId::B);
    assert!(s.timer_tick(TimerId::B));
    assert_eq!(s.dispatch(4), Outcome::TimerServed(TimerId::B));
    assert!(!s.output_asserted());
    assert!(!s.timer_pending(TimerId::B));
    assert!(!s.timer_pending(TimerId::A));
}

#[test]
fn acknowledging_one_timer_keeps_the_other_pending() {
    let mut s = System::new(8, 4);
    s.bind(3, EventSourceId::Timer(TimerId::A)).unwrap();
    s.bind(4, EventSourceId::Timer(TimerId::B)).unwrap();
    s.configure_timer(TimerId::A, 1);
    s.configure_timer(TimerId::B, 1);
    s.enable_timer(TimerId::A);
    s.enable_timer(TimerId::B);
    assert!(s.timer_tick(TimerId::A));
    assert!(s.timer_tick(TimerId::B));
    assert_eq!(s.dispatch(3), Outcome::TimerServed(TimerId::A));
    assert!(!s.timer_pending(TimerId::A));
    assert!(s.timer_pending(TimerId::B));
}

#[test]
fn edge_rise_then_fall_served_with_sampled_levels() {
    let mut s = System::new(8, 16);
    s.bind(5, EventSourceId::Edge).unwrap();
    s.configure_line(13, EdgeTrigger::Both);
    assert!(s.line_transition(13, true));
    assert_eq!(
        s.dispatch(5),
        Outcome::EdgeServed(EdgeReport { line: 13, level: true })
    );
    assert!(!s.line_pending(13));
    assert!(s.line_transition(13, false));
    assert_eq!(
        s.dispatch(5),
        Outcome::EdgeServed(EdgeReport { line: 13, level: false })
    );
    assert!(!s.line_pending(13));
}

#[test]
fn edge_dispatch_clears_only_the_served_line() {
    let mut s = System::new(8, 16);
    s.bind(5, EventSourceId::Edge).unwrap();
    s.configure_line(2, EdgeTrigger::Both);
    s.configure_line(13, EdgeTrigger::Both);
    assert!(s.line_transition(2, true));
    assert!(s.line_transition(13, true));
    assert_eq!(
        s.dispatch(5),
        Outcome::EdgeServed(EdgeReport { line: 2, level: true })
    );
    assert!(s.line_pending(13));
    assert_eq!(
        s.dispatch(5),
        Outcome::EdgeServed(EdgeReport { line: 13, level: true })
    );
    assert!(!s.line_pending(13));
}

#[test]
fn edge_interrupt_with_nothing_pending_is_spurious() {
    let mut s = System::new(8, 4);
    s.bind(5, EventSourceId::Edge).unwrap();
    s.configure_line(1, EdgeTrigger::Rising);
    assert_eq!(s.dispatch(5), Outcome::EdgeSpurious);
    assert!(!s.is_halted());
    assert!(!s.output_asserted());
}

#[test]
fn unhandled_interrupt_routes_to_fault_core_and_halts() {
    let mut s = System::new(4, 2);
    assert_eq!(s.dispatch(1), Outcome::UnhandledToFault);
    assert!(s.is_halted());
    assert_eq!(s.current_fault(), Some(Fault::UnhandledInterrupt(1)));
    assert_eq!(s.dispatch(1), Outcome::AlreadyHalted);
    assert!(!s.timer_tick(TimerId::A));
    assert!(!s.line_transition(0, true));
    assert!(s.is_halted());
    assert_eq!(s.current_fault(), Some(Fault::UnhandledInterrupt(1)));
}

#[test]
fn out_of_range_interrupt_is_unhandled() {
    let mut s = System::new(4, 2);
    assert_eq!(s.dispatch(99), Outcome::UnhandledToFault);
    assert_eq!(s.current_fault(), Some(Fault::UnhandledInterrupt(99)));
}

#[test]
fn hard_fault_halts_and_first_fault_is_kept() {
    let mut s = System::new(4, 2);
    s.hard_fault();
    assert!(s.is_halted());
    assert_eq!(s.current_fault(), Some(Fault::HardFault));
    assert_eq!(s.dispatch(0), Outcome::AlreadyHalted);
    s.hard_fault();
    assert_eq!(s.current_fault(), Some(Fault::HardFault));
}

#[test]
fn rebinding_to_a_different_source_conflicts() {
    let mut s = System::new(4, 2);
    s.bind(0, EventSourceId::Timer(TimerId::A)).unwrap();
    let err = s.bind(0, EventSourceId::Edge).unwrap_err();
    assert_eq!(err.handle, 0);
    s.bind(0, EventSourceId::Timer(TimerId::A)).unwrap();
}

#[test]
fn fresh_system_dimensions() {
    let s = System::new(7, 3);
    assert_eq!(s.vector_len(), 7);
    assert_eq!(s.lines_len(), 3);
    assert!(!s.is_halted());
    assert_eq!(s.current_fault(), None);
}

#[test]
fn idle_pacing_delay_returns() {
    delay(0);
    delay(10_000);
}
