use periph_core::edge::EdgeController;
use periph_core::edge::EdgeTrigger;

#[test]
fn both_edges_rise_then_fall_fires_twice() {
    let mut e = EdgeController::new(4);
    e.configure(2, EdgeTrigger::Both);
    assert!(e.transition(2, true));
    assert!(e.is_pending(2));
    assert!(e.sample_level(2));
    e.clear_pending(2).unwrap();
    assert!(e.transition(2, false));
    assert!(e.is_pending(2));
    assert!(!e.sample_level(2));
    e.clear_pending(2).unwrap();
    assert!(!e.is_pending(2));
}

#[test]
fn clearing_one_line_leaves_others_pending() {
    let mut e = EdgeController::new(4);
    e.configure(1, EdgeTrigger::Both);
    e.configure(3, EdgeTrigger::Both);
    assert!(e.transition(1, true));
    assert!(e.transition(3, true));
    e.clear_pending(1).unwrap();
    assert!(!e.is_pending(1));
    assert!(e.is_pending(3));
}

#[test]
fn spurious_clear_is_refused() {
    let mut e = EdgeController::new(2);
    e.configure(0, EdgeTrigger::Rising);
    let err = e.clear_pending(0).unwrap_err();
    assert_eq!(err.line, 0);
    assert!(!e.is_pending(0));
}

#[test]
fn rising_trigger_ignores_falling_edge() {
    let mut e = EdgeController::new(2);
    e.configure(0, EdgeTrigger::Rising);
    assert!(e.transition(0, true));
    e.clear_pending(0).unwrap();
    assert!(!e.transition(0, false));
    assert!(!e.is_pending(0));
}

#[test]
fn falling_trigger_ignores_rising_edge() {
    let mut e = EdgeController::new(2);
    e.configure(1, EdgeTrigger::Falling);
    assert!(!e.transition(1, true));
    assert!(e.transition(1, false));
}

#[test]
fn unchanged_level_is_no_edge() {
    let mut e = EdgeController::new(1);
    e.configure(0, EdgeTrigger::Both);
    assert!(!e.transition(0, false));
    assert!(!e.is_pending(0));
}

#[test]
fn unmonitored_line_never_fires() {
    let mut e = EdgeController::new(2);
    assert!(!e.transition(0, true));
    assert!(!e.transition(0, false));
    assert!(!e.is_pending(0));
}

#[test]
fn find_pending_returns_lowest_line() {
    let mut e = EdgeController::new(8);
    e.configure(3, EdgeTrigger::Both);
    e.configure(5, EdgeTrigger::Both);
    assert_eq!(e.find_pending(), None);
    e.transition(5, true);
    e.transition(3, true);
    assert_eq!(e.find_pending(), Some(3));
    e.clear_pending(3).unwrap();
    assert_eq!(e.find_pending(), Some(5));
}

#[test]
fn level_follows_wire_even_without_trigger_match() {
    let mut e = EdgeController::new(2);
    e.configure(0, EdgeTrigger::Rising);
    e.transition(0, true);
    e.clear_pending(0).unwrap();
    e.transition(0, false);
    assert!(!e.sample_level(0));
}
