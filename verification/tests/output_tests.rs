use periph_core::output::OutputLine;

#[test]
fn output_starts_deasserted() {
    let line = OutputLine::new();
    assert!(!line.read());
}

#[test]
fn output_set_and_clear() {
    let mut line = OutputLine::new();
    line.assert_line();
    assert!(line.read());
    line.deassert_line();
    assert!(!line.read());
}

#[test]
fn toggle_complements_current_state() {
    let mut line = OutputLine::new();
    line.toggle();
    assert!(line.read());
    line.toggle();
    assert!(!line.read());
}

#[test]
fn double_toggle_restores_state() {
    let mut line = OutputLine::new();
    line.assert_line();
    let before = line.read();
    line.toggle();
    let _mid = line.read();
    line.toggle();
    assert_eq!(line.read(), before);
}
