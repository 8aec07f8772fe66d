//! Output actuator: one digital output line with set, clear and toggle.
use vstd::prelude::*;

verus! {

/// What a toggle does to the line: it drives the complement of the state
/// it just read back from the line.
pub open spec fn toggle_spec(asserted: bool) -> bool {
    !asserted
}

/// State of one digital output line.  The only legal mutations are set,
/// clear and read-modify-toggle; `toggle` recomputes from the current line
/// state rather than from a software shadow, so it stays correct even if
/// the line was altered outside this component.
#[derive(Clone, Copy, PartialEq, Eq, Structural, Debug)]
pub struct OutputLine {
    asserted: bool,
}

impl OutputLine {
    /// Whether the line is currently driven to its asserted level.
    pub closed spec fn is_asserted(self) -> bool {
        self.asserted
    }

    /// A freshly initialized line is deasserted.
    pub fn new() -> (r: OutputLine)
        ensures
            !r.is_asserted(),
    {
        OutputLine { asserted: false }
    }

    /// Drive the line to its asserted level.  Total: no error path.
    pub fn assert_line(&mut self)
        ensures
            final(self).is_asserted(),
    {
        self.asserted = true;
    }

    /// Drive the line to its deasserted level.  Total: no error path.
    pub fn deassert_line(&mut self)
        ensures
            !final(self).is_asserted(),
    {
        self.asserted = false;
    }

    /// Read the current state, then write its complement.
    pub fn toggle(&mut self)
        ensures
            final(self).is_asserted() == toggle_spec(old(self).is_asserted()),
    {
        let current = self.asserted;
        self.asserted = !current;
    }

    /// Read the current state of the line; the state never changes.
    pub fn read(&self) -> (r: bool)
        ensures
            r == self.is_asserted(),
    {
        self.asserted
    }
}

/// Toggling twice returns the line to its original state, whatever reads
/// happen in between (reads do not change the state).
pub proof fn lemma_double_toggle(asserted: bool)
    ensures
        toggle_spec(toggle_spec(asserted)) == asserted,
{
}

} // verus!
