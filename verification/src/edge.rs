//! Edge event source: an external-interrupt controller demultiplexing
//! pin-change conditions that arrive on one shared interrupt line.
//!
//! Several input lines share the interrupt.  Each monitored line latches its
//! own pending bit when a level change matches its configured trigger; the
//! handling context inspects the pending bits to find which line signaled,
//! clears exactly that line's bit, and samples the line's current level
//! (the edge direction is never inferred from the trigger, since the line
//! may have bounced by the time the handler runs).
use vstd::prelude::*;

verus! {

/// Which level changes on a line produce an occurrence.
#[derive(Clone, Copy, PartialEq, Eq, Structural, Debug)]
pub enum EdgeTrigger {
    Rising,
    Falling,
    Both,
}

/// Clearing was requested for a line that was not signaling: a logic
/// defect in the caller, surfaced instead of silently swallowed.
#[derive(Clone, Copy, PartialEq, Eq, Structural, Debug)]
pub struct SpuriousClearError {
    pub line: usize,
}

/// State of one input line: its trigger configuration (`None` while the
/// line is not monitored), the last sampled level, and the pending latch.
#[derive(Clone, Copy, PartialEq, Eq, Debug)]
pub struct EdgeLine {
    pub config: Option<EdgeTrigger>,
    pub level: bool,
    pub pending: bool,
}

/// Whether a level change from `old_level` to `new_level` fires an
/// occurrence on a line configured with `config`.
pub open spec fn edge_fires(config: Option<EdgeTrigger>, old_level: bool, new_level: bool) -> bool {
    match config {
        Option::None => false,
        Option::Some(t) => old_level != new_level && (match t {
            EdgeTrigger::Rising => new_level,
            EdgeTrigger::Falling => !new_level,
            EdgeTrigger::Both => true,
        }),
    }
}

/// The external-interrupt controller for one shared interrupt line.
pub struct EdgeController {
    lines: Vec<EdgeLine>,
}

impl EdgeController {
    /// The per-line states, in line order.
    pub closed spec fn lines(self) -> Seq<EdgeLine> {
        self.lines@
    }

    /// How many input lines share this interrupt.
    pub open spec fn line_count(self) -> nat {
        self.lines().len()
    }

    pub open spec fn config(self, line: int) -> Option<EdgeTrigger> {
        self.lines()[line].config
    }

    pub open spec fn level(self, line: int) -> bool {
        self.lines()[line].level
    }

    pub open spec fn pending(self, line: int) -> bool {
        self.lines()[line].pending
    }

    /// A fresh controller: no line monitored, all levels low, nothing
    /// pending.
    pub fn new(line_count: usize) -> (r: EdgeController)
        ensures
            r.line_count() == line_count,
            forall|l: int| 0 <= l < line_count ==> r.config(l) is None,
            forall|l: int| 0 <= l < line_count ==> !r.level(l),
            forall|l: int| 0 <= l < line_count ==> !r.pending(l),
    {
        let mut lines: Vec<EdgeLine> = Vec::new();
        let mut i: usize = 0;
        while i < line_count
            invariant
                i <= line_count,
                lines@.len() == i,
                forall|l: int| 0 <= l < i ==> lines@[l].config is None,
                forall|l: int| 0 <= l < i ==> !lines@[l].level,
                forall|l: int| 0 <= l < i ==> !lines@[l].pending,
            decreases line_count - i,
        {
            lines.push(EdgeLine { config: None, level: false, pending: false });
            i = i + 1;
        }
        EdgeController { lines }
    }

    /// Monitor `line` for the given trigger.  The level and the pending
    /// latch of the line, and every other line, are untouched.
    pub fn configure(&mut self, line: usize, trigger: EdgeTrigger)
        requires
            line < old(self).line_count(),
        ensures
            final(self).line_count() == old(self).line_count(),
            final(self).config(line as int) == Some(trigger),
            final(self).level(line as int) == old(self).level(line as int),
            final(self).pending(line as int) == old(self).pending(line as int),
            forall|l: int|
                0 <= l < old(self).line_count() && l != line ==> final(self).lines()[l]
                    == old(self).lines()[l],
    {
        let level = self.lines[line].level;
        let pending = self.lines[line].pending;
        self.lines.set(line, EdgeLine { config: Some(trigger), level, pending });
    }

    /// A physical level change on `line`.  The stored level always follows
    /// the wire; the pending latch is set exactly when the change matches
    /// the line's trigger.  Returns whether an occurrence fired.
    pub fn transition(&mut self, line: usize, new_level: bool) -> (fired: bool)
        requires
            line < old(self).line_count(),
        ensures
            final(self).line_count() == old(self).line_count(),
            fired == edge_fires(
                old(self).config(line as int),
                old(self).level(line as int),
                new_level,
            ),
            final(self).config(line as int) == old(self).config(line as int),
            final(self).level(line as int) == new_level,
            final(self).pending(line as int) == (old(self).pending(line as int) || fired),
            forall|l: int|
                0 <= l < old(self).line_count() && l != line ==> final(self).lines()[l]
                    == old(self).lines()[l],
    {
        let entry = self.lines[line];
        let fired = match entry.config {
            None => false,
            Some(t) => entry.level != new_level && (match t {
                EdgeTrigger::Rising => new_level,
                EdgeTrigger::Falling => !new_level,
                EdgeTrigger::Both => true,
            }),
        };
        self.lines.set(
            line,
            EdgeLine { config: entry.config, level: new_level, pending: entry.pending || fired },
        );
        fired
    }

    /// Number of input lines sharing this interrupt.
    pub fn line_total(&self) -> (n: usize)
        ensures
            n == self.line_count(),
    {
        self.lines.len()
    }

    /// Read one line's pending bit.
    pub fn is_pending(&self, line: usize) -> (r: bool)
        requires
            line < self.line_count(),
        ensures
            r == self.pending(line as int),
    {
        self.lines[line].pending
    }

    /// Sample the current level of a line.  The handler uses this, never
    /// the trigger direction, to decide what the line now reads.
    pub fn sample_level(&self, line: usize) -> (r: bool)
        requires
            line < self.line_count(),
        ensures
            r == self.level(line as int),
    {
        self.lines[line].level
    }

    /// The lowest-numbered line whose pending bit is set, if any: how the
    /// handling context finds which of the sharing lines signaled.
    pub fn find_pending(&self) -> (r: Option<usize>)
        ensures
            match r {
                Some(l) => l < self.line_count() && self.pending(l as int) && forall|k: int|
                    0 <= k < l ==> !self.pending(k),
                None => forall|k: int| 0 <= k < self.line_count() ==> !self.pending(k),
            },
    {
        let mut i: usize = 0;
        while i < self.lines.len()
            invariant
                i <= self.line_count(),
                forall|k: int| 0 <= k < i ==> !self.pending(k),
            decreases self.line_count() - i,
        {
            if self.lines[i].pending {
                return Some(i);
            }
            i = i + 1;
        }
        None
    }

    /// Acknowledge one line's occurrence: clear exactly that line's
    /// pending bit.  The interface takes an explicit line identifier and
    /// refuses a line that is not signaling, so that clearing a bit that
    /// belongs to an unhandled source is structurally hard to reach.
    /// Every other line — configuration, level and pending latch — is
    /// untouched whether the call succeeds or not.
    pub fn clear_pending(&mut self, line: usize) -> (r: Result<(), SpuriousClearError>)
        requires
            line < old(self).line_count(),
        ensures
            final(self).line_count() == old(self).line_count(),
            r is Ok <==> old(self).pending(line as int),
            r is Ok ==> {
                &&& !final(self).pending(line as int)
                &&& final(self).config(line as int) == old(self).config(line as int)
                &&& final(self).level(line as int) == old(self).level(line as int)
            },
            r is Err ==> *final(self) == *old(self) && (r->Err_0).line == line,
            forall|l: int|
                0 <= l < old(self).line_count() && l != line ==> final(self).lines()[l]
                    == old(self).lines()[l],
    {
        let entry = self.lines[line];
        if !entry.pending {
            return Err(SpuriousClearError { line });
        }
        self.lines.set(
            line,
            EdgeLine { config: entry.config, level: entry.level, pending: false },
        );
        Ok(())
    }
}

} // verus!
