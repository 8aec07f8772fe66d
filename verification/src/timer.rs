//! Timer event source: a periodic interrupt generator.
//!
//! An up-counter driven by a prescaled input clock.  When the count reaches
//! the reload value the hardware wraps it and latches a pending interrupt.
//! The handling context must clear the pending flag exactly once before it
//! returns; the flag stays latched until then.
use vstd::prelude::*;

verus! {

/// The phase a timer is in, derived from its flags: `Disabled` (no events
/// are generated), `Armed` (counting, no occurrence latched), `Pending`
/// (an occurrence is latched and awaits acknowledgement).
#[derive(Clone, Copy, PartialEq, Eq, Structural, Debug)]
pub enum TimerPhase {
    Disabled,
    Armed,
    Pending,
}

/// One hardware timer instance.  Two instances are fully independent:
/// every operation on one leaves the other untouched, which the callers'
/// contracts state explicitly.
pub struct TimerSource {
    period: u32,
    prescale: u32,
    count: u32,
    enabled: bool,
    pending: bool,
}

impl TimerSource {
    /// Reload value: the tick count at which an occurrence is generated.
    pub closed spec fn period(self) -> u32 {
        self.period
    }

    /// Input-clock divider; settable independently of the period.
    pub closed spec fn prescale(self) -> u32 {
        self.prescale
    }

    /// Current tick count.
    pub closed spec fn count(self) -> u32 {
        self.count
    }

    /// Whether the timer generates interrupt occurrences.
    pub closed spec fn enabled(self) -> bool {
        self.enabled
    }

    /// Whether an occurrence is latched and not yet acknowledged.
    pub closed spec fn pending(self) -> bool {
        self.pending
    }

    /// Internal consistency: the counter is always strictly below the
    /// reload value (it wraps to zero the moment it would reach it).
    pub open spec fn wf(self) -> bool {
        self.count() < self.period()
    }

    /// The phase of the state machine
    /// `Disabled -> Armed -> Pending -> (acknowledge) -> Armed`.
    pub open spec fn phase(self) -> TimerPhase {
        if !self.enabled() {
            TimerPhase::Disabled
        } else if self.pending() {
            TimerPhase::Pending
        } else {
            TimerPhase::Armed
        }
    }

    /// A fresh timer: disabled, nothing latched, a one-tick period.
    pub fn new() -> (r: TimerSource)
        ensures
            r.period() == 1,
            r.prescale() == 0,
            r.count() == 0,
            !r.enabled(),
            !r.pending(),
            r.wf(),
    {
        TimerSource { period: 1, prescale: 0, count: 0, enabled: false, pending: false }
    }

    /// Set the reload value and restart the count.  Does not touch the
    /// prescaler, the enable gate or the pending flag.
    pub fn configure(&mut self, period_ticks: u32)
        requires
            period_ticks >= 1,
        ensures
            final(self).period() == period_ticks,
            final(self).count() == 0,
            final(self).prescale() == old(self).prescale(),
            final(self).enabled() == old(self).enabled(),
            final(self).pending() == old(self).pending(),
            final(self).wf(),
    {
        self.period = period_ticks;
        self.count = 0;
    }

    /// Set the input-clock divider.  Independent of the period and of all
    /// other state.
    pub fn set_prescale(&mut self, prescale: u32)
        ensures
            final(self).prescale() == prescale,
            final(self).period() == old(self).period(),
            final(self).count() == old(self).count(),
            final(self).enabled() == old(self).enabled(),
            final(self).pending() == old(self).pending(),
            final(self).wf() == old(self).wf(),
    {
        self.prescale = prescale;
    }

    /// Open the interrupt gate without resetting the count.
    pub fn enable(&mut self)
        ensures
            final(self).enabled(),
            final(self).period() == old(self).period(),
            final(self).prescale() == old(self).prescale(),
            final(self).count() == old(self).count(),
            final(self).pending() == old(self).pending(),
            final(self).wf() == old(self).wf(),
    {
        self.enabled = true;
    }

    /// Close the interrupt gate without resetting the count.
    pub fn disable(&mut self)
        ensures
            !final(self).enabled(),
            final(self).period() == old(self).period(),
            final(self).prescale() == old(self).prescale(),
            final(self).count() == old(self).count(),
            final(self).pending() == old(self).pending(),
            final(self).wf() == old(self).wf(),
    {
        self.enabled = false;
    }

    /// One tick of the prescaled input clock.  Returns whether this tick
    /// produced an occurrence: the count reached the reload value, wrapped
    /// to zero and latched the pending flag.  The flag is a single latch:
    /// a reload while an occurrence is still unacknowledged does not stack
    /// a second occurrence.
    pub fn tick(&mut self) -> (fired: bool)
        requires
            old(self).wf(),
        ensures
            final(self).wf(),
            fired == (old(self).enabled() && old(self).count() + 1 == old(self).period()),
            fired ==> final(self).phase() == TimerPhase::Pending,
            final(self).period() == old(self).period(),
            final(self).prescale() == old(self).prescale(),
            final(self).enabled() == old(self).enabled(),
            !old(self).enabled() ==> final(self).count() == old(self).count(),
            old(self).enabled() ==> final(self).count() == (
                if fired { 0u32 } else { (old(self).count() + 1) as u32 }
            ),
            final(self).pending() == (old(self).pending() || fired),
    {
        if !self.enabled {
            return false;
        }
        if self.count + 1 == self.period {
            self.count = 0;
            self.pending = true;
            true
        } else {
            self.count = self.count + 1;
            false
        }
    }

    /// Clear the pending flag: the handling context acknowledges the
    /// occurrence.  Touches nothing else; in particular it cannot clear
    /// any other timer's flag, since it takes only this instance.
    pub fn acknowledge(&mut self)
        ensures
            !final(self).pending(),
            old(self).enabled() ==> final(self).phase() == TimerPhase::Armed,
            final(self).period() == old(self).period(),
            final(self).prescale() == old(self).prescale(),
            final(self).count() == old(self).count(),
            final(self).enabled() == old(self).enabled(),
            final(self).wf() == old(self).wf(),
    {
        self.pending = false;
    }

    /// Read the pending flag.
    pub fn is_pending(&self) -> (r: bool)
        ensures
            r == self.pending(),
    {
        self.pending
    }

    /// Read the enable gate.
    pub fn is_enabled(&self) -> (r: bool)
        ensures
            r == self.enabled(),
    {
        self.enabled
    }
}

} // verus!
