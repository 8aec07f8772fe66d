//! Event dispatch and the fault core.
//!
//! The system couples the peripheral models: two independent timers, the
//! edge controller, the output line, and the interrupt vector that routes
//! an interrupt number to its registered event source.  An occurrence for
//! which no source is registered is routed to the fault core: the system
//! enters a terminal fault state from which no transition leads out — the
//! only exit is an external reset, which rebuilds everything from scratch.
use vstd::prelude::*;
use crate::edge::EdgeController;
use crate::edge::EdgeTrigger;
use crate::ledger::ConfigurationConflict;
use crate::output::OutputLine;
use crate::timer::TimerSource;

verus! {

/// Which of the two timer instances.
#[derive(Clone, Copy, PartialEq, Eq, Structural, Debug)]
pub enum TimerId {
    A,
    B,
}

/// An event source an interrupt number can be bound to.
#[derive(Clone, Copy, PartialEq, Eq, Structural, Debug)]
pub enum EventSourceId {
    Timer(TimerId),
    Edge,
}

/// Terminal fault conditions.  `HardFault` is a structurally detected
/// low-level fault; `UnhandledInterrupt` is an occurrence with no
/// registered event source, carrying the interrupt number for offline
/// diagnosis.
#[derive(Clone, Copy, PartialEq, Eq, Structural, Debug)]
pub enum Fault {
    HardFault,
    UnhandledInterrupt(usize),
}

/// What an edge dispatch handled: the line that signaled and the level
/// sampled from the wire while handling (never inferred from the trigger
/// direction).
#[derive(Clone, Copy, PartialEq, Eq, Structural, Debug)]
pub struct EdgeReport {
    pub line: usize,
    pub level: bool,
}

/// The visible result of dispatching one interrupt occurrence.
#[derive(Clone, Copy, PartialEq, Eq, Structural, Debug)]
pub enum Outcome {
    /// The system was already halted; nothing ran.
    AlreadyHalted,
    /// No event source is bound to this interrupt: routed to the fault
    /// core, the system is now halted.
    UnhandledToFault,
    /// A timer handler ran: it acknowledged the occurrence, and for timer
    /// A also toggled the output line.
    TimerServed(TimerId),
    /// The edge handler ran: it toggled the output, cleared exactly the
    /// reported line's pending bit and sampled that line's level.
    EdgeServed(EdgeReport),
    /// The shared edge interrupt fired with no line pending: nothing to
    /// clear, nothing changed.
    EdgeSpurious,
}

/// The whole runtime core as one state machine.
pub struct System {
    timer_a: TimerSource,
    timer_b: TimerSource,
    edge: EdgeController,
    output: OutputLine,
    vector: Vec<Option<EventSourceId>>,
    fault: Option<Fault>,
}

impl System {
    /// The state of one timer instance.
    pub closed spec fn timer(self, t: TimerId) -> TimerSource {
        match t {
            TimerId::A => self.timer_a,
            TimerId::B => self.timer_b,
        }
    }

    /// The edge controller's state.
    pub closed spec fn edge(self) -> EdgeController {
        self.edge
    }

    /// The output line's state.
    pub closed spec fn output(self) -> OutputLine {
        self.output
    }

    /// The interrupt vector: which event source each interrupt number is
    /// bound to.
    pub closed spec fn vector(self) -> Seq<Option<EventSourceId>> {
        self.vector@
    }

    /// The fault state, `None` while the system is live.
    pub closed spec fn fault(self) -> Option<Fault> {
        self.fault
    }

    /// Whether the fault core has halted the system.
    pub open spec fn halted(self) -> bool {
        self.fault() is Some
    }

    /// Number of interrupt vector slots.
    pub open spec fn irq_count(self) -> nat {
        self.vector().len()
    }

    /// Where an interrupt number routes: `None` for an unbound or
    /// out-of-range number.
    pub open spec fn routed(self, irq: usize) -> Option<EventSourceId> {
        if irq < self.vector().len() {
            self.vector()[irq as int]
        } else {
            None
        }
    }

    /// Internal consistency of the timers.
    pub open spec fn wf(self) -> bool {
        self.timer(TimerId::A).wf() && self.timer(TimerId::B).wf()
    }

    /// A fresh system: timers disabled, no line monitored, output
    /// deasserted, no interrupt bound, no fault.
    pub fn new(irq_count: usize, line_count: usize) -> (r: System)
        ensures
            r.irq_count() == irq_count,
            forall|i: int| 0 <= i < irq_count ==> r.vector()[i] is None,
            forall|t: TimerId| (#[trigger] r.timer(t)).period() == 1,
            forall|t: TimerId| (#[trigger] r.timer(t)).count() == 0,
            forall|t: TimerId| !(#[trigger] r.timer(t)).enabled(),
            forall|t: TimerId| !(#[trigger] r.timer(t)).pending(),
            r.edge().line_count() == line_count,
            forall|l: int| 0 <= l < line_count ==> r.edge().config(l) is None,
            forall|l: int| 0 <= l < line_count ==> !r.edge().level(l),
            forall|l: int| 0 <= l < line_count ==> !r.edge().pending(l),
            !r.output().is_asserted(),
            r.fault() is None,
            r.wf(),
    {
        let mut vector: Vec<Option<EventSourceId>> = Vec::new();
        let mut i: usize = 0;
        while i < irq_count
            invariant
                i <= irq_count,
                vector@.len() == i,
                forall|k: int| 0 <= k < i ==> vector@[k] is None,
            decreases irq_count - i,
        {
            vector.push(None);
            i = i + 1;
        }
        System {
            timer_a: TimerSource::new(),
            timer_b: TimerSource::new(),
            edge: EdgeController::new(line_count),
            output: OutputLine::new(),
            vector,
            fault: None,
        }
    }

    /// Bind an interrupt number to an event source, during configuration.
    /// Rebinding to a different source is a configuration conflict and
    /// leaves everything unchanged.
    pub fn bind(&mut self, irq: usize, source: EventSourceId) -> (r: Result<
        (),
        ConfigurationConflict,
    >)
        requires
            irq < old(self).irq_count(),
            !old(self).halted(),
        ensures
            r is Ok <==> (old(self).vector()[irq as int] is None || old(self).vector()[
                irq as int
            ] == Some(source)),
            r is Ok ==> final(self).vector() == old(self).vector().update(
                irq as int,
                Some(source),
            ),
            r is Err ==> *final(self) == *old(self) && (r->Err_0).handle == irq,
            forall|t: TimerId| #[trigger] final(self).timer(t) == old(self).timer(t),
            final(self).edge() == old(self).edge(),
            final(self).output() == old(self).output(),
            final(self).fault() == old(self).fault(),
    {
        match self.vector[irq] {
            None => {
                self.vector.set(irq, Some(source));
                Ok(())
            },
            Some(existing) => {
                if existing == source {
                    self.vector.set(irq, Some(source));
                    Ok(())
                } else {
                    Err(ConfigurationConflict { handle: irq })
                }
            },
        }
    }

    /// Set a timer's reload value (restarting its count); the other timer
    /// and everything else stay untouched.
    pub fn configure_timer(&mut self, t: TimerId, period_ticks: u32)
        requires
            period_ticks >= 1,
            !old(self).halted(),
        ensures
            final(self).timer(t).period() == period_ticks,
            final(self).timer(t).count() == 0,
            final(self).timer(t).prescale() == old(self).timer(t).prescale(),
            final(self).timer(t).enabled() == old(self).timer(t).enabled(),
            final(self).timer(t).pending() == old(self).timer(t).pending(),
            final(self).timer(t).wf(),
            forall|u: TimerId| u != t ==> #[trigger] final(self).timer(u) == old(self).timer(u),
            final(self).edge() == old(self).edge(),
            final(self).output() == old(self).output(),
            final(self).vector() == old(self).vector(),
            final(self).fault() == old(self).fault(),
    {
        match t {
            TimerId::A => self.timer_a.configure(period_ticks),
            TimerId::B => self.timer_b.configure(period_ticks),
        }
    }

    /// Set a timer's prescaler, independently of its period.
    pub fn set_timer_prescale(&mut self, t: TimerId, prescale: u32)
        requires
            !old(self).halted(),
        ensures
            final(self).timer(t).prescale() == prescale,
            final(self).timer(t).period() == old(self).timer(t).period(),
            final(self).timer(t).count() == old(self).timer(t).count(),
            final(self).timer(t).enabled() == old(self).timer(t).enabled(),
            final(self).timer(t).pending() == old(self).timer(t).pending(),
            final(self).timer(t).wf() == old(self).timer(t).wf(),
            forall|u: TimerId| u != t ==> #[trigger] final(self).timer(u) == old(self).timer(u),
            final(self).edge() == old(self).edge(),
            final(self).output() == old(self).output(),
            final(self).vector() == old(self).vector(),
            final(self).fault() == old(self).fault(),
    {
        match t {
            TimerId::A => self.timer_a.set_prescale(prescale),
            TimerId::B => self.timer_b.set_prescale(prescale),
        }
    }

    /// Open a timer's interrupt gate without resetting its count.
    pub fn enable_timer(&mut self, t: TimerId)
        requires
            !old(self).halted(),
        ensures
            final(self).timer(t).enabled(),
            final(self).timer(t).period() == old(self).timer(t).period(),
            final(self).timer(t).prescale() == old(self).timer(t).prescale(),
            final(self).timer(t).count() == old(self).timer(t).count(),
            final(self).timer(t).pending() == old(self).timer(t).pending(),
            final(self).timer(t).wf() == old(self).timer(t).wf(),
            forall|u: TimerId| u != t ==> #[trigger] final(self).timer(u) == old(self).timer(u),
            final(self).edge() == old(self).edge(),
            final(self).output() == old(self).output(),
            final(self).vector() == old(self).vector(),
            final(self).fault() == old(self).fault(),
    {
        match t {
            TimerId::A => self.timer_a.enable(),
            TimerId::B => self.timer_b.enable(),
        }
    }

    /// Close a timer's interrupt gate without resetting its count.
    pub fn disable_timer(&mut self, t: TimerId)
        requires
            !old(self).halted(),
        ensures
            !final(self).timer(t).enabled(),
            final(self).timer(t).period() == old(self).timer(t).period(),
            final(self).timer(t).prescale() == old(self).timer(t).prescale(),
            final(self).timer(t).count() == old(self).timer(t).count(),
            final(self).timer(t).pending() == old(self).timer(t).pending(),
            final(self).timer(t).wf() == old(self).timer(t).wf(),
            forall|u: TimerId| u != t ==> #[trigger] final(self).timer(u) == old(self).timer(u),
            final(self).edge() == old(self).edge(),
            final(self).output() == old(self).output(),
            final(self).vector() == old(self).vector(),
            final(self).fault() == old(self).fault(),
    {
        match t {
            TimerId::A => self.timer_a.disable(),
            TimerId::B => self.timer_b.disable(),
        }
    }

    /// Monitor an input line for the given trigger.
    pub fn configure_line(&mut self, line: usize, trigger: EdgeTrigger)
        requires
            line < old(self).edge().line_count(),
            !old(self).halted(),
        ensures
            final(self).edge().line_count() == old(self).edge().line_count(),
            final(self).edge().config(line as int) == Some(trigger),
            final(self).edge().level(line as int) == old(self).edge().level(line as int),
            final(self).edge().pending(line as int) == old(self).edge().pending(line as int),
            forall|l: int|
                0 <= l < old(self).edge().line_count() && l != line ==> final(self).edge().lines()[
                    l
                ] == old(self).edge().lines()[l],
            forall|t: TimerId| #[trigger] final(self).timer(t) == old(self).timer(t),
            final(self).output() == old(self).output(),
            final(self).vector() == old(self).vector(),
            final(self).fault() == old(self).fault(),
    {
        self.edge.configure(line, trigger);
    }

    /// One tick of a timer's prescaled input clock.  After the fault core
    /// has halted the system no context observes events any more: the
    /// state is frozen.
    pub fn timer_tick(&mut self, t: TimerId) -> (fired: bool)
        requires
            old(self).wf(),
        ensures
            final(self).wf(),
            old(self).halted() ==> *final(self) == *old(self) && !fired,
            !old(self).halted() ==> {
                &&& fired == (old(self).timer(t).enabled() && old(self).timer(t).count() + 1
                    == old(self).timer(t).period())
                &&& final(self).timer(t).period() == old(self).timer(t).period()
                &&& final(self).timer(t).prescale() == old(self).timer(t).prescale()
                &&& final(self).timer(t).enabled() == old(self).timer(t).enabled()
                &&& final(self).timer(t).pending() == (old(self).timer(t).pending() || fired)
                &&& (!old(self).timer(t).enabled() ==> final(self).timer(t).count() == old(self).timer(t).count())
                &&& (old(self).timer(t).enabled() ==> final(self).timer(t).count() == (
                    if fired {
                        0u32
                    } else {
                        (old(self).timer(t).count() + 1) as u32
                    }
                ))
                &&& forall|u: TimerId| u != t ==> #[trigger] final(self).timer(u) == old(self).timer(u)
                &&& final(self).edge() == old(self).edge()
                &&& final(self).output() == old(self).output()
                &&& final(self).vector() == old(self).vector()
                &&& final(self).fault() == old(self).fault()
            },
    {
        if self.fault.is_some() {
            return false;
        }
        match t {
            TimerId::A => self.timer_a.tick(),
            TimerId::B => self.timer_b.tick(),
        }
    }

    /// A physical level change on an input line.  Frozen once halted.
    pub fn line_transition(&mut self, line: usize, new_level: bool) -> (fired: bool)
        requires
            line < old(self).edge().line_count(),
            old(self).wf(),
        ensures
            final(self).wf(),
            old(self).halted() ==> *final(self) == *old(self) && !fired,
            !old(self).halted() ==> {
                &&& final(self).edge().line_count() == old(self).edge().line_count()
                &&& fired == crate::edge::edge_fires(
                    old(self).edge().config(line as int),
                    old(self).edge().level(line as int),
                    new_level,
                )
                &&& final(self).edge().config(line as int) == old(self).edge().config(line as int)
                &&& final(self).edge().level(line as int) == new_level
                &&& final(self).edge().pending(line as int) == (old(self).edge().pending(
                    line as int,
                ) || fired)
                &&& forall|l: int|
                    0 <= l < old(self).edge().line_count() && l != line ==> final(self).edge().lines()[l] == old(self).edge().lines()[l]
                &&& forall|t: TimerId| #[trigger] final(self).timer(t) == old(self).timer(t)
                &&& final(self).output() == old(self).output()
                &&& final(self).vector() == old(self).vector()
                &&& final(self).fault() == old(self).fault()
            },
    {
        if self.fault.is_some() {
            return false;
        }
        self.edge.transition(line, new_level)
    }

    /// Dispatch one interrupt occurrence to its registered event source.
    ///
    /// A number with no bound source routes to the fault core: the system
    /// halts with `UnhandledInterrupt` and stays halted.  The timer A
    /// handler toggles the output and acknowledges its timer; the timer B
    /// handler only acknowledges; the edge handler serves the
    /// lowest-numbered pending line: it toggles the output, samples the
    /// line's current level and clears exactly that line's pending bit.
    pub fn dispatch(&mut self, irq: usize) -> (o: Outcome)
        requires
            old(self).wf(),
        ensures
            final(self).wf(),
            final(self).vector() == old(self).vector(),
            old(self).halted() ==> *final(self) == *old(self) && o == Outcome::AlreadyHalted,
            !old(self).halted() && old(self).routed(irq) is None ==> {
                &&& o == Outcome::UnhandledToFault
                &&& final(self).fault() == Some(Fault::UnhandledInterrupt(irq))
                &&& forall|t: TimerId| #[trigger] final(self).timer(t) == old(self).timer(t)
                &&& final(self).edge() == old(self).edge()
                &&& final(self).output() == old(self).output()
            },
            !old(self).halted() && old(self).routed(irq) == Some(EventSourceId::Timer(TimerId::A))
                ==> {
                &&& o == Outcome::TimerServed(TimerId::A)
                &&& final(self).fault() is None
                &&& !final(self).timer(TimerId::A).pending()
                &&& final(self).timer(TimerId::A).period() == old(self).timer(TimerId::A).period()
                &&& final(self).timer(TimerId::A).prescale() == old(self).timer(TimerId::A).prescale()
                &&& final(self).timer(TimerId::A).count() == old(self).timer(TimerId::A).count()
                &&& final(self).timer(TimerId::A).enabled() == old(self).timer(TimerId::A).enabled()
                &&& forall|u: TimerId|
                    u != TimerId::A ==> #[trigger] final(self).timer(u) == old(self).timer(u)
                &&& final(self).edge() == old(self).edge()
                &&& final(self).output().is_asserted() == !old(self).output().is_asserted()
            },
            !old(self).halted() && old(self).routed(irq) == Some(EventSourceId::Timer(TimerId::B))
                ==> {
                &&& o == Outcome::TimerServed(TimerId::B)
                &&& final(self).fault() is None
                &&& !final(self).timer(TimerId::B).pending()
                &&& final(self).timer(TimerId::B).period() == old(self).timer(TimerId::B).period()
                &&& final(self).timer(TimerId::B).prescale() == old(self).timer(TimerId::B).prescale()
                &&& final(self).timer(TimerId::B).count() == old(self).timer(TimerId::B).count()
                &&& final(self).timer(TimerId::B).enabled() == old(self).timer(TimerId::B).enabled()
                &&& forall|u: TimerId|
                    u != TimerId::B ==> #[trigger] final(self).timer(u) == old(self).timer(u)
                &&& final(self).edge() == old(self).edge()
                &&& final(self).output() == old(self).output()
            },
            !old(self).halted() && old(self).routed(irq) == Some(EventSourceId::Edge) ==> {
                &&& (o == Outcome::EdgeSpurious <==> (forall|k: int|
                    0 <= k < old(self).edge().line_count() ==> !old(self).edge().pending(k)))
                &&& (o == Outcome::EdgeSpurious ==> *final(self) == *old(self))
                &&& (o matches Outcome::EdgeServed(rep) ==> {
                    &&& rep.line < old(self).edge().line_count()
                    &&& old(self).edge().pending(rep.line as int)
                    &&& (forall|k: int| 0 <= k < rep.line ==> !old(self).edge().pending(k))
                    &&& rep.level == old(self).edge().level(rep.line as int)
                    &&& final(self).edge().line_count() == old(self).edge().line_count()
                    &&& !final(self).edge().pending(rep.line as int)
                    &&& final(self).edge().config(rep.line as int) == old(self).edge().config(
                        rep.line as int,
                    )
                    &&& final(self).edge().level(rep.line as int) == old(self).edge().level(
                        rep.line as int,
                    )
                    &&& (forall|k: int|
                        0 <= k < old(self).edge().line_count() && k != rep.line ==> final(self).edge().lines()[k] == old(self).edge().lines()[k])
                    &&& final(self).output().is_asserted() == !old(self).output().is_asserted()
                    &&& forall|t: TimerId| #[trigger] final(self).timer(t) == old(self).timer(t)
                    &&& final(self).fault() is None
                })
                &&& (o is EdgeSpurious || o is EdgeServed)
            },
    {
        if self.fault.is_some() {
            return Outcome::AlreadyHalted;
        }
        let source = if irq < self.vector.len() {
            self.vector[irq]
        } else {
            None
        };
        match source {
            None => {
                self.fault = Some(Fault::UnhandledInterrupt(irq));
                Outcome::UnhandledToFault
            },
            Some(EventSourceId::Timer(t)) => {
                match t {
                    TimerId::A => {
                        self.output.toggle();
                        self.timer_a.acknowledge();
                    },
                    TimerId::B => {
                        self.timer_b.acknowledge();
                    },
                }
                Outcome::TimerServed(t)
            },
            Some(EventSourceId::Edge) => {
                match self.edge.find_pending() {
                    None => Outcome::EdgeSpurious,
                    Some(line) => {
                        self.output.toggle();
                        let level = self.edge.sample_level(line);
                        let cleared = self.edge.clear_pending(line);
                        proof {
                            assert(cleared is Ok);
                        }
                        Outcome::EdgeServed(EdgeReport { line, level })
                    },
                }
            },
        }
    }

    /// A structurally detected low-level fault: route to the fault core.
    /// If the system is already halted the original fault is kept.
    pub fn hard_fault(&mut self)
        ensures
            old(self).halted() ==> *final(self) == *old(self),
            !old(self).halted() ==> {
                &&& final(self).fault() == Some(Fault::HardFault)
                &&& forall|t: TimerId| #[trigger] final(self).timer(t) == old(self).timer(t)
                &&& final(self).edge() == old(self).edge()
                &&& final(self).output() == old(self).output()
                &&& final(self).vector() == old(self).vector()
            },
    {
        if self.fault.is_none() {
            self.fault = Some(Fault::HardFault);
        }
    }

    /// Whether the fault core has halted the system.
    pub fn is_halted(&self) -> (r: bool)
        ensures
            r == self.halted(),
    {
        self.fault.is_some()
    }

    /// The fault state, for diagnosis.
    pub fn current_fault(&self) -> (r: Option<Fault>)
        ensures
            r == self.fault(),
    {
        self.fault
    }

    /// The current state of the output line.
    pub fn output_asserted(&self) -> (r: bool)
        ensures
            r == self.output().is_asserted(),
    {
        self.output.read()
    }

    /// A timer's pending flag.
    pub fn timer_pending(&self, t: TimerId) -> (r: bool)
        ensures
            r == self.timer(t).pending(),
    {
        match t {
            TimerId::A => self.timer_a.is_pending(),
            TimerId::B => self.timer_b.is_pending(),
        }
    }

    /// A timer's enable gate.
    pub fn timer_enabled(&self, t: TimerId) -> (r: bool)
        ensures
            r == self.timer(t).enabled(),
    {
        match t {
            TimerId::A => self.timer_a.is_enabled(),
            TimerId::B => self.timer_b.is_enabled(),
        }
    }

    /// One input line's pending bit.
    pub fn line_pending(&self, line: usize) -> (r: bool)
        requires
            line < self.edge().line_count(),
        ensures
            r == self.edge().pending(line as int),
    {
        self.edge.is_pending(line)
    }

    /// One input line's current level.
    pub fn line_level(&self, line: usize) -> (r: bool)
        requires
            line < self.edge().line_count(),
        ensures
            r == self.edge().level(line as int),
    {
        self.edge.sample_level(line)
    }

    /// Number of interrupt vector slots.
    pub fn vector_len(&self) -> (n: usize)
        ensures
            n == self.irq_count(),
    {
        self.vector.len()
    }

    /// Number of input lines sharing the edge interrupt.
    pub fn lines_len(&self) -> (n: usize)
        ensures
            n == self.edge().line_count(),
    {
        self.edge.line_total()
    }
}

} // verus!
