//! Priority-ceiling critical sections: the synchronization primitive that
//! arbitrates every shared peripheral handle.
//!
//! There is no lock and no blocking wait.  A context that wants a handle
//! raises the running interrupt-priority mask to the handle's ceiling (the
//! highest priority of any context that ever touches it, as recorded in the
//! ledger); a context that is masked out simply does not run until the mask
//! is restored.  Acquisitions nest and restore the *previous* mask, not a
//! hardcoded baseline.
//!
//! To make torn register state expressible, a register write is modeled in
//! two halves: it is first staged, then committed.  A preemption between
//! the halves is what could expose a partial write — and the invariant
//! proved here shows that no context can ever observe another context's
//! staged, uncommitted write.
use vstd::prelude::*;
use crate::ledger::Ledger;

verus! {

/// One open critical section: the priority of the context that claimed the
/// handle, the handle itself, and the mask to restore on release.
#[derive(Clone, Copy, PartialEq, Eq, Structural, Debug)]
pub struct Claim {
    pub ctx: u8,
    pub handle: usize,
    pub prev_mask: u8,
}

/// A write that has been staged but not yet committed, tagged with the
/// context that staged it.
#[derive(Clone, Copy, PartialEq, Eq, Structural, Debug)]
pub struct StagedWrite {
    pub ctx: u8,
    pub value: u32,
}

/// One peripheral handle's register: the last committed value, and the
/// staged half of an in-progress write, if any.
#[derive(Clone, Copy, PartialEq, Eq, Debug)]
pub struct HwReg {
    pub value: u32,
    pub staged: Option<StagedWrite>,
}

/// The complete arbitration state: the sealed ceiling table, the current
/// priority mask, the stack of live contexts (the idle context, priority
/// zero, at the bottom; each entry preempted by the one above it), the
/// stack of open critical sections, and the handle registers.
#[verifier::ext_equal]
pub ghost struct KState {
    pub ceilings: Seq<Option<u8>>,
    pub mask: u8,
    pub running: Seq<u8>,
    pub claims: Seq<Claim>,
    pub regs: Seq<HwReg>,
}

/// The events the arbitration state reacts to: an interrupt context
/// entering (preempting) and leaving, a critical section opening and
/// closing, and the two halves of a register write plus a register read.
#[derive(Clone, Copy, Debug)]
pub enum KEvent {
    Enter(u8),
    Exit,
    Acquire(usize),
    Release,
    BeginWrite(usize, u32),
    EndWrite(usize),
    ReadReg(usize),
}

/// The larger of two priorities.
pub open spec fn max_u8(a: u8, b: u8) -> u8 {
    if a > b {
        a
    } else {
        b
    }
}

impl KState {
    /// The priority of the context that is currently executing.
    pub open spec fn top(self) -> u8 {
        self.running.last()
    }

    /// The effective preemption threshold: an interrupt runs only if its
    /// priority exceeds both the running context and the mask.
    pub open spec fn effective(self) -> u8 {
        max_u8(self.top(), self.mask)
    }

    /// The registered ceiling of a handle (meaningful when registered).
    pub open spec fn ceil(self, h: int) -> u8 {
        self.ceilings[h]->0
    }

    /// Whether the context with priority `ctx` has an open critical
    /// section on handle `h`.
    pub open spec fn holds(self, ctx: u8, h: int) -> bool {
        exists|i: int|
            0 <= i < self.claims.len() && (#[trigger] self.claims[i]).ctx == ctx
                && self.claims[i].handle == h
    }
}

/// Whether `e` is permitted in state `s`: the hardware preemption rule for
/// entry and exit, and the access discipline for claims and registers.
pub open spec fn k_enabled(s: KState, e: KEvent) -> bool {
    match e {
        KEvent::Enter(p) => p > s.effective(),
        KEvent::Exit => s.running.len() > 1 && (forall|i: int|
            0 <= i < s.claims.len() ==> (#[trigger] s.claims[i]).ctx != s.top()),
        KEvent::Acquire(h) => {
            &&& 0 <= h < s.ceilings.len()
            &&& s.ceilings[h as int] is Some
            &&& s.top() <= s.ceil(h as int)
        },
        KEvent::Release => {
            &&& s.claims.len() > 0
            &&& s.claims.last().ctx == s.top()
            &&& 0 <= s.claims.last().handle < s.regs.len()
            &&& s.regs[s.claims.last().handle as int].staged is None
        },
        KEvent::BeginWrite(h, v) => {
            &&& 0 <= h < s.regs.len()
            &&& s.holds(s.top(), h as int)
            &&& s.regs[h as int].staged is None
        },
        KEvent::EndWrite(h) => {
            &&& 0 <= h < s.regs.len()
            &&& s.holds(s.top(), h as int)
            &&& s.regs[h as int].staged is Some
        },
        KEvent::ReadReg(h) => 0 <= h < s.regs.len() && s.holds(s.top(), h as int),
    }
}

/// The transition function.  An event that is not enabled leaves the state
/// unchanged (hardware keeps it latched or the request is refused).
pub open spec fn k_step(s: KState, e: KEvent) -> KState {
    if !k_enabled(s, e) {
        s
    } else {
        match e {
            KEvent::Enter(p) => KState { running: s.running.push(p), ..s },
            KEvent::Exit => KState { running: s.running.drop_last(), ..s },
            KEvent::Acquire(h) => KState {
                claims: s.claims.push(
                    Claim { ctx: s.top(), handle: h, prev_mask: s.mask },
                ),
                mask: max_u8(s.mask, s.ceil(h as int)),
                ..s
            },
            KEvent::Release => KState {
                mask: s.claims.last().prev_mask,
                claims: s.claims.drop_last(),
                ..s
            },
            KEvent::BeginWrite(h, v) => KState {
                regs: s.regs.update(
                    h as int,
                    HwReg {
                        value: s.regs[h as int].value,
                        staged: Some(StagedWrite { ctx: s.top(), value: v }),
                    },
                ),
                ..s
            },
            KEvent::EndWrite(h) => KState {
                regs: s.regs.update(
                    h as int,
                    HwReg { value: s.regs[h as int].staged->0.value, staged: None },
                ),
                ..s
            },
            KEvent::ReadReg(h) => s,
        }
    }
}

/// Consistency of one open claim: its handle is registered, the claiming
/// context is one of the handle's accessors (its priority is at or below
/// the ceiling), the current mask covers the ceiling, and the claiming
/// context is live.
pub open spec fn claim_wf(s: KState, i: int) -> bool {
    &&& 0 <= s.claims[i].handle < s.ceilings.len()
    &&& s.ceilings[s.claims[i].handle as int] is Some
    &&& s.claims[i].ctx <= s.ceil(s.claims[i].handle as int)
    &&& s.mask >= s.ceil(s.claims[i].handle as int)
    &&& s.running.contains(s.claims[i].ctx)
}

/// Stack discipline of the saved masks: the mask saved by a later claim
/// already covered the ceilings of all earlier claims, so releases restore
/// masks that still shield every section that remains open.
pub open spec fn claim_pair_wf(s: KState, i: int, j: int) -> bool {
    s.claims[j].prev_mask >= s.ceil(s.claims[i].handle as int)
}

/// The shield: any live context strictly above a claiming context runs
/// strictly above the claimed handle's ceiling — so it is no accessor of
/// that handle and can never touch it.
pub open spec fn shielded(s: KState, i: int, r: int) -> bool {
    s.running[r] > s.claims[i].ctx ==> s.running[r] > s.ceil(s.claims[i].handle as int)
}

/// A staged, uncommitted write exists only while its writer has the handle
/// claimed.
pub open spec fn staged_wf(s: KState, h: int) -> bool {
    s.regs[h].staged matches Some(st) ==> exists|i: int|
        0 <= i < s.claims.len() && (#[trigger] s.claims[i]).handle as int == h
            && s.claims[i].ctx == st.ctx
}

/// The inductive invariant of the arbitration state.
pub open spec fn k_inv(s: KState) -> bool {
    &&& 1 <= s.running.len()
    &&& s.running[0] == 0
    &&& forall|a: int, b: int|
        0 <= a < b < s.running.len() ==> #[trigger] s.running[a] < #[trigger] s.running[b]
    &&& s.regs.len() == s.ceilings.len()
    &&& forall|i: int| 0 <= i < s.claims.len() ==> #[trigger] claim_wf(s, i)
    &&& forall|i: int, j: int| 0 <= i < j < s.claims.len() ==> #[trigger] claim_pair_wf(s, i, j)
    &&& forall|i: int, r: int|
        0 <= i < s.claims.len() && 0 <= r < s.running.len() ==> #[trigger] shielded(s, i, r)
    &&& forall|h: int| 0 <= h < s.regs.len() ==> #[trigger] staged_wf(s, h)
}

/// The boot state: only the idle context is live, the mask is open, no
/// section is open, every register is committed at zero.
pub open spec fn k_init(ceilings: Seq<Option<u8>>) -> KState {
    KState {
        ceilings: ceilings,
        mask: 0,
        running: seq![0u8],
        claims: Seq::empty(),
        regs: Seq::new(ceilings.len(), |i: int| HwReg { value: 0, staged: None }),
    }
}

/// The boot state satisfies the invariant.
pub proof fn lemma_init_inv(ceilings: Seq<Option<u8>>)
    ensures
        k_inv(k_init(ceilings)),
{
    let s = k_init(ceilings);
    assert forall|h: int| 0 <= h < s.regs.len() implies #[trigger] staged_wf(s, h) by {
        assert(s.regs[h].staged is None);
    }
}

/// Every event preserves the invariant.
pub proof fn lemma_step_inv(s: KState, e: KEvent)
    requires
        k_inv(s),
    ensures
        k_inv(k_step(s, e)),
{
    if !k_enabled(s, e) {
        return;
    }
    let s2 = k_step(s, e);
    match e {
        KEvent::Enter(p) => {
            let n = s.running.len() as int;
            assert forall|a: int, b: int| 0 <= a < b < s2.running.len() implies #[trigger] s2
                .running[a] < #[trigger] s2.running[b] by {
                if b < n {
                    assert(s.running[a] < s.running[b]);
                } else {
                    assert(s2.running[b] == p);
                    if a < n - 1 {
                        assert(s.running[a] < s.running[n - 1]);
                    }
                    assert(s.running[a] <= s.top());
                }
            }
            assert forall|i: int| 0 <= i < s2.claims.len() implies #[trigger] claim_wf(s2, i) by {
                assert(claim_wf(s, i));
                let c = s.claims[i].ctx;
                let r = choose|r: int| 0 <= r < s.running.len() && s.running[r] == c;
                assert(s2.running[r] == c);
                assert(s2.running.contains(c));
            }
            assert forall|i: int, r: int|
                0 <= i < s2.claims.len() && 0 <= r < s2.running.len() implies #[trigger] shielded(
                s2,
                i,
                r,
            ) by {
                assert(claim_wf(s, i));
                if r < n {
                    assert(shielded(s, i, r));
                } else {
                    assert(s2.running[r] == p);
                    assert(p > s.effective());
                    assert(s.mask >= s.ceil(s.claims[i].handle as int));
                }
            }
            assert forall|i: int, j: int| 0 <= i < j < s2.claims.len() implies #[trigger]
                claim_pair_wf(s2, i, j) by {
                assert(claim_pair_wf(s, i, j));
            }
            assert forall|h: int| 0 <= h < s2.regs.len() implies #[trigger] staged_wf(s2, h) by {
                assert(staged_wf(s, h));
                if s2.regs[h].staged is Some {
                    let st = s2.regs[h].staged->0;
                    let i = choose|i: int|
                        0 <= i < s.claims.len() && (#[trigger] s.claims[i]).handle as int == h
                            && s.claims[i].ctx == st.ctx;
                    assert(s2.claims[i] == s.claims[i]);
                }
            }
        },
        KEvent::Exit => {
            let n = s.running.len() as int;
            assert forall|i: int| 0 <= i < s2.claims.len() implies #[trigger] claim_wf(s2, i) by {
                assert(claim_wf(s, i));
                let c = s.claims[i].ctx;
                let r = choose|r: int| 0 <= r < s.running.len() && s.running[r] == c;
                assert(c != s.top());
                assert(s.running[n - 1] == s.top());
                if r == n - 1 {
                    assert(false);
                } else {
                    assert(s2.running[r] == c);
                    assert(s2.running.contains(c));
                }
            }
            assert forall|i: int, r: int|
                0 <= i < s2.claims.len() && 0 <= r < s2.running.len() implies #[trigger] shielded(
                s2,
                i,
                r,
            ) by {
                assert(shielded(s, i, r));
                assert(s2.running[r] == s.running[r]);
            }
            assert forall|i: int, j: int| 0 <= i < j < s2.claims.len() implies #[trigger]
                claim_pair_wf(s2, i, j) by {
                assert(claim_pair_wf(s, i, j));
            }
            assert forall|h: int| 0 <= h < s2.regs.len() implies #[trigger] staged_wf(s2, h) by {
                assert(staged_wf(s, h));
                if s2.regs[h].staged is Some {
                    let st = s2.regs[h].staged->0;
                    let i = choose|i: int|
                        0 <= i < s.claims.len() && (#[trigger] s.claims[i]).handle as int == h
                            && s.claims[i].ctx == st.ctx;
                    assert(s2.claims[i] == s.claims[i]);
                }
            }
        },
        KEvent::Acquire(h) => {
            let n = s.claims.len() as int;
            let c = s.ceil(h as int);
            assert forall|i: int| 0 <= i < s2.claims.len() implies #[trigger] claim_wf(s2, i) by {
                if i < n {
                    assert(claim_wf(s, i));
                    assert(s2.mask == max_u8(s.mask, c));
                } else {
                    assert(s2.claims[i].ctx == s.top());
                    assert(s2.claims[i].handle == h);
                    let last = s.running.len() as int - 1;
                    assert(s.running[last] == s.top());
                    assert(s.running.contains(s.top()));
                }
            }
            assert forall|i: int, j: int| 0 <= i < j < s2.claims.len() implies #[trigger]
                claim_pair_wf(s2, i, j) by {
                if j < n {
                    assert(claim_pair_wf(s, i, j));
                } else {
                    assert(s2.claims[j].prev_mask == s.mask);
                    assert(claim_wf(s, i));
                }
            }
            assert forall|i: int, r: int|
                0 <= i < s2.claims.len() && 0 <= r < s2.running.len() implies #[trigger] shielded(
                s2,
                i,
                r,
            ) by {
                if i < n {
                    assert(shielded(s, i, r));
                } else {
                    let last = s.running.len() as int - 1;
                    if r < last {
                        assert(s.running[r] < s.running[last]);
                    }
                    assert(s.running[r] <= s.top());
                }
            }
            assert forall|h2: int| 0 <= h2 < s2.regs.len() implies #[trigger] staged_wf(s2, h2) by {
                assert(staged_wf(s, h2));
                if s2.regs[h2].staged is Some {
                    let st = s2.regs[h2].staged->0;
                    let i = choose|i: int|
                        0 <= i < s.claims.len() && (#[trigger] s.claims[i]).handle as int == h2
                            && s.claims[i].ctx == st.ctx;
                    assert(s2.claims[i] == s.claims[i]);
                }
            }
        },
        KEvent::Release => {
            let n = s.claims.len() as int;
            assert forall|i: int| 0 <= i < s2.claims.len() implies #[trigger] claim_wf(s2, i) by {
                assert(claim_wf(s, i));
                assert(claim_pair_wf(s, i, n - 1));
            }
            assert forall|i: int, j: int| 0 <= i < j < s2.claims.len() implies #[trigger]
                claim_pair_wf(s2, i, j) by {
                assert(claim_pair_wf(s, i, j));
            }
            assert forall|i: int, r: int|
                0 <= i < s2.claims.len() && 0 <= r < s2.running.len() implies #[trigger] shielded(
                s2,
                i,
                r,
            ) by {
                assert(shielded(s, i, r));
            }
            assert forall|h: int| 0 <= h < s2.regs.len() implies #[trigger] staged_wf(s2, h) by {
                assert(staged_wf(s, h));
                if s2.regs[h].staged is Some {
                    let st = s2.regs[h].staged->0;
                    let i = choose|i: int|
                        0 <= i < s.claims.len() && (#[trigger] s.claims[i]).handle as int == h
                            && s.claims[i].ctx == st.ctx;
                    if i == n - 1 {
                        assert(s.claims[i] == s.claims.last());
                        assert(s.claims.last().handle as int == h);
                        assert(s.regs[h].staged is None);
                        assert(false);
                    } else {
                        assert(s2.claims[i] == s.claims[i]);
                    }
                }
            }
        },
        KEvent::BeginWrite(h, v) => {
            assert forall|i: int| 0 <= i < s2.claims.len() implies #[trigger] claim_wf(s2, i) by {
                assert(claim_wf(s, i));
            }
            assert forall|i: int, j: int| 0 <= i < j < s2.claims.len() implies #[trigger]
                claim_pair_wf(s2, i, j) by {
                assert(claim_pair_wf(s, i, j));
            }
            assert forall|i: int, r: int|
                0 <= i < s2.claims.len() && 0 <= r < s2.running.len() implies #[trigger] shielded(
                s2,
                i,
                r,
            ) by {
                assert(shielded(s, i, r));
            }
            assert forall|h2: int| 0 <= h2 < s2.regs.len() implies #[trigger] staged_wf(s2, h2) by {
                if h2 == h {
                    let i = choose|i: int|
                        0 <= i < s.claims.len() && (#[trigger] s.claims[i]).ctx == s.top()
                            && s.claims[i].handle == h as int;
                    assert(s2.claims[i] == s.claims[i]);
                } else {
                    assert(s2.regs[h2] == s.regs[h2]);
                    assert(staged_wf(s, h2));
                    if s2.regs[h2].staged is Some {
                        let st = s2.regs[h2].staged->0;
                        let i = choose|i: int|
                            0 <= i < s.claims.len() && (#[trigger] s.claims[i]).handle as int == h2
                                && s.claims[i].ctx == st.ctx;
                        assert(s2.claims[i] == s.claims[i]);
                    }
                }
            }
        },
        KEvent::EndWrite(h) => {
            assert forall|i: int| 0 <= i < s2.claims.len() implies #[trigger] claim_wf(s2, i) by {
                assert(claim_wf(s, i));
            }
            assert forall|i: int, j: int| 0 <= i < j < s2.claims.len() implies #[trigger]
                claim_pair_wf(s2, i, j) by {
                assert(claim_pair_wf(s, i, j));
            }
            assert forall|i: int, r: int|
                0 <= i < s2.claims.len() && 0 <= r < s2.running.len() implies #[trigger] shielded(
                s2,
                i,
                r,
            ) by {
                assert(shielded(s, i, r));
            }
            assert forall|h2: int| 0 <= h2 < s2.regs.len() implies #[trigger] staged_wf(s2, h2) by {
                if h2 != h {
                    assert(s2.regs[h2] == s.regs[h2]);
                    assert(staged_wf(s, h2));
                    if s2.regs[h2].staged is Some {
                        let st = s2.regs[h2].staged->0;
                        let i = choose|i: int|
                            0 <= i < s.claims.len() && (#[trigger] s.claims[i]).handle as int == h2
                                && s.claims[i].ctx == st.ctx;
                        assert(s2.claims[i] == s.claims[i]);
                    }
                }
            }
        },
        KEvent::ReadReg(h) => {},
    }
}

/// Mutual exclusion: two open critical sections on the same handle always
/// belong to the same context.  No interleaving of interrupt occurrences
/// and idle-context execution can put two contexts inside sections on one
/// handle at the same time.
pub proof fn lemma_claims_exclusive(s: KState, i: int, j: int)
    requires
        k_inv(s),
        0 <= i < s.claims.len(),
        0 <= j < s.claims.len(),
        s.claims[i].handle == s.claims[j].handle,
    ensures
        s.claims[i].ctx == s.claims[j].ctx,
{
    assert(claim_wf(s, i));
    assert(claim_wf(s, j));
    if s.claims[i].ctx < s.claims[j].ctx {
        let cj = s.claims[j].ctx;
        let r = choose|r: int| 0 <= r < s.running.len() && s.running[r] == cj;
        assert(shielded(s, i, r));
    } else if s.claims[j].ctx < s.claims[i].ctx {
        let ci = s.claims[i].ctx;
        let r = choose|r: int| 0 <= r < s.running.len() && s.running[r] == ci;
        assert(shielded(s, j, r));
    }
}

/// A permitted read never observes a foreign partial write: if a register
/// the running context reads has a staged, uncommitted half, that half was
/// staged by the running context itself.  Every value any other context
/// ever left behind is a complete, committed write.
pub proof fn lemma_read_not_torn(s: KState, h: usize)
    requires
        k_inv(s),
        k_enabled(s, KEvent::ReadReg(h)),
        s.regs[h as int].staged is Some,
    ensures
        s.regs[h as int].staged->0.ctx == s.top(),
{
    let st = s.regs[h as int].staged->0;
    assert(staged_wf(s, h as int));
    let j = choose|j: int|
        0 <= j < s.claims.len() && (#[trigger] s.claims[j]).handle as int == h as int
            && s.claims[j].ctx == st.ctx;
    let i = choose|i: int|
        0 <= i < s.claims.len() && (#[trigger] s.claims[i]).ctx == s.top() && s.claims[i].handle
            == h as int;
    lemma_claims_exclusive(s, i, j);
}

/// Run a whole sequence of events from a state.
pub open spec fn k_run(s: KState, events: Seq<KEvent>) -> KState
    decreases events.len(),
{
    if events.len() == 0 {
        s
    } else {
        k_run(k_step(s, events.first()), events.drop_first())
    }
}

/// The invariant holds after any sequence of events.
pub proof fn lemma_run_inv(s: KState, events: Seq<KEvent>)
    requires
        k_inv(s),
    ensures
        k_inv(k_run(s, events)),
    decreases events.len(),
{
    if events.len() > 0 {
        lemma_step_inv(s, events.first());
        lemma_run_inv(k_step(s, events.first()), events.drop_first());
    }
}

/// No torn observation, over every reachable state: for all sequences of
/// interrupt occurrences interleaved with idle-context execution, whenever
/// a read of a handle is permitted, any staged half-write on that handle
/// is the reading context's own — a read never reflects an interleaving of
/// two contexts' writes.
pub proof fn lemma_no_torn_observation(ceilings: Seq<Option<u8>>, events: Seq<KEvent>, h: usize)
    ensures
        k_inv(k_run(k_init(ceilings), events)),
        ({
            let s = k_run(k_init(ceilings), events);
            k_enabled(s, KEvent::ReadReg(h)) && s.regs[h as int].staged is Some
                ==> s.regs[h as int].staged->0.ctx == s.top()
        }),
{
    lemma_init_inv(ceilings);
    lemma_run_inv(k_init(ceilings), events);
    let s = k_run(k_init(ceilings), events);
    if k_enabled(s, KEvent::ReadReg(h)) && s.regs[h as int].staged is Some {
        lemma_read_not_torn(s, h);
    }
}

/// Stack discipline of the mask: acquiring a handle and releasing it
/// restores the entire arbitration state — in particular exactly the mask
/// that was active immediately before the acquisition.  The state `s` is
/// arbitrary, so the law composes at any nesting depth.
pub proof fn lemma_acquire_release_restores(s: KState, h: usize)
    requires
        k_inv(s),
        k_enabled(s, KEvent::Acquire(h)),
        0 <= h < s.regs.len(),
        s.regs[h as int].staged is None,
    ensures
        k_step(k_step(s, KEvent::Acquire(h)), KEvent::Release) == s,
{
    let s1 = k_step(s, KEvent::Acquire(h));
    assert(s1.claims.last() == Claim { ctx: s.top(), handle: h, prev_mask: s.mask });
    assert(k_enabled(s1, KEvent::Release));
    let s2 = k_step(s1, KEvent::Release);
    assert(s2.claims =~= s.claims);
    assert(s2 =~= s);
}

/// The steady-state handler protocol, end to end: an interrupt context
/// enters, claims a handle, writes it in two halves, releases and
/// returns.  The arbitration state comes back exactly as it was — same
/// live contexts, same mask, same open sections — with the write
/// committed as one complete value.
pub proof fn lemma_handler_cycle(s: KState, p: u8, h: usize, v: u32)
    requires
        k_inv(s),
        k_enabled(s, KEvent::Enter(p)),
        0 <= h < s.ceilings.len(),
        s.ceilings[h as int] is Some,
        p <= s.ceil(h as int),
        s.regs[h as int].staged is None,
    ensures
        ({
            let s1 = k_step(s, KEvent::Enter(p));
            let s2 = k_step(s1, KEvent::Acquire(h));
            let s3 = k_step(s2, KEvent::BeginWrite(h, v));
            let s4 = k_step(s3, KEvent::EndWrite(h));
            let s5 = k_step(s4, KEvent::Release);
            let s6 = k_step(s5, KEvent::Exit);
            &&& s6.running == s.running
            &&& s6.mask == s.mask
            &&& s6.claims == s.claims
            &&& s6.ceilings == s.ceilings
            &&& s6.regs == s.regs.update(h as int, HwReg { value: v, staged: None })
        }),
{
    let n = s.claims.len() as int;
    let s1 = k_step(s, KEvent::Enter(p));
    assert(s1.running.last() == p);
    assert(k_enabled(s1, KEvent::Acquire(h)));
    let s2 = k_step(s1, KEvent::Acquire(h));
    assert(s2.claims[n] == Claim { ctx: p, handle: h, prev_mask: s.mask });
    assert(s2.holds(p, h as int));
    assert(k_enabled(s2, KEvent::BeginWrite(h, v)));
    let s3 = k_step(s2, KEvent::BeginWrite(h, v));
    assert(s3.claims[n] == s2.claims[n]);
    assert(s3.holds(p, h as int));
    assert(k_enabled(s3, KEvent::EndWrite(h)));
    let s4 = k_step(s3, KEvent::EndWrite(h));
    assert(s4.claims.last() == s2.claims[n]);
    assert(s4.regs[h as int] == HwReg { value: v, staged: None });
    assert(k_enabled(s4, KEvent::Release));
    let s5 = k_step(s4, KEvent::Release);
    assert(s5.claims =~= s.claims);
    assert(s5.mask == s.mask);
    assert(s5.top() == p);
    assert forall|i: int| 0 <= i < s5.claims.len() implies (#[trigger] s5.claims[i]).ctx != s5.top() by {
        assert(claim_wf(s, i));
        let c = s.claims[i].ctx;
        let r = choose|r: int| 0 <= r < s.running.len() && s.running[r] == c;
        let last = s.running.len() as int - 1;
        if r < last {
            assert(s.running[r] < s.running[last]);
        }
        assert(c <= s.top());
        assert(p > s.effective());
    }
    assert(k_enabled(s5, KEvent::Exit));
    let s6 = k_step(s5, KEvent::Exit);
    assert(s6.running =~= s.running);
    assert(s6.regs =~= s.regs.update(h as int, HwReg { value: v, staged: None }));
}

/// The executable arbitration kernel: the ledger's ceiling table plus the
/// live mask, context stack, open sections and handle registers.  Every
/// method is one event of the model: it performs the transition exactly
/// when the event is enabled and reports whether it was.
pub struct Kernel {
    ceilings: Vec<Option<u8>>,
    mask: u8,
    running: Vec<u8>,
    claims: Vec<Claim>,
    regs: Vec<HwReg>,
}

impl View for Kernel {
    type V = KState;

    closed spec fn view(&self) -> KState {
        KState {
            ceilings: self.ceilings@,
            mask: self.mask,
            running: self.running@,
            claims: self.claims@,
            regs: self.regs@,
        }
    }
}

impl Kernel {
    /// The boot state, built from a sealed ledger: only the idle context
    /// is live, the mask is open, no section is open, registers are zero.
    pub fn new(ledger: &Ledger) -> (r: Kernel)
        requires
            ledger.sealed(),
        ensures
            r@ == k_init(ledger.ceilings()),
            k_inv(r@),
    {
        let ceilings = ledger.snapshot();
        let n = ceilings.len();
        let mut regs: Vec<HwReg> = Vec::new();
        let mut i: usize = 0;
        while i < n
            invariant
                i <= n,
                regs@.len() == i,
                forall|k: int|
                    0 <= k < i ==> regs@[k] == (HwReg {
                        value: 0u32,
                        staged: Option::<StagedWrite>::None,
                    }),
            decreases n - i,
        {
            regs.push(HwReg { value: 0, staged: None });
            i = i + 1;
        }
        let mut running: Vec<u8> = Vec::new();
        running.push(0);
        let r = Kernel { ceilings, mask: 0, running, claims: Vec::new(), regs };
        proof {
            assert(r@.regs =~= k_init(ledger.ceilings()).regs);
            assert(r@.running =~= k_init(ledger.ceilings()).running);
            assert(r@.claims =~= k_init(ledger.ceilings()).claims);
            assert(r@ =~= k_init(ledger.ceilings()));
            lemma_init_inv(ledger.ceilings());
        }
        r
    }

    /// The current priority mask.
    pub fn current_mask(&self) -> (r: u8)
        ensures
            r == self@.mask,
    {
        self.mask
    }

    /// The priority of the context currently executing.
    pub fn current_priority(&self) -> (r: u8)
        requires
            k_inv(self@),
        ensures
            r == self@.top(),
    {
        self.running[self.running.len() - 1]
    }

    /// An interrupt of priority `prio` asks to run.  It preempts exactly
    /// when it exceeds both the running context and the mask; otherwise it
    /// stays latched in hardware and nothing changes.
    pub fn irq_enter(&mut self, prio: u8) -> (entered: bool)
        requires
            k_inv(old(self)@),
        ensures
            final(self)@ == k_step(old(self)@, KEvent::Enter(prio)),
            entered == k_enabled(old(self)@, KEvent::Enter(prio)),
            k_inv(final(self)@),
    {
        proof {
            lemma_step_inv(self@, KEvent::Enter(prio));
        }
        let top = self.running[self.running.len() - 1];
        let eff = if top > self.mask {
            top
        } else {
            self.mask
        };
        if prio > eff {
            self.running.push(prio);
            true
        } else {
            false
        }
    }

    /// The running interrupt context returns.  Refused while the context
    /// still has a section open (handlers release everything before they
    /// return), or for the idle context at the bottom of the stack.
    #[verifier::loop_isolation(false)]
    pub fn irq_exit(&mut self) -> (exited: bool)
        requires
            k_inv(old(self)@),
        ensures
            final(self)@ == k_step(old(self)@, KEvent::Exit),
            exited == k_enabled(old(self)@, KEvent::Exit),
            k_inv(final(self)@),
    {
        proof {
            lemma_step_inv(self@, KEvent::Exit);
        }
        if self.running.len() <= 1 {
            return false;
        }
        let top = self.running[self.running.len() - 1];
        let mut i: usize = 0;
        while i < self.claims.len()
            invariant
                i <= self.claims@.len(),
                top == self@.top(),
                forall|k: int| 0 <= k < i ==> (#[trigger] self.claims@[k]).ctx != top,
            decreases self.claims@.len() - i,
        {
            if self.claims[i].ctx == top {
                return false;
            }
            i = i + 1;
        }
        let _popped = self.running.pop();
        true
    }

    /// Open a critical section on `handle`: record the present mask and
    /// raise it to the handle's ceiling.  Refused for an unregistered
    /// handle, and for a context above the ceiling (such a context is no
    /// registered accessor of the handle).
    pub fn acquire(&mut self, handle: usize) -> (ok: bool)
        requires
            k_inv(old(self)@),
        ensures
            final(self)@ == k_step(old(self)@, KEvent::Acquire(handle)),
            ok == k_enabled(old(self)@, KEvent::Acquire(handle)),
            k_inv(final(self)@),
    {
        proof {
            lemma_step_inv(self@, KEvent::Acquire(handle));
        }
        if handle >= self.ceilings.len() {
            return false;
        }
        let c = match self.ceilings[handle] {
            None => {
                return false;
            },
            Some(c) => c,
        };
        let top = self.running[self.running.len() - 1];
        if top > c {
            return false;
        }
        self.claims.push(Claim { ctx: top, handle, prev_mask: self.mask });
        if c > self.mask {
            self.mask = c;
        }
        true
    }

    /// Close the innermost critical section and restore the mask that was
    /// active immediately before the matching acquisition.  Refused while
    /// a write on the section's handle is still uncommitted.
    pub fn release(&mut self) -> (ok: bool)
        requires
            k_inv(old(self)@),
        ensures
            final(self)@ == k_step(old(self)@, KEvent::Release),
            ok == k_enabled(old(self)@, KEvent::Release),
            k_inv(final(self)@),
    {
        proof {
            lemma_step_inv(self@, KEvent::Release);
        }
        if self.claims.len() == 0 {
            return false;
        }
        let last = self.claims[self.claims.len() - 1];
        let top = self.running[self.running.len() - 1];
        if last.ctx != top {
            return false;
        }
        if last.handle >= self.regs.len() {
            return false;
        }
        match self.regs[last.handle].staged {
            Some(_) => {
                return false;
            },
            None => {},
        }
        let _popped = self.claims.pop();
        self.mask = last.prev_mask;
        true
    }

    /// Whether the running context has an open section on `handle`.
    #[verifier::loop_isolation(false)]
    fn holds_claim(&self, handle: usize) -> (r: bool)
        requires
            k_inv(self@),
        ensures
            r == self@.holds(self@.top(), handle as int),
    {
        let top = self.running[self.running.len() - 1];
        let mut i: usize = 0;
        while i < self.claims.len()
            invariant
                i <= self.claims@.len(),
                top == self@.top(),
                forall|k: int|
                    0 <= k < i ==> !((#[trigger] self.claims@[k]).ctx == top
                        && self.claims@[k].handle == handle),
            decreases self.claims@.len() - i,
        {
            if self.claims[i].ctx == top && self.claims[i].handle == handle {
                proof {
                    assert(self@.claims[i as int].ctx == self@.top());
                    assert(self@.claims[i as int].handle == handle as int);
                }
                return true;
            }
            i = i + 1;
        }
        false
    }

    /// Stage the first half of a register write.  Permitted only under an
    /// open claim on the handle, and only one write at a time.
    pub fn begin_write(&mut self, handle: usize, value: u32) -> (ok: bool)
        requires
            k_inv(old(self)@),
        ensures
            final(self)@ == k_step(old(self)@, KEvent::BeginWrite(handle, value)),
            ok == k_enabled(old(self)@, KEvent::BeginWrite(handle, value)),
            k_inv(final(self)@),
    {
        proof {
            lemma_step_inv(self@, KEvent::BeginWrite(handle, value));
        }
        if handle >= self.regs.len() {
            return false;
        }
        if !self.holds_claim(handle) {
            return false;
        }
        match self.regs[handle].staged {
            Some(_) => {
                return false;
            },
            None => {},
        }
        let top = self.running[self.running.len() - 1];
        let value_now = self.regs[handle].value;
        self.regs.set(
            handle,
            HwReg { value: value_now, staged: Some(StagedWrite { ctx: top, value }) },
        );
        true
    }

    /// Commit the second half of a register write.
    pub fn end_write(&mut self, handle: usize) -> (ok: bool)
        requires
            k_inv(old(self)@),
        ensures
            final(self)@ == k_step(old(self)@, KEvent::EndWrite(handle)),
            ok == k_enabled(old(self)@, KEvent::EndWrite(handle)),
            k_inv(final(self)@),
    {
        proof {
            lemma_step_inv(self@, KEvent::EndWrite(handle));
        }
        if handle >= self.regs.len() {
            return false;
        }
        if !self.holds_claim(handle) {
            return false;
        }
        let staged = match self.regs[handle].staged {
            None => {
                return false;
            },
            Some(st) => st,
        };
        self.regs.set(handle, HwReg { value: staged.value, staged: None });
        true
    }

    /// Read a handle's committed register value, permitted only under an
    /// open claim.  The value is always a complete prior write: if a
    /// staged half-write exists at all, it is the reading context's own.
    pub fn read_reg(&self, handle: usize) -> (r: Option<u32>)
        requires
            k_inv(self@),
        ensures
            r is Some <==> k_enabled(self@, KEvent::ReadReg(handle)),
            r is Some ==> r->0 == self@.regs[handle as int].value,
            (r is Some && self@.regs[handle as int].staged is Some)
                ==> self@.regs[handle as int].staged->0.ctx == self@.top(),
    {
        if handle >= self.regs.len() {
            return None;
        }
        if !self.holds_claim(handle) {
            return None;
        }
        proof {
            if self@.regs[handle as int].staged is Some {
                lemma_read_not_torn(self@, handle);
            }
        }
        Some(self.regs[handle].value)
    }
}


} // verus!
