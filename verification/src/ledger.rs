//! Resource ownership ledger: the static map from peripheral handle to
//! priority ceiling.
//!
//! During the configuration phase each handle is registered with the set of
//! execution contexts (given by their priorities) that will ever touch it;
//! its ceiling is the highest of those priorities.  The ledger is then
//! sealed, before the idle context enters its wait loop, and never mutated
//! again — that absence of runtime mutation is the correctness argument for
//! the static ceiling values.
use vstd::prelude::*;

verus! {

/// A handle was registered twice with incompatible ceilings, or an
/// interrupt was bound twice to different event sources.  Detected during
/// setup; fatal (the system halts before entering steady state).
#[derive(Clone, Copy, PartialEq, Eq, Structural, Debug)]
pub struct ConfigurationConflict {
    pub handle: usize,
}

/// The highest priority in a sequence of context priorities (zero for the
/// empty sequence; the idle context's priority is zero as well).
pub open spec fn seq_max(s: Seq<u8>) -> u8
    decreases s.len(),
{
    if s.len() == 0 {
        0u8
    } else if s.last() > seq_max(s.drop_last()) {
        s.last()
    } else {
        seq_max(s.drop_last())
    }
}

/// The highest priority bounds every accessor: no context registered for
/// a handle runs above the handle's ceiling.
pub proof fn lemma_seq_max_bounds(s: Seq<u8>, i: int)
    requires
        0 <= i < s.len(),
    ensures
        s[i] <= seq_max(s),
    decreases s.len(),
{
    if i < s.len() - 1 {
        lemma_seq_max_bounds(s.drop_last(), i);
        assert(s.drop_last()[i] == s[i]);
    }
}

/// The ceiling is not invented: it is the priority of one of the handle's
/// registered accessors.
pub proof fn lemma_seq_max_is_attained(s: Seq<u8>)
    requires
        s.len() > 0,
    ensures
        s.contains(seq_max(s)),
    decreases s.len(),
{
    if s.len() == 1 {
        assert(seq_max(s.drop_last()) == 0u8);
        assert(s[0] == seq_max(s));
    } else if s.last() > seq_max(s.drop_last()) {
        assert(s[s.len() - 1] == seq_max(s));
    } else {
        lemma_seq_max_is_attained(s.drop_last());
        let j = choose|j: int| 0 <= j < s.drop_last().len() && s.drop_last()[j] == seq_max(
            s.drop_last(),
        );
        assert(s[j] == seq_max(s));
    }
}

/// The ledger itself: an arena of handle slots indexed by a static handle
/// identifier, each holding the handle's ceiling once registered.
pub struct Ledger {
    ceilings: Vec<Option<u8>>,
    sealed: bool,
}

impl Ledger {
    /// The registered ceilings, one slot per handle identifier.
    pub closed spec fn ceilings(self) -> Seq<Option<u8>> {
        self.ceilings@
    }

    /// Whether the configuration phase has ended.
    pub closed spec fn sealed(self) -> bool {
        self.sealed
    }

    /// Number of handle slots in the arena.
    pub open spec fn capacity(self) -> nat {
        self.ceilings().len()
    }

    /// The ceiling registered for a handle, `None` while unregistered.
    pub open spec fn ceiling_spec(self, handle: int) -> Option<u8> {
        self.ceilings()[handle]
    }

    /// A fresh, unsealed ledger with `capacity` empty handle slots.
    pub fn new(capacity: usize) -> (r: Ledger)
        ensures
            r.capacity() == capacity,
            !r.sealed(),
            forall|h: int| 0 <= h < capacity ==> r.ceiling_spec(h) is None,
    {
        let mut ceilings: Vec<Option<u8>> = Vec::new();
        let mut i: usize = 0;
        while i < capacity
            invariant
                i <= capacity,
                ceilings@.len() == i,
                forall|h: int| 0 <= h < i ==> ceilings@[h] is None,
            decreases capacity - i,
        {
            ceilings.push(None);
            i = i + 1;
        }
        Ledger { ceilings, sealed: false }
    }

    /// Register a handle with the priorities of every context that will
    /// touch it.  The ceiling becomes the highest of those priorities.
    /// Registering the same handle again succeeds only if it yields the
    /// same ceiling; an incompatible re-registration is a
    /// `ConfigurationConflict` and leaves the ledger unchanged.
    pub fn register(&mut self, handle: usize, contexts: &Vec<u8>) -> (r: Result<
        (),
        ConfigurationConflict,
    >)
        requires
            !old(self).sealed(),
            handle < old(self).capacity(),
            contexts@.len() > 0,
        ensures
            !final(self).sealed(),
            final(self).capacity() == old(self).capacity(),
            r is Ok <==> (old(self).ceiling_spec(handle as int) is None || old(self).ceiling_spec(
                handle as int,
            ) == Some(seq_max(contexts@))),
            r is Ok ==> final(self).ceilings() == old(self).ceilings().update(
                handle as int,
                Some(seq_max(contexts@)),
            ),
            r is Err ==> *final(self) == *old(self) && (r->Err_0).handle == handle,
    {
        let ceiling = max_of(contexts);
        match self.ceilings[handle] {
            None => {
                self.ceilings.set(handle, Some(ceiling));
                Ok(())
            },
            Some(existing) => {
                if existing == ceiling {
                    self.ceilings.set(handle, Some(ceiling));
                    Ok(())
                } else {
                    Err(ConfigurationConflict { handle })
                }
            },
        }
    }

    /// End the configuration phase.  From here on the ledger is immutable.
    pub fn seal(&mut self)
        ensures
            final(self).sealed(),
            final(self).ceilings() == old(self).ceilings(),
    {
        self.sealed = true;
    }

    /// Pure constant-time query for a handle's ceiling, used by the
    /// critical-section primitive on every acquisition.
    pub fn ceiling_of(&self, handle: usize) -> (r: Option<u8>)
        requires
            handle < self.capacity(),
        ensures
            r == self.ceiling_spec(handle as int),
    {
        self.ceilings[handle]
    }

    /// A copy of the ceiling table, for handing to the arbitration kernel
    /// once the ledger is sealed.
    pub fn snapshot(&self) -> (r: Vec<Option<u8>>)
        requires
            self.sealed(),
        ensures
            r@ == self.ceilings(),
    {
        let mut out: Vec<Option<u8>> = Vec::new();
        let mut i: usize = 0;
        while i < self.ceilings.len()
            invariant
                i <= self.capacity(),
                out@.len() == i,
                forall|h: int| 0 <= h < i ==> out@[h] == self.ceilings()[h],
            decreases self.capacity() - i,
        {
            out.push(self.ceilings[i]);
            i = i + 1;
        }
        proof {
            assert(out@ =~= self.ceilings());
        }
        out
    }
}

/// The largest element of a non-empty priority vector.
fn max_of(contexts: &Vec<u8>) -> (r: u8)
    requires
        contexts@.len() > 0,
    ensures
        r == seq_max(contexts@),
{
    let mut m: u8 = 0;
    let mut i: usize = 0;
    while i < contexts.len()
        invariant
            i <= contexts@.len(),
            m == seq_max(contexts@.take(i as int)),
        decreases contexts@.len() - i,
    {
        proof {
            assert(contexts@.take(i as int + 1).drop_last() =~= contexts@.take(i as int));
            assert(contexts@.take(i as int + 1).last() == contexts@[i as int]);
        }
        if contexts[i] > m {
            m = contexts[i];
        }
        i = i + 1;
    }
    proof {
        assert(contexts@.take(contexts@.len() as int) =~= contexts@);
    }
    m
}

} // verus!
