//! The supervision of a link by pings: it is dead once too many in a row have
//! failed.

use vstd::prelude::*;

verus! {

/// How long a ping may take, in seconds.
pub const PING_TIMEOUT: u64 = 5;

/// How many of the pings at the end failed; each is `true` where it was
/// answered.
pub open spec fn failures_in_a_row(pings: Seq<bool>) -> nat
    decreases pings.len(),
{
    if pings.len() == 0 || pings.last() {
        0
    } else {
        failures_in_a_row(pings.drop_last()) + 1
    }
}

/// Whether a link is declared dead after these pings.
pub open spec fn declared_dead(pings: Seq<bool>, max: u32) -> bool {
    pings.len() > 0 && failures_in_a_row(pings) >= max
}

/// A link under supervision.
pub struct LinkMonitor {
    max: u32,
    failures: u32,
    pings: Ghost<Seq<bool>>,
}

impl LinkMonitor {
    /// The pings so far.
    pub closed spec fn pings(&self) -> Seq<bool> {
        self.pings@
    }

    /// How many failures in a row make a link dead.
    pub closed spec fn max(&self) -> u32 {
        self.max
    }

    /// The monitor has counted the failures, and has not declared the link dead.
    pub closed spec fn wf(&self) -> bool {
        &&& self.failures == failures_in_a_row(self.pings@)
        &&& !declared_dead(self.pings@, self.max)
    }

    /// A link that has not been pinged yet.
    pub fn new(max: u32) -> (r: LinkMonitor)
        ensures
            r.wf(),
            r.max() == max,
            r.pings() == Seq::<bool>::empty(),
    {
        LinkMonitor { max, failures: 0, pings: Ghost(Seq::empty()) }
    }

    /// Takes the result of a ping, and returns whether the link is dead.
    pub fn record(&mut self, answered: bool) -> (dead: bool)
        requires
            old(self).wf(),
        ensures
            final(self).max() == old(self).max(),
            final(self).pings() == old(self).pings().push(answered),
            dead == declared_dead(final(self).pings(), old(self).max()),
            !dead ==> final(self).wf(),
    {
        let ghost before = self.pings@;
        proof {
            assert(before.push(answered).drop_last() == before);
        }
        if answered {
            self.failures = 0;
        } else {
            self.failures = self.failures + 1;
        }
        self.pings = Ghost(before.push(answered));
        self.failures >= self.max
    }

    /// How many of the last pings have failed.
    pub fn failures(&self) -> (r: u32)
        requires
            self.wf(),
        ensures
            r == failures_in_a_row(self.pings()),
    {
        self.failures
    }
}

/// A link is declared dead exactly when the last pings, as many as the limit
/// says, have all failed.
pub proof fn dead_after_failures_in_a_row(pings: Seq<bool>, max: u32)
    requires
        pings.len() > 0,
    ensures
        declared_dead(pings, max) <==> {
            &&& pings.len() >= max
            &&& forall|i: int| pings.len() - max <= i < pings.len() ==> !#[trigger] pings[i]
        },
{
    lemma_failures(pings, max as nat);
}

proof fn lemma_failures(pings: Seq<bool>, n: nat)
    ensures
        failures_in_a_row(pings) >= n <==> {
            &&& pings.len() >= n
            &&& forall|i: int| pings.len() - n <= i < pings.len() ==> !#[trigger] pings[i]
        },
    decreases pings.len(),
{
    if n > 0 && pings.len() > 0 {
        let head = pings.drop_last();
        lemma_failures(head, (n - 1) as nat);
        if pings.last() {
            assert(pings[pings.len() - 1]);
        } else {
            assert forall|i: int| pings.len() - n <= i < pings.len()
                && failures_in_a_row(pings) >= n implies !#[trigger] pings[i] by {
                if i < pings.len() - 1 {
                    assert(head[i] == pings[i]);
                }
            }
            assert(pings.len() >= n ==> forall|i: int|
                head.len() - (n - 1) <= i < head.len() ==> #[trigger] head[i] == pings[i]);
        }
    }
}

/// An answered ping wipes out the failures before it.
pub proof fn answer_resets_failures(pings: Seq<bool>)
    ensures
        failures_in_a_row(pings.push(true)) == 0,
{
}

} // verus!
