//! The nonce source: one per credential pair, strictly increasing.
use vstd::prelude::*;

verus! {

/// The nonce issued after `last` when the clock reads `clock`: the clock
/// reading, unless that is not past `last`, then the next integer.
pub open spec fn nonce_after(last: int, clock: int) -> int {
    if clock > last {
        clock
    } else {
        last + 1
    }
}

/// The nonces that a source which last issued `last` issues for the clock
/// readings `clocks`, one call after another.
pub open spec fn issued_run(last: int, clocks: Seq<u64>) -> Seq<int>
    decreases clocks.len(),
{
    if clocks.len() == 0 {
        Seq::empty()
    } else {
        let n = nonce_after(last, clocks[0] as int);
        seq![n] + issued_run(n, clocks.drop_first())
    }
}

/// Issues nonces; callers that share a credential pair share one source and
/// take turns at it.
#[derive(Debug)]
pub struct NonceSource {
    last: u64,
}

impl NonceSource {
    /// The last nonce issued, or the starting point.
    pub closed spec fn last(&self) -> u64 {
        self.last
    }

    /// A source whose first nonce is greater than `last`.
    pub fn starting_after(last: u64) -> (r: NonceSource)
        ensures
            r.last() == last,
    {
        NonceSource { last }
    }

    /// Issues the next nonce for the clock reading `clock_ms`; `None` once
    /// no greater `u64` is left.
    pub fn issue(&mut self, clock_ms: u64) -> (r: Option<u64>)
        ensures
            r is None <==> clock_ms <= old(self).last() && old(self).last() == u64::MAX,
            r matches Some(n) ==> n == nonce_after(old(self).last() as int, clock_ms as int)
                && final(self).last() == n,
            r is None ==> final(self).last() == old(self).last(),
    {
        if clock_ms > self.last {
            self.last = clock_ms;
            Some(clock_ms)
        } else if self.last < u64::MAX {
            self.last = self.last + 1;
            Some(self.last)
        } else {
            None
        }
    }
}

/// Nonces issued one call after another from one source, whatever the clock
/// reads, are each greater than the one before and than the source's start,
/// so no two are equal.
pub proof fn lemma_nonces_increase(last: int, clocks: Seq<u64>)
    ensures
        issued_run(last, clocks).len() == clocks.len(),
        forall|i: int| 0 <= i < clocks.len() ==> last < #[trigger] issued_run(last, clocks)[i],
        forall|i: int, j: int|
            0 <= i < j < clocks.len() ==> #[trigger] issued_run(last, clocks)[i] < #[trigger] issued_run(
                last,
                clocks,
            )[j],
    decreases clocks.len(),
{
    if clocks.len() > 0 {
        let n = nonce_after(last, clocks[0] as int);
        let rest = clocks.drop_first();
        lemma_nonces_increase(n, rest);
        let run = issued_run(last, clocks);
        assert(run == seq![n] + issued_run(n, rest));
        assert forall|i: int| 0 <= i < clocks.len() implies last < #[trigger] run[i] by {
            if i > 0 {
                assert(run[i] == issued_run(n, rest)[i - 1]);
            }
        }
        assert forall|i: int, j: int| 0 <= i < j < clocks.len() implies #[trigger] run[i] < #[trigger] run[j] by {
            assert(run[j] == issued_run(n, rest)[j - 1]);
            if i > 0 {
                assert(run[i] == issued_run(n, rest)[i - 1]);
            }
        }
    }
}

} // verus!
