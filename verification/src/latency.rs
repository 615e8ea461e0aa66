//! The slowest operation that a task has seen.

use vstd::prelude::*;

verus! {

/// The largest of `samples`, and 0 where there is none.
pub open spec fn peak(samples: Seq<u128>) -> u128
    decreases samples.len(),
{
    if samples.len() == 0 {
        0
    } else if samples.last() > peak(samples.drop_last()) {
        samples.last()
    } else {
        peak(samples.drop_last())
    }
}

/// The running maximum of the durations, in nanoseconds, that one task has
/// measured.
pub struct LatencyTracker {
    max_nanos: u128,
    samples: Ghost<Seq<u128>>,
}

impl LatencyTracker {
    #[verifier::type_invariant]
    spec fn well_formed(self) -> bool {
        self.max_nanos == peak(self.samples@)
    }

    /// Every duration recorded so far, oldest first.
    pub closed spec fn samples(&self) -> Seq<u128> {
        self.samples@
    }

    /// A tracker that has seen nothing.
    pub fn new() -> (tracker: LatencyTracker)
        ensures
            tracker.samples() == Seq::<u128>::empty(),
    {
        LatencyTracker { max_nanos: 0, samples: Ghost(Seq::empty()) }
    }

    /// The largest duration recorded so far.
    pub fn max_nanos(&self) -> (max: u128)
        ensures
            max == peak(self.samples()),
    {
        proof {
            use_type_invariant(self);
        }
        self.max_nanos
    }

    /// Records one duration. Returns whether it is a new maximum, which is the
    /// event that a task reports.
    pub fn record(&mut self, elapsed_nanos: u128) -> (raised: bool)
        ensures
            final(self).samples() == old(self).samples().push(elapsed_nanos),
            raised == (elapsed_nanos > peak(old(self).samples())),
        no_unwind
    {
        proof {
            use_type_invariant(&*self);
            assert(self.samples@.push(elapsed_nanos).drop_last() =~= self.samples@);
        }
        let raised = elapsed_nanos > self.max_nanos;
        let max_nanos = if raised {
            elapsed_nanos
        } else {
            self.max_nanos
        };
        *self = LatencyTracker { max_nanos, samples: Ghost(self.samples@.push(elapsed_nanos)) };
        raised
    }
}

/// The maximum is at least every duration recorded.
pub proof fn lemma_peak_bounds(samples: Seq<u128>, i: int)
    requires
        0 <= i < samples.len(),
    ensures
        samples[i] <= peak(samples),
    decreases samples.len(),
{
    if i < samples.len() - 1 {
        lemma_peak_bounds(samples.drop_last(), i);
    }
}

/// The maximum is one of the durations recorded, where there is any.
pub proof fn lemma_peak_attained(samples: Seq<u128>)
    requires
        samples.len() > 0,
    ensures
        exists|i: int| 0 <= i < samples.len() && samples[i] == peak(samples),
    decreases samples.len(),
{
    if samples.last() > peak(samples.drop_last()) || samples.len() == 1 {
        assert(samples[samples.len() - 1] == peak(samples));
    } else {
        lemma_peak_attained(samples.drop_last());
        let earlier = samples.drop_last();
        let i = choose|i: int| 0 <= i < earlier.len() && earlier[i] == peak(earlier);
        assert(samples[i] == peak(samples));
    }
}

} // verus!
