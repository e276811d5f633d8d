//! Statistics over the time that passes between two reports of a worker.

use vstd::prelude::*;

verus! {

/// A statistic that samples are fed into one by one.
pub trait RuntimeStatistic: Sized {
    /// The statistic before any sample.
    spec fn fresh() -> Self;

    /// The statistic after one more sample.
    spec fn after(self, sample: u64) -> Self;

    /// What the statistic reads.
    spec fn reading(self) -> u64;

    fn initial() -> (statistic: Self)
        ensures
            statistic == Self::fresh(),
    ;

    fn update(&mut self, sample: u64)
        ensures
            *final(self) == old(self).after(sample),
    ;

    fn value(&self) -> (value: u64)
        ensures
            value == self.reading(),
    ;
}

/// The mean of all samples, rounded down.
#[derive(Clone, Copy, Debug)]
pub struct RunningMean {
    count: u64,
    total: u128,
}

impl RunningMean {
    #[verifier::type_invariant]
    closed spec fn bounded(self) -> bool {
        self.total <= self.count * u64::MAX
    }
}

impl RuntimeStatistic for RunningMean {
    closed spec fn fresh() -> RunningMean {
        RunningMean { count: 0, total: 0 }
    }

    /// Samples after the first 2^64 - 1 are left out.
    closed spec fn after(self, sample: u64) -> RunningMean {
        if self.count < u64::MAX {
            RunningMean {
                count: (self.count + 1) as u64,
                total: (self.total + sample) as u128,
            }
        } else {
            self
        }
    }

    closed spec fn reading(self) -> u64 {
        if self.count == 0 {
            0
        } else {
            (self.total as int / self.count as int) as u64
        }
    }

    fn initial() -> (statistic: RunningMean) {
        RunningMean { count: 0, total: 0 }
    }

    fn update(&mut self, sample: u64) {
        proof {
            use_type_invariant(&*self);
        }
        if self.count < u64::MAX {
            assert(self.count * u64::MAX <= u64::MAX * u64::MAX) by (nonlinear_arith)
                requires
                    self.count <= u64::MAX,
            ;
            assert((self.count + 1) * u64::MAX == self.count * u64::MAX + u64::MAX)
                by (nonlinear_arith);
            *self = RunningMean { count: self.count + 1, total: self.total + sample as u128 };
        }
    }

    fn value(&self) -> (value: u64) {
        proof {
            use_type_invariant(self);
        }
        if self.count == 0 {
            0
        } else {
            assert(self.total as int / self.count as int <= u64::MAX) by (nonlinear_arith)
                requires
                    self.total <= self.count * u64::MAX,
                    self.count > 0,
            ;
            (self.total / self.count as u128) as u64
        }
    }
}

/// The sum of all samples.
pub open spec fn sum(samples: Seq<u64>) -> int
    decreases samples.len(),
{
    if samples.len() == 0 {
        0
    } else {
        sum(samples.drop_last()) + samples.last()
    }
}

/// The statistic after a whole history of samples.
pub open spec fn replay<T: RuntimeStatistic>(samples: Seq<u64>) -> T
    decreases samples.len(),
{
    if samples.len() == 0 {
        T::fresh()
    } else {
        replay::<T>(samples.drop_last()).after(samples.last())
    }
}

proof fn lemma_replay_counts(samples: Seq<u64>)
    requires
        samples.len() <= u64::MAX,
    ensures
        replay::<RunningMean>(samples).count == samples.len(),
        replay::<RunningMean>(samples).total == sum(samples),
        0 <= sum(samples) <= samples.len() * u64::MAX,
    decreases samples.len(),
{
    if samples.len() > 0 {
        lemma_replay_counts(samples.drop_last());
        let n = samples.len();
        assert((n - 1) * u64::MAX + u64::MAX == n * u64::MAX) by (nonlinear_arith);
        assert(n * u64::MAX <= u64::MAX * u64::MAX) by (nonlinear_arith)
            requires
                n <= u64::MAX,
        ;
    }
}

/// A running mean reads the arithmetic mean of its whole history, rounded down.
pub proof fn law_running_mean_is_the_mean(samples: Seq<u64>)
    requires
        0 < samples.len() <= u64::MAX,
    ensures
        replay::<RunningMean>(samples).reading() == sum(samples) / samples.len() as int,
{
    lemma_replay_counts(samples);
    let total = sum(samples);
    let n = samples.len() as int;
    assert(0 <= total / n <= u64::MAX) by (nonlinear_arith)
        requires
            0 <= total <= n * u64::MAX,
            n > 0,
    ;
}

/// A running mean without samples reads zero.
pub proof fn law_no_samples_read_zero()
    ensures
        replay::<RunningMean>(Seq::empty()).reading() == 0,
{
}

/// What a running mean is fed and what it is asked for goes into its history: it starts without
/// samples, each further sample counts, and it reads the mean of them all, rounded down.
pub proof fn law_running_means_are_fed_and_read(
    samples: Seq<u64>,
    next: u64,
    fresh: RunningMean,
    mean: &mut RunningMean,
    value: u64,
)
    requires
        samples.len() < u64::MAX,
        call_ensures(<RunningMean as RuntimeStatistic>::initial, (), fresh),
        *old(mean) == replay::<RunningMean>(samples),
        call_ensures(<RunningMean as RuntimeStatistic>::update, (mean, next), ()),
        call_ensures(<RunningMean as RuntimeStatistic>::value, (final(mean),), value),
    ensures
        fresh == replay::<RunningMean>(Seq::empty()),
        *final(mean) == replay::<RunningMean>(samples.push(next)),
        value == (sum(samples) + next) / (samples.len() as int + 1),
{
    assert(samples.push(next).drop_last() =~= samples);
    law_running_mean_is_the_mean(samples.push(next));
}

} // verus!
