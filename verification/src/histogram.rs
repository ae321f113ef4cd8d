//! A latency histogram over 13 logarithmic buckets, with running total, sum,
//! minimum and maximum.
//!
//! The histogram is viewed as the sequence of samples recorded since it was
//! created or last reset; every counter is a function of that sequence.

use vstd::prelude::*;

verus! {

/// The bucket a latency falls in: [0,100), [100,200), [200,500), [500,1000)
/// nanoseconds, then [1,2), [2,5), [5,10), [10,20), [20,50), [50,100),
/// [100,200), [200,500) microseconds, then everything from 500 microseconds.
pub open spec fn bucket_of(ns: u64) -> int {
    if ns < 100 {
        0
    } else if ns < 200 {
        1
    } else if ns < 500 {
        2
    } else if ns < 1_000 {
        3
    } else if ns < 2_000 {
        4
    } else if ns < 5_000 {
        5
    } else if ns < 10_000 {
        6
    } else if ns < 20_000 {
        7
    } else if ns < 50_000 {
        8
    } else if ns < 100_000 {
        9
    } else if ns < 200_000 {
        10
    } else if ns < 500_000 {
        11
    } else {
        12
    }
}

/// The latency reported for a bucket: the middle of its range, and 750 000
/// for the last, open bucket.
pub open spec fn midpoint(bucket: int) -> u64 {
    if bucket == 0 {
        50
    } else if bucket == 1 {
        150
    } else if bucket == 2 {
        350
    } else if bucket == 3 {
        750
    } else if bucket == 4 {
        1_500
    } else if bucket == 5 {
        3_500
    } else if bucket == 6 {
        7_500
    } else if bucket == 7 {
        15_000
    } else if bucket == 8 {
        35_000
    } else if bucket == 9 {
        75_000
    } else if bucket == 10 {
        150_000
    } else if bucket == 11 {
        350_000
    } else {
        750_000
    }
}

/// How many of the samples fall in `bucket`.
pub open spec fn count_in(samples: Seq<u64>, bucket: int) -> nat
    decreases samples.len(),
{
    if samples.len() == 0 {
        0
    } else {
        count_in(samples.drop_last(), bucket) + if bucket_of(samples.last()) == bucket {
            1nat
        } else {
            0nat
        }
    }
}

/// How many of the samples fall in a bucket below `k`.
pub open spec fn count_below(samples: Seq<u64>, k: int) -> nat
    decreases k,
{
    if k <= 0 {
        0
    } else {
        count_below(samples, k - 1) + count_in(samples, k - 1)
    }
}

/// The sum of the samples.
pub open spec fn sum_of(samples: Seq<u64>) -> nat
    decreases samples.len(),
{
    if samples.len() == 0 {
        0
    } else {
        sum_of(samples.drop_last()) + samples.last() as nat
    }
}

/// The smallest sample, or the largest 64-bit value when there is none.
pub open spec fn min_of(samples: Seq<u64>) -> u64
    decreases samples.len(),
{
    if samples.len() == 0 {
        u64::MAX
    } else if samples.last() < min_of(samples.drop_last()) {
        samples.last()
    } else {
        min_of(samples.drop_last())
    }
}

/// The largest sample, or 0 when there is none.
pub open spec fn max_of(samples: Seq<u64>) -> u64
    decreases samples.len(),
{
    if samples.len() == 0 {
        0
    } else if samples.last() > max_of(samples.drop_last()) {
        samples.last()
    } else {
        max_of(samples.drop_last())
    }
}

/// The first bucket from `from` on by which at least `target` samples have
/// been counted, or 13 when no bucket reaches the target.
pub open spec fn first_reaching(samples: Seq<u64>, target: u64, from: int) -> int
    decreases 13 - from,
{
    if from >= 13 {
        13
    } else if count_below(samples, from + 1) >= target {
        from
    } else {
        first_reaching(samples, target, from + 1)
    }
}

/// The latency at a target count: 0 for no samples, else the midpoint of the
/// first bucket by which `target` samples have been counted.
pub open spec fn percentile_of(samples: Seq<u64>, target: u64) -> u64 {
    if samples.len() == 0 {
        0
    } else {
        midpoint(first_reaching(samples, target, 0))
    }
}

/// No bucket holds more samples than there are.
pub proof fn lemma_count_in_bounded(samples: Seq<u64>, bucket: int)
    ensures
        count_in(samples, bucket) <= samples.len(),
    decreases samples.len(),
{
    if samples.len() > 0 {
        lemma_count_in_bounded(samples.drop_last(), bucket);
    }
}

proof fn lemma_count_below_push(samples: Seq<u64>, x: u64, k: int)
    requires
        0 <= k <= 13,
    ensures
        count_below(samples.push(x), k) == count_below(samples, k) + if bucket_of(x) < k {
            1nat
        } else {
            0nat
        },
    decreases k,
{
    if k > 0 {
        lemma_count_below_push(samples, x, k - 1);
        assert(samples.push(x).drop_last() =~= samples);
        assert(samples.push(x).last() == x);
    }
}

/// The counts of the buckets below `k` never exceed the number of samples,
/// and grow with `k`.
pub proof fn lemma_count_below_bounded(samples: Seq<u64>, k: int)
    requires
        0 <= k <= 13,
    ensures
        count_below(samples, k) <= samples.len(),
        k < 13 ==> count_below(samples, k) <= count_below(samples, k + 1),
    decreases samples.len(),
{
    if samples.len() == 0 {
        assert(samples =~= Seq::<u64>::empty());
        lemma_count_below_empty(k);
        if k < 13 {
            lemma_count_below_empty(k + 1);
        }
    } else {
        let before = samples.drop_last();
        lemma_count_below_bounded(before, k);
        lemma_count_below_push(before, samples.last(), k);
        assert(before.push(samples.last()) =~= samples);
    }
}

proof fn lemma_count_below_empty(k: int)
    requires
        0 <= k <= 13,
    ensures
        count_below(Seq::<u64>::empty(), k) == 0,
    decreases k,
{
    if k > 0 {
        lemma_count_below_empty(k - 1);
    }
}

/// The counts of the 13 buckets add up to the number of samples.
pub proof fn lemma_buckets_sum_to_total(samples: Seq<u64>)
    ensures
        count_below(samples, 13) == samples.len(),
    decreases samples.len(),
{
    if samples.len() == 0 {
        assert(samples =~= Seq::<u64>::empty());
        lemma_count_below_empty(13);
    } else {
        let before = samples.drop_last();
        lemma_buckets_sum_to_total(before);
        lemma_count_below_push(before, samples.last(), 13);
        assert(before.push(samples.last()) =~= samples);
    }
}

/// The sum of the samples lies between their number times the smallest and
/// their number times the largest; the minimum is at most the maximum.
pub proof fn lemma_sum_between(samples: Seq<u64>)
    requires
        samples.len() > 0,
    ensures
        min_of(samples) <= max_of(samples),
        samples.len() * min_of(samples) <= sum_of(samples),
        sum_of(samples) <= samples.len() * max_of(samples),
    decreases samples.len(),
{
    let before = samples.drop_last();
    let x = samples.last();
    if before.len() == 0 {
        assert(sum_of(before) == 0);
        assert(min_of(samples) == x);
        assert(max_of(samples) == x);
        assert(samples.len() * min_of(samples) == x) by (nonlinear_arith)
            requires
                samples.len() == 1,
                min_of(samples) == x,
        ;
        assert(samples.len() * max_of(samples) == x) by (nonlinear_arith)
            requires
                samples.len() == 1,
                max_of(samples) == x,
        ;
    } else {
        lemma_sum_between(before);
        let n = before.len() as int;
        let lo = min_of(samples) as int;
        let hi = max_of(samples) as int;
        let plo = min_of(before) as int;
        let phi = max_of(before) as int;
        let s = sum_of(before) as int;
        assert((n + 1) * lo <= s + x) by (nonlinear_arith)
            requires
                n * plo <= s,
                lo <= plo,
                lo <= x,
                n >= 0,
        ;
        assert(s + x <= (n + 1) * hi) by (nonlinear_arith)
            requires
                s <= n * phi,
                phi <= hi,
                x <= hi,
                n >= 0,
        ;
    }
}

/// The mean of any samples lies between their minimum and their maximum.
pub proof fn lemma_mean_between(samples: Seq<u64>)
    requires
        samples.len() > 0,
    ensures
        min_of(samples) <= sum_of(samples) / samples.len(),
        sum_of(samples) / samples.len() <= max_of(samples),
{
    lemma_sum_between(samples);
    let n = samples.len() as int;
    let s = sum_of(samples) as int;
    let lo = min_of(samples) as int;
    let hi = max_of(samples) as int;
    assert(lo <= s / n && s / n <= hi) by (nonlinear_arith)
        requires
            n > 0,
            n * lo <= s,
            s <= n * hi,
    ;
}

/// The histogram.
pub struct LatencyHistogram {
    buckets: [u64; 13],
    total_samples: u64,
    total_latency_ns: u64,
    min_latency_ns: u64,
    max_latency_ns: u64,
    samples: Ghost<Seq<u64>>,
}

impl View for LatencyHistogram {
    type V = Seq<u64>;

    /// The samples recorded since creation or the last reset, in order.
    closed spec fn view(&self) -> Seq<u64> {
        self.samples@
    }
}

impl LatencyHistogram {
    /// Every counter agrees with the recorded samples: each bucket counts
    /// the samples that fall in it, the total is their number, the latency
    /// sum is their sum modulo 2^64, and the extremes are their extremes.
    pub closed spec fn wf(&self) -> bool {
        &&& self@.len() <= u64::MAX
        &&& forall|i: int| 0 <= i < 13 ==> self.buckets@[i] == count_in(self@, i)
        &&& self.total_samples == self@.len()
        &&& self.total_latency_ns == sum_of(self@) % 0x1_0000_0000_0000_0000
        &&& self.min_latency_ns == min_of(self@)
        &&& self.max_latency_ns == max_of(self@)
    }

    /// A histogram with no samples.
    pub fn new() -> (h: LatencyHistogram)
        ensures
            h.wf(),
            h@ == Seq::<u64>::empty(),
    {
        LatencyHistogram {
            buckets: [0u64; 13],
            total_samples: 0,
            total_latency_ns: 0,
            min_latency_ns: u64::MAX,
            max_latency_ns: 0,
            samples: Ghost(Seq::empty()),
        }
    }

    /// The bucket a latency falls in.
    pub fn bucket_index(latency_ns: u64) -> (idx: usize)
        ensures
            idx == bucket_of(latency_ns),
            idx < 13,
    {
        if latency_ns < 100 {
            0
        } else if latency_ns < 200 {
            1
        } else if latency_ns < 500 {
            2
        } else if latency_ns < 1_000 {
            3
        } else if latency_ns < 2_000 {
            4
        } else if latency_ns < 5_000 {
            5
        } else if latency_ns < 10_000 {
            6
        } else if latency_ns < 20_000 {
            7
        } else if latency_ns < 50_000 {
            8
        } else if latency_ns < 100_000 {
            9
        } else if latency_ns < 200_000 {
            10
        } else if latency_ns < 500_000 {
            11
        } else {
            12
        }
    }

    /// Records one sample. The sample count must not be at its 64-bit limit.
    pub fn record(&mut self, latency_ns: u64)
        requires
            old(self).wf(),
            old(self)@.len() < u64::MAX,
        ensures
            final(self).wf(),
            final(self)@ == old(self)@.push(latency_ns),
            forall|i: int|
                0 <= i < 13 ==> count_in(final(self)@, i) == count_in(old(self)@, i) + if bucket_of(
                    latency_ns,
                ) == i {
                    1nat
                } else {
                    0nat
                },
            sum_of(final(self)@) == sum_of(old(self)@) + latency_ns,
            min_of(final(self)@) == if latency_ns < min_of(old(self)@) {
                latency_ns
            } else {
                min_of(old(self)@)
            },
            max_of(final(self)@) == if latency_ns > max_of(old(self)@) {
                latency_ns
            } else {
                max_of(old(self)@)
            },
    {
        let bucket = Self::bucket_index(latency_ns);
        proof {
            lemma_count_in_bounded(self@, bucket as int);
        }
        self.buckets[bucket] = self.buckets[bucket] + 1;
        self.total_samples = self.total_samples + 1;
        self.total_latency_ns = self.total_latency_ns.wrapping_add(latency_ns);
        if latency_ns < self.min_latency_ns {
            self.min_latency_ns = latency_ns;
        }
        if latency_ns > self.max_latency_ns {
            self.max_latency_ns = latency_ns;
        }
        proof {
            let before = old(self)@;
            let after = before.push(latency_ns);
            self.samples@ = after;
            assert(after.drop_last() =~= before);
            assert(after.last() == latency_ns);
            assert forall|i: int| 0 <= i < 13 implies self.buckets@[i] == count_in(after, i) by {
                assert(old(self).buckets@[i] == count_in(before, i));
            }
        }
    }

    /// The latency at a target count, see `percentile_of`. For a fraction
    /// `p` of the samples the target is `p` times the number of samples.
    pub fn percentile(&self, target_count: u64) -> (ns: u64)
        requires
            self.wf(),
        ensures
            ns == percentile_of(self@, target_count),
    {
        if self.total_samples == 0 {
            return 0;
        }
        let mut cumulative: u64 = 0;
        let mut i: usize = 0;
        while i < 13
            invariant
                self.wf(),
                self@.len() > 0,
                0 <= i <= 13,
                cumulative == count_below(self@, i as int),
                first_reaching(self@, target_count, 0) == first_reaching(
                    self@,
                    target_count,
                    i as int,
                ),
            decreases 13 - i,
        {
            proof {
                lemma_count_below_bounded(self@, i as int + 1);
            }
            cumulative = cumulative + self.buckets[i];
            assert(cumulative == count_below(self@, i as int + 1));
            assert(first_reaching(self@, target_count, i as int) == if cumulative
                >= target_count {
                i as int
            } else {
                first_reaching(self@, target_count, i as int + 1)
            });
            if cumulative >= target_count {
                return Self::bucket_midpoint(i);
            }
            i += 1;
        }
        750_000
    }

    /// The latency reported for bucket `i`.
    pub fn bucket_midpoint(i: usize) -> (ns: u64)
        ensures
            ns == midpoint(i as int),
    {
        if i == 0 {
            50
        } else if i == 1 {
            150
        } else if i == 2 {
            350
        } else if i == 3 {
            750
        } else if i == 4 {
            1_500
        } else if i == 5 {
            3_500
        } else if i == 6 {
            7_500
        } else if i == 7 {
            15_000
        } else if i == 8 {
            35_000
        } else if i == 9 {
            75_000
        } else if i == 10 {
            150_000
        } else if i == 11 {
            350_000
        } else {
            750_000
        }
    }

    /// Forgets every sample.
    pub fn reset(&mut self)
        ensures
            final(self).wf(),
            final(self)@ == Seq::<u64>::empty(),
    {
        let mut i: usize = 0;
        while i < 13
            invariant
                0 <= i <= 13,
                forall|j: int| 0 <= j < i ==> self.buckets@[j] == 0,
            decreases 13 - i,
        {
            self.buckets[i] = 0;
            i += 1;
        }
        self.total_samples = 0;
        self.total_latency_ns = 0;
        self.min_latency_ns = u64::MAX;
        self.max_latency_ns = 0;
        proof {
            self.samples@ = Seq::empty();
        }
    }

    /// The number of samples.
    pub fn total_samples(&self) -> (n: u64)
        requires
            self.wf(),
        ensures
            n == self@.len(),
    {
        self.total_samples
    }

    /// The sum of the samples, modulo 2^64.
    pub fn total_latency_ns(&self) -> (n: u64)
        requires
            self.wf(),
        ensures
            n == sum_of(self@) % 0x1_0000_0000_0000_0000,
    {
        self.total_latency_ns
    }

    /// The smallest sample, or the largest 64-bit value when there is none.
    pub fn min_latency_ns(&self) -> (n: u64)
        requires
            self.wf(),
        ensures
            n == min_of(self@),
    {
        self.min_latency_ns
    }

    /// The largest sample, or 0 when there is none.
    pub fn max_latency_ns(&self) -> (n: u64)
        requires
            self.wf(),
        ensures
            n == max_of(self@),
    {
        self.max_latency_ns
    }

    /// The number of samples in bucket `i`.
    pub fn bucket_count(&self, i: usize) -> (n: u64)
        requires
            self.wf(),
            i < 13,
        ensures
            n == count_in(self@, i as int),
    {
        self.buckets[i]
    }

    /// The mean sample, rounded down, or `None` when there is no sample.
    /// While the sum of the samples fits 64 bits the mean lies between the
    /// minimum and the maximum.
    pub fn mean_ns(&self) -> (m: Option<u64>)
        requires
            self.wf(),
        ensures
            self@.len() == 0 ==> m is None,
            self@.len() > 0 ==> m == Some(
                ((sum_of(self@) % 0x1_0000_0000_0000_0000) / self@.len()) as u64,
            ),
            self@.len() > 0 && sum_of(self@) <= u64::MAX ==> min_of(self@) <= m.unwrap()
                <= max_of(self@),
    {
        if self.total_samples == 0 {
            return None;
        }
        proof {
            lemma_mean_between(self@);
        }
        Some(self.total_latency_ns / self.total_samples)
    }
}

impl Default for LatencyHistogram {
    fn default() -> (h: LatencyHistogram)
        ensures
            h.wf(),
            h@ == Seq::<u64>::empty(),
    {
        LatencyHistogram::new()
    }
}

} // verus!
