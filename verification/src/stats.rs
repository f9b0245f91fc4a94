//! Online statistics for one measured entity.
//!
//! An accumulator folds observations in one at a time. Count, total, minimum
//! and maximum are exact. Percentiles are estimated from a histogram whose
//! buckets double in width, so that two accumulators can be merged without
//! going back to the observations.

use vstd::prelude::*;

verus! {

/// Number of histogram buckets: one for zero, one for each bit length.
pub const BUCKETS: usize = 65;

/// Sum of the observations.
pub open spec fn total_of(s: Seq<u64>) -> int
    decreases s.len(),
{
    if s.len() == 0 {
        0
    } else {
        total_of(s.drop_last()) + s.last()
    }
}

/// Smallest observation; `u64::MAX` where there is none.
pub open spec fn min_of(s: Seq<u64>) -> int
    decreases s.len(),
{
    if s.len() == 0 {
        u64::MAX as int
    } else if s.last() < min_of(s.drop_last()) {
        s.last() as int
    } else {
        min_of(s.drop_last())
    }
}

/// Largest observation; 0 where there is none.
pub open spec fn max_of(s: Seq<u64>) -> int
    decreases s.len(),
{
    if s.len() == 0 {
        0
    } else if s.last() > max_of(s.drop_last()) {
        s.last() as int
    } else {
        max_of(s.drop_last())
    }
}

/// Number of observations that are at most `bound`.
pub open spec fn count_le(s: Seq<u64>, bound: int) -> int
    decreases s.len(),
{
    if s.len() == 0 {
        0
    } else {
        count_le(s.drop_last(), bound) + if s.last() <= bound {
            1int
        } else {
            0int
        }
    }
}

/// Number of binary digits of `d`: 0 for 0, and one more for each doubling.
pub open spec fn bit_len(d: int) -> int
    decreases d,
{
    if d <= 0 {
        0
    } else {
        1 + bit_len(d / 2)
    }
}

/// Largest value of bit length `b`: two to the power `b`, minus one.
pub open spec fn bucket_upper(b: int) -> int
    decreases b,
{
    if b <= 0 {
        0
    } else {
        2 * bucket_upper(b - 1) + 1
    }
}

/// Number of observations whose bit length is `b`.
pub open spec fn count_in_bucket(s: Seq<u64>, b: int) -> int
    decreases s.len(),
{
    if s.len() == 0 {
        0
    } else {
        count_in_bucket(s.drop_last(), b) + if bit_len(s.last() as int) == b {
            1int
        } else {
            0int
        }
    }
}

/// Number of observations whose bit length is below `b`.
pub open spec fn count_below_bucket(s: Seq<u64>, b: int) -> int
    decreases b,
{
    if b <= 0 {
        0
    } else {
        count_below_bucket(s, b - 1) + count_in_bucket(s, b - 1)
    }
}

/// The rank that a percentile asks for among `n` observations: the least
/// number of observations that make up `percent` per cent of them, and at
/// least one.
pub open spec fn rank_of(n: int, percent: int) -> int {
    let r = (n * percent + 99) / 100;
    if r < 1 {
        1
    } else {
        r
    }
}

/// The smallest and the largest observation are observations, every other
/// lies between them, and the total is at most as many times `u64::MAX` as
/// there are observations.
pub proof fn lemma_min_max_bound(s: Seq<u64>)
    ensures
        0 <= max_of(s) <= u64::MAX,
        0 <= min_of(s) <= u64::MAX,
        0 <= total_of(s) <= s.len() * u64::MAX,
        forall|i: int| 0 <= i < s.len() ==> min_of(s) <= #[trigger] s[i] <= max_of(s),
        s.len() > 0 ==> exists|i: int| 0 <= i < s.len() && s[i] == min_of(s),
        s.len() > 0 ==> exists|i: int| 0 <= i < s.len() && s[i] == max_of(s),
    decreases s.len(),
{
    if s.len() > 0 {
        let t = s.drop_last();
        lemma_min_max_bound(t);
        assert(s.len() * u64::MAX == t.len() * u64::MAX + u64::MAX) by (nonlinear_arith)
            requires
                s.len() == t.len() + 1,
        ;
        assert forall|i: int| 0 <= i < s.len() implies min_of(s) <= #[trigger] s[i] <= max_of(
            s,
        ) by {
            if i < t.len() {
                assert(t[i] == s[i]);
            }
        }
        if t.len() == 0 {
            assert(s[0] == min_of(s));
            assert(s[0] == max_of(s));
        } else {
            let i = choose|i: int| 0 <= i < t.len() && t[i] == min_of(t);
            assert(s[i] == t[i]);
            let j = choose|j: int| 0 <= j < t.len() && t[j] == max_of(t);
            assert(s[j] == t[j]);
            let k = s.len() - 1;
            assert(s[k] == s.last());
            assert(s[i] == min_of(s) || s[k] == min_of(s));
            assert(s[j] == max_of(s) || s[k] == max_of(s));
        }
    }
}

/// A value is at most the largest of bit length `b` exactly when its own bit
/// length is at most `b`.
pub proof fn lemma_bit_len_bound(d: int, b: int)
    requires
        0 <= d,
        0 <= b,
    ensures
        d <= bucket_upper(b) <==> bit_len(d) <= b,
        0 <= bit_len(d),
        0 <= bucket_upper(b),
    decreases b,
{
    lemma_bit_len_nonneg(d);
    if b > 0 {
        lemma_bit_len_bound(d / 2, b - 1);
    }
}

/// A bit length is never negative, and at least 1 for a positive value.
pub proof fn lemma_bit_len_nonneg(d: int)
    ensures
        0 <= bit_len(d),
        d > 0 ==> bit_len(d) >= 1,
    decreases d,
{
    if d > 0 {
        lemma_bit_len_nonneg(d / 2);
    }
}

/// The largest 64-bit value has bit length 64, so every observation falls into
/// one of the buckets.
pub proof fn lemma_bucket_upper_64()
    ensures
        bucket_upper(64) == u64::MAX,
        bucket_upper(8) == 0xff,
        bucket_upper(16) == 0xffff,
        bucket_upper(32) == 0xffff_ffff,
{
    reveal_with_fuel(bucket_upper, 9);
    assert(bucket_upper(8) == 0xff);
    assert(bucket_upper(16) == 0xffff);
    assert(bucket_upper(24) == 0xff_ffff);
    assert(bucket_upper(32) == 0xffff_ffff);
    assert(bucket_upper(40) == 0xff_ffff_ffff);
    assert(bucket_upper(48) == 0xffff_ffff_ffff);
    assert(bucket_upper(56) == 0xff_ffff_ffff_ffff);
    assert(bucket_upper(64) == 0xffff_ffff_ffff_ffff);
}

/// Bit length of a 64-bit value.
pub fn bit_length(d: u64) -> (b: usize)
    ensures
        b == bit_len(d as int),
        b <= 64,
{
    let mut x: u64 = d;
    let mut b: usize = 0;
    proof {
        lemma_bucket_upper_64();
        lemma_bit_len_bound(d as int, 64);
    }
    while x > 0
        invariant
            b + bit_len(x as int) == bit_len(d as int),
            bit_len(d as int) <= 64,
        decreases x,
    {
        proof {
            lemma_bit_len_nonneg((x / 2) as int);
        }
        x = x / 2;
        b = b + 1;
    }
    b
}

/// The observations after one more is folded in: it is appended, unless
/// `u64::MAX` observations are held already, in which case it is dropped.
pub open spec fn recorded(s: Seq<u64>, value: u64) -> Seq<u64> {
    if s.len() < u64::MAX {
        s.push(value)
    } else {
        s
    }
}

/// The observations after each of `values` is folded in, in order.
pub open spec fn recorded_all(s: Seq<u64>, values: Seq<u64>) -> Seq<u64>
    decreases values.len(),
{
    if values.len() == 0 {
        s
    } else {
        recorded(recorded_all(s, values.drop_last()), values.last())
    }
}

/// The running statistics of one entity.
pub struct StatAccumulator {
    count: u64,
    total: u128,
    min: u64,
    max: u64,
    buckets: Vec<u64>,
    seen: Ghost<Seq<u64>>,
}

impl View for StatAccumulator {
    type V = Seq<u64>;

    /// The observations folded in so far, oldest first.
    closed spec fn view(&self) -> Seq<u64> {
        self.seen@
    }
}

impl StatAccumulator {
    /// The counters agree with the observations folded in.
    pub closed spec fn wf(&self) -> bool {
        &&& self.count == self@.len()
        &&& self.total == total_of(self@)
        &&& self.count > 0 ==> self.min == min_of(self@) && self.max == max_of(self@)
        &&& self.count == 0 ==> self.min == 0 && self.max == 0
        &&& self.buckets@.len() == BUCKETS
        &&& forall|b: int|
            0 <= b < BUCKETS ==> #[trigger] self.buckets@[b] == count_in_bucket(self@, b)
    }

    /// An accumulator that has seen nothing.
    pub fn new() -> (r: StatAccumulator)
        ensures
            r.wf(),
            r@ == Seq::<u64>::empty(),
    {
        let mut buckets: Vec<u64> = Vec::new();
        let mut i: usize = 0;
        while i < BUCKETS
            invariant
                i <= BUCKETS,
                buckets@.len() == i,
                forall|b: int| 0 <= b < i ==> #[trigger] buckets@[b] == 0,
            decreases BUCKETS - i,
        {
            buckets.push(0);
            i = i + 1;
        }
        StatAccumulator { count: 0, total: 0, min: 0, max: 0, buckets, seen: Ghost(Seq::empty()) }
    }

    /// Folds one observation in. An accumulator that already holds
    /// `u64::MAX` observations drops it and reports `false`.
    pub fn record(&mut self, value: u64) -> (kept: bool)
        requires
            old(self).wf(),
        ensures
            final(self).wf(),
            kept == (old(self)@.len() < u64::MAX),
            final(self)@ == recorded(old(self)@, value),
    {
        if self.count == u64::MAX {
            return false;
        }
        let b = bit_length(value);
        proof {
            let s = self@;
            let t = s.push(value);
            assert(t.drop_last() =~= s);
            lemma_min_max_bound(s);
            assert(s.len() * u64::MAX + u64::MAX <= u64::MAX * u64::MAX) by (nonlinear_arith)
                requires
                    s.len() < u64::MAX,
            ;
            lemma_count_in_bucket_bound(t, b as int);
        }
        if self.count == 0 {
            self.min = value;
            self.max = value;
        } else {
            if value < self.min {
                self.min = value;
            }
            if value > self.max {
                self.max = value;
            }
        }
        self.count = self.count + 1;
        self.total = self.total + value as u128;
        let n = self.buckets[b];
        self.buckets.set(b, n + 1);
        self.seen = Ghost(self.seen@.push(value));
        true
    }
}

/// No bucket holds more observations than there are.
pub proof fn lemma_count_in_bucket_bound(s: Seq<u64>, b: int)
    ensures
        0 <= count_in_bucket(s, b) <= s.len(),
    decreases s.len(),
{
    if s.len() > 0 {
        lemma_count_in_bucket_bound(s.drop_last(), b);
    }
}

/// At most every observation is counted, and a larger bound counts no fewer.
pub proof fn lemma_count_le_monotone(s: Seq<u64>, lo: int, hi: int)
    requires
        lo <= hi,
    ensures
        0 <= count_le(s, lo) <= count_le(s, hi) <= s.len(),
        hi >= max_of(s) ==> count_le(s, hi) == s.len(),
    decreases s.len(),
{
    if s.len() > 0 {
        lemma_count_le_monotone(s.drop_last(), lo, hi);
    }
}

/// What one more observation adds to the buckets below `k`.
pub proof fn lemma_count_below_push(s: Seq<u64>, x: u64, k: int)
    ensures
        count_below_bucket(s.push(x), k) == count_below_bucket(s, k) + if k > 0 && bit_len(
            x as int,
        ) < k {
            1int
        } else {
            0int
        },
    decreases k,
{
    lemma_bit_len_nonneg(x as int);
    if k > 0 {
        lemma_count_below_push(s, x, k - 1);
        assert(s.push(x).drop_last() =~= s);
    }
}

/// The buckets up to `b` hold exactly the observations that are at most the
/// largest value of bit length `b`.
pub proof fn lemma_count_below_is_count_le(s: Seq<u64>, b: int)
    requires
        0 <= b,
    ensures
        count_below_bucket(s, b + 1) == count_le(s, bucket_upper(b)),
    decreases s.len(),
{
    if s.len() == 0 {
        assert(s =~= Seq::<u64>::empty());
        lemma_count_below_empty(b + 1);
    } else {
        let t = s.drop_last();
        let x = s.last();
        assert(t.push(x) =~= s);
        lemma_count_below_is_count_le(t, b);
        lemma_count_below_push(t, x, b + 1);
        lemma_bit_len_bound(x as int, b);
    }
}

/// Without observations every bucket is empty.
pub proof fn lemma_count_below_empty(k: int)
    ensures
        count_below_bucket(Seq::<u64>::empty(), k) == 0,
    decreases k,
{
    if k > 0 {
        lemma_count_below_empty(k - 1);
    }
}

/// Larger bit lengths have larger largest values.
pub proof fn lemma_bucket_upper_monotone(b: int, c: int)
    requires
        b <= c,
    ensures
        0 <= bucket_upper(b) <= bucket_upper(c),
        0 < b < c ==> bucket_upper(b) < bucket_upper(c),
    decreases c,
{
    if c > 0 && b < c {
        lemma_bucket_upper_monotone(b, c - 1);
    } else if c > 0 {
        lemma_bucket_upper_monotone(b - 1, c - 1);
    }
}

/// The first bucket from `b` on at which the buckets so far hold `rank`
/// observations; the last bucket where none does.
pub open spec fn bucket_at_rank(s: Seq<u64>, rank: int, b: int) -> int
    decreases 64 - b,
{
    if b >= 64 {
        64
    } else if count_below_bucket(s, b + 1) >= rank {
        b
    } else {
        bucket_at_rank(s, rank, b + 1)
    }
}

/// The estimate of a percentile: the largest value of the bucket in which the
/// observation of that rank lies, but no more than the largest observation.
/// A percentile above 100 counts as 100; without observations it is 0.
pub open spec fn percentile_of(s: Seq<u64>, percent: int) -> int {
    if s.len() == 0 {
        0
    } else {
        let p = if percent > 100 {
            100
        } else {
            percent
        };
        let upper = bucket_upper(bucket_at_rank(s, rank_of(s.len() as int, p), 0));
        if upper > max_of(s) {
            max_of(s)
        } else {
            upper
        }
    }
}

/// The mean, rounded down; 0 without observations.
pub open spec fn mean_of(s: Seq<u64>) -> int {
    if s.len() == 0 {
        0
    } else {
        total_of(s) / (s.len() as int)
    }
}

/// A point-in-time copy of an accumulator's statistics.
#[derive(Clone, Copy, Debug, PartialEq, Eq, Structural)]
pub struct StatSummary {
    pub count: u64,
    pub total: u128,
    pub min: u64,
    pub max: u64,
    pub mean: u64,
    pub p50: u64,
    pub p90: u64,
    pub p99: u64,
}

/// The summary of a sequence of observations. Without observations every
/// field is 0.
pub open spec fn summary_of(s: Seq<u64>) -> StatSummary {
    StatSummary {
        count: s.len() as u64,
        total: total_of(s) as u128,
        min: if s.len() == 0 {
            0
        } else {
            min_of(s) as u64
        },
        max: max_of(s) as u64,
        mean: mean_of(s) as u64,
        p50: percentile_of(s, 50) as u64,
        p90: percentile_of(s, 90) as u64,
        p99: percentile_of(s, 99) as u64,
    }
}

impl StatAccumulator {
    /// Number of observations.
    pub fn count(&self) -> (r: u64)
        requires
            self.wf(),
        ensures
            r == self@.len(),
    {
        self.count
    }

    /// Sum of the observations.
    pub fn total(&self) -> (r: u128)
        requires
            self.wf(),
        ensures
            r == total_of(self@),
    {
        self.total
    }

    /// Smallest observation, if there is one.
    pub fn min(&self) -> (r: Option<u64>)
        requires
            self.wf(),
        ensures
            self@.len() == 0 ==> r.is_none(),
            self@.len() > 0 ==> r == Some(min_of(self@) as u64),
    {
        proof {
            lemma_min_max_bound(self@);
        }
        if self.count == 0 {
            None
        } else {
            Some(self.min)
        }
    }

    /// Largest observation, if there is one.
    pub fn max(&self) -> (r: Option<u64>)
        requires
            self.wf(),
        ensures
            self@.len() == 0 ==> r.is_none(),
            self@.len() > 0 ==> r == Some(max_of(self@) as u64),
    {
        proof {
            lemma_min_max_bound(self@);
        }
        if self.count == 0 {
            None
        } else {
            Some(self.max)
        }
    }

    /// Mean of the observations, rounded down; 0 where there is none.
    pub fn mean(&self) -> (r: u64)
        requires
            self.wf(),
        ensures
            r == mean_of(self@),
    {
        if self.count == 0 {
            0
        } else {
            proof {
                lemma_min_max_bound(self@);
                let n = self@.len() as int;
                let t = total_of(self@);
                assert(t / n <= u64::MAX) by (nonlinear_arith)
                    requires
                        0 <= t <= n * u64::MAX,
                        n > 0,
                ;
                assert(0 <= t / n) by (nonlinear_arith)
                    requires
                        0 <= t,
                        n > 0,
                ;
            }
            let m: u128 = self.total / (self.count as u128);
            m as u64
        }
    }

    /// Estimate of a percentile.
    pub fn percentile(&self, percent: u64) -> (r: u64)
        requires
            self.wf(),
        ensures
            r == percentile_of(self@, percent as int),
    {
        if self.count == 0 {
            return 0;
        }
        let p: u64 = if percent > 100 {
            100
        } else {
            percent
        };
        assert(self.count * p <= u64::MAX * 100) by (nonlinear_arith)
            requires
                p <= 100,
                self.count <= u64::MAX,
        ;
        let scaled: u128 = (self.count as u128) * (p as u128) + 99;
        let mut rank: u128 = scaled / 100;
        if rank < 1 {
            rank = 1;
        }
        assert(rank == rank_of(self@.len() as int, p as int));
        let mut b: usize = 0;
        let mut below: u64 = 0;
        let mut upper: u64 = 0;
        proof {
            lemma_bucket_upper_64();
        }
        while b < 64
            invariant
                self.wf(),
                0 <= b <= 64,
                below == count_below_bucket(self@, b as int),
                upper == bucket_upper(b as int),
                bucket_upper(64) == u64::MAX,
                bucket_at_rank(self@, rank as int, 0) == bucket_at_rank(self@, rank as int, b as int),
            ensures
                0 <= b <= 64,
                upper == bucket_upper(b as int),
                b == bucket_at_rank(self@, rank as int, 0),
            decreases 64 - b,
        {
            proof {
                lemma_count_below_is_count_le(self@, b as int);
                lemma_count_le_monotone(self@, bucket_upper(b as int), bucket_upper(b as int));
                lemma_bucket_upper_monotone(b as int + 1, 64);
            }
            let through: u64 = below + self.buckets[b];
            if through as u128 >= rank {
                break;
            }
            below = through;
            upper = 2 * upper + 1;
            b = b + 1;
        }
        if upper > self.max {
            self.max
        } else {
            upper
        }
    }

    /// Copies the statistics out.
    pub fn summary(&self) -> (r: StatSummary)
        requires
            self.wf(),
        ensures
            r == summary_of(self@),
    {
        proof {
            lemma_min_max_bound(self@);
        }
        StatSummary {
            count: self.count,
            total: self.total,
            min: self.min,
            max: self.max,
            mean: self.mean(),
            p50: self.percentile(50),
            p90: self.percentile(90),
            p99: self.percentile(99),
        }
    }
}

/// Folding observations into a fresh accumulator one by one leaves exactly
/// those observations, so that the summary counts each of them, adds all of
/// them up, and reports the smallest and the largest among them.
pub proof fn law_summary_is_exact(values: Seq<u64>)
    requires
        values.len() <= u64::MAX,
    ensures
        recorded_all(Seq::<u64>::empty(), values) == values,
        summary_of(values).count == values.len(),
        summary_of(values).total == total_of(values),
        forall|i: int|
            0 <= i < values.len() ==> summary_of(values).min <= #[trigger] values[i]
                <= summary_of(values).max,
        values.len() > 0 ==> exists|i: int|
            0 <= i < values.len() && values[i] == summary_of(values).min,
        values.len() > 0 ==> exists|i: int|
            0 <= i < values.len() && values[i] == summary_of(values).max,
    decreases values.len(),
{
    lemma_min_max_bound(values);
    assert(values.len() * u64::MAX <= u64::MAX * u64::MAX) by (nonlinear_arith)
        requires
            values.len() <= u64::MAX,
    ;
    if values.len() > 0 {
        law_summary_is_exact(values.drop_last());
        assert(values.drop_last().push(values.last()) =~= values);
    }
}

/// The count of a summary grows by one with each observation folded in.
pub proof fn law_count_increases(s: Seq<u64>, value: u64)
    requires
        s.len() < u64::MAX,
    ensures
        summary_of(recorded(s, value)).count == summary_of(s).count + 1,
{
}

/// Below the smallest observation nothing is counted.
pub proof fn lemma_count_le_below_min(s: Seq<u64>, bound: int)
    requires
        bound < min_of(s),
    ensures
        count_le(s, bound) == 0,
    decreases s.len(),
{
    if s.len() > 0 {
        lemma_count_le_below_min(s.drop_last(), bound);
    }
}

/// Where the search for a rank ends: the buckets before it hold fewer than
/// `rank` observations, and unless it is the last bucket, those up to it hold
/// at least `rank`.
pub proof fn lemma_bucket_at_rank(s: Seq<u64>, rank: int, b: int)
    requires
        0 <= b <= 64,
        rank >= 1,
        count_below_bucket(s, b) < rank,
    ensures
        b <= bucket_at_rank(s, rank, b) <= 64,
        count_below_bucket(s, bucket_at_rank(s, rank, b)) < rank,
        bucket_at_rank(s, rank, b) < 64 ==> count_below_bucket(
            s,
            bucket_at_rank(s, rank, b) + 1,
        ) >= rank,
    decreases 64 - b,
{
    if b < 64 && count_below_bucket(s, b + 1) < rank {
        lemma_bucket_at_rank(s, rank, b + 1);
    }
}

/// How far a percentile estimate can be from the truth. The estimate lies
/// between the smallest and the largest observation; at least as many
/// observations as the percentile's rank are at most the estimate; and fewer
/// than that are at most half of it. The observation of that rank is
/// therefore more than half the estimate and at most the estimate.
pub proof fn law_percentile_error(s: Seq<u64>, percent: int)
    requires
        s.len() > 0,
        0 <= percent <= 100,
    ensures
        min_of(s) <= percentile_of(s, percent) <= max_of(s),
        1 <= rank_of(s.len() as int, percent) <= s.len(),
        count_le(s, percentile_of(s, percent)) >= rank_of(s.len() as int, percent),
        percentile_of(s, percent) > 0 ==> count_le(s, percentile_of(s, percent) / 2) < rank_of(
            s.len() as int,
            percent,
        ),
{
    let n = s.len() as int;
    let rank = rank_of(n, percent);
    assert(n * percent <= n * 100) by (nonlinear_arith)
        requires
            n > 0,
            0 <= percent <= 100,
    ;
    assert(0 <= n * percent) by (nonlinear_arith)
        requires
            n > 0,
            0 <= percent,
    ;
    let b = bucket_at_rank(s, rank, 0);
    let e = percentile_of(s, percent);
    lemma_bucket_at_rank(s, rank, 0);
    lemma_bucket_upper_64();
    lemma_min_max_bound(s);
    lemma_count_below_is_count_le(s, b);
    lemma_bucket_upper_monotone(b, 64);
    lemma_count_le_monotone(s, max_of(s), max_of(s));
    if b == 64 {
        lemma_count_le_monotone(s, bucket_upper(64), bucket_upper(64));
    }
    assert(count_le(s, bucket_upper(b)) >= rank);
    assert(count_le(s, e) >= rank);
    if e < min_of(s) {
        lemma_count_le_below_min(s, e);
    }
    if e > 0 {
        assert(b >= 1);
        lemma_count_below_is_count_le(s, b - 1);
        lemma_count_le_monotone(s, e / 2, bucket_upper(b - 1));
    }
}

/// The statistics of two runs of observations put end to end.
pub proof fn lemma_concat(a: Seq<u64>, b: Seq<u64>)
    ensures
        total_of(a + b) == total_of(a) + total_of(b),
        min_of(a + b) == if min_of(a) < min_of(b) {
            min_of(a)
        } else {
            min_of(b)
        },
        max_of(a + b) == if max_of(a) > max_of(b) {
            max_of(a)
        } else {
            max_of(b)
        },
    decreases b.len(),
{
    if b.len() == 0 {
        assert(a + b =~= a);
    } else {
        assert((a + b).drop_last() =~= a + b.drop_last());
        lemma_concat(a, b.drop_last());
    }
}

/// A bucket of two runs put end to end holds what it holds of each.
pub proof fn lemma_concat_bucket(a: Seq<u64>, b: Seq<u64>, k: int)
    ensures
        count_in_bucket(a + b, k) == count_in_bucket(a, k) + count_in_bucket(b, k),
    decreases b.len(),
{
    if b.len() == 0 {
        assert(a + b =~= a);
    } else {
        assert((a + b).drop_last() =~= a + b.drop_last());
        lemma_concat_bucket(a, b.drop_last(), k);
    }
}

impl StatAccumulator {
    /// Folds in all that another accumulator has seen, as if its observations
    /// had come after this one's. Where the two together hold more than
    /// `u64::MAX` observations nothing is merged, and the result is `false`.
    pub fn merge(&mut self, other: &StatAccumulator) -> (merged: bool)
        requires
            old(self).wf(),
            other.wf(),
        ensures
            final(self).wf(),
            merged == (old(self)@.len() + other@.len() <= u64::MAX),
            merged ==> final(self)@ == old(self)@ + other@,
            !merged ==> final(self)@ == old(self)@,
    {
        if other.count > u64::MAX - self.count {
            return false;
        }
        if other.count == 0 {
            proof {
                assert(other@ =~= Seq::<u64>::empty());
                assert(self@ + other@ =~= self@);
            }
            return true;
        }
        let ghost a = self@;
        let ghost b = other@;
        proof {
            lemma_concat(a, b);
            lemma_min_max_bound(a);
            lemma_min_max_bound(b);
            lemma_min_max_bound(a + b);
            assert((a + b).len() * u64::MAX <= u64::MAX * u64::MAX) by (nonlinear_arith)
                requires
                    (a + b).len() <= u64::MAX,
            ;
        }
        let mut i: usize = 0;
        while i < BUCKETS
            invariant
                0 <= i <= BUCKETS,
                other.wf(),
                b == other@,
                (a + b).len() <= u64::MAX,
                b.len() > 0,
                self.count == a.len(),
                self.total == total_of(a),
                a.len() > 0 ==> self.min == min_of(a) && self.max == max_of(a),
                total_of(a + b) == total_of(a) + total_of(b),
                total_of(a + b) <= u64::MAX * u64::MAX,
                self.buckets@.len() == BUCKETS,
                forall|k: int| 0 <= k < i ==> #[trigger] self.buckets@[k] == count_in_bucket(a + b, k),
                forall|k: int|
                    i <= k < BUCKETS ==> #[trigger] self.buckets@[k] == count_in_bucket(a, k),
            decreases BUCKETS - i,
        {
            proof {
                lemma_concat_bucket(a, b, i as int);
                lemma_count_in_bucket_bound(a + b, i as int);
            }
            let n: u64 = self.buckets[i] + other.buckets[i];
            self.buckets.set(i, n);
            i = i + 1;
        }
        if self.count == 0 {
            self.min = other.min;
            self.max = other.max;
        } else {
            if other.min < self.min {
                self.min = other.min;
            }
            if other.max > self.max {
                self.max = other.max;
            }
        }
        self.count = self.count + other.count;
        self.total = self.total + other.total;
        self.seen = Ghost(a + b);
        true
    }
}

} // verus!
