//! Lane-grouped exact statistics over integer samples.
//!
//! Every quantity here is exact: a summary carries the sample count, the
//! sum, the sum of squares and the extrema of a sequence of `u64` samples.
//! Mean, variance and standard deviation are derived from these by the
//! presentation layer; the summary itself is proved equal to the naive
//! mathematical definitions, while the implementation accumulates in
//! fixed-width lane groups with a scalar remainder pass.

use vstd::prelude::*;

use crate::ratio::checked_mul_u128;
use crate::ratio::Ratio;

verus! {

/// Largest admissible sample value (2^46). Packet lengths are at most
/// 65535 and time deltas within one flow are capped well below this, so
/// sums of squares of up to 2^32 samples fit comfortably in `u128`.
pub const SAMPLE_LIMIT: u64 = 0x4000_0000_0000;

/// Largest admissible number of samples in one summary (2^32).
pub const COUNT_LIMIT: u64 = 0x1_0000_0000;

/// Sum of a sequence of samples.
pub open spec fn seq_sum(s: Seq<u64>) -> int
    decreases s.len(),
{
    if s.len() == 0 {
        0
    } else {
        seq_sum(s.drop_last()) + s.last()
    }
}

/// Sum of the squares of a sequence of samples.
pub open spec fn seq_sum_sq(s: Seq<u64>) -> int
    decreases s.len(),
{
    if s.len() == 0 {
        0
    } else {
        seq_sum_sq(s.drop_last()) + s.last() * s.last()
    }
}

/// Least sample of a sequence, 0 when the sequence is empty.
pub open spec fn seq_min(s: Seq<u64>) -> int
    decreases s.len(),
{
    if s.len() == 0 {
        0
    } else if s.len() == 1 {
        s.last() as int
    } else if s.last() < seq_min(s.drop_last()) {
        s.last() as int
    } else {
        seq_min(s.drop_last())
    }
}

/// Greatest sample of a sequence, 0 when the sequence is empty.
pub open spec fn seq_max(s: Seq<u64>) -> int
    decreases s.len(),
{
    if s.len() == 0 {
        0
    } else if s.last() > seq_max(s.drop_last()) {
        s.last() as int
    } else {
        seq_max(s.drop_last())
    }
}

proof fn lemma_take_one_more(s: Seq<u64>, i: int)
    requires
        0 <= i < s.len(),
    ensures
        s.take(i + 1).drop_last() == s.take(i),
        s.take(i + 1).last() == s[i],
{
    assert(s.take(i + 1).drop_last() =~= s.take(i));
}

/// How each summary statistic of a prefix changes when the prefix grows
/// by one sample.
pub proof fn lemma_stats_step(s: Seq<u64>, i: int)
    requires
        0 <= i < s.len(),
    ensures
        seq_sum(s.take(i + 1)) == seq_sum(s.take(i)) + s[i],
        seq_sum_sq(s.take(i + 1)) == seq_sum_sq(s.take(i)) + s[i] * s[i],
        i == 0 ==> seq_min(s.take(i + 1)) == s[i],
        i == 0 ==> seq_max(s.take(i + 1)) == s[i],
        i >= 1 ==> seq_min(s.take(i + 1)) == (if s[i] < seq_min(s.take(i)) {
            s[i] as int
        } else {
            seq_min(s.take(i))
        }),
        i >= 1 ==> seq_max(s.take(i + 1)) == (if s[i] > seq_max(s.take(i)) {
            s[i] as int
        } else {
            seq_max(s.take(i))
        }),
{
    lemma_take_one_more(s, i);
    let t = s.take(i + 1);
    assert(t.len() == i + 1);
    assert(seq_sum(t) == seq_sum(t.drop_last()) + t.last());
    assert(seq_sum_sq(t) == seq_sum_sq(t.drop_last()) + t.last() * t.last());
    if i == 0 {
        assert(t.len() == 1);
        assert(seq_min(t) == t.last() as int);
        assert(t.drop_last().len() == 0);
        assert(seq_max(t.drop_last()) == 0);
        assert(seq_max(t) == if t.last() > 0 { t.last() as int } else { 0int });
    } else {
        assert(seq_min(t) == if t.last() < seq_min(t.drop_last()) {
            t.last() as int
        } else {
            seq_min(t.drop_last())
        });
        assert(seq_max(t) == if t.last() > seq_max(t.drop_last()) {
            t.last() as int
        } else {
            seq_max(t.drop_last())
        });
    }
}

/// Exact summary of a sequence of samples.
#[derive(Clone, Copy, Debug, PartialEq, Eq, Structural)]
pub struct StatsSummary {
    pub count: u64,
    pub sum: u128,
    pub sum_sq: u128,
    pub min_v: u64,
    pub max_v: u64,
}

impl StatsSummary {
    /// The summary that exactly describes `s`.
    pub open spec fn models(self, s: Seq<u64>) -> bool {
        &&& self.count == s.len()
        &&& self.sum == seq_sum(s)
        &&& self.sum_sq == seq_sum_sq(s)
        &&& self.min_v == seq_min(s)
        &&& self.max_v == seq_max(s)
    }

    /// Mean of the summarized samples as an exact rational; zero when
    /// no sample was seen, so an empty direction never yields NaN.
    pub fn mean_ratio(&self) -> (r: Ratio)
        ensures
            self.count == 0 ==> r == Ratio::spec_zero(),
            self.count > 0 ==> r == (Ratio { num: self.sum, den: self.count as u128 }),
            r.wf(),
    {
        Ratio::frac_or_zero(self.sum, self.count as u128)
    }

    /// Bessel-corrected sample variance as an exact rational:
    /// `(n * sum_sq - sum^2) / (n * (n - 1))` for `n >= 2`, and zero for
    /// `n <= 1` or in the (unreachable for admissible samples) cases where
    /// an intermediate product leaves `u128`.
    pub fn variance_ratio(&self) -> (r: Ratio)
        ensures
            self.count <= 1 ==> r == Ratio::spec_zero(),
            self.count > 1 && self.count * self.sum_sq <= u128::MAX && self.sum * self.sum
                <= u128::MAX && self.sum * self.sum <= self.count * self.sum_sq ==> r == (Ratio {
                num: (self.count * self.sum_sq - self.sum * self.sum) as u128,
                den: (self.count * (self.count - 1)) as u128,
            }),
            self.count > 1 && (self.count * self.sum_sq > u128::MAX || self.sum * self.sum
                > u128::MAX || self.sum * self.sum > self.count * self.sum_sq) ==> r
                == Ratio::spec_zero(),
            r.wf(),
    {
        if self.count <= 1 {
            return Ratio::zero();
        }
        let n = self.count as u128;
        let nss = match checked_mul_u128(n, self.sum_sq) {
            Some(v) => v,
            None => {
                return Ratio::zero();
            },
        };
        let ss = match checked_mul_u128(self.sum, self.sum) {
            Some(v) => v,
            None => {
                return Ratio::zero();
            },
        };
        if ss > nss {
            return Ratio::zero();
        }
        proof {
            assert(self.count as int * (self.count - 1) < u128::MAX) by (nonlinear_arith)
                requires 1 < self.count <= u64::MAX;
            assert(self.count as int * (self.count - 1) >= 2) by (nonlinear_arith)
                requires 1 < self.count;
        }
        Ratio { num: nss - ss, den: n * (n - 1) }
    }
}

impl Default for StatsSummary {
    /// The summary of the empty sequence: everything is zero.
    fn default() -> (r: Self)
        ensures
            r.models(Seq::<u64>::empty()),
    {
        StatsSummary { count: 0, sum: 0, sum_sq: 0, min_v: 0, max_v: 0 }
    }
}

/// All samples admissible and the sequence short enough that every
/// accumulated quantity fits its carrier type.
pub open spec fn samples_ok(s: Seq<u64>) -> bool {
    &&& s.len() <= COUNT_LIMIT
    &&& forall|i: int| 0 <= i < s.len() ==> s[i] <= SAMPLE_LIMIT
}

/// Bounds on the accumulated sums that follow from `samples_ok`.
pub proof fn lemma_sum_bounds(s: Seq<u64>)
    requires
        forall|i: int| 0 <= i < s.len() ==> s[i] <= SAMPLE_LIMIT,
    ensures
        0 <= seq_sum(s) <= s.len() * SAMPLE_LIMIT,
        0 <= seq_sum_sq(s) <= s.len() * (SAMPLE_LIMIT * SAMPLE_LIMIT),
    decreases s.len(),
{
    if s.len() > 0 {
        lemma_sum_bounds(s.drop_last());
        assert(s.last() * s.last() <= SAMPLE_LIMIT * SAMPLE_LIMIT) by (nonlinear_arith)
            requires 0 <= s.last() <= SAMPLE_LIMIT;
        assert((s.len() - 1) * SAMPLE_LIMIT + SAMPLE_LIMIT == s.len() * SAMPLE_LIMIT)
            by (nonlinear_arith);
        assert((s.len() - 1) * (SAMPLE_LIMIT * SAMPLE_LIMIT) + SAMPLE_LIMIT * SAMPLE_LIMIT
            == s.len() * (SAMPLE_LIMIT * SAMPLE_LIMIT)) by (nonlinear_arith);
    }
}

/// An admissible sequence stays admissible when cut to a prefix.
pub proof fn lemma_samples_ok_take(s: Seq<u64>, k: int)
    requires
        samples_ok(s),
        0 <= k <= s.len(),
    ensures
        samples_ok(s.take(k)),
{
    assert forall|i: int| 0 <= i < s.take(k).len() implies s.take(k)[i] <= SAMPLE_LIMIT by {
        assert(s.take(k)[i] == s[i]);
    }
}

/// Concrete carrier-type bounds on the sums of an admissible sequence.
pub proof fn lemma_sum_fits(s: Seq<u64>)
    requires
        samples_ok(s),
    ensures
        0 <= seq_sum(s) <= 0x4000_0000_0000_0000_0000,
        0 <= seq_sum_sq(s) <= 0x1000_0000_0000_0000_0000_0000_0000_0000,
{
    lemma_sum_bounds(s);
    assert(s.len() * SAMPLE_LIMIT <= 0x4000_0000_0000_0000_0000) by (nonlinear_arith)
        requires
            0 <= s.len() <= 0x1_0000_0000,
            SAMPLE_LIMIT == 0x4000_0000_0000,
    ;
    assert(s.len() * (SAMPLE_LIMIT * SAMPLE_LIMIT)
        <= 0x1000_0000_0000_0000_0000_0000_0000_0000) by (nonlinear_arith)
        requires
            0 <= s.len() <= 0x1_0000_0000,
            SAMPLE_LIMIT == 0x4000_0000_0000,
    ;
}

/// Bound the sum of a sequence by a uniform bound on its values.
pub proof fn lemma_sum_le(s: Seq<u64>, b: u64)
    requires
        forall|i: int| 0 <= i < s.len() ==> #[trigger] s[i] <= b,
    ensures
        0 <= seq_sum(s) <= s.len() * b,
    decreases s.len(),
{
    if s.len() > 0 {
        lemma_sum_le(s.drop_last(), b);
        assert((s.len() - 1) * b + b == s.len() * b) by (nonlinear_arith);
    }
}

/// The grouped numeric kernels: each one walks the samples four at a
/// time with independent accumulator lanes and finishes with a scalar
/// remainder pass, and each is proved to return exactly the value of
/// the corresponding naive definition.
pub struct SIMDFeatureCalculator;

impl SIMDFeatureCalculator {
    /// Sum of all samples, accumulated in four lanes plus a remainder pass.
    pub fn grouped_sum(values: &Vec<u64>) -> (r: u128)
        requires
            samples_ok(values@),
        ensures
            r == seq_sum(values@),
    {
        let n = values.len();
        let chunks = n / 4;
        let mut lane0: u128 = 0;
        let mut lane1: u128 = 0;
        let mut lane2: u128 = 0;
        let mut lane3: u128 = 0;
        let mut i: usize = 0;
        while i < chunks
            invariant
                samples_ok(values@),
                n == values@.len(),
                chunks == n / 4,
                i <= chunks,
                lane0 + lane1 + lane2 + lane3 == seq_sum(values@.take(4 * i as int)),
            decreases chunks - i,
        {
            let base = 4 * i;
            proof {
                lemma_stats_step(values@, base as int);
                lemma_stats_step(values@, base + 1);
                lemma_stats_step(values@, base + 2);
                lemma_stats_step(values@, base + 3);
                lemma_samples_ok_take(values@, base + 4);
                lemma_sum_fits(values@.take(base + 4));
            }
            lane0 = lane0 + values[base] as u128;
            lane1 = lane1 + values[base + 1] as u128;
            lane2 = lane2 + values[base + 2] as u128;
            lane3 = lane3 + values[base + 3] as u128;
            i = i + 1;
        }
        proof {
            lemma_samples_ok_take(values@, 4 * chunks as int);
            lemma_sum_fits(values@.take(4 * chunks as int));
        }
        let mut total: u128 = lane0 + lane1 + lane2 + lane3;
        let mut j: usize = 4 * chunks;
        while j < n
            invariant
                samples_ok(values@),
                n == values@.len(),
                4 * chunks <= j <= n,
                total == seq_sum(values@.take(j as int)),
            decreases n - j,
        {
            proof {
                lemma_stats_step(values@, j as int);
                lemma_samples_ok_take(values@, j + 1);
                lemma_sum_fits(values@.take(j + 1));
            }
            total = total + values[j] as u128;
            j = j + 1;
        }
        proof {
            assert(values@.take(n as int) =~= values@);
        }
        total
    }

    /// Sum of the squares of all samples, in the same grouped shape.
    pub fn grouped_sum_sq(values: &Vec<u64>) -> (r: u128)
        requires
            samples_ok(values@),
        ensures
            r == seq_sum_sq(values@),
    {
        let n = values.len();
        let chunks = n / 4;
        let mut lane0: u128 = 0;
        let mut lane1: u128 = 0;
        let mut lane2: u128 = 0;
        let mut lane3: u128 = 0;
        let mut i: usize = 0;
        while i < chunks
            invariant
                samples_ok(values@),
                n == values@.len(),
                chunks == n / 4,
                i <= chunks,
                lane0 + lane1 + lane2 + lane3 == seq_sum_sq(values@.take(4 * i as int)),
            decreases chunks - i,
        {
            let base = 4 * i;
            proof {
                lemma_stats_step(values@, base as int);
                lemma_stats_step(values@, base + 1);
                lemma_stats_step(values@, base + 2);
                lemma_stats_step(values@, base + 3);
                lemma_samples_ok_take(values@, base + 4);
                lemma_sum_fits(values@.take(base + 4));
            }
            let v0 = values[base] as u128;
            let v1 = values[base + 1] as u128;
            let v2 = values[base + 2] as u128;
            let v3 = values[base + 3] as u128;
            proof {
                assert(v0 * v0 <= SAMPLE_LIMIT * SAMPLE_LIMIT) by (nonlinear_arith)
                    requires 0 <= v0 <= SAMPLE_LIMIT;
                assert(v1 * v1 <= SAMPLE_LIMIT * SAMPLE_LIMIT) by (nonlinear_arith)
                    requires 0 <= v1 <= SAMPLE_LIMIT;
                assert(v2 * v2 <= SAMPLE_LIMIT * SAMPLE_LIMIT) by (nonlinear_arith)
                    requires 0 <= v2 <= SAMPLE_LIMIT;
                assert(v3 * v3 <= SAMPLE_LIMIT * SAMPLE_LIMIT) by (nonlinear_arith)
                    requires 0 <= v3 <= SAMPLE_LIMIT;
            }
            lane0 = lane0 + v0 * v0;
            lane1 = lane1 + v1 * v1;
            lane2 = lane2 + v2 * v2;
            lane3 = lane3 + v3 * v3;
            i = i + 1;
        }
        proof {
            lemma_samples_ok_take(values@, 4 * chunks as int);
            lemma_sum_fits(values@.take(4 * chunks as int));
        }
        let mut total: u128 = lane0 + lane1 + lane2 + lane3;
        let mut j: usize = 4 * chunks;
        while j < n
            invariant
                samples_ok(values@),
                n == values@.len(),
                4 * chunks <= j <= n,
                total == seq_sum_sq(values@.take(j as int)),
            decreases n - j,
        {
            proof {
                lemma_stats_step(values@, j as int);
                lemma_samples_ok_take(values@, j + 1);
                lemma_sum_fits(values@.take(j + 1));
            }
            let v = values[j] as u128;
            proof {
                assert(v * v <= SAMPLE_LIMIT * SAMPLE_LIMIT) by (nonlinear_arith)
                    requires 0 <= v <= SAMPLE_LIMIT;
            }
            total = total + v * v;
            j = j + 1;
        }
        proof {
            assert(values@.take(n as int) =~= values@);
        }
        total
    }

    /// Least and greatest sample, walking groups of four with a scalar
    /// remainder pass; both are 0 for an empty input.
    pub fn grouped_min_max(values: &Vec<u64>) -> (r: (u64, u64))
        ensures
            r.0 == seq_min(values@),
            r.1 == seq_max(values@),
    {
        let n = values.len();
        if n == 0 {
            return (0, 0);
        }
        let mut cur_min: u64 = values[0];
        let mut cur_max: u64 = values[0];
        proof {
            lemma_stats_step(values@, 0);
        }
        let chunks = (n - 1) / 4;
        let mut i: usize = 0;
        while i < chunks
            invariant
                n == values@.len(),
                1 <= n,
                chunks == (n - 1) / 4,
                i <= chunks,
                cur_min == seq_min(values@.take(1 + 4 * i as int)),
                cur_max == seq_max(values@.take(1 + 4 * i as int)),
            decreases chunks - i,
        {
            let base = 1 + 4 * i;
            let a = values[base];
            let b = values[base + 1];
            let c = values[base + 2];
            let d = values[base + 3];
            let lo = if a < b { a } else { b };
            let lo2 = if c < d { c } else { d };
            let glo = if lo < lo2 { lo } else { lo2 };
            let hi = if a > b { a } else { b };
            let hi2 = if c > d { c } else { d };
            let ghi = if hi > hi2 { hi } else { hi2 };
            proof {
                lemma_stats_step(values@, base as int);
                lemma_stats_step(values@, base + 1);
                lemma_stats_step(values@, base + 2);
                lemma_stats_step(values@, base + 3);
            }
            if glo < cur_min {
                cur_min = glo;
            }
            if ghi > cur_max {
                cur_max = ghi;
            }
            i = i + 1;
        }
        let mut j: usize = 1 + 4 * chunks;
        while j < n
            invariant
                n == values@.len(),
                1 <= j <= n,
                cur_min == seq_min(values@.take(j as int)),
                cur_max == seq_max(values@.take(j as int)),
            decreases n - j,
        {
            proof {
                lemma_stats_step(values@, j as int);
            }
            let v = values[j];
            if v < cur_min {
                cur_min = v;
            }
            if v > cur_max {
                cur_max = v;
            }
            j = j + 1;
        }
        proof {
            assert(values@.take(n as int) =~= values@);
        }
        (cur_min, cur_max)
    }
}

/// Exact summary of a sequence of samples, computed with the grouped
/// kernels; the result is proved equal to the naive definitions, so the
/// grouped pass and the scalar formulas can never drift apart.
pub fn calculate_stats(values: &Vec<u64>) -> (r: StatsSummary)
    requires
        samples_ok(values@),
    ensures
        r.models(values@),
{
    let (min_v, max_v) = SIMDFeatureCalculator::grouped_min_max(values);
    StatsSummary {
        count: values.len() as u64,
        sum: SIMDFeatureCalculator::grouped_sum(values),
        sum_sq: SIMDFeatureCalculator::grouped_sum_sq(values),
        min_v,
        max_v,
    }
}


/// Any two summaries of the same samples agree exactly: the grouped
/// lane pass and the naive scalar formulas can never drift apart.
pub proof fn lemma_summary_unique(a: StatsSummary, b: StatsSummary, s: Seq<u64>)
    requires
        a.models(s),
        b.models(s),
    ensures
        a == b,
{
}


/// Bound the sum of squares by a uniform bound on the values.
pub proof fn lemma_sum_sq_le(s: Seq<u64>, b: u64)
    requires
        forall|i: int| 0 <= i < s.len() ==> #[trigger] s[i] <= b,
    ensures
        0 <= seq_sum_sq(s) <= s.len() * (b * b),
    decreases s.len(),
{
    if s.len() > 0 {
        lemma_sum_sq_le(s.drop_last(), b);
        assert(s.last() * s.last() <= b * b) by (nonlinear_arith)
            requires 0 <= s.last() <= b;
        assert((s.len() - 1) * (b * b) + b * b == s.len() * (b * b)) by (nonlinear_arith);
    }
}

/// The Cauchy inequality for the summary's ingredients: the squared
/// sum never exceeds the count times the sum of squares, so the sample
/// variance numerator is never negative.
pub proof fn lemma_sum_sq_cauchy(s: Seq<u64>)
    ensures
        seq_sum(s) * seq_sum(s) <= s.len() * seq_sum_sq(s),
    decreases s.len(),
{
    if s.len() > 0 {
        let t = s.drop_last();
        let x = s.last() as int;
        let n = t.len() as int;
        let part_sum = seq_sum(t);
        let part_sq = seq_sum_sq(t);
        lemma_sum_sq_cauchy(t);
        lemma_sum_bounds_nonneg(t);
        if n == 0 {
            assert((part_sum + x) * (part_sum + x) <= (n + 1) * (part_sq + x * x))
                by (nonlinear_arith)
                requires
                    n == 0,
                    part_sum == 0,
                    part_sq == 0,
                    x >= 0,
            ;
        } else {
            assert(n * (part_sq + n * (x * x) - 2 * (part_sum * x)) >= (n * x - part_sum) * (n
                * x - part_sum)) by (nonlinear_arith)
                requires part_sum * part_sum <= n * part_sq;
            assert((n * x - part_sum) * (n * x - part_sum) >= 0) by (nonlinear_arith);
            assert(part_sq + n * (x * x) - 2 * (part_sum * x) >= 0) by (nonlinear_arith)
                requires
                    n >= 1,
                    n * (part_sq + n * (x * x) - 2 * (part_sum * x)) >= 0,
            ;
            assert((part_sum + x) * (part_sum + x) <= (n + 1) * (part_sq + x * x))
                by (nonlinear_arith)
                requires
                    part_sum * part_sum <= n * part_sq,
                    part_sq + n * (x * x) - 2 * (part_sum * x) >= 0,
            ;
        }
    }
}

proof fn lemma_sum_bounds_nonneg(s: Seq<u64>)
    ensures
        seq_sum(s) >= 0,
        seq_sum_sq(s) >= 0,
    decreases s.len(),
{
    if s.len() > 0 {
        lemma_sum_bounds_nonneg(s.drop_last());
        assert(s.last() * s.last() >= 0) by (nonlinear_arith);
    }
}

/// For a summary of up to 2^32 samples that each fit 32 bits, every
/// intermediate product of the sample-variance formula fits `u128` and
/// the numerator is nonnegative, so [`StatsSummary::variance_ratio`]
/// returns exactly `(n * sum_sq - sum^2) / (n * (n - 1))` whenever the
/// count is at least two.
pub proof fn lemma_variance_defined(m: StatsSummary, s: Seq<u64>, b: u32)
    requires
        m.models(s),
        s.len() <= COUNT_LIMIT,
        forall|i: int| 0 <= i < s.len() ==> #[trigger] s[i] <= b,
    ensures
        m.sum * m.sum <= m.count * m.sum_sq,
        m.count * m.sum_sq <= u128::MAX,
        m.sum * m.sum <= u128::MAX,
{
    lemma_sum_sq_cauchy(s);
    lemma_sum_sq_le(s, b as u64);
    assert(s.len() * (b as int * b as int)
        <= 0x1_0000_0000 * (0xFFFF_FFFF * 0xFFFF_FFFF)) by (nonlinear_arith)
        requires
            0 <= s.len() <= 0x1_0000_0000,
            0 <= b <= 0xFFFF_FFFF,
    ;
    assert(s.len() * seq_sum_sq(s) <= 0x1_0000_0000 * (0x1_0000_0000 * (0xFFFF_FFFF
        * 0xFFFF_FFFF))) by (nonlinear_arith)
        requires
            0 <= s.len() <= 0x1_0000_0000,
            0 <= seq_sum_sq(s) <= 0x1_0000_0000 * (0xFFFF_FFFF * 0xFFFF_FFFF),
    ;
    assert(0x1_0000_0000 * (0x1_0000_0000 * (0xFFFF_FFFF * 0xFFFF_FFFF)) < u128::MAX)
        by (nonlinear_arith);
}

} // verus!
