//! Monte-Carlo support: per-tick metric trackers, per-run pass criteria,
//! and per-metric aggregation with a normal-approximation confidence
//! interval.
//!
//! A driver runs N independent simulations with consecutive seeds,
//! records the per-tick world state through these trackers, judges each
//! run against its criteria, and aggregates each metric's samples.

use vstd::prelude::*;
use crate::engauge::window_mean_spec;
use crate::engauge::window_sum;
use crate::fixed::GoldGrams;
use crate::fixed::SCALE;
use crate::fixed::VALUE_LIMIT;

verus! {

/// Largest sample magnitude the aggregation accepts (10^5 units): keeps
/// the squared deviations within the 128-bit range.
pub const STAT_LIMIT: i128 = 100_000_000_000_000_000;

/// Smallest sample of a run.
pub open spec fn seq_min(s: Seq<GoldGrams>) -> int
    decreases s.len(),
{
    if s.len() <= 1 {
        if s.len() == 0 {
            0
        } else {
            s[0]@
        }
    } else {
        let prev = seq_min(s.drop_last());
        if s.last()@ < prev {
            s.last()@
        } else {
            prev
        }
    }
}

/// Largest sample of a run.
pub open spec fn seq_max(s: Seq<GoldGrams>) -> int
    decreases s.len(),
{
    if s.len() <= 1 {
        if s.len() == 0 {
            0
        } else {
            s[0]@
        }
    } else {
        let prev = seq_max(s.drop_last());
        if s.last()@ > prev {
            s.last()@
        } else {
            prev
        }
    }
}

/// Per-metric aggregation over a set of run samples.
#[derive(Debug, Clone, Copy, PartialEq, Eq, Structural)]
pub struct Stats {
    pub mean: GoldGrams,
    pub std_dev: GoldGrams,
    pub ci_lower: GoldGrams,
    pub ci_upper: GoldGrams,
    pub min: GoldGrams,
    pub max: GoldGrams,
    pub n: usize,
}

/// Sum of squared deviations of a sample set from a given mean.
pub open spec fn sq_dev_total(s: Seq<GoldGrams>, mean: int) -> int
    decreases s.len(),
{
    if s.len() == 0 {
        0
    } else {
        sq_dev_total(s.drop_last(), mean) + (s.last()@ - mean) * (s.last()@ - mean)
    }
}

impl Stats {
    /// Aggregate a sample set: the mean, the sample standard deviation,
    /// a 95% confidence interval by the normal approximation (z = 1.96),
    /// and the extremes. Empty input aggregates to all zeroes.
    pub fn from_samples(samples: &Vec<GoldGrams>) -> (r: Stats)
        requires
            samples@.len() <= 1_000,
            forall|i: int| 0 <= i < samples@.len() ==> 0 <= #[trigger] samples@[i]@ <= STAT_LIMIT,
        ensures
            r.n == samples@.len(),
            samples@.len() == 0 ==> r.mean@ == 0 && r.std_dev@ == 0 && r.min@ == 0 && r.max@ == 0,
            samples@.len() > 0 ==> r.mean@ == window_mean_spec(samples@),
            samples@.len() > 0 ==> r.min@ == seq_min(samples@) && r.max@ == seq_max(samples@),
            r.ci_lower@ <= r.mean@ <= r.ci_upper@,
            samples@.len() == 1 ==> r.std_dev@ == 0,
            samples@.len() > 1 ==> r.std_dev@ == crate::routing::isqrt_int(
                sq_dev_total(samples@, window_mean_spec(samples@)) / (samples@.len() - 1),
            ),
            samples@.len() > 0 ==> ({
                let sq = crate::routing::isqrt_int(
                    (samples@.len() as int) * (SCALE as int) * (SCALE as int),
                );
                let margin = (((r.std_dev@ * (SCALE as int)) / sq) * 1_960_000_000_000) / (
                SCALE as int);
                r.ci_lower@ == r.mean@ - margin && r.ci_upper@ == r.mean@ + margin
            }),
    {
        let n = samples.len();
        if n == 0 {
            let z = GoldGrams::zero();
            return Stats {
                mean: z,
                std_dev: z,
                ci_lower: z,
                ci_upper: z,
                min: z,
                max: z,
                n: 0,
            };
        }
        proof {
            lemma_sample_window_bounds(samples@);
        }
        let mean = sample_mean(samples);

        // Sample variance over n - 1 (zero for a single sample).
        let mut acc: i128 = 0;
        let mut i: usize = 0;
        while i < n
            invariant
                0 <= i <= samples@.len(),
                samples@.len() == n <= 1_000,
                forall|k: int|
                    0 <= k < samples@.len() ==> 0 <= #[trigger] samples@[k]@ <= STAT_LIMIT,
                0 <= mean@ <= STAT_LIMIT,
                mean@ == window_mean_spec(samples@),
                0 <= acc <= i * 40_000_000_000_000_000_000_000_000_000_000_000,
                acc == sq_dev_total(samples@.take(i as int), mean@),
            decreases samples@.len() - i,
        {
            proof {
                assert((i + 1) * 40_000_000_000_000_000_000_000_000_000_000_000 == i
                    * 40_000_000_000_000_000_000_000_000_000_000_000
                    + 40_000_000_000_000_000_000_000_000_000_000_000) by (nonlinear_arith);
                assert(samples@.take(i + 1).drop_last() =~= samples@.take(i as int));
                assert(samples@.take(i + 1).last() == samples@[i as int]);
            }
            let d: i128 = samples[i].to_scaled() - mean.to_scaled();
            proof {
                assert(0 <= d * d <= 40_000_000_000_000_000_000_000_000_000_000_000)
                    by (nonlinear_arith)
                    requires
                        -STAT_LIMIT <= d <= STAT_LIMIT,
                ;
            }
            acc = acc + d * d;
            i = i + 1;
        }
        proof {
            assert(samples@.take(samples@.len() as int) =~= samples@);
        }
        let variance: i128 = if n > 1 {
            proof {
                assert(0 <= acc / ((n - 1) as i128) <= acc) by (nonlinear_arith)
                    requires
                        0 <= acc,
                        1 < n,
                ;
            }
            acc / ((n - 1) as i128)
        } else {
            0
        };
        let std_dev = crate::routing::isqrt_fixed(variance as u128);
        proof {
            if n == 1 {
                assert(std_dev@ == 0) by (nonlinear_arith)
                    requires
                        std_dev@ * std_dev@ <= 0,
                        0 <= std_dev@,
                ;
            }
        }

        // Standard error and the 1.96-sigma interval.
        proof {
            assert(0 <= (n as i128) * SCALE * SCALE
                <= 80_000_000_000_000_000_000_000_000_000_000_000_000) by (nonlinear_arith)
                requires
                    0 < n <= 1_000,
            ;
        }
        let sqrt_n = crate::routing::isqrt_fixed(((n as i128) * SCALE * SCALE) as u128);
        proof {
            assert(std_dev@ <= 7_000_000_000_000_000_000) by (nonlinear_arith)
                requires
                    std_dev@ * std_dev@ <= 40_000_000_000_000_000_000_000_000_000_000_000_000,
                    0 <= std_dev@,
            ;
            assert(SCALE <= sqrt_n@) by (nonlinear_arith)
                requires
                    (sqrt_n@ + 1) * (sqrt_n@ + 1) > (n as i128) * SCALE * SCALE,
                    0 < n,
                    0 <= sqrt_n@,
            ;
        }
        let stderr = std_dev.div(sqrt_n);
        proof {
            crate::fixed::lemma_mul_le(
                stderr@,
                1_960_000_000_000,
                7_000_000_000_000_000_000,
                2 * SCALE,
            );
        }
        let margin = stderr.mul(GoldGrams::from_scaled(1_960_000_000_000));

        // Extremes.
        let mut lo = samples[0];
        let mut hi = samples[0];
        let mut j: usize = 1;
        while j < n
            invariant
                1 <= j <= samples@.len(),
                samples@.len() == n,
                forall|k: int|
                    0 <= k < samples@.len() ==> 0 <= #[trigger] samples@[k]@ <= STAT_LIMIT,
                lo@ == seq_min(samples@.take(j as int)),
                hi@ == seq_max(samples@.take(j as int)),
            decreases samples@.len() - j,
        {
            proof {
                assert(samples@.take(j + 1).drop_last() =~= samples@.take(j as int));
            }
            lo = lo.min(samples[j]);
            hi = hi.max(samples[j]);
            j = j + 1;
        }
        proof {
            assert(samples@.take(samples@.len() as int) =~= samples@);
        }

        Stats {
            mean,
            std_dev,
            ci_lower: mean.sub(margin),
            ci_upper: mean.add(margin),
            min: lo,
            max: hi,
            n,
        }
    }
}

/// Samples within the value band have window sums within the division
/// range.
proof fn lemma_sample_window_bounds(s: Seq<GoldGrams>)
    requires
        s.len() <= 1_000,
        forall|i: int| 0 <= i < s.len() ==> 0 <= #[trigger] s[i]@ <= STAT_LIMIT,
    ensures
        0 <= window_sum(s) <= s.len() * STAT_LIMIT,
        s.len() > 0 ==> 0 <= window_mean_spec(s) <= STAT_LIMIT,
    decreases s.len(),
{
    if s.len() > 0 {
        assert(forall|i: int| 0 <= i < s.len() - 1 ==> s.drop_last()[i] == #[trigger] s[i]);
        lemma_sample_window_bounds(s.drop_last());
        assert((s.len() - 1) * STAT_LIMIT + STAT_LIMIT == s.len() * STAT_LIMIT)
            by (nonlinear_arith);
        assert(0 <= window_sum(s) / (s.len() as int) <= STAT_LIMIT) by (nonlinear_arith)
            requires
                0 <= window_sum(s) <= s.len() * STAT_LIMIT,
                0 < s.len(),
        ;
    }
}

/// Mean of a sample set (which must be non-empty).
fn sample_mean(samples: &Vec<GoldGrams>) -> (r: GoldGrams)
    requires
        0 < samples@.len() <= 1_000,
        forall|i: int| 0 <= i < samples@.len() ==> 0 <= #[trigger] samples@[i]@ <= STAT_LIMIT,
    ensures
        r@ == window_mean_spec(samples@),
        0 <= r@ <= VALUE_LIMIT,
{
    let mut sum = GoldGrams::zero();
    let mut i: usize = 0;
    while i < samples.len()
        invariant
            0 <= i <= samples@.len(),
            samples@.len() <= 1_000,
            forall|k: int| 0 <= k < samples@.len() ==> 0 <= #[trigger] samples@[k]@ <= STAT_LIMIT,
            sum@ == window_sum(samples@.take(i as int)),
            0 <= sum@ <= i * STAT_LIMIT,
        decreases samples@.len() - i,
    {
        proof {
            assert(samples@.take(i + 1).drop_last() =~= samples@.take(i as int));
            assert((i + 1) * STAT_LIMIT == i * STAT_LIMIT + STAT_LIMIT) by (nonlinear_arith);
        }
        sum = sum.add(samples[i]);
        i = i + 1;
    }
    proof {
        assert(samples@.take(samples@.len() as int) =~= samples@);
        lemma_sample_window_bounds(samples@);
        assert(window_sum(samples@) / (samples@.len() as int) <= STAT_LIMIT)
            by (nonlinear_arith)
            requires
                0 <= window_sum(samples@) <= samples@.len() * STAT_LIMIT,
                0 < samples@.len(),
        ;
    }
    sum.div_int(samples.len() as u64)
}

/// Per-tick peg elasticity tracking: the effective exchange rate's
/// deviation from spot is the fee rate; the tracker counts ticks within
/// the 20% band.
#[derive(Debug, Clone)]
pub struct PegTracker {
    pub total_ticks: u64,
    pub ticks_within_band: u64,
    pub band_threshold: GoldGrams,
    pub max_deviation: GoldGrams,
}

impl PegTracker {
    /// Fresh tracker with the 20% band.
    pub fn new() -> (r: PegTracker)
        ensures
            r.total_ticks == 0,
            r.ticks_within_band == 0,
            r.band_threshold@ == SCALE / 5,
            r.max_deviation@ == 0,
    {
        PegTracker {
            total_ticks: 0,
            ticks_within_band: 0,
            band_threshold: GoldGrams::from_scaled(SCALE / 5),
            max_deviation: GoldGrams::zero(),
        }
    }

    /// Record one tick's fee rate as the peg deviation.
    pub fn record_tick(&mut self, fee_rate: GoldGrams)
        requires
            old(self).total_ticks < u64::MAX,
            old(self).ticks_within_band < u64::MAX,
        ensures
            final(self).total_ticks == old(self).total_ticks + 1,
            final(self).ticks_within_band == old(self).ticks_within_band + (
            if fee_rate@ <= old(self).band_threshold@ {
                1int
            } else {
                0int
            }),
            final(self).max_deviation@ == if fee_rate@ > old(self).max_deviation@ {
                fee_rate@
            } else {
                old(self).max_deviation@
            },
            final(self).band_threshold == old(self).band_threshold,
    {
        self.total_ticks = self.total_ticks + 1;
        self.max_deviation = self.max_deviation.max(fee_rate);
        if fee_rate.le(self.band_threshold) {
            self.ticks_within_band = self.ticks_within_band + 1;
        }
    }

    /// Percentage of ticks with the peg within the band (100 when no
    /// tick was recorded).
    pub fn elasticity_pct(&self) -> (r: GoldGrams)
        requires
            self.ticks_within_band <= self.total_ticks,
            self.total_ticks <= 0x1000_0000_0000_0000,
        ensures
            self.total_ticks == 0 ==> r@ == 100 * SCALE,
            self.total_ticks > 0 ==> r@ == (self.ticks_within_band * 100 * SCALE) as int / (
            self.total_ticks as int),
    {
        if self.total_ticks == 0 {
            return GoldGrams::from_int(100);
        }
        GoldGrams::from_int(self.ticks_within_band as i64).mul_int(100).div_int(self.total_ticks)
    }
}

/// Normalized conservation tracking: the worst absolute error seen,
/// relative to cumulative throughput.
#[derive(Debug, Clone)]
pub struct ConservationTracker {
    pub max_abs_error: GoldGrams,
    pub total_throughput: GoldGrams,
}

impl ConservationTracker {
    pub fn new() -> (r: ConservationTracker)
        ensures
            r.max_abs_error@ == 0,
            r.total_throughput@ == 0,
    {
        ConservationTracker { max_abs_error: GoldGrams::zero(), total_throughput: GoldGrams::zero() }
    }

    /// Record one tick's absolute conservation error and the cumulative
    /// input so far.
    pub fn record_tick(&mut self, abs_error: GoldGrams, total_input: GoldGrams)
        requires
            0 <= abs_error@,
            0 <= total_input@,
        ensures
            final(self).max_abs_error@ == if abs_error@ > old(self).max_abs_error@ {
                abs_error@
            } else {
                old(self).max_abs_error@
            },
            final(self).total_throughput == total_input,
    {
        self.max_abs_error = self.max_abs_error.max(abs_error);
        self.total_throughput = total_input;
    }

    /// The worst error relative to throughput (zero when nothing flowed).
    pub fn normalized_error(&self) -> (r: GoldGrams)
        requires
            0 <= self.max_abs_error@ <= crate::fixed::DIV_NUMERATOR_LIMIT,
            0 <= self.total_throughput@,
        ensures
            self.total_throughput@ <= 0 ==> r@ == 0,
            self.total_throughput@ > 0 ==> r@ == (self.max_abs_error@ * SCALE) / self.total_throughput@,
    {
        if !self.total_throughput.gt(GoldGrams::zero()) {
            return GoldGrams::zero();
        }
        self.max_abs_error.div(self.total_throughput)
    }

    /// The worst absolute error seen.
    pub fn raw_error(&self) -> (r: GoldGrams)
        ensures
            r == self.max_abs_error,
    {
        self.max_abs_error
    }
}

/// Pass criteria of one scenario.
#[derive(Debug, Clone)]
pub struct PassCriteria {
    pub max_conservation_error: GoldGrams,
    pub min_settlement_rate: Option<GoldGrams>,
    pub max_fee_cap_breaches: Option<u32>,
    pub require_settlement_finality: bool,
    pub require_cost_certainty: bool,
    pub require_audit_trail: bool,
    pub require_zero_stuck: bool,
    pub max_held_at_end: Option<u32>,
}

impl Default for PassCriteria {
    /// One unit of conservation slack, nothing else demanded.
    fn default() -> (r: PassCriteria)
        ensures
            r.max_conservation_error@ == SCALE,
            r.min_settlement_rate is None,
            r.max_fee_cap_breaches is None,
            !r.require_settlement_finality,
            !r.require_cost_certainty,
            !r.require_audit_trail,
            !r.require_zero_stuck,
            r.max_held_at_end is None,
    {
        PassCriteria {
            max_conservation_error: GoldGrams::one(),
            min_settlement_rate: Option::None,
            max_fee_cap_breaches: Option::None,
            require_settlement_finality: false,
            require_cost_certainty: false,
            require_audit_trail: false,
            require_zero_stuck: false,
            max_held_at_end: Option::None,
        }
    }
}

/// What one finished run reports for judgement.
#[derive(Debug, Clone, Copy, PartialEq, Eq, Structural)]
pub struct RunOutcome {
    pub conservation_error: GoldGrams,
    pub settlement_count: u32,
    pub settlement_rate_pct: GoldGrams,
    pub fee_cap_breaches: u32,
    pub settlement_finality: bool,
    pub cost_certainty: bool,
    pub audit_trail: bool,
    pub held_at_end: u32,
}

/// Whether a run passes its criteria.
pub open spec fn passes_spec(c: PassCriteria, o: RunOutcome) -> bool {
    &&& o.conservation_error@ <= c.max_conservation_error@
    &&& match c.min_settlement_rate {
        Option::Some(min) => o.settlement_count == 0 || o.settlement_rate_pct@ >= min@,
        Option::None => true,
    }
    &&& match c.max_fee_cap_breaches {
        Option::Some(max) => o.fee_cap_breaches <= max,
        Option::None => true,
    }
    &&& (c.require_settlement_finality ==> o.settlement_finality)
    &&& (c.require_cost_certainty ==> o.cost_certainty)
    &&& (c.require_audit_trail ==> o.audit_trail)
    &&& (c.require_zero_stuck ==> o.held_at_end == 0)
    &&& match c.max_held_at_end {
        Option::Some(max) => o.held_at_end <= max,
        Option::None => true,
    }
}

/// Judge one run against its criteria, exactly as `passes_spec` states.
pub fn evaluate_run(criteria: &PassCriteria, outcome: &RunOutcome) -> (r: bool)
    ensures
        r == passes_spec(*criteria, *outcome),
{
    let mut pass = outcome.conservation_error.le(criteria.max_conservation_error);
    match criteria.min_settlement_rate {
        Option::Some(min) => {
            if outcome.settlement_count > 0 && outcome.settlement_rate_pct.lt(min) {
                pass = false;
            }
        },
        Option::None => {},
    }
    match criteria.max_fee_cap_breaches {
        Option::Some(max) => {
            if outcome.fee_cap_breaches > max {
                pass = false;
            }
        },
        Option::None => {},
    }
    if criteria.require_settlement_finality && !outcome.settlement_finality {
        pass = false;
    }
    if criteria.require_cost_certainty && !outcome.cost_certainty {
        pass = false;
    }
    if criteria.require_audit_trail && !outcome.audit_trail {
        pass = false;
    }
    if criteria.require_zero_stuck && outcome.held_at_end > 0 {
        pass = false;
    }
    match criteria.max_held_at_end {
        Option::Some(max) => {
            if outcome.held_at_end > max {
                pass = false;
            }
        },
        Option::None => {},
    }
    pass
}

} // verus!
