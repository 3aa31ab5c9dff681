//! The Governor: a PID feedback controller that maps network metrics to
//! fee and demurrage parameters and classifies macro conditions into one
//! of six pressure quadrants.
//!
//! The controller tracks the relative deviation of the gold price from
//! its target. The deviation is clamped to the representable band of
//! +/- 10^6 (a million-fold price deviation) before it enters the
//! arithmetic; within that band every formula below is exact.

use vstd::prelude::*;
use crate::fixed::GoldGrams;
use crate::fixed::SCALE;
use crate::fixed::VALUE_LIMIT;
use crate::fixed::scaled_mul;
use crate::fixed::scaled_div;
use crate::types::MarketTier;

verus! {

/// Base fee rate (0.001).
pub const BASE_FEE: i128 = 1_000_000_000;

/// Base demurrage rate (0.005).
pub const BASE_DEMURRAGE: i128 = 5_000_000_000;

/// Proportional gain (0.5).
pub const PID_KP: i128 = 500_000_000_000;

/// Integral gain (0.1).
pub const PID_KI: i128 = 100_000_000_000;

/// Derivative gain (0.05).
pub const PID_KD: i128 = 50_000_000_000;

/// Anti-windup clamp on the integral term (+/- 0.1).
pub const INTEGRAL_CLAMP: i128 = 100_000_000_000;

/// Clamp on the final fee adjustment (+/- 0.02).
pub const OUTPUT_CLAMP: i128 = 20_000_000_000;

/// Peg deviation beyond which the market is in an emergency quadrant (0.18).
pub const DEVIATION_EMERGENCY: i128 = 180_000_000_000;

/// Velocity above which an over-peg market is a bubble (1.5).
pub const HIGH_VELOCITY: i128 = 1_500_000_000_000;

/// Velocity below which the market may be stagnant (0.3).
pub const LOW_VELOCITY: i128 = 300_000_000_000;

/// Volume thresholds (10^5 and 10^6 units).
pub const LOW_VOLUME: i128 = 100_000_000_000_000_000;

pub const HIGH_VOLUME: i128 = 1_000_000_000_000_000_000;

/// Liquidity thresholds (10^5 and 10^6 units).
pub const LOW_LIQUIDITY: i128 = 100_000_000_000_000_000;

pub const HIGH_LIQUIDITY: i128 = 1_000_000_000_000_000_000;

/// Representable band of the peg error signal (+/- 10^6).
pub const ERROR_BAND: i128 = 1_000_000_000_000_000_000;

/// Largest PID gain accepted (10.0).
pub const GAIN_LIMIT: i128 = 10_000_000_000_000;

/// Largest base fee rate accepted by the fee helpers (10.0).
pub const RATE_LIMIT: i128 = 10_000_000_000_000;

/// Fee caps are fractions.
pub open spec fn caps_wf(c: FeeCaps) -> bool {
    &&& 0 < c.l0@ <= SCALE
    &&& 0 < c.l1@ <= SCALE
    &&& 0 < c.l2@ <= SCALE
    &&& 0 < c.l3@ <= SCALE
}

/// Tier modifiers stay within a factor of ten.
pub open spec fn modifiers_wf(m: TierModifiers) -> bool {
    &&& -10 * SCALE <= m.l0@ <= 10 * SCALE
    &&& -10 * SCALE <= m.l1@ <= 10 * SCALE
    &&& -10 * SCALE <= m.l2@ <= 10 * SCALE
    &&& -10 * SCALE <= m.l3@ <= 10 * SCALE
}

/// Mathematical clamp.
pub open spec fn clamp_spec(x: int, lo: int, hi: int) -> int {
    if x < lo {
        lo
    } else if x > hi {
        hi
    } else {
        x
    }
}

/// Per-tier active packet counts.
#[derive(Debug, Clone, Copy, PartialEq, Eq, Structural)]
pub struct TierCounts {
    pub l0: u64,
    pub l1: u64,
    pub l2: u64,
    pub l3: u64,
}

impl Default for TierCounts {
    fn default() -> (r: TierCounts)
        ensures
            r == (TierCounts { l0: 0u64, l1: 0u64, l2: 0u64, l3: 0u64 }),
    {
        TierCounts { l0: 0, l1: 0, l2: 0, l3: 0 }
    }
}

/// Network metrics fed into the Governor each control cycle.
#[derive(Debug, Clone, Copy, PartialEq, Eq, Structural)]
pub struct NetworkMetrics {
    /// Current gold price (from oracle).
    pub current_gold_price: GoldGrams,
    /// Target gold price (reference spot price).
    pub target_gold_price: GoldGrams,
    /// Market volatility on a 0.0-1.0 scale.
    pub market_volatility: GoldGrams,
    /// Transaction volume per period.
    pub transaction_volume: GoldGrams,
    /// Network liquidity depth available.
    pub liquidity_depth: GoldGrams,
    /// Network velocity (transactions per second).
    pub network_velocity: GoldGrams,
    /// Per-tier active packet counts.
    pub active_packets_by_tier: TierCounts,
    /// In-transit float: total value currently in flight.
    pub in_transit_float: GoldGrams,
}

impl NetworkMetrics {
    /// Every metric is non-negative and within the representable range;
    /// volatility is a fraction.
    pub open spec fn wf(self) -> bool {
        &&& 0 <= self.current_gold_price@ <= VALUE_LIMIT
        &&& 0 <= self.target_gold_price@ <= VALUE_LIMIT
        &&& 0 <= self.market_volatility@ <= SCALE
        &&& 0 <= self.transaction_volume@ <= VALUE_LIMIT
        &&& 0 <= self.liquidity_depth@ <= VALUE_LIMIT
        &&& 0 <= self.network_velocity@ <= VALUE_LIMIT
        &&& 0 <= self.in_transit_float@ <= VALUE_LIMIT
    }
}

/// Network pressure classification: six quadrants of macro conditions.
#[derive(Debug, Clone, Copy, PartialEq, Eq, Structural, Hash)]
pub enum PressureQuadrant {
    /// Over-peg with high velocity: speculative bubble.
    Bubble,
    /// Under-peg: market crash.
    Crash,
    /// Low velocity and low volume: economic stagnation.
    Stagnation,
    /// Tight gold band and healthy flows: ideal state.
    GoldenEra,
    /// Over-peg without the velocity of a bubble: congestion.
    Bottleneck,
    /// High liquidity but low volume: excess capacity.
    Vacuum,
}

impl PressureQuadrant {
    pub open spec fn label_spec(self) -> Seq<char> {
        match self {
            PressureQuadrant::GoldenEra => "D: GOLDEN ERA"@,
            PressureQuadrant::Bubble => "A: BUBBLE"@,
            PressureQuadrant::Crash => "B: CRASH"@,
            PressureQuadrant::Stagnation => "C: STAGNATION"@,
            PressureQuadrant::Bottleneck => "E: BOTTLENECK"@,
            PressureQuadrant::Vacuum => "F: VACUUM"@,
        }
    }

    /// Human-readable governance quadrant label.
    pub fn label(&self) -> (r: &'static str)
        ensures
            r@ == self.label_spec(),
    {
        match self {
            PressureQuadrant::GoldenEra => "D: GOLDEN ERA",
            PressureQuadrant::Bubble => "A: BUBBLE",
            PressureQuadrant::Crash => "B: CRASH",
            PressureQuadrant::Stagnation => "C: STAGNATION",
            PressureQuadrant::Bottleneck => "E: BOTTLENECK",
            PressureQuadrant::Vacuum => "F: VACUUM",
        }
    }

    pub open spec fn status_spec(self) -> Seq<char> {
        match self {
            PressureQuadrant::GoldenEra => "STABLE"@,
            PressureQuadrant::Bubble => "OVER-PEG: VENTING"@,
            PressureQuadrant::Crash => "UNDER-PEG: EMERGENCY BRAKE"@,
            PressureQuadrant::Stagnation => "UNDER-PEG: STIMULUS"@,
            PressureQuadrant::Bottleneck => "CONGESTED: THROTTLING"@,
            PressureQuadrant::Vacuum => "LOW ACTIVITY: INCENTIVIZING"@,
        }
    }

    /// Status string describing the current governance posture.
    pub fn status(&self) -> (r: &'static str)
        ensures
            r@ == self.status_spec(),
    {
        match self {
            PressureQuadrant::GoldenEra => "STABLE",
            PressureQuadrant::Bubble => "OVER-PEG: VENTING",
            PressureQuadrant::Crash => "UNDER-PEG: EMERGENCY BRAKE",
            PressureQuadrant::Stagnation => "UNDER-PEG: STIMULUS",
            PressureQuadrant::Bottleneck => "CONGESTED: THROTTLING",
            PressureQuadrant::Vacuum => "LOW ACTIVITY: INCENTIVIZING",
        }
    }

    pub open spec fn description_spec(self) -> Seq<char> {
        match self {
            PressureQuadrant::Bubble => "Speculative bubble: high velocity with gold deviation upward"@,
            PressureQuadrant::Crash => "Market crash: high velocity with gold deviation downward"@,
            PressureQuadrant::Stagnation => "Economic stagnation: low velocity and low volume"@,
            PressureQuadrant::GoldenEra => "Golden era: moderate velocity, tight gold band, good liquidity"@,
            PressureQuadrant::Bottleneck => "Infrastructure bottleneck: high volume but low liquidity"@,
            PressureQuadrant::Vacuum => "Excess capacity vacuum: low volume with high liquidity"@,
        }
    }

    /// Human-readable description of this quadrant.
    pub fn description(&self) -> (r: &'static str)
        ensures
            r@ == self.description_spec(),
    {
        match self {
            PressureQuadrant::Bubble => "Speculative bubble: high velocity with gold deviation upward",
            PressureQuadrant::Crash => "Market crash: high velocity with gold deviation downward",
            PressureQuadrant::Stagnation => "Economic stagnation: low velocity and low volume",
            PressureQuadrant::GoldenEra => "Golden era: moderate velocity, tight gold band, good liquidity",
            PressureQuadrant::Bottleneck => "Infrastructure bottleneck: high volume but low liquidity",
            PressureQuadrant::Vacuum => "Excess capacity vacuum: low volume with high liquidity",
        }
    }

    pub open spec fn demurrage_override_spec(self) -> int {
        match self {
            PressureQuadrant::Bubble => 100_000_000_000int,
            PressureQuadrant::Crash => 0int,
            PressureQuadrant::Stagnation => 1_000_000_000int,
            PressureQuadrant::Bottleneck => 7_500_000_000int,
            PressureQuadrant::Vacuum => 2_500_000_000int,
            PressureQuadrant::GoldenEra => 5_000_000_000int,
        }
    }

    /// Demurrage rate override for the given quadrant: 0.10 in a bubble,
    /// none in a crash, 0.001 in stagnation, 1.5x base in a bottleneck,
    /// 0.5x base in a vacuum, and the base rate in the golden era.
    pub fn demurrage_override(&self) -> (r: GoldGrams)
        ensures
            r@ == self.demurrage_override_spec(),
            0 <= r@ <= SCALE,
    {
        match self {
            PressureQuadrant::Bubble => GoldGrams::from_scaled(100_000_000_000),
            PressureQuadrant::Crash => GoldGrams::zero(),
            PressureQuadrant::Stagnation => GoldGrams::from_scaled(1_000_000_000),
            PressureQuadrant::Bottleneck => GoldGrams::from_scaled(7_500_000_000),
            PressureQuadrant::Vacuum => GoldGrams::from_scaled(2_500_000_000),
            PressureQuadrant::GoldenEra => GoldGrams::from_scaled(5_000_000_000),
        }
    }
}

/// Per-tier fee modifiers (multipliers applied to the base fee).
#[derive(Debug, Clone, Copy, PartialEq, Eq, Structural)]
pub struct TierModifiers {
    pub l0: GoldGrams,
    pub l1: GoldGrams,
    pub l2: GoldGrams,
    pub l3: GoldGrams,
}

impl Default for TierModifiers {
    /// Neutral modifiers (all 1.0).
    fn default() -> (r: TierModifiers)
        ensures
            r.l0@ == SCALE && r.l1@ == SCALE && r.l2@ == SCALE && r.l3@ == SCALE,
    {
        TierModifiers {
            l0: GoldGrams::one(),
            l1: GoldGrams::one(),
            l2: GoldGrams::one(),
            l3: GoldGrams::one(),
        }
    }
}

/// Modifier of one tier for a given adjustment: `1 + adj * s` with the
/// per-tier sensitivities 1.5, 1.2, 0.8, 0.5.
pub open spec fn modifier_spec(adj: int, tier: MarketTier) -> int {
    SCALE + scaled_mul(adj, tier_sensitivity(tier))
}

pub open spec fn tier_sensitivity(tier: MarketTier) -> int {
    match tier {
        MarketTier::L0 => 1_500_000_000_000int,
        MarketTier::L1 => 1_200_000_000_000int,
        MarketTier::L2 => 800_000_000_000int,
        MarketTier::L3 => 500_000_000_000int,
    }
}

impl TierModifiers {
    /// Compute dynamic tier modifiers from a PID fee adjustment.
    pub fn from_adjustment(adj: GoldGrams) -> (r: TierModifiers)
        requires
            -RATE_LIMIT * SCALE <= adj@ <= RATE_LIMIT * SCALE,
        ensures
            r.l0@ == modifier_spec(adj@, MarketTier::L0),
            r.l1@ == modifier_spec(adj@, MarketTier::L1),
            r.l2@ == modifier_spec(adj@, MarketTier::L2),
            r.l3@ == modifier_spec(adj@, MarketTier::L3),
    {
        proof {
            assert(adj@ * 1_500_000_000_000 <= RATE_LIMIT * SCALE * 1_500_000_000_000
                && adj@ * 1_500_000_000_000 >= -(RATE_LIMIT * SCALE) * 1_500_000_000_000
                && adj@ * 1_200_000_000_000 <= RATE_LIMIT * SCALE * 1_500_000_000_000
                && adj@ * 1_200_000_000_000 >= -(RATE_LIMIT * SCALE) * 1_500_000_000_000
                && adj@ * 800_000_000_000 <= RATE_LIMIT * SCALE * 1_500_000_000_000
                && adj@ * 800_000_000_000 >= -(RATE_LIMIT * SCALE) * 1_500_000_000_000
                && adj@ * 500_000_000_000 <= RATE_LIMIT * SCALE * 1_500_000_000_000
                && adj@ * 500_000_000_000 >= -(RATE_LIMIT * SCALE) * 1_500_000_000_000)
                by (nonlinear_arith)
                requires
                    -RATE_LIMIT * SCALE <= adj@ <= RATE_LIMIT * SCALE,
            ;
        }
        let one = GoldGrams::one();
        TierModifiers {
            l0: one.add(adj.mul_signed(GoldGrams::from_scaled(1_500_000_000_000))),
            l1: one.add(adj.mul_signed(GoldGrams::from_scaled(1_200_000_000_000))),
            l2: one.add(adj.mul_signed(GoldGrams::from_scaled(800_000_000_000))),
            l3: one.add(adj.mul_signed(GoldGrams::from_scaled(500_000_000_000))),
        }
    }

    /// Look up the modifier for a given market tier.
    pub fn for_tier(&self, tier: MarketTier) -> (r: GoldGrams)
        ensures
            r == self.for_tier_spec(tier),
    {
        match tier {
            MarketTier::L0 => self.l0,
            MarketTier::L1 => self.l1,
            MarketTier::L2 => self.l2,
            MarketTier::L3 => self.l3,
        }
    }

    pub open spec fn for_tier_spec(self, tier: MarketTier) -> GoldGrams {
        match tier {
            MarketTier::L0 => self.l0,
            MarketTier::L1 => self.l1,
            MarketTier::L2 => self.l2,
            MarketTier::L3 => self.l3,
        }
    }
}

/// Constitutional fee caps per tier: the Governor can never cross these.
#[derive(Debug, Clone, Copy, PartialEq, Eq, Structural)]
pub struct FeeCaps {
    pub l0: GoldGrams,
    pub l1: GoldGrams,
    pub l2: GoldGrams,
    pub l3: GoldGrams,
}

impl Default for FeeCaps {
    /// 5%, 2%, 0.5%, 0.1%.
    fn default() -> (r: FeeCaps)
        ensures
            r.l0@ == MarketTier::L0.fee_cap_spec(),
            r.l1@ == MarketTier::L1.fee_cap_spec(),
            r.l2@ == MarketTier::L2.fee_cap_spec(),
            r.l3@ == MarketTier::L3.fee_cap_spec(),
    {
        FeeCaps {
            l0: GoldGrams::from_scaled(50_000_000_000),
            l1: GoldGrams::from_scaled(20_000_000_000),
            l2: GoldGrams::from_scaled(5_000_000_000),
            l3: GoldGrams::from_scaled(1_000_000_000),
        }
    }
}

impl FeeCaps {
    pub open spec fn cap_for_spec(self, tier: MarketTier) -> GoldGrams {
        match tier {
            MarketTier::L0 => self.l0,
            MarketTier::L1 => self.l1,
            MarketTier::L2 => self.l2,
            MarketTier::L3 => self.l3,
        }
    }

    /// Look up the cap fraction for a given tier.
    pub fn cap_for(&self, tier: MarketTier) -> (r: GoldGrams)
        ensures
            r == self.cap_for_spec(tier),
    {
        match tier {
            MarketTier::L0 => self.l0,
            MarketTier::L1 => self.l1,
            MarketTier::L2 => self.l2,
            MarketTier::L3 => self.l3,
        }
    }

    /// Clamp a fee so it never exceeds the constitutional cap for the
    /// tier, never exceeds the packet value itself, and is never negative.
    pub fn clamp_fee(&self, tier: MarketTier, fee: GoldGrams, packet_value: GoldGrams) -> (r:
        GoldGrams)
        requires
            0 <= self.cap_for_spec(tier)@ <= SCALE,
            0 <= packet_value@ <= VALUE_LIMIT,
        ensures
            r@ == clamp_spec(
                if fee@ <= scaled_mul(self.cap_for_spec(tier)@, packet_value@) {
                    fee@
                } else {
                    scaled_mul(self.cap_for_spec(tier)@, packet_value@)
                },
                0,
                packet_value@,
            ),
            0 <= r@ <= packet_value@,
            r@ <= fee@ || r@ <= scaled_mul(self.cap_for_spec(tier)@, packet_value@),
    {
        proof {
            crate::fixed::lemma_mul_le(
                self.cap_for_spec(tier)@,
                packet_value@,
                SCALE as int,
                VALUE_LIMIT as int,
            );
        }
        let cap = self.cap_for(tier).mul(packet_value);
        fee.min(cap).min(packet_value).max(GoldGrams::zero())
    }
}

/// Reward distribution between egress and transit nodes.
#[derive(Debug, Clone, Copy, PartialEq, Eq, Structural)]
pub struct RewardSplit {
    /// Share of the total fee going to the egress (settlement) node.
    pub egress_share: GoldGrams,
    /// Share of the total fee going to transit nodes.
    pub transit_share: GoldGrams,
}

/// Split a total fee 80/20 into egress and transit shares. The transit
/// share takes the rounding crumb, so the two halves sum exactly.
pub fn split_rewards(total: GoldGrams) -> (r: RewardSplit)
    requires
        0 <= total@ <= VALUE_LIMIT,
    ensures
        r.egress_share@ == scaled_mul(800_000_000_000, total@),
        r.egress_share@ + r.transit_share@ == total@,
        0 <= r.egress_share@,
        0 <= r.transit_share@,
{
    proof {
        crate::fixed::lemma_mul_le(800_000_000_000, total@, SCALE as int, VALUE_LIMIT as int);
    }
    let egress = GoldGrams::from_scaled(800_000_000_000).mul(total);
    proof {
        assert(scaled_mul(800_000_000_000, total@) <= total@) by (nonlinear_arith)
            requires
                0 <= total@,
        ;
    }
    let transit = total.sub(egress);
    RewardSplit { egress_share: egress, transit_share: transit }
}

/// Output of the Governor controller: the modulations applied to the
/// network for the next tick.
#[derive(Debug, Clone)]
pub struct GovernorOutput {
    pub fee_rate: GoldGrams,
    pub demurrage: GoldGrams,
    pub quadrant: String,
    pub status: String,
    pub verification_complexity: u64,
}

/// Output parameters kept by the controller between cycles.
#[derive(Debug, Clone, Copy, PartialEq, Eq, Structural)]
pub struct GovernanceParams {
    /// Current fee modifier per tier (1.0 = no change).
    pub fee_modifiers: TierModifiers,
    /// Current network pressure classification.
    pub pressure: PressureQuadrant,
    /// Overall health score (0 to 10).
    pub health_score: GoldGrams,
    /// Recommended fee adjustment as a fraction.
    pub recommended_fee_adjustment: GoldGrams,
    /// Constitutional fee caps per tier.
    pub fee_caps: FeeCaps,
}

impl Default for GovernanceParams {
    fn default() -> (r: GovernanceParams)
        ensures
            r.pressure == PressureQuadrant::GoldenEra,
            r.health_score@ == 5 * SCALE,
            r.recommended_fee_adjustment@ == 0,
            r.fee_modifiers.l0@ == SCALE && r.fee_modifiers.l1@ == SCALE && r.fee_modifiers.l2@
                == SCALE && r.fee_modifiers.l3@ == SCALE,
            r.fee_caps.l0@ == MarketTier::L0.fee_cap_spec(),
            r.fee_caps.l1@ == MarketTier::L1.fee_cap_spec(),
            r.fee_caps.l2@ == MarketTier::L2.fee_cap_spec(),
            r.fee_caps.l3@ == MarketTier::L3.fee_cap_spec(),
    {
        GovernanceParams {
            fee_modifiers: TierModifiers::default(),
            pressure: PressureQuadrant::GoldenEra,
            health_score: GoldGrams::from_scaled(5 * SCALE),
            recommended_fee_adjustment: GoldGrams::zero(),
            fee_caps: FeeCaps::default(),
        }
    }
}

/// Relative peg error `(current - target) / target`, zero when the
/// target is unset, clamped to the representable band.
pub open spec fn error_signal_spec(current: int, target: int) -> int {
    if target <= 0 {
        0
    } else {
        clamp_spec(scaled_div(current - target, target), -ERROR_BAND as int, ERROR_BAND as int)
    }
}

/// Economic health score in [0, 10], scaled: 40% peg accuracy, 30% calm
/// markets, 20% transaction volume, 10% liquidity depth.
pub open spec fn health_score_spec(e: int, volatility: int, volume: int, liquidity: int) -> int {
    let gold = clamp_spec(SCALE - crate::conservation::abs_spec(e), 0, SCALE as int) * 10;
    let calm = clamp_spec(SCALE - volatility, 0, SCALE as int) * 10;
    let txn = clamp_spec(scaled_div(volume, HIGH_VOLUME as int), 0, 10 * SCALE);
    let liq = clamp_spec(scaled_div(liquidity, LOW_LIQUIDITY as int), 0, 10 * SCALE);
    scaled_mul(gold, 400_000_000_000) + scaled_mul(calm, 300_000_000_000) + scaled_mul(
        txn,
        200_000_000_000,
    ) + scaled_mul(liq, 100_000_000_000)
}

/// Base fee adjustment from the bracketed health score.
pub open spec fn bracket_spec(health: int) -> int {
    if health >= 8_500_000_000_000 {
        -8_000_000_000
    } else if health >= 7_500_000_000_000 {
        -6_000_000_000
    } else if health >= 6_500_000_000_000 {
        -4_000_000_000
    } else if health >= 5_500_000_000_000 {
        -2_000_000_000
    } else if health >= 5_000_000_000_000 {
        0
    } else if health >= 4_000_000_000_000 {
        2_000_000_000
    } else {
        5_000_000_000
    }
}

/// Pressure quadrant classification from the peg error and flow metrics.
pub open spec fn quadrant_spec(e: int, velocity: int, volume: int, liquidity: int)
    -> PressureQuadrant {
    if e > DEVIATION_EMERGENCY {
        if velocity > HIGH_VELOCITY {
            PressureQuadrant::Bubble
        } else {
            PressureQuadrant::Bottleneck
        }
    } else if e < -DEVIATION_EMERGENCY {
        PressureQuadrant::Crash
    } else if velocity < LOW_VELOCITY && volume < LOW_VOLUME {
        PressureQuadrant::Stagnation
    } else if liquidity > HIGH_LIQUIDITY && volume < LOW_VOLUME {
        PressureQuadrant::Vacuum
    } else {
        PressureQuadrant::GoldenEra
    }
}

/// The complete control law for one cycle, as a function of the previous
/// state and the metrics.
pub open spec fn adjustment_spec(g: GovernorPid, e: int, health: int) -> int {
    let integral = clamp_spec(
        g.integral_error@ + e,
        -INTEGRAL_CLAMP as int,
        INTEGRAL_CLAMP as int,
    );
    let derivative = e - g.previous_error@;
    let pid = scaled_mul(e, g.kp@) + scaled_mul(integral, g.ki@) + scaled_mul(derivative, g.kd@);
    clamp_spec(bracket_spec(health) + pid, -OUTPUT_CLAMP as int, OUTPUT_CLAMP as int)
}

/// Fee rate derived from an adjustment: `BASE_FEE * (1 + adj)`, floored
/// at zero.
pub open spec fn fee_rate_spec(adj: int) -> int {
    if SCALE + adj >= 0 {
        scaled_mul(SCALE + adj, BASE_FEE as int)
    } else {
        0
    }
}

/// Verification complexity from the health score: `round(1 + (1 - h/10) * 4)`,
/// between 1 (healthy) and 5 (distressed).
pub open spec fn complexity_spec(health: int) -> int {
    let shortfall = SCALE - clamp_spec(health, 0, 10 * SCALE) / 10;
    (SCALE + 4 * shortfall + SCALE / 2) / (SCALE as int)
}

/// PID controller producing governance outputs from network metrics.
#[derive(Debug, Clone, Copy, PartialEq, Eq, Structural)]
pub struct GovernorPid {
    pub kp: GoldGrams,
    pub ki: GoldGrams,
    pub kd: GoldGrams,
    pub integral_error: GoldGrams,
    pub previous_error: GoldGrams,
    pub fee_caps: FeeCaps,
    pub last_params: GovernanceParams,
}

impl GovernorPid {
    /// Gains are non-negative and bounded; the accumulated terms stay in
    /// their clamped bands; stored caps and modifiers are in range.
    pub open spec fn wf(self) -> bool {
        &&& 0 <= self.kp@ <= GAIN_LIMIT
        &&& 0 <= self.ki@ <= GAIN_LIMIT
        &&& 0 <= self.kd@ <= GAIN_LIMIT
        &&& -INTEGRAL_CLAMP <= self.integral_error@ <= INTEGRAL_CLAMP
        &&& -ERROR_BAND <= self.previous_error@ <= ERROR_BAND
        &&& caps_wf(self.fee_caps)
        &&& caps_wf(self.last_params.fee_caps)
        &&& modifiers_wf(self.last_params.fee_modifiers)
    }

    /// Create with the default gains Kp = 0.5, Ki = 0.1, Kd = 0.05.
    pub fn new() -> (r: GovernorPid)
        ensures
            r.wf(),
            r.kp@ == PID_KP && r.ki@ == PID_KI && r.kd@ == PID_KD,
            r.integral_error@ == 0,
            r.previous_error@ == 0,
            r.last_params.pressure == PressureQuadrant::GoldenEra,
            r.last_params.recommended_fee_adjustment@ == 0,
            r.last_params.health_score@ == 5 * SCALE,
            r.last_params.fee_modifiers.l0@ == SCALE,
            r.last_params.fee_modifiers.l1@ == SCALE,
            r.last_params.fee_modifiers.l2@ == SCALE,
            r.last_params.fee_modifiers.l3@ == SCALE,
            r.fee_caps.l0@ == MarketTier::L0.fee_cap_spec(),
            r.fee_caps.l1@ == MarketTier::L1.fee_cap_spec(),
            r.fee_caps.l2@ == MarketTier::L2.fee_cap_spec(),
            r.fee_caps.l3@ == MarketTier::L3.fee_cap_spec(),
    {
        GovernorPid {
            kp: GoldGrams::from_scaled(PID_KP),
            ki: GoldGrams::from_scaled(PID_KI),
            kd: GoldGrams::from_scaled(PID_KD),
            integral_error: GoldGrams::zero(),
            previous_error: GoldGrams::zero(),
            fee_caps: FeeCaps::default(),
            last_params: GovernanceParams::default(),
        }
    }

    /// Create with custom PID gains.
    pub fn with_gains(kp: GoldGrams, ki: GoldGrams, kd: GoldGrams) -> (r: GovernorPid)
        requires
            0 <= kp@ <= GAIN_LIMIT,
            0 <= ki@ <= GAIN_LIMIT,
            0 <= kd@ <= GAIN_LIMIT,
        ensures
            r.wf(),
            r.kp == kp && r.ki == ki && r.kd == kd,
            r.integral_error@ == 0,
            r.previous_error@ == 0,
    {
        GovernorPid { kp, ki, kd, ..GovernorPid::new() }
    }

    /// Return the last computed governance parameters (the defaults if
    /// `recalculate` has not been called yet).
    pub fn last_params(&self) -> (r: &GovernanceParams)
        ensures
            r == self.last_params,
    {
        &self.last_params
    }

    /// Run one PID control cycle.
    ///
    /// The error signal is the relative peg deviation; the integral is
    /// clamped to +/- 0.1 against windup; the final adjustment combines
    /// the health-bracket base with the PID terms, clamped to +/- 0.02.
    pub fn recalculate(&mut self, metrics: &NetworkMetrics) -> (r: GovernorOutput)
        requires
            old(self).wf(),
            metrics.wf(),
        ensures
            final(self).wf(),
            ({
                let e = error_signal_spec(
                    metrics.current_gold_price@,
                    metrics.target_gold_price@,
                );
                let health = health_score_spec(
                    e,
                    metrics.market_volatility@,
                    metrics.transaction_volume@,
                    metrics.liquidity_depth@,
                );
                let adj = adjustment_spec(*old(self), e, health);
                let q = quadrant_spec(
                    e,
                    metrics.network_velocity@,
                    metrics.transaction_volume@,
                    metrics.liquidity_depth@,
                );
                &&& final(self).integral_error@ == clamp_spec(
                    old(self).integral_error@ + e,
                    -INTEGRAL_CLAMP as int,
                    INTEGRAL_CLAMP as int,
                )
                &&& final(self).previous_error@ == e
                &&& final(self).kp == old(self).kp
                &&& final(self).ki == old(self).ki
                &&& final(self).kd == old(self).kd
                &&& final(self).fee_caps == old(self).fee_caps
                &&& r.fee_rate@ == fee_rate_spec(adj)
                &&& r.demurrage@ == q.demurrage_override_spec()
                &&& r.quadrant@ == q.label_spec()
                &&& r.status@ == q.status_spec()
                &&& r.verification_complexity == complexity_spec(health)
                &&& 1 <= r.verification_complexity <= 5
                &&& final(self).last_params.recommended_fee_adjustment@ == adj
                &&& final(self).last_params.pressure == q
                &&& final(self).last_params.health_score@ == health
                &&& final(self).last_params.fee_modifiers.l0@ == modifier_spec(
                    adj,
                    MarketTier::L0,
                )
                &&& final(self).last_params.fee_modifiers.l1@ == modifier_spec(
                    adj,
                    MarketTier::L1,
                )
                &&& final(self).last_params.fee_modifiers.l2@ == modifier_spec(
                    adj,
                    MarketTier::L2,
                )
                &&& final(self).last_params.fee_modifiers.l3@ == modifier_spec(
                    adj,
                    MarketTier::L3,
                )
                &&& final(self).last_params.fee_caps == old(self).fee_caps
                &&& -OUTPUT_CLAMP <= adj <= OUTPUT_CLAMP
                &&& 0 <= r.fee_rate@
            }),
    {
        let e = error_signal(metrics.current_gold_price, metrics.target_gold_price);
        let health = economic_health_score(
            e,
            metrics.market_volatility,
            metrics.transaction_volume,
            metrics.liquidity_depth,
        );

        // Integral with anti-windup.
        let integral = self.integral_error.add(e).clamp(
            GoldGrams::from_scaled(-INTEGRAL_CLAMP),
            GoldGrams::from_scaled(INTEGRAL_CLAMP),
        );
        self.integral_error = integral;

        // Derivative against the previous error.
        let derivative = e.sub(self.previous_error);
        self.previous_error = e;

        // PID law, combined with the health bracket, clamped.
        proof {
            lemma_pid_term_bounds(e@, integral@, derivative@, self.kp@, self.ki@, self.kd@);
            crate::fixed::lemma_scaled_mul_range(e@, self.kp@, ERROR_BAND as int, 10);
            crate::fixed::lemma_scaled_mul_range(integral@, self.ki@, INTEGRAL_CLAMP as int, 10);
            crate::fixed::lemma_scaled_mul_range(derivative@, self.kd@, 2 * ERROR_BAND, 10);
        }
        let pid = e.mul_signed(self.kp).add(integral.mul_signed(self.ki)).add(
            derivative.mul_signed(self.kd),
        );
        let base_adj = score_to_fee_adjustment(health);
        let adj = base_adj.add(pid).clamp(
            GoldGrams::from_scaled(-OUTPUT_CLAMP),
            GoldGrams::from_scaled(OUTPUT_CLAMP),
        );

        // Classification and outputs.
        let quadrant = classify_pressure(
            e,
            metrics.network_velocity,
            metrics.transaction_volume,
            metrics.liquidity_depth,
        );
        let fee_rate = GoldGrams::one().add(adj).mul(GoldGrams::from_scaled(BASE_FEE));
        let demurrage = quadrant.demurrage_override();
        let verification_complexity = complexity_from_health(health);

        proof {
            assert(-OUTPUT_CLAMP * 1_500_000_000_000 <= adj@ * 1_500_000_000_000 <= OUTPUT_CLAMP
                * 1_500_000_000_000) by (nonlinear_arith)
                requires
                    -OUTPUT_CLAMP <= adj@ <= OUTPUT_CLAMP,
            ;
        }
        let modifiers = TierModifiers::from_adjustment(adj);
        proof {
            crate::fixed::lemma_scaled_mul_range(adj@, 1_500_000_000_000, OUTPUT_CLAMP as int, 2);
            crate::fixed::lemma_scaled_mul_range(adj@, 1_200_000_000_000, OUTPUT_CLAMP as int, 2);
            crate::fixed::lemma_scaled_mul_range(adj@, 800_000_000_000, OUTPUT_CLAMP as int, 2);
            crate::fixed::lemma_scaled_mul_range(adj@, 500_000_000_000, OUTPUT_CLAMP as int, 2);
        }
        self.last_params = GovernanceParams {
            fee_modifiers: modifiers,
            pressure: quadrant,
            health_score: health,
            recommended_fee_adjustment: adj,
            fee_caps: self.fee_caps,
        };

        GovernorOutput {
            fee_rate,
            demurrage,
            quadrant: quadrant.label().to_owned(),
            status: quadrant.status().to_owned(),
            verification_complexity,
        }
    }

    /// Calculate the effective fee for a tier: `base * modifier * value`,
    /// floored at zero and capped at the tier's constitutional share of
    /// the packet value.
    pub fn calculate_fee(
        &self,
        params: &GovernanceParams,
        tier: MarketTier,
        base_rate: GoldGrams,
        packet_value: GoldGrams,
    ) -> (r: GoldGrams)
        requires
            0 <= base_rate@ <= RATE_LIMIT,
            0 <= packet_value@ <= VALUE_LIMIT,
            -10 * SCALE <= params.fee_modifiers.for_tier_spec(tier)@ <= 10 * SCALE,
            0 <= params.fee_caps.cap_for_spec(tier)@ <= SCALE,
        ensures
            ({
                let rate = if scaled_mul(params.fee_modifiers.for_tier_spec(tier)@, base_rate@)
                    >= 0 {
                    scaled_mul(params.fee_modifiers.for_tier_spec(tier)@, base_rate@)
                } else {
                    0
                };
                let raw = scaled_mul(rate, packet_value@);
                let cap = scaled_mul(params.fee_caps.cap_for_spec(tier)@, packet_value@);
                r@ == if raw <= cap {
                    raw
                } else {
                    cap
                }
            }),
            0 <= r@ <= packet_value@,
    {
        let modifier = params.fee_modifiers.for_tier(tier);
        proof {
            assert(-(10 * SCALE * RATE_LIMIT) <= modifier@ * base_rate@ <= 10 * SCALE
                * RATE_LIMIT) by (nonlinear_arith)
                requires
                    0 <= base_rate@ <= RATE_LIMIT,
                    -10 * SCALE <= modifier@ <= 10 * SCALE,
            ;
        }
        let rate = modifier.mul_signed(base_rate).max(GoldGrams::zero());
        proof {
            assert(0 <= rate@ ==> rate@ <= 10 * RATE_LIMIT) by (nonlinear_arith)
                requires
                    -(10 * SCALE * RATE_LIMIT) <= modifier@ * base_rate@ <= 10 * SCALE
                        * RATE_LIMIT,
                    rate@ == if scaled_mul(modifier@, base_rate@) >= 0 {
                        scaled_mul(modifier@, base_rate@)
                    } else {
                        0
                    },
            ;
            crate::fixed::lemma_mul_le(rate@, packet_value@, 10 * RATE_LIMIT, VALUE_LIMIT as int);
            crate::fixed::lemma_mul_le(
                params.fee_caps.cap_for_spec(tier)@,
                packet_value@,
                SCALE as int,
                VALUE_LIMIT as int,
            );
        }
        let raw = rate.mul(packet_value);
        let max_fee = params.fee_caps.cap_for(tier).mul(packet_value);
        proof {
            lemma_cap_below_value(params.fee_caps.cap_for_spec(tier)@, packet_value@);
        }
        raw.min(max_fee)
    }
}

impl Default for GovernorPid {
    fn default() -> (r: GovernorPid)
        ensures
            r.wf(),
            r.kp@ == PID_KP && r.ki@ == PID_KI && r.kd@ == PID_KD,
            r.integral_error@ == 0,
            r.previous_error@ == 0,
    {
        GovernorPid::new()
    }
}

/// The capped fee never exceeds the packet value when the cap fraction
/// is at most 1.
proof fn lemma_cap_below_value(cap: int, value: int)
    requires
        0 <= cap <= SCALE,
        0 <= value,
    ensures
        scaled_mul(cap, value) <= value,
        0 <= scaled_mul(cap, value),
{
    assert(cap * value <= SCALE * value) by (nonlinear_arith)
        requires
            0 <= value,
            cap <= SCALE,
    ;
    assert(0 <= cap * value) by (nonlinear_arith)
        requires
            0 <= value,
            0 <= cap,
    ;
    assert((cap * value) / (SCALE as int) <= ((SCALE as int) * value) / (SCALE as int))
        by (nonlinear_arith)
        requires
            cap * value <= SCALE * value,
    ;
    assert(((SCALE as int) * value) / (SCALE as int) == value) by (nonlinear_arith);
    assert(0 <= (cap * value) / (SCALE as int)) by (nonlinear_arith)
        requires
            0 <= cap * value,
    ;
}

/// The three PID products stay far inside the representable range.
proof fn lemma_pid_term_bounds(e: int, integral: int, derivative: int, kp: int, ki: int, kd: int)
    requires
        -ERROR_BAND <= e <= ERROR_BAND,
        -INTEGRAL_CLAMP <= integral <= INTEGRAL_CLAMP,
        -2 * ERROR_BAND <= derivative <= 2 * ERROR_BAND,
        0 <= kp <= GAIN_LIMIT,
        0 <= ki <= GAIN_LIMIT,
        0 <= kd <= GAIN_LIMIT,
    ensures
        -crate::fixed::MUL_PRODUCT_LIMIT <= e * kp <= crate::fixed::MUL_PRODUCT_LIMIT,
        -crate::fixed::MUL_PRODUCT_LIMIT <= integral * ki <= crate::fixed::MUL_PRODUCT_LIMIT,
        -crate::fixed::MUL_PRODUCT_LIMIT <= derivative * kd <= crate::fixed::MUL_PRODUCT_LIMIT,
{
    assert(-crate::fixed::MUL_PRODUCT_LIMIT <= e * kp <= crate::fixed::MUL_PRODUCT_LIMIT)
        by (nonlinear_arith)
        requires
            -ERROR_BAND <= e <= ERROR_BAND,
            0 <= kp <= GAIN_LIMIT,
    ;
    assert(-crate::fixed::MUL_PRODUCT_LIMIT <= integral * ki <= crate::fixed::MUL_PRODUCT_LIMIT)
        by (nonlinear_arith)
        requires
            -INTEGRAL_CLAMP <= integral <= INTEGRAL_CLAMP,
            0 <= ki <= GAIN_LIMIT,
    ;
    assert(-crate::fixed::MUL_PRODUCT_LIMIT <= derivative * kd <= crate::fixed::MUL_PRODUCT_LIMIT)
        by (nonlinear_arith)
        requires
            -2 * ERROR_BAND <= derivative <= 2 * ERROR_BAND,
            0 <= kd <= GAIN_LIMIT,
    ;
}

/// Relative peg error, clamped to the representable band.
pub fn error_signal(current: GoldGrams, target: GoldGrams) -> (r: GoldGrams)
    requires
        0 <= current@ <= VALUE_LIMIT,
        0 <= target@ <= VALUE_LIMIT,
    ensures
        r@ == error_signal_spec(current@, target@),
        -ERROR_BAND <= r@ <= ERROR_BAND,
{
    if target.is_zero() {
        GoldGrams::zero()
    } else {
        current.sub(target).div_signed(target).clamp(
            GoldGrams::from_scaled(-ERROR_BAND),
            GoldGrams::from_scaled(ERROR_BAND),
        )
    }
}

/// Economic health score in [0, 10] scaled units.
pub fn economic_health_score(
    e: GoldGrams,
    volatility: GoldGrams,
    volume: GoldGrams,
    liquidity: GoldGrams,
) -> (r: GoldGrams)
    requires
        -ERROR_BAND <= e@ <= ERROR_BAND,
        0 <= volatility@ <= SCALE,
        0 <= volume@ <= VALUE_LIMIT,
        0 <= liquidity@ <= VALUE_LIMIT,
    ensures
        r@ == health_score_spec(e@, volatility@, volume@, liquidity@),
        0 <= r@ <= 10 * SCALE,
{
    let zero = GoldGrams::zero();
    let one = GoldGrams::one();
    let ten = GoldGrams::from_scaled(10 * SCALE);
    let gold = one.sub(e.abs()).clamp(zero, one).mul_int(10);
    let calm = one.sub(volatility).clamp(zero, one).mul_int(10);
    let txn = volume.div(GoldGrams::from_scaled(HIGH_VOLUME)).clamp(zero, ten);
    let liq = liquidity.div(GoldGrams::from_scaled(LOW_LIQUIDITY)).clamp(zero, ten);
    proof {
        crate::fixed::lemma_mul_le(gold@, 400_000_000_000, 10 * SCALE, SCALE as int);
        crate::fixed::lemma_mul_le(calm@, 300_000_000_000, 10 * SCALE, SCALE as int);
        crate::fixed::lemma_mul_le(txn@, 200_000_000_000, 10 * SCALE, SCALE as int);
        crate::fixed::lemma_mul_le(liq@, 100_000_000_000, 10 * SCALE, SCALE as int);
    }
    let weighted = gold.mul(GoldGrams::from_scaled(400_000_000_000)).add(
        calm.mul(GoldGrams::from_scaled(300_000_000_000)),
    ).add(txn.mul(GoldGrams::from_scaled(200_000_000_000))).add(
        liq.mul(GoldGrams::from_scaled(100_000_000_000)),
    );
    proof {
        lemma_health_weighted_bounds(gold@, calm@, txn@, liq@);
    }
    weighted
}

/// The weighted health sum lies in [0, 10].
proof fn lemma_health_weighted_bounds(gold: int, calm: int, txn: int, liq: int)
    requires
        0 <= gold <= 10 * SCALE,
        0 <= calm <= 10 * SCALE,
        0 <= txn <= 10 * SCALE,
        0 <= liq <= 10 * SCALE,
    ensures
        0 <= scaled_mul(gold, 400_000_000_000) + scaled_mul(calm, 300_000_000_000) + scaled_mul(
            txn,
            200_000_000_000,
        ) + scaled_mul(liq, 100_000_000_000) <= 10 * SCALE,
{
    assert(0 <= scaled_mul(gold, 400_000_000_000) <= 4 * SCALE) by (nonlinear_arith)
        requires
            0 <= gold <= 10 * SCALE,
    ;
    assert(0 <= scaled_mul(calm, 300_000_000_000) <= 3 * SCALE) by (nonlinear_arith)
        requires
            0 <= calm <= 10 * SCALE,
    ;
    assert(0 <= scaled_mul(txn, 200_000_000_000) <= 2 * SCALE) by (nonlinear_arith)
        requires
            0 <= txn <= 10 * SCALE,
    ;
    assert(0 <= scaled_mul(liq, 100_000_000_000) <= SCALE) by (nonlinear_arith)
        requires
            0 <= liq <= 10 * SCALE,
    ;
}

/// Map a health score in [0, 10] to the bracketed base fee adjustment.
pub fn score_to_fee_adjustment(health: GoldGrams) -> (r: GoldGrams)
    ensures
        r@ == bracket_spec(health@),
        -8_000_000_000 <= r@ <= 5_000_000_000,
{
    if health.ge(GoldGrams::from_scaled(8_500_000_000_000)) {
        GoldGrams::from_scaled(-8_000_000_000)
    } else if health.ge(GoldGrams::from_scaled(7_500_000_000_000)) {
        GoldGrams::from_scaled(-6_000_000_000)
    } else if health.ge(GoldGrams::from_scaled(6_500_000_000_000)) {
        GoldGrams::from_scaled(-4_000_000_000)
    } else if health.ge(GoldGrams::from_scaled(5_500_000_000_000)) {
        GoldGrams::from_scaled(-2_000_000_000)
    } else if health.ge(GoldGrams::from_scaled(5_000_000_000_000)) {
        GoldGrams::zero()
    } else if health.ge(GoldGrams::from_scaled(4_000_000_000_000)) {
        GoldGrams::from_scaled(2_000_000_000)
    } else {
        GoldGrams::from_scaled(5_000_000_000)
    }
}

/// Classify the network pressure quadrant.
pub fn classify_pressure(
    e: GoldGrams,
    velocity: GoldGrams,
    volume: GoldGrams,
    liquidity: GoldGrams,
) -> (r: PressureQuadrant)
    ensures
        r == quadrant_spec(e@, velocity@, volume@, liquidity@),
{
    if e.gt(GoldGrams::from_scaled(DEVIATION_EMERGENCY)) {
        if velocity.gt(GoldGrams::from_scaled(HIGH_VELOCITY)) {
            PressureQuadrant::Bubble
        } else {
            PressureQuadrant::Bottleneck
        }
    } else if e.lt(GoldGrams::from_scaled(-DEVIATION_EMERGENCY)) {
        PressureQuadrant::Crash
    } else if velocity.lt(GoldGrams::from_scaled(LOW_VELOCITY)) && volume.lt(
        GoldGrams::from_scaled(LOW_VOLUME),
    ) {
        PressureQuadrant::Stagnation
    } else if liquidity.gt(GoldGrams::from_scaled(HIGH_LIQUIDITY)) && volume.lt(
        GoldGrams::from_scaled(LOW_VOLUME),
    ) {
        PressureQuadrant::Vacuum
    } else {
        PressureQuadrant::GoldenEra
    }
}

/// Verification complexity from the health score.
fn complexity_from_health(health: GoldGrams) -> (r: u64)
    requires
        0 <= health@ <= 10 * SCALE,
    ensures
        r == complexity_spec(health@),
        1 <= r <= 5,
{
    let shortfall = GoldGrams::one().sub(health.div_int(10));
    let rounded = GoldGrams::one().add(shortfall.mul_int(4)).add(
        GoldGrams::from_scaled(SCALE / 2),
    ).div_int(1_000_000_000_000);
    proof {
        assert(complexity_spec(health@) == (SCALE + 4 * (SCALE - health@ / 10) + SCALE / 2) / (
        SCALE as int));
        assert(1 <= (SCALE + 4 * (SCALE - health@ / 10) + SCALE / 2) / (SCALE as int) <= 5)
            by (nonlinear_arith)
            requires
                0 <= health@ <= 10 * SCALE,
        ;
    }
    rounded.to_scaled() as u64
}

/// Per-tier effective fee rates from a base fee rate: the implicit
/// adjustment is recovered from `rate = BASE_FEE * (1 + adj)`, the
/// per-tier modifiers applied, and each rate clamped to `[0, cap_L]` —
/// the constitutional caps are never crossed.
pub fn compute_tier_fee_rates(base_fee_rate: GoldGrams) -> (r: [GoldGrams; 4])
    requires
        0 <= base_fee_rate@ <= RATE_LIMIT,
    ensures
        forall|i: int|
            0 <= i < 4 ==> #[trigger] r@[i]@ == tier_rate_spec(base_fee_rate@, tier_of_index(i)),
        forall|i: int|
            0 <= i < 4 ==> 0 <= #[trigger] r@[i]@ <= tier_of_index(i).fee_cap_spec(),
{
    let adj = base_fee_rate.div(GoldGrams::from_scaled(BASE_FEE)).sub(GoldGrams::one());
    proof {
        assert(0 <= (base_fee_rate@ * (SCALE as int)) / (BASE_FEE as int) <= RATE_LIMIT * 1000)
            by (nonlinear_arith)
            requires
                0 <= base_fee_rate@ <= RATE_LIMIT,
        ;
    }
    let mods = TierModifiers::from_adjustment(adj);
    proof {
        crate::fixed::lemma_scaled_mul_range(adj@, 1_500_000_000_000, RATE_LIMIT * 1000, 2);
        crate::fixed::lemma_scaled_mul_range(adj@, 1_200_000_000_000, RATE_LIMIT * 1000, 2);
        crate::fixed::lemma_scaled_mul_range(adj@, 800_000_000_000, RATE_LIMIT * 1000, 2);
        crate::fixed::lemma_scaled_mul_range(adj@, 500_000_000_000, RATE_LIMIT * 1000, 2);
    }
    let r0 = one_tier_rate(base_fee_rate, mods.l0, GoldGrams::from_scaled(50_000_000_000));
    let r1 = one_tier_rate(base_fee_rate, mods.l1, GoldGrams::from_scaled(20_000_000_000));
    let r2 = one_tier_rate(base_fee_rate, mods.l2, GoldGrams::from_scaled(5_000_000_000));
    let r3 = one_tier_rate(base_fee_rate, mods.l3, GoldGrams::from_scaled(1_000_000_000));
    let out = [r0, r1, r2, r3];
    proof {
        assert(out@[0] == r0 && out@[1] == r1 && out@[2] == r2 && out@[3] == r3);
        assert forall|i: int| 0 <= i < 4 implies #[trigger] out@[i]@ == tier_rate_spec(
            base_fee_rate@,
            tier_of_index(i),
        ) by {
            if i == 0 {
            } else if i == 1 {
            } else if i == 2 {
            } else {
                assert(i == 3);
            }
        }
    }
    out
}

/// Tier for an index 0..3.
pub open spec fn tier_of_index(i: int) -> MarketTier {
    if i == 0 {
        MarketTier::L0
    } else if i == 1 {
        MarketTier::L1
    } else if i == 2 {
        MarketTier::L2
    } else {
        MarketTier::L3
    }
}

/// Effective fee rate of one tier: base rate times the tier modifier
/// derived from the implicit adjustment, clamped to `[0, cap]`.
pub open spec fn tier_rate_spec(base: int, tier: MarketTier) -> int {
    let adj = (base * (SCALE as int)) / (BASE_FEE as int) - SCALE;
    let m = modifier_spec(adj, tier);
    clamp_spec(scaled_mul(m, base), 0, tier.fee_cap_spec())
}

/// One tier's clamped effective rate.
fn one_tier_rate(base: GoldGrams, modifier: GoldGrams, cap: GoldGrams) -> (r: GoldGrams)
    requires
        0 <= base@ <= RATE_LIMIT,
        -RATE_LIMIT * 3000 <= modifier@ <= RATE_LIMIT * 3000,
        0 < cap@ <= SCALE,
    ensures
        r@ == clamp_spec(scaled_mul(modifier@, base@), 0, cap@),
{
    proof {
        assert(-(RATE_LIMIT * RATE_LIMIT * 3000) <= modifier@ * base@ <= RATE_LIMIT * RATE_LIMIT
            * 3000) by (nonlinear_arith)
            requires
                0 <= base@ <= RATE_LIMIT,
                -RATE_LIMIT * 3000 <= modifier@ <= RATE_LIMIT * 3000,
        ;
    }
    modifier.mul_signed(base).clamp(GoldGrams::zero(), cap)
}

} // verus!
