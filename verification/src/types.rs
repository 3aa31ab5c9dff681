//! Identity types, market tiers, packet lifecycle states, node roles.

use vstd::prelude::*;
use crate::fixed::GoldGrams;

verus! {

/// Unique node identifier used for routing and reward attribution.
#[derive(Debug, Hash, Eq, PartialEq)]
pub struct NodeId(pub String);

impl Clone for NodeId {
    fn clone(&self) -> (r: NodeId)
        ensures
            r.0@ == self.0@,
    {
        NodeId(self.0.clone())
    }
}

/// Unique value-packet identifier (32-byte hash).
#[derive(Debug, Clone, Copy, PartialEq, Eq, Hash)]
pub struct PacketId(pub [u8; 32]);

impl PacketId {
    /// Create from raw bytes.
    pub fn new(data: [u8; 32]) -> (r: PacketId)
        ensures
            r.0@ == data@,
    {
        PacketId(data)
    }

    /// Create a zeroed identifier (for defaults and tests).
    pub fn zero() -> (r: PacketId)
        ensures
            forall|i: int| 0 <= i < 32 ==> r.0@[i] == 0u8,
    {
        PacketId([0u8; 32])
    }
}

/// Market tier classified by transaction value: retail (L0) through
/// sovereign (L3), each with its own fee cap, demurrage rate, time to
/// live and hop limit.
#[derive(Debug, Clone, Copy, PartialEq, Eq, Structural, Hash)]
pub enum MarketTier {
    /// Retail / Consumers
    L0,
    /// Professional / Small Institutions
    L1,
    /// Major Institutions
    L2,
    /// Sovereign / Systemic Actors
    L3,
}

impl Default for MarketTier {
    fn default() -> (r: MarketTier)
        ensures
            r == MarketTier::L0,
    {
        MarketTier::L0
    }
}

impl MarketTier {
    /// Human-readable description of this tier.
    pub fn description(&self) -> (r: &'static str)
        ensures
            r@ == self.description_spec(),
    {
        match self {
            MarketTier::L0 => "Retail / Consumers",
            MarketTier::L1 => "Professional / Small Institutions",
            MarketTier::L2 => "Major Institutions",
            MarketTier::L3 => "Sovereign / Systemic Actors",
        }
    }

    pub open spec fn description_spec(self) -> Seq<char> {
        match self {
            MarketTier::L0 => "Retail / Consumers"@,
            MarketTier::L1 => "Professional / Small Institutions"@,
            MarketTier::L2 => "Major Institutions"@,
            MarketTier::L3 => "Sovereign / Systemic Actors"@,
        }
    }

    /// Constitutional fee cap as a fraction of packet value.
    pub fn fee_cap(&self) -> (r: GoldGrams)
        ensures
            r@ == self.fee_cap_spec(),
    {
        match self {
            MarketTier::L0 => GoldGrams::from_scaled(50_000_000_000),
            MarketTier::L1 => GoldGrams::from_scaled(20_000_000_000),
            MarketTier::L2 => GoldGrams::from_scaled(5_000_000_000),
            MarketTier::L3 => GoldGrams::from_scaled(1_000_000_000),
        }
    }

    /// Fee cap fraction in raw fixed-point units: 5%, 2%, 0.5%, 0.1%.
    pub open spec fn fee_cap_spec(self) -> int {
        match self {
            MarketTier::L0 => 50_000_000_000int,
            MarketTier::L1 => 20_000_000_000int,
            MarketTier::L2 => 5_000_000_000int,
            MarketTier::L3 => 1_000_000_000int,
        }
    }

    /// Per-tick demurrage rate (lambda).
    pub fn demurrage_lambda(&self) -> (r: GoldGrams)
        ensures
            r@ == match self {
                MarketTier::L0 => 13_900_000int,
                MarketTier::L1 => 11_570int,
                MarketTier::L2 => 1_157int,
                MarketTier::L3 => 116int,
            },
    {
        match self {
            MarketTier::L0 => GoldGrams::from_scaled(13_900_000),
            MarketTier::L1 => GoldGrams::from_scaled(11_570),
            MarketTier::L2 => GoldGrams::from_scaled(1_157),
            MarketTier::L3 => GoldGrams::from_scaled(116),
        }
    }

    /// Per-tick exponential decay factor `e^(-lambda)`, as a fixed-point
    /// constant. Multiplying a value by this each tick applies demurrage.
    pub fn demurrage_decay_factor(&self) -> (r: GoldGrams)
        ensures
            r@ == self.decay_factor_spec(),
            0 < r@ <= crate::fixed::SCALE,
    {
        match self {
            MarketTier::L0 => GoldGrams::from_scaled(999_986_100_097),
            MarketTier::L1 => GoldGrams::from_scaled(999_999_988_430),
            MarketTier::L2 => GoldGrams::from_scaled(999_999_998_843),
            MarketTier::L3 => GoldGrams::from_scaled(999_999_999_884),
        }
    }

    pub open spec fn decay_factor_spec(self) -> int {
        match self {
            MarketTier::L0 => 999_986_100_097int,
            MarketTier::L1 => 999_999_988_430int,
            MarketTier::L2 => 999_999_998_843int,
            MarketTier::L3 => 999_999_999_884int,
        }
    }

    /// Maximum time-to-live in seconds before forced expiry.
    pub fn max_ttl_secs(&self) -> (r: u64)
        ensures
            r == match self {
                MarketTier::L0 => 86_400u64,
                MarketTier::L1 => 1_209_600u64,
                MarketTier::L2 => 7_776_000u64,
                MarketTier::L3 => 15_552_000u64,
            },
    {
        match self {
            MarketTier::L0 => 86_400,
            MarketTier::L1 => 1_209_600,
            MarketTier::L2 => 7_776_000,
            MarketTier::L3 => 15_552_000,
        }
    }

    /// Time-to-live in simulation ticks.
    pub fn ttl_ticks(&self) -> (r: u64)
        ensures
            r == self.ttl_ticks_spec(),
    {
        match self {
            MarketTier::L0 => 100,
            MarketTier::L1 => 500,
            MarketTier::L2 => 2000,
            MarketTier::L3 => 7000,
        }
    }

    pub open spec fn ttl_ticks_spec(self) -> u64 {
        match self {
            MarketTier::L0 => 100u64,
            MarketTier::L1 => 500u64,
            MarketTier::L2 => 2000u64,
            MarketTier::L3 => 7000u64,
        }
    }

    /// Maximum number of hops before a packet is forced into orbit.
    pub fn hop_limit(&self) -> (r: u32)
        ensures
            r == self.hop_limit_spec(),
    {
        match self {
            MarketTier::L0 => 10,
            MarketTier::L1 => 20,
            MarketTier::L2 => 40,
            MarketTier::L3 => 80,
        }
    }

    pub open spec fn hop_limit_spec(self) -> u32 {
        match self {
            MarketTier::L0 => 10u32,
            MarketTier::L1 => 20u32,
            MarketTier::L2 => 40u32,
            MarketTier::L3 => 80u32,
        }
    }

    /// Classify a packet value into its tier: the boundary is inclusive
    /// below, so exactly 10 units is still L0.
    pub fn from_value(value: GoldGrams) -> (r: MarketTier)
        ensures
            r == MarketTier::from_value_spec(value@),
    {
        if value.le(GoldGrams::from_int(10)) {
            MarketTier::L0
        } else if value.le(GoldGrams::from_int(1_000)) {
            MarketTier::L1
        } else if value.le(GoldGrams::from_int(100_000)) {
            MarketTier::L2
        } else {
            MarketTier::L3
        }
    }

    /// Tier of a raw fixed-point value: L0 up to 10 units inclusive, L1 up
    /// to 1000, L2 up to 100000, L3 beyond.
    pub open spec fn from_value_spec(raw: int) -> MarketTier {
        if raw <= 10 * crate::fixed::SCALE {
            MarketTier::L0
        } else if raw <= 1_000 * crate::fixed::SCALE {
            MarketTier::L1
        } else if raw <= 100_000 * crate::fixed::SCALE {
            MarketTier::L2
        } else {
            MarketTier::L3
        }
    }
}

/// Packet lifecycle state. Born at `Minted`; the terminal states are
/// `Settled`, `Refunded` and `Dissolved`.
#[derive(Debug, Clone, Copy, PartialEq, Eq, Structural, Hash)]
pub enum PacketState {
    /// Just created at ingress
    Minted,
    /// Moving through the mesh
    InTransit,
    /// Arrived at destination, awaiting settlement
    Delivered,
    /// External settlement in progress
    Settling,
    /// TERMINAL: successfully settled
    Settled,
    /// In holding pattern (orbit buffer)
    Held,
    /// Delivery failed, awaiting retry or refund
    Stalled,
    /// Egress settlement failed, shards re-dispersed for retry
    Dispersed,
    /// TTL expired, refund initiated (non-terminal)
    Expired,
    /// TERMINAL: TTL expired, refund completed to sender
    Refunded,
    /// TERMINAL: both parties abandoned, residual value dissolved
    Dissolved,
}

impl PacketState {
    pub open spec fn is_terminal_spec(self) -> bool {
        self == PacketState::Settled || self == PacketState::Refunded || self
            == PacketState::Dissolved
    }

    /// Whether this state is terminal (no further transitions).
    pub fn is_terminal(&self) -> (r: bool)
        ensures
            r == self.is_terminal_spec(),
    {
        match self {
            PacketState::Settled | PacketState::Refunded | PacketState::Dissolved => true,
            _ => false,
        }
    }

    /// Whether this state is active (packet still in flight or actionable).
    pub fn is_active(&self) -> (r: bool)
        ensures
            r == !self.is_terminal_spec(),
    {
        match self {
            PacketState::Minted
            | PacketState::InTransit
            | PacketState::Delivered
            | PacketState::Settling
            | PacketState::Held
            | PacketState::Stalled
            | PacketState::Dispersed
            | PacketState::Expired => true,
            _ => false,
        }
    }
}

/// Node role in the mesh topology.
#[derive(Debug, Clone, Copy, PartialEq, Eq, Structural, Hash)]
pub enum NodeRole {
    /// Mint point for new packets
    Ingress,
    /// Settlement sink holding the crypto liquidity pool
    Egress,
    /// Forwarding node
    Transit,
    /// Organic-activity oracle
    NGauge,
    /// Removed from the mesh; never routes or settles
    Disabled,
}

/// Node behavioral strategy.
#[derive(Debug, Clone, Copy, PartialEq, Eq, Structural, Hash)]
pub enum NodeStrategy {
    /// Holds packets during high volatility
    RiskAverse,
    /// Charges 1.5x settlement fees
    Greedy,
    /// No behavioral modifier
    Passive,
}

/// Default strategy for nodes that declare none.
pub fn default_strategy() -> (r: NodeStrategy)
    ensures
        r == NodeStrategy::Passive,
{
    NodeStrategy::Passive
}

/// Per-tier demurrage (decay) parameters: value decays exponentially,
/// `V_t = V_0 * e^(-lambda * t)`.
#[derive(Debug, Clone, Copy, PartialEq, Eq, Structural)]
pub struct DemurrageRate {
    /// Decay rate per second.
    pub lambda: GoldGrams,
    /// Maximum time-to-live in seconds before forced expiry.
    pub max_ttl_secs: u64,
}

impl DemurrageRate {
    /// Remaining value after `elapsed_secs` of decay; zero once the
    /// time-to-live is exhausted. The remainder never exceeds what was
    /// put in.
    pub fn calculate_remaining(&self, initial: GoldGrams, elapsed_secs: u64) -> (r: GoldGrams)
        requires
            0 <= self.lambda@ <= crate::fixed::SCALE,
            0 <= initial@ <= crate::fixed::VALUE_LIMIT,
        ensures
            0 <= r@ <= initial@,
            elapsed_secs >= self.max_ttl_secs ==> r@ == 0,
            elapsed_secs < self.max_ttl_secs ==> r@ == (initial@
                * crate::fixed::exp_neg_general_spec(self.lambda@ * elapsed_secs)) / (
            crate::fixed::SCALE as int),
            self.lambda@ == 0 && elapsed_secs < self.max_ttl_secs && elapsed_secs == 0 ==> r@
                == initial@,
    {
        if elapsed_secs >= self.max_ttl_secs {
            return GoldGrams::zero();
        }
        proof {
            crate::fixed::lemma_mul_le(
                self.lambda@,
                elapsed_secs as int,
                crate::fixed::SCALE as int,
                0xffff_ffff_ffff_ffff,
            );
        }
        let exponent = self.lambda.mul_int(elapsed_secs);
        let factor = crate::fixed::exp_neg_general(exponent);
        proof {
            crate::fixed::lemma_mul_le(
                initial@,
                factor@,
                crate::fixed::VALUE_LIMIT as int,
                crate::fixed::SCALE as int,
            );
            if factor@ == crate::fixed::SCALE {
                assert(initial@ * crate::fixed::SCALE / (crate::fixed::SCALE as int) == initial@)
                    by (nonlinear_arith);
            }
        }
        initial.mul(factor)
    }
}

impl MarketTier {
    /// Default demurrage parameters for this tier: its per-tick decay
    /// rate and its maximum time-to-live.
    pub fn default_demurrage_rate(&self) -> (r: DemurrageRate)
        ensures
            r.lambda@ == match self {
                MarketTier::L0 => 13_900_000int,
                MarketTier::L1 => 11_570int,
                MarketTier::L2 => 1_157int,
                MarketTier::L3 => 116int,
            },
            r.max_ttl_secs == match self {
                MarketTier::L0 => 86_400u64,
                MarketTier::L1 => 1_209_600u64,
                MarketTier::L2 => 7_776_000u64,
                MarketTier::L3 => 15_552_000u64,
            },
    {
        DemurrageRate { lambda: self.demurrage_lambda(), max_ttl_secs: self.max_ttl_secs() }
    }
}

/// A value packet travelling through the mesh.
#[derive(Debug, Clone)]
pub struct SimPacket {
    pub id: u64,
    pub original_value: GoldGrams,
    pub current_value: GoldGrams,
    pub arrival_tick: u64,
    pub status: PacketState,
    pub origin_node: u32,
    pub target_node: Option<u32>,
    pub hops: u32,
    pub route_history: Vec<u32>,
    pub orbit_start_tick: Option<u64>,
    pub tier: MarketTier,
    pub ttl: u64,
    pub hop_limit: u32,
    pub fee_budget: GoldGrams,
    pub fees_consumed: GoldGrams,
    pub fee_schedule: Vec<GoldGrams>,
    pub spawn_tick: u64,
}

impl SimPacket {
    /// Value bounds that every live packet satisfies: the current value
    /// never exceeds the original, nothing is negative, and fees consumed
    /// stay within the budget.
    pub open spec fn wf(self) -> bool {
        &&& 0 <= self.current_value@ <= self.original_value@ <= crate::fixed::VALUE_LIMIT
        &&& 0 <= self.fees_consumed@ <= self.fee_budget@ <= crate::fixed::VALUE_LIMIT
    }
}

/// A node of the mesh.
#[derive(Debug, Clone)]
pub struct SimNode {
    pub id: u32,
    pub role: NodeRole,
    pub x: GoldGrams,
    pub y: GoldGrams,
    pub inventory_fiat: GoldGrams,
    pub inventory_crypto: GoldGrams,
    pub current_buffer_count: u32,
    pub neighbors: Vec<u32>,
    pub total_fees_earned: GoldGrams,
    pub accumulated_work: GoldGrams,
    pub strategy: NodeStrategy,
    pub pressure: GoldGrams,
    pub transit_fee: GoldGrams,
    pub bandwidth: GoldGrams,
    pub latency: GoldGrams,
    pub uptime: GoldGrams,
    pub tier_preference: Option<MarketTier>,
    pub upi_active: bool,
    pub ngauge_running: bool,
    pub kyc_valid: bool,
}

impl SimNode {
    /// Field bounds every node satisfies: coordinates and money fields in
    /// range, the crypto settlement pool never negative, the transit fee
    /// a fraction.
    pub open spec fn wf(self) -> bool {
        &&& 0 <= self.x@ <= crate::fixed::VALUE_LIMIT
        &&& 0 <= self.y@ <= crate::fixed::VALUE_LIMIT
        &&& 0 <= self.inventory_fiat@ <= crate::conservation::BOOK_LIMIT
        &&& 0 <= self.inventory_crypto@ <= crate::fixed::VALUE_LIMIT
        &&& 0 <= self.total_fees_earned@ <= crate::conservation::BOOK_LIMIT
        &&& 0 <= self.accumulated_work@ <= crate::fixed::VALUE_LIMIT
        &&& 0 <= self.transit_fee@ <= crate::fixed::SCALE
        &&& 0 <= self.bandwidth@ <= crate::fixed::VALUE_LIMIT
        &&& 0 <= self.latency@ <= crate::fixed::VALUE_LIMIT
        &&& 0 <= self.uptime@ <= crate::fixed::VALUE_LIMIT
    }
}

/// The snapshot of the world published after each tick.
#[derive(Debug, Clone)]
pub struct WorldState {
    pub current_tick: u64,
    pub gold_price: GoldGrams,
    pub peg_deviation: GoldGrams,
    pub network_velocity: GoldGrams,
    pub demand_factor: GoldGrams,
    pub panic_level: GoldGrams,
    pub governance_quadrant: String,
    pub governance_status: String,
    pub total_rewards_egress: GoldGrams,
    pub total_rewards_transit: GoldGrams,
    pub total_fees_collected: GoldGrams,
    pub total_demurrage_burned: GoldGrams,
    pub current_fee_rate: GoldGrams,
    pub current_demurrage_rate: GoldGrams,
    pub verification_complexity: u64,
    pub ngauge_activity_index: GoldGrams,
    pub total_value_leaked: GoldGrams,
    pub volatility: GoldGrams,
    pub settlement_count: u32,
    pub revert_count: u32,
    pub orbit_count: u32,
    pub total_input: GoldGrams,
    pub total_output: GoldGrams,
    pub active_value: GoldGrams,
    pub spawn_count: u32,
    pub organic_ratio: GoldGrams,
    pub surge_multiplier: GoldGrams,
    pub circuit_breaker_active: bool,
    pub dissolved_count: u32,
    pub held_count: u32,
    pub tier_distribution: [u32; 4],
    pub effective_price_composite: GoldGrams,
    pub network_fee_component: GoldGrams,
    pub speculation_component: GoldGrams,
    pub float_component: GoldGrams,
    pub tier_fee_rates: [GoldGrams; 4],
}

/// Per-node summary published with each tick.
#[derive(Debug, Clone)]
pub struct NodeUpdate {
    pub id: u32,
    pub buffer_count: u32,
    pub inventory_fiat: GoldGrams,
    pub inventory_crypto: GoldGrams,
}

/// What one call of `tick` returns.
#[derive(Debug, Clone)]
pub struct TickResult {
    pub state: WorldState,
    pub active_packets: Vec<SimPacket>,
    pub node_updates: Vec<NodeUpdate>,
}

/// Cumulative simulation statistics.
#[derive(Debug, Clone)]
pub struct SimStats {
    pub total_input: GoldGrams,
    pub total_output: GoldGrams,
    pub total_burned: GoldGrams,
    pub total_fees: GoldGrams,
    pub total_leaked: GoldGrams,
    pub settlement_count: u32,
    pub revert_count: u32,
    pub orbit_count: u32,
    pub avg_hops: GoldGrams,
    pub avg_time_to_settle: GoldGrams,
}

} // verus!
