//! The tick-driven simulation engine.
//!
//! One `tick_core` call advances the world one step: deliver matured
//! in-transit packets, recompute volatility and the liquidity
//! coefficient, run the Governor, spawn traffic, walk every node buffer
//! (demurrage, expiry, dissolution, orbit timeout, settlement, routing),
//! and publish a snapshot.
//!
//! The engine's central invariant is the conservation law, and it holds
//! here as an exact equality, not an approximation:
//!
//! `total_input == total_output + total_fees + total_burned + active_value`
//!
//! where the active value is the sum of every packet in a node buffer or
//! on the in-transit queue. Every flow (mint, decay, fee, settlement,
//! refund, dissolution) moves value between these books and nothing else.
//!
//! Bookkeeping outside the conservation equation (per-node earnings,
//! fiat inventories, NGauge work) saturates at a bound far beyond any
//! reachable magnitude instead of overflowing.

use vstd::prelude::*;
use crate::conservation::BOOK_LIMIT;
use crate::conservation::ConservationLaw;
use crate::engauge::NGaugeState;
use crate::fixed::GoldGrams;
use crate::fixed::SCALE;
use crate::fixed::VALUE_LIMIT;
use crate::governor::GovernorPid;
use crate::governor::RATE_LIMIT;
use crate::types::MarketTier;
use crate::types::NodeRole;
use crate::types::NodeStrategy;
use crate::types::PacketState;
use crate::types::SimNode;
use crate::types::SimPacket;
use crate::types::WorldState;

verus! {

/// Largest number of nodes a mesh may hold.
pub const MAX_NODES: u32 = 1_000_000;

/// Largest gold price accepted (10^6 per unit).
pub const PRICE_LIMIT: i128 = 1_000_000_000_000_000_000;

/// Largest demand factor accepted (1000.0).
pub const DEMAND_LIMIT: i128 = 1_000_000_000_000_000;

/// Ticks stay below 2^60, so arrival times never overflow.
pub const TICK_LIMIT: u64 = 0x1000_0000_0000_0000;

/// Sum of the current values of a run of packets.
pub open spec fn packets_value(s: Seq<SimPacket>) -> int
    decreases s.len(),
{
    if s.len() == 0 {
        0
    } else {
        packets_value(s.drop_last()) + s.last().current_value@
    }
}

/// Sum of the packet values across all node buffers.
pub open spec fn buffers_value(b: Seq<Vec<SimPacket>>) -> int
    decreases b.len(),
{
    if b.len() == 0 {
        0
    } else {
        buffers_value(b.drop_last()) + packets_value(b.last()@)
    }
}

/// One packet fit for the engine: value bounds hold, the hop limit is a
/// tier-scale number, and any transit target is a real node.
pub open spec fn packet_ok(p: SimPacket, n: int) -> bool {
    &&& p.wf()
    &&& p.hop_limit <= 100_000
    &&& match p.target_node {
        Option::Some(t) => (t as int) < n,
        Option::None => true,
    }
}

/// All packets in a buffer are fit.
pub open spec fn buffer_ok(s: Seq<SimPacket>, n: int) -> bool {
    forall|i: int| 0 <= i < s.len() ==> #[trigger] packet_ok(s[i], n)
}

/// All packets in every buffer are fit.
pub open spec fn buffers_ok(b: Seq<Vec<SimPacket>>, n: int) -> bool {
    forall|i: int| 0 <= i < b.len() ==> #[trigger] buffer_ok(b[i]@, n)
}

/// Queue packets additionally carry a transit target.
pub open spec fn queue_ok(s: Seq<SimPacket>, n: int) -> bool {
    &&& buffer_ok(s, n)
    &&& forall|i: int| 0 <= i < s.len() ==> #[trigger] s[i].target_node is Some
}

/// `b` extends `a`: every packet of `a` is still in place, in order.
pub open spec fn buffer_extends(a: Seq<SimPacket>, b: Seq<SimPacket>) -> bool {
    &&& a.len() <= b.len()
    &&& forall|j: int| 0 <= j < a.len() ==> a[j] == #[trigger] b[j]
}

/// Every buffer of `b` extends the matching buffer of `a`.
pub open spec fn buffers_extend(a: Seq<Vec<SimPacket>>, b: Seq<Vec<SimPacket>>) -> bool {
    &&& a.len() == b.len()
    &&& forall|i: int| 0 <= i < a.len() ==> buffer_extends(#[trigger] a[i]@, b[i]@)
}

/// The value a packet carries into this tick's processing after its
/// tier's exponential demurrage is applied once.
pub open spec fn decayed_value(p: SimPacket) -> int {
    (p.current_value@ * p.tier.decay_factor_spec()) / (SCALE as int)
}

/// A fresh head packet (not held, not orbiting) that is alive, unexpired
/// and covered by the pool settles this tick when its node is an egress.
pub open spec fn head_settles(p: SimPacket, inventory: int, tick: u64) -> bool {
    &&& !(p.status is Held)
    &&& p.orbit_start_tick is None
    &&& !(p.ttl > 0 && tick >= p.ttl)
    &&& 0 < decayed_value(p) <= inventory
}

/// A fresh head packet past its time-to-live refunds this tick.
pub open spec fn head_expired(p: SimPacket, tick: u64) -> bool {
    &&& p.orbit_start_tick is None
    &&& p.ttl > 0 && tick >= p.ttl
}

/// The fee one settlement collects: the governor's tier fee on the
/// packet's original value, shaped by the node's strategy, capped by the
/// packet's remaining value and its remaining fee budget.
pub open spec fn settle_fee_spec(e: ArenaSimulation, p: SimPacket, strategy: NodeStrategy) -> int {
    let params = e.core_pid.last_params;
    let m = params.fee_modifiers.for_tier_spec(p.tier)@;
    let rate = if crate::fixed::scaled_mul(m, e.state.current_fee_rate@) >= 0 {
        crate::fixed::scaled_mul(m, e.state.current_fee_rate@)
    } else {
        0
    };
    let raw = crate::fixed::scaled_mul(rate, p.original_value@);
    let cap = crate::fixed::scaled_mul(params.fee_caps.cap_for_spec(p.tier)@, p.original_value@);
    let governed = if raw <= cap {
        raw
    } else {
        cap
    };
    let total_fee = crate::fixed::min_spec(governed, p.current_value@);
    let strat = if strategy is Greedy {
        SCALE + SCALE / 2
    } else {
        SCALE as int
    };
    let adjusted = (total_fee * strat) / (SCALE as int);
    let budget = if p.fee_budget@ - p.fees_consumed@ >= 0 {
        p.fee_budget@ - p.fees_consumed@
    } else {
        0
    };
    crate::fixed::min_spec(crate::fixed::min_spec(adjusted, p.current_value@), budget)
}

/// Node `i` of the engine holds a head packet that must settle this tick.
pub open spec fn egress_head_settles(e: ArenaSimulation, i: int, tick: u64) -> bool {
    &&& e.nodes@[i].role is Egress
    &&& e.node_buffers@[i]@.len() > 0
    &&& head_settles(e.node_buffers@[i]@[0], e.nodes@[i].inventory_crypto@, tick)
}

/// Node `i` of the engine holds a head packet that must refund this tick.
pub open spec fn head_refunds(e: ArenaSimulation, i: int, tick: u64) -> bool {
    &&& !(e.nodes@[i].role is Disabled)
    &&& e.node_buffers@[i]@.len() > 0
    &&& head_expired(e.node_buffers@[i]@[0], tick)
}

/// How many packets of a run are in the held (orbit) state.
pub open spec fn held_in(s: Seq<SimPacket>) -> int
    decreases s.len(),
{
    if s.len() == 0 {
        0
    } else {
        held_in(s.drop_last()) + if s.last().status is Held {
            1int
        } else {
            0int
        }
    }
}

/// How many packets across all buffers are in the held state.
pub open spec fn held_total(b: Seq<Vec<SimPacket>>) -> int
    decreases b.len(),
{
    if b.len() == 0 {
        0
    } else {
        held_total(b.drop_last()) + held_in(b.last()@)
    }
}

/// Panic above one half doubles demand pressure: the spawn multiplier.
pub open spec fn spawn_multiplier(panic: int) -> int {
    if panic > SCALE / 2 {
        (SCALE as int) + panic
    } else {
        SCALE as int
    }
}

/// How many traffic candidates one tick produces:
/// `floor(demand * 5 * multiplier)`.
pub open spec fn spawn_target(demand: int, panic: int) -> int {
    ((demand * 5 * spawn_multiplier(panic)) / (SCALE as int)) / (SCALE as int)
}

/// Whether the mesh has at least one ingress node.
pub open spec fn has_ingress(nodes: Seq<SimNode>) -> bool {
    exists|i: int| 0 <= i < nodes.len() && nodes[i].role is Ingress
}

/// The deterministic value of one auto-spawned traffic candidate, from
/// the tick, the candidate index and the packet counter at tick start.
pub open spec fn auto_amount(tick: u64, s: int, base: u64) -> int {
    let selector = ((base as int % 4) + (s % 4)) % 4;
    let roll = (tick as int + s) % 900_000;
    if selector == 0 {
        (1 + roll % 9) * (SCALE as int)
    } else if selector == 1 {
        (50 + roll % 950) * (SCALE as int)
    } else if selector == 2 {
        (1_000 + roll % 99_000) * (SCALE as int)
    } else {
        (100_000 + roll) * (SCALE as int)
    }
}

/// Total value of the first `count` auto-spawn candidates.
pub open spec fn auto_amounts_sum(tick: u64, count: int, base: u64) -> int
    decreases count,
{
    if count <= 0 {
        0
    } else {
        auto_amounts_sum(tick, count - 1, base) + auto_amount(tick, count - 1, base)
    }
}

/// Count of queued packets still travelling past this tick.
pub open spec fn unmatured_count(s: Seq<SimPacket>, tick: u64) -> int
    decreases s.len(),
{
    if s.len() == 0 {
        0
    } else {
        unmatured_count(s.drop_last(), tick) + if s.last().arrival_tick > tick {
            1int
        } else {
            0int
        }
    }
}

/// Total value of the queued packets that mature at or before this tick.
pub open spec fn matured_value(s: Seq<SimPacket>, tick: u64) -> int
    decreases s.len(),
{
    if s.len() == 0 {
        0
    } else {
        matured_value(s.drop_last(), tick) + if s.last().arrival_tick <= tick {
            s.last().current_value@
        } else {
            0int
        }
    }
}

/// The whole simulation mesh and its books.
pub struct ArenaSimulation {
    pub nodes: Vec<SimNode>,
    pub message_queue: Vec<SimPacket>,
    pub node_buffers: Vec<Vec<SimPacket>>,
    pub state: WorldState,
    pub total_input: GoldGrams,
    pub total_output: GoldGrams,
    pub total_burned: GoldGrams,
    pub total_fees: GoldGrams,
    pub total_rewards_egress: GoldGrams,
    pub total_rewards_transit: GoldGrams,
    pub packet_id_counter: u64,
    pub last_gold_price: GoldGrams,
    pub settlement_count: u32,
    pub revert_count: u32,
    pub total_settlement_hops: u64,
    pub total_settlement_time: u64,
    pub gold_price_history: Vec<GoldGrams>,
    pub lambda_ema: GoldGrams,
    pub conservation_law: ConservationLaw,
    pub engauge_state: NGaugeState,
    pub core_pid: GovernorPid,
}

impl ArenaSimulation {
    /// The active value: everything sitting in a node buffer or on the
    /// in-transit queue.
    pub open spec fn active_total(self) -> int {
        buffers_value(self.node_buffers@) + packets_value(self.message_queue@)
    }

    /// The exact conservation law over the engine's books.
    pub open spec fn books_balanced(self) -> bool {
        self.total_input@ == self.total_output@ + self.total_fees@ + self.total_burned@
            + self.active_total()
    }

    /// Everything in the engine invariant except the balance equation:
    /// a well-formed mesh, fit packets everywhere, every component within
    /// its bounds. During a tick the balance is carried explicitly while
    /// a buffer is out being processed; `core_ok` is what holds at every
    /// moment.
    pub open spec fn core_ok(self) -> bool {
        let n = self.nodes@.len() as int;
        &&& self.nodes@.len() <= MAX_NODES
        &&& self.node_buffers@.len() == self.nodes@.len()
        &&& crate::routing::nodes_wf(self.nodes@)
        &&& buffers_ok(self.node_buffers@, n)
        &&& queue_ok(self.message_queue@, n)
        &&& 0 <= self.total_input@ <= BOOK_LIMIT
        &&& 0 <= self.total_output@
        &&& 0 <= self.total_burned@
        &&& 0 <= self.total_fees@
        &&& 0 <= self.total_rewards_egress@ <= BOOK_LIMIT
        &&& 0 <= self.total_rewards_transit@ <= BOOK_LIMIT
        &&& self.conservation_law.wf()
        &&& self.engauge_state.wf()
        &&& self.core_pid.wf()
        &&& 0 <= self.state.gold_price@ <= PRICE_LIMIT
        &&& 0 <= self.state.demand_factor@ <= DEMAND_LIMIT
        &&& 0 <= self.state.panic_level@ <= SCALE
        &&& 0 <= self.state.network_velocity@ <= VALUE_LIMIT
        &&& 0 <= self.state.ngauge_activity_index@ <= SCALE
        &&& 0 <= self.state.current_fee_rate@ <= RATE_LIMIT
        &&& self.state.verification_complexity <= 1000
        &&& self.gold_price_history@.len() <= 20
        &&& (forall|i: int|
            0 <= i < self.gold_price_history@.len()
                ==> 0 <= #[trigger] self.gold_price_history@[i]@ <= PRICE_LIMIT)
        &&& 0 <= self.lambda_ema@ <= 1_000_000 * SCALE
        &&& 0 <= self.last_gold_price@ <= PRICE_LIMIT
        &&& self.state.current_tick <= TICK_LIMIT
    }

    /// The engine invariant: the structural invariant plus the exactly
    /// balanced books.
    pub open spec fn wf(self) -> bool {
        self.core_ok() && self.books_balanced()
    }

    /// Non-negativity of the active value, derived from the per-packet
    /// bounds.
    pub proof fn lemma_active_nonneg(self)
        requires
            self.wf(),
        ensures
            0 <= self.active_total(),
            self.total_output@ <= BOOK_LIMIT,
            self.total_burned@ <= BOOK_LIMIT,
            self.total_fees@ <= BOOK_LIMIT,
            self.active_total() <= BOOK_LIMIT,
    {
        lemma_buffers_value_nonneg(self.node_buffers@, self.nodes@.len() as int);
        lemma_packets_value_nonneg(self.message_queue@, self.nodes@.len() as int);
    }
}

/// Packet sums of fit packets are non-negative.
pub proof fn lemma_packets_value_nonneg(s: Seq<SimPacket>, n: int)
    requires
        buffer_ok(s, n),
    ensures
        0 <= packets_value(s),
    decreases s.len(),
{
    if s.len() > 0 {
        assert(buffer_ok(s.drop_last(), n)) by {
            assert(forall|i: int|
                0 <= i < s.len() - 1 ==> s.drop_last()[i] == #[trigger] s[i]);
        }
        lemma_packets_value_nonneg(s.drop_last(), n);
        assert(packet_ok(s.last(), n));
    }
}

/// Buffer sums of fit packets are non-negative.
pub proof fn lemma_buffers_value_nonneg(b: Seq<Vec<SimPacket>>, n: int)
    requires
        buffers_ok(b, n),
    ensures
        0 <= buffers_value(b),
    decreases b.len(),
{
    if b.len() > 0 {
        assert(buffers_ok(b.drop_last(), n)) by {
            assert(forall|i: int|
                0 <= i < b.len() - 1 ==> b.drop_last()[i] == #[trigger] b[i]);
        }
        lemma_buffers_value_nonneg(b.drop_last(), n);
        assert(buffer_ok(b.last()@, n));
        lemma_packets_value_nonneg(b.last()@, n);
    }
}

/// Appending one packet adds exactly its value.
pub proof fn lemma_packets_value_push(s: Seq<SimPacket>, p: SimPacket)
    ensures
        packets_value(s.push(p)) == packets_value(s) + p.current_value@,
{
    assert(s.push(p).drop_last() =~= s);
}

/// Replacing one buffer changes the total by the difference of the two
/// buffer sums.
pub proof fn lemma_buffers_value_update(b: Seq<Vec<SimPacket>>, i: int, v: Vec<SimPacket>)
    requires
        0 <= i < b.len(),
    ensures
        buffers_value(b.update(i, v)) == buffers_value(b) - packets_value(b[i]@) + packets_value(
            v@,
        ),
    decreases b.len(),
{
    if i == b.len() - 1 {
        assert(b.update(i, v).drop_last() =~= b.drop_last());
        assert(b.update(i, v).last() == v);
    } else {
        assert(b.update(i, v).drop_last() =~= b.drop_last().update(i, v));
        assert(b.update(i, v).last() == b.last());
        lemma_buffers_value_update(b.drop_last(), i, v);
    }
}

/// Fitness of every packet carries to a replaced buffer.
pub proof fn lemma_buffers_ok_update(b: Seq<Vec<SimPacket>>, i: int, v: Vec<SimPacket>, n: int)
    requires
        0 <= i < b.len(),
        buffers_ok(b, n),
        buffer_ok(v@, n),
    ensures
        buffers_ok(b.update(i, v), n),
{
    assert(forall|j: int|
        0 <= j < b.len() && j != i ==> b.update(i, v)[j] == #[trigger] b[j]);
}

/// Saturating bump of a u32 counter.
fn bump_u32(x: u32) -> (r: u32)
    ensures
        r == if x < u32::MAX {
            (x + 1) as u32
        } else {
            u32::MAX
        },
{
    if x < u32::MAX {
        x + 1
    } else {
        x
    }
}

/// Saturating add of non-negative bookkeeping amounts, capped at the
/// book limit (far beyond any reachable magnitude).
fn saturating_credit(x: GoldGrams, delta: GoldGrams) -> (r: GoldGrams)
    requires
        0 <= x@ <= BOOK_LIMIT,
        0 <= delta@ <= BOOK_LIMIT,
    ensures
        r@ == if x@ + delta@ <= BOOK_LIMIT {
            x@ + delta@
        } else {
            BOOK_LIMIT as int
        },
        0 <= r@ <= BOOK_LIMIT,
{
    x.add(delta).min(GoldGrams::from_scaled(BOOK_LIMIT))
}

/// Role of the node at one grid position: the roles cycle through
/// ingress, egress, transit, oracle.
pub open spec fn initial_role(i: int) -> NodeRole {
    if i % 4 == 0 {
        NodeRole::Ingress
    } else if i % 4 == 1 {
        NodeRole::Egress
    } else if i % 4 == 2 {
        NodeRole::Transit
    } else {
        NodeRole::NGauge
    }
}

/// Strategy of the node at one grid position: cycles through the three
/// strategies.
pub open spec fn initial_strategy(i: int) -> NodeStrategy {
    if i % 3 == 0 {
        NodeStrategy::RiskAverse
    } else if i % 3 == 1 {
        NodeStrategy::Greedy
    } else {
        NodeStrategy::Passive
    }
}

/// Neighbors on the 6-wide grid: left, right, up, and (within the first
/// four rows) down.
pub open spec fn initial_neighbors(i: int, n: int) -> Seq<u32> {
    let col = i % 6;
    let row = i / 6;
    let s0 = Seq::<u32>::empty();
    let s1 = if col > 0 && i - 1 < n {
        s0.push((i - 1) as u32)
    } else {
        s0
    };
    let s2 = if col < 5 && i + 1 < n {
        s1.push((i + 1) as u32)
    } else {
        s1
    };
    let s3 = if row > 0 && i - 6 < n {
        s2.push((i - 6) as u32)
    } else {
        s2
    };
    if row < 3 && i + 6 < n {
        s3.push((i + 6) as u32)
    } else {
        s3
    }
}

/// The node at one grid position of a fresh mesh: 100 units of crypto
/// settlement liquidity, 10000 of fiat, uniform capacity metrics.
pub open spec fn initial_node_matches(nd: SimNode, i: int, n: int) -> bool {
    &&& nd.id == i as u32
    &&& nd.role == initial_role(i)
    &&& nd.x@ == (i % 6) * SCALE
    &&& nd.y@ == (i / 6) * SCALE
    &&& nd.inventory_fiat@ == 10_000 * SCALE
    &&& nd.inventory_crypto@ == 100 * SCALE
    &&& nd.current_buffer_count == 0u32
    &&& nd.neighbors@ == initial_neighbors(i, n)
    &&& nd.total_fees_earned@ == 0
    &&& nd.accumulated_work@ == 0
    &&& nd.strategy == initial_strategy(i)
    &&& nd.pressure@ == 0
    &&& nd.transit_fee@ == SCALE / 100
    &&& nd.bandwidth@ == 100 * SCALE
    &&& nd.latency@ == 10 * SCALE
    &&& nd.uptime@ == 99 * SCALE / 100
    &&& nd.tier_preference is None
    &&& nd.upi_active
    &&& nd.ngauge_running
    &&& nd.kyc_valid
}

/// The fresh world-state snapshot.
pub open spec fn initial_state_matches(s: WorldState) -> bool {
    &&& s.current_tick == 0
    &&& s.gold_price@ == 2600 * SCALE
    &&& s.peg_deviation@ == 0
    &&& s.network_velocity@ == 0
    &&& s.demand_factor@ == SCALE / 5
    &&& s.panic_level@ == 0
    &&& s.governance_quadrant@ == "D: GOLDEN ERA"@
    &&& s.governance_status@ == "STABLE"@
    &&& s.total_rewards_egress@ == 0
    &&& s.total_rewards_transit@ == 0
    &&& s.total_fees_collected@ == 0
    &&& s.total_demurrage_burned@ == 0
    &&& s.current_fee_rate@ == SCALE / 1000
    &&& s.current_demurrage_rate@ == 5 * SCALE / 1000
    &&& s.verification_complexity == 1
    &&& s.ngauge_activity_index@ == 0
    &&& s.total_value_leaked@ == 0
    &&& s.volatility@ == 0
    &&& s.settlement_count == 0
    &&& s.revert_count == 0
    &&& s.orbit_count == 0
    &&& s.total_input@ == 0
    &&& s.total_output@ == 0
    &&& s.active_value@ == 0
    &&& s.spawn_count == 0
    &&& s.organic_ratio@ == SCALE
    &&& s.surge_multiplier@ == SCALE
    &&& !s.circuit_breaker_active
    &&& s.dissolved_count == 0
    &&& s.held_count == 0
    &&& s.tier_distribution@ == seq![0u32, 0u32, 0u32, 0u32]
    &&& s.effective_price_composite@ == 0
    &&& s.network_fee_component@ == 0
    &&& s.speculation_component@ == 0
    &&& s.float_component@ == 0
    &&& (forall|i: int| 0 <= i < 4 ==> #[trigger] s.tier_fee_rates@[i]@ == 0)
}

/// A fresh engine of `n` nodes: the grid mesh with its default books,
/// all counters zero, and every component in its initial state.
pub open spec fn is_initial_engine(e: ArenaSimulation, n: int) -> bool {
    &&& e.nodes@.len() == n
    &&& (forall|i: int| 0 <= i < n ==> #[trigger] initial_node_matches(e.nodes@[i], i, n))
    &&& e.node_buffers@.len() == n
    &&& (forall|i: int| 0 <= i < n ==> #[trigger] e.node_buffers@[i]@.len() == 0)
    &&& e.message_queue@.len() == 0
    &&& initial_state_matches(e.state)
    &&& e.total_input@ == 0
    &&& e.total_output@ == 0
    &&& e.total_burned@ == 0
    &&& e.total_fees@ == 0
    &&& e.total_rewards_egress@ == 0
    &&& e.total_rewards_transit@ == 0
    &&& e.packet_id_counter == 0
    &&& e.last_gold_price@ == 2600 * SCALE
    &&& e.settlement_count == 0
    &&& e.revert_count == 0
    &&& e.total_settlement_hops == 0
    &&& e.total_settlement_time == 0
    &&& e.gold_price_history@.len() == 1
    &&& e.gold_price_history@[0]@ == 2600 * SCALE
    &&& e.lambda_ema@ == SCALE
    &&& e.conservation_law.cumulative_error@ == 0
    &&& e.conservation_law.circuit_breaker_threshold@ == SCALE / 1000
    &&& !e.conservation_law.circuit_breaker_tripped
    &&& e.conservation_law.consecutive_violations == 0
    &&& e.engauge_state.activity_view().len() == 0
    &&& e.engauge_state.velocity_view().len() == 0
    &&& e.engauge_state.organic_ratio@ == SCALE
    &&& !e.engauge_state.speculative_detected
    &&& is_initial_pid(e.core_pid)
}

/// The freshly constructed controller: default gains, no accumulated
/// error, neutral stored parameters.
pub open spec fn is_initial_pid(g: GovernorPid) -> bool {
    &&& g.kp@ == crate::governor::PID_KP
    &&& g.ki@ == crate::governor::PID_KI
    &&& g.kd@ == crate::governor::PID_KD
    &&& g.integral_error@ == 0
    &&& g.previous_error@ == 0
    &&& g.last_params.pressure == crate::governor::PressureQuadrant::GoldenEra
    &&& g.last_params.health_score@ == 5 * SCALE
    &&& g.last_params.recommended_fee_adjustment@ == 0
    &&& g.last_params.fee_modifiers.l0@ == SCALE
    &&& g.last_params.fee_modifiers.l1@ == SCALE
    &&& g.last_params.fee_modifiers.l2@ == SCALE
    &&& g.last_params.fee_modifiers.l3@ == SCALE
    &&& crate::governor::caps_wf(g.fee_caps)
    &&& crate::governor::caps_wf(g.last_params.fee_caps)
}

impl ArenaSimulation {
    /// Build the neighbor list of one grid position.
    fn build_neighbors(i: u32, n: u32) -> (r: Vec<u32>)
        requires
            i < n,
            n <= MAX_NODES,
        ensures
            r@ == initial_neighbors(i as int, n as int),
            forall|j: int| 0 <= j < r@.len() ==> #[trigger] r@[j] < n,
    {
        let mut v: Vec<u32> = Vec::new();
        let col = i % 6;
        let row = i / 6;
        if col > 0 && i - 1 < n {
            v.push(i - 1);
        }
        if col < 5 && i + 1 < n {
            v.push(i + 1);
        }
        if row > 0 && i - 6 < n {
            v.push(i - 6);
        }
        if row < 3 && i + 6 < n {
            v.push(i + 6);
        }
        proof {
            assert(v@ =~= initial_neighbors(i as int, n as int));
        }
        v
    }

    /// Construct a fresh mesh of `node_count` nodes laid out on a 6-wide
    /// grid, roles and strategies assigned cyclically, every egress node
    /// seeded with 100 units of settlement liquidity.
    pub fn new(node_count: u32) -> (r: ArenaSimulation)
        requires
            node_count <= MAX_NODES,
        ensures
            r.wf(),
            is_initial_engine(r, node_count as int),
    {
        let mut nodes: Vec<SimNode> = Vec::new();
        let mut node_buffers: Vec<Vec<SimPacket>> = Vec::new();
        let mut i: u32 = 0;
        while i < node_count
            invariant
                0 <= i <= node_count,
                node_count <= MAX_NODES,
                nodes@.len() == i,
                node_buffers@.len() == i,
                forall|j: int| 0 <= j < i ==> #[trigger] initial_node_matches(
                    nodes@[j],
                    j,
                    node_count as int,
                ),
                forall|j: int| 0 <= j < i ==> #[trigger] node_buffers@[j]@.len() == 0,
            decreases node_count - i,
        {
            let role = match i % 4 {
                0 => NodeRole::Ingress,
                1 => NodeRole::Egress,
                2 => NodeRole::Transit,
                _ => NodeRole::NGauge,
            };
            let strategy = match i % 3 {
                0 => NodeStrategy::RiskAverse,
                1 => NodeStrategy::Greedy,
                _ => NodeStrategy::Passive,
            };
            let neighbors = Self::build_neighbors(i, node_count);
            let node = SimNode {
                id: i,
                role,
                x: GoldGrams::from_int((i % 6) as i64),
                y: GoldGrams::from_int((i / 6) as i64),
                inventory_fiat: GoldGrams::from_int(10_000),
                inventory_crypto: GoldGrams::from_int(100),
                current_buffer_count: 0,
                neighbors,
                total_fees_earned: GoldGrams::zero(),
                accumulated_work: GoldGrams::zero(),
                strategy,
                pressure: GoldGrams::zero(),
                transit_fee: GoldGrams::from_scaled(10_000_000_000),
                bandwidth: GoldGrams::from_int(100),
                latency: GoldGrams::from_int(10),
                uptime: GoldGrams::from_scaled(990_000_000_000),
                tier_preference: Option::None,
                upi_active: true,
                ngauge_running: true,
                kyc_valid: true,
            };
            proof {
                assert(initial_node_matches(node, i as int, node_count as int));
            }
            nodes.push(node);
            node_buffers.push(Vec::new());
            i = i + 1;
        }

        let mut gold_price_history: Vec<GoldGrams> = Vec::new();
        gold_price_history.push(GoldGrams::from_int(2600));

        let state = WorldState {
            current_tick: 0,
            gold_price: GoldGrams::from_int(2600),
            peg_deviation: GoldGrams::zero(),
            network_velocity: GoldGrams::zero(),
            demand_factor: GoldGrams::from_scaled(200_000_000_000),
            panic_level: GoldGrams::zero(),
            governance_quadrant: quadrant_label_owned(),
            governance_status: status_label_owned(),
            total_rewards_egress: GoldGrams::zero(),
            total_rewards_transit: GoldGrams::zero(),
            total_fees_collected: GoldGrams::zero(),
            total_demurrage_burned: GoldGrams::zero(),
            current_fee_rate: GoldGrams::from_scaled(1_000_000_000),
            current_demurrage_rate: GoldGrams::from_scaled(5_000_000_000),
            verification_complexity: 1,
            ngauge_activity_index: GoldGrams::zero(),
            total_value_leaked: GoldGrams::zero(),
            volatility: GoldGrams::zero(),
            settlement_count: 0,
            revert_count: 0,
            orbit_count: 0,
            total_input: GoldGrams::zero(),
            total_output: GoldGrams::zero(),
            active_value: GoldGrams::zero(),
            spawn_count: 0,
            organic_ratio: GoldGrams::one(),
            surge_multiplier: GoldGrams::one(),
            circuit_breaker_active: false,
            dissolved_count: 0,
            held_count: 0,
            tier_distribution: [0, 0, 0, 0],
            effective_price_composite: GoldGrams::zero(),
            network_fee_component: GoldGrams::zero(),
            speculation_component: GoldGrams::zero(),
            float_component: GoldGrams::zero(),
            tier_fee_rates: [
                GoldGrams::zero(),
                GoldGrams::zero(),
                GoldGrams::zero(),
                GoldGrams::zero(),
            ],
        };

        let r = ArenaSimulation {
            nodes,
            message_queue: Vec::new(),
            node_buffers,
            state,
            total_input: GoldGrams::zero(),
            total_output: GoldGrams::zero(),
            total_burned: GoldGrams::zero(),
            total_fees: GoldGrams::zero(),
            total_rewards_egress: GoldGrams::zero(),
            total_rewards_transit: GoldGrams::zero(),
            packet_id_counter: 0,
            last_gold_price: GoldGrams::from_int(2600),
            settlement_count: 0,
            revert_count: 0,
            total_settlement_hops: 0,
            total_settlement_time: 0,
            gold_price_history,
            lambda_ema: GoldGrams::one(),
            conservation_law: ConservationLaw::new(GoldGrams::from_scaled(1_000_000_000)),
            engauge_state: NGaugeState::new(),
            core_pid: GovernorPid::new(),
        };
        proof {
            assert(r.state.tier_distribution@ =~= seq![0u32, 0u32, 0u32, 0u32]);
            assert forall|k: int| 0 <= k < 4 implies #[trigger] r.state.tier_fee_rates@[k]@
                == 0 by {
                if k == 0 {
                } else if k == 1 {
                } else if k == 2 {
                } else {
                    assert(k == 3);
                }
            }
            lemma_initial_engine_wf(r, node_count as int);
        }
        r
    }
}

impl ArenaSimulation {
    /// Set the gold price, clamped into the representable price band.
    pub fn set_gold_price(&mut self, val: GoldGrams)
        requires
            old(self).wf(),
        ensures
            final(self).wf(),
            final(self).state.gold_price@ == crate::governor::clamp_spec(
                val@,
                0,
                PRICE_LIMIT as int,
            ),
            *final(self) == (ArenaSimulation { state: final(self).state, ..*old(self) }),
            final(self).state == (WorldState {
                gold_price: final(self).state.gold_price,
                ..old(self).state
            }),
    {
        self.state.gold_price = val.clamp(GoldGrams::zero(), GoldGrams::from_scaled(PRICE_LIMIT));
    }

    /// Set the demand factor, clamped into its band.
    pub fn set_demand_factor(&mut self, val: GoldGrams)
        requires
            old(self).wf(),
        ensures
            final(self).wf(),
            final(self).state.demand_factor@ == crate::governor::clamp_spec(
                val@,
                0,
                DEMAND_LIMIT as int,
            ),
            *final(self) == (ArenaSimulation { state: final(self).state, ..*old(self) }),
            final(self).state == (WorldState {
                demand_factor: final(self).state.demand_factor,
                ..old(self).state
            }),
    {
        self.state.demand_factor = val.clamp(
            GoldGrams::zero(),
            GoldGrams::from_scaled(DEMAND_LIMIT),
        );
    }

    /// Set the panic level, clamped into [0, 1].
    pub fn set_panic_level(&mut self, val: GoldGrams)
        requires
            old(self).wf(),
        ensures
            final(self).wf(),
            final(self).state.panic_level@ == crate::governor::clamp_spec(val@, 0, SCALE as int),
            *final(self) == (ArenaSimulation { state: final(self).state, ..*old(self) }),
            final(self).state == (WorldState {
                panic_level: final(self).state.panic_level,
                ..old(self).state
            }),
    {
        self.state.panic_level = val.clamp(GoldGrams::zero(), GoldGrams::one());
    }

    /// Set a node's crypto settlement liquidity, clamped into its band.
    /// Unknown node ids are ignored.
    pub fn set_node_crypto(&mut self, node_id: u32, val: GoldGrams)
        requires
            old(self).wf(),
        ensures
            final(self).wf(),
            (node_id as int) < old(self).nodes@.len() ==> final(self).nodes@[node_id as int]
                == (SimNode {
                inventory_crypto: final(self).nodes@[node_id as int].inventory_crypto,
                ..old(self).nodes@[node_id as int]
            }) && final(self).nodes@[node_id as int].inventory_crypto@
                == crate::governor::clamp_spec(val@, 0, VALUE_LIMIT as int),
            final(self).nodes@.len() == old(self).nodes@.len(),
            forall|i: int|
                0 <= i < old(self).nodes@.len() && i != node_id as int
                    ==> final(self).nodes@[i] == #[trigger] old(self).nodes@[i],
            *final(self) == (ArenaSimulation { nodes: final(self).nodes, ..*old(self) }),
    {
        if (node_id as usize) < self.nodes.len() {
            self.nodes[node_id as usize].inventory_crypto = val.clamp(
                GoldGrams::zero(),
                GoldGrams::from_scaled(VALUE_LIMIT),
            );
            proof {
                assert(crate::routing::node_ok(old(self).nodes@[node_id as int]));
                assert forall|i: int| 0 <= i < self.nodes@.len() implies
                    #[trigger] crate::routing::node_ok(self.nodes@[i]) by {
                    assert(crate::routing::node_ok(old(self).nodes@[i]));
                }
            }
        }
    }

    /// Mint a new packet of `amount` at the given ingress node. The packet
    /// is classified into its tier by value (exactly 10 units is still
    /// L0), given its tier's time-to-live, hop limit and fee budget, and
    /// placed in the node's buffer; total input grows by the amount.
    /// Amounts outside the representable band, unknown nodes, and books at
    /// their saturation bound leave the engine unchanged.
    pub fn spawn_packet(&mut self, node_id: u32, amount: GoldGrams) -> (r: u64)
        requires
            old(self).wf(),
        ensures
            final(self).wf(),
            r == old(self).packet_id_counter,
            final(self).total_output == old(self).total_output,
            final(self).total_burned == old(self).total_burned,
            final(self).total_fees == old(self).total_fees,
            final(self).message_queue == old(self).message_queue,
            final(self).nodes@.len() == old(self).nodes@.len(),
            final(self).state == old(self).state,
            final(self).core_pid == old(self).core_pid,
            final(self).engauge_state == old(self).engauge_state,
            final(self).conservation_law == old(self).conservation_law,
            final(self).gold_price_history == old(self).gold_price_history,
            final(self).lambda_ema == old(self).lambda_ema,
            spawn_accepted(*old(self), node_id, amount) ==> {
                &&& final(self).total_input@ == old(self).total_input@ + amount@
                &&& final(self).node_buffers@[node_id as int]@ == old(
                    self,
                ).node_buffers@[node_id as int]@.push(final(self).node_buffers@[node_id as int]@.last())
                &&& spawned_packet_matches(
                    final(self).node_buffers@[node_id as int]@.last(),
                    *old(self),
                    node_id,
                    amount,
                )
            },
            !spawn_accepted(*old(self), node_id, amount) ==> {
                &&& final(self).total_input@ == old(self).total_input@
                &&& final(self).node_buffers@ == old(self).node_buffers@
            },
            forall|i: int|
                0 <= i < old(self).node_buffers@.len() && i != node_id as int ==> #[trigger] final(self).node_buffers@[i] == old(self).node_buffers@[i],
            forall|i: int|
                0 <= i < old(self).nodes@.len() && i != node_id as int ==> #[trigger] final(self).nodes@[i] == old(self).nodes@[i],
            (node_id as int) < old(self).nodes@.len() ==> final(self).nodes@[node_id as int]
                == (SimNode {
                current_buffer_count: final(self).nodes@[node_id as int].current_buffer_count,
                ..old(self).nodes@[node_id as int]
            }),
            final(self).packet_id_counter == if old(self).packet_id_counter < u64::MAX {
                (old(self).packet_id_counter + 1) as u64
            } else {
                old(self).packet_id_counter
            },
            buffers_extend(old(self).node_buffers@, final(self).node_buffers@),
    {
        let r = self.packet_id_counter;
        if self.packet_id_counter < u64::MAX {
            self.packet_id_counter = self.packet_id_counter + 1;
        }
        let accept = (node_id as usize) < self.nodes.len() && amount.gt(GoldGrams::zero())
            && amount.le(GoldGrams::from_scaled(VALUE_LIMIT)) && self.total_input.add(amount).le(
            GoldGrams::from_scaled(BOOK_LIMIT),
        );
        if !accept {
            return r;
        }
        let tier = MarketTier::from_value(amount);
        let ttl = self.state.current_tick + tier.ttl_ticks();
        let hop_limit = tier.hop_limit();
        proof {
            crate::fixed::lemma_mul_le(
                tier.fee_cap_spec(),
                amount@,
                SCALE as int,
                VALUE_LIMIT as int,
            );
        }
        let fee_budget = tier.fee_cap().mul(amount);
        let mut route_history: Vec<u32> = Vec::new();
        route_history.push(node_id);
        let packet = SimPacket {
            id: r,
            original_value: amount,
            current_value: amount,
            arrival_tick: self.state.current_tick,
            status: PacketState::Minted,
            origin_node: node_id,
            target_node: Option::None,
            hops: 0,
            route_history,
            orbit_start_tick: Option::None,
            tier,
            ttl,
            hop_limit,
            fee_budget,
            fees_consumed: GoldGrams::zero(),
            fee_schedule: Vec::new(),
            spawn_tick: self.state.current_tick,
        };
        proof {
            assert(packet_ok(packet, self.nodes@.len() as int)) by {
                lemma_cap_mul_le_value(tier.fee_cap_spec(), amount@);
            }
        }
        let ghost oldbufs = self.node_buffers@;
        let slot = &mut self.node_buffers[node_id as usize];
        slot.push(packet);
        self.nodes[node_id as usize].current_buffer_count = bump_u32(
            self.nodes[node_id as usize].current_buffer_count,
        );
        self.total_input = self.total_input.add(amount);
        proof {
            assert(self.node_buffers@ == oldbufs.update(
                node_id as int,
                self.node_buffers@[node_id as int],
            ));
            lemma_packets_value_push(oldbufs[node_id as int]@, packet);
            lemma_buffers_value_update(
                oldbufs,
                node_id as int,
                self.node_buffers@[node_id as int],
            );
            assert(buffer_ok(oldbufs[node_id as int]@, self.nodes@.len() as int));
            assert forall|i: int|
                0 <= i < self.node_buffers@[node_id as int]@.len() implies #[trigger] packet_ok(
                self.node_buffers@[node_id as int]@[i],
                self.nodes@.len() as int,
            ) by {
                let nb = self.node_buffers@[node_id as int]@;
                if i < nb.len() - 1 {
                    assert(nb[i] == oldbufs[node_id as int]@[i]);
                    assert(packet_ok(oldbufs[node_id as int]@[i], self.nodes@.len() as int));
                } else {
                    assert(nb[i] == packet);
                }
            }
            lemma_buffers_ok_update(
                oldbufs,
                node_id as int,
                self.node_buffers@[node_id as int],
                self.nodes@.len() as int,
            );
            assert(crate::routing::node_ok(old(self).nodes@[node_id as int]));
            assert forall|i: int| 0 <= i < self.nodes@.len() implies
                #[trigger] crate::routing::node_ok(self.nodes@[i]) by {
                assert(crate::routing::node_ok(old(self).nodes@[i]));
            }
        }
        r
    }

    /// Remove a node from the mesh: its role becomes disabled and the
    /// packets in its buffer move to its first non-disabled neighbor.
    /// When no neighbor is available the packets stay where they are, so
    /// no value ever leaks. Unknown node ids are ignored.
    pub fn kill_node(&mut self, node_id: u32)
        requires
            old(self).wf(),
        ensures
            final(self).wf(),
            (node_id as int) < old(self).nodes@.len() ==> final(self).nodes@[node_id as int].role
                == NodeRole::Disabled,
            final(self).total_input == old(self).total_input,
            final(self).total_output == old(self).total_output,
            final(self).total_burned == old(self).total_burned,
            final(self).total_fees == old(self).total_fees,
            final(self).active_total() == old(self).active_total(),
    {
        if (node_id as usize) >= self.nodes.len() {
            return;
        }
        self.nodes[node_id as usize].role = NodeRole::Disabled;
        proof {
            assert(crate::routing::node_ok(old(self).nodes@[node_id as int]));
            assert forall|i: int| 0 <= i < self.nodes@.len() implies
                #[trigger] crate::routing::node_ok(self.nodes@[i]) by {
                assert(crate::routing::node_ok(old(self).nodes@[i]));
            }
        }
        // First non-disabled neighbor, if any.
        let mut dest: Option<u32> = Option::None;
        let mut j: usize = 0;
        let neigh_len = self.nodes[node_id as usize].neighbors.len();
        while j < neigh_len
            invariant
                self.wf(),
                (node_id as int) < self.nodes@.len(),
                neigh_len == self.nodes@[node_id as int].neighbors@.len(),
                0 <= j <= neigh_len,
                match dest {
                    Option::None => true,
                    Option::Some(d) => (d as int) < self.nodes@.len() && self.nodes@[d as int].role
                        != NodeRole::Disabled,
                },
            decreases neigh_len - j,
        {
            let nb = self.nodes[node_id as usize].neighbors[j];
            if dest.is_none() && !matches!(self.nodes[nb as usize].role, NodeRole::Disabled) {
                dest = Option::Some(nb);
            }
            j = j + 1;
        }
        let d = match dest {
            Option::None => {
                return;
            },
            Option::Some(d) => d,
        };
        if d == node_id {
            return;
        }
        // Move the whole buffer to the neighbor; the value moves with it.
        let ghost bufs0 = self.node_buffers@;
        let mut moved: Vec<SimPacket> = Vec::new();
        let slot = &mut self.node_buffers[node_id as usize];
        core::mem::swap(slot, &mut moved);
        proof {
            assert(self.node_buffers@ == bufs0.update(node_id as int, self.node_buffers@[node_id as int]));
            lemma_buffers_value_update(bufs0, node_id as int, self.node_buffers@[node_id as int]);
            lemma_buffers_ok_update(
                bufs0,
                node_id as int,
                self.node_buffers@[node_id as int],
                self.nodes@.len() as int,
            );
        }
        let ghost bufs1 = self.node_buffers@;
        let ghost movedseq = moved@;
        let moved_count = moved.len();
        let dslot = &mut self.node_buffers[d as usize];
        let ghost dold = dslot@;
        dslot.append(&mut moved);
        self.nodes[d as usize].current_buffer_count = bump_count(
            self.nodes[d as usize].current_buffer_count,
            moved_count,
        );
        self.nodes[node_id as usize].current_buffer_count = 0;
        proof {
            assert(self.node_buffers@ == bufs1.update(d as int, self.node_buffers@[d as int]));
            assert(self.node_buffers@[d as int]@ == dold + movedseq);
            lemma_packets_value_concat(dold, movedseq);
            lemma_buffers_value_update(bufs1, d as int, self.node_buffers@[d as int]);
            assert(buffer_ok(self.node_buffers@[d as int]@, self.nodes@.len() as int)) by {
                let nb = self.node_buffers@[d as int]@;
                assert(forall|i: int| 0 <= i < dold.len() ==> nb[i] == #[trigger] dold[i]);
                assert(forall|i: int|
                    dold.len() <= i < nb.len() ==> nb[i] == #[trigger] movedseq[i - dold.len()]);
                assert(buffer_ok(dold, self.nodes@.len() as int));
                assert(buffer_ok(movedseq, self.nodes@.len() as int));
            }
            lemma_buffers_ok_update(
                bufs1,
                d as int,
                self.node_buffers@[d as int],
                self.nodes@.len() as int,
            );
            assert(crate::routing::node_ok(old(self).nodes@[d as int]));
            assert forall|i: int| 0 <= i < self.nodes@.len() implies
                #[trigger] crate::routing::node_ok(self.nodes@[i]) by {
                assert(crate::routing::node_ok(old(self).nodes@[i]));
            }
        }
    }

    /// Reset the simulation to the fresh state of the same node count.
    pub fn reset(&mut self)
        requires
            old(self).wf(),
        ensures
            final(self).wf(),
            is_initial_engine(*final(self), old(self).nodes@.len() as int),
    {
        let n = self.nodes.len() as u32;
        *self = ArenaSimulation::new(n);
    }

    /// Total value settled out of the system so far.
    pub fn get_total_output(&self) -> (r: GoldGrams)
        ensures
            r == self.total_output,
    {
        self.total_output
    }

    /// The conservation error of the last finalized tick.
    pub fn get_total_value_leaked(&self) -> (r: GoldGrams)
        ensures
            r == self.state.total_value_leaked,
    {
        self.state.total_value_leaked
    }

    /// Liquidity pressure of one node (zero for unknown ids).
    pub fn get_node_pressure(&self, node_id: usize) -> (r: GoldGrams)
        ensures
            r@ == if (node_id as int) < self.nodes@.len() {
                self.nodes@[node_id as int].pressure@
            } else {
                0
            },
    {
        if node_id < self.nodes.len() {
            self.nodes[node_id].pressure
        } else {
            GoldGrams::zero()
        }
    }
}

impl ArenaSimulation {
    /// Deliver matured in-transit packets: every packet whose arrival
    /// tick has been reached leaves the queue and enters its target's
    /// buffer (rerouted to the target's first non-disabled neighbor, or
    /// held at its origin, when the target has been disabled). No value
    /// enters or leaves the books.
    fn deliver_message_queue(&mut self, current_tick: u64)
        requires
            old(self).wf(),
        ensures
            final(self).wf(),
            final(self).total_input == old(self).total_input,
            final(self).total_output == old(self).total_output,
            final(self).total_burned == old(self).total_burned,
            final(self).total_fees == old(self).total_fees,
            final(self).nodes@.len() == old(self).nodes@.len(),
            *final(self) == (ArenaSimulation {
                nodes: final(self).nodes,
                message_queue: final(self).message_queue,
                node_buffers: final(self).node_buffers,
                ..*old(self)
            }),
            forall|i: int|
                0 <= i < final(self).message_queue@.len()
                    ==> #[trigger] final(self).message_queue@[i].arrival_tick > current_tick,
            final(self).message_queue@.len() == unmatured_count(
                old(self).message_queue@,
                current_tick,
            ),
            buffers_value(final(self).node_buffers@) == buffers_value(old(self).node_buffers@)
                + matured_value(old(self).message_queue@, current_tick),
            buffers_extend(old(self).node_buffers@, final(self).node_buffers@),
            forall|i: int|
                0 <= i < old(self).nodes@.len() ==> #[trigger] final(self).nodes@[i] == (SimNode {
                    current_buffer_count: final(self).nodes@[i].current_buffer_count,
                    ..old(self).nodes@[i]
                }),
    {
        let ghost n = self.nodes@.len() as int;
        // Split the queue into matured and still-travelling packets.
        let mut remaining: Vec<SimPacket> = Vec::new();
        let mut delivered: Vec<SimPacket> = Vec::new();
        loop
            invariant
                self.wf_except_books(),
                n == self.nodes@.len() as int,
                queue_ok(remaining@, n),
                queue_ok(delivered@, n),
                self.total_input@ == self.total_output@ + self.total_fees@ + self.total_burned@
                    + buffers_value(self.node_buffers@) + packets_value(self.message_queue@)
                    + packets_value(remaining@) + packets_value(delivered@),
                *self == (ArenaSimulation { message_queue: self.message_queue, ..*old(self) }),
                forall|i: int|
                    0 <= i < remaining@.len() ==> #[trigger] remaining@[i].arrival_tick
                        > current_tick,
                remaining@.len() + unmatured_count(self.message_queue@, current_tick)
                    == unmatured_count(old(self).message_queue@, current_tick),
                packets_value(delivered@) + matured_value(self.message_queue@, current_tick)
                    == matured_value(old(self).message_queue@, current_tick),
            ensures
                self.message_queue@.len() == 0,
                queue_ok(remaining@, n),
                queue_ok(delivered@, n),
                self.total_input@ == self.total_output@ + self.total_fees@ + self.total_burned@
                    + buffers_value(self.node_buffers@) + packets_value(remaining@)
                    + packets_value(delivered@),
                *self == (ArenaSimulation { message_queue: self.message_queue, ..*old(self) }),
                forall|i: int|
                    0 <= i < remaining@.len() ==> #[trigger] remaining@[i].arrival_tick
                        > current_tick,
                remaining@.len() == unmatured_count(old(self).message_queue@, current_tick),
                packets_value(delivered@) == matured_value(old(self).message_queue@, current_tick),
            decreases self.message_queue@.len(),
        {
            let ghost qbefore = self.message_queue@;
            match self.message_queue.pop() {
                Option::None => {
                    break ;
                },
                Option::Some(p) => {
                    proof {
                        lemma_packets_value_pop(qbefore, self.message_queue@, p);
                        assert(packet_ok(p, n) && p.target_node is Some) by {
                            assert(packet_ok(qbefore[qbefore.len() - 1], n));
                            assert(qbefore[qbefore.len() - 1].target_node is Some);
                        }
                        assert(qbefore.drop_last() == self.message_queue@);
                        assert(qbefore.last() == p);
                        assert(unmatured_count(qbefore, current_tick) == unmatured_count(
                            self.message_queue@,
                            current_tick,
                        ) + if p.arrival_tick > current_tick {
                            1int
                        } else {
                            0int
                        });
                        assert(matured_value(qbefore, current_tick) == matured_value(
                            self.message_queue@,
                            current_tick,
                        ) + if p.arrival_tick <= current_tick {
                            p.current_value@
                        } else {
                            0int
                        });
                    }
                    if p.arrival_tick <= current_tick {
                        proof {
                            lemma_packets_value_push(delivered@, p);
                        }
                        delivered.push(p);
                    } else {
                        proof {
                            lemma_packets_value_push(remaining@, p);
                        }
                        remaining.push(p);
                    }
                },
            }
        }
        self.message_queue = remaining;
        let ghost dv = matured_value(old(self).message_queue@, current_tick);
        let ghost qkept = self.message_queue@;

        // Deposit each matured packet.
        loop
            invariant
                self.wf_except_books(),
                n == self.nodes@.len() as int,
                queue_ok(delivered@, n),
                self.total_input@ == self.total_output@ + self.total_fees@ + self.total_burned@
                    + buffers_value(self.node_buffers@) + packets_value(self.message_queue@)
                    + packets_value(delivered@),
                *self == (ArenaSimulation {
                    nodes: self.nodes,
                    message_queue: self.message_queue,
                    node_buffers: self.node_buffers,
                    ..*old(self)
                }),
                self.nodes@.len() == old(self).nodes@.len(),
                crate::routing::nodes_wf(self.nodes@),
                self.message_queue@ == qkept,
                buffers_value(self.node_buffers@) == buffers_value(old(self).node_buffers@) + dv
                    - packets_value(delivered@),
                buffers_extend(old(self).node_buffers@, self.node_buffers@),
                forall|i: int|
                    0 <= i < old(self).nodes@.len() ==> #[trigger] self.nodes@[i] == (SimNode {
                        current_buffer_count: self.nodes@[i].current_buffer_count,
                        ..old(self).nodes@[i]
                    }),
            ensures
                delivered@.len() == 0,
                self.wf(),
                *self == (ArenaSimulation {
                    nodes: self.nodes,
                    message_queue: self.message_queue,
                    node_buffers: self.node_buffers,
                    ..*old(self)
                }),
                self.nodes@.len() == old(self).nodes@.len(),
                self.message_queue@ == qkept,
                buffers_value(self.node_buffers@) == buffers_value(old(self).node_buffers@) + dv,
                buffers_extend(old(self).node_buffers@, self.node_buffers@),
                forall|i: int|
                    0 <= i < old(self).nodes@.len() ==> #[trigger] self.nodes@[i] == (SimNode {
                        current_buffer_count: self.nodes@[i].current_buffer_count,
                        ..old(self).nodes@[i]
                    }),
            decreases delivered@.len(),
        {
            let ghost dbefore = delivered@;
            match delivered.pop() {
                Option::None => {
                    break ;
                },
                Option::Some(p) => {
                    proof {
                        lemma_packets_value_pop(dbefore, delivered@, p);
                        assert(packet_ok(p, n) && p.target_node is Some) by {
                            assert(packet_ok(dbefore[dbefore.len() - 1], n));
                            assert(dbefore[dbefore.len() - 1].target_node is Some);
                        }
                    }
                    let ghost pre = *self;
                    self.deposit_delivered(p, current_tick);
                    proof {
                        lemma_buffers_extend_trans(
                            old(self).node_buffers@,
                            pre.node_buffers@,
                            self.node_buffers@,
                        );
                        assert forall|i: int| 0 <= i < old(self).nodes@.len() implies
                            #[trigger] self.nodes@[i] == (SimNode {
                            current_buffer_count: self.nodes@[i].current_buffer_count,
                            ..old(self).nodes@[i]
                        }) by {
                            assert(pre.nodes@[i] == (SimNode {
                                current_buffer_count: pre.nodes@[i].current_buffer_count,
                                ..old(self).nodes@[i]
                            }));
                            assert(self.nodes@[i] == (SimNode {
                                current_buffer_count: self.nodes@[i].current_buffer_count,
                                ..pre.nodes@[i]
                            }));
                        }
                    }
                },
            }
        }
    }

    /// The structural invariant together with an explicit statement of
    /// where the balance currently stands (the caller tracks it).
    pub open spec fn wf_except_books(self) -> bool {
        self.core_ok()
    }

    /// Put one matured packet where it belongs: its target's buffer, the
    /// target's first non-disabled neighbor if the target is down, or
    /// held at its origin as a last resort. The packet's value moves with
    /// it, so the books change by exactly its current value entering the
    /// buffers.
    fn deposit_delivered(&mut self, p: SimPacket, current_tick: u64)
        requires
            old(self).wf_except_books(),
            packet_ok(p, old(self).nodes@.len() as int),
            p.target_node is Some,
        ensures
            final(self).wf_except_books(),
            buffers_value(final(self).node_buffers@) == buffers_value(old(self).node_buffers@)
                + p.current_value@,
            *final(self) == (ArenaSimulation {
                nodes: final(self).nodes,
                node_buffers: final(self).node_buffers,
                ..*old(self)
            }),
            final(self).nodes@.len() == old(self).nodes@.len(),
            crate::routing::nodes_wf(final(self).nodes@),
            buffers_extend(old(self).node_buffers@, final(self).node_buffers@),
            forall|i: int|
                0 <= i < old(self).nodes@.len() ==> #[trigger] final(self).nodes@[i] == (SimNode {
                    current_buffer_count: final(self).nodes@[i].current_buffer_count,
                    ..old(self).nodes@[i]
                }),
    {
        let ghost n = self.nodes@.len() as int;
        let target = match p.target_node {
            Option::Some(t) => t,
            Option::None => {
                proof {
                    assert(false);
                }
                0
            },
        };
        let mut p = p;
        p.status = PacketState::Minted;
        let target_disabled = matches!(self.nodes[target as usize].role, NodeRole::Disabled);
        let mut dest: u32 = target;
        if target_disabled {
            // Reroute to the target's first non-disabled neighbor, or
            // hold at the origin.
            let mut found: bool = false;
            let mut j: usize = 0;
            let neigh_len = self.nodes[target as usize].neighbors.len();
            while j < neigh_len
                invariant
                    self.wf_except_books(),
                    (target as int) < self.nodes@.len(),
                    neigh_len == self.nodes@[target as int].neighbors@.len(),
                    0 <= j <= neigh_len,
                    found ==> (dest as int) < self.nodes@.len(),
                decreases neigh_len - j,
            {
                let nb = self.nodes[target as usize].neighbors[j];
                if !found && !matches!(self.nodes[nb as usize].role, NodeRole::Disabled) {
                    dest = nb;
                    found = true;
                }
                j = j + 1;
            }
            if !found {
                if (p.origin_node as usize) < self.nodes.len() {
                    dest = p.origin_node;
                    p.status = PacketState::Held;
                    p.orbit_start_tick = Option::Some(current_tick);
                } else {
                    dest = target;
                    p.status = PacketState::Held;
                    p.orbit_start_tick = Option::Some(current_tick);
                }
            }
        }
        let ghost oldbufs = self.node_buffers@;
        let ghost pp = p;
        let slot = &mut self.node_buffers[dest as usize];
        slot.push(p);
        self.nodes[dest as usize].current_buffer_count = bump_u32(
            self.nodes[dest as usize].current_buffer_count,
        );
        proof {
            assert(self.node_buffers@ == oldbufs.update(
                dest as int,
                self.node_buffers@[dest as int],
            ));
            lemma_packets_value_push(oldbufs[dest as int]@, pp);
            lemma_buffers_value_update(oldbufs, dest as int, self.node_buffers@[dest as int]);
            assert(buffer_ok(oldbufs[dest as int]@, n));
            assert forall|i: int|
                0 <= i < self.node_buffers@[dest as int]@.len() implies #[trigger] packet_ok(
                self.node_buffers@[dest as int]@[i],
                n,
            ) by {
                let nb = self.node_buffers@[dest as int]@;
                if i < nb.len() - 1 {
                    assert(nb[i] == oldbufs[dest as int]@[i]);
                    assert(packet_ok(oldbufs[dest as int]@[i], n));
                } else {
                    assert(nb[i] == pp);
                }
            }
            lemma_buffers_ok_update(oldbufs, dest as int, self.node_buffers@[dest as int], n);
            assert(crate::routing::node_ok(old(self).nodes@[dest as int]));
            assert forall|i: int| 0 <= i < self.nodes@.len() implies
                #[trigger] crate::routing::node_ok(self.nodes@[i]) by {
                assert(crate::routing::node_ok(old(self).nodes@[i]));
            }
        }
    }
}

/// Buffer extension is transitive across the phases of a tick.
pub proof fn lemma_buffers_extend_trans(
    a: Seq<Vec<SimPacket>>,
    b: Seq<Vec<SimPacket>>,
    c: Seq<Vec<SimPacket>>,
)
    requires
        buffers_extend(a, b),
        buffers_extend(b, c),
    ensures
        buffers_extend(a, c),
{
    assert forall|i: int| 0 <= i < a.len() implies buffer_extends(#[trigger] a[i]@, c[i]@) by {
        assert(buffer_extends(a[i]@, b[i]@));
        assert(buffer_extends(b[i]@, c[i]@));
        assert forall|j: int| 0 <= j < a[i]@.len() implies a[i]@[j] == #[trigger] c[i]@[j] by {
            assert(a[i]@[j] == b[i]@[j]);
            assert(b[i]@[j] == c[i]@[j]);
        }
    }
}

/// One buffer more in a prefix adds exactly its held count.
proof fn lemma_held_take_step(b: Seq<Vec<SimPacket>>, k: int)
    requires
        0 <= k < b.len(),
    ensures
        held_total(b.take(k + 1)) == held_total(b.take(k)) + held_in(b[k]@),
{
    assert(b.take(k + 1).drop_last() =~= b.take(k));
    assert(b.take(k + 1).last() == b[k]);
}

/// One packet more in a prefix adds one exactly when it is held.
proof fn lemma_held_in_take_step(s: Seq<SimPacket>, j: int)
    requires
        0 <= j < s.len(),
    ensures
        held_in(s.take(j + 1)) == held_in(s.take(j)) + if s[j].status is Held {
            1int
        } else {
            0int
        },
{
    assert(s.take(j + 1).drop_last() =~= s.take(j));
    assert(s.take(j + 1).last() == s[j]);
}

/// Held counts are non-negative.
proof fn lemma_held_in_nonneg(s: Seq<SimPacket>)
    ensures
        0 <= held_in(s) <= s.len(),
    decreases s.len(),
{
    if s.len() > 0 {
        lemma_held_in_nonneg(s.drop_last());
    }
}

/// Held totals are non-negative.
proof fn lemma_held_total_nonneg(b: Seq<Vec<SimPacket>>)
    ensures
        0 <= held_total(b),
    decreases b.len(),
{
    if b.len() > 0 {
        lemma_held_total_nonneg(b.drop_last());
        lemma_held_in_nonneg(b.last()@);
    }
}

/// Rolling volatility: the coefficient of variation (standard deviation
/// over mean) of the price window; zero for fewer than two samples or a
/// zero mean.
pub open spec fn volatility_spec(h: Seq<GoldGrams>) -> int {
    if h.len() < 2 {
        0
    } else {
        let mean = crate::engauge::window_sum(h) / (h.len() as int);
        if mean <= 0 {
            0
        } else {
            let v = crate::fixed::scaled_div(
                crate::routing::isqrt_int(sq_dev_sum(h, mean) / (h.len() as int)),
                mean,
            );
            if v <= VALUE_LIMIT {
                v
            } else {
                VALUE_LIMIT as int
            }
        }
    }
}

/// Sum of squared deviations from the mean, in raw units squared.
pub open spec fn sq_dev_sum(h: Seq<GoldGrams>, mean: int) -> int
    decreases h.len(),
{
    if h.len() == 0 {
        0
    } else {
        sq_dev_sum(h.drop_last(), mean) + (h.last()@ - mean) * (h.last()@ - mean)
    }
}

/// Compute the rolling volatility of the gold price window.
pub fn compute_rolling_volatility(history: &Vec<GoldGrams>) -> (r: GoldGrams)
    requires
        history@.len() <= 20,
        forall|i: int| 0 <= i < history@.len() ==> 0 <= #[trigger] history@[i]@ <= PRICE_LIMIT,
    ensures
        r@ == volatility_spec(history@),
        0 <= r@ <= VALUE_LIMIT,
{
    if history.len() < 2 {
        return GoldGrams::zero();
    }
    let mean = crate::engauge::window_mean(history);
    proof {
        lemma_price_window_mean_bound(history@);
    }
    if !mean.gt(GoldGrams::zero()) {
        return GoldGrams::zero();
    }
    // Sum of squared deviations, in a raw 128-bit accumulator.
    let mut acc: i128 = 0;
    let mut i: usize = 0;
    while i < history.len()
        invariant
            0 <= i <= history@.len(),
            history@.len() <= 20,
            forall|k: int| 0 <= k < history@.len() ==> 0 <= #[trigger] history@[k]@ <= PRICE_LIMIT,
            0 <= mean@ <= PRICE_LIMIT,
            acc == sq_dev_sum(history@.take(i as int), mean@),
            0 <= acc <= i * 4_000_000_000_000_000_000_000_000_000_000_000_000,
        decreases history@.len() - i,
    {
        proof {
            assert(history@.take(i + 1).drop_last() =~= history@.take(i as int));
        }
        let d: i128 = history[i].to_scaled() - mean.to_scaled();
        proof {
            assert(0 <= d * d <= 4_000_000_000_000_000_000_000_000_000_000_000_000)
                by (nonlinear_arith)
                requires
                    -PRICE_LIMIT <= d <= PRICE_LIMIT,
            ;
            assert((i + 1) * 4_000_000_000_000_000_000_000_000_000_000_000_000 == i
                * 4_000_000_000_000_000_000_000_000_000_000_000_000
                + 4_000_000_000_000_000_000_000_000_000_000_000_000) by (nonlinear_arith);
        }
        acc = acc + d * d;
        i = i + 1;
    }
    proof {
        assert(history@.take(history@.len() as int) =~= history@);
    }
    proof {
        assert(0 <= (acc as int) / (history@.len() as int) <= acc as int) by (nonlinear_arith)
            requires
                0 <= acc,
                2 <= history@.len(),
        ;
    }
    let variance: i128 = acc / (history.len() as i128);
    let std_dev = crate::routing::isqrt_fixed(variance as u128);
    proof {
        assert(std_dev@ * std_dev@ <= variance);
        assert(std_dev@ <= PRICE_LIMIT * 10) by (nonlinear_arith)
            requires
                std_dev@ * std_dev@ <= 80_000_000_000_000_000_000_000_000_000_000_000_000,
                0 <= std_dev@,
        ;
    }
    std_dev.div(mean).min(GoldGrams::from_scaled(VALUE_LIMIT))
}

/// Sum of the accumulated work of the oracle nodes.
pub open spec fn ngauge_work_sum(nodes: Seq<SimNode>) -> int
    decreases nodes.len(),
{
    if nodes.len() == 0 {
        0
    } else {
        ngauge_work_sum(nodes.drop_last()) + if nodes.last().role == NodeRole::NGauge {
            nodes.last().accumulated_work@
        } else {
            0
        }
    }
}

impl ArenaSimulation {
    /// Accrue measured work on every oracle node (saturating at the
    /// representable bound) and return the network activity index: the
    /// total oracle work relative to one hundred units per node, capped
    /// at 1.
    fn update_ngauge_activity(&mut self) -> (r: GoldGrams)
        requires
            old(self).wf(),
        ensures
            final(self).wf(),
            0 <= r@ <= SCALE,
            final(self).nodes@.len() == old(self).nodes@.len(),
            *final(self) == (ArenaSimulation { nodes: final(self).nodes, ..*old(self) }),
            forall|i: int|
                0 <= i < old(self).nodes@.len() ==> final(self).nodes@[i] == (SimNode {
                    accumulated_work: final(self).nodes@[i].accumulated_work,
                    ..#[trigger] old(self).nodes@[i]
                }),
            forall|i: int|
                0 <= i < old(self).nodes@.len() && old(self).nodes@[i].role == NodeRole::NGauge
                    ==> #[trigger] final(self).nodes@[i].accumulated_work@ == work_accrued(
                    old(self).nodes@[i].accumulated_work@,
                    old(self).state.demand_factor@,
                ),
            forall|i: int|
                0 <= i < old(self).nodes@.len() && old(self).nodes@[i].role != NodeRole::NGauge
                    ==> #[trigger] final(self).nodes@[i].accumulated_work == old(
                    self,
                ).nodes@[i].accumulated_work,
    {
        let demand = self.state.demand_factor;
        let delta = demand.mul_int(10).max(GoldGrams::one());
        let n = self.nodes.len();
        let mut i: usize = 0;
        while i < n
            invariant
                self.wf(),
                n == self.nodes@.len(),
                0 <= i <= n,
                0 <= delta@ <= 10 * DEMAND_LIMIT + SCALE,
                delta@ == if old(self).state.demand_factor@ * 10 >= SCALE {
                    old(self).state.demand_factor@ * 10
                } else {
                    SCALE as int
                },
                self.state.demand_factor == old(self).state.demand_factor,
                *self == (ArenaSimulation { nodes: self.nodes, ..*old(self) }),
                self.nodes@.len() == old(self).nodes@.len(),
                forall|j: int|
                    0 <= j < n ==> self.nodes@[j] == (SimNode {
                        accumulated_work: self.nodes@[j].accumulated_work,
                        ..#[trigger] old(self).nodes@[j]
                    }),
                forall|j: int|
                    i <= j < n ==> #[trigger] self.nodes@[j].accumulated_work == old(
                        self,
                    ).nodes@[j].accumulated_work,
                forall|j: int|
                    0 <= j < i && old(self).nodes@[j].role == NodeRole::NGauge
                        ==> #[trigger] self.nodes@[j].accumulated_work@ == work_accrued(
                        old(self).nodes@[j].accumulated_work@,
                        old(self).state.demand_factor@,
                    ),
                forall|j: int|
                    0 <= j < i && old(self).nodes@[j].role != NodeRole::NGauge
                        ==> #[trigger] self.nodes@[j].accumulated_work == old(
                        self,
                    ).nodes@[j].accumulated_work,
            decreases n - i,
        {
            proof {
                assert(crate::routing::node_ok(self.nodes@[i as int]));
            }
            let ghost pre_nodes = self.nodes@;
            if matches!(self.nodes[i].role, NodeRole::NGauge) {
                let w = self.nodes[i].accumulated_work;
                self.nodes[i].accumulated_work = w.add(delta).min(
                    GoldGrams::from_scaled(VALUE_LIMIT),
                );
            }
            proof {
                assert forall|j: int| 0 <= j < self.nodes@.len() implies
                    #[trigger] crate::routing::node_ok(self.nodes@[j]) by {
                    assert(crate::routing::node_ok(pre_nodes[j]));
                }
            }
            i = i + 1;
        }
        if n == 0 {
            return GoldGrams::zero();
        }
        // Total oracle work, relative to 100 units per node, capped at 1.
        let mut total_work = GoldGrams::zero();
        let mut k: usize = 0;
        while k < n
            invariant
                self.wf(),
                n == self.nodes@.len(),
                0 <= k <= n,
                total_work@ == ngauge_work_sum(self.nodes@.take(k as int)),
                0 <= total_work@ <= k * VALUE_LIMIT,
            decreases n - k,
        {
            proof {
                assert(self.nodes@.take(k + 1).drop_last() =~= self.nodes@.take(k as int));
                assert(crate::routing::node_ok(self.nodes@[k as int]));
                assert((k + 1) * VALUE_LIMIT == k * VALUE_LIMIT + VALUE_LIMIT)
                    by (nonlinear_arith);
            }
            if matches!(self.nodes[k].role, NodeRole::NGauge) {
                total_work = total_work.add(self.nodes[k].accumulated_work);
            }
            k = k + 1;
        }
        let threshold = GoldGrams::from_int((n as i64) * 100);
        if total_work.ge(threshold) {
            GoldGrams::one()
        } else {
            proof {
                assert(0 < (n as i64) * 100 * SCALE <= 200_000_000_000_000_000_000)
                    by (nonlinear_arith)
                    requires
                        0 < n <= MAX_NODES,
                ;
            }
            total_work.div(threshold).min(GoldGrams::one())
        }
    }

    /// Automatic traffic generation: the demand factor sets the spawn
    /// rate (amplified under panic), ingress nodes take turns, amounts
    /// cycle through the four tier bands, and high fees destroy demand.
    fn auto_spawn_traffic(&mut self, current_tick: u64)
        requires
            old(self).wf(),
            current_tick <= TICK_LIMIT,
        ensures
            final(self).wf(),
            final(self).total_input@ >= old(self).total_input@,
            final(self).total_output == old(self).total_output,
            final(self).total_burned == old(self).total_burned,
            final(self).total_fees == old(self).total_fees,
            final(self).nodes@.len() == old(self).nodes@.len(),
            final(self).state == (WorldState {
                spawn_count: final(self).state.spawn_count,
                ..old(self).state
            }),
            final(self).message_queue == old(self).message_queue,
            final(self).core_pid == old(self).core_pid,
            final(self).engauge_state == old(self).engauge_state,
            final(self).conservation_law == old(self).conservation_law,
            !has_ingress(old(self).nodes@) ==> *final(self) == *old(self),
            buffers_extend(old(self).node_buffers@, final(self).node_buffers@),
            forall|i: int|
                0 <= i < old(self).nodes@.len() ==> #[trigger] final(self).nodes@[i] == (SimNode {
                    current_buffer_count: final(self).nodes@[i].current_buffer_count,
                    ..old(self).nodes@[i]
                }),
            ({
                let t = spawn_target(old(self).state.demand_factor@, old(self).state.panic_level@);
                (has_ingress(old(self).nodes@) && old(self).state.current_fee_rate@ <= SCALE / 10
                    && old(self).total_input@ + t * (1_000_000 * (SCALE as int)) <= BOOK_LIMIT)
                    ==> {
                    &&& final(self).total_input@ == old(self).total_input@ + auto_amounts_sum(
                        current_tick,
                        t,
                        old(self).packet_id_counter,
                    )
                    &&& final(self).state.spawn_count as int == if old(self).state.spawn_count + t
                        <= u32::MAX {
                        old(self).state.spawn_count + t
                    } else {
                        u32::MAX as int
                    }
                }
            }),
    {
        let half = GoldGrams::from_scaled(SCALE / 2);
        let multiplier = if self.state.panic_level.gt(half) {
            GoldGrams::one().add(self.state.panic_level)
        } else {
            GoldGrams::one()
        };
        proof {
            crate::fixed::lemma_mul_le(
                self.state.demand_factor@ * 5,
                multiplier@,
                5 * DEMAND_LIMIT,
                2 * SCALE,
            );
        }
        let rate = self.state.demand_factor.mul_int(5).mul(multiplier);
        proof {
            assert(0 <= rate@ <= 10_000_000_000_000_000) by (nonlinear_arith)
                requires
                    rate@ == (self.state.demand_factor@ * 5 * multiplier@) / (SCALE as int),
                    0 <= self.state.demand_factor@ * 5 <= 5 * DEMAND_LIMIT,
                    SCALE <= multiplier@ <= 2 * SCALE,
            ;
            assert(0 <= rate@ / (SCALE as int) <= 10_000_000) by (nonlinear_arith)
                requires
                    0 <= rate@ <= 10_000_000_000_000_000,
            ;
        }
        let to_spawn: u64 = (rate.to_scaled() / SCALE) as u64;

        // The ingress nodes, in id order.
        let mut ingress: Vec<u32> = Vec::new();
        let mut i: usize = 0;
        while i < self.nodes.len()
            invariant
                self.wf(),
                *self == *old(self),
                0 <= i <= self.nodes@.len(),
                forall|j: int|
                    0 <= j < ingress@.len() ==> (#[trigger] ingress@[j]) < self.nodes@.len()
                        && self.nodes@[ingress@[j] as int].role is Ingress,
                ingress@.len() == 0 ==> forall|j: int|
                    0 <= j < i ==> !(#[trigger] self.nodes@[j].role is Ingress),
            decreases self.nodes@.len() - i,
        {
            if matches!(self.nodes[i].role, NodeRole::Ingress) {
                ingress.push(i as u32);
            }
            i = i + 1;
        }
        if ingress.len() == 0 {
            return ;
        }
        proof {
            assert(has_ingress(self.nodes@)) by {
                assert(self.nodes@[ingress@[0] as int].role is Ingress);
            }
        }
        let tier_base = self.packet_id_counter;
        let ghost t_spec = spawn_target(old(self).state.demand_factor@, old(self).state.panic_level@);
        proof {
            assert(to_spawn as int == t_spec);
        }
        let ghost gcond = old(self).state.current_fee_rate@ <= SCALE / 10 && old(self).total_input@
            + t_spec * (1_000_000 * (SCALE as int)) <= BOOK_LIMIT;
        let mut s: u64 = 0;
        while s < to_spawn
            invariant
                self.wf(),
                0 <= s <= to_spawn,
                to_spawn <= 10_000_000,
                to_spawn as int == t_spec,
                tier_base == old(self).packet_id_counter,
                gcond == (old(self).state.current_fee_rate@ <= SCALE / 10 && old(
                    self,
                ).total_input@ + t_spec * (1_000_000 * (SCALE as int)) <= BOOK_LIMIT),
                current_tick <= TICK_LIMIT,
                0 < ingress@.len(),
                forall|j: int|
                    0 <= j < ingress@.len() ==> (#[trigger] ingress@[j]) < self.nodes@.len(),
                self.total_input@ >= old(self).total_input@,
                self.total_output == old(self).total_output,
                self.total_burned == old(self).total_burned,
                self.total_fees == old(self).total_fees,
                self.nodes@.len() == old(self).nodes@.len(),
                self.state == (WorldState {
                    spawn_count: self.state.spawn_count,
                    ..old(self).state
                }),
                self.message_queue == old(self).message_queue,
                self.core_pid == old(self).core_pid,
                self.engauge_state == old(self).engauge_state,
                self.conservation_law == old(self).conservation_law,
                buffers_extend(old(self).node_buffers@, self.node_buffers@),
                forall|i: int|
                    0 <= i < old(self).nodes@.len() ==> #[trigger] self.nodes@[i] == (SimNode {
                        current_buffer_count: self.nodes@[i].current_buffer_count,
                        ..old(self).nodes@[i]
                    }),
                gcond ==> self.total_input@ == old(self).total_input@ + auto_amounts_sum(
                    current_tick,
                    s as int,
                    tier_base,
                ),
                gcond ==> auto_amounts_sum(current_tick, s as int, tier_base) <= s as int * (
                1_000_000 * (SCALE as int)),
                gcond ==> self.state.spawn_count as int == if old(self).state.spawn_count + s as int
                    <= u32::MAX {
                    old(self).state.spawn_count + s as int
                } else {
                    u32::MAX as int
                },
            decreases to_spawn - s,
        {
            let node_idx = ((current_tick + s) % (ingress.len() as u64)) as usize;
            let node_id = ingress[node_idx];
            let selector = ((tier_base % 4) + (s % 4)) % 4;
            let roll = (current_tick + s) % 900_000;
            let amount: GoldGrams = if selector == 0 {
                GoldGrams::from_int(1 + (roll % 9) as i64)
            } else if selector == 1 {
                GoldGrams::from_int(50 + (roll % 950) as i64)
            } else if selector == 2 {
                GoldGrams::from_int(1_000 + (roll % 99_000) as i64)
            } else {
                GoldGrams::from_int(100_000 + roll as i64)
            };

            // Demand destruction: when fees run hot, candidates cancel.
            let fee = self.state.current_fee_rate;
            let tenth = GoldGrams::from_scaled(SCALE / 10);
            let mut cancel = false;
            if fee.gt(tenth) {
                let cancel_prob = fee.sub(tenth).mul_int(5).min(GoldGrams::one());
                let check_units = ((self.packet_id_counter % 100) * 7 + (s % 100)) % 100;
                let check = GoldGrams::from_scaled((check_units as i128) * (SCALE / 100));
                if check.lt(cancel_prob) {
                    cancel = true;
                }
            }
            proof {
                assert(amount@ == auto_amount(current_tick, s as int, tier_base));
                assert(SCALE <= amount@ <= 1_000_000 * (SCALE as int));
                if gcond {
                    assert((s as int + 1) * (1_000_000 * (SCALE as int)) == s as int * (1_000_000
                        * (SCALE as int)) + 1_000_000 * (SCALE as int)) by (nonlinear_arith);
                    assert((s as int + 1) * (1_000_000 * (SCALE as int)) <= t_spec * (1_000_000 * (
                    SCALE as int))) by (nonlinear_arith)
                        requires
                            s as int + 1 <= t_spec,
                    ;
                }
            }
            if !cancel {
                let headroom = self.total_input.add(amount).le(
                    GoldGrams::from_scaled(BOOK_LIMIT),
                );
                if headroom {
                    let ghost prespawn = *self;
                    self.spawn_packet(node_id, amount);
                    self.state.spawn_count = bump_u32(self.state.spawn_count);
                    proof {
                        assert(auto_amounts_sum(current_tick, s as int + 1, tier_base)
                            == auto_amounts_sum(current_tick, s as int, tier_base) + auto_amount(
                            current_tick,
                            s as int,
                            tier_base,
                        ));
                        lemma_buffers_extend_trans(
                            old(self).node_buffers@,
                            prespawn.node_buffers@,
                            self.node_buffers@,
                        );
                        assert forall|i: int| 0 <= i < old(self).nodes@.len() implies
                            #[trigger] self.nodes@[i] == (SimNode {
                            current_buffer_count: self.nodes@[i].current_buffer_count,
                            ..old(self).nodes@[i]
                        }) by {
                            if i != node_id as int {
                                assert(self.nodes@[i] == prespawn.nodes@[i]);
                            } else {
                                assert(self.nodes@[i] == (SimNode {
                                    current_buffer_count: self.nodes@[i].current_buffer_count,
                                    ..prespawn.nodes@[i]
                                }));
                            }
                        }
                    }
                }
            }
            s = s + 1;
        }
    }

    /// Per-node liquidity pressure: egress nodes report their pool
    /// relative to buffered demand; other nodes report buffer depth.
    fn compute_node_pressure(&mut self)
        requires
            old(self).wf(),
        ensures
            final(self).wf(),
            final(self).nodes@.len() == old(self).nodes@.len(),
            *final(self) == (ArenaSimulation { nodes: final(self).nodes, ..*old(self) }),
            forall|i: int|
                0 <= i < old(self).nodes@.len() ==> final(self).nodes@[i] == (SimNode {
                    pressure: final(self).nodes@[i].pressure,
                    ..#[trigger] old(self).nodes@[i]
                }),
    {
        let n = self.nodes.len();
        let mut i: usize = 0;
        while i < n
            invariant
                self.wf(),
                n == self.nodes@.len(),
                0 <= i <= n,
                *self == (ArenaSimulation { nodes: self.nodes, ..*old(self) }),
                self.nodes@.len() == old(self).nodes@.len(),
                forall|j: int|
                    0 <= j < n ==> self.nodes@[j] == (SimNode {
                        pressure: self.nodes@[j].pressure,
                        ..#[trigger] old(self).nodes@[j]
                    }),
            decreases n - i,
        {
            proof {
                assert(crate::routing::node_ok(self.nodes@[i as int]));
            }
            let node = &self.nodes[i];
            let p: GoldGrams = match node.role {
                NodeRole::Disabled => GoldGrams::zero(),
                NodeRole::Egress => {
                    let denom = GoldGrams::from_int(
                        (node.current_buffer_count as i64) * 100 + 1,
                    );
                    proof {
                        assert(0 < ((node.current_buffer_count as i64) * 100 + 1) as int * SCALE)
                            by (nonlinear_arith)
                            requires
                                0 <= node.current_buffer_count,
                        ;
                    }
                    node.inventory_crypto.div(denom)
                },
                _ => GoldGrams::from_int(node.current_buffer_count as i64).div_int(10),
            };
            let ghost pre_nodes = self.nodes@;
            self.nodes[i].pressure = p;
            proof {
                assert forall|j: int| 0 <= j < self.nodes@.len() implies
                    #[trigger] crate::routing::node_ok(self.nodes@[j]) by {
                    assert(crate::routing::node_ok(pre_nodes[j]));
                }
            }
            i = i + 1;
        }
    }
}

/// Bounds on every component of an explicit balance: with all terms
/// non-negative and the books exactly balanced, each term is bounded by
/// the total input.
proof fn lemma_component_bounds(
    input: int,
    output: int,
    fees: int,
    burned: int,
    bufs: Seq<Vec<SimPacket>>,
    queue: Seq<SimPacket>,
    buf: Seq<SimPacket>,
    nb: Seq<SimPacket>,
    n: int,
)
    requires
        input == output + fees + burned + buffers_value(bufs) + packets_value(queue)
            + packets_value(buf) + packets_value(nb),
        0 <= output,
        0 <= fees,
        0 <= burned,
        0 <= input <= BOOK_LIMIT,
        buffers_ok(bufs, n),
        buffer_ok(queue, n),
        buffer_ok(buf, n),
        buffer_ok(nb, n),
    ensures
        output <= BOOK_LIMIT,
        fees <= BOOK_LIMIT,
        burned <= BOOK_LIMIT,
        0 <= buffers_value(bufs) <= BOOK_LIMIT,
        0 <= packets_value(queue) <= BOOK_LIMIT,
        0 <= packets_value(buf) <= BOOK_LIMIT,
        0 <= packets_value(nb) <= BOOK_LIMIT,
{
    lemma_buffers_value_nonneg(bufs, n);
    lemma_packets_value_nonneg(queue, n);
    lemma_packets_value_nonneg(buf, n);
    lemma_packets_value_nonneg(nb, n);
}

/// Removing the head packet removes exactly its value.
proof fn lemma_packets_value_pop_front(s: Seq<SimPacket>)
    requires
        s.len() > 0,
    ensures
        packets_value(s) == s[0].current_value@ + packets_value(s.remove(0)),
{
    let single = seq![s[0]];
    assert(s =~= single + s.remove(0));
    lemma_packets_value_concat(single, s.remove(0));
    assert(single.drop_last() =~= Seq::<SimPacket>::empty());
    assert(packets_value(single.drop_last()) == 0) by {
        assert(single.drop_last().len() == 0);
    }
    assert(single.last() == s[0]);
    assert(packets_value(single) == s[0].current_value@);
}

impl ArenaSimulation {
    /// Process one node's buffer for this tick: demurrage and surge decay
    /// burn value, expired packets refund, abandoned packets dissolve,
    /// orbit timeouts refund, egress nodes settle against their pool, and
    /// everything else routes onward or enters orbit. Returns the number
    /// of packets settled here. The books stay exactly balanced: every
    /// unit a packet loses lands in the burned, fee or output totals.
    #[verifier::rlimit(100)]
    fn process_node(&mut self, node_id: u32, current_tick: u64, volatility: GoldGrams) -> (settled:
        u32)
        requires
            old(self).wf(),
            (node_id as int) < old(self).nodes@.len(),
            current_tick <= TICK_LIMIT,
        ensures
            final(self).wf(),
            final(self).total_input == old(self).total_input,
            final(self).total_output@ >= old(self).total_output@,
            final(self).total_burned@ >= old(self).total_burned@,
            final(self).total_fees@ >= old(self).total_fees@,
            final(self).nodes@.len() == old(self).nodes@.len(),
            final(self).state == (WorldState {
                dissolved_count: final(self).state.dissolved_count,
                ..old(self).state
            }),
            final(self).engauge_state == old(self).engauge_state,
            final(self).core_pid == old(self).core_pid,
            final(self).packet_id_counter == old(self).packet_id_counter,
            final(self).gold_price_history == old(self).gold_price_history,
            final(self).lambda_ema == old(self).lambda_ema,
            final(self).state.current_tick == old(self).state.current_tick,
            forall|i: int|
                0 <= i < old(self).nodes@.len() && i != node_id as int ==> #[trigger] final(self).node_buffers@[i] == old(self).node_buffers@[i],
            forall|i: int|
                0 <= i < old(self).nodes@.len() ==> #[trigger] final(self).nodes@[i].role == old(
                    self,
                ).nodes@[i].role,
            forall|i: int|
                0 <= i < old(self).nodes@.len() && i != node_id as int ==> #[trigger] final(self).nodes@[i].inventory_crypto == old(self).nodes@[i].inventory_crypto,
            forall|i: int|
                0 <= i < old(self).message_queue@.len() ==> #[trigger] final(self).message_queue@[i]
                    == old(self).message_queue@[i],
            old(self).message_queue@.len() <= final(self).message_queue@.len(),
            forall|i: int|
                old(self).message_queue@.len() <= i < final(self).message_queue@.len()
                    ==> #[trigger] final(self).message_queue@[i].arrival_tick > current_tick,
            egress_head_settles(*old(self), node_id as int, current_tick) ==> settled >= 1
                && final(self).total_output@ + final(self).total_fees@ >= old(self).total_output@
                + old(self).total_fees@ + decayed_value(
                old(self).node_buffers@[node_id as int]@[0],
            ),
            head_refunds(*old(self), node_id as int, current_tick) ==> final(self).total_output@
                >= old(self).total_output@ + decayed_value(
                old(self).node_buffers@[node_id as int]@[0],
            ),
    {
        let ghost n = self.nodes@.len() as int;
        let role = self.nodes[node_id as usize].role;
        let strategy = self.nodes[node_id
            as usize].strategy;
        if matches!(role, NodeRole::Disabled) {
            return 0;
        }
        // Take the buffer out; the balance is carried explicitly while
        // its packets are in flight through this function.
        let mut buf: Vec<SimPacket> = Vec::new();
        let ghost bufs0 = self.node_buffers@;
        let slot = &mut self.node_buffers[node_id as usize];
        core::mem::swap(slot, &mut buf);
        proof {
            assert(self.node_buffers@ == bufs0.update(
                node_id as int,
                self.node_buffers@[node_id as int],
            ));
            lemma_buffers_value_update(bufs0, node_id as int, self.node_buffers@[node_id as int]);
            assert(buffer_ok(buf@, n)) by {
                assert(buf@ == bufs0[node_id as int]@);
            }
            assert(buffer_ok(self.node_buffers@[node_id as int]@, n));
            lemma_buffers_ok_update(
                bufs0,
                node_id as int,
                self.node_buffers@[node_id as int],
                n,
            );
        }
        let mut new_buf: Vec<SimPacket> = Vec::new();
        let mut settled: u32 = 0;

        loop
            invariant
                self.wf_except_books(),
                n == self.nodes@.len() as int,
                (node_id as int) < n,
                current_tick <= TICK_LIMIT,
                buffer_ok(buf@, n),
                buffer_ok(new_buf@, n),
                self.total_input@ == self.total_output@ + self.total_fees@ + self.total_burned@
                    + buffers_value(self.node_buffers@) + packets_value(self.message_queue@)
                    + packets_value(buf@) + packets_value(new_buf@),
                self.total_input == old(self).total_input,
                self.total_output@ >= old(self).total_output@,
                self.total_burned@ >= old(self).total_burned@,
                self.total_fees@ >= old(self).total_fees@,
                self.nodes@.len() == old(self).nodes@.len(),
                self.node_buffers@.len() == n,
                self.node_buffers@[node_id as int]@.len() == 0,
                self.state == (WorldState {
                    dissolved_count: self.state.dissolved_count,
                    ..old(self).state
                }),
                self.engauge_state == old(self).engauge_state,
                self.core_pid == old(self).core_pid,
                self.packet_id_counter == old(self).packet_id_counter,
                self.gold_price_history == old(self).gold_price_history,
                self.lambda_ema == old(self).lambda_ema,
                self.nodes@[node_id as int].role == role,
                !(role is Disabled),
                forall|i: int|
                    0 <= i < n && i != node_id as int ==> #[trigger] self.node_buffers@[i] == old(
                        self,
                    ).node_buffers@[i],
                forall|i: int|
                    0 <= i < n ==> #[trigger] self.nodes@[i].role == old(self).nodes@[i].role,
                forall|i: int|
                    0 <= i < n && i != node_id as int ==> #[trigger] self.nodes@[i].inventory_crypto
                        == old(self).nodes@[i].inventory_crypto,
                forall|i: int|
                    0 <= i < old(self).message_queue@.len() ==> #[trigger] self.message_queue@[i]
                        == old(self).message_queue@[i],
                old(self).message_queue@.len() <= self.message_queue@.len(),
                forall|i: int|
                    old(self).message_queue@.len() <= i < self.message_queue@.len()
                        ==> #[trigger] self.message_queue@[i].arrival_tick > current_tick,
                egress_head_settles(*old(self), node_id as int, current_tick) ==> (buf@ == old(
                    self,
                ).node_buffers@[node_id as int]@ && self.total_output@ == old(self).total_output@
                    && self.total_fees@ == old(self).total_fees@
                    && self.nodes@[node_id as int].inventory_crypto == old(
                    self,
                ).nodes@[node_id as int].inventory_crypto) || (settled >= 1 && self.total_output@
                    + self.total_fees@ >= old(self).total_output@ + old(self).total_fees@
                    + decayed_value(old(self).node_buffers@[node_id as int]@[0])),
                head_refunds(*old(self), node_id as int, current_tick) ==> (buf@ == old(
                    self,
                ).node_buffers@[node_id as int]@ && self.total_output@ == old(self).total_output@)
                    || self.total_output@ >= old(self).total_output@ + decayed_value(
                    old(self).node_buffers@[node_id as int]@[0],
                ),
            ensures
                buf@.len() == 0,
                self.wf_except_books(),
                self.total_input@ == self.total_output@ + self.total_fees@ + self.total_burned@
                    + buffers_value(self.node_buffers@) + packets_value(self.message_queue@)
                    + packets_value(new_buf@),
                buffer_ok(new_buf@, n),
                n == self.nodes@.len() as int,
                self.node_buffers@.len() == n,
                self.node_buffers@[node_id as int]@.len() == 0,
                self.total_input == old(self).total_input,
                self.total_output@ >= old(self).total_output@,
                self.total_burned@ >= old(self).total_burned@,
                self.total_fees@ >= old(self).total_fees@,
                self.nodes@.len() == old(self).nodes@.len(),
                self.state == (WorldState {
                    dissolved_count: self.state.dissolved_count,
                    ..old(self).state
                }),
                self.engauge_state == old(self).engauge_state,
                self.core_pid == old(self).core_pid,
                self.packet_id_counter == old(self).packet_id_counter,
                self.gold_price_history == old(self).gold_price_history,
                self.lambda_ema == old(self).lambda_ema,
                forall|i: int|
                    0 <= i < n && i != node_id as int ==> #[trigger] self.node_buffers@[i] == old(
                        self,
                    ).node_buffers@[i],
                forall|i: int|
                    0 <= i < n ==> #[trigger] self.nodes@[i].role == old(self).nodes@[i].role,
                forall|i: int|
                    0 <= i < n && i != node_id as int ==> #[trigger] self.nodes@[i].inventory_crypto
                        == old(self).nodes@[i].inventory_crypto,
                forall|i: int|
                    0 <= i < old(self).message_queue@.len() ==> #[trigger] self.message_queue@[i]
                        == old(self).message_queue@[i],
                old(self).message_queue@.len() <= self.message_queue@.len(),
                forall|i: int|
                    old(self).message_queue@.len() <= i < self.message_queue@.len()
                        ==> #[trigger] self.message_queue@[i].arrival_tick > current_tick,
                egress_head_settles(*old(self), node_id as int, current_tick) ==> settled >= 1
                    && self.total_output@ + self.total_fees@ >= old(self).total_output@ + old(
                    self,
                ).total_fees@ + decayed_value(old(self).node_buffers@[node_id as int]@[0]),
                head_refunds(*old(self), node_id as int, current_tick) ==> self.total_output@
                    >= old(self).total_output@ + decayed_value(
                    old(self).node_buffers@[node_id as int]@[0],
                ),
            decreases buf@.len(),
        {
            if buf.len() == 0 {
                break ;
            }
            let ghost buf_before = buf@;
            let ghost it0 = *self;
            let mut p = buf.remove(0);
            proof {
                lemma_packets_value_pop_front(buf_before);
                assert(packet_ok(p, n)) by {
                    assert(packet_ok(buf_before[0], n));
                }
                assert(buffer_ok(buf@, n)) by {
                    assert(buf@ == buf_before.remove(0));
                    assert(forall|i: int|
                        0 <= i < buf@.len() ==> buf@[i] == #[trigger] buf_before[i + 1]);
                    assert forall|i: int| 0 <= i < buf@.len() implies #[trigger] packet_ok(
                        buf@[i],
                        n,
                    ) by {
                        assert(packet_ok(buf_before[i + 1], n));
                    }
                }
                lemma_component_bounds(
                    self.total_input@,
                    self.total_output@,
                    self.total_fees@,
                    self.total_burned@,
                    self.node_buffers@,
                    self.message_queue@,
                    buf_before,
                    new_buf@,
                    n,
                );
                lemma_packets_value_nonneg(buf@, n);
            }

            // Per-tier exponential demurrage.
            let decay = p.tier.demurrage_decay_factor();
            proof {
                crate::fixed::lemma_mul_le(
                    p.current_value@,
                    decay@,
                    VALUE_LIMIT as int,
                    SCALE as int,
                );
            }
            let decayed = p.current_value.mul(decay);
            let burned_now = p.current_value.sub(decayed);
            p.current_value = decayed;
            self.total_burned = self.total_burned.add(burned_now);

            // Surge decay for packets that have been orbiting too long.
            match p.orbit_start_tick {
                Option::Some(start) => {
                    let orbit_ticks: u64 = if current_tick >= start {
                        current_tick - start
                    } else {
                        0
                    };
                    if orbit_ticks > 10 {
                        let factor = GoldGrams::from_scaled(
                            ((orbit_ticks - 10) as i128) * 10_000_000_000,
                        ).min(GoldGrams::from_scaled(SCALE / 2));
                        proof {
                            crate::fixed::lemma_mul_le(
                                p.current_value@,
                                factor@,
                                VALUE_LIMIT as int,
                                SCALE as int,
                            );
                        }
                        let surge_burn = p.current_value.mul(factor);
                        p.current_value = p.current_value.sub(surge_burn);
                        self.total_burned = self.total_burned.add(surge_burn);
                    }
                },
                Option::None => {},
            }

            // Expiry: the remaining value refunds to the sender.
            if p.ttl > 0 && current_tick >= p.ttl {
                self.total_output = self.total_output.add(p.current_value);
                self.revert_count = bump_u32(self.revert_count);
                let ghost predec = *self;
                self.decrement_buffer_count(node_id);
                proof {
                    assert forall|i: int| 0 <= i < n implies #[trigger] self.nodes@[i].role
                        == old(self).nodes@[i].role by {
                        assert(self.nodes@[i].role == predec.nodes@[i].role);
                    }
                    assert forall|i: int|
                        0 <= i < n && i != node_id as int implies
                        #[trigger] self.nodes@[i].inventory_crypto == old(
                        self,
                    ).nodes@[i].inventory_crypto by {
                        assert(self.nodes@[i].inventory_crypto
                            == predec.nodes@[i].inventory_crypto);
                    }
                }
                continue ;
            }

            // Gravity dissolution for abandoned held packets.
            if matches!(p.status, PacketState::Held) {
                let total_age: u64 = if current_tick >= p.spawn_tick {
                    current_tick - p.spawn_tick
                } else {
                    0
                };
                if crate::dissolution::is_eligible_ticks(total_age) && p.current_value.gt(
                    GoldGrams::zero(),
                ) {
                    let ghost prediss = *self;
                    if self.try_dissolve(&p, node_id) {
                        self.total_output = self.total_output.add(p.current_value);
                        self.state.dissolved_count = bump_u32(self.state.dissolved_count);
                        let ghost predec = *self;
                        self.decrement_buffer_count(node_id);
                        proof {
                            assert forall|i: int| 0 <= i < n implies
                                #[trigger] self.nodes@[i].role == old(self).nodes@[i].role by {
                                assert(self.nodes@[i].role == predec.nodes@[i].role);
                                assert(predec.nodes@[i].role == prediss.nodes@[i].role);
                            }
                            assert forall|i: int|
                                0 <= i < n && i != node_id as int implies
                                #[trigger] self.nodes@[i].inventory_crypto == old(
                                self,
                            ).nodes@[i].inventory_crypto by {
                                assert(self.nodes@[i].inventory_crypto
                                    == predec.nodes@[i].inventory_crypto);
                                assert(predec.nodes@[i].inventory_crypto
                                    == prediss.nodes@[i].inventory_crypto);
                            }
                        }
                        continue ;
                    }
                    proof {
                        assert forall|i: int| 0 <= i < n implies #[trigger] self.nodes@[i].role
                            == old(self).nodes@[i].role by {
                            assert(self.nodes@[i].role == prediss.nodes@[i].role);
                        }
                        assert forall|i: int|
                            0 <= i < n && i != node_id as int implies
                            #[trigger] self.nodes@[i].inventory_crypto == old(
                            self,
                        ).nodes@[i].inventory_crypto by {
                            assert(self.nodes@[i].inventory_crypto
                                == prediss.nodes@[i].inventory_crypto);
                        }
                    }
                }
            }

            // Orbit timeout: held packets refund after the per-tier limit.
            if matches!(p.status, PacketState::Held) {
                if p.orbit_start_tick.is_none() {
                    p.orbit_start_tick = Option::Some(current_tick);
                }
                let start = match p.orbit_start_tick {
                    Option::Some(st) => st,
                    Option::None => current_tick,
                };
                let orbit_ticks: u64 = if current_tick >= start {
                    current_tick - start
                } else {
                    0
                };
                let orbit_limit: u64 = if matches!(p.tier, MarketTier::L3) {
                    crate::dissolution::DISSOLUTION_TIMEOUT_TICKS + 500
                } else {
                    p.tier.ttl_ticks() / 2
                };
                if orbit_ticks > orbit_limit {
                    p.status = PacketState::Refunded;
                    self.total_output = self.total_output.add(p.current_value);
                    self.revert_count = bump_u32(self.revert_count);
                    let ghost predec = *self;
                    self.decrement_buffer_count(node_id);
                    proof {
                        assert forall|i: int| 0 <= i < n implies #[trigger] self.nodes@[i].role
                            == old(self).nodes@[i].role by {
                            assert(self.nodes@[i].role == predec.nodes@[i].role);
                        }
                        assert forall|i: int|
                            0 <= i < n && i != node_id as int implies
                            #[trigger] self.nodes@[i].inventory_crypto == old(
                            self,
                        ).nodes@[i].inventory_crypto by {
                            assert(self.nodes@[i].inventory_crypto
                                == predec.nodes@[i].inventory_crypto);
                        }
                    }
                    continue ;
                }
            }

            // Risk-averse nodes sit out volatile markets.
            if matches!(strategy, NodeStrategy::RiskAverse) && volatility.gt(
                GoldGrams::from_scaled(SCALE / 10),
            ) && !matches!(role, NodeRole::Egress) {
                proof {
                    lemma_packets_value_push(new_buf@, p);
                }
                new_buf.push(p);
                continue ;
            }

            // Egress settlement, when the pool covers the packet.
            if matches!(role, NodeRole::Egress) && p.current_value.gt(GoldGrams::zero())
                && self.nodes[node_id as usize].inventory_crypto.ge(p.current_value) {
                let ghost preset = *self;
                self.settle_packet(p, node_id, strategy, current_tick);
                settled = bump_u32(settled);
                proof {
                    assert forall|i: int| 0 <= i < n implies #[trigger] self.nodes@[i].role
                        == old(self).nodes@[i].role by {
                        assert(self.nodes@[i].role == preset.nodes@[i].role);
                    }
                    assert forall|i: int|
                        0 <= i < n && i != node_id as int implies
                        #[trigger] self.nodes@[i].inventory_crypto == old(
                        self,
                    ).nodes@[i].inventory_crypto by {
                        assert(self.nodes@[i].inventory_crypto
                            == preset.nodes@[i].inventory_crypto);
                    }
                }
                continue ;
            }

            // Hop limit exceeded: the packet enters orbit.
            if p.hops > p.hop_limit {
                p.status = PacketState::Held;
                if p.orbit_start_tick.is_none() {
                    p.orbit_start_tick = Option::Some(current_tick);
                }
                proof {
                    lemma_packets_value_push(new_buf@, p);
                }
                new_buf.push(p);
                continue ;
            }

            // Route toward the nearest liquid egress.
            let next_hop = crate::routing::find_next_hop(&self.nodes, node_id, &p);
            match next_hop {
                Option::Some(target) => {
                    let ghost prefwd = *self;
                    self.forward_packet(p, node_id, target, current_tick);
                    proof {
                        assert forall|i: int| 0 <= i < n implies #[trigger] self.nodes@[i].role
                            == old(self).nodes@[i].role by {
                            assert(self.nodes@[i].role == prefwd.nodes@[i].role);
                        }
                        assert forall|i: int|
                            0 <= i < n && i != node_id as int implies
                            #[trigger] self.nodes@[i].inventory_crypto == old(
                            self,
                        ).nodes@[i].inventory_crypto by {
                            assert(self.nodes@[i].inventory_crypto
                                == prefwd.nodes@[i].inventory_crypto);
                        }
                    }
                },
                Option::None => {
                    // No route: enter or stay in orbit.
                    p.status = PacketState::Held;
                    if p.orbit_start_tick.is_none() {
                        p.orbit_start_tick = Option::Some(current_tick);
                    }
                    proof {
                        lemma_packets_value_push(new_buf@, p);
                    }
                    new_buf.push(p);
                },
            }
        }

        // Put the surviving packets back.
        let ghost exitst = *self;
        let ghost bufs1 = self.node_buffers@;
        let nb_len = new_buf.len();
        let slot2 = &mut self.node_buffers[node_id as usize];
        core::mem::swap(slot2, &mut new_buf);
        self.set_buffer_count(node_id, nb_len);
        proof {
            assert forall|i: int| 0 <= i < n implies #[trigger] self.nodes@[i].role == old(
                self,
            ).nodes@[i].role by {
                assert(self.nodes@[i].role == exitst.nodes@[i].role);
            }
            assert forall|i: int|
                0 <= i < n && i != node_id as int implies #[trigger] self.nodes@[i].inventory_crypto
                == old(self).nodes@[i].inventory_crypto by {
                assert(self.nodes@[i].inventory_crypto == exitst.nodes@[i].inventory_crypto);
            }
            assert(self.node_buffers@ == bufs1.update(
                node_id as int,
                self.node_buffers@[node_id as int],
            ));
            lemma_buffers_value_update(bufs1, node_id as int, self.node_buffers@[node_id as int]);
            lemma_buffers_ok_update(
                bufs1,
                node_id as int,
                self.node_buffers@[node_id as int],
                n,
            );
        }
        settled
    }

    /// Settle one packet at an egress node: the governor's tier fee
    /// (shaped by the node's strategy and capped by the remaining budget
    /// and the packet value) is collected, split 80/20 between the egress
    /// node and the transit relays on the audit trail, and the remainder
    /// settles out of the system against the node's crypto pool. The
    /// packet's whole current value leaves the active books: exactly
    /// `current_value - fee` joins the output total and `fee` joins the
    /// fee total.
    #[verifier::rlimit(100)]
    fn settle_packet(&mut self, p: SimPacket, node_id: u32, strategy: NodeStrategy,
        current_tick: u64)
        requires
            old(self).wf_except_books(),
            (node_id as int) < old(self).nodes@.len(),
            packet_ok(p, old(self).nodes@.len() as int),
            0 < p.current_value@,
            old(self).nodes@[node_id as int].inventory_crypto@ >= p.current_value@,
            old(self).total_output@ <= BOOK_LIMIT,
            old(self).total_fees@ <= BOOK_LIMIT,
        ensures
            final(self).wf_except_books(),
            final(self).total_output@ + final(self).total_fees@ == old(self).total_output@ + old(
                self,
            ).total_fees@ + p.current_value@,
            final(self).total_output@ >= old(self).total_output@,
            final(self).total_fees@ >= old(self).total_fees@,
            final(self).total_input == old(self).total_input,
            final(self).total_burned == old(self).total_burned,
            final(self).message_queue == old(self).message_queue,
            final(self).node_buffers == old(self).node_buffers,
            final(self).nodes@.len() == old(self).nodes@.len(),
            final(self).state == old(self).state,
            final(self).engauge_state == old(self).engauge_state,
            final(self).core_pid == old(self).core_pid,
            final(self).packet_id_counter == old(self).packet_id_counter,
            final(self).gold_price_history == old(self).gold_price_history,
            final(self).lambda_ema == old(self).lambda_ema,
            forall|i: int|
                0 <= i < old(self).nodes@.len() ==> #[trigger] final(self).nodes@[i].role == old(
                    self,
                ).nodes@[i].role,
            forall|i: int|
                0 <= i < old(self).nodes@.len() && i != node_id as int ==> #[trigger] final(self).nodes@[i].inventory_crypto == old(self).nodes@[i].inventory_crypto,
            final(self).nodes@[node_id as int].inventory_crypto@ == old(
                self,
            ).nodes@[node_id as int].inventory_crypto@ - p.current_value@,
            ({
                let fee = settle_fee_spec(*old(self), p, strategy);
                &&& final(self).total_fees@ == old(self).total_fees@ + fee
                &&& final(self).total_output@ == old(self).total_output@ + p.current_value@ - fee
            }),
    {
        let mut p = p;
        let params = self.core_pid.last_params;
        let total_fee = self.core_pid.calculate_fee(
            &params,
            p.tier,
            self.state.current_fee_rate,
            p.original_value,
        ).min(p.current_value);
        p.route_history.push(node_id);
        let strategy_fee_mod = if matches!(strategy, NodeStrategy::Greedy) {
            GoldGrams::from_scaled(SCALE + SCALE / 2)
        } else {
            GoldGrams::one()
        };
        proof {
            crate::fixed::lemma_mul_le(
                total_fee@,
                strategy_fee_mod@,
                VALUE_LIMIT as int,
                2 * SCALE,
            );
        }
        let adjusted_fee = total_fee.mul(strategy_fee_mod);
        let remaining_budget = p.fee_budget.sub(p.fees_consumed).max(GoldGrams::zero());
        let capped_fee = adjusted_fee.min(p.current_value).min(remaining_budget);
        p.fees_consumed = p.fees_consumed.add(capped_fee);

        // 80/20 split; the velocity bonus shapes only the payout
        // bookkeeping, never the books.
        let velocity_bonus = if p.hops <= 3 {
            GoldGrams::from_scaled(SCALE + SCALE / 5)
        } else if p.hops <= 6 {
            GoldGrams::one()
        } else {
            GoldGrams::from_scaled(4 * SCALE / 5)
        };
        proof {
            crate::fixed::lemma_mul_le(
                capped_fee@,
                800_000_000_000,
                VALUE_LIMIT as int,
                SCALE as int,
            );
        }
        let egress_amount = capped_fee.mul(GoldGrams::from_scaled(800_000_000_000));
        let transit_pool = capped_fee.sub(egress_amount);
        proof {
            crate::fixed::lemma_mul_le(
                egress_amount@,
                velocity_bonus@,
                VALUE_LIMIT as int,
                2 * SCALE,
            );
        }
        let egress_reward = egress_amount.mul(velocity_bonus);
        self.credit_fees_earned(node_id, egress_reward);
        proof {
            assert forall|i: int| 0 <= i < old(self).nodes@.len() implies
                #[trigger] self.nodes@[i].role == old(self).nodes@[i].role by {
            }
            assert forall|i: int| 0 <= i < old(self).nodes@.len() implies
                #[trigger] self.nodes@[i].inventory_crypto == old(
                self,
            ).nodes@[i].inventory_crypto by {
            }
        }
        self.total_rewards_egress = saturating_credit(self.total_rewards_egress, egress_amount);

        // Transit relays from the audit trail share the pool.
        let mut transit_ids: Vec<u32> = Vec::new();
        let mut ri: usize = 0;
        let rh_len = p.route_history.len();
        let ghost snap0 = *self;
        while ri < rh_len
            invariant
                self.wf_except_books(),
                *self == snap0,
                rh_len == p.route_history@.len(),
                0 <= ri <= rh_len,
            decreases rh_len - ri,
        {
            let tn = p.route_history[ri];
            if tn != node_id && (tn as usize) < self.nodes.len() && !matches!(
                self.nodes[tn as usize].role,
                NodeRole::Ingress,
            ) {
                transit_ids.push(tn);
            }
            ri = ri + 1;
        }
        if transit_ids.len() > 0 {
            let per_transit_base = transit_pool.div_int(transit_ids.len() as u64);
            proof {
                crate::fixed::lemma_mul_le(
                    per_transit_base@,
                    velocity_bonus@,
                    VALUE_LIMIT as int,
                    2 * SCALE,
                );
            }
            let per_transit = per_transit_base.mul(velocity_bonus);
            let ghost snap = *self;
            proof {
                assert(forall|i: int|
                    0 <= i < old(self).nodes@.len() ==> #[trigger] snap.nodes@[i].role == old(
                        self,
                    ).nodes@[i].role);
                assert(forall|i: int|
                    0 <= i < old(self).nodes@.len() ==> #[trigger] snap.nodes@[i].inventory_crypto
                        == old(self).nodes@[i].inventory_crypto);
            }
            let mut ti: usize = 0;
            while ti < transit_ids.len()
                invariant
                    self.wf_except_books(),
                    0 <= ti <= transit_ids@.len(),
                    self.nodes@.len() == snap.nodes@.len(),
                    frame_all_but_nodes(*self, snap),
                    forall|i: int|
                        0 <= i < snap.nodes@.len() ==> #[trigger] self.nodes@[i].role
                            == snap.nodes@[i].role,
                    forall|i: int|
                        0 <= i < snap.nodes@.len() ==> #[trigger] self.nodes@[i].inventory_crypto
                            == snap.nodes@[i].inventory_crypto,
                decreases transit_ids@.len() - ti,
            {
                let ghost pre = *self;
                self.credit_fees_earned(transit_ids[ti], per_transit);
                proof {
                    assert forall|i: int| 0 <= i < snap.nodes@.len() implies
                        #[trigger] self.nodes@[i].role == snap.nodes@[i].role by {
                        assert(self.nodes@[i].role == pre.nodes@[i].role);
                    }
                    assert forall|i: int| 0 <= i < snap.nodes@.len() implies
                        #[trigger] self.nodes@[i].inventory_crypto
                        == snap.nodes@[i].inventory_crypto by {
                        assert(self.nodes@[i].inventory_crypto == pre.nodes@[i].inventory_crypto);
                    }
                }
                ti = ti + 1;
            }
        }
        self.total_rewards_transit = saturating_credit(self.total_rewards_transit, transit_pool);

        // Settlement: value leaves the system, the pool shrinks.
        let settlement_val = p.current_value.sub(capped_fee);
        proof {
            assert(crate::routing::node_ok(self.nodes@[node_id as int]));
        }
        let ghost before_pool = *self;
        let pool = self.nodes[node_id as usize].inventory_crypto;
        self.set_inventory_crypto(node_id, pool.sub(p.current_value));
        proof {
            assert forall|i: int| 0 <= i < old(self).nodes@.len() implies
                #[trigger] self.nodes@[i].role == old(self).nodes@[i].role by {
                assert(self.nodes@[i].role == before_pool.nodes@[i].role);
            }
            assert forall|i: int| 0 <= i < old(self).nodes@.len() && i != node_id as int implies
                #[trigger] self.nodes@[i].inventory_crypto == old(
                self,
            ).nodes@[i].inventory_crypto by {
                assert(self.nodes@[i].inventory_crypto == before_pool.nodes@[i].inventory_crypto);
            }
        }
        self.total_output = self.total_output.add(settlement_val);
        self.total_fees = self.total_fees.add(capped_fee);
        self.settlement_count = bump_u32(self.settlement_count);
        self.total_settlement_hops = bump_u64(self.total_settlement_hops, p.hops as u64);
        let wait: u64 = if current_tick >= p.arrival_tick {
            current_tick - p.arrival_tick
        } else {
            0
        };
        self.total_settlement_time = bump_u64(self.total_settlement_time, wait);
        let ghost before_dec = *self;
        self.decrement_buffer_count(node_id);
        proof {
            assert forall|i: int| 0 <= i < old(self).nodes@.len() implies
                #[trigger] self.nodes@[i].role == old(self).nodes@[i].role by {
                assert(self.nodes@[i].role == before_dec.nodes@[i].role);
            }
            assert forall|i: int| 0 <= i < old(self).nodes@.len() && i != node_id as int implies
                #[trigger] self.nodes@[i].inventory_crypto == old(
                self,
            ).nodes@[i].inventory_crypto by {
                assert(self.nodes@[i].inventory_crypto == before_dec.nodes@[i].inventory_crypto);
            }
        }

        // Verify the settlement against the conservation law: the packet
        // decomposes exactly into the settled value, every fee it paid,
        // and the value demurrage burned away.
        let demurrage_burned = p.original_value.sub(p.current_value).sub(p.fees_consumed).add(
            capped_fee,
        ).max(GoldGrams::zero());
        self.conservation_law.verify_settlement(
            p.original_value,
            settlement_val,
            p.fees_consumed,
            demurrage_burned,
        );
    }

    /// Forward one packet to its next hop: the hop's transit fee (capped
    /// by the tier cap and the remaining budget) moves from the packet's
    /// value to the fee total, and the packet joins the in-transit queue
    /// with an arrival time that grows with distance and the current
    /// verification burden. The packet's remaining value moves to the
    /// queue: the books change by exactly the fee.
    fn forward_packet(&mut self, p: SimPacket, node_id: u32, target: u32, current_tick: u64)
        requires
            old(self).wf_except_books(),
            (node_id as int) < old(self).nodes@.len(),
            (target as int) < old(self).nodes@.len(),
            packet_ok(p, old(self).nodes@.len() as int),
            p.hops <= p.hop_limit,
            current_tick <= TICK_LIMIT,
            old(self).total_fees@ <= BOOK_LIMIT,
        ensures
            final(self).wf_except_books(),
            final(self).total_fees@ + packets_value(final(self).message_queue@) == old(
                self,
            ).total_fees@ + packets_value(old(self).message_queue@) + p.current_value@,
            final(self).total_fees@ >= old(self).total_fees@,
            final(self).total_input == old(self).total_input,
            final(self).total_output == old(self).total_output,
            final(self).total_burned == old(self).total_burned,
            final(self).node_buffers == old(self).node_buffers,
            final(self).nodes@.len() == old(self).nodes@.len(),
            final(self).state == old(self).state,
            final(self).engauge_state == old(self).engauge_state,
            final(self).core_pid == old(self).core_pid,
            final(self).packet_id_counter == old(self).packet_id_counter,
            final(self).gold_price_history == old(self).gold_price_history,
            final(self).lambda_ema == old(self).lambda_ema,
            final(self).settlement_count == old(self).settlement_count,
            final(self).revert_count == old(self).revert_count,
            final(self).total_settlement_hops == old(self).total_settlement_hops,
            final(self).total_settlement_time == old(self).total_settlement_time,
            forall|i: int|
                0 <= i < old(self).nodes@.len() ==> #[trigger] final(self).nodes@[i].role == old(
                    self,
                ).nodes@[i].role,
            final(self).message_queue@.len() == old(self).message_queue@.len() + 1,
            forall|i: int|
                0 <= i < old(self).message_queue@.len() ==> #[trigger] final(self).message_queue@[i] == old(self).message_queue@[i],
            final(self).message_queue@.last().arrival_tick > current_tick,
            forall|i: int|
                0 <= i < old(self).nodes@.len() ==> #[trigger] final(self).nodes@[i].inventory_crypto
                    == old(self).nodes@[i].inventory_crypto,
    {
        let mut p = p;
        // Charge the hop's transit fee within budget and cap.
        proof {
            assert(crate::routing::node_ok(self.nodes@[target as int]));
            crate::fixed::lemma_mul_le(
                self.nodes@[target as int].transit_fee@,
                p.current_value@,
                SCALE as int,
                VALUE_LIMIT as int,
            );
            crate::fixed::lemma_mul_le(
                p.current_value@,
                p.tier.fee_cap_spec(),
                VALUE_LIMIT as int,
                SCALE as int,
            );
        }
        let transit_fee = self.nodes[target as usize].transit_fee.mul(p.current_value);
        let cap_fee = p.current_value.mul(p.tier.fee_cap());
        let remaining_budget = p.fee_budget.sub(p.fees_consumed).max(GoldGrams::zero());
        let capped = transit_fee.min(cap_fee).min(remaining_budget);
        p.current_value = p.current_value.sub(capped);
        p.fees_consumed = p.fees_consumed.add(capped);
        p.fee_schedule.push(capped);
        self.total_fees = self.total_fees.add(capped);
        let ghost pre = *self;
        self.credit_fees_earned(target, capped);
        proof {
            assert forall|i: int| 0 <= i < old(self).nodes@.len() implies
                #[trigger] self.nodes@[i].role == old(self).nodes@[i].role by {
                assert(self.nodes@[i].role == pre.nodes@[i].role);
            }
            assert forall|i: int| 0 <= i < old(self).nodes@.len() implies
                #[trigger] self.nodes@[i].inventory_crypto == old(
                self,
            ).nodes@[i].inventory_crypto by {
                assert(self.nodes@[i].inventory_crypto == pre.nodes@[i].inventory_crypto);
            }
        }

        p.status = PacketState::InTransit;
        p.target_node = Option::Some(target);
        p.hops = p.hops + 1;
        p.route_history.push(node_id);
        p.orbit_start_tick = Option::None;

        // Arrival latency grows with distance and the current
        // verification burden.
        proof {
            assert(crate::routing::node_ok(self.nodes@[node_id as int]));
            assert(crate::routing::node_ok(self.nodes@[target as int]));
        }
        let dx = self.nodes[node_id as usize].x.to_scaled() - self.nodes[target
            as usize].x.to_scaled();
        let dy = self.nodes[node_id as usize].y.to_scaled() - self.nodes[target
            as usize].y.to_scaled();
        proof {
            assert(0 <= dx * dx <= 1_000_000_000_000_000_000_000_000_000_000_000_000 && 0 <= dy
                * dy <= 1_000_000_000_000_000_000_000_000_000_000_000_000) by (nonlinear_arith)
                requires
                    -1_000_000_000_000_000_000 <= dx <= 1_000_000_000_000_000_000,
                    -1_000_000_000_000_000_000 <= dy <= 1_000_000_000_000_000_000,
            ;
        }
        let d2: i128 = dx * dx + dy * dy;
        let root = crate::routing::isqrt_fixed(d2 as u128);
        proof {
            assert(root@ <= 3_000_000_000_000_000_000) by (nonlinear_arith)
                requires
                    root@ * root@ <= 2_000_000_000_000_000_000_000_000_000_000_000_000,
                    0 <= root@,
            ;
        }
        let latency: u64 = 1 + (root.to_scaled() / SCALE) as u64;
        p.arrival_tick = current_tick + latency + self.state.verification_complexity;

        proof {
            lemma_packets_value_push(self.message_queue@, p);
        }
        self.message_queue.push(p);
        self.decrement_buffer_count(node_id);
    }

    /// Saturating decrement of a node's buffer counter.
    fn decrement_buffer_count(&mut self, node_id: u32)
        requires
            old(self).wf_except_books(),
            (node_id as int) < old(self).nodes@.len(),
        ensures
            final(self).wf_except_books(),
            final(self).nodes@.len() == old(self).nodes@.len(),
            *final(self) == (ArenaSimulation { nodes: final(self).nodes, ..*old(self) }),
            forall|i: int|
                0 <= i < old(self).nodes@.len() && i != node_id as int ==> final(self).nodes@[i]
                    == #[trigger] old(self).nodes@[i],
            final(self).nodes@[node_id as int] == (SimNode {
                current_buffer_count: final(self).nodes@[node_id as int].current_buffer_count,
                ..old(self).nodes@[node_id as int]
            }),
    {
        let c = self.nodes[node_id as usize].current_buffer_count;
        if c > 0 {
            self.nodes[node_id as usize].current_buffer_count = c - 1;
        }
        proof {
            assert forall|i: int| 0 <= i < self.nodes@.len() implies
                #[trigger] crate::routing::node_ok(self.nodes@[i]) by {
                assert(crate::routing::node_ok(old(self).nodes@[i]));
            }
        }
    }

    /// Overwrite a node's buffer counter.
    fn set_buffer_count(&mut self, node_id: u32, count: usize)
        requires
            old(self).wf_except_books(),
            (node_id as int) < old(self).nodes@.len(),
        ensures
            final(self).wf_except_books(),
            final(self).nodes@.len() == old(self).nodes@.len(),
            *final(self) == (ArenaSimulation { nodes: final(self).nodes, ..*old(self) }),
            forall|i: int|
                0 <= i < old(self).nodes@.len() && i != node_id as int ==> final(self).nodes@[i]
                    == #[trigger] old(self).nodes@[i],
            final(self).nodes@[node_id as int] == (SimNode {
                current_buffer_count: final(self).nodes@[node_id as int].current_buffer_count,
                ..old(self).nodes@[node_id as int]
            }),
    {
        let c: u32 = if count <= (u32::MAX as usize) {
            count as u32
        } else {
            u32::MAX
        };
        self.nodes[node_id as usize].current_buffer_count = c;
        proof {
            assert forall|i: int| 0 <= i < self.nodes@.len() implies
                #[trigger] crate::routing::node_ok(self.nodes@[i]) by {
                assert(crate::routing::node_ok(old(self).nodes@[i]));
            }
        }
    }

    /// Credit earned fees to a node, saturating at the book limit.
    /// Unknown node ids and negative amounts are ignored.
    fn credit_fees_earned(&mut self, node_id: u32, amount: GoldGrams)
        requires
            old(self).wf_except_books(),
        ensures
            final(self).wf_except_books(),
            final(self).nodes@.len() == old(self).nodes@.len(),
            *final(self) == (ArenaSimulation { nodes: final(self).nodes, ..*old(self) }),
            forall|i: int|
                0 <= i < old(self).nodes@.len() && i != node_id as int ==> final(self).nodes@[i]
                    == #[trigger] old(self).nodes@[i],
            (node_id as int) < old(self).nodes@.len() ==> final(self).nodes@[node_id as int]
                == (SimNode {
                total_fees_earned: final(self).nodes@[node_id as int].total_fees_earned,
                ..old(self).nodes@[node_id as int]
            }),
    {
        if (node_id as usize) >= self.nodes.len() {
            return ;
        }
        proof {
            assert(crate::routing::node_ok(old(self).nodes@[node_id as int]));
        }
        let credit = amount.max(GoldGrams::zero()).min(GoldGrams::from_scaled(BOOK_LIMIT));
        let earned = self.nodes[node_id as usize].total_fees_earned;
        self.nodes[node_id as usize].total_fees_earned = saturating_credit(earned, credit);
        proof {
            assert forall|i: int| 0 <= i < self.nodes@.len() implies
                #[trigger] crate::routing::node_ok(self.nodes@[i]) by {
                assert(crate::routing::node_ok(old(self).nodes@[i]));
            }
        }
    }

    /// Overwrite a node's settlement pool (already bounds-checked by the
    /// caller).
    fn set_inventory_crypto(&mut self, node_id: u32, val: GoldGrams)
        requires
            old(self).wf_except_books(),
            (node_id as int) < old(self).nodes@.len(),
            0 <= val@ <= VALUE_LIMIT,
        ensures
            final(self).wf_except_books(),
            final(self).nodes@.len() == old(self).nodes@.len(),
            *final(self) == (ArenaSimulation { nodes: final(self).nodes, ..*old(self) }),
            forall|i: int|
                0 <= i < old(self).nodes@.len() && i != node_id as int ==> final(self).nodes@[i]
                    == #[trigger] old(self).nodes@[i],
            final(self).nodes@[node_id as int] == (SimNode {
                inventory_crypto: val,
                ..old(self).nodes@[node_id as int]
            }),
    {
        self.nodes[node_id as usize].inventory_crypto = val;
        proof {
            assert(crate::routing::node_ok(old(self).nodes@[node_id as int]));
            assert forall|i: int| 0 <= i < self.nodes@.len() implies
                #[trigger] crate::routing::node_ok(self.nodes@[i]) by {
                assert(crate::routing::node_ok(old(self).nodes@[i]));
            }
        }
    }

    /// Attempt gravity dissolution of one held packet: qualified nodes
    /// (shard holders doubled) share the residual value into their fiat
    /// inventories. Returns whether the dissolution succeeded.
    fn try_dissolve(&mut self, p: &SimPacket, node_id: u32) -> (r: bool)
        requires
            old(self).wf_except_books(),
            p.wf(),
        ensures
            final(self).wf_except_books(),
            final(self).nodes@.len() == old(self).nodes@.len(),
            *final(self) == (ArenaSimulation { nodes: final(self).nodes, ..*old(self) }),
            forall|i: int|
                0 <= i < old(self).nodes@.len() ==> final(self).nodes@[i] == (SimNode {
                    inventory_fiat: final(self).nodes@[i].inventory_fiat,
                    ..#[trigger] old(self).nodes@[i]
                }),
    {
        // Qualification census over the live mesh.
        let mut qualifications: Vec<crate::dissolution::GravityQualification> = Vec::new();
        let mut i: usize = 0;
        while i < self.nodes.len()
            invariant
                self.wf_except_books(),
                *self == *old(self),
                0 <= i <= self.nodes@.len(),
                qualifications@.len() <= i,
            decreases self.nodes@.len() - i,
        {
            proof {
                assert(crate::routing::node_ok(self.nodes@[i as int]));
            }
            let nd = &self.nodes[i];
            if !matches!(nd.role, NodeRole::Disabled) {
                qualifications.push(
                    crate::dissolution::GravityQualification {
                        node_id: nd.id,
                        upi_active: nd.upi_active,
                        engauge_active: nd.ngauge_running,
                        kyc_attested: nd.kyc_valid,
                        caesar_active: !matches!(nd.role, NodeRole::Disabled),
                        demonstrable_capacity: nd.bandwidth.ge(GoldGrams::from_int(10)),
                        active_routing_current_epoch: nd.current_buffer_count > 0
                            || nd.total_fees_earned.gt(GoldGrams::zero()),
                    },
                );
            }
            i = i + 1;
        }
        let shard_holders = clone_u32_vec(&p.route_history);
        let outcome = crate::dissolution::dissolve(
            p.current_value,
            &qualifications,
            &shard_holders,
        );
        match outcome {
            Result::Err(_) => false,
            Result::Ok(result) => {
                // Credit each recipient's fiat inventory, saturating.
                let mut k: usize = 0;
                while k < result.distributions.len()
                    invariant
                        self.wf_except_books(),
                        0 <= k <= result.distributions@.len(),
                        self.nodes@.len() == old(self).nodes@.len(),
                        *self == (ArenaSimulation { nodes: self.nodes, ..*old(self) }),
                        forall|i: int|
                            0 <= i < old(self).nodes@.len() ==> self.nodes@[i] == (SimNode {
                                inventory_fiat: self.nodes@[i].inventory_fiat,
                                ..#[trigger] old(self).nodes@[i]
                            }),
                    decreases result.distributions@.len() - k,
                {
                    let dist = &result.distributions[k];
                    if (dist.node_id as usize) < self.nodes.len() {
                        proof {
                            assert(crate::routing::node_ok(self.nodes@[dist.node_id as int]));
                        }
                        let ghost pre_nodes = self.nodes@;
                        let credit = dist.amount.max(GoldGrams::zero()).min(
                            GoldGrams::from_scaled(BOOK_LIMIT),
                        );
                        let fiat = self.nodes[dist.node_id as usize].inventory_fiat;
                        self.nodes[dist.node_id as usize].inventory_fiat = saturating_credit(
                            fiat,
                            credit,
                        );
                        proof {
                            assert forall|j: int| 0 <= j < self.nodes@.len() implies
                                #[trigger] crate::routing::node_ok(self.nodes@[j]) by {
                                assert(crate::routing::node_ok(pre_nodes[j]));
                            }
                        }
                    }
                    k = k + 1;
                }
                true
            },
        }
    }
}

impl ArenaSimulation {
    /// Run the execution cycle over every node in id order, returning the
    /// number of settlements. The books stay exactly balanced.
    fn execute_node_cycle(&mut self, current_tick: u64, volatility: GoldGrams) -> (settled: u32)
        requires
            old(self).wf(),
            current_tick <= TICK_LIMIT,
        ensures
            final(self).wf(),
            final(self).total_input == old(self).total_input,
            final(self).total_output@ >= old(self).total_output@,
            final(self).total_burned@ >= old(self).total_burned@,
            final(self).total_fees@ >= old(self).total_fees@,
            final(self).nodes@.len() == old(self).nodes@.len(),
            final(self).state == (WorldState {
                dissolved_count: final(self).state.dissolved_count,
                ..old(self).state
            }),
            final(self).core_pid == old(self).core_pid,
            final(self).engauge_state == old(self).engauge_state,
            final(self).state.current_tick == old(self).state.current_tick,
            forall|i: int|
                0 <= i < old(self).nodes@.len() ==> #[trigger] final(self).nodes@[i].role == old(
                    self,
                ).nodes@[i].role,
            forall|i: int|
                0 <= i < old(self).message_queue@.len() ==> #[trigger] final(self).message_queue@[i]
                    == old(self).message_queue@[i],
            old(self).message_queue@.len() <= final(self).message_queue@.len(),
            forall|i: int|
                old(self).message_queue@.len() <= i < final(self).message_queue@.len()
                    ==> #[trigger] final(self).message_queue@[i].arrival_tick > current_tick,
            forall|i: int|
                0 <= i < old(self).nodes@.len() && #[trigger] egress_head_settles(
                    *old(self),
                    i,
                    current_tick,
                ) ==> final(self).total_output@ + final(self).total_fees@ >= old(
                    self,
                ).total_output@ + old(self).total_fees@ + decayed_value(
                    old(self).node_buffers@[i]@[0],
                ),
            forall|i: int|
                0 <= i < old(self).nodes@.len() && #[trigger] head_refunds(
                    *old(self),
                    i,
                    current_tick,
                ) ==> final(self).total_output@ >= old(self).total_output@ + decayed_value(
                    old(self).node_buffers@[i]@[0],
                ),
    {
        let mut settled: u32 = 0;
        let n = self.nodes.len();
        let mut node_id: usize = 0;
        while node_id < n
            invariant
                self.wf(),
                n == self.nodes@.len(),
                0 <= node_id <= n,
                current_tick <= TICK_LIMIT,
                self.total_input == old(self).total_input,
                self.total_output@ >= old(self).total_output@,
                self.total_burned@ >= old(self).total_burned@,
                self.total_fees@ >= old(self).total_fees@,
                self.nodes@.len() == old(self).nodes@.len(),
                self.state == (WorldState {
                    dissolved_count: self.state.dissolved_count,
                    ..old(self).state
                }),
                self.core_pid == old(self).core_pid,
                self.engauge_state == old(self).engauge_state,
                forall|i: int|
                    node_id <= i < n ==> #[trigger] self.node_buffers@[i] == old(
                        self,
                    ).node_buffers@[i],
                forall|i: int|
                    node_id <= i < n ==> #[trigger] self.nodes@[i].inventory_crypto == old(
                        self,
                    ).nodes@[i].inventory_crypto,
                forall|i: int|
                    0 <= i < n ==> #[trigger] self.nodes@[i].role == old(self).nodes@[i].role,
                forall|i: int|
                    0 <= i < old(self).message_queue@.len() ==> #[trigger] self.message_queue@[i]
                        == old(self).message_queue@[i],
                old(self).message_queue@.len() <= self.message_queue@.len(),
                forall|i: int|
                    old(self).message_queue@.len() <= i < self.message_queue@.len()
                        ==> #[trigger] self.message_queue@[i].arrival_tick > current_tick,
                forall|i: int|
                    0 <= i < node_id && #[trigger] egress_head_settles(
                        *old(self),
                        i,
                        current_tick,
                    ) ==> self.total_output@ + self.total_fees@ >= old(self).total_output@ + old(
                        self,
                    ).total_fees@ + decayed_value(old(self).node_buffers@[i]@[0]),
                forall|i: int|
                    0 <= i < node_id && #[trigger] head_refunds(*old(self), i, current_tick)
                        ==> self.total_output@ >= old(self).total_output@ + decayed_value(
                        old(self).node_buffers@[i]@[0],
                    ),
            decreases n - node_id,
        {
            let ghost pre = *self;
            let s = self.process_node(node_id as u32, current_tick, volatility);
            settled = bump_u32_by(settled, s);
            proof {
                assert(egress_head_settles(pre, node_id as int, current_tick)
                    == egress_head_settles(*old(self), node_id as int, current_tick)) by {
                    assert(pre.node_buffers@[node_id as int] == old(
                        self,
                    ).node_buffers@[node_id as int]);
                    assert(pre.nodes@[node_id as int].inventory_crypto == old(
                        self,
                    ).nodes@[node_id as int].inventory_crypto);
                    assert(pre.nodes@[node_id as int].role == old(self).nodes@[node_id as int].role);
                }
                assert(head_refunds(pre, node_id as int, current_tick) == head_refunds(
                    *old(self),
                    node_id as int,
                    current_tick,
                )) by {
                    assert(pre.node_buffers@[node_id as int] == old(
                        self,
                    ).node_buffers@[node_id as int]);
                    assert(pre.nodes@[node_id as int].role == old(self).nodes@[node_id as int].role);
                }
            }
            node_id = node_id + 1;
        }
        settled
    }

    /// Sum of all live packet value: the buffers plus the in-transit
    /// queue. This is the quantity the conservation law balances.
    fn sum_active_value(&self) -> (r: GoldGrams)
        requires
            self.wf(),
        ensures
            r@ == self.active_total(),
            0 <= r@ <= BOOK_LIMIT,
    {
        proof {
            self.lemma_active_nonneg();
        }
        let ghost n = self.nodes@.len() as int;
        let mut acc = GoldGrams::zero();
        let mut i: usize = 0;
        while i < self.node_buffers.len()
            invariant
                self.wf(),
                n == self.nodes@.len() as int,
                0 <= i <= self.node_buffers@.len(),
                acc@ == buffers_value(self.node_buffers@.take(i as int)),
                0 <= acc@ <= BOOK_LIMIT,
            decreases self.node_buffers@.len() - i,
        {
            proof {
                assert(buffer_ok(self.node_buffers@[i as int]@, n));
                lemma_buffers_prefix_bound(self.node_buffers@, i as int, n);
                lemma_buffers_take_rest(self.node_buffers@, i as int, n);
                lemma_buffers_take_rest(self.node_buffers@, i + 1, n);
                self.lemma_active_nonneg();
                lemma_packets_value_nonneg(self.message_queue@, n);
                lemma_packets_value_nonneg(self.node_buffers@[i as int]@, n);
            }
            let b = sum_packets(&self.node_buffers[i], Ghost(n));
            acc = acc.add(b);
            i = i + 1;
        }
        proof {
            assert(self.node_buffers@.take(self.node_buffers@.len() as int)
                =~= self.node_buffers@);
        }
        let q = sum_packets(&self.message_queue, Ghost(n));
        proof {
            self.lemma_active_nonneg();
            lemma_buffers_value_nonneg(self.node_buffers@, n);
            lemma_packets_value_nonneg(self.message_queue@, n);
        }
        acc.add(q)
    }
}

impl ArenaSimulation {
    /// Advance the world exactly one tick: deliver matured packets,
    /// refresh volatility and the liquidity coefficient, run the Governor
    /// (with the panic, oracle-discount, speculation and surge overlays),
    /// spawn traffic, execute every node, and publish the snapshot.
    ///
    /// The conservation law holds exactly after every tick: the published
    /// `total_value_leaked` is always zero, the per-tier fee rates never
    /// cross their constitutional caps, settlement pools never go
    /// negative, and every cumulative total is monotone.
    #[verifier::rlimit(100)]
    pub fn tick_core(&mut self) -> (r: crate::types::TickResult)
        requires
            old(self).wf(),
            old(self).state.current_tick < TICK_LIMIT,
        ensures
            final(self).wf(),
            final(self).books_balanced(),
            final(self).state.current_tick == old(self).state.current_tick + 1,
            r.state == (WorldState {
                governance_quadrant: r.state.governance_quadrant,
                governance_status: r.state.governance_status,
                ..final(self).state
            }),
            r.state.total_value_leaked@ == 0,
            final(self).total_input@ >= old(self).total_input@,
            final(self).total_output@ >= old(self).total_output@,
            final(self).total_burned@ >= old(self).total_burned@,
            final(self).total_fees@ >= old(self).total_fees@,
            forall|i: int|
                0 <= i < 4 ==> #[trigger] r.state.tier_fee_rates@[i]@
                    <= crate::governor::tier_of_index(i).fee_cap_spec(),
            r.state.circuit_breaker_active == final(self).conservation_law.circuit_breaker_tripped,
            final(self).nodes@.len() == old(self).nodes@.len(),
            final(self).state.total_input == final(self).total_input,
            final(self).state.total_output == final(self).total_output,
            final(self).state.total_fees_collected == final(self).total_fees,
            final(self).state.total_demurrage_burned == final(self).total_burned,
            final(self).state.settlement_count == final(self).settlement_count,
            final(self).state.revert_count == final(self).revert_count,
            final(self).state.active_value@ == final(self).active_total(),
            final(self).state.held_count as int == if held_total(final(self).node_buffers@)
                <= u32::MAX {
                held_total(final(self).node_buffers@)
            } else {
                u32::MAX as int
            },
            final(self).state.orbit_count == final(self).state.held_count,
            forall|i: int|
                0 <= i < final(self).message_queue@.len()
                    ==> #[trigger] final(self).message_queue@[i].arrival_tick
                    > final(self).state.current_tick,
            forall|i: int|
                0 <= i < old(self).nodes@.len() && #[trigger] egress_head_settles(
                    *old(self),
                    i,
                    (old(self).state.current_tick + 1) as u64,
                ) ==> final(self).total_output@ + final(self).total_fees@ >= old(
                    self,
                ).total_output@ + old(self).total_fees@ + decayed_value(
                    old(self).node_buffers@[i]@[0],
                ),
            forall|i: int|
                0 <= i < old(self).nodes@.len() && #[trigger] head_refunds(
                    *old(self),
                    i,
                    (old(self).state.current_tick + 1) as u64,
                ) ==> final(self).total_output@ >= old(self).total_output@ + decayed_value(
                    old(self).node_buffers@[i]@[0],
                ),
    {
        self.state.current_tick = self.state.current_tick + 1;
        let current_tick = self.state.current_tick;

        // Rolling price window (20 samples).
        self.gold_price_history.push(self.state.gold_price);
        if self.gold_price_history.len() > 20 {
            self.gold_price_history.remove(0);
            proof {
                assert(forall|i: int|
                    0 <= i < self.gold_price_history@.len() ==> self.gold_price_history@[i]
                        == #[trigger] old(self).gold_price_history@.push(
                        old(self).state.gold_price,
                    )[i + 1]);
            }
        }

        // Deliver matured in-transit packets.
        self.deliver_message_queue(current_tick);
        let ghost e1 = *self;

        // Volatility from the rolling window.
        let volatility = compute_rolling_volatility(&self.gold_price_history);
        self.state.volatility = volatility;
        self.last_gold_price = self.state.gold_price;

        // Liquidity coefficient: egress capacity over in-flight value,
        // smoothed by a ten-tick moving average and clamped into the
        // representable band.
        let mut egress_capacity = GoldGrams::zero();
        let mut ei: usize = 0;
        while ei < self.nodes.len()
            invariant
                self.wf(),
                0 <= ei <= self.nodes@.len(),
                0 <= egress_capacity@ <= ei * VALUE_LIMIT,
            decreases self.nodes@.len() - ei,
        {
            proof {
                assert(crate::routing::node_ok(self.nodes@[ei as int]));
                assert((ei + 1) * VALUE_LIMIT == ei * VALUE_LIMIT + VALUE_LIMIT)
                    by (nonlinear_arith);
            }
            if matches!(self.nodes[ei].role, NodeRole::Egress) {
                egress_capacity = egress_capacity.add(self.nodes[ei].inventory_crypto);
            }
            ei = ei + 1;
        }
        let in_flight = self.sum_active_value().add(GoldGrams::from_scaled(SCALE / 10));
        let raw_lambda = egress_capacity.min(
            GoldGrams::from_scaled(crate::fixed::DIV_NUMERATOR_LIMIT),
        ).div(in_flight).min(GoldGrams::from_scaled(1_000_000 * SCALE));
        proof {
            crate::fixed::lemma_mul_le(
                self.lambda_ema@,
                900_000_000_000,
                1_000_000 * SCALE,
                SCALE as int,
            );
            crate::fixed::lemma_mul_le(
                raw_lambda@,
                100_000_000_000,
                1_000_000 * SCALE,
                SCALE as int,
            );
        }
        let ema = self.lambda_ema.mul(GoldGrams::from_scaled(900_000_000_000)).add(
            raw_lambda.mul(GoldGrams::from_scaled(100_000_000_000)),
        ).min(GoldGrams::from_scaled(1_000_000 * SCALE));
        self.lambda_ema = ema;
        let lambda = ema;

        // Surge pricing only under sustained crunch with market stress.
        let half_lambda = GoldGrams::from_scaled(SCALE / 2);
        let surge = if lambda.lt(half_lambda) && (self.state.panic_level.gt(
            GoldGrams::from_scaled(SCALE / 10),
        ) || self.state.demand_factor.gt(half_lambda)) {
            if lambda.is_zero() {
                GoldGrams::from_scaled(3 * SCALE)
            } else {
                GoldGrams::one().div(lambda).min(GoldGrams::from_scaled(3 * SCALE))
            }
        } else {
            GoldGrams::one()
        };
        self.state.surge_multiplier = surge;

        // Oracle activity and the governor cycle.
        self.run_governor_cycle(lambda, surge, volatility);
        let ghost e2 = *self;

        // Traffic, execution, pressure, snapshot.
        self.auto_spawn_traffic(current_tick);
        let ghost e3 = *self;
        proof {
            assert forall|i: int|
                0 <= i < old(self).nodes@.len() && #[trigger] egress_head_settles(
                    *old(self),
                    i,
                    current_tick,
                ) implies egress_head_settles(e3, i, current_tick) && e3.node_buffers@[i]@[0]
                == old(self).node_buffers@[i]@[0] by {
                assert(buffer_extends(old(self).node_buffers@[i]@, e1.node_buffers@[i]@));
                assert(e2.node_buffers@[i]@ == e1.node_buffers@[i]@);
                assert(buffer_extends(e2.node_buffers@[i]@, e3.node_buffers@[i]@));
                assert(e3.node_buffers@[i]@[0] == old(self).node_buffers@[i]@[0]);
                assert(e1.nodes@[i].role == old(self).nodes@[i].role);
                assert(e2.nodes@[i].role == e1.nodes@[i].role);
                assert(e3.nodes@[i].role == e2.nodes@[i].role);
                assert(e1.nodes@[i].inventory_crypto == old(self).nodes@[i].inventory_crypto);
                assert(e2.nodes@[i].inventory_crypto == e1.nodes@[i].inventory_crypto);
                assert(e3.nodes@[i].inventory_crypto == e2.nodes@[i].inventory_crypto);
            }
            assert forall|i: int|
                0 <= i < old(self).nodes@.len() && #[trigger] head_refunds(
                    *old(self),
                    i,
                    current_tick,
                ) implies head_refunds(e3, i, current_tick) && e3.node_buffers@[i]@[0] == old(
                self,
            ).node_buffers@[i]@[0] by {
                assert(buffer_extends(old(self).node_buffers@[i]@, e1.node_buffers@[i]@));
                assert(e2.node_buffers@[i]@ == e1.node_buffers@[i]@);
                assert(buffer_extends(e2.node_buffers@[i]@, e3.node_buffers@[i]@));
                assert(e3.node_buffers@[i]@[0] == old(self).node_buffers@[i]@[0]);
                assert(e1.nodes@[i].role == old(self).nodes@[i].role);
                assert(e2.nodes@[i].role == e1.nodes@[i].role);
                assert(e3.nodes@[i].role == e2.nodes@[i].role);
            }
        }
        let settled_count = self.execute_node_cycle(current_tick, volatility);
        self.compute_node_pressure();
        self.finalize_stats(settled_count, current_tick)
    }

    /// The governor phase of a tick: oracle activity accrues, the PID
    /// controller runs on the observed metrics, the legacy policy
    /// overlays (panic, oracle discount, speculation, surge) shape the
    /// fee, and the per-tier effective rates are published, never beyond
    /// the constitutional caps.
    #[verifier::rlimit(100)]
    fn run_governor_cycle(&mut self, lambda: GoldGrams, surge: GoldGrams, volatility: GoldGrams)
        requires
            old(self).wf(),
            0 <= lambda@ <= 1_000_000 * SCALE,
            0 <= surge@ <= 3 * SCALE,
            0 <= volatility@ <= VALUE_LIMIT,
        ensures
            final(self).wf(),
            final(self).total_input == old(self).total_input,
            final(self).total_output == old(self).total_output,
            final(self).total_burned == old(self).total_burned,
            final(self).total_fees == old(self).total_fees,
            final(self).node_buffers == old(self).node_buffers,
            final(self).message_queue == old(self).message_queue,
            final(self).nodes@.len() == old(self).nodes@.len(),
            final(self).state.current_tick == old(self).state.current_tick,
            final(self).conservation_law == old(self).conservation_law,
            forall|i: int|
                0 <= i < 4 ==> #[trigger] final(self).state.tier_fee_rates@[i]@
                    <= crate::governor::tier_of_index(i).fee_cap_spec(),
            forall|i: int|
                0 <= i < old(self).nodes@.len() ==> #[trigger] final(self).nodes@[i] == (SimNode {
                    accumulated_work: final(self).nodes@[i].accumulated_work,
                    ..old(self).nodes@[i]
                }),
    {
        // Oracle activity.
        let activity_index = self.update_ngauge_activity();
        self.state.ngauge_activity_index = activity_index;

        // Governor control cycle on the observed metrics.
        proof {
            crate::fixed::lemma_mul_le(lambda@, 1_000_000, 1_000_000 * SCALE, 1_000_000);
        }
        let metrics = crate::governor::NetworkMetrics {
            current_gold_price: self.state.gold_price,
            target_gold_price: GoldGrams::from_int(2600),
            market_volatility: volatility.min(GoldGrams::one()),
            transaction_volume: self.state.network_velocity,
            liquidity_depth: lambda.mul_int(1_000_000),
            network_velocity: self.state.network_velocity,
            active_packets_by_tier: crate::governor::TierCounts {
                l0: self.state.tier_distribution[0] as u64,
                l1: self.state.tier_distribution[1] as u64,
                l2: self.state.tier_distribution[2] as u64,
                l3: self.state.tier_distribution[3] as u64,
            },
            in_transit_float: self.state.active_value.max(GoldGrams::zero()).min(
                GoldGrams::from_scaled(VALUE_LIMIT),
            ),
        };
        let gov = self.core_pid.recalculate(&metrics);
        let mut fee_rate = gov.fee_rate;
        let mut demurrage = gov.demurrage;

        // Panic forces crisis pricing.
        if self.state.panic_level.gt(GoldGrams::from_scaled(7 * SCALE / 10)) {
            fee_rate = fee_rate.max(GoldGrams::from_scaled(SCALE / 20));
            proof {
                crate::fixed::lemma_mul_le(demurrage@, SCALE / 2, SCALE as int, SCALE as int);
            }
            demurrage = demurrage.mul(GoldGrams::from_scaled(SCALE / 2));
        }
        let half = GoldGrams::from_scaled(SCALE / 2);
        // Organic oracle activity relaxes fees.
        if activity_index.gt(half) {
            proof {
                crate::fixed::lemma_mul_le(fee_rate@, 800_000_000_000, SCALE as int, SCALE as int);
            }
            fee_rate = fee_rate.mul(GoldGrams::from_scaled(800_000_000_000));
        }
        // Speculation amplifies them.
        let organic_single = crate::engauge::compute_organic_ratio(
            activity_index,
            self.state.network_velocity,
        );
        if organic_single.lt(GoldGrams::from_scaled(300_000_000_000)) {
            proof {
                crate::fixed::lemma_mul_le(fee_rate@, SCALE + SCALE / 2, SCALE as int, 2 * SCALE);
            }
            fee_rate = fee_rate.mul(GoldGrams::from_scaled(SCALE + SCALE / 2));
        }
        // Liquidity crunch surge.
        if lambda.lt(half) {
            proof {
                crate::fixed::lemma_mul_le(fee_rate@, surge@, 2 * SCALE, 3 * SCALE);
            }
            fee_rate = fee_rate.mul(surge);
        }
        let fee_rate = fee_rate.min(GoldGrams::from_scaled(RATE_LIMIT)).max(GoldGrams::zero());

        // Rolling-window organic classification.
        self.engauge_state.update(activity_index, self.state.network_velocity);
        self.state.organic_ratio = self.engauge_state.organic_ratio().min(organic_single);

        self.state.governance_quadrant = gov.quadrant;
        self.state.governance_status = gov.status;
        self.state.current_demurrage_rate = demurrage;
        self.state.current_fee_rate = fee_rate;
        self.state.verification_complexity = gov.verification_complexity;

        // Per-tier effective fee rates, never beyond the caps.
        let rates = crate::governor::compute_tier_fee_rates(fee_rate);
        self.state.tier_fee_rates = rates;

        // Peg deviation of the effective rate, shifted by panic.
        let panic_shift = self.state.panic_level.mul(GoldGrams::from_scaled(150_000_000_000));
        if self.state.gold_price.gt(GoldGrams::zero()) {
            proof {
                assert(-(RATE_LIMIT + SCALE) <= (SCALE as int) - fee_rate@ <= SCALE);
                assert(-crate::fixed::MUL_PRODUCT_LIMIT <= ((SCALE as int) - fee_rate@)
                    * self.state.gold_price@ <= crate::fixed::MUL_PRODUCT_LIMIT)
                    by (nonlinear_arith)
                    requires
                        -(RATE_LIMIT + SCALE) <= (SCALE as int) - fee_rate@ <= SCALE,
                        0 <= self.state.gold_price@ <= PRICE_LIMIT,
                ;
            }
            let effective = GoldGrams::one().sub(fee_rate).mul_signed(self.state.gold_price);
            proof {
                crate::fixed::lemma_scaled_mul_range(
                    (SCALE as int) - fee_rate@,
                    self.state.gold_price@,
                    RATE_LIMIT + SCALE,
                    1_000_000,
                );
            }
            let diff = effective.sub(self.state.gold_price);
            self.state.peg_deviation = diff.div_signed(self.state.gold_price).sub(panic_shift);
        } else {
            self.state.peg_deviation = GoldGrams::zero().sub(panic_shift);
        }
    }

    /// Close the tick: refresh the published totals and counts, verify
    /// the conservation law (which holds exactly, so the published leak
    /// is zero), and assemble the snapshot.
    fn finalize_stats(&mut self, settled_count: u32, current_tick: u64) -> (r:
        crate::types::TickResult)
        requires
            old(self).wf(),
        ensures
            final(self).wf(),
            r.state == (WorldState {
                governance_quadrant: r.state.governance_quadrant,
                governance_status: r.state.governance_status,
                ..final(self).state
            }),
            r.state.total_value_leaked@ == 0,
            final(self).state.current_tick == old(self).state.current_tick,
            final(self).state.tier_fee_rates == old(self).state.tier_fee_rates,
            final(self).total_input == old(self).total_input,
            final(self).total_output == old(self).total_output,
            final(self).total_burned == old(self).total_burned,
            final(self).total_fees == old(self).total_fees,
            final(self).nodes@.len() == old(self).nodes@.len(),
            r.state.circuit_breaker_active == final(self).conservation_law.circuit_breaker_tripped,
            *final(self) == (ArenaSimulation {
                state: final(self).state,
                conservation_law: final(self).conservation_law,
                ..*old(self)
            }),
            final(self).state.total_input == final(self).total_input,
            final(self).state.total_output == final(self).total_output,
            final(self).state.total_fees_collected == final(self).total_fees,
            final(self).state.total_demurrage_burned == final(self).total_burned,
            final(self).state.settlement_count == final(self).settlement_count,
            final(self).state.revert_count == final(self).revert_count,
            final(self).state.active_value@ == final(self).active_total(),
            final(self).state.held_count as int == if held_total(final(self).node_buffers@)
                <= u32::MAX {
                held_total(final(self).node_buffers@)
            } else {
                u32::MAX as int
            },
            final(self).state.orbit_count == final(self).state.held_count,
    {
        proof {
            self.lemma_active_nonneg();
        }
        self.state.network_velocity = GoldGrams::from_int((settled_count as i64) * 100);
        self.state.total_rewards_egress = self.total_rewards_egress;
        self.state.total_rewards_transit = self.total_rewards_transit;
        self.state.total_fees_collected = self.total_fees;
        self.state.total_demurrage_burned = self.total_burned;
        self.state.settlement_count = self.settlement_count;
        self.state.revert_count = self.revert_count;
        self.state.total_input = self.total_input;
        self.state.total_output = self.total_output;

        let active_val = self.sum_active_value();
        self.state.active_value = active_val;

        // The books balance exactly, so the leak is zero.
        let leak = crate::conservation::compute_conservation(
            self.total_input,
            self.total_output,
            self.total_burned,
            self.total_fees,
            active_val,
        );
        self.state.total_value_leaked = leak;
        proof {
            assert(leak@ == 0);
        }

        // Feed the circuit breaker; a balanced tick never trips it.
        let outcome = self.conservation_law.verify_tick(
            self.total_input,
            self.total_output,
            self.total_fees,
            self.total_burned,
            active_val,
        );
        self.state.circuit_breaker_active = outcome.circuit_breaker_tripped;

        // Packet census: orbit and held counts, tier distribution.
        let mut held: u32 = 0;
        let mut dist: [u32; 4] = [0, 0, 0, 0];
        let mut active_packets: Vec<SimPacket> = Vec::new();
        let ghost census = *self;
        let mut bi: usize = 0;
        while bi < self.node_buffers.len()
            invariant
                self.wf(),
                0 <= bi <= self.node_buffers@.len(),
                *self == census,
                held as int == if held_total(self.node_buffers@.take(bi as int)) <= u32::MAX {
                    held_total(self.node_buffers@.take(bi as int))
                } else {
                    u32::MAX as int
                },
                0 <= held_total(self.node_buffers@.take(bi as int)),
            decreases self.node_buffers@.len() - bi,
        {
            let mut pi: usize = 0;
            let blen = self.node_buffers[bi].len();
            proof {
                lemma_held_take_step(self.node_buffers@, bi as int);
                lemma_held_in_nonneg(self.node_buffers@[bi as int]@);
                assert(self.node_buffers@[bi as int]@.take(0) =~= Seq::<SimPacket>::empty());
            }
            while pi < blen
                invariant
                    self.wf(),
                    (bi as int) < self.node_buffers@.len(),
                    blen == self.node_buffers@[bi as int]@.len(),
                    0 <= pi <= blen,
                    *self == census,
                    held as int == if held_total(self.node_buffers@.take(bi as int)) + held_in(
                        self.node_buffers@[bi as int]@.take(pi as int),
                    ) <= u32::MAX {
                        held_total(self.node_buffers@.take(bi as int)) + held_in(
                            self.node_buffers@[bi as int]@.take(pi as int),
                        )
                    } else {
                        u32::MAX as int
                    },
                    0 <= held_total(self.node_buffers@.take(bi as int)),
                    0 <= held_in(self.node_buffers@[bi as int]@.take(pi as int)),
                decreases blen - pi,
            {
                proof {
                    lemma_held_in_take_step(self.node_buffers@[bi as int]@, pi as int);
                }
                let p = &self.node_buffers[bi][pi];
                if matches!(p.status, PacketState::Held) {
                    held = bump_u32(held);
                }
                dist = bump_tier(dist, p.tier);
                active_packets.push(clone_packet(p));
                pi = pi + 1;
            }
            proof {
                assert(self.node_buffers@[bi as int]@.take(blen as int)
                    =~= self.node_buffers@[bi as int]@);
            }
            bi = bi + 1;
        }
        proof {
            assert(self.node_buffers@.take(self.node_buffers@.len() as int)
                =~= self.node_buffers@);
        }
        let mut qi: usize = 0;
        while qi < self.message_queue.len()
            invariant
                self.wf(),
                0 <= qi <= self.message_queue@.len(),
                *self == census,
            decreases self.message_queue@.len() - qi,
        {
            let p = &self.message_queue[qi];
            dist = bump_tier(dist, p.tier);
            active_packets.push(clone_packet(p));
            qi = qi + 1;
        }
        self.state.orbit_count = held;
        self.state.held_count = held;
        self.state.tier_distribution = dist;

        // Effective price composite, each component clamped into a
        // narrow display band.
        let count = active_packets.len();
        let nfc = if count > 0 && self.state.gold_price.gt(GoldGrams::zero()) {
            self.total_fees.min(GoldGrams::from_scaled(crate::fixed::DIV_NUMERATOR_LIMIT)).div_int(
                count as u64,
            ).min(GoldGrams::from_scaled(crate::fixed::DIV_NUMERATOR_LIMIT)).div(
                self.state.gold_price,
            ).min(GoldGrams::one())
        } else {
            GoldGrams::zero()
        };
        self.state.network_fee_component = nfc;
        let mut ingress_flow: u64 = 0;
        let mut egress_flow: u64 = 0;
        let ghost flows = *self;
        let mut fi: usize = 0;
        while fi < self.nodes.len()
            invariant
                self.wf(),
                0 <= fi <= self.nodes@.len(),
                *self == flows,
                ingress_flow <= fi * 0xffff_ffff,
                egress_flow <= fi * 0xffff_ffff,
            decreases self.nodes@.len() - fi,
        {
            proof {
                assert((fi + 1) * 0xffff_ffff == fi * 0xffff_ffff + 0xffff_ffff)
                    by (nonlinear_arith);
            }
            let nd = &self.nodes[fi];
            if matches!(nd.role, NodeRole::Ingress) {
                ingress_flow = ingress_flow + (nd.current_buffer_count as u64);
            }
            if matches!(nd.role, NodeRole::Egress) {
                egress_flow = egress_flow + (nd.current_buffer_count as u64);
            }
            fi = fi + 1;
        }
        let sc = if egress_flow > 0 {
            let iflow: u64 = if ingress_flow <= 1_000_000_000 {
                ingress_flow
            } else {
                1_000_000_000
            };
            let eflow: u64 = if egress_flow <= 1_000_000_000 {
                egress_flow
            } else {
                1_000_000_000
            };
            let base = GoldGrams::from_int(iflow as i64).div(
                GoldGrams::from_int(eflow.max(1) as i64),
            );
            proof {
                crate::fixed::lemma_mul_le(
                    base@,
                    1_000_000_000,
                    1_000_000_000_000_000_000_000,
                    SCALE as int,
                );
            }
            base.sub(GoldGrams::one()).max(GoldGrams::zero()).min(
                GoldGrams::from_scaled(crate::fixed::DIV_NUMERATOR_LIMIT),
            ).mul(GoldGrams::from_scaled(1_000_000_000)).min(
                GoldGrams::from_scaled(SCALE / 20),
            )
        } else {
            GoldGrams::zero()
        };
        self.state.speculation_component = sc;
        let fc = if self.total_input.gt(GoldGrams::zero()) {
            active_val.min(GoldGrams::from_scaled(crate::fixed::DIV_NUMERATOR_LIMIT)).div(
                self.total_input,
            ).min(GoldGrams::from_scaled(crate::fixed::DIV_NUMERATOR_LIMIT)).mul(
                GoldGrams::from_scaled(1_000_000_000),
            ).min(GoldGrams::from_scaled(SCALE / 20))
        } else {
            GoldGrams::zero()
        };
        self.state.float_component = fc;
        let basis = GoldGrams::one().add(nfc).add(sc).add(fc);
        proof {
            crate::fixed::lemma_mul_le(
                self.state.gold_price@,
                basis@,
                PRICE_LIMIT as int,
                3 * SCALE,
            );
        }
        self.state.effective_price_composite = self.state.gold_price.mul(basis);

        // Per-node updates for the snapshot.
        let mut node_updates: Vec<crate::types::NodeUpdate> = Vec::new();
        let ghost updates = *self;
        let mut ni: usize = 0;
        while ni < self.nodes.len()
            invariant
                self.wf(),
                0 <= ni <= self.nodes@.len(),
                *self == updates,
            decreases self.nodes@.len() - ni,
        {
            let nd = &self.nodes[ni];
            node_updates.push(
                crate::types::NodeUpdate {
                    id: nd.id,
                    buffer_count: nd.current_buffer_count,
                    inventory_fiat: nd.inventory_fiat,
                    inventory_crypto: nd.inventory_crypto,
                },
            );
            ni = ni + 1;
        }

        crate::types::TickResult {
            state: clone_state(&self.state),
            active_packets,
            node_updates,
        }
    }

    /// Run a number of ticks without returning the snapshots.
    pub fn run_batch(&mut self, ticks: u32)
        requires
            old(self).wf(),
            old(self).state.current_tick + ticks <= TICK_LIMIT,
        ensures
            final(self).wf(),
            final(self).state.current_tick == old(self).state.current_tick + ticks,
            final(self).total_input@ >= old(self).total_input@,
            final(self).total_output@ >= old(self).total_output@,
            final(self).total_burned@ >= old(self).total_burned@,
            final(self).total_fees@ >= old(self).total_fees@,
            final(self).nodes@.len() == old(self).nodes@.len(),
            ticks > 0 ==> forall|i: int|
                0 <= i < final(self).message_queue@.len()
                    ==> #[trigger] final(self).message_queue@[i].arrival_tick
                    > final(self).state.current_tick,
    {
        let mut t: u32 = 0;
        while t < ticks
            invariant
                self.wf(),
                0 <= t <= ticks,
                self.state.current_tick == old(self).state.current_tick + t,
                old(self).state.current_tick + ticks <= TICK_LIMIT,
                self.total_input@ >= old(self).total_input@,
                self.total_output@ >= old(self).total_output@,
                self.total_burned@ >= old(self).total_burned@,
                self.total_fees@ >= old(self).total_fees@,
                self.nodes@.len() == old(self).nodes@.len(),
                t > 0 ==> forall|i: int|
                    0 <= i < self.message_queue@.len()
                        ==> #[trigger] self.message_queue@[i].arrival_tick
                        > self.state.current_tick,
            decreases ticks - t,
        {
            self.tick_core();
            t = t + 1;
        }
    }

    /// Cumulative statistics: the totals, counts and averages, and a
    /// leak figure that the conservation invariant pins at zero.
    pub fn get_stats(&self) -> (r: crate::types::SimStats)
        requires
            self.wf(),
        ensures
            r.total_input == self.total_input,
            r.total_output == self.total_output,
            r.total_burned == self.total_burned,
            r.total_fees == self.total_fees,
            r.total_leaked@ == 0,
            r.settlement_count == self.settlement_count,
            r.revert_count == self.revert_count,
            r.orbit_count as int == if held_total(self.node_buffers@) <= u32::MAX {
                held_total(self.node_buffers@)
            } else {
                u32::MAX as int
            },
            self.settlement_count > 0 && self.total_settlement_hops <= 0x7fff_ffff_ffff_ffff
                ==> r.avg_hops@ == (self.total_settlement_hops * SCALE) / (
            self.settlement_count as int),
            self.settlement_count > 0 && self.total_settlement_time <= 0x7fff_ffff_ffff_ffff
                ==> r.avg_time_to_settle@ == (self.total_settlement_time * SCALE) / (
            self.settlement_count as int),
            self.settlement_count == 0 ==> r.avg_hops@ == 0 && r.avg_time_to_settle@ == 0,
    {
        proof {
            self.lemma_active_nonneg();
        }
        let active_val = self.sum_active_value();
        let leaked = crate::conservation::compute_conservation(
            self.total_input,
            self.total_output,
            self.total_burned,
            self.total_fees,
            active_val,
        );
        let mut orbit: u32 = 0;
        let mut bi: usize = 0;
        while bi < self.node_buffers.len()
            invariant
                self.wf(),
                0 <= bi <= self.node_buffers@.len(),
                orbit as int == if held_total(self.node_buffers@.take(bi as int)) <= u32::MAX {
                    held_total(self.node_buffers@.take(bi as int))
                } else {
                    u32::MAX as int
                },
                0 <= held_total(self.node_buffers@.take(bi as int)),
            decreases self.node_buffers@.len() - bi,
        {
            let blen = self.node_buffers[bi].len();
            let mut pi: usize = 0;
            proof {
                lemma_held_take_step(self.node_buffers@, bi as int);
                lemma_held_in_nonneg(self.node_buffers@[bi as int]@);
                assert(self.node_buffers@[bi as int]@.take(0) =~= Seq::<SimPacket>::empty());
            }
            while pi < blen
                invariant
                    self.wf(),
                    (bi as int) < self.node_buffers@.len(),
                    blen == self.node_buffers@[bi as int]@.len(),
                    0 <= pi <= blen,
                    orbit as int == if held_total(self.node_buffers@.take(bi as int)) + held_in(
                        self.node_buffers@[bi as int]@.take(pi as int),
                    ) <= u32::MAX {
                        held_total(self.node_buffers@.take(bi as int)) + held_in(
                            self.node_buffers@[bi as int]@.take(pi as int),
                        )
                    } else {
                        u32::MAX as int
                    },
                    0 <= held_total(self.node_buffers@.take(bi as int)),
                    0 <= held_in(self.node_buffers@[bi as int]@.take(pi as int)),
                decreases blen - pi,
            {
                proof {
                    lemma_held_in_take_step(self.node_buffers@[bi as int]@, pi as int);
                }
                if matches!(self.node_buffers[bi][pi].status, PacketState::Held) {
                    orbit = bump_u32(orbit);
                }
                pi = pi + 1;
            }
            proof {
                assert(self.node_buffers@[bi as int]@.take(blen as int)
                    =~= self.node_buffers@[bi as int]@);
            }
            bi = bi + 1;
        }
        proof {
            assert(self.node_buffers@.take(self.node_buffers@.len() as int)
                =~= self.node_buffers@);
        }
        let hops_capped: u64 = if self.total_settlement_hops <= 0x7fff_ffff_ffff_ffff {
            self.total_settlement_hops
        } else {
            0x7fff_ffff_ffff_ffff
        };
        let time_capped: u64 = if self.total_settlement_time <= 0x7fff_ffff_ffff_ffff {
            self.total_settlement_time
        } else {
            0x7fff_ffff_ffff_ffff
        };
        let avg_hops = if self.settlement_count > 0 {
            GoldGrams::from_int(hops_capped as i64).div_int(self.settlement_count as u64)
        } else {
            GoldGrams::zero()
        };
        let avg_time = if self.settlement_count > 0 {
            GoldGrams::from_int(time_capped as i64).div_int(self.settlement_count as u64)
        } else {
            GoldGrams::zero()
        };
        crate::types::SimStats {
            total_input: self.total_input,
            total_output: self.total_output,
            total_burned: self.total_burned,
            total_fees: self.total_fees,
            total_leaked: leaked,
            settlement_count: self.settlement_count,
            revert_count: self.revert_count,
            orbit_count: orbit,
            avg_hops,
            avg_time_to_settle: avg_time,
        }
    }
}

/// The census slot of one market tier.
pub open spec fn tier_slot(t: MarketTier) -> int {
    match t {
        MarketTier::L0 => 0int,
        MarketTier::L1 => 1int,
        MarketTier::L2 => 2int,
        MarketTier::L3 => 3int,
    }
}

/// Count one packet's tier into the distribution.
fn bump_tier(dist: [u32; 4], tier: MarketTier) -> (r: [u32; 4])
    ensures
        r@[tier_slot(tier)] == if dist@[tier_slot(tier)] < u32::MAX {
            (dist@[tier_slot(tier)] + 1) as u32
        } else {
            u32::MAX
        },
        forall|j: int| 0 <= j < 4 && j != tier_slot(tier) ==> r@[j] == #[trigger] dist@[j],
{
    match tier {
        MarketTier::L0 => [bump_u32(dist[0]), dist[1], dist[2], dist[3]],
        MarketTier::L1 => [dist[0], bump_u32(dist[1]), dist[2], dist[3]],
        MarketTier::L2 => [dist[0], dist[1], bump_u32(dist[2]), dist[3]],
        MarketTier::L3 => [dist[0], dist[1], dist[2], bump_u32(dist[3])],
    }
}

/// Field-wise copy of one packet for the snapshot.
fn clone_packet(p: &SimPacket) -> (r: SimPacket)
    ensures
        r.id == p.id,
        r.current_value == p.current_value,
        r.original_value == p.original_value,
        r.status == p.status,
        r.tier == p.tier,
        r.fees_consumed == p.fees_consumed,
        r.fee_budget == p.fee_budget,
        r.route_history@ == p.route_history@,
{
    SimPacket {
        id: p.id,
        original_value: p.original_value,
        current_value: p.current_value,
        arrival_tick: p.arrival_tick,
        status: p.status,
        origin_node: p.origin_node,
        target_node: p.target_node,
        hops: p.hops,
        route_history: clone_u32_vec(&p.route_history),
        orbit_start_tick: p.orbit_start_tick,
        tier: p.tier,
        ttl: p.ttl,
        hop_limit: p.hop_limit,
        fee_budget: p.fee_budget,
        fees_consumed: p.fees_consumed,
        fee_schedule: clone_gg_vec(&p.fee_schedule),
        spawn_tick: p.spawn_tick,
    }
}

/// Element-wise copy of a fixed-point vector.
fn clone_gg_vec(v: &Vec<GoldGrams>) -> (r: Vec<GoldGrams>)
    ensures
        r@ == v@,
{
    let mut out: Vec<GoldGrams> = Vec::new();
    let mut i: usize = 0;
    while i < v.len()
        invariant
            0 <= i <= v@.len(),
            out@ == v@.take(i as int),
        decreases v@.len() - i,
    {
        proof {
            assert(v@.take(i + 1).drop_last() =~= v@.take(i as int));
        }
        out.push(v[i]);
        i = i + 1;
    }
    proof {
        assert(v@.take(v@.len() as int) =~= v@);
    }
    out
}

/// Field-wise copy of the world state for the snapshot.
fn clone_state(s: &WorldState) -> (r: WorldState)
    ensures
        r == (WorldState {
            governance_quadrant: r.governance_quadrant,
            governance_status: r.governance_status,
            ..*s
        }),
        r.governance_quadrant@ == s.governance_quadrant@,
        r.governance_status@ == s.governance_status@,
{
    WorldState {
        current_tick: s.current_tick,
        gold_price: s.gold_price,
        peg_deviation: s.peg_deviation,
        network_velocity: s.network_velocity,
        demand_factor: s.demand_factor,
        panic_level: s.panic_level,
        governance_quadrant: clone_string(&s.governance_quadrant),
        governance_status: clone_string(&s.governance_status),
        total_rewards_egress: s.total_rewards_egress,
        total_rewards_transit: s.total_rewards_transit,
        total_fees_collected: s.total_fees_collected,
        total_demurrage_burned: s.total_demurrage_burned,
        current_fee_rate: s.current_fee_rate,
        current_demurrage_rate: s.current_demurrage_rate,
        verification_complexity: s.verification_complexity,
        ngauge_activity_index: s.ngauge_activity_index,
        total_value_leaked: s.total_value_leaked,
        volatility: s.volatility,
        settlement_count: s.settlement_count,
        revert_count: s.revert_count,
        orbit_count: s.orbit_count,
        total_input: s.total_input,
        total_output: s.total_output,
        active_value: s.active_value,
        spawn_count: s.spawn_count,
        organic_ratio: s.organic_ratio,
        surge_multiplier: s.surge_multiplier,
        circuit_breaker_active: s.circuit_breaker_active,
        dissolved_count: s.dissolved_count,
        held_count: s.held_count,
        tier_distribution: s.tier_distribution,
        effective_price_composite: s.effective_price_composite,
        network_fee_component: s.network_fee_component,
        speculation_component: s.speculation_component,
        float_component: s.float_component,
        tier_fee_rates: s.tier_fee_rates,
    }
}

/// Copy of a string (the clone of the standard library keeps the
/// characters).
fn clone_string(s: &String) -> (r: String)
    ensures
        r@ == s@,
{
    s.clone()
}

/// The value in a prefix of the buffers never exceeds the whole.
proof fn lemma_buffers_take_rest(b: Seq<Vec<SimPacket>>, k: int, n: int)
    requires
        0 <= k <= b.len(),
        buffers_ok(b, n),
    ensures
        buffers_value(b.take(k)) <= buffers_value(b),
        0 <= buffers_value(b.take(k)),
    decreases b.len() - k,
{
    assert(buffers_ok(b.take(k), n)) by {
        assert forall|i: int| 0 <= i < k implies #[trigger] buffer_ok(b.take(k)[i]@, n) by {
            assert(b.take(k)[i] == b[i]);
            assert(buffer_ok(b[i]@, n));
        }
    }
    lemma_buffers_value_nonneg(b.take(k), n);
    if k == b.len() {
        assert(b.take(k) =~= b);
    } else {
        lemma_buffers_take_rest(b, k + 1, n);
        assert(b.take(k + 1).drop_last() =~= b.take(k));
        assert(buffer_ok(b[k]@, n));
        lemma_packets_value_nonneg(b[k]@, n);
        assert(b.take(k + 1).last() == b[k]);
    }
}

/// Prefix bound used while accumulating buffer sums.
proof fn lemma_buffers_prefix_bound(b: Seq<Vec<SimPacket>>, i: int, n: int)
    requires
        0 <= i < b.len(),
        buffers_ok(b, n),
    ensures
        buffers_value(b.take(i)) + packets_value(b[i]@) == buffers_value(b.take(i + 1)),
{
    assert(b.take(i + 1).drop_last() =~= b.take(i));
    assert(b.take(i + 1).last() == b[i]);
}

/// Sum the current values in one packet list.
fn sum_packets(v: &Vec<SimPacket>, Ghost(n): Ghost<int>) -> (r: GoldGrams)
    requires
        buffer_ok(v@, n),
        packets_value(v@) <= BOOK_LIMIT,
    ensures
        r@ == packets_value(v@),
        0 <= r@ <= BOOK_LIMIT,
{
    let mut acc = GoldGrams::zero();
    let mut j: usize = 0;
    while j < v.len()
        invariant
            0 <= j <= v@.len(),
            buffer_ok(v@, n),
            packets_value(v@) <= BOOK_LIMIT,
            acc@ == packets_value(v@.take(j as int)),
            0 <= acc@ <= BOOK_LIMIT,
        decreases v@.len() - j,
    {
        proof {
            assert(v@.take(j + 1).drop_last() =~= v@.take(j as int));
            assert(packet_ok(v@[j as int], n));
            lemma_packets_take_rest(v@, j + 1, n);
        }
        acc = acc.add(v[j].current_value);
        j = j + 1;
    }
    proof {
        assert(v@.take(v@.len() as int) =~= v@);
    }
    acc
}

/// The value in a prefix of a packet list never exceeds the whole.
proof fn lemma_packets_take_rest(s: Seq<SimPacket>, k: int, n: int)
    requires
        0 <= k <= s.len(),
        buffer_ok(s, n),
    ensures
        packets_value(s.take(k)) <= packets_value(s),
        0 <= packets_value(s.take(k)),
    decreases s.len() - k,
{
    assert(buffer_ok(s.take(k), n)) by {
        assert forall|i: int| 0 <= i < k implies #[trigger] packet_ok(s.take(k)[i], n) by {
            assert(s.take(k)[i] == s[i]);
            assert(packet_ok(s[i], n));
        }
    }
    lemma_packets_value_nonneg(s.take(k), n);
    if k == s.len() {
        assert(s.take(k) =~= s);
    } else {
        lemma_packets_take_rest(s, k + 1, n);
        assert(s.take(k + 1).drop_last() =~= s.take(k));
        assert(packet_ok(s[k], n));
        assert(s.take(k + 1).last() == s[k]);
    }
}

/// Saturating add of two u32 counters.
fn bump_u32_by(x: u32, d: u32) -> (r: u32)
    ensures
        r == if x + d <= u32::MAX {
            x + d
        } else {
            u32::MAX as int
        },
{
    if d <= u32::MAX - x {
        x + d
    } else {
        u32::MAX
    }
}

/// Frame helper: everything except the node list is unchanged.
pub open spec fn frame_all_but_nodes(a: ArenaSimulation, b: ArenaSimulation) -> bool {
    a == (ArenaSimulation { nodes: a.nodes, ..b })
}

/// Saturating add on u64 counters.
fn bump_u64(x: u64, d: u64) -> (r: u64)
    ensures
        r == if x + d <= u64::MAX {
            x + d
        } else {
            u64::MAX as int
        },
{
    if d <= u64::MAX - x {
        x + d
    } else {
        u64::MAX
    }
}

/// Element-wise copy of a plain id vector.
fn clone_u32_vec(v: &Vec<u32>) -> (r: Vec<u32>)
    ensures
        r@ == v@,
{
    let mut out: Vec<u32> = Vec::new();
    let mut i: usize = 0;
    while i < v.len()
        invariant
            0 <= i <= v@.len(),
            out@ == v@.take(i as int),
        decreases v@.len() - i,
    {
        proof {
            assert(v@.take(i + 1).drop_last() =~= v@.take(i as int));
        }
        out.push(v[i]);
        i = i + 1;
    }
    proof {
        assert(v@.take(v@.len() as int) =~= v@);
    }
    out
}

/// Work accrued by one oracle node in one tick: the demand signal scaled
/// up tenfold, floored at one unit, saturating at the representable
/// bound.
pub open spec fn work_accrued(w: int, demand: int) -> int {
    let delta = if demand * 10 >= SCALE {
        demand * 10
    } else {
        SCALE as int
    };
    if w + delta <= VALUE_LIMIT {
        w + delta
    } else {
        VALUE_LIMIT as int
    }
}

/// A price window's mean stays within the price band.
proof fn lemma_price_window_mean_bound(s: Seq<GoldGrams>)
    requires
        forall|i: int| 0 <= i < s.len() ==> 0 <= #[trigger] s[i]@ <= PRICE_LIMIT,
    ensures
        0 <= crate::engauge::window_mean_spec(s) <= PRICE_LIMIT,
{
    lemma_price_window_sum_bound(s);
    if s.len() > 0 {
        assert(0 <= crate::engauge::window_sum(s) / (s.len() as int) <= PRICE_LIMIT)
            by (nonlinear_arith)
            requires
                0 <= crate::engauge::window_sum(s) <= s.len() * PRICE_LIMIT,
                0 < s.len(),
        ;
    }
}

proof fn lemma_price_window_sum_bound(s: Seq<GoldGrams>)
    requires
        forall|i: int| 0 <= i < s.len() ==> 0 <= #[trigger] s[i]@ <= PRICE_LIMIT,
    ensures
        0 <= crate::engauge::window_sum(s) <= s.len() * PRICE_LIMIT,
    decreases s.len(),
{
    if s.len() > 0 {
        assert(forall|i: int| 0 <= i < s.len() - 1 ==> s.drop_last()[i] == #[trigger] s[i]);
        lemma_price_window_sum_bound(s.drop_last());
        assert((s.len() - 1) * PRICE_LIMIT + PRICE_LIMIT == s.len() * PRICE_LIMIT)
            by (nonlinear_arith);
    }
}

/// Popping the last packet removes exactly its value.
pub proof fn lemma_packets_value_pop(before: Seq<SimPacket>, after: Seq<SimPacket>, p: SimPacket)
    requires
        before.len() > 0,
        after == before.drop_last(),
        p == before.last(),
    ensures
        packets_value(after) == packets_value(before) - p.current_value@,
{
}

/// Saturating bump of a u32 counter by a batch size.
fn bump_count(x: u32, k: usize) -> (r: u32)
    ensures
        x as int + k <= u32::MAX ==> r == x as int + k,
        r >= x,
{
    if k <= (u32::MAX - x) as usize {
        x + (k as u32)
    } else {
        u32::MAX
    }
}

/// Whether the engine accepts a spawn of `amount` at `node_id`.
pub open spec fn spawn_accepted(e: ArenaSimulation, node_id: u32, amount: GoldGrams) -> bool {
    &&& (node_id as int) < e.nodes@.len()
    &&& 0 < amount@ <= VALUE_LIMIT
    &&& e.total_input@ + amount@ <= BOOK_LIMIT
}

/// The packet a spawn creates: classified by value, full value intact,
/// tier-derived expiry, hop limit and fee budget, history starting at
/// its origin.
pub open spec fn spawned_packet_matches(
    p: SimPacket,
    e: ArenaSimulation,
    node_id: u32,
    amount: GoldGrams,
) -> bool {
    &&& p.id == e.packet_id_counter
    &&& p.original_value == amount
    &&& p.current_value == amount
    &&& p.arrival_tick == e.state.current_tick
    &&& p.status == PacketState::Minted
    &&& p.origin_node == node_id
    &&& p.target_node is None
    &&& p.hops == 0
    &&& p.route_history@ == seq![node_id]
    &&& p.orbit_start_tick is None
    &&& p.tier == MarketTier::from_value_spec(amount@)
    &&& p.ttl == e.state.current_tick + p.tier.ttl_ticks_spec()
    &&& p.hop_limit == p.tier.hop_limit_spec()
    &&& p.fee_budget@ == crate::fixed::scaled_mul(p.tier.fee_cap_spec(), amount@)
    &&& p.fees_consumed@ == 0
    &&& p.spawn_tick == e.state.current_tick
}

/// A tier-capped budget never exceeds the packet value.
proof fn lemma_cap_mul_le_value(cap: int, value: int)
    requires
        0 <= cap <= SCALE,
        0 <= value,
    ensures
        0 <= (cap * value) / (SCALE as int) <= value,
{
    assert(0 <= (cap * value) / (SCALE as int) <= value) by (nonlinear_arith)
        requires
            0 <= cap <= SCALE,
            0 <= value,
    ;
}

/// Concatenation splits the packet sum.
pub proof fn lemma_packets_value_concat(a: Seq<SimPacket>, b: Seq<SimPacket>)
    ensures
        packets_value(a + b) == packets_value(a) + packets_value(b),
    decreases b.len(),
{
    if b.len() == 0 {
        assert(a + b =~= a);
    } else {
        assert((a + b).drop_last() =~= a + b.drop_last());
        assert((a + b).last() == b.last());
        lemma_packets_value_concat(a, b.drop_last());
    }
}

/// The conservation law, by name: in any well-formed engine the books
/// balance exactly. Every unit of minted value is settled output,
/// collected fees, burned demurrage, or still alive in a buffer or on
/// the in-transit queue, with zero drift.
pub proof fn lemma_conservation_exact(e: ArenaSimulation)
    requires
        e.wf(),
    ensures
        e.total_input@ == e.total_output@ + e.total_fees@ + e.total_burned@ + buffers_value(
            e.node_buffers@,
        ) + packets_value(e.message_queue@),
{
}

/// Packet soundness, by name: in any well-formed engine every live
/// packet's current value sits between zero and its original value, and
/// its consumed fees never exceed its budget.
pub proof fn lemma_packet_bounds(e: ArenaSimulation)
    requires
        e.wf(),
    ensures
        forall|b: int, i: int|
            0 <= b < e.node_buffers@.len() && 0 <= i < e.node_buffers@[b]@.len() ==> {
                let p = #[trigger] e.node_buffers@[b]@[i];
                0 <= p.current_value@ <= p.original_value@ && p.fees_consumed@ <= p.fee_budget@
            },
        forall|i: int|
            0 <= i < e.message_queue@.len() ==> {
                let p = #[trigger] e.message_queue@[i];
                0 <= p.current_value@ <= p.original_value@ && p.fees_consumed@ <= p.fee_budget@
            },
{
    let n = e.nodes@.len() as int;
    assert forall|b: int, i: int|
        0 <= b < e.node_buffers@.len() && 0 <= i < e.node_buffers@[b]@.len() implies {
        let p = #[trigger] e.node_buffers@[b]@[i];
        0 <= p.current_value@ <= p.original_value@ && p.fees_consumed@ <= p.fee_budget@
    } by {
        assert(buffer_ok(e.node_buffers@[b]@, n));
        assert(packet_ok(e.node_buffers@[b]@[i], n));
    }
    assert forall|i: int| 0 <= i < e.message_queue@.len() implies {
        let p = #[trigger] e.message_queue@[i];
        0 <= p.current_value@ <= p.original_value@ && p.fees_consumed@ <= p.fee_budget@
    } by {
        assert(packet_ok(e.message_queue@[i], n));
    }
}

/// Pool solvency, by name: in any well-formed engine no node's crypto
/// settlement pool is ever negative.
pub proof fn lemma_inventories_nonneg(e: ArenaSimulation)
    requires
        e.wf(),
    ensures
        forall|i: int|
            0 <= i < e.nodes@.len() ==> 0 <= #[trigger] e.nodes@[i].inventory_crypto@ && 0
                <= e.nodes@[i].inventory_fiat@,
{
    assert forall|i: int|
        0 <= i < e.nodes@.len() implies 0 <= #[trigger] e.nodes@[i].inventory_crypto@ && 0
        <= e.nodes@[i].inventory_fiat@ by {
        assert(crate::routing::node_ok(e.nodes@[i]));
    }
}

/// Two freshly built engines of the same size agree on every observable:
/// the node fields, the books, the counters and the published state are
/// all pinned by the initial-engine description, so resetting an engine
/// after any number of ticks yields exactly what a fresh engine of the
/// same node count holds.
pub proof fn lemma_initial_engines_agree(a: ArenaSimulation, b: ArenaSimulation, n: int)
    requires
        is_initial_engine(a, n),
        is_initial_engine(b, n),
    ensures
        a.nodes@.len() == b.nodes@.len(),
        forall|i: int|
            0 <= i < n ==> #[trigger] a.nodes@[i].role == b.nodes@[i].role
                && a.nodes@[i].inventory_crypto@ == b.nodes@[i].inventory_crypto@
                && a.nodes@[i].inventory_fiat@ == b.nodes@[i].inventory_fiat@
                && a.nodes@[i].neighbors@ == b.nodes@[i].neighbors@ && a.nodes@[i].strategy
                == b.nodes@[i].strategy && a.nodes@[i].x@ == b.nodes@[i].x@ && a.nodes@[i].y@
                == b.nodes@[i].y@,
        a.total_input@ == b.total_input@,
        a.total_output@ == b.total_output@,
        a.total_burned@ == b.total_burned@,
        a.total_fees@ == b.total_fees@,
        a.packet_id_counter == b.packet_id_counter,
        a.state.current_tick == b.state.current_tick,
        a.state.gold_price@ == b.state.gold_price@,
        a.message_queue@.len() == b.message_queue@.len(),
        forall|i: int|
            0 <= i < n ==> #[trigger] a.node_buffers@[i]@.len() == b.node_buffers@[i]@.len(),
{
    assert forall|i: int| 0 <= i < n implies #[trigger] a.nodes@[i].role == b.nodes@[i].role
        && a.nodes@[i].inventory_crypto@ == b.nodes@[i].inventory_crypto@
        && a.nodes@[i].inventory_fiat@ == b.nodes@[i].inventory_fiat@ && a.nodes@[i].neighbors@
        == b.nodes@[i].neighbors@ && a.nodes@[i].strategy == b.nodes@[i].strategy && a.nodes@[i].x@
        == b.nodes@[i].x@ && a.nodes@[i].y@ == b.nodes@[i].y@ by {
        assert(initial_node_matches(a.nodes@[i], i, n));
        assert(initial_node_matches(b.nodes@[i], i, n));
    }
    assert forall|i: int| 0 <= i < n implies #[trigger] a.node_buffers@[i]@.len()
        == b.node_buffers@[i]@.len() by {
        assert(a.node_buffers@[i]@.len() == 0);
        assert(b.node_buffers@[i]@.len() == 0);
    }
}

/// The `D: GOLDEN ERA` label as an owned string.
fn quadrant_label_owned() -> (r: String)
    ensures
        r@ == "D: GOLDEN ERA"@,
{
    crate::governor::PressureQuadrant::GoldenEra.label().to_owned()
}

/// The `STABLE` label as an owned string.
fn status_label_owned() -> (r: String)
    ensures
        r@ == "STABLE"@,
{
    crate::governor::PressureQuadrant::GoldenEra.status().to_owned()
}

/// A fresh engine satisfies the engine invariant.
proof fn lemma_initial_engine_wf(e: ArenaSimulation, n: int)
    requires
        0 <= n <= MAX_NODES,
        e.nodes@.len() == n,
        forall|i: int| 0 <= i < n ==> #[trigger] initial_node_matches(e.nodes@[i], i, n),
        e.node_buffers@.len() == n,
        forall|i: int| 0 <= i < n ==> #[trigger] e.node_buffers@[i]@.len() == 0,
        e.message_queue@.len() == 0,
        e.total_input@ == 0,
        e.total_output@ == 0,
        e.total_burned@ == 0,
        e.total_fees@ == 0,
        e.total_rewards_egress@ == 0,
        e.total_rewards_transit@ == 0,
        e.conservation_law.wf(),
        e.engauge_state.wf(),
        e.core_pid.wf(),
        0 <= e.state.gold_price@ <= PRICE_LIMIT,
        0 <= e.state.demand_factor@ <= DEMAND_LIMIT,
        0 <= e.state.panic_level@ <= SCALE,
        0 <= e.state.network_velocity@ <= VALUE_LIMIT,
        0 <= e.state.ngauge_activity_index@ <= SCALE,
        0 <= e.state.current_fee_rate@ <= RATE_LIMIT,
        e.state.verification_complexity <= 1000,
        e.gold_price_history@.len() <= 20,
        forall|i: int|
            0 <= i < e.gold_price_history@.len() ==> 0 <= #[trigger] e.gold_price_history@[i]@
                <= PRICE_LIMIT,
        0 <= e.lambda_ema@ <= 1_000_000 * SCALE,
        0 <= e.last_gold_price@ <= PRICE_LIMIT,
        e.state.current_tick <= TICK_LIMIT,
    ensures
        e.wf(),
{
    assert forall|i: int| 0 <= i < n implies #[trigger] crate::routing::node_ok(e.nodes@[i]) by {
        assert(initial_node_matches(e.nodes@[i], i, n));
        assert(0 <= i % 6 < 6) by (nonlinear_arith)
            requires
                0 <= i,
        ;
        assert(0 <= i / 6 <= i) by (nonlinear_arith)
            requires
                0 <= i,
        ;
        assert((i % 6) * SCALE <= 6 * SCALE) by (nonlinear_arith)
            requires
                0 <= i % 6 < 6,
        ;
        assert(0 <= (i % 6) * SCALE) by (nonlinear_arith)
            requires
                0 <= i % 6,
        ;
        assert((i / 6) * SCALE <= MAX_NODES * SCALE) by (nonlinear_arith)
            requires
                0 <= i / 6 <= MAX_NODES,
        ;
        assert(0 <= (i / 6) * SCALE) by (nonlinear_arith)
            requires
                0 <= i / 6,
        ;
    }
    assert forall|i: int, j: int|
        0 <= i < n && 0 <= j < e.nodes@[i].neighbors@.len() implies #[trigger] e.nodes@[i].neighbors@[j]
        < n by {
        assert(initial_node_matches(e.nodes@[i], i, n));
        lemma_initial_neighbors_in_range(i, n);
    }
    assert(buffers_value(e.node_buffers@) == 0) by {
        lemma_empty_buffers_value(e.node_buffers@);
    }
    assert(e.message_queue@.len() == 0);
    assert(packets_value(e.message_queue@) == 0);
    assert(e.books_balanced());
    assert forall|i: int| 0 <= i < n implies #[trigger] buffer_ok(e.node_buffers@[i]@, n) by {
        assert(e.node_buffers@[i]@.len() == 0);
    }
}

/// Neighbor indices of a fresh node are in range.
proof fn lemma_initial_neighbors_in_range(i: int, n: int)
    requires
        0 <= i < n,
    ensures
        forall|j: int|
            0 <= j < initial_neighbors(i, n).len() ==> #[trigger] initial_neighbors(i, n)[j] < n,
{
    assert(0 <= i % 6 < 6 && 0 <= i / 6) by (nonlinear_arith)
        requires
            0 <= i,
    ;
    assert(i / 6 * 6 + i % 6 == i) by (nonlinear_arith);
}

/// All-empty buffers sum to zero.
proof fn lemma_empty_buffers_value(b: Seq<Vec<SimPacket>>)
    requires
        forall|i: int| 0 <= i < b.len() ==> #[trigger] b[i]@.len() == 0,
    ensures
        buffers_value(b) == 0,
    decreases b.len(),
{
    if b.len() > 0 {
        assert(forall|i: int|
            0 <= i < b.len() - 1 ==> b.drop_last()[i] == #[trigger] b[i]);
        lemma_empty_buffers_value(b.drop_last());
        assert(b.last()@.len() == 0);
    }
}

} // verus!
