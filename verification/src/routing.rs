//! Capacity-based routing: score neighbor candidates by bandwidth,
//! buffer headroom, latency and load; pick the best next hop toward the
//! nearest egress node that still has liquidity.
//!
//! Ties break to the first candidate at the maximum score, so routing is
//! deterministic for a fixed node order.

use vstd::prelude::*;
use crate::fixed::GoldGrams;
use crate::fixed::SCALE;
use crate::fixed::VALUE_LIMIT;
use crate::fixed::scaled_mul;
use crate::types::MarketTier;
use crate::types::NodeRole;
use crate::types::SimNode;
use crate::types::SimPacket;

verus! {

/// Geographic / overlay scoring weights.
pub const W_DISTANCE: i128 = 200_000_000_000;

pub const W_UPTIME: i128 = 50_000_000_000;

pub const W_TRANSIT_FEE: i128 = 100_000_000_000;

pub const W_TIER_MATCH: i128 = 50_000_000_000;

/// Capacity scoring weights.
pub const W_BANDWIDTH: i128 = 350_000_000_000;

pub const W_BUFFER: i128 = 250_000_000_000;

pub const W_LATENCY: i128 = 250_000_000_000;

pub const W_LOAD: i128 = 150_000_000_000;

/// Normalization caps: buffer capacity 20 packets, bandwidth 1000,
/// latency 500.
pub const BUFFER_CAPACITY: i128 = 20_000_000_000_000;

pub const BANDWIDTH_NORM_CAP: i128 = 1_000_000_000_000_000;

pub const LATENCY_NORM_CAP: i128 = 500_000_000_000_000;

/// Coordinates are bounded so squared distances stay representable.
pub const COORD_LIMIT: i128 = 1_000_000_000_000_000_000;

/// An egress node is liquid when its settlement pool holds more than one
/// unit.
pub open spec fn is_liquid_egress(n: SimNode) -> bool {
    n.role == NodeRole::Egress && n.inventory_crypto@ > SCALE
}

/// Squared Euclidean distance between two nodes, in raw units squared.
pub open spec fn dist_sq_spec(a: SimNode, b: SimNode) -> int {
    (a.x@ - b.x@) * (a.x@ - b.x@) + (a.y@ - b.y@) * (a.y@ - b.y@)
}

/// Integer square root: the greatest `r` with `r * r <= n`.
pub open spec fn isqrt_spec(n: int, r: int) -> bool {
    r * r <= n < (r + 1) * (r + 1) && 0 <= r
}

/// Index of the liquid egress nearest to `(fx, fy)` among the first
/// `upto` nodes; the first of equally near candidates wins.
pub open spec fn best_egress_in(nodes: Seq<SimNode>, from: SimNode, upto: int) -> Option<int>
    decreases upto,
{
    if upto <= 0 {
        Option::None
    } else {
        let prev = best_egress_in(nodes, from, upto - 1);
        let i = upto - 1;
        if is_liquid_egress(nodes[i]) {
            match prev {
                Option::None => Option::Some(i),
                Option::Some(b) => if dist_sq_spec(nodes[i], from) < dist_sq_spec(
                    nodes[b],
                    from,
                ) {
                    Option::Some(i)
                } else {
                    Option::Some(b)
                },
            }
        } else {
            prev
        }
    }
}

/// The neighbors (by index into `neigh`) that are not disabled, among
/// the first `upto` entries, in order.
pub open spec fn eligible_in(nodes: Seq<SimNode>, neigh: Seq<u32>, upto: int) -> Seq<u32>
    decreases upto,
{
    if upto <= 0 {
        Seq::empty()
    } else {
        let prev = eligible_in(nodes, neigh, upto - 1);
        let i = upto - 1;
        if nodes[neigh[i] as int].role != NodeRole::Disabled {
            prev.push(neigh[i])
        } else {
            prev
        }
    }
}

/// Raw capacity score of a candidate node: rewards bandwidth and free
/// buffer space, penalizes latency and load.
pub open spec fn capacity_score_spec(n: SimNode) -> int {
    let bw = min_spec(scaled_div_spec(n.bandwidth@, BANDWIDTH_NORM_CAP as int), SCALE as int);
    let used = min_spec(
        scaled_div_spec((n.current_buffer_count as int) * SCALE, BUFFER_CAPACITY as int),
        SCALE as int,
    );
    let lat = min_spec(scaled_div_spec(n.latency@, LATENCY_NORM_CAP as int), SCALE as int);
    scaled_mul(bw, W_BANDWIDTH as int) + scaled_mul(SCALE - used, W_BUFFER as int) - scaled_mul(
        lat,
        W_LATENCY as int,
    ) - scaled_mul(used, W_LOAD as int)
}

pub open spec fn min_spec(a: int, b: int) -> int {
    if a <= b {
        a
    } else {
        b
    }
}

/// Non-negative scaled division (numerator and divisor non-negative).
pub open spec fn scaled_div_spec(a: int, b: int) -> int {
    (a * (SCALE as int)) / b
}

/// Distance from a node to the target, as a fixed-point length: the
/// integer square root of the raw squared distance.
pub open spec fn dist_to_spec(n: SimNode, target: SimNode) -> int {
    isqrt_int(dist_sq_spec(n, target))
}

/// Mathematical integer square root (unique non-negative root).
pub open spec fn isqrt_int(n: int) -> int {
    choose|r: int| isqrt_spec(n, r)
}

/// Largest distance from any eligible neighbor to the target.
pub open spec fn max_dist_in(nodes: Seq<SimNode>, elig: Seq<u32>, target: SimNode, upto: int) -> int
    decreases upto,
{
    if upto <= 0 {
        0
    } else {
        let prev = max_dist_in(nodes, elig, target, upto - 1);
        let d = dist_to_spec(nodes[elig[upto - 1] as int], target);
        if d > prev {
            d
        } else {
            prev
        }
    }
}

/// Full routing score of one neighbor: capacity, minus weighted distance
/// to the target, plus an uptime bonus, minus the transit-fee penalty,
/// plus a bonus when the node prefers the packet's tier.
pub open spec fn neighbor_score_spec(
    n: SimNode,
    target: SimNode,
    max_dist: int,
    packet: SimPacket,
) -> int {
    let dist_norm = if max_dist > 0 {
        min_spec(scaled_div_spec(dist_to_spec(n, target), max_dist), SCALE as int)
    } else {
        0
    };
    let uptime = if n.uptime@ < 0 {
        0
    } else if n.uptime@ > SCALE {
        SCALE as int
    } else {
        n.uptime@
    };
    let fee = min_spec(n.transit_fee@, SCALE as int);
    let tier_bonus: int = if n.tier_preference == Option::Some(packet.tier) {
        W_TIER_MATCH as int
    } else {
        0
    };
    capacity_score_spec(n) - scaled_mul(dist_norm, W_DISTANCE as int) + scaled_mul(
        uptime,
        W_UPTIME as int,
    ) - scaled_mul(fee, W_TRANSIT_FEE as int) + tier_bonus
}

/// The eligible neighbor with the highest score among the first `upto`;
/// the first at the maximum wins.
pub open spec fn best_neighbor_in(
    nodes: Seq<SimNode>,
    elig: Seq<u32>,
    target: SimNode,
    max_dist: int,
    packet: SimPacket,
    upto: int,
) -> Option<u32>
    decreases upto,
{
    if upto <= 0 {
        Option::None
    } else {
        let prev = best_neighbor_in(nodes, elig, target, max_dist, packet, upto - 1);
        let i = upto - 1;
        let s = neighbor_score_spec(nodes[elig[i] as int], target, max_dist, packet);
        match prev {
            Option::None => Option::Some(elig[i]),
            Option::Some(b) => if s > neighbor_score_spec(
                nodes[b as int],
                target,
                max_dist,
                packet,
            ) {
                Option::Some(elig[i])
            } else {
                Option::Some(b)
            },
        }
    }
}

/// The complete next-hop decision: find the nearest liquid egress (none
/// means "no route": the packet will orbit), then pick the eligible
/// neighbor with the best score toward it.
pub open spec fn find_next_hop_spec(nodes: Seq<SimNode>, node_id: int, packet: SimPacket)
    -> Option<u32> {
    let from = nodes[node_id];
    let elig = eligible_in(nodes, from.neighbors@, from.neighbors@.len() as int);
    match best_egress_in(nodes, from, nodes.len() as int) {
        Option::None => Option::None,
        Option::Some(t) => {
            let target = nodes[t];
            let max_dist = max_dist_in(nodes, elig, target, elig.len() as int);
            best_neighbor_in(nodes, elig, target, max_dist, packet, elig.len() as int)
        },
    }
}

/// One node fit for routing: well-formed, with coordinates small enough
/// for the distance arithmetic.
pub open spec fn node_ok(n: SimNode) -> bool {
    &&& n.wf()
    &&& n.x@ <= COORD_LIMIT
    &&& n.y@ <= COORD_LIMIT
}

/// Every node of a mesh is fit for routing and all neighbor indices are
/// in range.
pub open spec fn nodes_wf(nodes: Seq<SimNode>) -> bool {
    &&& forall|i: int| 0 <= i < nodes.len() ==> #[trigger] node_ok(nodes[i])
    &&& forall|i: int, j: int|
        0 <= i < nodes.len() && 0 <= j < nodes[i].neighbors@.len()
            ==> #[trigger] nodes[i].neighbors@[j] < nodes.len()
}

/// Integer square root of a raw squared distance.
fn isqrt(n: u128) -> (r: u64)
    requires
        n <= 8_000_000_000_000_000_000_000_000_000_000_000_000,
    ensures
        isqrt_spec(n as int, r as int),
{
    isqrt_wide(n)
}

/// Integer square root by bisection.
fn isqrt_wide(n: u128) -> (r: u64)
    requires
        n <= 80_000_000_000_000_000_000_000_000_000_000_000_000,
    ensures
        isqrt_spec(n as int, r as int),
{
    let mut lo: u128 = 0;
    let mut hi: u128 = if n < 0xffff_ffff_ffff_ffff {
        n + 1
    } else {
        0x1_0000_0000_0000_0000
    };
    proof {
        assert((n as int) < (hi as int) * (hi as int)) by (nonlinear_arith)
            requires
                hi == if n < 0xffff_ffff_ffff_ffff {
                    (n + 1) as int
                } else {
                    0x1_0000_0000_0000_0000int
                },
        ;
    }
    while lo + 1 < hi
        invariant
            0 <= lo < hi <= 0x1_0000_0000_0000_0000,
            (lo as int) * (lo as int) <= n as int,
            (n as int) < (hi as int) * (hi as int),
        decreases hi - lo,
    {
        let mid = lo + (hi - lo) / 2;
        proof {
            assert(mid < 0x1_0000_0000_0000_0000);
            assert((mid as int) * (mid as int) < 0x1_0000_0000_0000_0000 * 0x1_0000_0000_0000_0000)
                by (nonlinear_arith)
                requires
                    mid < 0x1_0000_0000_0000_0000u128,
            ;
        }
        if mid * mid <= n {
            lo = mid;
        } else {
            hi = mid;
        }
    }
    proof {
        assert(lo < 0x1_0000_0000_0000_0000);
    }
    lo as u64
}

/// Integer square root of a raw quantity, as a fixed-point value.
pub fn isqrt_fixed(n: u128) -> (r: GoldGrams)
    requires
        n <= 80_000_000_000_000_000_000_000_000_000_000_000_000,
    ensures
        r@ == isqrt_int(n as int),
        0 <= r@,
        r@ * r@ <= n,
        (r@ + 1) * (r@ + 1) > n,
{
    let root = isqrt_wide(n);
    proof {
        assert(isqrt_spec(n as int, root as int));
        assert(isqrt_spec(n as int, isqrt_int(n as int))) by {
            assert(exists|x: int| isqrt_spec(n as int, x)) by {
                assert(isqrt_spec(n as int, root as int));
            }
        }
        lemma_isqrt_unique(n as int, isqrt_int(n as int), root as int);
    }
    GoldGrams::from_scaled(root as i128)
}

/// Squared distance between two nodes, exact in raw units.
fn dist_sq(a: &SimNode, b: &SimNode) -> (r: i128)
    requires
        0 <= a.x@ <= COORD_LIMIT,
        0 <= a.y@ <= COORD_LIMIT,
        0 <= b.x@ <= COORD_LIMIT,
        0 <= b.y@ <= COORD_LIMIT,
    ensures
        r == dist_sq_spec(*a, *b),
        0 <= r <= 8_000_000_000_000_000_000_000_000_000_000_000_000,
{
    let dx = a.x.to_scaled() - b.x.to_scaled();
    let dy = a.y.to_scaled() - b.y.to_scaled();
    proof {
        assert(0 <= dx * dx <= 4_000_000_000_000_000_000_000_000_000_000_000_000 && 0 <= dy * dy
            <= 4_000_000_000_000_000_000_000_000_000_000_000_000) by (nonlinear_arith)
            requires
                -COORD_LIMIT <= dx <= COORD_LIMIT,
                -COORD_LIMIT <= dy <= COORD_LIMIT,
        ;
    }
    dx * dx + dy * dy
}

/// Distance from a node to the target as a fixed-point length.
fn dist_to(n: &SimNode, target: &SimNode) -> (r: GoldGrams)
    requires
        0 <= n.x@ <= COORD_LIMIT,
        0 <= n.y@ <= COORD_LIMIT,
        0 <= target.x@ <= COORD_LIMIT,
        0 <= target.y@ <= COORD_LIMIT,
    ensures
        r@ == dist_to_spec(*n, *target),
        0 <= r@ <= 3_000_000_000_000_000_000,
{
    let sq = dist_sq(n, target);
    let root = isqrt(sq as u128);
    proof {
        let d = dist_sq_spec(*n, *target);
        assert(isqrt_spec(d, root as int));
        assert(isqrt_int(d) == root as int) by {
            assert(isqrt_spec(d, isqrt_int(d)));
            lemma_isqrt_unique(d, isqrt_int(d), root as int);
        }
        assert((root as int) * (root as int) <= 8_000_000_000_000_000_000_000_000_000_000_000_000);
        assert(root as int <= 3_000_000_000_000_000_000) by (nonlinear_arith)
            requires
                (root as int) * (root as int)
                    <= 8_000_000_000_000_000_000_000_000_000_000_000_000,
                0 <= root as int,
        ;
    }
    GoldGrams::from_scaled(root as i128)
}

/// Two integer square roots of the same number agree.
proof fn lemma_isqrt_unique(n: int, a: int, b: int)
    requires
        isqrt_spec(n, a),
        isqrt_spec(n, b),
    ensures
        a == b,
{
    if a < b {
        assert((a + 1) * (a + 1) <= b * b) by (nonlinear_arith)
            requires
                0 <= a,
                0 <= b,
                a + 1 <= b,
        ;
    }
    if b < a {
        assert((b + 1) * (b + 1) <= a * a) by (nonlinear_arith)
            requires
                0 <= a,
                0 <= b,
                b + 1 <= a,
        ;
    }
}

/// Capacity score of one candidate.
pub fn score_candidate(node: &SimNode) -> (r: GoldGrams)
    requires
        node.wf(),
    ensures
        r@ == capacity_score_spec(*node),
        -2 * SCALE <= r@ <= 2 * SCALE,
{
    let one = GoldGrams::one();
    let bw = node.bandwidth.div(GoldGrams::from_scaled(BANDWIDTH_NORM_CAP)).min(one);
    let used = GoldGrams::from_int(node.current_buffer_count as i64).div(
        GoldGrams::from_scaled(BUFFER_CAPACITY),
    ).min(one);
    let lat = node.latency.div(GoldGrams::from_scaled(LATENCY_NORM_CAP)).min(one);
    let free = one.sub(used);
    proof {
        crate::fixed::lemma_mul_le(bw@, W_BANDWIDTH as int, SCALE as int, SCALE as int);
        crate::fixed::lemma_mul_le(free@, W_BUFFER as int, SCALE as int, SCALE as int);
        crate::fixed::lemma_mul_le(lat@, W_LATENCY as int, SCALE as int, SCALE as int);
        crate::fixed::lemma_mul_le(used@, W_LOAD as int, SCALE as int, SCALE as int);
    }
    let score = bw.mul(GoldGrams::from_scaled(W_BANDWIDTH)).add(
        free.mul(GoldGrams::from_scaled(W_BUFFER)),
    ).sub(lat.mul(GoldGrams::from_scaled(W_LATENCY))).sub(
        used.mul(GoldGrams::from_scaled(W_LOAD)),
    );
    score
}

/// Routing score of one neighbor toward the target egress.
fn score_neighbor(
    neighbor: &SimNode,
    target: &SimNode,
    max_dist: GoldGrams,
    packet: &SimPacket,
) -> (r: GoldGrams)
    requires
        neighbor.wf(),
        target.wf(),
        neighbor.x@ <= COORD_LIMIT,
        neighbor.y@ <= COORD_LIMIT,
        target.x@ <= COORD_LIMIT,
        target.y@ <= COORD_LIMIT,
        0 <= max_dist@ <= 3_000_000_000_000_000_000,
    ensures
        r@ == neighbor_score_spec(*neighbor, *target, max_dist@, *packet),
{
    let capacity = score_candidate(neighbor);
    let one = GoldGrams::one();
    let dist_norm = if max_dist.gt(GoldGrams::zero()) {
        dist_to(neighbor, target).div(max_dist).min(one)
    } else {
        GoldGrams::zero()
    };
    let uptime = neighbor.uptime.clamp(GoldGrams::zero(), one);
    let fee = neighbor.transit_fee.min(one);
    let tier_bonus = match neighbor.tier_preference {
        Option::Some(pref) => if tiers_equal(pref, packet.tier) {
            GoldGrams::from_scaled(W_TIER_MATCH)
        } else {
            GoldGrams::zero()
        },
        Option::None => GoldGrams::zero(),
    };
    proof {
        crate::fixed::lemma_mul_le(dist_norm@, W_DISTANCE as int, SCALE as int, SCALE as int);
        crate::fixed::lemma_mul_le(uptime@, W_UPTIME as int, SCALE as int, SCALE as int);
        crate::fixed::lemma_mul_le(fee@, W_TRANSIT_FEE as int, SCALE as int, SCALE as int);
    }
    capacity.sub(dist_norm.mul(GoldGrams::from_scaled(W_DISTANCE))).add(
        uptime.mul(GoldGrams::from_scaled(W_UPTIME)),
    ).sub(fee.mul(GoldGrams::from_scaled(W_TRANSIT_FEE))).add(tier_bonus)
}

/// Tier equality as a plain decision.
fn tiers_equal(a: MarketTier, b: MarketTier) -> (r: bool)
    ensures
        r == (a == b),
{
    match (a, b) {
        (MarketTier::L0, MarketTier::L0) => true,
        (MarketTier::L1, MarketTier::L1) => true,
        (MarketTier::L2, MarketTier::L2) => true,
        (MarketTier::L3, MarketTier::L3) => true,
        _ => false,
    }
}

/// Find the best next hop for a packet sitting at `node_id`.
///
/// Returns the eligible (non-disabled) neighbor with the highest routing
/// score toward the nearest liquid egress; the first candidate at the
/// maximum wins. Returns nothing when no egress has liquidity or no
/// neighbor is eligible: the packet then enters orbit.
pub fn find_next_hop(nodes: &Vec<SimNode>, node_id: u32, packet: &SimPacket) -> (r: Option<u32>)
    requires
        nodes_wf(nodes@),
        (node_id as int) < nodes@.len(),
    ensures
        r == find_next_hop_spec(nodes@, node_id as int, *packet),
        r is Some ==> (r->0 as int) < nodes@.len() && nodes@[r->0 as int].role
            != NodeRole::Disabled,
{
    let current = &nodes[node_id as usize];

    // Nearest egress node with liquidity; the first of equals wins.
    let mut target_idx: Option<usize> = Option::None;
    let mut i: usize = 0;
    while i < nodes.len()
        invariant
            nodes_wf(nodes@),
            (node_id as int) < nodes@.len(),
            0 <= i <= nodes@.len(),
            match target_idx {
                Option::None => best_egress_in(nodes@, nodes@[node_id as int], i as int)
                    is None,
                Option::Some(t) => t < nodes@.len() && best_egress_in(
                    nodes@,
                    nodes@[node_id as int],
                    i as int,
                ) == Option::Some(t as int),
            },
        decreases nodes@.len() - i,
    {
        let n = &nodes[i];
        proof {
            assert(node_ok(nodes@[i as int]));
            assert(node_ok(nodes@[node_id as int]));
        }
        if matches!(n.role, NodeRole::Egress) && n.inventory_crypto.gt(GoldGrams::one()) {
            match target_idx {
                Option::None => {
                    target_idx = Option::Some(i);
                },
                Option::Some(b) => {
                    proof {
                        assert(node_ok(nodes@[b as int]));
                    }
                    let di = dist_sq(n, &nodes[node_id as usize]);
                    let db = dist_sq(&nodes[b], &nodes[node_id as usize]);
                    if di < db {
                        target_idx = Option::Some(i);
                    }
                },
            }
        }
        i = i + 1;
    }

    let t = match target_idx {
        Option::None => {
            return Option::None;
        },
        Option::Some(t) => t,
    };

    // Neighbors that are not disabled, in declaration order.
    let neigh = &nodes[node_id as usize].neighbors;
    let mut eligible: Vec<u32> = Vec::new();
    let mut j: usize = 0;
    while j < neigh.len()
        invariant
            nodes_wf(nodes@),
            (node_id as int) < nodes@.len(),
            neigh@ == nodes@[node_id as int].neighbors@,
            0 <= j <= neigh@.len(),
            eligible@ == eligible_in(nodes@, neigh@, j as int),
            forall|m: int| 0 <= m < eligible@.len() ==> #[trigger] eligible@[m] < nodes@.len(),
        decreases neigh@.len() - j,
    {
        let nb = neigh[j];
        if !matches!(nodes[nb as usize].role, NodeRole::Disabled) {
            eligible.push(nb);
        }
        j = j + 1;
    }

    // Normalization base: the largest neighbor distance to the target.
    let mut max_dist = GoldGrams::zero();
    let mut k: usize = 0;
    while k < eligible.len()
        invariant
            nodes_wf(nodes@),
            (t as int) < nodes@.len(),
            0 <= k <= eligible@.len(),
            forall|m: int| 0 <= m < eligible@.len() ==> #[trigger] eligible@[m] < nodes@.len(),
            max_dist@ == max_dist_in(nodes@, eligible@, nodes@[t as int], k as int),
            0 <= max_dist@ <= 3_000_000_000_000_000_000,
        decreases eligible@.len() - k,
    {
        proof {
            assert(node_ok(nodes@[eligible@[k as int] as int]));
            assert(node_ok(nodes@[t as int]));
        }
        let d = dist_to(&nodes[eligible[k] as usize], &nodes[t]);
        max_dist = max_dist.max(d);
        k = k + 1;
    }

    // First neighbor at the maximum score wins.
    let mut best: Option<u32> = Option::None;
    let mut best_score = GoldGrams::zero();
    let mut m: usize = 0;
    while m < eligible.len()
        invariant
            nodes_wf(nodes@),
            (t as int) < nodes@.len(),
            0 <= m <= eligible@.len(),
            forall|q: int| 0 <= q < eligible@.len() ==> #[trigger] eligible@[q] < nodes@.len(),
            0 <= max_dist@ <= 3_000_000_000_000_000_000,
            best == best_neighbor_in(
                nodes@,
                eligible@,
                nodes@[t as int],
                max_dist@,
                *packet,
                m as int,
            ),
            match best {
                Option::None => m == 0,
                Option::Some(b) => (b as int) < nodes@.len() && best_score@
                    == neighbor_score_spec(nodes@[b as int], nodes@[t as int], max_dist@, *packet),
            },
        decreases eligible@.len() - m,
    {
        proof {
            assert(node_ok(nodes@[eligible@[m as int] as int]));
            assert(node_ok(nodes@[t as int]));
        }
        let s = score_neighbor(&nodes[eligible[m] as usize], &nodes[t], max_dist, packet);
        match best {
            Option::None => {
                best = Option::Some(eligible[m]);
                best_score = s;
            },
            Option::Some(_) => {
                if s.gt(best_score) {
                    best = Option::Some(eligible[m]);
                    best_score = s;
                }
            },
        }
        m = m + 1;
    }

    proof {
        lemma_eligible_members(nodes@, neigh@, neigh@.len() as int);
        lemma_best_neighbor_eligible(
            nodes@,
            eligible@,
            nodes@[t as int],
            max_dist@,
            *packet,
            eligible@.len() as int,
        );
    }
    best
}

/// Errors from route selection.
#[derive(Debug, Clone, Copy, PartialEq, Eq, Structural)]
pub enum RoutingError {
    /// No eligible neighbors to route through.
    NoCandidates,
}

/// Observable capacity metrics for a single node.
#[derive(Debug, Clone)]
pub struct CapacityMetrics {
    pub node_id: crate::types::NodeId,
    /// Available egress bandwidth in Mbps.
    pub available_bandwidth_mbps: GoldGrams,
    /// Free buffer slots (packets).
    pub buffer_capacity_packets: u64,
    /// Average round-trip latency in milliseconds.
    pub avg_latency_ms: GoldGrams,
    /// Number of packets currently being processed.
    pub active_packet_count: u64,
}

impl CapacityMetrics {
    /// Bounds under which the weighted score arithmetic is exact.
    pub open spec fn wf(self) -> bool {
        &&& 0 <= self.available_bandwidth_mbps@ <= VALUE_LIMIT
        &&& 0 <= self.avg_latency_ms@ <= VALUE_LIMIT
        &&& self.buffer_capacity_packets <= 1_000_000_000_000
        &&& self.active_packet_count <= 1_000_000_000_000
    }
}

/// Result of route selection: the chosen next hop plus its score.
#[derive(Debug, Clone)]
pub struct RouteSelection {
    pub next_hop: crate::types::NodeId,
    pub score: GoldGrams,
    pub metrics: CapacityMetrics,
}

/// Capacity score of one candidate:
/// `0.35 * bandwidth + 0.25 * buffer - 0.25 * latency - 0.15 * active`.
pub open spec fn route_score_spec(m: CapacityMetrics) -> int {
    scaled_mul(m.available_bandwidth_mbps@, W_BANDWIDTH as int) + scaled_mul(
        (m.buffer_capacity_packets as int) * SCALE,
        W_BUFFER as int,
    ) - scaled_mul(m.avg_latency_ms@, W_LATENCY as int) - scaled_mul(
        (m.active_packet_count as int) * SCALE,
        W_LOAD as int,
    )
}

/// Index of the best-scoring candidate among the first `upto`; the
/// first at the maximum wins.
pub open spec fn best_route_in(cands: Seq<CapacityMetrics>, upto: int) -> int
    decreases upto,
{
    if upto <= 1 {
        0
    } else {
        let prev = best_route_in(cands, upto - 1);
        if route_score_spec(cands[upto - 1]) > route_score_spec(cands[prev]) {
            upto - 1
        } else {
            prev
        }
    }
}

proof fn lemma_best_route_range(cands: Seq<CapacityMetrics>, upto: int)
    requires
        1 <= upto <= cands.len(),
    ensures
        0 <= best_route_in(cands, upto) < upto,
    decreases upto,
{
    if upto > 1 {
        lemma_best_route_range(cands, upto - 1);
    }
}

/// Capacity-only packet router.
#[derive(Debug, Clone)]
pub struct PacketRouter {
    pub max_candidates: usize,
}

impl Default for PacketRouter {
    fn default() -> (r: PacketRouter)
        ensures
            r.max_candidates == 5,
    {
        PacketRouter { max_candidates: 5 }
    }
}

/// Weighted score of one candidate.
fn route_score(m: &CapacityMetrics) -> (r: GoldGrams)
    requires
        m.wf(),
    ensures
        r@ == route_score_spec(*m),
{
    let bw = m.available_bandwidth_mbps;
    let buf = GoldGrams::from_int(m.buffer_capacity_packets as i64);
    let lat = m.avg_latency_ms;
    let act = GoldGrams::from_int(m.active_packet_count as i64);
    proof {
        crate::fixed::lemma_mul_le(bw@, W_BANDWIDTH as int, VALUE_LIMIT as int, SCALE as int);
        crate::fixed::lemma_mul_le(buf@, W_BUFFER as int, VALUE_LIMIT as int, SCALE as int);
        crate::fixed::lemma_mul_le(lat@, W_LATENCY as int, VALUE_LIMIT as int, SCALE as int);
        crate::fixed::lemma_mul_le(act@, W_LOAD as int, VALUE_LIMIT as int, SCALE as int);
    }
    bw.mul(GoldGrams::from_scaled(W_BANDWIDTH)).add(buf.mul(GoldGrams::from_scaled(W_BUFFER))).sub(
        lat.mul(GoldGrams::from_scaled(W_LATENCY)),
    ).sub(act.mul(GoldGrams::from_scaled(W_LOAD)))
}

/// Soft per-tier weights an operator declares for routing preferences.
#[derive(Debug, Clone)]
pub struct TierWeights {
    pub l0: GoldGrams,
    pub l1: GoldGrams,
    pub l2: GoldGrams,
    pub l3: GoldGrams,
}

impl Default for TierWeights {
    /// Neutral weights (all 1.0).
    fn default() -> (r: TierWeights)
        ensures
            r.l0@ == SCALE && r.l1@ == SCALE && r.l2@ == SCALE && r.l3@ == SCALE,
    {
        TierWeights {
            l0: GoldGrams::one(),
            l1: GoldGrams::one(),
            l2: GoldGrams::one(),
            l3: GoldGrams::one(),
        }
    }
}

impl TierWeights {
    pub open spec fn weight_spec(self, tier: MarketTier) -> int {
        match tier {
            MarketTier::L0 => self.l0@,
            MarketTier::L1 => self.l1@,
            MarketTier::L2 => self.l2@,
            MarketTier::L3 => self.l3@,
        }
    }

    pub open spec fn wf(self) -> bool {
        &&& 0 <= self.l0@ <= 10 * SCALE
        &&& 0 <= self.l1@ <= 10 * SCALE
        &&& 0 <= self.l2@ <= 10 * SCALE
        &&& 0 <= self.l3@ <= 10 * SCALE
    }
}

/// Node operator soft preferences.
#[derive(Debug, Clone)]
pub struct OperatorPreferences {
    pub tier_weights: TierWeights,
    pub preferred_min_packet: GoldGrams,
    pub preferred_max_packet: GoldGrams,
    pub auto_mode: bool,
}

impl Default for OperatorPreferences {
    /// Neutral weights, the full packet range, automatic mode.
    fn default() -> (r: OperatorPreferences)
        ensures
            r.wf(),
            r.auto_mode,
            r.preferred_min_packet@ == 0,
            r.preferred_max_packet@ == VALUE_LIMIT,
    {
        OperatorPreferences {
            tier_weights: TierWeights::default(),
            preferred_min_packet: GoldGrams::zero(),
            preferred_max_packet: GoldGrams::from_scaled(VALUE_LIMIT),
            auto_mode: true,
        }
    }
}

impl OperatorPreferences {
    pub open spec fn wf(self) -> bool {
        self.tier_weights.wf()
    }
}

/// Preferences of the named operator: the first entry whose key matches,
/// if any.
pub open spec fn prefs_of(
    prefs: Seq<(crate::types::NodeId, OperatorPreferences)>,
    id: Seq<char>,
    upto: int,
) -> Option<OperatorPreferences>
    decreases upto,
{
    if upto <= 0 {
        Option::None
    } else {
        let head = prefs_of(prefs, id, upto - 1);
        match head {
            Option::Some(p) => Option::Some(p),
            Option::None => if prefs[upto - 1].0.0@ == id {
                Option::Some(prefs[upto - 1].1)
            } else {
                Option::None
            },
        }
    }
}

/// Score of one candidate under operator preferences: the base capacity
/// score, multiplied by the operator's weight for the packet's tier, and
/// halved when the packet value falls outside the preferred range.
/// Operators in automatic mode apply no preference.
pub open spec fn pref_score_spec(
    m: CapacityMetrics,
    prefs: Seq<(crate::types::NodeId, OperatorPreferences)>,
    tier: MarketTier,
    value: int,
) -> int {
    let base = route_score_spec(m);
    match prefs_of(prefs, m.node_id.0@, prefs.len() as int) {
        Option::None => base,
        Option::Some(p) => if p.auto_mode {
            base
        } else {
            let weighted = scaled_mul(base, p.tier_weights.weight_spec(tier));
            if value < p.preferred_min_packet@ || value > p.preferred_max_packet@ {
                scaled_mul(weighted, 500_000_000_000)
            } else {
                weighted
            }
        },
    }
}

/// Index of the best candidate under preferences among the first `upto`.
pub open spec fn best_pref_route_in(
    cands: Seq<CapacityMetrics>,
    prefs: Seq<(crate::types::NodeId, OperatorPreferences)>,
    tier: MarketTier,
    value: int,
    upto: int,
) -> int
    decreases upto,
{
    if upto <= 1 {
        0
    } else {
        let prev = best_pref_route_in(cands, prefs, tier, value, upto - 1);
        if pref_score_spec(cands[upto - 1], prefs, tier, value) > pref_score_spec(
            cands[prev],
            prefs,
            tier,
            value,
        ) {
            upto - 1
        } else {
            prev
        }
    }
}

proof fn lemma_best_pref_route_range(
    cands: Seq<CapacityMetrics>,
    prefs: Seq<(crate::types::NodeId, OperatorPreferences)>,
    tier: MarketTier,
    value: int,
    upto: int,
)
    requires
        1 <= upto <= cands.len(),
    ensures
        0 <= best_pref_route_in(cands, prefs, tier, value, upto) < upto,
    decreases upto,
{
    if upto > 1 {
        lemma_best_pref_route_range(cands, prefs, tier, value, upto - 1);
    }
}

/// All candidate metrics are within the score arithmetic's bounds.
pub open spec fn candidates_wf(cands: Seq<CapacityMetrics>) -> bool {
    forall|i: int| 0 <= i < cands.len() ==> #[trigger] cands[i].wf()
}

/// All preference entries carry bounded weights.
pub open spec fn prefs_wf(prefs: Seq<(crate::types::NodeId, OperatorPreferences)>) -> bool {
    forall|i: int| 0 <= i < prefs.len() ==> #[trigger] prefs[i].1.wf()
}

impl PacketRouter {
    /// Score and select the best next hop from a set of candidates: the
    /// first candidate at the maximum weighted capacity score. Fails with
    /// `NoCandidates` if and only if the set is empty.
    pub fn find_route(&self, candidates: &Vec<CapacityMetrics>, packet_tier: MarketTier) -> (r:
        Result<RouteSelection, RoutingError>)
        requires
            candidates_wf(candidates@),
        ensures
            r is Err <==> candidates@.len() == 0,
            r is Err ==> r->Err_0 == RoutingError::NoCandidates,
            r is Ok ==> {
                let best = best_route_in(candidates@, candidates@.len() as int);
                &&& r->Ok_0.next_hop.0@ == candidates@[best].node_id.0@
                &&& r->Ok_0.score@ == route_score_spec(candidates@[best])
                &&& forall|i: int|
                    0 <= i < candidates@.len() ==> route_score_spec(#[trigger] candidates@[i])
                        <= r->Ok_0.score@
            },
    {
        if candidates.len() == 0 {
            return Err(RoutingError::NoCandidates);
        }
        let mut best_idx: usize = 0;
        let mut best_score = route_score(&candidates[0]);
        let mut i: usize = 1;
        while i < candidates.len()
            invariant
                candidates_wf(candidates@),
                1 <= candidates@.len(),
                1 <= i <= candidates@.len(),
                best_idx == best_route_in(candidates@, i as int),
                0 <= best_idx < i,
                best_score@ == route_score_spec(candidates@[best_idx as int]),
                forall|j: int|
                    0 <= j < i ==> route_score_spec(#[trigger] candidates@[j]) <= best_score@,
            decreases candidates@.len() - i,
        {
            proof {
                assert(candidates@[i as int].wf());
            }
            let s = route_score(&candidates[i]);
            if s.gt(best_score) {
                best_idx = i;
                best_score = s;
            }
            i = i + 1;
        }
        let chosen = &candidates[best_idx];
        Ok(
            RouteSelection {
                next_hop: chosen.node_id.clone(),
                score: best_score,
                metrics: clone_metrics(chosen),
            },
        )
    }

    /// Select the next hop incorporating operator soft preferences: each
    /// candidate's capacity score is multiplied by the operator's weight
    /// for the packet's tier, and halved when the packet value falls
    /// outside the operator's preferred range; operators in automatic
    /// mode apply no preference. The first candidate at the maximum wins;
    /// fails with `NoCandidates` if and only if the set is empty.
    pub fn find_route_with_preferences(
        &self,
        candidates: &Vec<CapacityMetrics>,
        packet_tier: MarketTier,
        packet_value: GoldGrams,
        operator_prefs: &Vec<(crate::types::NodeId, OperatorPreferences)>,
    ) -> (r: Result<RouteSelection, RoutingError>)
        requires
            candidates_wf(candidates@),
            prefs_wf(operator_prefs@),
        ensures
            r is Err <==> candidates@.len() == 0,
            r is Err ==> r->Err_0 == RoutingError::NoCandidates,
            r is Ok ==> {
                let best = best_pref_route_in(
                    candidates@,
                    operator_prefs@,
                    packet_tier,
                    packet_value@,
                    candidates@.len() as int,
                );
                &&& r->Ok_0.next_hop.0@ == candidates@[best].node_id.0@
                &&& r->Ok_0.score@ == pref_score_spec(
                    candidates@[best],
                    operator_prefs@,
                    packet_tier,
                    packet_value@,
                )
                &&& forall|i: int|
                    0 <= i < candidates@.len() ==> pref_score_spec(
                        #[trigger] candidates@[i],
                        operator_prefs@,
                        packet_tier,
                        packet_value@,
                    ) <= r->Ok_0.score@
            },
    {
        if candidates.len() == 0 {
            return Err(RoutingError::NoCandidates);
        }
        let mut best_idx: usize = 0;
        let mut best_score = pref_score(
            &candidates[0],
            operator_prefs,
            packet_tier,
            packet_value,
        );
        let mut i: usize = 1;
        while i < candidates.len()
            invariant
                candidates_wf(candidates@),
                prefs_wf(operator_prefs@),
                1 <= candidates@.len(),
                1 <= i <= candidates@.len(),
                best_idx == best_pref_route_in(
                    candidates@,
                    operator_prefs@,
                    packet_tier,
                    packet_value@,
                    i as int,
                ),
                0 <= best_idx < i,
                best_score@ == pref_score_spec(
                    candidates@[best_idx as int],
                    operator_prefs@,
                    packet_tier,
                    packet_value@,
                ),
                forall|j: int|
                    0 <= j < i ==> pref_score_spec(
                        #[trigger] candidates@[j],
                        operator_prefs@,
                        packet_tier,
                        packet_value@,
                    ) <= best_score@,
            decreases candidates@.len() - i,
        {
            proof {
                assert(candidates@[i as int].wf());
            }
            let s = pref_score(&candidates[i], operator_prefs, packet_tier, packet_value);
            if s.gt(best_score) {
                best_idx = i;
                best_score = s;
            }
            i = i + 1;
        }
        let chosen = &candidates[best_idx];
        Ok(
            RouteSelection {
                next_hop: chosen.node_id.clone(),
                score: best_score,
                metrics: clone_metrics(chosen),
            },
        )
    }
}

/// Field-exact copy of a candidate's metrics.
fn clone_metrics(m: &CapacityMetrics) -> (r: CapacityMetrics)
    ensures
        r.node_id.0@ == m.node_id.0@,
        r.available_bandwidth_mbps == m.available_bandwidth_mbps,
        r.buffer_capacity_packets == m.buffer_capacity_packets,
        r.avg_latency_ms == m.avg_latency_ms,
        r.active_packet_count == m.active_packet_count,
{
    CapacityMetrics {
        node_id: m.node_id.clone(),
        available_bandwidth_mbps: m.available_bandwidth_mbps,
        buffer_capacity_packets: m.buffer_capacity_packets,
        avg_latency_ms: m.avg_latency_ms,
        active_packet_count: m.active_packet_count,
    }
}

/// Weighted score of one candidate under operator preferences.
fn pref_score(
    m: &CapacityMetrics,
    prefs: &Vec<(crate::types::NodeId, OperatorPreferences)>,
    tier: MarketTier,
    value: GoldGrams,
) -> (r: GoldGrams)
    requires
        m.wf(),
        prefs_wf(prefs@),
    ensures
        r@ == pref_score_spec(*m, prefs@, tier, value@),
{
    let base = route_score(m);
    // Locate this operator's preferences, if declared.
    let mut found: Option<usize> = Option::None;
    let mut i: usize = 0;
    while i < prefs.len()
        invariant
            prefs_wf(prefs@),
            0 <= i <= prefs@.len(),
            match found {
                Option::None => prefs_of(prefs@, m.node_id.0@, i as int) is None,
                Option::Some(f) => f < prefs@.len() && prefs_of(prefs@, m.node_id.0@, i as int)
                    == Option::Some(prefs@[f as int].1),
            },
        decreases prefs@.len() - i,
    {
        if found.is_none() && strings_equal(&prefs[i].0.0, &m.node_id.0) {
            found = Option::Some(i);
        }
        proof {
            match found {
                Option::None => {},
                Option::Some(f) => {
                    assert(prefs_of(prefs@, m.node_id.0@, i + 1) == Option::Some(
                        prefs@[f as int].1,
                    ));
                },
            }
        }
        i = i + 1;
    }
    match found {
        Option::None => base,
        Option::Some(f) => {
            proof {
                assert(prefs@[f as int].1.wf());
            }
            let p = &prefs[f];
            if p.1.auto_mode {
                base
            } else {
                let weight = match tier {
                    MarketTier::L0 => p.1.tier_weights.l0,
                    MarketTier::L1 => p.1.tier_weights.l1,
                    MarketTier::L2 => p.1.tier_weights.l2,
                    MarketTier::L3 => p.1.tier_weights.l3,
                };
                proof {
                    lemma_route_score_bounds(*m);
                    crate::fixed::lemma_scaled_mul_range(
                        base@,
                        weight@,
                        2 * VALUE_LIMIT,
                        10,
                    );
                    assert(-(2 * VALUE_LIMIT) * (10 * SCALE) <= base@ * weight@ <= (2
                        * VALUE_LIMIT) * (10 * SCALE)) by (nonlinear_arith)
                        requires
                            -2 * VALUE_LIMIT <= base@ <= 2 * VALUE_LIMIT,
                            0 <= weight@ <= 10 * SCALE,
                    ;
                }
                let weighted = base.mul_signed(weight);
                let outside = value.lt(p.1.preferred_min_packet) || value.gt(
                    p.1.preferred_max_packet,
                );
                if outside {
                    proof {
                        crate::fixed::lemma_scaled_mul_range(
                            weighted@,
                            500_000_000_000,
                            20 * VALUE_LIMIT,
                            1,
                        );
                        assert(-(20 * VALUE_LIMIT) * SCALE <= weighted@ * 500_000_000_000 <= (20
                            * VALUE_LIMIT) * SCALE) by (nonlinear_arith)
                            requires
                                -20 * VALUE_LIMIT <= weighted@ <= 20 * VALUE_LIMIT,
                        ;
                    }
                    weighted.mul_signed(GoldGrams::from_scaled(500_000_000_000))
                } else {
                    weighted
                }
            }
        },
    }
}

/// The capacity score of well-formed metrics is bounded by the metric
/// range itself.
proof fn lemma_route_score_bounds(m: CapacityMetrics)
    requires
        m.wf(),
    ensures
        -2 * VALUE_LIMIT <= route_score_spec(m) <= 2 * VALUE_LIMIT,
{
    crate::fixed::lemma_scaled_mul_range(
        m.available_bandwidth_mbps@,
        W_BANDWIDTH as int,
        VALUE_LIMIT as int,
        1,
    );
    crate::fixed::lemma_scaled_mul_range(
        (m.buffer_capacity_packets as int) * SCALE,
        W_BUFFER as int,
        VALUE_LIMIT as int,
        1,
    );
    crate::fixed::lemma_scaled_mul_range(m.avg_latency_ms@, W_LATENCY as int, VALUE_LIMIT as int, 1);
    crate::fixed::lemma_scaled_mul_range(
        (m.active_packet_count as int) * SCALE,
        W_LOAD as int,
        VALUE_LIMIT as int,
        1,
    );
}

/// Character-for-character string equality, decided on the UTF-8 bytes;
/// the encoding round-trips, so byte equality and view equality agree.
fn strings_equal(a: &String, b: &String) -> (r: bool)
    ensures
        r == (a@ == b@),
{
    proof {
        vstd::utf8::encode_utf8_decode_utf8(a@);
        vstd::utf8::encode_utf8_decode_utf8(b@);
    }
    let ab = a.as_str().as_bytes();
    let bb = b.as_str().as_bytes();
    if ab.len() != bb.len() {
        return false;
    }
    let mut i: usize = 0;
    while i < ab.len()
        invariant
            0 <= i <= ab@.len(),
            ab@.len() == bb@.len(),
            ab@ == vstd::utf8::encode_utf8(a@),
            bb@ == vstd::utf8::encode_utf8(b@),
            vstd::utf8::decode_utf8(vstd::utf8::encode_utf8(a@)) == a@,
            vstd::utf8::decode_utf8(vstd::utf8::encode_utf8(b@)) == b@,
            forall|j: int| 0 <= j < i ==> ab@[j] == bb@[j],
        decreases ab@.len() - i,
    {
        if ab[i] != bb[i] {
            return false;
        }
        i = i + 1;
    }
    proof {
        assert(ab@ =~= bb@);
    }
    true
}

/// Every entry of the eligible list is an in-range, non-disabled node.
proof fn lemma_eligible_members(nodes: Seq<SimNode>, neigh: Seq<u32>, upto: int)
    requires
        upto <= neigh.len(),
        forall|j: int| 0 <= j < neigh.len() ==> #[trigger] neigh[j] < nodes.len(),
    ensures
        forall|m: int|
            0 <= m < eligible_in(nodes, neigh, upto).len()
                ==> #[trigger] eligible_in(nodes, neigh, upto)[m] < nodes.len() && nodes[eligible_in(
                nodes,
                neigh,
                upto,
            )[m] as int].role != NodeRole::Disabled,
    decreases upto,
{
    if upto > 0 {
        lemma_eligible_members(nodes, neigh, upto - 1);
    }
}

/// The selected neighbor always comes from the eligible list, which
/// holds no disabled node.
proof fn lemma_best_neighbor_eligible(
    nodes: Seq<SimNode>,
    elig: Seq<u32>,
    target: SimNode,
    max_dist: int,
    packet: SimPacket,
    upto: int,
)
    requires
        upto <= elig.len(),
        forall|m: int|
            0 <= m < elig.len() ==> #[trigger] nodes[elig[m] as int].role != NodeRole::Disabled,
        forall|m: int| 0 <= m < elig.len() ==> #[trigger] elig[m] < nodes.len(),
    ensures
        match best_neighbor_in(nodes, elig, target, max_dist, packet, upto) {
            Option::None => true,
            Option::Some(b) => (b as int) < nodes.len() && nodes[b as int].role
                != NodeRole::Disabled,
        },
    decreases upto,
{
    if upto > 0 {
        lemma_best_neighbor_eligible(nodes, elig, target, max_dist, packet, upto - 1);
    }
}

} // verus!
