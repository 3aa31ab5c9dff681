//! Gravity dissolution: residual value of abandoned packets is
//! distributed pro-rata to qualified nodes, with shard holders (nodes
//! that carried the packet) receiving double weight.

use vstd::prelude::*;
use crate::fixed::GoldGrams;
use crate::conservation::BOOK_LIMIT;

verus! {

/// 90 days in seconds.
pub const DISSOLUTION_TIMEOUT_SECS: u64 = 7_776_000;

/// Simulation-scale equivalent of the 90-day dissolution timeout.
pub const DISSOLUTION_TIMEOUT_TICKS: u64 = 5000;

/// Errors from a dissolution attempt.
#[derive(Debug, Clone, Copy, PartialEq, Eq, Structural)]
pub enum DissolutionError {
    /// No nodes passed all six qualification criteria.
    NoQualifiedNodes,
    /// Residual value was zero or negative.
    ZeroResidualValue,
    /// The entity is not yet eligible for dissolution.
    NotEligible,
}

/// All six criteria must hold for a node to participate in dissolution.
#[derive(Debug, Clone, Copy, PartialEq, Eq, Structural)]
pub struct GravityQualification {
    pub node_id: u32,
    /// Node participates in the UPI payment network.
    pub upi_active: bool,
    /// Node contributes to network metrics via the NGauge oracle.
    pub engauge_active: bool,
    /// KYC attestation is valid and current.
    pub kyc_attested: bool,
    /// Node is an active mesh participant.
    pub caesar_active: bool,
    /// Meets minimum storage, bandwidth and compute requirements.
    pub demonstrable_capacity: bool,
    /// Routed traffic during the current epoch.
    pub active_routing_current_epoch: bool,
}

impl GravityQualification {
    pub open spec fn is_qualified_spec(self) -> bool {
        self.upi_active && self.engauge_active && self.kyc_attested && self.caesar_active
            && self.demonstrable_capacity && self.active_routing_current_epoch
    }

    /// Returns `true` only when every qualification criterion is met.
    pub fn is_qualified(&self) -> (r: bool)
        ensures
            r == self.is_qualified_spec(),
    {
        self.upi_active && self.engauge_active && self.kyc_attested && self.caesar_active
            && self.demonstrable_capacity && self.active_routing_current_epoch
    }
}

/// A single node's share of the dissolved residual value.
#[derive(Debug, Clone, Copy, PartialEq, Eq, Structural)]
pub struct GravityDistribution {
    pub node_id: u32,
    pub amount: GoldGrams,
    pub held_shards: bool,
}

/// Aggregate result of a dissolution operation.
#[derive(Debug, Clone, PartialEq)]
pub struct DissolutionResult {
    pub total_dissolved: GoldGrams,
    pub distributions: Vec<GravityDistribution>,
}

/// The subsequence of nodes that pass all six criteria, in input order.
pub open spec fn qualified_of(s: Seq<GravityQualification>) -> Seq<GravityQualification>
    decreases s.len(),
{
    if s.len() == 0 {
        Seq::empty()
    } else if s.last().is_qualified_spec() {
        qualified_of(s.drop_last()).push(s.last())
    } else {
        qualified_of(s.drop_last())
    }
}

/// Weight of one eligible node: 2 for a shard holder, 1 otherwise.
pub open spec fn weight_of(q: GravityQualification, holders: Seq<u32>) -> int {
    if holders.contains(q.node_id) {
        2
    } else {
        1
    }
}

/// Total weight of a set of eligible nodes.
pub open spec fn total_weight_of(s: Seq<GravityQualification>, holders: Seq<u32>) -> int
    decreases s.len(),
{
    if s.len() == 0 {
        0
    } else {
        total_weight_of(s.drop_last(), holders) + weight_of(s.last(), holders)
    }
}

proof fn lemma_total_weight_bounds(s: Seq<GravityQualification>, holders: Seq<u32>)
    ensures
        s.len() <= total_weight_of(s, holders) <= 2 * s.len(),
    decreases s.len(),
{
    if s.len() > 0 {
        lemma_total_weight_bounds(s.drop_last(), holders);
    }
}

/// Returns `true` when at least 90 real-time days have elapsed.
pub fn is_eligible_secs(elapsed_secs: u64) -> (r: bool)
    ensures
        r == (elapsed_secs >= DISSOLUTION_TIMEOUT_SECS),
{
    elapsed_secs >= DISSOLUTION_TIMEOUT_SECS
}

/// Returns `true` when at least `DISSOLUTION_TIMEOUT_TICKS` simulation
/// ticks have elapsed.
pub fn is_eligible_ticks(elapsed_ticks: u64) -> (r: bool)
    ensures
        r == (elapsed_ticks >= DISSOLUTION_TIMEOUT_TICKS),
{
    elapsed_ticks >= DISSOLUTION_TIMEOUT_TICKS
}

/// Whether a `u32` occurs in a vector.
fn contains_u32(v: &Vec<u32>, x: u32) -> (r: bool)
    ensures
        r == v@.contains(x),
{
    let mut i: usize = 0;
    while i < v.len()
        invariant
            0 <= i <= v.len(),
            forall|j: int| 0 <= j < i ==> v@[j] != x,
        decreases v.len() - i,
    {
        if v[i] == x {
            return true;
        }
        i = i + 1;
    }
    false
}

/// Distribute `residual_value` among the qualified nodes pro-rata by
/// weight: shard holders (listed in `shard_holder_ids`) weigh 2, all
/// other qualified nodes weigh 1. Each share truncates toward zero, so
/// the distributed sum never exceeds the residual.
///
/// Errors, in order of precedence:
/// - `NoQualifiedNodes` when no node passes all six criteria;
/// - `ZeroResidualValue` when the residual is zero or negative.
pub fn dissolve(
    residual_value: GoldGrams,
    qualified_nodes: &Vec<GravityQualification>,
    shard_holder_ids: &Vec<u32>,
) -> (r: Result<DissolutionResult, DissolutionError>)
    requires
        residual_value@ <= BOOK_LIMIT,
        qualified_nodes@.len() <= 1_000_000_000,
    ensures
        r is Ok <==> (qualified_of(qualified_nodes@).len() > 0 && residual_value@ > 0),
        (r is Err && r->Err_0 == DissolutionError::NoQualifiedNodes) <==> qualified_of(
            qualified_nodes@,
        ).len() == 0,
        (r is Err && r->Err_0 == DissolutionError::ZeroResidualValue) <==> (qualified_of(
            qualified_nodes@,
        ).len() > 0 && residual_value@ <= 0),
        r is Ok ==> {
            let q = qualified_of(qualified_nodes@);
            let tw = total_weight_of(q, shard_holder_ids@);
            let dists = r->Ok_0.distributions@;
            &&& r->Ok_0.total_dissolved == residual_value
            &&& dists.len() == q.len()
            &&& forall|k: int|
                0 <= k < dists.len() ==> {
                    &&& #[trigger] dists[k].node_id == q[k].node_id
                    &&& dists[k].held_shards == shard_holder_ids@.contains(q[k].node_id)
                    &&& dists[k].amount@ == (residual_value@ * weight_of(q[k], shard_holder_ids@))
                        / tw
                }
        },
{
    // Collect the eligible nodes in input order.
    let mut eligible: Vec<GravityQualification> = Vec::new();
    let mut i: usize = 0;
    while i < qualified_nodes.len()
        invariant
            0 <= i <= qualified_nodes.len(),
            eligible@ == qualified_of(qualified_nodes@.take(i as int)),
            eligible@.len() <= i,
        decreases qualified_nodes.len() - i,
    {
        let q = &qualified_nodes[i];
        proof {
            assert(qualified_nodes@.take(i + 1).drop_last() =~= qualified_nodes@.take(i as int));
            assert(qualified_nodes@.take(i + 1).last() == qualified_nodes@[i as int]);
        }
        if q.is_qualified() {
            eligible.push(*q);
            proof {
                assert(qualified_nodes@[i as int].is_qualified_spec());
            }
        }
        i = i + 1;
    }
    proof {
        assert(qualified_nodes@.take(qualified_nodes@.len() as int) =~= qualified_nodes@);
    }

    if eligible.len() == 0 {
        return Err(DissolutionError::NoQualifiedNodes);
    }
    if !residual_value.gt(GoldGrams::zero()) {
        return Err(DissolutionError::ZeroResidualValue);
    }

    // Total weight: 2 per shard holder, 1 per other eligible node.
    let ghost qseq = eligible@;
    let mut total_weight: u64 = 0;
    let mut j: usize = 0;
    while j < eligible.len()
        invariant
            0 <= j <= eligible.len(),
            eligible@ == qseq,
            total_weight == total_weight_of(qseq.take(j as int), shard_holder_ids@),
            total_weight <= 2 * j,
            eligible@.len() <= 1_000_000_000,
        decreases eligible.len() - j,
    {
        proof {
            assert(qseq.take(j + 1).drop_last() =~= qseq.take(j as int));
            assert(qseq.take(j + 1).last() == qseq[j as int]);
        }
        if contains_u32(shard_holder_ids, eligible[j].node_id) {
            total_weight = total_weight + 2;
        } else {
            total_weight = total_weight + 1;
        }
        j = j + 1;
    }
    proof {
        assert(qseq.take(qseq.len() as int) =~= qseq);
        lemma_total_weight_bounds(qseq, shard_holder_ids@);
    }

    // Each eligible node receives residual * weight / total_weight.
    let mut distributions: Vec<GravityDistribution> = Vec::new();
    let mut k: usize = 0;
    while k < eligible.len()
        invariant
            0 <= k <= eligible.len(),
            eligible@ == qseq,
            0 < residual_value@ <= BOOK_LIMIT,
            0 < total_weight,
            total_weight == total_weight_of(qseq, shard_holder_ids@),
            distributions@.len() == k,
            forall|m: int|
                0 <= m < k ==> #[trigger] distributions@[m].node_id == qseq[m].node_id,
            forall|m: int|
                0 <= m < k ==> #[trigger] distributions@[m].held_shards == shard_holder_ids@.contains(
                    qseq[m].node_id,
                ),
            forall|m: int|
                0 <= m < k ==> #[trigger] distributions@[m].amount@ == (residual_value@ * weight_of(
                    qseq[m],
                    shard_holder_ids@,
                )) / (total_weight as int),
        decreases eligible.len() - k,
    {
        let held = contains_u32(shard_holder_ids, eligible[k].node_id);
        let w: u64 = if held {
            2
        } else {
            1
        };
        proof {
            crate::fixed::lemma_mul_le(residual_value@, w as int, BOOK_LIMIT as int, 2);
        }
        let amount = residual_value.mul_int(w).div_int(total_weight);
        let ghost prev = distributions@;
        distributions.push(
            GravityDistribution { node_id: eligible[k].node_id, amount, held_shards: held },
        );
        proof {
            assert forall|m: int| 0 <= m < k + 1 implies {
                &&& #[trigger] distributions@[m].node_id == qseq[m].node_id
                &&& distributions@[m].held_shards == shard_holder_ids@.contains(qseq[m].node_id)
                &&& distributions@[m].amount@ == (residual_value@ * weight_of(
                    qseq[m],
                    shard_holder_ids@,
                )) / (total_weight as int)
            } by {
                if m < k {
                    assert(distributions@[m] == prev[m]);
                    assert(prev[m].node_id == qseq[m].node_id);
                } else {
                    assert(distributions@[m] == GravityDistribution {
                        node_id: eligible@[m].node_id,
                        amount,
                        held_shards: held,
                    });
                    assert(weight_of(qseq[m], shard_holder_ids@) == w as int);
                }
            }
        }
        k = k + 1;
    }

    Ok(DissolutionResult { total_dissolved: residual_value, distributions })
}

} // verus!
