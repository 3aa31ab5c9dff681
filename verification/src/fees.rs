//! Fee distribution: splitting a settlement fee between the egress node
//! and the transit relays.
//!
//! No value is created here. The egress node takes its share (80% by
//! default); the transit pool (20%) is split pro-rata by bytes relayed,
//! or equally when no byte counts were reported. Every rounding crumb is
//! retained by the egress node, so the payments always sum exactly to
//! the fee that was distributed.

use vstd::prelude::*;
use crate::fixed::GoldGrams;
use crate::fixed::SCALE;
use crate::fixed::VALUE_LIMIT;
use crate::types::NodeId;

verus! {

/// Errors from fee distribution.
#[derive(Debug, Clone, Copy, PartialEq, Eq, Structural)]
pub enum FeeError {
    /// Attempt to distribute a zero fee.
    ZeroFee,
}

/// A payment to a specific node.
#[derive(Debug, Clone)]
pub struct NodePayment {
    pub node_id: NodeId,
    pub amount: GoldGrams,
}

/// Complete distribution of a single fee across participating nodes.
#[derive(Debug, Clone)]
pub struct FeeDistribution {
    /// The total fee that was distributed.
    pub total_fee: GoldGrams,
    /// Payment to the egress (destination) node.
    pub egress_payment: NodePayment,
    /// Payments to transit relay nodes (may be empty).
    pub transit_payments: Vec<NodePayment>,
}

/// Sum of the payment amounts in a sequence.
pub open spec fn sum_amounts(s: Seq<NodePayment>) -> int
    decreases s.len(),
{
    if s.len() == 0 {
        0
    } else {
        sum_amounts(s.drop_last()) + s.last().amount@
    }
}

/// Stateless fee splitter, holding the egress/transit share ratio.
#[derive(Debug, Clone)]
pub struct FeeDistributor {
    /// Fraction of the total fee allocated to the egress node.
    pub egress_share: GoldGrams,
    /// Fraction of the total fee allocated to transit nodes.
    pub transit_share: GoldGrams,
}

impl Default for FeeDistributor {
    /// The default 80/20 split.
    fn default() -> (r: FeeDistributor)
        ensures
            r.egress_share@ == 800_000_000_000,
            r.transit_share@ == 200_000_000_000,
            r.wf(),
    {
        FeeDistributor {
            egress_share: GoldGrams::from_scaled(800_000_000_000),
            transit_share: GoldGrams::from_scaled(200_000_000_000),
        }
    }
}

impl FeeDistributor {
    /// The two shares are fractions that sum to exactly 1.
    pub open spec fn wf(self) -> bool {
        &&& 0 <= self.egress_share@
        &&& 0 <= self.transit_share@
        &&& self.egress_share@ + self.transit_share@ == SCALE
    }

    /// Distribute a fee among the egress node and zero-or-more transit
    /// nodes. Transit nodes receive shares of the transit pool
    /// proportional to `bytes_relayed` (equal shares when every count is
    /// zero); the egress node receives everything else, so the sum of
    /// all payments equals the fee exactly. When no transit node
    /// participated the egress node receives the entire fee.
    ///
    /// Fails with `ZeroFee` if and only if the fee is exactly zero.
    pub fn distribute_fee(
        &self,
        total_fee: GoldGrams,
        egress_node: NodeId,
        transit_nodes: &Vec<(NodeId, u64)>,
    ) -> (r: Result<FeeDistribution, FeeError>)
        requires
            self.wf(),
            0 <= total_fee@ <= VALUE_LIMIT,
        ensures
            r is Err <==> total_fee@ == 0,
            r is Err ==> r->Err_0 == FeeError::ZeroFee,
            r is Ok ==> {
                let d = r->Ok_0;
                &&& d.total_fee == total_fee
                &&& d.egress_payment.node_id == egress_node
                &&& d.transit_payments@.len() == transit_nodes@.len()
                &&& forall|i: int|
                    0 <= i < d.transit_payments@.len()
                        ==> #[trigger] d.transit_payments@[i].node_id.0@ == transit_nodes@[i].0.0@
                &&& forall|i: int|
                    0 <= i < d.transit_payments@.len() ==> 0 <= #[trigger] d.transit_payments@[i].amount@
                &&& d.egress_payment.amount@ + sum_amounts(d.transit_payments@) == total_fee@
                &&& d.egress_payment.amount@ >= 0
                &&& transit_nodes@.len() == 0 ==> d.egress_payment.amount@ == total_fee@
                &&& transit_nodes@.len() > 0 ==> {
                    let pool = (total_fee@ * self.transit_share@) / (SCALE as int);
                    let tb = bytes_sum(transit_nodes@);
                    &&& (tb == 0 ==> forall|i: int|
                        0 <= i < d.transit_payments@.len()
                            ==> #[trigger] d.transit_payments@[i].amount@ == pool / (
                        transit_nodes@.len() as int))
                    &&& (tb != 0 ==> forall|i: int|
                        0 <= i < d.transit_payments@.len()
                            ==> #[trigger] d.transit_payments@[i].amount@ == (pool * ((
                        transit_nodes@[i].1 * (SCALE as int)) / tb)) / (SCALE as int))
                }
            },
    {
        if total_fee.is_zero() {
            return Err(FeeError::ZeroFee);
        }
        // No transit nodes: egress receives the entire fee.
        if transit_nodes.len() == 0 {
            return Ok(
                FeeDistribution {
                    total_fee,
                    egress_payment: NodePayment { node_id: egress_node, amount: total_fee },
                    transit_payments: Vec::new(),
                },
            );
        }
        proof {
            crate::fixed::lemma_mul_le(total_fee@, self.transit_share@, VALUE_LIMIT as int, SCALE as int);
        }
        let transit_pool = total_fee.mul(self.transit_share);

        // Total bytes relayed, in a wide accumulator.
        let mut total_bytes: u128 = 0;
        let mut i: usize = 0;
        while i < transit_nodes.len()
            invariant
                0 <= i <= transit_nodes.len(),
                total_bytes == bytes_sum(transit_nodes@.take(i as int)),
                total_bytes <= i * 0xffff_ffff_ffff_ffff,
            decreases transit_nodes.len() - i,
        {
            proof {
                assert(transit_nodes@.take(i + 1).drop_last() =~= transit_nodes@.take(i as int));
                lemma_bytes_sum_bound(transit_nodes@.take(i as int));
            }
            total_bytes = total_bytes + (transit_nodes[i].1 as u128);
            i = i + 1;
        }
        proof {
            assert(transit_nodes@.take(transit_nodes@.len() as int) =~= transit_nodes@);
        }

        let mut transit_payments: Vec<NodePayment> = Vec::new();
        let mut paid: GoldGrams = GoldGrams::zero();
        if total_bytes == 0 {
            // Every transit node relayed zero bytes: split the pool equally.
            let n = transit_nodes.len();
            let per_node = transit_pool.div_int(n as u64);
            proof {
                assert(per_node@ * (n as int) <= transit_pool@) by (nonlinear_arith)
                    requires
                        per_node@ == transit_pool@ / (n as int),
                        0 <= transit_pool@,
                        0 < n,
                ;
            }
            let mut j: usize = 0;
            while j < transit_nodes.len()
                invariant
                    0 <= j <= transit_nodes.len(),
                    transit_payments@.len() == j,
                    forall|m: int|
                        0 <= m < j ==> #[trigger] transit_payments@[m].node_id.0@
                            == transit_nodes@[m].0.0@,
                    forall|m: int|
                        0 <= m < j ==> #[trigger] transit_payments@[m].amount@ == per_node@,
                    0 <= per_node@,
                    0 <= paid@ <= VALUE_LIMIT,
                    paid@ == sum_amounts(transit_payments@),
                    paid@ == j * per_node@,
                    j * per_node@ <= transit_pool@,
                    per_node@ * (transit_nodes@.len() as int) <= transit_pool@,
                    0 <= transit_pool@ <= total_fee@ <= VALUE_LIMIT,
                decreases transit_nodes.len() - j,
            {
                let ghost prev = transit_payments@;
                transit_payments.push(
                    NodePayment { node_id: transit_nodes[j].0.clone(), amount: per_node },
                );
                proof {
                    assert(transit_payments@.drop_last() =~= prev);
                    assert((j + 1) * per_node@ == j * per_node@ + per_node@) by (nonlinear_arith);
                    assert((j + 1) * per_node@ <= transit_pool@) by (nonlinear_arith)
                        requires
                            per_node@ * (transit_nodes@.len() as int) <= transit_pool@,
                            0 <= per_node@,
                            j + 1 <= transit_nodes@.len(),
                    ;
                }
                paid = paid.add(per_node);
                j = j + 1;
            }
        } else {
            // Pro-rata by bytes: each node gets pool * (bytes / total).
            let ghost all_bytes = total_bytes as int;
            let mut j: usize = 0;
            while j < transit_nodes.len()
                invariant
                    0 <= j <= transit_nodes.len(),
                    transit_payments@.len() == j,
                    0 < all_bytes,
                    total_bytes == all_bytes,
                    all_bytes == bytes_sum(transit_nodes@),
                    bytes_sum(transit_nodes@.take(j as int)) <= all_bytes,
                    forall|m: int|
                        0 <= m < j ==> #[trigger] transit_payments@[m].node_id.0@
                            == transit_nodes@[m].0.0@,
                    forall|m: int|
                        0 <= m < j ==> 0 <= #[trigger] transit_payments@[m].amount@,
                    forall|m: int|
                        0 <= m < j ==> #[trigger] transit_payments@[m].amount@ == (transit_pool@
                            * ((transit_nodes@[m].1 * (SCALE as int)) / all_bytes)) / (
                        SCALE as int),
                    paid@ == sum_amounts(transit_payments@),
                    0 <= paid@,
                    paid@ * all_bytes <= transit_pool@ * bytes_sum(transit_nodes@.take(j as int)),
                    0 <= transit_pool@ <= total_fee@ <= VALUE_LIMIT,
                decreases transit_nodes.len() - j,
            {
                proof {
                    lemma_bytes_sum_prefix(transit_nodes@, j as int);
                    lemma_bytes_sum_bound(transit_nodes@.take(j as int));
                }
                let b: u64 = transit_nodes[j].1;
                let share = share_of(b, total_bytes);
                proof {
                    crate::fixed::lemma_mul_le(transit_pool@, share@, VALUE_LIMIT as int, SCALE as int);
                }
                let amount = transit_pool.mul(share);
                proof {
                    lemma_payment_bound(transit_pool@, b as int, all_bytes, share@, amount@);
                    assert(transit_nodes@.take(j + 1).drop_last() =~= transit_nodes@.take(j as int));
                    assert((paid@ + amount@) * all_bytes == paid@ * all_bytes + amount@ * all_bytes)
                        by (nonlinear_arith);
                    assert(transit_pool@ * (bytes_sum(transit_nodes@.take(j as int)) + b) ==
                        transit_pool@ * bytes_sum(transit_nodes@.take(j as int)) + transit_pool@ * b)
                        by (nonlinear_arith);
                }
                let ghost prev = transit_payments@;
                transit_payments.push(
                    NodePayment { node_id: transit_nodes[j].0.clone(), amount },
                );
                proof {
                    assert(transit_payments@.drop_last() =~= prev);
                    assert(paid@ <= transit_pool@) by (nonlinear_arith)
                        requires
                            paid@ * all_bytes <= transit_pool@ * bytes_sum(
                                transit_nodes@.take(j as int),
                            ),
                            bytes_sum(transit_nodes@.take(j as int)) <= all_bytes,
                            0 < all_bytes,
                            0 <= transit_pool@,
                            0 <= paid@,
                    ;
                }
                paid = paid.add(amount);
                j = j + 1;
            }
            proof {
                assert(transit_nodes@.take(transit_nodes@.len() as int) =~= transit_nodes@);
                assert(paid@ <= transit_pool@) by (nonlinear_arith)
                    requires
                        paid@ * all_bytes <= transit_pool@ * all_bytes,
                        0 < all_bytes,
                ;
            }
        }
        // The egress node takes the rest; rounding crumbs land here.
        let egress_amount = total_fee.sub(paid);
        Ok(
            FeeDistribution {
                total_fee,
                egress_payment: NodePayment { node_id: egress_node, amount: egress_amount },
                transit_payments,
            },
        )
    }
}

/// Sum of the byte counts in a transit list.
pub open spec fn bytes_sum(s: Seq<(NodeId, u64)>) -> int
    decreases s.len(),
{
    if s.len() == 0 {
        0
    } else {
        bytes_sum(s.drop_last()) + s.last().1
    }
}

proof fn lemma_bytes_sum_bound(s: Seq<(NodeId, u64)>)
    ensures
        0 <= bytes_sum(s) <= s.len() * 0xffff_ffff_ffff_ffff,
    decreases s.len(),
{
    if s.len() > 0 {
        lemma_bytes_sum_bound(s.drop_last());
        assert((s.len() - 1) * 0xffff_ffff_ffff_ffff + 0xffff_ffff_ffff_ffff == s.len()
            * 0xffff_ffff_ffff_ffff) by (nonlinear_arith);
    }
}

/// Prefix sums of byte counts stay below the full sum.
proof fn lemma_bytes_sum_prefix(s: Seq<(NodeId, u64)>, j: int)
    requires
        0 <= j < s.len(),
    ensures
        bytes_sum(s.take(j)) + s[j].1 == bytes_sum(s.take(j + 1)),
        bytes_sum(s.take(j + 1)) <= bytes_sum(s),
    decreases s.len() - j,
{
    assert(s.take(j + 1).drop_last() =~= s.take(j));
    assert(s.take(j + 1).last() == s[j]);
    if j + 1 == s.len() {
        assert(s.take(j + 1) =~= s);
    } else {
        lemma_bytes_sum_prefix(s, j + 1);
        lemma_bytes_sum_nonneg_entry(s, j + 1);
    }
}

proof fn lemma_bytes_sum_nonneg_entry(s: Seq<(NodeId, u64)>, j: int)
    requires
        0 <= j < s.len(),
    ensures
        bytes_sum(s.take(j)) <= bytes_sum(s.take(j + 1)),
{
    assert(s.take(j + 1).drop_last() =~= s.take(j));
}

/// One pro-rata payment, multiplied by the total byte count, never
/// exceeds the pool multiplied by this node's byte count: the two
/// truncating divisions only lose value.
proof fn lemma_payment_bound(pool: int, b: int, total: int, share: int, pay: int)
    requires
        0 <= pool,
        0 <= b,
        0 < total,
        share == (b * SCALE) / total,
        pay == (pool * share) / (SCALE as int),
    ensures
        pay * total <= pool * b,
        0 <= pay,
{
    assert(share * total <= b * SCALE) by (nonlinear_arith)
        requires
            share == (b * SCALE) / total,
            0 <= b,
            0 < total,
    ;
    assert(0 <= share) by (nonlinear_arith)
        requires
            share == (b * SCALE) / total,
            0 <= b,
            0 < total,
    ;
    assert(pay * SCALE <= pool * share) by (nonlinear_arith)
        requires
            pay == (pool * share) / (SCALE as int),
            0 <= pool,
            0 <= share,
    ;
    assert(0 <= pay) by (nonlinear_arith)
        requires
            pay == (pool * share) / (SCALE as int),
            0 <= pool,
            0 <= share,
    ;
    assert(pay * total * SCALE <= pool * b * SCALE) by (nonlinear_arith)
        requires
            pay * SCALE <= pool * share,
            share * total <= b * SCALE,
            0 <= pool,
            0 < total,
            0 <= pay,
    ;
    assert(pay * total <= pool * b) by (nonlinear_arith)
        requires
            pay * total * SCALE <= pool * b * SCALE,
    ;
}

/// Fraction `bytes / total` as a fixed-point value in `[0, 1]`.
fn share_of(bytes: u64, total: u128) -> (r: GoldGrams)
    requires
        0 < total,
        bytes <= total,
    ensures
        r@ == ((bytes as int) * (SCALE as int)) / (total as int),
        0 <= r@ <= SCALE,
{
    proof {
        assert((bytes as int) * (SCALE as int) <= 0xffff_ffff_ffff_ffff * (SCALE as int))
            by (nonlinear_arith)
            requires
                0 <= bytes <= 0xffff_ffff_ffff_ffffu64,
        ;
        assert(0 <= ((bytes as int) * (SCALE as int)) / (total as int) <= SCALE)
            by (nonlinear_arith)
            requires
                0 < total,
                0 <= bytes <= total,
        ;
    }
    let scaled: u128 = (bytes as u128) * (SCALE as u128);
    let q: u128 = scaled / total;
    GoldGrams::from_scaled(q as i128)
}

} // verus!
