//! Poisson traffic generation, driven by a seeded ChaCha8 stream.
//!
//! The generator draws arrivals from a Poisson distribution (Knuth's
//! exponential method, applied to chunks of the rate so the fixed-point
//! exponential stays precise), selects tiers on the observed power law
//! (60/25/12/3), and draws packet values uniformly within each tier's
//! band. High fee rates destroy demand: candidates cancel with a
//! probability that grows with the fee.
//!
//! The ChaCha8 stream is a pure function of the seed and the position,
//! on every machine; two generators built from the same seed produce the
//! same spawns in the same order.

use vstd::prelude::*;
use crate::fixed::GoldGrams;
use crate::fixed::SCALE;
use crate::fixed::VALUE_LIMIT;
use crate::fixed::min_spec;
use crate::fixed::exp_neg_spec;
use rand::RngCore;
use rand::SeedableRng;
use rand_chacha::ChaCha8Rng;

verus! {

#[verifier::external_type_specification]
#[verifier::external_body]
pub struct ExChaCha8Rng(ChaCha8Rng);

/// The word that the ChaCha8 stream of a given seed yields at a given
/// position. The stream is a pure function of seed and position.
pub uninterp spec fn chacha_word(seed: u64, pos: int) -> u64;

/// The seed a ChaCha8 generator was built from.
pub uninterp spec fn rng_seed_of(rng: ChaCha8Rng) -> u64;

/// How many words a ChaCha8 generator has yielded so far.
pub uninterp spec fn rng_pos_of(rng: ChaCha8Rng) -> int;

/// Relies on `rand_core::SeedableRng::seed_from_u64` for `ChaCha8Rng`:
/// the documentation fixes the seed expansion ("changing the
/// implementation of this function should be considered a value-breaking
/// change"), so the generator state is a function of the seed alone, at
/// position zero of its stream.
#[verifier::external_body]
fn rng_from_seed(seed: u64) -> (r: ChaCha8Rng)
    ensures
        rng_seed_of(r) == seed,
        rng_pos_of(r) == 0,
{
    ChaCha8Rng::seed_from_u64(seed)
}

/// Relies on `rand_core::RngCore::next_u64` for `ChaCha8Rng`: the ChaCha
/// block function is deterministic and platform-independent, so the word
/// returned is a function of the seed and the stream position alone, and
/// the call advances the position by one.
#[verifier::external_body]
fn rng_next_u64(rng: &mut ChaCha8Rng) -> (r: u64)
    ensures
        rng_seed_of(*final(rng)) == rng_seed_of(*old(rng)),
        rng_pos_of(*final(rng)) == rng_pos_of(*old(rng)) + 1,
        r == chacha_word(rng_seed_of(*old(rng)), rng_pos_of(*old(rng))),
{
    rng.next_u64()
}

/// Two generators with the same seed at the same position yield the same
/// next word: the stream is deterministic.
pub proof fn lemma_stream_deterministic(a: ChaCha8Rng, b: ChaCha8Rng)
    requires
        rng_seed_of(a) == rng_seed_of(b),
        rng_pos_of(a) == rng_pos_of(b),
    ensures
        chacha_word(rng_seed_of(a), rng_pos_of(a)) == chacha_word(rng_seed_of(b), rng_pos_of(b)),
{
}

/// A uniform fixed-point fraction in [0, 1) from the next stream word.
fn uniform01(rng: &mut ChaCha8Rng) -> (r: GoldGrams)
    ensures
        rng_seed_of(*final(rng)) == rng_seed_of(*old(rng)),
        rng_pos_of(*final(rng)) == rng_pos_of(*old(rng)) + 1,
        r@ == chacha_word(rng_seed_of(*old(rng)), rng_pos_of(*old(rng))) as int % (SCALE as int),
        0 <= r@ < SCALE,
{
    let w = rng_next_u64(rng);
    let frac = w % (SCALE as u64);
    GoldGrams::from_scaled(frac as i128)
}

/// A uniform index below `n` from the next stream word.
fn uniform_index(rng: &mut ChaCha8Rng, n: u64) -> (r: u64)
    requires
        0 < n,
    ensures
        rng_seed_of(*final(rng)) == rng_seed_of(*old(rng)),
        rng_pos_of(*final(rng)) == rng_pos_of(*old(rng)) + 1,
        r == chacha_word(rng_seed_of(*old(rng)), rng_pos_of(*old(rng))) as int % (n as int),
        r < n,
{
    let w = rng_next_u64(rng);
    w % n
}

/// How many times Knuth's method multiplies a uniform fraction into the
/// running product before it falls to the threshold `l`: the exact count
/// that `knuth_poisson` returns, as a function of the stream alone.
pub open spec fn knuth_count(seed: u64, pos: int, p: int, l: int) -> int
    decreases p,
    when 0 <= l && 0 <= p
    via knuth_count_decreases
{
    let u = chacha_word(seed, pos) as int % (SCALE as int);
    let next = (p * u) / (SCALE as int);
    if next <= l {
        0
    } else {
        1 + knuth_count(seed, pos + 1, next, l)
    }
}

#[via_fn]
proof fn knuth_count_decreases(seed: u64, pos: int, p: int, l: int) {
    let u = chacha_word(seed, pos) as int % (SCALE as int);
    let next = (p * u) / (SCALE as int);
    if !(next <= l) {
        assert(0 <= u < SCALE) by (nonlinear_arith)
            requires
                u == chacha_word(seed, pos) as int % (SCALE as int),
        ;
        assert(0 <= next < p) by (nonlinear_arith)
            requires
                0 <= l,
                0 <= p,
                0 <= u < SCALE,
                next == (p * u) / (SCALE as int),
                next > l,
        ;
    }
}

/// One Poisson draw by Knuth's exponential method: multiply uniform
/// fractions until the product falls below `e^(-rate)`.
fn knuth_poisson(rng: &mut ChaCha8Rng, rate: GoldGrams) -> (r: u64)
    requires
        0 <= rate@ <= 15 * SCALE,
    ensures
        rng_seed_of(*final(rng)) == rng_seed_of(*old(rng)),
        r <= SCALE,
        r as int == knuth_count(
            rng_seed_of(*old(rng)),
            rng_pos_of(*old(rng)),
            SCALE as int,
            exp_neg_spec(rate@),
        ),
        rng_pos_of(*final(rng)) == rng_pos_of(*old(rng)) + r + 1,
{
    let l = crate::fixed::exp_neg(rate);
    let mut p = GoldGrams::one();
    let mut k: u64 = 0;
    loop
        invariant
            0 <= p@ <= SCALE,
            0 <= l@ <= SCALE,
            k + p@ <= SCALE,
            rng_seed_of(*rng) == rng_seed_of(*old(rng)),
            l@ == exp_neg_spec(rate@),
            rng_pos_of(*rng) == rng_pos_of(*old(rng)) + k,
            k + knuth_count(rng_seed_of(*old(rng)), rng_pos_of(*rng), p@, l@) == knuth_count(
                rng_seed_of(*old(rng)),
                rng_pos_of(*old(rng)),
                SCALE as int,
                l@,
            ),
        ensures
            k <= SCALE,
            rng_seed_of(*rng) == rng_seed_of(*old(rng)),
            k as int == knuth_count(
                rng_seed_of(*old(rng)),
                rng_pos_of(*old(rng)),
                SCALE as int,
                l@,
            ),
            rng_pos_of(*rng) == rng_pos_of(*old(rng)) + k + 1,
        decreases p@,
    {
        let ghost pos0 = rng_pos_of(*rng);
        let ghost p0 = p@;
        let u = uniform01(rng);
        proof {
            crate::fixed::lemma_mul_le(p@, u@, SCALE as int, SCALE as int);
            assert(p@ * u@ / (SCALE as int) <= p@ - 1 || p@ == 0) by (nonlinear_arith)
                requires
                    0 <= p@ <= SCALE,
                    0 <= u@ < SCALE,
            ;
        }
        let next = p.mul(u);
        proof {
            assert(knuth_count(rng_seed_of(*old(rng)), pos0, p0, l@) == if next@ <= l@ {
                0int
            } else {
                1 + knuth_count(rng_seed_of(*old(rng)), pos0 + 1, next@, l@)
            });
        }
        if next.le(l) {
            return k;
        }
        p = next;
        k = k + 1;
    }
}

/// The running total and final stream position of a run of saturating
/// Poisson chunk draws: the exact fold that `poisson_sample` computes.
pub open spec fn poisson_run(seed: u64, pos: int, l: int, c: nat, total: int) -> (int, int)
    decreases c,
{
    if c == 0 {
        (total, pos)
    } else {
        let k = knuth_count(seed, pos, SCALE as int, l);
        let t2 = if k <= 10_000_000 - total {
            total + k
        } else {
            10_000_000int
        };
        poisson_run(seed, pos + k + 1, l, (c - 1) as nat, t2)
    }
}

/// A Poisson draw for any admissible rate: the rate splits into chunks
/// small enough for the fixed-point exponential, and independent Poisson
/// draws on the chunks sum to a draw on the whole rate. The result and
/// the stream position consumed are exact functions of the seed, the
/// starting position and the rate.
pub fn poisson_sample(rng: &mut ChaCha8Rng, rate: GoldGrams) -> (r: u64)
    requires
        0 <= rate@ <= 2_000_000_000_000_000_000,
    ensures
        rng_seed_of(*final(rng)) == rng_seed_of(*old(rng)),
        r <= 10_000_000,
        rate@ <= 0 ==> r == 0 && rng_pos_of(*final(rng)) == rng_pos_of(*old(rng)),
        rate@ > 0 ==> ({
            let chunks0 = rate@ / (10 * (SCALE as int)) + 1;
            let run = poisson_run(
                rng_seed_of(*old(rng)),
                rng_pos_of(*old(rng)),
                exp_neg_spec(rate@ / chunks0),
                chunks0 as nat,
                0,
            );
            r as int == run.0 && rng_pos_of(*final(rng)) == run.1
        }),
{
    if !rate.gt(GoldGrams::zero()) {
        return 0;
    }
    let chunks: u64 = ((rate.to_scaled() / (10 * SCALE)) + 1) as u64;
    let chunk_rate = rate.div_int(chunks);
    proof {
        assert(rate@ / (chunks as int) <= 10 * SCALE) by (nonlinear_arith)
            requires
                0 < rate@ <= 2_000_000_000_000_000_000,
                chunks as int == rate@ / (10 * SCALE) + 1,
        ;
    }
    let ghost seed = rng_seed_of(*rng);
    let ghost pos0 = rng_pos_of(*rng);
    let ghost l = exp_neg_spec(chunk_rate@);
    let mut total: u64 = 0;
    let mut c: u64 = 0;
    while c < chunks
        invariant
            0 <= c <= chunks,
            total <= 10_000_000,
            0 <= chunk_rate@ <= 15 * SCALE,
            chunk_rate@ == rate@ / (chunks as int),
            rng_seed_of(*rng) == seed,
            seed == rng_seed_of(*old(rng)),
            pos0 == rng_pos_of(*old(rng)),
            l == exp_neg_spec(chunk_rate@),
            poisson_run(seed, pos0, l, chunks as nat, 0) == poisson_run(
                seed,
                rng_pos_of(*rng),
                l,
                (chunks - c) as nat,
                total as int,
            ),
        decreases chunks - c,
    {
        let ghost posc = rng_pos_of(*rng);
        let ghost totc = total as int;
        let draw = knuth_poisson(rng, chunk_rate);
        proof {
            assert(poisson_run(seed, posc, l, (chunks - c) as nat, totc) == ({
                let k = knuth_count(seed, posc, SCALE as int, l);
                let t2 = if k <= 10_000_000 - totc {
                    totc + k
                } else {
                    10_000_000int
                };
                poisson_run(seed, posc + k + 1, l, (chunks - c - 1) as nat, t2)
            }));
        }
        total = if draw <= 10_000_000 - total {
            total + draw
        } else {
            10_000_000
        };
        c = c + 1;
    }
    total
}

/// The tier that one uniform roll selects on the cumulative
/// distribution 60/85/97/100.
pub open spec fn tier_of_roll(u: int) -> int {
    if u < 600_000_000_000 {
        0
    } else if u < 850_000_000_000 {
        1
    } else if u < 970_000_000_000 {
        2
    } else {
        3
    }
}

/// Power-law tier selection on the cumulative distribution 60/85/97/100:
/// the result is exactly the CDF bracket of the next stream word.
pub fn select_tier(rng: &mut ChaCha8Rng) -> (r: usize)
    ensures
        rng_seed_of(*final(rng)) == rng_seed_of(*old(rng)),
        rng_pos_of(*final(rng)) == rng_pos_of(*old(rng)) + 1,
        r < 4,
        r as int == tier_of_roll(
            chacha_word(rng_seed_of(*old(rng)), rng_pos_of(*old(rng))) as int % (SCALE as int),
        ),
{
    let roll = uniform01(rng);
    if roll.lt(GoldGrams::from_scaled(600_000_000_000)) {
        0
    } else if roll.lt(GoldGrams::from_scaled(850_000_000_000)) {
        1
    } else if roll.lt(GoldGrams::from_scaled(970_000_000_000)) {
        2
    } else {
        3
    }
}

/// Lower bound of one tier's value band.
pub open spec fn tier_lo(t: int) -> int {
    if t == 0 {
        SCALE / 2
    } else if t == 1 {
        10 * SCALE
    } else if t == 2 {
        1_000 * SCALE
    } else {
        100_000 * SCALE
    }
}

/// Upper bound of one tier's value band.
pub open spec fn tier_hi(t: int) -> int {
    if t == 0 {
        10 * SCALE
    } else if t == 1 {
        1_000 * SCALE
    } else if t == 2 {
        100_000 * SCALE
    } else {
        500_000 * SCALE
    }
}

/// A uniform value within one tier's band.
fn tier_value(rng: &mut ChaCha8Rng, tier: usize) -> (r: GoldGrams)
    requires
        tier < 4,
    ensures
        rng_seed_of(*final(rng)) == rng_seed_of(*old(rng)),
        rng_pos_of(*final(rng)) == rng_pos_of(*old(rng)) + 1,
        tier_lo(tier as int) <= r@ < tier_hi(tier as int),
        r@ == tier_lo(tier as int) + ((tier_hi(tier as int) - tier_lo(tier as int)) * (chacha_word(
            rng_seed_of(*old(rng)),
            rng_pos_of(*old(rng)),
        ) as int % (SCALE as int))) / (SCALE as int),
{
    let u = uniform01(rng);
    let (lo, hi): (GoldGrams, GoldGrams) = if tier == 0 {
        (GoldGrams::from_scaled(SCALE / 2), GoldGrams::from_int(10))
    } else if tier == 1 {
        (GoldGrams::from_int(10), GoldGrams::from_int(1_000))
    } else if tier == 2 {
        (GoldGrams::from_int(1_000), GoldGrams::from_int(100_000))
    } else {
        (GoldGrams::from_int(100_000), GoldGrams::from_int(500_000))
    };
    let span = hi.sub(lo);
    proof {
        crate::fixed::lemma_mul_le(span@, u@, 500_000 * SCALE, SCALE as int);
        assert(span@ * u@ / (SCALE as int) < span@) by (nonlinear_arith)
            requires
                0 < span@,
                0 <= u@ < SCALE,
        ;
    }
    lo.add(span.mul(u))
}

/// The spawn list and final stream position of one generation tick: the
/// exact sequence of `(node, raw amount)` pairs that `generate_tick`
/// produces from `count` candidates, as a function of the stream, the
/// fee rate and the ingress list.
pub open spec fn gen_spawns(seed: u64, pos: int, count: nat, fee: int, ingress: Seq<u32>) -> (Seq<
    (u32, int),
>, int)
    decreases count,
{
    if count == 0 || ingress.len() == 0 {
        (Seq::empty(), pos)
    } else {
        let cancel_roll = chacha_word(seed, pos) as int % (SCALE as int);
        let cancel_prob = min_spec(
            ((fee - SCALE / 10) * (5 * (SCALE as int))) / (SCALE as int),
            SCALE as int,
        );
        if fee > SCALE / 10 && cancel_roll < cancel_prob {
            gen_spawns(seed, pos + 1, (count - 1) as nat, fee, ingress)
        } else {
            let pos1 = if fee > SCALE / 10 {
                pos + 1
            } else {
                pos
            };
            let idx = chacha_word(seed, pos1) as int % (ingress.len() as int);
            let t = tier_of_roll(chacha_word(seed, pos1 + 1) as int % (SCALE as int));
            let u = chacha_word(seed, pos1 + 2) as int % (SCALE as int);
            let amount = tier_lo(t) + ((tier_hi(t) - tier_lo(t)) * u) / (SCALE as int);
            let rest = gen_spawns(seed, pos1 + 3, (count - 1) as nat, fee, ingress);
            (seq![(ingress[idx], amount)].add(rest.0), rest.1)
        }
    }
}

/// With the fee at or below ten percent no candidate ever cancels: the
/// generated list holds exactly one spawn per candidate.
pub proof fn lemma_gen_spawns_full(seed: u64, pos: int, count: nat, fee: int, ingress: Seq<u32>)
    requires
        fee <= SCALE / 10,
        ingress.len() > 0,
    ensures
        gen_spawns(seed, pos, count, fee, ingress).0.len() == count,
    decreases count,
{
    if count > 0 {
        lemma_gen_spawns_full(seed, pos + 3, (count - 1) as nat, fee, ingress);
    }
}

/// Seedable Poisson traffic generator.
pub struct TrafficGenerator {
    pub rng: ChaCha8Rng,
    pub ingress_nodes: Vec<u32>,
    pub spawn_count: u32,
    pub tier_counts: [u32; 4],
    pub current_fee_rate: GoldGrams,
}

impl TrafficGenerator {
    /// Build from a seed and the ingress node list.
    pub fn new(seed: u64, ingress_nodes: Vec<u32>) -> (r: TrafficGenerator)
        ensures
            rng_seed_of(r.rng) == seed,
            rng_pos_of(r.rng) == 0,
            r.ingress_nodes == ingress_nodes,
            r.spawn_count == 0,
            r.current_fee_rate@ == 0,
    {
        TrafficGenerator {
            rng: rng_from_seed(seed),
            ingress_nodes,
            spawn_count: 0,
            tier_counts: [0, 0, 0, 0],
            current_fee_rate: GoldGrams::zero(),
        }
    }

    /// Update the fee rate used for demand destruction.
    pub fn set_fee_rate(&mut self, rate: GoldGrams)
        requires
            0 <= rate@ <= crate::governor::RATE_LIMIT,
        ensures
            final(self).current_fee_rate == rate,
            *final(self) == (TrafficGenerator {
                current_fee_rate: rate,
                ..*old(self)
            }),
    {
        self.current_fee_rate = rate;
    }

    /// Generate one tick of Poisson traffic: a list of `(node, amount)`
    /// spawns. Every amount falls inside its tier band (and therefore in
    /// the engine's accepted range) and every node comes from the
    /// ingress list. When the fee rate runs above 10%, candidates cancel
    /// with probability `min(5 * (rate - 0.1), 1)`.
    pub fn generate_tick(&mut self, lambda: GoldGrams) -> (r: Vec<(u32, GoldGrams)>)
        requires
            0 <= lambda@ <= 2_000_000_000_000_000_000,
            0 <= old(self).current_fee_rate@ <= crate::governor::RATE_LIMIT,
        ensures
            rng_seed_of(final(self).rng) == rng_seed_of(old(self).rng),
            final(self).ingress_nodes == old(self).ingress_nodes,
            forall|i: int|
                0 <= i < r@.len() ==> 0 < (#[trigger] r@[i]).1@ <= VALUE_LIMIT && old(
                    self,
                ).ingress_nodes@.contains(r@[i].0),
            (old(self).ingress_nodes@.len() == 0 || lambda@ <= 0) ==> r@.len() == 0
                && final(self).rng == old(self).rng,
            (old(self).ingress_nodes@.len() > 0 && lambda@ > 0) ==> ({
                let seed = rng_seed_of(old(self).rng);
                let chunks0 = lambda@ / (10 * (SCALE as int)) + 1;
                let pr = poisson_run(
                    seed,
                    rng_pos_of(old(self).rng),
                    exp_neg_spec(lambda@ / chunks0),
                    chunks0 as nat,
                    0,
                );
                let run = gen_spawns(
                    seed,
                    pr.1,
                    pr.0 as nat,
                    old(self).current_fee_rate@,
                    old(self).ingress_nodes@,
                );
                &&& r@.len() == run.0.len()
                &&& (forall|m: int|
                    0 <= m < r@.len() ==> (#[trigger] r@[m]).0 == run.0[m].0 && r@[m].1@
                        == run.0[m].1)
                &&& rng_pos_of(final(self).rng) == run.1
            }),
    {
        let mut spawns: Vec<(u32, GoldGrams)> = Vec::new();
        if self.ingress_nodes.len() == 0 || !lambda.gt(GoldGrams::zero()) {
            return spawns;
        }
        let ghost seed = rng_seed_of(self.rng);
        let n_packets = poisson_sample(&mut self.rng, lambda);
        let ghost fee0 = self.current_fee_rate@;
        let ghost ing0 = self.ingress_nodes@;
        let ghost full = gen_spawns(seed, rng_pos_of(self.rng), n_packets as nat, fee0, ing0);
        let mut i: u64 = 0;
        while i < n_packets
            invariant
                0 <= i <= n_packets,
                0 < self.ingress_nodes@.len(),
                0 <= self.current_fee_rate@ <= crate::governor::RATE_LIMIT,
                rng_seed_of(self.rng) == rng_seed_of(old(self).rng),
                self.ingress_nodes == old(self).ingress_nodes,
                forall|m: int|
                    0 <= m < spawns@.len() ==> 0 < (#[trigger] spawns@[m]).1@ <= VALUE_LIMIT
                        && self.ingress_nodes@.contains(spawns@[m].0),
                seed == rng_seed_of(self.rng),
                fee0 == self.current_fee_rate@,
                ing0 == self.ingress_nodes@,
                spawns@.len() <= i,
                ({
                    let rem = gen_spawns(
                        seed,
                        rng_pos_of(self.rng),
                        (n_packets - i) as nat,
                        fee0,
                        ing0,
                    );
                    &&& spawns@.len() + rem.0.len() == full.0.len()
                    &&& (forall|m: int|
                        0 <= m < rem.0.len() ==> #[trigger] rem.0[m] == full.0[spawns@.len() + m])
                    &&& rem.1 == full.1
                }),
                forall|m: int|
                    0 <= m < spawns@.len() ==> (#[trigger] spawns@[m]).0 == full.0[m].0
                        && spawns@[m].1@ == full.0[m].1,
            decreases n_packets - i,
        {
            let ghost posi = rng_pos_of(self.rng);
            let ghost remi = gen_spawns(seed, posi, (n_packets - i) as nat, fee0, ing0);
            // Demand destruction under hot fees.
            let tenth = GoldGrams::from_scaled(SCALE / 10);
            let mut cancel = false;
            if self.current_fee_rate.gt(tenth) {
                proof {
                    crate::fixed::lemma_mul_le(
                        self.current_fee_rate@ - SCALE / 10,
                        5 * SCALE,
                        crate::governor::RATE_LIMIT as int,
                        5 * SCALE,
                    );
                }
                let cancel_prob = self.current_fee_rate.sub(tenth).mul(
                    GoldGrams::from_scaled(5 * SCALE),
                ).min(GoldGrams::one());
                let roll = uniform01(&mut self.rng);
                if roll.lt(cancel_prob) {
                    cancel = true;
                }
            }
            if !cancel {
                let idx = uniform_index(&mut self.rng, self.ingress_nodes.len() as u64);
                let node_id = self.ingress_nodes[idx as usize];
                let tier = select_tier(&mut self.rng);
                let amount = tier_value(&mut self.rng, tier);
                self.tier_counts = bump_tier_count(self.tier_counts, tier);
                let ghost before = spawns@;
                spawns.push((node_id, amount));
                proof {
                    let rest = gen_spawns(seed, rng_pos_of(self.rng), (n_packets - i - 1) as nat,
                        fee0, ing0);
                    assert(remi.0 == seq![(ing0[(node_id) as int], amount@)].add(rest.0) || remi.0
                        == seq![(ing0[idx as int], amount@)].add(rest.0));
                    assert(remi.0[0] == (node_id, amount@));
                    assert(spawns@[before.len() as int] == (node_id, amount));
                    assert forall|m: int| 0 <= m < rest.0.len() implies #[trigger] rest.0[m]
                        == full.0[spawns@.len() + m] by {
                        assert(rest.0[m] == remi.0[m + 1]);
                        assert(remi.0[m + 1] == full.0[before.len() + m + 1]);
                    }
                }
                self.spawn_count = if self.spawn_count < u32::MAX {
                    self.spawn_count + 1
                } else {
                    u32::MAX
                };
            }
            i = i + 1;
        }
        spawns
    }

    /// The Poisson rate for a demand level and a mesh size:
    /// `demand * 5 * sqrt(nodes / 24)`.
    pub fn compute_lambda(demand: GoldGrams, nodes: u32) -> (r: GoldGrams)
        requires
            0 <= demand@ <= crate::engine::DEMAND_LIMIT,
            nodes <= crate::engine::MAX_NODES,
        ensures
            0 <= r@ <= 2_000_000_000_000_000_000,
            r@ == ((demand@ * 5) * crate::routing::isqrt_int(
                (((nodes as int) * (SCALE as int)) / 24) * (SCALE as int),
            )) / (SCALE as int),
    {
        let ratio = GoldGrams::from_int(nodes as i64).div_int(24);
        proof {
            assert(0 <= ratio@ <= 41_667 * SCALE);
            assert(0 <= ratio@ * SCALE <= 41_667 * SCALE * SCALE) by (nonlinear_arith)
                requires
                    0 <= ratio@ <= 41_667 * SCALE,
            ;
        }
        let root = crate::routing::isqrt_fixed((ratio.to_scaled() * SCALE) as u128);
        proof {
            assert(root@ <= 205_000_000_000_000) by (nonlinear_arith)
                requires
                    root@ * root@ <= 41_667 * SCALE * SCALE,
                    0 <= root@,
            ;
            crate::fixed::lemma_mul_le(
                demand@ * 5,
                root@,
                5 * crate::engine::DEMAND_LIMIT,
                205_000_000_000_000,
            );
            assert((demand@ * 5) * root@ / (SCALE as int) <= 2_000_000_000_000_000_000)
                by (nonlinear_arith)
                requires
                    0 <= (demand@ * 5) * root@ <= 5 * crate::engine::DEMAND_LIMIT
                        * 205_000_000_000_000,
            ;
        }
        demand.mul_int(5).mul(root)
    }
}

/// Count one tier selection.
fn bump_tier_count(counts: [u32; 4], tier: usize) -> (r: [u32; 4])
    requires
        tier < 4,
    ensures
        r@[tier as int] == if counts@[tier as int] < u32::MAX {
            (counts@[tier as int] + 1) as u32
        } else {
            u32::MAX
        },
        forall|j: int| 0 <= j < 4 && j != tier as int ==> r@[j] == #[trigger] counts@[j],
{
    if tier == 0 {
        [saturate_u32(counts[0]), counts[1], counts[2], counts[3]]
    } else if tier == 1 {
        [counts[0], saturate_u32(counts[1]), counts[2], counts[3]]
    } else if tier == 2 {
        [counts[0], counts[1], saturate_u32(counts[2]), counts[3]]
    } else {
        [counts[0], counts[1], counts[2], saturate_u32(counts[3])]
    }
}

/// Saturating increment.
fn saturate_u32(x: u32) -> (r: u32)
    ensures
        r == if x < u32::MAX {
            (x + 1) as u32
        } else {
            u32::MAX
        },
{
    if x < u32::MAX {
        x + 1
    } else {
        x
    }
}

} // verus!
