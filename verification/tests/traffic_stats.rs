// Statistical tests of the seeded traffic generator and the Monte-Carlo
// aggregation helpers.

use arena_engine::fixed::GoldGrams;
use arena_engine::fixed::SCALE;
use arena_engine::montecarlo::ConservationTracker;
use arena_engine::montecarlo::PassCriteria;
use arena_engine::montecarlo::PegTracker;
use arena_engine::montecarlo::RunOutcome;
use arena_engine::montecarlo::Stats;
use arena_engine::montecarlo::evaluate_run;
use arena_engine::traffic::TrafficGenerator;
use arena_engine::traffic::poisson_sample;
use arena_engine::traffic::select_tier;

fn gg(n: i64) -> GoldGrams {
    GoldGrams::from_int(n)
}

#[test]
fn test_poisson_mean() {
    // With a rate of 10, the empirical mean over 10000 samples stays
    // within 0.5 of the rate.
    let mut gen = TrafficGenerator::new(42, vec![0]);
    let lambda = gg(10);
    let n: u64 = 10_000;
    let mut sum: u64 = 0;
    for _ in 0..n {
        sum += poisson_sample(&mut gen.rng, lambda);
    }
    let mean_milli = (sum as i128) * 1_000 / (n as i128);
    assert!(
        (mean_milli - 10_000).abs() < 500,
        "Poisson mean {} millis far from the rate",
        mean_milli
    );
}

#[test]
fn test_tier_distribution() {
    // At 10000 samples the tier split stays within a few percent of the
    // 60/25/12/3 power law.
    let mut gen = TrafficGenerator::new(42, vec![0]);
    let n = 10_000u32;
    let mut counts = [0u32; 4];
    for _ in 0..n {
        counts[select_tier(&mut gen.rng)] += 1;
    }
    let pct = |c: u32| (c as i64) * 100 / (n as i64);
    assert!((pct(counts[0]) - 60).abs() <= 3, "L0 share {}", pct(counts[0]));
    assert!((pct(counts[1]) - 25).abs() <= 3, "L1 share {}", pct(counts[1]));
    assert!((pct(counts[2]) - 12).abs() <= 3, "L2 share {}", pct(counts[2]));
    assert!((pct(counts[3]) - 3).abs() <= 2, "L3 share {}", pct(counts[3]));
}

#[test]
fn generator_is_deterministic() {
    let mut a = TrafficGenerator::new(7, vec![0, 4, 8]);
    let mut b = TrafficGenerator::new(7, vec![0, 4, 8]);
    for _ in 0..50 {
        let sa = a.generate_tick(gg(5));
        let sb = b.generate_tick(gg(5));
        assert_eq!(sa.len(), sb.len());
        for (x, y) in sa.iter().zip(sb.iter()) {
            assert_eq!(x.0, y.0);
            assert_eq!(x.1.to_scaled(), y.1.to_scaled());
        }
    }
}

#[test]
fn generator_respects_tier_bands() {
    let mut gen = TrafficGenerator::new(3, vec![0]);
    for _ in 0..200 {
        for (node, amount) in gen.generate_tick(gg(3)) {
            assert_eq!(node, 0);
            let raw = amount.to_scaled();
            assert!(raw >= SCALE / 2, "value below the retail floor");
            assert!(raw < 500_000 * SCALE, "value above the sovereign band");
        }
    }
}

#[test]
fn demand_destruction_cancels_under_hot_fees() {
    let mut cold = TrafficGenerator::new(11, vec![0]);
    let mut hot = TrafficGenerator::new(11, vec![0]);
    hot.set_fee_rate(GoldGrams::from_scaled(SCALE / 2));
    let mut cold_count = 0usize;
    let mut hot_count = 0usize;
    for _ in 0..200 {
        cold_count += cold.generate_tick(gg(5)).len();
        hot_count += hot.generate_tick(gg(5)).len();
    }
    // A 50% fee cancels every candidate: min(5 * (0.5 - 0.1), 1) = 1.
    assert_eq!(hot_count, 0);
    assert!(cold_count > 0);
}

#[test]
fn compute_lambda_scales_with_mesh() {
    let small = TrafficGenerator::compute_lambda(GoldGrams::from_scaled(SCALE / 2), 24);
    // demand 0.5, 24 nodes: 0.5 * 5 * sqrt(1) = 2.5.
    assert_eq!(small.to_scaled(), 5 * SCALE / 2);
    let large = TrafficGenerator::compute_lambda(GoldGrams::from_scaled(SCALE / 2), 96);
    // Four times the nodes doubles the rate.
    assert_eq!(large.to_scaled(), 5 * SCALE);
}

#[test]
fn stats_aggregation() {
    let samples = vec![gg(2), gg(4), gg(6), gg(8)];
    let stats = Stats::from_samples(&samples);
    assert_eq!(stats.n, 4);
    assert_eq!(stats.mean.to_scaled(), 5 * SCALE);
    assert_eq!(stats.min.to_scaled(), 2 * SCALE);
    assert_eq!(stats.max.to_scaled(), 8 * SCALE);
    assert!(stats.ci_lower.to_scaled() <= 5 * SCALE);
    assert!(stats.ci_upper.to_scaled() >= 5 * SCALE);
    // Sample standard deviation of 2,4,6,8 is sqrt(20/3), about 2.582.
    let sd = stats.std_dev.to_scaled();
    assert!(sd > 2_581_000_000_000 && sd < 2_583_000_000_000, "std dev {}", sd);
}

#[test]
fn stats_empty_and_single() {
    let empty: Vec<GoldGrams> = vec![];
    let stats = Stats::from_samples(&empty);
    assert_eq!(stats.n, 0);
    assert_eq!(stats.mean.to_scaled(), 0);
    let one = vec![gg(7)];
    let stats1 = Stats::from_samples(&one);
    assert_eq!(stats1.n, 1);
    assert_eq!(stats1.mean.to_scaled(), 7 * SCALE);
    assert_eq!(stats1.std_dev.to_scaled(), 0);
}

#[test]
fn peg_tracker_counts_band() {
    let mut peg = PegTracker::new();
    peg.record_tick(GoldGrams::from_scaled(SCALE / 10));
    peg.record_tick(GoldGrams::from_scaled(SCALE / 2));
    peg.record_tick(GoldGrams::from_scaled(SCALE / 10));
    peg.record_tick(GoldGrams::from_scaled(SCALE / 10));
    assert_eq!(peg.total_ticks, 4);
    assert_eq!(peg.ticks_within_band, 3);
    assert_eq!(peg.elasticity_pct().to_scaled(), 75 * SCALE);
    assert_eq!(peg.max_deviation.to_scaled(), SCALE / 2);
}

#[test]
fn conservation_tracker_normalizes() {
    let mut tracker = ConservationTracker::new();
    tracker.record_tick(GoldGrams::zero(), gg(1_000));
    assert_eq!(tracker.normalized_error().to_scaled(), 0);
    tracker.record_tick(gg(5), gg(1_000));
    // 5 over 1000 is 0.005.
    assert_eq!(tracker.normalized_error().to_scaled(), 5 * SCALE / 1000);
    assert_eq!(tracker.raw_error().to_scaled(), 5 * SCALE);
}

#[test]
fn run_evaluation_gates() {
    let criteria = PassCriteria {
        max_conservation_error: gg(1),
        min_settlement_rate: Some(gg(50)),
        max_fee_cap_breaches: Some(0),
        require_settlement_finality: false,
        require_cost_certainty: true,
        require_audit_trail: true,
        require_zero_stuck: false,
        max_held_at_end: Some(10),
    };
    let good = RunOutcome {
        conservation_error: GoldGrams::zero(),
        settlement_count: 12,
        settlement_rate_pct: gg(80),
        fee_cap_breaches: 0,
        settlement_finality: true,
        cost_certainty: true,
        audit_trail: true,
        held_at_end: 2,
    };
    assert!(evaluate_run(&criteria, &good));
    let leaky = RunOutcome {
        conservation_error: gg(2),
        ..good
    };
    assert!(!evaluate_run(&criteria, &leaky));
    let breached = RunOutcome {
        fee_cap_breaches: 1,
        ..good
    };
    assert!(!evaluate_run(&criteria, &breached));
    let stuck = RunOutcome {
        held_at_end: 11,
        ..good
    };
    assert!(!evaluate_run(&criteria, &stuck));
}
