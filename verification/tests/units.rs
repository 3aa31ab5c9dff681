// Unit tests for the fixed-point core: tiers, conservation, fees,
// dissolution, the governor and the routers.

use arena_engine::conservation::ConservationError;
use arena_engine::conservation::ConservationLaw;
use arena_engine::conservation::compute_conservation;
use arena_engine::dissolution::DissolutionError;
use arena_engine::dissolution::GravityQualification;
use arena_engine::dissolution::dissolve;
use arena_engine::dissolution::is_eligible_secs;
use arena_engine::dissolution::is_eligible_ticks;
use arena_engine::engauge::NGaugeState;
use arena_engine::engauge::compute_organic_ratio;
use arena_engine::engauge::window_mean;
use arena_engine::fees::FeeDistributor;
use arena_engine::fees::FeeError;
use arena_engine::fixed::GoldGrams;
use arena_engine::fixed::SCALE;
use arena_engine::governor::FeeCaps;
use arena_engine::governor::GovernorPid;
use arena_engine::governor::NetworkMetrics;
use arena_engine::governor::PressureQuadrant;
use arena_engine::governor::TierCounts;
use arena_engine::governor::classify_pressure;
use arena_engine::governor::error_signal;
use arena_engine::governor::score_to_fee_adjustment;
use arena_engine::governor::split_rewards;
use arena_engine::routing::CapacityMetrics;
use arena_engine::routing::PacketRouter;
use arena_engine::routing::RoutingError;
use arena_engine::types::MarketTier;
use arena_engine::types::NodeId;
use arena_engine::types::PacketState;

fn gg(n: i64) -> GoldGrams {
    GoldGrams::from_int(n)
}

fn frac(milli: i128) -> GoldGrams {
    GoldGrams::from_scaled(milli * (SCALE / 1000))
}

// ---- market tiers ----------------------------------------------------

#[test]
fn tier_boundaries_inclusive_below() {
    assert_eq!(MarketTier::from_value(gg(10)), MarketTier::L0);
    assert_eq!(
        MarketTier::from_value(GoldGrams::from_scaled(10 * SCALE + SCALE / 100)),
        MarketTier::L1
    );
    assert_eq!(MarketTier::from_value(gg(1_000)), MarketTier::L1);
    assert_eq!(MarketTier::from_value(gg(1_001)), MarketTier::L2);
    assert_eq!(MarketTier::from_value(gg(100_000)), MarketTier::L2);
    assert_eq!(MarketTier::from_value(gg(100_001)), MarketTier::L3);
}

#[test]
fn tier_constants_match_bands() {
    assert_eq!(MarketTier::L0.ttl_ticks(), 100);
    assert_eq!(MarketTier::L1.ttl_ticks(), 500);
    assert_eq!(MarketTier::L2.ttl_ticks(), 2000);
    assert_eq!(MarketTier::L3.ttl_ticks(), 7000);
    assert_eq!(MarketTier::L0.hop_limit(), 10);
    assert_eq!(MarketTier::L1.hop_limit(), 20);
    assert_eq!(MarketTier::L2.hop_limit(), 40);
    assert_eq!(MarketTier::L3.hop_limit(), 80);
    assert_eq!(MarketTier::L0.max_ttl_secs(), 86_400);
    assert_eq!(MarketTier::L3.max_ttl_secs(), 15_552_000);
    assert!(!MarketTier::L0.description().is_empty());
}

#[test]
fn packet_states_terminal() {
    assert!(PacketState::Settled.is_terminal());
    assert!(PacketState::Refunded.is_terminal());
    assert!(PacketState::Dissolved.is_terminal());
    assert!(!PacketState::Minted.is_terminal());
    assert!(PacketState::Minted.is_active());
    assert!(PacketState::Held.is_active());
    assert!(!PacketState::Settled.is_active());
}

// ---- pressure quadrants (required surface) ---------------------------

#[test]
fn pressure_quadrant_descriptions_non_empty() {
    let quadrants = [
        PressureQuadrant::Bubble,
        PressureQuadrant::Crash,
        PressureQuadrant::Stagnation,
        PressureQuadrant::GoldenEra,
        PressureQuadrant::Bottleneck,
        PressureQuadrant::Vacuum,
    ];
    for q in &quadrants {
        assert!(
            !q.description().is_empty(),
            "{:?} description must not be empty",
            q
        );
    }
}

#[test]
fn pressure_quadrant_equality() {
    assert_eq!(PressureQuadrant::Bubble, PressureQuadrant::Bubble);
    assert_ne!(PressureQuadrant::Bubble, PressureQuadrant::Crash);
}

#[test]
fn quadrant_labels_and_statuses() {
    assert_eq!(PressureQuadrant::GoldenEra.label(), "D: GOLDEN ERA");
    assert_eq!(PressureQuadrant::Bubble.label(), "A: BUBBLE");
    assert_eq!(PressureQuadrant::Crash.status(), "UNDER-PEG: EMERGENCY BRAKE");
    assert_eq!(PressureQuadrant::GoldenEra.status(), "STABLE");
}

#[test]
fn pressure_classification() {
    // Near the peg, healthy flows.
    let e = error_signal(frac(84_500), frac(84_000));
    assert_eq!(
        classify_pressure(e, gg(1), gg(500_000), frac(1_500_000_000)),
        PressureQuadrant::GoldenEra
    );
    // Far over the peg with hot velocity.
    let e = error_signal(gg(110), gg(84));
    assert_eq!(
        classify_pressure(e, gg(2), gg(2_000_000), gg(5_000_000)),
        PressureQuadrant::Bubble
    );
    // Far under the peg.
    let e = error_signal(gg(64), gg(84));
    assert_eq!(
        classify_pressure(e, frac(500), gg(5_000_000), gg(100_000)),
        PressureQuadrant::Crash
    );
    // Quiet on every axis.
    let e = error_signal(gg(83), gg(84));
    assert_eq!(
        classify_pressure(e, frac(100), gg(50_000), gg(200_000)),
        PressureQuadrant::Stagnation
    );
    // Deep liquidity, little volume.
    let e = error_signal(frac(84_200), frac(84_000));
    assert_eq!(
        classify_pressure(e, frac(800), gg(50_000), gg(2_000_000)),
        PressureQuadrant::Vacuum
    );
}

#[test]
fn score_to_fee_boundaries() {
    assert_eq!(score_to_fee_adjustment(frac(9_000)).to_scaled(), -8_000_000_000);
    assert_eq!(score_to_fee_adjustment(frac(8_500)).to_scaled(), -8_000_000_000);
    assert_eq!(score_to_fee_adjustment(frac(7_500)).to_scaled(), -6_000_000_000);
    assert_eq!(score_to_fee_adjustment(frac(7_000)).to_scaled(), -4_000_000_000);
    assert_eq!(score_to_fee_adjustment(frac(5_500)).to_scaled(), -2_000_000_000);
    assert_eq!(score_to_fee_adjustment(frac(5_000)).to_scaled(), 0);
    assert_eq!(score_to_fee_adjustment(frac(4_000)).to_scaled(), 2_000_000_000);
    assert_eq!(score_to_fee_adjustment(frac(3_500)).to_scaled(), 5_000_000_000);
}

#[test]
fn reward_split() {
    let s = split_rewards(gg(100));
    assert_eq!(s.egress_share.to_scaled(), 80 * SCALE);
    assert_eq!(s.transit_share.to_scaled(), 20 * SCALE);
    let z = split_rewards(GoldGrams::zero());
    assert!(z.egress_share.is_zero());
    assert!(z.transit_share.is_zero());
}

fn metrics(
    gold: GoldGrams,
    target: GoldGrams,
    volatility: GoldGrams,
    volume: GoldGrams,
    liquidity: GoldGrams,
    velocity: GoldGrams,
) -> NetworkMetrics {
    NetworkMetrics {
        current_gold_price: gold,
        target_gold_price: target,
        market_volatility: volatility,
        transaction_volume: volume,
        liquidity_depth: liquidity,
        network_velocity: velocity,
        active_packets_by_tier: TierCounts::default(),
        in_transit_float: GoldGrams::zero(),
    }
}

#[test]
fn pid_integral_accumulates() {
    let mild = metrics(gg(85), gg(84), frac(100), gg(500_000), gg(1_500_000), gg(1));
    let mut g = GovernorPid::new();
    g.recalculate(&mild);
    let a1 = g.last_params().recommended_fee_adjustment;
    g.recalculate(&mild);
    let a2 = g.last_params().recommended_fee_adjustment;
    assert_ne!(
        a1.to_scaled(),
        a2.to_scaled(),
        "integral should cause drift between calls"
    );
}

#[test]
fn fee_adjustment_clamped() {
    let mut g = GovernorPid::new();
    g.recalculate(&metrics(gg(110), gg(84), frac(450), gg(2_000_000), gg(5_000_000), gg(2)));
    assert!(g.last_params().recommended_fee_adjustment.to_scaled() <= 20_000_000_000);
    let mut g2 = GovernorPid::new();
    g2.recalculate(&metrics(gg(84), gg(84), frac(10), gg(10_000_000), gg(10_000_000), gg(1)));
    assert!(g2.last_params().recommended_fee_adjustment.to_scaled() >= -20_000_000_000);
}

#[test]
fn last_params_default_before_recalculate() {
    let g = GovernorPid::new();
    let p = g.last_params();
    assert_eq!(p.pressure, PressureQuadrant::GoldenEra);
    assert_eq!(p.recommended_fee_adjustment.to_scaled(), 0);
}

#[test]
fn gold_deviation_zero_target() {
    assert_eq!(error_signal(gg(100), GoldGrams::zero()).to_scaled(), 0);
}

#[test]
fn fee_caps_default_values() {
    let caps = FeeCaps::default();
    assert_eq!(caps.l0.to_scaled(), 50_000_000_000, "L0 cap should be 5%");
    assert_eq!(caps.l1.to_scaled(), 20_000_000_000, "L1 cap should be 2%");
    assert_eq!(caps.l2.to_scaled(), 5_000_000_000, "L2 cap should be 0.5%");
    assert_eq!(caps.l3.to_scaled(), 1_000_000_000, "L3 cap should be 0.1%");
}

#[test]
fn fee_cap_clamps_excessive_fee() {
    let caps = FeeCaps::default();
    // L0 cap = 5% of 100 = 5, so a fee of 10 clamps to 5.
    let clamped = caps.clamp_fee(MarketTier::L0, gg(10), gg(100));
    assert_eq!(clamped.to_scaled(), 5 * SCALE);
}

#[test]
fn fee_cap_allows_under_cap() {
    let caps = FeeCaps::default();
    let result = caps.clamp_fee(MarketTier::L0, gg(3), gg(100));
    assert_eq!(result.to_scaled(), 3 * SCALE);
}

#[test]
fn fee_cap_l3_very_tight() {
    let caps = FeeCaps::default();
    // L3 cap = 0.1% of 1000 = 1.
    let clamped = caps.clamp_fee(MarketTier::L3, gg(5), gg(1_000));
    assert_eq!(clamped.to_scaled(), SCALE);
    let under = caps.clamp_fee(MarketTier::L3, frac(500), gg(1_000));
    assert_eq!(under.to_scaled(), SCALE / 2);
}

#[test]
fn fee_cap_lookup_all_tiers() {
    let caps = FeeCaps::default();
    assert_eq!(caps.cap_for(MarketTier::L0).to_scaled(), 50_000_000_000);
    assert_eq!(caps.cap_for(MarketTier::L1).to_scaled(), 20_000_000_000);
    assert_eq!(caps.cap_for(MarketTier::L2).to_scaled(), 5_000_000_000);
    assert_eq!(caps.cap_for(MarketTier::L3).to_scaled(), 1_000_000_000);
}

#[test]
fn calculate_fee_respects_caps() {
    // The effective fee never exceeds the tier's share of the value.
    let g = GovernorPid::new();
    let params = *g.last_params();
    let fee = g.calculate_fee(&params, MarketTier::L0, frac(100), gg(100));
    // 10% base rate on a 100-unit packet clamps at the 5% cap: 5 units.
    assert_eq!(fee.to_scaled(), 5 * SCALE);
    let under = g.calculate_fee(&params, MarketTier::L0, frac(1), gg(100));
    // 0.1% of 100 = 0.1: well under the cap.
    assert_eq!(under.to_scaled(), SCALE / 10);
}

// ---- conservation ----------------------------------------------------

#[test]
fn test_compute_conservation_exact() {
    let err = compute_conservation(gg(100), gg(50), gg(10), gg(5), gg(35));
    assert_eq!(err.to_scaled(), 0, "expected zero error for balanced values");
}

#[test]
fn test_compute_conservation_leakage() {
    let err = compute_conservation(gg(100), gg(50), gg(10), gg(5), gg(30));
    assert_eq!(err.to_scaled(), 5 * SCALE);
}

#[test]
fn test_default_threshold() {
    let law = ConservationLaw::default();
    assert_eq!(law.circuit_breaker_threshold.to_scaled(), SCALE / 1000);
    assert!(!law.circuit_breaker_tripped);
    assert_eq!(law.consecutive_violations, 0);
    assert_eq!(law.cumulative_error.to_scaled(), 0);
}

#[test]
fn test_settlement_balanced() {
    let mut law = ConservationLaw::default();
    let result = law.verify_settlement(gg(100), gg(95), gg(3), gg(2));
    assert!(result.balanced);
    assert_eq!(result.error.to_scaled(), 0);
    assert!(!result.circuit_breaker_tripped);
    assert_eq!(law.consecutive_violations, 0);
}

#[test]
fn test_settlement_violation() {
    let mut law = ConservationLaw::default();
    let result = law.verify_settlement(gg(100), gg(90), gg(3), gg(2));
    assert!(!result.balanced);
    assert_eq!(result.error.to_scaled(), 5 * SCALE, "error must be exactly 5");
    assert_eq!(law.consecutive_violations, 1);
    assert!(result.circuit_breaker_tripped);
}

#[test]
fn test_circuit_breaker_trips_on_cumulative() {
    let mut law = ConservationLaw::new(frac(100));
    // Violations of 0.05 each: not tripped until cumulative passes 0.1.
    law.verify_settlement(gg(100), frac(99_900), GoldGrams::zero(), frac(50));
    assert!(!law.is_tripped());
    law.verify_settlement(gg(100), frac(99_900), GoldGrams::zero(), frac(50));
    assert!(!law.is_tripped());
    law.verify_settlement(gg(100), frac(99_900), GoldGrams::zero(), frac(50));
    assert!(law.is_tripped());
}

#[test]
fn test_balanced_resets_consecutive() {
    let mut law = ConservationLaw::new(gg(100));
    law.verify_settlement(gg(100), gg(90), gg(3), gg(2));
    assert_eq!(law.consecutive_violations, 1);
    law.verify_settlement(gg(100), gg(95), gg(3), gg(2));
    assert_eq!(law.consecutive_violations, 0);
}

#[test]
fn test_reset_circuit_breaker() {
    let mut law = ConservationLaw::default();
    law.verify_settlement(gg(100), gg(80), gg(3), gg(2));
    assert!(law.is_tripped());
    law.reset_circuit_breaker();
    assert!(!law.is_tripped());
    assert_eq!(law.cumulative_error.to_scaled(), 0);
    assert_eq!(law.consecutive_violations, 0);
}

#[test]
fn test_verify_tick_balanced() {
    let mut law = ConservationLaw::default();
    let result = law.verify_tick(gg(1_000), gg(500), gg(100), gg(50), gg(350));
    assert!(result.balanced);
    assert!(!result.circuit_breaker_tripped);
}

#[test]
fn test_verify_tick_violation() {
    let mut law = ConservationLaw::default();
    let result = law.verify_tick(gg(1_000), gg(500), gg(100), gg(50), gg(300));
    assert!(!result.balanced);
    assert_eq!(result.error.to_scaled(), 50 * SCALE);
    assert!(result.circuit_breaker_tripped);
}

// ---- dissolution -----------------------------------------------------

fn qualified(node_id: u32) -> GravityQualification {
    GravityQualification {
        node_id,
        upi_active: true,
        engauge_active: true,
        kyc_attested: true,
        caesar_active: true,
        demonstrable_capacity: true,
        active_routing_current_epoch: true,
    }
}

fn unqualified(node_id: u32) -> GravityQualification {
    GravityQualification {
        kyc_attested: false,
        ..qualified(node_id)
    }
}

#[test]
fn test_all_qualified_equal_distribution() {
    let nodes = vec![qualified(1), qualified(2), qualified(3)];
    let result = dissolve(gg(300), &nodes, &vec![]).unwrap();
    assert_eq!(result.total_dissolved.to_scaled(), 300 * SCALE);
    assert_eq!(result.distributions.len(), 3);
    for dist in &result.distributions {
        assert_eq!(dist.amount.to_scaled(), 100 * SCALE);
        assert!(!dist.held_shards);
    }
}

#[test]
fn test_shard_holders_double_weight() {
    // Node 1 holds shards (weight 2), node 2 does not (weight 1).
    let nodes = vec![qualified(1), qualified(2)];
    let result = dissolve(gg(300), &nodes, &vec![1]).unwrap();
    assert_eq!(result.distributions.len(), 2);
    let d1 = result.distributions.iter().find(|d| d.node_id == 1).unwrap();
    let d2 = result.distributions.iter().find(|d| d.node_id == 2).unwrap();
    assert_eq!(d1.amount.to_scaled(), 200 * SCALE);
    assert!(d1.held_shards);
    assert_eq!(d2.amount.to_scaled(), 100 * SCALE);
    assert!(!d2.held_shards);
}

#[test]
fn test_no_qualified_nodes() {
    let nodes = vec![unqualified(1), unqualified(2), unqualified(3)];
    let result = dissolve(gg(300), &nodes, &vec![]);
    assert_eq!(result, Err(DissolutionError::NoQualifiedNodes));
}

#[test]
fn test_partial_qualification() {
    let nodes = vec![qualified(1), unqualified(2), qualified(3)];
    let result = dissolve(gg(200), &nodes, &vec![]).unwrap();
    assert_eq!(result.distributions.len(), 2);
    let ids: Vec<u32> = result.distributions.iter().map(|d| d.node_id).collect();
    assert!(ids.contains(&1));
    assert!(ids.contains(&3));
    assert!(!ids.contains(&2));
    for dist in &result.distributions {
        assert_eq!(dist.amount.to_scaled(), 100 * SCALE);
    }
}

#[test]
fn test_zero_residual() {
    let nodes = vec![qualified(1), qualified(2)];
    let result = dissolve(GoldGrams::zero(), &nodes, &vec![]);
    assert_eq!(result, Err(DissolutionError::ZeroResidualValue));
}

#[test]
fn test_eligibility_secs() {
    assert!(!is_eligible_secs(0));
    assert!(!is_eligible_secs(7775999));
    assert!(is_eligible_secs(7776000));
    assert!(is_eligible_secs(10000000));
}

#[test]
fn test_eligibility_ticks() {
    assert!(!is_eligible_ticks(0));
    assert!(!is_eligible_ticks(4999));
    assert!(is_eligible_ticks(5000));
    assert!(is_eligible_ticks(10_000));
}

#[test]
fn test_single_qualified_node() {
    let nodes = vec![qualified(42)];
    let result = dissolve(gg(500), &nodes, &vec![]).unwrap();
    assert_eq!(result.distributions.len(), 1);
    assert_eq!(result.distributions[0].node_id, 42);
    assert_eq!(result.distributions[0].amount.to_scaled(), 500 * SCALE);
}

// ---- fee distribution ------------------------------------------------

fn nid(s: &str) -> NodeId {
    NodeId(s.to_string())
}

#[test]
fn distribute_with_transit_nodes() {
    let dist = FeeDistributor::default();
    let result = dist
        .distribute_fee(
            gg(10),
            nid("egress"),
            &vec![(nid("relay-1"), 500), (nid("relay-2"), 500)],
        )
        .unwrap();
    assert_eq!(result.egress_payment.amount.to_scaled(), 8 * SCALE);
    assert_eq!(result.transit_payments.len(), 2);
    assert_eq!(result.transit_payments[0].amount.to_scaled(), SCALE);
    assert_eq!(result.transit_payments[1].amount.to_scaled(), SCALE);
}

#[test]
fn distribute_no_transit_nodes() {
    let dist = FeeDistributor::default();
    let result = dist.distribute_fee(gg(10), nid("egress"), &vec![]).unwrap();
    assert_eq!(result.egress_payment.amount.to_scaled(), 10 * SCALE);
    assert!(result.transit_payments.is_empty());
}

#[test]
fn distribute_weighted_by_bytes() {
    let dist = FeeDistributor::default();
    let result = dist
        .distribute_fee(
            gg(100),
            nid("egress"),
            &vec![(nid("relay-1"), 750), (nid("relay-2"), 250)],
        )
        .unwrap();
    // Transit pool 20: 15 and 5 by byte share, the rest to egress.
    assert_eq!(result.egress_payment.amount.to_scaled(), 80 * SCALE);
    assert_eq!(result.transit_payments[0].amount.to_scaled(), 15 * SCALE);
    assert_eq!(result.transit_payments[1].amount.to_scaled(), 5 * SCALE);
}

#[test]
fn distribute_zero_fee_error() {
    let dist = FeeDistributor::default();
    let err = dist.distribute_fee(GoldGrams::zero(), nid("egress"), &vec![]);
    assert!(matches!(err, Err(FeeError::ZeroFee)));
}

#[test]
fn distribute_single_transit_node() {
    let dist = FeeDistributor::default();
    let result = dist
        .distribute_fee(gg(10), nid("egress"), &vec![(nid("relay-1"), 1000)])
        .unwrap();
    assert_eq!(result.egress_payment.amount.to_scaled(), 8 * SCALE);
    assert_eq!(result.transit_payments.len(), 1);
    assert_eq!(result.transit_payments[0].amount.to_scaled(), 2 * SCALE);
}

#[test]
fn custom_split_ratio() {
    let dist = FeeDistributor {
        egress_share: frac(700),
        transit_share: frac(300),
    };
    let result = dist
        .distribute_fee(gg(100), nid("egress"), &vec![(nid("relay-1"), 100)])
        .unwrap();
    assert_eq!(result.egress_payment.amount.to_scaled(), 70 * SCALE);
    assert_eq!(result.transit_payments[0].amount.to_scaled(), 30 * SCALE);
}

#[test]
fn distribution_sums_exactly() {
    // The payments always reconstruct the fee, crumbs included.
    let dist = FeeDistributor::default();
    let result = dist
        .distribute_fee(
            GoldGrams::from_scaled(10 * SCALE + 7),
            nid("egress"),
            &vec![(nid("a"), 3), (nid("b"), 7), (nid("c"), 11)],
        )
        .unwrap();
    let total: i128 = result.egress_payment.amount.to_scaled()
        + result
            .transit_payments
            .iter()
            .map(|p| p.amount.to_scaled())
            .sum::<i128>();
    assert_eq!(total, 10 * SCALE + 7);
}

// ---- gauge tracking --------------------------------------------------

#[test]
fn test_new_state_defaults() {
    let state = NGaugeState::new();
    assert_eq!(state.organic_ratio().to_scaled(), SCALE);
    assert!(!state.should_increase_fees());
    assert!(state.should_relax_fees());
}

#[test]
fn test_low_velocity_always_organic() {
    let mut state = NGaugeState::new();
    state.update(frac(10), gg(50));
    assert_eq!(state.organic_ratio().to_scaled(), SCALE);
    assert!(!state.speculative_detected);
    assert!(state.should_relax_fees());
    assert!(!state.should_increase_fees());
}

#[test]
fn test_high_velocity_low_activity_is_speculative() {
    let mut state = NGaugeState::new();
    for _ in 0..5 {
        state.update(frac(10), gg(500));
    }
    // Mean activity 0.01 over denominator 0.5: ratio 0.02 < 0.3.
    assert!(state.organic_ratio().to_scaled() < 300_000_000_000);
    assert!(state.speculative_detected);
    assert!(state.should_increase_fees());
    assert!(!state.should_relax_fees());
}

#[test]
fn test_high_velocity_high_activity_is_organic() {
    let mut state = NGaugeState::new();
    for _ in 0..5 {
        state.update(frac(800), gg(200));
    }
    // Mean activity 0.8 over denominator 0.2: ratio 4 > 0.3.
    assert!(state.organic_ratio().to_scaled() > 300_000_000_000);
    assert!(!state.speculative_detected);
    assert!(state.should_relax_fees());
}

#[test]
fn test_rolling_window_trims_to_max() {
    let mut state = NGaugeState::new();
    for i in 0..30 {
        state.update(gg(i), gg(i));
    }
    assert_eq!(state.activity_window.len(), 20);
    assert_eq!(state.velocity_window.len(), 20);
    assert_eq!(state.activity_window[0].to_scaled(), 10 * SCALE);
    assert_eq!(state.velocity_window[0].to_scaled(), 10 * SCALE);
}

#[test]
fn test_transition_from_speculative_to_organic() {
    let mut state = NGaugeState::new();
    for _ in 0..20 {
        state.update(frac(10), gg(500));
    }
    assert!(state.should_increase_fees());
    for _ in 0..20 {
        state.update(gg(1), gg(200));
    }
    assert!(state.should_relax_fees());
    assert!(!state.should_increase_fees());
}

#[test]
fn test_compute_organic_ratio_free_fn_high_velocity() {
    let ratio = compute_organic_ratio(frac(500), gg(500));
    assert_eq!(ratio.to_scaled(), SCALE);
}

#[test]
fn test_compute_organic_ratio_free_fn_low_velocity() {
    let ratio = compute_organic_ratio(frac(10), gg(50));
    assert_eq!(ratio.to_scaled(), SCALE);
}

#[test]
fn test_window_mean_empty() {
    assert_eq!(window_mean(&vec![]).to_scaled(), 0);
}

#[test]
fn test_window_mean_values() {
    let window = vec![gg(2), gg(4), gg(6)];
    assert_eq!(window_mean(&window).to_scaled(), 4 * SCALE);
}

#[test]
fn test_default_trait() {
    let state = NGaugeState::default();
    assert_eq!(state.organic_ratio().to_scaled(), SCALE);
}

#[test]
fn demurrage_rate_decays_and_expires() {
    let rate = MarketTier::L0.default_demurrage_rate();
    assert_eq!(rate.max_ttl_secs, 86_400);
    // Past the time-to-live the remainder is zero.
    assert_eq!(rate.calculate_remaining(gg(100), 86_400).to_scaled(), 0);
    // At time zero nothing has decayed.
    let fresh = rate.calculate_remaining(gg(100), 0);
    assert_eq!(fresh.to_scaled(), 100 * SCALE);
    // After a day's worth of seconds less one, some value has decayed
    // but most remains.
    let later = rate.calculate_remaining(gg(100), 86_399);
    assert!(later.to_scaled() > 0);
    assert!(later.to_scaled() < 100 * SCALE);
}

// ---- capacity router -------------------------------------------------

fn make_metrics(id: &str, bw: i64, buffer: u64, latency: i64, active: u64) -> CapacityMetrics {
    CapacityMetrics {
        node_id: nid(id),
        available_bandwidth_mbps: gg(bw),
        buffer_capacity_packets: buffer,
        avg_latency_ms: gg(latency),
        active_packet_count: active,
    }
}

#[test]
fn route_selects_best_candidate() {
    let router = PacketRouter::default();
    let candidates = vec![
        make_metrics("low", 100, 50, 20, 5),
        make_metrics("best", 500, 200, 5, 2),
        make_metrics("mid", 300, 100, 10, 10),
    ];
    let result = router.find_route(&candidates, MarketTier::L0).unwrap();
    assert_eq!(result.next_hop.0, "best");
}

#[test]
fn route_no_candidates_error() {
    let router = PacketRouter::default();
    let err = router.find_route(&vec![], MarketTier::L0);
    assert!(matches!(err, Err(RoutingError::NoCandidates)));
}

#[test]
fn route_first_at_maximum_wins() {
    let router = PacketRouter::default();
    let candidates = vec![
        make_metrics("first", 300, 100, 10, 10),
        make_metrics("twin", 300, 100, 10, 10),
    ];
    let result = router.find_route(&candidates, MarketTier::L1).unwrap();
    assert_eq!(result.next_hop.0, "first");
}

#[test]
fn conservation_error_variants() {
    let mut law = ConservationLaw::default();
    // A balanced settlement reports no error.
    let ok = law.verify_settlement(gg(100), gg(95), gg(3), gg(2));
    assert_eq!(ok.as_error(), Ok(()));
    // A single imbalance beyond tolerance, under a roomy threshold,
    // reports SettlementImbalance without tripping the breaker.
    let mut roomy = ConservationLaw::new(gg(1000));
    let bad = roomy.verify_settlement(gg(100), gg(90), gg(3), gg(2));
    assert_eq!(bad.as_error(), Err(ConservationError::SettlementImbalance));
    // Accumulated error past the threshold reports CircuitBreakerTripped.
    let mut strict = ConservationLaw::new(frac(100));
    strict.verify_settlement(gg(100), gg(90), gg(3), gg(2));
    let tripped = strict.verify_settlement(gg(100), gg(90), gg(3), gg(2));
    assert_eq!(tripped.as_error(), Err(ConservationError::CircuitBreakerTripped));
}
