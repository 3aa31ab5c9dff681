// End-to-end engine tests: settlement, liquidity safety, route healing,
// peg swings, loop decay, reset, and determinism.

use arena_engine::engine::ArenaSimulation;
use arena_engine::fixed::GoldGrams;
use arena_engine::fixed::SCALE;
use arena_engine::types::MarketTier;

fn gg(n: i64) -> GoldGrams {
    GoldGrams::from_int(n)
}

#[test]
fn test_egress_infinite_sink_bug_fixed() {
    let mut sim = ArenaSimulation::new(4);
    sim.set_node_crypto(1, GoldGrams::zero());
    sim.spawn_packet(0, gg(100));
    for _ in 0..20 {
        sim.tick_core();
    }
    let output = sim.get_total_output();
    assert_eq!(output.to_scaled(), 0, "Egress settled without liquidity!");
}

#[test]
fn test_egress_liquidity_success() {
    let mut sim = ArenaSimulation::new(4);
    sim.set_node_crypto(1, gg(200));
    sim.spawn_packet(0, gg(100));
    for _ in 0..20 {
        sim.tick_core();
    }
    let output = sim.get_total_output();
    assert!(
        output.to_scaled() > 0,
        "Egress failed to settle with sufficient liquidity!"
    );
    let leak = sim.get_total_value_leaked();
    assert!(leak.to_scaled() < SCALE / 1000, "Leaky pipe! Value conservation violated.");
}

#[test]
fn test_bank_run_resilience() {
    let mut sim = ArenaSimulation::new(24);
    for i in 0..24u32 {
        if i % 4 == 1 {
            sim.set_node_crypto(i, GoldGrams::from_scaled(10_000 * SCALE / 6));
        }
    }
    for i in 0..500u32 {
        let ingress_id = (i * 4) % 24;
        if ingress_id % 4 == 0 {
            sim.spawn_packet(ingress_id, gg(200));
        }
    }
    for _ in 0..200 {
        sim.tick_core();
    }
    let leak = sim.get_total_value_leaked();
    assert!(leak.to_scaled() < SCALE, "Conservation violated! Leak: {:?}", leak);
    let output = sim.get_total_output();
    assert!(output.to_scaled() > 0, "No settlements occurred during Bank Run");
}

#[test]
fn test_route_healing() {
    let mut sim = ArenaSimulation::new(24);
    for i in 0..100u32 {
        let ingress_id = (i * 4) % 24;
        if ingress_id % 4 == 0 {
            sim.spawn_packet(ingress_id, gg(100));
        }
    }
    for _ in 0..20 {
        sim.tick_core();
    }
    sim.kill_node(2);
    for _ in 0..300 {
        sim.tick_core();
    }
    let leak = sim.get_total_value_leaked();
    assert!(
        leak.to_scaled() < SCALE,
        "Value conservation violated after node kill! Leak: {:?}",
        leak
    );
    let output = sim.get_total_output();
    assert!(output.to_scaled() > 0, "No settlements after route healing");
}

#[test]
fn test_sybil_trust_penalty() {
    let mut sim = ArenaSimulation::new(24);
    sim.set_node_crypto(1, GoldGrams::zero());
    sim.set_node_crypto(5, GoldGrams::zero());
    sim.set_node_crypto(9, GoldGrams::zero());
    sim.set_node_crypto(13, gg(50_000));
    sim.set_node_crypto(17, gg(50_000));
    sim.set_node_crypto(21, gg(50_000));
    for i in 0..50u32 {
        let ingress_id = (i * 4) % 24;
        if ingress_id % 4 == 0 {
            sim.spawn_packet(ingress_id, gg(100));
        }
    }
    for _ in 0..300 {
        sim.tick_core();
    }
    let leak = sim.get_total_value_leaked();
    assert!(
        leak.to_scaled() < SCALE,
        "Conservation violated during Sybil test! Leak: {:?}",
        leak
    );
    let output = sim.get_total_output();
    assert!(output.to_scaled() > 0, "No settlements despite honest Egress nodes");
}

#[test]
fn test_demurrage_loop_decay() {
    let mut sim = ArenaSimulation::new(4);
    sim.set_node_crypto(1, GoldGrams::zero());
    sim.spawn_packet(0, gg(1_000));
    for _ in 0..300 {
        sim.tick_core();
    }
    let leak = sim.get_total_value_leaked();
    assert!(leak.to_scaled() < SCALE, "Conservation violated in loop! Leak: {:?}", leak);
    let output = sim.get_total_output();
    assert!(output.to_scaled() > 0, "Packet never reverted from orbit");
    assert!(
        output.to_scaled() < 1_000 * SCALE,
        "No demurrage applied to orbiting packet"
    );
}

#[test]
fn test_peg_elasticity() {
    let mut sim = ArenaSimulation::new(24);
    for _ in 0..100 {
        sim.tick_core();
    }
    sim.set_gold_price(gg(3_900));
    for _ in 0..100 {
        sim.tick_core();
    }
    sim.set_gold_price(gg(1_950));
    for _ in 0..100 {
        sim.tick_core();
    }
    let leak = sim.get_total_value_leaked();
    assert!(
        leak.to_scaled() < 5 * SCALE,
        "Conservation violated during price swings! Leak: {:?}",
        leak
    );
    let output = sim.get_total_output();
    assert!(output.to_scaled() > 0, "System froze during price volatility");
}

#[test]
fn test_run_batch_and_reset() {
    let mut sim = ArenaSimulation::new(24);
    sim.spawn_packet(0, gg(500));
    sim.run_batch(50);
    let output = sim.get_total_output();
    assert!(output.to_scaled() >= 0, "run_batch produced negative output");
    sim.reset();
    let output_after_reset = sim.get_total_output();
    assert_eq!(output_after_reset.to_scaled(), 0, "Reset did not clear output");
}

#[test]
fn test_organic_ratio_computed() {
    let mut sim = ArenaSimulation::new(24);
    sim.set_demand_factor(GoldGrams::one());
    for _ in 0..100 {
        sim.tick_core();
    }
    let result = sim.tick_core();
    assert!(
        result.state.organic_ratio.to_scaled() >= 0,
        "organic_ratio must be a well-formed value"
    );
}

#[test]
fn test_surge_multiplier_under_crunch() {
    let mut sim = ArenaSimulation::new(24);
    for i in 0..24u32 {
        if i % 4 == 1 {
            sim.set_node_crypto(i, GoldGrams::from_scaled(SCALE / 10));
        }
    }
    for i in 0..200u32 {
        let ingress_id = (i * 4) % 24;
        if ingress_id % 4 == 0 {
            sim.spawn_packet(ingress_id, gg(1_000));
        }
    }
    let result = sim.tick_core();
    assert!(
        result.state.surge_multiplier.to_scaled() >= SCALE,
        "surge_multiplier should be at least 1"
    );
}

#[test]
fn test_variable_latency() {
    let mut sim = ArenaSimulation::new(24);
    sim.spawn_packet(0, gg(100));
    sim.tick_core();
    sim.tick_core();
    let leak = sim.get_total_value_leaked();
    assert!(leak.to_scaled() < SCALE, "Leak after variable latency: {:?}", leak);
}

#[test]
fn test_rolling_volatility_stability() {
    let mut sim = ArenaSimulation::new(24);
    for _ in 0..30 {
        sim.tick_core();
    }
    let result = sim.tick_core();
    assert!(
        result.state.volatility.to_scaled() < SCALE / 100,
        "Volatility should be near 0 for constant price"
    );
    sim.set_gold_price(gg(5_000));
    for _ in 0..5 {
        sim.tick_core();
    }
    let result2 = sim.tick_core();
    assert!(
        result2.state.volatility.to_scaled() > 0,
        "Volatility should increase after price swing"
    );
}

#[test]
fn test_node_pressure_computed() {
    let mut sim = ArenaSimulation::new(24);
    for _ in 0..20 {
        sim.spawn_packet(0, gg(100));
    }
    for _ in 0..5 {
        sim.tick_core();
    }
    let has_nonzero_pressure = (0..24).any(|i| sim.get_node_pressure(i).to_scaled() > 0);
    assert!(
        has_nonzero_pressure,
        "At least one node should have non-zero pressure after spawning packets"
    );
}

#[test]
fn conservation_exact_every_tick() {
    // The engine's central law: the published leak is exactly zero after
    // every tick, whatever happens in between.
    let mut sim = ArenaSimulation::new(24);
    for i in 0..40u32 {
        let ingress_id = (i * 4) % 24;
        if ingress_id % 4 == 0 {
            sim.spawn_packet(ingress_id, gg(250));
        }
    }
    for t in 0..120 {
        let result = sim.tick_core();
        assert_eq!(
            result.state.total_value_leaked.to_scaled(),
            0,
            "conservation leak at tick {}",
            t
        );
        assert!(!result.state.circuit_breaker_active);
    }
}

#[test]
fn tier_fee_rates_never_cross_caps() {
    let caps: [i128; 4] = [
        50_000_000_000,
        20_000_000_000,
        5_000_000_000,
        1_000_000_000,
    ];
    let mut sim = ArenaSimulation::new(24);
    sim.set_panic_level(GoldGrams::from_scaled(9 * SCALE / 10));
    sim.set_demand_factor(GoldGrams::one());
    for _ in 0..100 {
        let result = sim.tick_core();
        for t in 0..4 {
            assert!(
                result.state.tier_fee_rates[t].to_scaled() <= caps[t],
                "tier {} rate crossed its cap",
                t
            );
        }
    }
}

#[test]
fn inventories_never_negative() {
    let mut sim = ArenaSimulation::new(12);
    for i in 0..60u32 {
        let ingress_id = (i * 4) % 12;
        if ingress_id % 4 == 0 {
            sim.spawn_packet(ingress_id, gg(90));
        }
    }
    for _ in 0..80 {
        let result = sim.tick_core();
        for upd in &result.node_updates {
            assert!(upd.inventory_crypto.to_scaled() >= 0);
            assert!(upd.inventory_fiat.to_scaled() >= 0);
        }
    }
}

#[test]
fn packet_values_within_original() {
    let mut sim = ArenaSimulation::new(8);
    for i in 0..10u32 {
        sim.spawn_packet(0, gg(100 + i as i64));
    }
    for _ in 0..60 {
        let result = sim.tick_core();
        for p in &result.active_packets {
            assert!(p.current_value.to_scaled() >= 0);
            assert!(p.current_value.to_scaled() <= p.original_value.to_scaled());
            assert!(
                p.fees_consumed.to_scaled() <= p.fee_budget.to_scaled(),
                "fees exceeded budget"
            );
            assert!(!p.route_history.is_empty(), "audit trail lost");
        }
    }
}

#[test]
fn reset_matches_fresh_engine() {
    let mut sim = ArenaSimulation::new(16);
    sim.spawn_packet(0, gg(400));
    sim.set_gold_price(gg(3_000));
    for _ in 0..40 {
        sim.tick_core();
    }
    sim.reset();
    let mut fresh = ArenaSimulation::new(16);
    let a = sim.tick_core();
    let b = fresh.tick_core();
    assert_eq!(a.state.total_input.to_scaled(), b.state.total_input.to_scaled());
    assert_eq!(a.state.total_output.to_scaled(), b.state.total_output.to_scaled());
    assert_eq!(a.state.gold_price.to_scaled(), b.state.gold_price.to_scaled());
    assert_eq!(a.state.current_tick, b.state.current_tick);
    assert_eq!(a.state.spawn_count, b.state.spawn_count);
    assert_eq!(a.active_packets.len(), b.active_packets.len());
    assert_eq!(a.node_updates.len(), b.node_updates.len());
}

#[test]
fn identical_scripts_identical_worlds() {
    // Two engines with the same inputs stay bit-identical over time.
    let mut a = ArenaSimulation::new(24);
    let mut b = ArenaSimulation::new(24);
    for sim in [&mut a, &mut b] {
        sim.set_gold_price(gg(2_700));
        sim.set_demand_factor(GoldGrams::from_scaled(SCALE / 2));
        for i in 0..30u32 {
            let ingress_id = (i * 4) % 24;
            if ingress_id % 4 == 0 {
                sim.spawn_packet(ingress_id, gg(150));
            }
        }
    }
    for _ in 0..100 {
        let ra = a.tick_core();
        let rb = b.tick_core();
        assert_eq!(ra.state.total_input.to_scaled(), rb.state.total_input.to_scaled());
        assert_eq!(ra.state.total_output.to_scaled(), rb.state.total_output.to_scaled());
        assert_eq!(
            ra.state.total_fees_collected.to_scaled(),
            rb.state.total_fees_collected.to_scaled()
        );
        assert_eq!(
            ra.state.total_demurrage_burned.to_scaled(),
            rb.state.total_demurrage_burned.to_scaled()
        );
        assert_eq!(ra.state.active_value.to_scaled(), rb.state.active_value.to_scaled());
        assert_eq!(ra.state.settlement_count, rb.state.settlement_count);
        assert_eq!(ra.state.held_count, rb.state.held_count);
        assert_eq!(ra.active_packets.len(), rb.active_packets.len());
    }
}

#[test]
fn spawn_classifies_boundary_values() {
    // Exactly 10 units is still retail; a hair over is professional.
    let mut sim = ArenaSimulation::new(4);
    sim.set_demand_factor(GoldGrams::zero());
    sim.spawn_packet(0, gg(10));
    sim.spawn_packet(0, GoldGrams::from_scaled(10 * SCALE + 10_000_000_000));
    let result = sim.tick_core();
    let mut tiers: Vec<MarketTier> = result.active_packets.iter().map(|p| p.tier).collect();
    tiers.sort_by_key(|t| match t {
        MarketTier::L0 => 0,
        MarketTier::L1 => 1,
        MarketTier::L2 => 2,
        MarketTier::L3 => 3,
    });
    assert_eq!(tiers, vec![MarketTier::L0, MarketTier::L1]);
}

#[test]
fn get_stats_balances() {
    let mut sim = ArenaSimulation::new(8);
    sim.spawn_packet(0, gg(120));
    let mut last_active: i128 = 0;
    for _ in 0..30 {
        last_active = sim.tick_core().state.active_value.to_scaled();
    }
    let stats = sim.get_stats();
    assert_eq!(stats.total_leaked.to_scaled(), 0);
    assert_eq!(
        stats.total_input.to_scaled(),
        stats.total_output.to_scaled()
            + stats.total_fees.to_scaled()
            + stats.total_burned.to_scaled()
            + last_active
    );
}
