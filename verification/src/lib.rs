//! Tick-driven simulation of a value-transfer mesh.
//!
//! Value packets are minted at ingress nodes, routed hop by hop through
//! transit nodes, and settled at egress nodes against a gold-denominated
//! liquidity pool. A PID governor modulates fees and demurrage each tick;
//! a conservation law tracks every unit of value across mint, decay, fee
//! and settlement flows, and trips a circuit breaker when the books drift.
//!
//! All accounting is fixed-point decimal (`fixed::GoldGrams`); the engine
//! never touches binary floating point, so the conservation invariant is
//! an exact equality rather than an approximation.

pub mod conservation;
pub mod dissolution;
pub mod engauge;
pub mod engine;
pub mod fees;
pub mod fixed;
pub mod governor;
pub mod montecarlo;
pub mod routing;
pub mod traffic;
pub mod types;
