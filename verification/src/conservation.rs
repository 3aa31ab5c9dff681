//! Conservation law: the thermodynamic invariant of the mesh.
//!
//! In a closed system every unit of minted value is either settled out,
//! collected as fees, burned by demurrage, or still in flight:
//!
//! `total_input = total_output + total_fees + total_burned + active_value`
//!
//! The law tracks the cumulative error of every check that violated the
//! per-check tolerance, and trips a circuit breaker once the cumulative
//! error exceeds a configurable threshold.

use vstd::prelude::*;
use crate::fixed::GoldGrams;

verus! {

/// Per-check tolerance: absolute error below 10^-4 is considered balanced.
pub const TOLERANCE_RAW: i128 = 100_000_000;

/// Largest raw magnitude accepted for any single book entry fed into a
/// conservation check (10^18 whole units).
pub const BOOK_LIMIT: i128 = 1_000_000_000_000_000_000_000_000_000_000;

/// Saturation cap of the cumulative error accumulator. It lies far above
/// `BOOK_LIMIT`, so saturation can only happen long after any reachable
/// circuit-breaker threshold has tripped.
pub const CUMULATIVE_CAP: i128 = 1_000_000_000_000_000_000_000_000_000_000_000_000;

/// Compute the conservation error (value leaked): the absolute difference
/// between total input and the sum of output, burned, fees and in-flight
/// value. Zero means the accounting is exactly closed.
pub fn compute_conservation(
    total_input: GoldGrams,
    total_output: GoldGrams,
    total_burned: GoldGrams,
    total_fees: GoldGrams,
    active_value: GoldGrams,
) -> (r: GoldGrams)
    requires
        -BOOK_LIMIT <= total_input@ <= BOOK_LIMIT,
        -BOOK_LIMIT <= total_output@ <= BOOK_LIMIT,
        -BOOK_LIMIT <= total_burned@ <= BOOK_LIMIT,
        -BOOK_LIMIT <= total_fees@ <= BOOK_LIMIT,
        -BOOK_LIMIT <= active_value@ <= BOOK_LIMIT,
    ensures
        r@ == abs_spec(total_input@ - (total_output@ + total_burned@ + total_fees@ + active_value@)),
{
    let actual = total_output.add(total_burned).add(total_fees).add(active_value);
    total_input.sub(actual).abs()
}

/// Mathematical absolute value.
pub open spec fn abs_spec(x: int) -> int {
    if x >= 0 {
        x
    } else {
        -x
    }
}

/// Errors of the conservation law. The engine captures these in
/// `WorldState` flags rather than propagating them out of a tick.
#[derive(Debug, Clone, Copy, PartialEq, Eq, Structural)]
pub enum ConservationError {
    /// A single check failed the law beyond tolerance; its error is
    /// accumulated toward the breaker threshold.
    SettlementImbalance,
    /// Cumulative error exceeded the threshold; recoverable only by an
    /// explicit reset.
    CircuitBreakerTripped,
}

/// Outcome of a single conservation check (settlement or tick).
#[derive(Debug, Clone)]
pub struct ConservationResult {
    /// Whether the check passed within tolerance.
    pub balanced: bool,
    /// Absolute error for this check.
    pub error: GoldGrams,
    /// Whether the circuit breaker is currently tripped.
    pub circuit_breaker_tripped: bool,
}

impl ConservationResult {
    /// The outcome as a result: a tripped breaker dominates, an
    /// unbalanced check reports the imbalance, a balanced check passes.
    pub fn as_error(&self) -> (r: Result<(), ConservationError>)
        ensures
            r is Ok <==> (self.balanced && !self.circuit_breaker_tripped),
            self.circuit_breaker_tripped ==> r == Result::<(), ConservationError>::Err(
                ConservationError::CircuitBreakerTripped,
            ),
            !self.circuit_breaker_tripped && !self.balanced ==> r == Result::<
                (),
                ConservationError,
            >::Err(ConservationError::SettlementImbalance),
    {
        if self.circuit_breaker_tripped {
            Err(ConservationError::CircuitBreakerTripped)
        } else if !self.balanced {
            Err(ConservationError::SettlementImbalance)
        } else {
            Ok(())
        }
    }
}

/// Tracks cumulative conservation error and trips a circuit breaker when
/// the error exceeds a configurable threshold.
#[derive(Debug, Clone)]
pub struct ConservationLaw {
    /// Running total of absolute errors across all violating checks.
    pub cumulative_error: GoldGrams,
    /// Maximum cumulative error before the circuit breaker trips.
    pub circuit_breaker_threshold: GoldGrams,
    /// Whether the circuit breaker is currently tripped.
    pub circuit_breaker_tripped: bool,
    /// Number of consecutive checks that violated tolerance.
    pub consecutive_violations: u32,
}

impl ConservationLaw {
    /// The accumulator stays within its saturation cap.
    pub open spec fn wf(self) -> bool {
        0 <= self.cumulative_error@ <= CUMULATIVE_CAP
    }

    /// What one check does to the accumulator: balanced checks leave it,
    /// violations add their error, saturating at the cap.
    pub open spec fn accumulated(self, err: int) -> int {
        if err < TOLERANCE_RAW {
            self.cumulative_error@
        } else if self.cumulative_error@ + err <= CUMULATIVE_CAP {
            self.cumulative_error@ + err
        } else {
            CUMULATIVE_CAP as int
        }
    }

    /// Create a new law with the given circuit-breaker threshold.
    pub fn new(threshold: GoldGrams) -> (r: ConservationLaw)
        ensures
            r.wf(),
            r.cumulative_error@ == 0,
            r.circuit_breaker_threshold == threshold,
            !r.circuit_breaker_tripped,
            r.consecutive_violations == 0,
    {
        ConservationLaw {
            cumulative_error: GoldGrams::zero(),
            circuit_breaker_threshold: threshold,
            circuit_breaker_tripped: false,
            consecutive_violations: 0,
        }
    }

    /// Record one absolute error against the accumulator, update the
    /// violation streak and the breaker, and report the outcome.
    fn record(&mut self, error: GoldGrams) -> (r: ConservationResult)
        requires
            old(self).wf(),
            0 <= error@ <= 5 * BOOK_LIMIT,
        ensures
            final(self).wf(),
            r.error == error,
            r.balanced == (error@ < TOLERANCE_RAW),
            final(self).cumulative_error@ == old(self).accumulated(error@),
            final(self).consecutive_violations == if error@ < TOLERANCE_RAW {
                0u32
            } else if old(self).consecutive_violations == u32::MAX {
                u32::MAX
            } else {
                (old(self).consecutive_violations + 1) as u32
            },
            final(self).circuit_breaker_tripped == (old(self).circuit_breaker_tripped
                || final(self).cumulative_error@ > old(self).circuit_breaker_threshold@),
            r.circuit_breaker_tripped == final(self).circuit_breaker_tripped,
            final(self).circuit_breaker_threshold == old(self).circuit_breaker_threshold,
    {
        let balanced = error.lt(GoldGrams::from_scaled(TOLERANCE_RAW));
        if balanced {
            self.consecutive_violations = 0;
        } else {
            let next = self.cumulative_error.add(error);
            self.cumulative_error = next.min(GoldGrams::from_scaled(CUMULATIVE_CAP));
            if self.consecutive_violations < u32::MAX {
                self.consecutive_violations = self.consecutive_violations + 1;
            }
        }
        if self.cumulative_error.gt(self.circuit_breaker_threshold) {
            self.circuit_breaker_tripped = true;
        }
        ConservationResult {
            balanced,
            error,
            circuit_breaker_tripped: self.circuit_breaker_tripped,
        }
    }

    /// Verify conservation at settlement time.
    ///
    /// Invariant: `initial == settled + fees + demurrage`.
    pub fn verify_settlement(
        &mut self,
        initial: GoldGrams,
        settled: GoldGrams,
        fees: GoldGrams,
        demurrage: GoldGrams,
    ) -> (r: ConservationResult)
        requires
            old(self).wf(),
            -BOOK_LIMIT <= initial@ <= BOOK_LIMIT,
            -BOOK_LIMIT <= settled@ <= BOOK_LIMIT,
            -BOOK_LIMIT <= fees@ <= BOOK_LIMIT,
            -BOOK_LIMIT <= demurrage@ <= BOOK_LIMIT,
        ensures
            final(self).wf(),
            r.error@ == abs_spec(initial@ - (settled@ + fees@ + demurrage@)),
            r.balanced == (r.error@ < TOLERANCE_RAW),
            final(self).cumulative_error@ == old(self).accumulated(r.error@),
            final(self).consecutive_violations == if r.balanced {
                0u32
            } else if old(self).consecutive_violations == u32::MAX {
                u32::MAX
            } else {
                (old(self).consecutive_violations + 1) as u32
            },
            final(self).circuit_breaker_tripped == (old(self).circuit_breaker_tripped
                || final(self).cumulative_error@ > old(self).circuit_breaker_threshold@),
            r.circuit_breaker_tripped == final(self).circuit_breaker_tripped,
            final(self).circuit_breaker_threshold == old(self).circuit_breaker_threshold,
    {
        let error = initial.sub(settled.add(fees).add(demurrage)).abs();
        self.record(error)
    }

    /// Verify conservation at tick level.
    ///
    /// Invariant: `total_input == total_output + total_fees + total_burned
    /// + active_in_flight`.
    pub fn verify_tick(
        &mut self,
        total_input: GoldGrams,
        total_output: GoldGrams,
        total_fees: GoldGrams,
        total_burned: GoldGrams,
        active_in_flight: GoldGrams,
    ) -> (r: ConservationResult)
        requires
            old(self).wf(),
            -BOOK_LIMIT <= total_input@ <= BOOK_LIMIT,
            -BOOK_LIMIT <= total_output@ <= BOOK_LIMIT,
            -BOOK_LIMIT <= total_fees@ <= BOOK_LIMIT,
            -BOOK_LIMIT <= total_burned@ <= BOOK_LIMIT,
            -BOOK_LIMIT <= active_in_flight@ <= BOOK_LIMIT,
        ensures
            final(self).wf(),
            r.error@ == abs_spec(
                total_input@ - (total_output@ + total_fees@ + total_burned@ + active_in_flight@),
            ),
            r.balanced == (r.error@ < TOLERANCE_RAW),
            final(self).cumulative_error@ == old(self).accumulated(r.error@),
            final(self).consecutive_violations == if r.balanced {
                0u32
            } else if old(self).consecutive_violations == u32::MAX {
                u32::MAX
            } else {
                (old(self).consecutive_violations + 1) as u32
            },
            final(self).circuit_breaker_tripped == (old(self).circuit_breaker_tripped
                || final(self).cumulative_error@ > old(self).circuit_breaker_threshold@),
            r.circuit_breaker_tripped == final(self).circuit_breaker_tripped,
            final(self).circuit_breaker_threshold == old(self).circuit_breaker_threshold,
    {
        let expected = total_output.add(total_fees).add(total_burned).add(active_in_flight);
        let error = total_input.sub(expected).abs();
        self.record(error)
    }

    /// Reset the circuit breaker and all accumulated error state. The
    /// breaker, the cumulative error and the violation streak are cleared
    /// exactly; the threshold is kept.
    pub fn reset_circuit_breaker(&mut self)
        ensures
            final(self).wf(),
            final(self).cumulative_error@ == 0,
            !final(self).circuit_breaker_tripped,
            final(self).consecutive_violations == 0,
            final(self).circuit_breaker_threshold == old(self).circuit_breaker_threshold,
    {
        self.cumulative_error = GoldGrams::zero();
        self.circuit_breaker_tripped = false;
        self.consecutive_violations = 0;
    }

    /// Returns `true` if the circuit breaker is currently tripped.
    pub fn is_tripped(&self) -> (r: bool)
        ensures
            r == self.circuit_breaker_tripped,
    {
        self.circuit_breaker_tripped
    }
}

impl Default for ConservationLaw {
    /// Default threshold of 0.001 units.
    fn default() -> (r: ConservationLaw)
        ensures
            r.wf(),
            r.cumulative_error@ == 0,
            r.circuit_breaker_threshold@ == 1_000_000_000,
            !r.circuit_breaker_tripped,
            r.consecutive_violations == 0,
    {
        ConservationLaw::new(GoldGrams::from_scaled(1_000_000_000))
    }
}

} // verus!
