//! NGauge tracking: a rolling window over activity and velocity samples
//! that tells organic demand from speculative churn.
//!
//! High network velocity with little real measured work is speculative;
//! consumers relax fees when demand is organic and amplify them when
//! speculation is detected.

use vstd::prelude::*;
use crate::fixed::GoldGrams;
use crate::fixed::SCALE;
use crate::fixed::VALUE_LIMIT;
use crate::fixed::scaled_div;

verus! {

/// Number of samples kept in each rolling window.
pub const MAX_WINDOW_SIZE: usize = 20;

/// Organic ratio below which activity is flagged speculative (0.3).
pub const SPECULATIVE_THRESHOLD: i128 = 300_000_000_000;

/// Velocity below which the market is always considered organic (100).
pub const VELOCITY_FLOOR: i128 = 100_000_000_000_000;

/// Divisor normalizing velocity into the ratio (1000).
pub const VELOCITY_DIVISOR: i128 = 1_000_000_000_000_000;

/// Floor of the normalized velocity denominator (0.1).
pub const RATIO_FLOOR: i128 = 100_000_000_000;

/// Sum of a window of samples.
pub open spec fn window_sum(s: Seq<GoldGrams>) -> int
    decreases s.len(),
{
    if s.len() == 0 {
        0
    } else {
        window_sum(s.drop_last()) + s.last()@
    }
}

/// Mean of a window (zero for an empty window).
pub open spec fn window_mean_spec(s: Seq<GoldGrams>) -> int {
    if s.len() == 0 {
        0
    } else {
        window_sum(s) / (s.len() as int)
    }
}

/// Organic ratio from an activity level and a velocity: above the
/// velocity floor it is `activity / max(velocity / 1000, 0.1)`; below,
/// demand is always organic (ratio 1).
pub open spec fn organic_ratio_spec(activity: int, velocity: int) -> int {
    if velocity > VELOCITY_FLOOR {
        let denom = {
            let d = scaled_div(velocity, VELOCITY_DIVISOR as int);
            if d >= RATIO_FLOOR {
                d
            } else {
                RATIO_FLOOR as int
            }
        };
        scaled_div(activity, denom)
    } else {
        SCALE as int
    }
}

/// One window update: push the sample, evict the oldest beyond the cap.
pub open spec fn push_trim_spec(w: Seq<GoldGrams>, x: GoldGrams) -> Seq<GoldGrams> {
    if w.len() + 1 > MAX_WINDOW_SIZE {
        w.push(x).subrange(1, w.len() as int + 1)
    } else {
        w.push(x)
    }
}

/// Compute the organic ratio from a single activity index and velocity.
pub fn compute_organic_ratio(activity: GoldGrams, velocity: GoldGrams) -> (r: GoldGrams)
    requires
        0 <= activity@ <= VALUE_LIMIT,
        0 <= velocity@ <= VALUE_LIMIT,
    ensures
        r@ == organic_ratio_spec(activity@, velocity@),
        0 <= r@,
{
    if velocity.gt(GoldGrams::from_scaled(VELOCITY_FLOOR)) {
        let denom = velocity.div(GoldGrams::from_scaled(VELOCITY_DIVISOR)).max(
            GoldGrams::from_scaled(RATIO_FLOOR),
        );
        activity.div(denom)
    } else {
        GoldGrams::one()
    }
}

/// Rolling-window tracker for organic/speculative detection.
#[derive(Debug, Clone)]
pub struct NGaugeState {
    pub activity_window: Vec<GoldGrams>,
    pub velocity_window: Vec<GoldGrams>,
    pub organic_ratio: GoldGrams,
    pub speculative_detected: bool,
}

impl NGaugeState {
    /// Windows are capped and every sample is a valid metric.
    pub open spec fn wf(self) -> bool {
        &&& self.activity_window@.len() <= MAX_WINDOW_SIZE
        &&& self.velocity_window@.len() <= MAX_WINDOW_SIZE
        &&& forall|i: int|
            0 <= i < self.activity_window@.len() ==> 0 <= #[trigger] self.activity_window@[i]@
                <= VALUE_LIMIT
        &&& forall|i: int|
            0 <= i < self.velocity_window@.len() ==> 0 <= #[trigger] self.velocity_window@[i]@
                <= VALUE_LIMIT
    }

    /// The published classification matches the windows.
    pub open spec fn classified(self) -> bool {
        &&& self.organic_ratio@ == window_ratio_spec(self.activity_window@, self.velocity_window@)
        &&& self.speculative_detected == (window_mean_spec(self.velocity_window@) > VELOCITY_FLOOR
            && self.organic_ratio@ < SPECULATIVE_THRESHOLD)
    }

    pub open spec fn activity_view(self) -> Seq<GoldGrams> {
        self.activity_window@
    }

    pub open spec fn velocity_view(self) -> Seq<GoldGrams> {
        self.velocity_window@
    }

    /// Fresh tracker: empty windows, fully organic.
    pub fn new() -> (r: NGaugeState)
        ensures
            r.wf(),
            r.classified(),
            r.activity_view().len() == 0,
            r.velocity_view().len() == 0,
            r.organic_ratio@ == SCALE,
            !r.speculative_detected,
    {
        NGaugeState {
            activity_window: Vec::new(),
            velocity_window: Vec::new(),
            organic_ratio: GoldGrams::one(),
            speculative_detected: false,
        }
    }

    /// Push new activity and velocity samples and reclassify.
    pub fn update(&mut self, activity: GoldGrams, velocity: GoldGrams)
        requires
            old(self).wf(),
            0 <= activity@ <= VALUE_LIMIT,
            0 <= velocity@ <= VALUE_LIMIT,
        ensures
            final(self).wf(),
            final(self).classified(),
            final(self).activity_view() == push_trim_spec(old(self).activity_view(), activity),
            final(self).velocity_view() == push_trim_spec(old(self).velocity_view(), velocity),
    {
        push_and_trim(&mut self.activity_window, activity);
        push_and_trim(&mut self.velocity_window, velocity);
        self.classify();
    }

    /// Current organic ratio (1.0 = fully organic, below 0.3 = speculative).
    pub fn organic_ratio(&self) -> (r: GoldGrams)
        ensures
            r == self.organic_ratio,
    {
        self.organic_ratio
    }

    /// True when the rolling window shows organic demand patterns,
    /// meaning fees can safely be relaxed.
    pub fn should_relax_fees(&self) -> (r: bool)
        ensures
            r == (!self.speculative_detected && self.organic_ratio@ > SPECULATIVE_THRESHOLD),
    {
        !self.speculative_detected && self.organic_ratio.gt(
            GoldGrams::from_scaled(SPECULATIVE_THRESHOLD),
        )
    }

    /// True when the rolling window shows speculative activity patterns,
    /// meaning fees should be increased to dampen speculation.
    pub fn should_increase_fees(&self) -> (r: bool)
        ensures
            r == self.speculative_detected,
    {
        self.speculative_detected
    }

    /// Recompute the classification from the window means.
    fn classify(&mut self)
        requires
            old(self).wf(),
        ensures
            final(self).wf(),
            final(self).classified(),
            final(self).activity_window@ == old(self).activity_window@,
            final(self).velocity_window@ == old(self).velocity_window@,
    {
        let avg_activity = window_mean(&self.activity_window);
        let avg_velocity = window_mean(&self.velocity_window);
        if avg_velocity.gt(GoldGrams::from_scaled(VELOCITY_FLOOR)) {
            let denominator = avg_velocity.div(GoldGrams::from_scaled(VELOCITY_DIVISOR)).max(
                GoldGrams::from_scaled(RATIO_FLOOR),
            );
            self.organic_ratio = avg_activity.div(denominator);
            self.speculative_detected = self.organic_ratio.lt(
                GoldGrams::from_scaled(SPECULATIVE_THRESHOLD),
            );
        } else {
            self.organic_ratio = GoldGrams::one();
            self.speculative_detected = false;
        }
    }
}

impl Default for NGaugeState {
    /// A fresh tracker.
    fn default() -> (r: NGaugeState)
        ensures
            r.wf(),
            r.classified(),
            r.activity_view().len() == 0,
            r.velocity_view().len() == 0,
            r.organic_ratio@ == SCALE,
            !r.speculative_detected,
    {
        NGaugeState::new()
    }
}

/// Ratio of the window means: above the velocity floor it is
/// `mean(activity) / max(mean(velocity) / 1000, 0.1)`, else 1.
pub open spec fn window_ratio_spec(acts: Seq<GoldGrams>, vels: Seq<GoldGrams>) -> int {
    organic_ratio_spec(window_mean_spec(acts), window_mean_spec(vels))
}

/// Append a sample, evicting the oldest when the window is full.
fn push_and_trim(window: &mut Vec<GoldGrams>, value: GoldGrams)
    requires
        old(window)@.len() <= MAX_WINDOW_SIZE,
        forall|i: int| 0 <= i < old(window)@.len() ==> 0 <= #[trigger] old(window)@[i]@
            <= VALUE_LIMIT,
        0 <= value@ <= VALUE_LIMIT,
    ensures
        final(window)@ == push_trim_spec(old(window)@, value),
        final(window)@.len() <= MAX_WINDOW_SIZE,
        forall|i: int| 0 <= i < final(window)@.len() ==> 0 <= #[trigger] final(window)@[i]@
            <= VALUE_LIMIT,
{
    window.push(value);
    if window.len() > MAX_WINDOW_SIZE {
        window.remove(0);
        proof {
            assert(window@ =~= push_trim_spec(old(window)@, value));
        }
    }
}

/// Mean of the samples currently in a window (zero when empty).
pub fn window_mean(window: &Vec<GoldGrams>) -> (r: GoldGrams)
    requires
        window@.len() <= MAX_WINDOW_SIZE,
        forall|i: int| 0 <= i < window@.len() ==> 0 <= #[trigger] window@[i]@ <= VALUE_LIMIT,
    ensures
        r@ == window_mean_spec(window@),
        0 <= r@ <= VALUE_LIMIT,
{
    if window.len() == 0 {
        return GoldGrams::zero();
    }
    let mut sum = GoldGrams::zero();
    let mut i: usize = 0;
    while i < window.len()
        invariant
            0 <= i <= window@.len(),
            window@.len() <= MAX_WINDOW_SIZE,
            forall|k: int| 0 <= k < window@.len() ==> 0 <= #[trigger] window@[k]@ <= VALUE_LIMIT,
            sum@ == window_sum(window@.take(i as int)),
            0 <= sum@ <= i * VALUE_LIMIT,
        decreases window@.len() - i,
    {
        proof {
            assert(window@.take(i + 1).drop_last() =~= window@.take(i as int));
            assert((i + 1) * VALUE_LIMIT == i * VALUE_LIMIT + VALUE_LIMIT) by (nonlinear_arith);
        }
        sum = sum.add(window[i]);
        i = i + 1;
    }
    proof {
        assert(window@.take(window@.len() as int) =~= window@);
    }
    let mean = sum.div_int(window.len() as u64);
    proof {
        assert(window_sum(window@) / (window@.len() as int) <= VALUE_LIMIT) by (nonlinear_arith)
            requires
                0 <= window_sum(window@) <= window@.len() * VALUE_LIMIT,
                0 < window@.len(),
        ;
    }
    mean
}

} // verus!
