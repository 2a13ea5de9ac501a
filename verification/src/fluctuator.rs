use vstd::prelude::*;

verus! {

/// Wear-dependent analog noise injected when a cell is programmed.
///
/// Each implementation fixes, through `fluctuate_spec`, the set of stored
/// levels its `fluctuate` may return for an intended level at a given
/// wear count. The device model is verified against that predicate, so a
/// deterministic implementation (see `ZeroFluctuate`) makes the whole
/// program path deterministic.
pub trait FluctuareT {
    /// Which stored levels are possible for this wear count and intended
    /// level.
    spec fn fluctuate_spec(&self, write_count: u32, value: u8, result: u8) -> bool;

    /// The stored level for an intended level, after noise.
    fn fluctuate(&self, write_count: u32, value: u8) -> (r: u8)
        ensures
            self.fluctuate_spec(write_count, value, r),
    ;
}

/// The drift magnitude at a given wear count: `1000 / (1100 - count)`,
/// truncated, and saturated at 255. It diverges as the wear count
/// approaches the device's rated endurance of 1100 erase cycles,
/// modelling end-of-life noise growth; at and beyond the rated endurance
/// the magnitude is pinned to the maximum.
pub open spec fn drift_magnitude(write_count: u32) -> int {
    if write_count < 1100 {
        let q = 1000int / (1100 - write_count);
        if q > 255 {
            255
        } else {
            q
        }
    } else {
        255
    }
}

/// An intended level shifted by a drift magnitude, clamped to the level
/// range [0, 255] rather than wrapped.
pub open spec fn clamped_shift(value: u8, magnitude: int, up: bool) -> int {
    if up {
        if value + magnitude > 255 {
            255
        } else {
            value + magnitude
        }
    } else {
        if value - magnitude < 0 {
            0
        } else {
            value - magnitude
        }
    }
}

/// Fluctuation bounds: whatever the wear count, the intended level and
/// the drift direction, the stored level stays in [0, 255]. Saturation is
/// recovered locally by clamping and is never surfaced as a failure.
pub proof fn lemma_fluctuation_bounds(write_count: u32, value: u8, up: bool)
    ensures
        0 <= clamped_shift(value, drift_magnitude(write_count), up) <= 255,
{
    if write_count < 1100 {
        vstd::arithmetic::div_mod::lemma_div_pos_is_pos(1000, 1100 - write_count as int);
    }
}

/// The production noise model: an unbiased coin picks the drift
/// direction, the magnitude follows the wear, and the shifted level is
/// clamped to [0, 255].
pub struct ProdFluctuate {}

/// Relies on rand::random::<bool>: one draw of an unbiased random
/// boolean. Nothing is assumed about which value comes back.
#[verifier::external_body]
fn coin_flip() -> bool {
    rand::random::<bool>()
}

impl FluctuareT for ProdFluctuate {
    /// The stored level is the intended one shifted by the wear-dependent
    /// magnitude, one way or the other, clamped to the level range.
    open spec fn fluctuate_spec(&self, write_count: u32, value: u8, result: u8) -> bool {
        result == clamped_shift(value, drift_magnitude(write_count), true) || result
            == clamped_shift(value, drift_magnitude(write_count), false)
    }

    fn fluctuate(&self, write_count: u32, value: u8) -> (r: u8) {
        let magnitude: u8 = if write_count < 1100 {
            let q: u32 = 1000 / (1100 - write_count);
            if q > 255 {
                255
            } else {
                q as u8
            }
        } else {
            255
        };
        proof {
            assert(magnitude == drift_magnitude(write_count));
        }
        let up = coin_flip();
        if up {
            if value > 255 - magnitude {
                255
            } else {
                value + magnitude
            }
        } else {
            if value < magnitude {
                0
            } else {
                value - magnitude
            }
        }
    }
}

/// A noiseless test double: the stored level is exactly the intended one.
pub struct ZeroFluctuate {}

impl FluctuareT for ZeroFluctuate {
    open spec fn fluctuate_spec(&self, write_count: u32, value: u8, result: u8) -> bool {
        result == value
    }

    fn fluctuate(&self, write_count: u32, value: u8) -> (r: u8) {
        value
    }
}

} // verus!
