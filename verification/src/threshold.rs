//! The controller that adapts a detector's threshold to the number of
//! keypoints it found: fewer than wanted lowers the threshold, more raises it.
//!
//! A region is meant to find `target / detectors` keypoints. The relative
//! error of a count is `(count - target / detectors) / (target / detectors)`,
//! which is `density_error / target`. Thresholds, the tolerance and the step
//! are in thousandths: a threshold of 22.5 is `22_500`.

use crate::keypoint::SUBPIXEL;
use vstd::prelude::*;

verus! {

/// The relative error of `count`, times `target`.
pub open spec fn density_error(count: int, detectors: int, target: int) -> int {
    count * detectors - target
}

/// Whether `count` is below the target by more than the tolerance.
pub open spec fn is_below_target(count: int, detectors: int, target: int, tolerance: int) -> bool {
    density_error(count, detectors, target) * SUBPIXEL < -(tolerance * target)
}

/// Whether `count` is above the target by more than the tolerance.
pub open spec fn is_above_target(count: int, detectors: int, target: int, tolerance: int) -> bool {
    density_error(count, detectors, target) * SUBPIXEL > tolerance * target
}

/// The threshold after a count below the target: it moves down by the relative
/// error, capped from above by `step`, times the threshold, and by 1 (a
/// thousand thousandths) at least; it does not go below `minimum`.
pub open spec fn lowered_threshold(threshold: int, error: int, target: int, step: int, minimum: int) -> int {
    let change = if error * SUBPIXEL <= step * target {
        (error * threshold) / target
    } else {
        (step * threshold) / (SUBPIXEL as int)
    };
    let moved = threshold + if change < -SUBPIXEL {
        change
    } else {
        -SUBPIXEL
    };
    if moved < minimum {
        minimum
    } else {
        moved
    }
}

/// The threshold after a count above the target: it moves up by the relative
/// error, capped from below by `step`, times the threshold, and by 1 (a
/// thousand thousandths) at least; it does not go above `maximum`.
pub open spec fn raised_threshold(threshold: int, error: int, target: int, step: int, maximum: int) -> int {
    let change = if error * SUBPIXEL >= step * target {
        (error * threshold) / target
    } else {
        (step * threshold) / (SUBPIXEL as int)
    };
    let moved = threshold + if change > SUBPIXEL {
        change
    } else {
        SUBPIXEL as int
    };
    if moved > maximum {
        maximum
    } else {
        moved
    }
}

/// The threshold that a detector gets after it found `count` keypoints with
/// `threshold`. Without a target the threshold stays.
pub open spec fn adapted_threshold(
    threshold: int,
    count: int,
    detectors: int,
    target: int,
    tolerance: int,
    step: int,
    minimum: int,
    maximum: int,
) -> int {
    let error = density_error(count, detectors, target);
    if target <= 0 {
        threshold
    } else if is_below_target(count, detectors, target, tolerance) {
        lowered_threshold(threshold, error, target, step, minimum)
    } else if is_above_target(count, detectors, target, tolerance) {
        raised_threshold(threshold, error, target, step, maximum)
    } else {
        threshold
    }
}

/// Rounding a negative quotient down is rounding the positive one up.
proof fn lemma_floor_of_negative(a: int, d: int)
    requires
        0 <= a,
        0 < d,
    ensures
        (-a) / d == -((a + d - 1) / d),
{
    let up = (a + d - 1) / d;
    let rest = (a + d - 1) % d;
    vstd::arithmetic::div_mod::lemma_fundamental_div_mod(a + d - 1, d);
    assert(a + d - 1 == d * up + rest);
    assert(d * up == up * d) by (nonlinear_arith);
    assert((-up) * d == -(up * d)) by (nonlinear_arith);
    vstd::arithmetic::div_mod::lemma_fundamental_div_mod_converse(-a, d, -up, d - 1 - rest);
}

/// A product that is at least `k` times the divisor has a quotient of at least `k`.
proof fn lemma_quotient_at_least(x: int, d: int, k: int)
    requires
        0 < d,
        x >= k * d,
    ensures
        x / d >= k,
{
    vstd::arithmetic::div_mod::lemma_fundamental_div_mod(x, d);
    let q = x / d;
    let r = x % d;
    assert(x == d * q + r);
    assert(0 <= r < d);
    assert(q >= k) by (nonlinear_arith)
        requires
            d * q + r >= k * d,
            0 <= r < d,
            0 < d,
    ;
}

/// The threshold that a detector gets after it found `count` keypoints with
/// `threshold`, where `detectors` detectors share a target of `target`
/// keypoints. Thresholds, tolerance and step are in thousandths.
pub fn adapt_threshold(
    threshold: u64,
    count: usize,
    detectors: u64,
    target: u64,
    tolerance: u32,
    step: u32,
    minimum: u64,
    maximum: u64,
) -> (adapted: u64)
    ensures
        adapted == adapted_threshold(
            threshold as int,
            count as int,
            detectors as int,
            target as int,
            tolerance as int,
            step as int,
            minimum as int,
            maximum as int,
        ),
{
    if target == 0 {
        return threshold;
    }
    let ghost error = density_error(count as int, detectors as int, target as int);
    assert(count * detectors <= 0xffff_ffff_ffff_ffff * 0xffff_ffff_ffff_ffff) by (nonlinear_arith)
        requires
            0 <= count <= 0xffff_ffff_ffff_ffff,
            0 <= detectors <= 0xffff_ffff_ffff_ffff,
    ;
    let found: u128 = count as u128 * detectors as u128;
    let wanted: u128 = target as u128;
    assert(tolerance * target <= 0xffff_ffff * 0xffff_ffff_ffff_ffff) by (nonlinear_arith)
        requires
            0 <= tolerance <= 0xffff_ffff,
            0 <= target <= 0xffff_ffff_ffff_ffff,
    ;
    let slack: u128 = tolerance as u128 * wanted;
    if found < wanted {
        let missing: u128 = wanted - found;
        if missing * 1000 > slack {
            assert(missing * threshold <= 0xffff_ffff_ffff_ffff * 0xffff_ffff_ffff_ffff)
                by (nonlinear_arith)
                requires
                    0 <= missing <= 0xffff_ffff_ffff_ffff,
                    0 <= threshold <= 0xffff_ffff_ffff_ffff,
            ;
            let product: u128 = missing * threshold as u128;
            let steps: u128 = (product + wanted - 1) / wanted;
            proof {
                assert(step * target >= 0) by (nonlinear_arith)
                    requires
                        step >= 0,
                        target >= 0,
                ;
                assert(error * threshold == -(missing * threshold)) by (nonlinear_arith)
                    requires
                        error == -missing,
                ;
                lemma_floor_of_negative(product as int, wanted as int);
            }
            let lowering: u128 = if steps > 1000 {
                steps
            } else {
                1000
            };
            if lowering >= threshold as u128 {
                minimum
            } else {
                let moved: u64 = threshold - lowering as u64;
                if moved < minimum {
                    minimum
                } else {
                    moved
                }
            }
        } else {
            threshold
        }
    } else {
        let surplus: u128 = found - wanted;
        let scaled = surplus.checked_mul(1000);
        let above = match scaled {
            Some(value) => value > slack,
            None => true,
        };
        if !above {
            return threshold;
        }
        assert(step * target <= 0xffff_ffff * 0xffff_ffff_ffff_ffff) by (nonlinear_arith)
            requires
                0 <= step <= 0xffff_ffff,
                0 <= target <= 0xffff_ffff_ffff_ffff,
        ;
        let bound: u128 = step as u128 * wanted;
        let by_error = match scaled {
            Some(value) => value >= bound,
            None => true,
        };
        let room: u128 = if threshold < maximum {
            (maximum - threshold) as u128
        } else {
            0
        };
        // `None` stands for a change too large to write down: larger than any threshold.
        let change: Option<u128> = if by_error {
            match surplus.checked_mul(threshold as u128) {
                Some(product) => Some(product / wanted),
                None => {
                    proof {
                        assert(0x1_0000_0000_0000_0000 * target <= surplus * threshold)
                            by (nonlinear_arith)
                            requires
                                surplus * threshold >= 0x1_0000_0000_0000_0000_0000_0000_0000_0000,
                                0 <= target <= 0xffff_ffff_ffff_ffff,
                        ;
                        lemma_quotient_at_least(
                            surplus * threshold,
                            target as int,
                            0x1_0000_0000_0000_0000,
                        );
                    }
                    None
                },
            }
        } else {
            assert(step * threshold <= 0xffff_ffff * 0xffff_ffff_ffff_ffff) by (nonlinear_arith)
                requires
                    0 <= step <= 0xffff_ffff,
                    0 <= threshold <= 0xffff_ffff_ffff_ffff,
            ;
            Some(step as u128 * threshold as u128 / 1000)
        };
        match change {
            Some(value) => {
                let raising: u128 = if value > 1000 {
                    value
                } else {
                    1000
                };
                if raising >= room {
                    maximum
                } else {
                    threshold + raising as u64
                }
            },
            None => maximum,
        }
    }
}

/// The controller answers a shortage of keypoints by a threshold that is
/// lower, or at the minimum already; a surplus by one that is higher, or at the
/// maximum already; and a count within the tolerance by the same threshold. The
/// threshold stays between the minimum and the maximum.
pub proof fn lemma_threshold_response(
    threshold: int,
    count: int,
    detectors: int,
    target: int,
    tolerance: int,
    step: int,
    minimum: int,
    maximum: int,
)
    requires
        minimum <= threshold <= maximum,
        0 < target,
    ensures
        ({
            let adapted = adapted_threshold(
                threshold,
                count,
                detectors,
                target,
                tolerance,
                step,
                minimum,
                maximum,
            );
            &&& minimum <= adapted <= maximum
            &&& is_below_target(count, detectors, target, tolerance) ==> adapted <= threshold && (
            adapted < threshold || adapted == minimum)
            &&& !is_below_target(count, detectors, target, tolerance) && is_above_target(
                count,
                detectors,
                target,
                tolerance,
            ) ==> adapted >= threshold && (adapted > threshold || adapted == maximum)
            &&& !is_below_target(count, detectors, target, tolerance) && !is_above_target(
                count,
                detectors,
                target,
                tolerance,
            ) ==> adapted == threshold
        }),
{
}

} // verus!
