//! Integer geometry helpers: saturating narrowing, travel distances, clamping
//! and saturating score addition. Everything is exact integer arithmetic; the
//! wide intermediate steps run in `i128`, which cannot overflow on `i64` and
//! `u32` inputs.

use vstd::prelude::*;

verus! {

/// The nearest value to `v` in the range of `i64`.
pub open spec fn clip(v: int) -> int {
    if v > i64::MAX as int {
        i64::MAX as int
    } else if v < i64::MIN as int {
        i64::MIN as int
    } else {
        v
    }
}

/// Narrows a wide intermediate result to `i64`, saturating at both ends.
pub fn clip_i128(v: i128) -> (r: i64)
    ensures
        r as int == clip(v as int),
{
    if v > i64::MAX as i128 {
        i64::MAX
    } else if v < i64::MIN as i128 {
        i64::MIN
    } else {
        v as i64
    }
}

/// Millipixels travelled in `dt` milliseconds at `speed` millipixels per second.
pub open spec fn travel(speed: int, dt: int) -> int {
    speed * dt / 1000
}

/// Computes `travel(speed, dt_ms)` exactly; the result stays wide, since a
/// huge speed times a huge frame time does not fit in `i64`.
pub fn travel_i128(speed: i64, dt_ms: u32) -> (r: i128)
    requires
        speed >= 0,
    ensures
        r as int == travel(speed as int, dt_ms as int),
        0 <= r <= (i64::MAX as i128) * (u32::MAX as i128),
{
    proof {
        assert(0 <= (speed as int) * (dt_ms as int)
            <= (i64::MAX as int) * (u32::MAX as int)) by (nonlinear_arith)
            requires
                0 <= speed as int <= i64::MAX as int,
                0 <= dt_ms as int <= u32::MAX as int,
        ;
    }
    let wide: i128 = (speed as i128) * (dt_ms as i128);
    wide / 1000
}

/// `v` pushed into `[lo, hi]`, taking the upper bound first and the lower
/// bound last, so an empty range resolves to `lo`.
pub open spec fn clamp(v: int, lo: int, hi: int) -> int {
    let capped = if v < hi {
        v
    } else {
        hi
    };
    if capped < lo {
        lo
    } else {
        capped
    }
}

/// Clamps `v` into `[lo, hi]` exactly as `clamp` states.
pub fn clamp_i64(v: i64, lo: i64, hi: i64) -> (r: i64)
    ensures
        r as int == clamp(v as int, lo as int, hi as int),
{
    let capped = if v < hi {
        v
    } else {
        hi
    };
    if capped < lo {
        lo
    } else {
        capped
    }
}

/// When the range is not empty, a clamped value lies inside it.
pub proof fn lemma_clamp_bounds(v: int, lo: int, hi: int)
    requires
        lo <= hi,
    ensures
        lo <= clamp(v, lo, hi) <= hi,
{
}

/// `a + b` held at the top of the `u32` range.
pub open spec fn sat_add_u32(a: int, b: int) -> int {
    if a + b > u32::MAX as int {
        u32::MAX as int
    } else {
        a + b
    }
}

/// Saturating addition of a non-negative wide delta onto a `u32` total.
pub fn sat_add_u32_exec(a: u32, b: i128) -> (r: u32)
    requires
        b >= 0,
    ensures
        r as int == sat_add_u32(a as int, b as int),
{
    if b > (u32::MAX - a) as i128 {
        u32::MAX
    } else {
        a + (b as u32)
    }
}

} // verus!
