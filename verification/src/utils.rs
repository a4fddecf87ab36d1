//! Random scalars.

use vstd::prelude::*;
use core::ops::Range;
use const_soft_float::soft_f32::SoftF32;
use rand::distributions::Standard;
use rand::Rng;
use crate::scalar::{
    lit, magnitude, ordinal, Scalar, INFINITY_BITS, ONE_BITS, ZERO_BITS,
};

verus! {

/// The magnitude of 2^127. Two bounds on either side of zero that are both
/// below it are less than the largest finite value apart.
pub const RANGE_LIMIT: u32 = 0x7f00_0000;

/// What every draw of `random` satisfies: it lies in `[0, 1)`.
pub open spec fn unit_draw(r: Scalar) -> bool {
    lit(ZERO_BITS).le_spec(r) && r.lt_spec(lit(ONE_BITS))
}

/// Whether `r` is a range that `random_range` accepts: it is not empty, its
/// bounds are finite, and its width is finite because the bounds lie on one
/// side of zero or are both below `RANGE_LIMIT` in magnitude.
pub open spec fn range_ok(r: Range<Scalar>) -> bool {
    &&& r.start.lt_spec(r.end)
    &&& magnitude(r.start.bits) < INFINITY_BITS
    &&& magnitude(r.end.bits) < INFINITY_BITS
    &&& (ordinal(r.start.bits) >= 0 || ordinal(r.end.bits) <= 0 || (magnitude(r.start.bits)
        < RANGE_LIMIT && magnitude(r.end.bits) < RANGE_LIMIT))
}

/// What every draw of `random_range(r)` satisfies: it lies in `r`, its end
/// left out.
pub open spec fn range_draw(r: Range<Scalar>, x: Scalar) -> bool {
    r.start.le_spec(x) && x.lt_spec(r.end)
}

/// Calls `Rng::sample` with the `Standard` distribution on the thread's
/// generator. The draw is `k / 2^24` for a 24-bit `k`, hence in `[0, 1)`;
/// which one is not stated.
#[verifier::external_body]
pub fn random() -> (r: Scalar)
    ensures
        unit_draw(r),
{
    Scalar { bits: SoftF32::from_f32(rand::thread_rng().sample(Standard)).to_bits() }
}

/// Calls `Rng::gen_range` on the thread's generator. For finite bounds with
/// `start < end` and a finite width, the draw lies in `[start, end)`; which
/// one is not stated. The ranges that would make the call fail are left out:
/// the empty ones, those with a bound that is not finite, and those whose
/// width is not finite. Of two finite bounds on one side of zero the width is
/// at most the larger magnitude; of two bounds below 2^127 it is below 2^128.
#[verifier::external_body]
pub fn random_range(r: Range<Scalar>) -> (x: Scalar)
    requires
        range_ok(r),
    ensures
        range_draw(r, x),
{
    let low = SoftF32::from_bits(r.start.bits).to_f32();
    let high = SoftF32::from_bits(r.end.bits).to_f32();
    Scalar { bits: SoftF32::from_f32(rand::thread_rng().gen_range(low..high)).to_bits() }
}

} // verus!
