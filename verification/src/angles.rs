//! The angles, in radians, whose cosines and sines the application supplies.

use crate::rounding;
use crate::scalar::{ratio, whole, Scalar};
use vstd::prelude::*;

verus! {

pub open spec fn spec_half_pi() -> Scalar {
    Scalar { bits: 0x3fc9_0fdb }
}

/// A quarter turn.
#[verifier::when_used_as_spec(spec_half_pi)]
pub fn half_pi() -> (r: Scalar)
    ensures
        r == spec_half_pi(),
{
    Scalar { bits: 0x3fc9_0fdb }
}

pub open spec fn spec_pi() -> Scalar {
    Scalar { bits: 0x4049_0fdb }
}

/// Half a turn.
#[verifier::when_used_as_spec(spec_pi)]
pub fn pi() -> (r: Scalar)
    ensures
        r == spec_pi(),
{
    Scalar { bits: 0x4049_0fdb }
}

pub open spec fn spec_tau() -> Scalar {
    Scalar { bits: 0x40c9_0fdb }
}

/// A full turn.
#[verifier::when_used_as_spec(spec_tau)]
pub fn tau() -> (r: Scalar)
    ensures
        r == spec_tau(),
{
    Scalar { bits: 0x40c9_0fdb }
}

pub open spec fn spec_along(start: Scalar, end: Scalar, i: u64, n: u64) -> Scalar {
    start.plus(end.minus(start).times(whole(i).over(whole(n))))
}

/// The angle `i / n` of the way from `start` to `end`.
#[verifier::when_used_as_spec(spec_along)]
pub fn along(start: Scalar, end: Scalar, i: u64, n: u64) -> (r: Scalar)
    ensures
        r == spec_along(start, end, i, n),
{
    start.plus(end.minus(start).times(whole(i).over(whole(n))))
}

/// Where a rounded corner starts and ends: the top-left one is corner 0, the
/// others follow clockwise.
pub open spec fn corner_span(corner: u64) -> (Scalar, Scalar) {
    let three_quarters = pi().times(ratio(15, 10));
    if corner == 0 {
        (pi(), three_quarters)
    } else if corner == 1 {
        (three_quarters, tau())
    } else if corner == 2 {
        (whole(0), half_pi())
    } else {
        (half_pi(), pi())
    }
}

/// The angle of direction `i`, from 0 to 8, of a rounded corner.
pub fn corner_angle(corner: u64, i: u64) -> (r: Scalar)
    ensures
        r == along(corner_span(corner).0, corner_span(corner).1, i, 8),
{
    let three_quarters = pi().times(ratio(15, 10));
    if corner == 0 {
        along(pi(), three_quarters, i, 8)
    } else if corner == 1 {
        along(three_quarters, tau(), i, 8)
    } else if corner == 2 {
        along(whole(0), half_pi(), i, 8)
    } else {
        along(half_pi(), pi(), i, 8)
    }
}

/// The angle of direction `i` of a disc, or of the rim of a radial gradient, of
/// `n` segments.
pub fn disc_angle(n: u64, i: u64) -> (r: Scalar)
    ensures
        r == tau().times(whole(i)).over(whole(n)),
{
    tau().times(whole(i)).over(whole(n))
}

/// The angle of direction `i` of a ring of `n` segments.
pub fn ring_angle(n: u64, i: u64) -> (r: Scalar)
    ensures
        r == along(whole(0), tau(), i, n),
{
    along(whole(0), tau(), i, n)
}

/// Half the angle between two directions of a rim of `n` segments.
pub fn rim_half_angle(n: u64) -> (r: Scalar)
    ensures
        r == pi().over(whole(n)),
{
    pi().over(whole(n))
}

/// The part `t` of a full turn.
pub fn turn(t: Scalar) -> (r: Scalar)
    ensures
        r == whole(2).times(pi()).times(t),
{
    whole(2).times(pi()).times(t)
}

/// The angles go from the start to the end in equal steps, up to rounding: the first one
/// is the start.
pub proof fn law_angles_go_from_start_to_end(start: Scalar, end: Scalar, i: u64, n: u64)
    requires
        rounding::ordinary(start),
        rounding::ordinary(end),
        i <= n <= 0x100_0000,
        0 < n,
    ensures
        ({
            let r = along(start, end, i, n);
            let t = whole(i).over(whole(n));
            let u = rounding::unit();
            &&& r.is_finite()
            &&& t.is_finite()
            &&& 0x100_0000 * rounding::apart(n * t.val(), i * u) <= i * u + n * 0x80_0000
            &&& 0x10_0000 * rounding::apart(
                r.val() * u,
                start.val() * (u - t.val()) + end.val() * t.val(),
            ) <= (rounding::size(start.val()) + rounding::size(end.val()) + 0x10_0000) * u
            &&& i == 0 ==> r.val() == start.val()
            &&& i == n ==> t.val() == u
        }),
{
    rounding::law_zero_and_one();
    let u = rounding::unit();
    crate::scalar::law_whole_exact(i);
    crate::scalar::law_whole_exact(n);
    let a = i as int;
    let b = n as int;
    assert((a * u) * u <= u * (b * u) && (a * u) * (b * u) >= 0 && b * u > 0 && a * u >= 0) by (nonlinear_arith)
        requires
            0 <= a <= b,
            0 < b,
            u > 0,
    ;
    rounding::law_over_bounded(whole(i), whole(n), whole(1));
    rounding::law_over_whole(whole(i), n);
    let t = whole(i).over(whole(n));
    if i == 0 {
        assert((0 * u) * u == 0 * (b * u)) by (nonlinear_arith);
        rounding::law_over_exact(whole(i), whole(n), whole(0));
    }
    if i == n {
        assert((b * u) * u == u * (b * u)) by (nonlinear_arith);
        rounding::law_over_exact(whole(i), whole(n), whole(1));
    }
    rounding::law_part_of_the_way(start, end, t);
}

} // verus!
