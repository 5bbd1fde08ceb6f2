//! What a line on a draw list is: a strip of its thickness around the segment.

use crate::affine::Affine2;
use crate::draw_list::{epsilon, DrawState};
use crate::geometry::{Color, Point};
use crate::rounding;
use crate::scalar::{ratio, whole, Scalar};
use vstd::prelude::*;

verus! {

/// A segment of moderate length, and not too short to have a direction.
pub open spec fn drawable(p0: Point, p1: Point) -> bool {
    let dx = p1.x.val() - p0.x.val();
    let dy = p1.y.val() - p0.y.val();
    &&& p0.x.is_finite() && p0.y.is_finite() && p1.x.is_finite() && p1.y.is_finite()
    &&& rounding::size(dx) <= 0x4000_0000 * rounding::unit()
    &&& rounding::size(dy) <= 0x4000_0000 * rounding::unit()
    &&& 0x40_0000 * rounding::size(dx) > rounding::unit() || 0x40_0000 * rounding::size(dy)
        > rounding::unit()
}

/// A thickness of moderate size.
pub open spec fn thick(t: Scalar) -> bool {
    t.is_finite() && 0 < t.val() <= 0x4000_0000 * rounding::unit()
}

/// Whether `o` is at right angles to the segment from `p0` to `p1`, up to rounding.
pub open spec fn at_right_angles(p0: Point, p1: Point, o: Point, t: Scalar) -> bool {
    let dx = p1.x.val() - p0.x.val();
    let dy = p1.y.val() - p0.y.val();
    &&& 0x10_0000 * rounding::size(o.x.val() * dx + o.y.val() * dy) <= (rounding::size(dx)
        + rounding::size(dy)) * (t.val() + 0x20_0000)
    &&& dx * o.y.val() >= 0
    &&& dy * o.x.val() <= 0
}

/// Whether `o` is half as long as `t`, up to rounding.
pub open spec fn half_as_long(o: Point, t: Scalar) -> bool {
    0x1_0000 * rounding::apart(
        4 * (o.x.val() * o.x.val() + o.y.val() * o.y.val()),
        t.val() * t.val(),
    ) <= (t.val() + 0x100_0000) * (t.val() + 0x100_0000)
}

/// A half.
pub proof fn lemma_half()
    ensures
        ratio(1, 2).is_finite(),
        2 * ratio(1, 2).val() == rounding::unit(),
{
    rounding::law_zero_and_one();
    rounding::law_steps();
    let c = rounding::lemma_number_of_steps(128);
    crate::scalar::law_whole_exact(1);
    crate::scalar::law_whole_exact(2);
    let u = rounding::unit();
    let v = c.val();
    assert(u * u == v * (2 * u)) by (nonlinear_arith)
        requires
            u == 2 * v,
    ;
    rounding::law_over_exact(whole(1), whole(2), c);
}

/// Half the thickness.
proof fn lemma_half_of(t: Scalar)
    requires
        thick(t),
    ensures
        ({
            let h = t.times(ratio(1, 2));
            &&& h.is_finite()
            &&& 0 <= h.val() <= t.val()
            &&& 0x100_0000 * rounding::apart(2 * h.val(), t.val()) <= t.val() + 0x100_0000
        }),
{
    lemma_half();
    rounding::law_zero_and_one();
    let u = rounding::unit();
    let c = ratio(1, 2).val();
    let v = t.val();
    assert(0 <= v * c <= v * u) by (nonlinear_arith)
        requires
            2 * c == u,
            v > 0,
            u > 0,
    ;
    rounding::law_times_bounded(t, ratio(1, 2), t);
    rounding::law_times_rounds(t, ratio(1, 2));
    let h = t.times(ratio(1, 2)).val();
    assert(2 * (v * c) == v * u) by (nonlinear_arith)
        requires
            2 * c == u,
    ;
    assert(0x100_0000 * rounding::apart(2 * h, v) <= v + 0x100_0000) by (nonlinear_arith)
        requires
            0x100_0000 * rounding::apart(h * u, v * c) <= v * c + u * 0x80_0000,
            2 * (v * c) == v * u,
            u > 0,
    ;
}

/// The distance of two coordinates.
proof fn lemma_leg(a: Scalar, b: Scalar)
    requires
        a.is_finite(),
        b.is_finite(),
        rounding::size(b.val() - a.val()) <= 0x4000_0000 * rounding::unit(),
    ensures
        ({
            let d = b.minus(a);
            let exact = b.val() - a.val();
            &&& d.is_finite()
            &&& 0x100_0000 * rounding::apart(d.val(), exact) <= rounding::size(exact)
            &&& exact >= 0 ==> d.val() >= 0
            &&& exact <= 0 ==> d.val() <= 0
        }),
{
    rounding::law_zero_and_one();
    let big = Scalar { bits: 0x7f00_0000 };
    rounding::lemma_big();
    rounding::law_minus_bounded(b, a, big);
    rounding::law_minus_rounds(b, a);
}

/// The square of a leg.
proof fn lemma_leg_squared(d: Scalar)
    requires
        d.is_finite(),
        rounding::size(d.val()) <= 0x8000_0000 * rounding::unit(),
    ensures
        ({
            let q = d.times(d);
            let x = d.val();
            let u = rounding::unit();
            &&& q.is_finite()
            &&& 0 <= q.val() <= 0x5000_0000_0000_0000 * u
            &&& 0x100_0000 * rounding::apart(q.val() * u, x * x) <= x * x + u * 0x80_0000
        }),
{
    rounding::law_zero_and_one();
    rounding::law_unit_is_large();
    let x = d.val();
    let u = rounding::unit();
    assert(0 <= x * x <= 0x4000_0000_0000_0000 * (u * u)) by (nonlinear_arith)
        requires
            rounding::size(x) <= 0x8000_0000 * u,
            u > 0,
    ;
    rounding::law_times_finite(d, d);
    rounding::law_times_rounds(d, d);
    let q = d.times(d).val();
    assert(q <= 0x5000_0000_0000_0000 * u) by (nonlinear_arith)
        requires
            0x100_0000 * rounding::apart(q * u, x * x) <= x * x + u * 0x80_0000,
            0 <= x * x <= 0x4000_0000_0000_0000 * (u * u),
            u >= 0x100_0000,
    ;
}

/// The length of a segment with these legs.
pub open spec fn length(dx: Scalar, dy: Scalar) -> Scalar {
    dx.times(dx).plus(dy.times(dy)).sqrt()
}

/// The length found is the exact one up to rounding.
proof fn lemma_length(dx: Scalar, dy: Scalar)
    requires
        dx.is_finite(),
        dy.is_finite(),
        rounding::size(dx.val()) <= 0x8000_0000 * rounding::unit(),
        rounding::size(dy.val()) <= 0x8000_0000 * rounding::unit(),
        0x80_0000 * rounding::size(dx.val()) > rounding::unit() || 0x80_0000 * rounding::size(
            dy.val(),
        ) > rounding::unit(),
    ensures
        ({
            let l = length(dx, dy);
            let q = dx.val() * dx.val() + dy.val() * dy.val();
            &&& l.is_finite()
            &&& l.val() > 0
            &&& 0x10_0000 * rounding::apart(l.val() * l.val(), q) <= q
            &&& 0x10_0000 * rounding::apart(l.val() * l.val(), q) <= l.val() * l.val()
        }),
{
    rounding::law_zero_and_one();
    rounding::law_unit_is_large();
    let u = rounding::unit();
    let x = dx.val();
    let y = dy.val();
    lemma_leg_squared(dx);
    lemma_leg_squared(dy);
    let a = dx.times(dx);
    let b = dy.times(dy);
    let big = Scalar { bits: 0x7f00_0000 };
    rounding::lemma_big();
    rounding::law_plus_bounded(a, b, big);
    rounding::law_plus_rounds(a, b);
    let s = a.plus(b);
    let q = x * x + y * y;
    let av = a.val();
    let bv = b.val();
    let sv = s.val();
    assert(x * x >= 0 && y * y >= 0) by (nonlinear_arith);
    // Not so short that the steps of the numbers matter.
    let w = u * u;
    assert(0x4000_0000_0000 * q > w) by {
        if 0x80_0000 * rounding::size(x) > u {
            assert(0x4000_0000_0000 * (x * x) > w) by (nonlinear_arith)
                requires
                    0x80_0000 * rounding::size(x) > u,
                    u > 0,
                    w == u * u,
            ;
        } else {
            assert(0x4000_0000_0000 * (y * y) > w) by (nonlinear_arith)
                requires
                    0x80_0000 * rounding::size(y) > u,
                    u > 0,
                    w == u * u,
            ;
        }
    }
    rounding::law_unit_is_vast();
    assert(w >= 0x1_0000_0000_0000_0000_0000_0000 * u) by (nonlinear_arith)
        requires
            w == u * u,
            u >= 0x1_0000_0000_0000_0000_0000_0000,
    ;
    assert(q >= 0x10_0000_0000 * u);
    assert(0x100_0000 * rounding::apart(sv * u, av * u + bv * u) <= av * u + bv * u) by (nonlinear_arith)
        requires
            0x100_0000 * rounding::apart(sv, av + bv) <= rounding::size(av + bv),
            av >= 0,
            bv >= 0,
            u > 0,
    ;
    assert(0x40_0000 * rounding::apart(sv * u, q) <= q);
    assert(sv > 0) by (nonlinear_arith)
        requires
            0x40_0000 * rounding::apart(sv * u, q) <= q,
            q > 0,
            u > 0,
    ;
    rounding::law_sqrt_rounds(s);
}

/// A leg is no longer than twice the length.
proof fn lemma_leg_in_length(x: int, y: int, l: int)
    requires
        l > 0,
        0x10_0000 * rounding::apart(l * l, x * x + y * y) <= l * l,
    ensures
        rounding::size(x) <= 2 * l,
        rounding::size(y) <= 2 * l,
{
    assert(rounding::size(x) <= 2 * l && rounding::size(y) <= 2 * l) by (nonlinear_arith)
        requires
            l > 0,
            x * x + y * y <= 2 * (l * l),
    ;
}

/// A leg over the length, times a number.
proof fn lemma_component(d: Scalar, len: Scalar, half: Scalar)
    requires
        d.is_finite(),
        len.is_finite(),
        half.is_finite(),
        len.val() > 0,
        0 <= half.val() <= 0x4000_0000 * rounding::unit(),
        rounding::size(d.val()) <= 2 * len.val(),
    ensures
        ({
            let o = d.over(len).times(half);
            let h = half.val();
            let l = len.val();
            &&& o.is_finite()
            &&& 0x100_0000 * rounding::apart(o.val() * l, d.val() * h) <= l * (5 * h + 0x80_0000)
            &&& d.val() >= 0 ==> o.val() >= 0
            &&& d.val() <= 0 ==> o.val() <= 0
        }),
{
    rounding::law_zero_and_one();
    rounding::law_unit_is_large();
    crate::scalar::law_whole_exact(2);
    let u = rounding::unit();
    let x = d.val();
    let l = len.val();
    let h = half.val();
    assert(rounding::size(x) * u <= rounding::size(2 * u) * rounding::size(l)) by (nonlinear_arith)
        requires
            rounding::size(x) <= 2 * l,
            l > 0,
            u > 0,
    ;
    assert((x >= 0 ==> x * l >= 0) && (x <= 0 ==> x * l <= 0)) by (nonlinear_arith)
        requires
            l > 0,
    ;
    rounding::law_over_bounded(d, len, whole(2));
    rounding::law_over_rounds(d, len);
    let r = d.over(len);
    let v = r.val();
    assert(rounding::size(v * h) <= 0x1_0000_0000_0000_0000 * (u * u)) by (nonlinear_arith)
        requires
            rounding::size(v) <= 2 * u,
            0 <= h <= 0x4000_0000 * u,
            u > 0,
    ;
    assert((v >= 0 ==> v * h >= 0) && (v <= 0 ==> v * h <= 0)) by (nonlinear_arith)
        requires
            h >= 0,
    ;
    rounding::law_times_finite(r, half);
    rounding::law_times_rounds(r, half);
    let o = r.times(half).val();
    let vh = v * h;
    let e1 = rounding::apart(o * u, vh);
    let e2 = rounding::apart(v * l, x * u);
    assert(rounding::size(vh) <= 2 * (u * h)) by (nonlinear_arith)
        requires
            vh == v * h,
            rounding::size(v) <= 2 * u,
            h >= 0,
    ;
    // Both errors, brought to the same terms.
    let d1 = o * u - vh;
    let d2 = v * l - x * u;
    assert((o * l) * u - (x * h) * u == l * d1 + h * d2) by (nonlinear_arith)
        requires
            d1 == o * u - vh,
            d2 == v * l - x * u,
            vh == v * h,
    ;
    assert(rounding::size(l * d1) == l * e1) by (nonlinear_arith)
        requires
            e1 == rounding::size(d1),
            l > 0,
    ;
    assert(rounding::size(h * d2) == h * e2) by (nonlinear_arith)
        requires
            e2 == rounding::size(d2),
            h >= 0,
    ;
    assert(0x100_0000 * (l * e1) <= l * (2 * (u * h) + u * 0x80_0000)) by (nonlinear_arith)
        requires
            0x100_0000 * e1 <= rounding::size(vh) + u * 0x80_0000,
            rounding::size(vh) <= 2 * (u * h),
            l > 0,
    ;
    assert(0x100_0000 * (h * e2) <= h * (2 * (l * u) + l * u)) by (nonlinear_arith)
        requires
            0x100_0000 * e2 <= rounding::size(x) * u + rounding::size(l) * 0x80_0000,
            rounding::size(x) <= 2 * l,
            u >= 0x80_0000,
            l > 0,
            h >= 0,
    ;
    let total = l * (5 * h + 0x80_0000);
    assert(l * (2 * (u * h) + u * 0x80_0000) + h * (2 * (l * u) + l * u) == total * u)
        by (nonlinear_arith)
        requires
            total == l * (5 * h + 0x80_0000),
    ;
    let g = rounding::apart(o * l, x * h);
    assert(rounding::apart((o * l) * u, (x * h) * u) == g * u) by (nonlinear_arith)
        requires
            g == rounding::apart(o * l, x * h),
            u > 0,
    ;
    assert(0x100_0000 * g <= total) by (nonlinear_arith)
        requires
            0x100_0000 * (g * u) <= total * u,
            u > 0,
    ;
}

/// How far the offset strays from a right angle.
proof fn lemma_right_angle(x: int, y: int, dx: int, dy: int, ox: int, oy: int, l: int, h: int, t: int)
    requires
        l > 0,
        h >= 0,
        rounding::size(x) <= 2 * l,
        rounding::size(y) <= 2 * l,
        0x100_0000 * rounding::apart(ox * l, (-y) * h) <= l * (5 * h + 0x80_0000),
        0x100_0000 * rounding::apart(oy * l, x * h) <= l * (5 * h + 0x80_0000),
        0x100_0000 * rounding::apart(x, dx) <= rounding::size(dx),
        0x100_0000 * rounding::apart(y, dy) <= rounding::size(dy),
        0x100_0000 * rounding::apart(2 * h, t) <= t + 0x100_0000,
        t > 0,
    ensures
        0x10_0000 * rounding::size(ox * dx + oy * dy) <= (rounding::size(dx) + rounding::size(dy)) * (t
            + 0x20_0000),
{
    let r = 5 * h + 0x80_0000;
    let a = ox * l + y * h;
    let b = oy * l - x * h;
    assert((-y) * h == -(y * h)) by (nonlinear_arith);
    let p = ox * x + oy * y;
    assert(l * p == x * a + y * b) by (nonlinear_arith)
        requires
            p == ox * x + oy * y,
            a == ox * l + y * h,
            b == oy * l - x * h,
    ;
    let sx = rounding::size(x);
    let sy = rounding::size(y);
    assert(0x100_0000 * rounding::size(x * a) <= sx * (l * r)) by (nonlinear_arith)
        requires
            0x100_0000 * rounding::size(a) <= l * r,
            sx == rounding::size(x),
    ;
    assert(0x100_0000 * rounding::size(y * b) <= sy * (l * r)) by (nonlinear_arith)
        requires
            0x100_0000 * rounding::size(b) <= l * r,
            sy == rounding::size(y),
    ;
    assert(rounding::size(l * p) == l * rounding::size(p)) by (nonlinear_arith)
        requires
            l > 0,
    ;
    let m = (sx + sy) * r;
    assert(sx * (l * r) + sy * (l * r) == l * m) by (nonlinear_arith)
        requires
            m == (sx + sy) * r,
    ;
    assert(0x100_0000 * rounding::size(p) <= m) by (nonlinear_arith)
        requires
            0x100_0000 * (l * rounding::size(p)) <= l * m,
            l > 0,
    ;
    // From the legs found to the exact ones.
    let ex = rounding::size(dx);
    let ey = rounding::size(dy);
    let k = 3 * h + 0x80_0000;
    lemma_offset_size(ox, -y, l, h);
    lemma_offset_size(oy, x, l, h);
    let fx = dx - x;
    let fy = dy - y;
    assert(ox * dx + oy * dy == p + ox * fx + oy * fy) by (nonlinear_arith)
        requires
            p == ox * x + oy * y,
            fx == dx - x,
            fy == dy - y,
    ;
    assert(0x100_0000 * rounding::size(ox * fx) <= k * ex) by (nonlinear_arith)
        requires
            rounding::size(ox) <= k,
            0x100_0000 * rounding::size(fx) <= ex,
    ;
    assert(0x100_0000 * rounding::size(oy * fy) <= k * ey) by (nonlinear_arith)
        requires
            rounding::size(oy) <= k,
            0x100_0000 * rounding::size(fy) <= ey,
    ;
    let n = ex + ey;
    assert(m <= (2 * n) * r) by (nonlinear_arith)
        requires
            m == (sx + sy) * r,
            sx + sy <= 2 * n,
            r >= 0,
    ;
    assert(k * ex + k * ey == n * k) by (nonlinear_arith)
        requires
            n == ex + ey,
    ;
    assert((2 * n) * r + n * k == n * (2 * r + k)) by (nonlinear_arith);
    assert(n * (2 * r + k) <= n * (16 * (t + 0x20_0000))) by (nonlinear_arith)
        requires
            2 * r + k <= 16 * (t + 0x20_0000),
            n >= 0,
    ;
    assert(n * (16 * (t + 0x20_0000)) == 16 * (n * (t + 0x20_0000))) by (nonlinear_arith);
}

/// How large the offset may be.
proof fn lemma_offset_size(o: int, x: int, l: int, h: int)
    requires
        l > 0,
        h >= 0,
        rounding::size(x) <= 2 * l,
        0x100_0000 * rounding::apart(o * l, x * h) <= l * (5 * h + 0x80_0000),
    ensures
        rounding::size(o) <= 3 * h + 0x80_0000,
{
    let k = 3 * h + 0x80_0000;
    assert(rounding::size(x * h) <= 2 * (l * h)) by (nonlinear_arith)
        requires
            rounding::size(x) <= 2 * l,
            h >= 0,
    ;
    assert(l * (5 * h + 0x80_0000) == 5 * (l * h) + 0x80_0000 * l) by (nonlinear_arith);
    assert(l * h >= 0) by (nonlinear_arith)
        requires
            l > 0,
            h >= 0,
    ;
    assert(rounding::size(o * l) == rounding::size(o) * l) by (nonlinear_arith)
        requires
            l > 0,
    ;
    assert(k * l == 3 * (l * h) + 0x80_0000 * l) by (nonlinear_arith)
        requires
            k == 3 * h + 0x80_0000,
    ;
    assert(rounding::size(o) <= k) by (nonlinear_arith)
        requires
            rounding::size(o) * l <= k * l,
            l > 0,
    ;
}

/// How far the offset strays from half the thickness.
proof fn lemma_offset_length(x: int, y: int, ox: int, oy: int, l: int, h: int, t: int)
    requires
        l > 0,
        h >= 0,
        rounding::size(x) <= 2 * l,
        rounding::size(y) <= 2 * l,
        0x10_0000 * rounding::apart(l * l, x * x + y * y) <= l * l,
        0x100_0000 * rounding::apart(ox * l, (-y) * h) <= l * (5 * h + 0x80_0000),
        0x100_0000 * rounding::apart(oy * l, x * h) <= l * (5 * h + 0x80_0000),
        0x100_0000 * rounding::apart(2 * h, t) <= t + 0x100_0000,
        t > 0,
    ensures
        0x1_0000 * rounding::apart(4 * (ox * ox + oy * oy), t * t) <= (t + 0x100_0000) * (t
            + 0x100_0000),
{
    let r = 5 * h + 0x80_0000;
    let hh = h * h;
    let ll = l * l;
    let q = x * x + y * y;
    lemma_component_squared(ox, -y, l, h, r);
    lemma_component_squared(oy, x, l, h, r);
    assert((-y) * (-y) == y * y) by (nonlinear_arith);
    let w = ox * ox + oy * oy;
    let bound = 8 * (h * r) + r * r;
    assert((ox * ox) * ll + (oy * oy) * ll == w * ll) by (nonlinear_arith)
        requires
            w == ox * ox + oy * oy,
    ;
    assert((x * x) * hh + (y * y) * hh == q * hh) by (nonlinear_arith)
        requires
            q == x * x + y * y,
    ;
    assert(ll > 0) by (nonlinear_arith)
        requires
            ll == l * l,
            l > 0,
    ;
    assert(hh >= 0 && h * r >= 0 && r * r >= 0) by (nonlinear_arith)
        requires
            hh == h * h,
            h >= 0,
            r >= 0,
    ;
    assert(0x10_0000 * rounding::apart(q * hh, ll * hh) <= ll * hh) by (nonlinear_arith)
        requires
            0x10_0000 * rounding::apart(ll, q) <= ll,
            hh >= 0,
    ;
    let f = bound + 16 * hh;
    assert(ll * f == ll * bound + 16 * (ll * hh)) by (nonlinear_arith)
        requires
            f == bound + 16 * hh,
    ;
    assert(ll * hh == hh * ll) by (nonlinear_arith);
    assert(0x100_0000 * rounding::apart(w * ll, hh * ll) <= ll * f);
    assert(rounding::apart(w * ll, hh * ll) == rounding::apart(w, hh) * ll) by (nonlinear_arith)
        requires
            ll > 0,
    ;
    assert(0x100_0000 * rounding::apart(w, hh) <= f) by (nonlinear_arith)
        requires
            0x100_0000 * (rounding::apart(w, hh) * ll) <= ll * f,
            ll > 0,
    ;
    lemma_thickness_squared(w, h, r, t);
}

proof fn lemma_component_squared(o: int, x: int, l: int, h: int, r: int)
    requires
        l > 0,
        h >= 0,
        r >= 0,
        rounding::size(x) <= 2 * l,
        0x100_0000 * rounding::apart(o * l, x * h) <= l * r,
    ensures
        0x200_0000 * rounding::apart((o * o) * (l * l), (x * x) * (h * h)) <= (l * l) * (8 * (h * r) + r
            * r),
{
    let a = o * l;
    let b = x * h;
    let e = rounding::apart(a, b);
    let lr = l * r;
    let lh = l * h;
    assert((o * o) * (l * l) == a * a && (x * x) * (h * h) == b * b) by (nonlinear_arith)
        requires
            a == o * l,
            b == x * h,
    ;
    assert(rounding::size(b) <= 2 * lh) by (nonlinear_arith)
        requires
            b == x * h,
            lh == l * h,
            rounding::size(x) <= 2 * l,
            h >= 0,
    ;
    let sum = 4 * lh + e;
    assert(rounding::apart(a * a, b * b) <= e * sum) by (nonlinear_arith)
        requires
            e == rounding::apart(a, b),
            rounding::size(b) <= 2 * lh,
            sum == 4 * lh + e,
    ;
    assert(0x200_0000 * (e * sum) <= lr * (8 * lh + lr)) by (nonlinear_arith)
        requires
            0x100_0000 * e <= lr,
            0 <= e,
            sum == 4 * lh + e,
            lh >= 0,
    ;
    assert(lr * (8 * lh + lr) == (l * l) * (8 * (h * r) + r * r)) by (nonlinear_arith)
        requires
            lr == l * r,
            lh == l * h,
    ;
}

proof fn lemma_thickness_squared(w: int, h: int, r: int, t: int)
    requires
        h >= 0,
        r == 5 * h + 0x80_0000,
        t > 0,
        0x100_0000 * rounding::apart(w, h * h) <= 8 * (h * r) + r * r + 16 * (h * h),
        0x100_0000 * rounding::apart(2 * h, t) <= t + 0x100_0000,
    ensures
        0x1_0000 * rounding::apart(4 * w, t * t) <= (t + 0x100_0000) * (t + 0x100_0000),
{
    let c = 0x80_0000int;
    let k = t + 0x100_0000;
    let hc = h + c;
    assert(10 * hc <= 6 * k);
    assert(8 * (h * r) + r * r + 16 * (h * h) <= 90 * (hc * hc)) by (nonlinear_arith)
        requires
            r == 5 * h + c,
            hc == h + c,
            h >= 0,
            c >= 0,
    ;
    assert(100 * (hc * hc) <= 36 * (k * k)) by (nonlinear_arith)
        requires
            0 <= 10 * hc <= 6 * k,
    ;
    let d = rounding::apart(2 * h, t);
    assert(4 * (h * h) == (2 * h) * (2 * h)) by (nonlinear_arith);
    assert(rounding::apart((2 * h) * (2 * h), t * t) <= d * (2 * t + d)) by (nonlinear_arith)
        requires
            d == rounding::apart(2 * h, t),
            t > 0,
            h >= 0,
    ;
    assert(0x100_0000 * (d * (2 * t + d)) <= k * (3 * k)) by (nonlinear_arith)
        requires
            0x100_0000 * d <= k,
            0 <= d,
            2 * t + d <= 3 * k,
            k > 0,
    ;
    assert(k * (3 * k) == 3 * (k * k)) by (nonlinear_arith);
    assert(k * k >= 0) by (nonlinear_arith);
}

/// The offset from a segment to either side of a line along it.
proof fn lemma_offset(p0: Point, p1: Point, thickness: Scalar)
    requires
        drawable(p0, p1),
        thick(thickness),
    ensures
        ({
            let dx = p1.x.minus(p0.x);
            let dy = p1.y.minus(p0.y);
            let len = length(dx, dy);
            let half = thickness.times(ratio(1, 2));
            let o = Point {
                x: dy.negate().over(len).times(half),
                y: dx.over(len).times(half),
            };
            &&& !len.le(epsilon())
            &&& !thickness.le(whole(0))
            &&& o.x.is_finite() && o.y.is_finite()
            &&& at_right_angles(p0, p1, o, thickness)
            &&& half_as_long(o, thickness)
        }),
{
    rounding::law_zero_and_one();
    rounding::law_unit_is_large();
    lemma_leg(p0.x, p1.x);
    lemma_leg(p0.y, p1.y);
    let dx = p1.x.minus(p0.x);
    let dy = p1.y.minus(p0.y);
    lemma_length(dx, dy);
    let len = length(dx, dy);
    let half = thickness.times(ratio(1, 2));
    lemma_half_of(thickness);
    let x = dx.val();
    let y = dy.val();
    let l = len.val();
    lemma_leg_in_length(x, y, l);
    rounding::law_negate_exact(dy);
    lemma_component(dy.negate(), len, half);
    lemma_component(dx, len, half);
    let ox = dy.negate().over(len).times(half).val();
    let oy = dx.over(len).times(half).val();
    let ex = p1.x.val() - p0.x.val();
    let ey = p1.y.val() - p0.y.val();
    lemma_right_angle(x, y, ex, ey, ox, oy, l, half.val(), thickness.val());
    lemma_offset_length(x, y, ox, oy, l, half.val(), thickness.val());
    assert(ex * oy >= 0) by (nonlinear_arith)
        requires
            ex >= 0 && oy >= 0 || ex <= 0 && oy <= 0,
    ;
    assert(ey * ox <= 0) by (nonlinear_arith)
        requires
            ey >= 0 && ox <= 0 || ey <= 0 && ox >= 0,
    ;
    lemma_long_enough(x, y, l);
    reveal(Scalar::spec_le);
}

/// A drawable segment is longer than the least length.
proof fn lemma_long_enough(x: int, y: int, l: int)
    requires
        l > 0,
        0x10_0000 * rounding::apart(l * l, x * x + y * y) <= l * l,
        0x41_0000 * rounding::size(x) > rounding::unit() || 0x41_0000 * rounding::size(y)
            > rounding::unit(),
    ensures
        l > epsilon().val(),
        epsilon().is_finite(),
{
    let g = epsilon().val();
    crate::scalar::lemma_mag_form(103, 0x80_0000);
    assert(103 * 0x80_0000 + 0x80_0000 == 0x3400_0000);
    vstd::arithmetic::power2::lemma_pow2_adds(23, 103);
    vstd::arithmetic::power2::lemma_pow2_adds(23, 126);
    vstd::arithmetic::power2::lemma2_to64();
    vstd::arithmetic::power2::lemma_pow2_pos(103);
    assert(rounding::unit() == 0x80_0000 * g);
    let z = if rounding::size(x) >= rounding::size(y) {
        rounding::size(x)
    } else {
        rounding::size(y)
    };
    assert(10 * z > 19 * g);
    assert(z * z <= x * x + y * y) by (nonlinear_arith)
        requires
            z == rounding::size(x) || z == rounding::size(y),
    ;
    if l <= g {
        assert(l * l <= g * g) by (nonlinear_arith)
            requires
                0 < l <= g,
        ;
        assert(100 * (z * z) > 361 * (g * g)) by (nonlinear_arith)
            requires
                10 * z > 19 * g,
                g > 0,
        ;
    }
}

/// The transform that moves nothing leaves every point where it is.
pub proof fn law_identity_moves_nothing(p: Point)
    requires
        p.x.is_finite(),
        p.y.is_finite(),
    ensures
        Affine2::identity().apply(p).x.val() == p.x.val(),
        Affine2::identity().apply(p).y.val() == p.y.val(),
        Affine2::identity().apply(p).x.is_finite(),
        Affine2::identity().apply(p).y.is_finite(),
{
    lemma_kept(p.x, p.y);
    lemma_kept(p.y, p.x);
    crate::scalar::law_plus_commutes(whole(0).times(p.x), whole(1).times(p.y));
}

proof fn lemma_kept(x: Scalar, y: Scalar)
    requires
        x.is_finite(),
        y.is_finite(),
    ensures
        ({
            let r = whole(1).times(x).plus(whole(0).times(y));
            &&& r.is_finite()
            &&& r.val() == x.val()
            &&& r.plus(whole(0)).is_finite()
            &&& r.plus(whole(0)).val() == x.val()
        }),
{
    rounding::law_zero_and_one();
    rounding::law_times_commutes(whole(1), x);
    crate::scalar::law_times_one(x);
    let v = y.val();
    let u = rounding::unit();
    assert(0 * v == 0 * u) by (nonlinear_arith);
    rounding::law_times_exact(whole(0), y, whole(0));
    crate::scalar::law_plus_exact(x, whole(0).times(y), x);
    let r = whole(1).times(x).plus(whole(0).times(y));
    crate::scalar::law_plus_exact(r, whole(0), r);
}

/// A line is a strip around its segment: four corners, one to either side of each end, at
/// right angles to the segment and half the thickness away from it, the first two to the
/// side that lies clockwise of its direction on the screen; in the line's color, under
/// the transform, the tint and the clip in force, and as two triangles that share the
/// strip's diagonal.
pub proof fn law_line_is_a_strip(s: DrawState, p0: Point, p1: Point, thickness: Scalar, color: Color) -> (o: Point)
    requires
        drawable(p0, p1),
        thick(thickness),
        s.vertices.len() + 4 <= u32::MAX,
    ensures
        o.x.is_finite(),
        o.y.is_finite(),
        at_right_angles(p0, p1, o, thickness),
        half_as_long(o, thickness),
        ({
            let after = s.line(p0, p1, thickness, color);
            let n = s.vertices.len() as int;
            let v = after.vertices;
            let i = s.indices.len() as int;
            &&& v.len() == n + 4
            &&& v.subrange(0, n) == s.vertices
            &&& v[n].position == s.transform().apply(Point { x: p0.x.plus(o.x), y: p0.y.plus(o.y) })
            &&& v[n + 1].position == s.transform().apply(
                Point { x: p1.x.plus(o.x), y: p1.y.plus(o.y) },
            )
            &&& v[n + 2].position == s.transform().apply(
                Point { x: p1.x.minus(o.x), y: p1.y.minus(o.y) },
            )
            &&& v[n + 3].position == s.transform().apply(
                Point { x: p0.x.minus(o.x), y: p0.y.minus(o.y) },
            )
            &&& forall|k: int|
                n <= k < n + 4 ==> {
                    &&& (#[trigger] v[k]).color == color.times(s.tint())
                    &&& s.clip() matches Some(c) ==> v[k].clip == c && v[k].clip_enabled == whole(1)
                    &&& s.clip() is None ==> v[k].clip_enabled == whole(0)
                }
            &&& after.indices.len() == i + 6
            &&& after.indices.subrange(0, i) == s.indices
            &&& after.indices[i] == n && after.indices[i + 1] == n + 1 && after.indices[i + 2] == n + 2
            &&& after.indices[i + 3] == n + 2 && after.indices[i + 4] == n + 3 && after.indices[i + 5]
                == n
            &&& after.dropped == s.dropped
        }),
{
    lemma_offset(p0, p1, thickness);
    reveal(DrawState::line);
    reveal(DrawState::quadrangle);
    let dx = p1.x.minus(p0.x);
    let dy = p1.y.minus(p0.y);
    let len = length(dx, dy);
    let half = thickness.times(ratio(1, 2));
    let o = Point { x: dy.negate().over(len).times(half), y: dx.over(len).times(half) };
    let after = s.line(p0, p1, thickness, color);
    assert(after.vertices.subrange(0, s.vertices.len() as int) =~= s.vertices);
    assert(after.indices.subrange(0, s.indices.len() as int) =~= s.indices);
    o
}

/// A line through several points is drawn as a line between each two neighbours: a strip
/// of four corners for each, after those of the ones before.
pub proof fn law_polyline_joins_its_points(s: DrawState, points: Seq<Point>, n: nat, thickness: Scalar, color: Color, k: int)
    requires
        n < points.len(),
        0 <= k < n,
        thick(thickness),
        forall|i: int| 0 <= i < n ==> drawable(#[trigger] points[i], points[i + 1]),
        s.vertices.len() + 4 * n <= u32::MAX,
    ensures
        ({
            let after = s.polyline(points, n, thickness, color);
            let before = s.polyline(points, k as nat, thickness, color);
            let part = before.line(points[k], points[k + 1], thickness, color);
            let m = s.vertices.len() + 4 * k;
            &&& after.vertices.len() == s.vertices.len() + 4 * n
            &&& before.vertices.len() == m
            &&& part.vertices.len() == m + 4
            &&& after.vertices.subrange(0, m + 4) == part.vertices
            &&& after.transforms == s.transforms && after.tints == s.tints && after.clips == s.clips
        }),
    decreases n,
{
    let m = s.vertices.len() + 4 * k;
    let prior = s.polyline(points, (n - 1) as nat, thickness, color);
    let after = s.polyline(points, n, thickness, color);
    if n > 1 {
        law_polyline_joins_its_points(s, points, (n - 1) as nat, thickness, color, 0);
        if k < n - 1 {
            law_polyline_joins_its_points(s, points, (n - 1) as nat, thickness, color, k);
        }
    }
    assert(drawable(points[n - 1], points[n - 1 + 1]));
    let o = law_line_is_a_strip(prior, points[n - 1], points[n as int], thickness, color);
    lemma_line_keeps_the_stacks(prior, points[n - 1], points[n as int], thickness, color);
    assert(prior.vertices.len() == s.vertices.len() + 4 * (n - 1));
    if k < n - 1 {
        let part = s.polyline(points, k as nat, thickness, color).line(
            points[k],
            points[k + 1],
            thickness,
            color,
        );
        assert(after.vertices.subrange(0, m + 4) =~= prior.vertices.subrange(0, m + 4)) by {
            assert(after.vertices.subrange(0, prior.vertices.len() as int) == prior.vertices);
            assert forall|i: int| 0 <= i < m + 4 implies after.vertices[i] == prior.vertices[i] by {
                assert(after.vertices.subrange(0, prior.vertices.len() as int)[i] == after.vertices[i]);
            }
        }
    } else {
        assert(after.vertices.subrange(0, m + 4) =~= after.vertices);
    }
}

proof fn lemma_line_keeps_the_stacks(s: DrawState, p0: Point, p1: Point, thickness: Scalar, color: Color)
    ensures
        ({
            let after = s.line(p0, p1, thickness, color);
            after.transforms == s.transforms && after.tints == s.tints && after.clips == s.clips
        }),
{
    reveal(DrawState::line);
    reveal(DrawState::quadrangle);
}

} // verus!
