//! Colors by hue, saturation and value.

use crate::geometry::Color;
use crate::rounding;
use crate::scalar::{whole, Scalar};
use vstd::prelude::*;

verus! {

/// A color by hue (in degrees), saturation, value and alpha.
#[derive(Clone, Copy, Debug, PartialEq, Eq, Structural)]
pub struct Hsva {
    /// Hue, from 0 to 360.
    pub h: Scalar,
    /// Saturation, from 0 to 1.
    pub s: Scalar,
    /// Value, from 0 to 1.
    pub v: Scalar,
    /// Alpha, from 0 to 1.
    pub a: Scalar,
}

pub open spec fn spec_hsv(h: Scalar, s: Scalar, v: Scalar, a: Scalar) -> Color {
    let turn = h.at_least(whole(0)).over(whole(60));
    let sector = turn.truncated(0x100_0000);
    let f = turn.minus(whole(sector));
    let p = v.times(whole(1).minus(s));
    let q = v.times(whole(1).minus(s.times(f)));
    let t = v.times(whole(1).minus(s.times(whole(1).minus(f))));
    if sector % 6 == 0 {
        Color { r: v, g: t, b: p, a }
    } else if sector % 6 == 1 {
        Color { r: q, g: v, b: p, a }
    } else if sector % 6 == 2 {
        Color { r: p, g: v, b: t, a }
    } else if sector % 6 == 3 {
        Color { r: p, g: q, b: v, a }
    } else if sector % 6 == 4 {
        Color { r: t, g: p, b: v, a }
    } else {
        Color { r: v, g: p, b: q, a }
    }
}

/// The color of this hue, saturation and value: the hue circle has six sectors,
/// between whose edges one channel runs from its least to its greatest.
#[verifier::when_used_as_spec(spec_hsv)]
pub fn hsv(h: Scalar, s: Scalar, v: Scalar, a: Scalar) -> (r: Color)
    ensures
        r == spec_hsv(h, s, v, a),
{
    let turn = h.at_least(whole(0)).over(whole(60));
    let sector: u64 = turn.truncated(0x100_0000);
    let f = turn.minus(whole(sector));
    let p = v.times(whole(1).minus(s));
    let q = v.times(whole(1).minus(s.times(f)));
    let t = v.times(whole(1).minus(s.times(whole(1).minus(f))));
    let side: u64 = sector % 6;
    if side == 0 {
        Color { r: v, g: t, b: p, a }
    } else if side == 1 {
        Color { r: q, g: v, b: p, a }
    } else if side == 2 {
        Color { r: p, g: v, b: t, a }
    } else if side == 3 {
        Color { r: p, g: q, b: v, a }
    } else if side == 4 {
        Color { r: t, g: p, b: v, a }
    } else {
        Color { r: v, g: p, b: q, a }
    }
}

impl Hsva {
    pub open spec fn spec_new(h: Scalar, s: Scalar, v: Scalar, a: Scalar) -> Hsva {
        Hsva { h, s, v, a }
    }

    /// A color.
    #[verifier::when_used_as_spec(spec_new)]
    pub fn new(h: Scalar, s: Scalar, v: Scalar, a: Scalar) -> (r: Hsva)
        ensures
            r == Self::spec_new(h, s, v, a),
    {
        Hsva { h, s, v, a }
    }

    pub open spec fn spec_opaque(h: Scalar, s: Scalar, v: Scalar) -> Hsva {
        Hsva { h, s, v, a: whole(1) }
    }

    /// An opaque color.
    #[verifier::when_used_as_spec(spec_opaque)]
    pub fn opaque(h: Scalar, s: Scalar, v: Scalar) -> (r: Hsva)
        ensures
            r == Self::spec_opaque(h, s, v),
    {
        Hsva { h, s, v, a: whole(1) }
    }

    pub open spec fn spec_to_rgba(self) -> Color {
        hsv(self.h, self.s, self.v, self.a)
    }

    /// The color by red, green and blue.
    #[verifier::when_used_as_spec(spec_to_rgba)]
    pub fn to_rgba(self) -> (r: Color)
        ensures
            r == self.spec_to_rgba(),
    {
        hsv(self.h, self.s, self.v, self.a)
    }
}

/// Whether a number is a fraction.
pub open spec fn fraction(x: Scalar) -> bool {
    x.is_finite() && 0 <= x.val() <= rounding::unit()
}

proof fn lemma_share(v: Scalar, w: Scalar)
    requires
        fraction(v),
        fraction(w),
    ensures
        fraction(v.times(w)),
        v.times(w).val() <= v.val(),
        v.times(w).val() <= w.val(),
        w.val() == 0 ==> v.times(w).val() == 0,
        w.val() == rounding::unit() ==> v.times(w).val() == v.val(),
{
    rounding::law_zero_and_one();
    let a = v.val();
    let b = w.val();
    let u = rounding::unit();
    assert(0 <= a * b <= a * u && a * b <= b * u) by (nonlinear_arith)
        requires
            0 <= a <= u,
            0 <= b <= u,
    ;
    rounding::law_times_bounded(v, w, v);
    rounding::law_times_bounded(v, w, w);
    if b == 0 {
        assert(a * 0 == 0 * u) by (nonlinear_arith);
        rounding::law_times_exact(v, w, whole(0));
    }
    if b == u {
        rounding::law_times_exact(v, w, v);
    }
}

/// The parts of a color: least, falling and rising.
proof fn lemma_channels(s: Scalar, v: Scalar, f: Scalar)
    requires
        fraction(s),
        fraction(v),
        fraction(f),
    ensures
        ({
            let p = v.times(whole(1).minus(s));
            let q = v.times(whole(1).minus(s.times(f)));
            let t = v.times(whole(1).minus(s.times(whole(1).minus(f))));
            &&& p.is_finite() && q.is_finite() && t.is_finite()
            &&& 0 <= p.val() <= q.val() <= v.val()
            &&& p.val() <= t.val() <= v.val()
            &&& f.val() == 0 ==> q.val() == v.val() && t.val() == p.val()
            &&& s.val() == 0 ==> p.val() == v.val()
            &&& s.val() == rounding::unit() ==> p.val() == 0
        }),
{
    rounding::law_zero_and_one();
    rounding::law_rest_of_a_fraction(s);
    rounding::law_rest_of_a_fraction(f);
    let g = whole(1).minus(f);
    lemma_part(s, v, f);
    lemma_part(s, v, g);
    lemma_share(v, whole(1).minus(s));
    if f.val() == 0 {
        lemma_share(s, f);
        lemma_share(s, g);
        rounding::law_rest_of_a_fraction(s.times(f));
        lemma_share(v, whole(1).minus(s.times(f)));
        rounding::law_rest_of_a_fraction(s.times(g));
        rounding::law_minus_same(s, s.times(g));
        rounding::law_times_same(v, whole(1).minus(s), whole(1).minus(s.times(g)));
    }
}

/// A channel that runs between the least and the greatest.
proof fn lemma_part(s: Scalar, v: Scalar, f: Scalar)
    requires
        fraction(s),
        fraction(v),
        fraction(f),
    ensures
        ({
            let p = v.times(whole(1).minus(s));
            let q = v.times(whole(1).minus(s.times(f)));
            &&& q.is_finite()
            &&& 0 <= p.val() <= q.val() <= v.val()
        }),
{
    rounding::law_zero_and_one();
    rounding::law_rest_of_a_fraction(s);
    lemma_share(s, f);
    let w = s.times(f);
    rounding::law_rest_of_a_fraction(w);
    assert(w.le(s)) by {
        reveal(Scalar::spec_le);
    }
    rounding::law_minus_antitone(w, s, whole(1));
    let a = whole(1).minus(s);
    let b = whole(1).minus(w);
    lemma_share(v, a);
    lemma_share(v, b);
    rounding::law_times_commutes(v, a);
    rounding::law_times_commutes(v, b);
    reveal(Scalar::spec_le);
    if v.val() > 0 {
        rounding::law_times_monotone(a, b, v);
    }
}

/// Where a hue lies among the sectors of 60 degrees.
proof fn lemma_sector(h: Scalar, k: u64)
    requires
        h.is_finite(),
        k < 6,
        60 * k * rounding::unit() <= h.val() < 60 * (k + 1) * rounding::unit(),
    ensures
        ({
            let turn = h.at_least(whole(0)).over(whole(60));
            let n = turn.truncated(0x100_0000);
            let f = turn.minus(whole(n));
            &&& fraction(f)
            &&& n == k || n == k + 1 && f.val() == 0
            &&& h.val() == 60 * k * rounding::unit() ==> n == k && f.val() == 0
        }),
{
    rounding::law_zero_and_one();
    rounding::law_unit_is_large();
    let u = rounding::unit();
    assert(60 * k * u == (60 * k) * u && 60 * (k + 1) * u == (60 * (k + 1)) * u) by (nonlinear_arith);
    assert(h.at_least(whole(0)) == h || h.val() == 0 && h.at_least(whole(0)).val() == 0) by {
        reveal(Scalar::spec_lt);
    }
    let g = h.at_least(whole(0));
    crate::scalar::law_whole_exact(60);
    crate::scalar::law_whole_exact((60 * k) as u64);
    crate::scalar::law_whole_exact((60 * (k + 1)) as u64);
    crate::scalar::law_whole_exact(k);
    crate::scalar::law_whole_exact((k + 1) as u64);
    let low = whole((60 * k) as u64);
    let high = whole((60 * (k + 1)) as u64);
    assert(((60 * k) * u) * u == (k * u) * (60 * u)) by (nonlinear_arith);
    assert(((60 * (k + 1)) * u) * u == ((k + 1) * u) * (60 * u)) by (nonlinear_arith);
    rounding::law_over_exact(low, whole(60), whole(k));
    rounding::law_over_exact(high, whole(60), whole((k + 1) as u64));
    assert(low.le(g) && g.le(high)) by {
        reveal(Scalar::spec_le);
        reveal(Scalar::spec_lt);
    }
    rounding::law_over_monotone(low, g, whole(60));
    rounding::law_over_monotone(g, high, whole(60));
    let turn = g.over(whole(60));
    rounding::law_between_is_finite(low.over(whole(60)), turn, high.over(whole(60)));
    assert(k * u <= turn.val() <= (k + 1) * u) by {
        reveal(Scalar::spec_le);
    }
    let n = turn.truncated(0x100_0000);
    assert(whole(0).le(turn)) by {
        reveal(Scalar::spec_le);
        assert(k * u >= 0) by (nonlinear_arith)
            requires
                k >= 0,
                u > 0,
        ;
    }
    assert((k + 1) * u < (k + 2) * u && k * u >= 0) by (nonlinear_arith)
        requires
            u > 0,
            k >= 0,
    ;
    rounding::law_truncated_below(turn, 0x100_0000, (k + 2) as int);
    rounding::law_truncated_is_the_whole_part(turn, 0x100_0000);
    assert(n == k || n == k + 1) by (nonlinear_arith)
        requires
            n * u <= turn.val() < (n + 1) * u,
            k * u <= turn.val() <= (k + 1) * u,
            u > 0,
    ;
    crate::scalar::law_whole_exact(n);
    assert((n + 1) * u == n * u + u) by (nonlinear_arith);
    rounding::law_minus_bounded(turn, whole(n), whole(1));
    if h.val() == (60 * k) * u {
        rounding::law_over_exact(g, whole(60), whole(k));
        assert(n == k) by (nonlinear_arith)
            requires
                n * u <= turn.val() < (n + 1) * u,
                turn.val() == k * u,
                u > 0,
        ;
    }
}

/// The value is the largest channel and no channel falls below the part of it that the
/// saturation leaves: without saturation the color is gray, and with all of it the least
/// channel is nothing. The alpha is handed on.
pub proof fn law_value_is_the_largest_channel(h: Scalar, s: Scalar, v: Scalar, a: Scalar, k: u64)
    requires
        h.is_finite(),
        k < 6,
        60 * k * rounding::unit() <= h.val() < 60 * (k + 1) * rounding::unit(),
        fraction(s),
        fraction(v),
    ensures
        ({
            let c = hsv(h, s, v, a);
            &&& c.a == a
            &&& c.r.val() <= v.val() && c.g.val() <= v.val() && c.b.val() <= v.val()
            &&& c.r.val() == v.val() || c.g.val() == v.val() || c.b.val() == v.val()
            &&& s.val() == 0 ==> c.r.val() == v.val() && c.g.val() == v.val() && c.b.val() == v.val()
            &&& s.val() == rounding::unit() ==> c.r.val() == 0 || c.g.val() == 0 || c.b.val() == 0
        }),
{
    lemma_sector(h, k);
    let turn = h.at_least(whole(0)).over(whole(60));
    let f = turn.minus(whole(turn.truncated(0x100_0000)));
    lemma_channels(s, v, f);
}

/// Going round the hue circle, red leads for the first and the last sixth, green for the
/// second and third, blue for the fourth and fifth; in each sixth the channel that leads
/// next, or led before, comes second.
pub proof fn law_hue_orders_the_channels(h: Scalar, s: Scalar, v: Scalar, a: Scalar, k: u64)
    requires
        h.is_finite(),
        k < 6,
        60 * k * rounding::unit() <= h.val() < 60 * (k + 1) * rounding::unit(),
        fraction(s),
        fraction(v),
    ensures
        ({
            let c = hsv(h, s, v, a);
            let (r, g, b) = (c.r.val(), c.g.val(), c.b.val());
            &&& k == 0 ==> r >= g >= b
            &&& k == 1 ==> g >= r >= b
            &&& k == 2 ==> g >= b >= r
            &&& k == 3 ==> b >= g >= r
            &&& k == 4 ==> b >= r >= g
            &&& k == 5 ==> r >= b >= g
        }),
{
    lemma_sector(h, k);
    let turn = h.at_least(whole(0)).over(whole(60));
    let f = turn.minus(whole(turn.truncated(0x100_0000)));
    lemma_channels(s, v, f);
}

/// At the edges of the sixths lie red, yellow, green, cyan, blue and magenta: the middle
/// channel is level with the least one at the first, third and fifth, and with the
/// greatest one at the others.
pub proof fn law_hue_circle(h: Scalar, s: Scalar, v: Scalar, a: Scalar, k: u64)
    requires
        h.is_finite(),
        k < 6,
        h.val() == 60 * k * rounding::unit(),
        fraction(s),
        fraction(v),
    ensures
        ({
            let c = hsv(h, s, v, a);
            let (r, g, b) = (c.r.val(), c.g.val(), c.b.val());
            &&& k == 0 ==> r == v.val() && g == b
            &&& k == 1 ==> r == v.val() && g == v.val()
            &&& k == 2 ==> g == v.val() && r == b
            &&& k == 3 ==> g == v.val() && b == v.val()
            &&& k == 4 ==> b == v.val() && r == g
            &&& k == 5 ==> r == v.val() && b == v.val()
        }),
{
    rounding::law_zero_and_one();
    let u = rounding::unit();
    assert(60 * k * u < 60 * (k + 1) * u) by (nonlinear_arith)
        requires
            u > 0,
    ;
    lemma_sector(h, k);
    let turn = h.at_least(whole(0)).over(whole(60));
    let f = turn.minus(whole(turn.truncated(0x100_0000)));
    lemma_channels(s, v, f);
}

} // verus!
