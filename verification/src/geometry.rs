//! Rectangles, points, colors and affine transforms.

use crate::rounding;
use crate::scalar::{whole, Scalar};
use vstd::prelude::*;

verus! {

/// An axis-aligned rectangle.
#[derive(Clone, Copy, Debug, PartialEq, Eq, Structural, Hash)]
pub struct Rect {
    /// Left edge.
    pub x: Scalar,
    /// Top edge.
    pub y: Scalar,
    /// Extent to the right.
    pub width: Scalar,
    /// Extent downwards.
    pub height: Scalar,
}

/// A position, or a movement.
#[derive(Clone, Copy, Debug, PartialEq, Eq, Structural, Hash)]
pub struct Point {
    /// Rightwards.
    pub x: Scalar,
    /// Downwards.
    pub y: Scalar,
}

/// A straight (not premultiplied) RGBA color.
#[derive(Clone, Copy, Debug, PartialEq, Eq, Structural, Hash)]
pub struct Color {
    /// Red.
    pub r: Scalar,
    /// Green.
    pub g: Scalar,
    /// Blue.
    pub b: Scalar,
    /// Opacity.
    pub a: Scalar,
}

impl Point {
    pub open spec fn spec_new(x: Scalar, y: Scalar) -> Point {
        Point { x, y }
    }

    /// The point at `(x, y)`.
    #[verifier::when_used_as_spec(spec_new)]
    pub fn new(x: Scalar, y: Scalar) -> (r: Point)
        ensures
            r == Self::spec_new(x, y),
    {
        Point { x, y }
    }

    pub open spec fn spec_zero() -> Point {
        Point { x: whole(0), y: whole(0) }
    }

    /// The origin; no movement.
    #[verifier::when_used_as_spec(spec_zero)]
    pub fn zero() -> (r: Point)
        ensures
            r == Self::spec_zero(),
    {
        Point { x: whole(0), y: whole(0) }
    }
}

impl Color {
    pub open spec fn spec_new(r: Scalar, g: Scalar, b: Scalar, a: Scalar) -> Color {
        Color { r, g, b, a }
    }

    /// The color with these channels.
    #[verifier::when_used_as_spec(spec_new)]
    pub fn new(r: Scalar, g: Scalar, b: Scalar, a: Scalar) -> (c: Color)
        ensures
            c == Self::spec_new(r, g, b, a),
    {
        Color { r, g, b, a }
    }

    pub open spec fn spec_clear() -> Color {
        Color { r: whole(0), g: whole(0), b: whole(0), a: whole(0) }
    }

    /// Fully transparent black.
    #[verifier::when_used_as_spec(spec_clear)]
    pub fn clear() -> (c: Color)
        ensures
            c == Self::spec_clear(),
    {
        Color { r: whole(0), g: whole(0), b: whole(0), a: whole(0) }
    }

    pub open spec fn spec_black(a: Scalar) -> Color {
        Color { r: whole(0), g: whole(0), b: whole(0), a }
    }

    /// Black at opacity `a`.
    #[verifier::when_used_as_spec(spec_black)]
    pub fn black(a: Scalar) -> (c: Color)
        ensures
            c == Self::spec_black(a),
    {
        Color { r: whole(0), g: whole(0), b: whole(0), a }
    }

    pub open spec fn spec_white(a: Scalar) -> Color {
        Color { r: whole(1), g: whole(1), b: whole(1), a }
    }

    /// White at opacity `a`.
    #[verifier::when_used_as_spec(spec_white)]
    pub fn white(a: Scalar) -> (c: Color)
        ensures
            c == Self::spec_white(a),
    {
        Color { r: whole(1), g: whole(1), b: whole(1), a }
    }

    pub open spec fn spec_with_alpha(self, a: Scalar) -> Color {
        Color { r: self.r, g: self.g, b: self.b, a }
    }

    /// The same color at opacity `a`.
    #[verifier::when_used_as_spec(spec_with_alpha)]
    pub fn with_alpha(self, a: Scalar) -> (c: Color)
        ensures
            c == self.spec_with_alpha(a),
    {
        Color { r: self.r, g: self.g, b: self.b, a }
    }

    pub open spec fn spec_times(self, other: Color) -> Color {
        Color {
            r: self.r.times(other.r),
            g: self.g.times(other.g),
            b: self.b.times(other.b),
            a: self.a.times(other.a),
        }
    }

    /// The product, channel by channel.
    #[verifier::when_used_as_spec(spec_times)]
    pub fn times(self, other: Color) -> (c: Color)
        ensures
            c == self.spec_times(other),
    {
        Color {
            r: self.r.times(other.r),
            g: self.g.times(other.g),
            b: self.b.times(other.b),
            a: self.a.times(other.a),
        }
    }

    pub open spec fn spec_mix(self, other: Color, t: Scalar) -> Color {
        Color {
            r: self.r.plus(other.r.minus(self.r).times(t)),
            g: self.g.plus(other.g.minus(self.g).times(t)),
            b: self.b.plus(other.b.minus(self.b).times(t)),
            a: self.a.plus(other.a.minus(self.a).times(t)),
        }
    }

    /// The color a fraction `t` of the way to `other`, channel by channel.
    #[verifier::when_used_as_spec(spec_mix)]
    pub fn mix(self, other: Color, t: Scalar) -> (c: Color)
        ensures
            c == self.spec_mix(other, t),
    {
        Color {
            r: self.r.plus(other.r.minus(self.r).times(t)),
            g: self.g.plus(other.g.minus(self.g).times(t)),
            b: self.b.plus(other.b.minus(self.b).times(t)),
            a: self.a.plus(other.a.minus(self.a).times(t)),
        }
    }
}

impl Rect {
    pub open spec fn spec_zero() -> Rect {
        Rect { x: whole(0), y: whole(0), width: whole(0), height: whole(0) }
    }

    /// The empty rectangle at the origin.
    #[verifier::when_used_as_spec(spec_zero)]
    pub fn zero() -> (r: Rect)
        ensures
            r == Self::spec_zero(),
    {
        Rect { x: whole(0), y: whole(0), width: whole(0), height: whole(0) }
    }

    pub open spec fn spec_new(x: Scalar, y: Scalar, width: Scalar, height: Scalar) -> Rect {
        Rect { x, y, width, height }
    }

    /// The rectangle of this size with its top-left corner at `(x, y)`.
    #[verifier::when_used_as_spec(spec_new)]
    pub fn new(x: Scalar, y: Scalar, width: Scalar, height: Scalar) -> (r: Rect)
        ensures
            r == Self::spec_new(x, y, width, height),
    {
        Rect { x, y, width, height }
    }

    pub open spec fn spec_right(self) -> Scalar {
        self.x.plus(self.width)
    }

    /// The right edge.
    #[verifier::when_used_as_spec(spec_right)]
    pub fn right(self) -> (r: Scalar)
        ensures
            r == self.spec_right(),
    {
        self.x.plus(self.width)
    }

    pub open spec fn spec_bottom(self) -> Scalar {
        self.y.plus(self.height)
    }

    /// The bottom edge.
    #[verifier::when_used_as_spec(spec_bottom)]
    pub fn bottom(self) -> (r: Scalar)
        ensures
            r == self.spec_bottom(),
    {
        self.y.plus(self.height)
    }

    pub open spec fn spec_contains(self, x: Scalar, y: Scalar) -> bool {
        &&& self.x.le(x)
        &&& x.lt(self.spec_right())
        &&& self.y.le(y)
        &&& y.lt(self.spec_bottom())
    }

    /// Whether the point lies inside; the right and bottom edges are outside.
    #[verifier::when_used_as_spec(spec_contains)]
    pub fn contains(self, x: Scalar, y: Scalar) -> (r: bool)
        ensures
            r == self.spec_contains(x, y),
    {
        self.x.le(x) && x.lt(self.right()) && self.y.le(y) && y.lt(self.bottom())
    }

    pub open spec fn spec_is_empty(self) -> bool {
        self.width.le(whole(0)) || self.height.le(whole(0))
    }

    /// Whether the width or the height is not positive.
    #[verifier::when_used_as_spec(spec_is_empty)]
    pub fn is_empty(self) -> (r: bool)
        ensures
            r == self.spec_is_empty(),
    {
        self.width.le(whole(0)) || self.height.le(whole(0))
    }

    pub open spec fn spec_inset(self, by: Scalar) -> Rect {
        Rect {
            x: self.x.plus(by),
            y: self.y.plus(by),
            width: self.width.minus(by.times(whole(2))).at_least(whole(0)),
            height: self.height.minus(by.times(whole(2))).at_least(whole(0)),
        }
    }

    /// The rectangle moved in by `by` on every side; no side turns negative.
    #[verifier::when_used_as_spec(spec_inset)]
    pub fn inset(self, by: Scalar) -> (r: Rect)
        ensures
            r == self.spec_inset(by),
    {
        Rect {
            x: self.x.plus(by),
            y: self.y.plus(by),
            width: self.width.minus(by.times(whole(2))).at_least(whole(0)),
            height: self.height.minus(by.times(whole(2))).at_least(whole(0)),
        }
    }

    pub open spec fn spec_intersection(self, other: Rect) -> Option<Rect> {
        let x0 = self.x.at_least(other.x);
        let y0 = self.y.at_least(other.y);
        let x1 = self.right().at_most(other.right());
        let y1 = self.bottom().at_most(other.bottom());
        if x0.lt(x1) && y0.lt(y1) {
            Some(Rect { x: x0, y: y0, width: x1.minus(x0), height: y1.minus(y0) })
        } else {
            None
        }
    }

    /// The part that both rectangles cover, if any.
    #[verifier::when_used_as_spec(spec_intersection)]
    pub fn intersection(self, other: Rect) -> (r: Option<Rect>)
        ensures
            r == self.spec_intersection(other),
    {
        let x0 = self.x.at_least(other.x);
        let y0 = self.y.at_least(other.y);
        let x1 = self.right().at_most(other.right());
        let y1 = self.bottom().at_most(other.bottom());
        if x0.lt(x1) && y0.lt(y1) {
            Some(Rect { x: x0, y: y0, width: x1.minus(x0), height: y1.minus(y0) })
        } else {
            None
        }
    }
}

/// A rectangle without extent holds no point.
pub proof fn law_empty_contains_nothing(rect: Rect, x: Scalar, y: Scalar)
    requires
        rect.x.is_finite(),
        rect.y.is_finite(),
        rect.width.is_finite(),
        rect.height.is_finite(),
        rect.width.val() == 0 || rect.height.val() == 0,
    ensures
        !rect.contains(x, y),
{
    reveal(Scalar::spec_lt);
    reveal(Scalar::spec_le);
    if rect.width.val() == 0 {
        crate::scalar::law_plus_exact(rect.x, rect.width, rect.x);
    } else {
        crate::scalar::law_plus_exact(rect.y, rect.height, rect.y);
    }
}

/// The intersection of two rectangles lies to the right of both left edges and
/// below both top edges.
pub proof fn law_intersection_starts_inside(a: Rect, b: Rect, x: Scalar, y: Scalar)
    requires
        a.intersection(b) is Some,
        a.intersection(b)->0.contains(x, y),
    ensures
        a.x.is_nan() || a.x.le(x),
        b.x.is_nan() || b.x.le(x),
        a.y.is_nan() || a.y.le(y),
        b.y.is_nan() || b.y.le(y),
{
    reveal(Scalar::spec_lt);
    reveal(Scalar::spec_le);
}

/// Whether a channel lies a fraction `t` of the way from `a` to `b`, up to rounding.
pub open spec fn part_way(a: Scalar, b: Scalar, t: Scalar, got: Scalar) -> bool {
    let u = rounding::unit();
    &&& got.is_finite()
    &&& 0x10_0000 * rounding::apart(
        got.val() * u,
        a.val() * (u - t.val()) + b.val() * t.val(),
    ) <= (rounding::size(a.val()) + rounding::size(b.val()) + 0x10_0000) * u
}

/// A color whose channels are of ordinary size.
pub open spec fn ordinary(c: Color) -> bool {
    &&& rounding::ordinary(c.r) && rounding::ordinary(c.g)
    &&& rounding::ordinary(c.b) && rounding::ordinary(c.a)
}

/// Whether two colors have equal channels.
pub open spec fn alike(a: Color, b: Color) -> bool {
    &&& a.r.val() == b.r.val() && a.g.val() == b.g.val()
    &&& a.b.val() == b.b.val() && a.a.val() == b.a.val()
}

/// A mixed color lies as far between the two as the fraction says, in every channel: it
/// is the first one at 0, and the same one where both are the same.
pub proof fn law_mix_is_part_of_the_way(a: Color, b: Color, t: Scalar)
    requires
        ordinary(a),
        ordinary(b),
        t.is_finite(),
        0 <= t.val() <= rounding::unit(),
    ensures
        part_way(a.r, b.r, t, a.mix(b, t).r),
        part_way(a.g, b.g, t, a.mix(b, t).g),
        part_way(a.b, b.b, t, a.mix(b, t).b),
        part_way(a.a, b.a, t, a.mix(b, t).a),
        t.val() == 0 ==> alike(a.mix(b, t), a),
        alike(a, b) ==> alike(a.mix(b, t), a),
{
    rounding::law_part_of_the_way(a.r, b.r, t);
    rounding::law_part_of_the_way(a.g, b.g, t);
    rounding::law_part_of_the_way(a.b, b.b, t);
    rounding::law_part_of_the_way(a.a, b.a, t);
}

/// Opaque white as a tint changes no color, a clear tint leaves none to see, and the
/// order of two tints does not matter.
pub proof fn law_tints(c: Color, d: Color)
    requires
        ordinary(c),
    ensures
        c.times(Color::white(whole(1))) == c,
        c.times(Color::clear()).a.val() == 0,
        c.times(d) == d.times(c),
        c.times(Color::white(d.a)).r == c.r && c.times(Color::white(d.a)).g == c.g && c.times(
            Color::white(d.a),
        ).b == c.b,
{
    crate::scalar::law_times_one(c.r);
    crate::scalar::law_times_one(c.g);
    crate::scalar::law_times_one(c.b);
    crate::scalar::law_times_one(c.a);
    rounding::law_times_commutes(c.r, d.r);
    rounding::law_times_commutes(c.g, d.g);
    rounding::law_times_commutes(c.b, d.b);
    rounding::law_times_commutes(c.a, d.a);
    rounding::law_zero_and_one();
    let v = c.a.val();
    let u = rounding::unit();
    assert(v * 0 == 0 * u) by (nonlinear_arith);
    rounding::law_times_exact(c.a, whole(0), whole(0));
}

/// A rectangle at `(x, y)`, `w` wide and `h` high, in steps of the 256th part of a pixel.
pub open spec fn in_steps(r: Rect, x: int, y: int, w: int, h: int) -> bool {
    &&& rounding::in_steps(r.x, x) && rounding::in_steps(r.y, y)
    &&& rounding::in_steps(r.width, w) && rounding::in_steps(r.height, h)
    &&& rounding::size(x) + rounding::size(w) <= 0x40_0000
    &&& rounding::size(y) + rounding::size(h) <= 0x40_0000
}

/// The edges of a rectangle in steps.
pub proof fn law_edges_in_steps(r: Rect, x: int, y: int, w: int, h: int)
    requires
        in_steps(r, x, y, w, h),
    ensures
        rounding::in_steps(r.right(), x + w),
        rounding::in_steps(r.bottom(), y + h),
{
    rounding::law_plus_steps(r.x, r.width, x, w);
    rounding::law_plus_steps(r.y, r.height, y, h);
}

/// A rectangle in steps holds the points from its left edge to before its right edge, and
/// from its top edge to before its bottom edge.
pub proof fn law_contains_in_steps(r: Rect, x: int, y: int, w: int, h: int, px: Scalar, py: Scalar)
    requires
        in_steps(r, x, y, w, h),
        px.is_finite(),
        py.is_finite(),
    ensures
        r.contains(px, py) == (x * rounding::step() <= px.val() < (x + w) * rounding::step() && y
            * rounding::step() <= py.val() < (y + h) * rounding::step()),
{
    law_edges_in_steps(r, x, y, w, h);
    reveal(Scalar::spec_le);
    reveal(Scalar::spec_lt);
}

proof fn lemma_greater(a: Scalar, b: Scalar, n: int, m: int)
    requires
        rounding::in_steps(a, n),
        rounding::in_steps(b, m),
    ensures
        rounding::in_steps(
            a.at_least(b),
            if n >= m {
                n
            } else {
                m
            },
        ),
        rounding::in_steps(
            a.at_most(b),
            if n <= m {
                n
            } else {
                m
            },
        ),
{
    rounding::law_steps_compare(a, b, n, m);
    rounding::law_steps_compare(b, a, m, n);
}

/// The intersection of two rectangles holds exactly the points that both hold; where
/// there is none, no point is in both.
pub proof fn law_intersection_is_what_both_hold(
    a: Rect,
    b: Rect,
    ax: int,
    ay: int,
    aw: int,
    ah: int,
    bx: int,
    by: int,
    bw: int,
    bh: int,
    px: Scalar,
    py: Scalar,
)
    requires
        in_steps(a, ax, ay, aw, ah),
        in_steps(b, bx, by, bw, bh),
        px.is_finite(),
        py.is_finite(),
    ensures
        a.intersection(b) matches Some(r) ==> (r.contains(px, py) <==> a.contains(px, py)
            && b.contains(px, py)),
        a.intersection(b) is None ==> !(a.contains(px, py) && b.contains(px, py)),
{
    law_edges_in_steps(a, ax, ay, aw, ah);
    law_edges_in_steps(b, bx, by, bw, bh);
    lemma_greater(a.x, b.x, ax, bx);
    lemma_greater(a.y, b.y, ay, by);
    lemma_greater(a.right(), b.right(), ax + aw, bx + bw);
    lemma_greater(a.bottom(), b.bottom(), ay + ah, by + bh);
    let x0 = a.x.at_least(b.x);
    let y0 = a.y.at_least(b.y);
    let x1 = a.right().at_most(b.right());
    let y1 = a.bottom().at_most(b.bottom());
    let nx0 = if ax >= bx {
        ax
    } else {
        bx
    };
    let ny0 = if ay >= by {
        ay
    } else {
        by
    };
    let nx1 = if ax + aw <= bx + bw {
        ax + aw
    } else {
        bx + bw
    };
    let ny1 = if ay + ah <= by + bh {
        ay + ah
    } else {
        by + bh
    };
    rounding::law_steps_compare(x0, x1, nx0, nx1);
    rounding::law_steps_compare(y0, y1, ny0, ny1);
    rounding::law_minus_steps(x1, x0, nx1, nx0);
    rounding::law_minus_steps(y1, y0, ny1, ny0);
    reveal(Scalar::spec_le);
    reveal(Scalar::spec_lt);
    rounding::law_steps();
    let st = rounding::step();
    assert forall|i: int, j: int| (i <= j) == (#[trigger] (i * st) <= #[trigger] (j * st)) by {
        assert((i <= j) == (i * st <= j * st)) by (nonlinear_arith)
            requires
                st > 0,
        ;
    }
    if nx0 < nx1 && ny0 < ny1 {
        let r = Rect { x: x0, y: y0, width: x1.minus(x0), height: y1.minus(y0) };
        rounding::law_plus_steps(r.x, r.width, nx0, nx1 - nx0);
        rounding::law_plus_steps(r.y, r.height, ny0, ny1 - ny0);
    }
}

/// A rectangle inset in steps lies that far within each edge, where there is room.
pub proof fn law_inset_is_within(r: Rect, by: Scalar, x: int, y: int, w: int, h: int, n: int)
    requires
        in_steps(r, x, y, w, h),
        rounding::in_steps(by, n),
        n >= 0,
        2 * n <= w,
        2 * n <= h,
    ensures
        rounding::in_steps(r.inset(by).x, x + n),
        rounding::in_steps(r.inset(by).y, y + n),
        rounding::in_steps(r.inset(by).width, w - 2 * n),
        rounding::in_steps(r.inset(by).height, h - 2 * n),
{
    rounding::law_one_in_steps();
    rounding::law_plus_steps(r.x, by, x, n);
    rounding::law_plus_steps(r.y, by, y, n);
    rounding::law_times_commutes(by, whole(2));
    rounding::law_whole_times_steps(2, by, n);
    rounding::law_minus_steps(r.width, by.times(whole(2)), w, 2 * n);
    rounding::law_minus_steps(r.height, by.times(whole(2)), h, 2 * n);
    lemma_greater(r.width.minus(by.times(whole(2))), whole(0), w - 2 * n, 0);
    lemma_greater(r.height.minus(by.times(whole(2))), whole(0), h - 2 * n, 0);
}

} // verus!
