//! Plane affine transforms.

use crate::geometry::{Point, Rect};
use crate::rounding;
use crate::scalar::{whole, Scalar};
use vstd::prelude::*;

verus! {

/// The map `(x, y) -> (a x + c y + tx, b x + d y + ty)`.
#[derive(Clone, Copy, Debug, PartialEq, Eq, Structural, Hash)]
pub struct Affine2 {
    /// First column, x.
    pub a: Scalar,
    /// First column, y.
    pub b: Scalar,
    /// Second column, x.
    pub c: Scalar,
    /// Second column, y.
    pub d: Scalar,
    /// Translation, x.
    pub tx: Scalar,
    /// Translation, y.
    pub ty: Scalar,
}

/// The corners of a transformed rectangle.
#[derive(Clone, Copy, Debug, PartialEq, Eq, Structural, Hash)]
pub struct Corners {
    /// Top left.
    pub tl: Point,
    /// Top right.
    pub tr: Point,
    /// Bottom right.
    pub br: Point,
    /// Bottom left.
    pub bl: Point,
}

impl Affine2 {
    pub open spec fn spec_identity() -> Affine2 {
        Affine2 { a: whole(1), b: whole(0), c: whole(0), d: whole(1), tx: whole(0), ty: whole(0) }
    }

    /// The map that moves nothing.
    #[verifier::when_used_as_spec(spec_identity)]
    pub fn identity() -> (r: Affine2)
        ensures
            r == Self::spec_identity(),
    {
        Affine2 { a: whole(1), b: whole(0), c: whole(0), d: whole(1), tx: whole(0), ty: whole(0) }
    }

    pub open spec fn spec_translation(dx: Scalar, dy: Scalar) -> Affine2 {
        Affine2 { a: whole(1), b: whole(0), c: whole(0), d: whole(1), tx: dx, ty: dy }
    }

    /// The movement by `(dx, dy)`.
    #[verifier::when_used_as_spec(spec_translation)]
    pub fn translation(dx: Scalar, dy: Scalar) -> (r: Affine2)
        ensures
            r == Self::spec_translation(dx, dy),
    {
        Affine2 { a: whole(1), b: whole(0), c: whole(0), d: whole(1), tx: dx, ty: dy }
    }

    pub open spec fn spec_rotation(cos: Scalar, sin: Scalar) -> Affine2 {
        Affine2 { a: cos, b: sin, c: sin.negate(), d: cos, tx: whole(0), ty: whole(0) }
    }

    /// The rotation by the angle with this cosine and sine.
    #[verifier::when_used_as_spec(spec_rotation)]
    pub fn rotation(cos: Scalar, sin: Scalar) -> (r: Affine2)
        ensures
            r == Self::spec_rotation(cos, sin),
    {
        Affine2 { a: cos, b: sin, c: sin.negate(), d: cos, tx: whole(0), ty: whole(0) }
    }

    pub open spec fn spec_scaling(sx: Scalar, sy: Scalar) -> Affine2 {
        Affine2 { a: sx, b: whole(0), c: whole(0), d: sy, tx: whole(0), ty: whole(0) }
    }

    /// The stretch by `sx` across and `sy` down.
    #[verifier::when_used_as_spec(spec_scaling)]
    pub fn scaling(sx: Scalar, sy: Scalar) -> (r: Affine2)
        ensures
            r == Self::spec_scaling(sx, sy),
    {
        Affine2 { a: sx, b: whole(0), c: whole(0), d: sy, tx: whole(0), ty: whole(0) }
    }

    pub open spec fn spec_compose(self, m: Affine2) -> Affine2 {
        Affine2 {
            a: self.a.times(m.a).plus(self.c.times(m.b)),
            b: self.b.times(m.a).plus(self.d.times(m.b)),
            c: self.a.times(m.c).plus(self.c.times(m.d)),
            d: self.b.times(m.c).plus(self.d.times(m.d)),
            tx: self.a.times(m.tx).plus(self.c.times(m.ty)).plus(self.tx),
            ty: self.b.times(m.tx).plus(self.d.times(m.ty)).plus(self.ty),
        }
    }

    /// First `m`, then `self`.
    #[verifier::when_used_as_spec(spec_compose)]
    pub fn compose(self, m: Affine2) -> (r: Affine2)
        ensures
            r == self.spec_compose(m),
    {
        Affine2 {
            a: self.a.times(m.a).plus(self.c.times(m.b)),
            b: self.b.times(m.a).plus(self.d.times(m.b)),
            c: self.a.times(m.c).plus(self.c.times(m.d)),
            d: self.b.times(m.c).plus(self.d.times(m.d)),
            tx: self.a.times(m.tx).plus(self.c.times(m.ty)).plus(self.tx),
            ty: self.b.times(m.tx).plus(self.d.times(m.ty)).plus(self.ty),
        }
    }

    pub open spec fn spec_apply(self, p: Point) -> Point {
        Point {
            x: self.a.times(p.x).plus(self.c.times(p.y)).plus(self.tx),
            y: self.b.times(p.x).plus(self.d.times(p.y)).plus(self.ty),
        }
    }

    /// Where `p` goes.
    #[verifier::when_used_as_spec(spec_apply)]
    pub fn apply(self, p: Point) -> (r: Point)
        ensures
            r == self.spec_apply(p),
    {
        Point {
            x: self.a.times(p.x).plus(self.c.times(p.y)).plus(self.tx),
            y: self.b.times(p.x).plus(self.d.times(p.y)).plus(self.ty),
        }
    }

    pub open spec fn spec_is_translate_only(self) -> bool {
        &&& self.a.same(whole(1))
        &&& self.b.same(whole(0))
        &&& self.c.same(whole(0))
        &&& self.d.same(whole(1))
    }

    /// Whether the map only moves.
    #[verifier::when_used_as_spec(spec_is_translate_only)]
    pub fn is_translate_only(self) -> (r: bool)
        ensures
            r == self.spec_is_translate_only(),
    {
        self.a.same(whole(1)) && self.b.same(whole(0)) && self.c.same(whole(0)) && self.d.same(whole(1))
    }

    pub open spec fn spec_is_axis_aligned(self) -> bool {
        self.b.same(whole(0)) && self.c.same(whole(0))
    }

    /// Whether the map neither turns nor shears.
    #[verifier::when_used_as_spec(spec_is_axis_aligned)]
    pub fn is_axis_aligned(self) -> (r: bool)
        ensures
            r == self.spec_is_axis_aligned(),
    {
        self.b.same(whole(0)) && self.c.same(whole(0))
    }

    pub open spec fn spec_uniform_scale(self) -> Scalar {
        let det = self.a.times(self.d).minus(self.b.times(self.c));
        (if det.is_neg() {
            det.negate()
        } else {
            det
        }).sqrt()
    }

    /// The average zoom: the root of the area that a unit square goes to.
    #[verifier::when_used_as_spec(spec_uniform_scale)]
    pub fn uniform_scale(self) -> (r: Scalar)
        ensures
            r == self.spec_uniform_scale(),
    {
        let det = self.a.times(self.d).minus(self.b.times(self.c));
        if det.is_neg() {
            det.negate().sqrt()
        } else {
            det.sqrt()
        }
    }

    pub open spec fn spec_corners(self, rect: Rect) -> Corners {
        Corners {
            tl: self.apply(Point { x: rect.x, y: rect.y }),
            tr: self.apply(Point { x: rect.right(), y: rect.y }),
            br: self.apply(Point { x: rect.right(), y: rect.bottom() }),
            bl: self.apply(Point { x: rect.x, y: rect.bottom() }),
        }
    }

    /// Where the corners of `rect` go.
    #[verifier::when_used_as_spec(spec_corners)]
    pub fn corners(self, rect: Rect) -> (r: Corners)
        ensures
            r == self.spec_corners(rect),
    {
        Corners {
            tl: self.apply(Point { x: rect.x, y: rect.y }),
            tr: self.apply(Point { x: rect.right(), y: rect.y }),
            br: self.apply(Point { x: rect.right(), y: rect.bottom() }),
            bl: self.apply(Point { x: rect.x, y: rect.bottom() }),
        }
    }

    pub open spec fn spec_aabb(self, rect: Rect) -> Rect {
        let c = self.corners(rect);
        let x0 = c.tl.x.at_most(c.tr.x).at_most(c.br.x).at_most(c.bl.x);
        let y0 = c.tl.y.at_most(c.tr.y).at_most(c.br.y).at_most(c.bl.y);
        let x1 = c.tl.x.at_least(c.tr.x).at_least(c.br.x).at_least(c.bl.x);
        let y1 = c.tl.y.at_least(c.tr.y).at_least(c.br.y).at_least(c.bl.y);
        Rect { x: x0, y: y0, width: x1.minus(x0), height: y1.minus(y0) }
    }

    /// The smallest upright rectangle round the transformed `rect`.
    #[verifier::when_used_as_spec(spec_aabb)]
    pub fn aabb(self, rect: Rect) -> (r: Rect)
        ensures
            r == self.spec_aabb(rect),
    {
        let c = self.corners(rect);
        let x0 = c.tl.x.at_most(c.tr.x).at_most(c.br.x).at_most(c.bl.x);
        let y0 = c.tl.y.at_most(c.tr.y).at_most(c.br.y).at_most(c.bl.y);
        let x1 = c.tl.x.at_least(c.tr.x).at_least(c.br.x).at_least(c.bl.x);
        let y1 = c.tl.y.at_least(c.tr.y).at_least(c.br.y).at_least(c.bl.y);
        Rect { x: x0, y: y0, width: x1.minus(x0), height: y1.minus(y0) }
    }
}

/// A transform whose numbers are of ordinary size.
pub open spec fn ordinary(m: Affine2) -> bool {
    &&& rounding::ordinary(m.a) && rounding::ordinary(m.b) && rounding::ordinary(m.c)
    &&& rounding::ordinary(m.d) && rounding::ordinary(m.tx) && rounding::ordinary(m.ty)
}

/// Whether two points are at the same place.
pub open spec fn same_place(p: Point, q: Point) -> bool {
    &&& p.x.is_finite() && p.y.is_finite() && q.x.is_finite() && q.y.is_finite()
    &&& p.x.val() == q.x.val() && p.y.val() == q.y.val()
}

proof fn lemma_nothing(a: Scalar)
    requires
        a.is_finite(),
    ensures
        a.times(whole(0)).is_finite(),
        a.times(whole(0)).val() == 0,
        whole(0).times(a).is_finite(),
        whole(0).times(a).val() == 0,
{
    rounding::law_zero_and_one();
    let v = a.val();
    let u = rounding::unit();
    assert(v * 0 == 0 * u) by (nonlinear_arith);
    rounding::law_times_exact(a, whole(0), whole(0));
    rounding::law_times_commutes(a, whole(0));
}

proof fn lemma_all(a: Scalar)
    requires
        a.is_finite(),
    ensures
        a.times(whole(1)) == a,
        whole(1).times(a) == a,
{
    crate::scalar::law_times_one(a);
    rounding::law_times_commutes(a, whole(1));
}

/// Adding nothing, on either side.
proof fn lemma_nothing_more(a: Scalar, z: Scalar)
    requires
        a.is_finite(),
        z.is_finite(),
        z.val() == 0,
    ensures
        a.plus(z).is_finite(),
        a.plus(z).val() == a.val(),
        z.plus(a).is_finite(),
        z.plus(a).val() == a.val(),
{
    crate::scalar::law_plus_exact(a, z, a);
    crate::scalar::law_plus_commutes(a, z);
}

/// A movement moves every point by as much, a stretch from the origin stretches it, and
/// a turn takes the point to its right to the cosine and sine, the point below to the
/// point at a right angle of that.
pub proof fn law_what_transforms_do(p: Point, v: Point)
    requires
        rounding::ordinary(p.x),
        rounding::ordinary(p.y),
        rounding::ordinary(v.x),
        rounding::ordinary(v.y),
    ensures
        same_place(
            Affine2::translation(v.x, v.y).apply(p),
            Point { x: p.x.plus(v.x), y: p.y.plus(v.y) },
        ),
        v.x.times(p.x).is_finite() && v.y.times(p.y).is_finite() ==> same_place(
            Affine2::scaling(v.x, v.y).apply(p),
            Point { x: v.x.times(p.x), y: v.y.times(p.y) },
        ),
        same_place(Affine2::rotation(v.x, v.y).apply(Point { x: whole(1), y: whole(0) }), v),
        same_place(
            Affine2::rotation(v.x, v.y).apply(Point { x: whole(0), y: whole(1) }),
            Point { x: v.y.negate(), y: v.x },
        ),
        same_place(Affine2::identity().apply(p), p),
{
    rounding::law_zero_and_one();
    rounding::law_negate_exact(v.y);
    lemma_all(p.x);
    lemma_all(p.y);
    lemma_all(v.x);
    lemma_all(v.y);
    lemma_all(v.y.negate());
    lemma_nothing(p.x);
    lemma_nothing(p.y);
    lemma_nothing(v.x);
    lemma_nothing(v.y);
    lemma_nothing(v.y.negate());
    let zx = whole(0).times(p.x);
    let zy = whole(0).times(p.y);
    lemma_nothing_more(p.x, zy);
    lemma_nothing_more(p.y, zx);
    lemma_nothing_more(p.x.plus(zy), whole(0));
    lemma_nothing_more(zx.plus(p.y), whole(0));
    rounding::law_plus_same(p.x.plus(zy), p.x, v.x);
    rounding::law_plus_same(zx.plus(p.y), p.y, v.y);
    rounding::law_plus_finite(p.x, v.x);
    rounding::law_plus_finite(p.y, v.y);
    if v.x.times(p.x).is_finite() && v.y.times(p.y).is_finite() {
        lemma_nothing_more(v.x.times(p.x), zy);
        lemma_nothing_more(v.y.times(p.y), zx);
        lemma_nothing_more(v.x.times(p.x).plus(zy), whole(0));
        lemma_nothing_more(zx.plus(v.y.times(p.y)), whole(0));
    }
    let n = v.y.negate();
    lemma_nothing_more(v.x, n.times(whole(0)));
    lemma_nothing_more(v.x.plus(n.times(whole(0))), whole(0));
    lemma_nothing_more(v.y, v.x.times(whole(0)));
    lemma_nothing_more(v.y.plus(v.x.times(whole(0))), whole(0));
    lemma_nothing_more(n, v.x.times(whole(0)));
    lemma_nothing_more(v.x.times(whole(0)).plus(n), whole(0));
    lemma_nothing_more(v.x, v.y.times(whole(0)));
    lemma_nothing_more(v.y.times(whole(0)).plus(v.x), whole(0));
}

/// A composed transform takes the origin where the outer one takes the place to which
/// the inner one takes it; and without its movement the outer one takes the inner one's
/// axes to those of the composed transform.
pub proof fn law_compose_is_the_inner_one_first(outer: Affine2, inner: Affine2)
    ensures
        outer.compose(inner).tx == outer.apply(Point { x: inner.tx, y: inner.ty }).x,
        outer.compose(inner).ty == outer.apply(Point { x: inner.tx, y: inner.ty }).y,
        ({
            let turn = Affine2 { tx: whole(0), ty: whole(0), ..outer };
            let m = outer.compose(inner);
            let right = turn.apply(Point { x: inner.a, y: inner.b });
            let down = turn.apply(Point { x: inner.c, y: inner.d });
            &&& m.a.is_finite() && m.b.is_finite() ==> same_place(
                Point { x: m.a, y: m.b },
                right,
            )
            &&& m.c.is_finite() && m.d.is_finite() ==> same_place(Point { x: m.c, y: m.d }, down)
        }),
{
    rounding::law_zero_and_one();
    let m = outer.compose(inner);
    if m.a.is_finite() && m.b.is_finite() {
        lemma_nothing_more(m.a, whole(0));
        lemma_nothing_more(m.b, whole(0));
    }
    if m.c.is_finite() && m.d.is_finite() {
        lemma_nothing_more(m.c, whole(0));
        lemma_nothing_more(m.d, whole(0));
    }
}

/// The upright rectangle round a transformed one starts no further right or down than
/// any of its corners, and at one of them each way.
pub proof fn law_aabb_starts_at_a_corner(m: Affine2, rect: Rect)
    requires
        !m.corners(rect).tl.x.is_nan() && !m.corners(rect).tr.x.is_nan(),
        !m.corners(rect).br.x.is_nan() && !m.corners(rect).bl.x.is_nan(),
        !m.corners(rect).tl.y.is_nan() && !m.corners(rect).tr.y.is_nan(),
        !m.corners(rect).br.y.is_nan() && !m.corners(rect).bl.y.is_nan(),
    ensures
        ({
            let c = m.corners(rect);
            let r = m.aabb(rect);
            &&& r.x.le(c.tl.x) && r.x.le(c.tr.x) && r.x.le(c.br.x) && r.x.le(c.bl.x)
            &&& r.y.le(c.tl.y) && r.y.le(c.tr.y) && r.y.le(c.br.y) && r.y.le(c.bl.y)
            &&& r.x == c.tl.x || r.x == c.tr.x || r.x == c.br.x || r.x == c.bl.x
            &&& r.y == c.tl.y || r.y == c.tr.y || r.y == c.br.y || r.y == c.bl.y
        }),
{
    reveal(Scalar::spec_le);
    reveal(Scalar::spec_lt);
}

/// The upright rectangle round one that is only moved, in steps, is that one moved.
pub proof fn law_aabb_of_a_moved_rectangle(rect: Rect, dx: Scalar, dy: Scalar, x: int, y: int, w: int, h: int, nx: int, ny: int)
    requires
        crate::geometry::in_steps(rect, x, y, w, h),
        w >= 0,
        h >= 0,
        rounding::in_steps(dx, nx),
        rounding::in_steps(dy, ny),
        rounding::size(nx) <= 0x40_0000,
        rounding::size(ny) <= 0x40_0000,
    ensures
        ({
            let r = Affine2::translation(dx, dy).aabb(rect);
            &&& rounding::in_steps(r.x, x + nx) && rounding::in_steps(r.y, y + ny)
            &&& rounding::in_steps(r.width, w) && rounding::in_steps(r.height, h)
        }),
{
    crate::geometry::law_edges_in_steps(rect, x, y, w, h);
    let m = Affine2::translation(dx, dy);
    let c = m.corners(rect);
    lemma_moved(rect.x, rect.y, dx, dy, x, y, nx, ny);
    lemma_moved(rect.right(), rect.y, dx, dy, x + w, y, nx, ny);
    lemma_moved(rect.right(), rect.bottom(), dx, dy, x + w, y + h, nx, ny);
    lemma_moved(rect.x, rect.bottom(), dx, dy, x, y + h, nx, ny);
    reveal(Scalar::spec_lt);
    rounding::law_steps();
    let st = rounding::step();
    assert((x + nx) * st <= (x + w + nx) * st && (y + ny) * st <= (y + h + ny) * st) by (nonlinear_arith)
        requires
            w >= 0,
            h >= 0,
            st > 0,
    ;
    let x0 = c.tl.x.at_most(c.tr.x).at_most(c.br.x).at_most(c.bl.x);
    let y0 = c.tl.y.at_most(c.tr.y).at_most(c.br.y).at_most(c.bl.y);
    let x1 = c.tl.x.at_least(c.tr.x).at_least(c.br.x).at_least(c.bl.x);
    let y1 = c.tl.y.at_least(c.tr.y).at_least(c.br.y).at_least(c.bl.y);
    assert(rounding::in_steps(x0, x + nx) && rounding::in_steps(x1, x + w + nx));
    assert(rounding::in_steps(y0, y + ny) && rounding::in_steps(y1, y + h + ny));
    rounding::law_minus_steps(x1, x0, x + w + nx, x + nx);
    rounding::law_minus_steps(y1, y0, y + h + ny, y + ny);
}

proof fn lemma_moved(px: Scalar, py: Scalar, dx: Scalar, dy: Scalar, x: int, y: int, nx: int, ny: int)
    requires
        rounding::in_steps(px, x),
        rounding::in_steps(py, y),
        rounding::in_steps(dx, nx),
        rounding::in_steps(dy, ny),
        rounding::size(x + nx) <= 0x100_0000,
        rounding::size(y + ny) <= 0x100_0000,
    ensures
        rounding::in_steps(Affine2::translation(dx, dy).apply(Point { x: px, y: py }).x, x + nx),
        rounding::in_steps(Affine2::translation(dx, dy).apply(Point { x: px, y: py }).y, y + ny),
{
    rounding::law_zero_and_one();
    lemma_all(px);
    lemma_all(py);
    lemma_nothing(px);
    lemma_nothing(py);
    let zx = whole(0).times(px);
    let zy = whole(0).times(py);
    lemma_nothing_more(px, zy);
    lemma_nothing_more(py, zx);
    rounding::law_plus_steps(px.plus(zy), dx, x, nx);
    rounding::law_plus_steps(zx.plus(py), dy, y, ny);
}

/// A turn on top of nothing is that turn: its right axis points along the cosine and
/// sine.
pub proof fn law_turn_of_the_identity(cos: Scalar, sin: Scalar)
    requires
        cos.is_finite(),
        sin.is_finite(),
    ensures
        same_place(
            Point {
                x: Affine2::identity().compose(Affine2::rotation(cos, sin)).a,
                y: Affine2::identity().compose(Affine2::rotation(cos, sin)).b,
            },
            Point { x: cos, y: sin },
        ),
{
    rounding::law_zero_and_one();
    lemma_all(cos);
    lemma_all(sin);
    lemma_nothing(cos);
    lemma_nothing(sin);
    lemma_nothing_more(cos, whole(0).times(sin));
    lemma_nothing_more(sin, whole(0).times(cos));
}

/// A stretch on top of nothing is that stretch.
pub proof fn law_stretch_of_the_identity(sx: Scalar, sy: Scalar)
    requires
        sx.is_finite(),
        sy.is_finite(),
    ensures
        same_place(
            Point {
                x: Affine2::identity().compose(Affine2::scaling(sx, sy)).a,
                y: Affine2::identity().compose(Affine2::scaling(sx, sy)).d,
            },
            Point { x: sx, y: sy },
        ),
{
    rounding::law_zero_and_one();
    lemma_all(sx);
    lemma_all(sy);
    lemma_nothing(whole(0));
    lemma_nothing_more(sx, whole(0).times(whole(0)));
    lemma_nothing_more(sy, whole(0).times(whole(0)));
}

} // verus!
