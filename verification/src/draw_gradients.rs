//! Gradients along an angle and around a center, and polygons.

use crate::draw_list::{epsilon, DrawList, DrawState, Shades};
use crate::geometry::{Color, Point, Rect};
use crate::scalar::{ratio, whole, Scalar};
use vstd::prelude::*;

verus! {

/// The sum of the first `n` x coordinates, from the first on.
pub open spec fn sum_x(points: Seq<Point>, n: nat) -> Scalar
    decreases n,
{
    if n == 0 {
        whole(0)
    } else {
        sum_x(points, (n - 1) as nat).plus(points[n - 1].x)
    }
}

/// The sum of the first `n` y coordinates, from the first on.
pub open spec fn sum_y(points: Seq<Point>, n: nat) -> Scalar
    decreases n,
{
    if n == 0 {
        whole(0)
    } else {
        sum_y(points, (n - 1) as nat).plus(points[n - 1].y)
    }
}

/// The mean of the points.
pub open spec fn centroid(points: Seq<Point>) -> Point {
    Point {
        x: sum_x(points, points.len()).over(whole(points.len() as u64)),
        y: sum_y(points, points.len()).over(whole(points.len() as u64)),
    }
}

pub open spec fn spec_infinity() -> Scalar {
    Scalar { bits: 0x7f80_0000 }
}

/// Positive infinity.
#[verifier::when_used_as_spec(spec_infinity)]
pub fn infinity() -> (r: Scalar)
    ensures
        r == spec_infinity(),
{
    Scalar { bits: 0x7f80_0000 }
}

/// The corner colors of a gradient along the direction `(cos, sin)`: each
/// corner is projected onto the direction, and takes the color at its share of
/// the projected extent.
pub open spec fn gradient_shades(rect: Rect, start: Color, end: Color, cos: Scalar, sin: Scalar) -> Shades {
    let p0 = rect.x.times(cos).plus(rect.y.times(sin));
    let p1 = rect.right().times(cos).plus(rect.y.times(sin));
    let p2 = rect.right().times(cos).plus(rect.bottom().times(sin));
    let p3 = rect.x.times(cos).plus(rect.bottom().times(sin));
    let low = infinity().at_most(p0).at_most(p1).at_most(p2).at_most(p3);
    let high = infinity().negate().at_least(p0).at_least(p1).at_least(p2).at_least(p3);
    let span = high.minus(low).at_least(epsilon());
    Shades {
        tl: start.mix(end, p0.minus(low).over(span)),
        tr: start.mix(end, p1.minus(low).over(span)),
        br: start.mix(end, p2.minus(low).over(span)),
        bl: start.mix(end, p3.minus(low).over(span)),
    }
}

impl DrawState {
    /// A rectangle whose color runs along the direction `(cos, sin)`.
    pub open spec fn linear_gradient(
        self,
        rect: Rect,
        start: Color,
        end: Color,
        cos: Scalar,
        sin: Scalar,
    ) -> DrawState {
        self.quad_gradient(rect, gradient_shades(rect, start, end, cos, sin))
    }

    /// The first `n` triangles from `center` to the edges of a polygon.
    pub open spec fn polygon(self, points: Seq<Point>, center: Point, n: nat, color: Color) -> DrawState
        decreases n,
    {
        if n == 0 {
            self
        } else {
            let last = if n == points.len() {
                points[0]
            } else {
                points[n as int]
            };
            self.polygon(points, center, (n - 1) as nat, color).triangle(
                center,
                points[n - 1],
                last,
                color,
                color,
                color,
            )
        }
    }

    /// A rectangle whose color runs from its center outwards: a fan of
    /// triangles that reaches its corners, clipped to it.
    pub open spec fn radial_gradient(
        self,
        rect: Rect,
        inner: Color,
        outer: Color,
        apothem: Scalar,
        dirs: Seq<Point>,
    ) -> DrawState {
        if rect.is_empty() {
            self.refused()
        } else {
            let n = dirs.len();
            let center = Point {
                x: rect.x.plus(rect.width.times(ratio(1, 2))),
                y: rect.y.plus(rect.height.times(ratio(1, 2))),
            };
            let reach = rect.width.times(rect.width).plus(
                rect.height.times(rect.height),
            ).sqrt().times(ratio(1, 2)).over(apothem);
            let clipped = self.clip_pushed(rect);
            let base = self.vertices.len() as u32;
            DrawState {
                vertices: self.vertices.push(clipped.vertex(center, inner)) + Seq::new(
                    n,
                    |i: int| clipped.vertex(rim(center, reach, dirs[i]), outer),
                ),
                indices: self.indices + Seq::new(
                    3 * n,
                    |k: int| fan_index(base, n as int, k),
                ),
                ..self
            }
        }
    }
}

/// How many directions the rim of a radial gradient has: as many as asked for,
/// three at least.
pub fn rim_segments(asked: u32) -> (r: u32)
    ensures
        r == (if asked < 3 {
            3
        } else {
            asked
        }),
{
    if asked < 3 {
        3
    } else {
        asked
    }
}

pub open spec fn spec_rim(center: Point, reach: Scalar, dir: Point) -> Point {
    Point { x: center.x.plus(reach.times(dir.x)), y: center.y.plus(reach.times(dir.y)) }
}

/// The point at `reach` from `center` in the direction `dir`.
#[verifier::when_used_as_spec(spec_rim)]
pub fn rim(center: Point, reach: Scalar, dir: Point) -> (r: Point)
    ensures
        r == spec_rim(center, reach, dir),
{
    Point { x: center.x.plus(reach.times(dir.x)), y: center.y.plus(reach.times(dir.y)) }
}

/// Index `k` of a fan of `n` triangles round the vertex `base`.
pub open spec fn fan_index(base: u32, n: int, k: int) -> u32 {
    let i = k / 3;
    if k % 3 == 0 {
        base
    } else if k % 3 == 1 {
        base.wrapping_add((1 + i) as u32)
    } else if i + 1 == n {
        base.wrapping_add(1)
    } else {
        base.wrapping_add((2 + i) as u32)
    }
}

impl DrawList {
    /// A rectangle whose color runs along the direction with this cosine and
    /// sine.
    pub fn linear_gradient(&mut self, rect: Rect, start: Color, end: Color, cos: Scalar, sin: Scalar)
        ensures
            final(self)@ == old(self)@.linear_gradient(rect, start, end, cos, sin),
    {
        let p0 = rect.x.times(cos).plus(rect.y.times(sin));
        let p1 = rect.right().times(cos).plus(rect.y.times(sin));
        let p2 = rect.right().times(cos).plus(rect.bottom().times(sin));
        let p3 = rect.x.times(cos).plus(rect.bottom().times(sin));
        let low = infinity().at_most(p0).at_most(p1).at_most(p2).at_most(p3);
        let high = infinity().negate().at_least(p0).at_least(p1).at_least(p2).at_least(p3);
        let span = high.minus(low).at_least(epsilon());
        self.quad_gradient(
            rect,
            Shades {
                tl: start.mix(end, p0.minus(low).over(span)),
                tr: start.mix(end, p1.minus(low).over(span)),
                br: start.mix(end, p2.minus(low).over(span)),
                bl: start.mix(end, p3.minus(low).over(span)),
            },
        );
    }

    /// A filled convex polygon, its points in order; fewer than three points are
    /// no polygon.
    pub fn filled_polygon(&mut self, points: &Vec<Point>, color: Color)
        ensures
            final(self)@ == (if points@.len() < 3 {
                old(self)@
            } else {
                old(self)@.polygon(points@, centroid(points@), points@.len(), color)
            }),
    {
        let n: usize = points.len();
        if n < 3 {
            return;
        }
        let mut sx = whole(0);
        let mut sy = whole(0);
        let mut i: usize = 0;
        while i < n
            invariant
                n == points@.len(),
                i <= n,
                sx == sum_x(points@, i as nat),
                sy == sum_y(points@, i as nat),
            decreases n - i,
        {
            sx = sx.plus(points[i].x);
            sy = sy.plus(points[i].y);
            i = i + 1;
        }
        let center = Point { x: sx.over(whole(n as u64)), y: sy.over(whole(n as u64)) };
        let ghost before = self@;
        let mut j: usize = 0;
        while j < n
            invariant
                n == points@.len(),
                3 <= n,
                j <= n,
                self@ == before.polygon(points@, center, j as nat, color),
            decreases n - j,
        {
            let next = if j + 1 == n {
                points[0]
            } else {
                points[j + 1]
            };
            self.triangle(center, points[j], next, color);
            j = j + 1;
        }
    }

    /// A rectangle whose color runs from its center outwards. `dirs` are the
    /// directions of the rim, at least three, and `apothem` the cosine of half
    /// the angle between two of them.
    pub fn radial_gradient(
        &mut self,
        rect: Rect,
        inner: Color,
        outer: Color,
        apothem: Scalar,
        dirs: &Vec<Point>,
    )
        requires
            3 <= dirs@.len() < u32::MAX,
        ensures
            final(self)@ == old(self)@.radial_gradient(rect, inner, outer, apothem, dirs@),
    {
        if rect.is_empty() {
            self.refuse();
            return;
        }
        let ghost before = self@;
        let n: usize = dirs.len();
        let center = Point {
            x: rect.x.plus(rect.width.times(ratio(1, 2))),
            y: rect.y.plus(rect.height.times(ratio(1, 2))),
        };
        let reach = rect.width.times(rect.width).plus(rect.height.times(rect.height)).sqrt().times(
            ratio(1, 2),
        ).over(apothem);
        self.push_clip(rect);
        let ghost clipped = self@;
        let base: u32 = self.vertices.len() as u32;
        let v = self.vertex(center, inner);
        self.vertices.push(v);
        let ghost first = before.vertices.push(clipped.vertex(center, inner));
        let mut i: usize = 0;
        while i < n
            invariant
                n == dirs@.len(),
                i <= n,
                self@ == (DrawState { vertices: self@.vertices, ..clipped }),
                self@.vertices == first + Seq::new(
                    i as nat,
                    |j: int| clipped.vertex(rim(center, reach, dirs@[j]), outer),
                ),
            decreases n - i,
        {
            let v = self.vertex(rim(center, reach, dirs[i]), outer);
            assert(v == clipped.vertex(rim(center, reach, dirs@[i as int]), outer));
            self.vertices.push(v);
            assert(self@.vertices =~= first + Seq::new(
                (i + 1) as nat,
                |j: int| clipped.vertex(rim(center, reach, dirs@[j]), outer),
            ));
            i = i + 1;
        }
        let ghost drawn = self@;
        let mut j: usize = 0;
        while j < n
            invariant
                n == dirs@.len(),
                n < u32::MAX,
                j <= n,
                drawn.indices == before.indices,
                self@ == (DrawState { indices: self@.indices, ..drawn }),
                self@.indices == before.indices + Seq::new(
                    (3 * j) as nat,
                    |k: int| fan_index(base, n as int, k),
                ),
            decreases n - j,
        {
            let a: u32 = base.wrapping_add(1 + j as u32);
            let b: u32 = if j + 1 == n {
                base.wrapping_add(1)
            } else {
                base.wrapping_add(2 + j as u32)
            };
            self.indices.push(base);
            self.indices.push(a);
            self.indices.push(b);
            proof {
                assert((3 * j) / 3 == j && (3 * j) % 3 == 0);
                assert((3 * j + 1) / 3 == j && (3 * j + 1) % 3 == 1);
                assert((3 * j + 2) / 3 == j && (3 * j + 2) % 3 == 2);
                assert(fan_index(base, n as int, 3 * j) == base);
                assert(fan_index(base, n as int, 3 * j + 1) == a);
                assert(fan_index(base, n as int, 3 * j + 2) == b);
            }
            assert(self@.indices =~= before.indices + Seq::new(
                (3 * (j + 1)) as nat,
                |k: int| fan_index(base, n as int, k),
            ));
            j = j + 1;
        }
        self.pop_clip();
        assert(self@ =~= before.radial_gradient(rect, inner, outer, apothem, dirs@));
    }
}

} // verus!
