//! What the shapes on a draw list are: where they lie, and in which color.

use crate::affine::Affine2;
use crate::draw_list::{DrawState, Shades};
use crate::geometry::{Color, Point, Rect};
use crate::rounding;
use crate::scalar::{whole, Scalar};
use vstd::prelude::*;

verus! {

/// A rectangle of numbers.
pub open spec fn plain(r: Rect) -> bool {
    r.x.is_finite() && r.y.is_finite() && r.width.is_finite() && r.height.is_finite()
}

/// Whether two rectangles are the same.
pub open spec fn same_rect(a: Rect, b: Rect) -> bool {
    &&& a.x.val() == b.x.val() && a.y.val() == b.y.val()
    &&& a.width.val() == b.width.val() && a.height.val() == b.height.val()
}

/// Whether the clip that an instance carries is the one in force.
pub open spec fn clipped_by(s: DrawState, clip: Rect, enabled: Scalar) -> bool {
    &&& s.clip() matches Some(c) ==> clip == c && enabled == whole(1)
    &&& s.clip() is None ==> enabled == whole(0)
}

proof fn lemma_stays(x: Scalar)
    requires
        x.is_finite(),
    ensures
        x.plus(whole(0)).val() == x.val(),
        x.plus(whole(0)).is_finite(),
{
    rounding::law_zero_and_one();
    crate::scalar::law_plus_exact(x, whole(0), x);
}

/// The transform that moves nothing neither turns nor stretches.
pub proof fn lemma_identity_only_moves()
    ensures
        Affine2::identity().is_translate_only(),
{
    reveal(Scalar::spec_same);
    rounding::law_zero_and_one();
}

/// A rectangle instance comes after the others, moved by the transform, under the tint
/// and the clip; nothing else that was drawn changes.
pub proof fn lemma_chrome(s: DrawState, rect: Rect, radius: Scalar, thickness: Scalar, bg: Color, bg2: Color, border: Color)
    ensures
        ({
            let after = s.chrome_instance(rect, radius, thickness, bg, bg2, border);
            let c = after.chrome.last();
            &&& after.chrome == s.chrome.push(c)
            &&& c.rect.x == rect.x.plus(s.transform().tx)
            &&& c.rect.y == rect.y.plus(s.transform().ty)
            &&& c.rect.width == rect.width && c.rect.height == rect.height
            &&& c.bg == bg.times(s.tint()) && c.bg2 == bg2.times(s.tint())
            &&& c.border == border.times(s.tint())
            &&& c.radius == radius && c.thickness == thickness
            &&& clipped_by(s, c.clip, c.clip_enabled)
            &&& after.vertices == s.vertices && after.circles == s.circles && after.indices
                == s.indices
            &&& after.transforms == s.transforms && after.tints == s.tints && after.clips == s.clips
            &&& after.dropped == s.dropped
        }),
{
    reveal(DrawState::chrome_instance);
    reveal(DrawState::flushed);
    reveal(DrawState::commanded);
}

/// A filled rectangle that is not turned or stretched is drawn as it is, moved: from its
/// left and top edges, as wide and as high, in its color all over and without a border.
pub proof fn law_quad_is_its_rectangle(s: DrawState, rect: Rect, color: Color)
    requires
        !rect.is_empty(),
        plain(rect),
        s.transform() == Affine2::identity(),
    ensures
        ({
            let after = s.quad(rect, color);
            let c = after.chrome.last();
            &&& after.chrome == s.chrome.push(c)
            &&& same_rect(c.rect, rect)
            &&& c.bg == color.times(s.tint()) && c.bg2 == c.bg
            &&& c.radius.val() == 0 && c.thickness.val() == 0
            &&& clipped_by(s, c.clip, c.clip_enabled)
            &&& after.vertices == s.vertices && after.circles == s.circles
            &&& after.transforms == s.transforms && after.tints == s.tints && after.clips == s.clips
            &&& after.dropped == s.dropped
        }),
{
    reveal(DrawState::quad);
    lemma_identity_only_moves();
    rounding::law_zero_and_one();
    lemma_chrome(s, rect, whole(0), whole(0), color, color, color);
    lemma_stays(rect.x);
    lemma_stays(rect.y);
}

/// A rectangle without extent is refused and counted, and leaves what was drawn.
pub proof fn law_empty_rectangles_are_refused(s: DrawState, rect: Rect, color: Color, shades: Shades, t: Scalar)
    requires
        rect.is_empty(),
        s.dropped < u32::MAX,
    ensures
        s.quad(rect, color) == (DrawState { dropped: (s.dropped + 1) as u32, ..s }),
        s.quad_gradient(rect, shades) == (DrawState { dropped: (s.dropped + 1) as u32, ..s }),
        s.rect_outline(rect, t, color) == (DrawState { dropped: (s.dropped + 1) as u32, ..s }),
{
    reveal(DrawState::quad);
    reveal(DrawState::quad_gradient);
    reveal(DrawState::rect_outline);
}

/// The four corners of a rectangle under a transform, in turn from the top left one, each
/// in its own color under the tint.
pub open spec fn corners_drawn(s: DrawState, after: DrawState, rect: Rect, shades: Shades) -> bool {
    let n = s.vertices.len() as int;
    let v = after.vertices;
    let m = s.transform();
    &&& v.len() == n + 4
    &&& v.subrange(0, n) == s.vertices
    &&& v[n].position == m.apply(Point { x: rect.x, y: rect.y })
    &&& v[n + 1].position == m.apply(Point { x: rect.right(), y: rect.y })
    &&& v[n + 2].position == m.apply(Point { x: rect.right(), y: rect.bottom() })
    &&& v[n + 3].position == m.apply(Point { x: rect.x, y: rect.bottom() })
    &&& v[n].color == shades.tl.times(s.tint()) && v[n + 1].color == shades.tr.times(s.tint())
    &&& v[n + 2].color == shades.br.times(s.tint()) && v[n + 3].color == shades.bl.times(s.tint())
    &&& forall|k: int| n <= k < n + 4 ==> clipped_by(s, (#[trigger] v[k]).clip, v[k].clip_enabled)
    &&& after.chrome == s.chrome && after.circles == s.circles && after.dropped == s.dropped
}

/// A rectangle whose color runs between its corners has each corner's color at that
/// corner; one that is filled under a turn or a stretch has its color at all of them.
pub proof fn law_shaded_rectangles_have_their_corners(s: DrawState, rect: Rect, shades: Shades, color: Color)
    requires
        !rect.is_empty(),
    ensures
        corners_drawn(s, s.quad_gradient(rect, shades), rect, shades),
        !s.transform().is_translate_only() ==> corners_drawn(
            s,
            s.quad(rect, color),
            rect,
            Shades { tl: color, tr: color, br: color, bl: color },
        ),
{
    reveal(DrawState::quad);
    reveal(DrawState::quad_gradient);
    reveal(DrawState::quad_soup);
    reveal(DrawState::quadrangle);
    let a = s.quad_gradient(rect, shades);
    assert(a.vertices.subrange(0, s.vertices.len() as int) =~= s.vertices);
    let b = s.quad(rect, color);
    if !s.transform().is_translate_only() {
        assert(b.vertices.subrange(0, s.vertices.len() as int) =~= s.vertices);
    }
}

/// A color that runs from left to right is the left one along the left edge and the right
/// one along the right edge; one that runs from top to bottom, the top one along the top
/// edge and the bottom one along the bottom edge.
pub proof fn law_gradients_run_from_edge_to_edge(s: DrawState, rect: Rect, from: Color, to: Color)
    requires
        !rect.is_empty(),
    ensures
        ({
            let n = s.vertices.len() as int;
            let across = s.horizontal_gradient(rect, from, to).vertices;
            let down = s.vertical_gradient(rect, from, to).vertices;
            let a = from.times(s.tint());
            let b = to.times(s.tint());
            let m = s.transform();
            let tl = m.apply(Point { x: rect.x, y: rect.y });
            let tr = m.apply(Point { x: rect.right(), y: rect.y });
            let br = m.apply(Point { x: rect.right(), y: rect.bottom() });
            let bl = m.apply(Point { x: rect.x, y: rect.bottom() });
            &&& across.len() == n + 4 && down.len() == n + 4
            &&& exists|i: int| n <= i < n + 4 && (#[trigger] across[i]).position == tl && across[i].color == a
            &&& exists|i: int| n <= i < n + 4 && (#[trigger] across[i]).position == bl && across[i].color == a
            &&& exists|i: int| n <= i < n + 4 && (#[trigger] across[i]).position == tr && across[i].color == b
            &&& exists|i: int| n <= i < n + 4 && (#[trigger] across[i]).position == br && across[i].color == b
            &&& exists|i: int| n <= i < n + 4 && (#[trigger] down[i]).position == tl && down[i].color == a
            &&& exists|i: int| n <= i < n + 4 && (#[trigger] down[i]).position == tr && down[i].color == a
            &&& exists|i: int| n <= i < n + 4 && (#[trigger] down[i]).position == bl && down[i].color == b
            &&& exists|i: int| n <= i < n + 4 && (#[trigger] down[i]).position == br && down[i].color == b
        }),
{
    let n = s.vertices.len() as int;
    law_shaded_rectangles_have_their_corners(
        s,
        rect,
        Shades { tl: from, tr: to, br: to, bl: from },
        from,
    );
    law_shaded_rectangles_have_their_corners(
        s,
        rect,
        Shades { tl: from, tr: from, br: to, bl: to },
        from,
    );
    let across = s.horizontal_gradient(rect, from, to).vertices;
    let down = s.vertical_gradient(rect, from, to).vertices;
    let m = s.transform();
    assert(across[n].position == m.apply(Point { x: rect.x, y: rect.y }));
    assert(across[n + 1].position == m.apply(Point { x: rect.right(), y: rect.y }));
    assert(across[n + 2].position == m.apply(Point { x: rect.right(), y: rect.bottom() }));
    assert(across[n + 3].position == m.apply(Point { x: rect.x, y: rect.bottom() }));
    assert(down[n].position == m.apply(Point { x: rect.x, y: rect.y }));
    assert(down[n + 1].position == m.apply(Point { x: rect.right(), y: rect.y }));
    assert(down[n + 2].position == m.apply(Point { x: rect.right(), y: rect.bottom() }));
    assert(down[n + 3].position == m.apply(Point { x: rect.x, y: rect.bottom() }));
}

/// An outline that is not turned or stretched is its rectangle with a border of that
/// thickness in its color, and nothing to see within.
pub proof fn law_outline_is_a_border(s: DrawState, rect: Rect, t: Scalar, color: Color)
    requires
        !rect.is_empty(),
        plain(rect),
        !t.le(whole(0)),
        crate::geometry::ordinary(color),
        crate::geometry::ordinary(s.tint()),
        s.transform() == Affine2::identity(),
    ensures
        ({
            let after = s.rect_outline(rect, t, color);
            let c = after.chrome.last();
            &&& after.chrome == s.chrome.push(c)
            &&& same_rect(c.rect, rect)
            &&& c.border == color.times(s.tint())
            &&& c.thickness == t
            &&& c.bg.a.val() == 0 && c.bg2.a.val() == 0
            &&& c.radius.val() == 0
            &&& clipped_by(s, c.clip, c.clip_enabled)
            &&& after.vertices == s.vertices && after.circles == s.circles
            &&& after.transforms == s.transforms && after.tints == s.tints && after.clips == s.clips
        }),
{
    reveal(DrawState::rect_outline);
    lemma_identity_only_moves();
    rounding::law_zero_and_one();
    let clear = color.with_alpha(whole(0));
    lemma_chrome(s, rect, whole(0), t, clear, clear, color);
    lemma_stays(rect.x);
    lemma_stays(rect.y);
    let v = s.tint().a.val();
    let u = rounding::unit();
    assert(0 * v == 0 * u) by (nonlinear_arith);
    rounding::law_times_exact(whole(0), s.tint().a, whole(0));
}

/// A circle that is not turned or stretched is drawn as it is, moved: around its center,
/// of its radius, filled, or as a ring of its thickness.
pub proof fn law_circle_is_around_its_center(s: DrawState, center: Point, radius: Scalar, t: Scalar, color: Color)
    requires
        !radius.le(whole(0)),
        center.x.is_finite(),
        center.y.is_finite(),
        s.transform() == Affine2::identity(),
    ensures
        ({
            let disc = s.circle(center, radius, color);
            let c = disc.circles.last();
            &&& disc.circles == s.circles.push(c)
            &&& c.center.x.val() == center.x.val() && c.center.y.val() == center.y.val()
            &&& c.radius == radius && c.thickness.val() == 0
            &&& c.color == color.times(s.tint())
            &&& clipped_by(s, c.clip, c.clip_enabled)
            &&& disc.vertices == s.vertices && disc.chrome == s.chrome
        }),
        !t.le(whole(0)) ==> {
            let ring = s.circle_outline(center, radius, t, color);
            let c = ring.circles.last();
            &&& ring.circles == s.circles.push(c)
            &&& c.center.x.val() == center.x.val() && c.center.y.val() == center.y.val()
            &&& c.radius == radius && c.thickness == t
            &&& c.color == color.times(s.tint())
            &&& clipped_by(s, c.clip, c.clip_enabled)
            &&& ring.vertices == s.vertices && ring.chrome == s.chrome
        },
{
    reveal(DrawState::circle);
    reveal(DrawState::circle_outline);
    reveal(DrawState::circle_instance);
    reveal(DrawState::flushed);
    reveal(DrawState::commanded);
    lemma_identity_only_moves();
    rounding::law_zero_and_one();
    lemma_stays(center.x);
    lemma_stays(center.y);
}

/// A panel that is not turned or stretched is its rectangle with its radius, its border,
/// and a fill that runs from the one color at the top to the other at the bottom.
pub proof fn law_panel_is_its_rectangle(s: DrawState, rect: Rect, radius: Scalar, t: Scalar, top: Color, bottom: Color, border: Color)
    requires
        !rect.is_empty(),
        plain(rect),
        s.transform() == Affine2::identity(),
    ensures
        ({
            let after = s.chrome_rect_gradient(rect, radius, t, top, bottom, border);
            let c = after.chrome.last();
            &&& after.chrome == s.chrome.push(c)
            &&& same_rect(c.rect, rect)
            &&& c.bg == top.times(s.tint()) && c.bg2 == bottom.times(s.tint())
            &&& c.border == border.times(s.tint())
            &&& c.radius == radius && c.thickness == t
            &&& clipped_by(s, c.clip, c.clip_enabled)
        }),
{
    reveal(DrawState::chrome_rect_gradient);
    lemma_identity_only_moves();
    lemma_chrome(s, rect, radius, t, top, bottom, border);
    lemma_stays(rect.x);
    lemma_stays(rect.y);
}

/// A triangle has its three corners, in turn, under the transform.
pub proof fn law_triangle_has_its_corners(s: DrawState, p0: Point, p1: Point, p2: Point, c0: Color, c1: Color, c2: Color)
    requires
        s.vertices.len() + 3 <= u32::MAX,
    ensures
        ({
            let after = s.triangle(p0, p1, p2, c0, c1, c2);
            let n = s.vertices.len() as int;
            let i = s.indices.len() as int;
            let v = after.vertices;
            &&& v.len() == n + 3 && v.subrange(0, n) == s.vertices
            &&& v[n].position == s.transform().apply(p0) && v[n].color == c0.times(s.tint())
            &&& v[n + 1].position == s.transform().apply(p1) && v[n + 1].color == c1.times(s.tint())
            &&& v[n + 2].position == s.transform().apply(p2) && v[n + 2].color == c2.times(s.tint())
            &&& forall|k: int| n <= k < n + 3 ==> clipped_by(s, (#[trigger] v[k]).clip, v[k].clip_enabled)
            &&& after.indices == s.indices.push(n as u32).push((n + 1) as u32).push((n + 2) as u32)
        }),
{
    reveal(DrawState::triangle);
    let after = s.triangle(p0, p1, p2, c0, c1, c2);
    assert(after.vertices.subrange(0, s.vertices.len() as int) =~= s.vertices);
}

/// What shows under a pushed clip is what shows under the clip in force and lies in the
/// rectangle, moved with everything else.
pub proof fn law_pushed_clip_shows_what_both_hold(
    s: DrawState,
    rect: Rect,
    dx: Scalar,
    dy: Scalar,
    x: int,
    y: int,
    w: int,
    h: int,
    nx: int,
    ny: int,
    cx: int,
    cy: int,
    cw: int,
    ch: int,
    px: Scalar,
    py: Scalar,
)
    requires
        s.transform() == Affine2::translation(dx, dy),
        crate::geometry::in_steps(rect, x, y, w, h),
        w >= 0,
        h >= 0,
        rounding::in_steps(dx, nx),
        rounding::in_steps(dy, ny),
        rounding::size(x) + w + rounding::size(nx) <= 0x40_0000,
        rounding::size(y) + h + rounding::size(ny) <= 0x40_0000,
        s.clip() matches Some(c) ==> crate::geometry::in_steps(c, cx, cy, cw, ch),
        px.is_finite(),
        py.is_finite(),
    ensures
        s.clip_pushed(rect).clip() is Some,
        s.clip_pushed(rect).clip()->0.contains(px, py) == ({
            let st = rounding::step();
            &&& s.clip() matches Some(c) ==> c.contains(px, py)
            &&& (x + nx) * st <= px.val() < (x + nx + w) * st
            &&& (y + ny) * st <= py.val() < (y + ny + h) * st
        }),
{
    crate::affine::law_aabb_of_a_moved_rectangle(rect, dx, dy, x, y, w, h, nx, ny);
    let world = s.transform().aabb(rect);
    crate::geometry::law_contains_in_steps(world, x + nx, y + ny, w, h, px, py);
    match s.clip() {
        Some(c) => {
            crate::geometry::law_intersection_is_what_both_hold(
                c,
                world,
                cx,
                cy,
                cw,
                ch,
                x + nx,
                y + ny,
                w,
                h,
                px,
                py,
            );
            if c.intersection(world) is None {
                rounding::law_one_in_steps();
                let none = Rect { x: world.x, y: world.y, width: whole(0), height: whole(0) };
                crate::geometry::law_contains_in_steps(none, x + nx, y + ny, 0, 0, px, py);
            }
        },
        None => {},
    }
}

/// Each new transform works within the one in force, and each push of the stacks keeps
/// what is in force.
pub proof fn law_stacks_work_within(s: DrawState, m: Affine2, tint: Color, rect: Rect)
    requires
        s.transforms.len() > 0,
        s.tints.len() > 0,
    ensures
        s.composed(m).transform() == s.transform().compose(m),
        s.composed(m).tint() == s.tint() && s.composed(m).clip() == s.clip(),
        s.retinted(tint).tint() == tint,
        s.retinted(tint).transform() == s.transform() && s.retinted(tint).clip() == s.clip(),
        s.transform_pushed().transform() == s.transform(),
        s.tint_pushed().tint() == s.tint(),
        s.clip_pushed(rect).transform() == s.transform() && s.clip_pushed(rect).tint() == s.tint(),
{
}

/// Rectangles with rounded corners that are not turned or stretched are their rectangle
/// with that radius: filled in their color, or as a border of that thickness.
pub proof fn law_rounded_rectangles_are_their_rectangle(s: DrawState, rect: Rect, radius: Scalar, t: Scalar, color: Color)
    requires
        !rect.is_empty(),
        plain(rect),
        !radius.le(whole(0)),
        !t.le(whole(0)),
        s.transform() == Affine2::identity(),
    ensures
        ({
            let full = s.rounded_rect(rect, radius, color);
            let c = full.chrome.last();
            &&& full.chrome == s.chrome.push(c)
            &&& same_rect(c.rect, rect)
            &&& c.radius == radius && c.thickness.val() == 0
            &&& c.bg == color.times(s.tint()) && c.bg2 == c.bg
            &&& clipped_by(s, c.clip, c.clip_enabled)
        }),
        ({
            let line = s.rounded_rect_outline(rect, radius, t, color);
            let c = line.chrome.last();
            &&& line.chrome == s.chrome.push(c)
            &&& same_rect(c.rect, rect)
            &&& c.radius == radius && c.thickness == t
            &&& c.border == color.times(s.tint())
            &&& clipped_by(s, c.clip, c.clip_enabled)
        }),
{
    reveal(DrawState::rounded_rect);
    reveal(DrawState::rounded_rect_outline);
    lemma_identity_only_moves();
    rounding::law_zero_and_one();
    lemma_chrome(s, rect, radius, whole(0), color, color, color);
    let clear = color.with_alpha(whole(0));
    lemma_chrome(s, rect, radius, t, clear, clear, color);
    lemma_stays(rect.x);
    lemma_stays(rect.y);
}

/// An image has its corners where the transform takes those of its rectangle, from the
/// top left one round, and carries its own tint under the one in force.
pub proof fn law_image_has_its_corners(s: DrawState, sprite: crate::draw_list::SpriteId, rect: Rect, src: Option<crate::draw_list::Uv>, tint: Color, key: Seq<char>)
    ensures
        ({
            let after = s.image(sprite, rect, src, tint);
            let i = after.icons.last();
            let m = s.transform();
            &&& after.icons == s.icons.push(i)
            &&& i.sprite == Some(sprite) && i.src == src
            &&& i.tint == tint.times(s.tint()) && i.clip == s.clip()
            &&& i.corners.tl == m.apply(Point { x: rect.x, y: rect.y })
            &&& i.corners.tr == m.apply(Point { x: rect.right(), y: rect.y })
            &&& i.corners.br == m.apply(Point { x: rect.right(), y: rect.bottom() })
            &&& i.corners.bl == m.apply(Point { x: rect.x, y: rect.bottom() })
        }),
        ({
            let after = s.icon(key, rect);
            let i = after.icons.last();
            let m = s.transform();
            &&& after.icons == s.icons.push(i)
            &&& i.sprite is None && i.icon_key == key && i.src is None
            &&& i.tint == s.tint() && i.clip == s.clip()
            &&& i.corners.tl == m.apply(Point { x: rect.x, y: rect.y })
            &&& i.corners.br == m.apply(Point { x: rect.right(), y: rect.bottom() })
        }),
{
    reveal(DrawState::icon_put);
    reveal(DrawState::flushed);
    reveal(DrawState::commanded);
}

/// The projections of a rectangle's corners on a direction, in turn from the top left
/// one.
pub open spec fn projection(p: Point, cos: Scalar, sin: Scalar) -> Scalar {
    p.x.times(cos).plus(p.y.times(sin))
}

/// Whether a color is the one at the start of a run, or the one at its end, up to
/// rounding.
pub open spec fn at_the_end(start: Color, end: Color, c: Color) -> bool {
    &&& crate::geometry::part_way(start.r, end.r, whole(1), c.r)
    &&& crate::geometry::part_way(start.g, end.g, whole(1), c.g)
    &&& crate::geometry::part_way(start.b, end.b, whole(1), c.b)
    &&& crate::geometry::part_way(start.a, end.a, whole(1), c.a)
}

/// The corner of a rectangle that lies first along the direction of a gradient has its
/// first color, and the corner that lies last along it, its last color.
pub proof fn law_gradient_runs_along_its_direction(rect: Rect, start: Color, end: Color, cos: Scalar, sin: Scalar)
    requires
        crate::geometry::ordinary(start),
        crate::geometry::ordinary(end),
        ({
            let p0 = projection(Point { x: rect.x, y: rect.y }, cos, sin);
            let p1 = projection(Point { x: rect.right(), y: rect.y }, cos, sin);
            let p2 = projection(Point { x: rect.right(), y: rect.bottom() }, cos, sin);
            let p3 = projection(Point { x: rect.x, y: rect.bottom() }, cos, sin);
            &&& rounding::ordinary(p0) && rounding::ordinary(p1) && rounding::ordinary(p2)
                && rounding::ordinary(p3)
            &&& p0.val() <= p1.val() <= p2.val() && p0.val() <= p3.val() <= p2.val()
            &&& p2.val() - p0.val() >= rounding::unit()
        }),
    ensures
        crate::geometry::alike(
            crate::draw_gradients::gradient_shades(rect, start, end, cos, sin).tl,
            start,
        ),
        at_the_end(
            start,
            end,
            crate::draw_gradients::gradient_shades(rect, start, end, cos, sin).br,
        ),
{
    let p0 = projection(Point { x: rect.x, y: rect.y }, cos, sin);
    let p1 = projection(Point { x: rect.right(), y: rect.y }, cos, sin);
    let p2 = projection(Point { x: rect.right(), y: rect.bottom() }, cos, sin);
    let p3 = projection(Point { x: rect.x, y: rect.bottom() }, cos, sin);
    let inf = crate::draw_gradients::infinity();
    rounding::law_zero_and_one();
    rounding::law_unit_is_large();
    let low = inf.at_most(p0).at_most(p1).at_most(p2).at_most(p3);
    let high = inf.negate().at_least(p0).at_least(p1).at_least(p2).at_least(p3);
    assert(low.val() == p0.val() && low.is_finite() && high.val() == p2.val() && high.is_finite()) by {
        reveal(Scalar::spec_lt);
        rounding::law_negate_exact(inf);
        crate::scalar::lemma_mag_increases(p0.index(), 0x7f80_0000);
    }
    let u = rounding::unit();
    rounding::law_minus_finite(high, low);
    rounding::law_minus_rounds(high, low);
    let d = high.minus(low);
    let span = d.at_least(crate::draw_list::epsilon());
    assert(span == d) by {
        reveal(Scalar::spec_lt);
        lemma_epsilon();
    }
    rounding::law_minus_finite(p0, low);
    rounding::law_minus_rounds(p0, low);
    let e = d.val();
    assert(0 * u == 0 * e && e * u == u * e) by (nonlinear_arith);
    rounding::law_over_exact(p0.minus(low), d, whole(0));
    rounding::law_negate_exact(low);
    crate::scalar::law_plus_commutes(p2, low.negate());
    crate::scalar::law_plus_commutes(high, low.negate());
    rounding::law_plus_same(p2, high, low.negate());
    rounding::law_over_exact(p2.minus(low), d, whole(1));
    crate::geometry::law_mix_is_part_of_the_way(start, end, p0.minus(low).over(span));
    crate::geometry::law_mix_is_part_of_the_way(start, end, p2.minus(low).over(span));
}

proof fn lemma_epsilon()
    ensures
        crate::draw_list::epsilon().is_finite(),
        2 * crate::draw_list::epsilon().val() <= rounding::unit(),
{
    let g = crate::draw_list::epsilon().val();
    crate::scalar::lemma_mag_form(103, 0x80_0000);
    assert(103 * 0x80_0000 + 0x80_0000 == 0x3400_0000);
    vstd::arithmetic::power2::lemma_pow2_adds(23, 103);
    vstd::arithmetic::power2::lemma_pow2_adds(23, 126);
    vstd::arithmetic::power2::lemma2_to64();
    vstd::arithmetic::power2::lemma_pow2_pos(103);
}

/// A radial gradient has its inner color in the middle of its rectangle and its outer
/// color all round it, clipped to the rectangle.
pub proof fn law_radial_gradient_runs_from_the_middle(s: DrawState, rect: Rect, inner: Color, outer: Color, apothem: Scalar, dirs: Seq<Point>, x: int, y: int, w: int, h: int, k: int)
    requires
        crate::geometry::in_steps(rect, x, y, w, h),
        !rect.is_empty(),
        w % 2 == 0,
        h % 2 == 0,
        0 <= k < dirs.len(),
    ensures
        ({
            let after = s.radial_gradient(rect, inner, outer, apothem, dirs);
            let n = s.vertices.len() as int;
            let mid = Point {
                x: rect.x.plus(rect.width.times(crate::scalar::ratio(1, 2))),
                y: rect.y.plus(rect.height.times(crate::scalar::ratio(1, 2))),
            };
            &&& after.vertices.len() == n + 1 + dirs.len()
            &&& rounding::in_steps(mid.x, x + w / 2) && rounding::in_steps(mid.y, y + h / 2)
            &&& after.vertices[n].position == s.transform().apply(mid)
            &&& after.vertices[n].color == inner.times(s.tint())
            &&& after.vertices[n + 1 + k].color == outer.times(s.tint())
            &&& clipped_by(s.clip_pushed(rect), after.vertices[n].clip, after.vertices[n].clip_enabled)
            &&& clipped_by(
                s.clip_pushed(rect),
                after.vertices[n + 1 + k].clip,
                after.vertices[n + 1 + k].clip_enabled,
            )
        }),
{
    rounding::law_half_of_steps(rect.width, w);
    rounding::law_half_of_steps(rect.height, h);
    rounding::law_plus_steps(rect.x, rect.width.times(crate::scalar::ratio(1, 2)), x, w / 2);
    rounding::law_plus_steps(rect.y, rect.height.times(crate::scalar::ratio(1, 2)), y, h / 2);
}

/// A panel of nine parts and a vector icon keep their rectangle, the transform in force
/// and the clip in force, and an icon its tint under the one in force.
pub proof fn law_panels_and_icons_keep_their_place(s: DrawState, rect: Rect, key: Seq<char>, glyph: crate::draw_list::IconGlyph, tint: Color)
    requires
        !rect.is_empty(),
    ensures
        ({
            let after = s.nine_slice(rect, key);
            let p = after.nine_slices.last();
            &&& after.nine_slices == s.nine_slices.push(p)
            &&& p.local == rect && p.transform == s.transform() && p.clip == s.clip()
            &&& p.texture_key == key && p.tint == s.tint()
        }),
        ({
            let after = s.icon_msdf(rect, glyph, tint);
            let i = after.icons_msdf.last();
            &&& after.icons_msdf == s.icons_msdf.push(i)
            &&& i.local == rect && i.transform == s.transform() && i.clip == s.clip()
            &&& i.glyph == glyph && i.tint == tint.times(s.tint())
        }),
{
    reveal(DrawState::nine_slice_put);
    reveal(DrawState::icon_msdf);
    reveal(DrawState::flushed);
    reveal(DrawState::commanded);
}

/// Whether a vertex is that many steps to the right and down.
pub open spec fn stands_at(v: crate::draw_list::Vertex, x: int, y: int) -> bool {
    &&& v.position.x.val() == x * rounding::step()
    &&& v.position.y.val() == y * rounding::step()
}

/// A shadow that is not turned or stretched reaches as far as its blur beyond the left
/// and right edges of its rectangle, farther below it than its blur by its offset and
/// less far above it; it is clear at its outer corners, and has the same color at the
/// four corners of the rectangle.
pub proof fn law_shadow_reaches_around_its_rectangle(s: DrawState, rect: Rect, offset_y: Scalar, blur: Scalar, radius: Scalar, color: Color, x: int, y: int, w: int, h: int, o: int, b: int)
    requires
        crate::geometry::in_steps(rect, x, y, w, h),
        rounding::in_steps(offset_y, o),
        rounding::in_steps(blur, b),
        0 < w,
        0 < h,
        -b < o < b <= 0x20_0000,
        !color.a.le(whole(0)),
        s.transform() == Affine2::identity(),
    ensures
        ({
            let v = s.drop_shadow(rect, offset_y, blur, radius, color).vertices;
            let n = s.vertices.len() as int;
            let clear = color.with_alpha(whole(0)).times(s.tint());
            &&& v.len() == n + 32
            &&& stands_at(v[n + 16], x - b, y - b + o) && v[n + 16].color == clear
            &&& stands_at(v[n + 21], x + w + b, y - b + o) && v[n + 21].color == clear
            &&& stands_at(v[n + 27], x - b, y + h + b + o) && v[n + 27].color == clear
            &&& stands_at(v[n + 30], x + w + b, y + h + b + o) && v[n + 30].color == clear
            &&& stands_at(v[n + 18], x, y) && stands_at(v[n + 23], x + w, y)
            &&& stands_at(v[n + 25], x, y + h) && stands_at(v[n + 28], x + w, y + h)
            &&& v[n + 18].color == v[n + 23].color && v[n + 23].color == v[n + 25].color
                && v[n + 25].color == v[n + 28].color
        }),
{
    reveal(DrawState::drop_shadow);
    let zero = color.with_alpha(whole(0));
    let edge = color.with_alpha(color.a.times(crate::scalar::ratio(35, 100)));
    rounding::law_one_in_steps();
    rounding::law_minus_steps(blur, offset_y, b, o);
    rounding::law_plus_steps(blur, offset_y, b, o);
    lemma_positive(blur.minus(offset_y), b - o);
    lemma_positive(blur.plus(offset_y), b + o);
    lemma_positive(blur, b);
    lemma_positive(rect.width, w);
    lemma_positive(rect.height, h);
    let top = blur.minus(offset_y).at_least(whole(0));
    let bottom = blur.plus(offset_y).at_least(whole(0));
    rounding::law_plus_steps(rect.x, rect.width, x, w);
    rounding::law_plus_steps(rect.y, rect.height, y, h);
    rounding::law_minus_steps(rect.x, blur, x, b);
    rounding::law_minus_steps(rect.y, top, y, b - o);
    let left_x = rect.x.minus(blur);
    let top_y = rect.y.minus(top);
    rounding::law_plus_steps(left_x, blur, x - b, b);
    rounding::law_plus_steps(top_y, top, y - (b - o), b - o);
    rounding::law_plus_steps(rect.right(), blur, x + w, b);
    rounding::law_plus_steps(rect.bottom(), bottom, y + h, b + o);
    let s0 = s.chrome_rect(rect, radius, whole(0), color, Color::clear());
    lemma_chrome_adds_no_vertices(s, rect, radius, color);
    let r1 = Rect { x: rect.x, y: top_y, width: rect.width, height: top };
    let s1 = s0.vertical_gradient(r1, zero, edge);
    lemma_adds_corners(s0, r1, Shades { tl: zero, tr: zero, br: edge, bl: edge });
    let r2 = Rect { x: rect.x, y: rect.bottom(), width: rect.width, height: bottom };
    let s2 = s1.vertical_gradient(r2, edge, zero);
    lemma_adds_corners(s1, r2, Shades { tl: edge, tr: edge, br: zero, bl: zero });
    let r3 = Rect { x: left_x, y: rect.y, width: blur, height: rect.height };
    let s3 = s2.horizontal_gradient(r3, zero, edge);
    lemma_adds_corners(s2, r3, Shades { tl: zero, tr: edge, br: edge, bl: zero });
    let r4 = Rect { x: rect.right(), y: rect.y, width: blur, height: rect.height };
    let s4 = s3.horizontal_gradient(r4, edge, zero);
    lemma_adds_corners(s3, r4, Shades { tl: edge, tr: zero, br: zero, bl: edge });
    let c5 = Shades { tl: zero, tr: zero, br: edge, bl: zero };
    let r5 = Rect { x: left_x, y: top_y, width: blur, height: top };
    let s5 = s4.quad_gradient(r5, c5);
    lemma_adds_corners(s4, r5, c5);
    let c6 = Shades { tl: zero, tr: zero, br: zero, bl: edge };
    let r6 = Rect { x: rect.right(), y: top_y, width: blur, height: top };
    let s6 = s5.quad_gradient(r6, c6);
    lemma_adds_corners(s5, r6, c6);
    let c7 = Shades { tl: zero, tr: edge, br: zero, bl: zero };
    let r7 = Rect { x: left_x, y: rect.bottom(), width: blur, height: bottom };
    let s7 = s6.quad_gradient(r7, c7);
    lemma_adds_corners(s6, r7, c7);
    let c8 = Shades { tl: edge, tr: zero, br: zero, bl: zero };
    let r8 = Rect { x: rect.right(), y: rect.bottom(), width: blur, height: bottom };
    let s8 = s7.quad_gradient(r8, c8);
    lemma_adds_corners(s7, r8, c8);
    assert(s.drop_shadow(rect, offset_y, blur, radius, color) == s8);
    lemma_vertex(s, left_x, top_y, zero, x - b, y - (b - o));
    lemma_vertex(s, r6.right(), top_y, zero, x + w + b, y - (b - o));
    lemma_vertex(s, left_x, r7.bottom(), zero, x - b, y + h + (b + o));
    lemma_vertex(s, r8.right(), r8.bottom(), zero, x + w + b, y + h + (b + o));
    lemma_vertex(s, r5.right(), r5.bottom(), edge, x, y);
    lemma_vertex(s, rect.right(), r6.bottom(), edge, x + w, y);
    lemma_vertex(s, r7.right(), rect.bottom(), edge, x, y + h);
    lemma_vertex(s, rect.right(), rect.bottom(), edge, x + w, y + h);
}

proof fn lemma_positive(a: Scalar, n: int)
    requires
        rounding::in_steps(a, n),
        n > 0,
    ensures
        !a.le(whole(0)),
        whole(0).lt(a),
        a.at_least(whole(0)) == a,
{
    rounding::law_one_in_steps();
    rounding::law_steps_compare(a, whole(0), n, 0);
    rounding::law_steps_compare(whole(0), a, 0, n);
}

proof fn lemma_vertex(s: DrawState, px: Scalar, py: Scalar, color: Color, x: int, y: int)
    requires
        rounding::in_steps(px, x),
        rounding::in_steps(py, y),
        s.transform() == Affine2::identity(),
    ensures
        stands_at(s.vertex(Point { x: px, y: py }, color), x, y),
        s.vertex(Point { x: px, y: py }, color).color == color.times(s.tint()),
{
    crate::strokes::law_identity_moves_nothing(Point { x: px, y: py });
}

/// A shaded rectangle is four more vertices.
proof fn lemma_adds_corners(s: DrawState, rect: Rect, shades: Shades)
    requires
        !rect.is_empty(),
    ensures
        ({
            let a = s.quad_gradient(rect, shades);
            &&& a.vertices == s.vertices.push(s.vertex(Point { x: rect.x, y: rect.y }, shades.tl)).push(
                s.vertex(Point { x: rect.right(), y: rect.y }, shades.tr),
            ).push(s.vertex(Point { x: rect.right(), y: rect.bottom() }, shades.br)).push(
                s.vertex(Point { x: rect.x, y: rect.bottom() }, shades.bl),
            )
            &&& a.transforms == s.transforms && a.tints == s.tints && a.clips == s.clips
        }),
{
    reveal(DrawState::quad_gradient);
    reveal(DrawState::quad_soup);
    reveal(DrawState::quadrangle);
}

proof fn lemma_chrome_adds_no_vertices(s: DrawState, rect: Rect, radius: Scalar, color: Color)
    requires
        !rect.is_empty(),
        s.transform() == Affine2::identity(),
    ensures
        ({
            let a = s.chrome_rect(rect, radius, whole(0), color, Color::clear());
            &&& a.vertices == s.vertices
            &&& a.transforms == s.transforms && a.tints == s.tints && a.clips == s.clips
        }),
{
    reveal(DrawState::chrome_rect_gradient);
    reveal(DrawState::chrome_instance);
    reveal(DrawState::flushed);
    reveal(DrawState::commanded);
    lemma_identity_only_moves();
}

} // verus!
