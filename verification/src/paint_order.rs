//! The order in which a list is painted.

use crate::affine::Affine2;
use crate::draw_list::{
    circle_segments, polar, DrawState, IconGlyph, NineSliceId, PaintCmd, PaintKind, Shades, SpriteId,
    TrigView, Uv,
};
use crate::draw_text::SpanLayout;
use crate::geometry::{Color, Point, Rect};
use crate::scalar::{ratio, whole, Scalar};
use crate::text::TextView;
use vstd::prelude::*;

verus! {

/// How far into the buffer of one kind the commands go.
pub open spec fn reach(cmds: Seq<PaintCmd>, kind: PaintKind) -> int
    decreases cmds.len(),
{
    if cmds.len() == 0 {
        0
    } else if cmds.last().kind == kind {
        cmds.last().end as int
    } else {
        reach(cmds.drop_last(), kind)
    }
}

/// Whether each command paints something, and goes on where the one of its kind
/// before it ended.
pub open spec fn in_turn(cmds: Seq<PaintCmd>) -> bool
    decreases cmds.len(),
{
    cmds.len() > 0 ==> {
        &&& in_turn(cmds.drop_last())
        &&& cmds.last().start == reach(cmds.drop_last(), cmds.last().kind)
        &&& cmds.last().start < cmds.last().end
    }
}

impl DrawState {
    /// How many elements of one kind there are; of the soup, how many indices went
    /// into the stream.
    pub open spec fn held(self, kind: PaintKind) -> int {
        match kind {
            PaintKind::Soup => self.committed as int,
            PaintKind::Chrome => self.chrome.len() as int,
            PaintKind::Circle => self.circles.len() as int,
            PaintKind::NineSlice => self.nine_slices.len() as int,
            PaintKind::Icon => self.icons.len() as int,
            PaintKind::IconMsdf => self.icons_msdf.len() as int,
            PaintKind::Text => self.texts.len() as int,
        }
    }

    /// Whether the commands can number all elements.
    pub open spec fn counted(self) -> bool {
        &&& self.vertices.len() <= u32::MAX
        &&& self.indices.len() <= u32::MAX
        &&& self.chrome.len() <= u32::MAX
        &&& self.circles.len() <= u32::MAX
        &&& self.nine_slices.len() <= u32::MAX
        &&& self.icons.len() <= u32::MAX
        &&& self.icons_msdf.len() <= u32::MAX
        &&& self.texts.len() <= u32::MAX
    }

    /// Whether the commands paint every buffer from its start to its end, in turn;
    /// what is left of the soup comes after them. The soup is made of triangles
    /// between its vertices.
    #[verifier::opaque]
    pub open spec fn in_order(self) -> bool {
        &&& in_turn(self.cmds)
        &&& forall|kind: PaintKind| #[trigger] self.held(kind) == reach(self.cmds, kind)
        &&& self.committed <= self.indices.len()
        &&& self.indices.len() % 3 == 0
        &&& forall|i: int|
            0 <= i < self.indices.len() ==> #[trigger] self.indices[i] < self.vertices.len()
    }

    /// Whether `later` holds at least as much, and is in order if this is, as long
    /// as its elements can be numbered.
    pub open spec fn keeps_order(self, later: DrawState) -> bool {
        &&& self.vertices.len() <= later.vertices.len()
        &&& self.indices.len() <= later.indices.len()
        &&& self.chrome.len() <= later.chrome.len()
        &&& self.circles.len() <= later.circles.len()
        &&& self.nine_slices.len() <= later.nine_slices.len()
        &&& self.icons.len() <= later.icons.len()
        &&& self.icons_msdf.len() <= later.icons_msdf.len()
        &&& self.texts.len() <= later.texts.len()
        &&& self.in_order() && later.counted() ==> later.in_order()
    }

    /// Whether `later` is painted by the same commands from the same buffers, but
    /// for soup at the end.
    pub open spec fn same_stream(self, later: DrawState) -> bool {
        &&& self.cmds == later.cmds
        &&& self.committed == later.committed
        &&& self.indices.len() <= later.indices.len()
        &&& self.chrome.len() == later.chrome.len()
        &&& self.circles.len() == later.circles.len()
        &&& self.nine_slices.len() == later.nine_slices.len()
        &&& self.icons.len() == later.icons.len()
        &&& self.icons_msdf.len() == later.icons_msdf.len()
        &&& self.texts.len() == later.texts.len()
    }

    /// Whether the soup of `later` is this one with more triangles.
    pub open spec fn soup_grows(self, later: DrawState) -> bool {
        &&& self.vertices.len() <= later.vertices.len()
        &&& self.indices.len() <= later.indices.len()
        &&& (later.indices.len() - self.indices.len()) % 3 == 0
        &&& forall|i: int|
            0 <= i < self.indices.len() ==> #[trigger] later.indices[i] == self.indices[i]
        &&& later.counted() ==> forall|i: int|
            self.indices.len() <= i < later.indices.len() ==> #[trigger] later.indices[i]
                < later.vertices.len()
    }
}

proof fn lemma_same_stream(s: DrawState, t: DrawState)
    requires
        s.same_stream(t),
        s.soup_grows(t),
    ensures
        s.keeps_order(t),
{
    reveal(DrawState::in_order);
    if s.in_order() && t.counted() {
        assert forall|i: int| 0 <= i < t.indices.len() implies #[trigger] t.indices[i]
            < t.vertices.len() by {
            if i < s.indices.len() {
                assert(s.indices[i] < s.vertices.len());
            }
        }
        assert forall|kind: PaintKind| #[trigger] t.held(kind) == reach(t.cmds, kind) by {
            assert(s.held(kind) == reach(s.cmds, kind));
        }
    }
}

proof fn lemma_commanded(s: DrawState, cmd: PaintCmd)
    requires
        in_turn(s.cmds),
        cmd.start == reach(s.cmds, cmd.kind),
        cmd.start < cmd.end,
    ensures
        in_turn(s.commanded(cmd).cmds),
        forall|kind: PaintKind| #[trigger]
            reach(s.commanded(cmd).cmds, kind) == (if kind == cmd.kind {
                cmd.end as int
            } else {
                reach(s.cmds, kind)
            }),
        s.commanded(cmd).cmds.len() > 0,
        s.commanded(cmd).cmds.last().kind == cmd.kind,
        s.commanded(cmd).cmds.last().end == cmd.end,
{
    reveal(DrawState::commanded);
    let t = s.commanded(cmd).cmds;
    if s.cmds.len() > 0 && s.cmds.last().kind == cmd.kind && s.cmds.last().end == cmd.start {
        assert(t.drop_last() =~= s.cmds.drop_last());
    } else {
        assert(t.drop_last() =~= s.cmds);
    }
}

proof fn lemma_flushed(s: DrawState)
    requires
        s.in_order(),
        s.indices.len() <= u32::MAX,
    ensures
        s.flushed().in_order(),
        s.flushed().committed == s.indices.len(),
{
    reveal(DrawState::in_order);
    reveal(DrawState::flushed);
    reveal(DrawState::commanded);
    let total = s.indices.len() as u32;
    if total > s.committed {
        let cmd = PaintCmd { kind: PaintKind::Soup, start: s.committed, end: total };
        assert(s.held(PaintKind::Soup) == reach(s.cmds, PaintKind::Soup));
        lemma_commanded(s, cmd);
        let t = s.flushed();
        assert forall|kind: PaintKind| #[trigger] t.held(kind) == reach(t.cmds, kind) by {
            assert(s.held(kind) == reach(s.cmds, kind));
        }
    }
}

/// A flushed list with one more element of a kind and its command.
proof fn lemma_put(s: DrawState, t: DrawState, cmd: PaintCmd)
    requires
        s.in_order(),
        s.indices.len() <= u32::MAX,
        cmd.kind != PaintKind::Soup,
        cmd.start == s.held(cmd.kind),
        cmd.end == cmd.start + 1,
        t.cmds == s.flushed().commanded(cmd).cmds,
        t.committed == s.flushed().committed,
        t.indices == s.indices,
        t.vertices == s.vertices,
        forall|kind: PaintKind| #[trigger]
            t.held(kind) == (if kind == cmd.kind {
                s.held(kind) + 1
            } else {
                s.flushed().held(kind)
            }),
    ensures
        t.in_order(),
        t.committed == s.indices.len(),
        t.cmds.len() > 0,
        t.cmds.last().kind == cmd.kind,
        t.cmds.last().end == t.held(cmd.kind),
{
    lemma_flushed(s);
    let f = s.flushed();
    reveal(DrawState::in_order);
    assert(f.held(cmd.kind) == s.held(cmd.kind)) by {
        reveal(DrawState::flushed);
        reveal(DrawState::commanded);
    }
    assert(f.held(cmd.kind) == reach(f.cmds, cmd.kind));
    lemma_commanded(f, cmd);
    assert forall|kind: PaintKind| #[trigger] t.held(kind) == reach(t.cmds, kind) by {
        assert(f.held(kind) == reach(f.cmds, kind));
    }
}

/// An empty list is in order.
pub proof fn law_fresh_list_is_in_order(trig: TrigView, id: u64)
    ensures
        DrawState::fresh(trig, id).in_order(),
{
    reveal(DrawState::in_order);
}


/// The frame that follows from a put of one element: the buffers that do not change.
proof fn lemma_flush_keeps_buffers(s: DrawState)
    ensures
        s.flushed().vertices == s.vertices,
        s.flushed().indices == s.indices,
        s.flushed().chrome == s.chrome,
        s.flushed().circles == s.circles,
        s.flushed().nine_slices == s.nine_slices,
        s.flushed().icons == s.icons,
        s.flushed().icons_msdf == s.icons_msdf,
        s.flushed().texts == s.texts,
{
    reveal(DrawState::flushed);
    reveal(DrawState::commanded);
}

/// A rectangle instance is painted last, after all the soup before it.
pub proof fn law_rectangles_paint_last(
    s: DrawState,
    rect: Rect,
    radius: Scalar,
    thickness: Scalar,
    bg: Color,
    bg2: Color,
    border: Color,
)
    ensures
        ({
            let t = s.chrome_instance(rect, radius, thickness, bg, bg2, border);
            &&& s.keeps_order(t)
            &&& s.in_order() && t.counted() ==> {
                &&& t.committed == t.indices.len()
                &&& t.cmds.last().kind == PaintKind::Chrome
                &&& t.cmds.last().end == t.chrome.len()
            }
        }),
{
    let t = s.chrome_instance(rect, radius, thickness, bg, bg2, border);
    lemma_flush_keeps_buffers(s);
    reveal(DrawState::chrome_instance);
    reveal(DrawState::commanded);
    if s.in_order() && t.counted() {
        let i = s.chrome.len() as u32;
        lemma_put(s, t, PaintCmd { kind: PaintKind::Chrome, start: i, end: i.wrapping_add(1) });
    }
}

/// A circle instance is painted last, after all the soup before it.
pub proof fn law_circles_paint_last(
    s: DrawState,
    center: Point,
    radius: Scalar,
    thickness: Scalar,
    color: Color,
)
    ensures
        ({
            let t = s.circle_instance(center, radius, thickness, color);
            &&& s.keeps_order(t)
            &&& s.in_order() && t.counted() ==> {
                &&& t.committed == t.indices.len()
                &&& t.cmds.last().kind == PaintKind::Circle
                &&& t.cmds.last().end == t.circles.len()
            }
        }),
{
    let t = s.circle_instance(center, radius, thickness, color);
    lemma_flush_keeps_buffers(s);
    reveal(DrawState::circle_instance);
    reveal(DrawState::commanded);
    if s.in_order() && t.counted() {
        let i = s.circles.len() as u32;
        lemma_put(s, t, PaintCmd { kind: PaintKind::Circle, start: i, end: i.wrapping_add(1) });
    }
}

/// A text block is painted last, after all the soup before it.
pub proof fn law_texts_paint_last(s: DrawState, block: TextView)
    ensures
        ({
            let t = s.text_put(block);
            &&& s.keeps_order(t)
            &&& s.in_order() && t.counted() ==> {
                &&& t.committed == t.indices.len()
                &&& t.cmds.last().kind == PaintKind::Text
                &&& t.cmds.last().end == t.texts.len()
            }
        }),
{
    let t = s.text_put(block);
    lemma_flush_keeps_buffers(s);
    reveal(DrawState::text_put);
    reveal(DrawState::commanded);
    if s.in_order() && t.counted() {
        let i = s.texts.len() as u32;
        lemma_put(s, t, PaintCmd { kind: PaintKind::Text, start: i, end: i.wrapping_add(1) });
    }
}

/// An image is painted last, after all the soup before it.
pub proof fn law_images_paint_last(
    s: DrawState,
    rect: Rect,
    sprite: Option<SpriteId>,
    key: Seq<char>,
    tint: Color,
    src: Option<Uv>,
    wrap: bool,
)
    ensures
        ({
            let t = s.icon_put(rect, sprite, key, tint, src, wrap);
            &&& s.keeps_order(t)
            &&& s.in_order() && t.counted() ==> {
                &&& t.committed == t.indices.len()
                &&& t.cmds.last().kind == PaintKind::Icon
                &&& t.cmds.last().end == t.icons.len()
            }
        }),
{
    let t = s.icon_put(rect, sprite, key, tint, src, wrap);
    lemma_flush_keeps_buffers(s);
    reveal(DrawState::icon_put);
    reveal(DrawState::commanded);
    if s.in_order() && t.counted() {
        let i = s.icons.len() as u32;
        lemma_put(s, t, PaintCmd { kind: PaintKind::Icon, start: i, end: i.wrapping_add(1) });
    }
}

/// A panel is painted last, after all the soup before it.
pub proof fn law_panels_paint_last(
    s: DrawState,
    rect: Rect,
    nine_slice: Option<NineSliceId>,
    key: Seq<char>,
    tint: Color,
)
    ensures
        ({
            let t = s.nine_slice_put(rect, nine_slice, key, tint);
            &&& s.keeps_order(t)
            &&& s.in_order() && t.counted() ==> {
                &&& t.committed == t.indices.len()
                &&& t.cmds.last().kind == PaintKind::NineSlice
                &&& t.cmds.last().end == t.nine_slices.len()
            }
        }),
{
    let t = s.nine_slice_put(rect, nine_slice, key, tint);
    lemma_flush_keeps_buffers(s);
    reveal(DrawState::nine_slice_put);
    reveal(DrawState::commanded);
    if s.in_order() && t.counted() {
        let i = s.nine_slices.len() as u32;
        lemma_put(s, t, PaintCmd { kind: PaintKind::NineSlice, start: i, end: i.wrapping_add(1) });
    }
}

/// A vector icon that has room is painted last, after all the soup before it.
pub proof fn law_icons_paint_last(s: DrawState, rect: Rect, glyph: IconGlyph, tint: Color)
    ensures
        ({
            let t = s.icon_msdf(rect, glyph, tint);
            &&& s.keeps_order(t)
            &&& s.in_order() && t.counted() && !rect.is_empty() ==> {
                &&& t.committed == t.indices.len()
                &&& t.cmds.last().kind == PaintKind::IconMsdf
                &&& t.cmds.last().end == t.icons_msdf.len()
            }
        }),
{
    let t = s.icon_msdf(rect, glyph, tint);
    lemma_flush_keeps_buffers(s);
    reveal(DrawState::icon_msdf);
    reveal(DrawState::commanded);
    if rect.is_empty() {
        lemma_same_stream(s, t);
    } else if s.in_order() && t.counted() {
        let i = s.icons_msdf.len() as u32;
        lemma_put(s, t, PaintCmd { kind: PaintKind::IconMsdf, start: i, end: i.wrapping_add(1) });
    }
}


/// Triangles go to the end of the soup.
pub proof fn law_triangles_keep_the_order(
    s: DrawState,
    p0: Point,
    p1: Point,
    p2: Point,
    c0: Color,
    c1: Color,
    c2: Color,
)
    ensures
        s.keeps_order(s.triangle(p0, p1, p2, c0, c1, c2)),
{
    reveal(DrawState::triangle);
    lemma_same_stream(s, s.triangle(p0, p1, p2, c0, c1, c2));
}

proof fn lemma_quadrangle(
    s: DrawState,
    p0: Point,
    p1: Point,
    p2: Point,
    p3: Point,
    c0: Color,
    c1: Color,
    c2: Color,
    c3: Color,
)
    ensures
        s.keeps_order(s.quadrangle(p0, p1, p2, p3, c0, c1, c2, c3)),
{
    reveal(DrawState::quadrangle);
    lemma_same_stream(s, s.quadrangle(p0, p1, p2, p3, c0, c1, c2, c3));
}

/// Filled rectangles, flat or shaded, keep the order of painting.
pub proof fn law_fills_keep_the_order(s: DrawState, rect: Rect, color: Color, colors: Shades)
    ensures
        s.keeps_order(s.quad(rect, color)),
        s.keeps_order(s.quad_gradient(rect, colors)),
{
    lemma_quad(s, rect, color);
    lemma_quad_gradient(s, rect, colors);
}

proof fn lemma_quad_soup(s: DrawState, rect: Rect, colors: Shades)
    ensures
        s.keeps_order(s.quad_soup(rect, colors)),
{
    reveal(DrawState::quad_soup);
    lemma_quadrangle(
        s,
        Point { x: rect.x, y: rect.y },
        Point { x: rect.right(), y: rect.y },
        Point { x: rect.right(), y: rect.bottom() },
        Point { x: rect.x, y: rect.bottom() },
        colors.tl,
        colors.tr,
        colors.br,
        colors.bl,
    );
}

proof fn lemma_quad_gradient(s: DrawState, rect: Rect, colors: Shades)
    ensures
        s.keeps_order(s.quad_gradient(rect, colors)),
{
    reveal(DrawState::quad_gradient);
    lemma_quad_soup(s, rect, colors);
    lemma_same_stream(s, s.refused());
}

proof fn lemma_quad(s: DrawState, rect: Rect, color: Color)
    ensures
        s.keeps_order(s.quad(rect, color)),
{
    reveal(DrawState::quad);
    lemma_same_stream(s, s.refused());
    law_rectangles_paint_last(s, rect, whole(0), whole(0), color, color, color);
    lemma_quad_soup(s, rect, Shades { tl: color, tr: color, br: color, bl: color });
}

proof fn lemma_fan(
    s: DrawState,
    center: Point,
    radius: Scalar,
    dirs: Seq<Point>,
    from: int,
    n: nat,
    color: Color,
)
    ensures
        s.keeps_order(s.fan(center, radius, dirs, from, n, color)),
    decreases n,
{
    if n > 0 {
        let i = from + n - 1;
        lemma_fan(s, center, radius, dirs, from, (n - 1) as nat, color);
        law_triangles_keep_the_order(
            s.fan(center, radius, dirs, from, (n - 1) as nat, color),
            center,
            polar(center, radius, crate::draw_list::dir_at(dirs, i)),
            polar(center, radius, crate::draw_list::dir_at(dirs, i + 1)),
            color,
            color,
            color,
        );
    }
}

proof fn lemma_band(
    s: DrawState,
    center: Point,
    inner: Scalar,
    outer: Scalar,
    dirs: Seq<Point>,
    from: int,
    n: nat,
    color: Color,
)
    ensures
        s.keeps_order(s.band(center, inner, outer, dirs, from, n, color)),
    decreases n,
{
    if n > 0 {
        let i = from + n - 1;
        let i0 = polar(center, inner, crate::draw_list::dir_at(dirs, i));
        let o0 = polar(center, outer, crate::draw_list::dir_at(dirs, i));
        let i1 = polar(center, inner, crate::draw_list::dir_at(dirs, i + 1));
        let o1 = polar(center, outer, crate::draw_list::dir_at(dirs, i + 1));
        let t = s.band(center, inner, outer, dirs, from, (n - 1) as nat, color);
        lemma_band(s, center, inner, outer, dirs, from, (n - 1) as nat, color);
        law_triangles_keep_the_order(t, i0, o0, o1, color, color, color);
        law_triangles_keep_the_order(
            t.triangle(i0, o0, o1, color, color, color),
            i0,
            o1,
            i1,
            color,
            color,
            color,
        );
    }
}

/// Rounded rectangles, outlines and panels keep the order of painting.
pub proof fn law_boxes_keep_the_order(
    s: DrawState,
    rect: Rect,
    radius: Scalar,
    thickness: Scalar,
    bg: Color,
    bg2: Color,
    border: Color,
)
    ensures
        s.keeps_order(s.rounded_rect(rect, radius, bg)),
        s.keeps_order(s.rect_outline(rect, thickness, border)),
        s.keeps_order(s.rounded_rect_outline(rect, radius, thickness, border)),
        s.keeps_order(s.chrome_rect_gradient(rect, radius, thickness, bg, bg2, border)),
{
    lemma_rounded_rect(s, rect, radius, bg);
    lemma_rect_outline(s, rect, thickness, border);
    lemma_rounded_rect_outline(s, rect, radius, thickness, border);
    lemma_chrome_rect_gradient(s, rect, radius, thickness, bg, bg2, border);
}

proof fn lemma_rounded_soup(s: DrawState, rect: Rect, radius: Scalar, color: Color)
    ensures
        s.keeps_order(s.rounded_soup(rect, radius, color)),
{
    reveal(DrawState::rounded_soup);
    let r = radius.at_most(rect.width.times(ratio(1, 2))).at_most(rect.height.times(ratio(1, 2)));
    let x0 = rect.x;
    let y0 = rect.y;
    let x1 = rect.right();
    let y1 = rect.bottom();
    let w = rect.width.minus(r.times(whole(2)));
    let h = rect.height.minus(r.times(whole(2)));
    let dirs = s.trig.corners;
    let q0 = Rect { x: x0.plus(r), y: y0.plus(r), width: w, height: h };
    let q1 = Rect { x: x0.plus(r), y: y0, width: w, height: r };
    let q2 = Rect { x: x0.plus(r), y: y1.minus(r), width: w, height: r };
    let q3 = Rect { x: x0, y: y0.plus(r), width: r, height: h };
    let q4 = Rect { x: x1.minus(r), y: y0.plus(r), width: r, height: h };
    let s0 = s.quad(q0, color);
    let s1 = s0.quad(q1, color);
    let s2 = s1.quad(q2, color);
    let s3 = s2.quad(q3, color);
    let s4 = s3.quad(q4, color);
    let c0 = Point { x: x0.plus(r), y: y0.plus(r) };
    let c1 = Point { x: x1.minus(r), y: y0.plus(r) };
    let c2 = Point { x: x1.minus(r), y: y1.minus(r) };
    let c3 = Point { x: x0.plus(r), y: y1.minus(r) };
    let s5 = s4.fan(c0, r, dirs, 0, 8, color);
    let s6 = s5.fan(c1, r, dirs, 9, 8, color);
    let s7 = s6.fan(c2, r, dirs, 18, 8, color);
    lemma_quad(s, q0, color);
    lemma_quad(s0, q1, color);
    lemma_quad(s1, q2, color);
    lemma_quad(s2, q3, color);
    lemma_quad(s3, q4, color);
    lemma_fan(s4, c0, r, dirs, 0, 8, color);
    lemma_fan(s5, c1, r, dirs, 9, 8, color);
    lemma_fan(s6, c2, r, dirs, 18, 8, color);
    lemma_fan(s7, c3, r, dirs, 27, 8, color);
}

proof fn lemma_rounded_rect(s: DrawState, rect: Rect, radius: Scalar, color: Color)
    ensures
        s.keeps_order(s.rounded_rect(rect, radius, color)),
{
    reveal(DrawState::rounded_rect);
    lemma_quad(s, rect, color);
    law_rectangles_paint_last(s, rect, radius, whole(0), color, color, color);
    lemma_rounded_soup(s, rect, radius, color);
}

proof fn lemma_rect_outline(s: DrawState, rect: Rect, thickness: Scalar, color: Color)
    ensures
        s.keeps_order(s.rect_outline(rect, thickness, color)),
{
    reveal(DrawState::rect_outline);
    lemma_same_stream(s, s.refused());
    let clear = color.with_alpha(whole(0));
    law_rectangles_paint_last(s, rect, whole(0), thickness, clear, clear, color);
    let t = thickness.at_most(rect.width.times(ratio(1, 2))).at_most(
        rect.height.times(ratio(1, 2)),
    );
    let inner = rect.height.minus(whole(2).times(t));
    let q0 = Rect { x: rect.x, y: rect.y, width: rect.width, height: t };
    let q1 = Rect {
        x: rect.x,
        y: rect.y.plus(rect.height).minus(t),
        width: rect.width,
        height: t,
    };
    let q2 = Rect { x: rect.x, y: rect.y.plus(t), width: t, height: inner };
    let q3 = Rect { x: rect.right().minus(t), y: rect.y.plus(t), width: t, height: inner };
    let s0 = s.quad(q0, color);
    let s1 = s0.quad(q1, color);
    let s2 = s1.quad(q2, color);
    lemma_quad(s, q0, color);
    lemma_quad(s0, q1, color);
    lemma_quad(s1, q2, color);
    lemma_quad(s2, q3, color);
}

proof fn lemma_outline_soup(
    s: DrawState,
    rect: Rect,
    radius: Scalar,
    thickness: Scalar,
    color: Color,
)
    ensures
        s.keeps_order(s.outline_soup(rect, radius, thickness, color)),
{
    reveal(DrawState::outline_soup);
    let half_w = rect.width.times(ratio(1, 2));
    let half_h = rect.height.times(ratio(1, 2));
    let r = radius.at_most(half_w).at_most(half_h);
    let t = thickness.at_most(r).at_most(half_w).at_most(half_h);
    let x0 = rect.x;
    let y0 = rect.y;
    let x1 = rect.right();
    let y1 = rect.bottom();
    let span_w = rect.width.minus(r.times(whole(2)));
    let span_h = rect.height.minus(r.times(whole(2)));
    let inner = r.minus(t).at_least(whole(0));
    let dirs = s.trig.corners;
    let q0 = Rect { x: x0.plus(r), y: y0, width: span_w, height: t };
    let q1 = Rect { x: x0.plus(r), y: y1.minus(t), width: span_w, height: t };
    let q2 = Rect { x: x0, y: y0.plus(r), width: t, height: span_h };
    let q3 = Rect { x: x1.minus(t), y: y0.plus(r), width: t, height: span_h };
    lemma_quad(s, q0, color);
    lemma_quad(s.quad(q0, color), q1, color);
    let s1 = if whole(0).lt(span_w) {
        s.quad(q0, color).quad(q1, color)
    } else {
        s
    };
    lemma_quad(s1, q2, color);
    lemma_quad(s1.quad(q2, color), q3, color);
    let s2 = if whole(0).lt(span_h) {
        s1.quad(q2, color).quad(q3, color)
    } else {
        s1
    };
    let c0 = Point { x: x0.plus(r), y: y0.plus(r) };
    let c1 = Point { x: x1.minus(r), y: y0.plus(r) };
    let c2 = Point { x: x1.minus(r), y: y1.minus(r) };
    let c3 = Point { x: x0.plus(r), y: y1.minus(r) };
    let s3 = s2.band(c0, inner, r, dirs, 0, 8, color);
    let s4 = s3.band(c1, inner, r, dirs, 9, 8, color);
    let s5 = s4.band(c2, inner, r, dirs, 18, 8, color);
    lemma_band(s2, c0, inner, r, dirs, 0, 8, color);
    lemma_band(s3, c1, inner, r, dirs, 9, 8, color);
    lemma_band(s4, c2, inner, r, dirs, 18, 8, color);
    lemma_band(s5, c3, inner, r, dirs, 27, 8, color);
}

proof fn lemma_rounded_rect_outline(
    s: DrawState,
    rect: Rect,
    radius: Scalar,
    thickness: Scalar,
    color: Color,
)
    ensures
        s.keeps_order(s.rounded_rect_outline(rect, radius, thickness, color)),
{
    reveal(DrawState::rounded_rect_outline);
    let clear = color.with_alpha(whole(0));
    lemma_same_stream(s, s.refused());
    lemma_rect_outline(s, rect, thickness, color);
    law_rectangles_paint_last(s, rect, radius, thickness, clear, clear, color);
    lemma_outline_soup(s, rect, radius, thickness, color);
}

proof fn lemma_chrome_rect_gradient(
    s: DrawState,
    rect: Rect,
    radius: Scalar,
    thickness: Scalar,
    bg: Color,
    bg2: Color,
    border: Color,
)
    ensures
        s.keeps_order(s.chrome_rect_gradient(rect, radius, thickness, bg, bg2, border)),
{
    reveal(DrawState::chrome_rect_gradient);
    lemma_same_stream(s, s.refused());
    law_rectangles_paint_last(s, rect, radius, thickness, bg, bg2, border);
    lemma_rounded_rect(s, rect, radius, bg);
    lemma_quad(s, rect, bg);
    let t = if whole(0).lt(radius) {
        s.rounded_rect(rect, radius, bg)
    } else {
        s.quad(rect, bg)
    };
    lemma_quad_gradient(t, rect, Shades { tl: bg, tr: bg, br: bg2, bl: bg2 });
    lemma_rounded_rect_outline(t.vertical_gradient(rect, bg, bg2), rect, radius, thickness, border);
}

/// A shadow keeps the order of painting.
pub proof fn law_shadows_keep_the_order(
    s: DrawState,
    rect: Rect,
    offset_y: Scalar,
    blur: Scalar,
    radius: Scalar,
    color: Color,
)
    ensures
        s.keeps_order(s.drop_shadow(rect, offset_y, blur, radius, color)),
{
    reveal(DrawState::drop_shadow);
    lemma_same_stream(s, s.refused());
    let zero = color.with_alpha(whole(0));
    let edge = color.with_alpha(color.a.times(ratio(35, 100)));
    let top = blur.minus(offset_y).at_least(whole(0));
    let bottom = blur.plus(offset_y).at_least(whole(0));
    let left_x = rect.x.minus(blur);
    let top_y = rect.y.minus(top);
    let s0 = s.chrome_rect(rect, radius, whole(0), color, Color::clear());
    lemma_chrome_rect_gradient(s, rect, radius, whole(0), color, color, Color::clear());
    let above = Rect { x: rect.x, y: top_y, width: rect.width, height: top };
    let below = Rect { x: rect.x, y: rect.bottom(), width: rect.width, height: bottom };
    lemma_quad_gradient(s0, above, Shades { tl: zero, tr: zero, br: edge, bl: edge });
    let s1 = if whole(0).lt(top) {
        s0.vertical_gradient(above, zero, edge)
    } else {
        s0
    };
    lemma_quad_gradient(s1, below, Shades { tl: edge, tr: edge, br: zero, bl: zero });
    let s2 = if whole(0).lt(bottom) {
        s1.vertical_gradient(below, edge, zero)
    } else {
        s1
    };
    let left = Rect { x: left_x, y: rect.y, width: blur, height: rect.height };
    let right = Rect { x: rect.right(), y: rect.y, width: blur, height: rect.height };
    lemma_quad_gradient(s2, left, Shades { tl: zero, tr: edge, br: edge, bl: zero });
    let s3 = s2.horizontal_gradient(left, zero, edge);
    lemma_quad_gradient(s3, right, Shades { tl: edge, tr: zero, br: zero, bl: edge });
    let s4 = s3.horizontal_gradient(right, edge, zero);
    let tl = Rect { x: left_x, y: top_y, width: blur, height: top };
    let tr = Rect { x: rect.right(), y: top_y, width: blur, height: top };
    let bl = Rect { x: left_x, y: rect.bottom(), width: blur, height: bottom };
    let br = Rect { x: rect.right(), y: rect.bottom(), width: blur, height: bottom };
    let to_tl = Shades { tl: zero, tr: zero, br: edge, bl: zero };
    let to_tr = Shades { tl: zero, tr: zero, br: zero, bl: edge };
    let to_bl = Shades { tl: zero, tr: edge, br: zero, bl: zero };
    let to_br = Shades { tl: edge, tr: zero, br: zero, bl: zero };
    lemma_quad_gradient(s4, tl, to_tl);
    lemma_quad_gradient(s4.quad_gradient(tl, to_tl), tr, to_tr);
    let s5 = if whole(0).lt(top) {
        s4.quad_gradient(tl, to_tl).quad_gradient(tr, to_tr)
    } else {
        s4
    };
    lemma_quad_gradient(s5, bl, to_bl);
    lemma_quad_gradient(s5.quad_gradient(bl, to_bl), br, to_br);
}

/// Lines and polygons keep the order of painting.
pub proof fn law_lines_keep_the_order(
    s: DrawState,
    points: Seq<Point>,
    center: Point,
    n: nat,
    thickness: Scalar,
    color: Color,
)
    ensures
        s.keeps_order(s.polyline(points, n, thickness, color)),
        s.keeps_order(s.polygon(points, center, n, color)),
    decreases n,
{
    lemma_same_stream(s, s);
    if n > 0 {
        law_lines_keep_the_order(s, points, center, (n - 1) as nat, thickness, color);
        law_line_keeps_the_order(
            s.polyline(points, (n - 1) as nat, thickness, color),
            points[n - 1],
            points[n as int],
            thickness,
            color,
        );
        let last = if n == points.len() {
            points[0]
        } else {
            points[n as int]
        };
        law_triangles_keep_the_order(
            s.polygon(points, center, (n - 1) as nat, color),
            center,
            points[n - 1],
            last,
            color,
            color,
            color,
        );
    }
}

/// A line keeps the order of painting.
pub proof fn law_line_keeps_the_order(
    s: DrawState,
    p0: Point,
    p1: Point,
    thickness: Scalar,
    color: Color,
)
    ensures
        s.keeps_order(s.line(p0, p1, thickness, color)),
{
    reveal(DrawState::line);
    lemma_same_stream(s, s.refused());
    let dx = p1.x.minus(p0.x);
    let dy = p1.y.minus(p0.y);
    let len = dx.times(dx).plus(dy.times(dy)).sqrt();
    let half = thickness.times(ratio(1, 2));
    let ox = dy.negate().over(len).times(half);
    let oy = dx.over(len).times(half);
    lemma_quadrangle(
        s,
        Point { x: p0.x.plus(ox), y: p0.y.plus(oy) },
        Point { x: p1.x.plus(ox), y: p1.y.plus(oy) },
        Point { x: p1.x.minus(ox), y: p1.y.minus(oy) },
        Point { x: p0.x.minus(ox), y: p0.y.minus(oy) },
        color,
        color,
        color,
        color,
    );
}

/// Discs and rings keep the order of painting.
pub proof fn law_circles_keep_the_order(
    s: DrawState,
    center: Point,
    radius: Scalar,
    thickness: Scalar,
    color: Color,
)
    ensures
        s.keeps_order(s.circle(center, radius, color)),
        s.keeps_order(s.circle_outline(center, radius, thickness, color)),
{
    reveal(DrawState::circle);
    reveal(DrawState::circle_outline);
    lemma_same_stream(s, s.refused());
    law_circles_paint_last(s, center, radius, whole(0), color);
    law_circles_paint_last(s, center, radius, thickness, color);
    let n = circle_segments(radius);
    lemma_fan(s, center, radius, crate::draw_list::row_at(s.trig.discs, n - 16), 0, n as nat, color);
    let half = thickness.times(ratio(1, 2));
    let inner = radius.minus(half).at_least(whole(0));
    let outer = radius.plus(half);
    let m = circle_segments(outer);
    lemma_band(s, center, inner, outer, crate::draw_list::row_at(s.trig.rings, m - 16), 0, m as nat, color);
}

/// Gradients along a direction and from a center keep the order of painting.
pub proof fn law_gradients_keep_the_order(
    s: DrawState,
    rect: Rect,
    start: Color,
    end: Color,
    cos: Scalar,
    sin: Scalar,
    dirs: Seq<Point>,
)
    ensures
        s.keeps_order(s.linear_gradient(rect, start, end, cos, sin)),
        s.keeps_order(s.radial_gradient(rect, start, end, cos, dirs)),
{
    lemma_quad_gradient(s, rect, crate::draw_gradients::gradient_shades(rect, start, end, cos, sin));
    let t = s.radial_gradient(rect, start, end, cos, dirs);
    if !rect.is_empty() {
        assert forall|i: int| t.counted() && s.indices.len() <= i < t.indices.len() implies #[trigger] t.indices[i]
            < t.vertices.len() by {
            let k = i - s.indices.len();
            assert(t.indices[i] == crate::draw_gradients::fan_index(
                s.vertices.len() as u32,
                dirs.len() as int,
                k,
            ));
        }
    }
    lemma_same_stream(s, t);
}

/// Text keeps the order of painting, its underlines before it.
pub proof fn law_text_keeps_the_order(s: DrawState, block: TextView, layout: SpanLayout)
    ensures
        s.keeps_order(s.text(block)),
        s.keeps_order(s.text_spans(block, layout)),
{
    reveal(DrawState::text);
    reveal(DrawState::text_spans);
    let noted = s.text_noted();
    lemma_same_stream(s, noted);
    law_texts_paint_last(noted, s.placed(block.under(s.tint())));
    let b = block.joined().under(s.tint());
    lemma_underlined(noted, b, layout, b.spans.len());
    law_texts_paint_last(noted.underlined(b, layout, b.spans.len()), s.placed(b));
}

proof fn lemma_underlined(s: DrawState, block: TextView, layout: SpanLayout, n: nat)
    ensures
        s.keeps_order(s.underlined(block, layout, n)),
    decreases n,
{
    lemma_same_stream(s, s);
    if n > 0 {
        lemma_underlined(s, block, layout, (n - 1) as nat);
        match block.underline(n - 1, layout) {
            Some((rect, color)) => {
                lemma_quad(s.underlined(block, layout, (n - 1) as nat), rect, color);
            },
            None => {},
        }
    }
}

/// Clips, transforms, tints and scopes paint nothing.
pub proof fn law_stacks_paint_nothing(
    s: DrawState,
    name: Seq<char>,
    rect: Rect,
    m: Affine2,
    tint: Color,
)
    ensures
        s.same_stream(s.clip_pushed(rect)),
        s.same_stream(s.clip_popped()),
        s.same_stream(s.scoped(name, rect)),
        s.same_stream(s.scope_closed()),
        s.same_stream(s.transform_pushed()),
        s.same_stream(s.transform_popped()),
        s.same_stream(s.composed(m)),
        s.same_stream(s.tint_pushed()),
        s.same_stream(s.tint_popped()),
        s.same_stream(s.retinted(tint)),
        s.keeps_order(s.clip_pushed(rect)),
        s.keeps_order(s.clip_popped()),
        s.keeps_order(s.scoped(name, rect)),
        s.keeps_order(s.scope_closed()),
        s.keeps_order(s.transform_pushed()),
        s.keeps_order(s.transform_popped()),
        s.keeps_order(s.composed(m)),
        s.keeps_order(s.tint_pushed()),
        s.keeps_order(s.tint_popped()),
        s.keeps_order(s.retinted(tint)),
{
    reveal(DrawState::scoped);
    reveal(DrawState::scope_closed);
    lemma_same_stream(s, s.clip_pushed(rect));
    lemma_same_stream(s, s.clip_popped());
    lemma_same_stream(s, s.scoped(name, rect));
    lemma_same_stream(s, s.scope_closed());
    lemma_same_stream(s, s.transform_pushed());
    lemma_same_stream(s, s.transform_popped());
    lemma_same_stream(s, s.composed(m));
    lemma_same_stream(s, s.tint_pushed());
    lemma_same_stream(s, s.tint_popped());
    lemma_same_stream(s, s.retinted(tint));
}

/// In a list in order, each index of the soup names a vertex.
pub proof fn law_soup_indices_name_vertices(s: DrawState, i: int)
    requires
        s.in_order(),
        0 <= i < s.indices.len(),
    ensures
        s.indices[i] < s.vertices.len(),
        s.indices.len() % 3 == 0,
{
    reveal(DrawState::in_order);
}

/// Whether a command paints element `i` of a kind.
pub open spec fn paints(cmd: PaintCmd, kind: PaintKind, i: int) -> bool {
    cmd.kind == kind && cmd.start <= i < cmd.end
}

/// In a list in order, one command and no other paints each element.
pub proof fn law_each_element_is_painted_once(s: DrawState, kind: PaintKind, i: int)
    requires
        s.in_order(),
        0 <= i < s.held(kind),
    ensures
        exists|j: int|
            0 <= j < s.cmds.len() && #[trigger] paints(s.cmds[j], kind, i) && forall|k: int|
                0 <= k < s.cmds.len() && #[trigger] paints(s.cmds[k], kind, i) ==> k == j,
{
    reveal(DrawState::in_order);
    assert(s.held(kind) == reach(s.cmds, kind));
    lemma_painted_once(s.cmds, kind, i);
}

proof fn lemma_painted_once(cmds: Seq<PaintCmd>, kind: PaintKind, i: int)
    requires
        in_turn(cmds),
        0 <= i,
    ensures
        i < reach(cmds, kind) ==> exists|j: int|
            0 <= j < cmds.len() && #[trigger] paints(cmds[j], kind, i) && forall|k: int|
                0 <= k < cmds.len() && #[trigger] paints(cmds[k], kind, i) ==> k == j,
        i >= reach(cmds, kind) ==> forall|k: int|
            0 <= k < cmds.len() ==> !#[trigger] paints(cmds[k], kind, i),
    decreases cmds.len(),
{
    if cmds.len() > 0 {
        let most = cmds.drop_last();
        let n = cmds.len() - 1;
        lemma_painted_once(most, kind, i);
        assert forall|k: int| 0 <= k < n implies most[k] == #[trigger] cmds[k] by {}
        if i < reach(cmds, kind) {
            if i < reach(most, kind) {
                let j = choose|j: int|
                    0 <= j < most.len() && #[trigger] paints(most[j], kind, i) && forall|k: int|
                        0 <= k < most.len() && #[trigger] paints(most[k], kind, i) ==> k == j;
                assert(paints(cmds[j], kind, i));
                assert forall|k: int| 0 <= k < cmds.len() && #[trigger] paints(
                    cmds[k],
                    kind,
                    i,
                ) implies k == j by {
                    if k < n {
                        assert(paints(most[k], kind, i));
                    }
                }
            } else {
                assert(paints(cmds[n], kind, i));
                assert forall|k: int| 0 <= k < cmds.len() && #[trigger] paints(
                    cmds[k],
                    kind,
                    i,
                ) implies k == n by {
                    if k < n {
                        assert(paints(most[k], kind, i));
                    }
                }
            }
        } else {
            lemma_reach_grows(cmds, kind);
            assert forall|k: int| 0 <= k < cmds.len() implies !#[trigger] paints(
                cmds[k],
                kind,
                i,
            ) by {
                if k < n {
                    assert(!paints(most[k], kind, i));
                }
            }
        }
    }
}

proof fn lemma_reach_grows(cmds: Seq<PaintCmd>, kind: PaintKind)
    requires
        in_turn(cmds),
        cmds.len() > 0,
    ensures
        reach(cmds.drop_last(), kind) <= reach(cmds, kind),
{
}

} // verus!
