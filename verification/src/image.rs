//! Images: a picture scaled into a box.
//!
//! The fits that keep the picture's proportions need its natural size, which only
//! the caller knows; without it the picture fills the box.

use crate::draw_list::{DrawList, SpriteId, Uv};
use crate::geometry::{Color, Rect};
use crate::rounding;
use crate::scalar::{ratio, whole, Scalar};
use vstd::prelude::*;

verus! {

/// How a picture is scaled into its box.
#[derive(Clone, Copy, Debug, PartialEq, Eq, Structural)]
pub enum ImageFit {
    /// It fills the box, whatever its proportions.
    Stretch,
    /// It is as large as fits inside the box.
    Contain,
    /// It is as small as covers the box, and is cropped. A picture by name
    /// cannot be cropped, and fills the box.
    Cover,
    /// As `Contain`, but never larger than its natural size.
    ScaleDown,
    /// It has its natural size, and may reach beyond the box.
    Natural,
}

impl Default for ImageFit {
    fn default() -> (r: Self)
        ensures
            r == ImageFit::Stretch,
    {
        ImageFit::Stretch
    }
}

/// Where a picture lies in the room left over: 0 is the start, 1 the end.
#[derive(Clone, Copy, Debug, PartialEq, Eq, Structural)]
pub struct ImageAlign {
    /// From left to right.
    pub x: Scalar,
    /// From top to bottom.
    pub y: Scalar,
}

impl Default for ImageAlign {
    fn default() -> (r: Self)
        ensures
            r == Self::center(),
    {
        Self::center()
    }
}

impl ImageAlign {
    pub open spec fn spec_new(x: Scalar, y: Scalar) -> ImageAlign {
        ImageAlign { x, y }
    }

    /// At this fraction of the room.
    #[verifier::when_used_as_spec(spec_new)]
    pub fn new(x: Scalar, y: Scalar) -> (r: Self)
        ensures
            r == Self::spec_new(x, y),
    {
        ImageAlign { x, y }
    }

    pub open spec fn spec_center() -> ImageAlign {
        ImageAlign { x: ratio(1, 2), y: ratio(1, 2) }
    }

    /// In the middle.
    #[verifier::when_used_as_spec(spec_center)]
    pub fn center() -> (r: Self)
        ensures
            r == Self::spec_center(),
    {
        ImageAlign { x: ratio(1, 2), y: ratio(1, 2) }
    }

    pub open spec fn spec_top_left() -> ImageAlign {
        ImageAlign { x: whole(0), y: whole(0) }
    }

    /// At the start.
    #[verifier::when_used_as_spec(spec_top_left)]
    pub fn top_left() -> (r: Self)
        ensures
            r == Self::spec_top_left(),
    {
        ImageAlign { x: whole(0), y: whole(0) }
    }
}

/// A width and a height.
#[derive(Clone, Copy, Debug, PartialEq, Eq, Structural)]
pub struct Extent {
    /// The width.
    pub w: Scalar,
    /// The height.
    pub h: Scalar,
}

/// Where a picture comes from.
#[derive(Debug, Clone)]
pub enum Source {
    /// By number: it can be tinted and cropped.
    Sprite(SpriteId),
    /// By name: it has the tint in force, and cannot be cropped.
    Key(String),
}

/// Where a picture comes from, as [`Source`] names it.
pub enum SourceView {
    /// By number.
    Sprite(SpriteId),
    /// By name.
    Key(Seq<char>),
}

/// A picture in a box.
#[derive(Debug, Clone)]
pub struct Image {
    /// Where it comes from.
    pub source: Source,
    /// Its natural size, where it is known.
    pub natural: Option<Extent>,
    /// How it is scaled.
    pub fit: ImageFit,
    /// Where it lies.
    pub align: ImageAlign,
    /// Multiplied with a picture by number.
    pub tint: Color,
}

/// What an [`Image`] is made of.
pub struct ImageView {
    /// Where it comes from.
    pub source: SourceView,
    /// Its natural size, where it is known.
    pub natural: Option<Extent>,
    /// How it is scaled.
    pub fit: ImageFit,
    /// Where it lies.
    pub align: ImageAlign,
    /// Multiplied with a picture by number.
    pub tint: Color,
}

impl View for Source {
    type V = SourceView;

    open spec fn view(&self) -> SourceView {
        match self {
            Source::Sprite(id) => SourceView::Sprite(*id),
            Source::Key(key) => SourceView::Key(key@),
        }
    }
}

impl View for Image {
    type V = ImageView;

    open spec fn view(&self) -> ImageView {
        ImageView {
            source: self.source@,
            natural: self.natural,
            fit: self.fit,
            align: self.align,
            tint: self.tint,
        }
    }
}

/// Where a picture is drawn.
#[derive(Clone, Copy, Debug, PartialEq, Eq, Structural)]
pub struct Placement {
    /// The rectangle on the screen.
    pub rect: Rect,
    /// The part of the picture that fills it, all of it where there is none.
    pub src: Option<Uv>,
}

impl ImageView {
    /// A picture as it comes from its source.
    pub open spec fn of(source: SourceView) -> ImageView {
        ImageView {
            source,
            natural: None,
            fit: ImageFit::Stretch,
            align: ImageAlign::center(),
            tint: Color::white(whole(1)),
        }
    }

    /// Whether the natural size is known and has extent.
    pub open spec fn is_sized(self) -> bool {
        self.natural is Some && whole(0).lt(self.natural->0.w) && whole(0).lt(self.natural->0.h)
    }

    /// A picture of this size, in its place within `dest`.
    pub open spec fn aligned(self, dest: Rect, w: Scalar, h: Scalar) -> Rect {
        Rect {
            x: dest.x.plus(dest.width.minus(w).times(self.align.x)),
            y: dest.y.plus(dest.height.minus(h).times(self.align.y)),
            width: w,
            height: h,
        }
    }

    /// The largest scale at which the picture fits inside `dest`.
    pub open spec fn inner_scale(self, dest: Rect) -> Scalar {
        dest.width.over(self.natural->0.w).at_most(dest.height.over(self.natural->0.h))
    }

    /// The smallest scale at which the picture covers `dest`.
    pub open spec fn outer_scale(self, dest: Rect) -> Scalar {
        dest.width.over(self.natural->0.w).at_least(dest.height.over(self.natural->0.h))
    }

    /// The picture at this scale, in its place within `dest`.
    pub open spec fn scaled(self, dest: Rect, scale: Scalar) -> Placement {
        Placement {
            rect: self.aligned(
                dest,
                self.natural->0.w.times(scale),
                self.natural->0.h.times(scale),
            ),
            src: None,
        }
    }

    /// The part of the picture that shows in `dest` when it covers it.
    pub open spec fn cropped(self, dest: Rect) -> Uv {
        let scale = self.outer_scale(dest);
        let u = dest.width.over(self.natural->0.w.times(scale)).at_most(whole(1));
        let v = dest.height.over(self.natural->0.h.times(scale)).at_most(whole(1));
        let u0 = whole(1).minus(u).times(self.align.x);
        let v0 = whole(1).minus(v).times(self.align.y);
        Uv { u0, v0, u1: u0.plus(u), v1: v0.plus(v) }
    }

    /// Where the picture is drawn, and which part of it.
    pub open spec fn placed(self, dest: Rect, can_crop: bool) -> Placement {
        if !self.is_sized() {
            Placement { rect: dest, src: None }
        } else {
            match self.fit {
                ImageFit::Stretch => Placement { rect: dest, src: None },
                ImageFit::Contain => self.scaled(dest, self.inner_scale(dest)),
                ImageFit::ScaleDown => self.scaled(
                    dest,
                    self.inner_scale(dest).at_most(whole(1)),
                ),
                ImageFit::Natural => Placement {
                    rect: self.aligned(dest, self.natural->0.w, self.natural->0.h),
                    src: None,
                },
                ImageFit::Cover => Placement {
                    rect: dest,
                    src: if can_crop {
                        Some(self.cropped(dest))
                    } else {
                        None
                    },
                },
            }
        }
    }

    /// What drawing the picture into `dest` adds.
    pub open spec fn drawn(self, l: crate::draw_list::DrawState, dest: Rect) -> crate::draw_list::DrawState {
        if dest.is_empty() {
            l
        } else {
            match self.source {
                SourceView::Sprite(id) => {
                    let p = self.placed(dest, true);
                    l.image(id, p.rect, p.src, self.tint)
                },
                SourceView::Key(key) => l.icon(key, self.placed(dest, false).rect),
            }
        }
    }
}

impl Image {
    /// A picture by number.
    pub fn sprite(id: SpriteId) -> (r: Self)
        ensures
            r@ == ImageView::of(SourceView::Sprite(id)),
    {
        Self::with_source(Source::Sprite(id))
    }

    /// A picture by name.
    pub fn key(key: &str) -> (r: Self)
        ensures
            r@ == ImageView::of(SourceView::Key(key@)),
    {
        Self::with_source(Source::Key(key.to_owned()))
    }

    fn with_source(source: Source) -> (r: Self)
        ensures
            r@ == ImageView::of(source@),
    {
        Image {
            source,
            natural: None,
            fit: ImageFit::Stretch,
            align: ImageAlign::center(),
            tint: Color::white(whole(1)),
        }
    }

    /// With this natural size.
    pub fn natural_size(self, w: Scalar, h: Scalar) -> (r: Self)
        ensures
            r@ == (ImageView { natural: Some(Extent { w, h }), ..self@ }),
    {
        let mut r = self;
        r.natural = Some(Extent { w, h });
        r
    }

    /// Scaled in this way.
    pub fn fit(self, fit: ImageFit) -> (r: Self)
        ensures
            r@ == (ImageView { fit, ..self@ }),
    {
        let mut r = self;
        r.fit = fit;
        r
    }

    /// In this place.
    pub fn align(self, align: ImageAlign) -> (r: Self)
        ensures
            r@ == (ImageView { align, ..self@ }),
    {
        let mut r = self;
        r.align = align;
        r
    }

    /// With this tint.
    pub fn tint(self, tint: Color) -> (r: Self)
        ensures
            r@ == (ImageView { tint, ..self@ }),
    {
        let mut r = self;
        r.tint = tint;
        r
    }

    /// A picture of this size, in its place within `dest`.
    pub fn aligned(&self, dest: Rect, w: Scalar, h: Scalar) -> (r: Rect)
        ensures
            r == self@.aligned(dest, w, h),
    {
        Rect {
            x: dest.x.plus(dest.width.minus(w).times(self.align.x)),
            y: dest.y.plus(dest.height.minus(h).times(self.align.y)),
            width: w,
            height: h,
        }
    }

    /// Where the picture is drawn, and which part of it. Without a natural size
    /// it fills the box.
    pub fn resolve(&self, dest: Rect, can_crop: bool) -> (r: Placement)
        ensures
            r == self@.placed(dest, can_crop),
    {
        let (nw, nh) = match self.natural {
            Some(n) => (n.w, n.h),
            None => {
                return Placement { rect: dest, src: None };
            },
        };
        if !(whole(0).lt(nw) && whole(0).lt(nh)) {
            return Placement { rect: dest, src: None };
        }
        match self.fit {
            ImageFit::Stretch => Placement { rect: dest, src: None },
            ImageFit::Contain => {
                let scale = dest.width.over(nw).at_most(dest.height.over(nh));
                Placement { rect: self.aligned(dest, nw.times(scale), nh.times(scale)), src: None }
            },
            ImageFit::ScaleDown => {
                let scale = dest.width.over(nw).at_most(dest.height.over(nh)).at_most(whole(1));
                Placement { rect: self.aligned(dest, nw.times(scale), nh.times(scale)), src: None }
            },
            ImageFit::Natural => Placement { rect: self.aligned(dest, nw, nh), src: None },
            ImageFit::Cover => {
                if !can_crop {
                    return Placement { rect: dest, src: None };
                }
                let scale = dest.width.over(nw).at_least(dest.height.over(nh));
                let u = dest.width.over(nw.times(scale)).at_most(whole(1));
                let v = dest.height.over(nh.times(scale)).at_most(whole(1));
                let u0 = whole(1).minus(u).times(self.align.x);
                let v0 = whole(1).minus(v).times(self.align.y);
                Placement {
                    rect: dest,
                    src: Some(Uv { u0, v0, u1: u0.plus(u), v1: v0.plus(v) }),
                }
            },
        }
    }

    /// Draw the picture into `dest`; a box without extent draws nothing.
    pub fn draw(&self, dest: Rect, list: &mut DrawList)
        ensures
            final(list)@ == self@.drawn(old(list)@, dest),
    {
        if dest.is_empty() {
            return;
        }
        match &self.source {
            Source::Sprite(id) => {
                let p = self.resolve(dest, true);
                match p.src {
                    Some(uv) => list.image_cropped(*id, p.rect, uv, self.tint),
                    None => list.image(*id, p.rect, self.tint),
                }
            },
            Source::Key(key) => {
                let p = self.resolve(dest, false);
                list.icon(key.as_str(), p.rect);
            },
        }
    }
}

/// Without a natural size every fit fills the box with the whole picture.
pub proof fn law_unknown_size_fills(image: ImageView, dest: Rect, can_crop: bool)
    requires
        !image.is_sized(),
    ensures
        image.placed(dest, can_crop) == (Placement { rect: dest, src: None }),
{
}

/// Only a picture that covers its box is cropped, and only where it can be.
pub proof fn law_only_cover_crops(image: ImageView, dest: Rect, can_crop: bool)
    ensures
        image.placed(dest, can_crop).src is Some ==> can_crop && image.fit == ImageFit::Cover,
        image.placed(dest, can_crop).src is Some ==> image.placed(dest, can_crop).rect == dest,
{
}

/// `ScaleDown` is `Contain` where that does not enlarge the picture, and else the
/// natural size.
pub proof fn law_scale_down_never_enlarges(image: ImageView, dest: Rect, can_crop: bool)
    requires
        image.is_sized(),
        image.fit == ImageFit::ScaleDown,
        image.natural->0.w.is_finite(),
        image.natural->0.h.is_finite(),
    ensures
        !image.inner_scale(dest).is_nan() && !whole(1).lt(image.inner_scale(dest)) ==> image.placed(dest, can_crop) == (ImageView {
            fit: ImageFit::Contain,
            ..image
        }).placed(dest, can_crop),
        whole(1).lt(image.inner_scale(dest)) ==> image.placed(dest, can_crop) == (ImageView {
            fit: ImageFit::Natural,
            ..image
        }).placed(dest, can_crop),
{
    crate::scalar::law_times_one(image.natural->0.w);
    crate::scalar::law_times_one(image.natural->0.h);
}

/// An extent between one pixel and a large picture.
pub open spec fn sizable(x: Scalar) -> bool {
    x.is_finite() && rounding::unit() <= x.val() <= 0x1_0000 * rounding::unit()
}

/// How a length fares at a scale that is no larger than another length divided by it.
proof fn lemma_scaled(n: Scalar, d: Scalar)
    requires
        sizable(n),
        sizable(d),
    ensures
        ({
            let s = d.over(n);
            let u = rounding::unit();
            &&& s.is_finite()
            &&& 0 < s.val() <= 0x1_0001 * u
            &&& 0x2_0000 * s.val() >= u
            &&& 0x80_0000 * rounding::apart(s.val() * n.val(), d.val() * u) <= d.val() * u
        }),
{
    rounding::law_zero_and_one();
    rounding::law_unit_is_vast();
    let u = rounding::unit();
    let nv = n.val();
    let dv = d.val();
    crate::scalar::law_whole_exact(0x1_0001);
    assert(dv * u <= (0x1_0001 * u) * nv && dv * nv > 0 && dv * u >= u * u) by (nonlinear_arith)
        requires
            u <= dv <= 0x1_0000 * u,
            u <= nv,
            u > 0,
    ;
    rounding::law_over_bounded(d, n, whole(0x1_0001));
    rounding::law_over_rounds(d, n);
    let s = d.over(n).val();
    assert(nv * 0x80_0000 <= dv * u) by (nonlinear_arith)
        requires
            nv <= 0x1_0000 * u,
            dv * u >= u * u,
            u >= 0x1_0000_0000_0000_0000_0000_0000,
    ;
    assert(0x2_0000 * s >= u && s > 0) by (nonlinear_arith)
        requires
            0x80_0000 * rounding::apart(s * nv, dv * u) <= dv * u,
            u <= nv <= 0x1_0000 * u,
            dv >= u,
            u > 0,
    ;
}

/// A length times a scale.
proof fn lemma_length(n: Scalar, s: Scalar)
    requires
        sizable(n),
        s.is_finite(),
        0 < s.val() <= 0x1_0001 * rounding::unit(),
        0x2_0000 * s.val() >= rounding::unit(),
    ensures
        ({
            let w = n.times(s);
            let u = rounding::unit();
            &&& w.is_finite()
            &&& w.val() > 0
            &&& 0x80_0000 * rounding::apart(w.val() * u, n.val() * s.val()) <= n.val() * s.val()
            &&& w.val() <= 0x4_0000_0000 * u
        }),
{
    rounding::law_zero_and_one();
    rounding::law_unit_is_vast();
    let u = rounding::unit();
    let nv = n.val();
    let sv = s.val();
    let p = nv * sv;
    assert(0 < p <= 0x1_0000_0000_0000_0000 * (u * u) && p <= 0x2_0000_0000 * (u * u) && 0x2_0000 * p >= u * u)
        by (nonlinear_arith)
        requires
            p == nv * sv,
            u <= nv <= 0x1_0000 * u,
            0 < sv <= 0x1_0001 * u,
            0x2_0000 * sv >= u,
            u > 0,
    ;
    rounding::law_times_finite(n, s);
    rounding::law_times_rounds(n, s);
    let w = n.times(s).val();
    assert(u * 0x80_0000 <= p) by (nonlinear_arith)
        requires
            0x2_0000 * p >= u * u,
            u >= 0x1_0000_0000_0000_0000_0000_0000,
    ;
    assert(w > 0 && w <= 0x4_0000_0000 * u) by (nonlinear_arith)
        requires
            0x80_0000 * rounding::apart(w * u, p) <= p,
            0 < p <= 0x2_0000_0000 * (u * u),
            u > 0,
    ;
}

/// A contained picture fits into its rectangle, up to rounding, touches it one way or the
/// other, and keeps its proportions.
pub proof fn law_contained_picture_fits(image: ImageView, dest: Rect, can_crop: bool)
    requires
        image.fit == ImageFit::Contain,
        image.natural is Some,
        sizable(image.natural->0.w),
        sizable(image.natural->0.h),
        sizable(dest.width),
        sizable(dest.height),
    ensures
        ({
            let r = image.placed(dest, can_crop).rect;
            let (w, h) = (r.width.val(), r.height.val());
            let (dw, dh) = (dest.width.val(), dest.height.val());
            let (nw, nh) = (image.natural->0.w.val(), image.natural->0.h.val());
            &&& r.width.is_finite() && r.height.is_finite() && 0 < w && 0 < h
            &&& 0x10_0000 * (w - dw) <= dw
            &&& 0x10_0000 * (h - dh) <= dh
            &&& 0x10_0000 * rounding::apart(w, dw) <= dw || 0x10_0000 * rounding::apart(h, dh) <= dh
            &&& 0x10_0000 * rounding::apart(w * nh, h * nw) <= w * nh + h * nw
            &&& image.placed(dest, can_crop).src is None
        }),
{
    rounding::law_zero_and_one();
    reveal(Scalar::spec_lt);
    let n = image.natural->0;
    lemma_scaled(n.w, dest.width);
    lemma_scaled(n.h, dest.height);
    let a = dest.width.over(n.w);
    let b = dest.height.over(n.h);
    let s = image.inner_scale(dest);
    assert(s == a && a.val() <= b.val() || s == b && b.val() <= a.val());
    lemma_length(n.w, s);
    lemma_length(n.h, s);
    let u = rounding::unit();
    let w = n.w.times(s).val();
    let h = n.h.times(s).val();
    let (nw, nh) = (n.w.val(), n.h.val());
    let (dw, dh) = (dest.width.val(), dest.height.val());
    lemma_within(w, nw, s.val(), a.val(), dw, u);
    lemma_within(h, nh, s.val(), b.val(), dh, u);
    lemma_proportions(w, h, nw, nh, s.val(), u);
}

proof fn lemma_within(w: int, n: int, s: int, a: int, d: int, u: int)
    requires
        u > 0,
        n > 0,
        0 < s <= a,
        d > 0,
        0x80_0000 * rounding::apart(w * u, n * s) <= n * s,
        0x80_0000 * rounding::apart(a * n, d * u) <= d * u,
    ensures
        0x10_0000 * (w - d) <= d,
        s == a ==> 0x10_0000 * rounding::apart(w, d) <= d,
{
    let p = n * s;
    let q = a * n;
    assert(p <= q && (s == a ==> p == q)) by (nonlinear_arith)
        requires
            p == n * s,
            q == a * n,
            s <= a,
            n > 0,
    ;
    assert(p > 0) by (nonlinear_arith)
        requires
            p == n * s,
            n > 0,
            s > 0,
    ;
    let du = d * u;
    let wu = w * u;
    assert(0x10_0000 * (wu - du) <= du);
    assert(0x10_0000 * (w - d) <= d) by (nonlinear_arith)
        requires
            0x10_0000 * (wu - du) <= du,
            wu == w * u,
            du == d * u,
            u > 0,
    ;
    if s == a {
        assert(0x10_0000 * rounding::apart(wu, du) <= du);
        assert(0x10_0000 * rounding::apart(w, d) <= d) by (nonlinear_arith)
            requires
                0x10_0000 * rounding::apart(wu, du) <= du,
                wu == w * u,
                du == d * u,
                u > 0,
        ;
    }
}

proof fn lemma_proportions(w: int, h: int, nw: int, nh: int, s: int, u: int)
    requires
        u > 0,
        nw > 0,
        nh > 0,
        s > 0,
        w > 0,
        h > 0,
        0x80_0000 * rounding::apart(w * u, nw * s) <= nw * s,
        0x80_0000 * rounding::apart(h * u, nh * s) <= nh * s,
    ensures
        0x10_0000 * rounding::apart(w * nh, h * nw) <= w * nh + h * nw,
{
    let x = w * u;
    let y = h * u;
    let t = (nw * s) * nh;
    assert(0x80_0000 * rounding::apart(x * nh, t) <= t) by (nonlinear_arith)
        requires
            0x80_0000 * rounding::apart(x, nw * s) <= nw * s,
            t == (nw * s) * nh,
            nh > 0,
    ;
    assert(t == (nh * s) * nw) by (nonlinear_arith)
        requires
            t == (nw * s) * nh,
    ;
    assert(0x80_0000 * rounding::apart(y * nw, t) <= t) by (nonlinear_arith)
        requires
            0x80_0000 * rounding::apart(y, nh * s) <= nh * s,
            t == (nh * s) * nw,
            nw > 0,
    ;
    let a = w * nh;
    let b = h * nw;
    assert(x * nh == a * u && y * nw == b * u) by (nonlinear_arith)
        requires
            x == w * u,
            y == h * u,
            a == w * nh,
            b == h * nw,
    ;
    let au = a * u;
    let bu = b * u;
    assert(t > 0) by (nonlinear_arith)
        requires
            t == (nw * s) * nh,
            nw > 0,
            s > 0,
            nh > 0,
    ;
    assert(0x10_0000 * rounding::apart(au, bu) <= au + bu);
    assert(0x10_0000 * rounding::apart(a, b) <= a + b) by (nonlinear_arith)
        requires
            0x10_0000 * rounding::apart(au, bu) <= au + bu,
            au == a * u,
            bu == b * u,
            u > 0,
    ;
}

/// A picture leaves to its left the share of the free width that its alignment says, and
/// above it that share of the free height: none at 0, half at a half, all at 1.
pub proof fn law_aligned_picture_leaves_its_share(image: ImageView, dest: Rect, w: Scalar, h: Scalar)
    requires
        rounding::ordinary(dest.x),
        rounding::ordinary(dest.y),
        rounding::ordinary(dest.width),
        rounding::ordinary(dest.height),
        rounding::ordinary(w),
        rounding::ordinary(h),
        image.align.x.is_finite(),
        image.align.y.is_finite(),
        0 <= image.align.x.val() <= rounding::unit(),
        0 <= image.align.y.val() <= rounding::unit(),
    ensures
        ({
            let r = image.aligned(dest, w, h);
            let u = rounding::unit();
            let fx = dest.width.minus(w).val();
            let fy = dest.height.minus(h).val();
            &&& r.width == w && r.height == h
            &&& 0x100_0000 * rounding::apart(fx, dest.width.val() - w.val()) <= rounding::size(
                dest.width.val() - w.val(),
            )
            &&& 0x100_0000 * rounding::apart(fy, dest.height.val() - h.val()) <= rounding::size(
                dest.height.val() - h.val(),
            )
            &&& 0x10_0000 * rounding::apart(
                r.x.val() * u,
                dest.x.val() * u + fx * image.align.x.val(),
            ) <= (rounding::size(dest.x.val()) + rounding::size(fx) + 0x10_0000) * u
            &&& 0x10_0000 * rounding::apart(
                r.y.val() * u,
                dest.y.val() * u + fy * image.align.y.val(),
            ) <= (rounding::size(dest.y.val()) + rounding::size(fy) + 0x10_0000) * u
        }),
{
    rounding::law_zero_and_one();
    rounding::law_minus_finite(dest.width, w);
    rounding::law_minus_rounds(dest.width, w);
    rounding::law_minus_finite(dest.height, h);
    rounding::law_minus_rounds(dest.height, h);
    rounding::law_share_of_a_distance(dest.x, dest.width.minus(w), image.align.x);
    rounding::law_share_of_a_distance(dest.y, dest.height.minus(h), image.align.y);
}

} // verus!
