//! Breadcrumbs and pagers: linear navigation strips.

use crate::context::{label_at, vcentered, CursorIcon, DrawContext, Label};
use crate::draw_list::DrawList;
use crate::geometry::{Color, Point, Rect};
use crate::input::InputState;
use crate::material::sheen_over;
use crate::rounding;
use crate::scalar::{ratio, whole, Scalar};
use crate::style::{StyleKey, StyleResolver};
use crate::text::to_decimal;
use vstd::prelude::*;

verus! {

/// A trail of labels with slashes between them. The last one is the current
/// location, the others can be clicked.
#[derive(Clone)]
pub struct Breadcrumb<'a> {
    /// The labels, in path order.
    pub segments: &'a [&'a str],
    /// The gap on each side of a slash.
    pub gap: Scalar,
}

/// How a trail's texts measure.
pub struct TrailMetrics<'a> {
    /// The labels.
    pub labels: &'a [Label],
    /// The width of a slash.
    pub slash: Scalar,
    /// Where the visual center of the line lies below its top, in em.
    pub center: Scalar,
}

impl<'a> Breadcrumb<'a> {
    /// A trail over `segments`.
    pub fn new(segments: &'a [&'a str]) -> (r: Self)
        ensures
            r.segments == segments,
            r.gap == whole(5),
    {
        Breadcrumb { segments, gap: whole(5) }
    }

    /// With this gap on each side of a slash.
    pub fn with_gap(self, gap: Scalar) -> (r: Self)
        ensures
            r.segments == self.segments,
            r.gap == gap,
    {
        Breadcrumb { segments: self.segments, gap }
    }

    /// The left edge of segment `i`.
    pub open spec fn left(&self, rect: Rect, m: TrailMetrics, i: nat) -> Scalar
        decreases i,
    {
        if i == 0 {
            rect.x
        } else {
            self.left(rect, m, (i - 1) as nat).plus(
                label_at(m.labels, (i - 1) as usize).width,
            ).plus(self.gap.plus(m.slash).plus(self.gap))
        }
    }

    /// Where segment `i` lies.
    pub open spec fn place(&self, rect: Rect, m: TrailMetrics, i: int) -> Rect {
        Rect {
            x: self.left(rect, m, i as nat),
            y: rect.y,
            width: label_at(m.labels, i as usize).width,
            height: rect.height,
        }
    }

    /// Whether the pointer is over segment `i` and the segment can be clicked.
    pub open spec fn hot(&self, rect: Rect, m: TrailMetrics, input: &InputState, i: int) -> bool {
        i < self.segments@.len() - 1 && input.over(self.place(rect, m, i))
    }

    /// Which segments a click lands on.
    pub open spec fn hits(&self, rect: Rect, m: TrailMetrics, input: &InputState) -> spec_fn(
        int,
    ) -> bool {
        |i: int| self.hot(rect, m, input, i) && input.mouse_clicked
    }

    /// Segment `i` painted: a light behind it while it is hot, its label, and
    /// the slash after it where it is not the last.
    #[verifier::opaque]
    pub open spec fn segment_painted(
        &self,
        l: crate::draw_list::DrawState,
        rect: Rect,
        m: TrailMetrics,
        s: &StyleResolver,
        input: &InputState,
        i: int,
    ) -> crate::draw_list::DrawState {
        let size = s.scalar(StyleKey::FontSize);
        let y = vcentered(rect.y, rect.height, size, m.center);
        let place = self.place(rect, m, i);
        let last = i == self.segments@.len() - 1;
        let l = if self.hot(rect, m, input, i) {
            l.quad(place, s.color(StyleKey::Accent).with_alpha(ratio(2, 10)))
        } else {
            l
        };
        let l = l.written(
            self.segments@[i]@,
            Point { x: place.x, y },
            size,
            s.color(
                if last {
                    StyleKey::Text
                } else {
                    StyleKey::TextDim
                },
            ),
            s.font,
        );
        if last {
            l
        } else {
            l.written(
                "/"@,
                Point { x: place.x.plus(place.width).plus(self.gap), y },
                size,
                s.color(StyleKey::TextDim),
                s.font,
            )
        }
    }

    /// The scene after the first `n` segments.
    pub open spec fn segments_drawn(
        &self,
        rect: Rect,
        m: TrailMetrics,
        frame: crate::context::Frame,
        scene: crate::context::Scene,
        n: nat,
    ) -> crate::context::Scene
        decreases n,
    {
        if n == 0 {
            scene
        } else {
            let before = self.segments_drawn(rect, m, frame, scene, (n - 1) as nat);
            crate::context::Scene {
                list: self.segment_painted(
                    before.list,
                    rect,
                    m,
                    &frame.styles,
                    &frame.input,
                    n - 1,
                ),
                ..before.pointed(self.hot(rect, m, &frame.input, n - 1), CursorIcon::Pointer)
            }
        }
    }

    /// The scene after the trail.
    pub open spec fn drawn(
        &self,
        rect: Rect,
        m: TrailMetrics,
        frame: crate::context::Frame,
        scene: crate::context::Scene,
    ) -> crate::context::Scene {
        let all = self.segments_drawn(
            rect,
            m,
            frame,
            crate::context::Scene { list: scene.list.scoped("Breadcrumb"@, rect), ..scene },
            self.segments@.len(),
        );
        crate::context::Scene { list: all.list.scope_closed(), ..all }
    }

    fn paint_segment(
        &self,
        list: &mut DrawList,
        rect: Rect,
        m: &TrailMetrics<'a>,
        s: &StyleResolver,
        input: &InputState,
        place: Rect,
        i: usize,
    )
        requires
            i < self.segments@.len(),
            place == self.place(rect, *m, i as int),
        ensures
            final(list)@ == self.segment_painted(old(list)@, rect, *m, s, input, i as int),
    {
        proof {
            reveal(Breadcrumb::segment_painted);
        }
        let hot = i < self.segments.len() - 1 && input.over(place);
        let size = s.scalar(StyleKey::FontSize);
        let y = vcentered(rect.y, rect.height, size, m.center);
        let last = i == self.segments.len() - 1;
        if hot {
            list.quad(place, s.color(StyleKey::Accent).with_alpha(ratio(2, 10)));
        }
        let color = s.color(
            if last {
                StyleKey::Text
            } else {
                StyleKey::TextDim
            },
        );
        list.write(self.segments[i], Point { x: place.x, y }, size, color, s.font);
        if !last {
            list.write(
                "/",
                Point { x: place.x.plus(place.width).plus(self.gap), y },
                size,
                s.color(StyleKey::TextDim),
                s.font,
            );
        }
    }

    /// Draw the trail and give the segment that was clicked; the current
    /// location cannot be.
    pub fn draw(&self, rect: Rect, m: &TrailMetrics<'a>, ctx: &mut DrawContext) -> (clicked: Option<
        usize,
    >)
        ensures
            clicked == crate::context::last_hit(
                self.hits(rect, *m, &old(ctx).frame.input),
                self.segments@.len(),
            ),
            final(ctx)@ == self.drawn(rect, *m, old(ctx).frame, old(ctx)@),
            final(ctx).frame == old(ctx).frame,
    {
        ctx.draw_list.push_debug_scope_rect("Breadcrumb", rect);
        let ghost start = ctx@;
        let n: usize = self.segments.len();
        let mut clicked: Option<usize> = None;
        let mut x = rect.x;
        let mut i: usize = 0;
        while i < n
            invariant
                i <= n,
                n == self.segments@.len(),
                x == self.left(rect, *m, i as nat),
                ctx.frame == old(ctx).frame,
                ctx@ == self.segments_drawn(rect, *m, old(ctx).frame, start, i as nat),
                clicked == crate::context::last_hit(
                    self.hits(rect, *m, &old(ctx).frame.input),
                    i as nat,
                ),
            decreases n - i,
        {
            let place = Rect {
                x,
                y: rect.y,
                width: label_at(m.labels, i).width,
                height: rect.height,
            };
            let hot = i < n - 1 && ctx.frame.input.over(place);
            if hot {
                ctx.request_cursor(CursorIcon::Pointer);
                if ctx.frame.input.mouse_clicked {
                    clicked = Some(i);
                }
            }
            self.paint_segment(
                &mut ctx.draw_list,
                rect,
                m,
                &ctx.frame.styles,
                &ctx.frame.input,
                place,
                i,
            );
            x = x.plus(place.width).plus(self.gap.plus(m.slash).plus(self.gap));
            i = i + 1;
        }
        ctx.draw_list.pop_debug_scope();
        clicked
    }

    /// The width of the first `n` segments, with the slashes after them.
    pub open spec fn width_of(&self, m: TrailMetrics, n: nat) -> Scalar
        decreases n,
    {
        if n == 0 {
            whole(0)
        } else {
            let w = self.width_of(m, (n - 1) as nat).plus(
                label_at(m.labels, (n - 1) as usize).width,
            );
            if n < self.segments@.len() {
                w.plus(self.gap.times(whole(2)).plus(m.slash))
            } else {
                w
            }
        }
    }

    /// The natural width of the trail.
    pub fn intrinsic_width(&self, m: &TrailMetrics<'a>) -> (r: Scalar)
        ensures
            r == self.width_of(*m, self.segments@.len()),
    {
        let n: usize = self.segments.len();
        let mut w = whole(0);
        let mut i: usize = 0;
        while i < n
            invariant
                i <= n,
                n == self.segments@.len(),
                w == self.width_of(*m, i as nat),
            decreases n - i,
        {
            w = w.plus(label_at(m.labels, i).width);
            if i < n - 1 {
                w = w.plus(self.gap.times(whole(2)).plus(m.slash));
            }
            i = i + 1;
        }
        w
    }
}

/// The current location is never reported as clicked.
pub proof fn law_current_location_is_not_clickable(
    b: Breadcrumb,
    rect: Rect,
    m: TrailMetrics,
    input: &InputState,
)
    requires
        b.segments@.len() <= usize::MAX,
    ensures
        crate::context::last_hit(b.hits(rect, m, input), b.segments@.len()) matches Some(i) ==> i
            < b.segments@.len() - 1,
{
    crate::context::lemma_last_hit(b.hits(rect, m, input), b.segments@.len());
}

/// What happened in a pager's frame.
#[derive(Clone, Copy, Debug, PartialEq, Eq, Structural)]
pub struct PagerOutput {
    /// The page was changed.
    pub changed: bool,
    /// The page now.
    pub page: usize,
}

/// A pager: arrows around the page's number, or a key for each page.
#[derive(Clone, Copy, Debug, PartialEq, Eq, Structural)]
pub struct Pager {
    /// A key for each page, where there are few.
    pub numeric: bool,
}

impl Default for Pager {
    fn default() -> (r: Self)
        ensures
            r == (Pager { numeric: false }),
    {
        Pager { numeric: false }
    }
}

pub open spec fn spec_arrow_w(rect: Rect) -> Scalar {
    rect.height.at_most(whole(18))
}

/// The width of an arrow key.
#[verifier::when_used_as_spec(spec_arrow_w)]
pub fn arrow_w(rect: Rect) -> (r: Scalar)
    ensures
        r == spec_arrow_w(rect),
{
    rect.height.at_most(whole(18))
}

pub open spec fn spec_arrow_rect(rect: Rect, left: bool) -> Rect {
    Rect {
        x: if left {
            rect.x
        } else {
            rect.right().minus(arrow_w(rect))
        },
        y: rect.y,
        width: arrow_w(rect),
        height: rect.height,
    }
}

/// Where an arrow key lies.
#[verifier::when_used_as_spec(spec_arrow_rect)]
pub fn arrow_rect(rect: Rect, left: bool) -> (r: Rect)
    ensures
        r == spec_arrow_rect(rect, left),
{
    let x = if left {
        rect.x
    } else {
        rect.right().minus(arrow_w(rect))
    };
    Rect { x, y: rect.y, width: arrow_w(rect), height: rect.height }
}

/// An arrow key: a face, a light line, and the chevron as two strokes.
#[verifier::opaque]
pub open spec fn arrow_painted(
    l: crate::draw_list::DrawState,
    r: Rect,
    left: bool,
    enabled: bool,
    s: &StyleResolver,
    input: &InputState,
) -> crate::draw_list::DrawState {
    let hovered = enabled && input.over(r);
    let base = if !enabled {
        s.color(StyleKey::Button).with_alpha(ratio(45, 100))
    } else if hovered && (input.mouse_clicked || input.mouse_down) {
        s.color(StyleKey::ButtonPressed)
    } else if hovered {
        s.color(StyleKey::ButtonHover)
    } else {
        s.color(StyleKey::Button)
    };
    let color = s.color(
        if enabled {
            StyleKey::Text
        } else {
            StyleKey::TextDim
        },
    );
    let cx = r.x.plus(r.width.times(ratio(1, 2)));
    let cy = r.y.plus(r.height.times(ratio(1, 2)));
    let d = r.height.times(ratio(22, 100));
    let reach = d.times(ratio(4, 10));
    let open = if left {
        cx.plus(reach)
    } else {
        cx.minus(reach)
    };
    let tip = if left {
        cx.minus(reach)
    } else {
        cx.plus(reach)
    };
    l.chrome_rect_gradient(
        r,
        s.scalar(StyleKey::BorderRadius),
        whole(1),
        sheen_over(base, s.color(StyleKey::FaceTop)),
        sheen_over(base, s.color(StyleKey::FaceBottom)),
        Color::black(ratio(1, 2)),
    ).quad(
        Rect {
            x: r.x.plus(whole(1)),
            y: r.y.plus(whole(1)),
            width: r.width.minus(whole(2)).at_least(whole(0)),
            height: whole(1),
        },
        s.color(StyleKey::EdgeHighlight),
    ).line(
        Point { x: open, y: cy.minus(d) },
        Point { x: tip, y: cy },
        ratio(3, 2),
        color,
    ).line(Point { x: tip, y: cy }, Point { x: open, y: cy.plus(d) }, ratio(3, 2), color)
}

fn paint_arrow(
    list: &mut DrawList,
    r: Rect,
    left: bool,
    enabled: bool,
    s: &StyleResolver,
    input: &InputState,
)
    ensures
        final(list)@ == arrow_painted(old(list)@, r, left, enabled, s, input),
{
    proof {
        reveal(arrow_painted);
    }
    let hovered = enabled && input.over(r);
    let base = if !enabled {
        s.color(StyleKey::Button).with_alpha(ratio(45, 100))
    } else if hovered && (input.mouse_clicked || input.mouse_down) {
        s.color(StyleKey::ButtonPressed)
    } else if hovered {
        s.color(StyleKey::ButtonHover)
    } else {
        s.color(StyleKey::Button)
    };
    let color = s.color(
        if enabled {
            StyleKey::Text
        } else {
            StyleKey::TextDim
        },
    );
    list.chrome_rect_gradient(
        r,
        s.scalar(StyleKey::BorderRadius),
        whole(1),
        sheen_over(base, s.color(StyleKey::FaceTop)),
        sheen_over(base, s.color(StyleKey::FaceBottom)),
        Color::black(ratio(1, 2)),
    );
    list.quad(
        Rect {
            x: r.x.plus(whole(1)),
            y: r.y.plus(whole(1)),
            width: r.width.minus(whole(2)).at_least(whole(0)),
            height: whole(1),
        },
        s.color(StyleKey::EdgeHighlight),
    );
    let cx = r.x.plus(r.width.times(ratio(1, 2)));
    let cy = r.y.plus(r.height.times(ratio(1, 2)));
    let d = r.height.times(ratio(22, 100));
    let reach = d.times(ratio(4, 10));
    let open = if left {
        cx.plus(reach)
    } else {
        cx.minus(reach)
    };
    let tip = if left {
        cx.minus(reach)
    } else {
        cx.plus(reach)
    };
    list.line(
        Point { x: open, y: cy.minus(d) },
        Point { x: tip, y: cy },
        ratio(3, 2),
        color,
    );
    list.line(Point { x: tip, y: cy }, Point { x: open, y: cy.plus(d) }, ratio(3, 2), color);
}

pub open spec fn spec_key_rect(rect: Rect, total: usize, i: usize) -> Rect {
    let n = whole(total as u64);
    let w = rect.width.minus(n.times(whole(2))).over(n).at_most(whole(24));
    Rect {
        x: rect.x.plus(whole(i as u64).times(w.plus(whole(2)))),
        y: rect.y,
        width: w,
        height: rect.height,
    }
}

/// Where the key of page `i` lies.
#[verifier::when_used_as_spec(spec_key_rect)]
pub fn key_rect(rect: Rect, total: usize, i: usize) -> (r: Rect)
    ensures
        r == spec_key_rect(rect, total, i),
{
    let n = whole(total as u64);
    let w = rect.width.minus(n.times(whole(2))).over(n).at_most(whole(24));
    Rect {
        x: rect.x.plus(whole(i as u64).times(w.plus(whole(2)))),
        y: rect.y,
        width: w,
        height: rect.height,
    }
}

/// A page's key: its face and its number.
#[verifier::opaque]
pub open spec fn key_painted(
    l: crate::draw_list::DrawState,
    r: Rect,
    text: Seq<char>,
    label: Label,
    active: bool,
    hovered: bool,
    s: &StyleResolver,
) -> crate::draw_list::DrawState {
    let size = s.scalar(StyleKey::FontSize).times(ratio(85, 100));
    let base = s.color(
        if active {
            StyleKey::ButtonPressed
        } else if hovered {
            StyleKey::ButtonHover
        } else {
            StyleKey::Button
        },
    );
    l.chrome_rect_gradient(
        r,
        s.scalar(StyleKey::BorderRadius),
        whole(1),
        sheen_over(base, s.color(StyleKey::FaceTop)),
        sheen_over(base, s.color(StyleKey::FaceBottom)),
        Color::black(
            if active {
                ratio(6, 10)
            } else {
                ratio(45, 100)
            },
        ),
    ).written(
        text,
        Point {
            x: r.x.plus(r.width.minus(label.width).times(ratio(1, 2))),
            y: vcentered(r.y, r.height, size, label.center),
        },
        size,
        s.color(
            if active {
                StyleKey::TextHighlight
            } else {
                StyleKey::Text
            },
        ),
        s.font,
    )
}

fn paint_key(
    list: &mut DrawList,
    r: Rect,
    text: &str,
    label: Label,
    active: bool,
    hovered: bool,
    s: &StyleResolver,
)
    ensures
        final(list)@ == key_painted(old(list)@, r, text@, label, active, hovered, s),
{
    proof {
        reveal(key_painted);
    }
    let size = s.scalar(StyleKey::FontSize).times(ratio(85, 100));
    let base = s.color(
        if active {
            StyleKey::ButtonPressed
        } else if hovered {
            StyleKey::ButtonHover
        } else {
            StyleKey::Button
        },
    );
    let edge = if active {
        ratio(6, 10)
    } else {
        ratio(45, 100)
    };
    list.chrome_rect_gradient(
        r,
        s.scalar(StyleKey::BorderRadius),
        whole(1),
        sheen_over(base, s.color(StyleKey::FaceTop)),
        sheen_over(base, s.color(StyleKey::FaceBottom)),
        Color::black(edge),
    );
    let color = s.color(
        if active {
            StyleKey::TextHighlight
        } else {
            StyleKey::Text
        },
    );
    list.write(
        text,
        Point {
            x: r.x.plus(r.width.minus(label.width).times(ratio(1, 2))),
            y: vcentered(r.y, r.height, size, label.center),
        },
        size,
        color,
        s.font,
    );
}

/// The number that stands between the arrows: `page / total`, from 1.
pub open spec fn readout(page: usize, total: usize) -> Seq<char> {
    crate::text::decimal((page + 1) as nat) + " / "@ + crate::text::decimal(
        if total == 0 {
            1
        } else {
            total as nat
        },
    )
}

/// The text between the arrows.
pub fn readout_text(page: usize, total: usize) -> (r: String)
    requires
        page < usize::MAX,
    ensures
        r@ == readout(page, total),
{
    let shown: usize = if total == 0 {
        1
    } else {
        total
    };
    let mut r = to_decimal(page + 1);
    r.append(" / ");
    r.append(to_decimal(shown).as_str());
    r
}

/// The text on the key of page `i`.
pub fn page_text(i: usize) -> (r: String)
    requires
        i < usize::MAX,
    ensures
        r@ == crate::text::decimal((i + 1) as nat),
{
    to_decimal(i + 1)
}

impl Pager {
    /// A pager with arrows.
    pub fn new() -> (r: Self)
        ensures
            r == (Pager { numeric: false }),
    {
        Pager { numeric: false }
    }

    /// With a key for each page.
    pub fn numeric(self) -> (r: Self)
        ensures
            r == (Pager { numeric: true }),
    {
        Pager { numeric: true }
    }

    pub open spec fn spec_by_number(self, total: usize) -> bool {
        self.numeric && 0 < total <= 12
    }

    /// Whether each of `total` pages has a key.
    #[verifier::when_used_as_spec(spec_by_number)]
    pub fn by_number(self, total: usize) -> (r: bool)
        ensures
            r == self.spec_by_number(total),
    {
        self.numeric && 0 < total && total <= 12
    }

    /// Which pages a click jumps to.
    pub open spec fn jumps(page: usize, total: usize, rect: Rect, input: &InputState) -> spec_fn(
        int,
    ) -> bool {
        |i: int| input.over(key_rect(rect, total, i as usize)) && input.mouse_clicked && i != page
    }

    /// Whether an arrow is clicked: the left one works past the first page, the
    /// right one before the last.
    pub open spec fn arrow_clicked(
        page: usize,
        total: usize,
        rect: Rect,
        input: &InputState,
        left: bool,
    ) -> bool {
        &&& if left {
            page > 0
        } else {
            page + 1 < total
        }
        &&& input.over(arrow_rect(rect, left))
        &&& input.mouse_clicked
    }

    /// What happened.
    pub open spec fn happened(self, page: usize, total: usize, rect: Rect, input: &InputState) -> PagerOutput {
        if self.by_number(total) {
            match crate::context::last_hit(Self::jumps(page, total, rect, input), total as nat) {
                Some(i) => PagerOutput { changed: true, page: i },
                None => PagerOutput { changed: false, page },
            }
        } else {
            let back = Self::arrow_clicked(page, total, rect, input, true);
            let on = Self::arrow_clicked(page, total, rect, input, false);
            let p = if back {
                page - 1
            } else {
                page as int
            };
            PagerOutput {
                changed: back || on,
                page: (if on {
                    crate::list::least(p + 1, total - 1)
                } else {
                    p
                }) as usize,
            }
        }
    }

    /// The first `n` keys painted.
    pub open spec fn keys_painted(
        l: crate::draw_list::DrawState,
        page: usize,
        total: usize,
        rect: Rect,
        labels: &[Label],
        s: &StyleResolver,
        input: &InputState,
        n: nat,
    ) -> crate::draw_list::DrawState
        decreases n,
    {
        if n == 0 {
            l
        } else {
            let i = (n - 1) as usize;
            let r = key_rect(rect, total, i);
            key_painted(
                Self::keys_painted(l, page, total, rect, labels, s, input, i as nat),
                r,
                crate::text::decimal(n),
                label_at(labels, i),
                i == page,
                input.over(r),
                s,
            )
        }
    }

    /// What the pager paints.
    pub open spec fn painted(
        self,
        l: crate::draw_list::DrawState,
        page: usize,
        total: usize,
        rect: Rect,
        labels: &[Label],
        s: &StyleResolver,
        input: &InputState,
    ) -> crate::draw_list::DrawState {
        let l = l.scoped("Pager"@, rect);
        (if self.by_number(total) {
            Self::keys_painted(l, page, total, rect, labels, s, input, total as nat)
        } else {
            let label = label_at(labels, 0);
            let size = s.scalar(StyleKey::FontSize).times(ratio(85, 100));
            arrow_painted(
                arrow_painted(l, arrow_rect(rect, true), true, page > 0, s, input),
                arrow_rect(rect, false),
                false,
                page + 1 < total,
                s,
                input,
            ).written(
                readout(page, total),
                Point {
                    x: rect.x.plus(rect.width.minus(label.width).times(ratio(1, 2))),
                    y: vcentered(rect.y, rect.height, size, label.center),
                },
                size,
                s.color(StyleKey::Text),
                s.font,
            )
        }).scope_closed()
    }

    fn draw_keys(
        list: &mut DrawList,
        page: usize,
        total: usize,
        rect: Rect,
        labels: &[Label],
        s: &StyleResolver,
        input: &InputState,
    ) -> (jump: Option<usize>)
        requires
            total <= 12,
        ensures
            final(list)@ == Self::keys_painted(
                old(list)@,
                page,
                total,
                rect,
                labels,
                s,
                input,
                total as nat,
            ),
            jump == crate::context::last_hit(Self::jumps(page, total, rect, input), total as nat),
    {
        let mut jump: Option<usize> = None;
        let mut i: usize = 0;
        while i < total
            invariant
                i <= total,
                total <= 12,
                list@ == Self::keys_painted(
                    old(list)@,
                    page,
                    total,
                    rect,
                    labels,
                    s,
                    input,
                    i as nat,
                ),
                jump == crate::context::last_hit(Self::jumps(page, total, rect, input), i as nat),
            decreases total - i,
        {
            let r = key_rect(rect, total, i);
            let hovered = input.over(r);
            let text = page_text(i);
            paint_key(list, r, text.as_str(), label_at(labels, i), i == page, hovered, s);
            if hovered && input.mouse_clicked && i != page {
                jump = Some(i);
            }
            i = i + 1;
        }
        jump
    }

    /// Draw the pager over page `page` of `total`; the arrows stop at the ends.
    /// `labels` are how the pages' numbers measure, or, with arrows, the text
    /// between them.
    pub fn draw(
        &self,
        page: usize,
        total: usize,
        rect: Rect,
        labels: &[Label],
        ctx: &mut DrawContext,
    ) -> (out: PagerOutput)
        requires
            self.by_number(total) || page < usize::MAX,
        ensures
            out == self.happened(page, total, rect, &old(ctx).frame.input),
            final(ctx)@ == (crate::context::Scene {
                list: self.painted(
                    old(ctx)@.list,
                    page,
                    total,
                    rect,
                    labels,
                    &old(ctx).frame.styles,
                    &old(ctx).frame.input,
                ),
                ..old(ctx)@
            }),
            final(ctx).frame == old(ctx).frame,
    {
        ctx.draw_list.push_debug_scope_rect("Pager", rect);
        if self.by_number(total) {
            let jump = Self::draw_keys(
                &mut ctx.draw_list,
                page,
                total,
                rect,
                labels,
                &ctx.frame.styles,
                &ctx.frame.input,
            );
            ctx.draw_list.pop_debug_scope();
            return match jump {
                Some(i) => PagerOutput { changed: true, page: i },
                None => PagerOutput { changed: false, page },
            };
        }
        let s = &ctx.frame.styles;
        let input = &ctx.frame.input;
        let mut out = PagerOutput { changed: false, page };
        let back = arrow_rect(rect, true);
        paint_arrow(&mut ctx.draw_list, back, true, page > 0, s, input);
        if page > 0 && input.over(back) && input.mouse_clicked {
            out = PagerOutput { changed: true, page: page - 1 };
        }
        let on = arrow_rect(rect, false);
        let more = page + 1 < total;
        paint_arrow(&mut ctx.draw_list, on, false, more, s, input);
        if more && input.over(on) && input.mouse_clicked {
            let next: usize = if out.page + 1 < total {
                out.page + 1
            } else {
                total - 1
            };
            out = PagerOutput { changed: true, page: next };
        }
        let text = readout_text(page, total);
        let label = label_at(labels, 0);
        let size = s.scalar(StyleKey::FontSize).times(ratio(85, 100));
        ctx.draw_list.write(
            text.as_str(),
            Point {
                x: rect.x.plus(rect.width.minus(label.width).times(ratio(1, 2))),
                y: vcentered(rect.y, rect.height, size, label.center),
            },
            size,
            s.color(StyleKey::Text),
            s.font,
        );
        ctx.draw_list.pop_debug_scope();
        out
    }
}

/// A pager stays among its pages.
pub proof fn law_pager_stays_in_range(
    p: Pager,
    page: usize,
    total: usize,
    rect: Rect,
    input: &InputState,
)
    requires
        page < total,
    ensures
        p.happened(page, total, rect, input).page < total,
{
    crate::context::lemma_last_hit(Pager::jumps(page, total, rect, input), total as nat);
}

/// At the ends the arrow beyond them does nothing.
pub proof fn law_arrows_stop_at_the_ends(total: usize, rect: Rect, input: &InputState)
    requires
        total > 0,
    ensures
        !Pager::arrow_clicked(0, total, rect, input, true),
        !Pager::arrow_clicked((total - 1) as usize, total, rect, input, false),
{
}

/// Without a click nothing changes.
pub proof fn law_no_click_no_page_change(
    p: Pager,
    page: usize,
    total: usize,
    rect: Rect,
    input: &InputState,
)
    requires
        !input.mouse_clicked || input.mouse_consumed,
    ensures
        p.happened(page, total, rect, input) == (PagerOutput { changed: false, page }),
{
    crate::context::lemma_last_hit(Pager::jumps(page, total, rect, input), total as nat);
}

/// An arrow turns one page, to the one before or the one after; with a key for each page
/// a click on another page's key goes to a page whose key is under the pointer.
pub proof fn law_clicks_turn_to_the_page(p: Pager, page: usize, total: usize, rect: Rect, input: &InputState, i: usize)
    requires
        page < total,
        i < total,
    ensures
        ({
            let out = p.happened(page, total, rect, input);
            let left = input.over(arrow_rect(rect, true)) && input.mouse_clicked;
            let right = input.over(arrow_rect(rect, false)) && input.mouse_clicked;
            &&& !p.by_number(total) && right && !left && page + 1 < total ==> out.changed && out.page
                == page + 1
            &&& !p.by_number(total) && left && !right && page > 0 ==> out.changed && out.page + 1 == page
            &&& !p.by_number(total) && !left && !right ==> !out.changed && out.page == page
            &&& p.by_number(total) && input.over(key_rect(rect, total, i)) && input.mouse_clicked && i
                != page ==> {
                &&& out.changed
                &&& out.page != page
                &&& input.over(key_rect(rect, total, out.page))
            }
        }),
{
    let hits = Pager::jumps(page, total, rect, input);
    crate::context::lemma_last_hit(hits, total as nat);
    match crate::context::last_hit(hits, total as nat) {
        Some(j) => {
            assert(hits(j as int));
        },
        None => {
            assert(!hits(i as int));
        },
    }
}

/// The arrow to the first page lies at the left edge and the arrow to the last page at
/// the right edge; the pages' keys lie from left to right, two pixels apart.
pub proof fn law_pager_keys_lie_in_order(rect: Rect, x: int, y: int, w: int, h: int, total: usize, i: usize, k: int)
    requires
        crate::geometry::in_steps(rect, x, y, w, h),
        0 <= h,
        i + 1 < total <= 12,
        rounding::in_steps(key_rect(rect, total, 0).width, k),
        0 <= k <= 6144,
    ensures
        ({
            let a = crate::list::least(h, 4608);
            &&& rounding::in_steps(arrow_rect(rect, true).x, x)
            &&& rounding::in_steps(arrow_rect(rect, false).x, x + w - a)
            &&& rounding::in_steps(arrow_rect(rect, true).width, a)
            &&& rounding::in_steps(arrow_rect(rect, false).width, a)
            &&& rounding::in_steps(key_rect(rect, total, i).x, x + i * (k + 512))
            &&& rounding::in_steps(key_rect(rect, total, (i + 1) as usize).x, x + i * (k + 512) + k + 512)
            &&& rounding::in_steps(key_rect(rect, total, i).width, k)
        }),
{
    rounding::law_whole_in_steps(18);
    rounding::law_whole_in_steps(2);
    crate::geometry::law_edges_in_steps(rect, x, y, w, h);
    let aw = arrow_w(rect);
    let a = crate::list::least(h, 4608);
    rounding::law_steps_compare(whole(18), rect.height, 4608, h);
    rounding::law_minus_steps(rect.right(), aw, x + w, a);
    let kw = key_rect(rect, total, 0).width;
    rounding::law_plus_steps(kw, whole(2), k, 512);
    let j = i as int;
    assert(0 <= j * (k + 512) && (j + 1) * (k + 512) == j * (k + 512) + k + 512 && (j + 1) * (k + 512)
        <= 12 * 6656) by (nonlinear_arith)
        requires
            0 <= j,
            j + 1 <= 12,
            0 <= k <= 6144,
    ;
    rounding::law_whole_times_steps(i as u64, kw.plus(whole(2)), k + 512);
    rounding::law_whole_times_steps((i + 1) as u64, kw.plus(whole(2)), k + 512);
    rounding::law_plus_steps(rect.x, whole(i as u64).times(kw.plus(whole(2))), x, j * (k + 512));
    rounding::law_plus_steps(
        rect.x,
        whole((i + 1) as u64).times(kw.plus(whole(2))),
        x,
        (j + 1) * (k + 512),
    );
}

/// The segments of a trail lie from left to right, the first at the left edge, each one
/// past the end of the one before; and a click on one that is not the last goes to a
/// segment under the pointer.
pub proof fn law_segments_lie_in_order(b: Breadcrumb, rect: Rect, m: TrailMetrics, i: nat, input: &InputState)
    requires
        i + 1 < b.segments@.len() <= usize::MAX,
        b.place(rect, m, i as int).right().is_finite(),
        b.gap.plus(m.slash).plus(b.gap).is_finite(),
        b.gap.plus(m.slash).plus(b.gap).val() >= 0,
    ensures
        b.place(rect, m, 0).x == rect.x,
        b.place(rect, m, i as int).right().le(b.place(rect, m, i as int + 1).x),
        input.over(b.place(rect, m, i as int)) && input.mouse_clicked ==> {
            let hit = crate::context::last_hit(b.hits(rect, m, input), b.segments@.len());
            hit is Some && input.over(b.place(rect, m, hit->0 as int))
        },
{
    crate::scalar::law_plus_grows(
        b.place(rect, m, i as int).right(),
        b.gap.plus(m.slash).plus(b.gap),
    );
    let hits = b.hits(rect, m, input);
    crate::context::lemma_last_hit(hits, b.segments@.len());
    match crate::context::last_hit(hits, b.segments@.len()) {
        Some(j) => {
            assert(hits(j as int));
        },
        None => {
            assert(!hits(i as int));
        },
    }
}

} // verus!
