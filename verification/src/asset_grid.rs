//! Asset grids: a browser of thumbnails.
//!
//! Cells of a fixed size flow into as many columns as fit. A cell is a plate with
//! a glyph and a one-line label under it; the selected one has a wash and a ring.

use crate::context::{vcentered, DrawContext, Label};
use crate::draw_list::DrawList;
use crate::geometry::{Color, Point, Rect};
use crate::input::InputState;
use crate::rounding;
use crate::scalar::{ratio, whole, Scalar};
use crate::style::{StyleKey, StyleResolver};
use crate::text::TextBlock;
use vstd::prelude::*;

verus! {

/// What happened in a grid's frame.
#[derive(Clone, Copy, Debug, PartialEq, Eq, Structural)]
pub struct AssetGridOutput {
    /// The asset that was clicked.
    pub clicked: Option<usize>,
}

impl Default for AssetGridOutput {
    fn default() -> (r: Self)
        ensures
            r == (AssetGridOutput { clicked: None }),
    {
        AssetGridOutput { clicked: None }
    }
}

/// A grid of thumbnails.
#[derive(Clone)]
pub struct AssetGrid<'a> {
    /// The labels.
    pub items: &'a [&'a str],
    /// The glyph on each plate.
    pub glyph: &'a str,
    /// The width of a cell.
    pub cell_w: Scalar,
    /// The height of a plate.
    pub thumb_h: Scalar,
}

/// Where a grid's cells lie.
#[derive(Clone, Copy, Debug, PartialEq, Eq, Structural)]
pub struct GridFlow {
    /// The first cell's corner.
    pub origin: Point,
    /// The number of columns.
    pub cols: usize,
    /// The width of a cell.
    pub cell_w: Scalar,
    /// The height of a cell.
    pub cell_h: Scalar,
    /// The gap between cells.
    pub gap: Scalar,
    /// The lower edge of the grid.
    pub bottom: Scalar,
}

impl GridFlow {
    pub open spec fn spec_cell(self, i: usize) -> Rect {
        Rect {
            x: self.origin.x.plus(whole((i % self.cols) as u64).times(self.cell_w.plus(self.gap))),
            y: self.origin.y.plus(whole((i / self.cols) as u64).times(self.cell_h.plus(self.gap))),
            width: self.cell_w,
            height: self.cell_h,
        }
    }

    /// Where cell `i` lies.
    #[verifier::when_used_as_spec(spec_cell)]
    pub fn cell(self, i: usize) -> (r: Rect)
        requires
            self.cols > 0,
        ensures
            r == self.spec_cell(i),
    {
        Rect {
            x: self.origin.x.plus(whole((i % self.cols) as u64).times(self.cell_w.plus(self.gap))),
            y: self.origin.y.plus(whole((i / self.cols) as u64).times(self.cell_h.plus(self.gap))),
            width: self.cell_w,
            height: self.cell_h,
        }
    }

    pub open spec fn spec_ends_at(self, i: usize) -> bool {
        self.bottom.plus(self.cell_h).lt(self.cell(i).y.plus(self.cell_h))
    }

    /// Whether cell `i` starts past the grid, so that neither it nor any after it
    /// is drawn.
    #[verifier::when_used_as_spec(spec_ends_at)]
    pub fn ends_at(self, i: usize) -> (r: bool)
        requires
            self.cols > 0,
        ensures
            r == self.spec_ends_at(i),
    {
        self.bottom.plus(self.cell_h).lt(self.cell(i).y.plus(self.cell_h))
    }

    /// The cells past the grid.
    pub open spec fn ends(self) -> spec_fn(int) -> bool {
        |i: int| self.ends_at(i as usize)
    }

    /// How many of `n` cells are drawn: those before the first past the grid.
    pub open spec fn drawn(self, n: nat) -> nat {
        match crate::context::first_hit(self.ends(), 0, n) {
            Some(k) => k as nat,
            None => n,
        }
    }
}

/// A cell's plate: a gradient and a light line under its top edge, under the wash
/// and the ring of a selected one.
#[verifier::opaque]
pub open spec fn plate_painted(
    l: crate::draw_list::DrawState,
    cell: Rect,
    thumb_h: Scalar,
    selected: bool,
    s: &StyleResolver,
) -> crate::draw_list::DrawState {
    let radius = s.scalar(StyleKey::BorderRadius);
    let accent = s.color(StyleKey::Accent);
    let thumb = Rect { x: cell.x, y: cell.y, width: cell.width, height: thumb_h };
    let l = if selected {
        l.quad(cell, accent.with_alpha(ratio(22, 100))).rounded_rect_outline(
            cell,
            radius,
            whole(1),
            accent.with_alpha(ratio(7, 10)),
        )
    } else {
        l
    };
    l.chrome_rect_gradient(
        thumb,
        radius,
        whole(1),
        Color {
            r: ratio(1647, 10000),
            g: ratio(1922, 10000),
            b: ratio(2196, 10000),
            a: whole(1),
        },
        Color {
            r: ratio(902, 10000),
            g: ratio(1059, 10000),
            b: ratio(1255, 10000),
            a: whole(1),
        },
        Color::black(ratio(6, 10)),
    ).quad(
        Rect {
            x: thumb.x.plus(whole(1)),
            y: thumb.y.plus(whole(1)),
            width: thumb.width.minus(whole(2)).at_least(whole(0)),
            height: whole(1),
        },
        s.color(StyleKey::EdgeHighlight).with_alpha(ratio(12, 100)),
    )
}

fn paint_plate(list: &mut DrawList, cell: Rect, thumb_h: Scalar, selected: bool, s: &StyleResolver)
    ensures
        final(list)@ == plate_painted(old(list)@, cell, thumb_h, selected, s),
{
    proof {
        reveal(plate_painted);
    }
    let radius = s.scalar(StyleKey::BorderRadius);
    if selected {
        let accent = s.color(StyleKey::Accent);
        list.quad(cell, accent.with_alpha(ratio(22, 100)));
        list.rounded_rect_outline(cell, radius, whole(1), accent.with_alpha(ratio(7, 10)));
    }
    let thumb = Rect { x: cell.x, y: cell.y, width: cell.width, height: thumb_h };
    list.chrome_rect_gradient(
        thumb,
        radius,
        whole(1),
        Color {
            r: ratio(1647, 10000),
            g: ratio(1922, 10000),
            b: ratio(2196, 10000),
            a: whole(1),
        },
        Color {
            r: ratio(902, 10000),
            g: ratio(1059, 10000),
            b: ratio(1255, 10000),
            a: whole(1),
        },
        Color::black(ratio(6, 10)),
    );
    list.quad(
        Rect {
            x: thumb.x.plus(whole(1)),
            y: thumb.y.plus(whole(1)),
            width: thumb.width.minus(whole(2)).at_least(whole(0)),
            height: whole(1),
        },
        s.color(StyleKey::EdgeHighlight).with_alpha(ratio(12, 100)),
    );
}

impl<'a> AssetGrid<'a> {
    /// A grid of `items`, each with `glyph` on its plate.
    pub fn new(items: &'a [&'a str], glyph: &'a str) -> (r: Self)
        ensures
            r == (AssetGrid { items, glyph, cell_w: whole(86), thumb_h: whole(58) }),
    {
        AssetGrid { items, glyph, cell_w: whole(86), thumb_h: whole(58) }
    }

    /// With cells of this width.
    pub fn with_cell_width(self, w: Scalar) -> (r: Self)
        ensures
            r == (AssetGrid { cell_w: w, ..self }),
    {
        AssetGrid { items: self.items, glyph: self.glyph, cell_w: w, thumb_h: self.thumb_h }
    }

    /// With plates of this height.
    pub fn with_thumb_height(self, h: Scalar) -> (r: Self)
        ensures
            r == (AssetGrid { thumb_h: h, ..self }),
    {
        AssetGrid { items: self.items, glyph: self.glyph, cell_w: self.cell_w, thumb_h: h }
    }

    /// The height of a cell: the plate and the label's band.
    pub fn cell_height(&self, s: &StyleResolver) -> (r: Scalar)
        ensures
            r == self.thumb_h.plus(
                s.scalar(StyleKey::FontSize).times(ratio(8, 10)),
            ).plus(whole(8)),
    {
        self.thumb_h.plus(s.scalar(StyleKey::FontSize).times(ratio(8, 10))).plus(whole(8))
    }

    pub open spec fn spec_flow(&self, rect: Rect, s: &StyleResolver) -> GridFlow {
        let content = rect.inset(s.scalar(StyleKey::Padding).at_least(whole(2)));
        let gap = s.scalar(StyleKey::Spacing).at_least(whole(4));
        let fit = content.width.plus(gap).over(self.cell_w.plus(gap)).truncated(
            usize::MAX as u64,
        ) as usize;
        GridFlow {
            origin: Point { x: content.x, y: content.y },
            cols: if fit == 0 {
                1
            } else {
                fit
            },
            cell_w: self.cell_w,
            cell_h: self.thumb_h.plus(
                s.scalar(StyleKey::FontSize).times(ratio(8, 10)).plus(whole(8)),
            ),
            gap,
            bottom: rect.bottom(),
        }
    }

    /// Where the cells lie: inset from the edges, in as many columns as fit, one
    /// at least.
    #[verifier::when_used_as_spec(spec_flow)]
    pub fn flow(&self, rect: Rect, s: &StyleResolver) -> (r: GridFlow)
        ensures
            r == self.spec_flow(rect, s),
            r.cols > 0,
    {
        let content = rect.inset(s.scalar(StyleKey::Padding).at_least(whole(2)));
        let gap = s.scalar(StyleKey::Spacing).at_least(whole(4));
        let fit: usize = content.width.plus(gap).over(self.cell_w.plus(gap)).truncated(
            usize::MAX as u64,
        ) as usize;
        let cols: usize = if fit == 0 {
            1
        } else {
            fit
        };
        GridFlow {
            origin: Point { x: content.x, y: content.y },
            cols,
            cell_w: self.cell_w,
            cell_h: self.thumb_h.plus(
                s.scalar(StyleKey::FontSize).times(ratio(8, 10)).plus(whole(8)),
            ),
            gap,
            bottom: rect.bottom(),
        }
    }

    /// A cell's texts: the glyph in the middle of its plate, and its label.
    #[verifier::opaque]
    pub open spec fn texts_painted(
        &self,
        l: crate::draw_list::DrawState,
        cell: Rect,
        text: Seq<char>,
        glyph: Label,
        selected: bool,
        hovered: bool,
        s: &StyleResolver,
    ) -> crate::draw_list::DrawState {
        let size = s.scalar(StyleKey::FontSize).times(ratio(8, 10));
        l.written(
            self.glyph@,
            Point {
                x: cell.x.plus(cell.width.minus(glyph.width).times(ratio(1, 2))),
                y: vcentered(cell.y, self.thumb_h, whole(19), glyph.center),
            },
            whole(19),
            s.color(
                if selected {
                    StyleKey::Accent
                } else {
                    StyleKey::TextDim
                },
            ),
            s.font,
        ).text(
            crate::text::TextView::plain(
                text,
                cell.x,
                cell.y.plus(self.thumb_h).plus(whole(4)),
                size,
            ).colored(
                s.color(
                    if selected || hovered {
                        StyleKey::Text
                    } else {
                        StyleKey::TextDim
                    },
                ),
            ).cut_at(self.cell_w).centered().in_font(s.font),
        )
    }

    fn paint_texts(
        &self,
        list: &mut DrawList,
        cell: Rect,
        text: &str,
        glyph: Label,
        selected: bool,
        hovered: bool,
        s: &StyleResolver,
    )
        ensures
            final(list)@ == self.texts_painted(
                old(list)@,
                cell,
                text@,
                glyph,
                selected,
                hovered,
                s,
            ),
    {
        proof {
            reveal(AssetGrid::texts_painted);
        }
        let size = s.scalar(StyleKey::FontSize).times(ratio(8, 10));
        let glyph_color = s.color(
            if selected {
                StyleKey::Accent
            } else {
                StyleKey::TextDim
            },
        );
        list.write(
            self.glyph,
            Point {
                x: cell.x.plus(cell.width.minus(glyph.width).times(ratio(1, 2))),
                y: vcentered(cell.y, self.thumb_h, whole(19), glyph.center),
            },
            whole(19),
            glyph_color,
            s.font,
        );
        let color = s.color(
            if selected || hovered {
                StyleKey::Text
            } else {
                StyleKey::TextDim
            },
        );
        list.text(
            TextBlock::new(
                text,
                cell.x,
                cell.y.plus(self.thumb_h).plus(whole(4)),
                size,
            ).with_color(color).with_ellipsis(self.cell_w).with_center().with_font(s.font),
        );
    }

    /// The first `n` cells painted.
    pub open spec fn cells_painted(
        &self,
        l: crate::draw_list::DrawState,
        flow: GridFlow,
        selected: usize,
        glyph: Label,
        s: &StyleResolver,
        input: &InputState,
        n: nat,
    ) -> crate::draw_list::DrawState
        decreases n,
    {
        if n == 0 {
            l
        } else {
            let i = (n - 1) as usize;
            let cell = flow.cell(i);
            self.texts_painted(
                plate_painted(
                    self.cells_painted(l, flow, selected, glyph, s, input, i as nat),
                    cell,
                    self.thumb_h,
                    i == selected,
                    s,
                ),
                cell,
                self.items@[i as int]@,
                glyph,
                i == selected,
                input.over(cell),
                s,
            )
        }
    }

    /// Which cells a click lands on.
    pub open spec fn hits(flow: GridFlow, input: &InputState) -> spec_fn(int) -> bool {
        |i: int| input.over(flow.cell(i as usize)) && input.mouse_clicked
    }

    /// What happened.
    pub open spec fn happened(&self, rect: Rect, s: &StyleResolver, input: &InputState) -> AssetGridOutput {
        let flow = self.flow(rect, s);
        AssetGridOutput {
            clicked: crate::context::last_hit(
                Self::hits(flow, input),
                flow.drawn(self.items@.len()),
            ),
        }
    }

    fn draw_cells(
        &self,
        list: &mut DrawList,
        flow: GridFlow,
        selected: usize,
        glyph: Label,
        s: &StyleResolver,
        input: &InputState,
    ) -> (clicked: Option<usize>)
        requires
            flow.cols > 0,
        ensures
            final(list)@ == self.cells_painted(
                old(list)@,
                flow,
                selected,
                glyph,
                s,
                input,
                flow.drawn(self.items@.len()),
            ),
            clicked == crate::context::last_hit(
                Self::hits(flow, input),
                flow.drawn(self.items@.len()),
            ),
    {
        let n: usize = self.items.len();
        let ghost ends = flow.ends();
        let mut clicked: Option<usize> = None;
        let mut i: usize = 0;
        while i < n && !flow.ends_at(i)
            invariant
                i <= n,
                n == self.items@.len(),
                flow.cols > 0,
                ends == flow.ends(),
                crate::context::first_hit(ends, 0, n as nat) == crate::context::first_hit(
                    ends,
                    i as nat,
                    n as nat,
                ),
                list@ == self.cells_painted(
                    old(list)@,
                    flow,
                    selected,
                    glyph,
                    s,
                    input,
                    i as nat,
                ),
                clicked == crate::context::last_hit(Self::hits(flow, input), i as nat),
            decreases n - i,
        {
            let cell = flow.cell(i);
            let hovered = input.over(cell);
            paint_plate(list, cell, self.thumb_h, i == selected, s);
            self.paint_texts(list, cell, self.items[i], glyph, i == selected, hovered, s);
            if hovered && input.mouse_clicked {
                clicked = Some(i);
            }
            assert(!ends(i as int));
            i = i + 1;
        }
        assert(i < n ==> ends(i as int));
        clicked
    }

    /// Draw the grid with asset `selected` marked; one past the assets marks none.
    /// `glyph` is how the glyph measures.
    pub fn draw(
        &self,
        rect: Rect,
        selected: usize,
        glyph: Label,
        ctx: &mut DrawContext,
    ) -> (out: AssetGridOutput)
        ensures
            out == self.happened(rect, &old(ctx).frame.styles, &old(ctx).frame.input),
            final(ctx)@ == (crate::context::Scene {
                list: self.cells_painted(
                    old(ctx)@.list.scoped("AssetGrid"@, rect),
                    self.flow(rect, &old(ctx).frame.styles),
                    selected,
                    glyph,
                    &old(ctx).frame.styles,
                    &old(ctx).frame.input,
                    self.flow(rect, &old(ctx).frame.styles).drawn(self.items@.len()),
                ).scope_closed(),
                ..old(ctx)@
            }),
            final(ctx).frame == old(ctx).frame,
    {
        ctx.draw_list.push_debug_scope_rect("AssetGrid", rect);
        let flow = self.flow(rect, &ctx.frame.styles);
        let clicked = self.draw_cells(
            &mut ctx.draw_list,
            flow,
            selected,
            glyph,
            &ctx.frame.styles,
            &ctx.frame.input,
        );
        ctx.draw_list.pop_debug_scope();
        AssetGridOutput { clicked }
    }
}

/// A clicked asset is one that is drawn, under the pointer.
pub proof fn law_clicked_asset_is_under_the_pointer(
    g: AssetGrid,
    rect: Rect,
    s: &StyleResolver,
    input: &InputState,
)
    requires
        g.items@.len() <= usize::MAX,
    ensures
        g.happened(rect, s, input).clicked matches Some(i) ==> i < g.items@.len() && input.over(
            g.flow(rect, s).cell(i),
        ) && !g.flow(rect, s).ends_at(i),
{
    let flow = g.flow(rect, s);
    let n = flow.drawn(g.items@.len());
    crate::context::lemma_first_hit(flow.ends(), 0, g.items@.len());
    crate::context::lemma_last_hit(AssetGrid::hits(flow, input), n);
    if g.happened(rect, s, input).clicked is Some {
        let i = g.happened(rect, s, input).clicked->0;
        assert(!(flow.ends())(i as int));
    }
}

/// Cells of one row share its top, cells of one column its left edge.
pub proof fn law_cells_line_up(flow: GridFlow, i: usize, j: usize)
    requires
        flow.cols > 0,
    ensures
        i / flow.cols == j / flow.cols ==> flow.cell(i).y == flow.cell(j).y,
        i % flow.cols == j % flow.cols ==> flow.cell(i).x == flow.cell(j).x,
{
}

/// The grid has as many columns as fit: those that it has, with the gaps between them,
/// are no wider than its content, and one more would be; one column at least.
pub proof fn law_as_many_columns_as_fit(grid: AssetGrid, rect: Rect, s: &StyleResolver, w: int, c: int, g: int)
    requires
        rounding::in_steps(rect.inset(s.scalar(StyleKey::Padding).at_least(whole(2))).width, w),
        rounding::in_steps(grid.cell_w, c),
        rounding::in_steps(grid.flow(rect, s).gap, g),
        0 < c,
        0 <= g,
        0 <= w,
        w + 4 * (c + g) < 0x40_0000,
    ensures
        ({
            let cols = grid.flow(rect, s).cols as int;
            &&& cols >= 1
            &&& cols > 1 ==> cols * (c + g) <= w + g
            &&& c <= w ==> cols * (c + g) <= w + g
            &&& (cols + 1) * (c + g) > w + g
        }),
{
    let content = rect.inset(s.scalar(StyleKey::Padding).at_least(whole(2)));
    let gap = s.scalar(StyleKey::Spacing).at_least(whole(4));
    let n = w + g;
    let m = c + g;
    rounding::law_plus_steps(content.width, gap, w, g);
    rounding::law_plus_steps(grid.cell_w, gap, c, g);
    let all = content.width.plus(gap);
    let one = grid.cell_w.plus(gap);
    vstd::arithmetic::div_mod::lemma_fundamental_div_mod(n, m);
    vstd::arithmetic::div_mod::lemma_mod_bound(n, m);
    let k = n / m;
    assert(0 <= k && k * m <= n && n < (k + 1) * m && (k + 1) * m == k * m + m && k <= n) by (nonlinear_arith)
        requires
            n == m * k + n % m,
            0 <= n % m < m,
            n >= 0,
            m > 0,
    ;
    let limit = (k + 1) as u64;
    rounding::law_quotient_of_steps(all, one, n, m, limit);
    rounding::law_truncated_at_a_larger_limit(all.over(one), limit, usize::MAX as u64);
    let t = all.over(one).truncated(limit) as int;
    assert(t == k) by (nonlinear_arith)
        requires
            t * m <= n < (t + 1) * m,
            k * m <= n < (k + 1) * m,
            m > 0,
    ;
    assert(c <= w ==> k >= 1) by (nonlinear_arith)
        requires
            n < (k + 1) * m,
            n == w + g,
            m == c + g,
            m > 0,
    ;
    assert((1 + 1) * m > n || k >= 1) by (nonlinear_arith)
        requires
            n < (k + 1) * m,
            m > 0,
            k >= 0,
    ;
}

/// The cells follow each other from left to right and then down: the first one at the
/// origin, each a cell and a gap from the next one in its row and in its column.
pub proof fn law_cells_follow_each_other(flow: GridFlow, i: usize, x: int, y: int, c: int, h: int, g: int)
    requires
        flow.cols > 0,
        rounding::in_steps(flow.origin.x, x),
        rounding::in_steps(flow.origin.y, y),
        rounding::in_steps(flow.cell_w, c),
        rounding::in_steps(flow.cell_h, h),
        rounding::in_steps(flow.gap, g),
        0 <= c,
        0 <= h,
        0 <= g,
        i <= 0x1_0000,
        rounding::size(x) + (i + 1) * (c + g) <= 0x40_0000,
        rounding::size(y) + (i + 1) * (h + g) <= 0x40_0000,
    ensures
        rounding::in_steps(flow.cell(i).x, x + (i % flow.cols) * (c + g)),
        rounding::in_steps(flow.cell(i).y, y + (i / flow.cols) * (h + g)),
        flow.cell(i).width == flow.cell_w,
        flow.cell(i).height == flow.cell_h,
{
    let col = (i % flow.cols) as int;
    let row = (i / flow.cols) as int;
    let k = i as int;
    vstd::arithmetic::div_mod::lemma_mod_decreases(i as nat, flow.cols as nat);
    vstd::arithmetic::div_mod::lemma_div_is_ordered_by_denominator(k, 1, flow.cols as int);
    vstd::arithmetic::div_mod::lemma_div_basics(k);
    assert(0 <= col <= k && 0 <= row <= k);
    let w = c + g;
    let v = h + g;
    assert(0 <= col * w <= (k + 1) * w && 0 <= row * v <= (k + 1) * v) by (nonlinear_arith)
        requires
            0 <= col <= k,
            0 <= row <= k,
            w >= 0,
            v >= 0,
    ;
    assert(w <= (k + 1) * w && v <= (k + 1) * v) by (nonlinear_arith)
        requires
            k >= 0,
            w >= 0,
            v >= 0,
    ;
    rounding::law_plus_steps(flow.cell_w, flow.gap, c, g);
    rounding::law_plus_steps(flow.cell_h, flow.gap, h, g);
    rounding::law_whole_times_steps(col as u64, flow.cell_w.plus(flow.gap), w);
    rounding::law_whole_times_steps(row as u64, flow.cell_h.plus(flow.gap), v);
    rounding::law_plus_steps(
        flow.origin.x,
        whole(col as u64).times(flow.cell_w.plus(flow.gap)),
        x,
        col * w,
    );
    rounding::law_plus_steps(
        flow.origin.y,
        whole(row as u64).times(flow.cell_h.plus(flow.gap)),
        y,
        row * v,
    );
}

} // verus!
