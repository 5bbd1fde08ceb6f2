//! Color pickers: a square of saturation and value, a hue bar, and an alpha bar
//! where wanted.
//!
//! The color is kept by hue, saturation and value, so that dragging to an edge
//! never loses the hue. Each region drags under an identity of its own, derived
//! from the picker's.

use crate::color::{hsv, Hsva};
use crate::context::DrawContext;
use crate::drag::{DragCapture, DragId};
use crate::draw_list::{DrawList, Shades};
use crate::geometry::{Color, Point, Rect};
use crate::input::InputState;
use crate::rounding;
use crate::scalar::{ratio, whole, Scalar};
use crate::style::{StyleKey, StyleResolver};
use vstd::prelude::*;

verus! {

/// The region of the square.
pub const REGION_SV: u64 = 0;

/// The region of the hue bar.
pub const REGION_HUE: u64 = 1;

/// The region of the alpha bar.
pub const REGION_ALPHA: u64 = 2;

pub open spec fn spec_region_id(base: DragId, region: u64) -> DragId {
    base.wrapping_add(1).wrapping_mul(0x9E37_79B9_7F4A_7C15) ^ region
}

/// The drag identity of a picker's region: mixed, so that the regions of one
/// picker, and those of pickers with neighbouring identities, stay apart.
#[verifier::when_used_as_spec(spec_region_id)]
pub fn region_id(base: DragId, region: u64) -> (r: DragId)
    ensures
        r == spec_region_id(base, region),
{
    base.wrapping_add(1).wrapping_mul(0x9E37_79B9_7F4A_7C15) ^ region
}

/// The regions of one picker have identities of their own.
pub proof fn law_regions_are_distinct(base: DragId, a: u64, b: u64)
    requires
        a != b,
    ensures
        region_id(base, a) != region_id(base, b),
{
    let m = base.wrapping_add(1).wrapping_mul(0x9E37_79B9_7F4A_7C15);
    assert(a != b ==> m ^ a != m ^ b) by (bit_vector);
}

/// Two pickers with neighbouring identities share no region.
pub proof fn law_neighbours_share_no_region(base: DragId, a: u64, b: u64)
    requires
        a <= REGION_ALPHA,
        b <= REGION_ALPHA,
    ensures
        region_id(base, a) != region_id(base.wrapping_add(1), b),
{
    let x = base.wrapping_add(1);
    let y = base.wrapping_add(1).wrapping_add(1);
    let k: u64 = 0x9E37_79B9_7F4A_7C15;
    let m = x.wrapping_mul(k);
    let n = y.wrapping_mul(k);
    assert(n == m.wrapping_add(k)) by {
        let w: int = 0x1_0000_0000_0000_0000;
        assert(y == (x + 1) % w);
        vstd::arithmetic::div_mod::lemma_mul_mod_noop_left(x + 1, k as int, w);
        assert((x + 1) * k == x * k + k) by (nonlinear_arith);
        vstd::arithmetic::div_mod::lemma_add_mod_noop(x * k, k as int, w);
        assert(m == (x * k) % w);
        assert(n == (y * k) % w);
        assert(k as int % w == k);
    }
    lemma_far_apart(m, n, a, b);
}

proof fn lemma_far_apart(m: u64, n: u64, a: u64, b: u64)
    requires
        n == m.wrapping_add(0x9E37_79B9_7F4A_7C15),
        a <= 2,
        b <= 2,
    ensures
        m ^ a != n ^ b,
{
    assert(m ^ a != n ^ b) by (bit_vector)
        requires
            n == m + 0x9E37_79B9_7F4A_7C15u64 || m == n + 0x61C8_8646_80B5_83EBu64,
            a <= 2,
            b <= 2,
    ;
}

/// What a picker's frame gave.
#[derive(Clone, Copy, Debug, PartialEq, Eq, Structural)]
pub struct ColorPickerOutput {
    /// The color.
    pub hsva: Hsva,
    /// The color by red, green and blue.
    pub rgba: Color,
    /// Some channel changed.
    pub changed: bool,
    /// Some region is being dragged.
    pub dragging: bool,
}

/// A color picker.
#[derive(Clone, Copy, Debug, PartialEq, Eq, Structural)]
pub struct ColorPicker {
    /// Whether it has an alpha bar.
    pub alpha: bool,
    /// The width of a bar.
    pub bar_w: Scalar,
    /// The gap before each bar.
    pub gap: Scalar,
}

/// Where a picker's regions lie.
#[derive(Clone, Copy, Debug, PartialEq, Eq, Structural)]
pub struct Regions {
    /// The square.
    pub sv: Rect,
    /// The hue bar.
    pub hue: Rect,
    /// The alpha bar.
    pub alpha: Option<Rect>,
}

/// The color and the drag after a region.
pub struct Picked {
    /// The color.
    pub hsva: Hsva,
    /// The drag.
    pub capture: DragCapture,
    /// Some region up to this one is being dragged.
    pub dragging: bool,
}

pub open spec fn spec_fraction(at: Scalar, from: Scalar, extent: Scalar) -> Scalar {
    at.minus(from).over(extent).clamped(whole(0), whole(1))
}

/// How far `at` lies along `extent` from `from`.
#[verifier::when_used_as_spec(spec_fraction)]
pub fn fraction(at: Scalar, from: Scalar, extent: Scalar) -> (r: Scalar)
    ensures
        r == spec_fraction(at, from, extent),
{
    at.minus(from).over(extent).clamped(whole(0), whole(1))
}

pub open spec fn spec_rest(at: Scalar, from: Scalar, extent: Scalar) -> Scalar {
    whole(1).minus(at.minus(from).over(extent)).clamped(whole(0), whole(1))
}

/// How much of `extent` lies past `at`.
#[verifier::when_used_as_spec(spec_rest)]
pub fn rest(at: Scalar, from: Scalar, extent: Scalar) -> (r: Scalar)
    ensures
        r == spec_rest(at, from, extent),
{
    whole(1).minus(at.minus(from).over(extent)).clamped(whole(0), whole(1))
}

pub open spec fn spec_sv_at(c: Hsva, r: Rect, x: Scalar, y: Scalar) -> Hsva {
    Hsva {
        s: if whole(0).lt(r.width) {
            fraction(x, r.x, r.width)
        } else {
            c.s
        },
        v: if whole(0).lt(r.height) {
            rest(y, r.y, r.height)
        } else {
            c.v
        },
        ..c
    }
}

/// The color with the saturation and value at a point of the square: saturation
/// to the right, value upward.
#[verifier::when_used_as_spec(spec_sv_at)]
pub fn sv_at(c: Hsva, r: Rect, x: Scalar, y: Scalar) -> (out: Hsva)
    ensures
        out == spec_sv_at(c, r, x, y),
{
    let mut out = c;
    if whole(0).lt(r.width) {
        out.s = fraction(x, r.x, r.width);
    }
    if whole(0).lt(r.height) {
        out.v = rest(y, r.y, r.height);
    }
    out
}

pub open spec fn spec_hue_at(c: Hsva, r: Rect, y: Scalar) -> Hsva {
    Hsva {
        h: if whole(0).lt(r.height) {
            y.minus(r.y).over(r.height).times(whole(360)).clamped(whole(0), ratio(359999, 1000))
        } else {
            c.h
        },
        ..c
    }
}

/// The color with the hue at a height of the hue bar.
#[verifier::when_used_as_spec(spec_hue_at)]
pub fn hue_at(c: Hsva, r: Rect, y: Scalar) -> (out: Hsva)
    ensures
        out == spec_hue_at(c, r, y),
{
    let mut out = c;
    if whole(0).lt(r.height) {
        out.h = y.minus(r.y).over(r.height).times(whole(360)).clamped(
            whole(0),
            ratio(359999, 1000),
        );
    }
    out
}

pub open spec fn spec_alpha_at(c: Hsva, r: Rect, y: Scalar) -> Hsva {
    Hsva {
        a: if whole(0).lt(r.height) {
            rest(y, r.y, r.height)
        } else {
            c.a
        },
        ..c
    }
}

/// The color with the alpha at a height of the alpha bar, opaque at the top.
#[verifier::when_used_as_spec(spec_alpha_at)]
pub fn alpha_at(c: Hsva, r: Rect, y: Scalar) -> (out: Hsva)
    ensures
        out == spec_alpha_at(c, r, y),
{
    let mut out = c;
    if whole(0).lt(r.height) {
        out.a = rest(y, r.y, r.height);
    }
    out
}

pub open spec fn spec_differ(a: Hsva, b: Hsva) -> bool {
    !a.h.same(b.h) || !a.s.same(b.s) || !a.v.same(b.v) || !a.a.same(b.a)
}

/// Whether two colors differ in some channel.
#[verifier::when_used_as_spec(spec_differ)]
pub fn differ(a: Hsva, b: Hsva) -> (r: bool)
    ensures
        r == spec_differ(a, b),
{
    !a.h.same(b.h) || !a.s.same(b.s) || !a.v.same(b.v) || !a.a.same(b.a)
}

/// The mark on a bar: a light tick with a dark outline, a little wider than the
/// bar.
#[verifier::opaque]
pub open spec fn bar_cursor(l: crate::draw_list::DrawState, bar: Rect, t: Scalar) -> crate::draw_list::DrawState {
    let y = bar.y.plus(t.clamped(whole(0), whole(1)).times(bar.height));
    let tick = Rect {
        x: bar.x.minus(whole(2)),
        y: y.minus(whole(3).times(ratio(1, 2))),
        width: bar.width.plus(whole(4)),
        height: whole(3),
    };
    l.quad(tick, Color::white(whole(1))).rect_outline(tick, whole(1), Color::black(whole(1)))
}

fn draw_bar_cursor(list: &mut DrawList, bar: Rect, t: Scalar)
    ensures
        final(list)@ == bar_cursor(old(list)@, bar, t),
{
    proof {
        reveal(bar_cursor);
    }
    let y = bar.y.plus(t.clamped(whole(0), whole(1)).times(bar.height));
    let tick = Rect {
        x: bar.x.minus(whole(2)),
        y: y.minus(whole(3).times(ratio(1, 2))),
        width: bar.width.plus(whole(4)),
        height: whole(3),
    };
    list.quad(tick, Color::white(whole(1)));
    list.rect_outline(tick, whole(1), Color::black(whole(1)));
}

pub open spec fn spec_check(rect: Rect, cell: Scalar, row: u64, col: u64) -> Rect {
    let x = rect.x.plus(whole(col).times(cell));
    let y = rect.y.plus(whole(row).times(cell));
    Rect {
        x,
        y,
        width: rect.x.plus(rect.width).minus(x).at_most(cell),
        height: rect.y.plus(rect.height).minus(y).at_most(cell),
    }
}

/// A cell of a checkerboard, cut at the edges of the board.
#[verifier::when_used_as_spec(spec_check)]
pub fn check(rect: Rect, cell: Scalar, row: u64, col: u64) -> (r: Rect)
    ensures
        r == spec_check(rect, cell, row, col),
{
    let x = rect.x.plus(whole(col).times(cell));
    let y = rect.y.plus(whole(row).times(cell));
    Rect {
        x,
        y,
        width: rect.x.plus(rect.width).minus(x).at_most(cell),
        height: rect.y.plus(rect.height).minus(y).at_most(cell),
    }
}

pub open spec fn spec_shade(even: bool) -> Color {
    let v = if even {
        ratio(3, 4)
    } else {
        ratio(1, 2)
    };
    Color { r: v, g: v, b: v, a: whole(1) }
}

/// The shade of a cell of a checkerboard.
#[verifier::when_used_as_spec(spec_shade)]
pub fn shade(even: bool) -> (r: Color)
    ensures
        r == spec_shade(even),
{
    let v = if even {
        ratio(3, 4)
    } else {
        ratio(1, 2)
    };
    Color { r: v, g: v, b: v, a: whole(1) }
}

/// The first `n` cells of row `row`.
pub open spec fn check_row(
    l: crate::draw_list::DrawState,
    rect: Rect,
    cell: Scalar,
    row: nat,
    n: nat,
) -> crate::draw_list::DrawState
    decreases n,
{
    if n == 0 {
        l
    } else {
        check_row(l, rect, cell, row, (n - 1) as nat).quad(
            check(rect, cell, row as u64, (n - 1) as u64),
            shade((row + n - 1) % 2 == 0),
        )
    }
}

/// The first `n` rows, each of `cols` cells.
pub open spec fn check_rows(
    l: crate::draw_list::DrawState,
    rect: Rect,
    cell: Scalar,
    cols: nat,
    n: nat,
) -> crate::draw_list::DrawState
    decreases n,
{
    if n == 0 {
        l
    } else {
        check_row(
            check_rows(l, rect, cell, cols, (n - 1) as nat),
            rect,
            cell,
            (n - 1) as nat,
            cols,
        )
    }
}

/// A checkerboard of cells of this size, one pixel at least.
pub open spec fn checkerboard(l: crate::draw_list::DrawState, rect: Rect, size: Scalar) -> crate::draw_list::DrawState {
    let cell = size.at_least(whole(1));
    check_rows(
        l,
        rect,
        cell,
        rect.width.over(cell).ceiled(0x7fff_ffff) as nat,
        rect.height.over(cell).ceiled(0x7fff_ffff) as nat,
    )
}

fn draw_checkerboard(list: &mut DrawList, rect: Rect, size: Scalar)
    ensures
        final(list)@ == checkerboard(old(list)@, rect, size),
{
    let cell = size.at_least(whole(1));
    let cols: u64 = rect.width.over(cell).ceiled(0x7fff_ffff);
    let rows: u64 = rect.height.over(cell).ceiled(0x7fff_ffff);
    let mut row: u64 = 0;
    while row < rows
        invariant
            row <= rows <= 0x7fff_ffff,
            cols <= 0x7fff_ffff,
            list@ == check_rows(old(list)@, rect, cell, cols as nat, row as nat),
        decreases rows - row,
    {
        let ghost start = list@;
        let mut col: u64 = 0;
        while col < cols
            invariant
                row < 0x7fff_ffff,
                col <= cols <= 0x7fff_ffff,
                list@ == check_row(start, rect, cell, row as nat, col as nat),
            decreases cols - col,
        {
            list.quad(check(rect, cell, row, col), shade((row + col) % 2 == 0));
            col = col + 1;
        }
        row = row + 1;
    }
}

/// The square: white to the hue across, to black downward, with a ring at the
/// color.
#[verifier::opaque]
pub open spec fn square_painted(
    l: crate::draw_list::DrawState,
    sv: Rect,
    c: Hsva,
    border_w: Scalar,
    border: Color,
) -> crate::draw_list::DrawState {
    let white = Color::white(whole(1));
    let black = Color::black(whole(1));
    let at = Point {
        x: sv.x.plus(c.s.times(sv.width)),
        y: sv.y.plus(whole(1).minus(c.v).times(sv.height)),
    };
    l.quad_gradient(
        sv,
        Shades { tl: white, tr: hsv(c.h, whole(1), whole(1), whole(1)), br: black, bl: black },
    ).rect_outline(sv, border_w, border).circle_outline(
        at,
        whole(5),
        whole(2),
        black,
    ).circle_outline(at, whole(5), whole(1), white)
}

fn paint_square(list: &mut DrawList, sv: Rect, c: Hsva, border_w: Scalar, border: Color)
    ensures
        final(list)@ == square_painted(old(list)@, sv, c, border_w, border),
{
    proof {
        reveal(square_painted);
    }
    let white = Color::white(whole(1));
    let black = Color::black(whole(1));
    list.quad_gradient(
        sv,
        Shades { tl: white, tr: hsv(c.h, whole(1), whole(1), whole(1)), br: black, bl: black },
    );
    list.rect_outline(sv, border_w, border);
    let at = Point {
        x: sv.x.plus(c.s.times(sv.width)),
        y: sv.y.plus(whole(1).minus(c.v).times(sv.height)),
    };
    list.circle_outline(at, whole(5), whole(2), black);
    list.circle_outline(at, whole(5), whole(1), white);
}

pub open spec fn spec_pure(i: u64) -> Color {
    hsv(whole(i).times(whole(60)), whole(1), whole(1), whole(1))
}

/// The pure color at edge `i` of the six sectors of the hue circle.
#[verifier::when_used_as_spec(spec_pure)]
pub fn pure(i: u64) -> (r: Color)
    ensures
        r == spec_pure(i),
{
    hsv(whole(i).times(whole(60)), whole(1), whole(1), whole(1))
}

/// The first `n` of the hue bar's six parts.
pub open spec fn spectrum(l: crate::draw_list::DrawState, hue: Rect, n: nat) -> crate::draw_list::DrawState
    decreases n,
{
    if n == 0 {
        l
    } else {
        let i = (n - 1) as u64;
        let h = hue.height.over(whole(6));
        let top = pure(i);
        let low = pure(n as u64);
        spectrum(l, hue, i as nat).quad_gradient(
            Rect {
                x: hue.x,
                y: hue.y.plus(whole(i).times(h)),
                width: hue.width,
                height: h,
            },
            Shades { tl: top, tr: top, br: low, bl: low },
        )
    }
}

fn paint_spectrum(list: &mut DrawList, hue: Rect)
    ensures
        final(list)@ == spectrum(old(list)@, hue, 6),
{
    let h = hue.height.over(whole(6));
    let mut i: u64 = 0;
    while i < 6
        invariant
            i <= 6,
            h == hue.height.over(whole(6)),
            list@ == spectrum(old(list)@, hue, i as nat),
        decreases 6 - i,
    {
        let top = pure(i);
        let low = pure(i + 1);
        list.quad_gradient(
            Rect { x: hue.x, y: hue.y.plus(whole(i).times(h)), width: hue.width, height: h },
            Shades { tl: top, tr: top, br: low, bl: low },
        );
        i = i + 1;
    }
}

/// The alpha bar: a checkerboard under the color as it fades, with the mark.
pub open spec fn alpha_painted(
    l: crate::draw_list::DrawState,
    bar: Rect,
    c: Hsva,
    cell: Scalar,
    border_w: Scalar,
    border: Color,
) -> crate::draw_list::DrawState {
    let full = hsv(c.h, c.s, c.v, whole(1));
    let none = hsv(c.h, c.s, c.v, whole(0));
    bar_cursor(
        checkerboard(l, bar, cell).quad_gradient(
            bar,
            Shades { tl: full, tr: full, br: none, bl: none },
        ).rect_outline(bar, border_w, border),
        bar,
        whole(1).minus(c.a),
    )
}

impl ColorPicker {
    pub open spec fn spec_new() -> ColorPicker {
        ColorPicker { alpha: false, bar_w: whole(16), gap: whole(8) }
    }

    /// A picker without an alpha bar.
    #[verifier::when_used_as_spec(spec_new)]
    pub fn new() -> (r: Self)
        ensures
            r == Self::spec_new(),
    {
        ColorPicker { alpha: false, bar_w: whole(16), gap: whole(8) }
    }

    /// With an alpha bar or without.
    pub fn with_alpha(self, on: bool) -> (r: Self)
        ensures
            r == (ColorPicker { alpha: on, ..self }),
    {
        ColorPicker { alpha: on, bar_w: self.bar_w, gap: self.gap }
    }

    /// With bars of this width, one pixel at least.
    pub fn with_bar_width(self, w: Scalar) -> (r: Self)
        ensures
            r == (ColorPicker { bar_w: w.at_least(whole(1)), ..self }),
    {
        ColorPicker { alpha: self.alpha, bar_w: w.at_least(whole(1)), gap: self.gap }
    }

    /// With this gap before each bar.
    pub fn with_gap(self, gap: Scalar) -> (r: Self)
        ensures
            r == (ColorPicker { gap: gap.at_least(whole(0)), ..self }),
    {
        ColorPicker { alpha: self.alpha, bar_w: self.bar_w, gap: gap.at_least(whole(0)) }
    }

    pub open spec fn spec_regions(&self, rect: Rect) -> Regions {
        let bars = if self.alpha {
            whole(2)
        } else {
            whole(1)
        };
        let sv_w = rect.width.minus(bars.times(self.bar_w.plus(self.gap))).at_least(whole(1));
        let hue_x = rect.x.plus(sv_w).plus(self.gap);
        Regions {
            sv: Rect { x: rect.x, y: rect.y, width: sv_w, height: rect.height },
            hue: Rect { x: hue_x, y: rect.y, width: self.bar_w, height: rect.height },
            alpha: if self.alpha {
                Some(
                    Rect {
                        x: hue_x.plus(self.bar_w).plus(self.gap),
                        y: rect.y,
                        width: self.bar_w,
                        height: rect.height,
                    },
                )
            } else {
                None
            },
        }
    }

    /// Where the regions lie: the square takes what the bars leave.
    #[verifier::when_used_as_spec(spec_regions)]
    pub fn regions(&self, rect: Rect) -> (r: Regions)
        ensures
            r == self.spec_regions(rect),
    {
        let bars = if self.alpha {
            whole(2)
        } else {
            whole(1)
        };
        let sv_w = rect.width.minus(bars.times(self.bar_w.plus(self.gap))).at_least(whole(1));
        let hue_x = rect.x.plus(sv_w).plus(self.gap);
        let alpha = if self.alpha {
            Some(
                Rect {
                    x: hue_x.plus(self.bar_w).plus(self.gap),
                    y: rect.y,
                    width: self.bar_w,
                    height: rect.height,
                },
            )
        } else {
            None
        };
        Regions {
            sv: Rect { x: rect.x, y: rect.y, width: sv_w, height: rect.height },
            hue: Rect { x: hue_x, y: rect.y, width: self.bar_w, height: rect.height },
            alpha,
        }
    }

    /// The drag after a region saw the frame.
    pub open spec fn handled(capture: DragCapture, id: DragId, region: Rect, input: &InputState) -> DragCapture {
        capture.driven(id, input.mouse_down, input.over(region) && input.mouse_clicked)
    }

    fn handle(capture: &mut DragCapture, id: DragId, region: Rect, input: &InputState) -> (active: bool)
        ensures
            *final(capture) == Self::handled(*old(capture), id, region, input),
            active == final(capture).is_active(id),
    {
        capture.drive(id, input.mouse_down, input.over(region) && input.mouse_clicked);
        capture.is_active(id)
    }

    /// The color and the drag after the frame: the regions see it in turn, and
    /// the one that owns the drag sets its channels.
    pub open spec fn picked(
        &self,
        hsva: Hsva,
        id: DragId,
        capture: DragCapture,
        rect: Rect,
        input: &InputState,
    ) -> Picked {
        let r = self.regions(rect);
        let a = Self::handled(capture, region_id(id, REGION_SV), r.sv, input);
        let on_sv = a.is_active(region_id(id, REGION_SV));
        let c = if on_sv {
            sv_at(hsva, r.sv, input.mouse_x, input.mouse_y)
        } else {
            hsva
        };
        let b = Self::handled(a, region_id(id, REGION_HUE), r.hue, input);
        let on_hue = b.is_active(region_id(id, REGION_HUE));
        let d = if on_hue {
            hue_at(c, r.hue, input.mouse_y)
        } else {
            c
        };
        match r.alpha {
            Some(bar) => {
                let e = Self::handled(b, region_id(id, REGION_ALPHA), bar, input);
                let on_alpha = e.is_active(region_id(id, REGION_ALPHA));
                Picked {
                    hsva: if on_alpha {
                        alpha_at(d, bar, input.mouse_y)
                    } else {
                        d
                    },
                    capture: e,
                    dragging: on_sv || on_hue || on_alpha,
                }
            },
            None => Picked { hsva: d, capture: b, dragging: on_sv || on_hue },
        }
    }

    /// Settle the drag and the color.
    pub fn pick(
        &self,
        hsva: Hsva,
        id: DragId,
        capture: &mut DragCapture,
        rect: Rect,
        input: &InputState,
    ) -> (r: (Hsva, bool))
        ensures
            r.0 == self.picked(hsva, id, *old(capture), rect, input).hsva,
            r.1 == self.picked(hsva, id, *old(capture), rect, input).dragging,
            *final(capture) == self.picked(hsva, id, *old(capture), rect, input).capture,
    {
        let r = self.regions(rect);
        let mut new = hsva;
        let mut dragging = false;
        if Self::handle(capture, region_id(id, REGION_SV), r.sv, input) {
            dragging = true;
            new = sv_at(new, r.sv, input.mouse_x, input.mouse_y);
        }
        if Self::handle(capture, region_id(id, REGION_HUE), r.hue, input) {
            dragging = true;
            new = hue_at(new, r.hue, input.mouse_y);
        }
        match r.alpha {
            Some(bar) => {
                if Self::handle(capture, region_id(id, REGION_ALPHA), bar, input) {
                    dragging = true;
                    new = alpha_at(new, bar, input.mouse_y);
                }
            },
            None => {},
        }
        (new, dragging)
    }

    /// What the picker paints.
    pub open spec fn painted(
        &self,
        l: crate::draw_list::DrawState,
        c: Hsva,
        rect: Rect,
        s: &StyleResolver,
    ) -> crate::draw_list::DrawState {
        let r = self.regions(rect);
        let border = s.color(StyleKey::InputBorder);
        let border_w = s.scalar(StyleKey::BorderWidth).at_least(whole(1));
        let l = bar_cursor(
            spectrum(square_painted(l, r.sv, c, border_w, border), r.hue, 6).rect_outline(
                r.hue,
                border_w,
                border,
            ),
            r.hue,
            c.h.over(whole(360)),
        );
        match r.alpha {
            Some(bar) => alpha_painted(
                l,
                bar,
                c,
                self.bar_w.times(ratio(1, 2)),
                border_w,
                border,
            ),
            None => l,
        }
    }

    fn paint(&self, list: &mut DrawList, c: Hsva, rect: Rect, s: &StyleResolver)
        ensures
            final(list)@ == self.painted(old(list)@, c, rect, s),
    {
        let r = self.regions(rect);
        let border = s.color(StyleKey::InputBorder);
        let border_w = s.scalar(StyleKey::BorderWidth).at_least(whole(1));
        paint_square(list, r.sv, c, border_w, border);
        paint_spectrum(list, r.hue);
        list.rect_outline(r.hue, border_w, border);
        draw_bar_cursor(list, r.hue, c.h.over(whole(360)));
        match r.alpha {
            Some(bar) => {
                draw_checkerboard(list, bar, self.bar_w.times(ratio(1, 2)));
                let full = hsv(c.h, c.s, c.v, whole(1));
                let none = hsv(c.h, c.s, c.v, whole(0));
                list.quad_gradient(bar, Shades { tl: full, tr: full, br: none, bl: none });
                list.rect_outline(bar, border_w, border);
                draw_bar_cursor(list, bar, whole(1).minus(c.a));
            },
            None => {},
        }
    }

    /// Draw the picker and give the color as the frame's drag leaves it.
    pub fn draw(
        &self,
        hsva: Hsva,
        id: DragId,
        capture: &mut DragCapture,
        rect: Rect,
        ctx: &mut DrawContext,
    ) -> (out: ColorPickerOutput)
        ensures
            ({
                let p = self.picked(hsva, id, *old(capture), rect, &old(ctx).frame.input);
                &&& *final(capture) == p.capture
                &&& out == (ColorPickerOutput {
                    hsva: p.hsva,
                    rgba: p.hsva.to_rgba(),
                    changed: differ(p.hsva, hsva),
                    dragging: p.dragging,
                })
                &&& final(ctx)@ == (crate::context::Scene {
                    list: self.painted(
                        old(ctx)@.list,
                        p.hsva,
                        rect,
                        &old(ctx).frame.styles,
                    ),
                    ..old(ctx)@
                })
            }),
            final(ctx).frame == old(ctx).frame,
    {
        let (new, dragging) = self.pick(hsva, id, capture, rect, &ctx.frame.input);
        self.paint(&mut ctx.draw_list, new, rect, &ctx.frame.styles);
        ColorPickerOutput {
            hsva: new,
            rgba: new.to_rgba(),
            changed: differ(new, hsva),
            dragging,
        }
    }
}

impl Default for ColorPicker {
    fn default() -> (r: Self)
        ensures
            r == ColorPicker::new(),
    {
        ColorPicker::new()
    }
}

/// A drag in the square keeps the hue and the alpha, one on the hue bar keeps the
/// saturation, the value and the alpha: no drag moves two regions.
pub proof fn law_one_region_at_a_time(
    p: ColorPicker,
    hsva: Hsva,
    id: DragId,
    capture: DragCapture,
    rect: Rect,
    input: &InputState,
)
    requires
        input.mouse_down,
        !input.mouse_clicked,
    ensures
        ({
            let out = p.picked(hsva, id, capture, rect, input);
            &&& capture.is_active(region_id(id, REGION_SV)) ==> out.hsva.h == hsva.h && out.hsva.a
                == hsva.a
            &&& capture.is_active(region_id(id, REGION_HUE)) ==> out.hsva.s == hsva.s
                && out.hsva.v == hsva.v && out.hsva.a == hsva.a
            &&& capture.is_active(region_id(id, REGION_ALPHA)) ==> out.hsva.h == hsva.h
                && out.hsva.s == hsva.s && out.hsva.v == hsva.v
        }),
{
    law_regions_are_distinct(id, REGION_SV, REGION_HUE);
    law_regions_are_distinct(id, REGION_SV, REGION_ALPHA);
    law_regions_are_distinct(id, REGION_HUE, REGION_ALPHA);
}

/// Where another surface took the pointer, no drag starts and the color stays.
pub proof fn law_consumed_pointer_starts_no_drag(
    p: ColorPicker,
    hsva: Hsva,
    id: DragId,
    capture: DragCapture,
    rect: Rect,
    input: &InputState,
)
    requires
        input.mouse_consumed,
        capture.is_free(),
    ensures
        p.picked(hsva, id, capture, rect, input).capture.is_free(),
        p.picked(hsva, id, capture, rect, input).hsva == hsva,
        !p.picked(hsva, id, capture, rect, input).dragging,
{
}

/// Letting the button go ends the drag of whichever region has it, and leaves the
/// color.
pub proof fn law_release_ends_the_drag(
    p: ColorPicker,
    hsva: Hsva,
    id: DragId,
    capture: DragCapture,
    rect: Rect,
    input: &InputState,
)
    requires
        !input.mouse_down,
        !input.mouse_clicked,
        capture.is_active(region_id(id, REGION_SV)) || capture.is_active(region_id(id, REGION_HUE))
            || (p.alpha && capture.is_active(region_id(id, REGION_ALPHA))),
    ensures
        p.picked(hsva, id, capture, rect, input).capture.is_free(),
        p.picked(hsva, id, capture, rect, input).hsva == hsva,
        !p.picked(hsva, id, capture, rect, input).dragging,
{
    law_regions_are_distinct(id, REGION_SV, REGION_HUE);
    law_regions_are_distinct(id, REGION_SV, REGION_ALPHA);
    law_regions_are_distinct(id, REGION_HUE, REGION_ALPHA);
}

/// Without an alpha bar the alpha never changes.
pub proof fn law_no_alpha_bar_keeps_alpha(
    p: ColorPicker,
    hsva: Hsva,
    id: DragId,
    capture: DragCapture,
    rect: Rect,
    input: &InputState,
)
    requires
        !p.alpha,
    ensures
        p.picked(hsva, id, capture, rect, input).hsva.a == hsva.a,
{
}

/// An extent from `from` with room in it, whose ends are numbers.
pub open spec fn roomy(from: Scalar, extent: Scalar) -> bool {
    &&& from.is_finite()
    &&& extent.is_finite()
    &&& extent.val() > 0
    &&& from.plus(extent).is_finite()
}

/// Whether a place lies in an extent.
pub open spec fn along(at: Scalar, from: Scalar, extent: Scalar) -> bool {
    at.is_finite() && 0 <= at.val() - from.val() <= extent.val()
}

/// Where a mark lies on an extent.
pub open spec fn mark(from: Scalar, extent: Scalar, t: Scalar) -> Scalar {
    from.plus(t.times(extent))
}

proof fn lemma_positive(x: Scalar)
    requires
        x.is_finite(),
        x.val() > 0,
    ensures
        whole(0).lt(x),
{
    reveal(Scalar::spec_lt);
    rounding::law_zero_and_one();
}

/// The largest hue.
proof fn lemma_last_hue()
    ensures
        ratio(359999, 1000).is_finite(),
        0x100_0000 * apart_hue() <= 17200 * rounding::unit(),
        0 <= apart_hue(),
        whole(0).le(ratio(359999, 1000)),
        whole(360).is_finite(),
        whole(360).val() == 360 * rounding::unit(),
{
    reveal(Scalar::spec_le);
    rounding::law_zero_and_one();
    rounding::law_unit_is_large();
    crate::scalar::law_whole_exact(359999);
    crate::scalar::law_whole_exact(1000);
    crate::scalar::law_whole_exact(360);
    let u = rounding::unit();
    assert(rounding::size(359999 * u) * u <= rounding::size(360 * u) * rounding::size(1000 * u))
        by (nonlinear_arith)
        requires
            u > 0,
    ;
    assert((359999 * u) * (1000 * u) >= 0) by (nonlinear_arith)
        requires
            u > 0,
    ;
    rounding::law_over_bounded(whole(359999), whole(1000), whole(360));
    rounding::law_over_whole(whole(359999), 1000);
}

/// How far the largest hue lies below the full circle.
spec fn apart_hue() -> int {
    360 * rounding::unit() - ratio(359999, 1000).val()
}

/// The hue that a press picks is the one whose mark lies at the pointer: none at the top
/// of the bar, and the more the further down.
pub proof fn law_hue_mark_is_at_the_pointer(c: Hsva, bar: Rect, y: Scalar)
    requires
        roomy(bar.y, bar.height),
        along(y, bar.y, bar.height),
    ensures
        ({
            let h = hue_at(c, bar, y).h;
            let t = h.over(whole(360));
            &&& rounding::meets(mark(bar.y, bar.height, t.clamped(whole(0), whole(1))), y, bar.height)
            &&& y.val() == bar.y.val() ==> h.val() == 0
            &&& 0 <= h.val() < 360 * rounding::unit()
            &&& h.is_finite()
        }),
{
    lemma_positive(bar.height);
    rounding::law_zero_and_one();
    rounding::law_unit_is_large();
    lemma_last_hue();
    rounding::law_place_is_a_fraction(y, bar.y, bar.height);
    let t = y.minus(bar.y).over(bar.height);
    let u = rounding::unit();
    let v = t.val();
    assert(rounding::size(v * (360 * u)) <= rounding::size(360 * u) * u && v * (360 * u) >= 0)
        by (nonlinear_arith)
        requires
            0 <= v <= u,
            u > 0,
    ;
    rounding::law_times_bounded(t, whole(360), whole(360));
    rounding::law_times_whole(t, 360);
    let x = t.times(whole(360));
    if v == 0 {
        assert(v * (360 * u) == 0 * u) by (nonlinear_arith)
            requires
                v == 0,
        ;
        rounding::law_times_exact(t, whole(360), whole(0));
    }
    reveal(Scalar::spec_lt);
    let h = x.clamped(whole(0), ratio(359999, 1000));
    assert(h == hue_at(c, bar, y).h);
    assert(0 <= h.val() <= ratio(359999, 1000).val());
    let w = h.val();
    assert(rounding::size(w) * u <= u * rounding::size(360 * u)) by (nonlinear_arith)
        requires
            0 <= w <= 360 * u,
            u > 0,
    ;
    assert(w * (360 * u) >= 0) by (nonlinear_arith)
        requires
            0 <= w,
            u > 0,
    ;
    rounding::law_over_bounded(h, whole(360), whole(1));
    rounding::law_over_whole(h, 360);
    let back = h.over(whole(360));
    rounding::law_clamped_inside(back, whole(0), whole(1));
    rounding::law_fraction_is_the_place(y, bar.y, bar.height, back);
    lemma_below_the_circle();
}

/// The largest hue lies below the full circle.
proof fn lemma_below_the_circle()
    ensures
        apart_hue() > 0,
{
    rounding::law_zero_and_one();
    rounding::law_unit_is_large();
    lemma_last_hue();
    crate::scalar::law_whole_exact(359999);
    crate::scalar::law_whole_exact(1000);
    rounding::law_over_whole(whole(359999), 1000);
}

/// The further down the pointer, on the bar or beyond its ends, the larger the hue, or
/// the same.
pub proof fn law_hue_grows_downward(c: Hsva, bar: Rect, y: Scalar, below: Scalar)
    requires
        roomy(bar.y, bar.height),
        y.le(below),
    ensures
        hue_at(c, bar, y).h.le(hue_at(c, bar, below).h),
{
    lemma_positive(bar.height);
    lemma_last_hue();
    rounding::law_unit_is_large();
    rounding::law_minus_monotone(y, below, bar.y);
    let a = y.minus(bar.y);
    let b = below.minus(bar.y);
    rounding::law_over_monotone(a, b, bar.height);
    rounding::law_times_monotone(a.over(bar.height), b.over(bar.height), whole(360));
    rounding::law_clamped_monotone(
        a.over(bar.height).times(whole(360)),
        b.over(bar.height).times(whole(360)),
        whole(0),
        ratio(359999, 1000),
    );
}

/// The saturation and value that a press picks are those whose ring lies at the pointer:
/// saturation from left to right, value from the bottom up.
pub proof fn law_square_mark_is_at_the_pointer(c: Hsva, sv: Rect, x: Scalar, y: Scalar)
    requires
        roomy(sv.x, sv.width),
        roomy(sv.y, sv.height),
        along(x, sv.x, sv.width),
        along(y, sv.y, sv.height),
    ensures
        ({
            let out = sv_at(c, sv, x, y);
            &&& rounding::meets(mark(sv.x, sv.width, out.s), x, sv.width)
            &&& rounding::meets(mark(sv.y, sv.height, whole(1).minus(out.v)), y, sv.height)
            &&& x.val() == sv.x.val() ==> out.s.val() == 0
            &&& x.val() == sv.x.val() + sv.width.val() ==> out.s.val() == rounding::unit()
            &&& y.val() == sv.y.val() ==> out.v.val() == rounding::unit()
            &&& y.val() == sv.y.val() + sv.height.val() ==> out.v.val() == 0
        }),
{
    lemma_positive(sv.width);
    lemma_positive(sv.height);
    rounding::law_zero_and_one();
    rounding::law_place_is_a_fraction(x, sv.x, sv.width);
    let t = x.minus(sv.x).over(sv.width);
    rounding::law_clamped_inside(t, whole(0), whole(1));
    rounding::law_fraction_is_the_place(x, sv.x, sv.width, t);
    lemma_rest_mark(y, sv.y, sv.height);
}

proof fn lemma_rest_mark(y: Scalar, from: Scalar, extent: Scalar)
    requires
        roomy(from, extent),
        along(y, from, extent),
    ensures
        ({
            let v = rest(y, from, extent);
            &&& v.is_finite()
            &&& 0 <= v.val() <= rounding::unit()
            &&& whole(1).minus(v).clamped(whole(0), whole(1)) == whole(1).minus(v)
            &&& rounding::meets(mark(from, extent, whole(1).minus(v)), y, extent)
            &&& y.val() == from.val() ==> v.val() == rounding::unit()
            &&& y.val() == from.val() + extent.val() ==> v.val() == 0
        }),
{
    rounding::law_zero_and_one();
    rounding::law_place_is_a_fraction(y, from, extent);
    let t = y.minus(from).over(extent);
    rounding::law_rest_of_a_fraction(t);
    let v = whole(1).minus(t);
    rounding::law_clamped_inside(v, whole(0), whole(1));
    rounding::law_fraction_is_the_place(y, from, extent, whole(1).minus(v));
    rounding::law_clamped_inside(whole(1).minus(v), whole(0), whole(1));
}

/// The alpha that a press picks is the one whose mark lies at the pointer: opaque at the
/// top of the bar, clear at its bottom.
pub proof fn law_alpha_mark_is_at_the_pointer(c: Hsva, bar: Rect, y: Scalar)
    requires
        roomy(bar.y, bar.height),
        along(y, bar.y, bar.height),
    ensures
        ({
            let a = alpha_at(c, bar, y).a;
            let t = whole(1).minus(a).clamped(whole(0), whole(1));
            &&& rounding::meets(mark(bar.y, bar.height, t), y, bar.height)
            &&& y.val() == bar.y.val() ==> a.val() == rounding::unit()
            &&& y.val() == bar.y.val() + bar.height.val() ==> a.val() == 0
        }),
{
    lemma_positive(bar.height);
    lemma_rest_mark(y, bar.y, bar.height);
}

/// While a region has the drag and the button is held, the color follows the pointer: the
/// marks of the channels that the region sets lie at the pointer, and the other channels
/// stay.
pub proof fn law_dragged_channels_follow_the_pointer(
    p: ColorPicker,
    hsva: Hsva,
    id: DragId,
    capture: DragCapture,
    rect: Rect,
    input: &InputState,
)
    requires
        input.mouse_down,
        !input.mouse_clicked,
        roomy(rect.y, rect.height),
        along(input.mouse_y, rect.y, rect.height),
    ensures
        ({
            let c = p.picked(hsva, id, capture, rect, input).hsva;
            let x = input.mouse_x;
            let y = input.mouse_y;
            let sv = p.regions(rect).sv;
            let one = rounding::unit();
            &&& capture.is_active(region_id(id, REGION_HUE)) ==> rounding::meets(
                mark(rect.y, rect.height, c.h.over(whole(360)).clamped(whole(0), whole(1))),
                y,
                rect.height,
            )
            &&& p.alpha && capture.is_active(region_id(id, REGION_ALPHA)) ==> rounding::meets(
                mark(rect.y, rect.height, whole(1).minus(c.a).clamped(whole(0), whole(1))),
                y,
                rect.height,
            )
            &&& capture.is_active(region_id(id, REGION_SV)) && roomy(sv.x, sv.width) && along(
                x,
                sv.x,
                sv.width,
            ) ==> {
                &&& rounding::meets(mark(sv.x, sv.width, c.s), x, sv.width)
                &&& rounding::meets(mark(rect.y, rect.height, whole(1).minus(c.v)), y, rect.height)
            }
        }),
{
    law_regions_are_distinct(id, REGION_SV, REGION_HUE);
    law_regions_are_distinct(id, REGION_SV, REGION_ALPHA);
    law_regions_are_distinct(id, REGION_HUE, REGION_ALPHA);
    let r = p.regions(rect);
    let y = input.mouse_y;
    if capture.is_active(region_id(id, REGION_HUE)) {
        law_hue_mark_is_at_the_pointer(hsva, r.hue, y);
    }
    if p.alpha && capture.is_active(region_id(id, REGION_ALPHA)) {
        law_alpha_mark_is_at_the_pointer(hsva, r.alpha->0, y);
    }
    if capture.is_active(region_id(id, REGION_SV)) && roomy(r.sv.x, r.sv.width) && along(
        input.mouse_x,
        r.sv.x,
        r.sv.width,
    ) {
        law_square_mark_is_at_the_pointer(hsva, r.sv, input.mouse_x, y);
    }
}

/// In steps of the 256th part of a pixel, where the bars leave the square room, the
/// regions stand side by side over the whole rectangle, a gap apart: the square from its
/// left edge, the last bar up to its right edge, all of them as high as it is.
pub proof fn law_regions_fill_the_rectangle(p: ColorPicker, rect: Rect, x: int, w: int, bar: int, gap: int)
    requires
        rounding::in_steps(rect.x, x),
        rounding::in_steps(rect.width, w),
        rounding::in_steps(p.bar_w, bar),
        rounding::in_steps(p.gap, gap),
        bar >= 0,
        gap >= 0,
        rounding::size(x) + w < 0x40_0000,
        2 * (bar + gap) + 256 <= w,
    ensures
        ({
            let r = p.regions(rect);
            let sv = if p.alpha {
                w - 2 * (bar + gap)
            } else {
                w - (bar + gap)
            };
            &&& rounding::in_steps(r.sv.x, x) && rounding::in_steps(r.sv.width, sv)
            &&& rounding::in_steps(r.hue.x, x + sv + gap) && rounding::in_steps(r.hue.width, bar)
            &&& !p.alpha ==> r.alpha is None && x + sv + gap + bar == x + w
            &&& p.alpha ==> r.alpha is Some && rounding::in_steps(
                r.alpha->0.x,
                x + sv + gap + bar + gap,
            ) && rounding::in_steps(r.alpha->0.width, bar) && x + sv + gap + bar + gap + bar == x + w
            &&& r.sv.y == rect.y && r.hue.y == rect.y && r.sv.height == rect.height && r.hue.height
                == rect.height
            &&& p.alpha ==> r.alpha->0.y == rect.y && r.alpha->0.height == rect.height
        }),
{
    let n: u64 = if p.alpha {
        2
    } else {
        1
    };
    rounding::law_plus_steps(p.bar_w, p.gap, bar, gap);
    let pair = p.bar_w.plus(p.gap);
    rounding::law_whole_times_steps(n, pair, bar + gap);
    rounding::law_minus_steps(rect.width, whole(n).times(pair), w, n * (bar + gap));
    let room = rect.width.minus(whole(n).times(pair));
    let sv = w - n * (bar + gap);
    rounding::law_one_in_steps();
    rounding::law_steps_compare(room, whole(1), sv, 256);
    assert(!room.is_nan());
    rounding::law_plus_steps(rect.x, room, x, sv);
    rounding::law_plus_steps(rect.x.plus(room), p.gap, x + sv, gap);
    let hue = rect.x.plus(room).plus(p.gap);
    rounding::law_plus_steps(hue, p.bar_w, x + sv + gap, bar);
    rounding::law_plus_steps(hue.plus(p.bar_w), p.gap, x + sv + gap + bar, gap);
}

/// The mark painted on a bar for the fraction `t` is a tick of three pixels around the
/// place of that fraction, from two pixels left of the bar to two pixels right of it.
pub proof fn law_mark_is_painted_at_its_place(l: crate::draw_list::DrawState, bar: Rect, t: Scalar)
    requires
        l.transform() == crate::affine::Affine2::identity(),
        t.is_finite(),
        0 <= t.val() <= rounding::unit(),
        roomy(bar.y, bar.height),
        rounding::ordinary(bar.x),
        rounding::ordinary(bar.y),
        rounding::ordinary(bar.width),
        rounding::ordinary(bar.height),
        bar.width.val() >= 0,
    ensures
        ({
            let after = bar_cursor(l, bar, t);
            let n = l.chrome.len() as int;
            let tick = after.chrome[n].rect;
            let y = mark(bar.y, bar.height, t);
            let u = rounding::unit();
            &&& after.chrome.len() > n
            &&& after.chrome.subrange(0, n) == l.chrome
            &&& tick.height.val() == 3 * u
            &&& 0x80_0000 * rounding::apart(2 * tick.y.val() + 3 * u, 2 * y.val()) <= 2 * rounding::size(
                y.val(),
            ) + 3 * u
            &&& 0x80_0000 * rounding::apart(tick.x.val() + 2 * u, bar.x.val()) <= rounding::size(
                bar.x.val(),
            ) + 2 * u
            &&& 0x80_0000 * rounding::apart(tick.width.val(), bar.width.val() + 4 * u)
                <= bar.width.val() + 4 * u
        }),
{
    reveal(bar_cursor);
    reveal(crate::draw_list::DrawState::rect_outline);
    rounding::law_zero_and_one();
    rounding::law_unit_is_large();
    rounding::law_clamped_inside(t, whole(0), whole(1));
    let u = rounding::unit();
    let y = mark(bar.y, bar.height, t);
    lemma_mark_is_a_number(bar.y, bar.height, t);
    crate::strokes::lemma_half();
    crate::scalar::law_whole_exact(2);
    crate::scalar::law_whole_exact(3);
    crate::scalar::law_whole_exact(4);
    // One and a half.
    let c = ratio(1, 2);
    rounding::law_steps();
    let e = rounding::lemma_number_of_steps(384);
    assert((3 * u) * c.val() == e.val() * u) by (nonlinear_arith)
        requires
            2 * c.val() == u,
            2 * e.val() == 3 * u,
    ;
    rounding::law_times_exact(whole(3), c, e);
    let up = whole(3).times(c);
    rounding::law_minus_finite(y, up);
    rounding::law_minus_rounds(y, up);
    rounding::law_minus_finite(bar.x, whole(2));
    rounding::law_minus_rounds(bar.x, whole(2));
    rounding::law_plus_finite(bar.width, whole(4));
    rounding::law_plus_rounds(bar.width, whole(4));
    let tick = Rect {
        x: bar.x.minus(whole(2)),
        y: y.minus(up),
        width: bar.width.plus(whole(4)),
        height: whole(3),
    };
    assert(!tick.is_empty()) by {
        reveal(Scalar::spec_le);
    }
    let white = Color::white(whole(1));
    crate::fills::law_quad_is_its_rectangle(l, tick, white);
    let first = l.quad(tick, white);
    let n = l.chrome.len() as int;
    let black = Color::black(whole(1));
    let clear = black.with_alpha(whole(0));
    crate::fills::lemma_chrome(first, tick, whole(0), whole(1), clear, clear, black);
    assert(first.chrome.subrange(0, n) =~= l.chrome);
    let after = bar_cursor(l, bar, t);
    crate::fills::lemma_identity_only_moves();
    assert(after.chrome.subrange(0, n) =~= l.chrome);
    assert(after.chrome[n] == first.chrome[n]);
}

proof fn lemma_mark_is_a_number(from: Scalar, extent: Scalar, t: Scalar)
    requires
        roomy(from, extent),
        rounding::ordinary(from),
        rounding::ordinary(extent),
        t.is_finite(),
        0 <= t.val() <= rounding::unit(),
    ensures
        mark(from, extent, t).is_finite(),
        rounding::size(mark(from, extent, t).val()) <= 0x4_0000_0000 * rounding::unit(),
{
    rounding::law_zero_and_one();
    let u = rounding::unit();
    let v = t.val();
    let h = extent.val();
    assert(0 <= v * h <= h * u) by (nonlinear_arith)
        requires
            0 <= v <= u,
            h > 0,
    ;
    rounding::law_times_bounded(t, extent, extent);
    let w = t.times(extent);
    rounding::law_plus_finite(from, w);
    rounding::law_plus_rounds(from, w);
}

} // verus!
