//! Gradient ramps: a bar of color with draggable stops.
//!
//! The bar shows the colors between neighbouring stops, channel by channel. The
//! ramp says which stop is dragged and where to, or where a click on the bar
//! asks for a new one.

use crate::context::{vcentered, CursorIcon, DrawContext};
use crate::curve_editor::held_at;
use crate::drag::{DragCapture, DragId};
use crate::draw_list::{DrawList, Shades};
use crate::geometry::{Color, Point, Rect};
use crate::input::InputState;
use crate::rounding;
use crate::scalar::{ratio, whole, Scalar};
use crate::style::{StyleKey, StyleResolver};
use vstd::prelude::*;

verus! {

/// A color stop.
#[derive(Clone, Copy, Debug, PartialEq, Eq, Structural)]
pub struct GradientStop {
    /// Where it lies along the bar, from 0 to 1.
    pub pos: Scalar,
    /// Its color.
    pub color: Color,
}

impl GradientStop {
    /// A stop at `pos` with `color`.
    pub fn new(pos: Scalar, color: Color) -> (r: Self)
        ensures
            r == (GradientStop { pos, color }),
    {
        GradientStop { pos, color }
    }
}

pub open spec fn spec_between(a: GradientStop, b: GradientStop, t: Scalar) -> Color {
    a.color.mix(b.color, t.minus(a.pos).over(b.pos.minus(a.pos).at_least(ratio(1, 1_000_000))))
}

/// The color at `t` between two stops.
#[verifier::when_used_as_spec(spec_between)]
pub fn between(a: GradientStop, b: GradientStop, t: Scalar) -> (r: Color)
    ensures
        r == spec_between(a, b, t),
{
    a.color.mix(b.color, t.minus(a.pos).over(b.pos.minus(a.pos).at_least(ratio(1, 1_000_000))))
}

/// The pairs of neighbouring stops that `t` lies between.
pub open spec fn spans(stops: Seq<GradientStop>, t: Scalar) -> spec_fn(int) -> bool {
    |i: int| stops[i].pos.le(t) && t.le(stops[i + 1].pos)
}

/// The color of the ramp at `t`: before the first stop its color, after the last
/// one that one's, else the color between the first pair of neighbours around
/// `t`.
pub open spec fn color_at(stops: Seq<GradientStop>, t: Scalar) -> Color {
    let u = t.clamped(whole(0), whole(1));
    if stops.len() == 0 {
        Color::clear()
    } else if u.le(stops[0].pos) {
        stops[0].color
    } else if stops.last().pos.le(u) {
        stops.last().color
    } else {
        match crate::context::first_hit(spans(stops, u), 0, (stops.len() - 1) as nat) {
            Some(i) => between(stops[i as int], stops[i + 1], u),
            None => stops.last().color,
        }
    }
}

/// The color of the ramp at `t`.
pub fn sample(stops: &[GradientStop], t: Scalar) -> (r: Color)
    ensures
        r == color_at(stops@, t),
{
    let n: usize = stops.len();
    if n == 0 {
        return Color::clear();
    }
    let u = t.clamped(whole(0), whole(1));
    if u.le(stops[0].pos) {
        return stops[0].color;
    }
    let last = stops[n - 1];
    if last.pos.le(u) {
        return last.color;
    }
    let mut i: usize = 0;
    while i < n - 1
        invariant
            n == stops@.len(),
            i < n,
            u == t.clamped(whole(0), whole(1)),
            !u.le(stops@[0].pos),
            last == stops@.last(),
            !last.pos.le(u),
            crate::context::first_hit(spans(stops@, u), 0, (n - 1) as nat)
                == crate::context::first_hit(spans(stops@, u), i as nat, (n - 1) as nat),
        decreases n - i,
    {
        let a = stops[i];
        let b = stops[i + 1];
        if a.pos.le(u) && u.le(b.pos) {
            return between(a, b, u);
        }
        i = i + 1;
    }
    last.color
}

/// What happened in a ramp's frame.
#[derive(Clone, Copy, Debug, PartialEq, Eq, Structural)]
pub struct RampOutput {
    /// The stop that is being dragged.
    pub dragging: Option<usize>,
    /// Where it is dragged to.
    pub dragged_pos: Option<Scalar>,
    /// A click on the bar asks for a new stop.
    pub insert_requested: bool,
    /// Where it asks for it, 0 where it does not.
    pub click_pos: Scalar,
}

impl Default for RampOutput {
    fn default() -> (r: Self)
        ensures
            r == (RampOutput {
                dragging: None,
                dragged_pos: None,
                insert_requested: false,
                click_pos: whole(0),
            }),
    {
        RampOutput {
            dragging: None,
            dragged_pos: None,
            insert_requested: false,
            click_pos: whole(0),
        }
    }
}

pub open spec fn spec_bar(rect: Rect) -> Rect {
    let h = whole(18).at_most(rect.height);
    Rect { x: rect.x, y: rect.bottom().minus(h), width: rect.width, height: h }
}

/// The bar, at the bottom of the ramp.
#[verifier::when_used_as_spec(spec_bar)]
pub fn bar(rect: Rect) -> (r: Rect)
    ensures
        r == spec_bar(rect),
{
    let h = whole(18).at_most(rect.height);
    Rect { x: rect.x, y: rect.bottom().minus(h), width: rect.width, height: h }
}

pub open spec fn spec_handle_h(rect: Rect) -> Scalar {
    whole(10).at_most(rect.height.minus(bar(rect).height).at_least(whole(6)))
}

/// The height of a stop's handle.
#[verifier::when_used_as_spec(spec_handle_h)]
pub fn handle_h(rect: Rect) -> (r: Scalar)
    ensures
        r == spec_handle_h(rect),
{
    whole(10).at_most(rect.height.minus(bar(rect).height).at_least(whole(6)))
}

pub open spec fn spec_handle_zone(rect: Rect, stop: GradientStop) -> Rect {
    let h = handle_h(rect).plus(whole(4));
    Rect {
        x: rect.x.plus(stop.pos.times(rect.width)).minus(whole(6)),
        y: bar(rect).y.minus(h).minus(whole(2)),
        width: whole(12),
        height: h,
    }
}

/// Where a stop's handle is taken, above the bar.
#[verifier::when_used_as_spec(spec_handle_zone)]
pub fn handle_zone(rect: Rect, stop: GradientStop) -> (r: Rect)
    ensures
        r == spec_handle_zone(rect, stop),
{
    let h = handle_h(rect).plus(whole(4));
    Rect {
        x: rect.x.plus(stop.pos.times(rect.width)).minus(whole(6)),
        y: bar(rect).y.minus(h).minus(whole(2)),
        width: whole(12),
        height: h,
    }
}

/// The first `n` of the bar's 64 pieces, each in the color at its middle.
pub open spec fn pieces_painted(
    l: crate::draw_list::DrawState,
    rect: Rect,
    stops: Seq<GradientStop>,
    n: nat,
) -> crate::draw_list::DrawState
    decreases n,
{
    if n == 0 {
        l
    } else {
        let i = (n - 1) as u64;
        let w = rect.width.over(whole(64));
        let c = color_at(stops, whole(i).over(whole(64)).plus(ratio(1, 128)));
        pieces_painted(l, rect, stops, i as nat).quad_gradient(
            Rect {
                x: rect.x.plus(whole(i).times(w)),
                y: bar(rect).y,
                width: w.ceil().plus(ratio(1, 2)),
                height: bar(rect).height,
            },
            Shades { tl: c, tr: c, br: c, bl: c },
        )
    }
}

/// The bar: its colors, a border, a light line at its top and one at its bottom.
pub open spec fn bar_painted(
    l: crate::draw_list::DrawState,
    rect: Rect,
    stops: Seq<GradientStop>,
    s: &StyleResolver,
) -> crate::draw_list::DrawState {
    let b = bar(rect);
    pieces_painted(l, rect, stops, 64).rounded_rect_outline(
        b,
        s.scalar(StyleKey::BorderRadius).at_most(whole(3)),
        whole(1),
        Color::black(ratio(75, 100)),
    ).quad(
        Rect {
            x: b.x.plus(whole(1)),
            y: b.y.plus(whole(1)),
            width: b.width.minus(whole(2)).at_least(whole(0)),
            height: whole(1),
        },
        s.color(StyleKey::EdgeHighlight).with_alpha(ratio(18, 100)),
    ).quad(
        Rect {
            x: b.x.plus(whole(1)),
            y: b.y.plus(b.height).minus(whole(1)),
            width: b.width.minus(whole(2)).at_least(whole(0)),
            height: whole(1),
        },
        s.color(StyleKey::EdgeShadow),
    )
}

fn paint_bar(list: &mut DrawList, rect: Rect, stops: &[GradientStop], s: &StyleResolver)
    ensures
        final(list)@ == bar_painted(old(list)@, rect, stops@, s),
{
    let b = bar(rect);
    let w = rect.width.over(whole(64));
    let mut i: u64 = 0;
    while i < 64
        invariant
            i <= 64,
            b == bar(rect),
            w == rect.width.over(whole(64)),
            list@ == pieces_painted(old(list)@, rect, stops@, i as nat),
        decreases 64 - i,
    {
        let c = sample(stops, whole(i).over(whole(64)).plus(ratio(1, 128)));
        list.quad_gradient(
            Rect {
                x: rect.x.plus(whole(i).times(w)),
                y: b.y,
                width: w.ceil().plus(ratio(1, 2)),
                height: b.height,
            },
            Shades { tl: c, tr: c, br: c, bl: c },
        );
        i = i + 1;
    }
    list.rounded_rect_outline(
        b,
        s.scalar(StyleKey::BorderRadius).at_most(whole(3)),
        whole(1),
        Color::black(ratio(75, 100)),
    );
    list.quad(
        Rect {
            x: b.x.plus(whole(1)),
            y: b.y.plus(whole(1)),
            width: b.width.minus(whole(2)).at_least(whole(0)),
            height: whole(1),
        },
        s.color(StyleKey::EdgeHighlight).with_alpha(ratio(18, 100)),
    );
    list.quad(
        Rect {
            x: b.x.plus(whole(1)),
            y: b.y.plus(b.height).minus(whole(1)),
            width: b.width.minus(whole(2)).at_least(whole(0)),
            height: whole(1),
        },
        s.color(StyleKey::EdgeShadow),
    );
}

/// The stops whose handle the pointer is on.
pub open spec fn nears(rect: Rect, stops: Seq<GradientStop>, input: &InputState) -> spec_fn(
    int,
) -> bool {
    |i: int| input.over(handle_zone(rect, stops[i]))
}

/// The stop whose handle the pointer is on: the first of them.
pub open spec fn stop_hit(rect: Rect, stops: Seq<GradientStop>, input: &InputState) -> Option<usize> {
    crate::context::first_hit(nears(rect, stops, input), 0, stops.len())
}

fn find_stop(rect: Rect, stops: &[GradientStop], input: &InputState) -> (r: Option<usize>)
    ensures
        r == stop_hit(rect, stops@, input),
{
    let n: usize = stops.len();
    let mut i: usize = 0;
    while i < n
        invariant
            i <= n,
            n == stops@.len(),
            stop_hit(rect, stops@, input) == crate::context::first_hit(
                nears(rect, stops@, input),
                i as nat,
                n as nat,
            ),
        decreases n - i,
    {
        if input.over(handle_zone(rect, stops[i])) {
            return Some(i);
        }
        i = i + 1;
    }
    None
}

/// A stop's handle: a diamond of two triangles, brighter while it is active.
#[verifier::opaque]
pub open spec fn handle_painted(
    l: crate::draw_list::DrawState,
    rect: Rect,
    stop: GradientStop,
    active: bool,
    hovered: bool,
    s: &StyleResolver,
) -> crate::draw_list::DrawState {
    let x = rect.x.plus(stop.pos.times(rect.width));
    let y = handle_zone(rect, stop).y.plus(handle_h(rect).times(ratio(1, 2)));
    let color = s.color(
        if active {
            StyleKey::TextHighlight
        } else if hovered {
            StyleKey::Text
        } else {
            StyleKey::TextDim
        },
    );
    let left = Point { x: x.minus(whole(5)), y };
    let low = Point { x, y: y.plus(whole(5)) };
    l.triangle(left, Point { x, y: y.minus(whole(5)) }, low, color, color, color).triangle(
        left,
        low,
        Point { x: x.plus(whole(5)), y },
        color,
        color,
        color,
    )
}

fn paint_handle(
    list: &mut DrawList,
    rect: Rect,
    stop: GradientStop,
    active: bool,
    hovered: bool,
    s: &StyleResolver,
)
    ensures
        final(list)@ == handle_painted(old(list)@, rect, stop, active, hovered, s),
{
    proof {
        reveal(handle_painted);
    }
    let x = rect.x.plus(stop.pos.times(rect.width));
    let y = handle_zone(rect, stop).y.plus(handle_h(rect).times(ratio(1, 2)));
    let color = s.color(
        if active {
            StyleKey::TextHighlight
        } else if hovered {
            StyleKey::Text
        } else {
            StyleKey::TextDim
        },
    );
    let left = Point { x: x.minus(whole(5)), y };
    let low = Point { x, y: y.plus(whole(5)) };
    list.triangle(left, Point { x, y: y.minus(whole(5)) }, low, color);
    list.triangle(left, low, Point { x: x.plus(whole(5)), y }, color);
}

/// The first `n` handles.
pub open spec fn handles_painted(
    l: crate::draw_list::DrawState,
    rect: Rect,
    stops: Seq<GradientStop>,
    selected: usize,
    held: Option<usize>,
    hit: Option<usize>,
    taken: bool,
    s: &StyleResolver,
    n: nat,
) -> crate::draw_list::DrawState
    decreases n,
{
    if n == 0 {
        l
    } else {
        let i = (n - 1) as usize;
        handle_painted(
            handles_painted(l, rect, stops, selected, held, hit, taken, s, i as nat),
            rect,
            stops[i as int],
            i == selected || held_at(held, hit, taken, i) == Some(i),
            hit == Some(i),
            s,
        )
    }
}

fn paint_handles(
    list: &mut DrawList,
    rect: Rect,
    stops: &[GradientStop],
    selected: usize,
    held: Option<usize>,
    hit: Option<usize>,
    taken: bool,
    s: &StyleResolver,
)
    ensures
        final(list)@ == handles_painted(
            old(list)@,
            rect,
            stops@,
            selected,
            held,
            hit,
            taken,
            s,
            stops@.len(),
        ),
{
    let n: usize = stops.len();
    let mut i: usize = 0;
    while i < n
        invariant
            i <= n,
            n == stops@.len(),
            list@ == handles_painted(
                old(list)@,
                rect,
                stops@,
                selected,
                held,
                hit,
                taken,
                s,
                i as nat,
            ),
        decreases n - i,
    {
        let active = i == selected || held_at(held, hit, taken, i) == Some(i);
        paint_handle(list, rect, stops[i], active, hit == Some(i), s);
        i = i + 1;
    }
}

pub open spec fn spec_along(rect: Rect, x: Scalar) -> Scalar {
    x.minus(rect.x).over(rect.width).clamped(whole(0), whole(1))
}

/// How far along the bar `x` lies.
#[verifier::when_used_as_spec(spec_along)]
pub fn along(rect: Rect, x: Scalar) -> (r: Scalar)
    ensures
        r == spec_along(rect, x),
{
    x.minus(rect.x).over(rect.width).clamped(whole(0), whole(1))
}

/// What happened.
pub open spec fn happened(
    rect: Rect,
    stops: Seq<GradientStop>,
    held: Option<usize>,
    input: &InputState,
) -> RampOutput {
    let insert = stop_hit(rect, stops, input) is None && input.mouse_clicked && input.over(
        bar(rect),
    );
    RampOutput {
        dragging: held,
        dragged_pos: if held is Some {
            Some(along(rect, input.mouse_x))
        } else {
            None
        },
        insert_requested: insert,
        click_pos: if insert {
            along(rect, input.mouse_x)
        } else {
            whole(0)
        },
    }
}

/// What the ramp paints.
pub open spec fn painted(
    l: crate::draw_list::DrawState,
    rect: Rect,
    stops: Seq<GradientStop>,
    selected: usize,
    held: Option<usize>,
    taken: bool,
    s: &StyleResolver,
    input: &InputState,
) -> crate::draw_list::DrawState {
    let reach = Rect {
        x: rect.x.minus(whole(5)),
        y: rect.y.minus(whole(4)),
        width: rect.width.plus(whole(10)),
        height: rect.height.plus(whole(8)),
    };
    handles_painted(
        bar_painted(l.scoped("GradientRamp"@, reach), rect, stops, s),
        rect,
        stops,
        selected,
        held,
        stop_hit(rect, stops, input),
        taken,
        s,
        stops.len(),
    ).scope_closed()
}

/// Draw the ramp with stop `selected` marked: the bar at the bottom of `rect`,
/// the handles above it. `drag` is the stop held since an earlier frame, under
/// the drag identity `id`.
pub fn draw(
    rect: Rect,
    stops: &[GradientStop],
    selected: usize,
    drag: &mut Option<usize>,
    capture: &mut DragCapture,
    id: DragId,
    ctx: &mut DrawContext,
) -> (out: RampOutput)
    ensures
        ({
            let input = old(ctx).frame.input;
            let hit = stop_hit(rect, stops@, &input);
            let g = old(capture).grip(
                *old(drag),
                id,
                hit,
                input.mouse_down,
                input.mouse_clicked,
            );
            &&& *final(capture) == old(capture).driven(
                id,
                input.mouse_down,
                hit is Some && input.mouse_clicked,
            )
            &&& *final(drag) == g.held
            &&& out == happened(rect, stops@, g.held, &input)
            &&& final(ctx)@ == (crate::context::Scene {
                list: painted(
                    old(ctx)@.list,
                    rect,
                    stops@,
                    selected,
                    DragCapture::held_over(*old(drag), input.mouse_down),
                    g.taken,
                    &old(ctx).frame.styles,
                    &input,
                ),
                ..old(ctx)@.pointed(input.over(bar(rect)), CursorIcon::Pointer)
            })
        }),
        final(ctx).frame == old(ctx).frame,
{
    let reach = Rect {
        x: rect.x.minus(whole(5)),
        y: rect.y.minus(whole(4)),
        width: rect.width.plus(whole(10)),
        height: rect.height.plus(whole(8)),
    };
    ctx.draw_list.push_debug_scope_rect("GradientRamp", reach);
    paint_bar(&mut ctx.draw_list, rect, stops, &ctx.frame.styles);
    let down = ctx.frame.input.mouse_down;
    let clicked = ctx.frame.input.mouse_clicked;
    let hit = find_stop(rect, stops, &ctx.frame.input);
    let held = if down {
        *drag
    } else {
        None
    };
    let taken = capture.drive_handles(drag, id, hit, down, clicked);
    let over = ctx.frame.input.over(bar(rect));
    let here = along(rect, ctx.frame.input.mouse_x);
    let insert = hit.is_none() && clicked && over;
    let click_pos = if insert {
        here
    } else {
        whole(0)
    };
    paint_handles(&mut ctx.draw_list, rect, stops, selected, held, hit, taken, &ctx.frame.styles);
    let dragged_pos = if drag.is_some() {
        Some(here)
    } else {
        None
    };
    if over {
        ctx.request_cursor(CursorIcon::Pointer);
    }
    ctx.draw_list.pop_debug_scope();
    RampOutput { dragging: *drag, dragged_pos, insert_requested: insert, click_pos }
}

/// Write a readout beside the bar. `center` is where the visual center of the
/// text lies below its top, in em.
pub fn readout(
    list: &mut DrawList,
    s: &StyleResolver,
    x: Scalar,
    rect: Rect,
    text: &str,
    center: Scalar,
)
    ensures
        final(list)@ == old(list)@.written(
            text@,
            Point {
                x,
                y: vcentered(
                    rect.y,
                    rect.height,
                    s.scalar(StyleKey::FontSize).times(ratio(8, 10)),
                    center,
                ),
            },
            s.scalar(StyleKey::FontSize).times(ratio(8, 10)),
            s.color(StyleKey::TextDim),
            s.font,
        ),
{
    let size = s.scalar(StyleKey::FontSize).times(ratio(8, 10));
    let y = vcentered(rect.y, rect.height, size, center);
    list.write(text, Point { x, y }, size, s.color(StyleKey::TextDim), s.font);
}

/// Left of the first stop the ramp has the first color, right of the last stop
/// the last one.
pub proof fn law_ends_keep_their_color(stops: Seq<GradientStop>, t: Scalar)
    requires
        stops.len() > 0,
    ensures
        t.clamped(whole(0), whole(1)).le(stops[0].pos) ==> color_at(stops, t) == stops[0].color,
        !t.clamped(whole(0), whole(1)).le(stops[0].pos) && stops.last().pos.le(
            t.clamped(whole(0), whole(1)),
        ) ==> color_at(stops, t) == stops.last().color,
{
}

/// A ramp of one stop has its color everywhere.
pub proof fn law_single_stop_is_uniform(stop: GradientStop, t: Scalar)
    ensures
        color_at(seq![stop], t) == stop.color,
{
}

/// A stop is held by whoever owns the drag alone.
pub proof fn law_held_stop_owns_the_drag(
    capture: DragCapture,
    drag: Option<usize>,
    id: DragId,
    hit: Option<usize>,
    down: bool,
    pressed: bool,
)
    ensures
        capture.grip(drag, id, hit, down, pressed).held is Some ==> capture.driven(
            id,
            down,
            hit is Some && pressed,
        ).is_active(id),
        !down && !(hit is Some && pressed) ==> capture.grip(
            drag,
            id,
            hit,
            down,
            pressed,
        ).held is None,
{
}

/// A ramp with room in it, whose ends are numbers.
pub open spec fn roomy(rect: Rect) -> bool {
    &&& rect.x.is_finite()
    &&& rect.width.is_finite()
    &&& rect.width.val() > 0
    &&& rect.right().is_finite()
}

/// A dragged stop's handle stands at the pointer, and a new stop is asked for where the
/// pointer is: at 0 on the left end of the bar, at 1 on the right end.
pub proof fn law_stop_is_at_the_pointer(
    rect: Rect,
    stops: Seq<GradientStop>,
    held: Option<usize>,
    input: &InputState,
)
    requires
        roomy(rect),
        input.mouse_x.is_finite(),
        0 <= input.mouse_x.val() - rect.x.val() <= rect.width.val(),
    ensures
        ({
            let out = happened(rect, stops, held, input);
            &&& held is Some ==> out.dragged_pos is Some && at_pointer(rect, out.dragged_pos->0, input)
            &&& held is None ==> out.dragged_pos is None
            &&& out.insert_requested ==> at_pointer(rect, out.click_pos, input)
        }),
{
    rounding::law_zero_and_one();
    rounding::law_place_is_a_fraction(input.mouse_x, rect.x, rect.width);
    let t = input.mouse_x.minus(rect.x).over(rect.width);
    rounding::law_clamped_inside(t, whole(0), whole(1));
    rounding::law_fraction_is_the_place(input.mouse_x, rect.x, rect.width, t);
}

/// Whether the place `pos` of the ramp is where the pointer is.
pub open spec fn at_pointer(rect: Rect, pos: Scalar, input: &InputState) -> bool {
    &&& rounding::meets(rect.x.plus(pos.times(rect.width)), input.mouse_x, rect.width)
    &&& input.mouse_x.val() == rect.x.val() ==> pos.val() == 0
    &&& input.mouse_x.val() == rect.x.val() + rect.width.val() ==> pos.val() == rounding::unit()
}

/// The further right the pointer, the further along the bar, or at its end.
pub proof fn law_along_keeps_the_direction(rect: Rect, x: Scalar, right: Scalar)
    requires
        roomy(rect),
        x.le(right),
    ensures
        along(rect, x).le(along(rect, right)),
        whole(0).le(along(rect, x)),
        along(rect, x).le(whole(1)),
{
    rounding::law_zero_and_one();
    assert(whole(0).le(whole(1))) by {
        reveal(Scalar::spec_le);
    }
    rounding::law_minus_monotone(x, right, rect.x);
    let a = x.minus(rect.x);
    let b = right.minus(rect.x);
    rounding::law_over_monotone(a, b, rect.width);
    rounding::law_clamped_monotone(a.over(rect.width), b.over(rect.width), whole(0), whole(1));
}

/// Stops in order along the bar, no two at one place.
pub open spec fn in_order(stops: Seq<GradientStop>) -> bool {
    &&& forall|i: int, j: int| 0 <= i < j < stops.len() ==> stops[i].pos.lt(stops[j].pos)
    &&& forall|i: int|
        0 <= i < stops.len() ==> {
            &&& (#[trigger] stops[i]).pos.is_finite()
            &&& 0 <= stops[i].pos.val() <= rounding::unit()
        }
}

/// Whether `f` is how far `t` lies on the way from `p` to `q`, up to rounding.
pub open spec fn way(p: Scalar, q: Scalar, t: Scalar, f: Scalar) -> bool {
    &&& f.is_finite()
    &&& 0 <= f.val() <= rounding::unit()
    &&& 0x10_0000 * rounding::apart(
        f.val() * (q.val() - p.val()),
        (t.val() - p.val()) * rounding::unit(),
    ) <= (q.val() - p.val()) * rounding::unit()
}

/// Between two neighbouring stops, unless they all but touch, the color runs from the
/// one to the other: a fraction `f` of the way between them it has, up to rounding, that
/// fraction of the second color and the rest of the first.
pub proof fn law_color_runs_between_the_stops(stops: Seq<GradientStop>, i: int, t: Scalar) -> (f: Scalar)
    requires
        0 <= i,
        i + 1 < stops.len() <= usize::MAX,
        in_order(stops),
        crate::geometry::ordinary(stops[i].color),
        crate::geometry::ordinary(stops[i + 1].color),
        stops[i].pos.lt(t),
        t.lt(stops[i + 1].pos),
        0x4_0000 * (stops[i + 1].pos.val() - stops[i].pos.val()) >= rounding::unit(),
    ensures
        way(stops[i].pos, stops[i + 1].pos, t, f),
        ({
            let a = stops[i].color;
            let b = stops[i + 1].color;
            let c = color_at(stops, t);
            &&& crate::geometry::part_way(a.r, b.r, f, c.r)
            &&& crate::geometry::part_way(a.g, b.g, f, c.g)
            &&& crate::geometry::part_way(a.b, b.b, f, c.b)
            &&& crate::geometry::part_way(a.a, b.a, f, c.a)
        }),
{
    let p = stops[i].pos;
    let q = stops[i + 1].pos;
    let e = q.minus(p).at_least(ratio(1, 1_000_000));
    let f = t.minus(p).over(e);
    lemma_way(p, q, t);
    reveal(Scalar::spec_le);
    reveal(Scalar::spec_lt);
    rounding::law_zero_and_one();
    assert(t.is_finite()) by {
        rounding::law_between_is_finite(p, t, q);
    }
    rounding::law_clamped_inside(t, whole(0), whole(1));
    let hits = spans(stops, t);
    let n = (stops.len() - 1) as nat;
    crate::context::lemma_first_hit(hits, 0, n);
    assert(hits(i));
    if i > 0 {
        assert(stops[0].pos.lt(stops[i].pos));
    }
    if i + 1 < stops.len() - 1 {
        assert(stops[i + 1].pos.lt(stops.last().pos));
    }
    match crate::context::first_hit(hits, 0, n) {
        Some(j) => {
            assert(hits(j as int));
            if j < i {
                assert(stops[j + 1].pos.val() <= stops[i].pos.val()) by {
                    if j + 1 < i {
                        assert(stops[j + 1].pos.lt(stops[i].pos));
                    }
                }
            }
        },
        None => {},
    }
    crate::geometry::law_mix_is_part_of_the_way(stops[i].color, stops[i + 1].color, f);
    f
}

proof fn lemma_way(p: Scalar, q: Scalar, t: Scalar)
    requires
        p.is_finite(),
        q.is_finite(),
        0 <= p.val() <= rounding::unit(),
        0 <= q.val() <= rounding::unit(),
        p.lt(t),
        t.lt(q),
        0x4_0000 * (q.val() - p.val()) >= rounding::unit(),
    ensures
        way(p, q, t, t.minus(p).over(q.minus(p).at_least(ratio(1, 1_000_000)))),
{
    rounding::law_zero_and_one();
    rounding::law_unit_is_large();
    assert(p.le(t) && t.le(q)) by {
        reveal(Scalar::spec_le);
        reveal(Scalar::spec_lt);
    }
    rounding::law_between_is_finite(p, t, q);
    assert(p.val() < t.val() < q.val()) by {
        reveal(Scalar::spec_lt);
    }
    let u = rounding::unit();
    rounding::law_minus_finite(q, p);
    rounding::law_minus_rounds(q, p);
    rounding::law_minus_finite(t, p);
    rounding::law_minus_rounds(t, p);
    rounding::law_minus_monotone(t, q, p);
    rounding::law_minus_bounded(t, p, q);
    let bb = q.val() - p.val();
    let aa = t.val() - p.val();
    let d = q.minus(p);
    let g = t.minus(p);
    let b = d.val();
    let a = g.val();
    assert(0 <= a <= b) by {
        reveal(Scalar::spec_le);
    }
    // The stops are further apart than the least distance.
    crate::scalar::law_whole_exact(1_000_000);
    let least = ratio(1, 1_000_000);
    assert(rounding::size(u) * u <= rounding::size(u) * rounding::size(1_000_000 * u)) by (nonlinear_arith)
        requires
            u > 0,
    ;
    assert(u * (1_000_000 * u) >= 0) by (nonlinear_arith)
        requires
            u > 0,
    ;
    rounding::law_over_bounded(whole(1), whole(1_000_000), whole(1));
    rounding::law_over_whole(whole(1), 1_000_000);
    assert(d.at_least(least) == d) by {
        reveal(Scalar::spec_lt);
    }
    assert(a * u <= u * b && a * b >= 0 && 0 <= a * u && b * 0x80_0000 <= b * u) by (nonlinear_arith)
        requires
            0 <= a <= b,
            u >= 0x80_0000,
    ;
    rounding::law_over_bounded(g, d, whole(1));
    rounding::law_over_rounds(g, d);
    let f = g.over(d).val();
    let e0 = rounding::apart(b, bb);
    assert(rounding::apart(f * b, f * bb) <= u * e0) by (nonlinear_arith)
        requires
            0 <= f <= u,
            e0 == rounding::apart(b, bb),
    ;
    assert(0x100_0000 * (u * e0) <= bb * u) by (nonlinear_arith)
        requires
            0x100_0000 * e0 <= bb,
            u > 0,
    ;
    assert(0x100_0000 * rounding::apart(a * u, aa * u) <= aa * u) by (nonlinear_arith)
        requires
            0x100_0000 * rounding::apart(a, aa) <= aa,
            u > 0,
    ;
    assert(aa * u <= bb * u && b * u <= 2 * (bb * u) && u * b == b * u) by (nonlinear_arith)
        requires
            0 <= aa <= bb,
            0 <= b <= 2 * bb,
            u > 0,
    ;
}

/// A stop is taken within six pixels to either side of where it lies along the ramp,
/// above the bar.
pub proof fn law_handle_is_around_its_stop(rect: Rect, stop: GradientStop, x: int, k: int, y: int, h: int)
    requires
        rounding::in_steps(rect.x, x),
        rounding::in_steps(stop.pos.times(rect.width), k),
        rounding::in_steps(bar(rect).y, y),
        rounding::in_steps(handle_h(rect), h),
        rounding::size(x) + rounding::size(k) <= 0x80_0000,
        rounding::size(y) + rounding::size(h) <= 0x80_0000,
    ensures
        ({
            let z = handle_zone(rect, stop);
            &&& rounding::in_steps(z.x, x + k - 1536)
            &&& rounding::in_steps(z.width, 3072)
            &&& rounding::in_steps(z.height, h + 1024)
            &&& rounding::in_steps(z.y.plus(z.height), y - 512)
        }),
{
    rounding::law_whole_in_steps(6);
    rounding::law_whole_in_steps(12);
    rounding::law_whole_in_steps(4);
    rounding::law_whole_in_steps(2);
    let along = stop.pos.times(rect.width);
    rounding::law_plus_steps(rect.x, along, x, k);
    rounding::law_minus_steps(rect.x.plus(along), whole(6), x + k, 1536);
    rounding::law_plus_steps(handle_h(rect), whole(4), h, 1024);
    let tall = handle_h(rect).plus(whole(4));
    rounding::law_minus_steps(bar(rect).y, tall, y, h + 1024);
    rounding::law_minus_steps(bar(rect).y.minus(tall), whole(2), y - h - 1024, 512);
    rounding::law_plus_steps(
        bar(rect).y.minus(tall).minus(whole(2)),
        tall,
        y - h - 1536,
        h + 1024,
    );
}

} // verus!
