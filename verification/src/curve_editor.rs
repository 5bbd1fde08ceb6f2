//! Curve editors: key points on a plot, with the curve between them.
//!
//! Keys lie in the unit square, y upward, sorted by x. The editor draws them,
//! and says which key is dragged and where to, or where a click asks for a new
//! one. A dragged key never passes its neighbours.

use crate::context::{CursorIcon, DrawContext};
use crate::drag::{DragCapture, DragId};
use crate::draw_list::DrawList;
use crate::geometry::{Color, Point, Rect};
use crate::input::InputState;
use crate::material::draw_inset_shadow;
use crate::rounding;
use crate::scalar::{ratio, whole, Scalar};
use crate::style::{StyleKey, StyleResolver};
use vstd::prelude::*;

verus! {

/// What happened in an editor's frame.
#[derive(Clone, Copy, Debug, PartialEq, Eq, Structural)]
pub struct CurveOutput {
    /// The key that is being dragged.
    pub dragging: Option<usize>,
    /// Where it is dragged to.
    pub dragged: Option<Point>,
    /// Where a click on the empty plot asks for a new key.
    pub insert: Option<Point>,
}

impl Default for CurveOutput {
    fn default() -> (r: Self)
        ensures
            r == (CurveOutput { dragging: None, dragged: None, insert: None }),
    {
        CurveOutput { dragging: None, dragged: None, insert: None }
    }
}

pub open spec fn spec_to_screen(plot: Rect, p: Point) -> Point {
    Point {
        x: plot.x.plus(p.x.times(plot.width)),
        y: plot.y.plus(whole(1).minus(p.y).times(plot.height)),
    }
}

/// The point of the plot on the screen.
#[verifier::when_used_as_spec(spec_to_screen)]
pub fn to_screen(plot: Rect, p: Point) -> (r: Point)
    ensures
        r == spec_to_screen(plot, p),
{
    Point {
        x: plot.x.plus(p.x.times(plot.width)),
        y: plot.y.plus(whole(1).minus(p.y).times(plot.height)),
    }
}

pub open spec fn spec_to_plot(plot: Rect, p: Point) -> Point {
    Point {
        x: p.x.minus(plot.x).over(plot.width).clamped(whole(0), whole(1)),
        y: whole(1).minus(p.y.minus(plot.y).over(plot.height)).clamped(whole(0), whole(1)),
    }
}

/// The point of the screen in the plot.
#[verifier::when_used_as_spec(spec_to_plot)]
pub fn to_plot(plot: Rect, p: Point) -> (r: Point)
    ensures
        r == spec_to_plot(plot, p),
{
    Point {
        x: p.x.minus(plot.x).over(plot.width).clamped(whole(0), whole(1)),
        y: whole(1).minus(p.y.minus(plot.y).over(plot.height)).clamped(whole(0), whole(1)),
    }
}

/// The grid: three hairlines each way.
pub open spec fn grid_painted(
    l: crate::draw_list::DrawState,
    plot: Rect,
    color: Color,
    n: nat,
) -> crate::draw_list::DrawState
    decreases n,
{
    if n == 0 {
        l
    } else {
        let t = whole(n as u64).over(whole(4));
        grid_painted(l, plot, color, (n - 1) as nat).quad(
            Rect {
                x: plot.x.plus(t.times(plot.width)),
                y: plot.y.plus(whole(1)),
                width: whole(1),
                height: plot.height.minus(whole(2)),
            },
            color,
        ).quad(
            Rect {
                x: plot.x.plus(whole(1)),
                y: plot.y.plus(t.times(plot.height)),
                width: plot.width.minus(whole(2)),
                height: whole(1),
            },
            color,
        )
    }
}

/// The plot's surface: a sunken well with the grid.
pub open spec fn plot_painted(
    l: crate::draw_list::DrawState,
    plot: Rect,
    s: &StyleResolver,
) -> crate::draw_list::DrawState {
    grid_painted(
        crate::material::inset_shadow(
            l.chrome_rect(
                plot,
                s.scalar(StyleKey::BorderRadius),
                whole(1),
                Color::black(ratio(45, 100)),
                Color::black(ratio(7, 10)),
            ),
            s,
            plot,
            s.scalar(StyleKey::InnerShadowDepth),
            whole(1),
        ),
        plot,
        s.color(StyleKey::TextDim).with_alpha(ratio(1, 10)),
        3,
    )
}

fn paint_plot(list: &mut DrawList, plot: Rect, s: &StyleResolver)
    ensures
        final(list)@ == plot_painted(old(list)@, plot, s),
{
    list.chrome_rect(
        plot,
        s.scalar(StyleKey::BorderRadius),
        whole(1),
        Color::black(ratio(45, 100)),
        Color::black(ratio(7, 10)),
    );
    draw_inset_shadow(list, s, plot, s.scalar(StyleKey::InnerShadowDepth), whole(1));
    let color = s.color(StyleKey::TextDim).with_alpha(ratio(1, 10));
    let ghost start = list@;
    let mut i: u64 = 0;
    while i < 3
        invariant
            i <= 3,
            list@ == grid_painted(start, plot, color, i as nat),
        decreases 3 - i,
    {
        i = i + 1;
        let t = whole(i).over(whole(4));
        list.quad(
            Rect {
                x: plot.x.plus(t.times(plot.width)),
                y: plot.y.plus(whole(1)),
                width: whole(1),
                height: plot.height.minus(whole(2)),
            },
            color,
        );
        list.quad(
            Rect {
                x: plot.x.plus(whole(1)),
                y: plot.y.plus(t.times(plot.height)),
                width: plot.width.minus(whole(2)),
                height: whole(1),
            },
            color,
        );
    }
}

/// What lies under the first `n` chords, down to the bottom of the plot: two
/// triangles each, that fade downward.
pub open spec fn under_painted(
    l: crate::draw_list::DrawState,
    plot: Rect,
    keys: Seq<Point>,
    accent: Color,
    n: nat,
) -> crate::draw_list::DrawState
    decreases n,
{
    if n == 0 {
        l
    } else {
        let a = to_screen(plot, keys[n - 1]);
        let b = to_screen(plot, keys[n as int]);
        let bottom = plot.y.plus(plot.height).minus(whole(1));
        let high = accent.with_alpha(ratio(3, 10));
        let low = accent.with_alpha(ratio(5, 100));
        under_painted(l, plot, keys, accent, (n - 1) as nat).triangle(
            a,
            b,
            Point { x: a.x, y: bottom },
            high,
            high,
            low,
        ).triangle(b, Point { x: b.x, y: bottom }, Point { x: a.x, y: bottom }, high, low, low)
    }
}

/// The first `n` chords.
pub open spec fn chords_painted(
    l: crate::draw_list::DrawState,
    plot: Rect,
    keys: Seq<Point>,
    accent: Color,
    n: nat,
) -> crate::draw_list::DrawState
    decreases n,
{
    if n == 0 {
        l
    } else {
        chords_painted(l, plot, keys, accent, (n - 1) as nat).line(
            to_screen(plot, keys[n - 1]),
            to_screen(plot, keys[n as int]),
            ratio(16, 10),
            accent,
        )
    }
}

/// The curve: what lies under it and its chords; with a single key, a level
/// line through it.
pub open spec fn curve_painted(
    l: crate::draw_list::DrawState,
    plot: Rect,
    keys: Seq<Point>,
    s: &StyleResolver,
) -> crate::draw_list::DrawState {
    let accent = s.color(StyleKey::Accent);
    if keys.len() >= 2 {
        let n = (keys.len() - 1) as nat;
        chords_painted(under_painted(l, plot, keys, accent, n), plot, keys, accent, n)
    } else if keys.len() == 1 {
        let p = to_screen(plot, keys[0]);
        l.line(
            Point { x: plot.x.plus(whole(1)), y: p.y },
            Point { x: plot.right().minus(whole(1)), y: p.y },
            ratio(16, 10),
            accent,
        )
    } else {
        l
    }
}

fn paint_curve(list: &mut DrawList, plot: Rect, keys: &[Point], s: &StyleResolver)
    ensures
        final(list)@ == curve_painted(old(list)@, plot, keys@, s),
{
    let accent = s.color(StyleKey::Accent);
    let n: usize = keys.len();
    if n >= 2 {
        let bottom = plot.y.plus(plot.height).minus(whole(1));
        let high = accent.with_alpha(ratio(3, 10));
        let low = accent.with_alpha(ratio(5, 100));
        let ghost start = list@;
        let mut i: usize = 0;
        while i < n - 1
            invariant
                n == keys@.len(),
                i < n,
                bottom == plot.y.plus(plot.height).minus(whole(1)),
                high == accent.with_alpha(ratio(3, 10)),
                low == accent.with_alpha(ratio(5, 100)),
                list@ == under_painted(start, plot, keys@, accent, i as nat),
            decreases n - i,
        {
            let a = to_screen(plot, keys[i]);
            let b = to_screen(plot, keys[i + 1]);
            list.triangle_gradient(a, b, Point { x: a.x, y: bottom }, high, high, low);
            list.triangle_gradient(
                b,
                Point { x: b.x, y: bottom },
                Point { x: a.x, y: bottom },
                high,
                low,
                low,
            );
            i = i + 1;
        }
        let ghost filled = list@;
        let mut j: usize = 0;
        while j < n - 1
            invariant
                n == keys@.len(),
                j < n,
                list@ == chords_painted(filled, plot, keys@, accent, j as nat),
            decreases n - j,
        {
            list.line(
                to_screen(plot, keys[j]),
                to_screen(plot, keys[j + 1]),
                ratio(16, 10),
                accent,
            );
            j = j + 1;
        }
    } else if n == 1 {
        let p = to_screen(plot, keys[0]);
        list.line(
            Point { x: plot.x.plus(whole(1)), y: p.y },
            Point { x: plot.right().minus(whole(1)), y: p.y },
            ratio(16, 10),
            accent,
        );
    }
}

pub open spec fn spec_near(plot: Rect, key: Point, input: &InputState) -> bool {
    let p = to_screen(plot, key);
    &&& p.x.minus(whole(7)).le(input.mouse_x)
    &&& input.mouse_x.le(p.x.plus(whole(7)))
    &&& p.y.minus(whole(7)).le(input.mouse_y)
    &&& input.mouse_y.le(p.y.plus(whole(7)))
    &&& !input.mouse_consumed
}

/// Whether the pointer is on a key.
#[verifier::when_used_as_spec(spec_near)]
pub fn near(plot: Rect, key: Point, input: &InputState) -> (r: bool)
    ensures
        r == spec_near(plot, key, input),
{
    let p = to_screen(plot, key);
    p.x.minus(whole(7)).le(input.mouse_x) && input.mouse_x.le(p.x.plus(whole(7))) && p.y.minus(
        whole(7),
    ).le(input.mouse_y) && input.mouse_y.le(p.y.plus(whole(7))) && !input.mouse_consumed
}

/// The keys that the pointer is on.
pub open spec fn nears(plot: Rect, keys: Seq<Point>, input: &InputState) -> spec_fn(int) -> bool {
    |i: int| near(plot, keys[i], input)
}

/// The key that the pointer is on: the first of them.
pub open spec fn key_hit(plot: Rect, keys: Seq<Point>, input: &InputState) -> Option<usize> {
    crate::context::first_hit(nears(plot, keys, input), 0, keys.len())
}

fn find_key(plot: Rect, keys: &[Point], input: &InputState) -> (r: Option<usize>)
    ensures
        r == key_hit(plot, keys@, input),
        r matches Some(i) ==> i < keys@.len(),
{
    let n: usize = keys.len();
    let mut i: usize = 0;
    while i < n
        invariant
            i <= n,
            n == keys@.len(),
            key_hit(plot, keys@, input) == crate::context::first_hit(
                nears(plot, keys@, input),
                i as nat,
                n as nat,
            ),
        decreases n - i,
    {
        if near(plot, keys[i], input) {
            return Some(i);
        }
        i = i + 1;
    }
    None
}

/// A key: a shadow, a disc that is larger and brighter while the key is active,
/// and its rim.
#[verifier::opaque]
pub open spec fn key_painted(
    l: crate::draw_list::DrawState,
    p: Point,
    active: bool,
    hovered: bool,
    s: &StyleResolver,
) -> crate::draw_list::DrawState {
    let r = if active {
        ratio(9, 2)
    } else {
        ratio(7, 2)
    };
    l.drop_shadow(
        Rect {
            x: p.x.minus(r),
            y: p.y.minus(r),
            width: whole(2).times(r),
            height: whole(2).times(r),
        },
        whole(1),
        ratio(3, 2),
        r,
        Color::black(ratio(6, 10)),
    ).circle(
        p,
        r,
        s.color(
            if active {
                StyleKey::TextHighlight
            } else if hovered {
                StyleKey::Text
            } else {
                StyleKey::Accent
            },
        ),
    ).circle_outline(p, r, whole(1), Color::black(ratio(65, 100)))
}

fn paint_key(list: &mut DrawList, p: Point, active: bool, hovered: bool, s: &StyleResolver)
    ensures
        final(list)@ == key_painted(old(list)@, p, active, hovered, s),
{
    proof {
        reveal(key_painted);
    }
    let r = if active {
        ratio(9, 2)
    } else {
        ratio(7, 2)
    };
    list.drop_shadow(
        Rect {
            x: p.x.minus(r),
            y: p.y.minus(r),
            width: whole(2).times(r),
            height: whole(2).times(r),
        },
        whole(1),
        ratio(3, 2),
        r,
        Color::black(ratio(6, 10)),
    );
    let color = s.color(
        if active {
            StyleKey::TextHighlight
        } else if hovered {
            StyleKey::Text
        } else {
            StyleKey::Accent
        },
    );
    list.circle(p, r, color);
    list.circle_outline(p, r, whole(1), Color::black(ratio(65, 100)));
}

/// The handle held while handle `i` is drawn: one taken in this frame is held
/// from the next handle on.
pub open spec fn spec_held_at(
    held: Option<usize>,
    hit: Option<usize>,
    taken: bool,
    i: usize,
) -> Option<usize> {
    match hit {
        Some(h) => if taken && h < i {
            hit
        } else {
            held
        },
        None => held,
    }
}

/// The handle held while handle `i` is drawn.
#[verifier::when_used_as_spec(spec_held_at)]
pub fn held_at(held: Option<usize>, hit: Option<usize>, taken: bool, i: usize) -> (r: Option<usize>)
    ensures
        r == spec_held_at(held, hit, taken, i),
{
    match hit {
        Some(h) => if taken && h < i {
            hit
        } else {
            held
        },
        None => held,
    }
}

/// The first `n` keys.
pub open spec fn keys_painted(
    l: crate::draw_list::DrawState,
    plot: Rect,
    keys: Seq<Point>,
    selected: usize,
    held: Option<usize>,
    hit: Option<usize>,
    taken: bool,
    s: &StyleResolver,
    n: nat,
) -> crate::draw_list::DrawState
    decreases n,
{
    if n == 0 {
        l
    } else {
        let i = (n - 1) as usize;
        key_painted(
            keys_painted(l, plot, keys, selected, held, hit, taken, s, i as nat),
            to_screen(plot, keys[i as int]),
            i == selected || held_at(held, hit, taken, i) == Some(i),
            hit == Some(i),
            s,
        )
    }
}

fn paint_keys(
    list: &mut DrawList,
    plot: Rect,
    keys: &[Point],
    selected: usize,
    held: Option<usize>,
    hit: Option<usize>,
    taken: bool,
    s: &StyleResolver,
)
    ensures
        final(list)@ == keys_painted(
            old(list)@,
            plot,
            keys@,
            selected,
            held,
            hit,
            taken,
            s,
            keys@.len(),
        ),
{
    let n: usize = keys.len();
    let mut i: usize = 0;
    while i < n
        invariant
            i <= n,
            n == keys@.len(),
            list@ == keys_painted(
                old(list)@,
                plot,
                keys@,
                selected,
                held,
                hit,
                taken,
                s,
                i as nat,
            ),
        decreases n - i,
    {
        let active = i == selected || held_at(held, hit, taken, i) == Some(i);
        paint_key(list, to_screen(plot, keys[i]), active, hit == Some(i), s);
        i = i + 1;
    }
}

/// The keys are sorted and lie in the unit interval.
pub open spec fn sorted(keys: Seq<Point>) -> bool {
    &&& forall|i: int, j: int| 0 <= i < j < keys.len() ==> keys[i].x.le(keys[j].x)
    &&& forall|i: int|
        0 <= i < keys.len() ==> whole(0).le(#[trigger] keys[i].x) && keys[i].x.le(whole(1))
}

/// The least x that key `i` may take: its left neighbour's.
pub open spec fn low(keys: Seq<Point>, i: usize) -> Scalar {
    if i > 0 {
        keys[i - 1].x
    } else {
        whole(0)
    }
}

/// The greatest x that key `i` may take: its right neighbour's.
pub open spec fn high(keys: Seq<Point>, i: usize) -> Scalar {
    if i + 1 < keys.len() {
        keys[i + 1].x
    } else {
        whole(1)
    }
}

/// Whether key `i` can be dragged: its neighbours are there, and in order.
pub open spec fn can_drag(keys: Seq<Point>, i: usize) -> bool {
    i <= keys.len() && low(keys, i).le(high(keys, i))
}

/// Where key `i` is dragged to.
pub open spec fn dragged_to(plot: Rect, keys: Seq<Point>, i: usize, input: &InputState) -> Point {
    let p = to_plot(plot, Point { x: input.mouse_x, y: input.mouse_y });
    Point { x: p.x.clamped(low(keys, i), high(keys, i)), y: p.y }
}

/// What happened.
pub open spec fn happened(
    plot: Rect,
    keys: Seq<Point>,
    held: Option<usize>,
    input: &InputState,
) -> CurveOutput {
    CurveOutput {
        dragging: held,
        dragged: match held {
            Some(i) => Some(dragged_to(plot, keys, i, input)),
            None => None,
        },
        insert: if key_hit(plot, keys, input) is None && input.mouse_clicked && input.over(plot) {
            Some(to_plot(plot, Point { x: input.mouse_x, y: input.mouse_y }))
        } else {
            None
        },
    }
}

/// What the editor paints.
pub open spec fn painted(
    l: crate::draw_list::DrawState,
    plot: Rect,
    keys: Seq<Point>,
    selected: usize,
    held: Option<usize>,
    taken: bool,
    s: &StyleResolver,
    input: &InputState,
) -> crate::draw_list::DrawState {
    let reach = Rect {
        x: plot.x.minus(whole(6)),
        y: plot.y.minus(whole(6)),
        width: plot.width.plus(whole(12)),
        height: plot.height.plus(whole(12)),
    };
    keys_painted(
        curve_painted(plot_painted(l.scoped("CurveEditor"@, reach), plot, s), plot, keys, s),
        plot,
        keys,
        selected,
        held,
        key_hit(plot, keys, input),
        taken,
        s,
        keys.len(),
    ).scope_closed()
}

/// Draw the editor over `plot` with key `selected` marked. `drag` is the key held
/// since an earlier frame, under the drag identity `id`; it is one of the keys, and
/// sorted keys can all be dragged.
pub fn draw(
    plot: Rect,
    keys: &[Point],
    selected: usize,
    drag: &mut Option<usize>,
    capture: &mut DragCapture,
    id: DragId,
    ctx: &mut DrawContext,
) -> (out: CurveOutput)
    requires
        old(capture).grip(
            *old(drag),
            id,
            key_hit(plot, keys@, &old(ctx).frame.input),
            old(ctx).frame.input.mouse_down,
            old(ctx).frame.input.mouse_clicked,
        ).held matches Some(i) ==> can_drag(keys@, i),
    ensures
        ({
            let input = old(ctx).frame.input;
            let hit = key_hit(plot, keys@, &input);
            let g = old(capture).grip(
                *old(drag),
                id,
                hit,
                input.mouse_down,
                input.mouse_clicked,
            );
            &&& *final(capture) == old(capture).driven(
                id,
                input.mouse_down,
                hit is Some && input.mouse_clicked,
            )
            &&& *final(drag) == g.held
            &&& out == happened(plot, keys@, g.held, &input)
            &&& final(ctx)@ == (crate::context::Scene {
                list: painted(
                    old(ctx)@.list,
                    plot,
                    keys@,
                    selected,
                    DragCapture::held_over(*old(drag), input.mouse_down),
                    g.taken,
                    &old(ctx).frame.styles,
                    &input,
                ),
                ..old(ctx)@.pointed(input.over(plot), CursorIcon::Grab)
            })
        }),
        final(ctx).frame == old(ctx).frame,
{
    let reach = Rect {
        x: plot.x.minus(whole(6)),
        y: plot.y.minus(whole(6)),
        width: plot.width.plus(whole(12)),
        height: plot.height.plus(whole(12)),
    };
    ctx.draw_list.push_debug_scope_rect("CurveEditor", reach);
    paint_plot(&mut ctx.draw_list, plot, &ctx.frame.styles);
    paint_curve(&mut ctx.draw_list, plot, keys, &ctx.frame.styles);
    let down = ctx.frame.input.mouse_down;
    let clicked = ctx.frame.input.mouse_clicked;
    let mouse = Point { x: ctx.frame.input.mouse_x, y: ctx.frame.input.mouse_y };
    let hit = find_key(plot, keys, &ctx.frame.input);
    let held = if down {
        *drag
    } else {
        None
    };
    let taken = capture.drive_handles(drag, id, hit, down, clicked);
    let mut out = CurveOutput { dragging: None, dragged: None, insert: None };
    let over = ctx.frame.input.over(plot);
    if hit.is_none() && clicked && over {
        out.insert = Some(to_plot(plot, mouse));
    }
    paint_keys(&mut ctx.draw_list, plot, keys, selected, held, hit, taken, &ctx.frame.styles);
    match *drag {
        Some(i) => {
            let p = to_plot(plot, mouse);
            let lo = if i > 0 {
                keys[i - 1].x
            } else {
                whole(0)
            };
            let hi = if i < keys.len() && i + 1 < keys.len() {
                keys[i + 1].x
            } else {
                whole(1)
            };
            out.dragging = Some(i);
            out.dragged = Some(Point { x: p.x.clamped(lo, hi), y: p.y });
        },
        None => {},
    }
    if over {
        ctx.request_cursor(CursorIcon::Grab);
    }
    ctx.draw_list.pop_debug_scope();
    out
}

/// Every one of a sorted list of keys can be dragged.
pub proof fn law_sorted_keys_can_be_dragged(keys: Seq<Point>, i: usize)
    requires
        sorted(keys),
        i < keys.len() <= usize::MAX,
    ensures
        can_drag(keys, i),
{
    reveal(Scalar::spec_le);
    if i > 0 {
        assert(whole(0).le(keys[i - 1].x) && keys[i - 1].x.le(whole(1)));
    }
    if i + 1 < keys.len() {
        assert(whole(0).le(keys[i + 1].x));
        if i > 0 {
            assert(keys[i - 1].x.le(keys[i + 1].x));
        }
    }
    assert(whole(0).le(keys[i as int].x) && keys[i as int].x.le(whole(1)));
}

/// A dragged key stays between its neighbours.
pub proof fn law_drag_keeps_the_order(plot: Rect, keys: Seq<Point>, i: usize, input: &InputState)
    requires
        can_drag(keys, i),
        !to_plot(plot, Point { x: input.mouse_x, y: input.mouse_y }).x.is_nan(),
    ensures
        low(keys, i).le(dragged_to(plot, keys, i, input).x),
        dragged_to(plot, keys, i, input).x.le(high(keys, i)),
{
    reveal(Scalar::spec_le);
    reveal(Scalar::spec_lt);
}

/// A click asks for a new key on the empty plot alone, never on a key, and never
/// where another surface took the pointer.
pub proof fn law_insert_is_on_the_empty_plot(
    plot: Rect,
    keys: Seq<Point>,
    held: Option<usize>,
    input: &InputState,
    i: int,
)
    requires
        happened(plot, keys, held, input).insert is Some,
        0 <= i < keys.len() <= usize::MAX,
    ensures
        !near(plot, keys[i], input),
        input.over(plot),
{
    crate::context::lemma_first_hit(nears(plot, keys, input), 0, keys.len());
    assert(!nears(plot, keys, input)(i));
}

/// A plot with room in it, all of whose edges are numbers.
pub open spec fn roomy(plot: Rect) -> bool {
    &&& plot.x.is_finite() && plot.y.is_finite()
    &&& plot.width.is_finite() && plot.height.is_finite()
    &&& plot.width.val() > 0 && plot.height.val() > 0
    &&& plot.right().is_finite() && plot.bottom().is_finite()
}

/// Whether a point of the screen lies on the plot or its edges.
pub open spec fn on_plot(plot: Rect, p: Point) -> bool {
    &&& p.x.is_finite() && p.y.is_finite()
    &&& 0 <= p.x.val() - plot.x.val() <= plot.width.val()
    &&& 0 <= p.y.val() - plot.y.val() <= plot.height.val()
}

/// A point of the screen goes to the plot and back to the screen where it was, up to
/// rounding.
pub proof fn law_to_screen_undoes_to_plot(plot: Rect, p: Point)
    requires
        roomy(plot),
        on_plot(plot, p),
    ensures
        rounding::meets(to_screen(plot, to_plot(plot, p)).x, p.x, plot.width),
        rounding::meets(to_screen(plot, to_plot(plot, p)).y, p.y, plot.height),
{
    rounding::law_zero_and_one();
    rounding::law_place_is_a_fraction(p.x, plot.x, plot.width);
    rounding::law_place_is_a_fraction(p.y, plot.y, plot.height);
    let t = p.x.minus(plot.x).over(plot.width);
    let r = p.y.minus(plot.y).over(plot.height);
    rounding::law_clamped_inside(t, whole(0), whole(1));
    rounding::law_fraction_is_the_place(p.x, plot.x, plot.width, t);
    rounding::law_rest_of_a_fraction(r);
    let v = whole(1).minus(r);
    rounding::law_clamped_inside(v, whole(0), whole(1));
    rounding::law_fraction_is_the_place(p.y, plot.y, plot.height, whole(1).minus(v));
}

/// The bottom left corner of the screen's plot is the origin, the top right one is
/// (1, 1).
pub proof fn law_corners_of_the_plot(plot: Rect, p: Point)
    requires
        roomy(plot),
        on_plot(plot, p),
    ensures
        p.x.val() == plot.x.val() ==> to_plot(plot, p).x.val() == 0,
        p.x.val() == plot.x.val() + plot.width.val() ==> to_plot(plot, p).x.val() == rounding::unit(),
        p.y.val() == plot.y.val() ==> to_plot(plot, p).y.val() == rounding::unit(),
        p.y.val() == plot.y.val() + plot.height.val() ==> to_plot(plot, p).y.val() == 0,
{
    rounding::law_zero_and_one();
    rounding::law_place_is_a_fraction(p.x, plot.x, plot.width);
    rounding::law_place_is_a_fraction(p.y, plot.y, plot.height);
    let t = p.x.minus(plot.x).over(plot.width);
    let r = p.y.minus(plot.y).over(plot.height);
    rounding::law_clamped_inside(t, whole(0), whole(1));
    rounding::law_rest_of_a_fraction(r);
    rounding::law_clamped_inside(whole(1).minus(r), whole(0), whole(1));
}

/// Further right on the screen is never further left in the plot, further down never
/// further up, on the plot or beside it; and all of it lies in the unit square.
pub proof fn law_plot_keeps_the_directions(plot: Rect, p: Point, q: Point)
    requires
        roomy(plot),
    ensures
        p.x.le(q.x) ==> to_plot(plot, p).x.le(to_plot(plot, q).x),
        p.y.le(q.y) ==> to_plot(plot, q).y.le(to_plot(plot, p).y),
        p.x.le(p.x) ==> whole(0).le(to_plot(plot, p).x) && to_plot(plot, p).x.le(whole(1)),
        p.y.le(p.y) ==> whole(0).le(to_plot(plot, p).y) && to_plot(plot, p).y.le(whole(1)),
{
    rounding::law_zero_and_one();
    assert(whole(0).le(whole(1))) by {
        reveal(Scalar::spec_le);
    }
    if p.x.le(q.x) {
        lemma_across(plot, p, q);
    }
    if p.x.le(p.x) {
        lemma_across(plot, p, p);
    }
    if p.y.le(q.y) {
        lemma_down(plot, p, q);
    }
    if p.y.le(p.y) {
        lemma_down(plot, p, p);
    }
}

proof fn lemma_across(plot: Rect, p: Point, q: Point)
    requires
        roomy(plot),
        p.x.le(q.x),
        whole(0).le(whole(1)),
    ensures
        to_plot(plot, p).x.le(to_plot(plot, q).x),
        whole(0).le(to_plot(plot, p).x),
        to_plot(plot, p).x.le(whole(1)),
{
    rounding::law_minus_monotone(p.x, q.x, plot.x);
    rounding::law_over_monotone(p.x.minus(plot.x), q.x.minus(plot.x), plot.width);
    rounding::law_clamped_monotone(
        p.x.minus(plot.x).over(plot.width),
        q.x.minus(plot.x).over(plot.width),
        whole(0),
        whole(1),
    );
}

proof fn lemma_down(plot: Rect, p: Point, q: Point)
    requires
        roomy(plot),
        p.y.le(q.y),
        whole(0).le(whole(1)),
    ensures
        to_plot(plot, q).y.le(to_plot(plot, p).y),
        whole(0).le(to_plot(plot, p).y),
        to_plot(plot, p).y.le(whole(1)),
{
    rounding::law_zero_and_one();
    rounding::law_minus_monotone(p.y, q.y, plot.y);
    rounding::law_over_monotone(p.y.minus(plot.y), q.y.minus(plot.y), plot.height);
    let a = p.y.minus(plot.y).over(plot.height);
    let b = q.y.minus(plot.y).over(plot.height);
    rounding::law_minus_antitone(a, b, whole(1));
    rounding::law_clamped_monotone(whole(1).minus(b), whole(1).minus(a), whole(0), whole(1));
    assert(whole(1).minus(a).le(whole(1).minus(a))) by {
        reveal(Scalar::spec_le);
    }
    rounding::law_clamped_monotone(whole(1).minus(a), whole(1).minus(a), whole(0), whole(1));
}

/// A dragged key shows at the pointer's height, and under the pointer where its
/// neighbours let it.
pub proof fn law_dragged_key_is_at_the_pointer(plot: Rect, keys: Seq<Point>, i: usize, input: &InputState)
    requires
        roomy(plot),
        on_plot(plot, Point { x: input.mouse_x, y: input.mouse_y }),
    ensures
        happened(plot, keys, Some(i), input).dragged is Some,
        ({
            let key = happened(plot, keys, Some(i), input).dragged->0;
            &&& rounding::meets(to_screen(plot, key).y, input.mouse_y, plot.height)
            &&& low(keys, i).lt(key.x) && key.x.lt(high(keys, i)) ==> rounding::meets(
                to_screen(plot, key).x,
                input.mouse_x,
                plot.width,
            )
        }),
{
    reveal(Scalar::spec_lt);
    law_to_screen_undoes_to_plot(plot, Point { x: input.mouse_x, y: input.mouse_y });
}

/// A click on the empty plot asks for a key that shows under the pointer, and does so
/// whenever it hits no key.
pub proof fn law_inserted_key_is_at_the_pointer(
    plot: Rect,
    keys: Seq<Point>,
    held: Option<usize>,
    input: &InputState,
)
    requires
        roomy(plot),
        on_plot(plot, Point { x: input.mouse_x, y: input.mouse_y }),
        keys.len() <= usize::MAX,
        input.mouse_clicked,
        input.over(plot),
        forall|i: int| 0 <= i < keys.len() ==> !near(plot, #[trigger] keys[i], input),
    ensures
        happened(plot, keys, held, input).insert matches Some(key) && rounding::meets(
            to_screen(plot, key).x,
            input.mouse_x,
            plot.width,
        ) && rounding::meets(to_screen(plot, key).y, input.mouse_y, plot.height),
{
    crate::context::lemma_first_hit(nears(plot, keys, input), 0, keys.len());
    match key_hit(plot, keys, input) {
        Some(i) => {
            assert(nears(plot, keys, input)(i as int));
        },
        None => {},
    }
    law_to_screen_undoes_to_plot(plot, Point { x: input.mouse_x, y: input.mouse_y });
}

/// A pointer at the place where a key shows is on the key; one that is further than
/// seven pixels away from it, either way and up to rounding, is not.
pub proof fn law_grip_is_around_the_key(plot: Rect, key: Point, input: &InputState)
    requires
        !input.mouse_consumed,
        input.mouse_x.is_finite(),
        input.mouse_y.is_finite(),
        within_reach(to_screen(plot, key).x),
        within_reach(to_screen(plot, key).y),
    ensures
        input.mouse_x.val() == to_screen(plot, key).x.val() && input.mouse_y.val() == to_screen(
            plot,
            key,
        ).y.val() ==> near(plot, key, input),
        near(plot, key, input) ==> 0x80_0000 * rounding::apart(
            input.mouse_x.val(),
            to_screen(plot, key).x.val(),
        ) <= 0x80_0000 * (7 * rounding::unit()) + 7 * rounding::unit() + rounding::size(to_screen(plot, key).x.val()),
        near(plot, key, input) ==> 0x80_0000 * rounding::apart(
            input.mouse_y.val(),
            to_screen(plot, key).y.val(),
        ) <= 0x80_0000 * (7 * rounding::unit()) + 7 * rounding::unit() + rounding::size(to_screen(plot, key).y.val()),
{
    lemma_reach(to_screen(plot, key).x, input.mouse_x);
    lemma_reach(to_screen(plot, key).y, input.mouse_y);
}

/// A number with seven pixels of room on either side.
pub open spec fn within_reach(p: Scalar) -> bool {
    p.is_finite() && p.plus(whole(7)).is_finite() && p.minus(whole(7)).is_finite()
}

/// How far seven pixels reach.
proof fn lemma_reach(p: Scalar, m: Scalar)
    requires
        within_reach(p),
        m.is_finite(),
    ensures
        p.val() == m.val() ==> p.minus(whole(7)).le(m) && m.le(p.plus(whole(7))),
        p.minus(whole(7)).le(m) && m.le(p.plus(whole(7))) ==> 0x80_0000 * rounding::apart(m.val(), p.val())
            <= 0x80_0000 * (7 * rounding::unit()) + 7 * rounding::unit() + rounding::size(p.val()),
{
    reveal(Scalar::spec_le);
    rounding::law_zero_and_one();
    crate::scalar::law_whole_exact(7);
    rounding::law_negate_exact(whole(7));
    assert(7 * vstd::arithmetic::power2::pow2(149) == 7 * rounding::unit());
    crate::scalar::law_plus_grows(p, whole(7));
    // Taking seven away never makes a number larger.
    let zero = whole(0).negate();
    rounding::law_negate_exact(whole(0));
    crate::scalar::law_plus_exact(p, zero, p);
    crate::scalar::law_plus_commutes(p, zero);
    crate::scalar::law_plus_commutes(p, whole(7).negate());
    rounding::law_plus_monotone(whole(7).negate(), zero, p);
    rounding::law_plus_rounds(p, whole(7));
    rounding::law_minus_rounds(p, whole(7));
}

} // verus!
