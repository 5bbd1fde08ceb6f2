//! Document tabs: the strip of tabs over an editor's sheet.
//!
//! The active tab is flush with the sheet below, the others stop short of it.
//! Unsaved changes show as a dot; hovering a tab puts a close key in its place.

use crate::context::{label_at, vcentered, DrawContext, Label};
use crate::draw_list::DrawList;
use crate::geometry::{Color, Point, Rect};
use crate::input::InputState;
use crate::material::sheen_over;
use crate::rounding;
use crate::scalar::{ratio, whole, Scalar};
use crate::style::{StyleKey, StyleResolver};
use vstd::prelude::*;

verus! {

/// A document's tab.
#[derive(Debug)]
pub struct DocTab {
    /// Label.
    pub label: String,
    /// It has unsaved changes.
    pub dirty: bool,
}

/// What happened in the strip's frame.
#[derive(Clone, Copy, Debug, PartialEq, Eq, Structural)]
pub struct DocTabsOutput {
    /// The tab that was activated.
    pub activated: Option<usize>,
    /// The tab whose close key was clicked.
    pub closed: Option<usize>,
}

impl Default for DocTabsOutput {
    fn default() -> (r: Self)
        ensures
            r == (DocTabsOutput { activated: None, closed: None }),
    {
        DocTabsOutput { activated: None, closed: None }
    }
}

pub open spec fn spec_face(rect: Rect, n: usize, active: bool, i: usize) -> Rect {
    let width = rect.width.over(whole(n as u64));
    Rect {
        x: rect.x.plus(whole(i as u64).times(width)),
        y: rect.y,
        width,
        height: rect.height.minus(
            if active {
                whole(0)
            } else {
                whole(2)
            },
        ),
    }
}

/// Where tab `i` of `n` lies: the tabs share the strip evenly.
#[verifier::when_used_as_spec(spec_face)]
pub fn face(rect: Rect, n: usize, active: bool, i: usize) -> (r: Rect)
    ensures
        r == spec_face(rect, n, active, i),
{
    let width = rect.width.over(whole(n as u64));
    Rect {
        x: rect.x.plus(whole(i as u64).times(width)),
        y: rect.y,
        width,
        height: rect.height.minus(
            if active {
                whole(0)
            } else {
                whole(2)
            },
        ),
    }
}

pub open spec fn spec_slot(rect: Rect, face: Rect) -> Rect {
    Rect {
        x: face.x.plus(face.width).minus(whole(13)),
        y: rect.y.plus(rect.height.minus(whole(11)).times(ratio(1, 2))),
        width: whole(11),
        height: whole(11),
    }
}

/// Where a tab's dot or close key lies.
#[verifier::when_used_as_spec(spec_slot)]
pub fn slot(rect: Rect, face: Rect) -> (r: Rect)
    ensures
        r == spec_slot(rect, face),
{
    Rect {
        x: face.x.plus(face.width).minus(whole(13)),
        y: rect.y.plus(rect.height.minus(whole(11)).times(ratio(1, 2))),
        width: whole(11),
        height: whole(11),
    }
}

/// A tab's face, its light line where it is active, and its label.
#[verifier::opaque]
pub open spec fn face_painted(
    l: crate::draw_list::DrawState,
    face: Rect,
    text: Seq<char>,
    label: Label,
    active: bool,
    hovered: bool,
    s: &StyleResolver,
) -> crate::draw_list::DrawState {
    let font_size = s.scalar(StyleKey::FontSize).times(ratio(9, 10));
    let base = s.color(
        if active {
            StyleKey::TabActive
        } else if hovered {
            StyleKey::TabHover
        } else {
            StyleKey::TabInactive
        },
    );
    let l = l.chrome_rect_gradient(
        face,
        s.scalar(StyleKey::BorderRadius),
        whole(1),
        sheen_over(
            base,
            s.color(
                if active {
                    StyleKey::FaceTopHover
                } else {
                    StyleKey::FaceTop
                },
            ),
        ),
        sheen_over(base, s.color(StyleKey::FaceBottom)),
        Color::black(
            if active {
                ratio(55, 100)
            } else {
                ratio(35, 100)
            },
        ),
    );
    let l = if active {
        l.quad(
            Rect {
                x: face.x.plus(whole(1)),
                y: face.y.plus(whole(1)),
                width: face.width.minus(whole(2)).at_least(whole(0)),
                height: whole(1),
            },
            s.color(StyleKey::EdgeHighlight),
        )
    } else {
        l
    };
    l.written_to(
        text,
        Point {
            x: face.x.plus(face.width.minus(label.width).times(ratio(1, 2))),
            y: vcentered(face.y, face.height, font_size, label.center),
        },
        font_size,
        s.color(
            if active {
                StyleKey::TextHighlight
            } else if hovered {
                StyleKey::Text
            } else {
                StyleKey::TextDim
            },
        ),
        s.font,
        face.width.minus(whole(18)).at_least(whole(12)),
    )
}

fn paint_face(
    list: &mut DrawList,
    face: Rect,
    text: &str,
    label: Label,
    active: bool,
    hovered: bool,
    s: &StyleResolver,
)
    ensures
        final(list)@ == face_painted(old(list)@, face, text@, label, active, hovered, s),
{
    proof {
        reveal(face_painted);
    }
    let font_size = s.scalar(StyleKey::FontSize).times(ratio(9, 10));
    let base = s.color(
        if active {
            StyleKey::TabActive
        } else if hovered {
            StyleKey::TabHover
        } else {
            StyleKey::TabInactive
        },
    );
    let sheen = s.color(
        if active {
            StyleKey::FaceTopHover
        } else {
            StyleKey::FaceTop
        },
    );
    let edge = if active {
        ratio(55, 100)
    } else {
        ratio(35, 100)
    };
    list.chrome_rect_gradient(
        face,
        s.scalar(StyleKey::BorderRadius),
        whole(1),
        sheen_over(base, sheen),
        sheen_over(base, s.color(StyleKey::FaceBottom)),
        Color::black(edge),
    );
    if active {
        list.quad(
            Rect {
                x: face.x.plus(whole(1)),
                y: face.y.plus(whole(1)),
                width: face.width.minus(whole(2)).at_least(whole(0)),
                height: whole(1),
            },
            s.color(StyleKey::EdgeHighlight),
        );
    }
    let color = s.color(
        if active {
            StyleKey::TextHighlight
        } else if hovered {
            StyleKey::Text
        } else {
            StyleKey::TextDim
        },
    );
    list.write_to(
        text,
        Point {
            x: face.x.plus(face.width.minus(label.width).times(ratio(1, 2))),
            y: vcentered(face.y, face.height, font_size, label.center),
        },
        font_size,
        color,
        s.font,
        face.width.minus(whole(18)).at_least(whole(12)),
    );
}

/// What stands at the right of a tab: the close key while the tab is hovered, else
/// a dot where there are unsaved changes.
#[verifier::opaque]
pub open spec fn slot_painted(
    l: crate::draw_list::DrawState,
    slot: Rect,
    dirty: bool,
    hovered: bool,
    on_key: bool,
    cross: Scalar,
    s: &StyleResolver,
) -> crate::draw_list::DrawState {
    if hovered {
        let l = if on_key {
            l.quad(slot, Color::white(ratio(9, 100)))
        } else {
            l
        };
        l.written(
            "✕"@,
            Point {
                x: slot.x.plus(whole(1)),
                y: vcentered(slot.y, slot.height, whole(10), cross),
            },
            whole(10),
            s.color(StyleKey::TextDim),
            s.font,
        )
    } else if dirty {
        l.chrome_rect(
            Rect {
                x: slot.x.plus(whole(3)),
                y: slot.y.plus(whole(3)),
                width: whole(5),
                height: whole(5),
            },
            whole(3),
            whole(0),
            s.color(StyleKey::Accent),
            Color::clear(),
        )
    } else {
        l
    }
}

fn paint_slot(
    list: &mut DrawList,
    slot: Rect,
    dirty: bool,
    hovered: bool,
    on_key: bool,
    cross: Scalar,
    s: &StyleResolver,
)
    ensures
        final(list)@ == slot_painted(
            old(list)@,
            slot,
            dirty,
            hovered,
            on_key,
            cross,
            s,
        ),
{
    proof {
        reveal(slot_painted);
    }
    if hovered {
        if on_key {
            list.quad(slot, Color::white(ratio(9, 100)));
        }
        list.write(
            "✕",
            Point {
                x: slot.x.plus(whole(1)),
                y: vcentered(slot.y, slot.height, whole(10), cross),
            },
            whole(10),
            s.color(StyleKey::TextDim),
            s.font,
        );
    } else if dirty {
        list.chrome_rect(
            Rect {
                x: slot.x.plus(whole(3)),
                y: slot.y.plus(whole(3)),
                width: whole(5),
                height: whole(5),
            },
            whole(3),
            whole(0),
            s.color(StyleKey::Accent),
            Color::clear(),
        );
    }
}

/// Whether the pointer is over tab `i` of `n`.
pub open spec fn over_tab(rect: Rect, n: usize, active: usize, input: &InputState, i: int) -> bool {
    input.over(face(rect, n, i == active, i as usize))
}

/// Whether the pointer is over tab `i` and its close key.
pub open spec fn over_key(rect: Rect, n: usize, active: usize, input: &InputState, i: int) -> bool {
    over_tab(rect, n, active, input, i) && slot(
        rect,
        face(rect, n, i == active, i as usize),
    ).contains(input.mouse_x, input.mouse_y)
}

/// Which tabs a click closes.
pub open spec fn closes(rect: Rect, n: usize, active: usize, input: &InputState) -> spec_fn(
    int,
) -> bool {
    |i: int| over_key(rect, n, active, input, i) && input.mouse_clicked
}

/// Which tabs a click activates: those under it whose close key is not.
pub open spec fn activates(rect: Rect, n: usize, active: usize, input: &InputState) -> spec_fn(
    int,
) -> bool {
    |i: int|
        over_tab(rect, n, active, input, i) && input.mouse_clicked && !over_key(
            rect,
            n,
            active,
            input,
            i,
        )
}

/// What the first `n` tabs of `tabs` paint.
pub open spec fn tabs_painted(
    l: crate::draw_list::DrawState,
    rect: Rect,
    tabs: &[DocTab],
    active: usize,
    labels: &[Label],
    cross: Scalar,
    s: &StyleResolver,
    input: &InputState,
    n: nat,
) -> crate::draw_list::DrawState
    decreases n,
{
    if n == 0 {
        l
    } else {
        let i = n - 1;
        let total = tabs@.len() as usize;
        let place = face(rect, total, i == active, i as usize);
        let hovered = over_tab(rect, total, active, input, i);
        slot_painted(
            face_painted(
                tabs_painted(l, rect, tabs, active, labels, cross, s, input, i as nat),
                place,
                tabs@[i].label@,
                label_at(labels, i as usize),
                i == active,
                hovered,
                s,
            ),
            slot(rect, place),
            tabs@[i].dirty,
            hovered,
            over_key(rect, total, active, input, i),
            cross,
            s,
        )
    }
}

/// What happened in the strip.
pub open spec fn happened(rect: Rect, n: usize, active: usize, input: &InputState) -> DocTabsOutput {
    DocTabsOutput {
        activated: crate::context::last_hit(activates(rect, n, active, input), n as nat),
        closed: crate::context::last_hit(closes(rect, n, active, input), n as nat),
    }
}

/// Draw the strip over `rect` with tab `active` selected. `labels` are how the
/// labels measure, `cross` is where the visual center of the close key's cross
/// lies below its top, in em.
pub fn draw(
    rect: Rect,
    tabs: &[DocTab],
    active: usize,
    labels: &[Label],
    cross: Scalar,
    ctx: &mut DrawContext,
) -> (out: DocTabsOutput)
    ensures
        out == happened(rect, tabs@.len() as usize, active, &old(ctx).frame.input),
        final(ctx)@ == (crate::context::Scene {
            list: tabs_painted(
                old(ctx)@.list.scoped("DocTabs"@, rect),
                rect,
                tabs,
                active,
                labels,
                cross,
                &old(ctx).frame.styles,
                &old(ctx).frame.input,
                tabs@.len(),
            ).scope_closed(),
            ..old(ctx)@
        }),
        final(ctx).frame == old(ctx).frame,
{
    ctx.draw_list.push_debug_scope_rect("DocTabs", rect);
    let out = draw_tabs(
        &mut ctx.draw_list,
        rect,
        tabs,
        active,
        labels,
        cross,
        &ctx.frame.styles,
        &ctx.frame.input,
    );
    ctx.draw_list.pop_debug_scope();
    out
}

fn draw_tabs(
    list: &mut DrawList,
    rect: Rect,
    tabs: &[DocTab],
    active: usize,
    labels: &[Label],
    cross: Scalar,
    s: &StyleResolver,
    input: &InputState,
) -> (out: DocTabsOutput)
    ensures
        out == happened(rect, tabs@.len() as usize, active, input),
        final(list)@ == tabs_painted(
            old(list)@,
            rect,
            tabs,
            active,
            labels,
            cross,
            s,
            input,
            tabs@.len(),
        ),
{
    let n: usize = tabs.len();
    let mut activated: Option<usize> = None;
    let mut closed: Option<usize> = None;
    let mut i: usize = 0;
    while i < n
        invariant
            i <= n,
            n == tabs@.len(),
            list@ == tabs_painted(
                old(list)@,
                rect,
                tabs,
                active,
                labels,
                cross,
                s,
                input,
                i as nat,
            ),
            activated == crate::context::last_hit(activates(rect, n, active, input), i as nat),
            closed == crate::context::last_hit(closes(rect, n, active, input), i as nat),
        decreases n - i,
    {
        let is_active = i == active;
        let place = face(rect, n, is_active, i);
        let hovered = input.over(place);
        let key = slot(rect, place);
        let on_key = hovered && key.contains(input.mouse_x, input.mouse_y);
        paint_face(
            list,
            place,
            tabs[i].label.as_str(),
            label_at(labels, i),
            is_active,
            hovered,
            s,
        );
        paint_slot(list, key, tabs[i].dirty, hovered, on_key, cross, s);
        if on_key && input.mouse_clicked {
            closed = Some(i);
        } else if hovered && input.mouse_clicked {
            activated = Some(i);
        }
        i = i + 1;
    }
    DocTabsOutput { activated, closed }
}

/// A click on a close key closes that tab and does not activate it.
pub proof fn law_close_is_not_activation(rect: Rect, n: usize, active: usize, input: &InputState)
    ensures
        happened(rect, n, active, input).closed matches Some(i) ==> happened(
            rect,
            n,
            active,
            input,
        ).activated != Some(i),
{
    crate::context::lemma_last_hit(closes(rect, n, active, input), n as nat);
    crate::context::lemma_last_hit(activates(rect, n, active, input), n as nat);
}

/// Where another surface took the pointer, or nothing was clicked, nothing
/// happens.
pub proof fn law_no_click_no_event(rect: Rect, n: usize, active: usize, input: &InputState)
    requires
        input.mouse_consumed || !input.mouse_clicked,
    ensures
        happened(rect, n, active, input) == (DocTabsOutput { activated: None, closed: None }),
{
    crate::context::lemma_last_hit(closes(rect, n, active, input), n as nat);
    crate::context::lemma_last_hit(activates(rect, n, active, input), n as nat);
}

/// The tabs lie side by side over the strip, all of one width; those that are not
/// selected end two pixels above its lower edge.
pub proof fn law_tabs_lie_side_by_side(rect: Rect, n: usize, active: bool, i: usize, x: int, y: int, k: int, h: int)
    requires
        crate::geometry::in_steps(rect, x, y, n * k, h),
        0 < k,
        512 <= h,
        i < n <= 0x1_0000,
    ensures
        crate::geometry::in_steps(
            face(rect, n, active, i),
            x + i * k,
            y,
            k,
            if active {
                h
            } else {
                h - 512
            },
        ),
{
    let a = i as int;
    let b = n as int;
    assert(0 <= a * k && (a + 1) * k <= b * k && (a + 1) * k == a * k + k && b * k >= k) by (nonlinear_arith)
        requires
            0 <= a < b,
            0 < k,
    ;
    let c = rounding::lemma_number_of_steps(k);
    crate::scalar::law_whole_exact(n as u64);
    rounding::law_zero_and_one();
    let u = rounding::unit();
    let st = rounding::step();
    assert(((b * k) * st) * u == (k * st) * (b * u) && b * u > 0) by (nonlinear_arith)
        requires
            b > 0,
            u > 0,
    ;
    rounding::law_over_exact(rect.width, whole(n as u64), c);
    let width = rect.width.over(whole(n as u64));
    rounding::law_whole_times_steps(i as u64, width, k);
    rounding::law_plus_steps(rect.x, whole(i as u64).times(width), x, a * k);
    rounding::law_whole_in_steps(2);
    rounding::law_one_in_steps();
    rounding::law_minus_steps(rect.height, whole(2), h, 512);
    rounding::law_minus_steps(rect.height, whole(0), h, 0);
}

/// A click on a tab, and on no other, activates it, or closes it where it meets the key
/// at the tab's right end.
pub proof fn law_click_reaches_the_tab_under_it(rect: Rect, n: usize, active: usize, input: &InputState, i: usize, x: int, y: int, k: int, h: int)
    requires
        crate::geometry::in_steps(rect, x, y, n * k, h),
        0 < k,
        0x1000 <= h,
        h % 2 == 0,
        i < n <= 0x1_0000,
        input.mouse_clicked,
        input.over(face(rect, n, i == active, i)),
        input.mouse_x.is_finite(),
        input.mouse_y.is_finite(),
    ensures
        ({
            let st = rounding::step();
            let px = input.mouse_x.val();
            let py = input.mouse_y.val();
            let on_key = (x + (i + 1) * k - 3328) * st <= px < (x + (i + 1) * k - 512) * st
                && (y + h / 2 - 1408) * st <= py < (y + h / 2 + 1408) * st;
            let r = happened(rect, n, active, input);
            &&& (x + i * k) * st <= px < (x + (i + 1) * k) * st
            &&& r.activated == if on_key {
                None::<usize>
            } else {
                Some(i)
            }
            &&& r.closed == if on_key {
                Some(i)
            } else {
                None::<usize>
            }
        }),
{
    let st = rounding::step();
    let px = input.mouse_x;
    let py = input.mouse_y;
    let b = n as int;
    rounding::law_steps();
    assert(b * k >= k) by (nonlinear_arith)
        requires
            b > 0,
            k > 0,
    ;
    assert forall|j: int| 0 <= j < n && j != i implies !over_tab(rect, n, active, input, j) by {
        let a = i as int;
        law_tabs_lie_side_by_side(rect, n, j == active, j as usize, x, y, k, h);
        law_tabs_lie_side_by_side(rect, n, i == active, i, x, y, k, h);
        let fj = face(rect, n, j == active, j as usize);
        let fi = face(rect, n, i == active, i);
        let hj = if j == active {
            h
        } else {
            h - 512
        };
        let hi = if i == active {
            h
        } else {
            h - 512
        };
        crate::geometry::law_contains_in_steps(fj, x + j * k, y, k, hj, px, py);
        crate::geometry::law_contains_in_steps(fi, x + a * k, y, k, hi, px, py);
        let v = px.val();
        assert(!((x + j * k) * st <= v < (x + j * k + k) * st)) by (nonlinear_arith)
            requires
                (x + a * k) * st <= v < (x + a * k + k) * st,
                j != a,
                k > 0,
                st > 0,
        ;
    }
    let a = i as int;
    law_tabs_lie_side_by_side(rect, n, i == active, i, x, y, k, h);
    let f = face(rect, n, i == active, i);
    let hi = if i == active {
        h
    } else {
        h - 512
    };
    crate::geometry::law_contains_in_steps(f, x + a * k, y, k, hi, px, py);
    assert((a + 1) * k == a * k + k && (a + 1) * k <= b * k && a * k >= 0) by (nonlinear_arith)
        requires
            0 <= a < b,
            k > 0,
    ;
    rounding::law_whole_in_steps(13);
    rounding::law_whole_in_steps(11);
    rounding::law_plus_steps(f.x, f.width, x + a * k, k);
    rounding::law_minus_steps(f.x.plus(f.width), whole(13), x + a * k + k, 3328);
    rounding::law_minus_steps(rect.height, whole(11), h, 2816);
    rounding::law_half_of_steps(rect.height.minus(whole(11)), h - 2816);
    let rest = rect.height.minus(whole(11)).times(ratio(1, 2));
    rounding::law_plus_steps(rect.y, rest, y, (h - 2816) / 2);
    lemma_on_key(slot(rect, f), x + a * k + k - 3328, y + (h - 2816) / 2, px, py);
    crate::context::lemma_last_hit(activates(rect, n, active, input), n as nat);
    crate::context::lemma_last_hit(closes(rect, n, active, input), n as nat);
    assert(over_tab(rect, n, active, input, a));
    assert(activates(rect, n, active, input)(a) == !over_key(rect, n, active, input, a));
    assert(closes(rect, n, active, input)(a) == over_key(rect, n, active, input, a));
}

proof fn lemma_on_key(r: Rect, x: int, y: int, px: Scalar, py: Scalar)
    requires
        rounding::in_steps(r.x, x),
        rounding::in_steps(r.y, y),
        rounding::in_steps(r.width, 2816),
        rounding::in_steps(r.height, 2816),
        rounding::size(x) <= 0x80_0000,
        rounding::size(y) <= 0x80_0000,
        px.is_finite(),
        py.is_finite(),
    ensures
        r.contains(px, py) == (x * rounding::step() <= px.val() < (x + 2816) * rounding::step()
            && y * rounding::step() <= py.val() < (y + 2816) * rounding::step()),
{
    rounding::law_plus_steps(r.x, r.width, x, 2816);
    rounding::law_plus_steps(r.y, r.height, y, 2816);
    reveal(Scalar::spec_le);
    reveal(Scalar::spec_lt);
}

} // verus!
