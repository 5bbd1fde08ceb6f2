//! Drag handles: bars that move windows and panels.
//!
//! A handle takes the drag on a press over it and reports the pointer's movement
//! while it owns the drag.

use crate::context::{vcentered, DrawContext};
use crate::drag::{DragCapture, DragId};
use crate::draw_list::DrawList;
use crate::geometry::{Color, Point, Rect};
use crate::input::InputState;
use crate::scalar::{ratio, whole, Scalar};
use crate::style::{StyleKey, StyleResolver};
use vstd::prelude::*;

verus! {

/// What happened in a handle's frame.
#[derive(Clone, Copy, Debug, PartialEq, Eq, Structural)]
pub struct DragHandleOutput {
    /// The handle owns the drag.
    pub dragging: bool,
    /// It took the drag in this frame.
    pub started: bool,
    /// It let the drag go in this frame.
    pub released: bool,
    /// How far the pointer moved, while the handle owns the drag.
    pub delta: Point,
}

impl DragHandleOutput {
    pub open spec fn spec_idle() -> DragHandleOutput {
        DragHandleOutput { dragging: false, started: false, released: false, delta: Point::zero() }
    }

    /// Nothing happened.
    #[verifier::when_used_as_spec(spec_idle)]
    pub fn idle() -> (r: Self)
        ensures
            r == Self::spec_idle(),
    {
        DragHandleOutput { dragging: false, started: false, released: false, delta: Point::zero() }
    }
}

/// A bar to drag something by.
#[derive(Debug)]
pub struct DragHandle {
    /// Its label.
    pub label: Option<String>,
    /// Whether it shows a grid of dots.
    pub grip: bool,
    /// Whether it paints a bar.
    pub chrome: bool,
}

/// What a [`DragHandle`] is made of.
pub struct HandleView {
    /// Its label.
    pub label: Option<Seq<char>>,
    /// Whether it shows a grid of dots.
    pub grip: bool,
    /// Whether it paints a bar.
    pub chrome: bool,
}

impl View for DragHandle {
    type V = HandleView;

    open spec fn view(&self) -> HandleView {
        HandleView {
            label: match self.label {
                Some(s) => Some(s@),
                None => None,
            },
            grip: self.grip,
            chrome: self.chrome,
        }
    }
}

/// A filled bar, rounded where the style has a radius.
#[verifier::opaque]
pub open spec fn bar_filled(
    l: crate::draw_list::DrawState,
    s: &StyleResolver,
    rect: Rect,
    color: Color,
) -> crate::draw_list::DrawState {
    let radius = s.scalar(StyleKey::BorderRadius);
    if whole(0).lt(radius) {
        l.rounded_rect(rect, radius, color)
    } else {
        l.quad(rect, color)
    }
}

fn fill_bar(list: &mut DrawList, s: &StyleResolver, rect: Rect, color: Color)
    ensures
        final(list)@ == bar_filled(old(list)@, s, rect, color),
{
    proof {
        reveal(bar_filled);
    }
    let radius = s.scalar(StyleKey::BorderRadius);
    if whole(0).lt(radius) {
        list.rounded_rect(rect, radius, color);
    } else {
        list.quad(rect, color);
    }
}

/// The bar, brighter under the pointer and brighter still while dragged.
#[verifier::opaque]
pub open spec fn bar_painted(
    l: crate::draw_list::DrawState,
    s: &StyleResolver,
    rect: Rect,
    hovered: bool,
    dragging: bool,
) -> crate::draw_list::DrawState {
    let l = bar_filled(l, s, rect, s.color(StyleKey::Panel));
    if dragging {
        bar_filled(l, s, rect, Color::white(ratio(12, 100)))
    } else if hovered {
        bar_filled(l, s, rect, Color::white(ratio(6, 100)))
    } else {
        l
    }
}

fn paint_bar(list: &mut DrawList, s: &StyleResolver, rect: Rect, hovered: bool, dragging: bool)
    ensures
        final(list)@ == bar_painted(old(list)@, s, rect, hovered, dragging),
{
    proof {
        reveal(bar_painted);
    }
    fill_bar(list, s, rect, s.color(StyleKey::Panel));
    if dragging {
        fill_bar(list, s, rect, Color::white(ratio(12, 100)));
    } else if hovered {
        fill_bar(list, s, rect, Color::white(ratio(6, 100)));
    }
}

pub open spec fn spec_grip_dot(rect: Rect, k: u64) -> Rect {
    Rect {
        x: rect.x.plus(rect.width.minus(whole(12)).over(whole(2))).plus(
            whole(k % 3).times(whole(5)),
        ),
        y: rect.y.plus(rect.height.minus(whole(7)).over(whole(2))).plus(
            whole(k / 3).times(whole(5)),
        ),
        width: whole(2),
        height: whole(2),
    }
}

/// Where dot `k` of the grip lies: three columns and two rows of dots two pixels
/// wide and three apart, in the middle of the bar.
#[verifier::when_used_as_spec(spec_grip_dot)]
pub fn grip_dot(rect: Rect, k: u64) -> (r: Rect)
    ensures
        r == spec_grip_dot(rect, k),
{
    Rect {
        x: rect.x.plus(rect.width.minus(whole(12)).over(whole(2))).plus(
            whole(k % 3).times(whole(5)),
        ),
        y: rect.y.plus(rect.height.minus(whole(7)).over(whole(2))).plus(
            whole(k / 3).times(whole(5)),
        ),
        width: whole(2),
        height: whole(2),
    }
}

/// The first `n` dots of the grip.
pub open spec fn grip_painted(
    l: crate::draw_list::DrawState,
    rect: Rect,
    color: Color,
    n: nat,
) -> crate::draw_list::DrawState
    decreases n,
{
    if n == 0 {
        l
    } else {
        grip_painted(l, rect, color, (n - 1) as nat).quad(grip_dot(rect, (n - 1) as u64), color)
    }
}

impl Default for DragHandle {
    fn default() -> (r: Self)
        ensures
            r@ == (HandleView { label: None, grip: true, chrome: true }),
    {
        Self::new()
    }
}

impl HandleView {
    /// The drag after a frame over `rect`.
    pub open spec fn driven(capture: DragCapture, id: DragId, rect: Rect, input: &InputState) -> DragCapture {
        capture.driven(id, input.mouse_down, input.over(rect) && input.mouse_clicked)
    }

    /// What happened.
    pub open spec fn happened(
        capture: DragCapture,
        id: DragId,
        rect: Rect,
        input: &InputState,
    ) -> DragHandleOutput {
        let after = Self::driven(capture, id, rect, input);
        DragHandleOutput {
            dragging: after.is_active(id),
            started: input.over(rect) && input.mouse_clicked && capture.freed(
                id,
                input.mouse_down,
            ).is_free(),
            released: capture.is_active(id) && !after.is_active(id),
            delta: if after.is_active(id) {
                input.drag_delta
            } else {
                Point::zero()
            },
        }
    }

    /// What the handle paints: its bar, its grip where it has no label, and its
    /// label.
    pub open spec fn painted(
        self,
        l: crate::draw_list::DrawState,
        s: &StyleResolver,
        rect: Rect,
        center: Scalar,
        hovered: bool,
        dragging: bool,
    ) -> crate::draw_list::DrawState {
        let l = if self.chrome {
            bar_painted(l, s, rect, hovered, dragging)
        } else {
            l
        };
        let l = if self.grip && self.label is None {
            grip_painted(l, rect, s.color(StyleKey::TextDim), 6)
        } else {
            l
        };
        let size = s.scalar(StyleKey::FontSize);
        match self.label {
            Some(label) => l.written(
                label,
                Point {
                    x: rect.x.plus(s.scalar(StyleKey::Padding)),
                    y: vcentered(rect.y, rect.height, size, center),
                },
                size,
                s.color(StyleKey::Text),
                s.font,
            ),
            None => l,
        }
    }
}

impl DragHandle {
    /// A bar with a grip.
    pub fn new() -> (r: Self)
        ensures
            r@ == (HandleView { label: None, grip: true, chrome: true }),
    {
        DragHandle { label: None, grip: true, chrome: true }
    }

    /// A handle that paints nothing.
    pub fn bare() -> (r: Self)
        ensures
            r@ == (HandleView { label: None, grip: false, chrome: false }),
    {
        DragHandle { label: None, grip: false, chrome: false }
    }

    /// With a label at its left end, in place of the grip.
    pub fn with_label(self, label: &str) -> (r: Self)
        ensures
            r@ == (HandleView { label: Some(label@), ..self@ }),
    {
        DragHandle { label: Some(label.to_owned()), grip: self.grip, chrome: self.chrome }
    }

    /// With or without a grip.
    pub fn with_grip(self, grip: bool) -> (r: Self)
        ensures
            r@ == (HandleView { grip, ..self@ }),
    {
        DragHandle { label: self.label, grip, chrome: self.chrome }
    }

    /// Draw the grip, where there is no label in its place.
    pub fn draw_grip(&self, rect: Rect, list: &mut DrawList, s: &StyleResolver)
        ensures
            final(list)@ == (if self@.label is None {
                grip_painted(old(list)@, rect, s.color(StyleKey::TextDim), 6)
            } else {
                old(list)@
            }),
    {
        if self.label.is_some() {
            return;
        }
        let color = s.color(StyleKey::TextDim);
        let mut k: u64 = 0;
        while k < 6
            invariant
                k <= 6,
                list@ == grip_painted(old(list)@, rect, color, k as nat),
            decreases 6 - k,
        {
            list.quad(grip_dot(rect, k), color);
            k = k + 1;
        }
    }

    fn paint(
        &self,
        list: &mut DrawList,
        s: &StyleResolver,
        rect: Rect,
        center: Scalar,
        hovered: bool,
        dragging: bool,
    )
        ensures
            final(list)@ == self@.painted(old(list)@, s, rect, center, hovered, dragging),
    {
        if self.chrome {
            paint_bar(list, s, rect, hovered, dragging);
        }
        if self.grip {
            self.draw_grip(rect, list, s);
        }
        match &self.label {
            Some(label) => {
                let size = s.scalar(StyleKey::FontSize);
                list.write(
                    label.as_str(),
                    Point {
                        x: rect.x.plus(s.scalar(StyleKey::Padding)),
                        y: vcentered(rect.y, rect.height, size, center),
                    },
                    size,
                    s.color(StyleKey::Text),
                    s.font,
                );
            },
            None => {},
        }
    }

    /// Draw the handle and drag by it. `center` is where the label's visual
    /// center lies.
    pub fn draw(
        &self,
        id: DragId,
        capture: &mut DragCapture,
        rect: Rect,
        center: Scalar,
        ctx: &mut DrawContext,
    ) -> (out: DragHandleOutput)
        ensures
            *final(capture) == HandleView::driven(*old(capture), id, rect, &old(ctx).frame.input),
            out == HandleView::happened(*old(capture), id, rect, &old(ctx).frame.input),
            final(ctx)@ == (crate::context::Scene {
                list: self@.painted(
                    old(ctx)@.list,
                    &old(ctx).frame.styles,
                    rect,
                    center,
                    old(ctx).frame.input.over(rect),
                    out.dragging,
                ),
                ..old(ctx)@
            }),
            final(ctx).frame == old(ctx).frame,
    {
        let hovered = ctx.frame.input.over(rect);
        let down = ctx.frame.input.mouse_down;
        let was_active = capture.is_active(id);
        let started = capture.drive(id, down, hovered && ctx.frame.input.mouse_clicked);
        let dragging = capture.is_active(id);
        let delta = if dragging {
            ctx.frame.input.drag_delta
        } else {
            Point::zero()
        };
        self.paint(&mut ctx.draw_list, &ctx.frame.styles, rect, center, hovered, dragging);
        DragHandleOutput { dragging, started, released: was_active && !dragging, delta }
    }

    /// Draw the handle and move `target` by it.
    pub fn drag_rect(
        &self,
        id: DragId,
        capture: &mut DragCapture,
        handle_rect: Rect,
        target: &mut Rect,
        center: Scalar,
        ctx: &mut DrawContext,
    ) -> (out: DragHandleOutput)
        ensures
            *final(capture) == HandleView::driven(
                *old(capture),
                id,
                handle_rect,
                &old(ctx).frame.input,
            ),
            out == HandleView::happened(*old(capture), id, handle_rect, &old(ctx).frame.input),
            *final(target) == (Rect {
                x: old(target).x.plus(out.delta.x),
                y: old(target).y.plus(out.delta.y),
                ..*old(target)
            }),
            final(ctx)@ == (crate::context::Scene {
                list: self@.painted(
                    old(ctx)@.list,
                    &old(ctx).frame.styles,
                    handle_rect,
                    center,
                    old(ctx).frame.input.over(handle_rect),
                    out.dragging,
                ),
                ..old(ctx)@
            }),
            final(ctx).frame == old(ctx).frame,
    {
        let out = self.draw(id, capture, handle_rect, center, ctx);
        target.x = target.x.plus(out.delta.x);
        target.y = target.y.plus(out.delta.y);
        out
    }
}

/// A handle moves something only while it owns the drag.
pub proof fn law_only_the_owner_moves(
    capture: DragCapture,
    id: DragId,
    rect: Rect,
    input: &InputState,
)
    ensures
        !HandleView::driven(capture, id, rect, input).is_active(id) ==> HandleView::happened(
            capture,
            id,
            rect,
            input,
        ).delta == Point::zero(),
{
}

/// Of two handles that share a drag, one at most moves something in a frame.
pub proof fn law_one_handle_moves(
    capture: DragCapture,
    a: DragId,
    b: DragId,
    ra: Rect,
    rb: Rect,
    input: &InputState,
)
    requires
        a != b,
        input.mouse_down,
    ensures
        ({
            let first = HandleView::happened(capture, a, ra, input);
            let second = HandleView::happened(
                HandleView::driven(capture, a, ra, input),
                b,
                rb,
                input,
            );
            !(first.dragging && second.dragging)
        }),
{
}

/// A press that a higher layer took starts no drag.
pub proof fn law_consumed_pointer_starts_no_drag(
    capture: DragCapture,
    id: DragId,
    rect: Rect,
    input: &InputState,
)
    requires
        input.mouse_consumed,
    ensures
        !HandleView::happened(capture, id, rect, input).started,
        HandleView::driven(capture, id, rect, input).is_active(id) ==> capture.is_active(id),
{
}

/// A handle that owned the drag reports its end once the button is up, and the
/// drag is free.
pub proof fn law_release_is_reported(
    capture: DragCapture,
    id: DragId,
    rect: Rect,
    input: &InputState,
)
    requires
        capture.is_active(id),
        !input.mouse_down,
        !input.mouse_clicked,
    ensures
        HandleView::happened(capture, id, rect, input).released,
        HandleView::driven(capture, id, rect, input).is_free(),
{
}

/// A press on a free handle takes the drag, and while it has it the handle moves by as
/// much as the pointer; letting the button go ends the drag, and a handle without it does
/// not move.
pub proof fn law_handle_moves_with_the_pointer(capture: DragCapture, id: DragId, rect: Rect, input: &InputState)
    ensures
        ({
            let out = HandleView::happened(capture, id, rect, input);
            &&& capture.is_free() && input.over(rect) && input.mouse_clicked ==> out.started
                && out.dragging && out.delta == input.drag_delta
            &&& capture.is_active(id) && input.mouse_down ==> out.dragging && !out.released && out.delta
                == input.drag_delta
            &&& capture.is_active(id) && !input.mouse_down && !input.mouse_clicked ==> !out.dragging
                && out.released && out.delta == Point::zero()
            &&& capture.is_free() && !(input.over(rect) && input.mouse_clicked) ==> !out.dragging
                && !out.started && out.delta == Point::zero()
        }),
{
}

} // verus!
