//! What widgets draw into, and what they draw from.

use crate::draw_list::{DrawList, DrawState};
use crate::focus::{FocusId, FocusState, FocusView};
use crate::geometry::{Point, Rect};
use crate::input::InputState;
use crate::rounding;
use crate::scalar::{whole, Scalar};
use crate::style::{StyleKey, StyleResolver};
use vstd::prelude::*;

verus! {

/// The pointer's shape.
#[derive(Clone, Copy, Debug, PartialEq, Eq, Structural)]
pub enum CursorIcon {
    /// The usual arrow.
    Arrow,
    /// A hand: something to click.
    Pointer,
    /// A text beam.
    Text,
    /// An open hand: something to drag.
    Grab,
}

/// What a frame gives to every widget, and no widget changes.
#[derive(Debug)]
pub struct Frame {
    /// Input.
    pub input: InputState,
    /// Styles.
    pub styles: StyleResolver,
    /// The layer being drawn, the base one where there is none.
    pub layer: Option<usize>,
}

/// What widgets draw into.
#[derive(Debug)]
pub struct DrawContext {
    /// The frame.
    pub frame: Frame,
    /// The shapes.
    pub draw_list: DrawList,
    /// The keyboard focus.
    pub focus: FocusState,
    /// The pointer's shape, where a widget asked for one.
    pub cursor: Option<CursorIcon>,
}

/// What a [`DrawContext`] holds that widgets change.
#[verifier::ext_equal]
pub struct Scene {
    /// The shapes.
    pub list: DrawState,
    /// The keyboard focus.
    pub focus: FocusView,
    /// The pointer's shape.
    pub cursor: Option<CursorIcon>,
}

/// How a label measures in its font.
#[derive(Clone, Copy, Debug, PartialEq, Eq, Structural)]
pub struct Label {
    /// Width of the line.
    pub width: Scalar,
    /// Where its visual center lies below its top, in em.
    pub center: Scalar,
}

/// The complete outcome of a widget's frame.
#[derive(Clone, Copy, Debug, PartialEq, Eq, Structural)]
pub struct Response {
    /// The widget, where it has an identity.
    pub id: Option<FocusId>,
    /// Its rectangle.
    pub rect: Rect,
    /// Whether a retained scene settled the pointer.
    pub resolved: bool,
    /// The pointer is over it.
    pub hovered: bool,
    /// The button is down over it.
    pub pressed: bool,
    /// It was clicked or activated.
    pub clicked: bool,
    /// The button was released over it.
    pub released: bool,
    /// The button has been held over it.
    pub held: bool,
    /// It was double-clicked.
    pub double_clicked: bool,
    /// The pointer relative to its corner.
    pub local_pos: Option<Point>,
    /// Wheel movement.
    pub scroll_delta: Scalar,
}

impl Response {
    pub open spec fn spec_idle(id: FocusId, rect: Rect) -> Response {
        Response {
            id: Some(id),
            rect,
            resolved: false,
            hovered: false,
            pressed: false,
            clicked: false,
            released: false,
            held: false,
            double_clicked: false,
            local_pos: None,
            scroll_delta: whole(0),
        }
    }

    /// Nothing happened.
    #[verifier::when_used_as_spec(spec_idle)]
    pub fn idle(id: FocusId, rect: Rect) -> (r: Response)
        ensures
            r == Self::spec_idle(id, rect),
    {
        Response {
            id: Some(id),
            rect,
            resolved: false,
            hovered: false,
            pressed: false,
            clicked: false,
            released: false,
            held: false,
            double_clicked: false,
            local_pos: None,
            scroll_delta: whole(0),
        }
    }
}

pub open spec fn spec_label_at(labels: &[Label], i: usize) -> Label {
    if i < labels@.len() {
        labels@[i as int]
    } else {
        Label { width: whole(0), center: whole(0) }
    }
}

/// How label `i` measures; one that was not measured has no extent.
#[verifier::when_used_as_spec(spec_label_at)]
pub fn label_at(labels: &[Label], i: usize) -> (r: Label)
    ensures
        r == spec_label_at(labels, i),
{
    if i < labels.len() {
        labels[i]
    } else {
        Label { width: whole(0), center: whole(0) }
    }
}

/// The last of the first `n` that is hit.
pub open spec fn last_hit(hit: spec_fn(int) -> bool, n: nat) -> Option<usize>
    decreases n,
{
    if n == 0 {
        None
    } else if hit(n - 1) {
        Some((n - 1) as usize)
    } else {
        last_hit(hit, (n - 1) as nat)
    }
}

/// What [`last_hit`] gives is hit, and nothing after it is; where it gives
/// nothing, nothing is hit.
pub proof fn lemma_last_hit(hit: spec_fn(int) -> bool, n: nat)
    requires
        n <= usize::MAX,
    ensures
        match last_hit(hit, n) {
            Some(k) => k < n && hit(k as int) && forall|j: int| k < j < n ==> !#[trigger] hit(j),
            None => forall|j: int| 0 <= j < n ==> !#[trigger] hit(j),
        },
    decreases n,
{
    if n > 0 && !hit(n - 1) {
        lemma_last_hit(hit, (n - 1) as nat);
    }
}

/// The first of those from `i` to `n` that is hit.
pub open spec fn first_hit(hit: spec_fn(int) -> bool, i: nat, n: nat) -> Option<usize>
    decreases n - i,
{
    if i >= n {
        None
    } else if hit(i as int) {
        Some(i as usize)
    } else {
        first_hit(hit, i + 1, n)
    }
}

/// What [`first_hit`] gives is hit, and nothing before it is; where it gives
/// nothing, nothing is hit.
pub proof fn lemma_first_hit(hit: spec_fn(int) -> bool, i: nat, n: nat)
    requires
        n <= usize::MAX,
    ensures
        match first_hit(hit, i, n) {
            Some(k) => i <= k < n && hit(k as int) && forall|j: int|
                i <= j < k ==> !#[trigger] hit(j),
            None => forall|j: int| i <= j < n ==> !#[trigger] hit(j),
        },
    decreases n - i,
{
    if i < n && !hit(i as int) {
        lemma_first_hit(hit, i + 1, n);
    }
}

pub open spec fn spec_vcentered(top: Scalar, height: Scalar, font_size: Scalar, center: Scalar) -> Scalar {
    top.plus(height.over(whole(2))).minus(font_size.times(center))
}

/// The top of a line whose visual center, `center` em below its top, lies in
/// the middle of `top..top + height`.
#[verifier::when_used_as_spec(spec_vcentered)]
pub fn vcentered(top: Scalar, height: Scalar, font_size: Scalar, center: Scalar) -> (r: Scalar)
    ensures
        r == spec_vcentered(top, height, font_size, center),
{
    top.plus(height.over(whole(2))).minus(font_size.times(center))
}

impl View for DrawContext {
    type V = Scene;

    open spec fn view(&self) -> Scene {
        Scene { list: self.draw_list@, focus: self.focus@, cursor: self.cursor }
    }
}

impl Frame {
    /// Layers are counted within the machine's range.
    pub open spec fn wf(self) -> bool {
        self.layer is Some ==> self.layer->0 < usize::MAX
    }
}

impl Scene {
    /// With the pointer's shape asked for, where `wanted`.
    pub open spec fn pointed(self, wanted: bool, icon: CursorIcon) -> Scene {
        if wanted {
            Scene { cursor: Some(icon), ..self }
        } else {
            self
        }
    }

    /// With a ring around the focused widget.
    pub open spec fn ringed(self, frame: Frame, rect: Rect) -> Scene {
        Scene {
            list: self.list.rounded_rect_outline(
                rect,
                frame.styles.scalar(StyleKey::BorderRadius),
                whole(2),
                frame.styles.color(StyleKey::InputFocusBorder),
            ),
            ..self
        }
    }

    /// What a focusable control does after it was painted: it registers, takes
    /// the focus where it was clicked, and shows a ring while focused.
    pub open spec fn focus_handled(
        self,
        frame: Frame,
        id: Option<FocusId>,
        clicked: bool,
        ring: Rect,
    ) -> Scene {
        match id {
            Some(id) => {
                let joined = self.focus.joined(id, frame.layer);
                let focus = if clicked {
                    joined.requested(id)
                } else {
                    joined
                };
                let s = Scene { focus, ..self };
                if focus.focused == Some(id) {
                    s.ringed(frame, ring)
                } else {
                    s
                }
            },
            None => self,
        }
    }

    /// Whether a key activates the control: it is focused once its click was
    /// handled, and the key is down.
    pub open spec fn key_activates(self, id: Option<FocusId>, clicked: bool, key: bool) -> bool {
        id is Some && key && (clicked || self.focus.focused == id)
    }
}

impl DrawContext {
    /// Ask for a pointer shape.
    pub fn request_cursor(&mut self, icon: CursorIcon)
        ensures
            final(self)@ == (Scene { cursor: Some(icon), ..old(self)@ }),
            final(self).frame == old(self).frame,
    {
        self.cursor = Some(icon);
    }

    /// Draw a ring around the focused widget.
    pub fn draw_focus_ring(&mut self, rect: Rect)
        ensures
            final(self)@ == old(self)@.ringed(old(self).frame, rect),
            final(self).frame == old(self).frame,
    {
        let radius = self.frame.styles.scalar(StyleKey::BorderRadius);
        let color = self.frame.styles.color(StyleKey::InputFocusBorder);
        self.draw_list.rounded_rect_outline(rect, radius, whole(2), color);
    }

    /// Register a focusable control, move the focus to it where it was clicked,
    /// and draw its ring while it is focused. Tells whether a key activates it.
    pub fn handle_focus(
        &mut self,
        id: Option<FocusId>,
        clicked: bool,
        key: bool,
        ring: Rect,
    ) -> (activated: bool)
        requires
            old(self).frame.wf(),
        ensures
            final(self)@ == old(self)@.focus_handled(old(self).frame, id, clicked, ring),
            final(self).frame == old(self).frame,
            activated == old(self)@.key_activates(id, clicked, key),
    {
        match id {
            Some(id) => {
                let layer = self.frame.layer;
                self.focus.join(id, layer);
                if clicked {
                    self.focus.request(id);
                }
                if self.focus.is_focused(id) {
                    self.draw_focus_ring(ring);
                    key
                } else {
                    false
                }
            },
            None => false,
        }
    }
}

/// A line of text stands with its visual center in the middle of the height it is given,
/// up to rounding.
pub proof fn law_text_is_centered(top: Scalar, height: Scalar, size: Scalar, center: Scalar)
    requires
        rounding::ordinary(top),
        rounding::ordinary(height),
        rounding::ordinary(size),
        center.is_finite(),
        rounding::size(center.val()) <= 16 * rounding::unit(),
    ensures
        ({
            let y = vcentered(top, height, size, center);
            let u = rounding::unit();
            let span = rounding::size(top.val()) + rounding::size(height.val()) + 16 * rounding::size(
                size.val(),
            ) + 0x80_0000;
            &&& y.is_finite()
            &&& 0x10_0000 * rounding::apart(
                2 * (y.val() * u + size.val() * center.val()),
                (2 * top.val() + height.val()) * u,
            ) <= 8 * (span * u)
        }),
{
    rounding::law_zero_and_one();
    rounding::law_unit_is_large();
    let u = rounding::unit();
    let t = top.val();
    let h = height.val();
    let z = size.val();
    let c = center.val();
    crate::scalar::law_whole_exact(2);
    assert(rounding::size(h) * u <= rounding::size(h) * rounding::size(2 * u)) by (nonlinear_arith)
        requires
            u > 0,
    ;
    rounding::law_over_bounded(height, whole(2), height);
    rounding::law_over_whole(height, 2);
    let half = height.over(whole(2));
    let a = half.val();
    rounding::law_plus_finite(top, half);
    rounding::law_plus_rounds(top, half);
    let m = top.plus(half);
    assert(rounding::size(z * c) <= (16 * rounding::size(z)) * u) by (nonlinear_arith)
        requires
            rounding::size(c) <= 16 * u,
    ;
    assert((16 * rounding::size(z)) * u <= 0x1_0000_0000_0000_0000 * (u * u)) by (nonlinear_arith)
        requires
            rounding::size(z) <= 0x1_0000_0000 * u,
            u > 0,
    ;
    rounding::law_times_finite(size, center);
    rounding::law_times_rounds(size, center);
    let p = size.times(center);
    let pv = p.val();
    let zc = z * c;
    let k = 16 * rounding::size(z);
    assert(rounding::size(pv) <= 2 * k + 1) by (nonlinear_arith)
        requires
            0x100_0000 * rounding::apart(pv * u, zc) <= rounding::size(zc) + u * 0x80_0000,
            rounding::size(zc) <= k * u,
            k >= 0,
            u > 0,
    ;
    rounding::law_minus_finite(m, p);
    rounding::law_minus_rounds(m, p);
    let y = m.minus(p).val();
    let mv = m.val();
    // The errors, one after the other.
    let e1 = rounding::apart(2 * a, h);
    let e2 = rounding::apart(mv, t + a);
    let e3 = rounding::apart(y, mv - pv);
    let e4 = rounding::apart(pv * u, zc);
    let span = rounding::size(t) + rounding::size(h) + k + 0x80_0000;
    assert(0x100_0000 * (e1 + 2 * e2 + 2 * e3) <= 16 * span);
    let sum = e1 + 2 * e2 + 2 * e3;
    assert(0x100_0000 * (sum * u) <= 16 * (span * u)) by (nonlinear_arith)
        requires
            0x100_0000 * sum <= 16 * span,
            u > 0,
    ;
    assert(0x100_0000 * e4 <= span * u) by (nonlinear_arith)
        requires
            0x100_0000 * e4 <= rounding::size(zc) + u * 0x80_0000,
            rounding::size(zc) <= k * u,
            k + 0x80_0000 <= span,
            u > 0,
    ;
    let d = 2 * y - (2 * t + h) + 2 * pv;
    assert(rounding::size(d) <= sum);
    assert(rounding::size(d * u) <= sum * u) by (nonlinear_arith)
        requires
            rounding::size(d) <= sum,
            u > 0,
    ;
    assert(2 * (y * u + zc) - (2 * t + h) * u == d * u + 2 * (zc - pv * u)) by (nonlinear_arith)
        requires
            d == 2 * y - (2 * t + h) + 2 * pv,
    ;
}

} // verus!
