//! Checkboxes.

use crate::context::{vcentered, CursorIcon, DrawContext};
use crate::draw_list::{DrawList, SpriteId};
use crate::focus::FocusId;
use crate::geometry::{Color, Point, Rect};
use crate::rounding;
use crate::scalar::{ratio, whole, Scalar};
use crate::style::{StyleKey, StyleResolver};
use vstd::prelude::*;

verus! {

/// Texture key of an empty box.
pub const CHECKBOX_ICON: &'static str = "textures/ui/checkbox.png";

/// Texture key of a checked box.
pub const CHECKBOX_CHECKED_ICON: &'static str = "textures/ui/checkbox_checked.png";

/// How the box is drawn.
#[derive(Clone, Copy, Debug)]
pub enum BoxStyle {
    /// From shapes; needs no textures.
    Vector,
    /// From sprites that are at hand.
    Sprites {
        /// The empty box.
        unchecked: SpriteId,
        /// The checked box.
        checked: SpriteId,
    },
    /// From textures by key; a key that the atlas lacks shows nothing.
    Keys {
        /// The empty box.
        unchecked: &'static str,
        /// The checked box.
        checked: &'static str,
    },
}

/// What animation tells a checkbox.
#[derive(Clone, Copy, Debug, PartialEq, Eq, Structural)]
pub struct BoxEase {
    /// The fill that the box has reached.
    pub fill: Color,
    /// How far the hover light has come, from 0 to 1.
    pub overlay: Scalar,
}

/// A box to check, with a label.
#[derive(Clone, Copy, Debug)]
pub struct Checkbox {
    /// How the box is drawn.
    pub style: BoxStyle,
    /// The identity it takes the focus under, where it does.
    pub focus_id: Option<FocusId>,
    /// The identity its box is eased under, where it is.
    pub anim_id: Option<u64>,
}

pub open spec fn spec_contrast_color(bg: Color) -> Color {
    let lum = ratio(2126, 10000).times(bg.r).plus(ratio(7152, 10000).times(bg.g)).plus(
        ratio(722, 10000).times(bg.b),
    );
    if ratio(1, 2).lt(lum) {
        Color::black(whole(1))
    } else {
        Color::white(whole(1))
    }
}

/// Black or white, whichever stands out against `bg`.
#[verifier::when_used_as_spec(spec_contrast_color)]
pub fn contrast_color(bg: Color) -> (r: Color)
    ensures
        r == spec_contrast_color(bg),
{
    let lum = ratio(2126, 10000).times(bg.r).plus(ratio(7152, 10000).times(bg.g)).plus(
        ratio(722, 10000).times(bg.b),
    );
    if ratio(1, 2).lt(lum) {
        Color::black(whole(1))
    } else {
        Color::white(whole(1))
    }
}

/// The three points of a tick.
pub open spec fn tick(at: Rect, size: Scalar) -> Seq<Point> {
    seq![
        Point {
            x: at.x.plus(size.times(ratio(22, 100))),
            y: at.y.plus(size.times(ratio(52, 100))),
        },
        Point {
            x: at.x.plus(size.times(ratio(42, 100))),
            y: at.y.plus(size.times(ratio(72, 100))),
        },
        Point {
            x: at.x.plus(size.times(ratio(78, 100))),
            y: at.y.plus(size.times(ratio(28, 100))),
        },
    ]
}

/// What the box drawn from shapes paints: its fill, then a tick that stands out
/// against the accent, or a border.
#[verifier::opaque]
pub open spec fn vector_box(
    l: crate::draw_list::DrawState,
    s: &StyleResolver,
    at: Rect,
    checked: bool,
    fill: Color,
) -> crate::draw_list::DrawState {
    let size = at.width.at_most(at.height);
    let radius = s.scalar(StyleKey::BorderRadius).at_most(size.times(ratio(3, 10))).at_least(
        whole(0),
    );
    let l = l.rounded_rect(at, radius, fill);
    if checked {
        l.polyline(
            tick(at, size),
            2,
            size.times(ratio(14, 100)).at_least(ratio(3, 2)),
            contrast_color(s.color(StyleKey::Accent)),
        )
    } else {
        l.rounded_rect_outline(
            at,
            radius,
            s.scalar(StyleKey::BorderWidth).at_least(whole(1)).at_most(size.times(ratio(1, 2))),
            s.color(StyleKey::InputBorder),
        )
    }
}

fn draw_vector_box(list: &mut DrawList, s: &StyleResolver, at: Rect, checked: bool, fill: Color)
    ensures
        final(list)@ == vector_box(old(list)@, s, at, checked, fill),
{
    proof {
        reveal(vector_box);
    }
    let size = at.width.at_most(at.height);
    let radius = s.scalar(StyleKey::BorderRadius).at_most(size.times(ratio(3, 10))).at_least(
        whole(0),
    );
    list.rounded_rect(at, radius, fill);
    if checked {
        let mut points: Vec<Point> = Vec::new();
        points.push(
            Point {
                x: at.x.plus(size.times(ratio(22, 100))),
                y: at.y.plus(size.times(ratio(52, 100))),
            },
        );
        points.push(
            Point {
                x: at.x.plus(size.times(ratio(42, 100))),
                y: at.y.plus(size.times(ratio(72, 100))),
            },
        );
        points.push(
            Point {
                x: at.x.plus(size.times(ratio(78, 100))),
                y: at.y.plus(size.times(ratio(28, 100))),
            },
        );
        assert(points@ =~= tick(at, size));
        list.polyline(
            &points,
            size.times(ratio(14, 100)).at_least(ratio(3, 2)),
            contrast_color(s.color(StyleKey::Accent)),
        );
    } else {
        let border = s.scalar(StyleKey::BorderWidth).at_least(whole(1)).at_most(
            size.times(ratio(1, 2)),
        );
        list.rounded_rect_outline(at, radius, border, s.color(StyleKey::InputBorder));
    }
}

impl Checkbox {
    /// A checkbox drawn from shapes.
    pub fn new() -> (r: Self)
        ensures
            r == (Checkbox { style: BoxStyle::Vector, focus_id: None, anim_id: None }),
    {
        Checkbox { style: BoxStyle::Vector, focus_id: None, anim_id: None }
    }

    /// Ease the fill and the hover light under `id`.
    pub fn animated(self, id: u64) -> (r: Self)
        ensures
            r == (Checkbox { anim_id: Some(id), ..self }),
    {
        Checkbox { style: self.style, focus_id: self.focus_id, anim_id: Some(id) }
    }

    /// Take the keyboard focus under `id`.
    pub fn focusable(self, id: FocusId) -> (r: Self)
        ensures
            r == (Checkbox { focus_id: Some(id), ..self }),
    {
        Checkbox { style: self.style, focus_id: Some(id), anim_id: self.anim_id }
    }

    /// Draw the box from these sprites.
    pub fn with_icons(self, unchecked: SpriteId, checked: SpriteId) -> (r: Self)
        ensures
            r == (Checkbox { style: BoxStyle::Sprites { unchecked, checked }, ..self }),
    {
        Checkbox {
            style: BoxStyle::Sprites { unchecked, checked },
            focus_id: self.focus_id,
            anim_id: self.anim_id,
        }
    }

    /// Draw the box from the textures under these keys.
    pub fn with_icon_keys(self, unchecked: &'static str, checked: &'static str) -> (r: Self)
        ensures
            r == (Checkbox { style: BoxStyle::Keys { unchecked, checked }, ..self }),
    {
        Checkbox {
            style: BoxStyle::Keys { unchecked, checked },
            focus_id: self.focus_id,
            anim_id: self.anim_id,
        }
    }

    pub open spec fn spec_fill_target(checked: bool, s: &StyleResolver) -> Color {
        s.color(
            if checked {
                StyleKey::Accent
            } else {
                StyleKey::InputBackground
            },
        )
    }

    /// The fill that the box is eased toward.
    #[verifier::when_used_as_spec(spec_fill_target)]
    pub fn fill_target(checked: bool, s: &StyleResolver) -> (r: Color)
        ensures
            r == Self::spec_fill_target(checked, s),
    {
        s.color(
            if checked {
                StyleKey::Accent
            } else {
                StyleKey::InputBackground
            },
        )
    }

    pub open spec fn spec_ease(&self, told: Option<BoxEase>, checked: bool, hovered: bool, s: &StyleResolver) -> BoxEase {
        match (self.anim_id, told) {
            (Some(_), Some(e)) => e,
            _ => BoxEase {
                fill: Self::spec_fill_target(checked, s),
                overlay: if hovered {
                    whole(1)
                } else {
                    whole(0)
                },
            },
        }
    }

    /// The fill and the hover light: what they are eased to where the checkbox is
    /// animated, else where they go.
    #[verifier::when_used_as_spec(spec_ease)]
    pub fn ease(&self, told: Option<BoxEase>, checked: bool, hovered: bool, s: &StyleResolver) -> (r: BoxEase)
        ensures
            r == self.spec_ease(told, checked, hovered, s),
    {
        match (self.anim_id, told) {
            (Some(_), Some(e)) => e,
            _ => {
                let overlay = if hovered {
                    whole(1)
                } else {
                    whole(0)
                };
                BoxEase { fill: Self::fill_target(checked, s), overlay }
            },
        }
    }

    /// What the checkbox paints: its box, the hover light over it, and its label.
    #[verifier::opaque]
    pub open spec fn painted(
        &self,
        l: crate::draw_list::DrawState,
        checked: bool,
        label: Seq<char>,
        center: Scalar,
        rect: Rect,
        ease: BoxEase,
        s: &StyleResolver,
    ) -> crate::draw_list::DrawState {
        let at = Rect { x: rect.x, y: rect.y, width: rect.height, height: rect.height };
        let l = match self.style {
            BoxStyle::Vector => vector_box(l, s, at, checked, ease.fill),
            BoxStyle::Sprites { unchecked, checked: full } => l.icon_sprite(
                if checked {
                    full
                } else {
                    unchecked
                },
                at,
                Color::white(whole(1)),
            ),
            BoxStyle::Keys { unchecked, checked: full } => l.icon(
                if checked {
                    full@
                } else {
                    unchecked@
                },
                at,
            ),
        };
        let alpha = ease.overlay.times(ratio(8, 100));
        let l = if whole(0).lt(alpha) {
            l.quad(at, Color::white(alpha))
        } else {
            l
        };
        let size = s.scalar(StyleKey::FontSize);
        if label.len() == 0 {
            l
        } else {
            l.written(
                label,
                Point {
                    x: rect.x.plus(rect.height).plus(whole(6)),
                    y: vcentered(rect.y, rect.height, size, center),
                },
                size,
                s.color(StyleKey::Text),
                s.font,
            )
        }
    }

    fn paint(
        &self,
        list: &mut DrawList,
        checked: bool,
        label: &str,
        center: Scalar,
        rect: Rect,
        ease: BoxEase,
        s: &StyleResolver,
    )
        ensures
            final(list)@ == self.painted(old(list)@, checked, label@, center, rect, ease, s),
    {
        proof {
            reveal(Checkbox::painted);
        }
        let at = Rect { x: rect.x, y: rect.y, width: rect.height, height: rect.height };
        match self.style {
            BoxStyle::Vector => draw_vector_box(list, s, at, checked, ease.fill),
            BoxStyle::Sprites { unchecked, checked: full } => {
                let sprite: u32 = if checked {
                    full
                } else {
                    unchecked
                };
                list.icon_sprite(sprite, at, Color::white(whole(1)));
            },
            BoxStyle::Keys { unchecked, checked: full } => {
                let key = if checked {
                    full
                } else {
                    unchecked
                };
                list.icon(key, at);
            },
        }
        let alpha = ease.overlay.times(ratio(8, 100));
        if whole(0).lt(alpha) {
            list.quad(at, Color::white(alpha));
        }
        if label.unicode_len() > 0 {
            let size = s.scalar(StyleKey::FontSize);
            list.write(
                label,
                Point {
                    x: rect.x.plus(rect.height).plus(whole(6)),
                    y: vcentered(rect.y, rect.height, size, center),
                },
                size,
                s.color(StyleKey::Text),
                s.font,
            );
        }
    }

    /// Whether the checkbox is toggled: clicked, or by Enter or Space while it has
    /// the focus.
    pub open spec fn toggled(&self, rect: Rect, frame: crate::context::Frame, focused: Option<FocusId>) -> bool {
        let input = frame.input;
        ||| input.over(rect) && input.mouse_clicked
        ||| self.focus_id is Some && focused == self.focus_id && (input.enter_pressed
            || input.key_space)
    }

    /// The scene after the checkbox.
    pub open spec fn drawn(
        &self,
        checked: bool,
        label: Seq<char>,
        center: Scalar,
        rect: Rect,
        told: Option<BoxEase>,
        frame: crate::context::Frame,
        scene: crate::context::Scene,
    ) -> crate::context::Scene {
        let hovered = frame.input.over(rect);
        let painted = crate::context::Scene {
            list: self.painted(
                scene.list,
                checked,
                label,
                center,
                rect,
                self.ease(told, checked, hovered, &frame.styles),
                &frame.styles,
            ),
            ..scene.pointed(hovered, CursorIcon::Pointer)
        };
        painted.focus_handled(
            frame,
            self.focus_id,
            hovered && frame.input.mouse_clicked,
            Rect { x: rect.x, y: rect.y, width: rect.height, height: rect.height },
        )
    }

    /// Draw the checkbox: a square box as tall as `rect`, its label beside it.
    /// Tells whether it was toggled. `center` is where the visual center of the
    /// label lies below its top, in em; `told` is what the box is eased to.
    pub fn draw(
        &self,
        checked: bool,
        label: &str,
        center: Scalar,
        rect: Rect,
        told: Option<BoxEase>,
        ctx: &mut DrawContext,
    ) -> (toggled: bool)
        requires
            old(ctx).frame.wf(),
        ensures
            toggled == self.toggled(rect, old(ctx).frame, old(ctx)@.focus.focused),
            final(ctx)@ == self.drawn(
                checked,
                label@,
                center,
                rect,
                told,
                old(ctx).frame,
                old(ctx)@,
            ),
            final(ctx).frame == old(ctx).frame,
    {
        let hovered = ctx.frame.input.over(rect);
        if hovered {
            ctx.request_cursor(CursorIcon::Pointer);
        }
        let clicked = hovered && ctx.frame.input.mouse_clicked;
        let ease = self.ease(told, checked, hovered, &ctx.frame.styles);
        self.paint(&mut ctx.draw_list, checked, label, center, rect, ease, &ctx.frame.styles);
        let key = ctx.frame.input.enter_pressed || ctx.frame.input.key_space;
        let at = Rect { x: rect.x, y: rect.y, width: rect.height, height: rect.height };
        let by_key = ctx.handle_focus(self.focus_id, clicked, key, at);
        clicked || by_key
    }
}

impl Default for Checkbox {
    fn default() -> (r: Self)
        ensures
            r == (Checkbox { style: BoxStyle::Vector, focus_id: None, anim_id: None }),
    {
        Checkbox::new()
    }
}

/// Where another surface took the pointer, a checkbox without the focus is not
/// toggled.
pub proof fn law_consumed_pointer_does_not_toggle(
    c: Checkbox,
    rect: Rect,
    frame: crate::context::Frame,
    focused: Option<FocusId>,
)
    requires
        frame.input.mouse_consumed,
        c.focus_id is None || focused != c.focus_id,
    ensures
        !c.toggled(rect, frame, focused),
{
}

/// A checkbox that takes no focus ignores the keyboard.
pub proof fn law_unfocusable_ignores_keys(
    c: Checkbox,
    rect: Rect,
    frame: crate::context::Frame,
    focused: Option<FocusId>,
)
    requires
        c.focus_id is None,
    ensures
        c.toggled(rect, frame, focused) == (frame.input.over(rect) && frame.input.mouse_clicked),
{
}

/// Without a word from animation an animated checkbox draws what a plain one
/// draws.
pub proof fn law_animation_is_optional(
    c: Checkbox,
    id: u64,
    checked: bool,
    label: Seq<char>,
    center: Scalar,
    rect: Rect,
    frame: crate::context::Frame,
    scene: crate::context::Scene,
)
    ensures
        (Checkbox { anim_id: Some(id), ..c }).drawn(
            checked,
            label,
            center,
            rect,
            None,
            frame,
            scene,
        ) == (Checkbox { anim_id: None, ..c }).drawn(
            checked,
            label,
            center,
            rect,
            None,
            frame,
            scene,
        ),
{
    reveal(Checkbox::painted);
}

/// A click toggles, and so do Enter and Space while the checkbox has the focus; nothing
/// else does.
pub proof fn law_clicks_and_keys_toggle(c: Checkbox, rect: Rect, frame: crate::context::Frame, focused: Option<FocusId>)
    ensures
        ({
            let on = c.toggled(rect, frame, focused);
            let clicked = frame.input.over(rect) && frame.input.mouse_clicked;
            let has = c.focus_id is Some && focused == c.focus_id;
            &&& clicked ==> on
            &&& has && frame.input.enter_pressed ==> on
            &&& has && frame.input.key_space ==> on
            &&& on ==> clicked || has
        }),
{
}

/// Against a background that is no darker than one that black stands out against, black
/// stands out too.
pub proof fn law_black_on_light_white_on_dark(dark: Color, light: Color)
    requires
        crate::geometry::ordinary(dark),
        crate::geometry::ordinary(light),
        dark.r.val() <= light.r.val(),
        dark.g.val() <= light.g.val(),
        dark.b.val() <= light.b.val(),
        contrast_color(dark) == Color::black(whole(1)),
    ensures
        contrast_color(light) == Color::black(whole(1)),
{
    lemma_weight(2126, dark.r, light.r);
    lemma_weight(7152, dark.g, light.g);
    lemma_weight(722, dark.b, light.b);
    rounding::law_zero_and_one();
    rounding::law_unit_is_large();
    assert(Color::black(whole(1)) != Color::white(whole(1)));
    let a = ratio(2126, 10000);
    let b = ratio(7152, 10000);
    let c = ratio(722, 10000);
    let r0 = a.times(dark.r);
    let r1 = a.times(light.r);
    let g0 = b.times(dark.g);
    let g1 = b.times(light.g);
    let b0 = c.times(dark.b);
    let b1 = c.times(light.b);
    lemma_sums(r0, r1, g0, g1);
    rounding::law_plus_finite(r0, g0);
    rounding::law_plus_finite(r1, g1);
    rounding::law_plus_rounds(r0, g0);
    rounding::law_plus_rounds(r1, g1);
    lemma_sums(r0.plus(g0), r1.plus(g1), b0, b1);
    reveal(Scalar::spec_le);
    reveal(Scalar::spec_lt);
}

proof fn lemma_weight(n: u64, x: Scalar, y: Scalar)
    requires
        0 < n < 10000,
        rounding::ordinary(x),
        rounding::ordinary(y),
        x.val() <= y.val(),
    ensures
        rounding::ordinary(ratio(n, 10000).times(x)),
        rounding::ordinary(ratio(n, 10000).times(y)),
        ratio(n, 10000).times(x).le(ratio(n, 10000).times(y)),
{
    rounding::law_zero_and_one();
    rounding::law_unit_is_large();
    let u = rounding::unit();
    let k = n as int;
    crate::scalar::law_whole_exact(n);
    crate::scalar::law_whole_exact(10000);
    assert((k * u) * u <= u * (10000 * u) && (k * u) * (10000 * u) >= 0 && k * u >= u) by (nonlinear_arith)
        requires
            0 < k < 10000,
            u > 0,
    ;
    rounding::law_over_bounded(whole(n), whole(10000), whole(1));
    rounding::law_over_whole(whole(n), 10000);
    let q = ratio(n, 10000);
    let f = q.val();
    assert(f > 0) by {
        if f == 0 {
            assert(0x100_0000 * (k * u) <= k * u + 10000 * 0x80_0000);
        }
    }
    assert(x.le(y)) by {
        reveal(Scalar::spec_le);
    }
    rounding::law_times_monotone(x, y, q);
    rounding::law_times_commutes(x, q);
    rounding::law_times_commutes(y, q);
    let a = x.val();
    let b = y.val();
    assert(rounding::size(f * a) <= rounding::size(a) * u) by (nonlinear_arith)
        requires
            0 <= f <= u,
    ;
    assert(rounding::size(f * b) <= rounding::size(b) * u) by (nonlinear_arith)
        requires
            0 <= f <= u,
    ;
    rounding::law_times_bounded(q, x, x);
    rounding::law_times_bounded(q, y, y);
}

proof fn lemma_sums(a: Scalar, b: Scalar, c: Scalar, d: Scalar)
    requires
        a.is_finite(),
        b.is_finite(),
        c.is_finite(),
        d.is_finite(),
        a.le(b),
        c.le(d),
    ensures
        a.plus(c).le(b.plus(d)),
{
    rounding::law_plus_monotone(a, b, c);
    rounding::law_plus_monotone(c, d, b);
    crate::scalar::law_plus_commutes(b, c);
    crate::scalar::law_plus_commutes(b, d);
    reveal(Scalar::spec_le);
}

} // verus!
