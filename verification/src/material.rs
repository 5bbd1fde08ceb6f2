//! The control material: a face plate that rests on a plinth.
//!
//! Every raised control is a dark slab, the plinth, with a face on it that is a
//! little shorter: at rest the face sits at the top, pressed it drops to the
//! bottom. Sunken surfaces are dark, with a shadow under their top edge.

use crate::draw_list::{DrawList, DrawState};
use crate::geometry::{Color, Rect};
use crate::rounding;
use crate::scalar::{ratio, whole, Scalar};
use crate::style::{StyleKey, StyleResolver};
use vstd::prelude::*;

verus! {

/// Which face a control wears.
#[derive(Clone, Copy, Debug, PartialEq, Eq, Structural)]
pub enum Tone {
    /// Raised neutral face.
    Default,
    /// Raised accent face.
    Accent,
    /// Raised danger face.
    Danger,
    /// No plinth; the face only shows on hover and press.
    Bare,
    /// Sunken.
    Sunken,
}

/// A control's material state.
#[derive(Clone, Copy, Debug, PartialEq, Eq, Structural)]
pub struct Material {
    /// Which face.
    pub tone: Tone,
    /// A disabled control fades.
    pub enabled: bool,
    /// Hovered.
    pub hovered: bool,
    /// Pressed.
    pub pressed: bool,
}

impl Default for Tone {
    fn default() -> (r: Self)
        ensures
            r == Tone::Default,
    {
        Tone::Default
    }
}

impl Material {
    pub open spec fn spec_new(tone: Tone) -> Material {
        Material { tone, enabled: true, hovered: false, pressed: false }
    }

    /// A material in `tone`, enabled, at rest.
    #[verifier::when_used_as_spec(spec_new)]
    pub fn new(tone: Tone) -> (r: Self)
        ensures
            r == Self::spec_new(tone),
    {
        Material { tone, enabled: true, hovered: false, pressed: false }
    }

    /// Enabled or not.
    pub fn enabled(self, enabled: bool) -> (r: Self)
        ensures
            r == (Material { enabled, ..self }),
    {
        Material { tone: self.tone, enabled, hovered: self.hovered, pressed: self.pressed }
    }

    /// Hovered or not.
    pub fn hovered(self, hovered: bool) -> (r: Self)
        ensures
            r == (Material { hovered, ..self }),
    {
        Material { tone: self.tone, enabled: self.enabled, hovered, pressed: self.pressed }
    }

    /// Pressed or not.
    pub fn pressed(self, pressed: bool) -> (r: Self)
        ensures
            r == (Material { pressed, ..self }),
    {
        Material { tone: self.tone, enabled: self.enabled, hovered: self.hovered, pressed }
    }

    pub open spec fn spec_dim(self, c: Color) -> Color {
        if self.enabled {
            c
        } else {
            c.with_alpha(c.a.times(ratio(45, 100)))
        }
    }

    /// The color faded where the control is disabled.
    #[verifier::when_used_as_spec(spec_dim)]
    pub fn dim(self, c: Color) -> (r: Color)
        ensures
            r == self.spec_dim(c),
    {
        if self.enabled {
            c
        } else {
            c.with_alpha(c.a.times(ratio(45, 100)))
        }
    }

    pub open spec fn spec_face(self, rect: Rect, travel: Scalar) -> Rect {
        Rect {
            x: rect.x,
            y: rect.y.plus(
                if self.enabled && self.pressed {
                    travel
                } else {
                    whole(0)
                },
            ),
            width: rect.width,
            height: rect.height.minus(travel).at_least(whole(0)),
        }
    }

    /// Where the face lies: `travel` shorter than the control, at its top at
    /// rest, at its bottom when pressed.
    #[verifier::when_used_as_spec(spec_face)]
    pub fn face(self, rect: Rect, travel: Scalar) -> (r: Rect)
        ensures
            r == self.spec_face(rect, travel),
    {
        Rect {
            x: rect.x,
            y: rect.y.plus(
                if self.enabled && self.pressed {
                    travel
                } else {
                    whole(0)
                },
            ),
            width: rect.width,
            height: rect.height.minus(travel).at_least(whole(0)),
        }
    }
}

pub open spec fn spec_sheen_over(base: Color, sheen: Color) -> Color {
    let a = sheen.a;
    let rest = base.a.times(whole(1).minus(a));
    let out = a.plus(rest);
    if out.le(whole(0)) {
        Color::clear()
    } else {
        Color {
            r: sheen.r.times(a).plus(base.r.times(base.a).times(whole(1).minus(a))).over(out),
            g: sheen.g.times(a).plus(base.g.times(base.a).times(whole(1).minus(a))).over(out),
            b: sheen.b.times(a).plus(base.b.times(base.a).times(whole(1).minus(a))).over(out),
            a: out,
        }
    }
}

/// A translucent color laid over another.
#[verifier::when_used_as_spec(spec_sheen_over)]
pub fn sheen_over(base: Color, sheen: Color) -> (r: Color)
    ensures
        r == spec_sheen_over(base, sheen),
{
    let a = sheen.a;
    let rest = base.a.times(whole(1).minus(a));
    let out = a.plus(rest);
    if out.le(whole(0)) {
        Color::clear()
    } else {
        Color {
            r: sheen.r.times(a).plus(base.r.times(base.a).times(whole(1).minus(a))).over(out),
            g: sheen.g.times(a).plus(base.g.times(base.a).times(whole(1).minus(a))).over(out),
            b: sheen.b.times(a).plus(base.b.times(base.a).times(whole(1).minus(a))).over(out),
            a: out,
        }
    }
}

/// One of three by state: pressed, else hovered, else at rest.
pub open spec fn spec_by_state<T>(pressed: bool, hovered: bool, p: T, h: T, idle: T) -> T {
    if pressed {
        p
    } else if hovered {
        h
    } else {
        idle
    }
}

/// The keys of a face by tone and state: its top, its bottom, its highlight, and
/// the color under the sheen where the tone has one.
pub struct FaceKeys {
    /// Top.
    pub top: StyleKey,
    /// Bottom.
    pub bottom: StyleKey,
    /// Highlight.
    pub highlight: StyleKey,
    /// Color under the sheen.
    pub base: Option<StyleKey>,
}

pub open spec fn spec_face_keys(tone: Tone, pressed: bool, hovered: bool) -> FaceKeys {
    FaceKeys {
        top: match tone {
            Tone::Accent => spec_by_state(
                pressed,
                hovered,
                StyleKey::AccentFaceTopPressed,
                StyleKey::AccentFaceTopHover,
                StyleKey::AccentFaceTop,
            ),
            Tone::Danger => spec_by_state(
                pressed,
                hovered,
                StyleKey::DangerFaceTopPressed,
                StyleKey::DangerFaceTopHover,
                StyleKey::DangerFaceTop,
            ),
            _ => spec_by_state(
                pressed,
                hovered,
                StyleKey::FaceTopPressed,
                StyleKey::FaceTopHover,
                StyleKey::FaceTop,
            ),
        },
        bottom: match tone {
            Tone::Accent => spec_by_state(
                pressed,
                hovered,
                StyleKey::AccentFaceBottomPressed,
                StyleKey::AccentFaceBottomHover,
                StyleKey::AccentFaceBottom,
            ),
            Tone::Danger => spec_by_state(
                pressed,
                hovered,
                StyleKey::DangerFaceBottomPressed,
                StyleKey::DangerFaceBottomHover,
                StyleKey::DangerFaceBottom,
            ),
            _ => spec_by_state(
                pressed,
                hovered,
                StyleKey::FaceBottomPressed,
                StyleKey::FaceBottomHover,
                StyleKey::FaceBottom,
            ),
        },
        highlight: spec_by_state(
            pressed,
            hovered,
            StyleKey::EdgeHighlightPressed,
            StyleKey::EdgeHighlightHover,
            StyleKey::EdgeHighlight,
        ),
        base: match tone {
            Tone::Accent => None,
            Tone::Danger => None,
            _ => Some(
                spec_by_state(
                    pressed,
                    hovered,
                    StyleKey::ButtonPressed,
                    StyleKey::ButtonHover,
                    StyleKey::Button,
                ),
            ),
        },
    }
}

/// The keys of a face by tone and state.
#[verifier::when_used_as_spec(spec_face_keys)]
pub fn face_keys(tone: Tone, pressed: bool, hovered: bool) -> (r: FaceKeys)
    ensures
        r == spec_face_keys(tone, pressed, hovered),
{
    let highlight = if pressed {
        StyleKey::EdgeHighlightPressed
    } else if hovered {
        StyleKey::EdgeHighlightHover
    } else {
        StyleKey::EdgeHighlight
    };
    match tone {
        Tone::Accent => {
            if pressed {
                FaceKeys {
                    top: StyleKey::AccentFaceTopPressed,
                    bottom: StyleKey::AccentFaceBottomPressed,
                    highlight,
                    base: None,
                }
            } else if hovered {
                FaceKeys {
                    top: StyleKey::AccentFaceTopHover,
                    bottom: StyleKey::AccentFaceBottomHover,
                    highlight,
                    base: None,
                }
            } else {
                FaceKeys {
                    top: StyleKey::AccentFaceTop,
                    bottom: StyleKey::AccentFaceBottom,
                    highlight,
                    base: None,
                }
            }
        },
        Tone::Danger => {
            if pressed {
                FaceKeys {
                    top: StyleKey::DangerFaceTopPressed,
                    bottom: StyleKey::DangerFaceBottomPressed,
                    highlight,
                    base: None,
                }
            } else if hovered {
                FaceKeys {
                    top: StyleKey::DangerFaceTopHover,
                    bottom: StyleKey::DangerFaceBottomHover,
                    highlight,
                    base: None,
                }
            } else {
                FaceKeys {
                    top: StyleKey::DangerFaceTop,
                    bottom: StyleKey::DangerFaceBottom,
                    highlight,
                    base: None,
                }
            }
        },
        _ => {
            if pressed {
                FaceKeys {
                    top: StyleKey::FaceTopPressed,
                    bottom: StyleKey::FaceBottomPressed,
                    highlight,
                    base: Some(StyleKey::ButtonPressed),
                }
            } else if hovered {
                FaceKeys {
                    top: StyleKey::FaceTopHover,
                    bottom: StyleKey::FaceBottomHover,
                    highlight,
                    base: Some(StyleKey::ButtonHover),
                }
            } else {
                FaceKeys {
                    top: StyleKey::FaceTop,
                    bottom: StyleKey::FaceBottom,
                    highlight,
                    base: Some(StyleKey::Button),
                }
            }
        },
    }
}

pub open spec fn spec_on_base(s: &StyleResolver, base: Option<StyleKey>, key: StyleKey) -> Color {
    match base {
        Some(base) => sheen_over(s.color(base), s.color(key)),
        None => s.color(key),
    }
}

/// The color of `key`, laid over the color of `base` where there is one.
#[verifier::when_used_as_spec(spec_on_base)]
pub fn on_base(s: &StyleResolver, base: Option<StyleKey>, key: StyleKey) -> (r: Color)
    ensures
        r == spec_on_base(s, base, key),
{
    match base {
        Some(base) => sheen_over(s.color(base), s.color(key)),
        None => s.color(key),
    }
}

pub open spec fn spec_band(face: Rect, height: Scalar) -> Rect {
    Rect {
        x: face.x.plus(whole(1)),
        y: face.y.plus(whole(1)),
        width: face.width.minus(whole(2)).at_least(whole(0)),
        height,
    }
}

/// A band under the top edge of a face, one pixel in from its sides.
#[verifier::when_used_as_spec(spec_band)]
pub fn band(face: Rect, height: Scalar) -> (r: Rect)
    ensures
        r == spec_band(face, height),
{
    Rect {
        x: face.x.plus(whole(1)),
        y: face.y.plus(whole(1)),
        width: face.width.minus(whole(2)).at_least(whole(0)),
        height,
    }
}

pub open spec fn spec_press_band(face: Rect) -> Rect {
    Rect {
        x: face.x.plus(whole(1)),
        y: face.y.plus(whole(1)),
        width: face.width.minus(whole(2)),
        height: whole(2),
    }
}

/// The shadow over a pressed face.
#[verifier::when_used_as_spec(spec_press_band)]
pub fn press_band(face: Rect) -> (r: Rect)
    ensures
        r == spec_press_band(face),
{
    Rect {
        x: face.x.plus(whole(1)),
        y: face.y.plus(whole(1)),
        width: face.width.minus(whole(2)),
        height: whole(2),
    }
}

/// What the shadow inside a sunken surface paints: a band that fades down from
/// the top edge, and a light line along the bottom edge.
#[verifier::opaque]
pub open spec fn inset_shadow(
    l: DrawState,
    s: &StyleResolver,
    rect: Rect,
    depth: Scalar,
    inset: Scalar,
) -> DrawState {
    let shadow = s.color(StyleKey::InnerShadow);
    let inner_w = rect.width.minus(whole(2).times(inset)).at_least(whole(0));
    let band_h = depth.at_least(whole(1)).at_most(
        rect.height.minus(whole(2).times(inset)).at_least(whole(0)),
    );
    let y = rect.y.plus(rect.height).minus(inset).minus(whole(1));
    let l = if whole(0).lt(band_h) {
        l.chrome_rect_gradient(
            Rect { x: rect.x.plus(inset), y: rect.y.plus(inset), width: inner_w, height: band_h },
            s.scalar(StyleKey::BorderRadius),
            whole(0),
            shadow,
            shadow.with_alpha(whole(0)),
            Color::clear(),
        )
    } else {
        l
    };
    if rect.y.plus(inset).lt(y) {
        l.quad(
            Rect { x: rect.x.plus(inset), y, width: inner_w, height: whole(1) },
            s.color(StyleKey::EdgeShadow),
        )
    } else {
        l
    }
}

/// Paint the shadow inside a sunken surface.
pub fn draw_inset_shadow(
    list: &mut DrawList,
    s: &StyleResolver,
    rect: Rect,
    depth: Scalar,
    inset: Scalar,
)
    ensures
        final(list)@ == inset_shadow(old(list)@, s, rect, depth, inset),
{
    proof {
        reveal(inset_shadow);
    }
    let shadow = s.color(StyleKey::InnerShadow);
    let inner_w = rect.width.minus(whole(2).times(inset)).at_least(whole(0));
    let band_h = depth.at_least(whole(1)).at_most(
        rect.height.minus(whole(2).times(inset)).at_least(whole(0)),
    );
    if whole(0).lt(band_h) {
        list.chrome_rect_gradient(
            Rect { x: rect.x.plus(inset), y: rect.y.plus(inset), width: inner_w, height: band_h },
            s.scalar(StyleKey::BorderRadius),
            whole(0),
            shadow,
            shadow.with_alpha(whole(0)),
            Color::clear(),
        );
    }
    let y = rect.y.plus(rect.height).minus(inset).minus(whole(1));
    if rect.y.plus(inset).lt(y) {
        list.quad(
            Rect { x: rect.x.plus(inset), y, width: inner_w, height: whole(1) },
            s.color(StyleKey::EdgeShadow),
        );
    }
}

/// What a raised control paints: the plinth where the face travels, the face,
/// the shadow over it while pressed, and the line under its top edge.
#[verifier::opaque]
pub open spec fn raised(l: DrawState, s: &StyleResolver, rect: Rect, radius: Scalar, m: Material) -> DrawState {
    let travel = s.scalar(StyleKey::Travel);
    let face = m.face(rect, travel);
    let pressed = m.enabled && m.pressed;
    let keys = face_keys(m.tone, pressed, m.enabled && m.hovered);
    let l = if whole(0).lt(travel) {
        l.chrome_rect(
            rect,
            radius,
            whole(0),
            m.dim(s.color(StyleKey::Plinth)),
            Color::clear(),
        )
    } else {
        l
    };
    let l = l.chrome_rect_gradient(
        face,
        radius,
        whole(1),
        m.dim(on_base(s, keys.base, keys.top)),
        m.dim(on_base(s, keys.base, keys.bottom)),
        m.dim(Color::black(ratio(1, 2))),
    );
    let l = if pressed {
        l.chrome_rect(
            press_band(face),
            radius,
            whole(0),
            m.dim(s.color(StyleKey::InnerShadow)),
            Color::clear(),
        )
    } else {
        l
    };
    l.quad(band(face, whole(1)), m.dim(s.color(keys.highlight)))
}

fn draw_raised(list: &mut DrawList, s: &StyleResolver, rect: Rect, radius: Scalar, m: Material)
    ensures
        final(list)@ == raised(old(list)@, s, rect, radius, m),
{
    proof {
        reveal(raised);
    }
    let travel = s.scalar(StyleKey::Travel);
    let face = m.face(rect, travel);
    let pressed = m.enabled && m.pressed;
    let keys = face_keys(m.tone, pressed, m.enabled && m.hovered);
    if whole(0).lt(travel) {
        list.chrome_rect(
            rect,
            radius,
            whole(0),
            m.dim(s.color(StyleKey::Plinth)),
            Color::clear(),
        );
    }
    list.chrome_rect_gradient(
        face,
        radius,
        whole(1),
        m.dim(on_base(s, keys.base, keys.top)),
        m.dim(on_base(s, keys.base, keys.bottom)),
        m.dim(Color::black(ratio(1, 2))),
    );
    if pressed {
        list.chrome_rect(
            press_band(face),
            radius,
            whole(0),
            m.dim(s.color(StyleKey::InnerShadow)),
            Color::clear(),
        );
    }
    list.quad(band(face, whole(1)), m.dim(s.color(keys.highlight)));
}

/// What a ghost control paints: a face that is clear at rest, a faint border,
/// the shadow while pressed, and the line under its top edge while hovered or
/// pressed.
#[verifier::opaque]
pub open spec fn ghost_face(l: DrawState, s: &StyleResolver, rect: Rect, radius: Scalar, m: Material) -> DrawState {
    let face = m.face(rect, s.scalar(StyleKey::Travel));
    let active = m.enabled && (m.pressed || m.hovered);
    let pressed = m.enabled && m.pressed;
    let keys = face_keys(Tone::Bare, pressed, active);
    let l = l.chrome_rect_gradient(
        face,
        radius,
        whole(1),
        m.dim(
            if active {
                s.color(keys.top)
            } else {
                Color::clear()
            },
        ),
        m.dim(
            if active {
                s.color(keys.bottom)
            } else {
                Color::clear()
            },
        ),
        m.dim(
            Color::black(
                if active {
                    ratio(4, 10)
                } else {
                    ratio(1, 4)
                },
            ),
        ),
    );
    let l = if pressed {
        l.chrome_rect(
            press_band(face),
            radius,
            whole(0),
            m.dim(s.color(StyleKey::InnerShadow)),
            Color::clear(),
        )
    } else {
        l
    };
    if active {
        l.quad(band(face, whole(1)), m.dim(s.color(keys.highlight)))
    } else {
        l
    }
}

fn draw_ghost(list: &mut DrawList, s: &StyleResolver, rect: Rect, radius: Scalar, m: Material)
    ensures
        final(list)@ == ghost_face(old(list)@, s, rect, radius, m),
{
    proof {
        reveal(ghost_face);
    }
    let face = m.face(rect, s.scalar(StyleKey::Travel));
    let active = m.enabled && (m.pressed || m.hovered);
    let pressed = m.enabled && m.pressed;
    let keys = face_keys(Tone::Bare, pressed, active);
    let top = if active {
        s.color(keys.top)
    } else {
        Color::clear()
    };
    let bottom = if active {
        s.color(keys.bottom)
    } else {
        Color::clear()
    };
    let edge = if active {
        ratio(4, 10)
    } else {
        ratio(1, 4)
    };
    list.chrome_rect_gradient(
        face,
        radius,
        whole(1),
        m.dim(top),
        m.dim(bottom),
        m.dim(Color::black(edge)),
    );
    if pressed {
        list.chrome_rect(
            press_band(face),
            radius,
            whole(0),
            m.dim(s.color(StyleKey::InnerShadow)),
            Color::clear(),
        );
    }
    if active {
        list.quad(band(face, whole(1)), m.dim(s.color(keys.highlight)));
    }
}

/// What a sunken control paints: a dark surface with a border, and the shadow
/// inside it.
#[verifier::opaque]
pub open spec fn sunken(l: DrawState, s: &StyleResolver, rect: Rect, radius: Scalar, m: Material) -> DrawState {
    inset_shadow(
        l.chrome_rect(
            rect,
            radius,
            whole(1),
            m.dim(s.color(StyleKey::InputBackground)),
            m.dim(Color::black(ratio(6, 10))),
        ),
        s,
        rect,
        s.scalar(StyleKey::InnerShadowDepth),
        whole(1),
    )
}

fn draw_sunken(list: &mut DrawList, s: &StyleResolver, rect: Rect, radius: Scalar, m: Material)
    ensures
        final(list)@ == sunken(old(list)@, s, rect, radius, m),
{
    proof {
        reveal(sunken);
    }
    list.chrome_rect(
        rect,
        radius,
        whole(1),
        m.dim(s.color(StyleKey::InputBackground)),
        m.dim(Color::black(ratio(6, 10))),
    );
    draw_inset_shadow(list, s, rect, s.scalar(StyleKey::InnerShadowDepth), whole(1));
}

/// What a control's material paints, by its tone.
pub open spec fn material_drawn(
    l: DrawState,
    s: &StyleResolver,
    rect: Rect,
    radius: Scalar,
    m: Material,
) -> DrawState {
    match m.tone {
        Tone::Bare => ghost_face(l, s, rect, radius, m),
        Tone::Sunken => sunken(l, s, rect, radius, m),
        _ => raised(l, s, rect, radius, m),
    }
}

/// Paint a control's material with the style's corner radius. Gives the
/// rectangle of the face, for the label.
pub fn draw(list: &mut DrawList, s: &StyleResolver, rect: Rect, m: &Material) -> (face: Rect)
    ensures
        final(list)@ == material_drawn(
            old(list)@,
            s,
            rect,
            s.scalar(StyleKey::BorderRadius),
            *m,
        ),
        face == m.face(rect, s.scalar(StyleKey::Travel)),
{
    draw_with_radius(list, s, rect, s.scalar(StyleKey::BorderRadius), m)
}

/// Paint a control's material with this corner radius. Gives the rectangle of
/// the face.
pub fn draw_with_radius(
    list: &mut DrawList,
    s: &StyleResolver,
    rect: Rect,
    radius: Scalar,
    m: &Material,
) -> (face: Rect)
    ensures
        final(list)@ == material_drawn(old(list)@, s, rect, radius, *m),
        face == m.face(rect, s.scalar(StyleKey::Travel)),
{
    match m.tone {
        Tone::Bare => draw_ghost(list, s, rect, radius, *m),
        Tone::Sunken => draw_sunken(list, s, rect, radius, *m),
        _ => draw_raised(list, s, rect, radius, *m),
    }
    m.face(rect, s.scalar(StyleKey::Travel))
}

/// What a well paints: the sunken field that text is entered in.
#[verifier::opaque]
pub open spec fn well_simple(
    l: DrawState,
    s: &StyleResolver,
    rect: Rect,
    focused: bool,
    invalid: bool,
) -> DrawState {
    let field = s.color(StyleKey::InputBackground);
    let border_w = s.scalar(StyleKey::BorderWidth);
    inset_shadow(
        l.chrome_rect(
            rect,
            s.scalar(StyleKey::BorderRadius),
            border_w,
            if focused {
                field.with_alpha(field.a.plus(ratio(8, 100)).at_most(whole(1)))
            } else {
                field
            },
            if invalid {
                s.color(StyleKey::Error)
            } else if focused {
                s.color(StyleKey::Accent)
            } else {
                s.color(StyleKey::InputBorder)
            },
        ),
        s,
        rect,
        s.scalar(StyleKey::InnerShadowDepth),
        border_w,
    )
}

/// Paint the field that text is entered in: its border is the accent while
/// focused and the error color while invalid.
pub fn draw_well_simple(
    list: &mut DrawList,
    s: &StyleResolver,
    rect: Rect,
    focused: bool,
    invalid: bool,
)
    ensures
        final(list)@ == well_simple(old(list)@, s, rect, focused, invalid),
{
    proof {
        reveal(well_simple);
    }
    let field = s.color(StyleKey::InputBackground);
    let border_w = s.scalar(StyleKey::BorderWidth);
    let fill = if focused {
        field.with_alpha(field.a.plus(ratio(8, 100)).at_most(whole(1)))
    } else {
        field
    };
    let border = if invalid {
        s.color(StyleKey::Error)
    } else if focused {
        s.color(StyleKey::Accent)
    } else {
        s.color(StyleKey::InputBorder)
    };
    list.chrome_rect(rect, s.scalar(StyleKey::BorderRadius), border_w, fill, border);
    draw_inset_shadow(list, s, rect, s.scalar(StyleKey::InnerShadowDepth), border_w);
}

/// What a well with its ring paints.
pub open spec fn well(
    l: DrawState,
    s: &StyleResolver,
    rect: Rect,
    focused: bool,
    invalid: bool,
) -> DrawState {
    let l = well_simple(l, s, rect, focused, invalid);
    if focused || invalid {
        l.rounded_rect_outline(
            rect,
            s.scalar(StyleKey::BorderRadius).plus(ratio(1, 2)),
            whole(1),
            (if invalid {
                s.color(StyleKey::Error)
            } else {
                s.color(StyleKey::Accent)
            }).with_alpha(ratio(16, 100)),
        )
    } else {
        l
    }
}

/// Paint the field that text is entered in, with a soft ring while it is focused
/// or invalid.
pub fn draw_well(list: &mut DrawList, s: &StyleResolver, rect: Rect, focused: bool, invalid: bool)
    ensures
        final(list)@ == well(old(list)@, s, rect, focused, invalid),
{
    draw_well_simple(list, s, rect, focused, invalid);
    if focused || invalid {
        let ring = if invalid {
            s.color(StyleKey::Error)
        } else {
            s.color(StyleKey::Accent)
        };
        list.rounded_rect_outline(
            rect,
            s.scalar(StyleKey::BorderRadius).plus(ratio(1, 2)),
            whole(1),
            ring.with_alpha(ratio(16, 100)),
        );
    }
}

/// A disabled control shows no hover and no press.
pub proof fn law_disabled_is_at_rest(
    l: DrawState,
    s: &StyleResolver,
    rect: Rect,
    radius: Scalar,
    tone: Tone,
    hovered: bool,
    pressed: bool,
)
    ensures
        material_drawn(l, s, rect, radius, Material { tone, enabled: false, hovered, pressed })
            == material_drawn(
            l,
            s,
            rect,
            radius,
            Material { tone, enabled: false, hovered: false, pressed: false },
        ),
{
    reveal(raised);
    reveal(ghost_face);
    reveal(sunken);
}

/// The face never changes size: pressing moves it.
pub proof fn law_press_moves_the_face(rect: Rect, travel: Scalar, m: Material)
    ensures
        m.face(rect, travel).height == (Material { pressed: !m.pressed, ..m }).face(
            rect,
            travel,
        ).height,
        m.face(rect, travel).width == rect.width,
        m.face(rect, travel).x == rect.x,
{
}

/// The identity of a widget that keeps no state, from its name and place.
pub open spec fn place_hash(h: u64, bytes: Seq<u8>) -> u64
    decreases bytes.len(),
{
    if bytes.len() == 0 {
        h
    } else {
        (place_hash(h, bytes.drop_last()) ^ (bytes.last() as u64)).wrapping_mul(0x100_0000_01b3)
    }
}

/// The four bytes of a scalar, the lowest first.
pub open spec fn le_bytes(bits: u32) -> Seq<u8> {
    seq![
        (bits % 256) as u8,
        (bits / 256 % 256) as u8,
        (bits / 65536 % 256) as u8,
        (bits / 16777216) as u8,
    ]
}

/// The bytes that stand for a name and a place.
pub open spec fn identity_bytes(name: Seq<char>, rect: Rect) -> Seq<u8> {
    vstd::utf8::encode_utf8(name) + le_bytes(rect.x.bits) + le_bytes(rect.y.bits) + le_bytes(
        rect.width.bits,
    ) + le_bytes(rect.height.bits)
}

proof fn lemma_hash_append(h: u64, a: Seq<u8>, b: Seq<u8>)
    ensures
        place_hash(h, a + b) == place_hash(place_hash(h, a), b),
    decreases b.len(),
{
    if b.len() == 0 {
        assert(a + b =~= a);
    } else {
        assert((a + b).drop_last() =~= a + b.drop_last());
        lemma_hash_append(h, a, b.drop_last());
    }
}

fn hash_scalar(h: u64, s: Scalar) -> (r: u64)
    ensures
        r == place_hash(h, le_bytes(s.bits)),
{
    let b: u32 = s.bits;
    let b0: u8 = (b % 256) as u8;
    let b1: u8 = (b / 256 % 256) as u8;
    let b2: u8 = (b / 65536 % 256) as u8;
    let b3: u8 = (b / 16777216) as u8;
    let h0: u64 = (h ^ b0 as u64).wrapping_mul(0x100_0000_01b3);
    let h1: u64 = (h0 ^ b1 as u64).wrapping_mul(0x100_0000_01b3);
    let h2: u64 = (h1 ^ b2 as u64).wrapping_mul(0x100_0000_01b3);
    let h3: u64 = (h2 ^ b3 as u64).wrapping_mul(0x100_0000_01b3);
    proof {
        let all = le_bytes(b);
        reveal_with_fuel(place_hash, 5);
        assert(all.drop_last() =~= seq![b0, b1, b2]);
        assert(seq![b0, b1, b2].drop_last() =~= seq![b0, b1]);
        assert(seq![b0, b1].drop_last() =~= seq![b0]);
        assert(seq![b0].drop_last() =~= Seq::<u8>::empty());
    }
    h3
}

/// A stable identity for a widget that keeps none, from its name and its
/// rectangle (a 64-bit FNV-1a hash): a widget that moves gets another.
pub fn focus_id_for(name: &str, rect: &Rect) -> (r: u64)
    ensures
        r == place_hash(0xcbf2_9ce4_8422_2325, identity_bytes(name@, *rect)),
{
    let bytes = name.as_bytes();
    let mut h: u64 = 0xcbf2_9ce4_8422_2325;
    let mut i: usize = 0;
    assert(bytes@.take(0) =~= Seq::<u8>::empty());
    while i < bytes.len()
        invariant
            i <= bytes@.len(),
            h == place_hash(0xcbf2_9ce4_8422_2325, bytes@.take(i as int)),
        decreases bytes@.len() - i,
    {
        assert(bytes@.take(i + 1).drop_last() =~= bytes@.take(i as int));
        h = (h ^ bytes[i] as u64).wrapping_mul(0x100_0000_01b3);
        i = i + 1;
    }
    assert(bytes@.take(i as int) =~= bytes@);
    let ghost start = 0xcbf2_9ce4_8422_2325u64;
    let ghost n = bytes@;
    let h1: u64 = hash_scalar(h, rect.x);
    let h2: u64 = hash_scalar(h1, rect.y);
    let h3: u64 = hash_scalar(h2, rect.width);
    let h4: u64 = hash_scalar(h3, rect.height);
    proof {
        let a = n + le_bytes(rect.x.bits);
        let b = a + le_bytes(rect.y.bits);
        let c = b + le_bytes(rect.width.bits);
        lemma_hash_append(start, n, le_bytes(rect.x.bits));
        lemma_hash_append(start, a, le_bytes(rect.y.bits));
        lemma_hash_append(start, b, le_bytes(rect.width.bits));
        lemma_hash_append(start, c, le_bytes(rect.height.bits));
    }
    h4
}

/// The face of a key lies at the top of its place and leaves its travel below; pressed,
/// it goes down by its travel, to the lower edge.
pub proof fn law_pressed_face_goes_down(rect: Rect, travel: Scalar, tone: Tone, hovered: bool, x: int, y: int, w: int, h: int, t: int)
    requires
        crate::geometry::in_steps(rect, x, y, w, h),
        rounding::in_steps(travel, t),
        0 <= t <= h,
    ensures
        crate::geometry::in_steps(
            (Material { tone, enabled: true, hovered, pressed: false }).face(rect, travel),
            x,
            y,
            w,
            h - t,
        ),
        rounding::in_steps(
            (Material { tone, enabled: true, hovered, pressed: true }).face(rect, travel).y,
            y + t,
        ),
{
    rounding::law_one_in_steps();
    rounding::law_plus_steps(rect.y, whole(0), y, 0);
    rounding::law_plus_steps(rect.y, travel, y, t);
    rounding::law_minus_steps(rect.height, travel, h, t);
    rounding::law_steps_compare(rect.height.minus(travel), whole(0), h - t, 0);
}

/// The line of light on a face lies a pixel within its upper, left and right edges, and
/// so does the shade of a pressed one, two pixels high.
pub proof fn law_bands_lie_within_the_face(face: Rect, height: Scalar, x: int, y: int, w: int, h: int)
    requires
        crate::geometry::in_steps(face, x, y, w, h),
        512 <= w,
    ensures
        ({
            let b = band(face, height);
            let p = press_band(face);
            &&& rounding::in_steps(b.x, x + 256) && rounding::in_steps(b.y, y + 256)
            &&& rounding::in_steps(b.width, w - 512) && b.height == height
            &&& rounding::in_steps(p.x, x + 256) && rounding::in_steps(p.y, y + 256)
            &&& rounding::in_steps(p.width, w - 512) && rounding::in_steps(p.height, 512)
        }),
{
    rounding::law_one_in_steps();
    rounding::law_whole_in_steps(2);
    rounding::law_plus_steps(face.x, whole(1), x, 256);
    rounding::law_plus_steps(face.y, whole(1), y, 256);
    rounding::law_minus_steps(face.width, whole(2), w, 512);
    rounding::law_steps_compare(face.width.minus(whole(2)), whole(0), w - 512, 0);
}

/// A sheen that covers shows as itself, and one that is clear shows what is under it.
pub proof fn law_sheen_covers_by_its_alpha(base: Color, sheen: Color)
    requires
        crate::geometry::ordinary(base),
        crate::geometry::ordinary(sheen),
    ensures
        sheen.a.val() == rounding::unit() ==> crate::geometry::alike(
            sheen_over(base, sheen),
            sheen,
        ),
        sheen.a.val() == 0 && base.a.val() == rounding::unit() ==> crate::geometry::alike(
            sheen_over(base, sheen),
            base,
        ),
{
    rounding::law_zero_and_one();
    rounding::law_unit_is_large();
    let a = sheen.a;
    if a.val() == rounding::unit() || (a.val() == 0 && base.a.val() == rounding::unit()) {
        let left = whole(1).minus(a);
        let u = rounding::unit();
        rounding::law_minus_finite(whole(1), a);
        rounding::law_minus_rounds(whole(1), a);
        if a.val() == 0 {
            rounding::law_negate_exact(a);
            crate::scalar::law_plus_exact(whole(1), a.negate(), whole(1));
        }
        assert(left.val() == u - a.val());
        let rest = base.a.times(left);
        lemma_share(base.a, left);
        crate::scalar::law_plus_exact(a, rest, whole(1));
        let out = a.plus(rest);
        assert(!out.le(whole(0))) by {
            reveal(Scalar::spec_le);
        }
        lemma_sheen(sheen.r, a, base.r, base.a, left, out);
        lemma_sheen(sheen.g, a, base.g, base.a, left, out);
        lemma_sheen(sheen.b, a, base.b, base.a, left, out);
    }
}

/// All or nothing of a number.
proof fn lemma_share(x: Scalar, t: Scalar)
    requires
        x.is_finite(),
        t.is_finite(),
        t.val() == 0 || t.val() == rounding::unit(),
    ensures
        x.times(t).is_finite(),
        x.times(t).val() == if t.val() == 0 {
            0
        } else {
            x.val()
        },
{
    rounding::law_zero_and_one();
    let u = rounding::unit();
    let v = x.val();
    assert(v * 0 == 0 * u) by (nonlinear_arith);
    if t.val() == 0 {
        rounding::law_times_exact(x, t, whole(0));
    } else {
        rounding::law_times_exact(x, t, x);
    }
}

proof fn lemma_sheen(s: Scalar, a: Scalar, b: Scalar, c: Scalar, left: Scalar, out: Scalar)
    requires
        s.is_finite(),
        b.is_finite(),
        c.is_finite(),
        rounding::ordinary(b),
        rounding::ordinary(c),
        a.is_finite(),
        left.is_finite(),
        out.is_finite(),
        out.val() == rounding::unit(),
        left.val() == rounding::unit() - a.val(),
        a.val() == rounding::unit() || (a.val() == 0 && c.val() == rounding::unit()),
    ensures
        s.times(a).plus(b.times(c).times(left)).over(out).is_finite(),
        s.times(a).plus(b.times(c).times(left)).over(out).val() == if a.val() == 0 {
            b.val()
        } else {
            s.val()
        },
{
    rounding::law_zero_and_one();
    let u = rounding::unit();
    let x = b.val();
    let y = c.val();
    assert(rounding::size(x * y) <= 0x1_0000_0000_0000_0000 * (u * u)) by (nonlinear_arith)
        requires
            rounding::size(x) <= 0x1_0000_0000 * u,
            rounding::size(y) <= 0x1_0000_0000 * u,
            u > 0,
    ;
    rounding::law_times_finite(b, c);
    lemma_share(s, a);
    lemma_share(b.times(c), left);
    if a.val() == 0 {
        lemma_share(b, c);
        crate::scalar::law_plus_exact(s.times(a), b.times(c).times(left), b);
        rounding::law_over_exact(s.times(a).plus(b.times(c).times(left)), out, b);
    } else {
        crate::scalar::law_plus_exact(s.times(a), b.times(c).times(left), s);
        rounding::law_over_exact(s.times(a).plus(b.times(c).times(left)), out, s);
    }
}

} // verus!
