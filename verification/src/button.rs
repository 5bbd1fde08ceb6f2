//! Text buttons.
//!
//! A button shows its label on the control material. A bare one shows the label
//! alone, with a translucent overlay while it is hovered, pressed or disabled.

use crate::context::{vcentered, CursorIcon, DrawContext, Label, Response};
use crate::draw_list::DrawList;
use crate::focus::FocusId;
use crate::geometry::{Color, Point, Rect};
use crate::material::{draw_with_radius, Material, Tone};
use crate::scalar::{ratio, whole, Scalar};
use crate::style::{StyleKey, StyleResolver};
use crate::text::{scope_name, TextBlock};
use vstd::prelude::*;

verus! {

/// The interaction state that a button shows.
#[derive(Clone, Copy, Debug, PartialEq, Eq, Structural)]
pub struct ButtonVisual {
    /// Enabled.
    pub enabled: bool,
    /// Hovered.
    pub hovered: bool,
    /// Pressed.
    pub pressed: bool,
    /// Which face it wears.
    pub tone: Tone,
}

impl ButtonVisual {
    pub open spec fn spec_material(self) -> Material {
        Material {
            tone: self.tone,
            enabled: self.enabled,
            hovered: self.hovered,
            pressed: self.pressed,
        }
    }

    /// The material in this state.
    #[verifier::when_used_as_spec(spec_material)]
    pub fn material(self) -> (r: Material)
        ensures
            r == self.spec_material(),
    {
        Material::new(self.tone).enabled(self.enabled).hovered(self.hovered).pressed(self.pressed)
    }

    pub open spec fn spec_bg_color(self, s: &StyleResolver) -> Color {
        if !self.enabled {
            s.color(StyleKey::Button).with_alpha(ratio(1, 2))
        } else if self.pressed {
            s.color(StyleKey::ButtonPressed)
        } else if self.hovered {
            s.color(StyleKey::ButtonHover)
        } else {
            s.color(StyleKey::Button)
        }
    }

    /// The color under the sheen in this state; a disabled button dims it.
    #[verifier::when_used_as_spec(spec_bg_color)]
    pub fn bg_color(self, s: &StyleResolver) -> (r: Color)
        ensures
            r == self.spec_bg_color(s),
    {
        if !self.enabled {
            s.color(StyleKey::Button).with_alpha(ratio(1, 2))
        } else if self.pressed {
            s.color(StyleKey::ButtonPressed)
        } else if self.hovered {
            s.color(StyleKey::ButtonHover)
        } else {
            s.color(StyleKey::Button)
        }
    }

    pub open spec fn spec_overlay(self) -> Option<Color> {
        if !self.enabled {
            Some(Color::black(ratio(4, 10)))
        } else if self.pressed {
            Some(Color::black(ratio(2, 10)))
        } else if self.hovered {
            Some(Color::white(ratio(8, 100)))
        } else {
            None
        }
    }

    /// What lies over a bare button: a dim when disabled, a darkening when
    /// pressed, a faint light when hovered, nothing at rest.
    #[verifier::when_used_as_spec(spec_overlay)]
    pub fn overlay(self) -> (r: Option<Color>)
        ensures
            r == self.spec_overlay(),
    {
        if !self.enabled {
            Some(Color::black(ratio(4, 10)))
        } else if self.pressed {
            Some(Color::black(ratio(2, 10)))
        } else if self.hovered {
            Some(Color::white(ratio(8, 100)))
        } else {
            None
        }
    }
}

/// Paint a button's material in the given state.
pub fn draw_chrome(
    list: &mut DrawList,
    s: &StyleResolver,
    rect: Rect,
    radius: Scalar,
    v: &ButtonVisual,
)
    ensures
        final(list)@ == crate::material::material_drawn(
            old(list)@,
            s,
            rect,
            radius,
            v.material(),
        ),
{
    let m = v.material();
    draw_with_radius(list, s, rect, radius, &m);
}

/// What a flat fill with a border paints: a border of no width is clear.
pub open spec fn chrome_colors(
    l: crate::draw_list::DrawState,
    rect: Rect,
    radius: Scalar,
    bg: Color,
    border_color: Color,
    border_width: Scalar,
) -> crate::draw_list::DrawState {
    l.chrome_rect(
        rect,
        radius,
        border_width,
        bg,
        if whole(0).lt(border_width) {
            border_color
        } else {
            Color::clear()
        },
    )
}

/// Paint a flat fill with a border.
pub fn draw_chrome_colors(
    list: &mut DrawList,
    rect: Rect,
    radius: Scalar,
    bg: Color,
    border_color: Color,
    border_width: Scalar,
)
    ensures
        final(list)@ == chrome_colors(old(list)@, rect, radius, bg, border_color, border_width),
{
    let border = if whole(0).lt(border_width) {
        border_color
    } else {
        Color::clear()
    };
    list.chrome_rect(rect, radius, border_width, bg, border);
}

/// What the overlay of a bare button paints.
pub open spec fn bare_overlay(
    l: crate::draw_list::DrawState,
    rect: Rect,
    v: ButtonVisual,
) -> crate::draw_list::DrawState {
    match v.overlay() {
        Some(c) => l.quad(rect, c),
        None => l,
    }
}

/// Paint the overlay of a bare button.
pub fn draw_bare_overlay(list: &mut DrawList, rect: Rect, v: &ButtonVisual)
    ensures
        final(list)@ == bare_overlay(old(list)@, rect, *v),
{
    match v.overlay() {
        Some(c) => list.quad(rect, c),
        None => {},
    }
}

pub open spec fn spec_label_color(s: &StyleResolver, enabled: bool, tone: Tone) -> Color {
    if !enabled {
        s.color(StyleKey::TextDim)
    } else {
        match tone {
            Tone::Accent => s.color(StyleKey::OnAccent),
            Tone::Danger => s.color(StyleKey::OnDanger),
            _ => s.color(StyleKey::Text),
        }
    }
}

/// The color of a label: dim when disabled, and on an accent or danger face the
/// color that reads on it.
#[verifier::when_used_as_spec(spec_label_color)]
pub fn label_color(s: &StyleResolver, enabled: bool, tone: Tone) -> (r: Color)
    ensures
        r == spec_label_color(s, enabled, tone),
{
    if !enabled {
        s.color(StyleKey::TextDim)
    } else {
        match tone {
            Tone::Accent => s.color(StyleKey::OnAccent),
            Tone::Danger => s.color(StyleKey::OnDanger),
            _ => s.color(StyleKey::Text),
        }
    }
}

/// The block of a button's label: one line, centered in the face, cut at the
/// inner width. The inset is the padding, but never more than a share of the
/// width, so that a small button keeps room for its glyph.
pub open spec fn label_block(
    s: &StyleResolver,
    face: Rect,
    text: Seq<char>,
    center: Scalar,
    color: Color,
) -> crate::text::TextView {
    let font_size = s.scalar(StyleKey::FontSize);
    let inset = s.scalar(StyleKey::Padding).at_most(face.width.times(ratio(15, 100)));
    crate::text::TextView::plain(
        text,
        face.x.plus(inset),
        vcentered(face.y, face.height, font_size, center),
        font_size,
    ).colored(color).cut_at(
        face.width.minus(inset.times(whole(2))).at_least(whole(0)),
    ).centered().in_font(s.font)
}

/// Paint a button's label in this color. `center` is where the visual center of
/// the label lies below its top, in em.
pub fn draw_label_colored(
    list: &mut DrawList,
    s: &StyleResolver,
    face: Rect,
    label: &str,
    center: Scalar,
    text_color: Color,
)
    ensures
        final(list)@ == old(list)@.text(label_block(s, face, label@, center, text_color)),
{
    let font_size = s.scalar(StyleKey::FontSize);
    let inset = s.scalar(StyleKey::Padding).at_most(face.width.times(ratio(15, 100)));
    let y = vcentered(face.y, face.height, font_size, center);
    list.text(
        TextBlock::new(label, face.x.plus(inset), y, font_size).with_color(
            text_color,
        ).with_ellipsis(
            face.width.minus(inset.times(whole(2))).at_least(whole(0)),
        ).with_center().with_font(s.font),
    );
}

/// Paint a button's label in the color of its state.
pub fn draw_label(
    list: &mut DrawList,
    s: &StyleResolver,
    face: Rect,
    label: &str,
    center: Scalar,
    enabled: bool,
    tone: Tone,
)
    ensures
        final(list)@ == old(list)@.text(
            label_block(s, face, label@, center, label_color(s, enabled, tone)),
        ),
{
    let color = label_color(s, enabled, tone);
    draw_label_colored(list, s, face, label, center, color);
}

/// The bounds that a layout sets.
#[derive(Clone, Copy, Debug, PartialEq, Eq, Structural)]
pub struct MeasureConstraints {
    /// Smallest width.
    pub min_width: Scalar,
    /// Largest width, where there is one.
    pub max_width: Option<Scalar>,
    /// Smallest height.
    pub min_height: Scalar,
    /// Largest height, where there is one.
    pub max_height: Option<Scalar>,
}

/// How a line of text measures.
#[derive(Clone, Copy, Debug, PartialEq, Eq, Structural)]
pub struct LineMetrics {
    /// Width.
    pub width: Scalar,
    /// Where its visual center lies below its top.
    pub visual_center: Scalar,
    /// Where its baseline lies below its top.
    pub baseline: Scalar,
}

/// What a widget asks of a layout.
#[derive(Clone, Copy, Debug, PartialEq, Eq, Structural)]
pub struct Measurement {
    /// Smallest size.
    pub min: Point,
    /// Size it would like.
    pub preferred: Point,
    /// Largest width, where there is one.
    pub max_width: Option<Scalar>,
    /// Largest height, where there is one.
    pub max_height: Option<Scalar>,
    /// Where its baseline lies below its top.
    pub baseline: Option<Scalar>,
}

pub open spec fn spec_bounded(v: Scalar, min: Scalar, max: Option<Scalar>) -> Scalar {
    match max {
        Some(max) => v.at_least(min).at_most(max),
        None => v.at_least(min),
    }
}

/// `v` raised to `min`, then lowered to `max`.
#[verifier::when_used_as_spec(spec_bounded)]
pub fn bounded(v: Scalar, min: Scalar, max: Option<Scalar>) -> (r: Scalar)
    ensures
        r == spec_bounded(v, min, max),
{
    match max {
        Some(max) => v.at_least(min).at_most(max),
        None => v.at_least(min),
    }
}

/// What animation and the retained scene tell a button.
#[derive(Clone, Copy, Debug, PartialEq, Eq, Structural)]
pub struct Told {
    /// The color that its label has reached, where it is being eased.
    pub eased: Option<Color>,
    /// What the scene settled for its region.
    pub retained: Option<Response>,
}

impl Told {
    pub open spec fn spec_nothing() -> Told {
        Told { eased: None, retained: None }
    }

    /// Nothing.
    #[verifier::when_used_as_spec(spec_nothing)]
    pub fn nothing() -> (r: Told)
        ensures
            r == Self::spec_nothing(),
    {
        Told { eased: None, retained: None }
    }
}

/// A text button.
#[derive(Debug, Clone)]
pub struct Button {
    /// Label.
    pub label: String,
    /// A disabled button is dimmed and takes no clicks.
    pub enabled: bool,
    /// Whether it shows its material. A bare one does not.
    pub chrome: bool,
    /// Corner radius, the style's where there is none.
    pub radius: Option<Scalar>,
    /// Which face it wears, the raised neutral one where there is none.
    pub tone: Option<Tone>,
    /// The identity it takes the focus under, where it does.
    pub focus_id: Option<FocusId>,
    /// The identity its label is eased under, where it is.
    pub anim_id: Option<u64>,
}

/// What a [`Button`] holds.
#[verifier::ext_equal]
pub struct ButtonView {
    /// Label.
    pub label: Seq<char>,
    /// Enabled.
    pub enabled: bool,
    /// Shows its material.
    pub chrome: bool,
    /// Corner radius.
    pub radius: Option<Scalar>,
    /// Face.
    pub tone: Option<Tone>,
    /// Focus identity.
    pub focus_id: Option<FocusId>,
    /// Easing identity.
    pub anim_id: Option<u64>,
}

impl View for Button {
    type V = ButtonView;

    open spec fn view(&self) -> ButtonView {
        ButtonView {
            label: self.label@,
            enabled: self.enabled,
            chrome: self.chrome,
            radius: self.radius,
            tone: self.tone,
            focus_id: self.focus_id,
            anim_id: self.anim_id,
        }
    }
}

impl ButtonView {
    /// A button at its defaults.
    pub open spec fn plain(label: Seq<char>) -> ButtonView {
        ButtonView {
            label,
            enabled: true,
            chrome: true,
            radius: None,
            tone: None,
            focus_id: None,
            anim_id: None,
        }
    }

    /// What the scene settled, where it did and the button has an identity.
    pub open spec fn settled(self, told: Told) -> Option<Response> {
        match told.retained {
            Some(r) => if self.focus_id is Some && r.resolved {
                Some(r)
            } else {
                None
            },
            None => None,
        }
    }

    /// Its interaction state: what the scene settled, else whether the pointer
    /// is over it.
    pub open spec fn visual(self, rect: Rect, told: Told, frame: crate::context::Frame) -> ButtonVisual {
        let over = self.enabled && frame.input.over(rect);
        ButtonVisual {
            enabled: self.enabled,
            hovered: match self.settled(told) {
                Some(r) => r.hovered,
                None => over,
            },
            pressed: match self.settled(told) {
                Some(r) => r.pressed,
                None => over && frame.input.mouse_down,
            },
            tone: match self.tone {
                Some(t) => t,
                None => Tone::Default,
            },
        }
    }

    /// Whether the pointer clicked it.
    pub open spec fn pointer_clicks(self, rect: Rect, told: Told, frame: crate::context::Frame) -> bool {
        match self.settled(told) {
            Some(r) => r.clicked,
            None => self.enabled && frame.input.over(rect) && frame.input.mouse_clicked,
        }
    }

    /// The rectangle that the label is centered in: it rides down with the face.
    pub open spec fn label_face(self, rect: Rect, v: ButtonVisual, s: &StyleResolver) -> Rect {
        let y = rect.y.plus(
            if v.enabled && v.pressed {
                s.scalar(StyleKey::Travel)
            } else {
                whole(0)
            },
        );
        Rect { x: rect.x, y, width: rect.width, height: rect.height.minus(y.minus(rect.y)) }
    }

    /// The color of the label: the eased one where it is animated.
    pub open spec fn text_color(self, v: ButtonVisual, told: Told, s: &StyleResolver) -> Color {
        match (self.anim_id, told.eased) {
            (Some(_), Some(c)) => c,
            _ => label_color(s, self.enabled, v.tone),
        }
    }

    /// What the button paints.
    #[verifier::opaque]
    pub open spec fn painted(
        self,
        l: crate::draw_list::DrawState,
        rect: Rect,
        center: Scalar,
        v: ButtonVisual,
        told: Told,
        s: &StyleResolver,
    ) -> crate::draw_list::DrawState {
        let l = if self.chrome {
            crate::material::material_drawn(
                l,
                s,
                rect,
                match self.radius {
                    Some(r) => r,
                    None => s.scalar(StyleKey::BorderRadius),
                },
                v.material(),
            )
        } else {
            bare_overlay(l, rect, v)
        };
        l.text(
            label_block(
                s,
                self.label_face(rect, v, s),
                self.label,
                center,
                self.text_color(v, told, s),
            ),
        )
    }

    /// The scene after the button: its shapes inside a scope of its name, the
    /// pointer's shape while hovered, and the focus.
    pub open spec fn drawn(
        self,
        rect: Rect,
        label: Label,
        told: Told,
        frame: crate::context::Frame,
        scene: crate::context::Scene,
    ) -> crate::context::Scene {
        let v = self.visual(rect, told, frame);
        let clicked = self.pointer_clicks(rect, told, frame);
        let opened = crate::context::Scene {
            list: self.painted(
                scene.list.scoped(crate::text::labelled("Button"@, self.label), rect),
                rect,
                label.center,
                v,
                told,
                &frame.styles,
            ),
            ..scene.pointed(v.hovered, CursorIcon::Pointer)
        };
        let focused = opened.focus_handled(frame, self.focus_id, clicked, rect);
        crate::context::Scene { list: focused.list.scope_closed(), ..focused }
    }

    /// Whether the button is activated: clicked, or confirmed by key while it
    /// has the focus.
    pub open spec fn activated(
        self,
        rect: Rect,
        told: Told,
        frame: crate::context::Frame,
        focused: Option<FocusId>,
    ) -> bool {
        let clicked = self.pointer_clicks(rect, told, frame);
        clicked || (self.enabled && frame.input.nav.confirm && self.focus_id is Some && focused
            == self.focus_id)
    }

    /// The outcome of the frame.
    pub open spec fn responded(
        self,
        rect: Rect,
        told: Told,
        frame: crate::context::Frame,
        focused: Option<FocusId>,
    ) -> Response {
        let v = self.visual(rect, told, frame);
        let clicked = self.activated(rect, told, frame, focused);
        match self.settled(told) {
            Some(r) => Response { clicked, ..r },
            None => Response {
                id: self.focus_id,
                rect,
                resolved: false,
                hovered: v.hovered,
                pressed: v.pressed,
                clicked,
                released: v.hovered && frame.input.mouse_released,
                held: v.hovered && frame.input.mouse_held,
                double_clicked: v.hovered && frame.input.mouse_double_clicked,
                local_pos: if v.hovered {
                    Some(
                        Point {
                            x: frame.input.mouse_x.minus(rect.x),
                            y: frame.input.mouse_y.minus(rect.y),
                        },
                    )
                } else {
                    None
                },
                scroll_delta: whole(0),
            },
        }
    }
}

impl Button {
    /// A button with this label: enabled, with its material, in the neutral
    /// tone.
    pub fn new(label: &str) -> (r: Self)
        ensures
            r@ == ButtonView::plain(label@),
    {
        let r = Button {
            label: label.to_owned(),
            enabled: true,
            chrome: true,
            radius: None,
            tone: None,
            focus_id: None,
            anim_id: None,
        };
        assert(r@ =~= ButtonView::plain(label@));
        r
    }

    /// Its natural size: the label's width with the padding on both sides, and
    /// the style's button height.
    pub fn intrinsic_size(&self, label: Label, styles: &StyleResolver) -> (r: (Scalar, Scalar))
        ensures
            r.0 == label.width.plus(styles.scalar(StyleKey::Padding).times(whole(2))),
            r.1 == styles.scalar(StyleKey::ButtonHeight),
    {
        (
            label.width.plus(styles.scalar(StyleKey::Padding).times(whole(2))),
            styles.scalar(StyleKey::ButtonHeight),
        )
    }

    pub open spec fn spec_measure(
        &self,
        text: LineMetrics,
        constraints: MeasureConstraints,
        styles: &StyleResolver,
    ) -> Measurement {
        let sides = styles.scalar(StyleKey::Padding).times(whole(2));
        let tall = styles.scalar(StyleKey::ButtonHeight);
        let width = bounded(text.width.plus(sides), constraints.min_width, constraints.max_width);
        let height = bounded(tall, constraints.min_height, constraints.max_height);
        Measurement {
            min: Point { x: sides, y: tall },
            preferred: Point { x: width, y: height },
            max_width: None,
            max_height: Some(tall),
            baseline: Some(
                height.times(ratio(1, 2)).minus(text.visual_center).plus(text.baseline).clamped(
                    whole(0),
                    height,
                ),
            ),
        }
    }

    /// What the button asks of a layout, given how its label measures on one
    /// line. The baseline is that of the label centered in the height.
    #[verifier::when_used_as_spec(spec_measure)]
    pub fn measure(
        &self,
        text: LineMetrics,
        constraints: MeasureConstraints,
        styles: &StyleResolver,
    ) -> (r: Measurement)
        ensures
            r == self.spec_measure(text, constraints, styles),
    {
        let sides = styles.scalar(StyleKey::Padding).times(whole(2));
        let tall = styles.scalar(StyleKey::ButtonHeight);
        let width = bounded(text.width.plus(sides), constraints.min_width, constraints.max_width);
        let height = bounded(tall, constraints.min_height, constraints.max_height);
        let baseline = height.times(ratio(1, 2)).minus(text.visual_center).plus(
            text.baseline,
        ).clamped(whole(0), height);
        Measurement {
            min: Point { x: sides, y: tall },
            preferred: Point { x: width, y: height },
            max_width: None,
            max_height: Some(tall),
            baseline: Some(baseline),
        }
    }

    /// Ease the label's color under `id`.
    pub fn animated(self, id: u64) -> (r: Self)
        ensures
            r@ == (ButtonView { anim_id: Some(id), ..self@ }),
    {
        let mut r = self;
        r.anim_id = Some(id);
        r
    }

    /// Wear this face.
    pub fn tone(self, tone: Tone) -> (r: Self)
        ensures
            r@ == (ButtonView { tone: Some(tone), ..self@ }),
    {
        let mut r = self;
        r.tone = Some(tone);
        r
    }

    /// With this corner radius.
    pub fn with_radius(self, radius: Scalar) -> (r: Self)
        ensures
            r@ == (ButtonView { radius: Some(radius), ..self@ }),
    {
        let mut r = self;
        r.radius = Some(radius);
        r
    }

    /// Take the keyboard focus under `id`.
    pub fn focusable(self, id: FocusId) -> (r: Self)
        ensures
            r@ == (ButtonView { focus_id: Some(id), ..self@ }),
    {
        let mut r = self;
        r.focus_id = Some(id);
        r
    }

    /// Enabled or not.
    pub fn enabled(self, enabled: bool) -> (r: Self)
        ensures
            r@ == (ButtonView { enabled, ..self@ }),
    {
        let mut r = self;
        r.enabled = enabled;
        r
    }

    /// Without the material.
    pub fn bare(self) -> (r: Self)
        ensures
            r@ == (ButtonView { chrome: false, ..self@ }),
    {
        let mut r = self;
        r.chrome = false;
        r
    }

    /// The region that the button claims in a retained scene: its identity, and
    /// whether it takes the pointer.
    pub fn region(&self, rect: Rect) -> (r: Option<(FocusId, bool)>)
        ensures
            r == match self@.focus_id {
                Some(id) => if rect.is_empty() {
                    None
                } else {
                    Some((id, self@.enabled))
                },
                None => None,
            },
    {
        match self.focus_id {
            Some(id) => if rect.is_empty() {
                None
            } else {
                Some((id, self.enabled))
            },
            None => None,
        }
    }

    /// The color that the label is eased toward.
    pub fn text_target(&self, s: &StyleResolver) -> (r: Color)
        ensures
            r == label_color(
                s,
                self@.enabled,
                match self@.tone {
                    Some(t) => t,
                    None => Tone::Default,
                },
            ),
    {
        let tone = match self.tone {
            Some(t) => t,
            None => Tone::Default,
        };
        label_color(s, self.enabled, tone)
    }

    fn paint(
        &self,
        list: &mut DrawList,
        rect: Rect,
        center: Scalar,
        v: ButtonVisual,
        told: Told,
        s: &StyleResolver,
    )
        ensures
            final(list)@ == self@.painted(old(list)@, rect, center, v, told, s),
    {
        proof {
            reveal(ButtonView::painted);
        }
        if self.chrome {
            let radius = match self.radius {
                Some(r) => r,
                None => s.scalar(StyleKey::BorderRadius),
            };
            draw_chrome(list, s, rect, radius, &v);
        } else {
            draw_bare_overlay(list, rect, &v);
        }
        let y = rect.y.plus(
            if v.enabled && v.pressed {
                s.scalar(StyleKey::Travel)
            } else {
                whole(0)
            },
        );
        let face = Rect {
            x: rect.x,
            y,
            width: rect.width,
            height: rect.height.minus(y.minus(rect.y)),
        };
        let color = match (self.anim_id, told.eased) {
            (Some(_), Some(c)) => c,
            _ => label_color(s, self.enabled, v.tone),
        };
        draw_label_colored(list, s, face, self.label.as_str(), center, color);
    }

    /// Draw the button and tell whether it was activated.
    pub fn draw(&self, rect: Rect, label: Label, ctx: &mut DrawContext) -> (activated: bool)
        requires
            old(ctx).frame.wf(),
        ensures
            rect.is_empty() ==> !activated && final(ctx)@ == old(ctx)@,
            !rect.is_empty() ==> {
                &&& activated == self@.activated(
                    rect,
                    Told::nothing(),
                    old(ctx).frame,
                    old(ctx)@.focus.focused,
                )
                &&& final(ctx)@ == self@.drawn(
                    rect,
                    label,
                    Told::nothing(),
                    old(ctx).frame,
                    old(ctx)@,
                )
            },
            final(ctx).frame == old(ctx).frame,
    {
        self.draw_response(rect, label, Told::nothing(), ctx).clicked
    }

    /// Draw the button and give its complete outcome. Where the scene settled
    /// the pointer, that stands; otherwise the pointer is tested against the
    /// rectangle. A rectangle without area draws nothing.
    pub fn draw_response(
        &self,
        rect: Rect,
        label: Label,
        told: Told,
        ctx: &mut DrawContext,
    ) -> (r: Response)
        requires
            old(ctx).frame.wf(),
        ensures
            rect.is_empty() ==> {
                &&& r == Response::idle(
                    match self@.focus_id {
                        Some(id) => id,
                        None => 0,
                    },
                    rect,
                )
                &&& final(ctx)@ == old(ctx)@
            },
            !rect.is_empty() ==> {
                &&& r == self@.responded(rect, told, old(ctx).frame, old(ctx)@.focus.focused)
                &&& final(ctx)@ == self@.drawn(rect, label, told, old(ctx).frame, old(ctx)@)
            },
            final(ctx).frame == old(ctx).frame,
    {
        if rect.is_empty() {
            let id: u64 = match self.focus_id {
                Some(id) => id,
                None => 0,
            };
            return Response::idle(id, rect);
        }
        let name = scope_name("Button", self.label.as_str());
        ctx.draw_list.push_debug_scope_rect(name.as_str(), rect);
        let settled: Option<Response> = match told.retained {
            Some(r) => if self.focus_id.is_some() && r.resolved {
                Some(r)
            } else {
                None
            },
            None => None,
        };
        let over = self.enabled && ctx.frame.input.over(rect);
        let (hovered, pressed, clicked) = match settled {
            Some(r) => (r.hovered, r.pressed, r.clicked),
            None => (
                over,
                over && ctx.frame.input.mouse_down,
                over && ctx.frame.input.mouse_clicked,
            ),
        };
        if hovered {
            ctx.request_cursor(CursorIcon::Pointer);
        }
        let tone = match self.tone {
            Some(t) => t,
            None => Tone::Default,
        };
        let v = ButtonVisual { enabled: self.enabled, hovered, pressed, tone };
        self.paint(&mut ctx.draw_list, rect, label.center, v, told, &ctx.frame.styles);
        let key = self.enabled && ctx.frame.input.nav.confirm;
        let by_key = ctx.handle_focus(self.focus_id, clicked, key, rect);
        ctx.draw_list.pop_debug_scope();
        let activated = clicked || by_key;
        let local_pos = if hovered {
            Some(
                Point {
                    x: ctx.frame.input.mouse_x.minus(rect.x),
                    y: ctx.frame.input.mouse_y.minus(rect.y),
                },
            )
        } else {
            None
        };
        match settled {
            Some(r) => Response {
                id: r.id,
                rect: r.rect,
                resolved: r.resolved,
                hovered: r.hovered,
                pressed: r.pressed,
                clicked: activated,
                released: r.released,
                held: r.held,
                double_clicked: r.double_clicked,
                local_pos: r.local_pos,
                scroll_delta: r.scroll_delta,
            },
            None => Response {
                id: self.focus_id,
                rect,
                resolved: false,
                hovered,
                pressed,
                clicked: activated,
                released: hovered && ctx.frame.input.mouse_released,
                held: hovered && ctx.frame.input.mouse_held,
                double_clicked: hovered && ctx.frame.input.mouse_double_clicked,
                local_pos,
                scroll_delta: whole(0),
            },
        }
    }

    /// Draw a button at `rect` and tell whether it was clicked.
    pub fn draw_at(
        text: &str,
        rect: Rect,
        label: Label,
        enabled: bool,
        ctx: &mut DrawContext,
    ) -> (clicked: bool)
        requires
            old(ctx).frame.wf(),
        ensures
            rect.is_empty() ==> !clicked && final(ctx)@ == old(ctx)@,
            !rect.is_empty() ==> {
                let b = ButtonView { enabled, ..ButtonView::plain(text@) };
                &&& clicked == (enabled && old(ctx).frame.input.over(rect)
                    && old(ctx).frame.input.mouse_clicked)
                &&& final(ctx)@ == b.drawn(rect, label, Told::nothing(), old(ctx).frame, old(ctx)@)
            },
            final(ctx).frame == old(ctx).frame,
    {
        Button::new(text).enabled(enabled).draw(rect, label, ctx)
    }

    /// Draw a button on a stretched texture and tell whether it was clicked.
    pub fn draw_nine_slice(
        text: &str,
        rect: Rect,
        label: Label,
        enabled: bool,
        ctx: &mut DrawContext,
        texture_key: &str,
    ) -> (clicked: bool)
        ensures
            clicked == (enabled && old(ctx).frame.input.over(rect)
                && old(ctx).frame.input.mouse_clicked),
            final(ctx)@ == nine_slice_drawn(
                text@,
                rect,
                label,
                enabled,
                texture_key@,
                old(ctx).frame,
                old(ctx)@,
            ),
            final(ctx).frame == old(ctx).frame,
    {
        let name = scope_name("Button", text);
        ctx.draw_list.push_debug_scope_rect(name.as_str(), rect);
        let hovered = enabled && ctx.frame.input.over(rect);
        let pressed = hovered && ctx.frame.input.mouse_down;
        let clicked = hovered && ctx.frame.input.mouse_clicked;
        ctx.draw_list.nine_slice(rect, texture_key);
        let v = ButtonVisual { enabled, hovered, pressed, tone: Tone::Default };
        draw_bare_overlay(&mut ctx.draw_list, rect, &v);
        draw_label(
            &mut ctx.draw_list,
            &ctx.frame.styles,
            rect,
            text,
            label.center,
            enabled,
            Tone::Default,
        );
        ctx.draw_list.pop_debug_scope();
        clicked
    }
}

/// The scene after a button on a stretched texture.
pub open spec fn nine_slice_drawn(
    text: Seq<char>,
    rect: Rect,
    label: Label,
    enabled: bool,
    texture_key: Seq<char>,
    frame: crate::context::Frame,
    scene: crate::context::Scene,
) -> crate::context::Scene {
    let hovered = enabled && frame.input.over(rect);
    let v = ButtonVisual {
        enabled,
        hovered,
        pressed: hovered && frame.input.mouse_down,
        tone: Tone::Default,
    };
    crate::context::Scene {
        list: bare_overlay(
            scene.list.scoped(crate::text::labelled("Button"@, text), rect).nine_slice(rect, texture_key),
            rect,
            v,
        ).text(
            label_block(
                &frame.styles,
                rect,
                text,
                label.center,
                label_color(&frame.styles, enabled, Tone::Default),
            ),
        ).scope_closed(),
        ..scene
    }
}

/// A disabled button is never activated where no scene settled the pointer,
/// whatever the input and the focus.
pub proof fn law_disabled_never_activates(
    b: ButtonView,
    rect: Rect,
    told: Told,
    frame: crate::context::Frame,
    focused: Option<FocusId>,
)
    requires
        !b.enabled,
        b.settled(told) is None,
    ensures
        !b.activated(rect, told, frame, focused),
{
}

/// Where another surface took the pointer, no click reaches a button.
pub proof fn law_consumed_pointer_never_clicks(
    b: ButtonView,
    rect: Rect,
    told: Told,
    frame: crate::context::Frame,
)
    requires
        frame.input.mouse_consumed,
        b.settled(told) is None,
    ensures
        !b.pointer_clicks(rect, told, frame),
        !b.visual(rect, told, frame).hovered,
{
}

/// A button that takes no focus ignores the keyboard.
pub proof fn law_unfocusable_ignores_keys(
    b: ButtonView,
    rect: Rect,
    told: Told,
    frame: crate::context::Frame,
    focused: Option<FocusId>,
)
    requires
        b.focus_id is None,
    ensures
        b.activated(rect, told, frame, focused) == b.pointer_clicks(rect, told, frame),
{
}

/// Clicking a focusable button moves the focus to it.
pub proof fn law_click_takes_focus(
    b: ButtonView,
    rect: Rect,
    label: Label,
    told: Told,
    frame: crate::context::Frame,
    scene: crate::context::Scene,
)
    requires
        b.focus_id is Some,
        b.pointer_clicks(rect, told, frame),
    ensures
        b.drawn(rect, label, told, frame, scene).focus.focused == b.focus_id,
{
}

/// Easing changes the label's color alone: with no eased color given, an
/// animated button draws what a plain one draws.
pub proof fn law_animation_is_optional(
    b: ButtonView,
    id: u64,
    rect: Rect,
    label: Label,
    told: Told,
    frame: crate::context::Frame,
    scene: crate::context::Scene,
)
    requires
        told.eased is None,
    ensures
        (ButtonView { anim_id: Some(id), ..b }).drawn(rect, label, told, frame, scene) == (
        ButtonView { anim_id: None, ..b }).drawn(rect, label, told, frame, scene),
{
    reveal(ButtonView::painted);
}

/// A click on an enabled button activates it, as does confirming it by key while it has
/// the focus; without either it is not.
pub proof fn law_clicks_and_keys_activate(b: ButtonView, rect: Rect, frame: crate::context::Frame, focused: Option<FocusId>)
    requires
        b.enabled,
        b.settled(Told::nothing()) is None,
    ensures
        ({
            let on = b.activated(rect, Told::nothing(), frame, focused);
            let clicked = frame.input.over(rect) && frame.input.mouse_clicked;
            let confirmed = b.focus_id is Some && focused == b.focus_id && frame.input.nav.confirm;
            &&& clicked ==> on
            &&& confirmed ==> on
            &&& on ==> clicked || confirmed
        }),
{
}

} // verus!
