//! Buttons, checkboxes and the material they are made of.

#![allow(dead_code)]

use gameui::button::{Button, LineMetrics, MeasureConstraints, Told};
use gameui::checkbox::{
    contrast_color, BoxEase, Checkbox, CHECKBOX_CHECKED_ICON, CHECKBOX_ICON,
};
use gameui::context::{DrawContext, Frame, Label};
use gameui::context::{vcentered, CursorIcon, Response};
use gameui::draw_list::{DrawList, Trig};
use gameui::focus::FocusState;
use gameui::geometry::{Color, Point, Rect};
use gameui::input::InputState;
use gameui::input::map_keyboard;
use gameui::material::{draw, draw_well, draw_well_simple, focus_id_for, sheen_over, Material, Tone};
use gameui::scalar::Scalar;
use gameui::style::{StyleKey, StyleResolver};
use std::f32::consts::{FRAC_PI_2, PI, TAU};

fn s(x: f32) -> Scalar {
    Scalar { bits: x.to_bits() }
}

fn f(x: Scalar) -> f32 {
    f32::from_bits(x.bits)
}

fn pt(x: f32, y: f32) -> Point {
    Point { x: s(x), y: s(y) }
}

fn rc(x: f32, y: f32, w: f32, h: f32) -> Rect {
    Rect { x: s(x), y: s(y), width: s(w), height: s(h) }
}

fn col(c: [f32; 4]) -> Color {
    Color { r: s(c[0]), g: s(c[1]), b: s(c[2]), a: s(c[3]) }
}

fn rgba(c: Color) -> [f32; 4] {
    [f(c.r), f(c.g), f(c.b), f(c.a)]
}

fn xy(p: Point) -> [f32; 2] {
    [f(p.x), f(p.y)]
}

fn ltwh(r: Rect) -> [f32; 4] {
    [f(r.x), f(r.y), f(r.width), f(r.height)]
}

fn dir(a: f32) -> Point {
    pt(a.cos(), a.sin())
}

fn trig() -> Trig {
    let mut corners = Vec::new();
    for start in [PI, 1.5 * PI, 0.0, 0.5 * PI] {
        for i in 0..9 {
            corners.push(dir(start + FRAC_PI_2 * (i as f32 / 8.0)));
        }
    }
    let mut discs = Vec::new();
    for n in 16..=64u32 {
        discs.push((0..=n).map(|i| dir(TAU * i as f32 / n as f32)).collect::<Vec<Point>>());
    }
    let rings = discs.clone();
    Trig { corners, discs, rings }
}

fn fresh() -> DrawList {
    DrawList::new(trig(), 1)
}

/// A dark theme.
fn theme() -> StyleResolver {
    let mut t = StyleResolver::new(None);
    for (key, c) in [
        (StyleKey::Background, [0.08, 0.09, 0.10, 1.0]),
        (StyleKey::Scrim, [0.0, 0.0, 0.0, 0.55]),
        (StyleKey::Panel, [0.12, 0.13, 0.15, 1.0]),
        (StyleKey::PanelBorder, [0.25, 0.27, 0.30, 1.0]),
        (StyleKey::Text, [0.90, 0.91, 0.92, 1.0]),
        (StyleKey::TextDim, [0.55, 0.57, 0.60, 1.0]),
        (StyleKey::TextHighlight, [1.0, 1.0, 1.0, 1.0]),
        (StyleKey::OnAccent, [0.05, 0.06, 0.07, 1.0]),
        (StyleKey::OnDanger, [1.0, 0.95, 0.95, 1.0]),
        (StyleKey::Accent, [0.95, 0.65, 0.25, 1.0]),
        (StyleKey::Info, [0.22, 0.55, 0.95, 1.0]),
        (StyleKey::Success, [0.26, 0.72, 0.42, 1.0]),
        (StyleKey::Warning, [0.95, 0.70, 0.20, 1.0]),
        (StyleKey::Error, [0.9, 0.3, 0.3, 1.0]),
        (StyleKey::Button, [0.20, 0.22, 0.25, 1.0]),
        (StyleKey::ButtonHover, [0.26, 0.28, 0.32, 1.0]),
        (StyleKey::ButtonPressed, [0.16, 0.17, 0.20, 1.0]),
        (StyleKey::InputBackground, [0.06, 0.07, 0.08, 1.0]),
        (StyleKey::InputBorder, [0.30, 0.32, 0.35, 1.0]),
        (StyleKey::InputFocusBorder, [0.95, 0.75, 0.35, 1.0]),
        (StyleKey::TabActive, [0.22, 0.24, 0.27, 1.0]),
        (StyleKey::TabHover, [0.18, 0.20, 0.22, 1.0]),
        (StyleKey::TabInactive, [0.14, 0.15, 0.17, 1.0]),
        (StyleKey::Plinth, [0.03, 0.03, 0.04, 1.0]),
        (StyleKey::FaceTop, [1.0, 1.0, 1.0, 0.10]),
        (StyleKey::FaceTopHover, [1.0, 1.0, 1.0, 0.14]),
        (StyleKey::FaceTopPressed, [1.0, 1.0, 1.0, 0.04]),
        (StyleKey::FaceBottom, [0.0, 0.0, 0.0, 0.10]),
        (StyleKey::FaceBottomHover, [0.0, 0.0, 0.0, 0.06]),
        (StyleKey::FaceBottomPressed, [0.0, 0.0, 0.0, 0.16]),
        (StyleKey::AccentFaceTop, [0.98, 0.72, 0.35, 1.0]),
        (StyleKey::AccentFaceTopHover, [1.0, 0.78, 0.42, 1.0]),
        (StyleKey::AccentFaceTopPressed, [0.88, 0.62, 0.28, 1.0]),
        (StyleKey::AccentFaceBottom, [0.85, 0.55, 0.18, 1.0]),
        (StyleKey::AccentFaceBottomHover, [0.90, 0.60, 0.22, 1.0]),
        (StyleKey::AccentFaceBottomPressed, [0.78, 0.48, 0.14, 1.0]),
        (StyleKey::DangerFaceTop, [0.85, 0.30, 0.28, 1.0]),
        (StyleKey::DangerFaceTopHover, [0.92, 0.36, 0.33, 1.0]),
        (StyleKey::DangerFaceTopPressed, [0.75, 0.24, 0.22, 1.0]),
        (StyleKey::DangerFaceBottom, [0.65, 0.20, 0.18, 1.0]),
        (StyleKey::DangerFaceBottomHover, [0.72, 0.24, 0.21, 1.0]),
        (StyleKey::DangerFaceBottomPressed, [0.55, 0.16, 0.14, 1.0]),
        (StyleKey::EdgeHighlight, [1.0, 1.0, 1.0, 0.18]),
        (StyleKey::EdgeHighlightHover, [1.0, 1.0, 1.0, 0.24]),
        (StyleKey::EdgeHighlightPressed, [1.0, 1.0, 1.0, 0.08]),
        (StyleKey::EdgeShadow, [0.0, 0.0, 0.0, 0.35]),
        (StyleKey::InnerShadow, [0.0, 0.0, 0.0, 0.45]),
    ] {
        t.set_color(key, col(c));
    }
    for (key, x) in [
        (StyleKey::FontSize, 14.0),
        (StyleKey::Padding, 8.0),
        (StyleKey::Spacing, 6.0),
        (StyleKey::BorderRadius, 4.0),
        (StyleKey::BorderWidth, 1.0),
        (StyleKey::Travel, 2.0),
        (StyleKey::InnerShadowDepth, 3.0),
        (StyleKey::ButtonHeight, 28.0),
        (StyleKey::MenuRowHeight, 30.0),
        (StyleKey::DockTabHeight, 24.0),
        (StyleKey::DockSplitterWidth, 4.0),
        (StyleKey::ToolbarButtonSize, 28.0),
        (StyleKey::ToolbarPadding, 4.0),
    ] {
        t.set_scalar(key, s(x));
    }
    t
}

/// How `text` measures where every character takes half an em.
fn label(text: &str, size: f32) -> Label {
    Label { width: s(text.chars().count() as f32 * size * 0.5), center: s(0.6) }
}

fn ctx_with(input: InputState, focus: FocusState) -> DrawContext {
    DrawContext {
        frame: Frame { input, styles: theme(), layer: None },
        draw_list: fresh(),
        focus,
        cursor: None,
    }
}

fn ctx(input: InputState) -> DrawContext {
    ctx_with(input, FocusState::new())
}

fn at(x: f32, y: f32) -> InputState {
    InputState { mouse_x: s(x), mouse_y: s(y), ..InputState::default() }
}

/// The pointer at a point, with the button down and clicked as told.
fn pointer(x: f32, y: f32, down: bool, clicked: bool) -> InputState {
    InputState { mouse_down: down, mouse_clicked: clicked, ..at(x, y) }
}

const DISABLED_ALPHA: f32 = 0.45;

fn rect() -> Rect {
    rc(10.0, 10.0, 100.0, 32.0)
}

fn go() -> Label {
    label("Go", 14.0)
}

#[test]
fn button_click_inside_returns_true() {
    let mut c = ctx(pointer(50.0, 25.0, true, true));
    assert!(Button::new("Go").draw(rect(), go(), &mut c));
}

#[test]
fn button_click_outside_returns_false() {
    let mut c = ctx(pointer(500.0, 500.0, true, true));
    assert!(!Button::new("Go").draw(rect(), go(), &mut c));
}

#[test]
fn hover_requests_pointer_cursor() {
    let mut c = ctx(pointer(50.0, 25.0, false, false));
    Button::new("Go").draw(rect(), go(), &mut c);
    assert_eq!(c.cursor, Some(CursorIcon::Pointer));

    let mut c = ctx(pointer(500.0, 500.0, false, false));
    Button::new("Go").draw(rect(), go(), &mut c);
    assert_eq!(c.cursor, None);

    let mut c = ctx(pointer(50.0, 25.0, false, false));
    Button::new("Go").enabled(false).draw(rect(), go(), &mut c);
    assert_eq!(c.cursor, None);
}

#[test]
fn button_disabled_never_clicks() {
    let mut c = ctx(pointer(50.0, 25.0, true, true));
    assert!(!Button::new("Go").enabled(false).draw(rect(), go(), &mut c));
}

#[test]
fn button_zero_rect_draws_nothing_and_no_click() {
    let mut c = ctx(pointer(0.0, 0.0, true, true));
    assert!(!Button::new("Go").draw(rc(0.0, 0.0, 0.0, 32.0), go(), &mut c));
    assert!(c.draw_list.chrome_instances.is_empty());
    assert!(c.draw_list.texts.is_empty());
}

#[test]
fn bare_omits_chrome_geometry() {
    let mut chrome = ctx(pointer(0.0, 0.0, false, false));
    Button::new("Go").draw(rect(), go(), &mut chrome);
    let mut bare = ctx(pointer(0.0, 0.0, false, false));
    Button::new("Go").bare().draw(rect(), go(), &mut bare);
    assert_eq!(
        chrome.draw_list.chrome_instances.len(),
        3,
        "chrome draws plinth + gradient face + highlight band"
    );
    assert!(bare.draw_list.chrome_instances.is_empty(), "bare draws no chrome");
    assert!(bare.draw_list.vertices.is_empty(), "bare idle draws no background geometry");
}

#[test]
fn button_bare_hover_adds_overlay() {
    let mut idle = ctx(pointer(0.0, 0.0, false, false));
    Button::new("Go").bare().draw(rect(), go(), &mut idle);
    let mut hot = ctx(pointer(50.0, 25.0, false, false));
    Button::new("Go").bare().draw(rect(), go(), &mut hot);
    assert!(
        hot.draw_list.chrome_instances.len() > idle.draw_list.chrome_instances.len(),
        "bare hover should add an overlay quad (instanced)"
    );
}

#[test]
fn narrow_button_label_is_single_line_and_ellipsized() {
    let button = rc(10.0, 10.0, 84.0, 24.0);
    let measured = label("Reconnect", 14.0);
    let mut c = ctx(InputState::default());
    Button::new("Reconnect").draw(button, measured, &mut c);

    assert_eq!(c.draw_list.texts.len(), 1);
    let block = &c.draw_list.texts[0];
    assert!(block.ellipsize, "button labels must use ellipsis mode");
    let inset = 8.0f32.min(84.0 * 0.15);
    assert_eq!(f(block.max_width), 84.0 - inset * 2.0);
    assert_eq!(block.y, vcentered(s(10.0), s(24.0), s(14.0), measured.center));
    assert!(
        f(block.line_height) <= 24.0,
        "the constrained caption must remain inside the button height",
    );
}

#[test]
fn draw_at_matches_builder() {
    let mut a = ctx(pointer(50.0, 25.0, true, true));
    let ra = Button::draw_at("Go", rect(), go(), true, &mut a);
    let mut b = ctx(pointer(50.0, 25.0, true, true));
    let rb = Button::new("Go").draw(rect(), go(), &mut b);
    assert_eq!(ra, rb);
    assert_eq!(a.draw_list.vertices.len(), b.draw_list.vertices.len());
    assert_eq!(a.draw_list.chrome_instances, b.draw_list.chrome_instances);
}

/// A key and no mouse, mapped by the keyboard's default bindings.
fn confirm(space: bool, enter: bool) -> InputState {
    let mut i = InputState { key_space: space, enter_pressed: enter, ..InputState::default() };
    map_keyboard(&mut i);
    i
}

fn focused(id: u64) -> FocusState {
    let mut focus = FocusState::new();
    focus.focus(id);
    focus
}

#[test]
fn space_activates_only_when_focused() {
    let mut c = ctx(confirm(true, false));
    assert!(
        !Button::new("Go").focusable(1).draw(rect(), go(), &mut c),
        "Space must not activate an unfocused button"
    );
    let mut c = ctx_with(confirm(true, false), focused(1));
    assert!(
        Button::new("Go").focusable(1).draw(rect(), go(), &mut c),
        "Space activates the focused button"
    );
}

#[test]
fn enter_activates_only_when_focused() {
    let mut c = ctx(confirm(false, true));
    assert!(!Button::new("Go").focusable(1).draw(rect(), go(), &mut c));
    let mut c = ctx_with(confirm(false, true), focused(1));
    assert!(Button::new("Go").focusable(1).draw(rect(), go(), &mut c));
}

#[test]
fn disabled_button_ignores_keyboard() {
    let mut c = ctx_with(confirm(true, true), focused(1));
    assert!(!Button::new("Go").enabled(false).focusable(1).draw(rect(), go(), &mut c));
}

#[test]
fn button_keyboard_ignored_without_focusable() {
    let mut c = ctx_with(confirm(true, true), focused(1));
    assert!(!Button::new("Go").draw(rect(), go(), &mut c));
}

#[test]
fn button_focus_ring_only_when_focused() {
    let mut unfocused = ctx(pointer(0.0, 0.0, false, false));
    Button::new("Go").focusable(1).draw(rect(), go(), &mut unfocused);
    let mut ringed = ctx_with(pointer(0.0, 0.0, false, false), focused(1));
    Button::new("Go").focusable(1).draw(rect(), go(), &mut ringed);
    assert!(
        ringed.draw_list.chrome_instances.len() > unfocused.draw_list.chrome_instances.len(),
        "focus ring should add outline geometry when focused"
    );
}

#[test]
fn click_registers_and_requests_focus() {
    let mut c = ctx(pointer(50.0, 25.0, true, true));
    Button::new("Go").focusable(7).draw(rect(), go(), &mut c);
    assert!(c.focus.is_focused(7), "clicking a focusable button focuses it");
}

#[test]
fn retained_scene_targets_only_the_later_overlapping_button() {
    let mut c = ctx(pointer(50.0, 25.0, true, true));
    let covered = Response { resolved: true, ..Response::idle(1, rect()) };
    let hit = Response {
        resolved: true,
        hovered: true,
        pressed: true,
        clicked: true,
        ..Response::idle(2, rect())
    };
    let back = Button::new("Back").focusable(1).draw_response(
        rect(),
        label("Back", 14.0),
        Told { eased: None, retained: Some(covered) },
        &mut c,
    );
    let front = Button::new("Front").focusable(2).draw_response(
        rect(),
        label("Front", 14.0),
        Told { eased: None, retained: Some(hit) },
        &mut c,
    );
    assert!(!back.clicked && !back.hovered);
    assert!(front.clicked && front.hovered);
    assert!(c.focus.is_focused(2));
}

#[test]
fn style_overlay_overrides_chrome_fill() {
    let t = theme();
    let mut base = ctx(pointer(0.0, 0.0, false, false));
    Button::new("Go").draw(rect(), go(), &mut base);
    assert_eq!(
        base.draw_list.chrome_instances[1].bg,
        sheen_over(t.color(StyleKey::Button), t.color(StyleKey::FaceTop))
    );

    let mut styled = ctx(pointer(0.0, 0.0, false, false));
    styled.frame.styles.set_color(StyleKey::Button, col([0.7, 0.1, 0.2, 1.0]));
    Button::new("Go").draw(rect(), go(), &mut styled);
    assert_eq!(
        styled.draw_list.chrome_instances[1].bg,
        sheen_over(col([0.7, 0.1, 0.2, 1.0]), t.color(StyleKey::FaceTop))
    );
}

#[test]
fn measured_button_baseline_matches_painted_optical_centering() {
    let (center, baseline) = (0.6, 0.95);
    let line = LineMetrics { width: s(28.0), visual_center: s(14.0 * center), baseline: s(14.0 * baseline) };
    let unbounded = MeasureConstraints {
        min_width: s(0.0),
        max_width: None,
        min_height: s(0.0),
        max_height: None,
    };
    let result = Button::new("Save").measure(line, unbounded, &theme());
    let painted_top = f(result.preferred.y) * 0.5 - 14.0 * center;
    let painted_baseline = painted_top + 14.0 * baseline;
    assert!((f(result.baseline.expect("a baseline")) - painted_baseline).abs() < 0.001);
}

#[test]
fn mouse_consumed_suppresses_hover() {
    let mut c = ctx(InputState { mouse_consumed: true, ..pointer(50.0, 25.0, true, true) });
    assert!(
        !Button::new("Go").draw(rect(), go(), &mut c),
        "mouse_consumed must suppress the click"
    );
}

#[test]
fn button_animated_without_state_is_byte_identical() {
    let mut plain = ctx(pointer(0.0, 0.0, false, false));
    Button::new("Go").draw(rect(), go(), &mut plain);
    let mut anim = ctx(pointer(0.0, 0.0, false, false));
    Button::new("Go").animated(1).draw(rect(), go(), &mut anim);
    let (p, a) = (&plain.draw_list.chrome_instances, &anim.draw_list.chrome_instances);
    assert_eq!(p[0].bg, a[0].bg);
    assert_eq!(p[0].border, a[0].border);
}

fn hover_face() -> Color {
    let t = theme();
    sheen_over(t.color(StyleKey::ButtonHover), t.color(StyleKey::FaceTopHover))
}

fn animated(input: InputState, eased: Option<Color>) -> DrawList {
    let mut c = ctx(input);
    Button::new("Go").animated(1).draw_response(
        rect(),
        go(),
        Told { eased, retained: None },
        &mut c,
    );
    c.draw_list
}

#[test]
fn animated_first_frame_is_target_no_pop() {
    let list = animated(pointer(50.0, 25.0, false, false), Some(theme().color(StyleKey::Text)));
    assert_eq!(
        list.chrome_instances[1].bg,
        hover_face(),
        "hovered face is fully resolved on first sight"
    );
}

#[test]
fn animated_mid_transition_is_between_states() {
    let t = theme();
    let l1 = animated(pointer(0.0, 0.0, false, false), Some(t.color(StyleKey::Text)));
    assert_eq!(
        l1.chrome_instances[1].bg,
        sheen_over(t.color(StyleKey::Button), t.color(StyleKey::FaceTop))
    );
    let half = t.color(StyleKey::Text).mix(t.color(StyleKey::TextHighlight), s(0.5));
    let l2 = animated(pointer(50.0, 25.0, false, false), Some(half));
    assert_eq!(l2.chrome_instances[1].bg, hover_face());
    assert_ne!(l2.chrome_instances[1].bg, l1.chrome_instances[1].bg);
    assert_eq!(l2.texts[0].color.r, (f(half.r) * 255.0) as u8);
}

#[test]
fn animated_zero_duration_snaps() {
    let l1 = animated(pointer(0.0, 0.0, false, false), None);
    let l2 = animated(pointer(50.0, 25.0, false, false), None);
    assert_ne!(l1.chrome_instances[1].bg, l2.chrome_instances[1].bg);
    assert_eq!(l2.chrome_instances[1].bg, hover_face());
}

#[test]
fn a_nine_slice_button_draws_its_panel() {
    let mut c = ctx(pointer(50.0, 25.0, true, true));
    assert!(Button::draw_nine_slice("Go", rect(), go(), true, &mut c, "panel"));
    assert_eq!(c.draw_list.nine_slices.len(), 1);
    assert_eq!(c.draw_list.nine_slices[0].texture_key, "panel");
    let mut c = ctx(pointer(50.0, 25.0, true, true));
    assert!(!Button::draw_nine_slice("Go", rect(), go(), false, &mut c, "panel"));
}

#[test]
fn an_intrinsic_size_holds_the_label() {
    let (w, h) = Button::new("Go").intrinsic_size(go(), &theme());
    assert!(f(w) > f(go().width));
    assert_eq!(f(h), 28.0);
}

fn box_rect() -> Rect {
    rc(0.0, 0.0, 120.0, 20.0)
}

fn draw_cb(cb: &Checkbox, checked: bool, text: &str, input: InputState) -> (DrawList, bool) {
    let mut c = ctx(input);
    let toggled = cb.draw(checked, text, s(0.6), box_rect(), None, &mut c);
    (c.draw_list, toggled)
}

fn idle() -> InputState {
    at(-1.0, -1.0)
}

#[test]
fn vector_unchecked_emits_geometry() {
    let (list, _) = draw_cb(&Checkbox::new(), false, "", idle());
    assert!(
        !list.chrome_instances.is_empty(),
        "vector unchecked box must emit geometry (box fill + outline)"
    );
    assert!(list.icons.is_empty(), "vector path must not queue any icon");
}

#[test]
fn vector_checked_adds_checkmark_over_fill() {
    let size = 20.0f32;
    let radius = 4.0f32.min(size * 0.3).max(0.0);
    let mut fill_only = fresh();
    fill_only.rounded_rect(rc(0.0, 0.0, size, size), s(radius), theme().color(StyleKey::Accent));

    let (checked, _) = draw_cb(&Checkbox::new(), true, "", idle());
    assert!(
        checked.vertices.len() > fill_only.vertices.len(),
        "checked box should add checkmark geometry beyond the accent fill"
    );
}

#[test]
fn click_inside_toggles() {
    let (_, clicked) = draw_cb(&Checkbox::new(), false, "Label", pointer(5.0, 10.0, true, true));
    assert!(clicked, "a click inside the rect should report a toggle");
}

#[test]
fn click_outside_does_not_toggle() {
    let (_, clicked) =
        draw_cb(&Checkbox::new(), false, "Label", pointer(500.0, 500.0, true, true));
    assert!(!clicked);
}

#[test]
fn consumed_mouse_does_not_toggle() {
    let input = InputState { mouse_consumed: true, ..pointer(5.0, 10.0, true, true) };
    let (_, clicked) = draw_cb(&Checkbox::new(), false, "Label", input);
    assert!(!clicked);
}

#[test]
fn icon_keys_path_queues_icon_not_vector() {
    let cb = Checkbox::new().with_icon_keys(CHECKBOX_ICON, CHECKBOX_CHECKED_ICON);
    let (list, _) = draw_cb(&cb, true, "", idle());
    assert_eq!(list.icons.len(), 1, "icon-key path queues exactly one icon");
    assert_eq!(list.icons[0].icon_key, CHECKBOX_CHECKED_ICON);
}

#[test]
fn icon_sprites_follow_the_state() {
    let cb = Checkbox::new().with_icons(3, 4);
    assert_eq!(draw_cb(&cb, false, "", idle()).0.icons[0].sprite, Some(3));
    assert_eq!(draw_cb(&cb, true, "", idle()).0.icons[0].sprite, Some(4));
}

#[test]
fn contrast_color_picks_black_on_light_and_white_on_dark() {
    assert_eq!(rgba(contrast_color(col([1.0, 1.0, 1.0, 1.0]))), [0.0, 0.0, 0.0, 1.0]);
    assert_eq!(rgba(contrast_color(col([0.0, 0.0, 0.0, 1.0]))), [1.0, 1.0, 1.0, 1.0]);
}

fn key(space: bool, enter: bool) -> InputState {
    InputState { key_space: space, enter_pressed: enter, ..InputState::default() }
}

fn draw_focused(cb: &Checkbox, focus: FocusState, input: InputState) -> (DrawContext, bool) {
    let mut c = ctx_with(input, focus);
    let toggled = cb.draw(false, "Label", s(0.6), box_rect(), None, &mut c);
    (c, toggled)
}

#[test]
fn space_toggles_only_when_focused() {
    let cb = Checkbox::new().focusable(1);
    let (_, t) = draw_focused(&cb, FocusState::new(), key(true, false));
    assert!(!t, "Space must not toggle an unfocused checkbox");
    let (_, t) = draw_focused(&cb, focused(1), key(true, false));
    assert!(t, "Space toggles the focused checkbox");
}

#[test]
fn enter_toggles_only_when_focused() {
    let cb = Checkbox::new().focusable(1);
    let (_, t) = draw_focused(&cb, FocusState::new(), key(false, true));
    assert!(!t);
    let (_, t) = draw_focused(&cb, focused(1), key(false, true));
    assert!(t);
}

#[test]
fn checkbox_keyboard_ignored_without_focusable() {
    let (_, t) = draw_focused(&Checkbox::new(), focused(1), key(true, true));
    assert!(!t, "non-focusable checkbox ignores the keyboard");
}

#[test]
fn checkbox_focus_ring_only_when_focused() {
    let cb = Checkbox::new().focusable(1);
    let (unfocused, _) = draw_focused(&cb, FocusState::new(), idle());
    let (ringed, _) = draw_focused(&cb, focused(1), idle());
    assert!(
        ringed.draw_list.chrome_instances.len() > unfocused.draw_list.chrome_instances.len(),
        "focus ring should add outline geometry when focused"
    );
}

#[test]
fn click_requests_focus() {
    let cb = Checkbox::new().focusable(5);
    let (c, _) = draw_focused(&cb, FocusState::new(), pointer(5.0, 10.0, true, true));
    assert!(c.focus.is_focused(5), "clicking a focusable checkbox focuses it");
}

fn box_fill(list: &DrawList) -> Color {
    list.chrome_instances
        .iter()
        .find(|c| f(c.rect.x) == 0.0 && f(c.rect.y) == 0.0)
        .map(|c| c.bg)
        .expect("vector box should emit a fill chrome instance at the origin")
}

#[test]
fn checkbox_animated_without_state_is_byte_identical() {
    let (plain, _) = draw_cb(&Checkbox::new(), true, "", idle());
    let (anim, _) = draw_cb(&Checkbox::new().animated(1), true, "", idle());
    assert_eq!(box_fill(&plain), box_fill(&anim));
    assert_eq!(box_fill(&anim), theme().color(StyleKey::Accent));
}

fn draw_eased(checked: bool, ease: BoxEase, input: InputState) -> DrawList {
    let mut c = ctx(input);
    Checkbox::new().animated(1).draw(checked, "", s(0.6), box_rect(), Some(ease), &mut c);
    c.draw_list
}

#[test]
fn animated_fill_eases_between_checked_states() {
    let t = theme();
    let (from, to) = (t.color(StyleKey::InputBackground), t.color(StyleKey::Accent));
    let l1 = draw_eased(false, BoxEase { fill: from, overlay: s(0.0) }, idle());
    assert_eq!(box_fill(&l1), from);

    let l2 = draw_eased(true, BoxEase { fill: from.mix(to, s(1.0 / 3.0)), overlay: s(0.0) }, idle());
    let fill = rgba(box_fill(&l2));
    let (lo, hi) = (f(from.r).min(f(to.r)), f(from.r).max(f(to.r)));
    assert!(
        fill[0] > lo && fill[0] < hi,
        "mid-transition fill {} should be strictly between {} and {}",
        fill[0],
        lo,
        hi
    );
}

#[test]
fn animated_hover_overlay_fades_in() {
    let fill = theme().color(StyleKey::InputBackground);
    let l1 = draw_eased(false, BoxEase { fill, overlay: s(0.0) }, idle());
    let l2 = draw_eased(false, BoxEase { fill, overlay: s(0.03) }, at(5.0, 10.0));
    assert!(
        l2.chrome_instances.len() > l1.chrome_instances.len(),
        "fading-in hover overlay should add quad geometry"
    );
}

#[test]
fn face_drops_by_travel_when_pressed() {
    let t = theme();
    let r = rc(10.0, 10.0, 60.0, 24.0);
    let face = draw(&mut fresh(), &t, r, &Material::new(Tone::Default));
    assert_eq!(
        (f(face.y) - 10.0, f(face.height)),
        (0.0, 22.0),
        "at rest the face sits at the top, `travel` short of the control"
    );
    let face = draw(&mut fresh(), &t, r, &Material::new(Tone::Default).pressed(true));
    assert_eq!(
        (f(face.y) - 10.0, f(face.height)),
        (2.0, 22.0),
        "pressing drops the face onto the plinth by `travel`"
    );
}

#[test]
fn raised_paints_plinth_then_sheen_face() {
    let t = theme();
    let r = rc(0.0, 0.0, 40.0, 20.0);
    let mut list = fresh();
    draw(&mut list, &t, r, &Material::new(Tone::Default));
    assert_eq!(list.chrome_instances[0].bg, t.color(StyleKey::Plinth));
    let expected_top = sheen_over(t.color(StyleKey::Button), t.color(StyleKey::FaceTop));
    assert_eq!(list.chrome_instances[1].bg, expected_top);
    let expected_bot = sheen_over(t.color(StyleKey::Button), t.color(StyleKey::FaceBottom));
    assert_eq!(list.chrome_instances[1].bg2, expected_bot);
    let mut hov = fresh();
    draw(&mut hov, &t, r, &Material::new(Tone::Default).hovered(true));
    assert_eq!(hov.chrome_instances[1].bg, hover_face());
}

#[test]
fn overlay_recoloring_button_base_reaches_the_face() {
    let mut t = theme();
    t.set_color(StyleKey::Button, col([0.7, 0.1, 0.2, 1.0]));
    let mut list = fresh();
    draw(&mut list, &t, rc(0.0, 0.0, 40.0, 20.0), &Material::new(Tone::Default));
    let expected = sheen_over(col([0.7, 0.1, 0.2, 1.0]), t.color(StyleKey::FaceTop));
    assert_eq!(list.chrome_instances[1].bg, expected);
}

#[test]
fn ghost_is_transparent_at_rest_and_skips_the_plinth() {
    let mut list = fresh();
    draw(&mut list, &theme(), rc(0.0, 0.0, 40.0, 20.0), &Material::new(Tone::Bare));
    assert_eq!(list.chrome_instances.len(), 1, "no plinth instance");
    assert_eq!(f(list.chrome_instances[0].bg.a), 0.0, "idle ghost face is fully transparent");
}

#[test]
fn accent_tone_resolves_accent_faces_and_disabled_dims() {
    let t = theme();
    let r = rc(0.0, 0.0, 40.0, 20.0);
    let mut list = fresh();
    draw(&mut list, &t, r, &Material::new(Tone::Accent));
    let full = t.color(StyleKey::AccentFaceTop);
    assert_eq!(list.chrome_instances[1].bg, full);

    let mut off = fresh();
    draw(&mut off, &t, r, &Material::new(Tone::Accent).enabled(false));
    let face = off.chrome_instances[1].bg;
    assert!(
        (f(face.a) - f(full.a) * DISABLED_ALPHA).abs() < 1e-4,
        "disabled alpha fades the face"
    );
}

#[test]
fn sunken_paints_fill_shadow_and_underline() {
    let t = theme();
    let mut list = fresh();
    draw(&mut list, &t, rc(0.0, 0.0, 40.0, 20.0), &Material::new(Tone::Sunken));
    assert_eq!(list.chrome_instances[0].bg, t.color(StyleKey::InputBackground));
}

#[test]
fn well_focus_ring_appears_only_when_focused() {
    let t = theme();
    let r = rc(0.0, 0.0, 60.0, 22.0);
    let mut calm = fresh();
    draw_well(&mut calm, &t, r, false, false);
    let mut lit = fresh();
    draw_well(&mut lit, &t, r, true, false);
    assert!(
        lit.chrome_instances.len() > calm.chrome_instances.len(),
        "the focus ring is an extra stroke instance"
    );
}

#[test]
fn an_invalid_well_is_outlined_in_the_error_color() {
    let t = theme();
    let r = rc(0.0, 0.0, 60.0, 22.0);
    let mut list = fresh();
    draw_well_simple(&mut list, &t, r, false, true);
    let error = t.color(StyleKey::Error);
    assert!(list.chrome_instances.iter().any(|c| c.border == error || c.bg == error));
}

#[test]
fn places_hash_apart() {
    let a = focus_id_for("Go", &rc(0.0, 0.0, 10.0, 10.0));
    assert_eq!(a, focus_id_for("Go", &rc(0.0, 0.0, 10.0, 10.0)));
    assert_ne!(a, focus_id_for("Go", &rc(20.0, 0.0, 10.0, 10.0)));
    assert_ne!(a, focus_id_for("No", &rc(0.0, 0.0, 10.0, 10.0)));
}

#[test]
fn a_radius_of_its_own_squares_the_face() {
    let mut c = ctx(at(-1.0, -1.0));
    Button::new("Go").with_radius(s(0.0)).draw(rect(), go(), &mut c);
    assert_eq!(f(c.draw_list.chrome_instances[0].radius), 0.0);
    let mut themed = ctx(at(-1.0, -1.0));
    Button::new("Go").draw(rect(), go(), &mut themed);
    assert_eq!(f(themed.draw_list.chrome_instances[0].radius), 4.0);
}

#[test]
fn the_label_fades_toward_the_color_of_its_tone() {
    let t = theme();
    assert_eq!(Button::new("Go").text_target(&t), t.color(StyleKey::Text));
    assert_eq!(Button::new("Go").tone(Tone::Danger).text_target(&t), t.color(StyleKey::OnDanger));
    assert_eq!(Button::new("Go").enabled(false).text_target(&t), t.color(StyleKey::TextDim));
}
