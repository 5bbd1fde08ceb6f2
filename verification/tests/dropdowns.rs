//! Dropdowns, color pickers and banners.

#![allow(dead_code)]

use gameui::banner::{Banner, Severity};
use gameui::color::Hsva;
use gameui::color_picker::{
    region_id, ColorPicker, ColorPickerOutput, REGION_ALPHA, REGION_HUE, REGION_SV,
};
use gameui::context::{DrawContext, Frame, Label};
use gameui::drag::{DragCapture, DragId};
use gameui::draw_list::{DrawList, Trig};
use gameui::dropdown::{Dropdown, DropdownState};
use gameui::focus::FocusState;
use gameui::geometry::{Color, Point, Rect};
use gameui::input::InputState;
use gameui::scalar::Scalar;
use gameui::style::{StyleKey, StyleResolver};
use std::f32::consts::{FRAC_PI_2, PI, TAU};

fn s(x: f32) -> Scalar {
    Scalar { bits: x.to_bits() }
}

fn f(x: Scalar) -> f32 {
    f32::from_bits(x.bits)
}

fn pt(x: f32, y: f32) -> Point {
    Point { x: s(x), y: s(y) }
}

fn rc(x: f32, y: f32, w: f32, h: f32) -> Rect {
    Rect { x: s(x), y: s(y), width: s(w), height: s(h) }
}

fn col(c: [f32; 4]) -> Color {
    Color { r: s(c[0]), g: s(c[1]), b: s(c[2]), a: s(c[3]) }
}

fn rgba(c: Color) -> [f32; 4] {
    [f(c.r), f(c.g), f(c.b), f(c.a)]
}

fn xy(p: Point) -> [f32; 2] {
    [f(p.x), f(p.y)]
}

fn ltwh(r: Rect) -> [f32; 4] {
    [f(r.x), f(r.y), f(r.width), f(r.height)]
}

fn dir(a: f32) -> Point {
    pt(a.cos(), a.sin())
}

fn trig() -> Trig {
    let mut corners = Vec::new();
    for start in [PI, 1.5 * PI, 0.0, 0.5 * PI] {
        for i in 0..9 {
            corners.push(dir(start + FRAC_PI_2 * (i as f32 / 8.0)));
        }
    }
    let mut discs = Vec::new();
    for n in 16..=64u32 {
        discs.push((0..=n).map(|i| dir(TAU * i as f32 / n as f32)).collect::<Vec<Point>>());
    }
    let rings = discs.clone();
    Trig { corners, discs, rings }
}

fn fresh() -> DrawList {
    DrawList::new(trig(), 1)
}

/// A dark theme.
fn theme() -> StyleResolver {
    let mut t = StyleResolver::new(None);
    for (key, c) in [
        (StyleKey::Background, [0.08, 0.09, 0.10, 1.0]),
        (StyleKey::Scrim, [0.0, 0.0, 0.0, 0.55]),
        (StyleKey::Panel, [0.12, 0.13, 0.15, 1.0]),
        (StyleKey::PanelBorder, [0.25, 0.27, 0.30, 1.0]),
        (StyleKey::Text, [0.90, 0.91, 0.92, 1.0]),
        (StyleKey::TextDim, [0.55, 0.57, 0.60, 1.0]),
        (StyleKey::TextHighlight, [1.0, 1.0, 1.0, 1.0]),
        (StyleKey::OnAccent, [0.05, 0.06, 0.07, 1.0]),
        (StyleKey::OnDanger, [1.0, 0.95, 0.95, 1.0]),
        (StyleKey::Accent, [0.95, 0.65, 0.25, 1.0]),
        (StyleKey::Info, [0.22, 0.55, 0.95, 1.0]),
        (StyleKey::Success, [0.26, 0.72, 0.42, 1.0]),
        (StyleKey::Warning, [0.95, 0.70, 0.20, 1.0]),
        (StyleKey::Error, [0.9, 0.3, 0.3, 1.0]),
        (StyleKey::Button, [0.20, 0.22, 0.25, 1.0]),
        (StyleKey::ButtonHover, [0.26, 0.28, 0.32, 1.0]),
        (StyleKey::ButtonPressed, [0.16, 0.17, 0.20, 1.0]),
        (StyleKey::InputBackground, [0.06, 0.07, 0.08, 1.0]),
        (StyleKey::InputBorder, [0.30, 0.32, 0.35, 1.0]),
        (StyleKey::InputFocusBorder, [0.95, 0.75, 0.35, 1.0]),
        (StyleKey::TabActive, [0.22, 0.24, 0.27, 1.0]),
        (StyleKey::TabHover, [0.18, 0.20, 0.22, 1.0]),
        (StyleKey::TabInactive, [0.14, 0.15, 0.17, 1.0]),
        (StyleKey::Plinth, [0.03, 0.03, 0.04, 1.0]),
        (StyleKey::FaceTop, [1.0, 1.0, 1.0, 0.10]),
        (StyleKey::FaceTopHover, [1.0, 1.0, 1.0, 0.14]),
        (StyleKey::FaceTopPressed, [1.0, 1.0, 1.0, 0.04]),
        (StyleKey::FaceBottom, [0.0, 0.0, 0.0, 0.10]),
        (StyleKey::FaceBottomHover, [0.0, 0.0, 0.0, 0.06]),
        (StyleKey::FaceBottomPressed, [0.0, 0.0, 0.0, 0.16]),
        (StyleKey::AccentFaceTop, [0.98, 0.72, 0.35, 1.0]),
        (StyleKey::AccentFaceTopHover, [1.0, 0.78, 0.42, 1.0]),
        (StyleKey::AccentFaceTopPressed, [0.88, 0.62, 0.28, 1.0]),
        (StyleKey::AccentFaceBottom, [0.85, 0.55, 0.18, 1.0]),
        (StyleKey::AccentFaceBottomHover, [0.90, 0.60, 0.22, 1.0]),
        (StyleKey::AccentFaceBottomPressed, [0.78, 0.48, 0.14, 1.0]),
        (StyleKey::DangerFaceTop, [0.85, 0.30, 0.28, 1.0]),
        (StyleKey::DangerFaceTopHover, [0.92, 0.36, 0.33, 1.0]),
        (StyleKey::DangerFaceTopPressed, [0.75, 0.24, 0.22, 1.0]),
        (StyleKey::DangerFaceBottom, [0.65, 0.20, 0.18, 1.0]),
        (StyleKey::DangerFaceBottomHover, [0.72, 0.24, 0.21, 1.0]),
        (StyleKey::DangerFaceBottomPressed, [0.55, 0.16, 0.14, 1.0]),
        (StyleKey::EdgeHighlight, [1.0, 1.0, 1.0, 0.18]),
        (StyleKey::EdgeHighlightHover, [1.0, 1.0, 1.0, 0.24]),
        (StyleKey::EdgeHighlightPressed, [1.0, 1.0, 1.0, 0.08]),
        (StyleKey::EdgeShadow, [0.0, 0.0, 0.0, 0.35]),
        (StyleKey::InnerShadow, [0.0, 0.0, 0.0, 0.45]),
    ] {
        t.set_color(key, col(c));
    }
    for (key, x) in [
        (StyleKey::FontSize, 14.0),
        (StyleKey::Padding, 8.0),
        (StyleKey::Spacing, 6.0),
        (StyleKey::BorderRadius, 4.0),
        (StyleKey::BorderWidth, 1.0),
        (StyleKey::Travel, 2.0),
        (StyleKey::InnerShadowDepth, 3.0),
        (StyleKey::ButtonHeight, 28.0),
        (StyleKey::MenuRowHeight, 30.0),
        (StyleKey::DockTabHeight, 24.0),
        (StyleKey::DockSplitterWidth, 4.0),
        (StyleKey::ToolbarButtonSize, 28.0),
        (StyleKey::ToolbarPadding, 4.0),
    ] {
        t.set_scalar(key, s(x));
    }
    t
}

/// How `text` measures where every character takes half an em.
fn label(text: &str, size: f32) -> Label {
    Label { width: s(text.chars().count() as f32 * size * 0.5), center: s(0.6) }
}

fn ctx_with(input: InputState, focus: FocusState) -> DrawContext {
    DrawContext {
        frame: Frame { input, styles: theme(), layer: None },
        draw_list: fresh(),
        focus,
        cursor: None,
    }
}

fn ctx(input: InputState) -> DrawContext {
    ctx_with(input, FocusState::new())
}

fn at(x: f32, y: f32) -> InputState {
    InputState { mouse_x: s(x), mouse_y: s(y), ..InputState::default() }
}

/// The pointer at a point, with the button down and clicked as told.
fn pointer(x: f32, y: f32, down: bool, clicked: bool) -> InputState {
    InputState { mouse_down: down, mouse_clicked: clicked, ..at(x, y) }
}

const ITEMS: [&str; 3] = ["Red", "Green", "Blue"];
const ITEM_HEIGHT: f32 = 28.0;
const GAP_BELOW_BUTTON: f32 = 2.0;

fn rect_a() -> Rect {
    rc(10.0, 10.0, 120.0, 28.0)
}

fn rect_b() -> Rect {
    rc(10.0, 80.0, 120.0, 28.0)
}

fn mouse(clicked: bool, escape: bool, x: f32, y: f32) -> InputState {
    InputState { mouse_clicked: clicked, key_escape: escape, ..at(x, y) }
}

fn labels() -> Vec<Label> {
    ITEMS.iter().map(|i| label(i, 14.0)).collect()
}

/// One frame with two dropdowns.
fn frame(state: &mut DropdownState, inp: InputState) {
    let mut focus = FocusState::new();
    focus.begin_frame(&inp);
    state.begin_frame(&inp);
    let mut c = ctx_with(inp, focus);
    Dropdown::new(&ITEMS, 0).draw(1, rect_a(), label("Red", 14.0), state, &mut c);
    Dropdown::new(&ITEMS, 0).draw(2, rect_b(), label("Red", 14.0), state, &mut c);
    state.end_frame();
    c.focus.end_frame(None);
}

#[test]
fn open_list_rect_floats_below_button_sized_to_rows() {
    let btn = rect_a();
    let menu = Dropdown::new(&ITEMS, 0).open_list_rect(btn);
    assert_eq!(menu.x, btn.x);
    assert_eq!(menu.width, btn.width);
    assert_eq!(f(menu.y), f(btn.y) + f(btn.height) + GAP_BELOW_BUTTON);
    assert_eq!(f(menu.height), ITEMS.len() as f32 * ITEM_HEIGHT);
}

#[test]
fn open_list_rect_clamps_height_to_max_visible() {
    let btn = rect_a();
    let menu = Dropdown::new(&ITEMS, 0).with_max_visible(2).open_list_rect(btn);
    assert_eq!(f(menu.height), 2.0 * ITEM_HEIGHT, "scrollable list caps at max_visible rows");
}

#[test]
fn fresh_state_has_nothing_open() {
    let d = DropdownState::new();
    assert_eq!(d.open(), None);
    assert!(!d.is_open(1));
}

#[test]
fn clicking_button_toggles_open() {
    let mut d = DropdownState::new();
    frame(&mut d, mouse(true, false, 20.0, 20.0));
    assert!(d.is_open(1));
    frame(&mut d, mouse(true, false, 20.0, 20.0));
    assert!(!d.is_open(1));
    assert_eq!(d.open(), None);
}

#[test]
fn single_owner_opening_b_replaces_a() {
    let mut d = DropdownState::new();
    frame(&mut d, mouse(true, false, 20.0, 20.0));
    assert!(d.is_open(1));
    frame(&mut d, mouse(true, false, 20.0, 90.0));
    assert!(d.is_open(2));
    assert!(!d.is_open(1));
}

#[test]
fn escape_closes() {
    let mut d = DropdownState::new();
    frame(&mut d, mouse(true, false, 20.0, 20.0));
    assert!(d.is_open(1));
    frame(&mut d, mouse(false, true, 20.0, 20.0));
    assert!(!d.is_open(1));
}

#[test]
fn click_elsewhere_closes() {
    let mut d = DropdownState::new();
    frame(&mut d, mouse(true, false, 20.0, 20.0));
    assert!(d.is_open(1));
    frame(&mut d, mouse(true, false, 500.0, 500.0));
    assert!(!d.is_open(1));
}

#[test]
fn no_click_keeps_open() {
    let mut d = DropdownState::new();
    frame(&mut d, mouse(true, false, 20.0, 20.0));
    frame(&mut d, mouse(false, false, 0.0, 0.0));
    assert!(d.is_open(1));
}

fn draw_button(d: &mut DropdownState, selected: usize, inp: InputState) {
    let mut c = ctx(inp);
    Dropdown::new(&ITEMS, selected).draw(1, rect_a(), label("Red", 14.0), d, &mut c);
}

fn draw_layer(d: &mut DropdownState, inp: &InputState) -> Option<(u64, usize)> {
    let mut list = fresh();
    d.draw_open_layer(&mut list, inp, &theme(), inp, &labels())
}

#[test]
fn open_list_appears_next_frame_and_selecting_returns_index() {
    let mut d = DropdownState::new();

    let open = mouse(true, false, 20.0, 20.0);
    d.begin_frame(&open);
    assert_eq!(d.push_open_layer(), None, "freshly-opened list has no layer this frame");
    draw_button(&mut d, 0, open.clone());
    assert_eq!(draw_layer(&mut d, &open), None);
    d.end_frame();
    assert!(d.is_open(1));

    let click_row1 = mouse(true, false, 20.0, 80.0);
    d.begin_frame(&click_row1);
    let popup = d.push_open_layer();
    assert!(popup.is_some(), "open list has a layer on the next frame");
    assert_eq!(popup.map(ltwh), Some([10.0, 40.0, 120.0, 84.0]));
    draw_button(&mut d, 0, mouse(false, false, 20.0, 80.0));
    let pick = draw_layer(&mut d, &click_row1);
    assert_eq!(pick, Some((1, 1)), "clicking row 1 returns (id=1, index=1)");
    d.end_frame();
    assert!(!d.is_open(1), "selecting an option closes the dropdown");
}

fn keys(up: bool, down: bool, enter: bool) -> InputState {
    InputState { key_up: up, key_down: down, enter_pressed: enter, ..InputState::default() }
}

fn opened(selected: usize) -> DropdownState {
    let mut d = DropdownState::new();
    let inp = mouse(true, false, 20.0, 20.0);
    d.begin_frame(&inp);
    draw_button(&mut d, selected, inp);
    d.end_frame();
    assert!(d.is_open(1));
    d
}

#[test]
fn arrow_down_moves_highlighted_in_open_list() {
    let mut d = opened(0);
    let kbd = keys(false, true, false);
    d.begin_frame(&kbd);
    assert!(d.push_open_layer().is_some());
    let _ = draw_layer(&mut d, &kbd);
    assert_eq!(d.highlighted(), 1, "arrow down moves to index 1");
    let _ = draw_layer(&mut d, &keys(false, true, false));
    assert_eq!(d.highlighted(), 2, "arrow down moves to index 2");
    d.end_frame();
}

#[test]
fn arrow_up_moves_highlighted() {
    let mut d = opened(2);
    assert_eq!(d.highlighted(), 2);
    let kbd = keys(true, false, false);
    d.begin_frame(&kbd);
    assert!(d.push_open_layer().is_some());
    let _ = draw_layer(&mut d, &kbd);
    assert_eq!(d.highlighted(), 1, "arrow up moves to index 1");
    d.end_frame();
}

#[test]
fn enter_selects_highlighted_item() {
    let mut d = opened(0);
    let kbd = keys(false, true, false);
    d.begin_frame(&kbd);
    assert!(d.push_open_layer().is_some());
    draw_button(&mut d, 0, kbd.clone());
    let _ = draw_layer(&mut d, &kbd);
    assert_eq!(d.highlighted(), 1);
    d.end_frame();

    let enter = keys(false, false, true);
    d.begin_frame(&enter);
    assert!(d.push_open_layer().is_some());
    draw_button(&mut d, 0, enter.clone());
    let result = draw_layer(&mut d, &enter);
    assert_eq!(result, Some((1, 1)), "Enter selects highlighted item");
    d.end_frame();
    assert!(!d.is_open(1), "selecting closes the dropdown");
}

#[test]
fn an_opened_list_is_there_at_once_when_asked_for() {
    let mut d = DropdownState::new();
    d.open_for_test(4, rect_b(), &ITEMS, 1);
    assert!(d.is_open(4));
    assert_eq!(d.list_rect().map(ltwh), Some([10.0, 110.0, 120.0, 84.0]));
    let mut list = fresh();
    let idle = at(0.0, 0.0);
    assert_eq!(d.draw_open_layer(&mut list, &idle, &theme(), &idle, &labels()), None);
    assert_eq!(list.texts.len(), 3);
    d.close();
    assert_eq!(d.open(), None);
}

fn pick(picker: &ColorPicker, hsva: Hsva, id: DragId, cap: &mut DragCapture, input: InputState) -> ColorPickerOutput {
    let mut c = ctx(input);
    picker.draw(hsva, id, cap, rc(0.0, 0.0, 200.0, 120.0), &mut c)
}

fn opaque(h: f32, sat: f32, v: f32) -> Hsva {
    Hsva::opaque(s(h), s(sat), s(v))
}

#[test]
fn region_ids_are_distinct_and_stable() {
    let sv = region_id(7, REGION_SV);
    let hue = region_id(7, REGION_HUE);
    let alpha = region_id(7, REGION_ALPHA);
    assert!(sv != hue && hue != alpha && sv != alpha, "three distinct ids");
    assert_eq!(sv, region_id(7, REGION_SV), "stable across calls");
    assert!(region_id(8, REGION_SV) != sv);
}

#[test]
fn press_in_sv_square_sets_saturation_and_value() {
    let picker = ColorPicker::new();
    let mut cap = DragCapture::new();
    let out = pick(&picker, opaque(0.0, 0.5, 0.5), 0, &mut cap, pointer(170.0, 6.0, true, true));
    assert!(out.dragging);
    assert!(out.changed);
    assert!(f(out.hsva.s) > 0.9, "right edge → high saturation, got {}", f(out.hsva.s));
    assert!(f(out.hsva.v) > 0.9, "top → high value, got {}", f(out.hsva.v));
    assert_eq!(f(out.hsva.h), 0.0);
}

#[test]
fn press_in_hue_bar_sets_hue() {
    let picker = ColorPicker::new();
    let mut cap = DragCapture::new();
    let out = pick(&picker, opaque(0.0, 1.0, 1.0), 0, &mut cap, pointer(192.0, 60.0, true, true));
    assert!(out.dragging);
    assert!((f(out.hsva.h) - 180.0).abs() < 5.0, "mid hue bar → ~180°, got {}", f(out.hsva.h));
}

#[test]
fn press_in_alpha_bar_sets_alpha_when_enabled() {
    let picker = ColorPicker::new().with_alpha(true);
    let mut cap = DragCapture::new();
    let out = pick(
        &picker,
        Hsva::new(s(0.0), s(1.0), s(1.0), s(1.0)),
        0,
        &mut cap,
        pointer(192.0, 114.0, true, true),
    );
    assert!(out.dragging);
    assert!(f(out.hsva.a) < 0.1, "bottom of alpha bar → ~0 alpha, got {}", f(out.hsva.a));
}

#[test]
fn alpha_region_inert_when_disabled() {
    let picker = ColorPicker::new();
    let mut cap = DragCapture::new();
    let start = Hsva::new(s(0.0), s(1.0), s(1.0), s(0.4));
    let out = pick(&picker, start, 0, &mut cap, pointer(192.0, 114.0, true, true));
    assert_eq!(f(out.hsva.a), 0.4, "alpha unchanged without an alpha bar");
}

#[test]
fn sv_and_hue_do_not_both_claim_one_press() {
    let picker = ColorPicker::new();
    let mut cap = DragCapture::new();
    let out = pick(&picker, opaque(123.0, 0.5, 0.5), 0, &mut cap, pointer(80.0, 60.0, true, true));
    assert!(out.dragging);
    assert_eq!(f(out.hsva.h), 123.0, "SV drag leaves hue alone");
}

#[test]
fn consumed_mouse_does_not_start_drag() {
    let picker = ColorPicker::new();
    let mut cap = DragCapture::new();
    let mut input = pointer(80.0, 60.0, true, true);
    input.mouse_consumed = true;
    let out = pick(&picker, opaque(0.0, 0.5, 0.5), 0, &mut cap, input);
    assert!(!out.dragging);
    assert!(!out.changed);
    assert!(cap.is_free());
}

#[test]
fn release_frees_capture_and_drag_continues_until_then() {
    let picker = ColorPicker::new();
    let mut cap = DragCapture::new();
    let o1 = pick(&picker, opaque(0.0, 0.5, 0.5), 0, &mut cap, pointer(40.0, 30.0, true, true));
    assert!(o1.dragging);
    let o2 = pick(&picker, o1.hsva, 0, &mut cap, pointer(120.0, 500.0, true, false));
    assert!(o2.dragging, "held drag continues outside the rect");
    assert!(f(o2.hsva.v) <= 0.0001, "y far below → value clamped to 0");
    let o3 = pick(&picker, o2.hsva, 0, &mut cap, at(120.0, 500.0));
    assert!(!o3.dragging);
    assert!(cap.is_free());
}

#[test]
fn rgba_output_matches_hsva() {
    let picker = ColorPicker::new();
    let mut cap = DragCapture::new();
    let c = Hsva::new(s(120.0), s(1.0), s(1.0), s(0.5));
    let out = pick(&picker, c, 0, &mut cap, at(-1.0, -1.0));
    assert_eq!(out.rgba, c.to_rgba());
    assert!(!out.changed, "no interaction → unchanged");
    assert_eq!(rgba(out.rgba), [0.0, 1.0, 0.0, 0.5]);
}

#[test]
fn the_pure_hues_are_where_they_belong() {
    assert_eq!(rgba(opaque(0.0, 1.0, 1.0).to_rgba()), [1.0, 0.0, 0.0, 1.0]);
    assert_eq!(rgba(opaque(60.0, 1.0, 1.0).to_rgba()), [1.0, 1.0, 0.0, 1.0]);
    assert_eq!(rgba(opaque(180.0, 1.0, 1.0).to_rgba()), [0.0, 1.0, 1.0, 1.0]);
    assert_eq!(rgba(opaque(240.0, 1.0, 1.0).to_rgba()), [0.0, 0.0, 1.0, 1.0]);
    assert_eq!(rgba(opaque(300.0, 1.0, 1.0).to_rgba()), [1.0, 0.0, 1.0, 1.0]);
    assert_eq!(rgba(opaque(77.0, 0.0, 0.25).to_rgba()), [0.25, 0.25, 0.25, 1.0]);
}

const SEVERITIES: [Severity; 4] =
    [Severity::Info, Severity::Success, Severity::Warning, Severity::Error];

#[test]
fn severity_maps_to_themeable_style_keys() {
    assert_eq!(Severity::Info.style_key(), StyleKey::Info);
    assert_eq!(Severity::Success.style_key(), StyleKey::Success);
    assert_eq!(Severity::Warning.style_key(), StyleKey::Warning);
    assert_eq!(Severity::Error.style_key(), StyleKey::Error);
}

#[test]
fn default_accent_matches_themed_palette() {
    let t = theme();
    for sev in SEVERITIES {
        assert_eq!(sev.accent(), t.color(sev.style_key()), "{sev:?}");
    }
}

#[test]
fn overlay_recolors_the_accent_bar() {
    let mut t = theme();
    let custom = [0.10, 0.20, 0.30, 1.0];
    t.set_color(StyleKey::Success, col(custom));
    let mut list = fresh();
    Banner::success("Saved").draw(rc(0.0, 0.0, 200.0, 40.0), &mut list, &t);
    let bar = list.chrome_instances[1];
    assert_eq!(rgba(bar.bg), custom, "accent bar resolves through the style system");
    assert_eq!(rgba(list.chrome_instances[0].bg), [0.10, 0.20, 0.30, 0.16]);
    assert_eq!(ltwh(bar.rect), [0.0, 0.0, 4.0, 40.0]);
}

#[test]
fn each_severity_has_a_distinct_accent() {
    let colors: Vec<Color> = SEVERITIES.iter().map(|v| v.accent()).collect();
    for (i, a) in colors.iter().enumerate() {
        for b in &colors[i + 1..] {
            assert_ne!(a, b, "severity accents must differ");
        }
    }
}

#[test]
fn convenience_ctors_pick_the_right_severity() {
    assert_eq!(Banner::info("x").accent(), Severity::Info.accent());
    assert_eq!(Banner::success("x").accent(), Severity::Success.accent());
    assert_eq!(Banner::warning("x").accent(), Severity::Warning.accent());
    assert_eq!(Banner::error("x").accent(), Severity::Error.accent());
}

/// The height of a message broken at the banner's inner width.
fn message_height(text: &str, width: f32) -> Scalar {
    let inner = f(Banner::inner_width(s(width), s(8.0)));
    let lines = (f(label(text, 14.0).width) / inner).ceil();
    s(lines * 17.5)
}

#[test]
fn title_adds_height() {
    let t = theme();
    let h = message_height("hello world", 200.0);
    let plain = Banner::info("hello world").measure_height(h, &t);
    let titled = Banner::info("hello world").with_title("Heads up").measure_height(h, &t);
    assert!(f(titled) > f(plain), "a title makes the banner taller");
    assert_eq!(f(plain), 16.0 + f(h));
}

#[test]
fn narrower_width_wraps_taller() {
    let t = theme();
    let msg = "This is a reasonably long message that should wrap onto multiple lines.";
    let wide = Banner::info(msg).measure_height(message_height(msg, 400.0), &t);
    let narrow = Banner::info(msg).measure_height(message_height(msg, 120.0), &t);
    assert!(f(narrow) > f(wide), "narrower banner wraps to more lines");
}

#[test]
fn draw_emits_bar_background_and_text() {
    let mut list = fresh();
    Banner::error("Disk full").with_title("Error").draw(
        rc(0.0, 0.0, 300.0, 60.0),
        &mut list,
        &theme(),
    );
    assert_eq!(list.chrome_instances.len(), 2);
    assert_eq!(list.texts.len(), 2);
    assert_eq!(list.texts[0].content, "Error");
    assert_eq!(list.texts[1].content, "Disk full");
    assert_eq!(f(list.texts[1].y), 8.0 + 14.0 * 1.3);
    assert_eq!(f(list.texts[1].x), 12.0);
    assert_eq!(f(list.texts[1].max_width), 280.0);
}

#[test]
fn untitled_draws_one_text() {
    let mut list = fresh();
    Banner::success("Saved").draw(rc(0.0, 0.0, 200.0, 40.0), &mut list, &theme());
    assert_eq!(list.texts.len(), 1);
    assert_eq!(list.texts[0].content, "Saved");
    assert_eq!(f(list.texts[0].y), 8.0);
}

#[test]
fn neighbouring_pickers_share_no_region() {
    for base in [0, 41, u64::MAX - 1, u64::MAX] {
        for a in 0..3 {
            for b in 0..3 {
                assert_ne!(region_id(base, a), region_id(base.wrapping_add(1), b));
            }
        }
    }
}

#[test]
fn the_bars_take_their_width_from_the_square() {
    let picker = ColorPicker::new().with_bar_width(s(20.0));
    let r = picker.regions(rc(0.0, 0.0, 200.0, 120.0));
    assert_eq!(ltwh(r.sv), [0.0, 0.0, 172.0, 120.0]);
    assert_eq!(ltwh(r.hue), [180.0, 0.0, 20.0, 120.0]);
    assert!(r.alpha.is_none());
    let thin = ColorPicker::new().with_bar_width(s(0.0)).regions(rc(0.0, 0.0, 200.0, 120.0));
    assert_eq!(f(thin.hue.width), 1.0);
}

#[test]
fn a_dropdown_without_options_reserves_no_room() {
    let r = Dropdown::new(&[], 0).open_list_rect(rc(10.0, 10.0, 120.0, 28.0));
    assert_eq!(ltwh(r), [10.0, 40.0, 120.0, 0.0]);
}

#[test]
fn letting_go_ends_the_drag_of_any_region() {
    for region in [REGION_SV, REGION_HUE, REGION_ALPHA] {
        let mut cap = DragCapture::new();
        cap.try_begin(region_id(0, region));
        let start = opaque(10.0, 0.5, 0.5);
        let picker = ColorPicker::new().with_alpha(true);
        let out = pick(&picker, start, 0, &mut cap, pointer(60.0, 60.0, false, false));
        assert!(cap.is_free());
        assert!(!out.dragging);
        assert_eq!(out.hsva, start);
    }
}

#[test]
fn a_cloned_state_has_the_same_dropdown_open() {
    let mut d = DropdownState::new();
    d.open_for_test(3, rect_a(), &ITEMS, 1);
    let copy = d.clone();
    d.close();
    assert_eq!(copy.open(), Some(3));
    assert_eq!(copy.list_rect().map(|r| f(r.height)), Some(84.0));
}
