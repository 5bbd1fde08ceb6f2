//! Hit zones, icons, images, groups, badges and busy states.

#![allow(dead_code)]

use gameui::badge::{badge, chip, keycap};
use gameui::busy::{
    arc_angle, dot_phase, dot_scale, dots, empty_state, shimmer, skeleton, spinner, EmptyMetrics,
    EmptyState, ARC_STEPS,
};
use gameui::context::{DrawContext, Frame, Label};
use gameui::draw_list::{DrawList, Trig};
use gameui::draw_list::{SpriteId, Uv};
use gameui::focus::FocusState;
use gameui::geometry::{Color, Point, Rect};
use gameui::group::Group;
use gameui::hit_zone::{HitZone, HitZoneOutput};
use gameui::icon::Icon;
use gameui::image::{Image, ImageAlign, ImageFit};
use gameui::image_button::ImageButton;
use gameui::input::InputState;
use gameui::scalar::Scalar;
use gameui::style::{StyleKey, StyleResolver};
use std::f32::consts::{FRAC_PI_2, PI, TAU};

fn s(x: f32) -> Scalar {
    Scalar { bits: x.to_bits() }
}

fn f(x: Scalar) -> f32 {
    f32::from_bits(x.bits)
}

fn pt(x: f32, y: f32) -> Point {
    Point { x: s(x), y: s(y) }
}

fn rc(x: f32, y: f32, w: f32, h: f32) -> Rect {
    Rect { x: s(x), y: s(y), width: s(w), height: s(h) }
}

fn col(c: [f32; 4]) -> Color {
    Color { r: s(c[0]), g: s(c[1]), b: s(c[2]), a: s(c[3]) }
}

fn rgba(c: Color) -> [f32; 4] {
    [f(c.r), f(c.g), f(c.b), f(c.a)]
}

fn xy(p: Point) -> [f32; 2] {
    [f(p.x), f(p.y)]
}

fn ltwh(r: Rect) -> [f32; 4] {
    [f(r.x), f(r.y), f(r.width), f(r.height)]
}

fn dir(a: f32) -> Point {
    pt(a.cos(), a.sin())
}

fn trig() -> Trig {
    let mut corners = Vec::new();
    for start in [PI, 1.5 * PI, 0.0, 0.5 * PI] {
        for i in 0..9 {
            corners.push(dir(start + FRAC_PI_2 * (i as f32 / 8.0)));
        }
    }
    let mut discs = Vec::new();
    for n in 16..=64u32 {
        discs.push((0..=n).map(|i| dir(TAU * i as f32 / n as f32)).collect::<Vec<Point>>());
    }
    let rings = discs.clone();
    Trig { corners, discs, rings }
}

fn fresh() -> DrawList {
    DrawList::new(trig(), 1)
}

/// A dark theme.
fn theme() -> StyleResolver {
    let mut t = StyleResolver::new(None);
    for (key, c) in [
        (StyleKey::Background, [0.08, 0.09, 0.10, 1.0]),
        (StyleKey::Scrim, [0.0, 0.0, 0.0, 0.55]),
        (StyleKey::Panel, [0.12, 0.13, 0.15, 1.0]),
        (StyleKey::PanelBorder, [0.25, 0.27, 0.30, 1.0]),
        (StyleKey::Text, [0.90, 0.91, 0.92, 1.0]),
        (StyleKey::TextDim, [0.55, 0.57, 0.60, 1.0]),
        (StyleKey::TextHighlight, [1.0, 1.0, 1.0, 1.0]),
        (StyleKey::OnAccent, [0.05, 0.06, 0.07, 1.0]),
        (StyleKey::OnDanger, [1.0, 0.95, 0.95, 1.0]),
        (StyleKey::Accent, [0.95, 0.65, 0.25, 1.0]),
        (StyleKey::Info, [0.22, 0.55, 0.95, 1.0]),
        (StyleKey::Success, [0.26, 0.72, 0.42, 1.0]),
        (StyleKey::Warning, [0.95, 0.70, 0.20, 1.0]),
        (StyleKey::Error, [0.9, 0.3, 0.3, 1.0]),
        (StyleKey::Button, [0.20, 0.22, 0.25, 1.0]),
        (StyleKey::ButtonHover, [0.26, 0.28, 0.32, 1.0]),
        (StyleKey::ButtonPressed, [0.16, 0.17, 0.20, 1.0]),
        (StyleKey::InputBackground, [0.06, 0.07, 0.08, 1.0]),
        (StyleKey::InputBorder, [0.30, 0.32, 0.35, 1.0]),
        (StyleKey::InputFocusBorder, [0.95, 0.75, 0.35, 1.0]),
        (StyleKey::TabActive, [0.22, 0.24, 0.27, 1.0]),
        (StyleKey::TabHover, [0.18, 0.20, 0.22, 1.0]),
        (StyleKey::TabInactive, [0.14, 0.15, 0.17, 1.0]),
        (StyleKey::Plinth, [0.03, 0.03, 0.04, 1.0]),
        (StyleKey::FaceTop, [1.0, 1.0, 1.0, 0.10]),
        (StyleKey::FaceTopHover, [1.0, 1.0, 1.0, 0.14]),
        (StyleKey::FaceTopPressed, [1.0, 1.0, 1.0, 0.04]),
        (StyleKey::FaceBottom, [0.0, 0.0, 0.0, 0.10]),
        (StyleKey::FaceBottomHover, [0.0, 0.0, 0.0, 0.06]),
        (StyleKey::FaceBottomPressed, [0.0, 0.0, 0.0, 0.16]),
        (StyleKey::AccentFaceTop, [0.98, 0.72, 0.35, 1.0]),
        (StyleKey::AccentFaceTopHover, [1.0, 0.78, 0.42, 1.0]),
        (StyleKey::AccentFaceTopPressed, [0.88, 0.62, 0.28, 1.0]),
        (StyleKey::AccentFaceBottom, [0.85, 0.55, 0.18, 1.0]),
        (StyleKey::AccentFaceBottomHover, [0.90, 0.60, 0.22, 1.0]),
        (StyleKey::AccentFaceBottomPressed, [0.78, 0.48, 0.14, 1.0]),
        (StyleKey::DangerFaceTop, [0.85, 0.30, 0.28, 1.0]),
        (StyleKey::DangerFaceTopHover, [0.92, 0.36, 0.33, 1.0]),
        (StyleKey::DangerFaceTopPressed, [0.75, 0.24, 0.22, 1.0]),
        (StyleKey::DangerFaceBottom, [0.65, 0.20, 0.18, 1.0]),
        (StyleKey::DangerFaceBottomHover, [0.72, 0.24, 0.21, 1.0]),
        (StyleKey::DangerFaceBottomPressed, [0.55, 0.16, 0.14, 1.0]),
        (StyleKey::EdgeHighlight, [1.0, 1.0, 1.0, 0.18]),
        (StyleKey::EdgeHighlightHover, [1.0, 1.0, 1.0, 0.24]),
        (StyleKey::EdgeHighlightPressed, [1.0, 1.0, 1.0, 0.08]),
        (StyleKey::EdgeShadow, [0.0, 0.0, 0.0, 0.35]),
        (StyleKey::InnerShadow, [0.0, 0.0, 0.0, 0.45]),
    ] {
        t.set_color(key, col(c));
    }
    for (key, x) in [
        (StyleKey::FontSize, 14.0),
        (StyleKey::Padding, 8.0),
        (StyleKey::Spacing, 6.0),
        (StyleKey::BorderRadius, 4.0),
        (StyleKey::BorderWidth, 1.0),
        (StyleKey::Travel, 2.0),
        (StyleKey::InnerShadowDepth, 3.0),
        (StyleKey::ButtonHeight, 28.0),
        (StyleKey::MenuRowHeight, 30.0),
        (StyleKey::DockTabHeight, 24.0),
        (StyleKey::DockSplitterWidth, 4.0),
        (StyleKey::ToolbarButtonSize, 28.0),
        (StyleKey::ToolbarPadding, 4.0),
    ] {
        t.set_scalar(key, s(x));
    }
    t
}

/// How `text` measures where every character takes half an em.
fn label(text: &str, size: f32) -> Label {
    Label { width: s(text.chars().count() as f32 * size * 0.5), center: s(0.6) }
}

fn ctx_with(input: InputState, focus: FocusState) -> DrawContext {
    DrawContext {
        frame: Frame { input, styles: theme(), layer: None },
        draw_list: fresh(),
        focus,
        cursor: None,
    }
}

fn ctx(input: InputState) -> DrawContext {
    ctx_with(input, FocusState::new())
}

fn at(x: f32, y: f32) -> InputState {
    InputState { mouse_x: s(x), mouse_y: s(y), ..InputState::default() }
}

/// The pointer at a point, with the button down and clicked as told.
fn pointer(x: f32, y: f32, down: bool, clicked: bool) -> InputState {
    InputState { mouse_down: down, mouse_clicked: clicked, ..at(x, y) }
}

fn zone() -> Rect {
    rc(10.0, 10.0, 100.0, 40.0)
}

fn at_center(down: bool, clicked: bool) -> InputState {
    pointer(60.0, 30.0, down, clicked)
}

#[test]
fn click_inside_reports_clicked_and_hovered() {
    let out = HitZone::new().test(zone(), &at_center(true, true));
    assert!(out.hovered);
    assert!(out.clicked);
    assert!(out.pressed);
    assert!(out.any_click());
}

#[test]
fn pointer_outside_is_idle() {
    let input = InputState { mouse_clicked: true, ..at(500.0, 500.0) };
    assert_eq!(HitZone::new().test(zone(), &input), HitZoneOutput::idle());
}

#[test]
fn consumed_pointer_is_idle() {
    let input = InputState { mouse_consumed: true, ..at_center(true, true) };
    assert_eq!(HitZone::new().test(zone(), &input), HitZoneOutput::idle());
}

#[test]
fn disabled_zone_is_idle() {
    let out = HitZone::new().enabled(false).test(zone(), &at_center(true, true));
    assert_eq!(out, HitZoneOutput::idle());
}

#[test]
fn zero_size_rect_is_idle() {
    let out = HitZone::new().test(rc(10.0, 10.0, 0.0, 40.0), &at_center(true, true));
    assert_eq!(out, HitZoneOutput::idle());
}

#[test]
fn reports_right_and_middle_and_double_clicks() {
    let input = InputState {
        mouse_right_clicked: true,
        mouse_middle_clicked: true,
        mouse_double_clicked: true,
        mouse_clicked: true,
        ..at_center(false, false)
    };
    let out = HitZone::new().test(zone(), &input);
    assert!(out.right_clicked);
    assert!(out.middle_clicked);
    assert!(out.double_clicked);
    assert!(out.any_click());
}

#[test]
fn right_click_outside_is_idle() {
    let input = InputState { mouse_right_clicked: true, ..at(500.0, 500.0) };
    assert!(!HitZone::new().test(zone(), &input).right_clicked);
}

#[test]
fn released_reported_over_zone() {
    let input = InputState { mouse_released: true, ..at_center(false, false) };
    assert!(HitZone::new().test(zone(), &input).released);
}

#[test]
fn scroll_only_when_hovered_and_unclaimed() {
    let hovered = InputState { scroll_delta: s(3.0), ..at_center(false, false) };
    assert_eq!(f(HitZone::new().test(zone(), &hovered).scroll_delta), 3.0);

    let claimed = InputState { scroll_consumed: true, ..hovered };
    assert_eq!(f(HitZone::new().test(zone(), &claimed).scroll_delta), 0.0);

    let elsewhere = InputState { scroll_delta: s(3.0), ..at(500.0, 500.0) };
    assert_eq!(f(HitZone::new().test(zone(), &elsewhere).scroll_delta), 0.0);
}

#[test]
fn local_pos_is_relative_to_zone_origin() {
    let out = HitZone::new().test(zone(), &at_center(false, false));
    assert_eq!(out.local_pos.map(xy), Some([50.0, 20.0]));
}

#[test]
fn held_reported_over_zone() {
    let input = InputState { mouse_held: true, mouse_down: true, ..at_center(true, false) };
    assert!(HitZone::new().test(zone(), &input).held);
}

#[test]
fn edge_is_exclusive() {
    assert!(!HitZone::new().test(zone(), &at(110.0, 50.0)).hovered);
}

#[test]
fn draw_pushes_one_icon_record() {
    let mut list = fresh();
    Icon::new(Some(5)).draw(rc(10.0, 20.0, 24.0, 24.0), &mut list);
    assert_eq!(list.icons_msdf.len(), 1);
    let rec = list.icons_msdf[0];
    assert_eq!(rec.local, rc(10.0, 20.0, 24.0, 24.0));
    assert_eq!(rgba(rec.tint), [1.0, 1.0, 1.0, 1.0]);
}

#[test]
fn tint_is_forwarded() {
    let mut list = fresh();
    Icon::new(Some(6)).tint(col([0.0, 1.0, 0.0, 1.0])).draw(rc(0.0, 0.0, 16.0, 16.0), &mut list);
    assert_eq!(rgba(list.icons_msdf[0].tint), [0.0, 1.0, 0.0, 1.0]);
}

#[test]
fn from_glyph_matches_the_phosphor_constructor() {
    let g = 7;
    let mut a = fresh();
    let mut b = fresh();
    let rect = rc(4.0, 5.0, 20.0, 20.0);
    Icon::new(Some(g)).draw(rect, &mut a);
    Icon::from_glyph(g).draw(rect, &mut b);
    assert_eq!(a.icons_msdf, b.icons_msdf);
    assert_eq!(a.icons_msdf[0].glyph, g);
}

#[test]
fn zero_rect_draws_nothing() {
    let mut list = fresh();
    Icon::new(Some(8)).draw(rc(0.0, 0.0, 0.0, 16.0), &mut list);
    assert!(list.icons_msdf.is_empty());
    Icon::new(None).draw(rc(0.0, 0.0, 16.0, 16.0), &mut list);
    assert!(list.icons_msdf.is_empty());
}

const ID: SpriteId = 0;

fn drawn_rect(list: &DrawList) -> [f32; 4] {
    let c = list.icons.last().expect("an icon was queued").corners;
    let (a, b) = (xy(c.tl), xy(c.br));
    [a[0], a[1], b[0] - a[0], b[1] - a[1]]
}

fn approx(a: f32, b: f32) {
    assert!((a - b).abs() < 1e-3, "expected {b}, got {a}");
}

fn drawn(image: Image, dest: Rect) -> DrawList {
    let mut list = fresh();
    image.draw(dest, &mut list);
    list
}

#[test]
fn stretch_fills_dest_exactly() {
    let list = drawn(Image::sprite(ID).fit(ImageFit::Stretch), rc(10.0, 20.0, 200.0, 100.0));
    let r = drawn_rect(&list);
    approx(r[0], 10.0);
    approx(r[1], 20.0);
    approx(r[2], 200.0);
    approx(r[3], 100.0);
    assert!(list.icons[0].src.is_none(), "stretch draws the whole sprite");
}

fn sized(w: f32, h: f32, fit: ImageFit) -> Image {
    Image::sprite(ID).natural_size(s(w), s(h)).fit(fit)
}

#[test]
fn contain_letterboxes_square_into_wide_box_centered() {
    let list = drawn(sized(100.0, 100.0, ImageFit::Contain), rc(0.0, 0.0, 200.0, 100.0));
    let r = drawn_rect(&list);
    approx(r[2], 100.0);
    approx(r[3], 100.0);
    approx(r[0], 50.0);
    approx(r[1], 0.0);
    assert!(list.icons[0].src.is_none());
}

#[test]
fn contain_align_left_pins_to_start() {
    let image = sized(100.0, 100.0, ImageFit::Contain).align(ImageAlign::top_left());
    approx(drawn_rect(&drawn(image, rc(0.0, 0.0, 200.0, 100.0)))[0], 0.0);
}

#[test]
fn scale_down_never_upscales() {
    let r = drawn_rect(&drawn(sized(50.0, 50.0, ImageFit::ScaleDown), rc(0.0, 0.0, 400.0, 400.0)));
    approx(r[2], 50.0);
    approx(r[3], 50.0);
    approx(r[0], 175.0);
}

#[test]
fn contain_upscales_but_scale_down_does_not() {
    let r = drawn_rect(&drawn(sized(50.0, 50.0, ImageFit::Contain), rc(0.0, 0.0, 400.0, 400.0)));
    approx(r[2], 400.0);
}

#[test]
fn none_draws_natural_size() {
    let r = drawn_rect(&drawn(sized(120.0, 80.0, ImageFit::Natural), rc(0.0, 0.0, 400.0, 400.0)));
    approx(r[2], 120.0);
    approx(r[3], 80.0);
    approx(r[0], 140.0);
    approx(r[1], 160.0);
}

#[test]
fn cover_fills_box_and_crops_via_uv() {
    let list = drawn(sized(100.0, 100.0, ImageFit::Cover), rc(0.0, 0.0, 200.0, 100.0));
    let r = drawn_rect(&list);
    approx(r[2], 200.0);
    approx(r[3], 100.0);
    let uv: Uv = list.icons[0].src.expect("cover crops via UV");
    approx(f(uv.u0), 0.0);
    approx(f(uv.u1), 1.0);
    approx(f(uv.v0), 0.25);
    approx(f(uv.v1), 0.75);
}

#[test]
fn cover_without_sprite_falls_back_to_stretch() {
    let image = Image::key("portrait.png").natural_size(s(100.0), s(100.0)).fit(ImageFit::Cover);
    let list = drawn(image, rc(0.0, 0.0, 200.0, 100.0));
    let r = drawn_rect(&list);
    approx(r[2], 200.0);
    approx(r[3], 100.0);
    assert_eq!(list.icons[0].icon_key, "portrait.png");
    assert!(list.icons[0].sprite.is_none());
    assert!(list.icons[0].src.is_none());
}

#[test]
fn unknown_natural_size_falls_back_to_fill() {
    let list = drawn(Image::sprite(ID).fit(ImageFit::Contain), rc(5.0, 5.0, 60.0, 40.0));
    let r = drawn_rect(&list);
    approx(r[2], 60.0);
    approx(r[3], 40.0);
}

#[test]
fn tint_passes_through_on_sprite_source() {
    let image = Image::sprite(ID).tint(col([1.0, 0.0, 0.0, 0.5]));
    let list = drawn(image, rc(0.0, 0.0, 10.0, 10.0));
    assert_eq!(rgba(list.icons[0].tint), [1.0, 0.0, 0.0, 0.5]);
}

#[test]
fn zero_dest_draws_nothing() {
    let list = drawn(Image::sprite(ID), rc(0.0, 0.0, 0.0, 50.0));
    assert!(list.icons.is_empty());
}

fn button_rect() -> Rect {
    rc(10.0, 10.0, 80.0, 80.0)
}

fn press_button(b: ImageButton, rect: Rect, input: InputState) -> (bool, DrawList) {
    let mut list = fresh();
    let clicked = b.draw(rect, &mut list, &theme(), &input);
    (clicked, list)
}

/// All the geometry of a list, whichever way it is drawn.
fn geometry(list: &DrawList) -> usize {
    list.vertices.len() + list.chrome_instances.len()
}

#[test]
fn image_button_click_inside_returns_true() {
    let input = pointer(50.0, 50.0, true, true);
    assert!(press_button(ImageButton::sprite(ID), button_rect(), input).0);
}

#[test]
fn image_button_click_outside_returns_false() {
    let input = pointer(200.0, 200.0, true, true);
    assert!(!press_button(ImageButton::sprite(ID), button_rect(), input).0);
}

#[test]
fn image_button_disabled_never_clicks() {
    let input = pointer(50.0, 50.0, true, true);
    assert!(!press_button(ImageButton::sprite(ID).enabled(false), button_rect(), input).0);
}

#[test]
fn consumed_input_blocks_click() {
    let input = InputState { mouse_consumed: true, ..pointer(50.0, 50.0, true, true) };
    assert!(!press_button(ImageButton::sprite(ID), button_rect(), input).0);
}

#[test]
fn image_is_inset_by_padding() {
    let b = ImageButton::sprite(ID).padding(s(12.0));
    let (_, list) = press_button(b, button_rect(), pointer(0.0, 0.0, false, false));
    let c = list.icons.last().expect("an icon was drawn").corners;
    assert!((f(c.tl.x) - 22.0).abs() < 1e-3, "inset x: {}", f(c.tl.x));
    assert!((f(c.tl.y) - 22.0).abs() < 1e-3, "inset y: {}", f(c.tl.y));
    assert!((f(c.br.x) - 78.0).abs() < 1e-3, "inset right: {}", f(c.br.x));
}

#[test]
fn chrome_draws_background_quads() {
    let idle = pointer(0.0, 0.0, false, false);
    let (_, chrome) = press_button(ImageButton::sprite(ID), button_rect(), idle.clone());
    let (_, bare) = press_button(ImageButton::sprite(ID).bare(), button_rect(), idle);
    assert!(
        geometry(&chrome) > geometry(&bare),
        "chrome ({}) should add geometry over bare ({})",
        geometry(&chrome),
        geometry(&bare)
    );
}

#[test]
fn image_button_bare_hover_adds_overlay() {
    let (_, idle) = press_button(
        ImageButton::sprite(ID).bare(),
        button_rect(),
        pointer(0.0, 0.0, false, false),
    );
    let (_, hot) = press_button(
        ImageButton::sprite(ID).bare(),
        button_rect(),
        pointer(50.0, 50.0, false, false),
    );
    assert!(geometry(&hot) > geometry(&idle), "hover overlay should add a quad");
}

#[test]
fn disabled_adds_dim_overlay() {
    let idle = pointer(0.0, 0.0, false, false);
    let (_, enabled) = press_button(ImageButton::sprite(ID).bare(), button_rect(), idle.clone());
    let (_, disabled) =
        press_button(ImageButton::sprite(ID).bare().enabled(false), button_rect(), idle);
    assert!(geometry(&disabled) > geometry(&enabled), "disabled dim overlay should add a quad");
    assert_eq!(rgba(disabled.chrome_instances[0].bg), [0.0, 0.0, 0.0, 0.4]);
}

#[test]
fn image_button_zero_rect_draws_nothing_and_no_click() {
    let (clicked, list) = press_button(
        ImageButton::sprite(ID),
        rc(0.0, 0.0, 0.0, 50.0),
        pointer(0.0, 0.0, true, true),
    );
    assert!(!clicked);
    assert!(list.icons.is_empty());
    assert!(list.vertices.is_empty());
    assert!(list.chrome_instances.is_empty());
}

#[test]
fn tint_forwards_to_image() {
    let b = ImageButton::sprite(ID).bare().tint(col([1.0, 0.0, 0.0, 1.0]));
    let (_, list) = press_button(b, button_rect(), pointer(0.0, 0.0, false, false));
    assert_eq!(rgba(list.icons.last().expect("an icon").tint), [1.0, 0.0, 0.0, 1.0]);
}

#[test]
fn a_button_by_name_keeps_its_fit_and_place() {
    let b = ImageButton::key("play.png")
        .natural_size(s(10.0), s(10.0))
        .fit(ImageFit::Natural)
        .align(ImageAlign::new(s(1.0), s(1.0)))
        .padding(s(0.0));
    let (_, list) = press_button(b, button_rect(), at(0.0, 0.0));
    assert_eq!(list.icons[0].icon_key, "play.png");
    assert_eq!(drawn_rect(&list), [80.0, 80.0, 10.0, 10.0]);
}

#[test]
fn content_rect_sits_below_header_and_is_inset() {
    let t = theme();
    let pad = f(t.scalar(StyleKey::Padding));
    let title_size = f(t.scalar(StyleKey::FontSize));
    let header_h = f(Group::header_height(s(pad), s(title_size)));
    let content = ltwh(Group::new("Title").content_rect(rc(10.0, 20.0, 200.0, 160.0), &t));
    assert_eq!(content[0], 10.0 + pad, "left inset by padding");
    assert_eq!(content[1], 20.0 + header_h + pad, "below the header");
    assert_eq!(content[2], 200.0 - 2.0 * pad);
    assert_eq!(content[3], 160.0 - header_h - 2.0 * pad);
}

#[test]
fn draw_returns_same_rect_as_content_rect() {
    let t = theme();
    let outer = rc(0.0, 0.0, 200.0, 160.0);
    let returned = Group::new("Title").draw(outer, s(0.6), &mut fresh(), &t);
    assert_eq!(returned, Group::new("Title").content_rect(outer, &t));
}

#[test]
fn with_padding_changes_inset() {
    let t = theme();
    let outer = rc(0.0, 0.0, 200.0, 160.0);
    let tight = Group::new("T").with_padding(s(2.0)).content_rect(outer, &t);
    let loose = Group::new("T").with_padding(s(20.0)).content_rect(outer, &t);
    assert!(f(tight.width) > f(loose.width), "smaller padding → wider content");
    assert_eq!(f(tight.x), 2.0);
    assert_eq!(f(loose.x), 20.0);
    let none = Group::new("T").with_padding(s(-5.0)).content_rect(outer, &t);
    assert_eq!(f(none.x), 0.0);
}

#[test]
fn small_rect_clamps_without_panicking() {
    let content = Group::new("T").content_rect(rc(0.0, 0.0, 4.0, 4.0), &theme());
    assert_eq!(f(content.width), 0.0);
    assert_eq!(f(content.height), 0.0);
}

#[test]
fn draw_emits_body_header_and_title() {
    let mut list = fresh();
    Group::new("Hello").draw(rc(0.0, 0.0, 200.0, 120.0), s(0.6), &mut list, &theme());
    assert!(!list.chrome_instances.is_empty(), "body/border/header drawn");
    assert_eq!(list.texts.len(), 1, "title text drawn");
    assert_eq!(list.texts[0].content, "Hello");
}

fn small(text: &str) -> Label {
    label(text, 14.0 * 0.75)
}

#[test]
fn badge_uses_inset_status_material() {
    let t = theme();
    let mut list = fresh();
    badge(
        &mut list,
        &t,
        rc(0.0, 0.0, 100.0, 20.0),
        "ok",
        t.color(StyleKey::Success),
        small("ok"),
    );
    assert!(list.chrome_instances.len() >= 3, "badge face plus inset bands");
    assert_eq!(rgba(list.chrome_instances[0].border), [0.0, 0.0, 0.0, 0.6]);
    assert_eq!(list.chrome_instances[1].bg, t.color(StyleKey::InnerShadow));
}

#[test]
fn badge_sizes_to_its_text() {
    let t = theme();
    let room = rc(0.0, 0.0, 200.0, 20.0);
    let a = badge(&mut fresh(), &t, room, "ok", t.color(StyleKey::Success), small("ok"));
    let b =
        badge(&mut fresh(), &t, room, "outdated", t.color(StyleKey::Warning), small("outdated"));
    assert!(f(b.width) > f(a.width), "wider text draws a wider badge");
    assert!(f(a.width) > 0.0 && f(a.height) > 0.0);
    let cramped = badge(
        &mut fresh(),
        &t,
        rc(0.0, 0.0, 8.0, 6.0),
        "ok",
        t.color(StyleKey::Success),
        small("ok"),
    );
    assert_eq!(ltwh(cramped), [0.0, 0.0, 8.0, 6.0]);
}

#[test]
fn keycap_is_at_least_min_wide() {
    let mut list = fresh();
    let r = keycap(
        &mut list,
        &theme(),
        rc(0.0, 0.0, 200.0, 24.0),
        "F",
        s(24.0),
        label("F", 14.0 * 0.85),
    );
    assert!(f(r.width) >= 24.0);
    assert!(f(r.height) > 0.0);
    assert!(list.chrome_instances.len() >= 2, "cap face + highlight/side bands instanced");
    assert!(!list.texts.is_empty(), "label block");
}

fn draw_chip(on: bool, input: InputState) -> (bool, DrawList) {
    let mut list = fresh();
    let out = chip(
        &mut list,
        &theme(),
        rc(0.0, 0.0, 100.0, 24.0),
        "info",
        on,
        label("info", 14.0 * 0.85),
        &input,
    );
    (out.clicked, list)
}

#[test]
fn idle_chip_uses_its_gradient_sheen_without_a_white_top_line() {
    let (_, list) = draw_chip(false, InputState::default());
    assert_eq!(list.chrome_instances.len(), 1, "only the pill face is painted");
    assert_ne!(
        list.chrome_instances[0].bg, list.chrome_instances[0].bg2,
        "face retains its vertical sheen"
    );
}

#[test]
fn chip_on_and_off_paint_different_faces_and_report_clicks() {
    let (off_clicked, off) = draw_chip(false, pointer(10.0, 10.0, true, true));
    let (on_clicked, on) = draw_chip(true, pointer(10.0, 10.0, true, true));
    assert!(off_clicked && on_clicked, "click inside reports");
    assert_ne!(
        off.chrome_instances[0].bg, on.chrome_instances[0].bg,
        "off is a raised neutral, on is the held accent"
    );
    let (far, _) = draw_chip(false, at(500.0, 500.0));
    assert!(!far);
}

#[test]
fn skeleton_shimmer_band_moves_with_phase() {
    let t = theme();
    let rect = rc(0.0, 0.0, 120.0, 9.0);
    let mut a = fresh();
    skeleton(&mut a, &t, rect, s(0.1));
    let mut b = fresh();
    skeleton(&mut b, &t, rect, s(0.7));
    assert_eq!(a.chrome_instances.len(), b.chrome_instances.len());
    assert!(a.chrome_instances.len() >= 2);
    assert_ne!(a.chrome_instances[1].rect, b.chrome_instances[1].rect);
    assert_eq!(ltwh(shimmer(rect, s(0.5))), [36.0, 0.0, 48.0, 9.0]);
}

#[test]
fn spinner_and_dots_emit_geometry() {
    let t = theme();
    let mut list = fresh();
    let (phase, sweep) = (0.0, 1.6);
    let dirs: Vec<Point> =
        (0..=ARC_STEPS).map(|i| dir(f(arc_angle(s(phase), s(sweep), i)))).collect();
    spinner(&mut list, &t, pt(20.0, 20.0), s(8.0), &dirs);
    assert_eq!(list.vertices.len(), 4 * ARC_STEPS as usize);
    let waves: Vec<Scalar> =
        (0..3).map(|i| s((2.0 * PI * f(dot_phase(s(0.3), i))).cos())).collect();
    dots(&mut list, &t, pt(60.0, 20.0), s(0.3), &waves);
    assert!(!list.circle_instances.is_empty(), "ring + dots are circles");
    assert!(!list.vertices.is_empty(), "arc chords are line quads");
    assert_eq!(list.circle_instances.len(), 4);
}

#[test]
fn a_dot_pulses_as_its_formula_says() {
    for (phase, i) in [(0.3f32, 0u64), (0.1, 1), (0.1, 2), (7.25, 1), (-0.4, 0)] {
        let t = (phase - i as f32 * 0.15).rem_euclid(1.0);
        assert_eq!(dot_phase(s(phase), i).bits, t.to_bits());
        let wave = (2.0 * PI * t).cos();
        let scale = 0.6 + 0.4 * (1.0 - wave) * 0.5 + 0.2 * (1.0 - t).abs();
        assert_eq!(f(dot_scale(s(t), s(wave))), scale);
    }
}

#[test]
fn empty_state_centers_a_block_and_reports_its_extent() {
    let mut list = fresh();
    let rect = rc(0.0, 0.0, 240.0, 160.0);
    let used = empty_state(
        &mut list,
        &theme(),
        rect,
        &EmptyState { glyph: "◈", title: "No entities", body: "Create one to get started." },
        EmptyMetrics {
            glyph: label("◈", 28.0),
            title: label("No entities", 15.4),
            body_height: s(16.0),
        },
    );
    assert!(f(used.height) > 0.0 && used.width == rect.width);
    assert_eq!(list.texts.len(), 3);
    assert!(f(used.y) > f(rect.y), "block starts below the rect top");
    assert!(f(rect.bottom()) - f(used.bottom()) > 0.0);
}
