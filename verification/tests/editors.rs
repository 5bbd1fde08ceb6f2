//! Combo boxes, curve editors, gradient ramps and drag handles.

#![allow(dead_code)]

use gameui::combo_box::{
    draw_list, draw_trigger, first_match, focused_prev, match_run, run_in, RowMetrics,
};
use gameui::context::{DrawContext, Frame, Label};
use gameui::curve_editor::{draw as draw_curve, to_plot, to_screen, CurveOutput};
use gameui::drag::{DragCapture, DragId};
use gameui::drag_handle::{DragHandle, DragHandleOutput};
use gameui::draw_list::{DrawList, Trig};
use gameui::focus::FocusState;
use gameui::geometry::{Color, Point, Rect};
use gameui::gradient_ramp::{draw as draw_ramp, sample, GradientStop, RampOutput};
use gameui::input::InputState;
use gameui::scalar::Scalar;
use gameui::style::{StyleKey, StyleResolver};
use std::f32::consts::{FRAC_PI_2, PI, TAU};

fn s(x: f32) -> Scalar {
    Scalar { bits: x.to_bits() }
}

fn f(x: Scalar) -> f32 {
    f32::from_bits(x.bits)
}

fn pt(x: f32, y: f32) -> Point {
    Point { x: s(x), y: s(y) }
}

fn rc(x: f32, y: f32, w: f32, h: f32) -> Rect {
    Rect { x: s(x), y: s(y), width: s(w), height: s(h) }
}

fn col(c: [f32; 4]) -> Color {
    Color { r: s(c[0]), g: s(c[1]), b: s(c[2]), a: s(c[3]) }
}

fn rgba(c: Color) -> [f32; 4] {
    [f(c.r), f(c.g), f(c.b), f(c.a)]
}

fn xy(p: Point) -> [f32; 2] {
    [f(p.x), f(p.y)]
}

fn ltwh(r: Rect) -> [f32; 4] {
    [f(r.x), f(r.y), f(r.width), f(r.height)]
}

fn dir(a: f32) -> Point {
    pt(a.cos(), a.sin())
}

fn trig() -> Trig {
    let mut corners = Vec::new();
    for start in [PI, 1.5 * PI, 0.0, 0.5 * PI] {
        for i in 0..9 {
            corners.push(dir(start + FRAC_PI_2 * (i as f32 / 8.0)));
        }
    }
    let mut discs = Vec::new();
    for n in 16..=64u32 {
        discs.push((0..=n).map(|i| dir(TAU * i as f32 / n as f32)).collect::<Vec<Point>>());
    }
    let rings = discs.clone();
    Trig { corners, discs, rings }
}

fn fresh() -> DrawList {
    DrawList::new(trig(), 1)
}

/// A dark theme.
fn theme() -> StyleResolver {
    let mut t = StyleResolver::new(None);
    for (key, c) in [
        (StyleKey::Background, [0.08, 0.09, 0.10, 1.0]),
        (StyleKey::Scrim, [0.0, 0.0, 0.0, 0.55]),
        (StyleKey::Panel, [0.12, 0.13, 0.15, 1.0]),
        (StyleKey::PanelBorder, [0.25, 0.27, 0.30, 1.0]),
        (StyleKey::Text, [0.90, 0.91, 0.92, 1.0]),
        (StyleKey::TextDim, [0.55, 0.57, 0.60, 1.0]),
        (StyleKey::TextHighlight, [1.0, 1.0, 1.0, 1.0]),
        (StyleKey::OnAccent, [0.05, 0.06, 0.07, 1.0]),
        (StyleKey::OnDanger, [1.0, 0.95, 0.95, 1.0]),
        (StyleKey::Accent, [0.95, 0.65, 0.25, 1.0]),
        (StyleKey::Info, [0.22, 0.55, 0.95, 1.0]),
        (StyleKey::Success, [0.26, 0.72, 0.42, 1.0]),
        (StyleKey::Warning, [0.95, 0.70, 0.20, 1.0]),
        (StyleKey::Error, [0.9, 0.3, 0.3, 1.0]),
        (StyleKey::Button, [0.20, 0.22, 0.25, 1.0]),
        (StyleKey::ButtonHover, [0.26, 0.28, 0.32, 1.0]),
        (StyleKey::ButtonPressed, [0.16, 0.17, 0.20, 1.0]),
        (StyleKey::InputBackground, [0.06, 0.07, 0.08, 1.0]),
        (StyleKey::InputBorder, [0.30, 0.32, 0.35, 1.0]),
        (StyleKey::InputFocusBorder, [0.95, 0.75, 0.35, 1.0]),
        (StyleKey::TabActive, [0.22, 0.24, 0.27, 1.0]),
        (StyleKey::TabHover, [0.18, 0.20, 0.22, 1.0]),
        (StyleKey::TabInactive, [0.14, 0.15, 0.17, 1.0]),
        (StyleKey::Plinth, [0.03, 0.03, 0.04, 1.0]),
        (StyleKey::FaceTop, [1.0, 1.0, 1.0, 0.10]),
        (StyleKey::FaceTopHover, [1.0, 1.0, 1.0, 0.14]),
        (StyleKey::FaceTopPressed, [1.0, 1.0, 1.0, 0.04]),
        (StyleKey::FaceBottom, [0.0, 0.0, 0.0, 0.10]),
        (StyleKey::FaceBottomHover, [0.0, 0.0, 0.0, 0.06]),
        (StyleKey::FaceBottomPressed, [0.0, 0.0, 0.0, 0.16]),
        (StyleKey::AccentFaceTop, [0.98, 0.72, 0.35, 1.0]),
        (StyleKey::AccentFaceTopHover, [1.0, 0.78, 0.42, 1.0]),
        (StyleKey::AccentFaceTopPressed, [0.88, 0.62, 0.28, 1.0]),
        (StyleKey::AccentFaceBottom, [0.85, 0.55, 0.18, 1.0]),
        (StyleKey::AccentFaceBottomHover, [0.90, 0.60, 0.22, 1.0]),
        (StyleKey::AccentFaceBottomPressed, [0.78, 0.48, 0.14, 1.0]),
        (StyleKey::DangerFaceTop, [0.85, 0.30, 0.28, 1.0]),
        (StyleKey::DangerFaceTopHover, [0.92, 0.36, 0.33, 1.0]),
        (StyleKey::DangerFaceTopPressed, [0.75, 0.24, 0.22, 1.0]),
        (StyleKey::DangerFaceBottom, [0.65, 0.20, 0.18, 1.0]),
        (StyleKey::DangerFaceBottomHover, [0.72, 0.24, 0.21, 1.0]),
        (StyleKey::DangerFaceBottomPressed, [0.55, 0.16, 0.14, 1.0]),
        (StyleKey::EdgeHighlight, [1.0, 1.0, 1.0, 0.18]),
        (StyleKey::EdgeHighlightHover, [1.0, 1.0, 1.0, 0.24]),
        (StyleKey::EdgeHighlightPressed, [1.0, 1.0, 1.0, 0.08]),
        (StyleKey::EdgeShadow, [0.0, 0.0, 0.0, 0.35]),
        (StyleKey::InnerShadow, [0.0, 0.0, 0.0, 0.45]),
    ] {
        t.set_color(key, col(c));
    }
    for (key, x) in [
        (StyleKey::FontSize, 14.0),
        (StyleKey::Padding, 8.0),
        (StyleKey::Spacing, 6.0),
        (StyleKey::BorderRadius, 4.0),
        (StyleKey::BorderWidth, 1.0),
        (StyleKey::Travel, 2.0),
        (StyleKey::InnerShadowDepth, 3.0),
        (StyleKey::ButtonHeight, 28.0),
        (StyleKey::MenuRowHeight, 30.0),
        (StyleKey::DockTabHeight, 24.0),
        (StyleKey::DockSplitterWidth, 4.0),
        (StyleKey::ToolbarButtonSize, 28.0),
        (StyleKey::ToolbarPadding, 4.0),
    ] {
        t.set_scalar(key, s(x));
    }
    t
}

/// How `text` measures where every character takes half an em.
fn label(text: &str, size: f32) -> Label {
    Label { width: s(text.chars().count() as f32 * size * 0.5), center: s(0.6) }
}

fn ctx_with(input: InputState, focus: FocusState) -> DrawContext {
    DrawContext {
        frame: Frame { input, styles: theme(), layer: None },
        draw_list: fresh(),
        focus,
        cursor: None,
    }
}

fn ctx(input: InputState) -> DrawContext {
    ctx_with(input, FocusState::new())
}

fn at(x: f32, y: f32) -> InputState {
    InputState { mouse_x: s(x), mouse_y: s(y), ..InputState::default() }
}

/// The pointer at a point, with the button down and clicked as told.
fn pointer(x: f32, y: f32, down: bool, clicked: bool) -> InputState {
    InputState { mouse_down: down, mouse_clicked: clicked, ..at(x, y) }
}

#[test]
fn trigger_reports_toggle_and_edit() {
    let rect = rc(0.0, 0.0, 160.0, 24.0);
    let mut c = ctx(pointer(150.0, 12.0, true, true));
    let out = draw_trigger(rect, "Standard Lit", s(0.6), false, false, false, &mut c);
    assert!(out.toggle_requested, "the chevron key toggles");

    let mut c = ctx(InputState { text_input: "lit".to_string(), ..InputState::default() });
    let out = draw_trigger(rect, "Stan", s(0.6), true, true, true, &mut c);
    assert_eq!(out.query.as_deref(), Some("Stanlit"));
}

#[test]
fn backspace_takes_the_last_character_of_the_query() {
    let rect = rc(0.0, 0.0, 160.0, 24.0);
    let mut c = ctx(InputState { backspace_pressed: true, ..InputState::default() });
    let out = draw_trigger(rect, "Café", s(0.6), true, true, true, &mut c);
    assert_eq!(out.query.as_deref(), Some("Caf"));
    let mut c = ctx(InputState { text_input: "x".to_string(), ..InputState::default() });
    let out = draw_trigger(rect, "Stan", s(0.6), true, false, true, &mut c);
    assert_eq!(out.query, None, "an unfocused field hears nothing");
}

const OPTIONS: [&str; 3] = ["Standard Lit", "Unlit", "Subsurface"];

fn metrics() -> Vec<RowMetrics> {
    OPTIONS
        .iter()
        .map(|_| RowMetrics { center: s(0.6), before: s(10.0), within: s(12.0) })
        .collect()
}

#[test]
fn list_filters_by_query_and_reports_clicks() {
    let rect = rc(0.0, 0.0, 160.0, 60.0);
    let mut c = ctx(pointer(60.0, 24.0, true, true));
    let hit = draw_list(rect, &OPTIONS, None, "lit", &metrics(), s(0.0), &mut c);
    assert!(hit.is_some(), "a row click is reported");
    let matched = c.draw_list.texts.len();

    let mut c = ctx(pointer(60.0, 24.0, true, true));
    let same = draw_list(rect, &OPTIONS, None, "zzz", &metrics(), s(0.0), &mut c);
    assert_eq!(same, hit, "the filter affects rendering only");
    assert!(c.draw_list.texts.len() < matched, "a match splits its row");
}

#[test]
fn a_match_ignores_case() {
    assert_eq!(match_run("Standard Lit", "lit"), Some((9, 12)));
    assert_eq!(match_run("Standard Lit", "STAN"), Some((0, 4)));
    assert_eq!(match_run("ÉCOLE libre", "école"), Some((0, 5)));
    assert_eq!(match_run("Unlit", "zzz"), None);
    assert_eq!(match_run("Unlit", ""), None);
}

#[test]
fn a_match_is_the_first_one() {
    assert_eq!(first_match("banana", "ana"), Some(1));
    assert_eq!(first_match("banana", "nab"), None);
    assert_eq!(run_in(&[0, 1, 2, 3, 4, 5, 6], "banana", "na"), Some((2, 4)));
}

fn keys() -> Vec<Point> {
    vec![pt(0.0, 0.0), pt(0.5, 0.7), pt(1.0, 1.0)]
}

fn plot() -> Rect {
    rc(0.0, 0.0, 150.0, 150.0)
}

fn curve(drag: &mut Option<usize>, cap: &mut DragCapture, selected: usize, input: InputState) -> (CurveOutput, DrawList) {
    let mut c = ctx(input);
    let out = draw_curve(plot(), &keys(), selected, drag, cap, 1, &mut c);
    (out, c.draw_list)
}

#[test]
fn screen_mapping_round_trips() {
    let area = rc(10.0, 20.0, 100.0, 50.0);
    let sp = to_screen(area, pt(0.5, 0.5));
    assert!((f(sp.x) - 60.0).abs() < 1e-4);
    assert!((f(sp.y) - 45.0).abs() < 1e-4, "y flips");
    let back = xy(to_plot(area, sp));
    assert!((back[0] - 0.5).abs() < 1e-4 && (back[1] - 0.5).abs() < 1e-4);
}

#[test]
fn dragging_a_key_moves_it_and_preserves_order() {
    let mut cap = DragCapture::new();
    let mut drag: Option<usize> = None;
    let _ = curve(&mut drag, &mut cap, 1, pointer(75.0, 45.0, true, true));
    assert_eq!(drag, Some(1), "middle key grabbed");

    let (out, _) = curve(&mut drag, &mut cap, 1, pointer(149.0, 20.0, true, false));
    let p = xy(out.dragged.expect("a drag"));
    assert!((p[0] - 1.0).abs() < 0.02, "x clamped to the right neighbor");

    let (out, _) = curve(&mut drag, &mut cap, 1, pointer(5.0, 120.0, true, false));
    let p = xy(out.dragged.expect("a drag"));
    assert!(p[0] >= f(keys()[0].x) - 1e-4, "x never crosses the left neighbor");
}

#[test]
fn clicking_empty_space_requests_an_insert() {
    let mut cap = DragCapture::new();
    let mut drag = None;
    let (out, _) = curve(&mut drag, &mut cap, 0, pointer(40.0, 100.0, true, true));
    assert!(out.insert.is_some(), "empty-space click inserts a key");
}

#[test]
fn plot_paints_grid_fill_and_keys() {
    let mut cap = DragCapture::new();
    let mut drag = None;
    let (_, list) = curve(&mut drag, &mut cap, 0, at(-10.0, -10.0));
    assert!(list.chrome_instances.len() >= 2, "well + shadow");
    assert!(list.circle_instances.len() >= 3, "three key handles");
    assert!(!list.vertices.is_empty(), "grid, fills, chords");
}

fn stops() -> Vec<GradientStop> {
    vec![
        GradientStop::new(s(0.0), col([0.1, 0.2, 0.3, 1.0])),
        GradientStop::new(s(1.0), col([0.9, 0.8, 0.7, 1.0])),
    ]
}

fn ramp(rect: Rect, drag: &mut Option<usize>, cap: &mut DragCapture, input: InputState) -> RampOutput {
    let mut c = ctx(input);
    draw_ramp(rect, &stops(), 0, drag, cap, 1, &mut c)
}

#[test]
fn sample_interpolates_and_clamps() {
    let stops = stops();
    let mid = sample(&stops, s(0.5));
    assert!((f(mid.r) - 0.5).abs() < 1e-4);
    assert_eq!(sample(&stops, s(-0.5)), stops[0].color);
    assert_eq!(sample(&stops, s(1.5)), stops[1].color);
    assert_eq!(rgba(sample(&[], s(0.3))), [0.0; 4]);
}

#[test]
fn dragging_a_handle_reports_new_positions() {
    let mut cap = DragCapture::new();
    let mut drag: Option<usize> = None;
    let rect = rc(20.0, 20.0, 200.0, 42.0);
    ramp(rect, &mut drag, &mut cap, pointer(20.0, 32.0, true, true));
    assert_eq!(drag, Some(0), "press on the handle grabs it");

    let out = ramp(rect, &mut drag, &mut cap, pointer(120.0, 32.0, true, false));
    assert_eq!(out.dragging, Some(0));
    assert!((f(out.dragged_pos.expect("a position")) - 0.5).abs() < 0.02, "pos follows the pointer");
}

#[test]
fn clicking_the_bar_requests_an_insert() {
    let mut cap = DragCapture::new();
    let mut drag = None;
    let rect = rc(0.0, 20.0, 200.0, 24.0);
    let out = ramp(rect, &mut drag, &mut cap, pointer(100.0, 44.0 - 9.0, true, true));
    assert!(out.insert_requested);
    assert!((f(out.click_pos) - 0.5).abs() < 0.03);
}

fn bar() -> Rect {
    rc(0.0, 0.0, 200.0, 24.0)
}

fn draw_handle(h: &DragHandle, id: DragId, cap: &mut DragCapture, input: InputState) -> (DragHandleOutput, usize) {
    let mut c = ctx(input);
    let out = h.draw(id, cap, bar(), s(0.6), &mut c);
    let l = &c.draw_list;
    (out, l.chrome_instances.len() + l.vertices.len() + l.texts.len())
}

fn press_at(x: f32, y: f32) -> InputState {
    pointer(x, y, true, true)
}

fn drag_at(x: f32, y: f32, dx: f32, dy: f32) -> InputState {
    InputState { is_dragging: true, drag_delta: pt(dx, dy), ..pointer(x, y, true, false) }
}

#[test]
fn press_on_handle_claims_capture_without_jumping() {
    let mut cap = DragCapture::new();
    let (out, _) = draw_handle(&DragHandle::new(), 1, &mut cap, press_at(20.0, 12.0));
    assert!(out.dragging, "press over the handle begins the drag");
    assert!(out.started, "the claim edge is reported");
    assert!(cap.is_active(1));
    assert_eq!(xy(out.delta), [0.0, 0.0], "no movement on the press frame");
}

#[test]
fn delta_passes_through_while_owning_capture() {
    let h = DragHandle::new();
    let mut cap = DragCapture::new();
    draw_handle(&h, 1, &mut cap, press_at(20.0, 12.0));
    let (out, _) = draw_handle(&h, 1, &mut cap, drag_at(35.0, 18.0, 15.0, 6.0));
    assert!(out.dragging);
    assert!(!out.started, "claim edge only fires once");
    assert_eq!(xy(out.delta), [15.0, 6.0], "owner applies the tracker delta");
}

#[test]
fn release_frees_capture_and_reports_edge() {
    let h = DragHandle::new();
    let mut cap = DragCapture::new();
    draw_handle(&h, 1, &mut cap, press_at(20.0, 12.0));
    let (out, _) = draw_handle(&h, 1, &mut cap, at(40.0, 12.0));
    assert!(!out.dragging);
    assert!(out.released, "the release edge is reported");
    assert!(cap.is_free());
    assert_eq!(xy(out.delta), [0.0, 0.0]);
}

#[test]
fn consumed_pointer_does_not_start_drag() {
    let mut cap = DragCapture::new();
    let input = InputState { mouse_consumed: true, ..press_at(20.0, 12.0) };
    let (out, _) = draw_handle(&DragHandle::new(), 1, &mut cap, input);
    assert!(!out.dragging);
    assert!(cap.is_free());
    assert_eq!(out, DragHandleOutput::idle());
}

#[test]
fn second_handle_cannot_steal_active_drag() {
    let h = DragHandle::new();
    let mut cap = DragCapture::new();
    let (a, _) = draw_handle(&h, 0, &mut cap, press_at(20.0, 12.0));
    let (b, _) = draw_handle(&h, 1, &mut cap, press_at(20.0, 12.0));
    assert!(a.dragging, "first handle claims");
    assert!(!b.dragging, "second cannot also grab the same press");

    let (a2, _) = draw_handle(&h, 0, &mut cap, drag_at(60.0, 12.0, 40.0, 0.0));
    let (b2, _) = draw_handle(&h, 1, &mut cap, drag_at(60.0, 12.0, 40.0, 0.0));
    assert_eq!(xy(a2.delta), [40.0, 0.0]);
    assert_eq!(xy(b2.delta), [0.0, 0.0], "non-owner reports no movement");
}

#[test]
fn non_owner_ignores_tracker_delta() {
    let mut cap = DragCapture::new();
    cap.try_begin(99);
    let (out, _) = draw_handle(&DragHandle::new(), 1, &mut cap, drag_at(35.0, 12.0, 15.0, 0.0));
    assert!(!out.dragging);
    assert_eq!(xy(out.delta), [0.0, 0.0]);
}

#[test]
fn drag_rect_moves_target_by_delta() {
    let h = DragHandle::new();
    let mut cap = DragCapture::new();
    draw_handle(&h, 0, &mut cap, press_at(20.0, 12.0));

    let mut win = rc(0.0, 0.0, 200.0, 120.0);
    let mut c = ctx(drag_at(30.0, 20.0, 10.0, 8.0));
    let out = h.drag_rect(0, &mut cap, bar(), &mut win, s(0.6), &mut c);
    assert_eq!(xy(out.delta), [10.0, 8.0]);
    assert_eq!((f(win.x), f(win.y)), (10.0, 8.0), "target moved by the delta");
    assert_eq!((f(win.width), f(win.height)), (200.0, 120.0), "size unchanged");
}

#[test]
fn bare_draws_no_chrome() {
    let idle = InputState::default();
    let (_, chrome) = draw_handle(&DragHandle::new(), 0, &mut DragCapture::new(), idle.clone());
    let (_, bare) = draw_handle(&DragHandle::bare(), 0, &mut DragCapture::new(), idle);
    assert_eq!(bare, 0, "bare handle emits no geometry");
    assert!(chrome > 0, "default handle draws a background + grip");
}

#[test]
fn a_label_takes_the_place_of_the_grip() {
    let mut c = ctx(at(-1.0, -1.0));
    let h = DragHandle::new().with_label("Inspector");
    h.draw(0, &mut DragCapture::new(), bar(), s(0.6), &mut c);
    assert_eq!(c.draw_list.chrome_instances.len(), 1);
    assert_eq!(c.draw_list.texts.len(), 1);
    assert_eq!(c.draw_list.texts[0].content, "Inspector");
    assert_eq!(f(c.draw_list.texts[0].x), 8.0);

    let mut c = ctx(at(-1.0, -1.0));
    DragHandle::bare().with_grip(true).draw(0, &mut DragCapture::new(), bar(), s(0.6), &mut c);
    let dots: Vec<[f32; 4]> = c.draw_list.chrome_instances.iter().map(|i| ltwh(i.rect)).collect();
    assert_eq!(dots.len(), 6);
    assert_eq!(dots[0], [94.0, 8.5, 2.0, 2.0]);
    assert_eq!(dots[5], [104.0, 13.5, 2.0, 2.0]);
}

#[test]
fn a_field_gains_the_focus_once_however_it_was_given() {
    let rect = rc(0.0, 0.0, 160.0, 24.0);
    let mut c = ctx(InputState::default());
    assert!(draw_trigger(rect, "Stan", s(0.6), false, true, false, &mut c).focus_gained);
    assert!(!draw_trigger(rect, "Stan", s(0.6), false, true, true, &mut c).focus_gained);
    assert!(!draw_trigger(rect, "Stan", s(0.6), false, false, true, &mut c).focus_gained);
    let mut c = ctx(pointer(20.0, 12.0, true, true));
    let out = draw_trigger(rect, "Stan", s(0.6), false, true, true, &mut c);
    assert!(!out.focus_gained, "a click on a focused field gives it nothing new");
    assert!(!focused_prev(rect, &pointer(20.0, 12.0, true, true)));
    assert!(focused_prev(rect, &InputState::default()));
}

#[test]
fn a_run_is_counted_in_characters_of_the_option() {
    assert_eq!(run_in(&[0, 2, 3, 4, 5], "i\u{307}xyz", "x"), Some((1, 2)));
    assert_eq!(run_in(&[0, 2, 3, 4, 5], "i\u{307}xyz", "\u{307}x"), Some((0, 2)));
    assert_eq!(run_in(&[0, 2, 3, 4, 5], "i\u{307}xyz", "\u{307}"), Some((0, 1)));
    assert_eq!(match_run("\u{130}xyz", "x"), Some((1, 2)));
    assert_eq!(match_run("\u{130}xyz", "YZ"), Some((2, 4)));
    assert_eq!(match_run("ab\u{130}\u{130}c", "C"), Some((4, 5)));
    assert_eq!(match_run("ΟΔΟΣ", "ΟΣ"), Some((2, 4)));
}

#[test]
fn a_cloned_output_keeps_its_query() {
    let mut c = ctx(InputState { text_input: "x".to_string(), ..InputState::default() });
    let out = draw_trigger(rc(0.0, 0.0, 160.0, 24.0), "St", s(0.6), true, true, true, &mut c);
    assert_eq!(out.clone().query.as_deref(), Some("Stx"));
}
