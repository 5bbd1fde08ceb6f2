//! The application shell, docks, tabs, trails, pagers and asset grids.

#![allow(dead_code)]

use gameui::app_shell::{
    resized, AppShell, ShellChromeOutput, ShellDock, ShellLayout, SplitterOutput, ToolbarEdge,
};
use gameui::asset_grid::AssetGrid;
use gameui::breadcrumb::{page_text, readout_text, Breadcrumb, Pager, TrailMetrics};
use gameui::context::{DrawContext, Frame, Label};
use gameui::doc_tabs::{draw as draw_doc_tabs, DocTab};
use gameui::dock_panel::{DockPanel, DockPanelOutput, DockPanelState, DockSide, DockTab};
use gameui::draw_list::{DrawList, Trig};
use gameui::focus::FocusState;
use gameui::geometry::{Color, Point, Rect};
use gameui::input::InputState;
use gameui::scalar::Scalar;
use gameui::style::{StyleKey, StyleResolver};
use std::f32::consts::{FRAC_PI_2, PI, TAU};

fn s(x: f32) -> Scalar {
    Scalar { bits: x.to_bits() }
}

fn f(x: Scalar) -> f32 {
    f32::from_bits(x.bits)
}

fn pt(x: f32, y: f32) -> Point {
    Point { x: s(x), y: s(y) }
}

fn rc(x: f32, y: f32, w: f32, h: f32) -> Rect {
    Rect { x: s(x), y: s(y), width: s(w), height: s(h) }
}

fn col(c: [f32; 4]) -> Color {
    Color { r: s(c[0]), g: s(c[1]), b: s(c[2]), a: s(c[3]) }
}

fn rgba(c: Color) -> [f32; 4] {
    [f(c.r), f(c.g), f(c.b), f(c.a)]
}

fn xy(p: Point) -> [f32; 2] {
    [f(p.x), f(p.y)]
}

fn ltwh(r: Rect) -> [f32; 4] {
    [f(r.x), f(r.y), f(r.width), f(r.height)]
}

fn dir(a: f32) -> Point {
    pt(a.cos(), a.sin())
}

fn trig() -> Trig {
    let mut corners = Vec::new();
    for start in [PI, 1.5 * PI, 0.0, 0.5 * PI] {
        for i in 0..9 {
            corners.push(dir(start + FRAC_PI_2 * (i as f32 / 8.0)));
        }
    }
    let mut discs = Vec::new();
    for n in 16..=64u32 {
        discs.push((0..=n).map(|i| dir(TAU * i as f32 / n as f32)).collect::<Vec<Point>>());
    }
    let rings = discs.clone();
    Trig { corners, discs, rings }
}

fn fresh() -> DrawList {
    DrawList::new(trig(), 1)
}

/// A dark theme.
fn theme() -> StyleResolver {
    let mut t = StyleResolver::new(None);
    for (key, c) in [
        (StyleKey::Background, [0.08, 0.09, 0.10, 1.0]),
        (StyleKey::Scrim, [0.0, 0.0, 0.0, 0.55]),
        (StyleKey::Panel, [0.12, 0.13, 0.15, 1.0]),
        (StyleKey::PanelBorder, [0.25, 0.27, 0.30, 1.0]),
        (StyleKey::Text, [0.90, 0.91, 0.92, 1.0]),
        (StyleKey::TextDim, [0.55, 0.57, 0.60, 1.0]),
        (StyleKey::TextHighlight, [1.0, 1.0, 1.0, 1.0]),
        (StyleKey::OnAccent, [0.05, 0.06, 0.07, 1.0]),
        (StyleKey::OnDanger, [1.0, 0.95, 0.95, 1.0]),
        (StyleKey::Accent, [0.95, 0.65, 0.25, 1.0]),
        (StyleKey::Info, [0.22, 0.55, 0.95, 1.0]),
        (StyleKey::Success, [0.26, 0.72, 0.42, 1.0]),
        (StyleKey::Warning, [0.95, 0.70, 0.20, 1.0]),
        (StyleKey::Error, [0.9, 0.3, 0.3, 1.0]),
        (StyleKey::Button, [0.20, 0.22, 0.25, 1.0]),
        (StyleKey::ButtonHover, [0.26, 0.28, 0.32, 1.0]),
        (StyleKey::ButtonPressed, [0.16, 0.17, 0.20, 1.0]),
        (StyleKey::InputBackground, [0.06, 0.07, 0.08, 1.0]),
        (StyleKey::InputBorder, [0.30, 0.32, 0.35, 1.0]),
        (StyleKey::InputFocusBorder, [0.95, 0.75, 0.35, 1.0]),
        (StyleKey::TabActive, [0.22, 0.24, 0.27, 1.0]),
        (StyleKey::TabHover, [0.18, 0.20, 0.22, 1.0]),
        (StyleKey::TabInactive, [0.14, 0.15, 0.17, 1.0]),
        (StyleKey::Plinth, [0.03, 0.03, 0.04, 1.0]),
        (StyleKey::FaceTop, [1.0, 1.0, 1.0, 0.10]),
        (StyleKey::FaceTopHover, [1.0, 1.0, 1.0, 0.14]),
        (StyleKey::FaceTopPressed, [1.0, 1.0, 1.0, 0.04]),
        (StyleKey::FaceBottom, [0.0, 0.0, 0.0, 0.10]),
        (StyleKey::FaceBottomHover, [0.0, 0.0, 0.0, 0.06]),
        (StyleKey::FaceBottomPressed, [0.0, 0.0, 0.0, 0.16]),
        (StyleKey::AccentFaceTop, [0.98, 0.72, 0.35, 1.0]),
        (StyleKey::AccentFaceTopHover, [1.0, 0.78, 0.42, 1.0]),
        (StyleKey::AccentFaceTopPressed, [0.88, 0.62, 0.28, 1.0]),
        (StyleKey::AccentFaceBottom, [0.85, 0.55, 0.18, 1.0]),
        (StyleKey::AccentFaceBottomHover, [0.90, 0.60, 0.22, 1.0]),
        (StyleKey::AccentFaceBottomPressed, [0.78, 0.48, 0.14, 1.0]),
        (StyleKey::DangerFaceTop, [0.85, 0.30, 0.28, 1.0]),
        (StyleKey::DangerFaceTopHover, [0.92, 0.36, 0.33, 1.0]),
        (StyleKey::DangerFaceTopPressed, [0.75, 0.24, 0.22, 1.0]),
        (StyleKey::DangerFaceBottom, [0.65, 0.20, 0.18, 1.0]),
        (StyleKey::DangerFaceBottomHover, [0.72, 0.24, 0.21, 1.0]),
        (StyleKey::DangerFaceBottomPressed, [0.55, 0.16, 0.14, 1.0]),
        (StyleKey::EdgeHighlight, [1.0, 1.0, 1.0, 0.18]),
        (StyleKey::EdgeHighlightHover, [1.0, 1.0, 1.0, 0.24]),
        (StyleKey::EdgeHighlightPressed, [1.0, 1.0, 1.0, 0.08]),
        (StyleKey::EdgeShadow, [0.0, 0.0, 0.0, 0.35]),
        (StyleKey::InnerShadow, [0.0, 0.0, 0.0, 0.45]),
    ] {
        t.set_color(key, col(c));
    }
    for (key, x) in [
        (StyleKey::FontSize, 14.0),
        (StyleKey::Padding, 8.0),
        (StyleKey::Spacing, 6.0),
        (StyleKey::BorderRadius, 4.0),
        (StyleKey::BorderWidth, 1.0),
        (StyleKey::Travel, 2.0),
        (StyleKey::InnerShadowDepth, 3.0),
        (StyleKey::ButtonHeight, 28.0),
        (StyleKey::MenuRowHeight, 30.0),
        (StyleKey::DockTabHeight, 24.0),
        (StyleKey::DockSplitterWidth, 4.0),
        (StyleKey::ToolbarButtonSize, 28.0),
        (StyleKey::ToolbarPadding, 4.0),
    ] {
        t.set_scalar(key, s(x));
    }
    t
}

/// How `text` measures where every character takes half an em.
fn label(text: &str, size: f32) -> Label {
    Label { width: s(text.chars().count() as f32 * size * 0.5), center: s(0.6) }
}

fn ctx_with(input: InputState, focus: FocusState) -> DrawContext {
    DrawContext {
        frame: Frame { input, styles: theme(), layer: None },
        draw_list: fresh(),
        focus,
        cursor: None,
    }
}

fn ctx(input: InputState) -> DrawContext {
    ctx_with(input, FocusState::new())
}

fn at(x: f32, y: f32) -> InputState {
    InputState { mouse_x: s(x), mouse_y: s(y), ..InputState::default() }
}

/// The pointer at a point, with the button down and clicked as told.
fn pointer(x: f32, y: f32, down: bool, clicked: bool) -> InputState {
    InputState { mouse_down: down, mouse_clicked: clicked, ..at(x, y) }
}

fn screen() -> Rect {
    rc(0.0, 0.0, 800.0, 600.0)
}

fn full_shell() -> AppShell {
    AppShell::new().with_menu_bar().with_doc_tabs().with_status_bar().with_toolbar()
}

#[test]
fn all_zones_visible() {
    let left = DockPanelState::new(s(180.0));
    let right = DockPanelState::new(s(200.0));
    let bottom = DockPanelState::new(s(120.0));
    let layout = full_shell().layout(
        screen(),
        Some(&left),
        Some(&right),
        Some(&bottom),
        Some(ToolbarEdge::Left),
        &theme(),
    );
    assert!(layout.menu_bar.is_some());
    assert!(layout.doc_tabs.is_some());
    assert!(layout.status_bar.is_some());
    assert!(layout.left_dock.is_some());
    assert!(layout.left_splitter.is_some());
    assert!(layout.right_dock.is_some());
    assert!(layout.right_splitter.is_some());
    assert!(layout.bottom_dock.is_some());
    assert!(layout.bottom_splitter.is_some());
    assert!(layout.toolbar.is_some());
    assert!(f(layout.viewport.width) > 0.0);
    assert!(f(layout.viewport.height) > 0.0);
}

#[test]
fn hidden_dock_expands_viewport() {
    let t = theme();
    let shell = AppShell::new();
    let none = shell.layout(screen(), None, None, None, None, &t);
    let left = DockPanelState::new(s(180.0));
    let shown = shell.layout(screen(), Some(&left), None, None, None, &t);
    assert!(
        f(none.viewport.width) > f(shown.viewport.width),
        "hidden dock should give wider viewport"
    );
    let mut gone = DockPanelState::new(s(180.0));
    gone.visible = false;
    let hidden = shell.layout(screen(), Some(&gone), None, None, None, &t);
    assert!(
        (f(none.viewport.width) - f(hidden.viewport.width)).abs() < 0.01,
        "invisible dock should not consume space"
    );
}

#[test]
fn rects_do_not_overlap() {
    let left = DockPanelState::new(s(180.0));
    let right = DockPanelState::new(s(200.0));
    let bottom = DockPanelState::new(s(120.0));
    let layout = full_shell().layout(
        screen(),
        Some(&left),
        Some(&right),
        Some(&bottom),
        Some(ToolbarEdge::Left),
        &theme(),
    );
    let mut rects: Vec<(&str, Rect)> = vec![("viewport", layout.viewport)];
    for (name, r) in [
        ("menu_bar", layout.menu_bar),
        ("doc_tabs", layout.doc_tabs),
        ("left_dock", layout.left_dock),
        ("left_splitter", layout.left_splitter),
        ("right_dock", layout.right_dock),
        ("right_splitter", layout.right_splitter),
        ("bottom_dock", layout.bottom_dock),
        ("bottom_splitter", layout.bottom_splitter),
        ("toolbar", layout.toolbar),
        ("status_bar", layout.status_bar),
    ] {
        if let Some(r) = r {
            rects.push((name, r));
        }
    }
    assert_eq!(rects.len(), 11);
    for i in 0..rects.len() {
        for j in (i + 1)..rects.len() {
            let (na, a) = rects[i];
            let (nb, b) = rects[j];
            let area = match a.intersection(b) {
                Some(o) => f(o.width).max(0.0) * f(o.height).max(0.0),
                None => 0.0,
            };
            assert!(area < 1.0, "{na} and {nb} overlap by {area:.1}px²: {a:?} vs {b:?}");
        }
    }
}

#[test]
fn toolbar_edge_placement() {
    let shell = AppShell::new().with_toolbar();
    for edge in [ToolbarEdge::Left, ToolbarEdge::Right, ToolbarEdge::Top, ToolbarEdge::Bottom] {
        let layout = shell.layout(screen(), None, None, None, Some(edge), &theme());
        let [x, y, w, h] = ltwh(layout.toolbar.expect("toolbar should be present"));
        match edge {
            ToolbarEdge::Left => assert!(x.abs() < 0.01, "left toolbar should touch left edge"),
            ToolbarEdge::Right => {
                assert!((x + w - 800.0).abs() < 0.01, "right toolbar should touch right edge")
            }
            ToolbarEdge::Top => assert!(y.abs() < 0.01, "top toolbar should touch top edge"),
            ToolbarEdge::Bottom => {
                assert!((y + h - 600.0).abs() < 0.01, "bottom toolbar should touch bottom edge")
            }
        }
    }
}

#[test]
fn menu_bar_and_status_bar_heights() {
    let t = theme();
    let layout =
        AppShell::new().with_menu_bar().with_status_bar().layout(screen(), None, None, None, None, &t);
    let menu = ltwh(layout.menu_bar.expect("a menu bar"));
    assert!((menu[3] - f(t.scalar(StyleKey::MenuRowHeight))).abs() < 0.01);
    assert!((menu[1] - 0.0).abs() < 0.01);
    let status = ltwh(layout.status_bar.expect("a status bar"));
    assert!((status[3] - 26.0).abs() < 0.01);
    assert!((status[1] + status[3] - 600.0).abs() < 0.01, "status bar should be at the bottom");
}

#[test]
fn empty_shell_gives_full_viewport() {
    let layout = AppShell::new().layout(screen(), None, None, None, None, &theme());
    let v = ltwh(layout.viewport);
    assert!((v[0] - 0.0).abs() < 0.01);
    assert!((v[1] - 0.0).abs() < 0.01);
    assert!((v[2] - 800.0).abs() < 0.01);
    assert!((v[3] - 600.0).abs() < 0.01);
}

#[test]
fn a_resized_dock_keeps_to_its_range() {
    let state = DockPanelState::new(s(200.0)).with_range(s(50.0), s(400.0));
    assert_eq!(f(resized(DockSide::Left, state, s(30.0)).size), 230.0);
    assert_eq!(f(resized(DockSide::Right, state, s(30.0)).size), 170.0);
    assert_eq!(f(resized(DockSide::Bottom, state, s(30.0)).size), 170.0);
    assert_eq!(f(resized(DockSide::Left, state, s(900.0)).size), 400.0);
    assert_eq!(f(resized(DockSide::Left, state, s(-900.0)).size), 50.0);
}

#[test]
fn the_chrome_draws_the_docks_that_are_laid_out() {
    let t = theme();
    let state = DockPanelState::new(s(180.0)).with_range(s(50.0), s(400.0));
    let shell = AppShell::new();
    let layout = shell.layout(screen(), Some(&state), None, None, None, &t);
    let tabs = [DockTab { label: "Outliner".to_string() }];
    let labels = [label("Outliner", 14.0)];
    let mut left = Some(ShellDock {
        tabs: &tabs,
        labels: &labels,
        splitter: SplitterOutput { delta: s(12.0), dragging: true },
        state,
    });
    let mut c = ctx(at(-1.0, -1.0));
    let out = shell.draw_chrome(&layout, &mut left, &mut None, &mut None, s(0.6), &mut c);
    assert!(out.left_dock.is_some());
    assert!(out.right_dock.is_none());
    assert!(out.left_splitter.expect("a splitter").dragging);
    assert_eq!(f(left.expect("a dock").state.size), 192.0);
}

const ASSETS: [&str; 3] = ["Crate_A", "Barrel", "Lamp_Post"];

fn glyph() -> Label {
    label("▣", 19.0)
}

#[test]
fn click_selects_and_selection_paints_a_ring() {
    let rect = rc(0.0, 0.0, 300.0, 80.0);
    let mut c = ctx(pointer(40.0, 30.0, true, true));
    let out = AssetGrid::new(&ASSETS, "▣").draw(rect, usize::MAX, glyph(), &mut c);
    assert_eq!(out.clicked, Some(0));

    let mut sel = ctx(at(-10.0, -10.0));
    let _ = AssetGrid::new(&ASSETS, "▣").draw(rect, 0, glyph(), &mut sel);
    let mut plain = ctx(at(-10.0, -10.0));
    let _ = AssetGrid::new(&ASSETS, "▣").draw(rect, usize::MAX, glyph(), &mut plain);
    assert!(
        sel.draw_list.chrome_instances.len() > plain.draw_list.chrome_instances.len(),
        "selection ring adds a stroke instance"
    );
}

#[test]
fn cells_flow_into_columns() {
    let mut c = ctx(at(-10.0, -10.0));
    AssetGrid::new(&ASSETS, "▣").draw(rc(0.0, 0.0, 300.0, 200.0), usize::MAX, glyph(), &mut c);
    assert!(c.draw_list.chrome_instances.len() >= 3);
    assert_eq!(c.draw_list.texts.len(), 6);
    assert_eq!(AssetGrid::new(&ASSETS, "▣").flow(rc(0.0, 0.0, 300.0, 200.0), &theme()).cols, 3);
}

#[test]
fn cells_are_inset_from_the_allocated_grid_rect() {
    let mut c = ctx(InputState::default());
    AssetGrid::new(&ASSETS, "▣").draw(rc(10.0, 20.0, 300.0, 200.0), usize::MAX, glyph(), &mut c);
    let plate = c
        .draw_list
        .chrome_instances
        .iter()
        .find(|i| f(i.rect.width) == 86.0 && f(i.rect.height) == 58.0)
        .expect("the first thumbnail plate is emitted");
    let padding = f(theme().scalar(StyleKey::Padding));
    assert_eq!(f(plate.rect.x), 10.0 + padding.max(2.0));
    assert_eq!(f(plate.rect.y), 20.0 + padding.max(2.0));
}

#[test]
fn breadcrumb_reports_click_on_a_non_final_segment() {
    let segs = ["World", "Region", "Forest"];
    let labels: Vec<Label> = segs.iter().map(|t| label(t, 13.0)).collect();
    let slash = label("/", 13.0).width;
    let m = TrailMetrics { labels: &labels, slash, center: s(0.6) };
    let region_x = f(labels[0].width) + 5.0 * 2.0 + f(slash) + 2.0;

    let mut c = ctx(InputState { mouse_clicked: true, ..at(region_x, 5.0) });
    let clicked = Breadcrumb::new(&segs).draw(rc(0.0, 0.0, 300.0, 20.0), &m, &mut c);
    assert!(clicked.is_some(), "a click on a non-final segment reports it");
    assert_ne!(clicked, Some(segs.len() - 1), "the current location is not clickable");
    assert_eq!(clicked, Some(1));

    let mut c = ctx(InputState::default());
    let none = Breadcrumb::new(&segs).draw(rc(0.0, 0.0, 300.0, 20.0), &m, &mut c);
    assert!(none.is_none());
}

#[test]
fn pager_arrows_step_and_clamp() {
    let labels = [label("1 / 5", 12.0)];
    let rect = rc(0.0, 0.0, 140.0, 18.0);
    let mut c = ctx(pointer(128.0, 8.0, true, true));
    let out = Pager::new().draw(0, 5, rect, &labels, &mut c);
    assert!(out.changed && out.page == 1, "next arrow advances");

    let mut c = ctx(pointer(128.0, 8.0, true, true));
    let out = Pager::new().draw(4, 5, rect, &labels, &mut c);
    assert!(!out.changed && out.page == 4, "the next arrow clamps at the end");
}

#[test]
fn numeric_pager_jumps_to_a_clicked_page() {
    let labels: Vec<Label> = (1..=4).map(|i| label(&format!("{i}"), 12.0)).collect();
    let mut c = ctx(pointer(40.0, 8.0, true, true));
    let out = Pager::new().numeric().draw(0, 4, rc(0.0, 0.0, 120.0, 18.0), &labels, &mut c);
    assert!(out.changed, "clicking a page number jumps to it");
    assert_ne!(out.page, 0);
}

#[test]
fn pages_are_counted_from_one() {
    assert_eq!(readout_text(0, 5), "1 / 5");
    assert_eq!(readout_text(41, 120), "42 / 120");
    assert_eq!(page_text(9), "10");
}

fn dock_tabs() -> Vec<DockTab> {
    ["Outliner", "Layers", "Assets"].iter().map(|l| DockTab { label: l.to_string() }).collect()
}

fn dock_labels() -> Vec<Label> {
    ["Outliner", "Layers", "Assets"].iter().map(|l| label(l, 14.0)).collect()
}

#[test]
fn clicking_a_tab_reports_its_index() {
    let tabs = dock_tabs();
    let tab_w = (200.0 - 4.0) / 3.0;
    let mut c = ctx(pointer(2.0 + tab_w * 1.5, 9.0, true, true));
    let out = DockPanel::new(DockSide::Left, &tabs).draw(
        rc(0.0, 0.0, 200.0, 150.0),
        &DockPanelState::new(s(200.0)),
        &dock_labels(),
        s(0.6),
        &mut c,
    );
    assert_eq!(out.tab_clicked, Some(1));
}

#[test]
fn close_button_reports_click() {
    let tabs = dock_tabs();
    let mut c = ctx(pointer(200.0 - 12.0, 12.0, true, true));
    let out = DockPanel::new(DockSide::Left, &tabs).closable().draw(
        rc(0.0, 0.0, 200.0, 150.0),
        &DockPanelState::new(s(200.0)),
        &dock_labels(),
        s(0.6),
        &mut c,
    );
    assert!(out.close_clicked);
}

#[test]
fn body_rect_is_below_header() {
    let tabs = dock_tabs();
    let mut c = ctx(InputState::default());
    let out = DockPanel::new(DockSide::Left, &tabs).draw(
        rc(10.0, 20.0, 180.0, 130.0),
        &DockPanelState::new(s(180.0)),
        &dock_labels(),
        s(0.6),
        &mut c,
    );
    let tab_h = f(theme().scalar(StyleKey::DockTabHeight));
    let body = ltwh(out.body);
    assert!((body[1] - (20.0 + tab_h)).abs() < 0.01);
    assert!((body[3] - (130.0 - tab_h)).abs() < 0.01);
    assert!((body[0] - 10.0).abs() < 0.01);
    assert!((body[2] - 180.0).abs() < 0.01);
}

#[test]
fn empty_tabs_still_draw_background() {
    let tabs: Vec<DockTab> = vec![];
    let mut c = ctx(InputState::default());
    let out = DockPanel::new(DockSide::Left, &tabs).draw(
        rc(0.0, 0.0, 200.0, 150.0),
        &DockPanelState::new(s(200.0)),
        &[],
        s(0.6),
        &mut c,
    );
    assert!(!c.draw_list.chrome_instances.is_empty() || !c.draw_list.vertices.is_empty());
    assert!(f(out.body.height) > 0.0);
}

#[test]
fn consumed_input_suppresses_tab_click() {
    let tabs = dock_tabs();
    let mut c = ctx(InputState { mouse_consumed: true, ..pointer(30.0, 9.0, true, true) });
    let out = DockPanel::new(DockSide::Left, &tabs).draw(
        rc(0.0, 0.0, 200.0, 150.0),
        &DockPanelState::new(s(200.0)),
        &dock_labels(),
        s(0.6),
        &mut c,
    );
    assert_eq!(out.tab_clicked, None);
}

#[test]
fn toggle_inverts_visibility() {
    let mut state = DockPanelState::new(s(200.0));
    assert!(state.visible);
    state.toggle();
    assert!(!state.visible);
    state.toggle();
    assert!(state.visible);
}

#[test]
fn with_range_sets_bounds() {
    let state = DockPanelState::new(s(200.0)).with_range(s(50.0), s(400.0));
    assert!((f(state.min_size) - 50.0).abs() < 0.01);
    assert!((f(state.max_size) - 400.0).abs() < 0.01);
}

fn documents() -> Vec<DocTab> {
    vec![
        DocTab { label: "Level_01".to_string(), dirty: true },
        DocTab { label: "Arena".to_string(), dirty: false },
    ]
}

fn document_labels() -> Vec<Label> {
    vec![label("Level_01", 14.0), label("Arena", 14.0)]
}

#[test]
fn clicking_a_tab_activates_and_clicking_x_closes() {
    let rect = rc(0.0, 0.0, 200.0, 24.0);
    let mut c = ctx(pointer(40.0, 12.0, true, true));
    let out = draw_doc_tabs(rect, &documents(), 0, &document_labels(), s(0.6), &mut c);
    assert_eq!(out.activated, Some(0));
    assert!(out.closed.is_none());

    let mut c = ctx(pointer(92.0, 12.0, true, true));
    let out = draw_doc_tabs(rect, &documents(), 0, &document_labels(), s(0.6), &mut c);
    assert_eq!(out.closed, Some(0), "the ✕ slot closes instead of activating");
    assert!(out.activated.is_none());
}

#[test]
fn active_tab_is_full_height_inactive_is_dropped() {
    let mut c = ctx(at(-10.0, -10.0));
    draw_doc_tabs(rc(0.0, 0.0, 200.0, 24.0), &documents(), 0, &document_labels(), s(0.6), &mut c);
    let h = |x: f32| {
        c.draw_list
            .chrome_instances
            .iter()
            .find(|i| (f(i.rect.x) - x).abs() < 0.01 && f(i.rect.width) > 90.0)
            .map(|i| f(i.rect.height))
            .unwrap_or(0.0)
    };
    assert!((h(0.0) - 24.0).abs() < 0.01, "active tab full height");
    assert!((h(100.0) - 22.0).abs() < 0.01, "inactive tab dropped 2px");
}

#[test]
fn a_cell_is_its_plate_over_its_label() {
    let t = theme();
    assert_eq!(f(AssetGrid::new(&ASSETS, "▣").cell_height(&t)), 58.0 + 14.0 * 0.8 + 8.0);
    let small = AssetGrid::new(&ASSETS, "▣").with_cell_width(s(40.0)).with_thumb_height(s(30.0));
    assert_eq!(f(small.cell_height(&t)), 30.0 + 14.0 * 0.8 + 8.0);
    assert_eq!(small.flow(rc(0.0, 0.0, 300.0, 200.0), &t).cols, 6);
}

#[test]
fn unsaved_changes_show_as_a_dot_until_the_tab_is_hovered() {
    let strip = rc(0.0, 0.0, 200.0, 24.0);
    let dots = |input: InputState| {
        let mut c = ctx(input);
        draw_doc_tabs(strip, &documents(), 0, &document_labels(), s(0.6), &mut c);
        let n = c.draw_list.chrome_instances.iter().filter(|i| f(i.rect.width) == 5.0).count();
        (n, c.draw_list.texts.iter().filter(|t| t.content == "✕").count())
    };
    assert_eq!(dots(at(-10.0, -10.0)), (1, 0));
    assert_eq!(dots(at(40.0, 12.0)), (0, 1));
}

#[test]
fn defaults_hold_nothing() {
    let layout = ShellLayout::default();
    assert!(layout.menu_bar.is_none() && layout.left_dock.is_none() && layout.toolbar.is_none());
    assert_eq!(ltwh(layout.viewport), [0.0; 4]);
    let chrome = ShellChromeOutput::default();
    assert!(chrome.left_splitter.is_none() && chrome.bottom_dock.is_none());
    let dock = DockPanelOutput::default();
    assert!(dock.tab_clicked.is_none() && !dock.close_clicked);
    assert_eq!(ltwh(dock.body), [0.0; 4]);
    let trail = ["a", "b"];
    assert_eq!(Breadcrumb::new(&trail).with_gap(s(7.0)).clone().gap, s(7.0));
    assert_eq!(AssetGrid::new(&ASSETS, "x").with_cell_width(s(40.0)).clone().cell_w, s(40.0));
}
