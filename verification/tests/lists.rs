//! Lists, grids and menus.

#![allow(dead_code)]

use gameui::context::{DrawContext, Frame, Label};
use gameui::draw_list::{DrawList, Trig};
use gameui::focus::FocusState;
use gameui::geometry::{Color, Point, Rect};
use gameui::input::InputState;
use gameui::input::map_keyboard;
use gameui::list::{Cells, List, ListItem, ListOutput, ListState, SelectionMode};
use gameui::menu_screens::{draw_scrim, stepped, MenuList, MenuListOutput};
use gameui::scalar::Scalar;
use gameui::style::{StyleKey, StyleResolver};
use std::f32::consts::{FRAC_PI_2, PI, TAU};

fn s(x: f32) -> Scalar {
    Scalar { bits: x.to_bits() }
}

fn f(x: Scalar) -> f32 {
    f32::from_bits(x.bits)
}

fn pt(x: f32, y: f32) -> Point {
    Point { x: s(x), y: s(y) }
}

fn rc(x: f32, y: f32, w: f32, h: f32) -> Rect {
    Rect { x: s(x), y: s(y), width: s(w), height: s(h) }
}

fn col(c: [f32; 4]) -> Color {
    Color { r: s(c[0]), g: s(c[1]), b: s(c[2]), a: s(c[3]) }
}

fn rgba(c: Color) -> [f32; 4] {
    [f(c.r), f(c.g), f(c.b), f(c.a)]
}

fn xy(p: Point) -> [f32; 2] {
    [f(p.x), f(p.y)]
}

fn ltwh(r: Rect) -> [f32; 4] {
    [f(r.x), f(r.y), f(r.width), f(r.height)]
}

fn dir(a: f32) -> Point {
    pt(a.cos(), a.sin())
}

fn trig() -> Trig {
    let mut corners = Vec::new();
    for start in [PI, 1.5 * PI, 0.0, 0.5 * PI] {
        for i in 0..9 {
            corners.push(dir(start + FRAC_PI_2 * (i as f32 / 8.0)));
        }
    }
    let mut discs = Vec::new();
    for n in 16..=64u32 {
        discs.push((0..=n).map(|i| dir(TAU * i as f32 / n as f32)).collect::<Vec<Point>>());
    }
    let rings = discs.clone();
    Trig { corners, discs, rings }
}

fn fresh() -> DrawList {
    DrawList::new(trig(), 1)
}

/// A dark theme.
fn theme() -> StyleResolver {
    let mut t = StyleResolver::new(None);
    for (key, c) in [
        (StyleKey::Background, [0.08, 0.09, 0.10, 1.0]),
        (StyleKey::Scrim, [0.0, 0.0, 0.0, 0.55]),
        (StyleKey::Panel, [0.12, 0.13, 0.15, 1.0]),
        (StyleKey::PanelBorder, [0.25, 0.27, 0.30, 1.0]),
        (StyleKey::Text, [0.90, 0.91, 0.92, 1.0]),
        (StyleKey::TextDim, [0.55, 0.57, 0.60, 1.0]),
        (StyleKey::TextHighlight, [1.0, 1.0, 1.0, 1.0]),
        (StyleKey::OnAccent, [0.05, 0.06, 0.07, 1.0]),
        (StyleKey::OnDanger, [1.0, 0.95, 0.95, 1.0]),
        (StyleKey::Accent, [0.95, 0.65, 0.25, 1.0]),
        (StyleKey::Info, [0.22, 0.55, 0.95, 1.0]),
        (StyleKey::Success, [0.26, 0.72, 0.42, 1.0]),
        (StyleKey::Warning, [0.95, 0.70, 0.20, 1.0]),
        (StyleKey::Error, [0.9, 0.3, 0.3, 1.0]),
        (StyleKey::Button, [0.20, 0.22, 0.25, 1.0]),
        (StyleKey::ButtonHover, [0.26, 0.28, 0.32, 1.0]),
        (StyleKey::ButtonPressed, [0.16, 0.17, 0.20, 1.0]),
        (StyleKey::InputBackground, [0.06, 0.07, 0.08, 1.0]),
        (StyleKey::InputBorder, [0.30, 0.32, 0.35, 1.0]),
        (StyleKey::InputFocusBorder, [0.95, 0.75, 0.35, 1.0]),
        (StyleKey::TabActive, [0.22, 0.24, 0.27, 1.0]),
        (StyleKey::TabHover, [0.18, 0.20, 0.22, 1.0]),
        (StyleKey::TabInactive, [0.14, 0.15, 0.17, 1.0]),
        (StyleKey::Plinth, [0.03, 0.03, 0.04, 1.0]),
        (StyleKey::FaceTop, [1.0, 1.0, 1.0, 0.10]),
        (StyleKey::FaceTopHover, [1.0, 1.0, 1.0, 0.14]),
        (StyleKey::FaceTopPressed, [1.0, 1.0, 1.0, 0.04]),
        (StyleKey::FaceBottom, [0.0, 0.0, 0.0, 0.10]),
        (StyleKey::FaceBottomHover, [0.0, 0.0, 0.0, 0.06]),
        (StyleKey::FaceBottomPressed, [0.0, 0.0, 0.0, 0.16]),
        (StyleKey::AccentFaceTop, [0.98, 0.72, 0.35, 1.0]),
        (StyleKey::AccentFaceTopHover, [1.0, 0.78, 0.42, 1.0]),
        (StyleKey::AccentFaceTopPressed, [0.88, 0.62, 0.28, 1.0]),
        (StyleKey::AccentFaceBottom, [0.85, 0.55, 0.18, 1.0]),
        (StyleKey::AccentFaceBottomHover, [0.90, 0.60, 0.22, 1.0]),
        (StyleKey::AccentFaceBottomPressed, [0.78, 0.48, 0.14, 1.0]),
        (StyleKey::DangerFaceTop, [0.85, 0.30, 0.28, 1.0]),
        (StyleKey::DangerFaceTopHover, [0.92, 0.36, 0.33, 1.0]),
        (StyleKey::DangerFaceTopPressed, [0.75, 0.24, 0.22, 1.0]),
        (StyleKey::DangerFaceBottom, [0.65, 0.20, 0.18, 1.0]),
        (StyleKey::DangerFaceBottomHover, [0.72, 0.24, 0.21, 1.0]),
        (StyleKey::DangerFaceBottomPressed, [0.55, 0.16, 0.14, 1.0]),
        (StyleKey::EdgeHighlight, [1.0, 1.0, 1.0, 0.18]),
        (StyleKey::EdgeHighlightHover, [1.0, 1.0, 1.0, 0.24]),
        (StyleKey::EdgeHighlightPressed, [1.0, 1.0, 1.0, 0.08]),
        (StyleKey::EdgeShadow, [0.0, 0.0, 0.0, 0.35]),
        (StyleKey::InnerShadow, [0.0, 0.0, 0.0, 0.45]),
    ] {
        t.set_color(key, col(c));
    }
    for (key, x) in [
        (StyleKey::FontSize, 14.0),
        (StyleKey::Padding, 8.0),
        (StyleKey::Spacing, 6.0),
        (StyleKey::BorderRadius, 4.0),
        (StyleKey::BorderWidth, 1.0),
        (StyleKey::Travel, 2.0),
        (StyleKey::InnerShadowDepth, 3.0),
        (StyleKey::ButtonHeight, 28.0),
        (StyleKey::MenuRowHeight, 30.0),
        (StyleKey::DockTabHeight, 24.0),
        (StyleKey::DockSplitterWidth, 4.0),
        (StyleKey::ToolbarButtonSize, 28.0),
        (StyleKey::ToolbarPadding, 4.0),
    ] {
        t.set_scalar(key, s(x));
    }
    t
}

/// How `text` measures where every character takes half an em.
fn label(text: &str, size: f32) -> Label {
    Label { width: s(text.chars().count() as f32 * size * 0.5), center: s(0.6) }
}

fn ctx_with(input: InputState, focus: FocusState) -> DrawContext {
    DrawContext {
        frame: Frame { input, styles: theme(), layer: None },
        draw_list: fresh(),
        focus,
        cursor: None,
    }
}

fn ctx(input: InputState) -> DrawContext {
    ctx_with(input, FocusState::new())
}

fn at(x: f32, y: f32) -> InputState {
    InputState { mouse_x: s(x), mouse_y: s(y), ..InputState::default() }
}

/// The pointer at a point, with the button down and clicked as told.
fn pointer(x: f32, y: f32, down: bool, clicked: bool) -> InputState {
    InputState { mouse_down: down, mouse_clicked: clicked, ..at(x, y) }
}

fn away() -> InputState {
    at(-1.0, -1.0)
}

fn click_at(x: f32, y: f32) -> InputState {
    pointer(x, y, true, true)
}

/// One frame of a list; gives what happened and how many items were drawn.
fn run(w: &List, rect: Rect, count: usize, st: &mut ListState, mut input: InputState) -> (ListOutput, usize) {
    map_keyboard(&mut input);
    let t = theme();
    let mut list = fresh();
    let mut cells = Cells::new();
    let out = w.draw(rect, rect, count, st, &mut list, &t, &input, &mut cells);
    (out, cells.cells.len())
}

fn frame(w: &List, rect: Rect, count: usize, st: &mut ListState, input: InputState) -> ListOutput {
    run(w, rect, count, st, input).0
}

fn rows20() -> List {
    List::new().with_item_height(s(20.0))
}

#[test]
fn content_size_list_and_grid() {
    let rect = rc(0.0, 0.0, 100.0, 40.0);
    let mut st = ListState::new();
    frame(&rows20(), rect, 10, &mut st, away());
    assert_eq!(f(st.scroll.content_size.y), 200.0, "10 rows * 20px");

    let mut st = ListState::new();
    frame(&rows20().columns(4), rect, 10, &mut st, away());
    assert_eq!(f(st.scroll.content_size.y), 60.0, "3 grid rows * 20px");
}

#[test]
fn content_size_includes_row_gap() {
    let rect = rc(0.0, 0.0, 100.0, 40.0);
    let mut st = ListState::new();
    frame(&rows20().with_gap(s(0.0), s(5.0)), rect, 4, &mut st, away());
    assert_eq!(f(st.scroll.content_size.y), 95.0);
}

#[test]
fn virtualizes_only_visible_items() {
    let mut st = ListState::new();
    let (_, calls) = run(&rows20(), rc(0.0, 0.0, 100.0, 100.0), 1000, &mut st, away());
    assert!(calls < 20, "expected a screenful, drew {calls}");
    assert!(calls >= 5, "expected the visible rows, drew {calls}");
}

const TALL: [f32; 4] = [0.0, 0.0, 100.0, 200.0];

fn tall() -> Rect {
    rc(TALL[0], TALL[1], TALL[2], TALL[3])
}

#[test]
fn single_click_selects() {
    let mut st = ListState::new();
    let out = frame(&rows20(), tall(), 5, &mut st, click_at(50.0, 10.0));
    assert_eq!(out.clicked, Some(0));
    assert!(st.is_selected(0));
    assert_eq!(st.selected_count(), 1);
}

#[test]
fn single_select_replaces() {
    let mut st = ListState::new();
    frame(&rows20(), tall(), 5, &mut st, click_at(50.0, 10.0));
    frame(&rows20(), tall(), 5, &mut st, click_at(50.0, 50.0));
    assert!(!st.is_selected(0));
    assert!(st.is_selected(2));
    assert_eq!(st.selected_count(), 1);
}

#[test]
fn multi_ctrl_click_toggles() {
    let w = rows20().selection(SelectionMode::Multi);
    let mut st = ListState::new();
    frame(&w, tall(), 5, &mut st, click_at(50.0, 30.0));
    frame(&w, tall(), 5, &mut st, InputState { ctrl_pressed: true, ..click_at(50.0, 70.0) });
    assert!(st.is_selected(1) && st.is_selected(3));
    assert_eq!(st.selected_count(), 2);
    frame(&w, tall(), 5, &mut st, InputState { ctrl_pressed: true, ..click_at(50.0, 30.0) });
    assert!(!st.is_selected(1) && st.is_selected(3));
    assert_eq!(st.selected_count(), 1);
}

#[test]
fn multi_shift_click_selects_range() {
    let w = rows20().selection(SelectionMode::Multi);
    let mut st = ListState::new();
    frame(&w, tall(), 8, &mut st, click_at(50.0, 30.0));
    frame(&w, tall(), 8, &mut st, InputState { shift_pressed: true, ..click_at(50.0, 90.0) });
    assert_eq!(st.selected(), vec![1, 2, 3, 4]);
}

fn down() -> InputState {
    InputState { key_down: true, ..away() }
}

#[test]
fn keyboard_down_moves_cursor_and_selects() {
    let w = rows20().focused(true);
    let mut st = ListState::new();
    frame(&w, tall(), 10, &mut st, down());
    assert_eq!(st.cursor(), Some(0));
    assert!(st.is_selected(0));

    frame(&w, tall(), 10, &mut st, away());
    frame(&w, tall(), 10, &mut st, down());
    assert_eq!(st.cursor(), Some(1));
    assert!(st.is_selected(1) && !st.is_selected(0));
}

#[test]
fn keyboard_autoscrolls_cursor_into_view() {
    let rect = rc(0.0, 0.0, 100.0, 60.0);
    let w = rows20().focused(true);
    let mut st = ListState::new();
    for _ in 0..6 {
        frame(&w, rect, 20, &mut st, down());
        frame(&w, rect, 20, &mut st, away());
    }
    assert!(st.cursor().expect("a cursor") >= 4);
    assert!(f(st.scroll.offset.y) > 0.0, "cursor scrolled into view");
}

#[test]
fn keyboard_enter_activates_cursor() {
    let w = rows20().focused(true);
    let mut st = ListState::new();
    frame(&w, tall(), 10, &mut st, down());
    frame(&w, tall(), 10, &mut st, away());
    let out = frame(&w, tall(), 10, &mut st, InputState { enter_pressed: true, ..away() });
    assert_eq!(out.activated, Some(0));
}

#[test]
fn grid_hit_test_resolves_row_col() {
    let w = rows20().columns(4);
    let mut st = ListState::new();
    let out = frame(&w, tall(), 16, &mut st, click_at(60.0, 30.0));
    assert_eq!(out.clicked, Some(6));
    assert!(st.is_selected(6));
}

#[test]
fn grid_gap_is_dead_zone() {
    let w = rows20().columns(4).with_gap(s(10.0), s(0.0));
    let mut st = ListState::new();
    let out = frame(&w, tall(), 16, &mut st, click_at(20.0, 5.0));
    assert_eq!(out.clicked, None);
    assert_eq!(st.selected_count(), 0);
}

#[test]
fn mouse_consumed_suppresses_interaction() {
    let mut st = ListState::new();
    let input = InputState { mouse_consumed: true, ..click_at(50.0, 10.0) };
    let out = frame(&rows20(), tall(), 5, &mut st, input);
    assert_eq!(out.clicked, None);
    assert_eq!(out.hovered, None);
    assert_eq!(st.selected_count(), 0);
}

#[test]
fn every_visible_item_is_handed_over_once() {
    let t = theme();
    let rect = rc(0.0, 0.0, 100.0, 40.0);
    let mut st = ListState::new();
    st.select_one(7);
    st.scroll.offset = pt(0.0, 30.0);
    let input = at(80.0, 15.0);
    let mut cells = Cells::new();
    let mut list = fresh();
    let grid = rows20().columns(3);
    let out = grid.begin(rect, 100, &mut st, &t, &input).draw_items(
        rect,
        &mut st,
        &mut list,
        &t,
        &mut cells,
    );
    let indices: Vec<usize> = cells.cells.iter().map(|(_, i)| i.index).collect();
    assert_eq!(indices, (3..12).collect::<Vec<usize>>());
    assert_eq!(out.hovered, Some(8));
    let (cell, item) = cells.cells[4];
    assert_eq!(item, ListItem { index: 7, selected: true, hovered: false, cursor: true });
    assert_eq!(f(cell.y), 40.0);
    assert_eq!(list.chrome_instances.len(), 2, "the selected cell and the one under the pointer");
}

#[test]
fn a_step_at_a_time_is_the_same_pass() {
    let t = theme();
    let mut st = ListState::new();
    let mut list = fresh();
    let mut pass = rows20().begin(tall(), 5, &mut st, &t, &click_at(50.0, 30.0));
    pass.place(tall());
    let mut drawn = 0;
    while pass.step(&mut st, &mut list, &t).is_some() {
        drawn += 1;
    }
    assert_eq!(drawn, 5);
    assert_eq!(pass.output().clicked, Some(1));
    assert!(st.is_selected(1));
}

#[test]
fn a_held_key_moves_once() {
    let w = rows20().focused(true);
    let mut st = ListState::new();
    frame(&w, tall(), 10, &mut st, down());
    frame(&w, tall(), 10, &mut st, down());
    frame(&w, tall(), 10, &mut st, down());
    assert_eq!(st.cursor(), Some(0));
}

#[test]
fn an_unfocused_list_ignores_the_keyboard() {
    let mut st = ListState::new();
    frame(&rows20(), tall(), 10, &mut st, down());
    assert_eq!(st.cursor(), None);
    assert_eq!(st.selected_count(), 0);
}

#[test]
fn the_ends_are_reached_and_not_passed() {
    let w = rows20().focused(true);
    let mut st = ListState::new();
    frame(&w, tall(), 10, &mut st, InputState { key_end: true, ..away() });
    assert_eq!(st.cursor(), Some(9));
    frame(&w, tall(), 10, &mut st, down());
    assert_eq!(st.cursor(), Some(9));
    frame(&w, tall(), 10, &mut st, InputState { key_home: true, ..away() });
    assert_eq!(st.cursor(), Some(0));
    frame(&w, tall(), 10, &mut st, InputState { key_up: true, ..away() });
    assert_eq!(st.cursor(), Some(0));
}

#[test]
fn ranges_read_both_ways_and_toggling_twice_changes_nothing() {
    let mut a = ListState::new();
    a.select_range(2, 5);
    let mut b = ListState::new();
    b.select_range(5, 2);
    assert_eq!(a.selected(), vec![2, 3, 4, 5]);
    assert_eq!(a.selected(), b.selected());
    a.toggle(9);
    a.toggle(9);
    assert_eq!(a.selected(), vec![2, 3, 4, 5]);
    a.clear_selection();
    assert_eq!(a.selected_count(), 0);
    a.select_all(3);
    assert_eq!(a.selected(), vec![0, 1, 2]);
    a.select_one(1);
    assert_eq!(a.selected(), vec![1]);
}

#[test]
fn a_list_without_selection_only_moves_its_cursor() {
    let w = rows20().selection(SelectionMode::Off);
    let mut st = ListState::new();
    let out = frame(&w, tall(), 5, &mut st, click_at(50.0, 30.0));
    assert_eq!(out.clicked, Some(1));
    assert_eq!(st.cursor(), Some(1));
    assert_eq!(st.selected_count(), 0);
}

const ITEMS: [&str; 3] = ["Resume", "Settings", "Quit"];

fn menu_labels() -> Vec<Label> {
    ITEMS.iter().map(|i| label(i, 14.0)).collect()
}

fn menu_ctx(input: InputState) -> DrawContext {
    let mut c = ctx(input);
    c.frame.styles.set_scalar(StyleKey::ButtonHeight, s(24.0));
    c.frame.styles.set_scalar(StyleKey::Spacing, s(4.0));
    c
}

fn draw_menu(menu: MenuList, rect: Rect, selected: &mut usize, input: InputState) -> (MenuListOutput, DrawContext) {
    let mut c = menu_ctx(input);
    let out = menu.draw(rect, selected, &menu_labels(), &mut c);
    (out, c)
}

fn square() -> Rect {
    rc(0.0, 0.0, 200.0, 200.0)
}

fn menu(selected: &mut usize, input: InputState) -> MenuListOutput {
    draw_menu(MenuList::new(&ITEMS), square(), selected, input).0
}

fn press(x: f32, y: f32) -> InputState {
    InputState { mouse_clicked: true, ..at(x, y) }
}

#[test]
fn nothing_selected_without_input() {
    let out = menu(&mut 0, InputState::default());
    assert_eq!(out.activated, None);
    assert_eq!(out.hovered, None);
    assert!(!out.selected_changed);
}

#[test]
fn click_on_a_row_activates_it() {
    let out = menu(&mut 0, press(100.0, 100.0));
    assert_eq!(out.activated, Some(1));
}

#[test]
fn click_outside_activates_nothing() {
    let out = menu(&mut 0, press(100.0, 400.0));
    assert_eq!(out.activated, None);
}

#[test]
fn hover_moves_the_selection() {
    let out = menu(&mut 0, at(100.0, 128.0));
    assert_eq!(out.hovered, Some(2));
    assert!(out.selected_changed);
}

#[test]
fn nav_down_moves_and_wraps() {
    let mut go_down = InputState::default();
    go_down.nav.down = true;
    let out = menu(&mut 0, go_down.clone());
    assert_eq!(out.activated, None, "a move frame does not activate");
    let mut sel = 2;
    let out = menu(&mut sel, go_down);
    assert_eq!(sel, 0, "down from the last row wraps to the first");
    assert!(out.selected_changed);

    let mut go_up = InputState::default();
    go_up.nav.up = true;
    let mut sel = 0;
    menu(&mut sel, go_up);
    assert_eq!(sel, 2, "up from the first row wraps to the last");
}

#[test]
fn confirm_activates_the_selection_but_not_on_a_move_frame() {
    let mut sel = 1;
    let mut input = InputState::default();
    input.nav.confirm = true;
    let out = menu(&mut sel, input.clone());
    assert_eq!(out.activated, Some(1));

    input.nav.down = true;
    let out = menu(&mut sel, input);
    assert_eq!(out.activated, None, "the frame that moves doesn't confirm");
    assert_eq!(sel, 2);
}

#[test]
fn selection_is_clamped_to_the_item_range() {
    let mut sel = 7;
    let out = menu(&mut sel, InputState::default());
    assert_eq!(sel, ITEMS.len() - 1, "out-of-range selection clamps");
    assert!(!out.selected_changed, "clamping alone is not a change");
}

#[test]
fn disabled_row_neither_hovers_nor_activates() {
    let enabled = [true, false, true];
    let (out, _) = draw_menu(
        MenuList::new(&ITEMS).enabled(&enabled),
        square(),
        &mut 0,
        press(100.0, 100.0),
    );
    assert_eq!(out.activated, None, "a disabled row cannot be clicked");
    assert_eq!(out.hovered, None);
}

#[test]
fn rows_are_equal_width_and_block_centered() {
    let (_, c) = draw_menu(
        MenuList::new(&ITEMS),
        rc(0.0, 0.0, 400.0, 400.0),
        &mut 0,
        InputState::default(),
    );
    let mut rows: Vec<(f32, f32, f32)> = Vec::new();
    for inst in &c.draw_list.chrome_instances {
        let [_, y, w, h] = ltwh(inst.rect);
        if let Some(row) = rows.iter_mut().find(|(ry, _, _)| (*ry - y).abs() < 0.5) {
            row.1 = row.1.max(w);
            row.2 = row.2.max(h);
        } else {
            rows.push((y, w, h));
        }
    }
    rows.sort_by(|a, b| a.0.total_cmp(&b.0));
    rows.retain(|(_, _, h)| *h > 4.0);
    assert_eq!(rows.len(), ITEMS.len(), "one row band per item");
    let width = rows[0].1;
    for r in &rows {
        assert!((r.1 - width).abs() < 1e-3, "rows are equal width");
        assert!((r.2 - 24.0).abs() < 1e-3, "row height is the themed 24px");
    }
    assert!(
        (rows[0].0 - 160.0).abs() < 1e-3,
        "first row should be block-centered at y=160, got {} (rows: {:?})",
        rows[0].0,
        rows
    );
    assert!(width > 0.0 && width <= 400.0);
}

#[test]
fn focusable_rows_register_in_the_tab_ring() {
    let (_, c) = draw_menu(
        MenuList::new(&ITEMS).focusable(900),
        square(),
        &mut 0,
        InputState::default(),
    );
    let mut focus = c.focus;
    let mut input = InputState::default();
    input.nav.next = true;
    focus.begin_frame(&input);
    focus.register(1);
    focus.end_frame(None);
    assert!(
        focus.is_focused(901) || focus.is_focused(1),
        "menu ids participated in the ring"
    );
}

#[test]
fn empty_menu_draws_nothing() {
    let mut c = ctx(InputState::default());
    let mut sel = 0;
    let out = MenuList::new(&[]).draw(square(), &mut sel, &[], &mut c);
    assert_eq!(out.activated, None);
    assert_eq!(f(out.intrinsic_width), 0.0);
    assert!(c.draw_list.icons.is_empty() && c.draw_list.chrome_instances.is_empty());
}

#[test]
fn scrim_uses_the_theme_color() {
    let mut t = theme();
    t.set_color(StyleKey::Scrim, col([1.0, 0.0, 0.0, 0.5]));
    let mut list = fresh();
    draw_scrim(rc(0.0, 0.0, 100.0, 80.0), &mut list, &t);
    assert_eq!(list.chrome_instances.len(), 1, "scrim emits one quad");
    let inst = &list.chrome_instances[0];
    assert_eq!(rgba(inst.bg), [1.0, 0.0, 0.0, 0.5]);
    assert_eq!(ltwh(inst.rect), [0.0, 0.0, 100.0, 80.0]);
}

#[test]
fn scrim_overrides_through_an_overlay() {
    let mut t = theme();
    t.set_color(StyleKey::Scrim, col([0.0, 1.0, 0.0, 1.0]));
    let mut list = fresh();
    draw_scrim(rc(0.0, 0.0, 10.0, 10.0), &mut list, &t);
    for v in &list.vertices {
        assert_eq!(rgba(v.color), [0.0, 1.0, 0.0, 1.0]);
    }
    assert_eq!(rgba(list.chrome_instances[0].bg), [0.0, 1.0, 0.0, 1.0]);
}

#[test]
fn steps_through_a_menu_undo_each_other() {
    for i in 0..4 {
        assert_eq!(stepped(stepped(i, 4, true), 4, false), i);
    }
    assert_eq!(stepped(3, 4, true), 0);
    assert_eq!(stepped(0, 4, false), 3);
}

#[test]
fn tab_walks_through_the_rows_of_a_menu() {
    let mut next = InputState::default();
    next.nav.next = true;
    let mut c = menu_ctx(next.clone());
    c.focus.focus(900);
    c.focus.begin_frame(&next);
    MenuList::new(&ITEMS).focusable(900).draw(square(), &mut 0, &menu_labels(), &mut c);
    c.focus.end_frame(None);
    assert!(c.focus.is_focused(901));
}

#[test]
fn a_striped_column_tints_every_other_row() {
    let t = theme();
    let mut list = fresh();
    let mut st = ListState::new();
    let rect = rc(0.0, 0.0, 100.0, 40.0);
    let striped = rows20().with_zebra(true);
    let mut cells = Cells::new();
    striped.begin(rect, 3, &mut st, &t, &away()).draw_items(rect, &mut st, &mut list, &t, &mut cells);
    assert_eq!(cells.cells.len(), 3);
    assert_eq!(list.chrome_instances.len(), 1);
    let stripe = list.chrome_instances[0];
    assert_eq!(ltwh(stripe.rect), [0.0, 20.0, 100.0, 20.0]);
    let panel = rgba(t.color(StyleKey::Panel));
    assert_eq!(rgba(stripe.bg), [panel[0] * 1.12, panel[1] * 1.12, panel[2] * 1.12, panel[3]]);
}

#[test]
fn moving_the_cursor_keeps_the_selection() {
    let mut st = ListState::new();
    st.select_one(2);
    st.set_cursor(5);
    assert_eq!(st.cursor(), Some(5));
    assert!(st.is_selected(2));
    assert_eq!(st.selected_count(), 1);
}

#[test]
fn the_intrinsic_width_fits_the_widest_label_in_any_rect() {
    let widest = menu_labels().iter().map(|l| f(l.width)).fold(0.0, f32::max);
    let fit = widest + 2.0 * 8.0;
    for width in [1.0, fit * 0.5, fit, 400.0] {
        let rect = rc(0.0, 0.0, width, 400.0);
        let (out, c) = draw_menu(MenuList::new(&ITEMS), rect, &mut 0, InputState::default());
        assert_eq!(f(out.intrinsic_width), fit);
        assert!(c.draw_list.chrome_instances.iter().all(|i| f(i.rect.width) <= width));
    }
}

#[test]
fn a_selection_that_comes_back_did_not_change() {
    let mut down = InputState::default();
    down.nav.down = true;
    let mut only = 0;
    let mut c = menu_ctx(down);
    let out = MenuList::new(&ITEMS[..1]).draw(square(), &mut only, &menu_labels(), &mut c);
    assert_eq!(only, 0);
    assert!(!out.selected_changed, "one item wraps around to itself");
}

#[test]
fn a_gap_of_nothing_joins_the_rows() {
    let tops = |menu: MenuList| {
        let (_, c) = draw_menu(menu, square(), &mut 0, InputState::default());
        let mut y: Vec<f32> = c
            .draw_list
            .chrome_instances
            .iter()
            .filter(|i| f(i.rect.height) == 20.0)
            .map(|i| f(i.rect.y))
            .collect();
        y.dedup();
        y
    };
    let joined = tops(MenuList::new(&ITEMS).row_height(s(20.0)).gap(s(0.0)));
    assert_eq!(joined[1] - joined[0], 20.0);
    let spaced = tops(MenuList::new(&ITEMS).row_height(s(20.0)));
    assert_eq!(spaced[1] - spaced[0], 24.0);
}

#[test]
fn the_first_key_after_a_default_state_moves() {
    let mut st = ListState::default();
    let mut input = away();
    input.key_down = true;
    frame(&rows20().focused(true), rc(0.0, 0.0, 100.0, 40.0), 10, &mut st, input);
    assert_eq!(st.cursor(), Some(0));
}

#[test]
fn a_held_key_moves_once_while_the_pointer_moves() {
    let list = rows20().focused(true);
    let rect = rc(0.0, 0.0, 100.0, 40.0);
    let mut st = ListState::new();
    st.select_one(0);
    let held = |x: f32| InputState { key_down: true, ..at(x, -1.0) };
    frame(&list, rect, 10, &mut st, held(-1.0));
    assert_eq!(st.cursor(), Some(1));
    frame(&list, rc(0.0, 0.0, 90.0, 60.0), 12, &mut st, held(-5.0));
    assert_eq!(st.cursor(), Some(1));
    let copy = st.clone();
    st.clear_selection();
    assert!(copy.is_selected(1));
    assert_eq!(copy.selected_count(), 1);
}
