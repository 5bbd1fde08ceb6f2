//! State without pictures: key bindings, drag captures and keyboard focus.

use gameui::binding::{Binding, KeyCode, PadButton};
use gameui::drag::DragCapture;
use gameui::focus::FocusState;
use gameui::geometry::Rect;
use gameui::input::{map_keyboard, GamepadNav, InputState};
use gameui::scalar::Scalar;

fn s(x: f32) -> Scalar {
    Scalar { bits: x.to_bits() }
}

fn rc(x: f32, y: f32, w: f32, h: f32) -> Rect {
    Rect { x: s(x), y: s(y), width: s(w), height: s(h) }
}

#[test]
fn labels_cover_all_variants_and_read_naturally() {
    assert_eq!(Binding::Key(KeyCode::Escape).label(), "Esc");
    assert_eq!(Binding::Key(KeyCode::Left).label(), "←");
    assert_eq!(
        Binding::Char { c: 's', ctrl: true, shift: true, alt: false }.label(),
        "Ctrl+Shift+S"
    );
    assert_eq!(Binding::MouseRight.label(), "Mouse2");
    assert_eq!(Binding::Pad(PadButton::South).label(), "A");
    assert_eq!(Binding::Pad(PadButton::StickRight).label(), "Stick→");
}

#[test]
fn key_edges_match_their_input_fields() {
    let mut input = InputState::default();
    input.key_escape = true;
    assert!(Binding::Key(KeyCode::Escape).is_down(&input, None));

    let mut input = InputState::default();
    input.key_down = true;
    assert!(Binding::Key(KeyCode::Down).is_down(&input, None));
    assert!(!Binding::Key(KeyCode::Up).is_down(&input, None));
}

#[test]
fn char_binding_requires_exact_modifier_match() {
    let mut input = InputState::default();
    input.text_input = "s".to_string();
    input.ctrl_pressed = true;
    let bind = Binding::Char { c: 's', ctrl: true, shift: false, alt: false };
    assert!(bind.is_down(&input, None), "Ctrl+S matches");
    input.shift_pressed = true;
    assert!(!bind.is_down(&input, None), "extra Shift breaks the chord");
}

#[test]
fn a_letter_matches_in_either_case() {
    let input = InputState { text_input: "S".to_string(), ..InputState::default() };
    assert!(Binding::Char { c: 's', ctrl: false, shift: false, alt: false }.is_down(&input, None));
    let other = InputState { text_input: "t".to_string(), ..InputState::default() };
    assert!(!Binding::Char { c: 's', ctrl: false, shift: false, alt: false }.is_down(&other, None));
}

#[test]
fn mouse_bindings_read_held_state() {
    let mut input = InputState::default();
    input.mouse_middle_down = true;
    assert!(Binding::MouseMiddle.is_down(&input, None));
    assert!(!Binding::MouseLeft.is_down(&input, None));
}

#[test]
fn pad_binding_reads_the_passed_snapshot() {
    let input = InputState::default();
    assert!(
        !Binding::Pad(PadButton::East).is_down(&input, None),
        "no pad snapshot: nothing matches"
    );
    let pad = GamepadNav { east: true, ..Default::default() };
    assert!(Binding::Pad(PadButton::East).is_down(&input, Some(&pad)));
    assert!(!Binding::Pad(PadButton::South).is_down(&input, Some(&pad)));
}

#[test]
fn all_keys_and_pad_buttons_have_labels() {
    for k in [
        KeyCode::Escape,
        KeyCode::Tab,
        KeyCode::Space,
        KeyCode::Enter,
        KeyCode::Backspace,
        KeyCode::Left,
        KeyCode::Right,
        KeyCode::Up,
        KeyCode::Down,
        KeyCode::Home,
        KeyCode::End,
        KeyCode::Delete,
    ] {
        assert!(!k.label().is_empty());
    }
    for p in [
        PadButton::DpadUp,
        PadButton::DpadDown,
        PadButton::DpadLeft,
        PadButton::DpadRight,
        PadButton::South,
        PadButton::East,
        PadButton::LeftShoulder,
        PadButton::RightShoulder,
        PadButton::StickUp,
        PadButton::StickDown,
        PadButton::StickLeft,
        PadButton::StickRight,
    ] {
        assert!(!p.label().is_empty());
    }
}

#[test]
fn char_label_uppercases_and_orders_modifiers() {
    let b = Binding::Char { c: 'a', ctrl: false, shift: false, alt: true };
    assert_eq!(b.label(), "Alt+A");
    let b = Binding::Char { c: 'x', ctrl: true, shift: true, alt: true };
    assert_eq!(b.label(), "Ctrl+Alt+Shift+X");
}

#[test]
fn fresh_capture_is_free() {
    let cap = DragCapture::new();
    assert!(cap.is_free());
    assert_eq!(cap.active(), None);
    assert!(!cap.is_active(0));
}

#[test]
fn try_begin_claims_when_free() {
    let mut cap = DragCapture::new();
    assert!(cap.try_begin(7));
    assert!(!cap.is_free());
    assert!(cap.is_active(7));
    assert_eq!(cap.active(), Some(7));
}

#[test]
fn try_begin_is_idempotent_for_owner() {
    let mut cap = DragCapture::new();
    assert!(cap.try_begin(7));
    assert!(cap.try_begin(7));
    assert!(cap.is_active(7));
}

#[test]
fn try_begin_rejects_other_while_held() {
    let mut cap = DragCapture::new();
    assert!(cap.try_begin(1));
    assert!(!cap.try_begin(2));
    assert!(cap.is_active(1));
    assert!(!cap.is_active(2));
}

#[test]
fn release_only_frees_owner() {
    let mut cap = DragCapture::new();
    cap.try_begin(1);
    cap.release(2);
    assert!(cap.is_active(1));
    cap.release(1);
    assert!(cap.is_free());
}

#[test]
fn clear_drops_any_owner() {
    let mut cap = DragCapture::new();
    cap.try_begin(42);
    cap.clear();
    assert!(cap.is_free());
}

#[test]
fn one_press_gives_the_drag_to_the_first_region() {
    let mut cap = DragCapture::new();
    assert!(cap.drive(1, true, true));
    assert!(!cap.drive(2, true, true));
    assert!(cap.is_active(1));
    assert!(!cap.drive(1, false, false));
    assert!(cap.is_free());
}

#[test]
fn a_handle_is_held_until_the_button_is_up() {
    let mut cap = DragCapture::new();
    let mut held = None;
    assert!(cap.drive_handles(&mut held, 5, Some(2), true, true));
    assert_eq!(held, Some(2));
    assert!(!cap.drive_handles(&mut held, 5, Some(0), true, false));
    assert_eq!(held, Some(2));
    assert!(!cap.drive_handles(&mut held, 5, None, false, false));
    assert_eq!(held, None);
    assert!(cap.is_free());
}

/// The edges that focus reads, mapped by the keyboard's default bindings.
fn input(tab: bool, shift: bool, escape: bool, clicked: bool) -> InputState {
    let mut i = InputState {
        key_tab: tab,
        shift_pressed: shift,
        key_escape: escape,
        mouse_clicked: clicked,
        ..Default::default()
    };
    map_keyboard(&mut i);
    i
}

#[test]
fn fresh_state_has_no_focus() {
    let f = FocusState::new();
    assert_eq!(f.focused(), None);
    assert!(!f.is_focused(0));
    assert_eq!(f.ime_request(), None, "no IME requested by default");
}

#[test]
fn request_ime_is_peekable_then_taken() {
    let mut f = FocusState::new();
    let rect = rc(10.0, 20.0, 1.5, 18.0);
    f.request_ime(rect);
    assert_eq!(f.ime_request(), Some(rect));
    assert_eq!(f.ime_request(), Some(rect));
    assert_eq!(f.take_ime_request(), Some(rect));
    assert_eq!(f.take_ime_request(), None, "second take is empty");
}

#[test]
fn begin_frame_clears_stale_ime_request() {
    let mut f = FocusState::new();
    f.request_ime(rc(1.0, 2.0, 1.5, 12.0));
    f.begin_frame(&input(false, false, false, false));
    f.end_frame(None);
    assert_eq!(
        f.take_ime_request(),
        None,
        "stale IME request cleared when no field is focused"
    );
}

#[test]
fn single_owner_request_replaces() {
    let mut f = FocusState::new();
    f.begin_frame(&input(false, false, false, true));
    f.register(1);
    f.register(2);
    f.request(1);
    f.request(2);
    assert!(f.is_focused(2));
    assert!(!f.is_focused(1));
    f.end_frame(None);
    assert!(f.is_focused(2));
}

#[test]
fn click_elsewhere_blurs() {
    let mut f = FocusState::new();
    f.focus(9);
    f.begin_frame(&input(false, false, false, true));
    f.register(9);
    f.end_frame(None);
    assert_eq!(f.focused(), None);
}

#[test]
fn claimed_click_does_not_blur() {
    let mut f = FocusState::new();
    f.focus(9);
    f.begin_frame(&input(false, false, false, true));
    f.register(9);
    f.request(9);
    f.end_frame(None);
    assert!(f.is_focused(9));
}

#[test]
fn no_click_keeps_focus() {
    let mut f = FocusState::new();
    f.focus(3);
    f.begin_frame(&input(false, false, false, false));
    f.register(3);
    f.end_frame(None);
    assert!(f.is_focused(3));
}

#[test]
fn escape_blurs() {
    let mut f = FocusState::new();
    f.focus(5);
    f.begin_frame(&input(false, false, true, false));
    f.register(5);
    f.end_frame(None);
    assert_eq!(f.focused(), None);
}

#[test]
fn blurring_drops_the_focus() {
    let mut f = FocusState::new();
    f.focus(5);
    f.blur();
    assert_eq!(f.focused(), None);
}

#[test]
fn tab_cycles_forward_with_wrap() {
    let mut f = FocusState::new();
    f.focus(10);
    f.begin_frame(&input(true, false, false, false));
    f.register(10);
    f.register(20);
    f.register(30);
    f.end_frame(None);
    assert!(f.is_focused(20));
    f.begin_frame(&input(true, false, false, false));
    f.register(10);
    f.register(20);
    f.register(30);
    f.end_frame(None);
    assert!(f.is_focused(30));
    f.begin_frame(&input(true, false, false, false));
    f.register(10);
    f.register(20);
    f.register(30);
    f.end_frame(None);
    assert!(f.is_focused(10));
}

#[test]
fn shift_tab_cycles_backward_with_wrap() {
    let mut f = FocusState::new();
    f.focus(10);
    f.begin_frame(&input(true, true, false, false));
    f.register(10);
    f.register(20);
    f.register(30);
    f.end_frame(None);
    assert!(f.is_focused(30));
}

#[test]
fn tab_with_nothing_focused_picks_ends() {
    let mut f = FocusState::new();
    f.begin_frame(&input(true, false, false, false));
    f.register(7);
    f.register(8);
    f.register(9);
    f.end_frame(None);
    assert!(f.is_focused(7));

    let mut g = FocusState::new();
    g.begin_frame(&input(true, true, false, false));
    g.register(7);
    g.register(8);
    g.register(9);
    g.end_frame(None);
    assert!(g.is_focused(9));
}

#[test]
fn tab_with_empty_order_is_noop() {
    let mut f = FocusState::new();
    f.focus(1);
    f.begin_frame(&input(true, false, false, false));
    f.end_frame(None);
    assert!(f.is_focused(1));
}

#[test]
fn tab_with_active_layer_cycles_within_layer_only() {
    let mut f = FocusState::new();
    f.focus(10);
    f.begin_frame(&input(true, false, false, false));
    f.register(10);
    f.register(20);
    f.register_layer(100, 2);
    f.register_layer(200, 2);
    f.end_frame(Some(2));
    assert!(f.is_focused(100), "Tab jumped to first focusable in layer 2");

    f.begin_frame(&input(true, false, false, false));
    f.register(10);
    f.register(20);
    f.register_layer(100, 2);
    f.register_layer(200, 2);
    f.end_frame(Some(2));
    assert!(f.is_focused(200), "Tab cycled to second focusable in layer 2");

    f.begin_frame(&input(true, false, false, false));
    f.register(10);
    f.register(20);
    f.register_layer(100, 2);
    f.register_layer(200, 2);
    f.end_frame(Some(2));
    assert!(f.is_focused(100), "Tab wrapped within layer 2");
}

#[test]
fn tab_without_active_layer_uses_base_order() {
    let mut f = FocusState::new();
    f.focus(10);
    f.begin_frame(&input(true, false, false, false));
    f.register(10);
    f.register(20);
    f.register_layer(100, 2);
    f.register_layer(200, 2);
    f.end_frame(None);
    assert!(f.is_focused(20), "Tab cycled within base order, ignoring layer");
}

#[test]
fn tab_active_layer_with_no_focusables_falls_back_to_base() {
    let mut f = FocusState::new();
    f.focus(10);
    f.begin_frame(&input(true, false, false, false));
    f.register(10);
    f.register(20);
    f.end_frame(Some(99));
    assert!(f.is_focused(20), "falls back to base order when layer has no focusables");
}

#[test]
fn shift_tab_with_active_layer_wraps_backward() {
    let mut f = FocusState::new();
    f.focus(200);
    f.begin_frame(&input(true, true, false, false));
    f.register(999);
    f.register_layer(100, 1);
    f.register_layer(200, 1);
    f.end_frame(Some(1));
    assert!(f.is_focused(100), "Shift+Tab wraps backward within layer 1");
}

#[test]
fn click_in_base_layer_does_not_claim_layer_focus() {
    let mut f = FocusState::new();
    f.focus(100);
    f.begin_frame(&input(false, false, false, true));
    f.register(10);
    f.register_layer(100, 2);
    f.register_layer(200, 2);
    f.end_frame(Some(2));
    assert_eq!(f.focused(), None, "unclaimed click blurs even with active layer");
}

#[test]
fn shift_tab_takes_back_a_tab() {
    let mut f = FocusState::new();
    f.focus(20);
    for shift in [false, true] {
        f.begin_frame(&input(true, shift, false, false));
        f.register(10);
        f.register(20);
        f.register(30);
        f.end_frame(None);
    }
    assert!(f.is_focused(20));
}

#[test]
fn the_ring_is_forgotten_after_a_frame() {
    let mut f = FocusState::new();
    f.begin_frame(&input(false, false, false, false));
    f.register(1);
    f.end_frame(None);
    f.begin_frame(&input(true, false, false, false));
    f.end_frame(None);
    assert_eq!(f.focused(), None, "nothing is left to move to");
}
