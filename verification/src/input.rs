//! One frame's input, as widgets see it.

use crate::geometry::Point;
use crate::geometry::Rect;
use crate::rounding;
use crate::scalar::{whole, Scalar};
use vstd::prelude::*;

verus! {

/// Device-independent navigation intents.
#[derive(Clone, Copy, Debug, PartialEq, Eq, Structural, Hash)]
pub struct NavInput {
    /// Move up.
    pub up: bool,
    /// Move down.
    pub down: bool,
    /// Move left.
    pub left: bool,
    /// Move right.
    pub right: bool,
    /// Focus the next widget.
    pub next: bool,
    /// Focus the previous widget.
    pub prev: bool,
    /// Activate what is focused.
    pub confirm: bool,
    /// Leave or dismiss.
    pub cancel: bool,
}

/// One frame's gamepad buttons.
#[derive(Clone, Copy, Debug, PartialEq, Eq, Structural, Hash)]
pub struct GamepadNav {
    /// D-pad up.
    pub dpad_up: bool,
    /// D-pad down.
    pub dpad_down: bool,
    /// D-pad left.
    pub dpad_left: bool,
    /// D-pad right.
    pub dpad_right: bool,
    /// South face button.
    pub south: bool,
    /// East face button.
    pub east: bool,
    /// Left shoulder.
    pub left_shoulder: bool,
    /// Right shoulder.
    pub right_shoulder: bool,
    /// Left stick up.
    pub stick_up: bool,
    /// Left stick down.
    pub stick_down: bool,
    /// Left stick left.
    pub stick_left: bool,
    /// Left stick right.
    pub stick_right: bool,
}

/// One frame's pointer, keyboard and navigation input.
#[derive(Clone, Debug)]
pub struct InputState {
    /// Pointer position.
    pub mouse_x: Scalar,
    /// Pointer position.
    pub mouse_y: Scalar,
    /// Primary button held.
    pub mouse_down: bool,
    /// Primary button pressed this frame.
    pub mouse_clicked: bool,
    /// Primary button released this frame.
    pub mouse_released: bool,
    /// Primary button held past the hold threshold.
    pub mouse_held: bool,
    /// Primary button double-clicked this frame.
    pub mouse_double_clicked: bool,
    /// Right button held.
    pub mouse_right_down: bool,
    /// Right button pressed this frame.
    pub mouse_right_clicked: bool,
    /// Middle button held.
    pub mouse_middle_down: bool,
    /// Middle button pressed this frame.
    pub mouse_middle_clicked: bool,
    /// A higher layer took the pointer.
    pub mouse_consumed: bool,
    /// Wheel movement, up positive.
    pub scroll_delta: Scalar,
    /// A scroll container took the wheel.
    pub scroll_consumed: bool,
    /// A drag gesture is under way.
    pub is_dragging: bool,
    /// Pointer movement of the drag gesture this frame.
    pub drag_delta: Point,
    /// Shift held.
    pub shift_pressed: bool,
    /// Ctrl held.
    pub ctrl_pressed: bool,
    /// Alt held.
    pub alt_down: bool,
    /// Enter.
    pub enter_pressed: bool,
    /// Backspace.
    pub backspace_pressed: bool,
    /// Escape.
    pub key_escape: bool,
    /// Tab.
    pub key_tab: bool,
    /// Space.
    pub key_space: bool,
    /// Arrow left.
    pub key_left: bool,
    /// Arrow right.
    pub key_right: bool,
    /// Arrow up.
    pub key_up: bool,
    /// Arrow down.
    pub key_down: bool,
    /// Home.
    pub key_home: bool,
    /// End.
    pub key_end: bool,
    /// Delete.
    pub key_delete: bool,
    /// Characters typed this frame.
    pub text_input: String,
    /// Navigation intents.
    pub nav: NavInput,
}

impl NavInput {
    /// No intent.
    pub open spec fn spec_idle() -> NavInput {
        NavInput {
            up: false,
            down: false,
            left: false,
            right: false,
            next: false,
            prev: false,
            confirm: false,
            cancel: false,
        }
    }
}

impl Default for NavInput {
    fn default() -> (r: Self)
        ensures
            r == NavInput::spec_idle(),
    {
        NavInput {
            up: false,
            down: false,
            left: false,
            right: false,
            next: false,
            prev: false,
            confirm: false,
            cancel: false,
        }
    }
}

impl GamepadNav {
    /// No button pressed.
    pub open spec fn spec_idle() -> GamepadNav {
        GamepadNav {
            dpad_up: false,
            dpad_down: false,
            dpad_left: false,
            dpad_right: false,
            south: false,
            east: false,
            left_shoulder: false,
            right_shoulder: false,
            stick_up: false,
            stick_down: false,
            stick_left: false,
            stick_right: false,
        }
    }
}

impl Default for GamepadNav {
    fn default() -> (r: Self)
        ensures
            r == GamepadNav::spec_idle(),
    {
        GamepadNav {
            dpad_up: false,
            dpad_down: false,
            dpad_left: false,
            dpad_right: false,
            south: false,
            east: false,
            left_shoulder: false,
            right_shoulder: false,
            stick_up: false,
            stick_down: false,
            stick_left: false,
            stick_right: false,
        }
    }
}

impl InputState {
    /// Nothing pressed, moved or typed, the pointer at the origin.
    pub open spec fn is_idle(self) -> bool {
        &&& self.mouse_x == whole(0)
        &&& self.mouse_y == whole(0)
        &&& !self.mouse_down
        &&& !self.mouse_clicked
        &&& !self.mouse_released
        &&& !self.mouse_held
        &&& !self.mouse_double_clicked
        &&& !self.mouse_right_down
        &&& !self.mouse_right_clicked
        &&& !self.mouse_middle_down
        &&& !self.mouse_middle_clicked
        &&& !self.mouse_consumed
        &&& self.scroll_delta == whole(0)
        &&& !self.scroll_consumed
        &&& !self.is_dragging
        &&& self.drag_delta == Point::zero()
        &&& !self.shift_pressed
        &&& !self.ctrl_pressed
        &&& !self.alt_down
        &&& !self.enter_pressed
        &&& !self.backspace_pressed
        &&& !self.key_escape
        &&& !self.key_tab
        &&& !self.key_space
        &&& !self.key_left
        &&& !self.key_right
        &&& !self.key_up
        &&& !self.key_down
        &&& !self.key_home
        &&& !self.key_end
        &&& !self.key_delete
        &&& self.text_input@ == Seq::<char>::empty()
        &&& self.nav == NavInput::spec_idle()
    }

    pub open spec fn spec_over(&self, rect: Rect) -> bool {
        rect.contains(self.mouse_x, self.mouse_y) && !self.mouse_consumed
    }

    /// Whether the pointer is over `rect` and no higher layer took it.
    #[verifier::when_used_as_spec(spec_over)]
    pub fn over(&self, rect: Rect) -> (r: bool)
        ensures
            r == self.spec_over(rect),
    {
        rect.contains(self.mouse_x, self.mouse_y) && !self.mouse_consumed
    }
}

impl Default for InputState {
    fn default() -> (r: Self)
        ensures
            r.is_idle(),
    {
        InputState {
            mouse_x: whole(0),
            mouse_y: whole(0),
            mouse_down: false,
            mouse_clicked: false,
            mouse_released: false,
            mouse_held: false,
            mouse_double_clicked: false,
            mouse_right_down: false,
            mouse_right_clicked: false,
            mouse_middle_down: false,
            mouse_middle_clicked: false,
            mouse_consumed: false,
            scroll_delta: whole(0),
            scroll_consumed: false,
            is_dragging: false,
            drag_delta: Point::zero(),
            shift_pressed: false,
            ctrl_pressed: false,
            alt_down: false,
            enter_pressed: false,
            backspace_pressed: false,
            key_escape: false,
            key_tab: false,
            key_space: false,
            key_left: false,
            key_right: false,
            key_up: false,
            key_down: false,
            key_home: false,
            key_end: false,
            key_delete: false,
            text_input: String::new(),
            nav: NavInput::default(),
        }
    }
}

/// The intents the keyboard gives on top of those already there: arrows move,
/// Tab and Shift+Tab change focus, Enter and Space confirm, Escape cancels.
pub open spec fn keyboard_nav(input: InputState) -> NavInput {
    NavInput {
        up: input.nav.up || input.key_up,
        down: input.nav.down || input.key_down,
        left: input.nav.left || input.key_left,
        right: input.nav.right || input.key_right,
        next: input.nav.next || (input.key_tab && !input.shift_pressed),
        prev: input.nav.prev || (input.key_tab && input.shift_pressed),
        confirm: input.nav.confirm || input.enter_pressed || input.key_space,
        cancel: input.nav.cancel || input.key_escape,
    }
}

/// Fill the navigation intents from the keyboard.
pub fn map_keyboard(input: &mut InputState)
    ensures
        *final(input) == (InputState { nav: keyboard_nav(*old(input)), ..*old(input) }),
{
    input.nav = NavInput {
        up: input.nav.up || input.key_up,
        down: input.nav.down || input.key_down,
        left: input.nav.left || input.key_left,
        right: input.nav.right || input.key_right,
        next: input.nav.next || (input.key_tab && !input.shift_pressed),
        prev: input.nav.prev || (input.key_tab && input.shift_pressed),
        confirm: input.nav.confirm || input.enter_pressed || input.key_space,
        cancel: input.nav.cancel || input.key_escape,
    };
}

/// Each key steers its own way, and nothing else steers there: an arrow the way it
/// points, Tab onwards and with Shift back, Enter and Space confirm, Escape cancels.
pub proof fn law_keys_steer_their_way(input: InputState)
    requires
        input.nav == NavInput::spec_idle(),
    ensures
        keyboard_nav(input).up == input.key_up,
        keyboard_nav(input).down == input.key_down,
        keyboard_nav(input).left == input.key_left,
        keyboard_nav(input).right == input.key_right,
        keyboard_nav(input).next || keyboard_nav(input).prev <==> input.key_tab,
        keyboard_nav(input).prev ==> input.shift_pressed,
        keyboard_nav(input).next ==> !input.shift_pressed,
        keyboard_nav(input).confirm == (input.enter_pressed || input.key_space),
        keyboard_nav(input).cancel == input.key_escape,
{
}

/// What another device steers is kept, and looking at the keys again changes nothing.
pub proof fn law_keyboard_adds_to_what_is_steered(input: InputState)
    ensures
        input.nav.up ==> keyboard_nav(input).up,
        input.nav.down ==> keyboard_nav(input).down,
        input.nav.left ==> keyboard_nav(input).left,
        input.nav.right ==> keyboard_nav(input).right,
        input.nav.next ==> keyboard_nav(input).next,
        input.nav.prev ==> keyboard_nav(input).prev,
        input.nav.confirm ==> keyboard_nav(input).confirm,
        input.nav.cancel ==> keyboard_nav(input).cancel,
        keyboard_nav((InputState { nav: keyboard_nav(input), ..input })) == keyboard_nav(input),
{
}

/// A pointer that a higher layer took is over nothing; any other is over a rectangle
/// exactly where it lies within it.
pub proof fn law_pointer_is_over_what_holds_it(input: &InputState, rect: Rect, x: int, y: int, w: int, h: int)
    requires
        crate::geometry::in_steps(rect, x, y, w, h),
        input.mouse_x.is_finite(),
        input.mouse_y.is_finite(),
    ensures
        input.mouse_consumed ==> !input.over(rect),
        !input.mouse_consumed ==> input.over(rect) == (x * rounding::step() <= input.mouse_x.val() < (x
            + w) * rounding::step() && y * rounding::step() <= input.mouse_y.val() < (y + h)
            * rounding::step()),
{
    crate::geometry::law_contains_in_steps(rect, x, y, w, h, input.mouse_x, input.mouse_y);
}

} // verus!
