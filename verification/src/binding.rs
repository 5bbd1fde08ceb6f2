//! Input bindings: the inputs a settings form can capture and rebind.

use crate::input::{GamepadNav, InputState};
use crate::text::{ascii_upper, has_char};
use vstd::prelude::*;
use vstd::string::*;

verus! {

/// One bindable input.
#[derive(Clone, Copy, Debug, PartialEq, Eq, Structural, Hash)]
pub enum Binding {
    /// A named keyboard key.
    Key(KeyCode),
    /// A character key with modifiers.
    Char {
        /// The typed character.
        c: char,
        /// Ctrl held.
        ctrl: bool,
        /// Shift held.
        shift: bool,
        /// Alt held.
        alt: bool,
    },
    /// Left mouse button.
    MouseLeft,
    /// Middle mouse button.
    MouseMiddle,
    /// Right mouse button.
    MouseRight,
    /// A gamepad control.
    Pad(PadButton),
}

/// The named keyboard keys.
#[derive(Clone, Copy, Debug, PartialEq, Eq, Structural, Hash)]
pub enum KeyCode {
    /// Esc.
    Escape,
    /// Tab.
    Tab,
    /// Space.
    Space,
    /// Enter.
    Enter,
    /// Backspace.
    Backspace,
    /// Arrow left.
    Left,
    /// Arrow right.
    Right,
    /// Arrow up.
    Up,
    /// Arrow down.
    Down,
    /// Home.
    Home,
    /// End.
    End,
    /// Del.
    Delete,
}

/// The gamepad buttons.
#[derive(Clone, Copy, Debug, PartialEq, Eq, Structural, Hash)]
pub enum PadButton {
    /// D-pad up.
    DpadUp,
    /// D-pad down.
    DpadDown,
    /// D-pad left.
    DpadLeft,
    /// D-pad right.
    DpadRight,
    /// South face button.
    South,
    /// East face button.
    East,
    /// Left shoulder.
    LeftShoulder,
    /// Right shoulder.
    RightShoulder,
    /// Left stick up.
    StickUp,
    /// Left stick down.
    StickDown,
    /// Left stick left.
    StickLeft,
    /// Left stick right.
    StickRight,
}

impl KeyCode {
    /// The label's characters.
    pub open spec fn label_chars(self) -> Seq<char> {
        match self {
            KeyCode::Escape => seq!['E', 's', 'c'],
            KeyCode::Tab => seq!['T', 'a', 'b'],
            KeyCode::Space => seq!['S', 'p', 'a', 'c', 'e'],
            KeyCode::Enter => seq!['E', 'n', 't', 'e', 'r'],
            KeyCode::Backspace => seq!['B', 'k', 's', 'p'],
            KeyCode::Left => seq!['\u{2190}'],
            KeyCode::Right => seq!['\u{2192}'],
            KeyCode::Up => seq!['\u{2191}'],
            KeyCode::Down => seq!['\u{2193}'],
            KeyCode::Home => seq!['H', 'o', 'm', 'e'],
            KeyCode::End => seq!['E', 'n', 'd'],
            KeyCode::Delete => seq!['D', 'e', 'l'],
        }
    }

    /// Short human label.
    pub fn label(self) -> (r: &'static str)
        ensures
            r@ == self.label_chars(),
    {
        proof {
            reveal_strlit("Esc");
            reveal_strlit("Tab");
            reveal_strlit("Space");
            reveal_strlit("Enter");
            reveal_strlit("Bksp");
            reveal_strlit("\u{2190}");
            reveal_strlit("\u{2192}");
            reveal_strlit("\u{2191}");
            reveal_strlit("\u{2193}");
            reveal_strlit("Home");
            reveal_strlit("End");
            reveal_strlit("Del");
        }
        match self {
            KeyCode::Escape => "Esc",
            KeyCode::Tab => "Tab",
            KeyCode::Space => "Space",
            KeyCode::Enter => "Enter",
            KeyCode::Backspace => "Bksp",
            KeyCode::Left => "\u{2190}",
            KeyCode::Right => "\u{2192}",
            KeyCode::Up => "\u{2191}",
            KeyCode::Down => "\u{2193}",
            KeyCode::Home => "Home",
            KeyCode::End => "End",
            KeyCode::Delete => "Del",
        }
    }

    pub open spec fn spec_pressed(self, input: &InputState) -> bool {
        match self {
            KeyCode::Escape => input.key_escape,
            KeyCode::Tab => input.key_tab,
            KeyCode::Space => input.key_space,
            KeyCode::Enter => input.enter_pressed,
            KeyCode::Backspace => input.backspace_pressed,
            KeyCode::Left => input.key_left,
            KeyCode::Right => input.key_right,
            KeyCode::Up => input.key_up,
            KeyCode::Down => input.key_down,
            KeyCode::Home => input.key_home,
            KeyCode::End => input.key_end,
            KeyCode::Delete => input.key_delete,
        }
    }

    /// This key's field of `input`.
    #[verifier::when_used_as_spec(spec_pressed)]
    pub fn pressed(self, input: &InputState) -> (r: bool)
        ensures
            r == self.spec_pressed(input),
    {
        match self {
            KeyCode::Escape => input.key_escape,
            KeyCode::Tab => input.key_tab,
            KeyCode::Space => input.key_space,
            KeyCode::Enter => input.enter_pressed,
            KeyCode::Backspace => input.backspace_pressed,
            KeyCode::Left => input.key_left,
            KeyCode::Right => input.key_right,
            KeyCode::Up => input.key_up,
            KeyCode::Down => input.key_down,
            KeyCode::Home => input.key_home,
            KeyCode::End => input.key_end,
            KeyCode::Delete => input.key_delete,
        }
    }
}

impl PadButton {
    /// The label's characters.
    pub open spec fn label_chars(self) -> Seq<char> {
        match self {
            PadButton::DpadUp => seq!['D', '-', 'U', 'p'],
            PadButton::DpadDown => seq!['D', '-', 'D', 'o', 'w', 'n'],
            PadButton::DpadLeft => seq!['D', '-', 'L', 'e', 'f', 't'],
            PadButton::DpadRight => seq!['D', '-', 'R', 'i', 'g', 'h', 't'],
            PadButton::South => seq!['A'],
            PadButton::East => seq!['B'],
            PadButton::LeftShoulder => seq!['L', 'B'],
            PadButton::RightShoulder => seq!['R', 'B'],
            PadButton::StickUp => seq!['S', 't', 'i', 'c', 'k', '\u{2191}'],
            PadButton::StickDown => seq!['S', 't', 'i', 'c', 'k', '\u{2193}'],
            PadButton::StickLeft => seq!['S', 't', 'i', 'c', 'k', '\u{2190}'],
            PadButton::StickRight => seq!['S', 't', 'i', 'c', 'k', '\u{2192}'],
        }
    }

    /// Short human label.
    pub fn label(self) -> (r: &'static str)
        ensures
            r@ == self.label_chars(),
    {
        proof {
            reveal_strlit("D-Up");
            reveal_strlit("D-Down");
            reveal_strlit("D-Left");
            reveal_strlit("D-Right");
            reveal_strlit("A");
            reveal_strlit("B");
            reveal_strlit("LB");
            reveal_strlit("RB");
            reveal_strlit("Stick\u{2191}");
            reveal_strlit("Stick\u{2193}");
            reveal_strlit("Stick\u{2190}");
            reveal_strlit("Stick\u{2192}");
        }
        match self {
            PadButton::DpadUp => "D-Up",
            PadButton::DpadDown => "D-Down",
            PadButton::DpadLeft => "D-Left",
            PadButton::DpadRight => "D-Right",
            PadButton::South => "A",
            PadButton::East => "B",
            PadButton::LeftShoulder => "LB",
            PadButton::RightShoulder => "RB",
            PadButton::StickUp => "Stick\u{2191}",
            PadButton::StickDown => "Stick\u{2193}",
            PadButton::StickLeft => "Stick\u{2190}",
            PadButton::StickRight => "Stick\u{2192}",
        }
    }

    pub open spec fn spec_in_pad(self, pad: &GamepadNav) -> bool {
        match self {
            PadButton::DpadUp => pad.dpad_up,
            PadButton::DpadDown => pad.dpad_down,
            PadButton::DpadLeft => pad.dpad_left,
            PadButton::DpadRight => pad.dpad_right,
            PadButton::South => pad.south,
            PadButton::East => pad.east,
            PadButton::LeftShoulder => pad.left_shoulder,
            PadButton::RightShoulder => pad.right_shoulder,
            PadButton::StickUp => pad.stick_up,
            PadButton::StickDown => pad.stick_down,
            PadButton::StickLeft => pad.stick_left,
            PadButton::StickRight => pad.stick_right,
        }
    }

    /// This button's field of a gamepad snapshot.
    #[verifier::when_used_as_spec(spec_in_pad)]
    pub fn in_pad(self, pad: &GamepadNav) -> (r: bool)
        ensures
            r == self.spec_in_pad(pad),
    {
        match self {
            PadButton::DpadUp => pad.dpad_up,
            PadButton::DpadDown => pad.dpad_down,
            PadButton::DpadLeft => pad.dpad_left,
            PadButton::DpadRight => pad.dpad_right,
            PadButton::South => pad.south,
            PadButton::East => pad.east,
            PadButton::LeftShoulder => pad.left_shoulder,
            PadButton::RightShoulder => pad.right_shoulder,
            PadButton::StickUp => pad.stick_up,
            PadButton::StickDown => pad.stick_down,
            PadButton::StickLeft => pad.stick_left,
            PadButton::StickRight => pad.stick_right,
        }
    }
}

/// `part` where `on`, else nothing.
pub open spec fn part(on: bool, chars: Seq<char>) -> Seq<char> {
    if on {
        chars
    } else {
        Seq::empty()
    }
}

impl Binding {
    /// The label's characters: the modifiers in the order Ctrl, Alt, Shift, then
    /// the key.
    pub open spec fn label_chars(self) -> Seq<char> {
        match self {
            Binding::Key(k) => k.label_chars(),
            Binding::Char { c, ctrl, shift, alt } => part(ctrl, seq!['C', 't', 'r', 'l', '+']) + part(
                alt,
                seq!['A', 'l', 't', '+'],
            ) + part(shift, seq!['S', 'h', 'i', 'f', 't', '+']) + seq![ascii_upper(c)],
            Binding::MouseLeft => seq!['M', 'o', 'u', 's', 'e', '1'],
            Binding::MouseMiddle => seq!['M', 'o', 'u', 's', 'e', '3'],
            Binding::MouseRight => seq!['M', 'o', 'u', 's', 'e', '2'],
            Binding::Pad(p) => p.label_chars(),
        }
    }

    /// Label like "Ctrl+Shift+S". Never empty.
    pub fn label(&self) -> (r: String)
        ensures
            r@ == self.label_chars(),
            r@.len() > 0,
    {
        proof {
            reveal_strlit("Ctrl+");
            reveal_strlit("Alt+");
            reveal_strlit("Shift+");
            reveal_strlit("Mouse1");
            reveal_strlit("Mouse2");
            reveal_strlit("Mouse3");
        }
        match *self {
            Binding::Key(k) => k.label().to_owned(),
            Binding::Char { c, ctrl, shift, alt } => {
                let mut s = String::new();
                if ctrl {
                    s.append("Ctrl+");
                }
                if alt {
                    s.append("Alt+");
                }
                if shift {
                    s.append("Shift+");
                }
                s.push(ascii_upper(c));
                s
            },
            Binding::MouseLeft => "Mouse1".to_owned(),
            Binding::MouseMiddle => "Mouse3".to_owned(),
            Binding::MouseRight => "Mouse2".to_owned(),
            Binding::Pad(p) => p.label().to_owned(),
        }
    }

    /// Whether `input` (and the gamepad snapshot, where there is one) satisfies
    /// the binding.
    pub open spec fn matches_input(self, input: &InputState, pad: Option<&GamepadNav>) -> bool {
        match self {
            Binding::Key(k) => k.pressed(input),
            Binding::Char { c, ctrl, shift, alt } => {
                &&& crate::text::holds_char(input.text_input@, c)
                &&& input.ctrl_pressed == ctrl
                &&& input.shift_pressed == shift
                &&& input.alt_down == alt
            },
            Binding::MouseLeft => input.mouse_down,
            Binding::MouseMiddle => input.mouse_middle_down,
            Binding::MouseRight => input.mouse_right_down,
            Binding::Pad(p) => pad is Some && p.in_pad(pad->0),
        }
    }

    /// Whether `input` satisfies the binding this frame.
    pub fn is_down(&self, input: &InputState, pad: Option<&GamepadNav>) -> (r: bool)
        ensures
            r == self.matches_input(input, pad),
    {
        match *self {
            Binding::Key(k) => k.pressed(input),
            Binding::Char { c, ctrl, shift, alt } => has_char(input.text_input.as_str(), c)
                && input.ctrl_pressed == ctrl && input.shift_pressed == shift && input.alt_down
                == alt,
            Binding::MouseLeft => input.mouse_down,
            Binding::MouseMiddle => input.mouse_middle_down,
            Binding::MouseRight => input.mouse_right_down,
            Binding::Pad(p) => match pad {
                Some(pad) => p.in_pad(pad),
                None => false,
            },
        }
    }
}

/// A chord is exact: with other modifiers held than the binding's, it does not
/// match.
pub proof fn law_chord_is_exact(
    c: char,
    ctrl: bool,
    shift: bool,
    alt: bool,
    input: &InputState,
    pad: Option<&GamepadNav>,
)
    requires
        input.ctrl_pressed != ctrl || input.shift_pressed != shift || input.alt_down != alt,
    ensures
        !(Binding::Char { c, ctrl, shift, alt }).matches_input(input, pad),
{
}

/// A binding to a letter does not depend on the letter's case.
pub proof fn law_letter_case_is_ignored(
    ctrl: bool,
    shift: bool,
    alt: bool,
    c: char,
    input: &InputState,
    pad: Option<&GamepadNav>,
)
    ensures
        (Binding::Char { c, ctrl, shift, alt }).matches_input(input, pad) == (Binding::Char {
            c: ascii_upper(c),
            ctrl,
            shift,
            alt,
        }).matches_input(input, pad),
{
    assert(ascii_upper(ascii_upper(c)) == ascii_upper(c));
}

/// Each key is pressed by itself.
pub proof fn law_keys_are_themselves(input: &InputState)
    ensures
        KeyCode::Escape.pressed(input) == input.key_escape,
        KeyCode::Tab.pressed(input) == input.key_tab,
        KeyCode::Space.pressed(input) == input.key_space,
        KeyCode::Enter.pressed(input) == input.enter_pressed,
        KeyCode::Backspace.pressed(input) == input.backspace_pressed,
        KeyCode::Left.pressed(input) == input.key_left,
        KeyCode::Right.pressed(input) == input.key_right,
        KeyCode::Up.pressed(input) == input.key_up,
        KeyCode::Down.pressed(input) == input.key_down,
        KeyCode::Home.pressed(input) == input.key_home,
        KeyCode::End.pressed(input) == input.key_end,
        KeyCode::Delete.pressed(input) == input.key_delete,
{
}

/// Each button of the pad is held by itself, and by no key or other button.
pub proof fn law_pad_buttons_are_themselves(pad: &GamepadNav, input: &InputState)
    ensures
        Binding::Pad(PadButton::DpadUp).matches_input(input, Some(pad)) == pad.dpad_up,
        Binding::Pad(PadButton::DpadDown).matches_input(input, Some(pad)) == pad.dpad_down,
        Binding::Pad(PadButton::DpadLeft).matches_input(input, Some(pad)) == pad.dpad_left,
        Binding::Pad(PadButton::DpadRight).matches_input(input, Some(pad)) == pad.dpad_right,
        Binding::Pad(PadButton::South).matches_input(input, Some(pad)) == pad.south,
        Binding::Pad(PadButton::East).matches_input(input, Some(pad)) == pad.east,
        Binding::Pad(PadButton::LeftShoulder).matches_input(input, Some(pad)) == pad.left_shoulder,
        Binding::Pad(PadButton::RightShoulder).matches_input(input, Some(pad)) == pad.right_shoulder,
        Binding::Pad(PadButton::StickUp).matches_input(input, Some(pad)) == pad.stick_up,
        Binding::Pad(PadButton::StickDown).matches_input(input, Some(pad)) == pad.stick_down,
        Binding::Pad(PadButton::StickLeft).matches_input(input, Some(pad)) == pad.stick_left,
        Binding::Pad(PadButton::StickRight).matches_input(input, Some(pad)) == pad.stick_right,
        forall|b: PadButton| !#[trigger] Binding::Pad(b).matches_input(input, None),
{
}

/// The buttons of the mouse are held each by itself, and a character typed with exactly
/// the binding's modifiers matches.
pub proof fn law_buttons_and_characters_match(input: &InputState, pad: Option<&GamepadNav>, i: int)
    requires
        0 <= i < input.text_input@.len(),
    ensures
        Binding::MouseLeft.matches_input(input, pad) == input.mouse_down,
        Binding::MouseMiddle.matches_input(input, pad) == input.mouse_middle_down,
        Binding::MouseRight.matches_input(input, pad) == input.mouse_right_down,
        (Binding::Char {
            c: input.text_input@[i],
            ctrl: input.ctrl_pressed,
            shift: input.shift_pressed,
            alt: input.alt_down,
        }).matches_input(input, pad),
{
}

} // verus!
