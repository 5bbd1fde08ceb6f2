//! Hit zones: sensors that report the pointer and paint nothing.
//!
//! A zone lies over something this library did not draw and tells whether the
//! pointer is over it and what it did there.

use crate::geometry::{Point, Rect};
use crate::input::InputState;
use crate::rounding;
use crate::scalar::{whole, Scalar};
use vstd::prelude::*;

verus! {

/// What the pointer did in a zone's frame.
#[derive(Clone, Copy, Debug, PartialEq, Eq, Structural)]
pub struct HitZoneOutput {
    /// The pointer is over the zone.
    pub hovered: bool,
    /// The primary button is down over it.
    pub pressed: bool,
    /// The primary button was clicked on it.
    pub clicked: bool,
    /// The primary button was released over it.
    pub released: bool,
    /// The right button was clicked on it.
    pub right_clicked: bool,
    /// The middle button was clicked on it.
    pub middle_clicked: bool,
    /// The primary button was double-clicked on it.
    pub double_clicked: bool,
    /// The primary button has been held over it.
    pub held: bool,
    /// Wheel movement over it.
    pub scroll_delta: Scalar,
    /// The pointer relative to the zone's corner, while it is over the zone.
    pub local_pos: Option<Point>,
}

impl HitZoneOutput {
    pub open spec fn spec_idle() -> HitZoneOutput {
        HitZoneOutput {
            hovered: false,
            pressed: false,
            clicked: false,
            released: false,
            right_clicked: false,
            middle_clicked: false,
            double_clicked: false,
            held: false,
            scroll_delta: whole(0),
            local_pos: None,
        }
    }

    /// Nothing happened.
    #[verifier::when_used_as_spec(spec_idle)]
    pub fn idle() -> (r: Self)
        ensures
            r == Self::spec_idle(),
    {
        HitZoneOutput {
            hovered: false,
            pressed: false,
            clicked: false,
            released: false,
            right_clicked: false,
            middle_clicked: false,
            double_clicked: false,
            held: false,
            scroll_delta: whole(0),
            local_pos: None,
        }
    }

    pub open spec fn spec_any_click(&self) -> bool {
        self.clicked || self.right_clicked || self.middle_clicked
    }

    /// Whether any button was clicked on the zone.
    #[verifier::when_used_as_spec(spec_any_click)]
    pub fn any_click(&self) -> (r: bool)
        ensures
            r == self.spec_any_click(),
    {
        self.clicked || self.right_clicked || self.middle_clicked
    }
}

/// A sensor over a part of the screen.
#[derive(Clone, Copy, Debug, PartialEq, Eq, Structural)]
pub struct HitZone {
    /// Whether it senses at all.
    pub enabled: bool,
}

impl Default for HitZone {
    fn default() -> (r: Self)
        ensures
            r.enabled,
    {
        Self::new()
    }
}

impl HitZone {
    /// An enabled zone.
    pub fn new() -> (r: Self)
        ensures
            r.enabled,
    {
        HitZone { enabled: true }
    }

    /// Enabled or not; a disabled zone senses nothing.
    pub fn enabled(self, enabled: bool) -> (r: Self)
        ensures
            r == (HitZone { enabled }),
    {
        HitZone { enabled }
    }

    /// Whether the zone senses the pointer.
    pub open spec fn senses(&self, rect: Rect, input: &InputState) -> bool {
        self.enabled && !rect.is_empty() && input.over(rect)
    }

    pub open spec fn spec_test(&self, rect: Rect, input: &InputState) -> HitZoneOutput {
        if self.senses(rect, input) {
            HitZoneOutput {
                hovered: true,
                pressed: input.mouse_down,
                clicked: input.mouse_clicked,
                released: input.mouse_released,
                right_clicked: input.mouse_right_clicked,
                middle_clicked: input.mouse_middle_clicked,
                double_clicked: input.mouse_double_clicked,
                held: input.mouse_held,
                scroll_delta: if input.scroll_consumed {
                    whole(0)
                } else {
                    input.scroll_delta
                },
                local_pos: Some(
                    Point { x: input.mouse_x.minus(rect.x), y: input.mouse_y.minus(rect.y) },
                ),
            }
        } else {
            HitZoneOutput::idle()
        }
    }

    /// What the pointer did over `rect`. The wheel counts where no scroll view
    /// took it.
    #[verifier::when_used_as_spec(spec_test)]
    pub fn test(&self, rect: Rect, input: &InputState) -> (r: HitZoneOutput)
        ensures
            r == self.spec_test(rect, input),
    {
        if !self.enabled || rect.is_empty() || !input.over(rect) {
            return HitZoneOutput::idle();
        }
        HitZoneOutput {
            hovered: true,
            pressed: input.mouse_down,
            clicked: input.mouse_clicked,
            released: input.mouse_released,
            right_clicked: input.mouse_right_clicked,
            middle_clicked: input.mouse_middle_clicked,
            double_clicked: input.mouse_double_clicked,
            held: input.mouse_held,
            scroll_delta: if input.scroll_consumed {
                whole(0)
            } else {
                input.scroll_delta
            },
            local_pos: Some(
                Point { x: input.mouse_x.minus(rect.x), y: input.mouse_y.minus(rect.y) },
            ),
        }
    }
}

/// A zone that is disabled, that has no extent, that the pointer is not over, or
/// whose pointer a higher layer took, reports nothing.
pub proof fn law_inert_zone_is_idle(zone: HitZone, rect: Rect, input: &InputState)
    requires
        !zone.enabled || rect.is_empty() || input.mouse_consumed || !rect.contains(
            input.mouse_x,
            input.mouse_y,
        ),
    ensures
        zone.test(rect, input) == HitZoneOutput::idle(),
{
}

/// A zone has a position exactly while the pointer is over it, and without it
/// no event.
pub proof fn law_events_need_the_pointer(zone: HitZone, rect: Rect, input: &InputState)
    ensures
        zone.test(rect, input).local_pos is Some <==> zone.test(rect, input).hovered,
        zone.test(rect, input).any_click() ==> zone.test(rect, input).hovered,
        !zone.test(rect, input).hovered ==> zone.test(rect, input) == HitZoneOutput::idle(),
{
}

/// A zone under the pointer reports what the pointer does, each thing as itself, the
/// wheel where nobody took it, and the place of the pointer from the zone's corner.
pub proof fn law_zone_reports_the_pointer(zone: HitZone, rect: Rect, input: &InputState, x: int, y: int, px: int, py: int)
    requires
        zone.enabled,
        !rect.is_empty(),
        input.over(rect),
        rounding::in_steps(rect.x, x),
        rounding::in_steps(rect.y, y),
        rounding::in_steps(input.mouse_x, px),
        rounding::in_steps(input.mouse_y, py),
        rounding::size(px - x) <= 0x100_0000,
        rounding::size(py - y) <= 0x100_0000,
    ensures
        ({
            let o = zone.test(rect, input);
            &&& o.hovered
            &&& o.pressed == input.mouse_down && o.held == input.mouse_held
            &&& o.clicked == input.mouse_clicked && o.released == input.mouse_released
            &&& o.right_clicked == input.mouse_right_clicked
            &&& o.middle_clicked == input.mouse_middle_clicked
            &&& o.double_clicked == input.mouse_double_clicked
            &&& !input.scroll_consumed ==> o.scroll_delta == input.scroll_delta
            &&& input.scroll_consumed ==> o.scroll_delta.val() == 0
            &&& o.local_pos is Some
            &&& rounding::in_steps(o.local_pos->0.x, px - x)
            &&& rounding::in_steps(o.local_pos->0.y, py - y)
            &&& o.any_click() == (input.mouse_clicked || input.mouse_right_clicked
                || input.mouse_middle_clicked)
        }),
{
    rounding::law_zero_and_one();
    rounding::law_minus_steps(input.mouse_x, rect.x, px, x);
    rounding::law_minus_steps(input.mouse_y, rect.y, py, y);
}

} // verus!
