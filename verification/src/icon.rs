//! Vector icons, fitted into a rectangle.

use crate::draw_list::{DrawList, IconGlyph};
use crate::geometry::{Color, Rect};
use crate::scalar::whole;
use vstd::prelude::*;

verus! {

/// A vector icon.
#[derive(Clone, Copy, Debug, PartialEq, Eq, Structural)]
pub struct Icon {
    /// Which icon; none where its font lacks it.
    pub glyph: Option<IconGlyph>,
    /// Multiplied with the icon.
    pub tint: Color,
}

impl Icon {
    /// An icon of a set, `glyph` where the set has it, in its own color.
    pub fn new(glyph: Option<IconGlyph>) -> (r: Self)
        ensures
            r == (Icon { glyph, tint: Color::white(whole(1)) }),
    {
        Icon { glyph, tint: Color::white(whole(1)) }
    }

    /// A known icon in its own color.
    pub fn from_glyph(glyph: IconGlyph) -> (r: Self)
        ensures
            r == (Icon { glyph: Some(glyph), tint: Color::white(whole(1)) }),
    {
        Icon { glyph: Some(glyph), tint: Color::white(whole(1)) }
    }

    /// With this tint.
    pub fn tint(self, tint: Color) -> (r: Self)
        ensures
            r == (Icon { tint, ..self }),
    {
        Icon { glyph: self.glyph, tint }
    }

    /// What drawing the icon into `rect` adds.
    pub open spec fn drawn(&self, l: crate::draw_list::DrawState, rect: Rect) -> crate::draw_list::DrawState {
        if self.glyph is None || rect.is_empty() {
            l
        } else {
            l.scoped("Icon"@, rect).icon_msdf(rect, self.glyph->0, self.tint).scope_closed()
        }
    }

    /// Draw the icon into `rect`. One that its font lacks, or without extent,
    /// draws nothing.
    pub fn draw(&self, rect: Rect, list: &mut DrawList)
        ensures
            final(list)@ == self.drawn(old(list)@, rect),
    {
        let glyph: IconGlyph = match self.glyph {
            Some(glyph) => glyph,
            None => {
                return;
            },
        };
        if rect.is_empty() {
            return;
        }
        list.push_debug_scope_rect("Icon", rect);
        list.icon_msdf(rect, glyph, self.tint);
        list.pop_debug_scope();
    }
}

} // verus!
