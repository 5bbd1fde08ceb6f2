//! Groups: panels with a title bar.

use crate::context::vcentered;
use crate::draw_list::DrawList;
use crate::geometry::{Color, Point, Rect};
use crate::rounding;
use crate::scalar::{ratio, whole, Scalar};
use crate::style::{StyleKey, StyleResolver};
use vstd::prelude::*;

verus! {

/// A panel: its face and its border.
#[verifier::opaque]
pub open spec fn panel_painted(
    l: crate::draw_list::DrawState,
    s: &StyleResolver,
    rect: Rect,
) -> crate::draw_list::DrawState {
    l.quad(rect, s.color(StyleKey::Panel)).rect_outline(
        rect,
        s.scalar(StyleKey::BorderWidth),
        s.color(StyleKey::PanelBorder),
    )
}

/// Draw a panel.
pub fn draw_panel(list: &mut DrawList, s: &StyleResolver, rect: Rect)
    ensures
        final(list)@ == panel_painted(old(list)@, s, rect),
{
    proof {
        reveal(panel_painted);
    }
    list.quad(rect, s.color(StyleKey::Panel));
    list.rect_outline(rect, s.scalar(StyleKey::BorderWidth), s.color(StyleKey::PanelBorder));
}

/// A panel with a title bar.
pub struct Group<'a> {
    /// The title.
    pub title: &'a str,
    /// The room around the content, the style's where there is none.
    pub padding: Option<Scalar>,
}

impl<'a> Group<'a> {
    /// A group with this title.
    pub fn new(title: &'a str) -> (r: Self)
        ensures
            r == (Group { title, padding: None }),
    {
        Group { title, padding: None }
    }

    /// With this room around the content, none where it is negative.
    pub fn with_padding(self, padding: Scalar) -> (r: Self)
        ensures
            r == (Group { padding: Some(padding.at_least(whole(0))), ..self }),
    {
        Group { title: self.title, padding: Some(padding.at_least(whole(0))) }
    }

    pub open spec fn spec_header_height(pad: Scalar, title_size: Scalar) -> Scalar {
        title_size.plus(whole(2).times(pad))
    }

    /// The height of the title bar.
    #[verifier::when_used_as_spec(spec_header_height)]
    pub fn header_height(pad: Scalar, title_size: Scalar) -> (r: Scalar)
        ensures
            r == Self::spec_header_height(pad, title_size),
    {
        title_size.plus(whole(2).times(pad))
    }

    pub open spec fn spec_pad(&self, s: &StyleResolver) -> Scalar {
        match self.padding {
            Some(pad) => pad,
            None => s.scalar(StyleKey::Padding),
        }
    }

    /// The room around the content.
    #[verifier::when_used_as_spec(spec_pad)]
    pub fn pad(&self, s: &StyleResolver) -> (r: Scalar)
        ensures
            r == self.spec_pad(s),
    {
        match self.padding {
            Some(pad) => pad,
            None => s.scalar(StyleKey::Padding),
        }
    }

    pub open spec fn spec_content_rect(&self, rect: Rect, s: &StyleResolver) -> Rect {
        let pad = self.pad(s);
        let header = Self::header_height(pad, s.scalar(StyleKey::FontSize));
        Rect {
            x: rect.x.plus(pad),
            y: rect.y.plus(header).plus(pad),
            width: rect.width.minus(whole(2).times(pad)).at_least(whole(0)),
            height: rect.height.minus(header).minus(whole(2).times(pad)).at_least(whole(0)),
        }
    }

    /// Where the content lies: under the title bar, inset on every side.
    #[verifier::when_used_as_spec(spec_content_rect)]
    pub fn content_rect(&self, rect: Rect, s: &StyleResolver) -> (r: Rect)
        ensures
            r == self.spec_content_rect(rect, s),
    {
        let pad = self.pad(s);
        let header = Self::header_height(pad, s.scalar(StyleKey::FontSize));
        Rect {
            x: rect.x.plus(pad),
            y: rect.y.plus(header).plus(pad),
            width: rect.width.minus(whole(2).times(pad)).at_least(whole(0)),
            height: rect.height.minus(header).minus(whole(2).times(pad)).at_least(whole(0)),
        }
    }

    /// The title bar within the border, and the line under it, where there is
    /// room for them.
    #[verifier::opaque]
    pub open spec fn header_painted(
        l: crate::draw_list::DrawState,
        s: &StyleResolver,
        rect: Rect,
        header: Scalar,
    ) -> crate::draw_list::DrawState {
        let border = s.scalar(StyleKey::BorderWidth).at_least(whole(1));
        let x = rect.x.plus(border);
        let width = rect.width.minus(whole(2).times(border)).at_least(whole(0));
        if whole(0).lt(width) && border.lt(header) {
            l.quad(
                Rect { x, y: rect.y.plus(border), width, height: header.minus(border) },
                Color::white(ratio(5, 100)),
            ).quad(
                Rect { x, y: rect.y.plus(header), width, height: border },
                s.color(StyleKey::PanelBorder),
            )
        } else {
            l
        }
    }

    fn paint_header(list: &mut DrawList, s: &StyleResolver, rect: Rect, header: Scalar)
        ensures
            final(list)@ == Self::header_painted(old(list)@, s, rect, header),
    {
        proof {
            reveal(Group::header_painted);
        }
        let border = s.scalar(StyleKey::BorderWidth).at_least(whole(1));
        let x = rect.x.plus(border);
        let width = rect.width.minus(whole(2).times(border)).at_least(whole(0));
        if whole(0).lt(width) && border.lt(header) {
            list.quad(
                Rect { x, y: rect.y.plus(border), width, height: header.minus(border) },
                Color::white(ratio(5, 100)),
            );
            list.quad(
                Rect { x, y: rect.y.plus(header), width, height: border },
                s.color(StyleKey::PanelBorder),
            );
        }
    }

    /// What drawing the group adds: its panel, its title bar and its title.
    pub open spec fn drawn(
        &self,
        l: crate::draw_list::DrawState,
        s: &StyleResolver,
        rect: Rect,
        center: Scalar,
    ) -> crate::draw_list::DrawState {
        let size = s.scalar(StyleKey::FontSize);
        let header = Self::header_height(self.pad(s), size);
        Self::header_painted(panel_painted(l, s, rect), s, rect, header).written(
            self.title@,
            Point { x: rect.x.plus(self.pad(s)), y: vcentered(rect.y, header, size, center) },
            size,
            s.color(StyleKey::TextHighlight),
            s.font,
        )
    }

    /// Draw the group; gives where its content lies. `center` is where the
    /// title's visual center lies.
    pub fn draw(&self, rect: Rect, center: Scalar, list: &mut DrawList, s: &StyleResolver) -> (r: Rect)
        ensures
            r == self.content_rect(rect, s),
            final(list)@ == self.drawn(old(list)@, s, rect, center),
    {
        let pad = self.pad(s);
        let size = s.scalar(StyleKey::FontSize);
        let header = Self::header_height(pad, size);
        draw_panel(list, s, rect);
        Self::paint_header(list, s, rect, header);
        list.write(
            self.title,
            Point { x: rect.x.plus(pad), y: vcentered(rect.y, header, size, center) },
            size,
            s.color(StyleKey::TextHighlight),
            s.font,
        );
        self.content_rect(rect, s)
    }
}

/// The content never has a negative extent, however small the group.
pub proof fn law_content_has_no_negative_extent(group: Group, rect: Rect, s: &StyleResolver)
    ensures
        !group.content_rect(rect, s).width.lt(whole(0)),
        !group.content_rect(rect, s).height.lt(whole(0)),
{
    reveal(Scalar::spec_lt);
}

/// The content of a group lies under its title bar, as far within the left and right
/// edges, the title bar and the bottom edge as the padding says, where there is room.
pub proof fn law_content_is_within_the_padding(g: Group, rect: Rect, s: &StyleResolver, x: int, y: int, w: int, h: int, p: int, f: int)
    requires
        crate::geometry::in_steps(rect, x, y, w, h),
        rounding::in_steps(g.pad(s), p),
        rounding::in_steps(s.scalar(StyleKey::FontSize), f),
        0 <= p <= 0x8_0000,
        0 <= f <= 0x8_0000,
        2 * p <= w,
        f + 4 * p <= h,
    ensures
        ({
            let r = g.content_rect(rect, s);
            &&& rounding::in_steps(r.x, x + p)
            &&& rounding::in_steps(r.y, y + (f + 2 * p) + p)
            &&& rounding::in_steps(r.width, w - 2 * p)
            &&& rounding::in_steps(r.height, h - (f + 2 * p) - 2 * p)
        }),
{
    let pad = g.pad(s);
    let size = s.scalar(StyleKey::FontSize);
    rounding::law_one_in_steps();
    rounding::law_whole_times_steps(2, pad, p);
    let twice = whole(2).times(pad);
    rounding::law_plus_steps(size, twice, f, 2 * p);
    let header = size.plus(twice);
    rounding::law_plus_steps(rect.x, pad, x, p);
    rounding::law_plus_steps(rect.y, header, y, f + 2 * p);
    rounding::law_plus_steps(rect.y.plus(header), pad, y + f + 2 * p, p);
    rounding::law_minus_steps(rect.width, twice, w, 2 * p);
    rounding::law_steps_compare(rect.width.minus(twice), whole(0), w - 2 * p, 0);
    rounding::law_minus_steps(rect.height, header, h, f + 2 * p);
    let rest = rect.height.minus(header);
    rounding::law_minus_steps(rest, twice, h - (f + 2 * p), 2 * p);
    rounding::law_steps_compare(rest.minus(twice), whole(0), h - (f + 2 * p) - 2 * p, 0);
}

} // verus!
