//! Banners: strips with a message of some severity.

use crate::draw_list::DrawList;
use crate::geometry::{Color, Point, Rect};
use crate::rounding;
use crate::scalar::{ratio, whole, Scalar};
use crate::style::{StyleKey, StyleResolver};
use crate::text::TextBlock;
use vstd::prelude::*;

verus! {

/// How grave a message is.
#[derive(Clone, Copy, Debug, PartialEq, Eq, Structural)]
pub enum Severity {
    /// A notice.
    Info,
    /// Something succeeded.
    Success,
    /// A caution.
    Warning,
    /// Something failed.
    Error,
}

/// The width of the bar at a banner's left edge.
pub const BAR_W: u64 = 4;

impl Severity {
    pub open spec fn spec_style_key(self) -> StyleKey {
        match self {
            Severity::Info => StyleKey::Info,
            Severity::Success => StyleKey::Success,
            Severity::Warning => StyleKey::Warning,
            Severity::Error => StyleKey::Error,
        }
    }

    /// The style that gives its color.
    #[verifier::when_used_as_spec(spec_style_key)]
    pub fn style_key(self) -> (r: StyleKey)
        ensures
            r == self.spec_style_key(),
    {
        match self {
            Severity::Info => StyleKey::Info,
            Severity::Success => StyleKey::Success,
            Severity::Warning => StyleKey::Warning,
            Severity::Error => StyleKey::Error,
        }
    }

    pub open spec fn spec_accent(self) -> Color {
        match self {
            Severity::Info => Color::new(ratio(22, 100), ratio(55, 100), ratio(95, 100), whole(1)),
            Severity::Success => Color::new(
                ratio(26, 100),
                ratio(72, 100),
                ratio(42, 100),
                whole(1),
            ),
            Severity::Warning => Color::new(
                ratio(95, 100),
                ratio(7, 10),
                ratio(2, 10),
                whole(1),
            ),
            Severity::Error => Color::new(ratio(9, 10), ratio(3, 10), ratio(3, 10), whole(1)),
        }
    }

    /// Its color where no style is at hand.
    #[verifier::when_used_as_spec(spec_accent)]
    pub fn accent(self) -> (r: Color)
        ensures
            r == self.spec_accent(),
    {
        match self {
            Severity::Info => Color::new(ratio(22, 100), ratio(55, 100), ratio(95, 100), whole(1)),
            Severity::Success => Color::new(
                ratio(26, 100),
                ratio(72, 100),
                ratio(42, 100),
                whole(1),
            ),
            Severity::Warning => Color::new(
                ratio(95, 100),
                ratio(7, 10),
                ratio(2, 10),
                whole(1),
            ),
            Severity::Error => Color::new(ratio(9, 10), ratio(3, 10), ratio(3, 10), whole(1)),
        }
    }

    pub open spec fn spec_resolved_accent(self, s: &StyleResolver) -> Color {
        s.color(self.style_key())
    }

    /// Its color in this style.
    #[verifier::when_used_as_spec(spec_resolved_accent)]
    pub fn resolved_accent(self, s: &StyleResolver) -> (r: Color)
        ensures
            r == self.spec_resolved_accent(s),
    {
        s.color(self.style_key())
    }

    pub open spec fn spec_resolved_background(self, s: &StyleResolver) -> Color {
        self.resolved_accent(s).with_alpha(ratio(16, 100))
    }

    /// Its color in this style, washed out for a background.
    #[verifier::when_used_as_spec(spec_resolved_background)]
    pub fn resolved_background(self, s: &StyleResolver) -> (r: Color)
        ensures
            r == self.spec_resolved_background(s),
    {
        self.resolved_accent(s).with_alpha(ratio(16, 100))
    }
}

/// A strip with a message.
pub struct Banner<'a> {
    /// How grave the message is.
    pub severity: Severity,
    /// A line above the message.
    pub title: Option<&'a str>,
    /// The message.
    pub message: &'a str,
}

impl<'a> Banner<'a> {
    /// A banner of this severity.
    pub fn new(severity: Severity, message: &'a str) -> (r: Self)
        ensures
            r == (Banner { severity, title: None, message }),
    {
        Banner { severity, title: None, message }
    }

    /// A notice.
    pub fn info(message: &'a str) -> (r: Self)
        ensures
            r == (Banner { severity: Severity::Info, title: None, message }),
    {
        Self::new(Severity::Info, message)
    }

    /// A success.
    pub fn success(message: &'a str) -> (r: Self)
        ensures
            r == (Banner { severity: Severity::Success, title: None, message }),
    {
        Self::new(Severity::Success, message)
    }

    /// A caution.
    pub fn warning(message: &'a str) -> (r: Self)
        ensures
            r == (Banner { severity: Severity::Warning, title: None, message }),
    {
        Self::new(Severity::Warning, message)
    }

    /// A failure.
    pub fn error(message: &'a str) -> (r: Self)
        ensures
            r == (Banner { severity: Severity::Error, title: None, message }),
    {
        Self::new(Severity::Error, message)
    }

    /// With a line above the message.
    pub fn with_title(self, title: &'a str) -> (r: Self)
        ensures
            r == (Banner { title: Some(title), ..self }),
    {
        Banner { severity: self.severity, title: Some(title), message: self.message }
    }

    /// Its color where no style is at hand.
    pub fn accent(&self) -> (r: Color)
        ensures
            r == self.severity.accent(),
    {
        self.severity.accent()
    }

    pub open spec fn spec_text_x(rect: Rect, pad: Scalar) -> Scalar {
        rect.x.plus(whole(BAR_W)).plus(pad)
    }

    /// Where its texts begin.
    #[verifier::when_used_as_spec(spec_text_x)]
    pub fn text_x(rect: Rect, pad: Scalar) -> (r: Scalar)
        ensures
            r == Self::spec_text_x(rect, pad),
    {
        rect.x.plus(whole(BAR_W)).plus(pad)
    }

    pub open spec fn spec_inner_width(width: Scalar, pad: Scalar) -> Scalar {
        width.minus(whole(BAR_W)).minus(whole(2).times(pad)).at_least(whole(0))
    }

    /// The width that its texts have.
    #[verifier::when_used_as_spec(spec_inner_width)]
    pub fn inner_width(width: Scalar, pad: Scalar) -> (r: Scalar)
        ensures
            r == Self::spec_inner_width(width, pad),
    {
        width.minus(whole(BAR_W)).minus(whole(2).times(pad)).at_least(whole(0))
    }

    pub open spec fn spec_title_height(&self, font_size: Scalar) -> Scalar {
        if self.title is Some {
            font_size.times(ratio(13, 10))
        } else {
            whole(0)
        }
    }

    /// The height of the title's line, none where there is no title.
    #[verifier::when_used_as_spec(spec_title_height)]
    pub fn title_height(&self, font_size: Scalar) -> (r: Scalar)
        ensures
            r == self.spec_title_height(font_size),
    {
        if self.title.is_some() {
            font_size.times(ratio(13, 10))
        } else {
            whole(0)
        }
    }

    pub open spec fn spec_measure_height(&self, message_height: Scalar, s: &StyleResolver) -> Scalar {
        whole(2).times(s.scalar(StyleKey::Padding)).plus(
            self.title_height(s.scalar(StyleKey::FontSize)),
        ).plus(message_height)
    }

    /// The height that the banner needs, where its message, broken into lines at
    /// its [`inner_width`](Self::inner_width), takes `message_height`.
    #[verifier::when_used_as_spec(spec_measure_height)]
    pub fn measure_height(&self, message_height: Scalar, s: &StyleResolver) -> (r: Scalar)
        ensures
            r == self.spec_measure_height(message_height, s),
    {
        whole(2).times(s.scalar(StyleKey::Padding)).plus(
            self.title_height(s.scalar(StyleKey::FontSize)),
        ).plus(message_height)
    }

    /// The strip and the bar at its left edge.
    #[verifier::opaque]
    pub open spec fn strip_painted(
        &self,
        l: crate::draw_list::DrawState,
        s: &StyleResolver,
        rect: Rect,
    ) -> crate::draw_list::DrawState {
        l.quad(rect, self.severity.resolved_background(s)).quad(
            Rect { x: rect.x, y: rect.y, width: whole(BAR_W), height: rect.height },
            self.severity.resolved_accent(s),
        )
    }

    fn paint_strip(&self, list: &mut DrawList, s: &StyleResolver, rect: Rect)
        ensures
            final(list)@ == self.strip_painted(old(list)@, s, rect),
    {
        proof {
            reveal(Banner::strip_painted);
        }
        list.quad(rect, self.severity.resolved_background(s));
        list.quad(
            Rect { x: rect.x, y: rect.y, width: whole(BAR_W), height: rect.height },
            self.severity.resolved_accent(s),
        );
    }

    /// What drawing the banner adds: its strip, its title, and its message under
    /// it, broken into lines.
    pub open spec fn drawn(
        &self,
        l: crate::draw_list::DrawState,
        s: &StyleResolver,
        rect: Rect,
    ) -> crate::draw_list::DrawState {
        let pad = s.scalar(StyleKey::Padding);
        let size = s.scalar(StyleKey::FontSize);
        let x = Self::text_x(rect, pad);
        let top = rect.y.plus(pad);
        let l = self.strip_painted(l, s, rect);
        let l = match self.title {
            Some(title) => l.written(
                title@,
                Point { x, y: top },
                size,
                self.severity.resolved_accent(s),
                s.font,
            ),
            None => l,
        };
        l.text(
            crate::text::TextView::plain(
                self.message@,
                x,
                if self.title is Some {
                    top.plus(self.title_height(size))
                } else {
                    top
                },
                size,
            ).colored(s.color(StyleKey::Text)).in_font(s.font).broken_at(
                Self::inner_width(rect.width, pad),
            ),
        )
    }

    /// Draw the banner.
    pub fn draw(&self, rect: Rect, list: &mut DrawList, s: &StyleResolver)
        ensures
            final(list)@ == self.drawn(old(list)@, s, rect),
    {
        let pad = s.scalar(StyleKey::Padding);
        let size = s.scalar(StyleKey::FontSize);
        let x = Self::text_x(rect, pad);
        let mut y = rect.y.plus(pad);
        self.paint_strip(list, s, rect);
        match self.title {
            Some(title) => {
                list.write(
                    title,
                    Point { x, y },
                    size,
                    self.severity.resolved_accent(s),
                    s.font,
                );
                y = y.plus(self.title_height(size));
            },
            None => {},
        }
        list.text(
            TextBlock::new(self.message, x, y, size).with_color(
                s.color(StyleKey::Text),
            ).with_font(s.font).with_max_width(Self::inner_width(rect.width, pad)),
        );
    }
}

/// Each severity has a style of its own.
pub proof fn law_severities_are_told_apart(a: Severity, b: Severity)
    ensures
        a.style_key() == b.style_key() ==> a == b,
{
}

/// The text of a banner is right of its bar, the padding from the bar and from the other
/// edge.
pub proof fn law_text_is_between_bar_and_edge(rect: Rect, pad: Scalar, x: int, w: int, p: int)
    requires
        rounding::in_steps(rect.x, x),
        rounding::in_steps(rect.width, w),
        rounding::in_steps(pad, p),
        0 <= p <= 0x40_0000,
        1024 + 2 * p <= w <= 0x80_0000,
        rounding::size(x) <= 0x40_0000,
    ensures
        rounding::in_steps(Banner::<'static>::text_x(rect, pad), x + 1024 + p),
        rounding::in_steps(Banner::<'static>::inner_width(rect.width, pad), w - 1024 - 2 * p),
{
    rounding::law_whole_in_steps(4);
    rounding::law_one_in_steps();
    rounding::law_plus_steps(rect.x, whole(4), x, 1024);
    rounding::law_plus_steps(rect.x.plus(whole(4)), pad, x + 1024, p);
    rounding::law_minus_steps(rect.width, whole(4), w, 1024);
    rounding::law_whole_times_steps(2, pad, p);
    let rest = rect.width.minus(whole(4));
    rounding::law_minus_steps(rest, whole(2).times(pad), w - 1024, 2 * p);
    rounding::law_steps_compare(rest.minus(whole(2).times(pad)), whole(0), w - 1024 - 2 * p, 0);
    rounding::law_steps_compare(whole(0), rest.minus(whole(2).times(pad)), 0, w - 1024 - 2 * p);
}

/// A banner is as tall as its padding, its title where it has one, and its message.
pub proof fn law_banner_is_as_tall_as_its_parts(b: Banner<'_>, s: &StyleResolver, message: Scalar, p: int, t: int, m: int)
    requires
        rounding::in_steps(s.scalar(StyleKey::Padding), p),
        rounding::in_steps(b.title_height(s.scalar(StyleKey::FontSize)), t),
        rounding::in_steps(message, m),
        0 <= p <= 0x20_0000,
        0 <= t <= 0x20_0000,
        0 <= m <= 0x20_0000,
    ensures
        rounding::in_steps(b.measure_height(message, s), 2 * p + t + m),
        b.title is None ==> t == 0,
{
    let pad = s.scalar(StyleKey::Padding);
    let title = b.title_height(s.scalar(StyleKey::FontSize));
    rounding::law_whole_times_steps(2, pad, p);
    rounding::law_plus_steps(whole(2).times(pad), title, 2 * p, t);
    rounding::law_plus_steps(whole(2).times(pad).plus(title), message, 2 * p + t, m);
    rounding::law_zero_and_one();
    rounding::law_steps();
    let st = rounding::step();
    assert(t * st == 0 ==> t == 0) by (nonlinear_arith)
        requires
            st > 0,
    ;
}

} // verus!
