//! Busy and empty states: what stands in for content that is not there.

use crate::context::{vcentered, Label};
use crate::draw_list::{polar, DrawList};
use crate::geometry::{Color, Point, Rect};
use crate::rounding;
use crate::scalar::{ratio, whole, Scalar};
use crate::style::{StyleKey, StyleResolver};
use crate::text::TextBlock;
use vstd::prelude::*;

verus! {

pub open spec fn spec_shimmer(rect: Rect, phase: Scalar) -> Rect {
    let band = rect.width.times(ratio(4, 10));
    let x = rect.x.plus(phase.times(rect.width.plus(band))).minus(band);
    Rect {
        x: x.at_least(rect.x),
        y: rect.y,
        width: x.plus(band).at_most(rect.right()).minus(x.at_least(rect.x)),
        height: rect.height,
    }
}

/// The part of a skeleton bar that shines: a band that runs from before its left
/// end past its right end, cut at both.
#[verifier::when_used_as_spec(spec_shimmer)]
pub fn shimmer(rect: Rect, phase: Scalar) -> (r: Rect)
    ensures
        r == spec_shimmer(rect, phase),
{
    let band = rect.width.times(ratio(4, 10));
    let x = rect.x.plus(phase.times(rect.width.plus(band))).minus(band);
    Rect {
        x: x.at_least(rect.x),
        y: rect.y,
        width: x.plus(band).at_most(rect.right()).minus(x.at_least(rect.x)),
        height: rect.height,
    }
}

/// A skeleton bar and the band that shines on it.
#[verifier::opaque]
pub open spec fn skeleton_painted(
    l: crate::draw_list::DrawState,
    s: &StyleResolver,
    rect: Rect,
    phase: Scalar,
) -> crate::draw_list::DrawState {
    let radius = rect.height.times(ratio(1, 2));
    let band = shimmer(rect, phase);
    let l = l.rounded_rect(rect, radius, s.color(StyleKey::Button).with_alpha(ratio(55, 100)));
    if whole(0).lt(band.width) {
        l.rounded_rect(band, radius, Color::white(ratio(1, 10)))
    } else {
        l
    }
}

/// Draw a skeleton bar; `phase` runs from 0 to 1.
pub fn skeleton(list: &mut DrawList, s: &StyleResolver, rect: Rect, phase: Scalar)
    ensures
        final(list)@ == skeleton_painted(old(list)@, s, rect, phase),
{
    proof {
        reveal(skeleton_painted);
    }
    let radius = rect.height.times(ratio(1, 2));
    list.rounded_rect(rect, radius, s.color(StyleKey::Button).with_alpha(ratio(55, 100)));
    let band = shimmer(rect, phase);
    if whole(0).lt(band.width) {
        list.rounded_rect(band, radius, Color::white(ratio(1, 10)));
    }
}

/// How many chords make a spinner's arc.
pub const ARC_STEPS: u64 = 14;

/// The angle at which chord `i` of a spinner's arc starts.
pub fn arc_angle(phase: Scalar, sweep: Scalar, i: u64) -> (r: Scalar)
    ensures
        r == phase.plus(sweep.times(whole(i).over(whole(ARC_STEPS)))),
{
    phase.plus(sweep.times(whole(i).over(whole(ARC_STEPS))))
}

/// The arc through the first `n` directions, from chord to chord.
pub open spec fn arc_painted(
    l: crate::draw_list::DrawState,
    center: Point,
    radius: Scalar,
    dirs: Seq<Point>,
    color: Color,
    n: nat,
) -> crate::draw_list::DrawState
    decreases n,
{
    if n <= 1 {
        l
    } else {
        arc_painted(l, center, radius, dirs, color, (n - 1) as nat).line(
            polar(center, radius, dirs[n - 2]),
            polar(center, radius, dirs[n - 1]),
            whole(2),
            color,
        )
    }
}

/// Draw a spinner: a ring, and an arc on it through `dirs`, the directions
/// (cosine and sine) at the [angles](arc_angle) where its chords meet.
pub fn spinner(
    list: &mut DrawList,
    s: &StyleResolver,
    center: Point,
    radius: Scalar,
    dirs: &[Point],
)
    ensures
        final(list)@ == arc_painted(
            old(list)@.circle_outline(center, radius, whole(2), s.color(StyleKey::ButtonHover)),
            center,
            radius,
            dirs@,
            s.color(StyleKey::Accent),
            dirs@.len(),
        ),
{
    list.circle_outline(center, radius, whole(2), s.color(StyleKey::ButtonHover));
    let ghost ring = list@;
    let accent = s.color(StyleKey::Accent);
    let mut i: usize = 1;
    while i < dirs.len()
        invariant
            1 <= i,
            i <= dirs@.len() || i == 1,
            list@ == arc_painted(ring, center, radius, dirs@, accent, i as nat),
        decreases dirs.len() - i,
    {
        list.line(
            polar(center, radius, dirs[i - 1]),
            polar(center, radius, dirs[i]),
            whole(2),
            accent,
        );
        i = i + 1;
    }
}

pub open spec fn spec_dot_phase(phase: Scalar, i: u64) -> Scalar {
    phase.minus(whole(i).times(ratio(15, 100))).wrapped()
}

/// Where dot `i` is in its pulse, from 0 to 1.
#[verifier::when_used_as_spec(spec_dot_phase)]
pub fn dot_phase(phase: Scalar, i: u64) -> (r: Scalar)
    ensures
        r == spec_dot_phase(phase, i),
{
    phase.minus(whole(i).times(ratio(15, 100))).wrapped()
}

pub open spec fn spec_dot_scale(t: Scalar, wave: Scalar) -> Scalar {
    ratio(6, 10).plus(ratio(4, 10).times(whole(1).minus(wave)).times(ratio(1, 2))).plus(
        ratio(2, 10).times(whole(1).minus(t).size()),
    )
}

/// How large a dot is at `t` of its pulse, where `wave` is the cosine of that
/// part of a full turn.
#[verifier::when_used_as_spec(spec_dot_scale)]
pub fn dot_scale(t: Scalar, wave: Scalar) -> (r: Scalar)
    ensures
        r == spec_dot_scale(t, wave),
{
    ratio(6, 10).plus(ratio(4, 10).times(whole(1).minus(wave)).times(ratio(1, 2))).plus(
        ratio(2, 10).times(whole(1).minus(t).size()),
    )
}

pub open spec fn spec_wave_at(waves: &[Scalar], i: usize) -> Scalar {
    if i < waves@.len() {
        waves@[i as int]
    } else {
        whole(1)
    }
}

/// The wave of dot `i`; one that was not given is at its crest.
#[verifier::when_used_as_spec(spec_wave_at)]
pub fn wave_at(waves: &[Scalar], i: usize) -> (r: Scalar)
    ensures
        r == spec_wave_at(waves, i),
{
    if i < waves.len() {
        waves[i]
    } else {
        whole(1)
    }
}

/// The first `n` dots.
pub open spec fn dots_painted(
    l: crate::draw_list::DrawState,
    accent: Color,
    center: Point,
    phase: Scalar,
    waves: &[Scalar],
    n: nat,
) -> crate::draw_list::DrawState
    decreases n,
{
    if n == 0 {
        l
    } else {
        let i = (n - 1) as u64;
        let scale = dot_scale(dot_phase(phase, i), wave_at(waves, i as usize));
        dots_painted(l, accent, center, phase, waves, i as nat).circle(
            Point {
                x: center.x.plus(whole(i).minus(whole(1)).times(whole(9))),
                y: center.y,
            },
            ratio(25, 10).times(scale.clamped(ratio(1, 2), ratio(13, 10))),
            accent.with_alpha(
                accent.a.times(
                    ratio(1, 2).plus(ratio(1, 2).times(scale.clamped(whole(0), whole(1)))),
                ),
            ),
        )
    }
}

/// Draw three dots that pulse one after the other. `waves` are the cosines of the
/// [turn](crate::angles::turn) at each dot's [phase](dot_phase).
pub fn dots(list: &mut DrawList, s: &StyleResolver, center: Point, phase: Scalar, waves: &[Scalar])
    ensures
        final(list)@ == dots_painted(
            old(list)@,
            s.color(StyleKey::Accent),
            center,
            phase,
            waves,
            3,
        ),
{
    let accent = s.color(StyleKey::Accent);
    let mut i: u64 = 0;
    while i < 3
        invariant
            i <= 3,
            list@ == dots_painted(old(list)@, accent, center, phase, waves, i as nat),
        decreases 3 - i,
    {
        let scale = dot_scale(dot_phase(phase, i), wave_at(waves, i as usize));
        list.circle(
            Point {
                x: center.x.plus(whole(i).minus(whole(1)).times(whole(9))),
                y: center.y,
            },
            ratio(25, 10).times(scale.clamped(ratio(1, 2), ratio(13, 10))),
            accent.with_alpha(
                accent.a.times(
                    ratio(1, 2).plus(ratio(1, 2).times(scale.clamped(whole(0), whole(1)))),
                ),
            ),
        );
        i = i + 1;
    }
}

/// What an empty view says.
pub struct EmptyState<'a> {
    /// A glyph above the title.
    pub glyph: &'a str,
    /// A short headline.
    pub title: &'a str,
    /// An explanation.
    pub body: &'a str,
}

/// How the texts of an empty state measure.
#[derive(Clone, Copy, Debug, PartialEq, Eq, Structural)]
pub struct EmptyMetrics {
    /// The glyph, at twice the style's size.
    pub glyph: Label,
    /// The title, at 1.1 of the style's size.
    pub title: Label,
    /// The height of the body, at 0.9 of the style's size, broken at 32 less than
    /// the width.
    pub body_height: Scalar,
}

pub open spec fn spec_empty_rect(s: &StyleResolver, rect: Rect, m: EmptyMetrics) -> Rect {
    let size = s.scalar(StyleKey::FontSize);
    let total = size.times(whole(2)).plus(size.times(ratio(13, 10))).plus(m.body_height).plus(
        whole(12),
    );
    Rect {
        x: rect.x,
        y: rect.y.plus(rect.height.minus(total).at_least(whole(0)).times(ratio(1, 2))),
        width: rect.width,
        height: total,
    }
}

/// What an empty state takes: in the middle of `rect`, from its top where it is
/// too tall for it.
#[verifier::when_used_as_spec(spec_empty_rect)]
pub fn empty_rect(s: &StyleResolver, rect: Rect, m: EmptyMetrics) -> (r: Rect)
    ensures
        r == spec_empty_rect(s, rect, m),
{
    let size = s.scalar(StyleKey::FontSize);
    let total = size.times(whole(2)).plus(size.times(ratio(13, 10))).plus(m.body_height).plus(
        whole(12),
    );
    Rect {
        x: rect.x,
        y: rect.y.plus(rect.height.minus(total).at_least(whole(0)).times(ratio(1, 2))),
        width: rect.width,
        height: total,
    }
}

/// An empty state: its glyph, its title and its body, one under the other.
#[verifier::opaque]
pub open spec fn empty_painted(
    l: crate::draw_list::DrawState,
    s: &StyleResolver,
    rect: Rect,
    state: &EmptyState<'_>,
    m: EmptyMetrics,
) -> crate::draw_list::DrawState {
    let size = s.scalar(StyleKey::FontSize);
    let glyph_h = size.times(whole(2));
    let title_h = size.times(ratio(13, 10));
    let title_size = size.times(ratio(11, 10));
    let y = empty_rect(s, rect, m).y;
    l.written(
        state.glyph@,
        Point {
            x: rect.x.plus(rect.width.minus(m.glyph.width).times(ratio(1, 2))),
            y: vcentered(y, glyph_h, glyph_h, m.glyph.center),
        },
        glyph_h,
        s.color(StyleKey::TextDim),
        s.font,
    ).written(
        state.title@,
        Point {
            x: rect.x.plus(rect.width.minus(m.title.width).times(ratio(1, 2))),
            y: vcentered(y.plus(glyph_h), title_h, title_size, m.title.center),
        },
        title_size,
        s.color(StyleKey::Text),
        s.font,
    ).text(
        crate::text::TextView::plain(
            state.body@,
            rect.x.plus(whole(16)),
            y.plus(glyph_h).plus(title_h).plus(whole(4)),
            size.times(ratio(9, 10)),
        ).colored(s.color(StyleKey::TextDim)).broken_at(
            rect.width.minus(whole(32)),
        ).centered().in_font(s.font),
    )
}

/// Draw an empty state; gives what it takes of `rect`.
pub fn empty_state(
    list: &mut DrawList,
    s: &StyleResolver,
    rect: Rect,
    state: &EmptyState<'_>,
    m: EmptyMetrics,
) -> (r: Rect)
    ensures
        r == empty_rect(s, rect, m),
        final(list)@ == empty_painted(old(list)@, s, rect, state, m),
{
    proof {
        reveal(empty_painted);
    }
    let used = empty_rect(s, rect, m);
    let size = s.scalar(StyleKey::FontSize);
    let glyph_h = size.times(whole(2));
    let title_h = size.times(ratio(13, 10));
    let title_size = size.times(ratio(11, 10));
    list.write(
        state.glyph,
        Point {
            x: rect.x.plus(rect.width.minus(m.glyph.width).times(ratio(1, 2))),
            y: vcentered(used.y, glyph_h, glyph_h, m.glyph.center),
        },
        glyph_h,
        s.color(StyleKey::TextDim),
        s.font,
    );
    list.write(
        state.title,
        Point {
            x: rect.x.plus(rect.width.minus(m.title.width).times(ratio(1, 2))),
            y: vcentered(used.y.plus(glyph_h), title_h, title_size, m.title.center),
        },
        title_size,
        s.color(StyleKey::Text),
        s.font,
    );
    list.text(
        TextBlock::new(
            state.body,
            rect.x.plus(whole(16)),
            used.y.plus(glyph_h).plus(title_h).plus(whole(4)),
            size.times(ratio(9, 10)),
        ).with_color(s.color(StyleKey::TextDim)).with_max_width(
            rect.width.minus(whole(32)),
        ).with_center().with_font(s.font),
    );
    used
}

/// The shine never starts before its bar, and a bar whose shine has left it is
/// painted plain.
pub proof fn law_shine_stays_on_its_bar(
    l: crate::draw_list::DrawState,
    s: &StyleResolver,
    rect: Rect,
    phase: Scalar,
)
    ensures
        !shimmer(rect, phase).x.lt(rect.x),
        !whole(0).lt(shimmer(rect, phase).width) ==> skeleton_painted(l, s, rect, phase)
            == l.rounded_rect(
            rect,
            rect.height.times(ratio(1, 2)),
            s.color(StyleKey::Button).with_alpha(ratio(55, 100)),
        ),
{
    reveal(Scalar::spec_lt);
    reveal(skeleton_painted);
}

/// The shine moves to the right as its phase grows, and is as high as its bar.
pub proof fn law_shine_moves_to_the_right(rect: Rect, p: Scalar, q: Scalar)
    requires
        rounding::ordinary(rect.x),
        rounding::ordinary(rect.width),
        rect.width.val() >= rounding::unit(),
        rounding::ordinary(p),
        rounding::ordinary(q),
        p.val() <= q.val(),
    ensures
        shimmer(rect, p).x.le(shimmer(rect, q).x),
        shimmer(rect, p).y == rect.y,
        shimmer(rect, p).height == rect.height,
{
    rounding::law_zero_and_one();
    rounding::law_unit_is_large();
    let u = rounding::unit();
    let part = ratio(4, 10);
    let w = rect.width.val();
    crate::scalar::law_whole_exact(4);
    crate::scalar::law_whole_exact(10);
    assert((4 * u) * u <= u * (10 * u) && (4 * u) * (10 * u) >= 0) by (nonlinear_arith)
        requires
            u > 0,
    ;
    rounding::law_over_bounded(whole(4), whole(10), whole(1));
    let f = part.val();
    assert(0 <= w * f <= w * u) by (nonlinear_arith)
        requires
            0 <= f <= u,
            w >= 0,
    ;
    rounding::law_times_bounded(rect.width, part, rect.width);
    let band = rect.width.times(part);
    rounding::law_plus_finite(rect.width, band);
    rounding::law_plus_rounds(rect.width, band);
    let span = rect.width.plus(band);
    assert(p.le(q)) by {
        reveal(Scalar::spec_le);
    }
    rounding::law_times_monotone(p, q, span);
    rounding::law_plus_monotone(p.times(span), q.times(span), rect.x);
    crate::scalar::law_plus_commutes(rect.x, p.times(span));
    crate::scalar::law_plus_commutes(rect.x, q.times(span));
    rounding::law_minus_monotone(rect.x.plus(p.times(span)), rect.x.plus(q.times(span)), band);
    assert(shimmer(rect, p).x.le(shimmer(rect, q).x)) by {
        reveal(Scalar::spec_le);
        reveal(Scalar::spec_lt);
    }
}

} // verus!
