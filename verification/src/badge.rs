//! Badges, keycaps and chips: small pills with a text.

use crate::context::{vcentered, Label};
use crate::draw_list::DrawList;
use crate::geometry::{Color, Point, Rect};
use crate::input::InputState;
use crate::material::{draw_inset_shadow, sheen_over};
use crate::rounding;
use crate::scalar::{ratio, whole, Scalar};
use crate::style::{StyleKey, StyleResolver};
use vstd::prelude::*;

verus! {

pub open spec fn spec_pill(rect: Rect, width: Scalar, height: Scalar) -> Rect {
    let h = height.at_most(rect.height);
    Rect {
        x: rect.x,
        y: rect.y.plus(rect.height.minus(h).times(ratio(1, 2))),
        width: width.at_most(rect.width),
        height: h,
    }
}

/// A pill of this size at the left end of `rect`, halfway down it, and no larger
/// than it.
#[verifier::when_used_as_spec(spec_pill)]
pub fn pill(rect: Rect, width: Scalar, height: Scalar) -> (r: Rect)
    ensures
        r == spec_pill(rect, width, height),
{
    let h = height.at_most(rect.height);
    Rect {
        x: rect.x,
        y: rect.y.plus(rect.height.minus(h).times(ratio(1, 2))),
        width: width.at_most(rect.width),
        height: h,
    }
}

pub open spec fn spec_badge_rect(s: &StyleResolver, rect: Rect, measured: Label) -> Rect {
    pill(
        rect,
        measured.width.plus(whole(12)),
        whole(15).at_least(s.scalar(StyleKey::FontSize).times(ratio(9, 10))),
    )
}

/// Where a badge lies.
#[verifier::when_used_as_spec(spec_badge_rect)]
pub fn badge_rect(s: &StyleResolver, rect: Rect, measured: Label) -> (r: Rect)
    ensures
        r == spec_badge_rect(s, rect, measured),
{
    pill(
        rect,
        measured.width.plus(whole(12)),
        whole(15).at_least(s.scalar(StyleKey::FontSize).times(ratio(9, 10))),
    )
}

/// A badge: a recessed pill in a faint tint, with its text in a mix of the tint
/// and the style's text color.
#[verifier::opaque]
pub open spec fn badge_painted(
    l: crate::draw_list::DrawState,
    s: &StyleResolver,
    r: Rect,
    text: Seq<char>,
    tint: Color,
    center: Scalar,
) -> crate::draw_list::DrawState {
    let bg = tint.with_alpha(tint.a.times(ratio(22, 100)));
    let size = s.scalar(StyleKey::FontSize).times(ratio(75, 100));
    crate::material::inset_shadow(
        l.chrome_rect_gradient(
            r,
            s.scalar(StyleKey::BorderRadius),
            whole(1),
            sheen_over(bg, Color::white(ratio(1, 10))),
            bg,
            Color::black(ratio(6, 10)),
        ),
        s,
        r,
        s.scalar(StyleKey::InnerShadowDepth).at_most(whole(3)),
        whole(1),
    ).written(
        text,
        Point { x: r.x.plus(whole(6)), y: vcentered(r.y, r.height, size, center) },
        size,
        sheen_over(s.color(StyleKey::Text), tint.with_alpha(ratio(55, 100))),
        s.font,
    )
}

/// Draw a badge; gives where it lies. `measured` is how its text measures at
/// three quarters of the style's size.
pub fn badge(
    list: &mut DrawList,
    s: &StyleResolver,
    rect: Rect,
    text: &str,
    tint: Color,
    measured: Label,
) -> (r: Rect)
    ensures
        r == badge_rect(s, rect, measured),
        final(list)@ == badge_painted(old(list)@, s, r, text@, tint, measured.center),
{
    proof {
        reveal(badge_painted);
    }
    let r = badge_rect(s, rect, measured);
    let bg = tint.with_alpha(tint.a.times(ratio(22, 100)));
    list.chrome_rect_gradient(
        r,
        s.scalar(StyleKey::BorderRadius),
        whole(1),
        sheen_over(bg, Color::white(ratio(1, 10))),
        bg,
        Color::black(ratio(6, 10)),
    );
    draw_inset_shadow(
        list,
        s,
        r,
        s.scalar(StyleKey::InnerShadowDepth).at_most(whole(3)),
        whole(1),
    );
    let size = s.scalar(StyleKey::FontSize).times(ratio(75, 100));
    list.write(
        text,
        Point { x: r.x.plus(whole(6)), y: vcentered(r.y, r.height, size, measured.center) },
        size,
        sheen_over(s.color(StyleKey::Text), tint.with_alpha(ratio(55, 100))),
        s.font,
    );
    r
}

pub open spec fn spec_keycap_rect(s: &StyleResolver, rect: Rect, measured: Label, min_w: Scalar) -> Rect {
    pill(
        rect,
        min_w.at_least(measured.width.plus(whole(10))),
        whole(18).at_least(s.scalar(StyleKey::FontSize).times(ratio(85, 100)).plus(whole(8))),
    )
}

/// Where a keycap lies.
#[verifier::when_used_as_spec(spec_keycap_rect)]
pub fn keycap_rect(s: &StyleResolver, rect: Rect, measured: Label, min_w: Scalar) -> (r: Rect)
    ensures
        r == spec_keycap_rect(s, rect, measured, min_w),
{
    pill(
        rect,
        min_w.at_least(measured.width.plus(whole(10))),
        whole(18).at_least(s.scalar(StyleKey::FontSize).times(ratio(85, 100)).plus(whole(8))),
    )
}

/// A keycap: a dark line under a raised face with a light line at its top, and
/// its label in the middle.
#[verifier::opaque]
pub open spec fn keycap_painted(
    l: crate::draw_list::DrawState,
    s: &StyleResolver,
    r: Rect,
    label: Seq<char>,
    measured: Label,
) -> crate::draw_list::DrawState {
    let size = s.scalar(StyleKey::FontSize).times(ratio(85, 100));
    let base = s.color(StyleKey::Button);
    let face = r.height.minus(whole(1));
    l.quad(
        Rect {
            x: r.x,
            y: r.y.plus(r.height).minus(whole(1)),
            width: r.width,
            height: whole(1),
        },
        Color::black(ratio(1, 2)),
    ).chrome_rect_gradient(
        Rect { x: r.x, y: r.y, width: r.width, height: face },
        s.scalar(StyleKey::BorderRadius),
        whole(1),
        sheen_over(base, s.color(StyleKey::FaceTop)),
        sheen_over(base, s.color(StyleKey::FaceBottom)),
        Color::black(ratio(6, 10)),
    ).quad(
        Rect {
            x: r.x.plus(whole(1)),
            y: r.y.plus(whole(1)),
            width: r.width.minus(whole(2)).at_least(whole(0)),
            height: whole(1),
        },
        s.color(StyleKey::EdgeHighlight),
    ).written(
        label,
        Point {
            x: r.x.plus(r.width.minus(measured.width).times(ratio(1, 2))),
            y: vcentered(r.y, face, size, measured.center),
        },
        size,
        s.color(StyleKey::Text),
        s.font,
    )
}

/// Draw a keycap at least `min_w` wide, where there is room; gives where it
/// lies. `measured` is how its label measures at 0.85 of the style's size.
pub fn keycap(
    list: &mut DrawList,
    s: &StyleResolver,
    rect: Rect,
    label: &str,
    min_w: Scalar,
    measured: Label,
) -> (r: Rect)
    ensures
        r == keycap_rect(s, rect, measured, min_w),
        final(list)@ == keycap_painted(old(list)@, s, r, label@, measured),
{
    proof {
        reveal(keycap_painted);
    }
    let r = keycap_rect(s, rect, measured, min_w);
    let size = s.scalar(StyleKey::FontSize).times(ratio(85, 100));
    let face = r.height.minus(whole(1));
    list.quad(
        Rect {
            x: r.x,
            y: r.y.plus(r.height).minus(whole(1)),
            width: r.width,
            height: whole(1),
        },
        Color::black(ratio(1, 2)),
    );
    let base = s.color(StyleKey::Button);
    list.chrome_rect_gradient(
        Rect { x: r.x, y: r.y, width: r.width, height: face },
        s.scalar(StyleKey::BorderRadius),
        whole(1),
        sheen_over(base, s.color(StyleKey::FaceTop)),
        sheen_over(base, s.color(StyleKey::FaceBottom)),
        Color::black(ratio(6, 10)),
    );
    list.quad(
        Rect {
            x: r.x.plus(whole(1)),
            y: r.y.plus(whole(1)),
            width: r.width.minus(whole(2)).at_least(whole(0)),
            height: whole(1),
        },
        s.color(StyleKey::EdgeHighlight),
    );
    list.write(
        label,
        Point {
            x: r.x.plus(r.width.minus(measured.width).times(ratio(1, 2))),
            y: vcentered(r.y, face, size, measured.center),
        },
        size,
        s.color(StyleKey::Text),
        s.font,
    );
    r
}

/// What happened in a chip's frame.
#[derive(Clone, Copy, Debug, PartialEq, Eq, Structural)]
pub struct ChipOutput {
    /// It was clicked.
    pub clicked: bool,
}

pub open spec fn spec_chip_rect(s: &StyleResolver, rect: Rect, measured: Label) -> Rect {
    pill(
        rect,
        measured.width.plus(whole(16)),
        whole(17).at_least(s.scalar(StyleKey::FontSize).times(ratio(85, 100)).plus(whole(7))),
    )
}

/// Where a chip lies.
#[verifier::when_used_as_spec(spec_chip_rect)]
pub fn chip_rect(s: &StyleResolver, rect: Rect, measured: Label) -> (r: Rect)
    ensures
        r == spec_chip_rect(s, rect, measured),
{
    pill(
        rect,
        measured.width.plus(whole(16)),
        whole(17).at_least(s.scalar(StyleKey::FontSize).times(ratio(85, 100)).plus(whole(7))),
    )
}

/// A chip's face: recessed in the accent while on, else raised.
#[verifier::opaque]
pub open spec fn chip_face(
    l: crate::draw_list::DrawState,
    s: &StyleResolver,
    r: Rect,
    on: bool,
    hovered: bool,
) -> crate::draw_list::DrawState {
    let radius = whole(9).at_most(r.height.times(ratio(1, 2)));
    if on {
        let base = s.color(StyleKey::Accent);
        crate::material::inset_shadow(
            l.chrome_rect_gradient(
                r,
                radius,
                whole(1),
                sheen_over(base, Color::black(ratio(45, 100))),
                base,
                Color::black(ratio(65, 100)),
            ),
            s,
            r,
            s.scalar(StyleKey::InnerShadowDepth),
            whole(1),
        )
    } else {
        let base = s.color(
            if hovered {
                StyleKey::ButtonHover
            } else {
                StyleKey::Button
            },
        );
        l.chrome_rect_gradient(
            r,
            radius,
            whole(1),
            sheen_over(base, s.color(StyleKey::FaceTop)),
            sheen_over(base, s.color(StyleKey::FaceBottom)),
            Color::black(ratio(1, 2)),
        )
    }
}

fn paint_chip_face(list: &mut DrawList, s: &StyleResolver, r: Rect, on: bool, hovered: bool)
    ensures
        final(list)@ == chip_face(old(list)@, s, r, on, hovered),
{
    proof {
        reveal(chip_face);
    }
    let radius = whole(9).at_most(r.height.times(ratio(1, 2)));
    if on {
        let base = s.color(StyleKey::Accent);
        list.chrome_rect_gradient(
            r,
            radius,
            whole(1),
            sheen_over(base, Color::black(ratio(45, 100))),
            base,
            Color::black(ratio(65, 100)),
        );
        draw_inset_shadow(list, s, r, s.scalar(StyleKey::InnerShadowDepth), whole(1));
    } else {
        let base = s.color(
            if hovered {
                StyleKey::ButtonHover
            } else {
                StyleKey::Button
            },
        );
        list.chrome_rect_gradient(
            r,
            radius,
            whole(1),
            sheen_over(base, s.color(StyleKey::FaceTop)),
            sheen_over(base, s.color(StyleKey::FaceBottom)),
            Color::black(ratio(1, 2)),
        );
    }
}

/// A chip: its face and its label.
pub open spec fn chip_painted(
    l: crate::draw_list::DrawState,
    s: &StyleResolver,
    r: Rect,
    label: Seq<char>,
    on: bool,
    hovered: bool,
    center: Scalar,
) -> crate::draw_list::DrawState {
    let size = s.scalar(StyleKey::FontSize).times(ratio(85, 100));
    chip_face(l, s, r, on, hovered).written(
        label,
        Point { x: r.x.plus(whole(8)), y: vcentered(r.y, r.height, size, center) },
        size,
        s.color(
            if on {
                StyleKey::OnAccent
            } else {
                StyleKey::Text
            },
        ),
        s.font,
    )
}

/// Draw a chip, held in while `on`. `measured` is how its label measures at 0.85
/// of the style's size.
pub fn chip(
    list: &mut DrawList,
    s: &StyleResolver,
    rect: Rect,
    label: &str,
    on: bool,
    measured: Label,
    input: &InputState,
) -> (out: ChipOutput)
    ensures
        out == (ChipOutput { clicked: input.over(rect) && input.mouse_clicked }),
        final(list)@ == chip_painted(
            old(list)@,
            s,
            chip_rect(s, rect, measured),
            label@,
            on,
            input.over(rect),
            measured.center,
        ),
{
    let r = chip_rect(s, rect, measured);
    let hovered = input.over(rect);
    paint_chip_face(list, s, r, on, hovered);
    let size = s.scalar(StyleKey::FontSize).times(ratio(85, 100));
    list.write(
        label,
        Point { x: r.x.plus(whole(8)), y: vcentered(r.y, r.height, size, measured.center) },
        size,
        s.color(
            if on {
                StyleKey::OnAccent
            } else {
                StyleKey::Text
            },
        ),
        s.font,
    );
    ChipOutput { clicked: hovered && input.mouse_clicked }
}

/// No pill is larger than the room it was given.
pub proof fn law_pills_stay_in_their_room(rect: Rect, width: Scalar, height: Scalar)
    ensures
        !rect.width.lt(pill(rect, width, height).width),
        !rect.height.lt(pill(rect, width, height).height),
{
    reveal(Scalar::spec_lt);
}

/// A keycap is at least as wide as asked for, where there is room.
pub proof fn law_keycap_has_its_width(s: &StyleResolver, rect: Rect, measured: Label, min_w: Scalar)
    requires
        min_w.le(rect.width),
    ensures
        min_w.le(keycap_rect(s, rect, measured, min_w).width),
{
    reveal(Scalar::spec_lt);
    reveal(Scalar::spec_le);
}

/// A badge, key or chip is at the left edge of its place and in the middle of its
/// height, as large as it is asked to be where there is room.
pub proof fn law_pill_is_in_the_middle(rect: Rect, width: Scalar, height: Scalar, x: int, y: int, w: int, h: int, a: int, b: int)
    requires
        crate::geometry::in_steps(rect, x, y, w, h),
        rounding::in_steps(width, a),
        rounding::in_steps(height, b),
        0 <= a,
        0 <= b,
        0 <= w,
        0 <= h,
        (h - b) % 2 == 0,
    ensures
        ({
            let r = pill(rect, width, height);
            let tall = if b <= h {
                b
            } else {
                h
            };
            let wide = if a <= w {
                a
            } else {
                w
            };
            &&& rounding::in_steps(r.x, x)
            &&& rounding::in_steps(r.y, y + (h - tall) / 2)
            &&& rounding::in_steps(r.width, wide)
            &&& rounding::in_steps(r.height, tall)
        }),
{
    rounding::law_steps_compare(height, rect.height, b, h);
    rounding::law_steps_compare(width, rect.width, a, w);
    rounding::law_steps_compare(rect.height, height, h, b);
    rounding::law_steps_compare(rect.width, width, w, a);
    let tall = if b <= h {
        b
    } else {
        h
    };
    let t = height.at_most(rect.height);
    rounding::law_minus_steps(rect.height, t, h, tall);
    rounding::law_half_of_steps(rect.height.minus(t), h - tall);
    rounding::law_plus_steps(rect.y, rect.height.minus(t).times(ratio(1, 2)), y, (h - tall) / 2);
}

} // verus!
