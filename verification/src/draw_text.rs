//! Text blocks, with their underlines.

use crate::draw_list::{DrawList, DrawState, PaintCmd, PaintKind};
use crate::geometry::{Color, Point, Rect};
use crate::rounding;
use crate::scalar::{ratio, whole, Scalar};
use crate::text::{FontHandle, Rgba8, SpanView, TextBlock, TextSpan, TextView, Underline};
use vstd::prelude::*;

verus! {

/// What the shaper says of a block that has styled spans.
#[derive(Debug)]
pub struct SpanLayout {
    /// The caret position, from the left edge, at each byte of the content.
    pub positions: Vec<(usize, Scalar)>,
    /// The distance of the baseline from the top, in em.
    pub baseline_ratio: Scalar,
}

/// The first caret position at byte `at`; 0 where there is none.
pub open spec fn cursor_x(positions: Seq<(usize, Scalar)>, at: usize) -> Scalar
    decreases positions.len(),
{
    if positions.len() == 0 {
        whole(0)
    } else if positions[0].0 == at {
        positions[0].1
    } else {
        cursor_x(positions.skip(1), at)
    }
}

/// The caret position at byte `byte_pos`; 0 where there is none.
pub fn span_cursor_x(positions: &Vec<(usize, Scalar)>, byte_pos: usize) -> (r: Scalar)
    ensures
        r == cursor_x(positions@, byte_pos),
{
    let mut i: usize = 0;
    assert(positions@.skip(0) =~= positions@);
    while i < positions.len()
        invariant
            i <= positions@.len(),
            cursor_x(positions@.skip(i as int), byte_pos) == cursor_x(positions@, byte_pos),
        decreases positions@.len() - i,
    {
        if positions[i].0 == byte_pos {
            return positions[i].1;
        }
        assert(positions@.skip(i as int).skip(1) =~= positions@.skip(i + 1));
        i = i + 1;
    }
    whole(0)
}

pub open spec fn spec_tinted_byte(v: u8, t: Scalar) -> u8 {
    whole(v as u64).over(whole(255)).times(t).clamped(whole(0), whole(1)).times(
        whole(255),
    ).nearest_byte()
}

/// A byte channel multiplied by a tint's channel.
#[verifier::when_used_as_spec(spec_tinted_byte)]
pub fn tinted_byte(v: u8, t: Scalar) -> (r: u8)
    ensures
        r == spec_tinted_byte(v, t),
{
    whole(v as u64).over(whole(255)).times(t).clamped(whole(0), whole(1)).times(
        whole(255),
    ).nearest_byte()
}

pub open spec fn spec_tinted(c: Color, t: Color) -> Color {
    Color {
        r: c.r.times(t.r).clamped(whole(0), whole(1)),
        g: c.g.times(t.g).clamped(whole(0), whole(1)),
        b: c.b.times(t.b).clamped(whole(0), whole(1)),
        a: c.a.times(t.a).clamped(whole(0), whole(1)),
    }
}

/// A color multiplied by a tint, each channel kept between 0 and 1.
#[verifier::when_used_as_spec(spec_tinted)]
pub fn tinted(c: Color, t: Color) -> (r: Color)
    ensures
        r == spec_tinted(c, t),
{
    Color {
        r: c.r.times(t.r).clamped(whole(0), whole(1)),
        g: c.g.times(t.g).clamped(whole(0), whole(1)),
        b: c.b.times(t.b).clamped(whole(0), whole(1)),
        a: c.a.times(t.a).clamped(whole(0), whole(1)),
    }
}

pub open spec fn spec_is_plain(t: Color) -> bool {
    t.r.same(whole(1)) && t.g.same(whole(1)) && t.b.same(whole(1)) && t.a.same(whole(1))
}

/// Whether a tint changes nothing.
#[verifier::when_used_as_spec(spec_is_plain)]
pub fn is_plain(t: Color) -> (r: bool)
    ensures
        r == spec_is_plain(t),
{
    t.r.same(whole(1)) && t.g.same(whole(1)) && t.b.same(whole(1)) && t.a.same(whole(1))
}

pub open spec fn spec_tinted_rgba(c: Rgba8, t: Color) -> Rgba8 {
    if is_plain(t) {
        c
    } else {
        Rgba8 {
            r: tinted_byte(c.r, t.r),
            g: tinted_byte(c.g, t.g),
            b: tinted_byte(c.b, t.b),
            a: tinted_byte(c.a, t.a),
        }
    }
}

/// A block's color under a tint.
#[verifier::when_used_as_spec(spec_tinted_rgba)]
pub fn tinted_rgba(c: Rgba8, t: Color) -> (r: Rgba8)
    ensures
        r == spec_tinted_rgba(c, t),
{
    if is_plain(t) {
        c
    } else {
        Rgba8 {
            r: tinted_byte(c.r, t.r),
            g: tinted_byte(c.g, t.g),
            b: tinted_byte(c.b, t.b),
            a: tinted_byte(c.a, t.a),
        }
    }
}

pub open spec fn spec_as_color(c: Rgba8) -> Color {
    Color {
        r: whole(c.r as u64).over(whole(255)),
        g: whole(c.g as u64).over(whole(255)),
        b: whole(c.b as u64).over(whole(255)),
        a: whole(c.a as u64).over(whole(255)),
    }
}

/// A byte color as channels between 0 and 1.
#[verifier::when_used_as_spec(spec_as_color)]
pub fn as_color(c: Rgba8) -> (r: Color)
    ensures
        r == spec_as_color(c),
{
    Color {
        r: whole(c.r as u64).over(whole(255)),
        g: whole(c.g as u64).over(whole(255)),
        b: whole(c.b as u64).over(whole(255)),
        a: whole(c.a as u64).over(whole(255)),
    }
}

impl SpanView {
    /// The span under a tint.
    pub open spec fn under(self, t: Color) -> SpanView {
        if is_plain(t) {
            self
        } else {
            SpanView {
                text: self.text,
                color: match self.color {
                    Some(c) => Some(tinted(c, t)),
                    None => None,
                },
                underline: match self.underline {
                    Underline::Own(c) => Underline::Own(tinted(c, t)),
                    other => other,
                },
            }
        }
    }

    /// The color of the underline, where there is one.
    pub open spec fn line_color(self, block: Color) -> Option<Color> {
        match self.underline {
            Underline::Bare => None,
            Underline::Inherit => match self.color {
                Some(c) => Some(c),
                None => Some(block),
            },
            Underline::Own(c) => Some(c),
        }
    }

    /// How many bytes the span's text takes.
    pub open spec fn bytes(self) -> usize {
        vstd::utf8::encode_utf8(self.text).len() as usize
    }
}

/// The spans under a tint.
pub open spec fn spans_under(spans: Seq<SpanView>, t: Color) -> Seq<SpanView> {
    Seq::new(spans.len(), |i: int| spans[i].under(t))
}

/// The texts of the first `n` spans in a row.
pub open spec fn spans_text(spans: Seq<SpanView>, n: nat) -> Seq<char>
    decreases n,
{
    if n == 0 {
        Seq::empty()
    } else {
        spans_text(spans, (n - 1) as nat) + spans[n - 1].text
    }
}

/// The byte at which span `n` starts.
pub open spec fn span_start(spans: Seq<SpanView>, n: nat) -> usize
    decreases n,
{
    if n == 0 {
        0
    } else {
        span_start(spans, (n - 1) as nat).wrapping_add(spans[n - 1].bytes())
    }
}

impl TextView {
    /// The block under a tint.
    pub open spec fn under(self, t: Color) -> TextView {
        TextView {
            color: tinted_rgba(self.color, t),
            spans: spans_under(self.spans, t),
            style_range_tint: if is_plain(t) {
                self.style_range_tint
            } else {
                t
            },
            ..self
        }
    }

    /// The block whose content its spans are, where it has any.
    pub open spec fn joined(self) -> TextView {
        if self.spans.len() == 0 {
            self
        } else {
            TextView { content: spans_text(self.spans, self.spans.len()), ..self }
        }
    }

    /// The underline of span `i`, where it shows.
    pub open spec fn underline(self, i: int, layout: SpanLayout) -> Option<(Rect, Color)> {
        let start = span_start(self.spans, i as nat);
        let x0 = cursor_x(layout.positions@, start);
        let x1 = cursor_x(layout.positions@, start.wrapping_add(self.spans[i].bytes()));
        match self.spans[i].line_color(as_color(self.color)) {
            Some(color) => if x0.lt(x1) {
                Some(
                    (
                        Rect {
                            x: self.x.plus(x0),
                            y: self.y.plus(
                                self.font_size.times(layout.baseline_ratio.plus(ratio(12, 100))),
                            ),
                            width: x1.minus(x0),
                            height: self.font_size.times(ratio(7, 100)).at_least(whole(1)),
                        },
                        color,
                    ),
                )
            } else {
                None
            },
            None => None,
        }
    }
}

pub open spec fn spec_text_clip(own: Option<Rect>, bounds: Rect, clip: Option<Rect>) -> Option<Rect> {
    match clip {
        Some(clip) => match (match own {
            Some(own) => own,
            None => bounds,
        }).intersection(clip) {
            Some(both) => Some(both),
            None => Some(Rect { x: clip.x, y: clip.y, width: whole(0), height: whole(0) }),
        },
        None => own,
    }
}

/// What a block may cover: its own clip, or else its bounds, within the clip in
/// force.
#[verifier::when_used_as_spec(spec_text_clip)]
pub fn text_clip(own: Option<Rect>, bounds: Rect, clip: Option<Rect>) -> (r: Option<Rect>)
    ensures
        r == spec_text_clip(own, bounds, clip),
{
    match clip {
        Some(clip) => {
            let full = match own {
                Some(own) => own,
                None => bounds,
            };
            match full.intersection(clip) {
                Some(both) => Some(both),
                None => Some(Rect { x: clip.x, y: clip.y, width: whole(0), height: whole(0) }),
            }
        },
        None => own,
    }
}

pub open spec fn spec_zooms(scale: Scalar) -> bool {
    let off = scale.minus(whole(1));
    let off = if off.is_neg() {
        off.negate()
    } else {
        off
    };
    whole(0).lt(scale) && ratio(1, 1_000_000).lt(off)
}

/// Whether a zoom is one to apply: positive, and not 1.
#[verifier::when_used_as_spec(spec_zooms)]
pub fn zooms(scale: Scalar) -> (r: bool)
    ensures
        r == spec_zooms(scale),
{
    let off = scale.minus(whole(1));
    let off = if off.is_neg() {
        off.negate()
    } else {
        off
    };
    whole(0).lt(scale) && ratio(1, 1_000_000).lt(off)
}

impl DrawState {
    /// The underlines of the first `n` spans.
    pub open spec fn underlined(self, block: TextView, layout: SpanLayout, n: nat) -> DrawState
        decreases n,
    {
        if n == 0 {
            self
        } else {
            let s = self.underlined(block, layout, (n - 1) as nat);
            match block.underline(n - 1, layout) {
                Some((rect, color)) => s.quad(rect, color),
                None => s,
            }
        }
    }

    /// The block as it goes into the list: moved, zoomed and clipped.
    pub open spec fn placed(self, block: TextView) -> TextView {
        let m = self.transform();
        let origin = m.apply(Point { x: block.x, y: block.y });
        let scale = m.uniform_scale();
        let max_width = if zooms(scale) {
            block.max_width.times(scale)
        } else {
            block.max_width
        };
        TextView {
            x: origin.x,
            y: origin.y,
            font_size: if zooms(scale) {
                block.font_size.times(scale)
            } else {
                block.font_size
            },
            line_height: if zooms(scale) {
                block.line_height.times(scale)
            } else {
                block.line_height
            },
            max_width,
            clip: text_clip(
                block.clip,
                Rect { x: origin.x, y: origin.y, width: max_width, height: whole(2000) },
                self.clip(),
            ),
            transform: m,
            ..block
        }
    }

    /// A block, as it is, at the end of the list.
    #[verifier::opaque]
    pub open spec fn text_put(self, block: TextView) -> DrawState {
        let s = self.flushed();
        let i = self.texts.len() as u32;
        DrawState { texts: self.texts.push(block), ..s }.commanded(
            PaintCmd { kind: PaintKind::Text, start: i, end: i.wrapping_add(1) },
        )
    }

    /// With it noted that text is drawn turned or sheared, where it is.
    pub open spec fn text_noted(self) -> DrawState {
        DrawState {
            text_warned: self.text_warned || !self.transform().is_axis_aligned(),
            ..self
        }
    }

    /// A block of text with styled spans, after its underlines.
    #[verifier::opaque]
    pub open spec fn text_spans(self, block: TextView, layout: SpanLayout) -> DrawState {
        let b = block.joined().under(self.tint());
        self.text_noted().underlined(b, layout, b.spans.len()).text_put(self.placed(b))
    }

    /// A block of text without styled spans.
    #[verifier::opaque]
    pub open spec fn text(self, block: TextView) -> DrawState {
        self.text_noted().text_put(self.placed(block.under(self.tint())))
    }
}

fn join_spans(spans: &Vec<TextSpan>) -> (r: String)
    ensures
        r@ == spans_text(crate::text::span_views(spans@), spans@.len()),
{
    let mut r = String::new();
    let mut i: usize = 0;
    let ghost views = crate::text::span_views(spans@);
    while i < spans.len()
        invariant
            i <= spans@.len(),
            views == crate::text::span_views(spans@),
            r@ == spans_text(views, i as nat),
        decreases spans@.len() - i,
    {
        r.append(spans[i].text.as_str());
        i = i + 1;
    }
    r
}

fn tint_spans(spans: Vec<TextSpan>, t: Color) -> (r: Vec<TextSpan>)
    ensures
        crate::text::span_views(r@) == spans_under(crate::text::span_views(spans@), t),
{
    let mut r: Vec<TextSpan> = Vec::new();
    let plain = is_plain(t);
    let mut i: usize = 0;
    while i < spans.len()
        invariant
            i <= spans@.len(),
            plain == is_plain(t),
            r@.len() == i,
            forall|j: int| 0 <= j < i ==> (#[trigger] r@[j])@ == spans@[j]@.under(t),
        decreases spans@.len() - i,
    {
        let span = &spans[i];
        let color = match span.color {
            Some(c) => if plain {
                Some(c)
            } else {
                Some(tinted(c, t))
            },
            None => None,
        };
        let underline = match span.underline {
            Underline::Own(c) => if plain {
                Underline::Own(c)
            } else {
                Underline::Own(tinted(c, t))
            },
            other => other,
        };
        r.push(TextSpan { text: span.text.clone(), color, underline });
        i = i + 1;
    }
    assert(crate::text::span_views(r@) =~= spans_under(crate::text::span_views(spans@), t));
    r
}

impl DrawList {
    fn put_text(&mut self, block: TextBlock)
        ensures
            final(self)@ == old(self)@.text_put(block@),
    {
        proof {
            reveal(DrawState::text_put);
            reveal(DrawState::flushed);
            reveal(DrawState::commanded);
        }
        let ghost before = self@;
        self.flush_soup();
        let ghost mid = self@;
        let i: u32 = self.texts.len() as u32;
        self.texts.push(block);
        assert(self@.texts =~= mid.texts.push(block@));
        self.push_paint_cmd(PaintCmd { kind: PaintKind::Text, start: i, end: i.wrapping_add(1) });
        assert(self@ =~= before.text_put(block@));
    }

    fn note_text(&mut self)
        ensures
            final(self)@ == old(self)@.text_noted(),
    {
        if !self.current_transform().is_axis_aligned() {
            self.text_rotation_warned = true;
        }
        assert(self@ =~= old(self)@.text_noted());
    }

    /// The block moved, zoomed and clipped.
    fn place(&self, block: TextBlock) -> (r: TextBlock)
        ensures
            r@ == self@.placed(block@),
    {
        let m = self.current_transform();
        let mut b = block;
        b.transform = m;
        let origin = m.apply(Point { x: b.x, y: b.y });
        b.x = origin.x;
        b.y = origin.y;
        let scale = m.uniform_scale();
        if zooms(scale) {
            b.font_size = b.font_size.times(scale);
            b.line_height = b.line_height.times(scale);
            b.max_width = b.max_width.times(scale);
        }
        b.clip = text_clip(
            b.clip,
            Rect { x: b.x, y: b.y, width: b.max_width, height: whole(2000) },
            self.current_clip(),
        );
        assert(b@ =~= self@.placed(block@));
        b
    }

    /// A block of text without styled spans: tinted, moved, zoomed and clipped.
    pub fn text(&mut self, block: TextBlock)
        requires
            block@.spans.len() == 0,
        ensures
            final(self)@ == old(self)@.text(block@),
    {
        proof {
            reveal(DrawState::text);
        }
        self.note_text();
        let mut b = block;
        let tint = self.current_tint();
        b.color = tinted_rgba(b.color, tint);
        if !is_plain(tint) {
            b.style_range_tint = tint;
        }
        assert(b@ =~= block@.under(self@.tint()));
        let placed = self.place(b);
        self.put_text(placed);
    }

    /// A block of text with styled spans: its content is what the spans hold,
    /// and the spans that are underlined get a line each, drawn before the text.
    pub fn text_spans(&mut self, block: TextBlock, layout: &SpanLayout)
        ensures
            final(self)@ == old(self)@.text_spans(block@, *layout),
    {
        proof {
            reveal(DrawState::text_spans);
        }
        self.note_text();
        let ghost before = self@;
        let tint = self.current_tint();
        let TextBlock {
            content,
            x,
            y,
            font_size,
            line_height,
            max_width,
            color,
            align,
            ellipsize,
            font,
            spans,
            style_ranges,
            style_range_tint,
            clip,
            transform,
        } = block;
        let content = if spans.len() > 0 {
            join_spans(&spans)
        } else {
            content
        };
        let b = TextBlock {
            content,
            x,
            y,
            font_size,
            line_height,
            max_width,
            color: tinted_rgba(color, tint),
            align,
            ellipsize,
            font,
            spans: tint_spans(spans, tint),
            style_ranges,
            style_range_tint: if is_plain(tint) {
                style_range_tint
            } else {
                tint
            },
            clip,
            transform,
        };
        assert(b@ =~= block@.joined().under(tint));
        let thickness = b.font_size.times(ratio(7, 100)).at_least(whole(1));
        let y = b.y.plus(b.font_size.times(layout.baseline_ratio.plus(ratio(12, 100))));
        let fallback = as_color(b.color);
        let mut at: usize = 0;
        let mut i: usize = 0;
        while i < b.spans.len()
            invariant
                i <= b.spans@.len(),
                at == span_start(b@.spans, i as nat),
                thickness == b.font_size.times(ratio(7, 100)).at_least(whole(1)),
                y == b.y.plus(b.font_size.times(layout.baseline_ratio.plus(ratio(12, 100)))),
                fallback == as_color(b.color),
                self@ == before.underlined(b@, *layout, i as nat),
            decreases b.spans@.len() - i,
        {
            let span = &b.spans[i];
            let end: usize = at.wrapping_add(span.text.as_str().len());
            let x0 = span_cursor_x(&layout.positions, at);
            let x1 = span_cursor_x(&layout.positions, end);
            let line = match span.underline {
                Underline::Bare => None,
                Underline::Inherit => match span.color {
                    Some(c) => Some(c),
                    None => Some(fallback),
                },
                Underline::Own(c) => Some(c),
            };
            assert(b@.spans[i as int] == span@);
            match line {
                Some(color) => {
                    if x0.lt(x1) {
                        self.quad(
                            Rect { x: b.x.plus(x0), y, width: x1.minus(x0), height: thickness },
                            color,
                        );
                    }
                },
                None => {},
            }
            at = end;
            i = i + 1;
        }
        let ghost mid = self@;
        proof {
            lemma_underlines_keep(before, b@, *layout, b@.spans.len());
        }
        let placed = self.place(b);
        self.put_text(placed);
    }
}

/// Underlines change neither the transform nor the clip.
proof fn lemma_underlines_keep(state: DrawState, block: TextView, layout: SpanLayout, n: nat)
    ensures
        state.underlined(block, layout, n).placed(block) == state.placed(block),
        state.underlined(block, layout, n).transforms == state.transforms,
        state.underlined(block, layout, n).clips == state.clips,
    decreases n,
{
    if n > 0 {
        lemma_underlines_keep(state, block, layout, (n - 1) as nat);
        reveal(DrawState::quad);
        reveal(DrawState::quad_soup);
        reveal(DrawState::quadrangle);
        reveal(DrawState::chrome_instance);
        reveal(DrawState::flushed);
        reveal(DrawState::commanded);
    }
}

/// Turned or sheared text is noted once: the note outlasts it, and upright text
/// leaves none.
pub proof fn law_turned_text_is_noted_once(state: DrawState)
    ensures
        state.text_noted().text_noted() == state.text_noted(),
        state.text_warned ==> state.text_noted() == state,
        state.transform().is_axis_aligned() ==> state.text_noted() == state,
{
}

/// A block without spans is drawn the same either way.
pub proof fn law_no_spans_no_underlines(state: DrawState, block: TextView, layout: SpanLayout)
    requires
        block.spans.len() == 0,
    ensures
        state.text_spans(block, layout) == state.text(block),
{
    reveal(DrawState::text_spans);
    reveal(DrawState::text);
}

impl DrawState {
    /// A line of text in this color and font.
    pub open spec fn written(
        self,
        content: Seq<char>,
        at: Point,
        size: Scalar,
        color: Color,
        font: Option<FontHandle>,
    ) -> DrawState {
        self.text(TextView::plain(content, at.x, at.y, size).colored(color).in_font(font))
    }

    /// The same, cut at this width.
    pub open spec fn written_to(
        self,
        content: Seq<char>,
        at: Point,
        size: Scalar,
        color: Color,
        font: Option<FontHandle>,
        max_width: Scalar,
    ) -> DrawState {
        self.text(
            TextView::plain(content, at.x, at.y, size).colored(color).in_font(font).cut_at(
                max_width,
            ),
        )
    }
}

impl DrawList {
    /// The top of a line of text whose visual center lies `center` em below it, in
    /// the middle of `top..top + height`.
    pub fn vcentered_text_y(
        &self,
        top: Scalar,
        height: Scalar,
        font_size: Scalar,
        center: Scalar,
    ) -> (r: Scalar)
        ensures
            r == crate::context::vcentered(top, height, font_size, center),
    {
        crate::context::vcentered(top, height, font_size, center)
    }

    /// Write a line of text in this color and font.
    pub fn write(
        &mut self,
        content: &str,
        at: Point,
        size: Scalar,
        color: Color,
        font: Option<FontHandle>,
    )
        ensures
            final(self)@ == old(self)@.written(content@, at, size, color, font),
    {
        self.text(TextBlock::new(content, at.x, at.y, size).with_color(color).with_font(font));
    }

    /// Write a line of text and cut it, with an ellipsis, at this width.
    pub fn write_to(
        &mut self,
        content: &str,
        at: Point,
        size: Scalar,
        color: Color,
        font: Option<FontHandle>,
        max_width: Scalar,
    )
        ensures
            final(self)@ == old(self)@.written_to(content@, at, size, color, font, max_width),
    {
        self.text(
            TextBlock::new(content, at.x, at.y, size).with_color(color).with_font(
                font,
            ).with_ellipsis(max_width),
        );
    }
}

/// Under a transform that moves nothing a block is put at its own place, in its own size
/// and width, after the texts before it.
pub proof fn law_text_is_put_at_its_place(s: DrawState, block: TextView)
    requires
        s.transform() == crate::affine::Affine2::identity(),
        block.x.is_finite(),
        block.y.is_finite(),
    ensures
        ({
            let after = s.text(block);
            let t = after.texts.last();
            &&& after.texts == s.texts.push(t)
            &&& t.x.val() == block.x.val() && t.y.val() == block.y.val()
            &&& t.font_size == block.font_size && t.line_height == block.line_height
            &&& t.max_width == block.max_width
            &&& t.content == block.content
            &&& after.vertices == s.vertices && after.chrome == s.chrome
        }),
{
    reveal(DrawState::text);
    reveal(DrawState::text_put);
    reveal(DrawState::flushed);
    reveal(DrawState::commanded);
    crate::strokes::law_identity_moves_nothing(Point { x: block.x, y: block.y });
    lemma_no_zoom();
}

/// The transform that moves nothing does not zoom.
proof fn lemma_no_zoom()
    ensures
        !zooms(crate::affine::Affine2::identity().uniform_scale()),
{
    rounding::law_zero_and_one();
    rounding::law_unit_is_large();
    let u = rounding::unit();
    let one = whole(1);
    let zero = whole(0);
    assert(u * u == u * u && 0 * 0 == 0 * u) by (nonlinear_arith);
    rounding::law_times_exact(one, one, one);
    rounding::law_times_exact(zero, zero, zero);
    let a = one.times(one);
    let b = zero.times(zero);
    rounding::law_negate_exact(b);
    crate::scalar::law_plus_exact(a, b.negate(), one);
    let det = a.minus(b);
    assert(det.val() == u && det.is_finite());
    assert(!det.is_neg());
    rounding::law_sqrt_rounds(det);
    let r = det.sqrt();
    let v = r.val();
    assert(0x20_0000 * rounding::apart(v, u) <= u) by (nonlinear_arith)
        requires
            0x40_0000 * rounding::apart(v * v, u * u) <= v * v,
            v > 0,
            u > 0,
    ;
    crate::scalar::law_whole_exact(1_000_000);
    assert(rounding::size(u) * u <= rounding::size(u) * rounding::size(1_000_000 * u) && u * (1_000_000 * u) >= 0)
        by (nonlinear_arith)
        requires
            u > 0,
    ;
    rounding::law_over_bounded(one, whole(1_000_000), one);
    rounding::law_over_whole(one, 1_000_000);
    rounding::law_minus_bounded(r, one, one);
    rounding::law_minus_rounds(r, one);
    let off = r.minus(one);
    rounding::law_negate_exact(off);
    reveal(Scalar::spec_lt);
}

/// The caret of a byte is the first one given for it, and at the start where none is.
pub proof fn law_caret_is_the_first_for_its_byte(positions: Seq<(usize, Scalar)>, i: int, at: usize)
    ensures
        0 <= i < positions.len() && positions[i].0 == at && (forall|j: int|
            0 <= j < i ==> (#[trigger] positions[j]).0 != at) ==> cursor_x(positions, at)
            == positions[i].1,
        (forall|j: int| 0 <= j < positions.len() ==> (#[trigger] positions[j]).0 != at)
            ==> cursor_x(positions, at).val() == 0,
    decreases positions.len(),
{
    rounding::law_zero_and_one();
    if positions.len() > 0 {
        let rest = positions.skip(1);
        law_caret_is_the_first_for_its_byte(rest, i - 1, at);
        assert(forall|j: int| 0 <= j < rest.len() ==> rest[j] == positions[j + 1]);
    }
}

/// A tinted channel is the channel times the tint, rounded to a byte.
pub proof fn law_tinted_byte_is_the_product(v: u8, t: Scalar)
    requires
        t.is_finite(),
        0 <= t.val() <= rounding::unit(),
    ensures
        0x400 * rounding::apart(tinted_byte(v, t) * rounding::unit(), v * t.val()) <= 513
            * rounding::unit(),
{
    rounding::law_zero_and_one();
    rounding::law_unit_is_large();
    let u = rounding::unit();
    let n = v as int;
    crate::scalar::law_whole_exact(v as u64);
    crate::scalar::law_whole_exact(255);
    assert((n * u) * u <= u * (255 * u) && (n * u) * (255 * u) >= 0 && n * u >= 0 && n * u <= 255 * u) by (nonlinear_arith)
        requires
            0 <= n <= 255,
            u > 0,
    ;
    rounding::law_over_bounded(whole(v as u64), whole(255), whole(1));
    rounding::law_over_whole(whole(v as u64), 255);
    let q = whole(v as u64).over(whole(255));
    let f = q.val();
    let w = t.val();
    assert(0 <= f * w <= u * u) by (nonlinear_arith)
        requires
            0 <= f <= u,
            0 <= w <= u,
    ;
    rounding::law_times_bounded(q, t, whole(1));
    rounding::law_times_rounds(q, t);
    let part = q.times(t);
    let p = part.val();
    rounding::law_clamped_inside(part, whole(0), whole(1));
    assert(0 <= p * (255 * u) <= (255 * u) * u) by (nonlinear_arith)
        requires
            0 <= p <= u,
            u > 0,
    ;
    rounding::law_times_bounded(part, whole(255), whole(255));
    rounding::law_times_whole(part, 255);
    rounding::law_nearest_byte_is_near(part.times(whole(255)));
    lemma_tinted(n, f, w, p, u);
}

proof fn lemma_tinted(n: int, f: int, w: int, p: int, u: int)
    requires
        0 <= n <= 255,
        0 <= w <= u,
        0 <= f <= u,
        f * w <= u * u,
        0 <= f * w,
        0x100_0000 <= u,
        0x100_0000 * rounding::apart(p * u, f * w) <= f * w + u * 0x80_0000,
        0x100_0000 * rounding::apart(255 * f, n * u) <= n * u + 255 * 0x80_0000,
    ensures
        0x100_0000 * rounding::apart(255 * p, n * w) <= 1020 * u,
{
    let e = p * u - f * w;
    let d = 255 * f - n * u;
    let x = 255 * p - n * w;
    assert(x * u == 255 * e + w * d) by (nonlinear_arith)
        requires
            e == p * u - f * w,
            d == 255 * f - n * u,
            x == 255 * p - n * w,
    ;
    assert(u * 0x80_0000 <= u * u && n * u <= 255 * u) by (nonlinear_arith)
        requires
            0x80_0000 <= u,
            n <= 255,
    ;
    assert(0x100_0000 * rounding::size(d) <= 510 * u);
    assert(0x100_0000 * rounding::size(w * d) <= 510 * (u * u)) by (nonlinear_arith)
        requires
            0x100_0000 * rounding::size(d) <= 510 * u,
            0 <= w <= u,
            u > 0,
    ;
    assert(0x100_0000 * rounding::size(x * u) <= 1020 * (u * u));
    assert(0x100_0000 * rounding::size(x) <= 1020 * u) by (nonlinear_arith)
        requires
            0x100_0000 * rounding::size(x * u) <= 1020 * (u * u),
            u > 0,
    ;
}

} // verus!
