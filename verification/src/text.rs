//! Characters, strings and the text blocks of a draw list.

use crate::affine::Affine2;
use crate::geometry::{Color, Rect};
use crate::scalar::{ratio, whole, Scalar};
use std::sync::Arc;
use vstd::prelude::*;

verus! {

/// `String::push` appends the character.
pub assume_specification[ String::push ](s: &mut String, c: char)
    ensures
        final(s)@ == old(s)@.push(c),
;

/// `String::pop` removes the last character and returns it; an empty string
/// gives nothing and stays empty.
pub assume_specification[ String::pop ](s: &mut String) -> (r: Option<char>)
    ensures
        old(s)@.len() == 0 ==> r is None && final(s)@ == old(s)@,
        old(s)@.len() > 0 ==> r == Some(old(s)@.last()) && final(s)@ == old(s)@.drop_last(),
;

pub open spec fn spec_ascii_upper(c: char) -> char {
    if 'a' <= c <= 'z' {
        (c as u32 - 32) as char
    } else {
        c
    }
}

/// The ASCII letter `c` in upper case; any other character as it is.
#[verifier::when_used_as_spec(spec_ascii_upper)]
pub fn ascii_upper(c: char) -> (r: char)
    ensures
        r == spec_ascii_upper(c),
{
    if 'a' <= c && c <= 'z' {
        ((c as u32 - 32) as u8) as char
    } else {
        c
    }
}

/// Whether some character of `s` is `c`, ASCII case aside.
pub open spec fn holds_char(s: Seq<char>, c: char) -> bool {
    exists|i: int| 0 <= i < s.len() && spec_ascii_upper(#[trigger] s[i]) == spec_ascii_upper(c)
}

/// Whether some character of `s` is `c`, ASCII case aside.
pub fn has_char(s: &str, c: char) -> (r: bool)
    ensures
        r == holds_char(s@, c),
{
    let n: usize = s.unicode_len();
    let mut i: usize = 0;
    while i < n
        invariant
            i <= n,
            n == s@.len(),
            forall|j: int| 0 <= j < i ==> spec_ascii_upper(#[trigger] s@[j]) != spec_ascii_upper(c),
        decreases n - i,
    {
        if ascii_upper(s.get_char(i)) == ascii_upper(c) {
            return true;
        }
        i = i + 1;
    }
    false
}

/// The digit `d`.
pub open spec fn digit(d: nat) -> char {
    (d + 48) as char
}

/// `n` in decimal.
pub open spec fn decimal(n: nat) -> Seq<char>
    decreases n,
{
    if n < 10 {
        seq![digit(n)]
    } else {
        decimal(n / 10).push(digit(n % 10))
    }
}

/// `n` in decimal.
pub fn to_decimal(n: usize) -> (r: String)
    ensures
        r@ == decimal(n as nat),
    decreases n,
{
    let mut r = if n < 10 {
        String::new()
    } else {
        to_decimal(n / 10)
    };
    let d: u8 = (n % 10) as u8;
    r.push((d + 48) as char);
    assert(n < 10 ==> r@ =~= decimal(n as nat));
    r
}

/// The name of a widget's scope: what it is, then its label.
pub open spec fn labelled(what: Seq<char>, label: Seq<char>) -> Seq<char> {
    what + seq![':'] + label
}

/// The name of a widget's scope.
pub fn scope_name(what: &str, label: &str) -> (r: String)
    ensures
        r@ == labelled(what@, label@),
{
    let mut r = what.to_owned();
    r.push(':');
    r.append(label);
    assert(r@ =~= labelled(what@, label@));
    r
}


/// A color of four bytes.
#[derive(Clone, Copy, Debug, PartialEq, Eq, Structural, Hash)]
pub struct Rgba8 {
    /// Red.
    pub r: u8,
    /// Green.
    pub g: u8,
    /// Blue.
    pub b: u8,
    /// Opacity.
    pub a: u8,
}

/// Where the lines of a block start.
#[derive(Clone, Copy, Debug, PartialEq, Eq, Structural, Hash)]
pub enum TextAlign {
    /// At the left.
    Left,
    /// Centered.
    Center,
}

/// How a span is underlined.
#[derive(Clone, Copy, Debug, PartialEq, Eq, Structural, Hash)]
pub enum Underline {
    /// Not at all.
    Bare,
    /// In the color of the text.
    Inherit,
    /// In a color of its own.
    Own(Color),
}

/// A font, by the number the application gave it.
pub type FontHandle = u64;

/// A run of text with a style of its own.
#[derive(Debug)]
pub struct TextSpan {
    /// The run.
    pub text: String,
    /// Its color, where it is not the block's.
    pub color: Option<Color>,
    /// Its underline.
    pub underline: Underline,
}

/// A style for a range of a block's bytes.
#[derive(Clone, Copy, Debug, PartialEq, Eq, Structural, Hash)]
pub struct TextStyleRange {
    /// First byte.
    pub start: usize,
    /// Byte after the last.
    pub end: usize,
    /// Its color, where it is not the block's.
    pub color: Option<Color>,
    /// Its underline.
    pub underline: Underline,
}

/// A block of text to draw.
#[derive(Debug)]
pub struct TextBlock {
    /// What to draw.
    pub content: String,
    /// Left edge.
    pub x: Scalar,
    /// Top edge.
    pub y: Scalar,
    /// Size of the em.
    pub font_size: Scalar,
    /// Distance of the lines.
    pub line_height: Scalar,
    /// Width at which lines are broken or cut.
    pub max_width: Scalar,
    /// Color.
    pub color: Rgba8,
    /// Alignment within `max_width`.
    pub align: TextAlign,
    /// Cut a line that is too long, with an ellipsis.
    pub ellipsize: bool,
    /// Font, the default one where there is none.
    pub font: Option<FontHandle>,
    /// Styled runs; where there are any, they are the content.
    pub spans: Vec<TextSpan>,
    /// Styles for parts of the content, shared with whoever edits it.
    pub style_ranges: Arc<Vec<TextStyleRange>>,
    /// Multiplied with the colors of `style_ranges` once they are drawn.
    pub style_range_tint: Color,
    /// The part of the screen it may cover.
    pub clip: Option<Rect>,
    /// The transform in force when it was drawn.
    pub transform: Affine2,
}

/// What a [`TextSpan`] holds.
#[verifier::ext_equal]
pub struct SpanView {
    /// The run.
    pub text: Seq<char>,
    /// Its color.
    pub color: Option<Color>,
    /// Its underline.
    pub underline: Underline,
}

/// What a [`TextBlock`] holds.
#[verifier::ext_equal]
pub struct TextView {
    /// What to draw.
    pub content: Seq<char>,
    /// Left edge.
    pub x: Scalar,
    /// Top edge.
    pub y: Scalar,
    /// Size of the em.
    pub font_size: Scalar,
    /// Distance of the lines.
    pub line_height: Scalar,
    /// Width at which lines are broken or cut.
    pub max_width: Scalar,
    /// Color.
    pub color: Rgba8,
    /// Alignment.
    pub align: TextAlign,
    /// Ellipsis.
    pub ellipsize: bool,
    /// Font.
    pub font: Option<FontHandle>,
    /// Styled runs.
    pub spans: Seq<SpanView>,
    /// Styles for parts of the content.
    pub style_ranges: Seq<TextStyleRange>,
    /// Multiplied with their colors.
    pub style_range_tint: Color,
    /// The part of the screen it may cover.
    pub clip: Option<Rect>,
    /// The transform in force when it was drawn.
    pub transform: Affine2,
}

impl View for TextSpan {
    type V = SpanView;

    open spec fn view(&self) -> SpanView {
        SpanView { text: self.text@, color: self.color, underline: self.underline }
    }
}

/// What a list of spans holds.
pub open spec fn span_views(spans: Seq<TextSpan>) -> Seq<SpanView> {
    Seq::new(spans.len(), |i: int| spans[i]@)
}

impl View for TextBlock {
    type V = TextView;

    open spec fn view(&self) -> TextView {
        TextView {
            content: self.content@,
            x: self.x,
            y: self.y,
            font_size: self.font_size,
            line_height: self.line_height,
            max_width: self.max_width,
            color: self.color,
            align: self.align,
            ellipsize: self.ellipsize,
            font: self.font,
            spans: span_views(self.spans@),
            style_ranges: (*self.style_ranges)@,
            style_range_tint: self.style_range_tint,
            clip: self.clip,
            transform: self.transform,
        }
    }
}

pub open spec fn spec_byte(c: Scalar) -> u8 {
    c.times(whole(255)).truncated(255) as u8
}

/// A channel as a byte, rounded down.
#[verifier::when_used_as_spec(spec_byte)]
pub fn byte(c: Scalar) -> (r: u8)
    ensures
        r == spec_byte(c),
{
    c.times(whole(255)).truncated(255) as u8
}

pub open spec fn spec_rgb8(c: Color) -> Rgba8 {
    Rgba8 { r: byte(c.r), g: byte(c.g), b: byte(c.b), a: 255 }
}

/// The opaque color of three bytes that text is drawn in for `c`.
#[verifier::when_used_as_spec(spec_rgb8)]
pub fn rgb8(c: Color) -> (r: Rgba8)
    ensures
        r == spec_rgb8(c),
{
    Rgba8 { r: byte(c.r), g: byte(c.g), b: byte(c.b), a: 255 }
}

pub open spec fn spec_unbounded() -> Scalar {
    Scalar { bits: 0x7e7f_ffff }
}

/// The width of a block that is not bounded: a quarter of the largest scalar.
#[verifier::when_used_as_spec(spec_unbounded)]
pub fn unbounded() -> (r: Scalar)
    ensures
        r == spec_unbounded(),
{
    Scalar { bits: 0x7e7f_ffff }
}

/// How a text is set to find its carets.
#[derive(Clone, Copy, Debug, PartialEq, Eq, Structural)]
pub struct LineSetting {
    /// The distance of the lines.
    pub line_height: Scalar,
    /// Where the lines are broken.
    pub max_width: Scalar,
}

/// How a text of this size is set to find its carets: lines at five quarters of the
/// size, unbroken where there is no width.
pub fn line_setting(size: Scalar, max_width: Option<Scalar>) -> (r: LineSetting)
    ensures
        r.line_height == size.times(ratio(5, 4)),
        r.max_width == (match max_width {
            Some(w) => w,
            None => unbounded(),
        }),
{
    LineSetting {
        line_height: size.times(ratio(5, 4)),
        max_width: match max_width {
            Some(w) => w,
            None => unbounded(),
        },
    }
}

impl TextView {
    /// A plain block: unbounded, at the left, white, with no spans.
    pub open spec fn plain(content: Seq<char>, x: Scalar, y: Scalar, size: Scalar) -> TextView {
        TextView {
            content,
            x,
            y,
            font_size: size,
            line_height: size.times(ratio(5, 4)),
            max_width: unbounded(),
            color: Rgba8 { r: 255, g: 255, b: 255, a: 255 },
            align: TextAlign::Left,
            ellipsize: false,
            font: None,
            spans: Seq::empty(),
            style_ranges: Seq::empty(),
            style_range_tint: Color::white(whole(1)),
            clip: None,
            transform: Affine2::identity(),
        }
    }

    /// The block in this color.
    pub open spec fn colored(self, color: Color) -> TextView {
        TextView { color: rgb8(color), ..self }
    }

    /// The block in this font.
    pub open spec fn in_font(self, font: Option<FontHandle>) -> TextView {
        TextView { font, ..self }
    }

    /// The block cut, with an ellipsis, at this width.
    pub open spec fn cut_at(self, max_width: Scalar) -> TextView {
        TextView { max_width, ellipsize: true, ..self }
    }

    /// The block broken at this width.
    pub open spec fn broken_at(self, max_width: Scalar) -> TextView {
        TextView { max_width, ..self }
    }

    /// The block centered in its width.
    pub open spec fn centered(self) -> TextView {
        TextView { align: TextAlign::Center, ..self }
    }
}

impl TextBlock {
    /// A plain block of `content` with its top-left corner at `(x, y)`.
    pub fn new(content: &str, x: Scalar, y: Scalar, size: Scalar) -> (r: TextBlock)
        ensures
            r@ == TextView::plain(content@, x, y, size),
    {
        let r = TextBlock {
            content: content.to_owned(),
            x,
            y,
            font_size: size,
            line_height: size.times(ratio(5, 4)),
            max_width: unbounded(),
            color: Rgba8 { r: 255, g: 255, b: 255, a: 255 },
            align: TextAlign::Left,
            ellipsize: false,
            font: None,
            spans: Vec::new(),
            style_ranges: Arc::new(Vec::new()),
            style_range_tint: Color::white(whole(1)),
            clip: None,
            transform: Affine2::identity(),
        };
        assert(r@ =~= TextView::plain(content@, x, y, size));
        r
    }

    /// In the color `color`.
    pub fn with_color(self, color: Color) -> (r: TextBlock)
        ensures
            r@ == self@.colored(color),
    {
        let mut r = self;
        r.color = rgb8(color);
        r
    }

    /// In the font `font`.
    pub fn with_font(self, font: Option<FontHandle>) -> (r: TextBlock)
        ensures
            r@ == self@.in_font(font),
    {
        let mut r = self;
        r.font = font;
        r
    }

    /// Cut at `max_width` with an ellipsis.
    pub fn with_ellipsis(self, max_width: Scalar) -> (r: TextBlock)
        ensures
            r@ == self@.cut_at(max_width),
    {
        let mut r = self;
        r.max_width = max_width;
        r.ellipsize = true;
        r
    }

    /// Broken into lines at `max_width`.
    pub fn with_max_width(self, max_width: Scalar) -> (r: TextBlock)
        ensures
            r@ == self@.broken_at(max_width),
    {
        let mut r = self;
        r.max_width = max_width;
        r
    }

    /// Centered in its width.
    pub fn with_center(self) -> (r: TextBlock)
        ensures
            r@ == self@.centered(),
    {
        let mut r = self;
        r.align = TextAlign::Center;
        r
    }

    /// With styles for parts of its content, which stay shared.
    pub fn with_shared_style_ranges(self, ranges: Arc<Vec<TextStyleRange>>) -> (r: TextBlock)
        ensures
            r@ == (TextView { style_ranges: (*ranges)@, ..self@ }),
    {
        let mut r = self;
        r.style_ranges = ranges;
        r
    }
}

/// The number that a run of digits writes.
pub open spec fn written_number(s: Seq<char>) -> int
    decreases s.len(),
{
    if s.len() == 0 {
        0
    } else {
        written_number(s.drop_last()) * 10 + (s.last() as int - '0' as int)
    }
}

/// A number in decimal reads as itself, in digits without a leading zero.
pub proof fn law_decimal_reads_back(n: nat)
    ensures
        written_number(decimal(n)) == n,
        decimal(n).len() > 0,
        n > 0 ==> decimal(n)[0] != '0',
        forall|i: int| 0 <= i < decimal(n).len() ==> '0' <= #[trigger] decimal(n)[i] <= '9',
    decreases n,
{
    if n < 10 {
        assert(decimal(n).drop_last() == Seq::<char>::empty());
        assert(written_number(Seq::<char>::empty()) == 0);
    } else {
        law_decimal_reads_back(n / 10);
        assert(decimal(n).drop_last() == decimal(n / 10));
    }
}

/// Capitals keep the order of the small letters and are the capital letters; every other
/// character stays.
pub proof fn law_capitals(c: char)
    ensures
        'a' <= c <= 'z' ==> ascii_upper(c) as int - 'A' as int == c as int - 'a' as int,
        !('a' <= c <= 'z') ==> ascii_upper(c) == c,
        ascii_upper(ascii_upper(c)) == ascii_upper(c),
{
}

} // verus!
