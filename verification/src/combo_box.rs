//! Combo boxes: a field to type in, with a list of options that match.
//!
//! The trigger is a well with the current value or query and a chevron key. The
//! open list shows the options and marks in each the run that matches the
//! query, whatever the case.

use crate::context::{vcentered, CursorIcon, DrawContext};
use crate::draw_list::DrawList;
use crate::geometry::{Color, Point, Rect};
use crate::input::InputState;
use crate::material::{draw_well_simple, sheen_over};
use crate::rounding;
use crate::scalar::{ratio, whole, Scalar};
use crate::style::{StyleKey, StyleResolver};
use vstd::prelude::*;

verus! {

/// `s` in lower case, as `str::to_lowercase` gives it.
pub uninterp spec fn lowercase(s: Seq<char>) -> Seq<char>;

/// `str::to_lowercase` gives the lower case of the string's characters. What it
/// is on each character is a table of Unicode and is left unsaid.
pub assume_specification[ str::to_lowercase ](s: &str) -> (r: String)
    ensures
        r@ == lowercase(s@),
;

/// What happened in a trigger's frame.
#[derive(Debug, Clone)]
pub struct ComboOutput {
    /// The query after the edit, where it was edited.
    pub query: Option<String>,
    /// The chevron key was clicked.
    pub toggle_requested: bool,
    /// Enter was pressed in the field.
    pub submitted: bool,
    /// The field gained the focus in this frame.
    pub focus_gained: bool,
}

/// What a [`ComboOutput`] holds.
#[verifier::ext_equal]
pub struct ComboView {
    /// The query after the edit, where it was edited.
    pub query: Option<Seq<char>>,
    /// The chevron key was clicked.
    pub toggle_requested: bool,
    /// Enter was pressed in the field.
    pub submitted: bool,
    /// The field gained the focus in this frame.
    pub focus_gained: bool,
}

impl View for ComboOutput {
    type V = ComboView;

    open spec fn view(&self) -> ComboView {
        ComboView {
            query: match self.query {
                Some(q) => Some(q@),
                None => None,
            },
            toggle_requested: self.toggle_requested,
            submitted: self.submitted,
            focus_gained: self.focus_gained,
        }
    }
}

impl Default for ComboOutput {
    fn default() -> (r: Self)
        ensures
            r@ == (ComboView {
                query: None,
                toggle_requested: false,
                submitted: false,
                focus_gained: false,
            }),
    {
        ComboOutput {
            query: None,
            toggle_requested: false,
            submitted: false,
            focus_gained: false,
        }
    }
}

pub open spec fn spec_chevron_rect(rect: Rect) -> Rect {
    Rect {
        x: rect.right().minus(whole(17)).minus(whole(3)),
        y: rect.y.plus(rect.height.minus(whole(17)).times(ratio(1, 2))),
        width: whole(17),
        height: whole(17),
    }
}

/// Where the chevron key lies, at the right of the field.
#[verifier::when_used_as_spec(spec_chevron_rect)]
pub fn chevron_rect(rect: Rect) -> (r: Rect)
    ensures
        r == spec_chevron_rect(rect),
{
    Rect {
        x: rect.right().minus(whole(17)).minus(whole(3)),
        y: rect.y.plus(rect.height.minus(whole(17)).times(ratio(1, 2))),
        width: whole(17),
        height: whole(17),
    }
}

/// The field's text: the label, or an invitation where there is none and the
/// field has no focus.
#[verifier::opaque]
pub open spec fn text_painted(
    l: crate::draw_list::DrawState,
    rect: Rect,
    label: Seq<char>,
    focused: bool,
    center: Scalar,
    s: &StyleResolver,
) -> crate::draw_list::DrawState {
    let size = s.scalar(StyleKey::FontSize).times(ratio(9, 10));
    let pad = s.scalar(StyleKey::Padding).plus(whole(3));
    let bare = label.len() == 0 && !focused;
    l.written_to(
        if bare {
            "Select…"@
        } else {
            label
        },
        Point { x: rect.x.plus(pad), y: vcentered(rect.y, rect.height, size, center) },
        size,
        s.color(
            if bare {
                StyleKey::TextDim
            } else {
                StyleKey::Text
            },
        ),
        s.font,
        rect.width.minus(pad.times(whole(2))).minus(whole(17)).at_least(whole(20)),
    )
}

fn paint_text(
    list: &mut DrawList,
    rect: Rect,
    label: &str,
    focused: bool,
    center: Scalar,
    s: &StyleResolver,
)
    ensures
        final(list)@ == text_painted(old(list)@, rect, label@, focused, center, s),
{
    proof {
        reveal(text_painted);
    }
    let size = s.scalar(StyleKey::FontSize).times(ratio(9, 10));
    let pad = s.scalar(StyleKey::Padding).plus(whole(3));
    let bare = label.unicode_len() == 0 && !focused;
    let shown = if bare {
        "Select…"
    } else {
        label
    };
    let color = s.color(
        if bare {
            StyleKey::TextDim
        } else {
            StyleKey::Text
        },
    );
    list.write_to(
        shown,
        Point { x: rect.x.plus(pad), y: vcentered(rect.y, rect.height, size, center) },
        size,
        color,
        s.font,
        rect.width.minus(pad.times(whole(2))).minus(whole(17)).at_least(whole(20)),
    );
}

/// The chevron key: a face, a light line, and the caret as two strokes.
#[verifier::opaque]
pub open spec fn key_painted(
    l: crate::draw_list::DrawState,
    key: Rect,
    lit: bool,
    s: &StyleResolver,
) -> crate::draw_list::DrawState {
    let base = s.color(
        if lit {
            StyleKey::ButtonHover
        } else {
            StyleKey::Button
        },
    );
    let cx = key.x.plus(key.width.times(ratio(1, 2)));
    let cy = key.y.plus(key.height.times(ratio(1, 2)));
    let d = ratio(5, 2);
    let rise = d.times(ratio(6, 10));
    let color = s.color(StyleKey::Text);
    l.chrome_rect_gradient(
        key,
        s.scalar(StyleKey::BorderRadius),
        whole(1),
        sheen_over(base, s.color(StyleKey::FaceTop)),
        sheen_over(base, s.color(StyleKey::FaceBottom)),
        Color::black(ratio(1, 2)),
    ).quad(
        Rect {
            x: key.x.plus(whole(1)),
            y: key.y.plus(whole(1)),
            width: key.width.minus(whole(2)).at_least(whole(0)),
            height: whole(1),
        },
        s.color(StyleKey::EdgeHighlight),
    ).line(
        Point { x: cx.minus(d), y: cy.minus(rise) },
        Point { x: cx, y: cy.plus(rise) },
        ratio(14, 10),
        color,
    ).line(
        Point { x: cx, y: cy.plus(rise) },
        Point { x: cx.plus(d), y: cy.minus(rise) },
        ratio(14, 10),
        color,
    )
}

fn paint_key(list: &mut DrawList, key: Rect, lit: bool, s: &StyleResolver)
    ensures
        final(list)@ == key_painted(old(list)@, key, lit, s),
{
    proof {
        reveal(key_painted);
    }
    let base = s.color(
        if lit {
            StyleKey::ButtonHover
        } else {
            StyleKey::Button
        },
    );
    list.chrome_rect_gradient(
        key,
        s.scalar(StyleKey::BorderRadius),
        whole(1),
        sheen_over(base, s.color(StyleKey::FaceTop)),
        sheen_over(base, s.color(StyleKey::FaceBottom)),
        Color::black(ratio(1, 2)),
    );
    list.quad(
        Rect {
            x: key.x.plus(whole(1)),
            y: key.y.plus(whole(1)),
            width: key.width.minus(whole(2)).at_least(whole(0)),
            height: whole(1),
        },
        s.color(StyleKey::EdgeHighlight),
    );
    let cx = key.x.plus(key.width.times(ratio(1, 2)));
    let cy = key.y.plus(key.height.times(ratio(1, 2)));
    let d = ratio(5, 2);
    let rise = d.times(ratio(6, 10));
    let color = s.color(StyleKey::Text);
    list.line(
        Point { x: cx.minus(d), y: cy.minus(rise) },
        Point { x: cx, y: cy.plus(rise) },
        ratio(14, 10),
        color,
    );
    list.line(
        Point { x: cx, y: cy.plus(rise) },
        Point { x: cx.plus(d), y: cy.minus(rise) },
        ratio(14, 10),
        color,
    );
}

/// The query after the frame's typing: what was typed is appended, then
/// Backspace takes the last character.
pub open spec fn edited(label: Seq<char>, input: &InputState) -> Option<Seq<char>> {
    let typed = label + input.text_input@;
    if input.backspace_pressed {
        Some(
            if typed.len() == 0 {
                typed
            } else {
                typed.drop_last()
            },
        )
    } else if input.text_input@.len() > 0 {
        Some(typed)
    } else {
        None
    }
}

fn edit(label: &str, input: &InputState) -> (r: Option<String>)
    ensures
        match r {
            Some(q) => edited(label@, input) == Some(q@),
            None => edited(label@, input) is None,
        },
{
    let typed = input.text_input.as_str();
    let mut q = label.to_owned();
    q.append(typed);
    if input.backspace_pressed {
        let _ = q.pop();
        Some(q)
    } else if typed.unicode_len() > 0 {
        Some(q)
    } else {
        None
    }
}

pub open spec fn spec_focused_prev(rect: Rect, input: &InputState) -> bool {
    !(input.over(rect) && input.mouse_clicked)
}

/// Whether a focused field had the focus in the frame before, for a caller who did
/// not keep it: going by the click that could have given it, one on the field in
/// this frame.
#[verifier::when_used_as_spec(spec_focused_prev)]
pub fn focused_prev(rect: Rect, input: &InputState) -> (r: bool)
    ensures
        r == spec_focused_prev(rect, input),
{
    !(input.over(rect) && input.mouse_clicked)
}

/// What happened to the trigger.
pub open spec fn happened(
    rect: Rect,
    label: Seq<char>,
    focused: bool,
    focused_before: bool,
    input: &InputState,
) -> ComboView {
    ComboView {
        query: if focused {
            edited(label, input)
        } else {
            None
        },
        toggle_requested: input.over(chevron_rect(rect)) && input.mouse_clicked,
        submitted: focused && input.enter_pressed,
        focus_gained: focused && !focused_before,
    }
}

/// What the trigger paints.
pub open spec fn trigger_painted(
    l: crate::draw_list::DrawState,
    rect: Rect,
    label: Seq<char>,
    open: bool,
    focused: bool,
    center: Scalar,
    s: &StyleResolver,
    input: &InputState,
) -> crate::draw_list::DrawState {
    key_painted(
        text_painted(
            crate::material::well_simple(
                l.scoped("ComboBox"@, rect),
                s,
                rect,
                focused || open,
                false,
            ),
            rect,
            label,
            focused,
            center,
            s,
        ),
        chevron_rect(rect),
        input.over(chevron_rect(rect)) || open,
        s,
    ).scope_closed()
}

/// Draw the trigger with `label`, the current value or the query. `center` is
/// where the visual center of the label lies below its top, in em. The field has the
/// focus where `focused`, and had it in the frame before where `focused_before`.
pub fn draw_trigger(
    rect: Rect,
    label: &str,
    center: Scalar,
    open: bool,
    focused: bool,
    focused_before: bool,
    ctx: &mut DrawContext,
) -> (out: ComboOutput)
    ensures
        out@ == happened(rect, label@, focused, focused_before, &old(ctx).frame.input),
        final(ctx)@ == (crate::context::Scene {
            list: trigger_painted(
                old(ctx)@.list,
                rect,
                label@,
                open,
                focused,
                center,
                &old(ctx).frame.styles,
                &old(ctx).frame.input,
            ),
            ..old(ctx)@.pointed(old(ctx).frame.input.over(rect), CursorIcon::Text)
        }),
        final(ctx).frame == old(ctx).frame,
{
    ctx.draw_list.push_debug_scope_rect("ComboBox", rect);
    draw_well_simple(&mut ctx.draw_list, &ctx.frame.styles, rect, focused || open, false);
    if ctx.frame.input.over(rect) {
        ctx.request_cursor(CursorIcon::Text);
    }
    paint_text(&mut ctx.draw_list, rect, label, focused, center, &ctx.frame.styles);
    let key = chevron_rect(rect);
    let on_key = ctx.frame.input.over(key);
    paint_key(&mut ctx.draw_list, key, on_key || open, &ctx.frame.styles);
    ctx.draw_list.pop_debug_scope();
    let query = if focused {
        edit(label, &ctx.frame.input)
    } else {
        None
    };
    ComboOutput {
        query,
        toggle_requested: on_key && ctx.frame.input.mouse_clicked,
        submitted: focused && ctx.frame.input.enter_pressed,
        focus_gained: focused && !focused_before,
    }
}

/// Whether `needle` stands in `hay` at `i`.
pub open spec fn stands_at(hay: Seq<char>, needle: Seq<char>, i: int) -> bool {
    0 <= i && i + needle.len() <= hay.len() && hay.subrange(i, i + needle.len()) =~= needle
}

/// The first place from `i` on at which `needle` stands in `hay`.
pub open spec fn first_from(hay: Seq<char>, needle: Seq<char>, i: nat) -> Option<usize>
    decreases hay.len() - i,
{
    if i + needle.len() > hay.len() {
        None
    } else if stands_at(hay, needle, i as int) {
        Some(i as usize)
    } else if i == hay.len() {
        None
    } else {
        first_from(hay, needle, i + 1)
    }
}

fn starts_here(hay: &str, needle: &str, i: usize, n: usize, m: usize) -> (r: bool)
    requires
        n == hay@.len(),
        m == needle@.len(),
        i + m <= n,
    ensures
        r == stands_at(hay@, needle@, i as int),
{
    let mut k: usize = 0;
    while k < m
        invariant
            k <= m,
            n == hay@.len(),
            m == needle@.len(),
            i + m <= n,
            forall|j: int| 0 <= j < k ==> hay@[i + j] == needle@[j],
        decreases m - k,
    {
        if hay.get_char(i + k) != needle.get_char(k) {
            assert(hay@.subrange(i as int, i + m)[k as int] != needle@[k as int]);
            return false;
        }
        k = k + 1;
    }
    assert(hay@.subrange(i as int, i + m) =~= needle@);
    true
}

/// The first place at which `needle` stands in `hay`.
pub fn first_match(hay: &str, needle: &str) -> (r: Option<usize>)
    ensures
        r == first_from(hay@, needle@, 0),
        r matches Some(i) ==> i + needle@.len() <= hay@.len() <= usize::MAX,
{
    let n: usize = hay.unicode_len();
    let m: usize = needle.unicode_len();
    if m > n {
        return None;
    }
    let mut i: usize = 0;
    while i < n - m
        invariant
            n == hay@.len(),
            m == needle@.len(),
            m <= n,
            i <= n - m,
            first_from(hay@, needle@, 0) == first_from(hay@, needle@, i as nat),
        decreases n - m - i,
    {
        if starts_here(hay, needle, i, n, m) {
            return Some(i);
        }
        i = i + 1;
    }
    if starts_here(hay, needle, i, n, m) {
        Some(i)
    } else {
        proof {
            reveal_with_fuel(first_from, 2);
        }
        None
    }
}

/// The first place from `i` on whose count is over `k`; the end where there is none.
pub open spec fn first_over(counts: Seq<usize>, k: int, i: int) -> int
    decreases counts.len() - i,
{
    if i >= counts.len() || counts[i] > k {
        i
    } else {
        first_over(counts, k, i + 1)
    }
}

/// The run of an option that matches, given how many characters the lower case of
/// its first 0, 1, 2 and so on has, and the lower case of the option and of the
/// query: all the characters whose lower case the match lies in. An empty query
/// matches nothing.
pub open spec fn run_of(counts: Seq<usize>, lower: Seq<char>, q: Seq<char>) -> Option<(usize, usize)> {
    if q.len() == 0 {
        None
    } else {
        match first_from(lower, q, 0) {
            Some(at) => {
                let from = first_over(counts, at as int, 1) - 1;
                let to = first_over(counts, at + q.len() - 1, from);
                Some((from as usize, crate::list::least(to, counts.len() - 1) as usize))
            },
            None => None,
        }
    }
}

/// How many characters the lower case of the first `i` characters of an option has.
pub open spec fn lower_len(option: Seq<char>, i: int) -> nat {
    lowercase(option.subrange(0, i)).len()
}

/// The same for the first 0, 1, 2 and so on up to the whole option.
pub open spec fn lower_lens(option: Seq<char>) -> Seq<usize> {
    Seq::new(option.len() + 1, |i: int| lower_len(option, i) as usize)
}

/// The run of `option` that matches `query`, whatever the case.
pub open spec fn match_of(option: Seq<char>, query: Seq<char>) -> Option<(usize, usize)> {
    run_of(lower_lens(option), lowercase(option), lowercase(query))
}

fn find_over(counts: &[usize], k: usize, from: usize) -> (r: usize)
    requires
        from <= counts@.len(),
    ensures
        r == first_over(counts@, k as int, from as int),
        from <= r <= counts@.len(),
{
    let mut i: usize = from;
    while i < counts.len() && counts[i] <= k
        invariant
            from <= i <= counts@.len(),
            first_over(counts@, k as int, from as int) == first_over(counts@, k as int, i as int),
        decreases counts@.len() - i,
    {
        i = i + 1;
    }
    i
}

/// The run of an option that matches, given how many characters the lower case of
/// its first 0, 1, 2 and so on has, and the lower case of the option and of the
/// query.
pub fn run_in(counts: &[usize], lower: &str, q: &str) -> (r: Option<(usize, usize)>)
    requires
        counts@.len() > 0,
    ensures
        r == run_of(counts@, lower@, q@),
        r matches Some((a, b)) ==> a <= b < counts@.len(),
{
    let width: usize = q.unicode_len();
    if width == 0 {
        return None;
    }
    match first_match(lower, q) {
        Some(at) => {
            let from: usize = find_over(counts, at, 1) - 1;
            let to: usize = find_over(counts, at + (width - 1), from);
            if to < counts.len() {
                Some((from, to))
            } else {
                Some((from, counts.len() - 1))
            }
        },
        None => None,
    }
}

/// The run of `option` that matches `query`, from its first character to the one
/// after its last: where the query first stands in the option, in lower case.
pub fn match_run(option: &str, query: &str) -> (r: Option<(usize, usize)>)
    ensures
        r == match_of(option@, query@),
        r matches Some((a, b)) ==> a <= b <= option@.len(),
{
    let q = query.to_lowercase();
    let lower = option.to_lowercase();
    let n: usize = option.unicode_len();
    let mut counts: Vec<usize> = Vec::new();
    let mut i: usize = 0;
    while i < n
        invariant
            i <= n,
            n == option@.len(),
            counts@.len() == i,
            forall|j: int| 0 <= j < i ==> #[trigger] counts@[j] == lower_len(option@, j),
        decreases n - i,
    {
        let start = option.substring_char(0, i).to_lowercase();
        counts.push(start.as_str().unicode_len());
        i = i + 1;
    }
    counts.push(lower.as_str().unicode_len());
    assert(option@.subrange(0, n as int) =~= option@);
    assert(counts@ =~= lower_lens(option@));
    run_in(counts.as_slice(), lower.as_str(), q.as_str())
}

/// How an option's texts measure.
#[derive(Clone, Copy, Debug, PartialEq, Eq, Structural)]
pub struct RowMetrics {
    /// Where the visual center of the option lies below its top, in em.
    pub center: Scalar,
    /// The width of what stands before the run.
    pub before: Scalar,
    /// The width of the run.
    pub within: Scalar,
}

pub open spec fn spec_row_h(s: &StyleResolver) -> Scalar {
    whole(19).at_least(s.scalar(StyleKey::FontSize).plus(whole(7)))
}

/// The height of an option.
#[verifier::when_used_as_spec(spec_row_h)]
pub fn row_h(s: &StyleResolver) -> (r: Scalar)
    ensures
        r == spec_row_h(s),
{
    whole(19).at_least(s.scalar(StyleKey::FontSize).plus(whole(7)))
}

pub open spec fn spec_row(list_rect: Rect, scroll: Scalar, height: Scalar, i: usize) -> Rect {
    Rect {
        x: list_rect.x,
        y: list_rect.y.plus(whole(i as u64).times(height)).minus(scroll),
        width: list_rect.width,
        height,
    }
}

/// Where option `i` lies at this scroll offset.
#[verifier::when_used_as_spec(spec_row)]
pub fn row(list_rect: Rect, scroll: Scalar, height: Scalar, i: usize) -> (r: Rect)
    ensures
        r == spec_row(list_rect, scroll, height, i),
{
    Rect {
        x: list_rect.x,
        y: list_rect.y.plus(whole(i as u64).times(height)).minus(scroll),
        width: list_rect.width,
        height,
    }
}

pub open spec fn spec_shows(list_rect: Rect, r: Rect) -> bool {
    !(r.y.plus(r.height).le(list_rect.y) || list_rect.bottom().le(r.y))
}

/// Whether an option shows.
#[verifier::when_used_as_spec(spec_shows)]
pub fn shows(list_rect: Rect, r: Rect) -> (b: bool)
    ensures
        b == spec_shows(list_rect, r),
{
    !(r.y.plus(r.height).le(list_rect.y) || list_rect.bottom().le(r.y))
}

/// A piece of an option written, where it is not empty.
pub open spec fn piece_written(
    l: crate::draw_list::DrawState,
    piece: Seq<char>,
    at: Point,
    size: Scalar,
    color: Color,
    s: &StyleResolver,
) -> crate::draw_list::DrawState {
    if piece.len() == 0 {
        l
    } else {
        l.written(piece, at, size, color, s.font)
    }
}

fn write_piece(
    list: &mut DrawList,
    piece: &str,
    at: Point,
    size: Scalar,
    color: Color,
    s: &StyleResolver,
)
    ensures
        final(list)@ == piece_written(old(list)@, piece@, at, size, color, s),
{
    if piece.unicode_len() > 0 {
        list.write(piece, at, size, color, s.font);
    }
}

pub open spec fn spec_past(x: Scalar, empty: bool, width: Scalar) -> Scalar {
    if empty {
        x
    } else {
        x.plus(width)
    }
}

/// Where the next piece starts.
#[verifier::when_used_as_spec(spec_past)]
pub fn past(x: Scalar, empty: bool, width: Scalar) -> (r: Scalar)
    ensures
        r == spec_past(x, empty, width),
{
    if empty {
        x
    } else {
        x.plus(width)
    }
}

/// An option painted: the accent behind it where it is selected or hovered, then
/// its text, with the run that matches in the accent color.
#[verifier::opaque]
pub open spec fn option_painted(
    l: crate::draw_list::DrawState,
    r: Rect,
    option: Seq<char>,
    query: Seq<char>,
    m: RowMetrics,
    selected: bool,
    hovered: bool,
    s: &StyleResolver,
) -> crate::draw_list::DrawState {
    let size = s.scalar(StyleKey::FontSize).times(ratio(9, 10));
    let y = vcentered(r.y, r.height, size, m.center);
    let fg = s.color(
        if selected {
            StyleKey::OnAccent
        } else {
            StyleKey::Text
        },
    );
    let x = r.x.plus(whole(8));
    let l = if selected || hovered {
        l.quad(
            r,
            s.color(StyleKey::Accent).with_alpha(
                if selected {
                    whole(1)
                } else {
                    ratio(2, 10)
                },
            ),
        )
    } else {
        l
    };
    match match_of(option, query) {
        Some((a, b)) => {
            let x1 = past(x, a == 0, m.before);
            let x2 = past(x1, a == b, m.within);
            let marked = s.color(
                if selected {
                    StyleKey::OnAccent
                } else {
                    StyleKey::Accent
                },
            );
            piece_written(
                piece_written(
                    piece_written(
                        l,
                        option.subrange(0, a as int),
                        Point { x, y },
                        size,
                        fg,
                        s,
                    ),
                    option.subrange(a as int, b as int),
                    Point { x: x1, y },
                    size,
                    marked,
                    s,
                ),
                option.subrange(b as int, option.len() as int),
                Point { x: x2, y },
                size,
                fg,
                s,
            )
        },
        None => l.written(option, Point { x, y }, size, fg, s.font),
    }
}

fn paint_option(
    list: &mut DrawList,
    r: Rect,
    option: &str,
    query: &str,
    m: RowMetrics,
    selected: bool,
    hovered: bool,
    s: &StyleResolver,
)
    ensures
        final(list)@ == option_painted(old(list)@, r, option@, query@, m, selected, hovered, s),
{
    proof {
        reveal(option_painted);
    }
    let size = s.scalar(StyleKey::FontSize).times(ratio(9, 10));
    let y = vcentered(r.y, r.height, size, m.center);
    let fg = s.color(
        if selected {
            StyleKey::OnAccent
        } else {
            StyleKey::Text
        },
    );
    let x = r.x.plus(whole(8));
    if selected || hovered {
        let a = if selected {
            whole(1)
        } else {
            ratio(2, 10)
        };
        list.quad(r, s.color(StyleKey::Accent).with_alpha(a));
    }
    let len: usize = option.unicode_len();
    match match_run(option, query) {
        Some((a, b)) => {
            let x1 = past(x, a == 0, m.before);
            let x2 = past(x1, a == b, m.within);
            let marked = s.color(
                if selected {
                    StyleKey::OnAccent
                } else {
                    StyleKey::Accent
                },
            );
            write_piece(list, option.substring_char(0, a), Point { x, y }, size, fg, s);
            write_piece(list, option.substring_char(a, b), Point { x: x1, y }, size, marked, s);
            write_piece(list, option.substring_char(b, len), Point { x: x2, y }, size, fg, s);
        },
        None => {
            list.write(option, Point { x, y }, size, fg, s.font);
        },
    }
}

pub open spec fn spec_metrics_at(metrics: &[RowMetrics], i: usize) -> RowMetrics {
    if i < metrics@.len() {
        metrics@[i as int]
    } else {
        RowMetrics { center: whole(0), before: whole(0), within: whole(0) }
    }
}

/// How option `i` measures; one that was not measured has no extent.
#[verifier::when_used_as_spec(spec_metrics_at)]
pub fn metrics_at(metrics: &[RowMetrics], i: usize) -> (r: RowMetrics)
    ensures
        r == spec_metrics_at(metrics, i),
{
    if i < metrics.len() {
        metrics[i]
    } else {
        RowMetrics { center: whole(0), before: whole(0), within: whole(0) }
    }
}

/// Which options a click lands on.
pub open spec fn hits(list_rect: Rect, scroll: Scalar, s: &StyleResolver, input: &InputState) -> spec_fn(
    int,
) -> bool {
    |i: int|
        {
            let r = row(list_rect, scroll, row_h(s), i as usize);
            shows(list_rect, r) && input.over(r) && input.mouse_clicked
        }
}

/// The first `n` options painted.
pub open spec fn options_painted(
    l: crate::draw_list::DrawState,
    list_rect: Rect,
    options: &[&str],
    selected: Option<usize>,
    query: &str,
    metrics: &[RowMetrics],
    scroll: Scalar,
    s: &StyleResolver,
    input: &InputState,
    n: nat,
) -> crate::draw_list::DrawState
    decreases n,
{
    if n == 0 {
        l
    } else {
        let i = (n - 1) as usize;
        let r = row(list_rect, scroll, row_h(s), i);
        let before = options_painted(
            l,
            list_rect,
            options,
            selected,
            query,
            metrics,
            scroll,
            s,
            input,
            i as nat,
        );
        if shows(list_rect, r) {
            option_painted(
                before,
                r,
                options@[i as int]@,
                query@,
                metrics_at(metrics, i),
                selected == Some(i),
                input.over(r),
                s,
            )
        } else {
            before
        }
    }
}

/// What the open list paints: its panel, and the options that show.
pub open spec fn list_painted(
    l: crate::draw_list::DrawState,
    list_rect: Rect,
    options: &[&str],
    selected: Option<usize>,
    query: &str,
    metrics: &[RowMetrics],
    scroll: Scalar,
    s: &StyleResolver,
    input: &InputState,
) -> crate::draw_list::DrawState {
    options_painted(
        l.scoped("ComboBox list"@, list_rect).chrome_rect(
            list_rect,
            s.scalar(StyleKey::BorderRadius),
            whole(1),
            s.color(StyleKey::Panel),
            Color::black(ratio(7, 10)),
        ),
        list_rect,
        options,
        selected,
        query,
        metrics,
        scroll,
        s,
        input,
        options@.len(),
    ).scope_closed()
}

fn draw_options(
    list: &mut DrawList,
    list_rect: Rect,
    options: &[&str],
    selected: Option<usize>,
    query: &str,
    metrics: &[RowMetrics],
    scroll: Scalar,
    s: &StyleResolver,
    input: &InputState,
) -> (clicked: Option<usize>)
    ensures
        final(list)@ == options_painted(
            old(list)@,
            list_rect,
            options,
            selected,
            query,
            metrics,
            scroll,
            s,
            input,
            options@.len(),
        ),
        clicked == crate::context::last_hit(
            hits(list_rect, scroll, s, input),
            options@.len(),
        ),
{
    let n: usize = options.len();
    let height = row_h(s);
    let mut clicked: Option<usize> = None;
    let mut i: usize = 0;
    while i < n
        invariant
            i <= n,
            n == options@.len(),
            height == row_h(s),
            list@ == options_painted(
                old(list)@,
                list_rect,
                options,
                selected,
                query,
                metrics,
                scroll,
                s,
                input,
                i as nat,
            ),
            clicked == crate::context::last_hit(hits(list_rect, scroll, s, input), i as nat),
        decreases n - i,
    {
        let r = row(list_rect, scroll, height, i);
        if shows(list_rect, r) {
            let hovered = input.over(r);
            let is_selected = match selected {
                Some(k) => k == i,
                None => false,
            };
            paint_option(
                list,
                r,
                options[i],
                query,
                metrics_at(metrics, i),
                is_selected,
                hovered,
                s,
            );
            if hovered && input.mouse_clicked {
                clicked = Some(i);
            }
        }
        i = i + 1;
    }
    clicked
}

/// Draw the open list into `list_rect`, scrolled by `scroll`, with the runs that
/// match `query` marked, and give the option that was clicked. `metrics` says how
/// each option's texts measure, cut at the run that [`match_run`] gives.
pub fn draw_list(
    list_rect: Rect,
    options: &[&str],
    selected: Option<usize>,
    query: &str,
    metrics: &[RowMetrics],
    scroll: Scalar,
    ctx: &mut DrawContext,
) -> (clicked: Option<usize>)
    ensures
        clicked == crate::context::last_hit(
            hits(list_rect, scroll, &old(ctx).frame.styles, &old(ctx).frame.input),
            options@.len(),
        ),
        final(ctx)@ == (crate::context::Scene {
            list: list_painted(
                old(ctx)@.list,
                list_rect,
                options,
                selected,
                query,
                metrics,
                scroll,
                &old(ctx).frame.styles,
                &old(ctx).frame.input,
            ),
            ..old(ctx)@
        }),
        final(ctx).frame == old(ctx).frame,
{
    ctx.draw_list.push_debug_scope_rect("ComboBox list", list_rect);
    ctx.draw_list.chrome_rect(
        list_rect,
        ctx.frame.styles.scalar(StyleKey::BorderRadius),
        whole(1),
        ctx.frame.styles.color(StyleKey::Panel),
        Color::black(ratio(7, 10)),
    );
    let clicked = draw_options(
        &mut ctx.draw_list,
        list_rect,
        options,
        selected,
        query,
        metrics,
        scroll,
        &ctx.frame.styles,
        &ctx.frame.input,
    );
    ctx.draw_list.pop_debug_scope();
    clicked
}

/// Typing is heard by a focused field alone.
pub proof fn law_unfocused_field_hears_nothing(
    rect: Rect,
    label: Seq<char>,
    before: bool,
    input: &InputState,
)
    ensures
        happened(rect, label, false, before, input).query is None,
        !happened(rect, label, false, before, input).submitted,
        !happened(rect, label, false, before, input).focus_gained,
{
}

/// The focus is gained in the first of several frames that have it, however it was
/// given, and in none of the others.
pub proof fn law_focus_is_gained_once(rect: Rect, label: Seq<char>, input: &InputState)
    ensures
        happened(rect, label, true, false, input).focus_gained,
        !happened(rect, label, true, true, input).focus_gained,
{
}

/// Backspace takes back one typed character.
pub proof fn law_backspace_undoes_a_character(label: Seq<char>, c: char, input: &InputState)
    requires
        input.text_input@ == seq![c],
        input.backspace_pressed,
    ensures
        edited(label, input) == Some(label),
{
    assert((label + seq![c]).drop_last() =~= label);
}

/// A click on the list falls on an option that shows, under the pointer; the
/// query changes nothing of it.
pub proof fn law_clicked_option_is_under_the_pointer(
    list_rect: Rect,
    scroll: Scalar,
    s: &StyleResolver,
    input: &InputState,
    n: nat,
)
    requires
        n <= usize::MAX,
    ensures
        crate::context::last_hit(hits(list_rect, scroll, s, input), n) matches Some(i) ==> i < n
            && input.over(row(list_rect, scroll, row_h(s), i)),
{
    crate::context::lemma_last_hit(hits(list_rect, scroll, s, input), n);
}

proof fn lemma_first_from(hay: Seq<char>, needle: Seq<char>, i: nat)
    requires
        hay.len() <= usize::MAX,
    ensures
        match first_from(hay, needle, i) {
            Some(k) => i <= k && stands_at(hay, needle, k as int) && forall|j: int|
                i <= j < k ==> !stands_at(hay, needle, j),
            None => forall|j: int| i <= j ==> !stands_at(hay, needle, j),
        },
    decreases hay.len() - i,
{
    if i + needle.len() <= hay.len() && !stands_at(hay, needle, i as int) && i < hay.len() {
        lemma_first_from(hay, needle, i + 1);
    }
}

/// A match is the first place at which the query stands in the option, in lower
/// case, and there is one wherever the query stands in the option.
pub proof fn law_match_is_the_first(option: Seq<char>, query: Seq<char>)
    requires
        lowercase(option).len() <= usize::MAX,
        lowercase(query).len() > 0,
    ensures
        match first_from(lowercase(option), lowercase(query), 0) {
            Some(k) => stands_at(lowercase(option), lowercase(query), k as int) && forall|j: int|
                0 <= j < k ==> !stands_at(lowercase(option), lowercase(query), j),
            None => forall|j: int| !stands_at(lowercase(option), lowercase(query), j),
        },
        match_of(option, query) is Some <==> exists|j: int|
            stands_at(lowercase(option), lowercase(query), j),
{
    lemma_first_from(lowercase(option), lowercase(query), 0);
    let at = first_from(lowercase(option), lowercase(query), 0);
    if at is Some {
        assert(stands_at(lowercase(option), lowercase(query), at->0 as int));
    }
}

/// Whether each further character of an option makes its lower case longer.
pub open spec fn lengthens(option: Seq<char>) -> bool {
    forall|i: int, j: int|
        0 <= i < j <= option.len() ==> #[trigger] lower_len(option, i) < #[trigger] lower_len(
            option,
            j,
        )
}

/// Where the match starts with the lower case of character `a` of the option and
/// ends with that of the character before `b`, those are the characters of the run,
/// and their part of the lower case is the query's.
pub proof fn law_run_is_the_query(option: Seq<char>, query: Seq<char>, a: int, b: int)
    requires
        lengthens(option),
        lowercase(option).len() <= usize::MAX,
        option.len() < usize::MAX,
        lowercase(query).len() > 0,
        0 <= a <= b <= option.len(),
        first_from(lowercase(option), lowercase(query), 0) == Some(lower_len(option, a) as usize),
        lower_len(option, b) == lower_len(option, a) + lowercase(query).len(),
    ensures
        match_of(option, query) == Some((a as usize, b as usize)),
        lowercase(option).subrange(
            lower_len(option, a) as int,
            lower_len(option, b) as int,
        ) == lowercase(query),
{
    let n = option.len() as int;
    let counts = lower_lens(option);
    assert(option.subrange(0, n) =~= option);
    assert forall|i: int| 0 <= i <= n implies #[trigger] counts[i] == lower_len(option, i) by {
        if i < n {
            assert(lower_len(option, i) < lower_len(option, n));
        }
    }
    lemma_first_from(lowercase(option), lowercase(query), 0);
    let at = lower_len(option, a) as int;
    let end = lower_len(option, b) as int;
    lemma_first_over(counts, at, 1, a + 1);
    lemma_first_over(counts, end - 1, a, b);
}

/// In counts that grow, the first one over `k` stands at `j`.
proof fn lemma_first_over(counts: Seq<usize>, k: int, i: int, j: int)
    requires
        0 <= i <= j <= counts.len(),
        forall|x: int| i <= x < j ==> counts[x] <= k,
        j < counts.len() ==> counts[j] > k,
    ensures
        first_over(counts, k, i) == j,
    decreases j - i,
{
    if i < j {
        lemma_first_over(counts, k, i + 1, j);
    }
}

/// The options lie under each other, the first one at the top of the list as far up as the
/// list is scrolled, each a row high; and a click on one that shows picks an option under
/// the pointer.
pub proof fn law_options_lie_under_each_other(list_rect: Rect, scroll: Scalar, h: Scalar, i: usize, y: int, sc: int, n: int)
    requires
        rounding::in_steps(list_rect.y, y),
        rounding::in_steps(scroll, sc),
        rounding::in_steps(h, n),
        n >= 0,
        i <= 0x1_0000,
        rounding::size(y) + rounding::size(sc) + (i + 1) * n <= 0x40_0000,
    ensures
        rounding::in_steps(row(list_rect, scroll, h, i).y, y + i * n - sc),
        row(list_rect, scroll, h, i).x == list_rect.x,
        row(list_rect, scroll, h, i).width == list_rect.width,
        row(list_rect, scroll, h, i).height == h,
{
    let k = i as int;
    assert((k + 1) * n == k * n + n && k * n >= 0) by (nonlinear_arith)
        requires
            n >= 0,
            k >= 0,
    ;
    rounding::law_whole_times_steps(i as u64, h, n);
    rounding::law_plus_steps(list_rect.y, whole(i as u64).times(h), y, k * n);
    rounding::law_minus_steps(list_rect.y.plus(whole(i as u64).times(h)), scroll, y + k * n, sc);
}

/// A click on an option that the list has picks an option under the pointer.
pub proof fn law_click_on_an_option_picks(list_rect: Rect, scroll: Scalar, s: &StyleResolver, input: &InputState, n: nat, i: usize)
    requires
        i < n <= usize::MAX,
        hits(list_rect, scroll, s, input)(i as int),
    ensures
        crate::context::last_hit(hits(list_rect, scroll, s, input), n) matches Some(j) && j < n
            && input.over(row(list_rect, scroll, row_h(s), j)),
{
    crate::context::lemma_last_hit(hits(list_rect, scroll, s, input), n);
}

} // verus!
