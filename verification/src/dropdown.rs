//! Dropdowns: a button that, when open, floats a list of options over the rest.
//!
//! The list has to lie over later widgets and to keep clicks from those under
//! it, so it lives in a popup layer that is pushed before the base widgets are
//! drawn, from the geometry of the frame before. A [`DropdownState`] arbitrates
//! which dropdown is open, at most one, and carries that geometry:
//! [`Dropdown::draw`] draws the button, [`DropdownState::draw_open_layer`] the
//! list.

use crate::context::{label_at, vcentered, CursorIcon, DrawContext, Label};
use crate::draw_list::DrawList;
use crate::geometry::{Point, Rect};
use crate::input::InputState;
use crate::rounding;
use crate::scalar::{ratio, whole, Scalar};
use crate::style::{StyleKey, StyleResolver};
use crate::text::TextBlock;
use vstd::prelude::*;

verus! {

/// A dropdown's identity.
pub type DropdownId = u64;

/// The options shown before the list scrolls.
pub const DEFAULT_MAX_VISIBLE: usize = 8;

/// What the list of an open dropdown is drawn from.
#[derive(Debug, Clone)]
pub struct OpenGeom {
    id: DropdownId,
    button_rect: Rect,
    items: Vec<String>,
    selected: usize,
    width: Scalar,
    item_h: Scalar,
    max_visible: usize,
}

/// What an [`OpenGeom`] holds.
#[verifier::ext_equal]
pub struct GeomView {
    /// The dropdown.
    pub id: DropdownId,
    /// Its button.
    pub button_rect: Rect,
    /// Its options.
    pub items: Seq<Seq<char>>,
    /// The selected option.
    pub selected: usize,
    /// The width of the list.
    pub width: Scalar,
    /// The height of an option.
    pub item_h: Scalar,
    /// The options shown before the list scrolls.
    pub max_visible: usize,
}

/// The options' texts.
pub open spec fn texts(items: Seq<String>) -> Seq<Seq<char>> {
    Seq::new(items.len(), |i: int| items[i]@)
}

/// The options' texts.
pub open spec fn item_texts(items: Seq<&str>) -> Seq<Seq<char>> {
    Seq::new(items.len(), |i: int| items[i]@)
}

impl View for OpenGeom {
    type V = GeomView;

    closed spec fn view(&self) -> GeomView {
        GeomView {
            id: self.id,
            button_rect: self.button_rect,
            items: texts(self.items@),
            selected: self.selected,
            width: self.width,
            item_h: self.item_h,
            max_visible: self.max_visible,
        }
    }
}

pub open spec fn spec_shown_rows(len: usize, max_visible: usize) -> usize {
    if len < max_visible {
        len
    } else {
        max_visible
    }
}

/// How many of `len` options show before the list scrolls.
#[verifier::when_used_as_spec(spec_shown_rows)]
pub fn shown_rows(len: usize, max_visible: usize) -> (r: usize)
    ensures
        r == spec_shown_rows(len, max_visible),
{
    if len < max_visible {
        len
    } else {
        max_visible
    }
}

pub open spec fn spec_list_below(button: Rect, width: Scalar, item_h: Scalar, rows: usize) -> Rect {
    Rect {
        x: button.x,
        y: button.y.plus(button.height).plus(whole(2)),
        width,
        height: whole(rows as u64).times(item_h),
    }
}

/// Where a list of so many rows lies: a little below the button.
#[verifier::when_used_as_spec(spec_list_below)]
pub fn list_below(button: Rect, width: Scalar, item_h: Scalar, rows: usize) -> (r: Rect)
    ensures
        r == spec_list_below(button, width, item_h, rows),
{
    Rect {
        x: button.x,
        y: button.y.plus(button.height).plus(whole(2)),
        width,
        height: whole(rows as u64).times(item_h),
    }
}

impl GeomView {
    /// How many rows the list has room for: the options it shows, and one where
    /// there is none.
    pub open spec fn rows(self) -> usize {
        let shown = shown_rows(self.items.len() as usize, self.max_visible);
        if shown == 0 {
            1
        } else {
            shown
        }
    }

    /// Where the list lies.
    pub open spec fn list_rect(self) -> Rect {
        list_below(self.button_rect, self.width, self.item_h, self.rows())
    }

    /// The top of option `i` at this scroll offset.
    pub open spec fn row_y(self, scroll: Scalar, i: int) -> Scalar {
        self.list_rect().y.plus(whole(i as u64).times(self.item_h)).minus(scroll)
    }

    /// Whether option `i` shows.
    pub open spec fn row_shows(self, scroll: Scalar, i: int) -> bool {
        let y = self.row_y(scroll, i);
        let list = self.list_rect();
        !(y.plus(self.item_h).le(list.y) || list.y.plus(list.height).le(y))
    }

    /// Whether the pointer is over option `i`.
    pub open spec fn row_hovered(self, scroll: Scalar, li: &InputState, i: int) -> bool {
        let y = self.row_y(scroll, i);
        &&& self.list_rect().contains(li.mouse_x, li.mouse_y)
        &&& y.le(li.mouse_y)
        &&& li.mouse_y.lt(y.plus(self.item_h))
        &&& !li.mouse_consumed
    }

    /// The highlight after option `i` was drawn: the pointer takes it, where no
    /// key moves it and the option is not the selected one.
    pub open spec fn highlight_after(
        self,
        highlighted: usize,
        scroll: Scalar,
        li: &InputState,
        keys: bool,
        i: int,
    ) -> usize {
        if self.row_shows(scroll, i) && i != self.selected && highlighted != i
            && self.row_hovered(scroll, li, i) && !keys {
            i as usize
        } else {
            highlighted
        }
    }

    /// The highlight after the first `n` options.
    pub open spec fn highlights(
        self,
        highlighted: usize,
        scroll: Scalar,
        li: &InputState,
        keys: bool,
        n: nat,
    ) -> usize
        decreases n,
    {
        if n == 0 {
            highlighted
        } else {
            self.highlight_after(
                self.highlights(highlighted, scroll, li, keys, (n - 1) as nat),
                scroll,
                li,
                keys,
                n - 1,
            )
        }
    }

    /// Option `i` painted: the accent behind it where it is selected, a light
    /// where it is highlighted or hovered, then its text.
    #[verifier::opaque]
    pub open spec fn row_painted(
        self,
        l: crate::draw_list::DrawState,
        scroll: Scalar,
        li: &InputState,
        highlighted: usize,
        center: Scalar,
        s: &StyleResolver,
        i: int,
    ) -> crate::draw_list::DrawState {
        let list = self.list_rect();
        let y = self.row_y(scroll, i);
        let size = s.scalar(StyleKey::FontSize);
        let pad = s.scalar(StyleKey::Padding);
        let row = Rect { x: list.x, y, width: list.width, height: self.item_h };
        let l = if i == self.selected {
            l.quad(row, s.color(StyleKey::Accent))
        } else if highlighted == i || self.row_hovered(scroll, li, i) {
            l.quad(row, s.color(StyleKey::ButtonHover))
        } else {
            l
        };
        l.text(
            crate::text::TextView::plain(
                self.items[i],
                list.x.plus(pad),
                vcentered(y, self.item_h, size, center),
                size,
            ).colored(
                s.color(
                    if i == self.selected {
                        StyleKey::Background
                    } else {
                        StyleKey::Text
                    },
                ),
            ).broken_at(list.width.minus(pad.times(whole(2)))).in_font(s.font),
        )
    }

    /// The first `n` options painted.
    pub open spec fn rows_painted(
        self,
        l: crate::draw_list::DrawState,
        scroll: Scalar,
        li: &InputState,
        keys: bool,
        highlighted: usize,
        labels: &[Label],
        s: &StyleResolver,
        n: nat,
    ) -> crate::draw_list::DrawState
        decreases n,
    {
        if n == 0 {
            l
        } else {
            let i = n - 1;
            let before = self.rows_painted(
                l,
                scroll,
                li,
                keys,
                highlighted,
                labels,
                s,
                i as nat,
            );
            if self.row_shows(scroll, i) {
                self.row_painted(
                    before,
                    scroll,
                    li,
                    self.highlights(highlighted, scroll, li, keys, i as nat),
                    label_at(labels, i as usize).center,
                    s,
                    i,
                )
            } else {
                before
            }
        }
    }

    /// What the list paints: its panel, and the options that show, clipped to
    /// it.
    pub open spec fn painted(
        self,
        l: crate::draw_list::DrawState,
        scroll: Scalar,
        li: &InputState,
        keys: bool,
        highlighted: usize,
        labels: &[Label],
        s: &StyleResolver,
    ) -> crate::draw_list::DrawState {
        self.rows_painted(
            l.chrome_rect(
                self.list_rect(),
                s.scalar(StyleKey::BorderRadius),
                s.scalar(StyleKey::BorderWidth),
                s.color(StyleKey::Panel),
                s.color(StyleKey::PanelBorder),
            ).clip_pushed(self.list_rect()),
            scroll,
            li,
            keys,
            highlighted,
            labels,
            s,
            self.items.len(),
        ).clip_popped()
    }

    /// The offset after the wheel, held where the list shows options.
    pub open spec fn wheeled(self, offset: Scalar, li: &InputState) -> Scalar {
        let list = self.list_rect();
        let most = whole(self.items.len() as u64).times(self.item_h).minus(
            list.height,
        ).at_least(whole(0));
        let moved = if whole(0).lt(most) && !li.scroll_delta.same(whole(0)) && list.contains(
            li.mouse_x,
            li.mouse_y,
        ) {
            offset.minus(li.scroll_delta.times(self.item_h))
        } else {
            offset
        };
        moved.clamped(whole(0), most)
    }

    /// The offset moved as little as shows option `i`.
    pub open spec fn revealed(self, offset: Scalar, i: usize) -> Scalar {
        let top = whole(i as u64).times(self.item_h);
        let bottom = top.plus(self.item_h);
        let height = self.list_rect().height;
        if top.lt(offset) {
            top
        } else if offset.plus(height).lt(bottom) {
            bottom.minus(height)
        } else {
            offset
        }
    }

    /// The option at which a click lands.
    pub open spec fn clicked_row(self, scroll: Scalar, li: &InputState) -> Option<usize> {
        let at = li.mouse_y.minus(self.list_rect().y).plus(scroll).over(self.item_h);
        let n = self.items.len() as u64;
        if whole(0).le(at) && at.truncated(n) < n {
            Some(at.truncated(n) as usize)
        } else {
            None
        }
    }
}

/// Arbitrates which dropdown is open.
#[derive(Debug, Clone)]
pub struct DropdownState {
    open: Option<DropdownId>,
    geom: Option<OpenGeom>,
    next_geom: Option<OpenGeom>,
    scroll_offset: Scalar,
    highlighted: usize,
    escape: bool,
    mouse_clicked: bool,
    click_claimed: bool,
}

/// What a [`DropdownState`] holds.
#[verifier::ext_equal]
pub struct DropdownView {
    /// The open dropdown.
    pub open: Option<DropdownId>,
    /// The geometry of the list drawn in this frame.
    pub geom: Option<GeomView>,
    /// The geometry for the next frame.
    pub next_geom: Option<GeomView>,
    /// How far the list is scrolled.
    pub scroll_offset: Scalar,
    /// The option that keys move and Enter picks.
    pub highlighted: usize,
    /// Escape went down.
    pub escape: bool,
    /// The pointer's button went down.
    pub mouse_clicked: bool,
    /// Some dropdown took that click.
    pub click_claimed: bool,
}

/// What an optional geometry holds.
pub open spec fn geom_view(g: Option<OpenGeom>) -> Option<GeomView> {
    match g {
        Some(g) => Some(g@),
        None => None,
    }
}

impl View for DropdownState {
    type V = DropdownView;

    closed spec fn view(&self) -> DropdownView {
        DropdownView {
            open: self.open,
            geom: geom_view(self.geom),
            next_geom: geom_view(self.next_geom),
            scroll_offset: self.scroll_offset,
            highlighted: self.highlighted,
            escape: self.escape,
            mouse_clicked: self.mouse_clicked,
            click_claimed: self.click_claimed,
        }
    }
}

impl DropdownView {
    /// Nothing open.
    pub open spec fn fresh() -> DropdownView {
        DropdownView {
            open: None,
            geom: None,
            next_geom: None,
            scroll_offset: whole(0),
            highlighted: 0,
            escape: false,
            mouse_clicked: false,
            click_claimed: false,
        }
    }

    /// A frame begun: the geometry of the frame before becomes this frame's.
    pub open spec fn begun(self, input: &InputState) -> DropdownView {
        DropdownView {
            geom: self.next_geom,
            next_geom: None,
            escape: input.key_escape,
            mouse_clicked: input.mouse_clicked,
            click_claimed: false,
            ..self
        }
    }

    /// Nothing open, in the same frame.
    pub open spec fn shut(self) -> DropdownView {
        DropdownView {
            open: None,
            geom: None,
            next_geom: None,
            scroll_offset: whole(0),
            highlighted: 0,
            ..self
        }
    }

    /// A frame ended: Escape, or a click that no dropdown took, closes.
    pub open spec fn ended(self) -> DropdownView {
        if self.escape || (self.mouse_clicked && !self.click_claimed) {
            self.shut()
        } else {
            self
        }
    }

    /// Dropdown `id` open, with its selected option highlighted and scrolled to.
    pub open spec fn opened(self, id: DropdownId, selected: usize) -> DropdownView {
        DropdownView {
            open: Some(id),
            highlighted: selected,
            scroll_offset: whole(selected as u64).times(whole(28)).at_least(whole(0)),
            click_claimed: true,
            ..self
        }
    }

    /// The state after a dropdown's button: a click toggles it; so does a key,
    /// which also shows the list at once.
    pub open spec fn pressed(self, g: GeomView, clicked: bool, by_key: bool) -> DropdownView {
        if !clicked && !by_key {
            self
        } else if self.open == Some(g.id) {
            self.shut()
        } else if clicked {
            self.opened(g.id, g.selected)
        } else {
            DropdownView {
                geom: Some(g),
                next_geom: Some(g),
                ..self.opened(g.id, g.selected)
            }
        }
    }

    /// The state after a dropdown's button was drawn: an open one leaves its
    /// geometry for the next frame.
    pub open spec fn shown(self, g: GeomView, clicked: bool, by_key: bool) -> DropdownView {
        let after = self.pressed(g, clicked, by_key);
        if after.open == Some(g.id) {
            DropdownView { next_geom: Some(g), ..after }
        } else {
            after
        }
    }

    /// The state after the wheel and the arrow keys over the open list `g`.
    pub open spec fn scrolled(self, g: GeomView, li: &InputState, input: &InputState) -> DropdownView {
        let offset = g.wheeled(self.scroll_offset, li);
        let n = g.items.len();
        if n == 0 {
            DropdownView { scroll_offset: offset, ..self }
        } else {
            let up = if input.key_up {
                crate::list::most(self.highlighted - 1, 0) as usize
            } else {
                self.highlighted
            };
            let a = if input.key_up {
                g.revealed(offset, up)
            } else {
                offset
            };
            let down = if input.key_down {
                crate::list::least(up + 1, n - 1) as usize
            } else {
                up
            };
            let b = if input.key_down {
                g.revealed(a, down)
            } else {
                a
            };
            DropdownView { scroll_offset: b, highlighted: down, ..self }
        }
    }

    /// The state after the pointer moved the highlight over the open list `g`.
    pub open spec fn hovered(self, g: GeomView, scroll: Scalar, li: &InputState, input: &InputState) -> DropdownView {
        DropdownView {
            highlighted: g.highlights(
                self.highlighted,
                scroll,
                li,
                input.key_up || input.key_down,
                g.items.len(),
            ),
            ..self
        }
    }

    /// Whether a click lands on the open list `g`.
    pub open spec fn list_clicked(g: GeomView, li: &InputState) -> bool {
        li.mouse_clicked && g.list_rect().contains(li.mouse_x, li.mouse_y)
    }

    /// The state after a click on the open list `g`, and what it picks.
    pub open spec fn after_click(self, g: GeomView, scroll: Scalar, li: &InputState) -> (
        DropdownView,
        Option<(DropdownId, usize)>,
    ) {
        if !Self::list_clicked(g, li) {
            (self, None)
        } else {
            let claimed = DropdownView { click_claimed: true, ..self };
            match g.clicked_row(scroll, li) {
                Some(row) => (claimed.shut(), Some((g.id, row))),
                None => (claimed, None),
            }
        }
    }

    /// The state after the open list `g` was drawn, and what was picked: a click
    /// picks the option under it, Enter the highlighted one; picking closes.
    pub open spec fn resolved(self, g: GeomView, li: &InputState, input: &InputState) -> (
        DropdownView,
        Option<(DropdownId, usize)>,
    ) {
        let scroll = g.wheeled(self.scroll_offset, li);
        let (v, picked) = self.scrolled(g, li, input).hovered(g, scroll, li, input).after_click(
            g,
            scroll,
            li,
        );
        if input.enter_pressed && v.highlighted < g.items.len() {
            (
                (DropdownView { click_claimed: true, ..v }).shut(),
                Some((g.id, v.highlighted)),
            )
        } else {
            (v, picked)
        }
    }
}

impl OpenGeom {
    fn list_rect(&self) -> (r: Rect)
        ensures
            r == self@.list_rect(),
    {
        let shown: usize = shown_rows(self.items.len(), self.max_visible);
        let rows: usize = if shown == 0 {
            1
        } else {
            shown
        };
        list_below(self.button_rect, self.width, self.item_h, rows)
    }

    fn row_y(&self, scroll: Scalar, i: usize) -> (r: Scalar)
        ensures
            r == self@.row_y(scroll, i as int),
    {
        self.list_rect().y.plus(whole(i as u64).times(self.item_h)).minus(scroll)
    }

    fn row_hovered(&self, scroll: Scalar, li: &InputState, i: usize) -> (r: bool)
        ensures
            r == self@.row_hovered(scroll, li, i as int),
    {
        let y = self.row_y(scroll, i);
        self.list_rect().contains(li.mouse_x, li.mouse_y) && y.le(li.mouse_y) && li.mouse_y.lt(
            y.plus(self.item_h),
        ) && !li.mouse_consumed
    }

    fn paint_row(
        &self,
        list: &mut DrawList,
        scroll: Scalar,
        li: &InputState,
        highlighted: usize,
        center: Scalar,
        s: &StyleResolver,
        i: usize,
    )
        requires
            i < self@.items.len(),
        ensures
            final(list)@ == self@.row_painted(
                old(list)@,
                scroll,
                li,
                highlighted,
                center,
                s,
                i as int,
            ),
    {
        proof {
            reveal(GeomView::row_painted);
        }
        let place = self.list_rect();
        let y = self.row_y(scroll, i);
        let size = s.scalar(StyleKey::FontSize);
        let pad = s.scalar(StyleKey::Padding);
        let row = Rect { x: place.x, y, width: place.width, height: self.item_h };
        let selected = i == self.selected;
        if selected {
            list.quad(row, s.color(StyleKey::Accent));
        } else if highlighted == i || self.row_hovered(scroll, li, i) {
            list.quad(row, s.color(StyleKey::ButtonHover));
        }
        let color = s.color(
            if selected {
                StyleKey::Background
            } else {
                StyleKey::Text
            },
        );
        list.text(
            TextBlock::new(
                self.items[i].as_str(),
                place.x.plus(pad),
                vcentered(y, self.item_h, size, center),
                size,
            ).with_color(color).with_max_width(
                place.width.minus(pad.times(whole(2))),
            ).with_font(s.font),
        );
    }

    fn paint(
        &self,
        list: &mut DrawList,
        scroll: Scalar,
        li: &InputState,
        keys: bool,
        highlighted: usize,
        labels: &[Label],
        s: &StyleResolver,
    ) -> (after: usize)
        ensures
            final(list)@ == self@.painted(old(list)@, scroll, li, keys, highlighted, labels, s),
            after == self@.highlights(highlighted, scroll, li, keys, self@.items.len()),
    {
        let place = self.list_rect();
        list.chrome_rect(
            place,
            s.scalar(StyleKey::BorderRadius),
            s.scalar(StyleKey::BorderWidth),
            s.color(StyleKey::Panel),
            s.color(StyleKey::PanelBorder),
        );
        list.push_clip(place);
        let ghost start = list@;
        let n: usize = self.items.len();
        let mut hi: usize = highlighted;
        let mut i: usize = 0;
        while i < n
            invariant
                i <= n,
                n == self@.items.len(),
                place == self@.list_rect(),
                hi == self@.highlights(highlighted, scroll, li, keys, i as nat),
                list@ == self@.rows_painted(
                    start,
                    scroll,
                    li,
                    keys,
                    highlighted,
                    labels,
                    s,
                    i as nat,
                ),
            decreases n - i,
        {
            let y = self.row_y(scroll, i);
            let hidden = y.plus(self.item_h).le(place.y) || place.y.plus(place.height).le(y);
            if !hidden {
                self.paint_row(list, scroll, li, hi, label_at(labels, i).center, s, i);
                if i != self.selected && hi != i && self.row_hovered(scroll, li, i) && !keys {
                    hi = i;
                }
            }
            i = i + 1;
        }
        list.pop_clip();
        hi
    }

    fn wheeled(&self, offset: Scalar, li: &InputState) -> (r: Scalar)
        ensures
            r == self@.wheeled(offset, li),
    {
        let list = self.list_rect();
        let most = whole(self.items.len() as u64).times(self.item_h).minus(
            list.height,
        ).at_least(whole(0));
        let moved = if whole(0).lt(most) && !li.scroll_delta.same(whole(0)) && list.contains(
            li.mouse_x,
            li.mouse_y,
        ) {
            offset.minus(li.scroll_delta.times(self.item_h))
        } else {
            offset
        };
        moved.clamped(whole(0), most)
    }

    fn revealed(&self, offset: Scalar, i: usize) -> (r: Scalar)
        ensures
            r == self@.revealed(offset, i),
    {
        let top = whole(i as u64).times(self.item_h);
        let bottom = top.plus(self.item_h);
        let height = self.list_rect().height;
        if top.lt(offset) {
            top
        } else if offset.plus(height).lt(bottom) {
            bottom.minus(height)
        } else {
            offset
        }
    }

    fn clicked_row(&self, scroll: Scalar, li: &InputState) -> (r: Option<usize>)
        ensures
            r == self@.clicked_row(scroll, li),
    {
        let at = li.mouse_y.minus(self.list_rect().y).plus(scroll).over(self.item_h);
        let n: u64 = self.items.len() as u64;
        let row: u64 = at.truncated(n);
        if whole(0).le(at) && row < n {
            Some(row as usize)
        } else {
            None
        }
    }
}

impl DropdownState {
    /// Nothing open.
    pub fn new() -> (r: Self)
        ensures
            r@ == DropdownView::fresh(),
    {
        DropdownState {
            open: None,
            geom: None,
            next_geom: None,
            scroll_offset: whole(0),
            highlighted: 0,
            escape: false,
            mouse_clicked: false,
            click_claimed: false,
        }
    }

    /// Begin a frame, before [`push_open_layer`](Self::push_open_layer).
    pub fn begin_frame(&mut self, input: &InputState)
        ensures
            final(self)@ == old(self)@.begun(input),
    {
        self.geom = self.next_geom.take();
        self.escape = input.key_escape;
        self.mouse_clicked = input.mouse_clicked;
        self.click_claimed = false;
    }

    /// Whether dropdown `id` is open.
    pub fn is_open(&self, id: DropdownId) -> (r: bool)
        ensures
            r == (self@.open == Some(id)),
    {
        match self.open {
            Some(open) => open == id,
            None => false,
        }
    }

    /// The open dropdown.
    pub fn open(&self) -> (r: Option<DropdownId>)
        ensures
            r == self@.open,
    {
        self.open
    }

    /// The option that keys move and Enter picks.
    pub fn highlighted(&self) -> (r: usize)
        ensures
            r == self@.highlighted,
    {
        self.highlighted
    }

    /// Close the open dropdown.
    pub fn close(&mut self)
        ensures
            final(self)@ == old(self)@.shut(),
    {
        self.open = None;
        self.geom = None;
        self.next_geom = None;
        self.scroll_offset = whole(0);
        self.highlighted = 0;
    }

    /// Where the list of this frame lies, where there is one.
    pub fn list_rect(&self) -> (r: Option<Rect>)
        ensures
            r == match self@.geom {
                Some(g) => Some(g.list_rect()),
                None => None,
            },
    {
        match &self.geom {
            Some(g) => Some(g.list_rect()),
            None => None,
        }
    }

    /// The rectangle of the popup layer to push for the open dropdown. Nothing
    /// where none is open, or where it was opened by a click in this very frame.
    pub fn push_open_layer(&self) -> (r: Option<Rect>)
        ensures
            r == match (self@.open, self@.geom) {
                (Some(_), Some(g)) => Some(g.list_rect()),
                _ => None,
            },
    {
        if self.open.is_none() {
            return None;
        }
        self.list_rect()
    }

    fn scroll_by(&mut self, g: &OpenGeom, li: &InputState, input: &InputState)
        ensures
            final(self)@ == old(self)@.scrolled(g@, li, input),
    {
        self.scroll_offset = g.wheeled(self.scroll_offset, li);
        let n: usize = g.items.len();
        if n > 0 {
            if input.key_up {
                if self.highlighted > 0 {
                    self.highlighted = self.highlighted - 1;
                }
                self.scroll_offset = g.revealed(self.scroll_offset, self.highlighted);
            }
            if input.key_down {
                if self.highlighted < n - 1 {
                    self.highlighted = self.highlighted + 1;
                } else {
                    self.highlighted = n - 1;
                }
                self.scroll_offset = g.revealed(self.scroll_offset, self.highlighted);
            }
        }
    }

    /// Draw the open list into the popup layer's `list` and settle clicks and
    /// keys on it. `li` is the input as that layer sees it, `input` the frame's,
    /// `labels` are how the options measure. Gives the dropdown and the option
    /// where one was picked.
    pub fn draw_open_layer(
        &mut self,
        list: &mut DrawList,
        li: &InputState,
        style: &StyleResolver,
        input: &InputState,
        labels: &[Label],
    ) -> (picked: Option<(DropdownId, usize)>)
        ensures
            old(self)@.geom is None ==> {
                &&& picked is None
                &&& final(self)@ == old(self)@
                &&& final(list)@ == old(list)@
            },
            old(self)@.geom is Some ==> {
                let g = old(self)@.geom->0;
                &&& (final(self)@, picked) == old(self)@.resolved(g, li, input)
                &&& final(list)@ == g.painted(
                    old(list)@,
                    g.wheeled(old(self)@.scroll_offset, li),
                    li,
                    input.key_up || input.key_down,
                    old(self)@.scrolled(g, li, input).highlighted,
                    labels,
                    style,
                )
            },
    {
        let g = match self.geom.take() {
            Some(g) => g,
            None => {
                return None;
            },
        };
        let place = g.list_rect();
        let scroll = g.wheeled(self.scroll_offset, li);
        self.scroll_by(&g, li, input);
        self.highlighted = g.paint(
            list,
            scroll,
            li,
            input.key_up || input.key_down,
            self.highlighted,
            labels,
            style,
        );
        let mut picked: Option<(DropdownId, usize)> = None;
        let mut shut = false;
        if li.mouse_clicked && place.contains(li.mouse_x, li.mouse_y) {
            self.click_claimed = true;
            match g.clicked_row(scroll, li) {
                Some(row) => {
                    picked = Some((g.id, row));
                    self.close();
                    shut = true;
                },
                None => {},
            }
        }
        if input.enter_pressed && self.highlighted < g.items.len() {
            picked = Some((g.id, self.highlighted));
            self.click_claimed = true;
            self.close();
            shut = true;
        }
        if !shut {
            self.geom = Some(g);
        }
        picked
    }

    /// End a frame: Escape, or a click that no dropdown took, closes.
    pub fn end_frame(&mut self)
        ensures
            final(self)@ == old(self)@.ended(),
    {
        if self.escape || (self.mouse_clicked && !self.click_claimed) {
            self.close();
        }
    }

    /// Open a dropdown with its list showing at once.
    pub fn open_for_test(
        &mut self,
        id: DropdownId,
        button_rect: Rect,
        items: &[&str],
        selected: usize,
    )
        ensures
            ({
                let g = geometry(id, button_rect, item_texts(items@), selected, DEFAULT_MAX_VISIBLE);
                final(self)@ == (DropdownView {
                    open: Some(id),
                    geom: Some(g),
                    next_geom: Some(g),
                    ..old(self)@
                })
            }),
    {
        self.open = Some(id);
        self.geom = Some(snapshot(id, button_rect, items, selected, DEFAULT_MAX_VISIBLE));
        self.next_geom = Some(snapshot(id, button_rect, items, selected, DEFAULT_MAX_VISIBLE));
    }
}

impl Default for DropdownState {
    fn default() -> (r: Self)
        ensures
            r@ == DropdownView::fresh(),
    {
        DropdownState::new()
    }
}

/// The geometry of a dropdown's list.
pub open spec fn geometry(
    id: DropdownId,
    button_rect: Rect,
    items: Seq<Seq<char>>,
    selected: usize,
    max_visible: usize,
) -> GeomView {
    GeomView {
        id,
        button_rect,
        items,
        selected,
        width: button_rect.width,
        item_h: whole(28),
        max_visible,
    }
}

fn snapshot(
    id: DropdownId,
    button_rect: Rect,
    items: &[&str],
    selected: usize,
    max_visible: usize,
) -> (r: OpenGeom)
    ensures
        r@ == geometry(id, button_rect, item_texts(items@), selected, max_visible),
{
    let mut copies: Vec<String> = Vec::new();
    let n: usize = items.len();
    let mut i: usize = 0;
    while i < n
        invariant
            i <= n,
            n == items@.len(),
            copies@.len() == i,
            forall|k: int| 0 <= k < i ==> (#[trigger] copies@[k])@ == items@[k]@,
        decreases n - i,
    {
        copies.push(items[i].to_owned());
        i = i + 1;
    }
    assert(texts(copies@) =~= item_texts(items@));
    OpenGeom {
        id,
        button_rect,
        items: copies,
        selected,
        width: button_rect.width,
        item_h: whole(28),
        max_visible,
    }
}

/// A dropdown, rebuilt each frame.
pub struct Dropdown<'a> {
    /// Its options.
    pub items: &'a [&'a str],
    /// The selected option.
    pub selected: usize,
    /// The options shown before the list scrolls.
    pub max_visible: usize,
}

/// What happened to a dropdown's button.
#[derive(Clone, Copy, Debug, PartialEq, Eq, Structural)]
pub struct DropdownOutput {
    /// It was clicked.
    pub clicked: bool,
    /// The dropdown is open now.
    pub open: bool,
}

/// The chevron at a button's right: down when closed, up when open.
#[verifier::opaque]
pub open spec fn chevron_painted(
    l: crate::draw_list::DrawState,
    rect: Rect,
    s: &StyleResolver,
    open: bool,
) -> crate::draw_list::DrawState {
    let cx = rect.x.plus(rect.width).minus(s.scalar(StyleKey::Padding)).minus(whole(4));
    let cy = rect.y.plus(rect.height.over(whole(2)));
    let dy = if open {
        whole(2).negate()
    } else {
        whole(2)
    };
    let color = s.color(StyleKey::TextDim);
    l.line(
        Point { x: cx.minus(whole(4)), y: cy.minus(dy) },
        Point { x: cx, y: cy.plus(dy) },
        ratio(3, 2),
        color,
    ).line(
        Point { x: cx.plus(whole(4)), y: cy.minus(dy) },
        Point { x: cx, y: cy.plus(dy) },
        ratio(3, 2),
        color,
    )
}

fn draw_chevron(list: &mut DrawList, rect: Rect, s: &StyleResolver, open: bool)
    ensures
        final(list)@ == chevron_painted(old(list)@, rect, s, open),
{
    proof {
        reveal(chevron_painted);
    }
    let cx = rect.x.plus(rect.width).minus(s.scalar(StyleKey::Padding)).minus(whole(4));
    let cy = rect.y.plus(rect.height.over(whole(2)));
    let dy = if open {
        whole(2).negate()
    } else {
        whole(2)
    };
    let color = s.color(StyleKey::TextDim);
    list.line(
        Point { x: cx.minus(whole(4)), y: cy.minus(dy) },
        Point { x: cx, y: cy.plus(dy) },
        ratio(3, 2),
        color,
    );
    list.line(
        Point { x: cx.plus(whole(4)), y: cy.minus(dy) },
        Point { x: cx, y: cy.plus(dy) },
        ratio(3, 2),
        color,
    );
}

impl<'a> Dropdown<'a> {
    /// A dropdown over `items` with option `selected` on its button.
    pub fn new(items: &'a [&'a str], selected: usize) -> (r: Self)
        ensures
            r == (Dropdown { items, selected, max_visible: DEFAULT_MAX_VISIBLE }),
    {
        Dropdown { items, selected, max_visible: DEFAULT_MAX_VISIBLE }
    }

    /// With `n` options shown before the list scrolls, one at least.
    pub fn with_max_visible(self, n: usize) -> (r: Self)
        ensures
            r == (Dropdown {
                max_visible: if n == 0 {
                    1
                } else {
                    n
                },
                ..self
            }),
    {
        let max_visible: usize = if n == 0 {
            1
        } else {
            n
        };
        Dropdown { items: self.items, selected: self.selected, max_visible }
    }

    /// The room that the options take when the dropdown is open below
    /// `button_rect`: as tall as those that show before the list scrolls, and so of
    /// no height where there are none.
    pub fn open_list_rect(&self, button_rect: Rect) -> (r: Rect)
        ensures
            r == (Rect {
                x: button_rect.x,
                y: button_rect.y.plus(button_rect.height).plus(whole(2)),
                width: button_rect.width,
                height: whole(
                    shown_rows(self.items@.len() as usize, self.max_visible) as u64,
                ).times(whole(28)),
            }),
    {
        list_below(
            button_rect,
            button_rect.width,
            whole(28),
            shown_rows(self.items.len(), self.max_visible),
        )
    }

    /// The geometry of its list below `rect`.
    pub open spec fn geometry(&self, id: DropdownId, rect: Rect) -> GeomView {
        geometry(id, rect, item_texts(self.items@), self.selected, self.max_visible)
    }

    /// The text on the button.
    pub open spec fn caption(&self) -> Seq<char> {
        if self.selected < self.items@.len() {
            self.items@[self.selected as int]@
        } else {
            ""@
        }
    }

    /// The button: its field with a border, the selected option, and the
    /// chevron.
    #[verifier::opaque]
    pub open spec fn painted(
        &self,
        l: crate::draw_list::DrawState,
        rect: Rect,
        hovered: bool,
        open: bool,
        center: Scalar,
        s: &StyleResolver,
    ) -> crate::draw_list::DrawState {
        let size = s.scalar(StyleKey::FontSize);
        let pad = s.scalar(StyleKey::Padding);
        chevron_painted(
            l.chrome_rect(
                rect,
                s.scalar(StyleKey::BorderRadius),
                s.scalar(StyleKey::BorderWidth),
                s.color(StyleKey::InputBackground),
                s.color(
                    if open {
                        StyleKey::InputFocusBorder
                    } else if hovered {
                        StyleKey::Accent
                    } else {
                        StyleKey::InputBorder
                    },
                ),
            ).text(
                crate::text::TextView::plain(
                    self.caption(),
                    rect.x.plus(pad),
                    vcentered(rect.y, rect.height, size, center),
                    size,
                ).colored(
                    s.color(
                        if self.items@.len() == 0 {
                            StyleKey::TextDim
                        } else {
                            StyleKey::Text
                        },
                    ),
                ).broken_at(rect.width.minus(pad.times(whole(2))).minus(whole(12))).in_font(s.font),
            ),
            rect,
            s,
            open,
        )
    }

    fn paint(
        &self,
        list: &mut DrawList,
        rect: Rect,
        hovered: bool,
        open: bool,
        center: Scalar,
        s: &StyleResolver,
    )
        ensures
            final(list)@ == self.painted(old(list)@, rect, hovered, open, center, s),
    {
        proof {
            reveal(Dropdown::painted);
        }
        let size = s.scalar(StyleKey::FontSize);
        let pad = s.scalar(StyleKey::Padding);
        let border = s.color(
            if open {
                StyleKey::InputFocusBorder
            } else if hovered {
                StyleKey::Accent
            } else {
                StyleKey::InputBorder
            },
        );
        list.chrome_rect(
            rect,
            s.scalar(StyleKey::BorderRadius),
            s.scalar(StyleKey::BorderWidth),
            s.color(StyleKey::InputBackground),
            border,
        );
        let caption = if self.selected < self.items.len() {
            self.items[self.selected]
        } else {
            ""
        };
        let color = s.color(
            if self.items.len() == 0 {
                StyleKey::TextDim
            } else {
                StyleKey::Text
            },
        );
        list.text(
            TextBlock::new(
                caption,
                rect.x.plus(pad),
                vcentered(rect.y, rect.height, size, center),
                size,
            ).with_color(color).with_max_width(
                rect.width.minus(pad.times(whole(2))).minus(whole(12)),
            ).with_font(s.font),
        );
        draw_chevron(list, rect, s, open);
    }

    /// Whether a key toggles the dropdown: it has the focus, and Enter or Space
    /// is down.
    pub open spec fn key_toggles(id: DropdownId, frame: crate::context::Frame, scene: crate::context::Scene) -> bool {
        scene.focus.focused == Some(id) && (frame.input.enter_pressed || frame.input.key_space)
    }

    /// Draw the button and open or close the dropdown by it. `label` is how the
    /// selected option measures.
    pub fn draw(
        &self,
        id: DropdownId,
        rect: Rect,
        label: Label,
        state: &mut DropdownState,
        ctx: &mut DrawContext,
    ) -> (out: DropdownOutput)
        requires
            old(ctx).frame.wf(),
        ensures
            out.clicked == (old(ctx).frame.input.over(rect) && old(ctx).frame.input.mouse_clicked),
            out.open == (final(state)@.open == Some(id)),
            final(state)@ == old(state)@.shown(
                self.geometry(id, rect),
                out.clicked,
                Self::key_toggles(id, old(ctx).frame, old(ctx)@),
            ),
            final(ctx)@ == (crate::context::Scene {
                list: self.painted(
                    old(ctx)@.list,
                    rect,
                    old(ctx).frame.input.over(rect),
                    out.open,
                    label.center,
                    &old(ctx).frame.styles,
                ),
                focus: old(ctx)@.focus.joined(id, old(ctx).frame.layer),
                ..old(ctx)@.pointed(old(ctx).frame.input.over(rect), CursorIcon::Pointer)
            }),
            final(ctx).frame == old(ctx).frame,
    {
        let layer = ctx.frame.layer;
        ctx.focus.join(id, layer);
        let hovered = ctx.frame.input.over(rect);
        if hovered {
            ctx.request_cursor(CursorIcon::Pointer);
        }
        let clicked = hovered && ctx.frame.input.mouse_clicked;
        let by_key = ctx.focus.is_focused(id) && (ctx.frame.input.enter_pressed
            || ctx.frame.input.key_space);
        if clicked || by_key {
            if state.is_open(id) {
                state.close();
            } else {
                state.open = Some(id);
                state.highlighted = self.selected;
                state.scroll_offset = whole(self.selected as u64).times(whole(28)).at_least(
                    whole(0),
                );
                state.click_claimed = true;
                if !clicked {
                    state.geom = Some(
                        snapshot(id, rect, self.items, self.selected, self.max_visible),
                    );
                    state.next_geom = Some(
                        snapshot(id, rect, self.items, self.selected, self.max_visible),
                    );
                }
            }
        }
        let open = state.is_open(id);
        self.paint(&mut ctx.draw_list, rect, hovered, open, label.center, &ctx.frame.styles);
        if open {
            state.next_geom = Some(
                snapshot(id, rect, self.items, self.selected, self.max_visible),
            );
        }
        DropdownOutput { clicked, open }
    }
}

/// Opening one dropdown closes any other: at most one is open.
pub proof fn law_single_owner(v: DropdownView, g: GeomView, by_key: bool, other: DropdownId)
    requires
        v.open != Some(g.id),
        other != g.id,
    ensures
        v.shown(g, true, by_key).open == Some(g.id),
        v.shown(g, true, by_key).open != Some(other),
{
}

/// Clicking the button twice leaves the dropdown closed.
pub proof fn law_click_toggles(v: DropdownView, g: GeomView)
    requires
        v.open is None,
    ensures
        v.shown(g, true, false).open == Some(g.id),
        v.shown(g, true, false).shown(g, true, false).open is None,
{
}

/// Escape closes, whatever else happened in the frame.
pub proof fn law_escape_closes(v: DropdownView)
    requires
        v.escape,
    ensures
        v.ended().open is None,
{
}

/// A click elsewhere closes; one that a dropdown took does not.
pub proof fn law_click_elsewhere_closes(v: DropdownView)
    requires
        v.mouse_clicked,
        !v.escape,
    ensures
        !v.click_claimed ==> v.ended().open is None,
        v.click_claimed ==> v.ended() == v,
{
}

/// A frame without a click and without Escape keeps what is open.
pub proof fn law_no_click_keeps_open(v: DropdownView, g: GeomView, input: &InputState)
    requires
        !input.mouse_clicked,
        !input.key_escape,
    ensures
        v.begun(input).shown(g, false, false).ended().open == v.open,
{
}

/// The list of a dropdown opened by a click shows from the next frame on.
pub proof fn law_list_shows_in_the_next_frame(v: DropdownView, g: GeomView, input: &InputState)
    requires
        v.open is None,
        v.geom is None,
    ensures
        v.shown(g, true, false).geom is None,
        v.shown(g, true, false).begun(input).geom == Some(g),
{
}

/// Picking an option closes the dropdown, and what is picked is one of the
/// options of the list.
pub proof fn law_pick_closes(v: DropdownView, g: GeomView, li: &InputState, input: &InputState)
    requires
        g.items.len() <= usize::MAX,
    ensures
        v.resolved(g, li, input).1 matches Some((id, row)) ==> {
            &&& v.resolved(g, li, input).0.open is None
            &&& id == g.id
            &&& row < g.items.len()
        },
        v.resolved(g, li, input).1 is None ==> v.resolved(g, li, input).0.open == v.open,
{
}

/// The arrow keys keep the highlight among the options.
pub proof fn law_keys_stay_in_the_options(
    v: DropdownView,
    g: GeomView,
    li: &InputState,
    input: &InputState,
)
    requires
        v.highlighted < g.items.len() <= usize::MAX,
    ensures
        v.scrolled(g, li, input).highlighted < g.items.len(),
{
}

/// A list whose rows have a height, in a place of ordinary size, with no more options
/// than can be told apart.
pub open spec fn in_reach(g: GeomView, scroll: Scalar, li: &InputState) -> bool {
    &&& rounding::ordinary(g.list_rect().y)
    &&& rounding::ordinary(g.item_h)
    &&& g.item_h.val() > 0
    &&& rounding::ordinary(scroll)
    &&& rounding::ordinary(li.mouse_y)
    &&& g.items.len() <= 0x100_0000
}

/// The sizes of the numbers that tell where option `i` lies and where the pointer is.
pub open spec fn sizes(g: GeomView, scroll: Scalar, li: &InputState, i: usize) -> int {
    rounding::size(li.mouse_y.val()) + rounding::size(g.list_rect().y.val()) + rounding::size(
        scroll.val(),
    ) + (i + 1) * g.item_h.val()
}

/// The option that a click picks is the one whose painted row is under the pointer, up
/// to rounding: the row's top is not below the pointer, and its bottom not above.
pub proof fn law_clicked_row_is_under_the_pointer(
    g: GeomView,
    scroll: Scalar,
    li: &InputState,
    i: usize,
)
    requires
        in_reach(g, scroll, li),
        g.clicked_row(scroll, li) == Some(i),
    ensures
        ({
            let y = g.row_y(scroll, i as int);
            &&& i < g.items.len()
            &&& y.is_finite()
            &&& 0x10_0000 * (y.val() - li.mouse_y.val()) <= sizes(g, scroll, li, i)
            &&& 0x10_0000 * (li.mouse_y.val() - (y.val() + g.item_h.val())) <= sizes(
                g,
                scroll,
                li,
                i,
            )
        }),
{
    let ly = g.list_rect().y;
    let m = li.mouse_y;
    let h = g.item_h;
    let u = rounding::unit();
    let n = g.items.len() as u64;
    rounding::law_zero_and_one();
    rounding::law_unit_is_large();
    rounding::law_minus_finite(m, ly);
    rounding::law_minus_rounds(m, ly);
    let a = m.minus(ly);
    rounding::law_plus_finite(a, scroll);
    rounding::law_plus_rounds(a, scroll);
    let b = a.plus(scroll);
    let at = b.over(h);
    rounding::law_truncated_is_the_whole_part(at, n);
    assert(i == at.truncated(n));
    rounding::law_over_rounds(b, h);
    let k = i as int;
    let e = h.val();
    let v = at.val();
    let w = b.val();
    assert((k * e) * u <= v * e && v * e < ((k + 1) * e) * u) by (nonlinear_arith)
        requires
            k * u <= v < (k + 1) * u,
            e > 0,
    ;
    let z = rounding::size(w);
    assert(e * 0x80_0000 <= e * u) by (nonlinear_arith)
        requires
            u >= 0x80_0000,
            e > 0,
    ;
    assert(0x100_0000 * (k * e - w) <= z + e) by (nonlinear_arith)
        requires
            (k * e) * u <= v * e,
            0x100_0000 * rounding::apart(v * e, w * u) <= z * u + e * 0x80_0000,
            e * 0x80_0000 <= e * u,
            u > 0,
    ;
    assert(0x100_0000 * (w - (k + 1) * e) <= z + e) by (nonlinear_arith)
        requires
            v * e < ((k + 1) * e) * u,
            0x100_0000 * rounding::apart(v * e, w * u) <= z * u + e * 0x80_0000,
            e * 0x80_0000 <= e * u,
            u > 0,
    ;
    lemma_row_y(g, scroll, i);
    assert((k + 1) * e == k * e + e) by (nonlinear_arith);
    assert(k * e >= 0) by (nonlinear_arith)
        requires
            k >= 0,
            e > 0,
    ;
    lemma_row_bounds(
        m.val(),
        ly.val(),
        scroll.val(),
        a.val(),
        w,
        k * e,
        e,
        g.row_y(scroll, k).val(),
    );
}

/// What the roundings amount to.
proof fn lemma_row_bounds(m: int, ly: int, s: int, a: int, w: int, d: int, e: int, y: int)
    requires
        d >= 0,
        e > 0,
        0x100_0000 * rounding::apart(a, m - ly) <= rounding::size(m - ly),
        0x100_0000 * rounding::apart(w, a + s) <= rounding::size(a + s),
        0x100_0000 * (d - w) <= rounding::size(w) + e,
        0x100_0000 * (w - (d + e)) <= rounding::size(w) + e,
        0x20_0000 * rounding::apart(y, ly + d - s) <= rounding::size(ly) + rounding::size(s) + d + e,
    ensures
        0x10_0000 * (y - m) <= rounding::size(m) + rounding::size(ly) + rounding::size(s) + (d + e),
        0x10_0000 * (m - (y + e)) <= rounding::size(m) + rounding::size(ly) + rounding::size(s) + (d
            + e),
{
    let t = rounding::size(m) + rounding::size(ly) + rounding::size(s);
    assert(rounding::size(a) <= 2 * t);
    assert(0x80_0000 * rounding::apart(w, m - ly + s) <= 2 * t);
    assert(rounding::size(w) <= 2 * t);
}

/// Where a row is painted.
proof fn lemma_row_y(g: GeomView, scroll: Scalar, i: usize)
    requires
        rounding::ordinary(g.list_rect().y),
        rounding::ordinary(g.item_h),
        rounding::ordinary(scroll),
        g.item_h.val() > 0,
        i <= 0x100_0000,
    ensures
        g.row_y(scroll, i as int).is_finite(),
        0x20_0000 * rounding::apart(
            g.row_y(scroll, i as int).val(),
            g.list_rect().y.val() + i * g.item_h.val() - scroll.val(),
        ) <= rounding::size(g.list_rect().y.val()) + rounding::size(scroll.val()) + i
            * g.item_h.val() + g.item_h.val(),
{
    let ly = g.list_rect().y;
    let h = g.item_h;
    let u = rounding::unit();
    let k = i as int;
    let e = h.val();
    rounding::law_zero_and_one();
    rounding::law_unit_is_large();
    crate::scalar::law_whole_exact(i as u64);
    let n = whole(i as u64);
    assert(rounding::size((k * u) * e) <= 0x1_0000_0000_0000_0000 * (u * u)) by (nonlinear_arith)
        requires
            0 <= k <= 0x100_0000,
            0 < e <= 0x1_0000_0000 * u,
            u > 0,
    ;
    rounding::law_times_finite(n, h);
    rounding::law_times_commutes(n, h);
    rounding::law_times_whole(h, i as u64);
    let w = n.times(h);
    let d = k * e;
    assert(0 <= d <= 0x100_0000_0000_0000 * u) by (nonlinear_arith)
        requires
            d == k * e,
            0 <= k <= 0x100_0000,
            0 < e <= 0x1_0000_0000 * u,
    ;
    rounding::law_plus_finite(ly, w);
    rounding::law_plus_rounds(ly, w);
    let b = ly.plus(w);
    rounding::law_minus_finite(b, scroll);
    rounding::law_minus_rounds(b, scroll);
}

/// Places in steps of the 256th part of a pixel, none of them further than the numbers
/// tell apart: the pointer at `m`, the list's top at `l`, scrolled by `s`, in rows of `h`.
pub open spec fn on_steps(g: GeomView, scroll: Scalar, li: &InputState, m: int, l: int, s: int, h: int) -> bool {
    &&& rounding::in_steps(li.mouse_y, m)
    &&& rounding::in_steps(g.list_rect().y, l)
    &&& rounding::in_steps(scroll, s)
    &&& rounding::in_steps(g.item_h, h)
    &&& h > 0
    &&& g.items.len() <= 0x100_0000
    &&& rounding::size(m) + rounding::size(l) + rounding::size(s) + (g.items.len() + 1) * h
        < 0x80_0000
}

/// A click on the list picks an option exactly where it is the one that shows as hovered:
/// the row under the pointer, however far the list is scrolled.
pub proof fn law_click_picks_the_hovered_row(
    g: GeomView,
    scroll: Scalar,
    li: &InputState,
    m: int,
    l: int,
    s: int,
    h: int,
    i: usize,
)
    requires
        on_steps(g, scroll, li, m, l, s, h),
        g.list_rect().contains(li.mouse_x, li.mouse_y),
        !li.mouse_consumed,
        i < g.items.len(),
    ensures
        (g.clicked_row(scroll, li) == Some(i)) == g.row_hovered(scroll, li, i as int),
{
    let ly = g.list_rect().y;
    let n = g.items.len() as u64;
    let k = i as int;
    let c = g.items.len() as int;
    assert(0 <= k * h <= c * h && (k + 1) * h == k * h + h && (c + 1) * h == c * h + h && k * h + h <= c
        * h) by (nonlinear_arith)
        requires
            0 <= k,
            k + 1 <= c,
            h > 0,
    ;
    rounding::law_minus_steps(li.mouse_y, ly, m, l);
    let a = li.mouse_y.minus(ly);
    rounding::law_plus_steps(a, scroll, m - l, s);
    let d = m - l + s;
    rounding::law_quotient_of_steps(a.plus(scroll), g.item_h, d, h, n);
    // Where the row is painted.
    rounding::law_whole_times_steps(i as u64, g.item_h, h);
    let w = whole(i as u64).times(g.item_h);
    rounding::law_plus_steps(ly, w, l, k * h);
    rounding::law_minus_steps(ly.plus(w), scroll, l + k * h, s);
    let y = g.row_y(scroll, k);
    rounding::law_plus_steps(y, g.item_h, l + k * h - s, h);
    rounding::law_steps_compare(y, li.mouse_y, l + k * h - s, m);
    rounding::law_steps_compare(li.mouse_y, y.plus(g.item_h), m, l + k * h - s + h);
    let j = a.plus(scroll).over(g.item_h).truncated(n) as int;
    if j < k {
        assert((j + 1) * h <= k * h) by (nonlinear_arith)
            requires
                j + 1 <= k,
                h > 0,
        ;
    } else if j > k {
        assert((k + 1) * h <= j * h) by (nonlinear_arith)
            requires
                k + 1 <= j,
                h > 0,
        ;
    }
}

/// A click on a row of the open list that shows as hovered picks that row, however far
/// the wheel has scrolled the list.
pub proof fn law_click_in_the_list_picks(
    v: DropdownView,
    g: GeomView,
    li: &InputState,
    input: &InputState,
    m: int,
    l: int,
    s: int,
    h: int,
    i: usize,
)
    requires
        li.mouse_clicked,
        !input.enter_pressed,
        on_steps(g, g.wheeled(v.scroll_offset, li), li, m, l, s, h),
        i < g.items.len(),
        g.row_hovered(g.wheeled(v.scroll_offset, li), li, i as int),
    ensures
        v.resolved(g, li, input).1 == Some((g.id, i)),
{
    law_click_picks_the_hovered_row(g, g.wheeled(v.scroll_offset, li), li, m, l, s, h, i);
}

/// A click beside the open list picks nothing.
pub proof fn law_click_beside_picks_nothing(v: DropdownView, g: GeomView, li: &InputState, input: &InputState)
    requires
        !g.list_rect().contains(li.mouse_x, li.mouse_y) || !li.mouse_clicked,
        !input.enter_pressed,
    ensures
        v.resolved(g, li, input).1 is None,
{
}

/// Down highlights the next option and Up the one before; at the ends the highlight
/// stays.
pub proof fn law_arrow_keys_move_the_highlight(v: DropdownView, g: GeomView, li: &InputState, input: &InputState)
    requires
        v.highlighted < g.items.len() <= usize::MAX,
    ensures
        ({
            let after = v.scrolled(g, li, input).highlighted;
            let i = v.highlighted;
            &&& input.key_down && !input.key_up && i + 1 < g.items.len() ==> after == i + 1
            &&& input.key_down && !input.key_up && i + 1 == g.items.len() ==> after == i
            &&& input.key_up && !input.key_down && i > 0 ==> after + 1 == i
            &&& input.key_up && !input.key_down && i == 0 ==> after == 0
            &&& !input.key_up && !input.key_down ==> after == i
        }),
{
}

/// Enter picks the option that the keys have highlighted, where the pointer does not
/// move the highlight.
pub proof fn law_enter_picks_the_highlight(v: DropdownView, g: GeomView, li: &InputState, input: &InputState)
    requires
        input.enter_pressed,
        v.highlighted < g.items.len() <= usize::MAX,
        !g.list_rect().contains(li.mouse_x, li.mouse_y),
    ensures
        v.resolved(g, li, input).1 == Some((g.id, v.scrolled(g, li, input).highlighted)),
        v.resolved(g, li, input).0.open is None,
{
    let scroll = g.wheeled(v.scroll_offset, li);
    lemma_no_hover(g, v.scrolled(g, li, input).highlighted, scroll, li, input.key_up || input.key_down, g.items.len());
}

proof fn lemma_no_hover(g: GeomView, highlighted: usize, scroll: Scalar, li: &InputState, keys: bool, n: nat)
    requires
        !g.list_rect().contains(li.mouse_x, li.mouse_y),
    ensures
        g.highlights(highlighted, scroll, li, keys, n) == highlighted,
    decreases n,
{
    if n > 0 {
        lemma_no_hover(g, highlighted, scroll, li, keys, (n - 1) as nat);
    }
}

/// A dropdown opens with its selected option highlighted.
pub proof fn law_opens_at_the_selected_option(v: DropdownView, g: GeomView, by_key: bool)
    requires
        v.open != Some(g.id),
    ensures
        v.shown(g, true, by_key).highlighted == g.selected,
        v.shown(g, false, true).highlighted == g.selected,
        v.shown(g, false, true).geom == Some(g),
{
}

/// The list lies under its button: from the button's left edge, two pixels below its
/// bottom edge, as high as the rows that it shows.
pub proof fn law_list_is_below_its_button(g: GeomView, x: int, y: int, w: int, h: int, row: int)
    requires
        crate::geometry::in_steps(g.button_rect, x, y, w, h),
        rounding::in_steps(g.item_h, row),
        row >= 0,
        g.items.len() <= 0x1_0000,
        (g.items.len() + 1) * row <= 0x40_0000,
    ensures
        g.list_rect().x == g.button_rect.x,
        g.list_rect().width == g.width,
        rounding::in_steps(g.list_rect().y, y + h + 512),
        rounding::in_steps(g.list_rect().height, g.rows() * row),
        1 <= g.rows() <= g.items.len() + 1,
        g.items.len() > 0 && g.max_visible > 0 ==> g.rows() <= g.items.len() && g.rows()
            <= g.max_visible,
        g.items.len() > 0 && g.max_visible > 0 ==> g.rows() == g.items.len() || g.rows()
            == g.max_visible,
{
    rounding::law_whole_in_steps(2);
    rounding::law_plus_steps(g.button_rect.y, g.button_rect.height, y, h);
    rounding::law_plus_steps(g.button_rect.y.plus(g.button_rect.height), whole(2), y + h, 512);
    let n = g.rows() as int;
    let c = g.items.len() as int;
    assert(0 <= n * row <= (c + 1) * row) by (nonlinear_arith)
        requires
            0 <= n <= c + 1,
            row >= 0,
    ;
    rounding::law_whole_times_steps(g.rows() as u64, g.item_h, row);
}

/// In steps: how far a list of this many rows can be scrolled.
pub open spec fn most_scroll(g: GeomView, row: int) -> int {
    crate::list::most((g.items.len() - g.rows()) * row, 0)
}

/// The wheel over the list scrolls it by a row for each notch, toward the first options
/// when it turns up, and never past either end; elsewhere it does nothing.
pub proof fn law_wheel_scrolls_by_rows(g: GeomView, offset: Scalar, li: &InputState, o: int, n: int, row: int)
    requires
        rounding::in_steps(g.item_h, row),
        rounding::in_steps(offset, o),
        rounding::in_steps(li.scroll_delta, 256 * n),
        row > 0,
        g.items.len() <= 0x1_0000,
        (g.items.len() + 1) * row <= 0x40_0000,
        0 <= o <= most_scroll(g, row),
        rounding::size(n * row) <= 0x40_0000,
        rounding::size(n) <= 0x1_0000,
    ensures
        ({
            let to = o - n * row;
            let most = most_scroll(g, row);
            let over = g.list_rect().contains(li.mouse_x, li.mouse_y);
            let after = g.wheeled(offset, li);
            &&& over && most > 0 && 0 <= to <= most ==> rounding::in_steps(after, to)
            &&& over && most > 0 && to < 0 ==> rounding::in_steps(after, 0)
            &&& over && most > 0 && to > most ==> rounding::in_steps(after, most)
            &&& !over || n == 0 || most == 0 ==> rounding::in_steps(after, o)
        }),
{
    let c = g.items.len() as int;
    let k = g.rows() as int;
    assert(0 <= k * row <= (c + 1) * row && 0 <= c * row <= (c + 1) * row && (c - k) * row == c * row - k
        * row) by (nonlinear_arith)
        requires
            0 <= k <= c + 1,
            0 <= c,
            row > 0,
    ;
    rounding::law_one_in_steps();
    rounding::law_whole_times_steps(g.rows() as u64, g.item_h, row);
    rounding::law_whole_times_steps(g.items.len() as u64, g.item_h, row);
    let all = whole(g.items.len() as u64).times(g.item_h);
    let shown = g.list_rect().height;
    rounding::law_minus_steps(all, shown, c * row, k * row);
    let rest = all.minus(shown);
    rounding::law_steps_compare(rest, whole(0), c * row - k * row, 0);
    let most = rest.at_least(whole(0));
    let limit = most_scroll(g, row);
    assert(rounding::in_steps(most, limit));
    rounding::law_steps_compare(whole(0), most, 0, limit);
    rounding::law_steps_compare(li.scroll_delta, whole(0), 256 * n, 0);
    lemma_notches(li.scroll_delta, g.item_h, n, row);
    let by = li.scroll_delta.times(g.item_h);
    rounding::law_minus_steps(offset, by, o, n * row);
    let moved = offset.minus(by);
    let to = o - n * row;
    rounding::law_steps_compare(moved, whole(0), to, 0);
    rounding::law_steps_compare(most, moved, limit, to);
    rounding::law_steps_compare(offset, whole(0), o, 0);
    rounding::law_steps_compare(most, offset, limit, o);
    assert(n == 0 ==> n * row == 0) by (nonlinear_arith);
}

/// A whole number of notches of a row each.
proof fn lemma_notches(d: Scalar, h: Scalar, n: int, row: int)
    requires
        rounding::in_steps(d, 256 * n),
        rounding::in_steps(h, row),
        rounding::size(n * row) <= 0x40_0000,
    ensures
        rounding::in_steps(d.times(h), n * row),
{
    rounding::law_steps();
    let c = rounding::lemma_number_of_steps(n * row);
    let st = rounding::step();
    let u = rounding::unit();
    assert(((256 * n) * st) * (row * st) == ((n * row) * st) * u) by (nonlinear_arith)
        requires
            u == 256 * st,
    ;
    rounding::law_times_exact(d, h, c);
}

/// Scrolling to an option shows it whole, and does not scroll where it shows already.
pub proof fn law_revealed_option_shows(g: GeomView, offset: Scalar, i: usize, o: int, row: int)
    requires
        rounding::in_steps(g.item_h, row),
        rounding::in_steps(offset, o),
        row > 0,
        i < g.items.len() <= 0x1_0000,
        (g.items.len() + 1) * row <= 0x40_0000,
        0 <= o <= 0x40_0000,
        g.max_visible > 0,
    ensures
        ({
            let after = g.revealed(offset, i);
            let top = i * row;
            let height = g.rows() * row;
            exists|n: int| #[trigger]
                rounding::in_steps(after, n) && n <= top && top + row <= n + height && (o <= top && top
                    + row <= o + height ==> n == o)
        }),
{
    let k = g.rows() as int;
    let c = g.items.len() as int;
    let j = i as int;
    assert(0 <= j * row <= c * row && 0 <= c * row <= (c + 1) * row && row <= k * row <= (c + 1) * row && j * row
        + row <= (c + 1) * row) by (nonlinear_arith)
        requires
            0 <= j < c,
            1 <= k <= c + 1,
            row > 0,
    ;
    rounding::law_whole_times_steps(i as u64, g.item_h, row);
    rounding::law_whole_times_steps(g.rows() as u64, g.item_h, row);
    let top = whole(i as u64).times(g.item_h);
    rounding::law_plus_steps(top, g.item_h, j * row, row);
    let bottom = top.plus(g.item_h);
    let height = g.list_rect().height;
    rounding::law_steps_compare(top, offset, j * row, o);
    rounding::law_plus_steps(offset, height, o, k * row);
    rounding::law_steps_compare(offset.plus(height), bottom, o + k * row, j * row + row);
    rounding::law_minus_steps(bottom, height, j * row + row, k * row);
    let after = g.revealed(offset, i);
    if j * row < o {
        assert(rounding::in_steps(after, j * row));
    } else if o + k * row < j * row + row {
        assert(rounding::in_steps(after, j * row + row - k * row));
    } else {
        assert(rounding::in_steps(after, o));
    }
}

/// The light behind the selected option, and behind the highlighted one, lies over the
/// option's own row: as far below the top of the list as the rows before it take, less
/// what was scrolled; and its text starts the padding within it.
pub proof fn law_option_is_painted_on_its_row(g: GeomView, l: crate::draw_list::DrawState, scroll: Scalar, li: &InputState, highlighted: usize, center: Scalar, s: &StyleResolver, i: int, x: int, y: int, k: int, m: int, p: int)
    requires
        rounding::in_steps(g.list_rect().x, x),
        rounding::in_steps(g.list_rect().y, y),
        rounding::in_steps(g.item_h, k),
        rounding::in_steps(scroll, m),
        rounding::in_steps(s.scalar(StyleKey::Padding), p),
        g.list_rect().width.is_finite(),
        g.list_rect().width.val() > 0,
        0 < k,
        0 <= i <= 0x1_0000,
        rounding::size(x) + rounding::size(p) <= 0x100_0000,
        rounding::size(y) + i * k <= 0x80_0000,
        rounding::size(m) <= 0x80_0000,
        l.transform() == crate::affine::Affine2::identity(),
        i == g.selected || i == highlighted,
    ensures
        ({
            let after = g.row_painted(l, scroll, li, highlighted, center, s, i);
            let c = after.chrome.last();
            &&& after.chrome == l.chrome.push(c)
            &&& c.rect.x.val() == x * rounding::step()
            &&& c.rect.y.val() == (y + i * k - m) * rounding::step()
            &&& c.rect.width.val() == g.list_rect().width.val()
            &&& c.rect.height.val() == k * rounding::step()
            &&& i == g.selected ==> c.bg == s.color(StyleKey::Accent).times(l.tint())
            &&& i != g.selected ==> c.bg == s.color(StyleKey::ButtonHover).times(l.tint())
        }),
        vcentered(g.row_y(scroll, i), g.item_h, s.scalar(StyleKey::FontSize), center).is_finite() ==> {
            let t = g.row_painted(l, scroll, li, highlighted, center, s, i).texts.last();
            t.content == g.items[i] && t.x.val() == (x + p) * rounding::step()
        },
{
    reveal(GeomView::row_painted);
    let list = g.list_rect();
    let at = g.row_y(scroll, i);
    assert(0 <= i * k) by (nonlinear_arith)
        requires
            i >= 0,
            k > 0,
    ;
    rounding::law_whole_times_steps(i as u64, g.item_h, k);
    rounding::law_plus_steps(list.y, whole(i as u64).times(g.item_h), y, i * k);
    rounding::law_minus_steps(list.y.plus(whole(i as u64).times(g.item_h)), scroll, y + i * k, m);
    let row = Rect { x: list.x, y: at, width: list.width, height: g.item_h };
    rounding::law_one_in_steps();
    rounding::law_steps_compare(g.item_h, whole(0), k, 0);
    assert(!list.width.le(whole(0))) by {
        rounding::law_zero_and_one();
        reveal(Scalar::spec_le);
    }
    let pad = s.scalar(StyleKey::Padding);
    rounding::law_plus_steps(list.x, pad, x, p);
    let color = s.color(
        if i == g.selected {
            StyleKey::Accent
        } else {
            StyleKey::ButtonHover
        },
    );
    crate::fills::law_quad_is_its_rectangle(l, row, color);
    let size = s.scalar(StyleKey::FontSize);
    let block = crate::text::TextView::plain(
        g.items[i],
        list.x.plus(pad),
        vcentered(at, g.item_h, size, center),
        size,
    ).colored(
        s.color(
            if i == g.selected {
                StyleKey::Background
            } else {
                StyleKey::Text
            },
        ),
    ).broken_at(list.width.minus(pad.times(whole(2)))).in_font(s.font);
    let lit = l.quad(row, color);
    assert(g.row_painted(l, scroll, li, highlighted, center, s, i) == lit.text(block));
    assert(lit.text(block).chrome == lit.chrome) by {
        reveal(crate::draw_list::DrawState::text);
        reveal(crate::draw_list::DrawState::text_put);
        reveal(crate::draw_list::DrawState::flushed);
        reveal(crate::draw_list::DrawState::commanded);
    }
    if vcentered(at, g.item_h, size, center).is_finite() {
        crate::draw_text::law_text_is_put_at_its_place(lit, block);
    }
}

} // verus!
