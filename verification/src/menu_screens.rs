//! The pieces of a main menu: the dim layer behind it, and a column of buttons
//! that keys, gamepad and pointer move through.

use crate::button::Button;
use crate::context::{label_at, DrawContext, Label};
use crate::draw_list::DrawList;
use crate::geometry::Rect;
use crate::input::InputState;
use crate::material::Tone;
use crate::rounding;
use crate::scalar::{ratio, whole, Scalar};
use crate::style::{StyleKey, StyleResolver};
use vstd::prelude::*;

verus! {

/// Dim `rect`.
pub fn draw_scrim(rect: Rect, list: &mut DrawList, styles: &StyleResolver)
    ensures
        final(list)@ == old(list)@.quad(rect, styles.color(StyleKey::Scrim)),
{
    list.quad(rect, styles.color(StyleKey::Scrim));
}

/// What happened in a menu's frame.
#[derive(Clone, Copy, Debug, PartialEq, Eq, Structural)]
pub struct MenuListOutput {
    /// The item that was activated: clicked, or confirmed while selected.
    pub activated: Option<usize>,
    /// The item under the pointer.
    pub hovered: Option<usize>,
    /// The selection is another one than before.
    pub selected_changed: bool,
    /// The least width that fits every label, with the padding on both sides.
    pub intrinsic_width: Scalar,
}

impl MenuListOutput {
    pub open spec fn spec_nothing() -> MenuListOutput {
        MenuListOutput {
            activated: None,
            hovered: None,
            selected_changed: false,
            intrinsic_width: whole(0),
        }
    }

    /// Nothing happened.
    #[verifier::when_used_as_spec(spec_nothing)]
    pub fn nothing() -> (r: Self)
        ensures
            r == Self::spec_nothing(),
    {
        MenuListOutput {
            activated: None,
            hovered: None,
            selected_changed: false,
            intrinsic_width: whole(0),
        }
    }
}

impl Default for MenuListOutput {
    fn default() -> (r: Self)
        ensures
            r == MenuListOutput::nothing(),
    {
        MenuListOutput::nothing()
    }
}

/// A column of equally wide menu buttons.
pub struct MenuList<'a> {
    /// The items, from the top.
    pub items: &'a [&'a str],
    /// The height of a row, the style's button height where there is none.
    pub row_height: Option<Scalar>,
    /// The gap between rows, the style's spacing where there is none.
    pub gap: Option<Scalar>,
    /// Which items are enabled; all where there is none.
    pub enabled: Option<&'a [bool]>,
    /// The first row's focus identity, where rows take the focus.
    pub focus_base: Option<u64>,
}

/// Where a menu's rows lie.
#[derive(Clone, Copy, Debug, PartialEq, Eq, Structural)]
pub struct MenuRows {
    /// The left edge.
    pub x: Scalar,
    /// The top of the first row.
    pub y: Scalar,
    /// The width.
    pub width: Scalar,
    /// The height of a row.
    pub height: Scalar,
    /// The gap between rows.
    pub gap: Scalar,
}

impl MenuRows {
    /// The top of row `i`.
    pub open spec fn top(self, i: nat) -> Scalar
        decreases i,
    {
        if i == 0 {
            self.y
        } else {
            self.top((i - 1) as nat).plus(self.height.plus(self.gap))
        }
    }

    /// Row `i`.
    pub open spec fn row(self, i: int) -> Rect {
        Rect { x: self.x, y: self.top(i as nat), width: self.width, height: self.height }
    }
}

/// The widest of the first `n` labels, 0 for none.
pub open spec fn widest(labels: &[Label], n: nat) -> Scalar
    decreases n,
{
    if n == 0 {
        whole(0)
    } else {
        widest(labels, (n - 1) as nat).at_least(label_at(labels, (n - 1) as usize).width)
    }
}

pub open spec fn spec_stepped(selected: usize, n: usize, down: bool) -> usize {
    if down {
        ((selected + 1) % n as int) as usize
    } else {
        ((selected + n - 1) % n as int) as usize
    }
}

/// The next or the previous of `n` items, around the ends.
#[verifier::when_used_as_spec(spec_stepped)]
pub fn stepped(selected: usize, n: usize, down: bool) -> (r: usize)
    requires
        selected < n,
    ensures
        r == spec_stepped(selected, n, down),
        r < n,
{
    proof {
        if down {
            if selected == n - 1 {
                assert((n as int) % (n as int) == 0) by (nonlinear_arith)
                    requires
                        n > 0,
                ;
            } else {
                vstd::arithmetic::div_mod::lemma_small_mod((selected + 1) as nat, n as nat);
            }
        } else if selected == 0 {
            vstd::arithmetic::div_mod::lemma_small_mod((n - 1) as nat, n as nat);
        } else {
            vstd::arithmetic::div_mod::lemma_mod_add_multiples_vanish(selected - 1, n as int);
            vstd::arithmetic::div_mod::lemma_small_mod((selected - 1) as nat, n as nat);
        }
    }
    if down {
        if selected == n - 1 {
            0
        } else {
            selected + 1
        }
    } else if selected == 0 {
        n - 1
    } else {
        selected - 1
    }
}

impl<'a> MenuList<'a> {
    /// A menu of `items`.
    pub fn new(items: &'a [&'a str]) -> (r: Self)
        ensures
            r == (MenuList {
                items,
                row_height: None,
                gap: None,
                enabled: None,
                focus_base: None,
            }),
    {
        MenuList { items, row_height: None, gap: None, enabled: None, focus_base: None }
    }

    /// With rows of this height.
    pub fn row_height(self, h: Scalar) -> (r: Self)
        ensures
            r == (MenuList { row_height: Some(h), ..self }),
    {
        MenuList {
            items: self.items,
            row_height: Some(h),
            gap: self.gap,
            enabled: self.enabled,
            focus_base: self.focus_base,
        }
    }

    /// With this gap between rows.
    pub fn gap(self, gap: Scalar) -> (r: Self)
        ensures
            r == (MenuList { gap: Some(gap), ..self }),
    {
        MenuList {
            items: self.items,
            row_height: self.row_height,
            gap: Some(gap),
            enabled: self.enabled,
            focus_base: self.focus_base,
        }
    }

    /// With these items enabled; an item past the end of `enabled` is.
    pub fn enabled(self, enabled: &'a [bool]) -> (r: Self)
        ensures
            r == (MenuList { enabled: Some(enabled), ..self }),
    {
        MenuList {
            items: self.items,
            row_height: self.row_height,
            gap: self.gap,
            enabled: Some(enabled),
            focus_base: self.focus_base,
        }
    }

    /// With rows that take the focus under `base`, `base + 1` and so on.
    pub fn focusable(self, base: u64) -> (r: Self)
        ensures
            r == (MenuList { focus_base: Some(base), ..self }),
    {
        MenuList {
            items: self.items,
            row_height: self.row_height,
            gap: self.gap,
            enabled: self.enabled,
            focus_base: Some(base),
        }
    }

    pub open spec fn spec_is_enabled(&self, i: usize) -> bool {
        match self.enabled {
            Some(e) => i < e@.len() ==> e@[i as int],
            None => true,
        }
    }

    /// Whether item `i` is enabled.
    #[verifier::when_used_as_spec(spec_is_enabled)]
    pub fn is_enabled(&self, i: usize) -> (r: bool)
        ensures
            r == self.spec_is_enabled(i),
    {
        match self.enabled {
            Some(e) => if i < e.len() {
                e[i]
            } else {
                true
            },
            None => true,
        }
    }

    pub open spec fn spec_total_height(row_height: Scalar, gap: Scalar, n: usize) -> Scalar {
        if n == 0 {
            whole(0)
        } else {
            row_height.times(whole(n as u64)).plus(
                gap.times(whole(n as u64).minus(whole(1))),
            )
        }
    }

    /// The height of `n` rows with the gaps between them.
    #[verifier::when_used_as_spec(spec_total_height)]
    pub fn total_height(row_height: Scalar, gap: Scalar, n: usize) -> (r: Scalar)
        ensures
            r == Self::spec_total_height(row_height, gap, n),
    {
        if n == 0 {
            whole(0)
        } else {
            row_height.times(whole(n as u64)).plus(
                gap.times(whole(n as u64).minus(whole(1))),
            )
        }
    }

    /// The least width that fits every label: the widest one and the padding on
    /// both sides of it.
    pub open spec fn natural_width(&self, labels: &[Label], s: &StyleResolver) -> Scalar {
        widest(labels, self.items@.len()).plus(s.scalar(StyleKey::Padding).times(whole(2)))
    }

    /// Where the rows lie: as wide as the widest label with its padding, or three
    /// times that label, but no wider than `rect`; the block is centered in
    /// `rect`, or starts at its top where it does not fit.
    pub open spec fn rows(&self, rect: Rect, labels: &[Label], s: &StyleResolver) -> MenuRows {
        let height = match self.row_height {
            Some(h) => h,
            None => s.scalar(StyleKey::ButtonHeight),
        };
        let gap = match self.gap {
            Some(g) => g,
            None => s.scalar(StyleKey::Spacing),
        };
        let width = self.natural_width(labels, s).at_least(
            widest(labels, self.items@.len()).times(whole(3)),
        ).at_most(rect.width);
        let content = Self::spec_total_height(height, gap, self.items@.len() as usize);
        MenuRows {
            x: rect.x.plus(rect.width.minus(width).times(ratio(1, 2))),
            y: if rect.height.lt(content) {
                rect.y
            } else {
                rect.y.plus(rect.height.minus(content).times(ratio(1, 2)))
            },
            width,
            height,
            gap,
        }
    }

    /// Which rows are under the pointer and enabled.
    pub open spec fn hovers(&self, rows: MenuRows, input: &InputState) -> spec_fn(int) -> bool {
        |i: int| self.is_enabled(i as usize) && input.over(rows.row(i))
    }

    /// The row under the pointer.
    pub open spec fn hovered(&self, rows: MenuRows, input: &InputState) -> Option<usize> {
        crate::context::first_hit(self.hovers(rows, input), 0, self.items@.len())
    }

    /// The selection before the frame, kept among the items.
    pub open spec fn held(&self, selected: usize) -> usize {
        let n = self.items@.len() as usize;
        if selected < n {
            selected
        } else {
            (n - 1) as usize
        }
    }

    /// The selection after the keys.
    pub open spec fn moved(&self, selected: usize, input: &InputState) -> usize {
        let n = self.items@.len() as usize;
        let held = self.held(selected);
        if input.nav.up || input.nav.down {
            stepped(held, n, input.nav.down)
        } else {
            held
        }
    }

    /// The selection after the keys and the pointer.
    pub open spec fn selection(&self, selected: usize, rows: MenuRows, input: &InputState) -> usize {
        match self.hovered(rows, input) {
            Some(i) => i,
            None => self.moved(selected, input),
        }
    }

    /// The button of item `i` while item `selected` is selected.
    pub open spec fn button(&self, i: int, selected: usize) -> crate::button::ButtonView {
        crate::button::ButtonView {
            enabled: self.is_enabled(i as usize),
            tone: Some(
                if selected == i {
                    Tone::Accent
                } else {
                    Tone::Default
                },
            ),
            focus_id: match self.focus_base {
                Some(base) => Some((base + i) as u64),
                None => None,
            },
            ..crate::button::ButtonView::plain(self.items@[i]@)
        }
    }

    /// The scene after the first `n` rows.
    pub open spec fn rows_drawn(
        &self,
        rows: MenuRows,
        selected: usize,
        labels: &[Label],
        frame: crate::context::Frame,
        scene: crate::context::Scene,
        n: nat,
    ) -> crate::context::Scene
        decreases n,
    {
        if n == 0 {
            scene
        } else {
            let before = self.rows_drawn(rows, selected, labels, frame, scene, (n - 1) as nat);
            if rows.row(n - 1).is_empty() {
                before
            } else {
                self.button(n - 1, selected).drawn(
                    rows.row(n - 1),
                    label_at(labels, (n - 1) as usize),
                    crate::button::Told::nothing(),
                    frame,
                    before,
                )
            }
        }
    }

    /// Which rows' buttons are activated.
    pub open spec fn fires(
        &self,
        rows: MenuRows,
        selected: usize,
        labels: &[Label],
        frame: crate::context::Frame,
        scene: crate::context::Scene,
    ) -> spec_fn(int) -> bool {
        |i: int|
            !rows.row(i).is_empty() && self.button(i, selected).activated(
                rows.row(i),
                crate::button::Told::nothing(),
                frame,
                self.rows_drawn(
                    rows,
                    selected,
                    labels,
                    frame,
                    scene,
                    i as nat,
                ).focus.focused,
            )
    }

    /// The item that is activated: the first whose button is; else, confirmed by
    /// key in a frame without a move, the selected one where it is enabled.
    pub open spec fn activated(
        &self,
        rows: MenuRows,
        selected: usize,
        labels: &[Label],
        frame: crate::context::Frame,
        scene: crate::context::Scene,
    ) -> Option<usize> {
        let input = frame.input;
        match crate::context::first_hit(self.fires(rows, selected, labels, frame, scene), 0, self.items@.len()) {
            Some(i) => if self.is_enabled(i) {
                Some(i)
            } else {
                None
            },
            None => if input.nav.confirm && !input.nav.up && !input.nav.down
                && !input.mouse_consumed && self.is_enabled(selected) {
                Some(selected)
            } else {
                None
            },
        }
    }

    /// What happened.
    pub open spec fn happened(
        &self,
        rect: Rect,
        selected: usize,
        labels: &[Label],
        frame: crate::context::Frame,
        scene: crate::context::Scene,
    ) -> MenuListOutput {
        let rows = self.rows(rect, labels, &frame.styles);
        MenuListOutput {
            activated: self.activated(
                rows,
                self.selection(selected, rows, &frame.input),
                labels,
                frame,
                scene,
            ),
            hovered: self.hovered(rows, &frame.input),
            selected_changed: self.selection(selected, rows, &frame.input) != self.held(selected),
            intrinsic_width: self.natural_width(labels, &frame.styles),
        }
    }

    /// The identities of the rows fit.
    pub open spec fn wf(&self) -> bool {
        self.focus_base matches Some(base) ==> base + self.items@.len() <= u64::MAX + 1
    }

    fn widest_label(&self, labels: &[Label]) -> (r: Scalar)
        ensures
            r == widest(labels, self.items@.len()),
    {
        let n: usize = self.items.len();
        let mut w = whole(0);
        let mut i: usize = 0;
        while i < n
            invariant
                i <= n,
                n == self.items@.len(),
                w == widest(labels, i as nat),
            decreases n - i,
        {
            w = w.at_least(label_at(labels, i).width);
            i = i + 1;
        }
        w
    }

    fn fit_width(&self, labels: &[Label], s: &StyleResolver) -> (r: Scalar)
        ensures
            r == self.natural_width(labels, s),
    {
        self.widest_label(labels).plus(s.scalar(StyleKey::Padding).times(whole(2)))
    }

    fn lay_rows(&self, rect: Rect, labels: &[Label], s: &StyleResolver) -> (r: MenuRows)
        ensures
            r == self.rows(rect, labels, s),
    {
        let height = match self.row_height {
            Some(h) => h,
            None => s.scalar(StyleKey::ButtonHeight),
        };
        let gap = match self.gap {
            Some(g) => g,
            None => s.scalar(StyleKey::Spacing),
        };
        let width = self.fit_width(labels, s).at_least(
            self.widest_label(labels).times(whole(3)),
        ).at_most(rect.width);
        let content = Self::total_height(height, gap, self.items.len());
        let y = if rect.height.lt(content) {
            rect.y
        } else {
            rect.y.plus(rect.height.minus(content).times(ratio(1, 2)))
        };
        MenuRows {
            x: rect.x.plus(rect.width.minus(width).times(ratio(1, 2))),
            y,
            width,
            height,
            gap,
        }
    }

    fn find_hovered(&self, rows: MenuRows, input: &InputState) -> (r: Option<usize>)
        ensures
            r == self.hovered(rows, input),
    {
        let n: usize = self.items.len();
        let mut y = rows.y;
        let mut i: usize = 0;
        while i < n
            invariant
                i <= n,
                n == self.items@.len(),
                y == rows.top(i as nat),
                self.hovered(rows, input) == crate::context::first_hit(
                    self.hovers(rows, input),
                    i as nat,
                    n as nat,
                ),
            decreases n - i,
        {
            let row = Rect { x: rows.x, y, width: rows.width, height: rows.height };
            if self.is_enabled(i) && input.over(row) {
                return Some(i);
            }
            y = y.plus(rows.height.plus(rows.gap));
            i = i + 1;
        }
        None
    }

    fn draw_rows(
        &self,
        rows: MenuRows,
        selected: usize,
        labels: &[Label],
        ctx: &mut DrawContext,
    ) -> (fired: Option<usize>)
        requires
            self.wf(),
            old(ctx).frame.wf(),
        ensures
            final(ctx)@ == self.rows_drawn(
                rows,
                selected,
                labels,
                old(ctx).frame,
                old(ctx)@,
                self.items@.len(),
            ),
            final(ctx).frame == old(ctx).frame,
            fired == crate::context::first_hit(
                self.fires(rows, selected, labels, old(ctx).frame, old(ctx)@),
                0,
                self.items@.len(),
            ),
    {
        let n: usize = self.items.len();
        let ghost fires = self.fires(rows, selected, labels, ctx.frame, ctx@);
        let mut fired: Option<usize> = None;
        let mut y = rows.y;
        let mut i: usize = 0;
        while i < n
            invariant
                i <= n,
                n == self.items@.len(),
                self.wf(),
                ctx.frame == old(ctx).frame,
                ctx.frame.wf(),
                y == rows.top(i as nat),
                fires == self.fires(rows, selected, labels, old(ctx).frame, old(ctx)@),
                ctx@ == self.rows_drawn(
                    rows,
                    selected,
                    labels,
                    old(ctx).frame,
                    old(ctx)@,
                    i as nat,
                ),
                fired is Some ==> fired == crate::context::first_hit(fires, 0, n as nat),
                fired is None ==> crate::context::first_hit(fires, 0, n as nat) == crate::context::first_hit(
                    fires,
                    i as nat,
                    n as nat,
                ),
            decreases n - i,
        {
            let row = Rect { x: rows.x, y, width: rows.width, height: rows.height };
            let tone = if selected == i {
                Tone::Accent
            } else {
                Tone::Default
            };
            let mut button = Button::new(self.items[i]).tone(tone).enabled(self.is_enabled(i));
            match self.focus_base {
                Some(base) => {
                    button = button.focusable(base + i as u64);
                },
                None => {},
            }
            assert(button@ =~= self.button(i as int, selected));
            let clicked = button.draw(row, label_at(labels, i), ctx);
            assert(clicked == fires(i as int));
            if clicked && fired.is_none() {
                fired = Some(i);
            }
            y = y.plus(rows.height.plus(rows.gap));
            i = i + 1;
        }
        fired
    }

    /// Draw the menu and move the selection: the pointer selects what it is over,
    /// the keys go up and down and around the ends. A menu without items, or in
    /// no width, draws nothing.
    pub fn draw(
        &self,
        rect: Rect,
        selected: &mut usize,
        labels: &[Label],
        ctx: &mut DrawContext,
    ) -> (out: MenuListOutput)
        requires
            self.wf(),
            old(ctx).frame.wf(),
        ensures
            self.items@.len() == 0 || rect.width.le(whole(0)) ==> {
                &&& out == MenuListOutput::nothing()
                &&& *final(selected) == *old(selected)
                &&& final(ctx)@ == old(ctx)@
            },
            self.items@.len() > 0 && !rect.width.le(whole(0)) ==> {
                let rows = self.rows(rect, labels, &old(ctx).frame.styles);
                &&& out == self.happened(rect, *old(selected), labels, old(ctx).frame, old(ctx)@)
                &&& *final(selected) == self.selection(*old(selected), rows, &old(ctx).frame.input)
                &&& final(ctx)@ == self.rows_drawn(
                    rows,
                    *final(selected),
                    labels,
                    old(ctx).frame,
                    old(ctx)@,
                    self.items@.len(),
                )
            },
            final(ctx).frame == old(ctx).frame,
    {
        let n: usize = self.items.len();
        if n == 0 || rect.width.le(whole(0)) {
            return MenuListOutput::nothing();
        }
        let rows = self.lay_rows(rect, labels, &ctx.frame.styles);
        if *selected >= n {
            *selected = n - 1;
        }
        let held: usize = *selected;
        let had_nav = ctx.frame.input.nav.up || ctx.frame.input.nav.down;
        if had_nav {
            *selected = stepped(*selected, n, ctx.frame.input.nav.down);
        }
        let hovered = self.find_hovered(rows, &ctx.frame.input);
        match hovered {
            Some(i) => {
                *selected = i;
            },
            None => {},
        }
        let intrinsic_width = self.fit_width(labels, &ctx.frame.styles);
        let fired = self.draw_rows(rows, *selected, labels, ctx);
        let activated = match fired {
            Some(i) => if self.is_enabled(i) {
                Some(i)
            } else {
                None
            },
            None => if ctx.frame.input.nav.confirm && !had_nav && !ctx.frame.input.mouse_consumed
                && self.is_enabled(*selected) {
                Some(*selected)
            } else {
                None
            },
        };
        MenuListOutput {
            activated,
            hovered,
            selected_changed: *selected != held,
            intrinsic_width,
        }
    }
}

impl<'a> Default for MenuList<'a> {
    fn default() -> (r: Self)
        ensures
            r.items@.len() == 0,
            r.row_height is None,
            r.gap is None,
            r.enabled is None,
            r.focus_base is None,
    {
        MenuList { items: &[], row_height: None, gap: None, enabled: None, focus_base: None }
    }
}

/// In a column of the intrinsic width the rows have that width.
pub proof fn law_intrinsic_width_fits(menu: MenuList, rect: Rect, labels: &[Label], s: &StyleResolver)
    requires
        rect.width == menu.natural_width(labels, s),
        !rect.width.is_nan(),
    ensures
        menu.rows(rect, labels, s).width.same(menu.natural_width(labels, s)),
{
    reveal(Scalar::spec_lt);
    reveal(Scalar::spec_same);
}

/// The selection stays among the items.
pub proof fn law_selection_stays_in_the_menu(
    menu: MenuList,
    selected: usize,
    rows: MenuRows,
    input: &InputState,
)
    requires
        0 < menu.items@.len() <= usize::MAX,
    ensures
        menu.selection(selected, rows, input) < menu.items@.len(),
{
    crate::context::lemma_first_hit(menu.hovers(rows, input), 0, menu.items@.len());
    let n = menu.items@.len() as usize;
    assert(forall|a: int| #[trigger] (a % n as int) < n) by {
        assert forall|a: int| #[trigger] (a % n as int) < n by {
            vstd::arithmetic::div_mod::lemma_mod_bound(a, n as int);
        }
    }
    assert(forall|a: int| 0 <= #[trigger] (a % n as int)) by {
        assert forall|a: int| 0 <= #[trigger] (a % n as int) by {
            vstd::arithmetic::div_mod::lemma_mod_bound(a, n as int);
        }
    }
}

/// A step down and a step up undo each other, around the ends too.
pub proof fn law_steps_undo_each_other(selected: usize, n: usize)
    requires
        selected < n,
    ensures
        stepped(stepped(selected, n, true), n, false) == selected,
        stepped(stepped(selected, n, false), n, true) == selected,
{
    let s = selected as int;
    let m = n as int;
    if s == m - 1 {
        assert(m % m == 0) by (nonlinear_arith)
            requires
                m > 0,
        ;
        vstd::arithmetic::div_mod::lemma_small_mod((m - 1) as nat, m as nat);
        assert((0 + m - 1) % m == m - 1);
    } else {
        vstd::arithmetic::div_mod::lemma_small_mod((s + 1) as nat, m as nat);
        vstd::arithmetic::div_mod::lemma_mod_add_multiples_vanish(s, m);
        vstd::arithmetic::div_mod::lemma_small_mod(s as nat, m as nat);
        assert((s + 1 + m - 1) % m == s);
    }
    if s == 0 {
        vstd::arithmetic::div_mod::lemma_small_mod((m - 1) as nat, m as nat);
        assert(m % m == 0) by (nonlinear_arith)
            requires
                m > 0,
        ;
    } else {
        vstd::arithmetic::div_mod::lemma_mod_add_multiples_vanish(s - 1, m);
        vstd::arithmetic::div_mod::lemma_small_mod((s - 1) as nat, m as nat);
        vstd::arithmetic::div_mod::lemma_small_mod(s as nat, m as nat);
    }
}

/// A frame that moves the selection by key does not confirm by key: what is
/// activated then is a row whose button was.
pub proof fn law_move_frame_does_not_confirm(
    menu: MenuList,
    rows: MenuRows,
    selected: usize,
    labels: &[Label],
    frame: crate::context::Frame,
    scene: crate::context::Scene,
)
    requires
        frame.input.nav.up || frame.input.nav.down,
        menu.items@.len() <= usize::MAX,
    ensures
        menu.activated(rows, selected, labels, frame, scene) matches Some(i) ==> menu.fires(
            rows,
            selected,
            labels,
            frame,
            scene,
        )(i as int),
{
    crate::context::lemma_first_hit(menu.fires(rows, selected, labels, frame, scene), 0, menu.items@.len());
}

/// A disabled item is neither hovered nor activated.
pub proof fn law_disabled_item_is_inert(
    menu: MenuList,
    rows: MenuRows,
    selected: usize,
    labels: &[Label],
    frame: crate::context::Frame,
    scene: crate::context::Scene,
    i: usize,
)
    requires
        !menu.is_enabled(i),
        menu.items@.len() <= usize::MAX,
    ensures
        menu.hovered(rows, &frame.input) != Some(i),
        menu.activated(rows, selected, labels, frame, scene) != Some(i),
{
    crate::context::lemma_first_hit(menu.hovers(rows, &frame.input), 0, menu.items@.len());
}

/// Down goes to the next item and Up to the one before, each around its end.
pub proof fn law_keys_go_to_the_neighbours(selected: usize, n: usize)
    requires
        selected < n,
    ensures
        selected + 1 < n ==> stepped(selected, n, true) == selected + 1,
        selected + 1 == n ==> stepped(selected, n, true) == 0,
        selected > 0 ==> stepped(selected, n, false) + 1 == selected,
        selected == 0 ==> stepped(selected, n, false) + 1 == n,
{
    let m = n as int;
    if selected + 1 < n {
        vstd::arithmetic::div_mod::lemma_small_mod((selected + 1) as nat, n as nat);
    } else {
        vstd::arithmetic::div_mod::lemma_mod_self_0(m);
    }
    if selected > 0 {
        vstd::arithmetic::div_mod::lemma_mod_add_multiples_vanish(selected - 1, m);
        vstd::arithmetic::div_mod::lemma_small_mod((selected - 1) as nat, n as nat);
        assert(selected + m - 1 == m + (selected - 1));
    } else {
        vstd::arithmetic::div_mod::lemma_small_mod((n - 1) as nat, n as nat);
    }
}

/// In a menu that the pointer is not over, the keys move the selection to the neighbour;
/// an enabled item under the pointer takes the selection whatever the keys do.
pub proof fn law_selection_follows_keys_and_pointer(menu: MenuList, selected: usize, rows: MenuRows, input: &InputState, i: usize)
    requires
        selected < menu.items@.len() <= usize::MAX,
        i < menu.items@.len(),
    ensures
        ({
            let n = menu.items@.len() as usize;
            let to = menu.selection(selected, rows, input);
            let beside = menu.hovered(rows, input) is None;
            &&& beside && input.nav.down && selected + 1 < n ==> to == selected + 1
            &&& beside && input.nav.down && selected + 1 == n ==> to == 0
            &&& beside && input.nav.up && !input.nav.down && selected > 0 ==> to + 1 == selected
            &&& beside && input.nav.up && !input.nav.down && selected == 0 ==> to + 1 == n
            &&& beside && !input.nav.up && !input.nav.down ==> to == selected
            &&& menu.is_enabled(i) && input.over(rows.row(i as int)) ==> menu.is_enabled(to)
                && input.over(rows.row(to as int)) && menu.hovered(rows, input) == Some(to)
        }),
{
    law_keys_go_to_the_neighbours(selected, menu.items@.len() as usize);
    let hits = menu.hovers(rows, input);
    crate::context::lemma_first_hit(hits, 0, menu.items@.len());
    match crate::context::first_hit(hits, 0, menu.items@.len()) {
        Some(j) => {
            assert(hits(j as int));
        },
        None => {
            assert(!hits(i as int));
        },
    }
}

/// The rows of a menu lie under each other, a row and a gap apart.
pub proof fn law_rows_lie_under_each_other(rows: MenuRows, i: nat, y: int, h: int, g: int)
    requires
        rounding::in_steps(rows.y, y),
        rounding::in_steps(rows.height, h),
        rounding::in_steps(rows.gap, g),
        0 <= h,
        0 <= g,
        rounding::size(y) + (i + 1) * (h + g) <= 0x40_0000,
    ensures
        rounding::in_steps(rows.row(i as int).y, y + i * (h + g)),
        rows.row(i as int).x == rows.x,
        rows.row(i as int).width == rows.width,
        rows.row(i as int).height == rows.height,
    decreases i,
{
    let p = h + g;
    assert((i + 1) * p == i * p + p && i * p >= 0) by (nonlinear_arith)
        requires
            p >= 0,
    ;
    rounding::law_plus_steps(rows.height, rows.gap, h, g);
    if i == 0 {
        assert(0 * p == 0) by (nonlinear_arith);
    } else {
        law_rows_lie_under_each_other(rows, (i - 1) as nat, y, h, g);
        assert((i - 1) * p + p == i * p) by (nonlinear_arith);
        rounding::law_plus_steps(
            rows.top((i - 1) as nat),
            rows.height.plus(rows.gap),
            y + (i - 1) * p,
            p,
        );
    }
}

/// The rows of a menu stand in the middle of its rectangle, as far from the left edge as
/// from the right one; and where they fit, as far from the top edge as from the bottom one.
pub proof fn law_menu_is_centered(menu: MenuList, rect: Rect, labels: &[Label], s: &StyleResolver, x: int, y: int, w: int, h: int, n: int, c: int)
    requires
        crate::geometry::in_steps(rect, x, y, w, h),
        rounding::in_steps(menu.rows(rect, labels, s).width, n),
        rounding::in_steps(
            MenuList::total_height(
                menu.rows(rect, labels, s).height,
                menu.rows(rect, labels, s).gap,
                menu.items@.len() as usize,
            ),
            c,
        ),
        0 <= n <= w,
        0 <= c <= 0x40_0000,
        0 <= h,
        (w - n) % 2 == 0,
        (h - c) % 2 == 0,
    ensures
        ({
            let rows = menu.rows(rect, labels, s);
            &&& rounding::in_steps(rows.x, x + (w - n) / 2)
            &&& c <= h ==> rounding::in_steps(rows.y, y + (h - c) / 2)
            &&& c > h ==> rounding::in_steps(rows.y, y)
        }),
{
    let rows = menu.rows(rect, labels, s);
    rounding::law_minus_steps(rect.width, rows.width, w, n);
    rounding::law_half_of_steps(rect.width.minus(rows.width), w - n);
    rounding::law_plus_steps(
        rect.x,
        rect.width.minus(rows.width).times(ratio(1, 2)),
        x,
        (w - n) / 2,
    );
    let content = MenuList::total_height(rows.height, rows.gap, menu.items@.len() as usize);
    rounding::law_steps_compare(rect.height, content, h, c);
    rounding::law_minus_steps(rect.height, content, h, c);
    rounding::law_half_of_steps(rect.height.minus(content), h - c);
    rounding::law_plus_steps(
        rect.y,
        rect.height.minus(content).times(ratio(1, 2)),
        y,
        (h - c) / 2,
    );
}

} // verus!
