//! Virtualized lists and grids.
//!
//! A list shows the items that its scroll viewport meets and no others, so a
//! long collection costs as much as a screenful. It owns no data: the caller
//! says how many items there are and fills each visible cell.
//!
//! A frame has three parts. [`List::begin`] measures the content, moves the
//! keyboard cursor and scrolls it into view. Inside the scroll viewport
//! [`ListPass::place`] lays the cells out, and each [`ListPass::step`] settles
//! the pointer on the next cell, paints its background and hands it to the
//! caller. [`ListPass::output`] then says what happened.

use crate::draw_list::DrawList;
use crate::geometry::{Color, Point, Rect};
use crate::input::InputState;
use crate::rounding;
use crate::scalar::{ratio, whole, Scalar};
use crate::style::{StyleKey, StyleResolver};
use std::collections::BTreeSet;
use vstd::prelude::*;
use vstd::std_specs::cmp::*;
use vstd::std_specs::iter::*;

verus! {

/// How a list responds to clicks and keys.
#[derive(Debug, Clone, Copy, PartialEq, Eq, Structural)]
pub enum SelectionMode {
    /// Items are never selected.
    Off,
    /// At most one item is selected; a click replaces it.
    Single,
    /// A plain click replaces the selection, one with Ctrl toggles, one with
    /// Shift selects the range from the anchor.
    Multi,
}

impl Default for SelectionMode {
    fn default() -> (r: Self)
        ensures
            r == SelectionMode::Single,
    {
        SelectionMode::Single
    }
}

/// The keys that move in a list.
#[derive(Debug, Clone, Copy, PartialEq, Eq, Structural)]
pub struct NavKeys {
    /// Up.
    pub up: bool,
    /// Down.
    pub down: bool,
    /// Left.
    pub left: bool,
    /// Right.
    pub right: bool,
    /// To the first item.
    pub home: bool,
    /// To the last item.
    pub end: bool,
    /// Activate the item.
    pub activate: bool,
}

impl NavKeys {
    pub open spec fn spec_idle() -> NavKeys {
        NavKeys {
            up: false,
            down: false,
            left: false,
            right: false,
            home: false,
            end: false,
            activate: false,
        }
    }

    /// No key.
    #[verifier::when_used_as_spec(spec_idle)]
    pub fn idle() -> (r: NavKeys)
        ensures
            r == Self::spec_idle(),
    {
        NavKeys {
            up: false,
            down: false,
            left: false,
            right: false,
            home: false,
            end: false,
            activate: false,
        }
    }

    pub open spec fn spec_raw(input: &InputState) -> NavKeys {
        NavKeys {
            up: input.nav.up,
            down: input.nav.down,
            left: input.nav.left,
            right: input.nav.right,
            home: input.key_home,
            end: input.key_end,
            activate: input.nav.confirm,
        }
    }

    /// The keys that are down. Home and End have no navigation intent of their
    /// own and come from the keyboard alone.
    #[verifier::when_used_as_spec(spec_raw)]
    pub fn raw(input: &InputState) -> (r: NavKeys)
        ensures
            r == Self::spec_raw(input),
    {
        NavKeys {
            up: input.nav.up,
            down: input.nav.down,
            left: input.nav.left,
            right: input.nav.right,
            home: input.key_home,
            end: input.key_end,
            activate: input.nav.confirm,
        }
    }

    pub open spec fn spec_since(self, prev: NavKeys) -> NavKeys {
        NavKeys {
            up: self.up && !prev.up,
            down: self.down && !prev.down,
            left: self.left && !prev.left,
            right: self.right && !prev.right,
            home: self.home && !prev.home,
            end: self.end && !prev.end,
            activate: self.activate && !prev.activate,
        }
    }

    /// The keys that went down since `prev`.
    #[verifier::when_used_as_spec(spec_since)]
    pub fn since(self, prev: NavKeys) -> (r: NavKeys)
        ensures
            r == self.spec_since(prev),
    {
        NavKeys {
            up: self.up && !prev.up,
            down: self.down && !prev.down,
            left: self.left && !prev.left,
            right: self.right && !prev.right,
            home: self.home && !prev.home,
            end: self.end && !prev.end,
            activate: self.activate && !prev.activate,
        }
    }

    pub open spec fn spec_moves(self) -> bool {
        self.up || self.down || self.left || self.right || self.home || self.end
    }

    /// Whether some key moves the cursor.
    #[verifier::when_used_as_spec(spec_moves)]
    pub fn moves(self) -> (r: bool)
        ensures
            r == self.spec_moves(),
    {
        self.up || self.down || self.left || self.right || self.home || self.end
    }
}

/// Scroll offset and content size.
#[derive(Debug, Clone, Copy, PartialEq, Eq, Structural)]
pub struct ScrollState {
    /// How far the content is scrolled.
    pub offset: Point,
    /// How large the content is.
    pub content_size: Point,
}

impl ScrollState {
    pub open spec fn spec_new() -> ScrollState {
        ScrollState { offset: Point::zero(), content_size: Point::zero() }
    }

    /// Scrolled to the start of nothing.
    #[verifier::when_used_as_spec(spec_new)]
    pub fn new() -> (r: ScrollState)
        ensures
            r == Self::spec_new(),
    {
        ScrollState { offset: Point::zero(), content_size: Point::zero() }
    }

    pub open spec fn spec_held(offset: Scalar, content: Scalar, view: Scalar) -> Scalar {
        offset.at_least(whole(0)).at_most(content.minus(view).at_least(whole(0)))
    }

    #[verifier::when_used_as_spec(spec_held)]
    fn held(offset: Scalar, content: Scalar, view: Scalar) -> (r: Scalar)
        ensures
            r == Self::spec_held(offset, content, view),
    {
        offset.at_least(whole(0)).at_most(content.minus(view).at_least(whole(0)))
    }

    pub open spec fn spec_clamped(self, view: Point) -> ScrollState {
        ScrollState {
            offset: Point {
                x: Self::spec_held(self.offset.x, self.content_size.x, view.x),
                y: Self::spec_held(self.offset.y, self.content_size.y, view.y),
            },
            content_size: self.content_size,
        }
    }

    /// With the offset held where a viewport of this size shows content.
    #[verifier::when_used_as_spec(spec_clamped)]
    pub fn clamped(self, view: Point) -> (r: ScrollState)
        ensures
            r == self.spec_clamped(view),
    {
        ScrollState {
            offset: Point {
                x: Self::held(self.offset.x, self.content_size.x, view.x),
                y: Self::held(self.offset.y, self.content_size.y, view.y),
            },
            content_size: self.content_size,
        }
    }
}

impl Default for NavKeys {
    fn default() -> (r: Self)
        ensures
            r == NavKeys::idle(),
    {
        NavKeys::idle()
    }
}

/// A list's persistent state.
#[derive(Debug, Clone)]
pub struct ListState {
    /// Scroll offset and content size.
    pub scroll: ScrollState,
    selected: BTreeSet<usize>,
    anchor: Option<usize>,
    cursor: Option<usize>,
    keys: NavKeys,
    prev_keys: NavKeys,
}

/// The selected items, where a range starts, and the keyboard's item.
#[verifier::ext_equal]
pub struct Selection {
    /// The selected items.
    pub selected: Set<usize>,
    /// Where a range selection starts: the item last clicked plainly.
    pub anchor: Option<usize>,
    /// The item that arrow keys move and Enter activates.
    pub cursor: Option<usize>,
}

/// What a [`ListState`] holds.
#[verifier::ext_equal]
pub struct ListView {
    /// Scroll offset and content size.
    pub scroll: ScrollState,
    /// Selection.
    pub selection: Selection,
    /// The keys that went down in this frame.
    pub keys: NavKeys,
    /// The keys that were down in this frame.
    pub prev_keys: NavKeys,
}

impl View for ListState {
    type V = ListView;

    closed spec fn view(&self) -> ListView {
        ListView {
            scroll: self.scroll,
            selection: Selection {
                selected: self.selected@,
                anchor: self.anchor,
                cursor: self.cursor,
            },
            keys: self.keys,
            prev_keys: self.prev_keys,
        }
    }
}

/// The items from one to the other, both of them with it.
pub open spec fn between(a: usize, b: usize) -> Set<usize> {
    Set::new(|i: usize| a <= i <= b || b <= i <= a)
}

impl Selection {
    /// Exactly `i`.
    pub open spec fn one(self, i: usize) -> Selection {
        Selection { selected: Set::empty().insert(i), anchor: Some(i), cursor: Some(i) }
    }

    /// With `i` in it if it was not, and out of it if it was.
    pub open spec fn toggled(self, i: usize) -> Selection {
        Selection {
            selected: if self.selected.contains(i) {
                self.selected.remove(i)
            } else {
                self.selected.insert(i)
            },
            anchor: Some(i),
            cursor: Some(i),
        }
    }

    /// Exactly the items from `a` to `b`.
    pub open spec fn ranged(self, a: usize, b: usize) -> Selection {
        Selection { selected: between(a, b), anchor: Some(a), cursor: Some(b) }
    }

    /// The range from the anchor, or from `i` itself, to `i`.
    pub open spec fn extended(self, i: usize) -> Selection {
        self.ranged(
            match self.anchor {
                Some(a) => a,
                None => i,
            },
            i,
        )
    }

    /// What a click on `i` selects.
    pub open spec fn picked(self, mode: SelectionMode, ctrl: bool, shift: bool, i: usize) -> Selection {
        match mode {
            SelectionMode::Off => Selection { cursor: Some(i), ..self },
            SelectionMode::Single => self.one(i),
            SelectionMode::Multi => if ctrl {
                self.toggled(i)
            } else if shift {
                self.extended(i)
            } else {
                self.one(i)
            },
        }
    }

    /// What a cursor move to `i` selects.
    pub open spec fn moved(self, mode: SelectionMode, shift: bool, i: usize) -> Selection {
        match mode {
            SelectionMode::Off => Selection { cursor: Some(i), ..self },
            SelectionMode::Single => self.one(i),
            SelectionMode::Multi => if shift {
                self.extended(i)
            } else {
                self.one(i)
            },
        }
    }
}

fn sel_one(
    sel: &mut BTreeSet<usize>,
    anchor: &mut Option<usize>,
    cursor: &mut Option<usize>,
    i: usize,
)
    ensures
        final(sel)@ == Set::<usize>::empty().insert(i),
        *final(anchor) == Some(i),
        *final(cursor) == Some(i),
{
    broadcast use vstd::std_specs::btree::group_btree_axioms, vstd::laws_cmp::group_laws_cmp;

    sel.clear();
    sel.insert(i);
    *anchor = Some(i);
    *cursor = Some(i);
}

fn sel_toggle(
    sel: &mut BTreeSet<usize>,
    anchor: &mut Option<usize>,
    cursor: &mut Option<usize>,
    i: usize,
)
    ensures
        final(sel)@ == if old(sel)@.contains(i) {
            old(sel)@.remove(i)
        } else {
            old(sel)@.insert(i)
        },
        *final(anchor) == Some(i),
        *final(cursor) == Some(i),
{
    broadcast use vstd::std_specs::btree::group_btree_axioms, vstd::laws_cmp::group_laws_cmp;

    if !sel.remove(&i) {
        assert(sel@ =~= old(sel)@);
        sel.insert(i);
    }
    *anchor = Some(i);
    *cursor = Some(i);
}

fn sel_range(
    sel: &mut BTreeSet<usize>,
    anchor: &mut Option<usize>,
    cursor: &mut Option<usize>,
    a: usize,
    b: usize,
)
    ensures
        final(sel)@ == between(a, b),
        *final(anchor) == Some(a),
        *final(cursor) == Some(b),
{
    broadcast use vstd::std_specs::btree::group_btree_axioms, vstd::laws_cmp::group_laws_cmp;

    let (lo, hi): (usize, usize) = if a <= b {
        (a, b)
    } else {
        (b, a)
    };
    sel.clear();
    sel.insert(lo);
    let mut k: usize = lo;
    assert(sel@ =~= between(lo, lo));
    while k < hi
        invariant
            lo <= k <= hi,
            sel@ == between(lo, k),
        decreases hi - k,
    {
        broadcast use vstd::std_specs::btree::group_btree_axioms, vstd::laws_cmp::group_laws_cmp;

        k = k + 1;
        sel.insert(k);
        assert(sel@ =~= between(lo, k));
    }
    assert(between(lo, hi) =~= between(a, b));
    *anchor = Some(a);
    *cursor = Some(b);
}

impl ListState {
    /// Nothing selected, scrolled to the top.
    pub fn new() -> (r: Self)
        ensures
            r@ == (ListView {
                scroll: ScrollState::new(),
                selection: Selection { selected: Set::empty(), anchor: None, cursor: None },
                keys: NavKeys::idle(),
                prev_keys: NavKeys::idle(),
            }),
    {
        ListState {
            scroll: ScrollState::new(),
            selected: BTreeSet::new(),
            anchor: None,
            cursor: None,
            keys: NavKeys::idle(),
            prev_keys: NavKeys::idle(),
        }
    }

    /// Whether item `i` is selected.
    pub fn is_selected(&self, i: usize) -> (r: bool)
        ensures
            r == self@.selection.selected.contains(i),
    {
        broadcast use vstd::std_specs::btree::group_btree_axioms, vstd::laws_cmp::group_laws_cmp;

        self.selected.contains(&i)
    }

    /// The selected items in ascending order.
    pub fn selected(&self) -> (r: Vec<usize>)
        ensures
            r@.to_set() == self@.selection.selected,
            forall|i: int, j: int| 0 <= i < j < r@.len() ==> r@[i] < r@[j],
    {
        broadcast use vstd::std_specs::btree::group_btree_axioms, vstd::laws_cmp::group_laws_cmp;

        let ghost all = IteratorSpec::remaining(
            &vstd::std_specs::btree::spec_btree_keys_iter(&self.selected),
        );
        let mut r: Vec<usize> = Vec::new();
        for x in it: self.selected.iter()
            invariant
                it.seq() == all,
                r@.len() == it.index(),
                forall|i: int| 0 <= i < r@.len() ==> r@[i] == *all[i],
        {
            r.push(*x);
        }
        proof {
            assert(r@ =~= all.unref());
            assert(vstd::laws_cmp::obeys_cmp::<&usize>());
            assert(vstd::std_specs::btree::increasing_seq(all));
            assert forall|i: int, j: int| 0 <= i < j < r@.len() implies r@[i] < r@[j] by {
                assert(OrdSpec::cmp_spec(&all[i], &all[j]) is Less);
            }
        }
        r
    }

    /// How many items are selected.
    pub fn selected_count(&self) -> (r: usize)
        ensures
            r == self@.selection.selected.len(),
    {
        broadcast use vstd::std_specs::btree::group_btree_axioms, vstd::laws_cmp::group_laws_cmp;

        self.selected.len()
    }

    /// The keyboard's item.
    pub fn cursor(&self) -> (r: Option<usize>)
        ensures
            r == self@.selection.cursor,
    {
        self.cursor
    }

    /// Move the keyboard's item and leave the selection as it is.
    pub fn set_cursor(&mut self, i: usize)
        ensures
            final(self)@ == (ListView {
                selection: Selection { cursor: Some(i), ..old(self)@.selection },
                ..old(self)@
            }),
    {
        self.cursor = Some(i);
    }

    /// Select exactly `i`.
    pub fn select_one(&mut self, i: usize)
        ensures
            final(self)@ == (ListView { selection: old(self)@.selection.one(i), ..old(self)@ }),
    {
        sel_one(&mut self.selected, &mut self.anchor, &mut self.cursor, i);
    }

    /// Toggle `i` in the selection.
    pub fn toggle(&mut self, i: usize)
        ensures
            final(self)@ == (ListView { selection: old(self)@.selection.toggled(i), ..old(self)@ }),
    {
        sel_toggle(&mut self.selected, &mut self.anchor, &mut self.cursor, i);
    }

    /// Select exactly the items from `a` to `b`, in either order. The anchor
    /// becomes `a`, the cursor `b`.
    pub fn select_range(&mut self, a: usize, b: usize)
        ensures
            final(self)@ == (ListView {
                selection: old(self)@.selection.ranged(a, b),
                ..old(self)@
            }),
    {
        sel_range(&mut self.selected, &mut self.anchor, &mut self.cursor, a, b);
    }

    /// Clear the selection. The cursor and the anchor stay.
    pub fn clear_selection(&mut self)
        ensures
            final(self)@ == (ListView {
                selection: Selection { selected: Set::empty(), ..old(self)@.selection },
                ..old(self)@
            }),
    {
        self.selected.clear();
    }

    /// Select the first `count` items. The cursor and the anchor stay.
    pub fn select_all(&mut self, count: usize)
        ensures
            final(self)@ == (ListView {
                selection: Selection {
                    selected: Set::new(|i: usize| i < count),
                    ..old(self)@.selection
                },
                ..old(self)@
            }),
    {
        self.selected.clear();
        let mut k: usize = 0;
        assert(self.selected@ =~= Set::new(|i: usize| i < 0));
        while k < count
            invariant
                k <= count,
                self@ == (ListView {
                    selection: Selection {
                        selected: Set::new(|i: usize| i < k),
                        ..old(self)@.selection
                    },
                    ..old(self)@
                }),
            decreases count - k,
        {
            broadcast use vstd::std_specs::btree::group_btree_axioms, vstd::laws_cmp::group_laws_cmp;

            self.selected.insert(k);
            k = k + 1;
            assert(self.selected@ =~= Set::new(|i: usize| i < k));
        }
    }

    fn pick(&mut self, mode: SelectionMode, ctrl: bool, shift: bool, i: usize)
        ensures
            final(self)@ == (ListView {
                selection: old(self)@.selection.picked(mode, ctrl, shift, i),
                ..old(self)@
            }),
    {
        match mode {
            SelectionMode::Off => {
                self.cursor = Some(i);
            },
            SelectionMode::Single => self.select_one(i),
            SelectionMode::Multi => if ctrl {
                self.toggle(i);
            } else if shift {
                let a: usize = match self.anchor {
                    Some(a) => a,
                    None => i,
                };
                self.select_range(a, i);
            } else {
                self.select_one(i);
            },
        }
    }
}

impl Default for ListState {
    fn default() -> (r: Self)
        ensures
            r@ == (ListView {
                scroll: ScrollState::new(),
                selection: Selection { selected: Set::empty(), anchor: None, cursor: None },
                keys: NavKeys::idle(),
                prev_keys: NavKeys::idle(),
            }),
    {
        ListState::new()
    }
}

/// An item that is being shown.
#[derive(Debug, Clone, Copy, PartialEq, Eq, Structural)]
pub struct ListItem {
    /// Which item.
    pub index: usize,
    /// It is selected.
    pub selected: bool,
    /// The pointer is over it.
    pub hovered: bool,
    /// It is the keyboard's item.
    pub cursor: bool,
}

/// What happened in a list's frame.
#[derive(Debug, Clone, Copy, PartialEq, Eq, Structural)]
pub struct ListOutput {
    /// The item that was clicked.
    pub clicked: Option<usize>,
    /// The item that was activated by key.
    pub activated: Option<usize>,
    /// The item under the pointer.
    pub hovered: Option<usize>,
    /// The pointer is over the list.
    pub mouse_over_content: bool,
}

impl Default for ListOutput {
    fn default() -> (r: Self)
        ensures
            r == (ListOutput {
                clicked: None,
                activated: None,
                hovered: None,
                mouse_over_content: false,
            }),
    {
        ListOutput { clicked: None, activated: None, hovered: None, mouse_over_content: false }
    }
}

/// A list or grid, rebuilt each frame.
#[derive(Debug, Clone, Copy, PartialEq, Eq, Structural)]
pub struct List {
    /// Height of an item, derived from the style where there is none.
    pub item_height: Option<Scalar>,
    /// Number of columns.
    pub columns: usize,
    /// Gap between columns.
    pub col_gap: Scalar,
    /// Gap between rows.
    pub row_gap: Scalar,
    /// How it responds to clicks and keys.
    pub selection: SelectionMode,
    /// Whether it has the keyboard.
    pub focused: bool,
    /// Whether every other row of a single column is tinted.
    pub zebra: bool,
}

/// Where the keys take the cursor from `cursor` in items up to `last`: a first
/// press lands on the first item, a step stays within the list.
pub open spec fn spec_nav_target(cursor: Option<usize>, k: NavKeys, cols: usize, last: usize) -> usize {
    if k.home {
        0
    } else if k.end {
        last
    } else {
        match cursor {
            None => 0,
            Some(c) => {
                let v: int = if k.down {
                    least(c + cols, last as int)
                } else if k.up {
                    most(c - cols, 0)
                } else {
                    c as int
                };
                (if cols > 1 && k.right {
                    least(v + 1, last as int)
                } else if cols > 1 && k.left {
                    most(v - 1, 0)
                } else {
                    v
                }) as usize
            },
        }
    }
}

/// The smaller of two.
pub open spec fn least(a: int, b: int) -> int {
    if a <= b {
        a
    } else {
        b
    }
}

/// The larger of two.
pub open spec fn most(a: int, b: int) -> int {
    if a >= b {
        a
    } else {
        b
    }
}

/// Where the keys take the cursor.
#[verifier::when_used_as_spec(spec_nav_target)]
pub fn nav_target(cursor: Option<usize>, k: NavKeys, cols: usize, last: usize) -> (r: usize)
    ensures
        r == spec_nav_target(cursor, k, cols, last),
{
    if k.home {
        return 0;
    }
    if k.end {
        return last;
    }
    match cursor {
        None => 0,
        Some(c) => {
            let mut next: usize = c;
            if k.down {
                next = if c >= last || last - c <= cols {
                    last
                } else {
                    c + cols
                };
            } else if k.up {
                next = if c <= cols {
                    0
                } else {
                    c - cols
                };
            }
            if cols > 1 {
                if k.right {
                    next = if next >= last {
                        last
                    } else {
                        next + 1
                    };
                } else if k.left {
                    next = if next == 0 {
                        0
                    } else {
                        next - 1
                    };
                }
            }
            next
        },
    }
}

pub open spec fn spec_rows_total(count: usize, cols: usize) -> usize {
    ((count + cols - 1) / cols as int) as usize
}

/// The number of rows that `count` items fill.
#[verifier::when_used_as_spec(spec_rows_total)]
pub fn rows_total(count: usize, cols: usize) -> (r: usize)
    requires
        cols > 0,
    ensures
        r == spec_rows_total(count, cols),
        r <= count,
{
    proof {
        lemma_ceil(count as int, cols as int);
    }
    if count % cols == 0 {
        count / cols
    } else {
        count / cols + 1
    }
}

proof fn lemma_ceil(count: int, cols: int)
    requires
        count >= 0,
        cols > 0,
    ensures
        (count + cols - 1) / cols == if count % cols == 0 {
            count / cols
        } else {
            count / cols + 1
        },
        (count + cols - 1) / cols <= count,
        count / cols <= count,
{
    let q = count / cols;
    let m = count % cols;
    vstd::arithmetic::div_mod::lemma_fundamental_div_mod(count, cols);
    vstd::arithmetic::div_mod::lemma_mod_bound(count, cols);
    vstd::arithmetic::div_mod::lemma_div_pos_is_pos(count, cols);
    if m == 0 {
        vstd::arithmetic::div_mod::lemma_fundamental_div_mod_converse(
            count + cols - 1,
            cols,
            q,
            cols - 1,
        );
    } else {
        assert(count + cols - 1 == (q + 1) * cols + (m - 1)) by (nonlinear_arith)
            requires
                count == cols * q + m,
        ;
        vstd::arithmetic::div_mod::lemma_fundamental_div_mod_converse(
            count + cols - 1,
            cols,
            q + 1,
            m - 1,
        );
    }
    assert(q <= cols * q) by (nonlinear_arith)
        requires
            cols >= 1,
            q >= 0,
    ;
}

impl List {
    pub open spec fn spec_new() -> List {
        List {
            item_height: None,
            columns: 1,
            col_gap: whole(0),
            row_gap: whole(0),
            selection: SelectionMode::Single,
            focused: false,
            zebra: false,
        }
    }

    /// A single column without gaps, with single selection.
    #[verifier::when_used_as_spec(spec_new)]
    pub fn new() -> (r: Self)
        ensures
            r == Self::spec_new(),
    {
        List {
            item_height: None,
            columns: 1,
            col_gap: whole(0),
            row_gap: whole(0),
            selection: SelectionMode::Single,
            focused: false,
            zebra: false,
        }
    }

    /// With items of this height.
    pub fn with_item_height(self, h: Scalar) -> (r: Self)
        ensures
            r == (List { item_height: Some(h), ..self }),
    {
        let mut r = self;
        r.item_height = Some(h);
        r
    }

    /// With `n` columns, at least one.
    pub fn columns(self, n: usize) -> (r: Self)
        ensures
            r == (List {
                columns: if n == 0 {
                    1
                } else {
                    n
                },
                ..self
            }),
    {
        let mut r = self;
        r.columns = if n == 0 {
            1
        } else {
            n
        };
        r
    }

    /// With these gaps, none below 0.
    pub fn with_gap(self, col: Scalar, row: Scalar) -> (r: Self)
        ensures
            r == (List {
                col_gap: col.at_least(whole(0)),
                row_gap: row.at_least(whole(0)),
                ..self
            }),
    {
        let mut r = self;
        r.col_gap = col.at_least(whole(0));
        r.row_gap = row.at_least(whole(0));
        r
    }

    /// With this response to clicks and keys.
    pub fn selection(self, mode: SelectionMode) -> (r: Self)
        ensures
            r == (List { selection: mode, ..self }),
    {
        let mut r = self;
        r.selection = mode;
        r
    }

    /// With the keyboard or without.
    pub fn focused(self, focused: bool) -> (r: Self)
        ensures
            r == (List { focused, ..self }),
    {
        let mut r = self;
        r.focused = focused;
        r
    }

    /// With every other row tinted or not.
    pub fn with_zebra(self, zebra: bool) -> (r: Self)
        ensures
            r == (List { zebra, ..self }),
    {
        let mut r = self;
        r.zebra = zebra;
        r
    }

    pub open spec fn spec_item_h(self, s: &StyleResolver) -> Scalar {
        (match self.item_height {
            Some(h) => h,
            None => s.scalar(StyleKey::FontSize).plus(whole(10)),
        }).at_least(whole(1))
    }

    /// The height of an item.
    #[verifier::when_used_as_spec(spec_item_h)]
    pub fn item_h(self, s: &StyleResolver) -> (r: Scalar)
        ensures
            r == self.spec_item_h(s),
    {
        (match self.item_height {
            Some(h) => h,
            None => s.scalar(StyleKey::FontSize).plus(whole(10)),
        }).at_least(whole(1))
    }

    pub open spec fn spec_cols(self) -> usize {
        if self.columns == 0 {
            1
        } else {
            self.columns
        }
    }

    /// The number of columns, at least one.
    #[verifier::when_used_as_spec(spec_cols)]
    pub fn cols(self) -> (r: usize)
        ensures
            r == self.spec_cols(),
            r > 0,
    {
        if self.columns == 0 {
            1
        } else {
            self.columns
        }
    }

    pub open spec fn spec_content_h(self, count: usize, s: &StyleResolver) -> Scalar {
        let rows = rows_total(count, self.cols());
        if rows == 0 {
            whole(0)
        } else {
            whole(rows as u64).times(self.item_h(s)).plus(
                whole((rows - 1) as u64).times(self.row_gap),
            )
        }
    }

    /// The height of all rows with the gaps between them.
    #[verifier::when_used_as_spec(spec_content_h)]
    pub fn content_h(self, count: usize, s: &StyleResolver) -> (r: Scalar)
        ensures
            r == self.spec_content_h(count, s),
    {
        let rows: usize = rows_total(count, self.cols());
        if rows == 0 {
            whole(0)
        } else {
            whole(rows as u64).times(self.item_h(s)).plus(
                whole((rows - 1) as u64).times(self.row_gap),
            )
        }
    }

    pub open spec fn spec_revealed(
        self,
        scroll: ScrollState,
        rect: Rect,
        next: usize,
        s: &StyleResolver,
    ) -> ScrollState {
        let top = whole((next / self.cols()) as u64).times(self.item_h(s).plus(self.row_gap));
        let bottom = top.plus(self.item_h(s));
        let y = if top.lt(scroll.offset.y) {
            top
        } else if scroll.offset.y.plus(rect.height).lt(bottom) {
            bottom.minus(rect.height)
        } else {
            scroll.offset.y
        };
        (ScrollState { offset: Point { x: scroll.offset.x, y }, ..scroll }).clamped(
            Point { x: rect.width, y: rect.height },
        )
    }

    /// Scrolled as little as shows item `next`.
    #[verifier::when_used_as_spec(spec_revealed)]
    pub fn revealed(
        self,
        scroll: ScrollState,
        rect: Rect,
        next: usize,
        s: &StyleResolver,
    ) -> (r: ScrollState)
        ensures
            r == self.spec_revealed(scroll, rect, next, s),
    {
        let top = whole((next / self.cols()) as u64).times(self.item_h(s).plus(self.row_gap));
        let bottom = top.plus(self.item_h(s));
        let y = if top.lt(scroll.offset.y) {
            top
        } else if scroll.offset.y.plus(rect.height).lt(bottom) {
            bottom.minus(rect.height)
        } else {
            scroll.offset.y
        };
        (ScrollState {
            offset: Point { x: scroll.offset.x, y },
            content_size: scroll.content_size,
        }).clamped(Point { x: rect.width, y: rect.height })
    }

    /// The state after the keys of a frame.
    pub open spec fn begun(
        self,
        v: ListView,
        rect: Rect,
        count: usize,
        s: &StyleResolver,
        input: &InputState,
    ) -> ListView {
        let raw = NavKeys::raw(input);
        let keys = raw.since(v.prev_keys);
        let scroll = ScrollState {
            offset: v.scroll.offset,
            content_size: Point { x: rect.width, y: self.content_h(count, s) },
        };
        if self.focused && count > 0 && keys.moves() {
            let next = nav_target(v.selection.cursor, keys, self.cols(), (count - 1) as usize);
            ListView {
                scroll: self.revealed(scroll, rect, next, s),
                selection: v.selection.moved(self.selection, input.shift_pressed, next),
                keys,
                prev_keys: raw,
            }
        } else {
            ListView { scroll, selection: v.selection, keys, prev_keys: raw }
        }
    }

    /// The pass over the visible cells, before it is placed.
    pub open spec fn pass(
        self,
        after: ListView,
        rect: Rect,
        count: usize,
        s: &StyleResolver,
        input: &InputState,
    ) -> ListPass {
        ListPass {
            list: self,
            count,
            item_h: self.item_h(s),
            mouse: Point { x: input.mouse_x, y: input.mouse_y },
            pressed: input.mouse_clicked,
            ctrl: input.ctrl_pressed,
            shift: input.shift_pressed,
            scroll_y: after.scroll.offset.y,
            cursor: after.selection.cursor,
            vp: rect,
            cell_w: whole(0),
            at: 0,
            end: 0,
            out: ListOutput {
                clicked: None,
                activated: if self.focused && count > 0 && after.keys.activate {
                    after.selection.cursor
                } else {
                    None
                },
                hovered: None,
                mouse_over_content: input.over(rect),
            },
        }
    }

    /// Start a frame: measure the content, move the cursor by the keys that went
    /// down, where the list is focused, and scroll the cursor into view.
    pub fn begin(
        &self,
        rect: Rect,
        count: usize,
        state: &mut ListState,
        style: &StyleResolver,
        input: &InputState,
    ) -> (pass: ListPass)
        ensures
            final(state)@ == self.begun(old(state)@, rect, count, style, input),
            pass == self.pass(final(state)@, rect, count, style, input),
    {
        state.scroll.content_size = Point { x: rect.width, y: self.content_h(count, style) };
        let raw = NavKeys::raw(input);
        state.keys = raw.since(state.prev_keys);
        state.prev_keys = raw;
        let k = state.keys;
        let mut activated: Option<usize> = None;
        if self.focused && count > 0 {
            if k.moves() {
                let next: usize = nav_target(state.cursor, k, self.cols(), count - 1);
                state.pick(self.selection, false, input.shift_pressed, next);
                state.scroll = self.revealed(state.scroll, rect, next, style);
            }
            if k.activate {
                activated = state.cursor;
            }
        }
        ListPass {
            list: *self,
            count,
            item_h: self.item_h(style),
            mouse: Point { x: input.mouse_x, y: input.mouse_y },
            pressed: input.mouse_clicked,
            ctrl: input.ctrl_pressed,
            shift: input.shift_pressed,
            scroll_y: state.scroll.offset.y,
            cursor: state.cursor,
            vp: rect,
            cell_w: whole(0),
            at: 0,
            end: 0,
            out: ListOutput {
                clicked: None,
                activated,
                hovered: None,
                mouse_over_content: input.over(rect),
            },
        }
    }
}

impl Default for List {
    fn default() -> (r: Self)
        ensures
            r == List::new(),
    {
        List::new()
    }
}

/// A pass over the visible cells of a list.
#[derive(Debug, Clone, Copy, PartialEq, Eq, Structural)]
pub struct ListPass {
    /// The list.
    pub list: List,
    /// How many items there are.
    pub count: usize,
    /// The height of an item.
    pub item_h: Scalar,
    /// The pointer.
    pub mouse: Point,
    /// The pointer's button went down.
    pub pressed: bool,
    /// Ctrl is down.
    pub ctrl: bool,
    /// Shift is down.
    pub shift: bool,
    /// How far the list was scrolled.
    pub scroll_y: Scalar,
    /// The keyboard's item when the pass began.
    pub cursor: Option<usize>,
    /// The viewport.
    pub vp: Rect,
    /// The width of a cell.
    pub cell_w: Scalar,
    /// The next item.
    pub at: usize,
    /// One past the last visible item.
    pub end: usize,
    /// What happened so far.
    pub out: ListOutput,
}

impl ListPass {
    /// The distance from one row to the next.
    pub open spec fn spec_pitch(self) -> Scalar {
        self.item_h.plus(self.list.row_gap)
    }

    #[verifier::when_used_as_spec(spec_pitch)]
    fn pitch(self) -> (r: Scalar)
        ensures
            r == self.spec_pitch(),
    {
        self.item_h.plus(self.list.row_gap)
    }

    /// The first visible row, never past the items.
    pub open spec fn first_row(self) -> u64 {
        self.scroll_y.over(self.spec_pitch()).at_least(whole(0)).truncated(self.count as u64)
    }

    /// The rows that fit in a viewport of this height, and one more.
    pub open spec fn visible_rows(self, height: Scalar) -> int {
        height.over(self.spec_pitch()).ceiled(self.count as u64) + 1
    }

    /// The first item of row `row`, or the number of items.
    pub open spec fn row_start(self, row: int) -> usize {
        least(row * self.list.cols(), self.count as int) as usize
    }

    pub open spec fn spec_width_in(self, vp: Rect) -> Scalar {
        let cols = self.list.cols();
        if cols == 1 {
            vp.width
        } else {
            vp.width.minus(whole((cols - 1) as u64).times(self.list.col_gap)).over(
                whole(cols as u64),
            ).at_least(whole(1))
        }
    }

    #[verifier::when_used_as_spec(spec_width_in)]
    fn width_in(self, vp: Rect) -> (r: Scalar)
        ensures
            r == self.spec_width_in(vp),
    {
        let cols: usize = self.list.cols();
        if cols == 1 {
            vp.width
        } else {
            vp.width.minus(whole((cols - 1) as u64).times(self.list.col_gap)).over(
                whole(cols as u64),
            ).at_least(whole(1))
        }
    }

    /// The pass placed in a viewport: from the first visible item to the last.
    pub open spec fn placed(self, vp: Rect) -> ListPass {
        ListPass {
            vp,
            cell_w: self.spec_width_in(vp),
            at: self.row_start(self.first_row() as int),
            end: self.row_start(self.first_row() + self.visible_rows(vp.height)),
            ..self
        }
    }

    fn start_of(self, row: u128) -> (r: usize)
        ensures
            r == self.row_start(row as int),
    {
        let cols: usize = self.list.cols();
        let count: u128 = self.count as u128;
        if row >= count {
            assert(row * cols >= row) by (nonlinear_arith)
                requires
                    cols >= 1,
                    row >= 0,
            ;
            return self.count;
        }
        assert(row * cols <= 0xffff_ffff_ffff_ffff * 0xffff_ffff_ffff_ffff) by (nonlinear_arith)
            requires
                0 <= row <= 0xffff_ffff_ffff_ffff,
                0 <= cols <= 0xffff_ffff_ffff_ffff,
        ;
        let n: u128 = row * cols as u128;
        if n < count {
            n as usize
        } else {
            self.count
        }
    }

    /// Lay the cells out in the scroll viewport.
    pub fn place(&mut self, vp: Rect)
        ensures
            *final(self) == old(self).placed(vp),
    {
        let first: u64 = self.scroll_y.over(self.pitch()).at_least(whole(0)).truncated(
            self.count as u64,
        );
        let visible: u64 = vp.height.over(self.pitch()).ceiled(self.count as u64);
        self.cell_w = self.width_in(vp);
        self.at = self.start_of(first as u128);
        self.end = self.start_of(first as u128 + visible as u128 + 1);
        self.vp = vp;
    }

    pub open spec fn spec_cell(self, i: usize) -> Rect {
        let cols = self.list.cols();
        Rect {
            x: self.vp.x.plus(
                whole((i % cols) as u64).times(self.cell_w.plus(self.list.col_gap)),
            ),
            y: self.vp.y.plus(whole((i / cols) as u64).times(self.spec_pitch())),
            width: self.cell_w,
            height: self.item_h,
        }
    }

    /// The cell of item `i` in the scrolled content.
    #[verifier::when_used_as_spec(spec_cell)]
    pub fn cell(self, i: usize) -> (r: Rect)
        ensures
            r == self.spec_cell(i),
    {
        let cols: usize = self.list.cols();
        Rect {
            x: self.vp.x.plus(
                whole((i % cols) as u64).times(self.cell_w.plus(self.list.col_gap)),
            ),
            y: self.vp.y.plus(whole((i / cols) as u64).times(self.pitch())),
            width: self.cell_w,
            height: self.item_h,
        }
    }

    pub open spec fn spec_over(self, i: usize) -> bool {
        let cell = self.cell(i);
        let y = cell.y.minus(self.scroll_y);
        &&& self.out.mouse_over_content
        &&& cell.x.le(self.mouse.x)
        &&& self.mouse.x.lt(cell.x.plus(self.cell_w))
        &&& y.le(self.mouse.y)
        &&& self.mouse.y.lt(y.plus(self.item_h))
        &&& self.vp.y.le(self.mouse.y)
        &&& self.mouse.y.lt(self.vp.y.plus(self.vp.height))
    }

    /// Whether the pointer is over the cell of item `i` as it is scrolled. The
    /// gaps belong to no cell.
    #[verifier::when_used_as_spec(spec_over)]
    pub fn over(self, i: usize) -> (r: bool)
        ensures
            r == self.spec_over(i),
    {
        let cell = self.cell(i);
        let y = cell.y.minus(self.scroll_y);
        self.out.mouse_over_content && cell.x.le(self.mouse.x) && self.mouse.x.lt(
            cell.x.plus(self.cell_w),
        ) && y.le(self.mouse.y) && self.mouse.y.lt(y.plus(self.item_h)) && self.vp.y.le(
            self.mouse.y,
        ) && self.mouse.y.lt(self.vp.y.plus(self.vp.height))
    }

    pub open spec fn spec_background(
        self,
        i: usize,
        selected: bool,
        over: bool,
        s: &StyleResolver,
    ) -> Color {
        if selected {
            s.color(StyleKey::Accent)
        } else if over {
            s.color(StyleKey::ButtonHover)
        } else if self.list.zebra && self.list.cols() == 1 && i % 2 == 1 {
            let c = s.color(StyleKey::Panel);
            Color {
                r: c.r.times(ratio(112, 100)),
                g: c.g.times(ratio(112, 100)),
                b: c.b.times(ratio(112, 100)),
                a: c.a,
            }
        } else {
            Color::clear()
        }
    }

    /// What lies behind item `i`: the accent where it is selected, a light where
    /// the pointer is over it, a tint on every other row of a striped column.
    #[verifier::when_used_as_spec(spec_background)]
    pub fn background(self, i: usize, selected: bool, over: bool, s: &StyleResolver) -> (r: Color)
        ensures
            r == self.spec_background(i, selected, over, s),
    {
        if selected {
            s.color(StyleKey::Accent)
        } else if over {
            s.color(StyleKey::ButtonHover)
        } else if self.list.zebra && self.list.cols() == 1 && i % 2 == 1 {
            let c = s.color(StyleKey::Panel);
            Color {
                r: c.r.times(ratio(112, 100)),
                g: c.g.times(ratio(112, 100)),
                b: c.b.times(ratio(112, 100)),
                a: c.a,
            }
        } else {
            Color::clear()
        }
    }

    /// The selection after the pointer settled on item `i`.
    pub open spec fn chosen(self, sel: Selection, i: usize) -> Selection {
        if self.over(i) && self.pressed {
            sel.picked(self.list.selection, self.ctrl, self.shift, i)
        } else {
            sel
        }
    }

    /// The pass after item `i`.
    pub open spec fn stepped(self, i: usize) -> ListPass {
        ListPass {
            at: (i + 1) as usize,
            out: ListOutput {
                hovered: if self.over(i) {
                    Some(i)
                } else {
                    self.out.hovered
                },
                clicked: if self.over(i) && self.pressed {
                    Some(i)
                } else {
                    self.out.clicked
                },
                ..self.out
            },
            ..self
        }
    }

    /// What item `i` is shown as.
    pub open spec fn shown(self, sel: Selection, i: usize) -> ListItem {
        ListItem {
            index: i,
            selected: self.chosen(sel, i).selected.contains(i),
            hovered: self.over(i),
            cursor: self.cursor == Some(i),
        }
    }

    /// The background painted behind item `i`, where it shows.
    pub open spec fn painted(
        self,
        l: crate::draw_list::DrawState,
        item: ListItem,
        s: &StyleResolver,
    ) -> crate::draw_list::DrawState {
        let bg = self.background(item.index, item.selected, item.hovered, s);
        if whole(0).lt(bg.a) {
            l.quad(self.cell(item.index), bg)
        } else {
            l
        }
    }

    /// Settle the pointer on the next visible cell, select what a click there
    /// selects, paint its background, and give the cell and its item for the
    /// caller to fill. Nothing where every visible cell was given.
    pub fn step(
        &mut self,
        state: &mut ListState,
        list: &mut DrawList,
        style: &StyleResolver,
    ) -> (r: Option<(Rect, ListItem)>)
        ensures
            old(self).at >= old(self).end ==> {
                &&& r is None
                &&& *final(self) == *old(self)
                &&& final(state)@ == old(state)@
                &&& final(list)@ == old(list)@
            },
            old(self).at < old(self).end ==> {
                let i = old(self).at;
                let item = old(self).shown(old(state)@.selection, i);
                &&& r == Some((old(self).cell(i), item))
                &&& *final(self) == old(self).stepped(i)
                &&& final(state)@ == (ListView {
                    selection: old(self).chosen(old(state)@.selection, i),
                    ..old(state)@
                })
                &&& final(list)@ == old(self).painted(old(list)@, item, style)
            },
    {
        if self.at >= self.end {
            return None;
        }
        let i: usize = self.at;
        let cell = self.cell(i);
        let over = self.over(i);
        if over {
            self.out.hovered = Some(i);
            if self.pressed {
                self.out.clicked = Some(i);
                state.pick(self.list.selection, self.ctrl, self.shift, i);
            }
        }
        let selected = state.is_selected(i);
        let bg = self.background(i, selected, over, style);
        if whole(0).lt(bg.a) {
            list.quad(cell, bg);
        }
        self.at = i + 1;
        Some((cell, ListItem { index: i, selected, hovered: over, cursor: self.cursor == Some(i) }))
    }

    /// What happened.
    pub fn output(&self) -> (r: ListOutput)
        ensures
            r == self.out,
    {
        self.out
    }
}

/// Who fills the cells of a list.
pub trait ItemPainter {
    /// The cells and items handed over so far.
    spec fn shown(&self) -> Seq<(Rect, ListItem)>;

    /// What the list is once the painter, having been handed `seen`, filled `cell`
    /// with `item`.
    spec fn filled(
        &self,
        seen: Seq<(Rect, ListItem)>,
        l: crate::draw_list::DrawState,
        cell: Rect,
        item: ListItem,
    ) -> crate::draw_list::DrawState;

    /// Paint `item` into its cell, over its background.
    fn item(&mut self, list: &mut DrawList, cell: Rect, item: ListItem)
        ensures
            final(self).shown() == old(self).shown().push((cell, item)),
            final(list)@ == old(self).filled(old(self).shown(), old(list)@, cell, item),
            forall|
                seen: Seq<(Rect, ListItem)>,
                l: crate::draw_list::DrawState,
                c: Rect,
                i: ListItem,
            | #[trigger]
                final(self).filled(seen, l, c, i) == old(self).filled(seen, l, c, i),
    ;
}

/// A painter that paints nothing and keeps what it was handed.
#[derive(Debug)]
pub struct Cells {
    /// The cells and items handed over so far.
    pub cells: Vec<(Rect, ListItem)>,
}

impl Cells {
    /// Nothing yet.
    pub fn new() -> (r: Self)
        ensures
            r.shown() == Seq::<(Rect, ListItem)>::empty(),
    {
        Cells { cells: Vec::new() }
    }
}

impl ItemPainter for Cells {
    open spec fn shown(&self) -> Seq<(Rect, ListItem)> {
        self.cells@
    }

    open spec fn filled(
        &self,
        seen: Seq<(Rect, ListItem)>,
        l: crate::draw_list::DrawState,
        cell: Rect,
        item: ListItem,
    ) -> crate::draw_list::DrawState {
        l
    }

    fn item(&mut self, list: &mut DrawList, cell: Rect, item: ListItem) {
        self.cells.push((cell, item));
    }
}

impl ListPass {
    /// The pass after `n` more items.
    pub open spec fn walked(self, sel: Selection, n: nat) -> (ListPass, Selection)
        decreases n,
    {
        if n == 0 {
            (self, sel)
        } else {
            let (p, now) = self.walked(sel, (n - 1) as nat);
            (p.stepped(p.at), p.chosen(now, p.at))
        }
    }

    /// What those items are shown as, and where.
    pub open spec fn handed(self, sel: Selection, n: nat) -> Seq<(Rect, ListItem)>
        decreases n,
    {
        if n == 0 {
            Seq::empty()
        } else {
            let (p, now) = self.walked(sel, (n - 1) as nat);
            self.handed(sel, (n - 1) as nat).push((p.cell(p.at), p.shown(now, p.at)))
        }
    }

    /// The list once those items are painted: behind each its background, over it
    /// what the painter fills its cell with.
    pub open spec fn drawn<P: ItemPainter>(
        self,
        painter: P,
        sel: Selection,
        l: crate::draw_list::DrawState,
        s: &StyleResolver,
        n: nat,
    ) -> crate::draw_list::DrawState
        decreases n,
    {
        if n == 0 {
            l
        } else {
            let (p, now) = self.walked(sel, (n - 1) as nat);
            let item = p.shown(now, p.at);
            painter.filled(
                painter.shown() + self.handed(sel, (n - 1) as nat),
                p.painted(self.drawn(painter, sel, l, s, (n - 1) as nat), item, s),
                p.cell(p.at),
                item,
            )
        }
    }

    /// How many items are left.
    pub open spec fn left(self) -> nat {
        if self.at < self.end {
            (self.end - self.at) as nat
        } else {
            0
        }
    }

    /// Lay the cells out in the scroll viewport, settle the pointer on each
    /// visible one, select what a click selects, and paint them one after the
    /// other: the background, then whatever `painter` fills the cell with.
    pub fn draw_items<P: ItemPainter>(
        self,
        vp: Rect,
        state: &mut ListState,
        list: &mut DrawList,
        style: &StyleResolver,
        painter: &mut P,
    ) -> (out: ListOutput)
        ensures
            out == self.placed(vp).walked(
                old(state)@.selection,
                self.placed(vp).left(),
            ).0.out,
            final(state)@ == (ListView {
                selection: self.placed(vp).walked(
                    old(state)@.selection,
                    self.placed(vp).left(),
                ).1,
                ..old(state)@
            }),
            final(painter).shown() == old(painter).shown() + self.placed(vp).handed(
                old(state)@.selection,
                self.placed(vp).left(),
            ),
            final(list)@ == self.placed(vp).drawn(
                *old(painter),
                old(state)@.selection,
                old(list)@,
                style,
                self.placed(vp).left(),
            ),
    {
        let mut pass = self;
        pass.place(vp);
        let ghost placed = pass;
        let ghost sel = state@.selection;
        let ghost mut n: nat = 0;
        assert(painter.shown() =~= old(painter).shown() + placed.handed(sel, 0));
        while pass.at < pass.end
            invariant
                placed == self.placed(vp),
                sel == old(state)@.selection,
                n <= placed.left(),
                pass.left() == placed.left() - n,
                (pass, state@.selection) == placed.walked(sel, n),
                state@ == (ListView { selection: state@.selection, ..old(state)@ }),
                painter.shown() == old(painter).shown() + placed.handed(sel, n),
                list@ == placed.drawn(*old(painter), sel, old(list)@, style, n),
                forall|
                    seen: Seq<(Rect, ListItem)>,
                    l: crate::draw_list::DrawState,
                    c: Rect,
                    i: ListItem,
                | #[trigger]
                    painter.filled(seen, l, c, i) == old(painter).filled(seen, l, c, i),
            decreases pass.left(),
        {
            match pass.step(state, list, style) {
                Some((cell, item)) => {
                    painter.item(list, cell, item);
                    proof {
                        n = n + 1;
                    }
                    assert(painter.shown() =~= old(painter).shown() + placed.handed(sel, n));
                },
                None => {},
            }
        }
        pass.output()
    }
}

impl List {
    /// The pass over the cells in the scroll viewport `vp`, once the frame began.
    pub open spec fn pass_over(
        &self,
        vp: Rect,
        after: ListView,
        rect: Rect,
        count: usize,
        s: &StyleResolver,
        input: &InputState,
    ) -> ListPass {
        self.pass(after, rect, count, s, input).placed(vp)
    }

    /// One frame of the list in `rect`, whose content scrolls in the viewport `vp`:
    /// move the cursor by the keys, settle the pointer, and paint the visible cells.
    pub fn draw<P: ItemPainter>(
        &self,
        rect: Rect,
        vp: Rect,
        count: usize,
        state: &mut ListState,
        list: &mut DrawList,
        style: &StyleResolver,
        input: &InputState,
        painter: &mut P,
    ) -> (out: ListOutput)
        ensures
            ({
                let after = self.begun(old(state)@, rect, count, style, input);
                let pass = self.pass_over(vp, after, rect, count, style, input);
                let walked = pass.walked(after.selection, pass.left());
                &&& out == walked.0.out
                &&& final(state)@ == (ListView { selection: walked.1, ..after })
                &&& final(painter).shown() == old(painter).shown() + pass.handed(
                    after.selection,
                    pass.left(),
                )
                &&& final(list)@ == pass.drawn(
                    *old(painter),
                    after.selection,
                    old(list)@,
                    style,
                    pass.left(),
                )
            }),
    {
        let pass = self.begin(rect, count, state, style, input);
        pass.draw_items(vp, state, list, style, painter)
    }
}

/// A range is the same from either end.
pub proof fn law_range_is_symmetric(sel: Selection, a: usize, b: usize)
    ensures
        sel.ranged(a, b).selected == sel.ranged(b, a).selected,
{
    assert(between(a, b) =~= between(b, a));
}

/// Toggling twice leaves the selection as it was.
pub proof fn law_toggle_undoes_toggle(sel: Selection, i: usize)
    ensures
        sel.toggled(i).toggled(i).selected == sel.selected,
{
    assert(sel.toggled(i).toggled(i).selected =~= sel.selected);
}

/// With single selection a click leaves exactly the clicked item selected, with
/// whatever keys.
pub proof fn law_single_selects_one(sel: Selection, ctrl: bool, shift: bool, i: usize)
    ensures
        sel.picked(SelectionMode::Single, ctrl, shift, i).selected == Set::<usize>::empty().insert(
            i,
        ),
        sel.picked(SelectionMode::Single, ctrl, shift, i).selected.len() == 1,
{
}

/// Without selection neither clicks nor keys select.
pub proof fn law_none_never_selects(sel: Selection, ctrl: bool, shift: bool, i: usize)
    ensures
        sel.picked(SelectionMode::Off, ctrl, shift, i).selected == sel.selected,
        sel.moved(SelectionMode::Off, shift, i).selected == sel.selected,
{
}

/// A range selection keeps its anchor, so that the next one starts at the same
/// item, and selects from the anchor to the clicked item.
pub proof fn law_range_keeps_its_anchor(sel: Selection, a: usize, i: usize, k: usize)
    requires
        sel.anchor == Some(a),
    ensures
        sel.extended(i).anchor == Some(a),
        sel.extended(i).selected.contains(k) <==> (a <= k <= i || i <= k <= a),
{
}

/// Keys keep the cursor among the items.
pub proof fn law_keys_stay_in_the_list(cursor: Option<usize>, k: NavKeys, cols: usize, last: usize)
    requires
        cursor is Some ==> cursor->0 <= last,
        cols > 0,
    ensures
        nav_target(cursor, k, cols, last) <= last,
{
}

/// Whether one of the arrow keys alone went down.
pub open spec fn only(k: NavKeys, up: bool, down: bool, left: bool, right: bool) -> bool {
    &&& k.up == up && k.down == down && k.left == left && k.right == right
    &&& !k.home && !k.end
}

/// Up goes to the item one row above in the same column, and to the first item from the
/// first row; Down goes one row below, and to the last item from the last row.
pub proof fn law_up_and_down_move_a_row(c: usize, cols: usize, last: usize)
    requires
        c <= last,
        cols > 0,
    ensures
        forall|k: NavKeys|
            only(k, true, false, false, false) && c >= cols ==> #[trigger] nav_target(
                Some(c),
                k,
                cols,
                last,
            ) + cols == c,
        forall|k: NavKeys|
            only(k, true, false, false, false) && c < cols ==> #[trigger] nav_target(
                Some(c),
                k,
                cols,
                last,
            ) == 0,
        forall|k: NavKeys|
            only(k, false, true, false, false) && c + cols <= last ==> #[trigger] nav_target(
                Some(c),
                k,
                cols,
                last,
            ) == c + cols,
        forall|k: NavKeys|
            only(k, false, true, false, false) && c + cols > last ==> #[trigger] nav_target(
                Some(c),
                k,
                cols,
                last,
            ) == last,
{
}

/// Left and Right go to the item before and after in a grid, and stay within the items;
/// in a list of one column they do nothing.
pub proof fn law_left_and_right_move_a_column(c: usize, cols: usize, last: usize)
    requires
        c <= last,
        cols > 0,
    ensures
        forall|k: NavKeys|
            only(k, false, false, true, false) && cols > 1 && c > 0 ==> #[trigger] nav_target(
                Some(c),
                k,
                cols,
                last,
            ) + 1 == c,
        forall|k: NavKeys|
            only(k, false, false, false, true) && cols > 1 && c < last ==> #[trigger] nav_target(
                Some(c),
                k,
                cols,
                last,
            ) == c + 1,
        forall|k: NavKeys|
            only(k, false, false, true, false) && (cols == 1 || c == 0) ==> #[trigger] nav_target(
                Some(c),
                k,
                cols,
                last,
            ) == c,
        forall|k: NavKeys|
            only(k, false, false, false, true) && (cols == 1 || c == last) ==> #[trigger] nav_target(
                Some(c),
                k,
                cols,
                last,
            ) == c,
{
}

/// Home goes to the first item and End to the last, whatever else is down; where nothing
/// has the cursor yet, any other key puts it on the first item; without a key it stays.
pub proof fn law_home_and_end(cursor: Option<usize>, k: NavKeys, cols: usize, last: usize)
    ensures
        k.home ==> nav_target(cursor, k, cols, last) == 0,
        k.end && !k.home ==> nav_target(cursor, k, cols, last) == last,
        cursor is None && !k.end ==> nav_target(cursor, k, cols, last) == 0,
        cursor matches Some(c) ==> k == NavKeys::idle() ==> nav_target(cursor, k, cols, last) == c,
{
}

/// Down and then Up comes back to the item where it began, as does Up and then Down, and
/// Left and Right in a grid.
pub proof fn law_opposite_keys_undo_each_other(c: usize, cols: usize, last: usize, k: NavKeys, back: NavKeys)
    requires
        c <= last,
        cols > 0,
    ensures
        only(k, false, true, false, false) && only(back, true, false, false, false) && c + cols
            <= last ==> nav_target(Some(nav_target(Some(c), k, cols, last)), back, cols, last) == c,
        only(k, true, false, false, false) && only(back, false, true, false, false) && cols
            <= c ==> nav_target(Some(nav_target(Some(c), k, cols, last)), back, cols, last) == c,
        only(k, false, false, false, true) && only(back, false, false, true, false) && cols > 1 && c
            < last ==> nav_target(Some(nav_target(Some(c), k, cols, last)), back, cols, last) == c,
        only(k, false, false, true, false) && only(back, false, false, false, true) && cols > 1 && 0
            < c ==> nav_target(Some(nav_target(Some(c), k, cols, last)), back, cols, last) == c,
{
}

/// In a focused list an arrow key that goes down alone takes the cursor, and with single
/// selection the one selected item, a row or a column further; the list keeps nothing
/// else selected.
pub proof fn law_key_frame_moves_the_selection(
    list: List,
    v: ListView,
    rect: Rect,
    count: usize,
    s: &StyleResolver,
    input: &InputState,
    c: usize,
)
    requires
        list.focused,
        v.selection.cursor == Some(c),
        c < count,
        v.prev_keys == NavKeys::idle(),
        !input.key_home,
        !input.key_end,
    ensures
        ({
            let after = list.begun(v, rect, count, s, input).selection;
            let cols = list.cols();
            let nav = input.nav;
            let up = nav.up && !nav.down && !nav.left && !nav.right;
            let down = nav.down && !nav.up && !nav.left && !nav.right;
            let left = nav.left && !nav.up && !nav.down && !nav.right;
            let right = nav.right && !nav.up && !nav.down && !nav.left;
            &&& up && cols <= c ==> after.cursor == Some((c - cols) as usize)
            &&& up && c < cols ==> after.cursor == Some(0usize)
            &&& down && c + cols < count ==> after.cursor == Some((c + cols) as usize)
            &&& down && c + cols >= count ==> after.cursor == Some((count - 1) as usize)
            &&& left && cols > 1 && c > 0 ==> after.cursor == Some((c - 1) as usize)
            &&& right && cols > 1 && c + 1 < count ==> after.cursor == Some((c + 1) as usize)
            &&& (up || down) && list.selection == SelectionMode::Single ==> forall|i: usize| #[trigger]
                after.selected.contains(i) <==> after.cursor == Some(i)
            &&& (up || down) && list.selection == SelectionMode::Off ==> after.selected
                == v.selection.selected
            &&& (up || down) && list.selection == SelectionMode::Multi && !input.shift_pressed
                ==> forall|i: usize| #[trigger]
                after.selected.contains(i) <==> after.cursor == Some(i)
        }),
{
}

/// A held key moves the cursor once: in a frame in which no key goes down, whatever
/// else happens, the selection stays.
pub proof fn law_held_key_moves_once(
    list: List,
    next_list: List,
    v: ListView,
    rect: Rect,
    next_rect: Rect,
    count: usize,
    next_count: usize,
    s: &StyleResolver,
    next_s: &StyleResolver,
    input: &InputState,
    next_input: &InputState,
)
    requires
        NavKeys::raw(next_input).since(NavKeys::raw(input)) == NavKeys::idle(),
    ensures
        next_list.begun(
            list.begun(v, rect, count, s, input),
            next_rect,
            next_count,
            next_s,
            next_input,
        ).selection == list.begun(v, rect, count, s, input).selection,
{
}

/// A list without the keyboard keeps its selection and its offset, whatever the
/// keys.
pub proof fn law_unfocused_ignores_keys(
    list: List,
    v: ListView,
    rect: Rect,
    count: usize,
    s: &StyleResolver,
    input: &InputState,
)
    requires
        !list.focused,
    ensures
        list.begun(v, rect, count, s, input).selection == v.selection,
        list.begun(v, rect, count, s, input).scroll.offset == v.scroll.offset,
{
}

/// A pass shows a screenful at most, whatever the number of items.
pub proof fn law_cost_is_a_screenful(p: ListPass, vp: Rect)
    ensures
        p.placed(vp).end <= p.count,
        p.placed(vp).end - p.placed(vp).at <= p.visible_rows(vp.height) * p.list.cols(),
{
    let cols = p.list.cols() as int;
    let first = p.first_row() as int;
    let rows = p.visible_rows(vp.height);
    assert((first + rows) * cols == first * cols + rows * cols) by (nonlinear_arith);
    assert(rows * cols >= 0 && first * cols >= 0) by (nonlinear_arith)
        requires
            rows >= 0,
            first >= 0,
            cols >= 0,
    ;
}

/// Every visible item is handed over once, in order, with its own cell.
pub proof fn law_each_visible_item_once(p: ListPass, sel: Selection, n: nat, k: int)
    requires
        n <= p.left(),
        0 <= k < n,
    ensures
        p.handed(sel, n).len() == n,
        p.handed(sel, n)[k].1.index == p.at + k,
        p.handed(sel, n)[k].0 == p.cell((p.at + k) as usize),
{
    lemma_handed(p, sel, n);
}

proof fn lemma_handed(p: ListPass, sel: Selection, n: nat)
    requires
        n <= p.left(),
    ensures
        p.walked(sel, n).0 == (ListPass {
            at: (p.at + n) as usize,
            out: p.walked(sel, n).0.out,
            ..p
        }),
        p.handed(sel, n).len() == n,
        forall|k: int|
            0 <= k < n ==> (#[trigger] p.handed(sel, n)[k]).1.index == p.at + k && p.handed(
                sel,
                n,
            )[k].0 == p.cell((p.at + k) as usize),
    decreases n,
{
    if n > 0 {
        lemma_handed(p, sel, (n - 1) as nat);
    }
}

/// Where another surface took the pointer, no cell is under it.
pub proof fn law_consumed_pointer_hits_no_cell(
    list: List,
    after: ListView,
    rect: Rect,
    count: usize,
    s: &StyleResolver,
    input: &InputState,
    vp: Rect,
    i: usize,
)
    requires
        input.mouse_consumed,
    ensures
        !list.pass(after, rect, count, s, input).placed(vp).over(i),
{
}

/// A pass over cells in steps of the 256th part of a pixel: `ih` high and `cw` wide, with
/// gaps of `rg` and `cg`, in a viewport from `(vx, vy)` that is `vh` high, scrolled by `sc`.
pub struct Grid {
    /// Height of a cell.
    pub ih: int,
    /// Width of a cell.
    pub cw: int,
    /// Gap between rows.
    pub rg: int,
    /// Gap between columns.
    pub cg: int,
    /// Left edge of the viewport.
    pub vx: int,
    /// Top edge of the viewport.
    pub vy: int,
    /// Height of the viewport.
    pub vh: int,
    /// Scroll offset.
    pub sc: int,
}

impl Grid {
    /// Whether a pass is laid out so, and small enough that the numbers tell its cells
    /// apart.
    pub open spec fn of(self, p: ListPass) -> bool {
        &&& rounding::in_steps(p.item_h, self.ih) && rounding::in_steps(p.cell_w, self.cw)
        &&& rounding::in_steps(p.list.row_gap, self.rg) && rounding::in_steps(p.list.col_gap, self.cg)
        &&& rounding::in_steps(p.vp.x, self.vx) && rounding::in_steps(p.vp.y, self.vy)
        &&& rounding::in_steps(p.vp.height, self.vh) && rounding::in_steps(p.scroll_y, self.sc)
        &&& self.ih > 0 && self.cw >= 0 && self.rg >= 0 && self.cg >= 0 && self.vh >= 0 && self.sc >= 0
        &&& p.count <= 0x1_0000
        &&& (p.count + 2) * (self.ih + self.rg) + rounding::size(self.vy) + self.vh + self.sc
            <= 0x40_0000
        &&& (p.count + 2) * (self.cw + self.cg) + rounding::size(self.vx) <= 0x40_0000
    }
}

/// The row and the column of an item.
proof fn lemma_place(i: int, cols: int)
    requires
        i >= 0,
        cols > 0,
    ensures
        i == (i / cols) * cols + i % cols,
        0 <= i % cols < cols,
        0 <= i / cols <= i,
        i % cols <= i,
{
    vstd::arithmetic::div_mod::lemma_fundamental_div_mod(i, cols);
    vstd::arithmetic::div_mod::lemma_mod_bound(i, cols);
    let q = i / cols;
    assert(cols * q == q * cols) by (nonlinear_arith);
    assert(q >= 0 && q <= q * cols) by (nonlinear_arith)
        requires
            i == q * cols + i % cols,
            0 <= i % cols < cols,
            i >= 0,
            cols > 0,
    ;
}

/// Where a cell lies, in steps.
proof fn lemma_cell(p: ListPass, g: Grid, i: usize)
    requires
        g.of(p),
        i < p.count,
    ensures
        ({
            let cols = p.list.cols() as int;
            let c = p.cell(i);
            &&& rounding::in_steps(c.x, g.vx + (i as int % cols) * (g.cw + g.cg))
            &&& rounding::in_steps(c.y, g.vy + (i as int / cols) * (g.ih + g.rg))
            &&& c.width == p.cell_w && c.height == p.item_h
            &&& 0 <= (i as int % cols) * (g.cw + g.cg) <= p.count * (g.cw + g.cg)
            &&& 0 <= (i as int / cols) * (g.ih + g.rg) <= p.count * (g.ih + g.rg)
            &&& rounding::in_steps(p.spec_pitch(), g.ih + g.rg)
        }),
{
    let cols = p.list.cols() as int;
    let k = i as int;
    lemma_place(k, cols);
    let a = k % cols;
    let b = k / cols;
    let w = g.cw + g.cg;
    let h = g.ih + g.rg;
    let n = p.count as int;
    assert(0 <= a * w <= n * w && 0 <= b * h <= n * h && (n + 2) * w == n * w + 2 * w && (n + 2) * h == n
        * h + 2 * h && n * w >= 0 && n * h >= 0) by (nonlinear_arith)
        requires
            0 <= a <= n,
            0 <= b <= n,
            w >= 0,
            h >= 0,
    ;
    rounding::law_plus_steps(p.cell_w, p.list.col_gap, g.cw, g.cg);
    rounding::law_plus_steps(p.item_h, p.list.row_gap, g.ih, g.rg);
    let col = (i % p.list.cols()) as u64;
    let row = (i / p.list.cols()) as u64;
    assert(col == a && row == b);
    rounding::law_whole_times_steps(col, p.cell_w.plus(p.list.col_gap), w);
    rounding::law_whole_times_steps(row, p.spec_pitch(), h);
    rounding::law_plus_steps(p.vp.x, whole(col).times(p.cell_w.plus(p.list.col_gap)), g.vx, a * w);
    rounding::law_plus_steps(p.vp.y, whole(row).times(p.spec_pitch()), g.vy, b * h);
}

/// The cells form a grid: the first one in the corner of the viewport, each next one of a
/// row a cell and a gap further right, each one of the next row a cell and a gap further
/// down in the same column.
pub proof fn law_cells_form_a_grid(p: ListPass, g: Grid, i: usize)
    requires
        g.of(p),
        i < p.count,
    ensures
        i == 0 ==> p.cell(i).x.val() == p.vp.x.val() && p.cell(i).y.val() == p.vp.y.val(),
        i + 1 < p.count && (i + 1) % p.list.cols() as int != 0 ==> {
            &&& p.cell((i + 1) as usize).y.val() == p.cell(i).y.val()
            &&& p.cell((i + 1) as usize).x.val() == p.cell(i).x.val() + p.cell_w.val()
                + p.list.col_gap.val()
        },
        i + p.list.cols() < p.count ==> {
            &&& p.cell((i + p.list.cols()) as usize).x.val() == p.cell(i).x.val()
            &&& p.cell((i + p.list.cols()) as usize).y.val() == p.cell(i).y.val() + p.item_h.val()
                + p.list.row_gap.val()
        },
{
    let cols = p.list.cols() as int;
    let k = i as int;
    let w = g.cw + g.cg;
    let h = g.ih + g.rg;
    let st = rounding::step();
    lemma_cell(p, g, i);
    lemma_place(k, cols);
    if i == 0 {
        assert(0 * w == 0 && 0 * h == 0) by (nonlinear_arith);
        assert(0int % cols == 0 && 0int / cols == 0) by {
            vstd::arithmetic::div_mod::lemma_small_mod(0, cols as nat);
            vstd::arithmetic::div_mod::lemma_basic_div(0, cols);
        }
    }
    if i + 1 < p.count && (k + 1) % cols != 0 {
        lemma_cell(p, g, (i + 1) as usize);
        lemma_place(k + 1, cols);
        lemma_next(k, cols);
        let a = k % cols;
        assert((a + 1) * w == a * w + w) by (nonlinear_arith);
        assert((g.vx + (a + 1) * w) * st == (g.vx + a * w) * st + g.cw * st + g.cg * st) by (nonlinear_arith)
            requires
                (a + 1) * w == a * w + w,
                w == g.cw + g.cg,
        ;
    }
    if i + p.list.cols() < p.count {
        lemma_cell(p, g, (i + p.list.cols()) as usize);
        vstd::arithmetic::div_mod::lemma_div_plus_one(k, cols);
        vstd::arithmetic::div_mod::lemma_mod_add_multiples_vanish(k, cols);
        let b = k / cols;
        assert((k + cols) / cols == b + 1);
        assert((b + 1) * h == b * h + h) by (nonlinear_arith);
        assert((g.vy + (b + 1) * h) * st == (g.vy + b * h) * st + g.ih * st + g.rg * st) by (nonlinear_arith)
            requires
                (b + 1) * h == b * h + h,
                h == g.ih + g.rg,
        ;
    }
}

/// The next item of a row.
proof fn lemma_next(k: int, cols: int)
    requires
        k >= 0,
        cols > 0,
        (k + 1) % cols != 0,
    ensures
        (k + 1) % cols == k % cols + 1,
        (k + 1) / cols == k / cols,
{
    lemma_place(k, cols);
    lemma_place(k + 1, cols);
    let q = k / cols;
    let r = (k + 1) / cols;
    assert(r == q) by (nonlinear_arith)
        requires
            k == q * cols + k % cols,
            k + 1 == r * cols + (k + 1) % cols,
            0 <= k % cols < cols,
            0 < (k + 1) % cols < cols,
    ;
}

/// What it takes for the pointer to be over a cell, in steps.
proof fn lemma_over(p: ListPass, g: Grid, i: usize)
    requires
        g.of(p),
        i < p.count,
        p.mouse.x.is_finite(),
        p.mouse.y.is_finite(),
    ensures
        ({
            let cols = p.list.cols() as int;
            let st = rounding::step();
            let x = g.vx + (i as int % cols) * (g.cw + g.cg);
            let y = g.vy + (i as int / cols) * (g.ih + g.rg) - g.sc;
            p.over(i) == {
                &&& p.out.mouse_over_content
                &&& x * st <= p.mouse.x.val() < (x + g.cw) * st
                &&& y * st <= p.mouse.y.val() < (y + g.ih) * st
                &&& g.vy * st <= p.mouse.y.val() < (g.vy + g.vh) * st
            }
        }),
{
    lemma_cell(p, g, i);
    let cols = p.list.cols() as int;
    let n = p.count as int;
    let w = g.cw + g.cg;
    let h = g.ih + g.rg;
    assert((n + 2) * w == n * w + 2 * w && (n + 2) * h == n * h + 2 * h) by (nonlinear_arith);
    let x = g.vx + (i as int % cols) * w;
    let y = g.vy + (i as int / cols) * h;
    let c = p.cell(i);
    rounding::law_plus_steps(c.x, p.cell_w, x, g.cw);
    rounding::law_minus_steps(c.y, p.scroll_y, y, g.sc);
    rounding::law_plus_steps(c.y.minus(p.scroll_y), p.item_h, y - g.sc, g.ih);
    rounding::law_plus_steps(p.vp.y, p.vp.height, g.vy, g.vh);
    reveal(Scalar::spec_le);
    reveal(Scalar::spec_lt);
}

/// The pointer is over one item at most.
pub proof fn law_pointer_is_over_one_item(p: ListPass, g: Grid, i: usize, j: usize)
    requires
        g.of(p),
        i < p.count,
        j < p.count,
        p.mouse.x.is_finite(),
        p.mouse.y.is_finite(),
        p.over(i),
        p.over(j),
    ensures
        i == j,
{
    lemma_over(p, g, i);
    lemma_over(p, g, j);
    let cols = p.list.cols() as int;
    lemma_place(i as int, cols);
    lemma_place(j as int, cols);
    lemma_apart(i as int % cols, j as int % cols, g.vx, g.cw, g.cg, p.mouse.x.val());
    lemma_apart(j as int % cols, i as int % cols, g.vx, g.cw, g.cg, p.mouse.x.val());
    lemma_apart(i as int / cols, j as int / cols, g.vy - g.sc, g.ih, g.rg, p.mouse.y.val());
    lemma_apart(j as int / cols, i as int / cols, g.vy - g.sc, g.ih, g.rg, p.mouse.y.val());
}

proof fn lemma_apart(a: int, b: int, from: int, extent: int, gap: int, at: int)
    requires
        extent >= 0,
        gap >= 0,
        (from + a * (extent + gap)) * rounding::step() <= at,
        at < (from + a * (extent + gap) + extent) * rounding::step(),
        (from + b * (extent + gap)) * rounding::step() <= at,
        at < (from + b * (extent + gap) + extent) * rounding::step(),
    ensures
        a >= b,
{
    rounding::law_steps();
    let st = rounding::step();
    if a < b {
        let p = extent + gap;
        assert(a * p + p <= b * p) by (nonlinear_arith)
            requires
                a + 1 <= b,
                p >= 0,
        ;
        let x = from + a * p + extent;
        let y = from + b * p;
        assert(x * st <= y * st) by (nonlinear_arith)
            requires
                x <= y,
                st > 0,
        ;
    }
}

/// The item under the pointer is among those that a pass goes through: a list that shows
/// only a part of its items misses no click.
pub proof fn law_item_under_the_pointer_is_visited(q: ListPass, vp: Rect, g: Grid, i: usize)
    requires
        g.of(q.placed(vp)),
        i < q.count,
        q.mouse.x.is_finite(),
        q.mouse.y.is_finite(),
        q.placed(vp).over(i),
    ensures
        q.placed(vp).at <= i < q.placed(vp).end,
{
    let p = q.placed(vp);
    lemma_over(p, g, i);
    lemma_cell(p, g, i);
    let cols = p.list.cols() as int;
    let n = p.count as int;
    let h = g.ih + g.rg;
    let row = i as int / cols;
    lemma_place(i as int, cols);
    rounding::law_steps();
    let st = rounding::step();
    assert((n + 2) * h == n * h + 2 * h && n * h >= 0) by (nonlinear_arith)
        requires
            n >= 0,
            h > 0,
    ;
    // In steps, the row is not above the offset and not below the viewport.
    assert(row * h + g.ih > g.sc) by (nonlinear_arith)
        requires
            g.vy * st < (g.vy + row * h - g.sc + g.ih) * st,
            st > 0,
    ;
    assert(row * h < g.vh + g.sc) by (nonlinear_arith)
        requires
            (g.vy + row * h - g.sc) * st < (g.vy + g.vh) * st,
            st > 0,
    ;
    let pitch = q.spec_pitch();
    let from = q.scroll_y.over(pitch);
    rounding::law_quotient_of_steps(q.scroll_y, pitch, g.sc, h, q.count as u64);
    rounding::law_zero_and_one();
    assert(from.at_least(whole(0)) == from) by {
        reveal(Scalar::spec_le);
        reveal(Scalar::spec_lt);
    }
    let first = q.first_row() as int;
    assert((row + 1) * h == row * h + h && (first + 1) * h == first * h + h) by (nonlinear_arith);
    assert(n * h >= (row + 1) * h) by (nonlinear_arith)
        requires
            row + 1 <= n,
            h > 0,
    ;
    assert(g.sc < n * h);
    assert(first <= row) by (nonlinear_arith)
        requires
            first * h <= g.sc,
            row * h + h > g.sc,
            h > 0,
    ;
    rounding::law_ceiling_of_steps(vp.height, pitch, g.vh, h, q.count as u64);
    let up = vp.height.over(pitch).ceiled(q.count as u64) as int;
    let visible = q.visible_rows(vp.height);
    assert(row < first + visible) by {
        if up != q.count {
            assert((first + visible) * h == (first + 1) * h + up * h) by (nonlinear_arith)
                requires
                    visible == up + 1,
            ;
            assert(row < first + visible) by (nonlinear_arith)
                requires
                    row * h < (first + visible) * h,
                    h > 0,
            ;
        }
    }
    let end = first + visible;
    assert(first * cols <= row * cols && (row + 1) * cols <= end * cols && (row + 1) * cols == row * cols
        + cols) by (nonlinear_arith)
        requires
            first <= row,
            row + 1 <= end,
            cols > 0,
    ;
    assert(first * cols >= 0) by (nonlinear_arith)
        requires
            first >= 0,
            cols > 0,
    ;
}

/// After a key has moved the cursor, its item shows whole: it is scrolled to, and no
/// further than the ends of the content.
pub proof fn law_revealed_item_shows(
    list: List,
    scroll: ScrollState,
    rect: Rect,
    count: usize,
    next: usize,
    s: &StyleResolver,
    ih: int,
    rg: int,
    vh: int,
    sc: int,
)
    requires
        next < count <= 0x1_0000,
        rounding::in_steps(list.item_h(s), ih),
        rounding::in_steps(list.row_gap, rg),
        rounding::in_steps(rect.height, vh),
        rounding::in_steps(scroll.offset.y, sc),
        0 < ih <= vh,
        rg >= 0,
        (count + 2) * (ih + rg) + vh + rounding::size(sc) <= 0x40_0000,
        scroll.content_size.y == list.content_h(count, s),
    ensures
        ({
            let after = list.revealed(scroll, rect, next, s).offset.y;
            let top = (next as int / list.cols() as int) * (ih + rg);
            exists|n: int| #[trigger]
                rounding::in_steps(after, n) && 0 <= n <= top && top + ih <= n + vh
        }),
{
    let cols = list.cols() as int;
    let h = ih + rg;
    let c = count as int;
    let k = next as int;
    let rows = rows_total(count, list.cols()) as int;
    let row = k / cols;
    lemma_place(k, cols);
    lemma_ceil(c, cols);
    lemma_place(c, cols);
    // The item's row is one of the rows.
    assert(row < rows <= c) by {
        let q = c / cols;
        let m = c % cols;
        assert(row <= q) by (nonlinear_arith)
            requires
                k == row * cols + k % cols,
                c == q * cols + m,
                0 <= k % cols,
                m < cols,
                k < c,
                cols > 0,
        ;
        assert(m == 0 ==> row < q) by (nonlinear_arith)
            requires
                k == row * cols + k % cols,
                c == q * cols + m,
                0 <= k % cols,
                k < c,
                cols > 0,
        ;
        assert(m > 0 ==> q < c) by (nonlinear_arith)
            requires
                c == q * cols + m,
                cols > 0,
                q >= 0,
        ;
    }
    let whole_h = rows * ih + (rows - 1) * rg;
    assert(0 <= row * h && row * h + ih <= whole_h && whole_h <= (c + 2) * h && 0 <= rows * ih <= (c + 2) * h
        && 0 <= (rows - 1) * rg <= (c + 2) * h && (c + 2) * h >= h) by (nonlinear_arith)
        requires
            whole_h == rows * ih + (rows - 1) * rg,
            0 <= row < rows <= c,
            h == ih + rg,
            ih > 0,
            rg >= 0,
    ;
    rounding::law_one_in_steps();
    rounding::law_plus_steps(list.item_h(s), list.row_gap, ih, rg);
    let pitch = list.item_h(s).plus(list.row_gap);
    let r = (next / list.cols()) as u64;
    assert(r == row);
    rounding::law_whole_times_steps(r, pitch, h);
    let top = whole(r).times(pitch);
    rounding::law_plus_steps(top, list.item_h(s), row * h, ih);
    let bottom = top.plus(list.item_h(s));
    rounding::law_whole_times_steps(rows as u64, list.item_h(s), ih);
    rounding::law_whole_times_steps((rows - 1) as u64, list.row_gap, rg);
    rounding::law_plus_steps(
        whole(rows as u64).times(list.item_h(s)),
        whole((rows - 1) as u64).times(list.row_gap),
        rows * ih,
        (rows - 1) * rg,
    );
    let content = list.content_h(count, s);
    assert(rounding::in_steps(content, whole_h));
    let off = scroll.offset.y;
    rounding::law_steps_compare(top, off, row * h, sc);
    rounding::law_plus_steps(off, rect.height, sc, vh);
    rounding::law_steps_compare(off.plus(rect.height), bottom, sc + vh, row * h + ih);
    rounding::law_minus_steps(bottom, rect.height, row * h + ih, vh);
    let (y, n) = if row * h < sc {
        (top, row * h)
    } else if sc + vh < row * h + ih {
        (bottom.minus(rect.height), row * h + ih - vh)
    } else {
        (off, sc)
    };
    rounding::law_steps_compare(y, whole(0), n, 0);
    let a = y.at_least(whole(0));
    let na = most(n, 0);
    assert(rounding::in_steps(a, na));
    rounding::law_minus_steps(content, rect.height, whole_h, vh);
    rounding::law_steps_compare(content.minus(rect.height), whole(0), whole_h - vh, 0);
    let limit = content.minus(rect.height).at_least(whole(0));
    let nl = most(whole_h - vh, 0);
    assert(rounding::in_steps(limit, nl));
    rounding::law_steps_compare(limit, a, nl, na);
    let after = list.revealed(scroll, rect, next, s).offset.y;
    assert(after == ScrollState::held(y, content, rect.height));
    assert(rounding::in_steps(after, least(na, nl)));
}

} // verus!
