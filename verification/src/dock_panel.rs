//! Dock panels: tabbed panels for the sides of a workspace.
//!
//! A dock panel draws a row of tabs over a panel background and gives back the
//! rectangle for the active tab's content. The splitter beside it belongs to
//! the layout around it.

use crate::context::{label_at, vcentered, DrawContext, Label};
use crate::draw_list::DrawList;
use crate::geometry::{Color, Point, Rect};
use crate::input::InputState;
use crate::material::sheen_over;
use crate::rounding;
use crate::scalar::{ratio, whole, Scalar};
use crate::style::{StyleKey, StyleResolver};
use vstd::prelude::*;

verus! {

/// Which side of the workspace a dock occupies.
#[derive(Clone, Copy, Debug, PartialEq, Eq, Structural)]
pub enum DockSide {
    /// The left edge.
    Left,
    /// The right edge.
    Right,
    /// The bottom edge.
    Bottom,
}

/// A tab of a dock.
#[derive(Debug)]
pub struct DockTab {
    /// Label.
    pub label: String,
}

/// A dock's persistent state.
#[derive(Clone, Copy, Debug, PartialEq, Eq, Structural)]
pub struct DockPanelState {
    /// Whether it shows.
    pub visible: bool,
    /// Its width at the left or right, its height at the bottom.
    pub size: Scalar,
    /// Smallest size.
    pub min_size: Scalar,
    /// Largest size.
    pub max_size: Scalar,
    /// The active tab.
    pub active_tab: usize,
}

impl DockPanelState {
    pub open spec fn spec_new(size: Scalar) -> DockPanelState {
        DockPanelState {
            visible: true,
            size,
            min_size: whole(100),
            max_size: whole(600),
            active_tab: 0,
        }
    }

    /// A visible dock of this size with its first tab active.
    #[verifier::when_used_as_spec(spec_new)]
    pub fn new(size: Scalar) -> (r: Self)
        ensures
            r == Self::spec_new(size),
    {
        DockPanelState {
            visible: true,
            size,
            min_size: whole(100),
            max_size: whole(600),
            active_tab: 0,
        }
    }

    /// With this range of sizes.
    pub fn with_range(self, min: Scalar, max: Scalar) -> (r: Self)
        ensures
            r == (DockPanelState { min_size: min, max_size: max, ..self }),
    {
        let mut r = self;
        r.min_size = min;
        r.max_size = max;
        r
    }

    /// Show it if it is hidden, hide it if it shows.
    pub fn toggle(&mut self)
        ensures
            *final(self) == (DockPanelState { visible: !old(self).visible, ..*old(self) }),
    {
        self.visible = !self.visible;
    }
}

/// What happened in a dock's frame.
#[derive(Clone, Copy, Debug, PartialEq, Eq, Structural)]
pub struct DockPanelOutput {
    /// The tab that was clicked.
    pub tab_clicked: Option<usize>,
    /// The close key was clicked.
    pub close_clicked: bool,
    /// Where the tab's content goes.
    pub body: Rect,
    /// The whole panel.
    pub rect: Rect,
}

impl Default for DockPanelOutput {
    /// Nothing happened, nowhere.
    fn default() -> (r: Self)
        ensures
            r == (DockPanelOutput {
                tab_clicked: None,
                close_clicked: false,
                body: Rect::zero(),
                rect: Rect::zero(),
            }),
    {
        DockPanelOutput {
            tab_clicked: None,
            close_clicked: false,
            body: Rect::zero(),
            rect: Rect::zero(),
        }
    }
}

/// A dock panel.
pub struct DockPanel<'a> {
    /// Its tabs.
    pub tabs: &'a [DockTab],
    /// Which side it occupies.
    pub side: DockSide,
    /// Whether it has a close key.
    pub closable: bool,
}

pub open spec fn spec_close_w(closable: bool) -> Scalar {
    if closable {
        whole(18)
    } else {
        whole(0)
    }
}

/// The width that a close key takes.
#[verifier::when_used_as_spec(spec_close_w)]
pub fn close_w(closable: bool) -> (r: Scalar)
    ensures
        r == spec_close_w(closable),
{
    if closable {
        whole(18)
    } else {
        whole(0)
    }
}

pub open spec fn spec_close_rect(rect: Rect, tab_h: Scalar) -> Rect {
    Rect {
        x: rect.x.plus(rect.width).minus(whole(18)).minus(whole(2)),
        y: rect.y.plus(tab_h.minus(whole(17)).times(ratio(1, 2))),
        width: whole(17),
        height: whole(17),
    }
}

/// Where the close key lies, at the right of the tab row.
#[verifier::when_used_as_spec(spec_close_rect)]
pub fn close_rect(rect: Rect, tab_h: Scalar) -> (r: Rect)
    ensures
        r == spec_close_rect(rect, tab_h),
{
    Rect {
        x: rect.x.plus(rect.width).minus(whole(18)).minus(whole(2)),
        y: rect.y.plus(tab_h.minus(whole(17)).times(ratio(1, 2))),
        width: whole(17),
        height: whole(17),
    }
}

pub open spec fn spec_tab_w(rect: Rect, closable: bool, n: usize) -> Scalar {
    rect.width.minus(close_w(closable)).minus(whole(4)).over(whole(n as u64)).at_most(whole(120))
}

/// The width of each of `n` tabs: they share the row, but none is wider than a
/// tab needs.
#[verifier::when_used_as_spec(spec_tab_w)]
pub fn tab_w(rect: Rect, closable: bool, n: usize) -> (r: Scalar)
    ensures
        r == spec_tab_w(rect, closable, n),
{
    rect.width.minus(close_w(closable)).minus(whole(4)).over(whole(n as u64)).at_most(whole(120))
}

pub open spec fn spec_tab_rect(rect: Rect, tab_h: Scalar, width: Scalar, i: usize) -> Rect {
    Rect {
        x: rect.x.plus(whole(2)).plus(whole(i as u64).times(width)),
        y: rect.y.plus(tab_h.minus(whole(18)).times(ratio(1, 2))),
        width,
        height: whole(18),
    }
}

/// Where tab `i` lies.
#[verifier::when_used_as_spec(spec_tab_rect)]
pub fn tab_rect(rect: Rect, tab_h: Scalar, width: Scalar, i: usize) -> (r: Rect)
    ensures
        r == spec_tab_rect(rect, tab_h, width, i),
{
    Rect {
        x: rect.x.plus(whole(2)).plus(whole(i as u64).times(width)),
        y: rect.y.plus(tab_h.minus(whole(18)).times(ratio(1, 2))),
        width,
        height: whole(18),
    }
}

/// The panel with the band and line of its header.
#[verifier::opaque]
pub open spec fn panel_painted(
    l: crate::draw_list::DrawState,
    rect: Rect,
    tab_h: Scalar,
    s: &StyleResolver,
) -> crate::draw_list::DrawState {
    let radius = s.scalar(StyleKey::BorderRadius);
    let border = s.color(StyleKey::PanelBorder);
    l.rounded_rect(rect, radius, s.color(StyleKey::Panel)).rounded_rect_outline(
        rect,
        radius,
        whole(1),
        border,
    ).quad(
        Rect { x: rect.x, y: rect.y, width: rect.width, height: tab_h },
        sheen_over(s.color(StyleKey::Panel), Color::white(ratio(4, 100))),
    ).quad(
        Rect {
            x: rect.x,
            y: rect.y.plus(tab_h).minus(whole(1)),
            width: rect.width,
            height: whole(1),
        },
        border,
    )
}

fn paint_panel(list: &mut DrawList, rect: Rect, tab_h: Scalar, s: &StyleResolver)
    ensures
        final(list)@ == panel_painted(old(list)@, rect, tab_h, s),
{
    proof {
        reveal(panel_painted);
    }
    let radius = s.scalar(StyleKey::BorderRadius);
    let border = s.color(StyleKey::PanelBorder);
    let panel = s.color(StyleKey::Panel);
    list.rounded_rect(rect, radius, panel);
    list.rounded_rect_outline(rect, radius, whole(1), border);
    list.quad(
        Rect { x: rect.x, y: rect.y, width: rect.width, height: tab_h },
        sheen_over(panel, Color::white(ratio(4, 100))),
    );
    list.quad(
        Rect {
            x: rect.x,
            y: rect.y.plus(tab_h).minus(whole(1)),
            width: rect.width,
            height: whole(1),
        },
        border,
    );
}

/// The close key: a light behind it while hovered, and its cross.
#[verifier::opaque]
pub open spec fn close_painted(
    l: crate::draw_list::DrawState,
    key: Rect,
    center: Scalar,
    s: &StyleResolver,
    input: &InputState,
) -> crate::draw_list::DrawState {
    let hovered = input.over(key);
    let l = if hovered {
        l.rounded_rect(
            key,
            s.scalar(StyleKey::BorderRadius),
            Color::white(
                if input.mouse_down {
                    ratio(12, 100)
                } else {
                    ratio(6, 100)
                },
            ),
        )
    } else {
        l
    };
    l.written(
        "✕"@,
        Point {
            x: key.x.plus(key.width.minus(whole(6)).times(ratio(1, 2))),
            y: vcentered(key.y, key.height, whole(10), center),
        },
        whole(10),
        s.color(
            if hovered {
                StyleKey::Text
            } else {
                StyleKey::TextDim
            },
        ),
        s.font,
    )
}

fn paint_close(
    list: &mut DrawList,
    key: Rect,
    center: Scalar,
    s: &StyleResolver,
    input: &InputState,
)
    ensures
        final(list)@ == close_painted(old(list)@, key, center, s, input),
{
    proof {
        reveal(close_painted);
    }
    let hovered = input.over(key);
    if hovered {
        let a = if input.mouse_down {
            ratio(12, 100)
        } else {
            ratio(6, 100)
        };
        list.rounded_rect(key, s.scalar(StyleKey::BorderRadius), Color::white(a));
    }
    let color = s.color(
        if hovered {
            StyleKey::Text
        } else {
            StyleKey::TextDim
        },
    );
    list.write(
        "✕",
        Point {
            x: key.x.plus(key.width.minus(whole(6)).times(ratio(1, 2))),
            y: vcentered(key.y, key.height, whole(10), center),
        },
        whole(10),
        color,
        s.font,
    );
}

/// A tab: the active one has a face and a light line, a hovered one a faint
/// light; then its label.
#[verifier::opaque]
pub open spec fn tab_painted(
    l: crate::draw_list::DrawState,
    tab: Rect,
    text: Seq<char>,
    center: Scalar,
    active: bool,
    hovered: bool,
    s: &StyleResolver,
) -> crate::draw_list::DrawState {
    let radius = s.scalar(StyleKey::BorderRadius);
    let font_size = s.scalar(StyleKey::FontSize).times(ratio(85, 100));
    let l = if active {
        l.chrome_rect(
            tab,
            radius,
            whole(1),
            sheen_over(s.color(StyleKey::TabActive), Color::white(ratio(1, 10))),
            Color::black(ratio(35, 100)),
        ).quad(
            Rect {
                x: tab.x.plus(whole(1)),
                y: tab.y.plus(whole(1)),
                width: tab.width.minus(whole(2)).at_least(whole(0)),
                height: whole(1),
            },
            s.color(StyleKey::EdgeHighlight),
        )
    } else if hovered {
        l.rounded_rect(tab, radius, Color::white(ratio(4, 100)))
    } else {
        l
    };
    l.written_to(
        text,
        Point {
            x: tab.x.plus(whole(7)),
            y: vcentered(tab.y, tab.height, font_size, center),
        },
        font_size,
        s.color(
            if active {
                StyleKey::TextHighlight
            } else if hovered {
                StyleKey::Text
            } else {
                StyleKey::TextDim
            },
        ),
        s.font,
        tab.width.minus(whole(14)).at_least(whole(8)),
    )
}

fn paint_tab(
    list: &mut DrawList,
    tab: Rect,
    text: &str,
    center: Scalar,
    active: bool,
    hovered: bool,
    s: &StyleResolver,
)
    ensures
        final(list)@ == tab_painted(old(list)@, tab, text@, center, active, hovered, s),
{
    proof {
        reveal(tab_painted);
    }
    let radius = s.scalar(StyleKey::BorderRadius);
    let font_size = s.scalar(StyleKey::FontSize).times(ratio(85, 100));
    if active {
        list.chrome_rect(
            tab,
            radius,
            whole(1),
            sheen_over(s.color(StyleKey::TabActive), Color::white(ratio(1, 10))),
            Color::black(ratio(35, 100)),
        );
        list.quad(
            Rect {
                x: tab.x.plus(whole(1)),
                y: tab.y.plus(whole(1)),
                width: tab.width.minus(whole(2)).at_least(whole(0)),
                height: whole(1),
            },
            s.color(StyleKey::EdgeHighlight),
        );
    } else if hovered {
        list.rounded_rect(tab, radius, Color::white(ratio(4, 100)));
    }
    let color = s.color(
        if active {
            StyleKey::TextHighlight
        } else if hovered {
            StyleKey::Text
        } else {
            StyleKey::TextDim
        },
    );
    list.write_to(
        text,
        Point { x: tab.x.plus(whole(7)), y: vcentered(tab.y, tab.height, font_size, center) },
        font_size,
        color,
        s.font,
        tab.width.minus(whole(14)).at_least(whole(8)),
    );
}

impl<'a> DockPanel<'a> {
    /// A dock without a close key.
    pub fn new(side: DockSide, tabs: &'a [DockTab]) -> (r: Self)
        ensures
            r.tabs == tabs,
            r.side == side,
            !r.closable,
    {
        DockPanel { tabs, side, closable: false }
    }

    /// With a close key.
    pub fn closable(self) -> (r: Self)
        ensures
            r.tabs == self.tabs,
            r.side == self.side,
            r.closable,
    {
        DockPanel { tabs: self.tabs, side: self.side, closable: true }
    }

    /// Where tab `i` lies in the panel.
    pub open spec fn place(&self, rect: Rect, s: &StyleResolver, i: int) -> Rect {
        tab_rect(
            rect,
            s.scalar(StyleKey::DockTabHeight),
            tab_w(rect, self.closable, self.tabs@.len() as usize),
            i as usize,
        )
    }

    /// Which tabs a click lands on.
    pub open spec fn hits(&self, rect: Rect, s: &StyleResolver, input: &InputState) -> spec_fn(
        int,
    ) -> bool {
        |i: int| input.over(self.place(rect, s, i)) && input.mouse_clicked
    }

    /// The first `n` tabs painted.
    pub open spec fn tabs_painted(
        &self,
        l: crate::draw_list::DrawState,
        rect: Rect,
        active: usize,
        labels: &[Label],
        s: &StyleResolver,
        input: &InputState,
        n: nat,
    ) -> crate::draw_list::DrawState
        decreases n,
    {
        if n == 0 {
            l
        } else {
            let i = n - 1;
            tab_painted(
                self.tabs_painted(l, rect, active, labels, s, input, i as nat),
                self.place(rect, s, i),
                self.tabs@[i].label@,
                label_at(labels, i as usize).center,
                i == active,
                input.over(self.place(rect, s, i)),
                s,
            )
        }
    }

    /// What the panel paints.
    pub open spec fn painted(
        &self,
        l: crate::draw_list::DrawState,
        rect: Rect,
        active: usize,
        labels: &[Label],
        cross: Scalar,
        s: &StyleResolver,
        input: &InputState,
    ) -> crate::draw_list::DrawState {
        let tab_h = s.scalar(StyleKey::DockTabHeight);
        let l = panel_painted(l.scoped("DockPanel"@, rect), rect, tab_h, s);
        let l = if self.closable {
            close_painted(l, close_rect(rect, tab_h), cross, s, input)
        } else {
            l
        };
        self.tabs_painted(l, rect, active, labels, s, input, self.tabs@.len()).scope_closed()
    }

    /// What happened: the close key and the tabs answer to a click on them, and
    /// the content lies under the header.
    pub open spec fn happened(&self, rect: Rect, s: &StyleResolver, input: &InputState) -> DockPanelOutput {
        let tab_h = s.scalar(StyleKey::DockTabHeight);
        DockPanelOutput {
            tab_clicked: crate::context::last_hit(
                self.hits(rect, s, input),
                self.tabs@.len(),
            ),
            close_clicked: self.closable && input.over(close_rect(rect, tab_h))
                && input.mouse_clicked,
            body: Rect {
                x: rect.x,
                y: rect.y.plus(tab_h),
                width: rect.width,
                height: rect.height.minus(tab_h).at_least(whole(0)),
            },
            rect,
        }
    }

    fn draw_tabs(
        &self,
        list: &mut DrawList,
        rect: Rect,
        active: usize,
        labels: &[Label],
        s: &StyleResolver,
        input: &InputState,
    ) -> (clicked: Option<usize>)
        ensures
            final(list)@ == self.tabs_painted(
                old(list)@,
                rect,
                active,
                labels,
                s,
                input,
                self.tabs@.len(),
            ),
            clicked == crate::context::last_hit(self.hits(rect, s, input), self.tabs@.len()),
    {
        let n: usize = self.tabs.len();
        let tab_h = s.scalar(StyleKey::DockTabHeight);
        let width = tab_w(rect, self.closable, n);
        let mut clicked: Option<usize> = None;
        let mut i: usize = 0;
        while i < n
            invariant
                i <= n,
                n == self.tabs@.len(),
                tab_h == s.scalar(StyleKey::DockTabHeight),
                width == tab_w(rect, self.closable, n),
                list@ == self.tabs_painted(old(list)@, rect, active, labels, s, input, i as nat),
                clicked == crate::context::last_hit(self.hits(rect, s, input), i as nat),
            decreases n - i,
        {
            let tab = tab_rect(rect, tab_h, width, i);
            let hovered = input.over(tab);
            paint_tab(
                list,
                tab,
                self.tabs[i].label.as_str(),
                label_at(labels, i).center,
                i == active,
                hovered,
                s,
            );
            if hovered && input.mouse_clicked {
                clicked = Some(i);
            }
            i = i + 1;
        }
        clicked
    }

    /// Draw the panel and give back where the active tab's content goes.
    /// `labels` are how the tab labels measure, `cross` is where the visual
    /// center of the close key's cross lies below its top, in em.
    pub fn draw(
        &self,
        rect: Rect,
        state: &DockPanelState,
        labels: &[Label],
        cross: Scalar,
        ctx: &mut DrawContext,
    ) -> (out: DockPanelOutput)
        ensures
            out == self.happened(rect, &old(ctx).frame.styles, &old(ctx).frame.input),
            final(ctx)@ == (crate::context::Scene {
                list: self.painted(
                    old(ctx)@.list,
                    rect,
                    state.active_tab,
                    labels,
                    cross,
                    &old(ctx).frame.styles,
                    &old(ctx).frame.input,
                ),
                ..old(ctx)@
            }),
            final(ctx).frame == old(ctx).frame,
    {
        let tab_h = ctx.frame.styles.scalar(StyleKey::DockTabHeight);
        ctx.draw_list.push_debug_scope_rect("DockPanel", rect);
        paint_panel(&mut ctx.draw_list, rect, tab_h, &ctx.frame.styles);
        let mut close_clicked = false;
        if self.closable {
            let key = close_rect(rect, tab_h);
            paint_close(&mut ctx.draw_list, key, cross, &ctx.frame.styles, &ctx.frame.input);
            close_clicked = ctx.frame.input.over(key) && ctx.frame.input.mouse_clicked;
        }
        let tab_clicked = self.draw_tabs(
            &mut ctx.draw_list,
            rect,
            state.active_tab,
            labels,
            &ctx.frame.styles,
            &ctx.frame.input,
        );
        ctx.draw_list.pop_debug_scope();
        DockPanelOutput {
            tab_clicked,
            close_clicked,
            body: Rect {
                x: rect.x,
                y: rect.y.plus(tab_h),
                width: rect.width,
                height: rect.height.minus(tab_h).at_least(whole(0)),
            },
            rect,
        }
    }
}

/// Where another surface took the pointer, no tab and no key answers.
pub proof fn law_consumed_pointer_clicks_nothing(
    p: DockPanel,
    rect: Rect,
    s: &StyleResolver,
    input: &InputState,
)
    requires
        input.mouse_consumed,
        p.tabs@.len() <= usize::MAX,
    ensures
        p.happened(rect, s, input).tab_clicked is None,
        !p.happened(rect, s, input).close_clicked,
{
    crate::context::lemma_last_hit(p.hits(rect, s, input), p.tabs@.len());
}

/// A clicked tab is one of the tabs, under the pointer.
pub proof fn law_clicked_tab_is_under_the_pointer(
    p: DockPanel,
    rect: Rect,
    s: &StyleResolver,
    input: &InputState,
)
    requires
        p.tabs@.len() <= usize::MAX,
    ensures
        p.happened(rect, s, input).tab_clicked matches Some(i) ==> i < p.tabs@.len()
            && input.mouse_clicked && p.place(rect, s, i as int).contains(
            input.mouse_x,
            input.mouse_y,
        ),
{
    crate::context::lemma_last_hit(p.hits(rect, s, input), p.tabs@.len());
}

/// Toggling twice leaves a dock as it was.
pub proof fn law_toggle_twice(a: DockPanelState, b: DockPanelState, c: DockPanelState)
    requires
        b == (DockPanelState { visible: !a.visible, ..a }),
        c == (DockPanelState { visible: !b.visible, ..b }),
    ensures
        c == a,
{
}

/// The content of a dock lies under its tabs and fills the rest of it; the tabs lie side
/// by side from two pixels right of its left edge; the close key ends two pixels and one
/// before its right edge.
pub proof fn law_dock_parts_lie_in_order(p: DockPanel, rect: Rect, s: &StyleResolver, input: &InputState, x: int, y: int, w: int, h: int, t: int, n: int, i: usize)
    requires
        crate::geometry::in_steps(rect, x, y, w, h),
        rounding::in_steps(s.scalar(StyleKey::DockTabHeight), t),
        0 <= t <= h,
        i + 1 < p.tabs@.len() <= 0x1_0000,
        rounding::in_steps(tab_w(rect, p.closable, p.tabs@.len() as usize), n),
        0 <= n,
        (i + 2) * n <= 0x20_0000,
    ensures
        ({
            let body = p.happened(rect, s, input).body;
            let a = p.place(rect, s, i as int);
            let b = p.place(rect, s, i + 1);
            let close = close_rect(rect, s.scalar(StyleKey::DockTabHeight));
            &&& rounding::in_steps(body.y, y + t) && rounding::in_steps(body.height, h - t)
            &&& body.x == rect.x && body.width == rect.width
            &&& rounding::in_steps(a.x, x + 512 + i * n) && rounding::in_steps(a.width, n)
            &&& rounding::in_steps(b.x, x + 512 + i * n + n)
            &&& a.y == b.y && a.height == b.height
            &&& rounding::in_steps(close.x, x + w - 5120)
            &&& rounding::in_steps(close.width, 4352)
        }),
{
    rounding::law_one_in_steps();
    rounding::law_whole_in_steps(2);
    rounding::law_whole_in_steps(17);
    rounding::law_whole_in_steps(18);
    let th = s.scalar(StyleKey::DockTabHeight);
    rounding::law_plus_steps(rect.y, th, y, t);
    rounding::law_minus_steps(rect.height, th, h, t);
    rounding::law_steps_compare(rect.height.minus(th), whole(0), h - t, 0);
    let tw = tab_w(rect, p.closable, p.tabs@.len() as usize);
    let k = i as int;
    assert(0 <= k * n && (k + 1) * n == k * n + n && (k + 2) * n == k * n + 2 * n) by (nonlinear_arith)
        requires
            k >= 0,
            n >= 0,
    ;
    rounding::law_whole_times_steps(i as u64, tw, n);
    rounding::law_whole_times_steps((i + 1) as u64, tw, n);
    rounding::law_plus_steps(rect.x, whole(2), x, 512);
    rounding::law_plus_steps(rect.x.plus(whole(2)), whole(i as u64).times(tw), x + 512, k * n);
    rounding::law_plus_steps(
        rect.x.plus(whole(2)),
        whole((i + 1) as u64).times(tw),
        x + 512,
        (k + 1) * n,
    );
    rounding::law_plus_steps(rect.x, rect.width, x, w);
    rounding::law_minus_steps(rect.x.plus(rect.width), whole(18), x + w, 4608);
    rounding::law_minus_steps(rect.x.plus(rect.width).minus(whole(18)), whole(2), x + w - 4608, 512);
}

} // verus!
