//! The application shell: the layout of an editor's chrome.
//!
//! The shell peels zones off the screen: the menu bar and the document tabs from
//! the top, the status bar and the bottom dock from the bottom, the left and
//! right docks from the sides, then the toolbar; what remains is the viewport.

use crate::context::{DrawContext, Label};
use crate::dock_panel::{DockPanel, DockPanelOutput, DockPanelState, DockSide, DockTab};
use crate::drag::DragId;
use crate::geometry::Rect;
use crate::rounding;
use crate::scalar::{whole, Scalar};
use crate::style::{StyleKey, StyleResolver};
use vstd::prelude::*;

verus! {

/// Drag identity of the left dock's splitter.
pub const SHELL_DRAG_LEFT_SPLITTER: DragId = 0xA551_0001;

/// Drag identity of the right dock's splitter.
pub const SHELL_DRAG_RIGHT_SPLITTER: DragId = 0xA551_0002;

/// Drag identity of the bottom dock's splitter.
pub const SHELL_DRAG_BOTTOM_SPLITTER: DragId = 0xA551_0003;

/// Drag identity of the toolbar's grip.
pub const SHELL_DRAG_TOOLBAR_GRIP: DragId = 0xA551_0004;

/// The edge of the viewport that a toolbar lies along.
#[derive(Clone, Copy, Debug, PartialEq, Eq, Structural)]
pub enum ToolbarEdge {
    /// Left.
    Left,
    /// Right.
    Right,
    /// Top.
    Top,
    /// Bottom.
    Bottom,
}

/// The zones of the shell.
#[derive(Clone, Copy, Debug, PartialEq, Eq, Structural)]
pub struct ShellLayout {
    /// The menu bar.
    pub menu_bar: Option<Rect>,
    /// The document tabs.
    pub doc_tabs: Option<Rect>,
    /// The left dock, where it shows.
    pub left_dock: Option<Rect>,
    /// The left dock's splitter.
    pub left_splitter: Option<Rect>,
    /// The right dock, where it shows.
    pub right_dock: Option<Rect>,
    /// The right dock's splitter.
    pub right_splitter: Option<Rect>,
    /// The bottom dock, where it shows.
    pub bottom_dock: Option<Rect>,
    /// The bottom dock's splitter.
    pub bottom_splitter: Option<Rect>,
    /// The toolbar.
    pub toolbar: Option<Rect>,
    /// What remains.
    pub viewport: Rect,
    /// The status bar.
    pub status_bar: Option<Rect>,
}

impl Default for ShellLayout {
    /// No zones, and no room.
    fn default() -> (r: Self)
        ensures
            r == (ShellLayout {
                menu_bar: None,
                doc_tabs: None,
                left_dock: None,
                left_splitter: None,
                right_dock: None,
                right_splitter: None,
                bottom_dock: None,
                bottom_splitter: None,
                toolbar: None,
                viewport: Rect::zero(),
                status_bar: None,
            }),
    {
        ShellLayout {
            menu_bar: None,
            doc_tabs: None,
            left_dock: None,
            left_splitter: None,
            right_dock: None,
            right_splitter: None,
            bottom_dock: None,
            bottom_splitter: None,
            toolbar: None,
            viewport: Rect::zero(),
            status_bar: None,
        }
    }
}

/// What a splitter's frame gave.
#[derive(Clone, Copy, Debug, PartialEq, Eq, Structural)]
pub struct SplitterOutput {
    /// How far it was dragged.
    pub delta: Scalar,
    /// It is being dragged.
    pub dragging: bool,
}

/// What happened in the shell's chrome.
#[derive(Clone, Copy, Debug, PartialEq, Eq, Structural)]
pub struct ShellChromeOutput {
    /// The left splitter.
    pub left_splitter: Option<SplitterOutput>,
    /// The right splitter.
    pub right_splitter: Option<SplitterOutput>,
    /// The bottom splitter.
    pub bottom_splitter: Option<SplitterOutput>,
    /// The left dock.
    pub left_dock: Option<DockPanelOutput>,
    /// The right dock.
    pub right_dock: Option<DockPanelOutput>,
    /// The bottom dock.
    pub bottom_dock: Option<DockPanelOutput>,
    /// Where the toolbar is drawn.
    pub toolbar: Option<Rect>,
}

impl Default for ShellChromeOutput {
    /// Nothing was drawn.
    fn default() -> (r: Self)
        ensures
            r == (ShellChromeOutput {
                left_splitter: None,
                right_splitter: None,
                bottom_splitter: None,
                left_dock: None,
                right_dock: None,
                bottom_dock: None,
                toolbar: None,
            }),
    {
        ShellChromeOutput {
            left_splitter: None,
            right_splitter: None,
            bottom_splitter: None,
            left_dock: None,
            right_dock: None,
            bottom_dock: None,
            toolbar: None,
        }
    }
}

/// A strip and what remains beside it.
#[derive(Clone, Copy, Debug, PartialEq, Eq, Structural)]
pub struct Peel {
    /// The strip.
    pub strip: Rect,
    /// What remains.
    pub rest: Rect,
}

/// A dock, its splitter and what remains beside them.
#[derive(Clone, Copy, Debug, PartialEq, Eq, Structural)]
pub struct DockPeel {
    /// The dock.
    pub dock: Rect,
    /// The splitter.
    pub splitter: Rect,
    /// What remains.
    pub rest: Rect,
}

pub open spec fn spec_peel_top(rem: Rect, h: Scalar) -> Peel {
    Peel {
        strip: Rect { x: rem.x, y: rem.y, width: rem.width, height: h },
        rest: Rect {
            x: rem.x,
            y: rem.y.plus(h),
            width: rem.width,
            height: rem.height.minus(h).at_least(whole(0)),
        },
    }
}

/// A strip of height `h` off the top.
#[verifier::when_used_as_spec(spec_peel_top)]
pub fn peel_top(rem: Rect, h: Scalar) -> (r: Peel)
    ensures
        r == spec_peel_top(rem, h),
{
    Peel {
        strip: Rect { x: rem.x, y: rem.y, width: rem.width, height: h },
        rest: Rect {
            x: rem.x,
            y: rem.y.plus(h),
            width: rem.width,
            height: rem.height.minus(h).at_least(whole(0)),
        },
    }
}

pub open spec fn spec_peel_status(rem: Rect, h: Scalar) -> Peel {
    Peel {
        strip: Rect {
            x: rem.x,
            y: rem.y.plus(rem.height.minus(h).at_least(whole(0))),
            width: rem.width,
            height: h,
        },
        rest: Rect {
            x: rem.x,
            y: rem.y,
            width: rem.width,
            height: rem.height.minus(h).at_least(whole(0)),
        },
    }
}

/// A strip of height `h` off the bottom.
#[verifier::when_used_as_spec(spec_peel_status)]
pub fn peel_status(rem: Rect, h: Scalar) -> (r: Peel)
    ensures
        r == spec_peel_status(rem, h),
{
    Peel {
        strip: Rect {
            x: rem.x,
            y: rem.y.plus(rem.height.minus(h).at_least(whole(0))),
            width: rem.width,
            height: h,
        },
        rest: Rect {
            x: rem.x,
            y: rem.y,
            width: rem.width,
            height: rem.height.minus(h).at_least(whole(0)),
        },
    }
}

pub open spec fn spec_peel_bottom_dock(rem: Rect, size: Scalar, splitter: Scalar) -> DockPeel {
    let h = size.at_most(rem.height.minus(splitter));
    let y = rem.y.plus(rem.height).minus(h).minus(splitter);
    DockPeel {
        dock: Rect { x: rem.x, y: y.plus(splitter), width: rem.width, height: h },
        splitter: Rect { x: rem.x, y, width: rem.width, height: splitter },
        rest: Rect {
            x: rem.x,
            y: rem.y,
            width: rem.width,
            height: rem.height.minus(h).minus(splitter).at_least(whole(0)),
        },
    }
}

/// A dock of height `size` at most, with its splitter, off the bottom.
#[verifier::when_used_as_spec(spec_peel_bottom_dock)]
pub fn peel_bottom_dock(rem: Rect, size: Scalar, splitter: Scalar) -> (r: DockPeel)
    ensures
        r == spec_peel_bottom_dock(rem, size, splitter),
{
    let h = size.at_most(rem.height.minus(splitter));
    let y = rem.y.plus(rem.height).minus(h).minus(splitter);
    DockPeel {
        dock: Rect { x: rem.x, y: y.plus(splitter), width: rem.width, height: h },
        splitter: Rect { x: rem.x, y, width: rem.width, height: splitter },
        rest: Rect {
            x: rem.x,
            y: rem.y,
            width: rem.width,
            height: rem.height.minus(h).minus(splitter).at_least(whole(0)),
        },
    }
}

pub open spec fn spec_peel_left_dock(rem: Rect, size: Scalar, splitter: Scalar) -> DockPeel {
    let w = size.at_most(rem.width.minus(splitter));
    DockPeel {
        dock: Rect { x: rem.x, y: rem.y, width: w, height: rem.height },
        splitter: Rect { x: rem.x.plus(w), y: rem.y, width: splitter, height: rem.height },
        rest: Rect {
            x: rem.x.plus(w).plus(splitter),
            y: rem.y,
            width: rem.width.minus(w).minus(splitter).at_least(whole(0)),
            height: rem.height,
        },
    }
}

/// A dock of width `size` at most, with its splitter, off the left.
#[verifier::when_used_as_spec(spec_peel_left_dock)]
pub fn peel_left_dock(rem: Rect, size: Scalar, splitter: Scalar) -> (r: DockPeel)
    ensures
        r == spec_peel_left_dock(rem, size, splitter),
{
    let w = size.at_most(rem.width.minus(splitter));
    DockPeel {
        dock: Rect { x: rem.x, y: rem.y, width: w, height: rem.height },
        splitter: Rect { x: rem.x.plus(w), y: rem.y, width: splitter, height: rem.height },
        rest: Rect {
            x: rem.x.plus(w).plus(splitter),
            y: rem.y,
            width: rem.width.minus(w).minus(splitter).at_least(whole(0)),
            height: rem.height,
        },
    }
}

pub open spec fn spec_peel_right_dock(rem: Rect, size: Scalar, splitter: Scalar) -> DockPeel {
    let w = size.at_most(rem.width.minus(splitter));
    let x = rem.x.plus(rem.width).minus(w).minus(splitter);
    DockPeel {
        dock: Rect { x: x.plus(splitter), y: rem.y, width: w, height: rem.height },
        splitter: Rect { x, y: rem.y, width: splitter, height: rem.height },
        rest: Rect {
            x: rem.x,
            y: rem.y,
            width: rem.width.minus(w).minus(splitter).at_least(whole(0)),
            height: rem.height,
        },
    }
}

/// A dock of width `size` at most, with its splitter, off the right.
#[verifier::when_used_as_spec(spec_peel_right_dock)]
pub fn peel_right_dock(rem: Rect, size: Scalar, splitter: Scalar) -> (r: DockPeel)
    ensures
        r == spec_peel_right_dock(rem, size, splitter),
{
    let w = size.at_most(rem.width.minus(splitter));
    let x = rem.x.plus(rem.width).minus(w).minus(splitter);
    DockPeel {
        dock: Rect { x: x.plus(splitter), y: rem.y, width: w, height: rem.height },
        splitter: Rect { x, y: rem.y, width: splitter, height: rem.height },
        rest: Rect {
            x: rem.x,
            y: rem.y,
            width: rem.width.minus(w).minus(splitter).at_least(whole(0)),
            height: rem.height,
        },
    }
}

pub open spec fn spec_peel_toolbar(rem: Rect, edge: ToolbarEdge, thickness: Scalar) -> Peel {
    let w = thickness.at_most(rem.width);
    let h = thickness.at_most(rem.height);
    let narrow = rem.width.minus(w).at_least(whole(0));
    let low = rem.height.minus(h).at_least(whole(0));
    match edge {
        ToolbarEdge::Left => Peel {
            strip: Rect { width: w, ..rem },
            rest: Rect { x: rem.x.plus(w), width: narrow, ..rem },
        },
        ToolbarEdge::Right => Peel {
            strip: Rect { x: rem.x.plus(rem.width).minus(w), width: w, ..rem },
            rest: Rect { width: narrow, ..rem },
        },
        ToolbarEdge::Top => Peel {
            strip: Rect { height: h, ..rem },
            rest: Rect { y: rem.y.plus(h), height: low, ..rem },
        },
        ToolbarEdge::Bottom => Peel {
            strip: Rect { y: rem.y.plus(rem.height).minus(h), height: h, ..rem },
            rest: Rect { height: low, ..rem },
        },
    }
}

/// A toolbar, no thicker than what remains, off its edge.
#[verifier::when_used_as_spec(spec_peel_toolbar)]
pub fn peel_toolbar(rem: Rect, edge: ToolbarEdge, thickness: Scalar) -> (r: Peel)
    ensures
        r == spec_peel_toolbar(rem, edge, thickness),
{
    match edge {
        ToolbarEdge::Left => {
            let w = thickness.at_most(rem.width);
            Peel {
                strip: Rect::new(rem.x, rem.y, w, rem.height),
                rest: Rect::new(
                    rem.x.plus(w),
                    rem.y,
                    rem.width.minus(w).at_least(whole(0)),
                    rem.height,
                ),
            }
        },
        ToolbarEdge::Right => {
            let w = thickness.at_most(rem.width);
            Peel {
                strip: Rect::new(rem.x.plus(rem.width).minus(w), rem.y, w, rem.height),
                rest: Rect::new(rem.x, rem.y, rem.width.minus(w).at_least(whole(0)), rem.height),
            }
        },
        ToolbarEdge::Top => {
            let h = thickness.at_most(rem.height);
            Peel {
                strip: Rect::new(rem.x, rem.y, rem.width, h),
                rest: Rect::new(
                    rem.x,
                    rem.y.plus(h),
                    rem.width,
                    rem.height.minus(h).at_least(whole(0)),
                ),
            }
        },
        ToolbarEdge::Bottom => {
            let h = thickness.at_most(rem.height);
            Peel {
                strip: Rect::new(rem.x, rem.y.plus(rem.height).minus(h), rem.width, h),
                rest: Rect::new(rem.x, rem.y, rem.width, rem.height.minus(h).at_least(whole(0))),
            }
        },
    }
}

pub open spec fn spec_shows(dock: Option<&DockPanelState>, room: Scalar, splitter: Scalar) -> Option<Scalar> {
    match dock {
        Some(d) => if d.visible && splitter.plus(whole(1)).lt(room) {
            Some(d.size)
        } else {
            None
        },
        None => None,
    }
}

/// The size of a dock that shows: it is there, it is not hidden, and the room is
/// wider than its splitter.
#[verifier::when_used_as_spec(spec_shows)]
pub fn shows(dock: Option<&DockPanelState>, room: Scalar, splitter: Scalar) -> (r: Option<Scalar>)
    ensures
        r == spec_shows(dock, room, splitter),
{
    match dock {
        Some(d) => if d.visible && splitter.plus(whole(1)).lt(room) {
            Some(d.size)
        } else {
            None
        },
        None => None,
    }
}

/// What peeling gives: the strip, where there is one, and the rest.
pub open spec fn strip_of(on: bool, p: Peel) -> Option<Rect> {
    if on {
        Some(p.strip)
    } else {
        None
    }
}

/// What remains after peeling, where something was peeled.
pub open spec fn rest_of(on: bool, p: Peel, rem: Rect) -> Rect {
    if on {
        p.rest
    } else {
        rem
    }
}

/// Which zones the shell has.
#[derive(Clone, Copy, Debug, PartialEq, Eq, Structural)]
pub struct AppShell {
    /// A menu bar.
    pub menu_bar: bool,
    /// Document tabs.
    pub doc_tabs: bool,
    /// A status bar.
    pub status_bar: bool,
    /// A toolbar.
    pub has_toolbar: bool,
}

impl AppShell {
    pub open spec fn spec_new() -> AppShell {
        AppShell { menu_bar: false, doc_tabs: false, status_bar: false, has_toolbar: false }
    }

    /// A shell with no zones.
    #[verifier::when_used_as_spec(spec_new)]
    pub fn new() -> (r: Self)
        ensures
            r == Self::spec_new(),
    {
        AppShell { menu_bar: false, doc_tabs: false, status_bar: false, has_toolbar: false }
    }

    /// With a menu bar at the top.
    pub fn with_menu_bar(self) -> (r: Self)
        ensures
            r == (AppShell { menu_bar: true, ..self }),
    {
        let mut r = self;
        r.menu_bar = true;
        r
    }

    /// With document tabs under the menu bar.
    pub fn with_doc_tabs(self) -> (r: Self)
        ensures
            r == (AppShell { doc_tabs: true, ..self }),
    {
        let mut r = self;
        r.doc_tabs = true;
        r
    }

    /// With a status bar at the bottom.
    pub fn with_status_bar(self) -> (r: Self)
        ensures
            r == (AppShell { status_bar: true, ..self }),
    {
        let mut r = self;
        r.status_bar = true;
        r
    }

    /// With a toolbar along an edge of the viewport.
    pub fn with_toolbar(self) -> (r: Self)
        ensures
            r == (AppShell { has_toolbar: true, ..self }),
    {
        let mut r = self;
        r.has_toolbar = true;
        r
    }

    pub open spec fn spec_layout(
        &self,
        screen: Rect,
        left: Option<&DockPanelState>,
        right: Option<&DockPanelState>,
        bottom: Option<&DockPanelState>,
        toolbar: Option<ToolbarEdge>,
        styles: &StyleResolver,
    ) -> ShellLayout {
        let w = styles.scalar(StyleKey::DockSplitterWidth);
        let menu = peel_top(screen, styles.scalar(StyleKey::MenuRowHeight));
        let a = rest_of(self.menu_bar, menu, screen);
        let tabs = peel_top(a, styles.scalar(StyleKey::DockTabHeight));
        let b = rest_of(self.doc_tabs, tabs, a);
        let status = peel_status(b, whole(26));
        let c = rest_of(self.status_bar, status, b);
        let low = match shows(bottom, c.height, w) {
            Some(size) => Some(peel_bottom_dock(c, size, w)),
            None => None,
        };
        let d = match low {
            Some(p) => p.rest,
            None => c,
        };
        let near = match shows(left, d.width, w) {
            Some(size) => Some(peel_left_dock(d, size, w)),
            None => None,
        };
        let e = match near {
            Some(p) => p.rest,
            None => d,
        };
        let far = match shows(right, e.width, w) {
            Some(size) => Some(peel_right_dock(e, size, w)),
            None => None,
        };
        let f = match far {
            Some(p) => p.rest,
            None => e,
        };
        let bar = match toolbar {
            Some(edge) => if self.has_toolbar {
                Some(
                    peel_toolbar(
                        f,
                        edge,
                        styles.scalar(StyleKey::ToolbarButtonSize).plus(
                            styles.scalar(StyleKey::ToolbarPadding).times(whole(2)),
                        ),
                    ),
                )
            } else {
                None
            },
            None => None,
        };
        ShellLayout {
            menu_bar: strip_of(self.menu_bar, menu),
            doc_tabs: strip_of(self.doc_tabs, tabs),
            left_dock: match near {
                Some(p) => Some(p.dock),
                None => None,
            },
            left_splitter: match near {
                Some(p) => Some(p.splitter),
                None => None,
            },
            right_dock: match far {
                Some(p) => Some(p.dock),
                None => None,
            },
            right_splitter: match far {
                Some(p) => Some(p.splitter),
                None => None,
            },
            bottom_dock: match low {
                Some(p) => Some(p.dock),
                None => None,
            },
            bottom_splitter: match low {
                Some(p) => Some(p.splitter),
                None => None,
            },
            toolbar: match bar {
                Some(p) => Some(p.strip),
                None => None,
            },
            viewport: match bar {
                Some(p) => p.rest,
                None => f,
            },
            status_bar: strip_of(self.status_bar, status),
        }
    }

    /// The zones of a screen with these docks, and with a toolbar along this
    /// edge. A dock that is not there or is hidden takes no room.
    #[verifier::when_used_as_spec(spec_layout)]
    pub fn layout(
        &self,
        screen: Rect,
        left: Option<&DockPanelState>,
        right: Option<&DockPanelState>,
        bottom: Option<&DockPanelState>,
        toolbar: Option<ToolbarEdge>,
        styles: &StyleResolver,
    ) -> (r: ShellLayout)
        ensures
            r == self.spec_layout(screen, left, right, bottom, toolbar, styles),
    {
        let mut out = ShellLayout {
            menu_bar: None,
            doc_tabs: None,
            left_dock: None,
            left_splitter: None,
            right_dock: None,
            right_splitter: None,
            bottom_dock: None,
            bottom_splitter: None,
            toolbar: None,
            viewport: screen,
            status_bar: None,
        };
        let mut rem = screen;
        let w = styles.scalar(StyleKey::DockSplitterWidth);
        if self.menu_bar {
            let p = peel_top(rem, styles.scalar(StyleKey::MenuRowHeight));
            out.menu_bar = Some(p.strip);
            rem = p.rest;
        }
        if self.doc_tabs {
            let p = peel_top(rem, styles.scalar(StyleKey::DockTabHeight));
            out.doc_tabs = Some(p.strip);
            rem = p.rest;
        }
        if self.status_bar {
            let p = peel_status(rem, whole(26));
            out.status_bar = Some(p.strip);
            rem = p.rest;
        }
        match shows(bottom, rem.height, w) {
            Some(size) => {
                let p = peel_bottom_dock(rem, size, w);
                out.bottom_dock = Some(p.dock);
                out.bottom_splitter = Some(p.splitter);
                rem = p.rest;
            },
            None => {},
        }
        match shows(left, rem.width, w) {
            Some(size) => {
                let p = peel_left_dock(rem, size, w);
                out.left_dock = Some(p.dock);
                out.left_splitter = Some(p.splitter);
                rem = p.rest;
            },
            None => {},
        }
        match shows(right, rem.width, w) {
            Some(size) => {
                let p = peel_right_dock(rem, size, w);
                out.right_dock = Some(p.dock);
                out.right_splitter = Some(p.splitter);
                rem = p.rest;
            },
            None => {},
        }
        if self.has_toolbar {
            match toolbar {
                Some(edge) => {
                    let thickness = styles.scalar(StyleKey::ToolbarButtonSize).plus(
                        styles.scalar(StyleKey::ToolbarPadding).times(whole(2)),
                    );
                    let p = peel_toolbar(rem, edge, thickness);
                    out.toolbar = Some(p.strip);
                    rem = p.rest;
                },
                None => {},
            }
        }
        out.viewport = rem;
        out
    }
}

impl Default for AppShell {
    fn default() -> (r: Self)
        ensures
            r == AppShell::new(),
    {
        AppShell::new()
    }
}

pub open spec fn spec_resized(side: DockSide, state: DockPanelState, delta: Scalar) -> DockPanelState {
    DockPanelState {
        size: (match side {
            DockSide::Left => state.size.plus(delta),
            _ => state.size.minus(delta),
        }).clamped(state.min_size, state.max_size),
        ..state
    }
}

/// The dock after its splitter moved by `delta`: the left dock grows with it, the
/// others against it, all within their range.
#[verifier::when_used_as_spec(spec_resized)]
pub fn resized(side: DockSide, state: DockPanelState, delta: Scalar) -> (r: DockPanelState)
    requires
        state.min_size.le(state.max_size),
    ensures
        r == spec_resized(side, state, delta),
{
    let size = match side {
        DockSide::Left => state.size.plus(delta),
        _ => state.size.minus(delta),
    };
    let mut r = state;
    r.size = size.clamped(state.min_size, state.max_size);
    r
}

/// A dock of the shell, with what its splitter's frame gave.
pub struct ShellDock<'a> {
    /// Its tabs.
    pub tabs: &'a [DockTab],
    /// How their labels measure.
    pub labels: &'a [Label],
    /// Its splitter.
    pub splitter: SplitterOutput,
    /// Its state.
    pub state: DockPanelState,
}

/// What became of a dock.
pub struct DockChrome<'a> {
    /// The dock.
    pub dock: Option<ShellDock<'a>>,
    /// Its splitter, where it shows.
    pub splitter: Option<SplitterOutput>,
    /// Its panel, where it shows.
    pub panel: Option<DockPanelOutput>,
    /// The scene.
    pub scene: crate::context::Scene,
}

/// What becomes of a dock: where its splitter shows, the dock takes the size it
/// was dragged to, and where the dock shows, its panel is drawn with a close key.
pub open spec fn dock_chrome<'a>(
    side: DockSide,
    dock: Option<ShellDock<'a>>,
    splitter: Option<Rect>,
    place: Option<Rect>,
    cross: Scalar,
    frame: crate::context::Frame,
    scene: crate::context::Scene,
) -> DockChrome<'a> {
    match (splitter, dock) {
        (Some(_), Some(d)) => {
            let state = resized(side, d.state, d.splitter.delta);
            let panel = DockPanel { tabs: d.tabs, side, closable: true };
            DockChrome {
                dock: Some(ShellDock { state, ..d }),
                splitter: Some(d.splitter),
                panel: match place {
                    Some(rect) => Some(panel.happened(rect, &frame.styles, &frame.input)),
                    None => None,
                },
                scene: match place {
                    Some(rect) => crate::context::Scene {
                        list: panel.painted(
                            scene.list,
                            rect,
                            state.active_tab,
                            d.labels,
                            cross,
                            &frame.styles,
                            &frame.input,
                        ),
                        ..scene
                    },
                    None => scene,
                },
            }
        },
        _ => DockChrome { dock, splitter: None, panel: None, scene },
    }
}

/// Where a dock's splitter shows, its range of sizes is one.
pub open spec fn ranged(dock: Option<ShellDock>, splitter: Option<Rect>) -> bool {
    dock matches Some(d) ==> splitter is Some ==> d.state.min_size.le(d.state.max_size)
}

/// Resize a dock by its splitter and draw its panel.
pub fn draw_dock<'a>(
    side: DockSide,
    dock: &mut Option<ShellDock<'a>>,
    splitter: Option<Rect>,
    place: Option<Rect>,
    cross: Scalar,
    ctx: &mut DrawContext,
) -> (r: (Option<SplitterOutput>, Option<DockPanelOutput>))
    requires
        ranged(*old(dock), splitter),
    ensures
        ({
            let c = dock_chrome(side, *old(dock), splitter, place, cross, old(ctx).frame, old(ctx)@);
            &&& *final(dock) == c.dock
            &&& r.0 == c.splitter
            &&& r.1 == c.panel
            &&& final(ctx)@ == c.scene
        }),
        final(ctx).frame == old(ctx).frame,
{
    if splitter.is_none() {
        return (None, None);
    }
    match dock {
        Some(d) => {
            d.state = resized(side, d.state, d.splitter.delta);
            let panel = match place {
                Some(rect) => Some(
                    DockPanel::new(side, d.tabs).closable().draw(
                        rect,
                        &d.state,
                        d.labels,
                        cross,
                        ctx,
                    ),
                ),
                None => None,
            };
            (Some(d.splitter), panel)
        },
        None => (None, None),
    }
}

impl AppShell {
    /// Draw the docks at their places and resize them by their splitters, which
    /// were drawn before. The toolbar's place is handed on. `cross` is where the
    /// visual center of a close key's cross lies below its top, in em.
    pub fn draw_chrome<'a>(
        &self,
        shell: &ShellLayout,
        left: &mut Option<ShellDock<'a>>,
        right: &mut Option<ShellDock<'a>>,
        bottom: &mut Option<ShellDock<'a>>,
        cross: Scalar,
        ctx: &mut DrawContext,
    ) -> (out: ShellChromeOutput)
        requires
            ranged(*old(left), shell.left_splitter),
            ranged(*old(right), shell.right_splitter),
            ranged(*old(bottom), shell.bottom_splitter),
        ensures
            ({
                let f = old(ctx).frame;
                let a = dock_chrome(
                    DockSide::Left,
                    *old(left),
                    shell.left_splitter,
                    shell.left_dock,
                    cross,
                    f,
                    old(ctx)@,
                );
                let b = dock_chrome(
                    DockSide::Right,
                    *old(right),
                    shell.right_splitter,
                    shell.right_dock,
                    cross,
                    f,
                    a.scene,
                );
                let c = dock_chrome(
                    DockSide::Bottom,
                    *old(bottom),
                    shell.bottom_splitter,
                    shell.bottom_dock,
                    cross,
                    f,
                    b.scene,
                );
                &&& *final(left) == a.dock
                &&& *final(right) == b.dock
                &&& *final(bottom) == c.dock
                &&& final(ctx)@ == c.scene
                &&& out == (ShellChromeOutput {
                    left_splitter: a.splitter,
                    right_splitter: b.splitter,
                    bottom_splitter: c.splitter,
                    left_dock: a.panel,
                    right_dock: b.panel,
                    bottom_dock: c.panel,
                    toolbar: shell.toolbar,
                })
            }),
            final(ctx).frame == old(ctx).frame,
    {
        let a = draw_dock(
            DockSide::Left,
            left,
            shell.left_splitter,
            shell.left_dock,
            cross,
            ctx,
        );
        let b = draw_dock(
            DockSide::Right,
            right,
            shell.right_splitter,
            shell.right_dock,
            cross,
            ctx,
        );
        let c = draw_dock(
            DockSide::Bottom,
            bottom,
            shell.bottom_splitter,
            shell.bottom_dock,
            cross,
            ctx,
        );
        ShellChromeOutput {
            left_splitter: a.0,
            right_splitter: b.0,
            bottom_splitter: c.0,
            left_dock: a.1,
            right_dock: b.1,
            bottom_dock: c.1,
            toolbar: shell.toolbar,
        }
    }
}

/// A shell without zones and docks gives the whole screen to the viewport.
pub proof fn law_empty_shell_is_all_viewport(screen: Rect, styles: &StyleResolver)
    ensures
        AppShell::new().layout(screen, None, None, None, None, styles).viewport == screen,
{
}

/// A hidden dock takes no room: the zones are those of a shell without it.
pub proof fn law_hidden_dock_takes_no_room(
    shell: AppShell,
    screen: Rect,
    dock: &DockPanelState,
    left: Option<&DockPanelState>,
    right: Option<&DockPanelState>,
    bottom: Option<&DockPanelState>,
    toolbar: Option<ToolbarEdge>,
    styles: &StyleResolver,
)
    requires
        !dock.visible,
    ensures
        shell.layout(screen, Some(dock), right, bottom, toolbar, styles) == shell.layout(
            screen,
            None,
            right,
            bottom,
            toolbar,
            styles,
        ),
        shell.layout(screen, left, Some(dock), bottom, toolbar, styles) == shell.layout(
            screen,
            left,
            None,
            bottom,
            toolbar,
            styles,
        ),
        shell.layout(screen, left, right, Some(dock), toolbar, styles) == shell.layout(
            screen,
            left,
            right,
            None,
            toolbar,
            styles,
        ),
{
}

/// Neighbouring zones meet: each starts exactly where the one before it ends.
pub proof fn law_zones_meet(
    shell: AppShell,
    screen: Rect,
    left: Option<&DockPanelState>,
    right: Option<&DockPanelState>,
    bottom: Option<&DockPanelState>,
    toolbar: Option<ToolbarEdge>,
    styles: &StyleResolver,
)
    ensures
        ({
            let z = shell.layout(screen, left, right, bottom, toolbar, styles);
            &&& (z.menu_bar is Some && z.doc_tabs is Some ==> z.doc_tabs->0.y
                == z.menu_bar->0.bottom())
            &&& (z.left_splitter is Some <==> z.left_dock is Some)
            &&& (z.left_dock is Some ==> z.left_splitter->0.x == z.left_dock->0.right())
            &&& (z.right_splitter is Some <==> z.right_dock is Some)
            &&& (z.right_dock is Some ==> z.right_dock->0.x == z.right_splitter->0.right())
            &&& (z.bottom_splitter is Some <==> z.bottom_dock is Some)
            &&& (z.bottom_dock is Some ==> z.bottom_dock->0.y == z.bottom_splitter->0.bottom())
            &&& (z.left_dock is Some && z.toolbar is None ==> z.viewport.x
                == z.left_splitter->0.right())
            &&& (z.left_dock is None && z.toolbar is None ==> z.viewport.x == screen.x)
            &&& (z.toolbar is Some && toolbar == Some(ToolbarEdge::Left) ==> z.viewport.x
                == z.toolbar->0.right())
            &&& (z.toolbar is Some && toolbar == Some(ToolbarEdge::Top) ==> z.viewport.y
                == z.toolbar->0.bottom())
        }),
{
}

/// A dragged dock stays within its range.
pub proof fn law_resized_dock_stays_in_range(side: DockSide, state: DockPanelState, delta: Scalar)
    requires
        state.min_size.le(state.max_size),
        state.size.plus(delta).is_finite(),
        state.size.minus(delta).is_finite(),
    ensures
        state.min_size.le(resized(side, state, delta).size),
        resized(side, state, delta).size.le(state.max_size),
{
    reveal(Scalar::spec_le);
    reveal(Scalar::spec_lt);
}

/// How many rectangles of one hold a point.
#[verifier::opaque]
pub open spec fn hold(r: Rect, px: Scalar, py: Scalar) -> int {
    if r.contains(px, py) {
        1
    } else {
        0
    }
}

/// The same of a zone that may not be there.
pub open spec fn hold_in(r: Option<Rect>, px: Scalar, py: Scalar) -> int {
    match r {
        Some(r) => hold(r, px, py),
        None => 0,
    }
}

/// A rectangle cut in two, one part under the other.
proof fn lemma_cut_down(r: Rect, a: Rect, b: Rect, x: int, y: int, w: int, h: int, n: int, px: Scalar, py: Scalar)
    requires
        crate::geometry::in_steps(r, x, y, w, h),
        crate::geometry::in_steps(a, x, y, w, n),
        crate::geometry::in_steps(b, x, y + n, w, h - n),
        0 <= n <= h,
        px.is_finite(),
        py.is_finite(),
    ensures
        hold(r, px, py) == hold(a, px, py) + hold(b, px, py),
{
    reveal(hold);
    crate::geometry::law_contains_in_steps(r, x, y, w, h, px, py);
    crate::geometry::law_contains_in_steps(a, x, y, w, n, px, py);
    crate::geometry::law_contains_in_steps(b, x, y + n, w, h - n, px, py);
    rounding::law_steps();
    let st = rounding::step();
    assert(y * st <= (y + n) * st <= (y + h) * st) by (nonlinear_arith)
        requires
            0 <= n <= h,
            st > 0,
    ;
    assert(y + n + (h - n) == y + h);
}

/// A rectangle cut in two, one part beside the other.
proof fn lemma_cut_across(r: Rect, a: Rect, b: Rect, x: int, y: int, w: int, h: int, n: int, px: Scalar, py: Scalar)
    requires
        crate::geometry::in_steps(r, x, y, w, h),
        crate::geometry::in_steps(a, x, y, n, h),
        crate::geometry::in_steps(b, x + n, y, w - n, h),
        0 <= n <= w,
        px.is_finite(),
        py.is_finite(),
    ensures
        hold(r, px, py) == hold(a, px, py) + hold(b, px, py),
{
    reveal(hold);
    crate::geometry::law_contains_in_steps(r, x, y, w, h, px, py);
    crate::geometry::law_contains_in_steps(a, x, y, n, h, px, py);
    crate::geometry::law_contains_in_steps(b, x + n, y, w - n, h, px, py);
    rounding::law_steps();
    let st = rounding::step();
    assert(x * st <= (x + n) * st <= (x + w) * st) by (nonlinear_arith)
        requires
            0 <= n <= w,
            st > 0,
    ;
    assert(x + n + (w - n) == x + w);
}

proof fn lemma_rest(a: Scalar, b: Scalar, n: int, m: int)
    requires
        rounding::in_steps(a, n),
        rounding::in_steps(b, m),
        0 <= m <= n <= 0x40_0000,
    ensures
        rounding::in_steps(a.minus(b), n - m),
        a.minus(b).at_least(whole(0)) == a.minus(b),
{
    rounding::law_minus_steps(a, b, n, m);
    rounding::law_one_in_steps();
    rounding::law_steps_compare(a.minus(b), whole(0), n - m, 0);
}

/// A strip off the top or the bottom and what it leaves: every point of the whole is in
/// one of the two and not in both.
pub proof fn law_strips_cut_off(rem: Rect, strip: Scalar, x: int, y: int, w: int, h: int, n: int, px: Scalar, py: Scalar)
    requires
        crate::geometry::in_steps(rem, x, y, w, h),
        rounding::in_steps(strip, n),
        0 <= w,
        0 <= n <= h,
        px.is_finite(),
        py.is_finite(),
    ensures
        ({
            let top = peel_top(rem, strip);
            let low = peel_status(rem, strip);
            &&& hold(rem, px, py) == hold(top.strip, px, py) + hold(top.rest, px, py)
            &&& hold(rem, px, py) == hold(low.strip, px, py) + hold(low.rest, px, py)
            &&& crate::geometry::in_steps(top.rest, x, y + n, w, h - n)
            &&& crate::geometry::in_steps(low.rest, x, y, w, h - n)
        }),
{
    lemma_rest(rem.height, strip, h, n);
    rounding::law_plus_steps(rem.y, strip, y, n);
    let top = peel_top(rem, strip);
    lemma_cut_down(rem, top.strip, top.rest, x, y, w, h, n, px, py);
    rounding::law_plus_steps(rem.y, rem.height.minus(strip), y, h - n);
    let low = peel_status(rem, strip);
    lemma_cut_down(rem, low.rest, low.strip, x, y, w, h, h - n, px, py);
}

/// The smaller of a size and the room for it.
proof fn lemma_fitting(size: Scalar, room: Scalar, n: int, m: int)
    requires
        rounding::in_steps(size, n),
        rounding::in_steps(room, m),
    ensures
        rounding::in_steps(size.at_most(room), crate::list::least(n, m)),
{
    rounding::law_steps_compare(room, size, m, n);
}

/// A dock, its splitter and what they leave: every point of the whole is in one of the
/// three and in no two of them, whichever side the dock is on.
pub proof fn law_docks_cut_off(rem: Rect, size: Scalar, splitter: Scalar, x: int, y: int, w: int, h: int, n: int, s: int, px: Scalar, py: Scalar)
    requires
        crate::geometry::in_steps(rem, x, y, w, h),
        rounding::in_steps(size, n),
        rounding::in_steps(splitter, s),
        0 <= n <= 0x40_0000,
        0 <= s,
        0 <= w,
        0 <= h,
        px.is_finite(),
        py.is_finite(),
    ensures
        s <= w ==> {
            let left = peel_left_dock(rem, size, splitter);
            let right = peel_right_dock(rem, size, splitter);
            let d = crate::list::least(n, w - s);
            &&& hold(rem, px, py) == hold(left.dock, px, py) + hold(left.splitter, px, py) + hold(
                left.rest,
                px,
                py,
            )
            &&& hold(rem, px, py) == hold(right.dock, px, py) + hold(right.splitter, px, py) + hold(
                right.rest,
                px,
                py,
            )
            &&& crate::geometry::in_steps(left.dock, x, y, d, h)
            &&& crate::geometry::in_steps(left.rest, x + d + s, y, w - d - s, h)
            &&& crate::geometry::in_steps(right.dock, x + w - d, y, d, h)
            &&& crate::geometry::in_steps(right.rest, x, y, w - d - s, h)
        },
        s <= h ==> {
            let low = peel_bottom_dock(rem, size, splitter);
            let d = crate::list::least(n, h - s);
            &&& hold(rem, px, py) == hold(low.dock, px, py) + hold(low.splitter, px, py) + hold(
                low.rest,
                px,
                py,
            )
            &&& crate::geometry::in_steps(low.dock, x, y + h - d, w, d)
            &&& crate::geometry::in_steps(low.rest, x, y, w, h - d - s)
        },
{
    if s <= w {
        rounding::law_minus_steps(rem.width, splitter, w, s);
        lemma_fitting(size, rem.width.minus(splitter), n, w - s);
        let fit = size.at_most(rem.width.minus(splitter));
        let d = crate::list::least(n, w - s);
        lemma_rest(rem.width, fit, w, d);
        lemma_rest(rem.width.minus(fit), splitter, w - d, s);
        // On the left.
        rounding::law_plus_steps(rem.x, fit, x, d);
        rounding::law_plus_steps(rem.x.plus(fit), splitter, x + d, s);
        let left = peel_left_dock(rem, size, splitter);
        let rest = Rect { x: left.splitter.x, width: rem.width.minus(fit), ..rem };
        lemma_cut_across(rem, left.dock, rest, x, y, w, h, d, px, py);
        lemma_cut_across(rest, left.splitter, left.rest, x + d, y, w - d, h, s, px, py);
        // On the right.
        rounding::law_plus_steps(rem.x, rem.width, x, w);
        rounding::law_minus_steps(rem.x.plus(rem.width), fit, x + w, d);
        rounding::law_minus_steps(rem.x.plus(rem.width).minus(fit), splitter, x + w - d, s);
        let right = peel_right_dock(rem, size, splitter);
        rounding::law_plus_steps(right.splitter.x, splitter, x + w - d - s, s);
        let near = Rect { width: rem.width.minus(fit), ..rem };
        lemma_cut_across(rem, near, right.dock, x, y, w, h, w - d, px, py);
        lemma_cut_across(near, right.rest, right.splitter, x, y, w - d, h, w - d - s, px, py);
    }
    if s <= h {
        rounding::law_minus_steps(rem.height, splitter, h, s);
        lemma_fitting(size, rem.height.minus(splitter), n, h - s);
        let fit = size.at_most(rem.height.minus(splitter));
        let d = crate::list::least(n, h - s);
        lemma_rest(rem.height, fit, h, d);
        lemma_rest(rem.height.minus(fit), splitter, h - d, s);
        rounding::law_plus_steps(rem.y, rem.height, y, h);
        rounding::law_minus_steps(rem.y.plus(rem.height), fit, y + h, d);
        rounding::law_minus_steps(rem.y.plus(rem.height).minus(fit), splitter, y + h - d, s);
        let low = peel_bottom_dock(rem, size, splitter);
        rounding::law_plus_steps(low.splitter.y, splitter, y + h - d - s, s);
        let above = Rect { height: rem.height.minus(fit), ..rem };
        lemma_cut_down(rem, above, low.dock, x, y, w, h, h - d, px, py);
        lemma_cut_down(above, low.rest, low.splitter, x, y, w, h - d, h - d - s, px, py);
    }
}

/// A toolbar and what it leaves: every point of the whole is in one of the two and not in
/// both, whichever edge the toolbar is on.
pub proof fn law_toolbar_cuts_off(rem: Rect, edge: ToolbarEdge, thickness: Scalar, x: int, y: int, w: int, h: int, n: int, px: Scalar, py: Scalar)
    requires
        crate::geometry::in_steps(rem, x, y, w, h),
        rounding::in_steps(thickness, n),
        0 <= n,
        0 <= w,
        0 <= h,
        px.is_finite(),
        py.is_finite(),
    ensures
        ({
            let p = peel_toolbar(rem, edge, thickness);
            let across = crate::list::least(n, w);
            let down = crate::list::least(n, h);
            &&& hold(rem, px, py) == hold(p.strip, px, py) + hold(p.rest, px, py)
            &&& edge == ToolbarEdge::Left ==> crate::geometry::in_steps(p.strip, x, y, across, h)
            &&& edge == ToolbarEdge::Right ==> crate::geometry::in_steps(
                p.strip,
                x + w - across,
                y,
                across,
                h,
            )
            &&& edge == ToolbarEdge::Top ==> crate::geometry::in_steps(p.strip, x, y, w, down)
            &&& edge == ToolbarEdge::Bottom ==> crate::geometry::in_steps(
                p.strip,
                x,
                y + h - down,
                w,
                down,
            )
        }),
{
    let p = peel_toolbar(rem, edge, thickness);
    lemma_fitting(thickness, rem.width, n, w);
    lemma_fitting(thickness, rem.height, n, h);
    let a = crate::list::least(n, w);
    let b = crate::list::least(n, h);
    let fw = thickness.at_most(rem.width);
    let fh = thickness.at_most(rem.height);
    lemma_rest(rem.width, fw, w, a);
    lemma_rest(rem.height, fh, h, b);
    rounding::law_plus_steps(rem.x, fw, x, a);
    rounding::law_plus_steps(rem.y, fh, y, b);
    rounding::law_plus_steps(rem.x, rem.width, x, w);
    rounding::law_plus_steps(rem.y, rem.height, y, h);
    rounding::law_minus_steps(rem.x.plus(rem.width), fw, x + w, a);
    rounding::law_minus_steps(rem.y.plus(rem.height), fh, y + h, b);
    match edge {
        ToolbarEdge::Left => lemma_cut_across(rem, p.strip, p.rest, x, y, w, h, a, px, py),
        ToolbarEdge::Right => lemma_cut_across(rem, p.rest, p.strip, x, y, w, h, w - a, px, py),
        ToolbarEdge::Top => lemma_cut_down(rem, p.strip, p.rest, x, y, w, h, b, px, py),
        ToolbarEdge::Bottom => lemma_cut_down(rem, p.rest, p.strip, x, y, w, h, h - b, px, py),
    }
}

/// In steps: how large a dock wants to be.
pub open spec fn wants(dock: Option<&DockPanelState>, n: int) -> bool {
    dock matches Some(d) ==> rounding::in_steps(d.size, n) && 0 <= n <= 0x40_0000
}

/// The bottom dock, where it shows.
spec fn low_peel(c: Rect, dock: Option<&DockPanelState>, sw: Scalar) -> Option<DockPeel> {
    match shows(dock, c.height, sw) {
        Some(size) => Some(peel_bottom_dock(c, size, sw)),
        None => None,
    }
}

/// The left dock, where it shows.
spec fn near_peel(c: Rect, dock: Option<&DockPanelState>, sw: Scalar) -> Option<DockPeel> {
    match shows(dock, c.width, sw) {
        Some(size) => Some(peel_left_dock(c, size, sw)),
        None => None,
    }
}

/// The right dock, where it shows.
spec fn far_peel(c: Rect, dock: Option<&DockPanelState>, sw: Scalar) -> Option<DockPeel> {
    match shows(dock, c.width, sw) {
        Some(size) => Some(peel_right_dock(c, size, sw)),
        None => None,
    }
}

/// What a dock that may show leaves.
spec fn left_over(c: Rect, p: Option<DockPeel>) -> Rect {
    match p {
        Some(p) => p.rest,
        None => c,
    }
}

/// How many of a dock and its splitter hold a point.
spec fn hold_dock(p: Option<DockPeel>, px: Scalar, py: Scalar) -> int {
    match p {
        Some(p) => hold(p.dock, px, py) + hold(p.splitter, px, py),
        None => 0,
    }
}

proof fn lemma_shown(dock: Option<&DockPanelState>, room: Scalar, sw: Scalar, n: int, split: int)
    requires
        rounding::in_steps(room, n),
        rounding::in_steps(sw, split),
        0 <= split <= 0x40_0000,
        shows(dock, room, sw) is Some,
    ensures
        split <= n,
        dock is Some,
        shows(dock, room, sw) == Some(dock->0.size),
{
    rounding::law_one_in_steps();
    rounding::law_plus_steps(sw, whole(1), split, 256);
    rounding::law_steps_compare(sw.plus(whole(1)), room, split + 256, n);
}

proof fn lemma_docks(
    c: Rect,
    left: Option<&DockPanelState>,
    right: Option<&DockPanelState>,
    bottom: Option<&DockPanelState>,
    sw: Scalar,
    x: int,
    y: int,
    w: int,
    h: int,
    split: int,
    nl: int,
    nr: int,
    nb: int,
    px: Scalar,
    py: Scalar,
) -> (r: (int, int, int))
    requires
        crate::geometry::in_steps(c, x, y, w, h),
        rounding::in_steps(sw, split),
        0 <= split <= 0x40_0000,
        0 <= w,
        0 <= h,
        wants(left, nl),
        wants(right, nr),
        wants(bottom, nb),
        px.is_finite(),
        py.is_finite(),
    ensures
        ({
            let low = low_peel(c, bottom, sw);
            let d = left_over(c, low);
            let near = near_peel(d, left, sw);
            let e = left_over(d, near);
            let far = far_peel(e, right, sw);
            let f = left_over(e, far);
            &&& hold(c, px, py) == hold_dock(low, px, py) + hold_dock(near, px, py) + hold_dock(
                far,
                px,
                py,
            ) + hold(f, px, py)
            &&& crate::geometry::in_steps(f, r.0, y, r.1, r.2)
            &&& 0 <= r.1
            &&& 0 <= r.2
        }),
{
    let low = low_peel(c, bottom, sw);
    let d = left_over(c, low);
    let hd = if low is Some {
        lemma_shown(bottom, c.height, sw, h, split);
        law_docks_cut_off(c, bottom->0.size, sw, x, y, w, h, nb, split, px, py);
        h - crate::list::least(nb, h - split) - split
    } else {
        h
    };
    assert(crate::geometry::in_steps(d, x, y, w, hd));
    let near = near_peel(d, left, sw);
    let e = left_over(d, near);
    let taken = if near is Some {
        lemma_shown(left, d.width, sw, w, split);
        law_docks_cut_off(d, left->0.size, sw, x, y, w, hd, nl, split, px, py);
        crate::list::least(nl, w - split) + split
    } else {
        0
    };
    let we = w - taken;
    assert(crate::geometry::in_steps(e, x + taken, y, we, hd));
    let far = far_peel(e, right, sw);
    let wf = if far is Some {
        lemma_shown(right, e.width, sw, we, split);
        law_docks_cut_off(e, right->0.size, sw, x + taken, y, we, hd, nr, split, px, py);
        we - crate::list::least(nr, we - split) - split
    } else {
        we
    };
    (x + taken, wf, hd)
}

/// What the bars at the top and the bottom leave.
spec fn inner(shell: AppShell, screen: Rect, mh: Scalar, th: Scalar) -> Rect {
    let a = rest_of(shell.menu_bar, peel_top(screen, mh), screen);
    let b = rest_of(shell.doc_tabs, peel_top(a, th), a);
    rest_of(shell.status_bar, peel_status(b, whole(26)), b)
}

/// How many of the bars hold a point.
spec fn hold_bars(shell: AppShell, screen: Rect, mh: Scalar, th: Scalar, px: Scalar, py: Scalar) -> int {
    let a = rest_of(shell.menu_bar, peel_top(screen, mh), screen);
    let b = rest_of(shell.doc_tabs, peel_top(a, th), a);
    hold_in(strip_of(shell.menu_bar, peel_top(screen, mh)), px, py) + hold_in(
        strip_of(shell.doc_tabs, peel_top(a, th)),
        px,
        py,
    ) + hold_in(strip_of(shell.status_bar, peel_status(b, whole(26))), px, py)
}

proof fn lemma_bars(shell: AppShell, screen: Rect, mh: Scalar, th: Scalar, x: int, y: int, w: int, h: int, menu: int, tabs: int, px: Scalar, py: Scalar) -> (r: (int, int))
    requires
        crate::geometry::in_steps(screen, x, y, w, h),
        rounding::in_steps(mh, menu),
        rounding::in_steps(th, tabs),
        0 <= menu,
        0 <= tabs,
        0 <= w,
        menu + tabs + 6656 <= h,
        px.is_finite(),
        py.is_finite(),
    ensures
        hold(screen, px, py) == hold_bars(shell, screen, mh, th, px, py) + hold(
            inner(shell, screen, mh, th),
            px,
            py,
        ),
        crate::geometry::in_steps(inner(shell, screen, mh, th), x, r.0, w, r.1),
        0 <= r.1,
{
    rounding::law_whole_in_steps(26);
    law_strips_cut_off(screen, mh, x, y, w, h, menu, px, py);
    let a = rest_of(shell.menu_bar, peel_top(screen, mh), screen);
    let (ya, ha) = if shell.menu_bar {
        (y + menu, h - menu)
    } else {
        (y, h)
    };
    assert(crate::geometry::in_steps(a, x, ya, w, ha));
    law_strips_cut_off(a, th, x, ya, w, ha, tabs, px, py);
    let b = rest_of(shell.doc_tabs, peel_top(a, th), a);
    let (yb, hb) = if shell.doc_tabs {
        (ya + tabs, ha - tabs)
    } else {
        (ya, ha)
    };
    assert(crate::geometry::in_steps(b, x, yb, w, hb));
    law_strips_cut_off(b, whole(26), x, yb, w, hb, 6656, px, py);
    let hc = if shell.status_bar {
        hb - 6656
    } else {
        hb
    };
    (yb, hc)
}

/// The toolbar, where there is one.
spec fn bar_peel(shell: AppShell, f: Rect, toolbar: Option<ToolbarEdge>, thickness: Scalar) -> Option<Peel> {
    match toolbar {
        Some(edge) => if shell.has_toolbar {
            Some(peel_toolbar(f, edge, thickness))
        } else {
            None
        },
        None => None,
    }
}

/// The zones by the steps in which they are cut off.
proof fn lemma_layout(
    shell: AppShell,
    screen: Rect,
    left: Option<&DockPanelState>,
    right: Option<&DockPanelState>,
    bottom: Option<&DockPanelState>,
    toolbar: Option<ToolbarEdge>,
    styles: &StyleResolver,
    px: Scalar,
    py: Scalar,
)
    ensures
        ({
            let z = shell.layout(screen, left, right, bottom, toolbar, styles);
            let sw = styles.scalar(StyleKey::DockSplitterWidth);
            let mh = styles.scalar(StyleKey::MenuRowHeight);
            let th = styles.scalar(StyleKey::DockTabHeight);
            let thickness = styles.scalar(StyleKey::ToolbarButtonSize).plus(
                styles.scalar(StyleKey::ToolbarPadding).times(whole(2)),
            );
            let c = inner(shell, screen, mh, th);
            let low = low_peel(c, bottom, sw);
            let d = left_over(c, low);
            let near = near_peel(d, left, sw);
            let e = left_over(d, near);
            let far = far_peel(e, right, sw);
            let f = left_over(e, far);
            let bar = bar_peel(shell, f, toolbar, thickness);
            &&& hold_in(z.menu_bar, px, py) + hold_in(z.doc_tabs, px, py) + hold_in(
                z.status_bar,
                px,
                py,
            ) == hold_bars(shell, screen, mh, th, px, py)
            &&& hold_in(z.bottom_dock, px, py) + hold_in(z.bottom_splitter, px, py) == hold_dock(
                low,
                px,
                py,
            )
            &&& hold_in(z.left_dock, px, py) + hold_in(z.left_splitter, px, py) == hold_dock(
                near,
                px,
                py,
            )
            &&& hold_in(z.right_dock, px, py) + hold_in(z.right_splitter, px, py) == hold_dock(
                far,
                px,
                py,
            )
            &&& bar matches Some(p) ==> z.toolbar == Some(p.strip) && z.viewport == p.rest
            &&& bar is None ==> z.toolbar is None && z.viewport == f
        }),
{
}

/// The zones of the shell tile the screen: every point of it is in exactly one zone, and
/// no zone reaches beyond it.
pub proof fn law_zones_tile_the_screen(
    shell: AppShell,
    screen: Rect,
    left: Option<&DockPanelState>,
    right: Option<&DockPanelState>,
    bottom: Option<&DockPanelState>,
    toolbar: Option<ToolbarEdge>,
    styles: &StyleResolver,
    x: int,
    y: int,
    w: int,
    h: int,
    menu: int,
    tabs: int,
    split: int,
    button: int,
    pad: int,
    nl: int,
    nr: int,
    nb: int,
    px: Scalar,
    py: Scalar,
)
    requires
        crate::geometry::in_steps(screen, x, y, w, h),
        rounding::in_steps(styles.scalar(StyleKey::MenuRowHeight), menu),
        rounding::in_steps(styles.scalar(StyleKey::DockTabHeight), tabs),
        rounding::in_steps(styles.scalar(StyleKey::DockSplitterWidth), split),
        rounding::in_steps(styles.scalar(StyleKey::ToolbarButtonSize), button),
        rounding::in_steps(styles.scalar(StyleKey::ToolbarPadding), pad),
        0 <= menu,
        0 <= tabs,
        0 <= split <= 0x40_0000,
        0 <= button <= 0x40_0000,
        0 <= pad <= 0x40_0000,
        0 <= w,
        menu + tabs + 6656 <= h,
        wants(left, nl),
        wants(right, nr),
        wants(bottom, nb),
        px.is_finite(),
        py.is_finite(),
    ensures
        ({
            let z = shell.layout(screen, left, right, bottom, toolbar, styles);
            hold(screen, px, py) == hold_in(z.menu_bar, px, py) + hold_in(z.doc_tabs, px, py) + hold_in(
                z.status_bar,
                px,
                py,
            ) + hold_in(z.bottom_dock, px, py) + hold_in(z.bottom_splitter, px, py) + hold_in(
                z.left_dock,
                px,
                py,
            ) + hold_in(z.left_splitter, px, py) + hold_in(z.right_dock, px, py) + hold_in(
                z.right_splitter,
                px,
                py,
            ) + hold_in(z.toolbar, px, py) + hold(z.viewport, px, py)
        }),
{
    let sw = styles.scalar(StyleKey::DockSplitterWidth);
    let mh = styles.scalar(StyleKey::MenuRowHeight);
    let th = styles.scalar(StyleKey::DockTabHeight);
    let pads = styles.scalar(StyleKey::ToolbarPadding);
    let thickness = styles.scalar(StyleKey::ToolbarButtonSize).plus(pads.times(whole(2)));
    lemma_layout(shell, screen, left, right, bottom, toolbar, styles, px, py);
    let (yb, hc) = lemma_bars(shell, screen, mh, th, x, y, w, h, menu, tabs, px, py);
    let c = inner(shell, screen, mh, th);
    let (xf, wf, hf) = lemma_docks(
        c,
        left,
        right,
        bottom,
        sw,
        x,
        yb,
        w,
        hc,
        split,
        nl,
        nr,
        nb,
        px,
        py,
    );
    let d = left_over(c, low_peel(c, bottom, sw));
    let e = left_over(d, near_peel(d, left, sw));
    let f = left_over(e, far_peel(e, right, sw));
    rounding::law_times_commutes(pads, whole(2));
    rounding::law_whole_times_steps(2, pads, pad);
    rounding::law_plus_steps(
        styles.scalar(StyleKey::ToolbarButtonSize),
        pads.times(whole(2)),
        button,
        2 * pad,
    );
    if bar_peel(shell, f, toolbar, thickness) is Some {
        law_toolbar_cuts_off(f, toolbar->0, thickness, xf, yb, wf, hf, button + 2 * pad, px, py);
    }
}

/// Dragging a splitter moves the edge of its dock along with it: the left dock grows as
/// the splitter goes right and the right dock shrinks, the bottom dock shrinks as it goes
/// down, by as much, within the dock's range.
pub proof fn law_splitter_drags_the_edge(side: DockSide, state: DockPanelState, delta: Scalar, n: int, d: int, low: int, high: int)
    requires
        rounding::in_steps(state.size, n),
        rounding::in_steps(delta, d),
        rounding::in_steps(state.min_size, low),
        rounding::in_steps(state.max_size, high),
        low <= high,
        rounding::size(n) + rounding::size(d) <= 0x40_0000,
    ensures
        ({
            let to = if side == DockSide::Left {
                n + d
            } else {
                n - d
            };
            let r = resized(side, state, delta);
            &&& low <= to <= high ==> rounding::in_steps(r.size, to)
            &&& to < low ==> rounding::in_steps(r.size, low)
            &&& to > high ==> rounding::in_steps(r.size, high)
            &&& r.visible == state.visible && r.min_size == state.min_size && r.max_size
                == state.max_size
        }),
{
    rounding::law_plus_steps(state.size, delta, n, d);
    rounding::law_minus_steps(state.size, delta, n, d);
    let a = state.size.plus(delta);
    let b = state.size.minus(delta);
    rounding::law_steps_compare(a, state.min_size, n + d, low);
    rounding::law_steps_compare(state.max_size, a, high, n + d);
    rounding::law_steps_compare(b, state.min_size, n - d, low);
    rounding::law_steps_compare(state.max_size, b, high, n - d);
}

} // verus!
