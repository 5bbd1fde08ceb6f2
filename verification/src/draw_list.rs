//! The draw list: what a frame paints, in order.
//!
//! Shapes are recorded as *instances* (rectangles and circles that a shader
//! rasterizes) while the transform in force only moves, and as triangles (the
//! *soup*) otherwise. The command stream keeps the two interleaved in the order
//! in which they were drawn.

use crate::affine::{Affine2, Corners};
use crate::geometry::{Color, Point, Rect};
use crate::scalar::{ratio, whole, Scalar};
use crate::text::{TextBlock, TextView};
use vstd::prelude::*;

verus! {

/// A colored corner of a triangle.
#[derive(Clone, Copy, Debug, PartialEq, Eq, Structural)]
pub struct Vertex {
    /// Position on the screen.
    pub position: Point,
    /// Color, tint applied.
    pub color: Color,
    /// Clip rect, where `clip_enabled` is 1.
    pub clip: Rect,
    /// 1 where the vertex is clipped, else 0.
    pub clip_enabled: Scalar,
}

/// A rounded rectangle with a fill and a border.
#[derive(Clone, Copy, Debug, PartialEq, Eq, Structural)]
pub struct ChromeInstance {
    /// Position and size on the screen.
    pub rect: Rect,
    /// Fill at the top edge, tint applied.
    pub bg: Color,
    /// Fill at the bottom edge, tint applied.
    pub bg2: Color,
    /// Border color, tint applied.
    pub border: Color,
    /// Clip rect, where `clip_enabled` is 1.
    pub clip: Rect,
    /// Corner radius.
    pub radius: Scalar,
    /// Border thickness.
    pub thickness: Scalar,
    /// 1 where the rectangle is clipped, else 0.
    pub clip_enabled: Scalar,
}

/// A disc, or a ring where `thickness` is positive.
#[derive(Clone, Copy, Debug, PartialEq, Eq, Structural)]
pub struct CircleInstance {
    /// Center on the screen.
    pub center: Point,
    /// Radius; of the middle of the band, for a ring.
    pub radius: Scalar,
    /// Width of the band.
    pub thickness: Scalar,
    /// Color, tint applied.
    pub color: Color,
    /// Clip rect, where `clip_enabled` is 1.
    pub clip: Rect,
    /// 1 where the circle is clipped, else 0.
    pub clip_enabled: Scalar,
}

/// A part of an image, in fractions of its size.
#[derive(Clone, Copy, Debug, PartialEq, Eq, Structural)]
pub struct Uv {
    /// Left.
    pub u0: Scalar,
    /// Top.
    pub v0: Scalar,
    /// Right.
    pub u1: Scalar,
    /// Bottom.
    pub v1: Scalar,
}

/// A color for each corner of a rectangle.
#[derive(Clone, Copy, Debug, PartialEq, Eq, Structural)]
pub struct Shades {
    /// Top left.
    pub tl: Color,
    /// Top right.
    pub tr: Color,
    /// Bottom right.
    pub br: Color,
    /// Bottom left.
    pub bl: Color,
}

/// An image of the atlas, by number.
pub type SpriteId = u32;

/// A nine-slice panel, by number.
pub type NineSliceId = u32;

/// A glyph of an icon font, by number.
pub type IconGlyph = u64;

/// An image to draw.
#[derive(Debug, Clone)]
pub struct IconDraw {
    /// Corners on the screen.
    pub corners: Corners,
    /// The image, where its number is known.
    pub sprite: Option<SpriteId>,
    /// The image's name, to look it up by.
    pub icon_key: String,
    /// Multiplied with the image.
    pub tint: Color,
    /// Clip rect.
    pub clip: Option<Rect>,
    /// The part of the image to draw, all of it where there is none.
    pub src: Option<Uv>,
    /// `src` counts tiles, and the image repeats.
    pub wrap: bool,
}

/// A nine-slice panel to draw.
#[derive(Debug, Clone)]
pub struct NineSliceDraw {
    /// Rectangle before the transform.
    pub local: Rect,
    /// The transform.
    pub transform: Affine2,
    /// The panel, where its number is known.
    pub nine_slice: Option<NineSliceId>,
    /// The panel's name, to look it up by.
    pub texture_key: String,
    /// Multiplied with the panel.
    pub tint: Color,
    /// Clip rect.
    pub clip: Option<Rect>,
}

/// A vector icon to draw, fitted into its rectangle.
#[derive(Clone, Copy, Debug, PartialEq, Eq, Structural)]
pub struct IconMsdf {
    /// Rectangle before the transform.
    pub local: Rect,
    /// The transform.
    pub transform: Affine2,
    /// Which icon.
    pub glyph: IconGlyph,
    /// Multiplied with the icon.
    pub tint: Color,
    /// Clip rect.
    pub clip: Option<Rect>,
}

/// What a command of the stream draws.
#[derive(Clone, Copy, Debug, PartialEq, Eq, Structural)]
pub enum PaintKind {
    /// Positions of the index buffer.
    Soup,
    /// Chrome instances.
    Chrome,
    /// Circle instances.
    Circle,
    /// Nine-slice panels.
    NineSlice,
    /// Images.
    Icon,
    /// Vector icons.
    IconMsdf,
    /// Text blocks.
    Text,
}

/// One command of the stream: draw `start..end` of one buffer.
#[derive(Clone, Copy, Debug, PartialEq, Eq, Structural)]
pub struct PaintCmd {
    /// Which buffer.
    pub kind: PaintKind,
    /// First element.
    pub start: u32,
    /// Element after the last.
    pub end: u32,
}

/// How many elements each buffer holds.
#[derive(Clone, Copy, Debug, PartialEq, Eq, Structural)]
pub struct PrimCounts {
    /// Soup vertices.
    pub vertices: usize,
    /// Soup indices.
    pub indices: usize,
    /// Text blocks.
    pub texts: usize,
    /// Images.
    pub icons: usize,
    /// Nine-slice panels.
    pub nine_slices: usize,
    /// Vector icons.
    pub icons_msdf: usize,
    /// Chrome instances.
    pub chrome_instances: usize,
    /// Circle instances.
    pub circle_instances: usize,
    /// Shapes refused for want of a positive size.
    pub dropped_degenerate: usize,
}

/// A named span of the list.
#[derive(Debug, Clone, PartialEq)]
pub struct DebugScope {
    /// Label.
    pub name: String,
    /// The scope around it.
    pub parent: Option<usize>,
    /// How many scopes are around it.
    pub depth: usize,
    /// The box it said it would paint into, on the screen.
    pub declared: Option<Rect>,
    /// The clip in force when it was opened.
    pub clip: Option<Rect>,
    /// The buffers when it was opened.
    pub start: PrimCounts,
    /// The buffers when it was closed.
    pub end: PrimCounts,
    /// Whether it was closed.
    pub closed: bool,
}

/// Directions on the unit circle, for shapes that are cut into triangles.
#[derive(Debug)]
pub struct Trig {
    /// The nine directions of each quarter turn, four quarters one after the
    /// other: the top-left corner, the top-right, the bottom-right and the
    /// bottom-left.
    pub corners: Vec<Point>,
    /// For each number of segments from 16 to 64, the directions of a disc.
    pub discs: Vec<Vec<Point>>,
    /// For each number of segments from 16 to 64, the directions of a ring.
    pub rings: Vec<Vec<Point>>,
}

/// The shapes of a frame, and the stacks that act on shapes as they are drawn.
#[derive(Debug)]
pub struct DrawList {
    /// Soup vertices.
    pub vertices: Vec<Vertex>,
    /// Soup triangles, by vertex.
    pub indices: Vec<u32>,
    /// Text blocks.
    pub texts: Vec<TextBlock>,
    /// Images.
    pub icons: Vec<IconDraw>,
    /// Nine-slice panels.
    pub nine_slices: Vec<NineSliceDraw>,
    /// Vector icons.
    pub icons_msdf: Vec<IconMsdf>,
    /// Rectangles.
    pub chrome_instances: Vec<ChromeInstance>,
    /// Circles.
    pub circle_instances: Vec<CircleInstance>,
    /// The command stream.
    pub paint_cmds: Vec<PaintCmd>,
    /// How many soup indices the stream draws.
    pub soup_committed_indices: u32,
    /// Clips, the innermost last.
    pub clip_stack: Vec<Rect>,
    /// Clips that are windows onto larger contents.
    pub viewport_clips: Vec<Rect>,
    /// Transforms, the one in force last.
    pub transform_stack: Vec<Affine2>,
    /// Tints, the one in force last.
    pub tint_stack: Vec<Color>,
    /// Debug scopes, in the order they were opened.
    pub debug_scopes: Vec<DebugScope>,
    /// Those still open, the innermost last.
    pub debug_scope_stack: Vec<usize>,
    /// Shapes refused for want of a positive size.
    pub dropped_degenerate: u32,
    /// Text was drawn turned or sheared, which it is not set.
    pub text_rotation_warned: bool,
    /// Directions on the unit circle.
    pub trig: Trig,
    /// Which list this is.
    pub id: u64,
}

/// What an [`IconDraw`] holds.
#[verifier::ext_equal]
pub struct IconView {
    /// Corners on the screen.
    pub corners: Corners,
    /// The image's number.
    pub sprite: Option<SpriteId>,
    /// The image's name.
    pub icon_key: Seq<char>,
    /// Multiplied with the image.
    pub tint: Color,
    /// Clip rect.
    pub clip: Option<Rect>,
    /// The part of the image to draw.
    pub src: Option<Uv>,
    /// The image repeats.
    pub wrap: bool,
}

/// What a [`NineSliceDraw`] holds.
#[verifier::ext_equal]
pub struct NineSliceView {
    /// Rectangle before the transform.
    pub local: Rect,
    /// The transform.
    pub transform: Affine2,
    /// The panel's number.
    pub nine_slice: Option<NineSliceId>,
    /// The panel's name.
    pub texture_key: Seq<char>,
    /// Multiplied with the panel.
    pub tint: Color,
    /// Clip rect.
    pub clip: Option<Rect>,
}

/// What a [`DebugScope`] holds.
#[verifier::ext_equal]
pub struct ScopeView {
    /// Label.
    pub name: Seq<char>,
    /// The scope around it.
    pub parent: Option<usize>,
    /// How many scopes are around it.
    pub depth: usize,
    /// The box it said it would paint into.
    pub declared: Option<Rect>,
    /// The clip in force when it was opened.
    pub clip: Option<Rect>,
    /// The buffers when it was opened.
    pub start: PrimCounts,
    /// The buffers when it was closed.
    pub end: PrimCounts,
    /// Whether it was closed.
    pub closed: bool,
}

/// What a [`Trig`] holds.
#[verifier::ext_equal]
pub struct TrigView {
    /// Quarter turns.
    pub corners: Seq<Point>,
    /// Discs.
    pub discs: Seq<Seq<Point>>,
    /// Rings.
    pub rings: Seq<Seq<Point>>,
}

/// What a [`DrawList`] holds.
#[verifier::ext_equal]
pub struct DrawState {
    /// Soup vertices.
    pub vertices: Seq<Vertex>,
    /// Soup triangles.
    pub indices: Seq<u32>,
    /// Text blocks.
    pub texts: Seq<TextView>,
    /// Images.
    pub icons: Seq<IconView>,
    /// Nine-slice panels.
    pub nine_slices: Seq<NineSliceView>,
    /// Vector icons.
    pub icons_msdf: Seq<IconMsdf>,
    /// Rectangles.
    pub chrome: Seq<ChromeInstance>,
    /// Circles.
    pub circles: Seq<CircleInstance>,
    /// The command stream.
    pub cmds: Seq<PaintCmd>,
    /// How many soup indices the stream draws.
    pub committed: u32,
    /// Clips.
    pub clips: Seq<Rect>,
    /// Viewport clips.
    pub viewports: Seq<Rect>,
    /// Transforms.
    pub transforms: Seq<Affine2>,
    /// Tints.
    pub tints: Seq<Color>,
    /// Debug scopes.
    pub scopes: Seq<ScopeView>,
    /// Open debug scopes.
    pub open: Seq<usize>,
    /// Refused shapes.
    pub dropped: u32,
    /// Text was drawn turned or sheared.
    pub text_warned: bool,
    /// Directions on the unit circle.
    pub trig: TrigView,
    /// Which list this is.
    pub id: u64,
}

impl View for IconDraw {
    type V = IconView;

    open spec fn view(&self) -> IconView {
        IconView {
            corners: self.corners,
            sprite: self.sprite,
            icon_key: self.icon_key@,
            tint: self.tint,
            clip: self.clip,
            src: self.src,
            wrap: self.wrap,
        }
    }
}

impl View for NineSliceDraw {
    type V = NineSliceView;

    open spec fn view(&self) -> NineSliceView {
        NineSliceView {
            local: self.local,
            transform: self.transform,
            nine_slice: self.nine_slice,
            texture_key: self.texture_key@,
            tint: self.tint,
            clip: self.clip,
        }
    }
}

impl View for DebugScope {
    type V = ScopeView;

    open spec fn view(&self) -> ScopeView {
        ScopeView {
            name: self.name@,
            parent: self.parent,
            depth: self.depth,
            declared: self.declared,
            clip: self.clip,
            start: self.start,
            end: self.end,
            closed: self.closed,
        }
    }
}

/// What a list of direction lists holds.
pub open spec fn rows(v: Seq<Vec<Point>>) -> Seq<Seq<Point>> {
    Seq::new(v.len(), |i: int| v[i]@)
}

impl View for Trig {
    type V = TrigView;

    open spec fn view(&self) -> TrigView {
        TrigView { corners: self.corners@, discs: rows(self.discs@), rings: rows(self.rings@) }
    }
}

/// What a list of text blocks holds.
pub open spec fn text_views(v: Seq<TextBlock>) -> Seq<TextView> {
    Seq::new(v.len(), |i: int| v[i]@)
}

/// What a list of images holds.
pub open spec fn icon_views(v: Seq<IconDraw>) -> Seq<IconView> {
    Seq::new(v.len(), |i: int| v[i]@)
}

/// What a list of panels holds.
pub open spec fn nine_slice_views(v: Seq<NineSliceDraw>) -> Seq<NineSliceView> {
    Seq::new(v.len(), |i: int| v[i]@)
}

/// What a list of scopes holds.
pub open spec fn scope_views(v: Seq<DebugScope>) -> Seq<ScopeView> {
    Seq::new(v.len(), |i: int| v[i]@)
}

impl View for DrawList {
    type V = DrawState;

    open spec fn view(&self) -> DrawState {
        DrawState {
            vertices: self.vertices@,
            indices: self.indices@,
            texts: text_views(self.texts@),
            icons: icon_views(self.icons@),
            nine_slices: nine_slice_views(self.nine_slices@),
            icons_msdf: self.icons_msdf@,
            chrome: self.chrome_instances@,
            circles: self.circle_instances@,
            cmds: self.paint_cmds@,
            committed: self.soup_committed_indices,
            clips: self.clip_stack@,
            viewports: self.viewport_clips@,
            transforms: self.transform_stack@,
            tints: self.tint_stack@,
            scopes: scope_views(self.debug_scopes@),
            open: self.debug_scope_stack@,
            dropped: self.dropped_degenerate,
            text_warned: self.text_rotation_warned,
            trig: self.trig@,
            id: self.id,
        }
    }
}

impl PrimCounts {
    pub open spec fn spec_zero() -> PrimCounts {
        PrimCounts {
            vertices: 0,
            indices: 0,
            texts: 0,
            icons: 0,
            nine_slices: 0,
            icons_msdf: 0,
            chrome_instances: 0,
            circle_instances: 0,
            dropped_degenerate: 0,
        }
    }

    /// How many primitives: each soup triangle once, and each element of the
    /// other buffers.
    pub open spec fn sum(self) -> int {
        self.indices / 3 + self.texts + self.icons + self.nine_slices + self.icons_msdf
            + self.chrome_instances + self.circle_instances
    }

    /// How many primitives: each soup triangle once, and each element of the
    /// other buffers.
    pub fn total(&self) -> (r: usize)
        requires
            self.sum() <= usize::MAX,
        ensures
            r == self.sum(),
    {
        self.indices / 3 + self.texts + self.icons + self.nine_slices + self.icons_msdf
            + self.chrome_instances + self.circle_instances
    }

    pub open spec fn spec_since(&self, earlier: PrimCounts) -> PrimCounts {
        PrimCounts {
            vertices: less(self.vertices, earlier.vertices),
            indices: less(self.indices, earlier.indices),
            texts: less(self.texts, earlier.texts),
            icons: less(self.icons, earlier.icons),
            nine_slices: less(self.nine_slices, earlier.nine_slices),
            icons_msdf: less(self.icons_msdf, earlier.icons_msdf),
            chrome_instances: less(self.chrome_instances, earlier.chrome_instances),
            circle_instances: less(self.circle_instances, earlier.circle_instances),
            dropped_degenerate: less(self.dropped_degenerate, earlier.dropped_degenerate),
        }
    }

    /// What was added since `earlier`, buffer by buffer; never less than
    /// nothing.
    #[verifier::when_used_as_spec(spec_since)]
    pub fn since(&self, earlier: PrimCounts) -> (r: PrimCounts)
        ensures
            r == self.spec_since(earlier),
    {
        PrimCounts {
            vertices: self.vertices.saturating_sub(earlier.vertices),
            indices: self.indices.saturating_sub(earlier.indices),
            texts: self.texts.saturating_sub(earlier.texts),
            icons: self.icons.saturating_sub(earlier.icons),
            nine_slices: self.nine_slices.saturating_sub(earlier.nine_slices),
            icons_msdf: self.icons_msdf.saturating_sub(earlier.icons_msdf),
            chrome_instances: self.chrome_instances.saturating_sub(earlier.chrome_instances),
            circle_instances: self.circle_instances.saturating_sub(earlier.circle_instances),
            dropped_degenerate: self.dropped_degenerate.saturating_sub(earlier.dropped_degenerate),
        }
    }

    /// Whether there is no primitive at all.
    pub fn is_empty(&self) -> (r: bool)
        requires
            self.sum() <= usize::MAX,
        ensures
            r == (self.sum() == 0),
    {
        self.total() == 0
    }
}

/// `a - b`, or 0 where that is negative.
pub open spec fn less(a: usize, b: usize) -> usize {
    if a >= b {
        (a - b) as usize
    } else {
        0
    }
}

impl Default for PrimCounts {
    fn default() -> (r: Self)
        ensures
            r == PrimCounts::spec_zero(),
    {
        PrimCounts {
            vertices: 0,
            indices: 0,
            texts: 0,
            icons: 0,
            nine_slices: 0,
            icons_msdf: 0,
            chrome_instances: 0,
            circle_instances: 0,
            dropped_degenerate: 0,
        }
    }
}

impl DebugScope {
    /// What was drawn inside the scope, scopes within it included.
    pub fn counts(&self) -> (r: PrimCounts)
        ensures
            r == self.end.since(self.start),
    {
        self.end.since(self.start)
    }
}

impl Vertex {
    pub open spec fn spec_new(x: Scalar, y: Scalar, color: Color) -> Vertex {
        Vertex {
            position: Point { x, y },
            color,
            clip: Rect { x: whole(0), y: whole(0), width: whole(0), height: whole(0) },
            clip_enabled: whole(0),
        }
    }

    /// An unclipped vertex.
    #[verifier::when_used_as_spec(spec_new)]
    pub fn new(x: Scalar, y: Scalar, color: Color) -> (r: Vertex)
        ensures
            r == Self::spec_new(x, y, color),
    {
        Vertex {
            position: Point { x, y },
            color,
            clip: Rect { x: whole(0), y: whole(0), width: whole(0), height: whole(0) },
            clip_enabled: whole(0),
        }
    }

    pub open spec fn spec_with_clip(self, clip: Option<Rect>) -> Vertex {
        match clip {
            Some(clip) => Vertex { clip, clip_enabled: whole(1), ..self },
            None => self,
        }
    }

    /// Clipped to `clip`, where there is one.
    #[verifier::when_used_as_spec(spec_with_clip)]
    pub fn with_clip(self, clip: Option<Rect>) -> (r: Vertex)
        ensures
            r == self.spec_with_clip(clip),
    {
        match clip {
            Some(clip) => Vertex {
                position: self.position,
                color: self.color,
                clip,
                clip_enabled: whole(1),
            },
            None => self,
        }
    }
}

impl Default for Vertex {
    /// All numbers zero.
    fn default() -> (r: Self)
        ensures
            r == Vertex::new(whole(0), whole(0), Color::clear()),
    {
        Vertex::new(whole(0), whole(0), Color::clear())
    }
}

impl Default for ChromeInstance {
    /// All numbers zero.
    fn default() -> (r: Self)
        ensures
            r == (ChromeInstance {
                rect: Rect::zero(),
                bg: Color::clear(),
                bg2: Color::clear(),
                border: Color::clear(),
                clip: Rect::zero(),
                radius: whole(0),
                thickness: whole(0),
                clip_enabled: whole(0),
            }),
    {
        ChromeInstance {
            rect: Rect::zero(),
            bg: Color::clear(),
            bg2: Color::clear(),
            border: Color::clear(),
            clip: Rect::zero(),
            radius: whole(0),
            thickness: whole(0),
            clip_enabled: whole(0),
        }
    }
}

impl Default for CircleInstance {
    /// All numbers zero.
    fn default() -> (r: Self)
        ensures
            r == (CircleInstance {
                center: Point::zero(),
                radius: whole(0),
                thickness: whole(0),
                color: Color::clear(),
                clip: Rect::zero(),
                clip_enabled: whole(0),
            }),
    {
        CircleInstance {
            center: Point::zero(),
            radius: whole(0),
            thickness: whole(0),
            color: Color::clear(),
            clip: Rect::zero(),
            clip_enabled: whole(0),
        }
    }
}

/// Hands out list identities, each once.
#[derive(Debug)]
pub struct DrawListIds {
    /// The next identity.
    pub next: u64,
}

impl DrawListIds {
    /// The first identity is 1.
    pub fn new() -> (r: Self)
        ensures
            r.next == 1,
    {
        DrawListIds { next: 1 }
    }

    /// The identity that is handed out after `n` others.
    pub open spec fn nth(self, n: nat) -> int {
        self.next + n
    }

    /// The next identity, never handed out again.
    pub fn next_draw_list_id(&mut self) -> (r: u64)
        requires
            old(self).next < u64::MAX,
        ensures
            r == old(self).nth(0),
            forall|n: nat| final(self).nth(n) == #[trigger] old(self).nth(n + 1),
    {
        let id: u64 = self.next;
        self.next = id + 1;
        id
    }
}

/// No two lists get the same identity.
pub proof fn law_identities_are_distinct(ids: DrawListIds, a: nat, b: nat)
    requires
        a != b,
    ensures
        ids.nth(a) != ids.nth(b),
{
}

// ---- What each operation does to the state ----

pub open spec fn spec_clip_parts(clip: Option<Rect>) -> (Rect, Scalar) {
    match clip {
        Some(c) => (c, whole(1)),
        None => (
            Rect { x: whole(0), y: whole(0), width: whole(0), height: whole(0) },
            whole(0),
        ),
    }
}

/// The clip rect of an instance, and whether it applies.
#[verifier::when_used_as_spec(spec_clip_parts)]
pub fn clip_parts(clip: Option<Rect>) -> (r: (Rect, Scalar))
    ensures
        r == spec_clip_parts(clip),
{
    match clip {
        Some(c) => (c, whole(1)),
        None => (
            Rect { x: whole(0), y: whole(0), width: whole(0), height: whole(0) },
            whole(0),
        ),
    }
}

pub open spec fn spec_polar(center: Point, radius: Scalar, dir: Point) -> Point {
    Point { x: center.x.plus(dir.x.times(radius)), y: center.y.plus(dir.y.times(radius)) }
}

/// The point at `radius` from `center` in the direction `dir`.
#[verifier::when_used_as_spec(spec_polar)]
pub fn polar(center: Point, radius: Scalar, dir: Point) -> (r: Point)
    ensures
        r == spec_polar(center, radius, dir),
{
    Point { x: center.x.plus(dir.x.times(radius)), y: center.y.plus(dir.y.times(radius)) }
}

/// Direction `i` of a list; the origin where the list is too short.
pub open spec fn dir_at(dirs: Seq<Point>, i: int) -> Point {
    if 0 <= i < dirs.len() {
        dirs[i]
    } else {
        Point::zero()
    }
}

/// List `i` of lists; an empty one where there are too few.
pub open spec fn row_at(lists: Seq<Seq<Point>>, i: int) -> Seq<Point> {
    if 0 <= i < lists.len() {
        lists[i]
    } else {
        Seq::empty()
    }
}

pub open spec fn spec_circle_segments(radius: Scalar) -> u64 {
    let n = radius.times(ratio(1, 2)).ceiled(64);
    if n < 16 {
        16
    } else {
        n
    }
}

/// How many segments a circle of this radius is cut into.
#[verifier::when_used_as_spec(spec_circle_segments)]
pub fn circle_segments(radius: Scalar) -> (r: u64)
    ensures
        r == spec_circle_segments(radius),
        16 <= r <= 64,
{
    let n: u64 = radius.times(ratio(1, 2)).ceiled(64);
    if n < 16 {
        16
    } else {
        n
    }
}

impl DrawState {
    /// An empty list.
    pub open spec fn fresh(trig: TrigView, id: u64) -> DrawState {
        DrawState {
            vertices: Seq::empty(),
            indices: Seq::empty(),
            texts: Seq::empty(),
            icons: Seq::empty(),
            nine_slices: Seq::empty(),
            icons_msdf: Seq::empty(),
            chrome: Seq::empty(),
            circles: Seq::empty(),
            cmds: Seq::empty(),
            committed: 0,
            clips: Seq::empty(),
            viewports: Seq::empty(),
            transforms: seq![Affine2::identity()],
            tints: seq![Color::white(whole(1))],
            scopes: Seq::empty(),
            open: Seq::empty(),
            dropped: 0,
            text_warned: false,
            trig,
            id,
        }
    }

    /// The clip in force.
    pub open spec fn clip(self) -> Option<Rect> {
        if self.clips.len() > 0 {
            Some(self.clips.last())
        } else {
            None
        }
    }

    /// The transform in force.
    pub open spec fn transform(self) -> Affine2 {
        if self.transforms.len() > 0 {
            self.transforms.last()
        } else {
            Affine2::identity()
        }
    }

    /// The tint in force.
    pub open spec fn tint(self) -> Color {
        if self.tints.len() > 0 {
            self.tints.last()
        } else {
            Color::white(whole(1))
        }
    }

    /// How many elements each buffer holds.
    pub open spec fn counts(self) -> PrimCounts {
        PrimCounts {
            vertices: self.vertices.len() as usize,
            indices: self.indices.len() as usize,
            texts: self.texts.len() as usize,
            icons: self.icons.len() as usize,
            nine_slices: self.nine_slices.len() as usize,
            icons_msdf: self.icons_msdf.len() as usize,
            chrome_instances: self.chrome.len() as usize,
            circle_instances: self.circles.len() as usize,
            dropped_degenerate: self.dropped as usize,
        }
    }

    /// One more refused shape.
    pub open spec fn refused(self) -> DrawState {
        DrawState { dropped: self.dropped.wrapping_add(1), ..self }
    }

    /// A vertex at a point of the list's own space.
    pub open spec fn vertex(self, p: Point, color: Color) -> Vertex {
        let at = self.transform().apply(p);
        Vertex::new(at.x, at.y, color.times(self.tint())).with_clip(self.clip())
    }

    /// A triangle in the soup.
    #[verifier::opaque]
    pub open spec fn triangle(
        self,
        p0: Point,
        p1: Point,
        p2: Point,
        c0: Color,
        c1: Color,
        c2: Color,
    ) -> DrawState {
        let base = self.vertices.len() as u32;
        DrawState {
            vertices: self.vertices.push(self.vertex(p0, c0)).push(self.vertex(p1, c1)).push(
                self.vertex(p2, c2),
            ),
            indices: self.indices.push(base).push(base.wrapping_add(1)).push(base.wrapping_add(2)),
            ..self
        }
    }

    /// Two triangles in the soup, over four corners in turn.
    #[verifier::opaque]
    pub open spec fn quadrangle(
        self,
        p0: Point,
        p1: Point,
        p2: Point,
        p3: Point,
        c0: Color,
        c1: Color,
        c2: Color,
        c3: Color,
    ) -> DrawState {
        let base = self.vertices.len() as u32;
        DrawState {
            vertices: self.vertices.push(self.vertex(p0, c0)).push(self.vertex(p1, c1)).push(
                self.vertex(p2, c2),
            ).push(self.vertex(p3, c3)),
            indices: self.indices.push(base).push(base.wrapping_add(1)).push(base.wrapping_add(2)).push(
                base.wrapping_add(2),
            ).push(base.wrapping_add(3)).push(base),
            ..self
        }
    }

    /// A command after the others; one that goes on where the last one of its
    /// kind ends makes that one longer.
    #[verifier::opaque]
    pub open spec fn commanded(self, cmd: PaintCmd) -> DrawState {
        if self.cmds.len() > 0 && self.cmds.last().kind == cmd.kind && self.cmds.last().end == cmd.start {
            let last = PaintCmd { end: cmd.end, ..self.cmds.last() };
            DrawState { cmds: self.cmds.update(self.cmds.len() - 1, last), ..self }
        } else {
            DrawState { cmds: self.cmds.push(cmd), ..self }
        }
    }

    /// The soup drawn so far put into the stream.
    #[verifier::opaque]
    pub open spec fn flushed(self) -> DrawState {
        let total = self.indices.len() as u32;
        if total > self.committed {
            let cmd = PaintCmd { kind: PaintKind::Soup, start: self.committed, end: total };
            DrawState { committed: total, ..self.commanded(cmd) }
        } else {
            self
        }
    }

    /// A rectangle instance after what was drawn before.
    #[verifier::opaque]
    pub open spec fn chrome_instance(
        self,
        rect: Rect,
        radius: Scalar,
        thickness: Scalar,
        bg: Color,
        bg2: Color,
        border: Color,
    ) -> DrawState {
        let s = self.flushed();
        let (clip, clip_enabled) = clip_parts(self.clip());
        let m = self.transform();
        let instance = ChromeInstance {
            rect: Rect {
                x: rect.x.plus(m.tx),
                y: rect.y.plus(m.ty),
                width: rect.width,
                height: rect.height,
            },
            bg: bg.times(self.tint()),
            bg2: bg2.times(self.tint()),
            border: border.times(self.tint()),
            clip,
            radius,
            thickness,
            clip_enabled,
        };
        let i = self.chrome.len() as u32;
        DrawState { chrome: self.chrome.push(instance), ..s }.commanded(
            PaintCmd { kind: PaintKind::Chrome, start: i, end: i.wrapping_add(1) },
        )
    }

    /// A circle instance after what was drawn before.
    #[verifier::opaque]
    pub open spec fn circle_instance(
        self,
        center: Point,
        radius: Scalar,
        thickness: Scalar,
        color: Color,
    ) -> DrawState {
        let s = self.flushed();
        let (clip, clip_enabled) = clip_parts(self.clip());
        let m = self.transform();
        let instance = CircleInstance {
            center: Point { x: center.x.plus(m.tx), y: center.y.plus(m.ty) },
            radius,
            thickness,
            color: color.times(self.tint()),
            clip,
            clip_enabled,
        };
        let i = self.circles.len() as u32;
        DrawState { circles: self.circles.push(instance), ..s }.commanded(
            PaintCmd { kind: PaintKind::Circle, start: i, end: i.wrapping_add(1) },
        )
    }

    /// A filled rectangle.
    #[verifier::opaque]
    pub open spec fn quad(self, rect: Rect, color: Color) -> DrawState {
        if rect.is_empty() {
            self.refused()
        } else if self.transform().is_translate_only() {
            self.chrome_instance(rect, whole(0), whole(0), color, color, color)
        } else {
            self.quad_soup(rect, Shades { tl: color, tr: color, br: color, bl: color })
        }
    }

    /// A rectangle as two triangles, each corner in its own color: top left, top
    /// right, bottom right, bottom left.
    #[verifier::opaque]
    pub open spec fn quad_soup(self, rect: Rect, colors: Shades) -> DrawState {
        self.quadrangle(
            Point { x: rect.x, y: rect.y },
            Point { x: rect.right(), y: rect.y },
            Point { x: rect.right(), y: rect.bottom() },
            Point { x: rect.x, y: rect.bottom() },
            colors.tl,
            colors.tr,
            colors.br,
            colors.bl,
        )
    }

    /// A rectangle whose color runs between its corners.
    #[verifier::opaque]
    pub open spec fn quad_gradient(self, rect: Rect, colors: Shades) -> DrawState {
        if rect.is_empty() {
            self.refused()
        } else {
            self.quad_soup(rect, colors)
        }
    }

    /// A rectangle whose color runs from left to right.
    pub open spec fn horizontal_gradient(self, rect: Rect, left: Color, right: Color) -> DrawState {
        self.quad_gradient(rect, Shades { tl: left, tr: right, br: right, bl: left })
    }

    /// A rectangle whose color runs from top to bottom.
    pub open spec fn vertical_gradient(self, rect: Rect, top: Color, bottom: Color) -> DrawState {
        self.quad_gradient(rect, Shades { tl: top, tr: top, br: bottom, bl: bottom })
    }

    /// The triangles of a sector: one for each of the first `n` pairs of
    /// neighboring directions.
    pub open spec fn fan(
        self,
        center: Point,
        radius: Scalar,
        dirs: Seq<Point>,
        from: int,
        n: nat,
        color: Color,
    ) -> DrawState
        decreases n,
    {
        if n == 0 {
            self
        } else {
            let i = from + n - 1;
            self.fan(center, radius, dirs, from, (n - 1) as nat, color).triangle(
                center,
                polar(center, radius, dir_at(dirs, i)),
                polar(center, radius, dir_at(dirs, i + 1)),
                color,
                color,
                color,
            )
        }
    }

    /// The triangles of a band: two for each of the first `n` pairs of
    /// neighboring directions.
    pub open spec fn band(
        self,
        center: Point,
        inner: Scalar,
        outer: Scalar,
        dirs: Seq<Point>,
        from: int,
        n: nat,
        color: Color,
    ) -> DrawState
        decreases n,
    {
        if n == 0 {
            self
        } else {
            let i = from + n - 1;
            let i0 = polar(center, inner, dir_at(dirs, i));
            let o0 = polar(center, outer, dir_at(dirs, i));
            let i1 = polar(center, inner, dir_at(dirs, i + 1));
            let o1 = polar(center, outer, dir_at(dirs, i + 1));
            self.band(center, inner, outer, dirs, from, (n - 1) as nat, color).triangle(
                i0,
                o0,
                o1,
                color,
                color,
                color,
            ).triangle(i0, o1, i1, color, color, color)
        }
    }

    /// A filled rectangle with rounded corners.
    #[verifier::opaque]
    pub open spec fn rounded_rect(self, rect: Rect, radius: Scalar, color: Color) -> DrawState {
        if radius.le(whole(0)) || rect.is_empty() {
            self.quad(rect, color)
        } else if self.transform().is_translate_only() {
            self.chrome_instance(rect, radius, whole(0), color, color, color)
        } else {
            self.rounded_soup(rect, radius, color)
        }
    }

    /// A filled rectangle with rounded corners, cut into five rectangles and
    /// four sectors.
    #[verifier::opaque]
    pub open spec fn rounded_soup(self, rect: Rect, radius: Scalar, color: Color) -> DrawState {
        let r = radius.at_most(rect.width.times(ratio(1, 2))).at_most(
            rect.height.times(ratio(1, 2)),
        );
        let x0 = rect.x;
        let y0 = rect.y;
        let x1 = rect.right();
        let y1 = rect.bottom();
        let w = rect.width.minus(r.times(whole(2)));
        let h = rect.height.minus(r.times(whole(2)));
        let dirs = self.trig.corners;
        let s = self.quad(Rect { x: x0.plus(r), y: y0.plus(r), width: w, height: h }, color);
        let s = s.quad(Rect { x: x0.plus(r), y: y0, width: w, height: r }, color);
        let s = s.quad(Rect { x: x0.plus(r), y: y1.minus(r), width: w, height: r }, color);
        let s = s.quad(Rect { x: x0, y: y0.plus(r), width: r, height: h }, color);
        let s = s.quad(Rect { x: x1.minus(r), y: y0.plus(r), width: r, height: h }, color);
        let s = s.fan(Point { x: x0.plus(r), y: y0.plus(r) }, r, dirs, 0, 8, color);
        let s = s.fan(Point { x: x1.minus(r), y: y0.plus(r) }, r, dirs, 9, 8, color);
        let s = s.fan(Point { x: x1.minus(r), y: y1.minus(r) }, r, dirs, 18, 8, color);
        s.fan(Point { x: x0.plus(r), y: y1.minus(r) }, r, dirs, 27, 8, color)
    }

    /// The outline of a rectangle, growing inwards.
    #[verifier::opaque]
    pub open spec fn rect_outline(self, rect: Rect, thickness: Scalar, color: Color) -> DrawState {
        if thickness.le(whole(0)) || rect.is_empty() {
            self.refused()
        } else if self.transform().is_translate_only() {
            self.stroke(rect, whole(0), thickness, color)
        } else {
            let t = thickness.at_most(rect.width.times(ratio(1, 2))).at_most(
                rect.height.times(ratio(1, 2)),
            );
            let inner = rect.height.minus(whole(2).times(t));
            let s = self.quad(Rect { x: rect.x, y: rect.y, width: rect.width, height: t }, color);
            let s = s.quad(
                Rect { x: rect.x, y: rect.y.plus(rect.height).minus(t), width: rect.width, height: t },
                color,
            );
            if whole(0).lt(inner) {
                let s = s.quad(
                    Rect { x: rect.x, y: rect.y.plus(t), width: t, height: inner },
                    color,
                );
                s.quad(
                    Rect { x: rect.right().minus(t), y: rect.y.plus(t), width: t, height: inner },
                    color,
                )
            } else {
                s
            }
        }
    }

    /// An outline as a rectangle instance with a transparent fill.
    pub open spec fn stroke(
        self,
        rect: Rect,
        radius: Scalar,
        thickness: Scalar,
        color: Color,
    ) -> DrawState {
        let clear = color.with_alpha(whole(0));
        self.chrome_instance(rect, radius, thickness, clear, clear, color)
    }

    /// The outline of a rectangle with rounded corners, growing inwards.
    #[verifier::opaque]
    pub open spec fn rounded_rect_outline(
        self,
        rect: Rect,
        radius: Scalar,
        thickness: Scalar,
        color: Color,
    ) -> DrawState {
        if thickness.le(whole(0)) || rect.is_empty() {
            self.refused()
        } else if radius.le(whole(0)) {
            self.rect_outline(rect, thickness, color)
        } else if self.transform().is_translate_only() {
            self.stroke(rect, radius, thickness, color)
        } else {
            self.outline_soup(rect, radius, thickness, color)
        }
    }

    /// A rounded outline cut into edges and bands.
    #[verifier::opaque]
    pub open spec fn outline_soup(
        self,
        rect: Rect,
        radius: Scalar,
        thickness: Scalar,
        color: Color,
    ) -> DrawState {
        let half_w = rect.width.times(ratio(1, 2));
        let half_h = rect.height.times(ratio(1, 2));
        let r = radius.at_most(half_w).at_most(half_h);
        let t = thickness.at_most(r).at_most(half_w).at_most(half_h);
        let x0 = rect.x;
        let y0 = rect.y;
        let x1 = rect.right();
        let y1 = rect.bottom();
        let span_w = rect.width.minus(r.times(whole(2)));
        let span_h = rect.height.minus(r.times(whole(2)));
        let inner = r.minus(t).at_least(whole(0));
        let dirs = self.trig.corners;
        let s = if whole(0).lt(span_w) {
            self.quad(Rect { x: x0.plus(r), y: y0, width: span_w, height: t }, color).quad(
                Rect { x: x0.plus(r), y: y1.minus(t), width: span_w, height: t },
                color,
            )
        } else {
            self
        };
        let s = if whole(0).lt(span_h) {
            s.quad(Rect { x: x0, y: y0.plus(r), width: t, height: span_h }, color).quad(
                Rect { x: x1.minus(t), y: y0.plus(r), width: t, height: span_h },
                color,
            )
        } else {
            s
        };
        let s = s.band(Point { x: x0.plus(r), y: y0.plus(r) }, inner, r, dirs, 0, 8, color);
        let s = s.band(Point { x: x1.minus(r), y: y0.plus(r) }, inner, r, dirs, 9, 8, color);
        let s = s.band(Point { x: x1.minus(r), y: y1.minus(r) }, inner, r, dirs, 18, 8, color);
        s.band(Point { x: x0.plus(r), y: y1.minus(r) }, inner, r, dirs, 27, 8, color)
    }

    /// A panel with a fill that runs from top to bottom, and a border.
    #[verifier::opaque]
    pub open spec fn chrome_rect_gradient(
        self,
        rect: Rect,
        radius: Scalar,
        thickness: Scalar,
        bg: Color,
        bg2: Color,
        border: Color,
    ) -> DrawState {
        if rect.is_empty() {
            self.refused()
        } else if self.transform().is_translate_only() {
            self.chrome_instance(rect, radius, thickness, bg, bg2, border)
        } else {
            let s = if whole(0).lt(radius) {
                self.rounded_rect(rect, radius, bg)
            } else {
                self.quad(rect, bg)
            };
            let s = s.vertical_gradient(rect, bg, bg2);
            if whole(0).lt(thickness) {
                s.rounded_rect_outline(rect, radius, thickness, border)
            } else {
                s
            }
        }
    }

    /// A panel with a flat fill and a border.
    pub open spec fn chrome_rect(
        self,
        rect: Rect,
        radius: Scalar,
        thickness: Scalar,
        bg: Color,
        border: Color,
    ) -> DrawState {
        self.chrome_rect_gradient(rect, radius, thickness, bg, bg, border)
    }

    /// A soft shadow around a floating surface: the surface's own rectangle,
    /// and a skirt that fades out around it, longer below than above.
    #[verifier::opaque]
    pub open spec fn drop_shadow(
        self,
        rect: Rect,
        offset_y: Scalar,
        blur: Scalar,
        radius: Scalar,
        color: Color,
    ) -> DrawState {
        if color.a.le(whole(0)) || blur.le(whole(0)) || rect.is_empty() {
            self.refused()
        } else {
            let zero = color.with_alpha(whole(0));
            let edge = color.with_alpha(color.a.times(ratio(35, 100)));
            let top = blur.minus(offset_y).at_least(whole(0));
            let bottom = blur.plus(offset_y).at_least(whole(0));
            let left_x = rect.x.minus(blur);
            let top_y = rect.y.minus(top);
            let s = self.chrome_rect(rect, radius, whole(0), color, Color::clear());
            let s = if whole(0).lt(top) {
                s.vertical_gradient(
                    Rect { x: rect.x, y: top_y, width: rect.width, height: top },
                    zero,
                    edge,
                )
            } else {
                s
            };
            let s = if whole(0).lt(bottom) {
                s.vertical_gradient(
                    Rect { x: rect.x, y: rect.bottom(), width: rect.width, height: bottom },
                    edge,
                    zero,
                )
            } else {
                s
            };
            let s = s.horizontal_gradient(
                Rect { x: left_x, y: rect.y, width: blur, height: rect.height },
                zero,
                edge,
            );
            let s = s.horizontal_gradient(
                Rect { x: rect.right(), y: rect.y, width: blur, height: rect.height },
                edge,
                zero,
            );
            let s = if whole(0).lt(top) {
                s.quad_gradient(
                    Rect { x: left_x, y: top_y, width: blur, height: top },
                    Shades { tl: zero, tr: zero, br: edge, bl: zero },
                ).quad_gradient(
                    Rect { x: rect.right(), y: top_y, width: blur, height: top },
                    Shades { tl: zero, tr: zero, br: zero, bl: edge },
                )
            } else {
                s
            };
            if whole(0).lt(bottom) {
                s.quad_gradient(
                    Rect { x: left_x, y: rect.bottom(), width: blur, height: bottom },
                    Shades { tl: zero, tr: edge, br: zero, bl: zero },
                ).quad_gradient(
                    Rect { x: rect.right(), y: rect.bottom(), width: blur, height: bottom },
                    Shades { tl: edge, tr: zero, br: zero, bl: zero },
                )
            } else {
                s
            }
        }
    }

    /// A thick line segment.
    #[verifier::opaque]
    pub open spec fn line(self, p0: Point, p1: Point, thickness: Scalar, color: Color) -> DrawState {
        let dx = p1.x.minus(p0.x);
        let dy = p1.y.minus(p0.y);
        let len = dx.times(dx).plus(dy.times(dy)).sqrt();
        if len.le(epsilon()) || thickness.le(whole(0)) {
            self.refused()
        } else {
            let half = thickness.times(ratio(1, 2));
            let ox = dy.negate().over(len).times(half);
            let oy = dx.over(len).times(half);
            self.quadrangle(
                Point { x: p0.x.plus(ox), y: p0.y.plus(oy) },
                Point { x: p1.x.plus(ox), y: p1.y.plus(oy) },
                Point { x: p1.x.minus(ox), y: p1.y.minus(oy) },
                Point { x: p0.x.minus(ox), y: p0.y.minus(oy) },
                color,
                color,
                color,
                color,
            )
        }
    }

    /// The first `n` segments of a line through several points.
    pub open spec fn polyline(self, points: Seq<Point>, n: nat, thickness: Scalar, color: Color) -> DrawState
        decreases n,
    {
        if n == 0 {
            self
        } else {
            self.polyline(points, (n - 1) as nat, thickness, color).line(
                points[n - 1],
                points[n as int],
                thickness,
                color,
            )
        }
    }

    /// A filled circle.
    #[verifier::opaque]
    pub open spec fn circle(self, center: Point, radius: Scalar, color: Color) -> DrawState {
        if radius.le(whole(0)) {
            self.refused()
        } else if self.transform().is_translate_only() {
            self.circle_instance(center, radius, whole(0), color)
        } else {
            let n = circle_segments(radius);
            self.fan(center, radius, row_at(self.trig.discs, n - 16), 0, n as nat, color)
        }
    }

    /// The outline of a circle, half of it on either side of the radius.
    #[verifier::opaque]
    pub open spec fn circle_outline(
        self,
        center: Point,
        radius: Scalar,
        thickness: Scalar,
        color: Color,
    ) -> DrawState {
        if radius.le(whole(0)) || thickness.le(whole(0)) {
            self.refused()
        } else if self.transform().is_translate_only() {
            self.circle_instance(center, radius, thickness, color)
        } else {
            let half = thickness.times(ratio(1, 2));
            let inner = radius.minus(half).at_least(whole(0));
            let outer = radius.plus(half);
            let n = circle_segments(outer);
            self.band(center, inner, outer, row_at(self.trig.rings, n - 16), 0, n as nat, color)
        }
    }
}

pub open spec fn spec_epsilon() -> Scalar {
    Scalar { bits: 0x3400_0000 }
}

/// The distance from 1 to the next scalar.
#[verifier::when_used_as_spec(spec_epsilon)]
pub fn epsilon() -> (r: Scalar)
    ensures
        r == spec_epsilon(),
{
    Scalar { bits: 0x3400_0000 }
}


// ---- The list itself ----

impl DrawList {
    /// An empty list that cuts circles along the directions `trig`.
    pub fn new(trig: Trig, id: u64) -> (r: Self)
        ensures
            r@ == DrawState::fresh(trig@, id),
    {
        let mut transforms: Vec<Affine2> = Vec::new();
        transforms.push(Affine2::identity());
        let mut tints: Vec<Color> = Vec::new();
        tints.push(Color::white(whole(1)));
        let r = DrawList {
            vertices: Vec::new(),
            indices: Vec::new(),
            texts: Vec::new(),
            icons: Vec::new(),
            nine_slices: Vec::new(),
            icons_msdf: Vec::new(),
            chrome_instances: Vec::new(),
            circle_instances: Vec::new(),
            paint_cmds: Vec::new(),
            soup_committed_indices: 0,
            clip_stack: Vec::new(),
            viewport_clips: Vec::new(),
            transform_stack: transforms,
            tint_stack: tints,
            debug_scopes: Vec::new(),
            debug_scope_stack: Vec::new(),
            dropped_degenerate: 0,
            text_rotation_warned: false,
            trig,
            id,
        };
        assert(r@ =~= DrawState::fresh(trig@, id));
        r
    }

    /// Which list this is; clearing keeps it.
    pub fn id(&self) -> (r: u64)
        ensures
            r == self@.id,
    {
        self.id
    }

    /// Empty the list, for the next frame. What was said of turned text stays said.
    pub fn clear(&mut self)
        ensures
            final(self)@ == (DrawState {
                text_warned: old(self)@.text_warned,
                ..DrawState::fresh(old(self)@.trig, old(self)@.id)
            }),
    {
        self.debug_scopes.clear();
        self.debug_scope_stack.clear();
        self.dropped_degenerate = 0;
        self.vertices.clear();
        self.indices.clear();
        self.texts.clear();
        self.icons.clear();
        self.nine_slices.clear();
        self.icons_msdf.clear();
        self.chrome_instances.clear();
        self.circle_instances.clear();
        self.paint_cmds.clear();
        self.soup_committed_indices = 0;
        self.clip_stack.clear();
        self.viewport_clips.clear();
        self.transform_stack.clear();
        self.transform_stack.push(Affine2::identity());
        self.tint_stack.clear();
        self.tint_stack.push(Color::white(whole(1)));
        assert(self@ =~= (DrawState {
            text_warned: old(self)@.text_warned,
            ..DrawState::fresh(old(self)@.trig, old(self)@.id)
        }));
    }

    /// How many elements each buffer holds.
    pub fn prim_counts(&self) -> (r: PrimCounts)
        ensures
            r == self@.counts(),
    {
        PrimCounts {
            vertices: self.vertices.len(),
            indices: self.indices.len(),
            texts: self.texts.len(),
            icons: self.icons.len(),
            nine_slices: self.nine_slices.len(),
            icons_msdf: self.icons_msdf.len(),
            chrome_instances: self.chrome_instances.len(),
            circle_instances: self.circle_instances.len(),
            dropped_degenerate: self.dropped_degenerate as usize,
        }
    }

    /// The clip in force, on the screen.
    pub fn current_clip(&self) -> (r: Option<Rect>)
        ensures
            r == self@.clip(),
    {
        let n: usize = self.clip_stack.len();
        if n > 0 {
            Some(self.clip_stack[n - 1])
        } else {
            None
        }
    }

    /// The transform in force.
    pub fn current_transform(&self) -> (r: Affine2)
        ensures
            r == self@.transform(),
    {
        let n: usize = self.transform_stack.len();
        if n > 0 {
            self.transform_stack[n - 1]
        } else {
            Affine2::identity()
        }
    }

    /// The tint in force.
    pub fn current_tint(&self) -> (r: Color)
        ensures
            r == self@.tint(),
    {
        let n: usize = self.tint_stack.len();
        if n > 0 {
            self.tint_stack[n - 1]
        } else {
            Color::white(whole(1))
        }
    }

    pub(crate) fn refuse(&mut self)
        ensures
            final(self)@ == old(self)@.refused(),
    {
        self.dropped_degenerate = self.dropped_degenerate.wrapping_add(1);
        assert(self@ =~= old(self)@.refused());
    }

    pub(crate) fn vertex(&self, p: Point, color: Color) -> (r: Vertex)
        ensures
            r == self@.vertex(p, color),
    {
        let at = self.current_transform().apply(p);
        Vertex::new(at.x, at.y, color.times(self.current_tint())).with_clip(self.current_clip())
    }

    fn push_triangle(&mut self, p0: Point, p1: Point, p2: Point, c0: Color, c1: Color, c2: Color)
        ensures
            final(self)@ == old(self)@.triangle(p0, p1, p2, c0, c1, c2),
            final(self)@.trig == old(self)@.trig,
    {
        proof {
            reveal(DrawState::triangle);
        }
        let base: u32 = self.vertices.len() as u32;
        let v0 = self.vertex(p0, c0);
        let v1 = self.vertex(p1, c1);
        let v2 = self.vertex(p2, c2);
        self.vertices.push(v0);
        self.vertices.push(v1);
        self.vertices.push(v2);
        self.indices.push(base);
        self.indices.push(base.wrapping_add(1));
        self.indices.push(base.wrapping_add(2));
        assert(self@ =~= old(self)@.triangle(p0, p1, p2, c0, c1, c2));
    }

    fn push_quadrangle(
        &mut self,
        p0: Point,
        p1: Point,
        p2: Point,
        p3: Point,
        colors: Shades,
    )
        ensures
            final(self)@ == old(self)@.quadrangle(
                p0,
                p1,
                p2,
                p3,
                colors.tl,
                colors.tr,
                colors.br,
                colors.bl,
            ),
    {
        proof {
            reveal(DrawState::quadrangle);
        }
        let base: u32 = self.vertices.len() as u32;
        let v0 = self.vertex(p0, colors.tl);
        let v1 = self.vertex(p1, colors.tr);
        let v2 = self.vertex(p2, colors.br);
        let v3 = self.vertex(p3, colors.bl);
        self.vertices.push(v0);
        self.vertices.push(v1);
        self.vertices.push(v2);
        self.vertices.push(v3);
        self.indices.push(base);
        self.indices.push(base.wrapping_add(1));
        self.indices.push(base.wrapping_add(2));
        self.indices.push(base.wrapping_add(2));
        self.indices.push(base.wrapping_add(3));
        self.indices.push(base);
        assert(self@ =~= old(self)@.quadrangle(
            p0,
            p1,
            p2,
            p3,
            colors.tl,
            colors.tr,
            colors.br,
            colors.bl,
        ));
    }

    /// Put a command at the end of the stream, into the last one where it goes
    /// on from there.
    pub(crate) fn push_paint_cmd(&mut self, cmd: PaintCmd)
        ensures
            final(self)@ == old(self)@.commanded(cmd),
    {
        proof {
            reveal(DrawState::commanded);
        }
        let n: usize = self.paint_cmds.len();
        if n > 0 {
            let last: PaintCmd = self.paint_cmds[n - 1];
            if last.kind == cmd.kind && last.end == cmd.start {
                self.paint_cmds.set(
                    n - 1,
                    PaintCmd { kind: last.kind, start: last.start, end: cmd.end },
                );
                assert(self@ =~= old(self)@.commanded(cmd));
                return;
            }
        }
        self.paint_cmds.push(cmd);
        assert(self@ =~= old(self)@.commanded(cmd));
    }

    /// Put the soup drawn so far into the stream.
    pub(crate) fn flush_soup(&mut self)
        ensures
            final(self)@ == old(self)@.flushed(),
    {
        proof {
            reveal(DrawState::flushed);
            reveal(DrawState::commanded);
        }
        let total: u32 = self.indices.len() as u32;
        if total > self.soup_committed_indices {
            let start: u32 = self.soup_committed_indices;
            self.push_paint_cmd(PaintCmd { kind: PaintKind::Soup, start, end: total });
            self.soup_committed_indices = total;
            assert(self@ =~= old(self)@.flushed());
        }
    }

    /// The commands of the stream, in order.
    pub fn paint_commands(&self) -> (r: &Vec<PaintCmd>)
        ensures
            r@ == self@.cmds,
    {
        &self.paint_cmds
    }

    /// The soup indices that no command draws yet.
    pub fn trailing_soup_range(&self) -> (r: (u32, u32))
        ensures
            r == (self@.committed, self@.indices.len() as u32),
    {
        (self.soup_committed_indices, self.indices.len() as u32)
    }

    fn push_chrome_instance(
        &mut self,
        rect: Rect,
        radius: Scalar,
        thickness: Scalar,
        bg: Color,
        bg2: Color,
        border: Color,
    )
        ensures
            final(self)@ == old(self)@.chrome_instance(rect, radius, thickness, bg, bg2, border),
    {
        proof {
            reveal(DrawState::chrome_instance);
            reveal(DrawState::flushed);
            reveal(DrawState::commanded);
        }
        let ghost before = self@;
        self.flush_soup();
        let m = self.current_transform();
        let tint = self.current_tint();
        let (clip, clip_enabled) = clip_parts(self.current_clip());
        let i: u32 = self.chrome_instances.len() as u32;
        self.chrome_instances.push(
            ChromeInstance {
                rect: Rect {
                    x: rect.x.plus(m.tx),
                    y: rect.y.plus(m.ty),
                    width: rect.width,
                    height: rect.height,
                },
                bg: bg.times(tint),
                bg2: bg2.times(tint),
                border: border.times(tint),
                clip,
                radius,
                thickness,
                clip_enabled,
            },
        );
        self.push_paint_cmd(PaintCmd { kind: PaintKind::Chrome, start: i, end: i.wrapping_add(1) });
        assert(self@ =~= before.chrome_instance(rect, radius, thickness, bg, bg2, border));
    }

    fn push_circle_instance(&mut self, center: Point, radius: Scalar, thickness: Scalar, color: Color)
        ensures
            final(self)@ == old(self)@.circle_instance(center, radius, thickness, color),
    {
        proof {
            reveal(DrawState::circle_instance);
            reveal(DrawState::flushed);
            reveal(DrawState::commanded);
        }
        let ghost before = self@;
        self.flush_soup();
        let m = self.current_transform();
        let tint = self.current_tint();
        let (clip, clip_enabled) = clip_parts(self.current_clip());
        let i: u32 = self.circle_instances.len() as u32;
        self.circle_instances.push(
            CircleInstance {
                center: Point { x: center.x.plus(m.tx), y: center.y.plus(m.ty) },
                radius,
                thickness,
                color: color.times(tint),
                clip,
                clip_enabled,
            },
        );
        self.push_paint_cmd(PaintCmd { kind: PaintKind::Circle, start: i, end: i.wrapping_add(1) });
        assert(self@ =~= before.circle_instance(center, radius, thickness, color));
    }

    /// A triangle in one color.
    pub fn triangle(&mut self, p0: Point, p1: Point, p2: Point, color: Color)
        ensures
            final(self)@ == old(self)@.triangle(p0, p1, p2, color, color, color),
            final(self)@.trig == old(self)@.trig,
    {
        self.push_triangle(p0, p1, p2, color, color, color);
    }

    /// A triangle whose color runs between its corners.
    pub fn triangle_gradient(
        &mut self,
        p0: Point,
        p1: Point,
        p2: Point,
        c0: Color,
        c1: Color,
        c2: Color,
    )
        ensures
            final(self)@ == old(self)@.triangle(p0, p1, p2, c0, c1, c2),
    {
        self.push_triangle(p0, p1, p2, c0, c1, c2);
    }

    fn quad_soup(&mut self, rect: Rect, colors: Shades)
        ensures
            final(self)@ == old(self)@.quad_soup(rect, colors),
    {
        proof {
            reveal(DrawState::quad_soup);
        }
        self.push_quadrangle(
            Point { x: rect.x, y: rect.y },
            Point { x: rect.right(), y: rect.y },
            Point { x: rect.right(), y: rect.bottom() },
            Point { x: rect.x, y: rect.bottom() },
            colors,
        );
    }

    /// A filled rectangle. One without extent is refused.
    pub fn quad(&mut self, rect: Rect, color: Color)
        ensures
            final(self)@ == old(self)@.quad(rect, color),
            final(self)@.trig == old(self)@.trig,
    {
        proof {
            reveal(DrawState::quad);
            reveal(DrawState::quad_soup);
            reveal(DrawState::chrome_instance);
            reveal(DrawState::flushed);
            reveal(DrawState::commanded);
            reveal(DrawState::quadrangle);
        }
        if rect.is_empty() {
            self.refuse();
        } else if self.current_transform().is_translate_only() {
            self.push_chrome_instance(rect, whole(0), whole(0), color, color, color);
        } else {
            self.quad_soup(rect, Shades { tl: color, tr: color, br: color, bl: color });
        }
    }

    /// A rectangle whose color runs between its corners.
    pub fn quad_gradient(&mut self, rect: Rect, colors: Shades)
        ensures
            final(self)@ == old(self)@.quad_gradient(rect, colors),
    {
        proof {
            reveal(DrawState::quad_gradient);
        }
        if rect.is_empty() {
            self.refuse();
        } else {
            self.quad_soup(rect, colors);
        }
    }

    /// A rectangle whose color runs from left to right.
    pub fn horizontal_gradient(&mut self, rect: Rect, left: Color, right: Color)
        ensures
            final(self)@ == old(self)@.horizontal_gradient(rect, left, right),
    {
        self.quad_gradient(rect, Shades { tl: left, tr: right, br: right, bl: left });
    }

    /// A rectangle whose color runs from top to bottom.
    pub fn vertical_gradient(&mut self, rect: Rect, top: Color, bottom: Color)
        ensures
            final(self)@ == old(self)@.vertical_gradient(rect, top, bottom),
    {
        self.quad_gradient(rect, Shades { tl: top, tr: top, br: bottom, bl: bottom });
    }

    /// Direction `i` of the quarter turns.
    fn corner_dir(&self, i: usize) -> (r: Point)
        ensures
            r == dir_at(self@.trig.corners, i as int),
    {
        if i < self.trig.corners.len() {
            self.trig.corners[i]
        } else {
            Point::zero()
        }
    }

    /// The sector of one rounded corner.
    fn rounded_corner(&mut self, center: Point, radius: Scalar, from: usize, color: Color)
        requires
            from <= 100,
        ensures
            final(self)@ == old(self)@.fan(
                center,
                radius,
                old(self)@.trig.corners,
                from as int,
                8,
                color,
            ),
            final(self)@.trig == old(self)@.trig,
    {
        let ghost before = self@;
        let mut i: usize = 0;
        while i < 8
            invariant
                i <= 8,
                from <= 100,
                self@ == before.fan(center, radius, before.trig.corners, from as int, i as nat, color),
                self@.trig == before.trig,
            decreases 8 - i,
        {
            let p0 = polar(center, radius, self.corner_dir(from + i));
            let p1 = polar(center, radius, self.corner_dir(from + i + 1));
            self.triangle(center, p0, p1, color);
            i = i + 1;
        }
    }

    /// The band of one rounded corner.
    fn corner_band(&mut self, center: Point, inner: Scalar, outer: Scalar, from: usize, color: Color)
        requires
            from <= 100,
        ensures
            final(self)@ == old(self)@.band(
                center,
                inner,
                outer,
                old(self)@.trig.corners,
                from as int,
                8,
                color,
            ),
            final(self)@.trig == old(self)@.trig,
    {
        let ghost before = self@;
        let mut i: usize = 0;
        while i < 8
            invariant
                i <= 8,
                from <= 100,
                self@ == before.band(
                    center,
                    inner,
                    outer,
                    before.trig.corners,
                    from as int,
                    i as nat,
                    color,
                ),
                self@.trig == before.trig,
            decreases 8 - i,
        {
            let d0 = self.corner_dir(from + i);
            let d1 = self.corner_dir(from + i + 1);
            let i0 = polar(center, inner, d0);
            let o0 = polar(center, outer, d0);
            let i1 = polar(center, inner, d1);
            let o1 = polar(center, outer, d1);
            self.triangle(i0, o0, o1, color);
            self.triangle(i0, o1, i1, color);
            i = i + 1;
        }
    }

    /// A filled rectangle with rounded corners.
    pub fn rounded_rect(&mut self, rect: Rect, radius: Scalar, color: Color)
        ensures
            final(self)@ == old(self)@.rounded_rect(rect, radius, color),
    {
        proof {
            reveal(DrawState::rounded_rect);
            reveal(DrawState::rounded_soup);
        }
        if radius.le(whole(0)) || rect.is_empty() {
            self.quad(rect, color);
            return;
        }
        if self.current_transform().is_translate_only() {
            self.push_chrome_instance(rect, radius, whole(0), color, color, color);
            return;
        }
        let r = radius.at_most(rect.width.times(ratio(1, 2))).at_most(
            rect.height.times(ratio(1, 2)),
        );
        let x0 = rect.x;
        let y0 = rect.y;
        let x1 = rect.right();
        let y1 = rect.bottom();
        let w = rect.width.minus(r.times(whole(2)));
        let h = rect.height.minus(r.times(whole(2)));
        self.quad(Rect { x: x0.plus(r), y: y0.plus(r), width: w, height: h }, color);
        self.quad(Rect { x: x0.plus(r), y: y0, width: w, height: r }, color);
        self.quad(Rect { x: x0.plus(r), y: y1.minus(r), width: w, height: r }, color);
        self.quad(Rect { x: x0, y: y0.plus(r), width: r, height: h }, color);
        self.quad(Rect { x: x1.minus(r), y: y0.plus(r), width: r, height: h }, color);
        self.rounded_corner(Point { x: x0.plus(r), y: y0.plus(r) }, r, 0, color);
        self.rounded_corner(Point { x: x1.minus(r), y: y0.plus(r) }, r, 9, color);
        self.rounded_corner(Point { x: x1.minus(r), y: y1.minus(r) }, r, 18, color);
        self.rounded_corner(Point { x: x0.plus(r), y: y1.minus(r) }, r, 27, color);
    }

    fn stroke_rect_instance(&mut self, rect: Rect, radius: Scalar, thickness: Scalar, color: Color)
        ensures
            final(self)@ == old(self)@.stroke(rect, radius, thickness, color),
    {
        let clear = color.with_alpha(whole(0));
        self.push_chrome_instance(rect, radius, thickness, clear, clear, color);
    }

    /// The outline of a rectangle, growing inwards.
    pub fn rect_outline(&mut self, rect: Rect, thickness: Scalar, color: Color)
        ensures
            final(self)@ == old(self)@.rect_outline(rect, thickness, color),
    {
        proof {
            reveal(DrawState::rect_outline);
        }
        if thickness.le(whole(0)) || rect.is_empty() {
            self.refuse();
            return;
        }
        if self.current_transform().is_translate_only() {
            self.stroke_rect_instance(rect, whole(0), thickness, color);
            return;
        }
        let t = thickness.at_most(rect.width.times(ratio(1, 2))).at_most(
            rect.height.times(ratio(1, 2)),
        );
        self.quad(Rect { x: rect.x, y: rect.y, width: rect.width, height: t }, color);
        self.quad(
            Rect { x: rect.x, y: rect.y.plus(rect.height).minus(t), width: rect.width, height: t },
            color,
        );
        let inner = rect.height.minus(whole(2).times(t));
        if whole(0).lt(inner) {
            self.quad(Rect { x: rect.x, y: rect.y.plus(t), width: t, height: inner }, color);
            self.quad(
                Rect { x: rect.right().minus(t), y: rect.y.plus(t), width: t, height: inner },
                color,
            );
        }
    }

    /// The outline of a rectangle with rounded corners, growing inwards.
    pub fn rounded_rect_outline(
        &mut self,
        rect: Rect,
        radius: Scalar,
        thickness: Scalar,
        color: Color,
    )
        ensures
            final(self)@ == old(self)@.rounded_rect_outline(rect, radius, thickness, color),
    {
        proof {
            reveal(DrawState::rounded_rect_outline);
            reveal(DrawState::outline_soup);
        }
        if thickness.le(whole(0)) || rect.is_empty() {
            self.refuse();
            return;
        }
        if radius.le(whole(0)) {
            self.rect_outline(rect, thickness, color);
            return;
        }
        if self.current_transform().is_translate_only() {
            self.stroke_rect_instance(rect, radius, thickness, color);
            return;
        }
        let half_w = rect.width.times(ratio(1, 2));
        let half_h = rect.height.times(ratio(1, 2));
        let r = radius.at_most(half_w).at_most(half_h);
        let t = thickness.at_most(r).at_most(half_w).at_most(half_h);
        let x0 = rect.x;
        let y0 = rect.y;
        let x1 = rect.right();
        let y1 = rect.bottom();
        let span_w = rect.width.minus(r.times(whole(2)));
        let span_h = rect.height.minus(r.times(whole(2)));
        if whole(0).lt(span_w) {
            self.quad(Rect { x: x0.plus(r), y: y0, width: span_w, height: t }, color);
            self.quad(Rect { x: x0.plus(r), y: y1.minus(t), width: span_w, height: t }, color);
        }
        if whole(0).lt(span_h) {
            self.quad(Rect { x: x0, y: y0.plus(r), width: t, height: span_h }, color);
            self.quad(Rect { x: x1.minus(t), y: y0.plus(r), width: t, height: span_h }, color);
        }
        let inner = r.minus(t).at_least(whole(0));
        self.corner_band(Point { x: x0.plus(r), y: y0.plus(r) }, inner, r, 0, color);
        self.corner_band(Point { x: x1.minus(r), y: y0.plus(r) }, inner, r, 9, color);
        self.corner_band(Point { x: x1.minus(r), y: y1.minus(r) }, inner, r, 18, color);
        self.corner_band(Point { x: x0.plus(r), y: y1.minus(r) }, inner, r, 27, color);
    }

    /// A panel with a flat fill and a border.
    pub fn chrome_rect(
        &mut self,
        rect: Rect,
        radius: Scalar,
        thickness: Scalar,
        bg: Color,
        border: Color,
    )
        ensures
            final(self)@ == old(self)@.chrome_rect(rect, radius, thickness, bg, border),
    {
        self.chrome_rect_gradient(rect, radius, thickness, bg, bg, border);
    }

    /// A panel with a fill that runs from top to bottom, and a border.
    pub fn chrome_rect_gradient(
        &mut self,
        rect: Rect,
        radius: Scalar,
        thickness: Scalar,
        bg: Color,
        bg2: Color,
        border: Color,
    )
        ensures
            final(self)@ == old(self)@.chrome_rect_gradient(rect, radius, thickness, bg, bg2, border),
    {
        proof {
            reveal(DrawState::chrome_rect_gradient);
        }
        if rect.is_empty() {
            self.refuse();
            return;
        }
        if self.current_transform().is_translate_only() {
            self.push_chrome_instance(rect, radius, thickness, bg, bg2, border);
            return;
        }
        if whole(0).lt(radius) {
            self.rounded_rect(rect, radius, bg);
        } else {
            self.quad(rect, bg);
        }
        self.vertical_gradient(rect, bg, bg2);
        if whole(0).lt(thickness) {
            self.rounded_rect_outline(rect, radius, thickness, border);
        }
    }

    /// A soft shadow around a floating surface. Draw it before the surface.
    pub fn drop_shadow(
        &mut self,
        rect: Rect,
        offset_y: Scalar,
        blur: Scalar,
        radius: Scalar,
        color: Color,
    )
        ensures
            final(self)@ == old(self)@.drop_shadow(rect, offset_y, blur, radius, color),
    {
        proof {
            reveal(DrawState::drop_shadow);
        }
        if color.a.le(whole(0)) || blur.le(whole(0)) || rect.is_empty() {
            self.refuse();
            return;
        }
        let zero = color.with_alpha(whole(0));
        let edge = color.with_alpha(color.a.times(ratio(35, 100)));
        let top = blur.minus(offset_y).at_least(whole(0));
        let bottom = blur.plus(offset_y).at_least(whole(0));
        let left_x = rect.x.minus(blur);
        let top_y = rect.y.minus(top);
        self.chrome_rect(rect, radius, whole(0), color, Color::clear());
        if whole(0).lt(top) {
            self.vertical_gradient(
                Rect { x: rect.x, y: top_y, width: rect.width, height: top },
                zero,
                edge,
            );
        }
        if whole(0).lt(bottom) {
            self.vertical_gradient(
                Rect { x: rect.x, y: rect.bottom(), width: rect.width, height: bottom },
                edge,
                zero,
            );
        }
        self.horizontal_gradient(
            Rect { x: left_x, y: rect.y, width: blur, height: rect.height },
            zero,
            edge,
        );
        self.horizontal_gradient(
            Rect { x: rect.right(), y: rect.y, width: blur, height: rect.height },
            edge,
            zero,
        );
        if whole(0).lt(top) {
            self.quad_gradient(
                Rect { x: left_x, y: top_y, width: blur, height: top },
                Shades { tl: zero, tr: zero, br: edge, bl: zero },
            );
            self.quad_gradient(
                Rect { x: rect.right(), y: top_y, width: blur, height: top },
                Shades { tl: zero, tr: zero, br: zero, bl: edge },
            );
        }
        if whole(0).lt(bottom) {
            self.quad_gradient(
                Rect { x: left_x, y: rect.bottom(), width: blur, height: bottom },
                Shades { tl: zero, tr: edge, br: zero, bl: zero },
            );
            self.quad_gradient(
                Rect { x: rect.right(), y: rect.bottom(), width: blur, height: bottom },
                Shades { tl: edge, tr: zero, br: zero, bl: zero },
            );
        }
    }

    /// A thick line segment; one without length is refused.
    pub fn line(&mut self, p0: Point, p1: Point, thickness: Scalar, color: Color)
        ensures
            final(self)@ == old(self)@.line(p0, p1, thickness, color),
    {
        proof {
            reveal(DrawState::line);
        }
        let dx = p1.x.minus(p0.x);
        let dy = p1.y.minus(p0.y);
        let len = dx.times(dx).plus(dy.times(dy)).sqrt();
        if len.le(epsilon()) || thickness.le(whole(0)) {
            self.refuse();
            return;
        }
        let half = thickness.times(ratio(1, 2));
        let ox = dy.negate().over(len).times(half);
        let oy = dx.over(len).times(half);
        self.push_quadrangle(
            Point { x: p0.x.plus(ox), y: p0.y.plus(oy) },
            Point { x: p1.x.plus(ox), y: p1.y.plus(oy) },
            Point { x: p1.x.minus(ox), y: p1.y.minus(oy) },
            Point { x: p0.x.minus(ox), y: p0.y.minus(oy) },
            Shades { tl: color, tr: color, br: color, bl: color },
        );
    }

    /// Thick line segments from point to point.
    pub fn polyline(&mut self, points: &Vec<Point>, thickness: Scalar, color: Color)
        ensures
            final(self)@ == old(self)@.polyline(
                points@,
                if points@.len() == 0 {
                    0
                } else {
                    (points@.len() - 1) as nat
                },
                thickness,
                color,
            ),
    {
        let ghost before = self@;
        let n: usize = points.len();
        if n == 0 {
            return;
        }
        let mut i: usize = 0;
        while i + 1 < n
            invariant
                n == points@.len(),
                0 < n,
                i < n,
                self@ == before.polyline(points@, i as nat, thickness, color),
            decreases n - i,
        {
            self.line(points[i], points[i + 1], thickness, color);
            i = i + 1;
        }
    }

    /// A filled circle.
    pub fn circle(&mut self, center: Point, radius: Scalar, color: Color)
        ensures
            final(self)@ == old(self)@.circle(center, radius, color),
    {
        proof {
            reveal(DrawState::circle);
        }
        if radius.le(whole(0)) {
            self.refuse();
            return;
        }
        if self.current_transform().is_translate_only() {
            self.push_circle_instance(center, radius, whole(0), color);
            return;
        }
        let ghost before = self@;
        let n: u64 = circle_segments(radius);
        let ghost dirs = row_at(before.trig.discs, n - 16);
        let mut i: u64 = 0;
        while i < n
            invariant
                16 <= n <= 64,
                i <= n,
                dirs == row_at(before.trig.discs, n - 16),
                self@ == before.fan(center, radius, dirs, 0, i as nat, color),
                self@.trig == before.trig,
            decreases n - i,
        {
            let p0 = polar(center, radius, row_dir(&self.trig.discs, n as usize - 16, i as usize));
            let p1 = polar(
                center,
                radius,
                row_dir(&self.trig.discs, n as usize - 16, i as usize + 1),
            );
            self.triangle(center, p0, p1, color);
            i = i + 1;
        }
    }

    /// The outline of a circle, half of it on either side of the radius.
    pub fn circle_outline(&mut self, center: Point, radius: Scalar, thickness: Scalar, color: Color)
        ensures
            final(self)@ == old(self)@.circle_outline(center, radius, thickness, color),
    {
        proof {
            reveal(DrawState::circle_outline);
        }
        if radius.le(whole(0)) || thickness.le(whole(0)) {
            self.refuse();
            return;
        }
        if self.current_transform().is_translate_only() {
            self.push_circle_instance(center, radius, thickness, color);
            return;
        }
        let ghost before = self@;
        let half = thickness.times(ratio(1, 2));
        let inner = radius.minus(half).at_least(whole(0));
        let outer = radius.plus(half);
        let n: u64 = circle_segments(outer);
        let ghost dirs = row_at(before.trig.rings, n - 16);
        let mut i: u64 = 0;
        while i < n
            invariant
                16 <= n <= 64,
                i <= n,
                dirs == row_at(before.trig.rings, n - 16),
                self@ == before.band(center, inner, outer, dirs, 0, i as nat, color),
                self@.trig == before.trig,
            decreases n - i,
        {
            let d0 = row_dir(&self.trig.rings, n as usize - 16, i as usize);
            let d1 = row_dir(&self.trig.rings, n as usize - 16, i as usize + 1);
            let i0 = polar(center, inner, d0);
            let o0 = polar(center, outer, d0);
            let i1 = polar(center, inner, d1);
            let o1 = polar(center, outer, d1);
            self.triangle(i0, o0, o1, color);
            self.triangle(i0, o1, i1, color);
            i = i + 1;
        }
    }
}

/// Direction `i` of list `row`.
fn row_dir(lists: &Vec<Vec<Point>>, row: usize, i: usize) -> (r: Point)
    ensures
        r == dir_at(row_at(rows(lists@), row as int), i as int),
{
    if row < lists.len() {
        if i < lists[row].len() {
            lists[row][i]
        } else {
            Point::zero()
        }
    } else {
        Point::zero()
    }
}

/// What was added since then, and what there was then, is what there is now; nothing was
/// added where there is no more than there was.
pub proof fn law_what_was_added(now: PrimCounts, then: PrimCounts)
    ensures
        now.vertices >= then.vertices ==> then.vertices + now.since(then).vertices == now.vertices,
        now.indices >= then.indices ==> then.indices + now.since(then).indices == now.indices,
        now.texts >= then.texts ==> then.texts + now.since(then).texts == now.texts,
        now.icons >= then.icons ==> then.icons + now.since(then).icons == now.icons,
        now.nine_slices >= then.nine_slices ==> then.nine_slices + now.since(then).nine_slices
            == now.nine_slices,
        now.icons_msdf >= then.icons_msdf ==> then.icons_msdf + now.since(then).icons_msdf
            == now.icons_msdf,
        now.chrome_instances >= then.chrome_instances ==> then.chrome_instances + now.since(
            then,
        ).chrome_instances == now.chrome_instances,
        now.circle_instances >= then.circle_instances ==> then.circle_instances + now.since(
            then,
        ).circle_instances == now.circle_instances,
        now.dropped_degenerate >= then.dropped_degenerate ==> then.dropped_degenerate + now.since(
            then,
        ).dropped_degenerate == now.dropped_degenerate,
        now.since(now).sum() == 0,
        now.vertices <= then.vertices ==> now.since(then).vertices == 0,
        now.texts <= then.texts ==> now.since(then).texts == 0,
{
}

} // verus!
