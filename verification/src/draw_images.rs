//! Images, panels and vector icons.

use crate::affine::Corners;
use crate::draw_list::{
    DrawList, DrawState, IconDraw, IconGlyph, IconMsdf, IconView, NineSliceDraw, NineSliceId,
    NineSliceView, PaintCmd, PaintKind, SpriteId, Uv,
};
use crate::geometry::{Color, Rect};
use vstd::prelude::*;

verus! {

impl DrawState {
    /// An image after what was drawn before.
    #[verifier::opaque]
    pub open spec fn icon_put(
        self,
        rect: Rect,
        sprite: Option<SpriteId>,
        icon_key: Seq<char>,
        tint: Color,
        src: Option<Uv>,
        wrap: bool,
    ) -> DrawState {
        let s = self.flushed();
        let i = self.icons.len() as u32;
        let icon = IconView {
            corners: self.transform().corners(rect),
            sprite,
            icon_key,
            tint,
            clip: self.clip(),
            src,
            wrap,
        };
        DrawState { icons: self.icons.push(icon), ..s }.commanded(
            PaintCmd { kind: PaintKind::Icon, start: i, end: i.wrapping_add(1) },
        )
    }

    /// An image by name, in the tint in force.
    pub open spec fn icon(self, key: Seq<char>, rect: Rect) -> DrawState {
        self.icon_put(rect, None, key, self.tint(), None, false)
    }

    /// An image by number.
    pub open spec fn icon_sprite(self, sprite: SpriteId, rect: Rect, tint: Color) -> DrawState {
        self.image(sprite, rect, None, tint)
    }

    /// A part of an image, or all of it.
    pub open spec fn image(self, sprite: SpriteId, rect: Rect, src: Option<Uv>, tint: Color) -> DrawState {
        self.icon_put(rect, Some(sprite), Seq::empty(), tint.times(self.tint()), src, false)
    }

    /// A panel after what was drawn before.
    #[verifier::opaque]
    pub open spec fn nine_slice_put(
        self,
        rect: Rect,
        nine_slice: Option<NineSliceId>,
        texture_key: Seq<char>,
        tint: Color,
    ) -> DrawState {
        let s = self.flushed();
        let i = self.nine_slices.len() as u32;
        let panel = NineSliceView {
            local: rect,
            transform: self.transform(),
            nine_slice,
            texture_key,
            tint,
            clip: self.clip(),
        };
        DrawState { nine_slices: self.nine_slices.push(panel), ..s }.commanded(
            PaintCmd { kind: PaintKind::NineSlice, start: i, end: i.wrapping_add(1) },
        )
    }

    /// A panel by name, in the tint in force.
    pub open spec fn nine_slice(self, rect: Rect, key: Seq<char>) -> DrawState {
        self.nine_slice_put(rect, None, key, self.tint())
    }

    /// A vector icon after what was drawn before.
    #[verifier::opaque]
    pub open spec fn icon_msdf(self, rect: Rect, glyph: IconGlyph, tint: Color) -> DrawState {
        if rect.is_empty() {
            self.refused()
        } else {
            let s = self.flushed();
            let i = self.icons_msdf.len() as u32;
            let icon = IconMsdf {
                local: rect,
                transform: self.transform(),
                glyph,
                tint: tint.times(self.tint()),
                clip: self.clip(),
            };
            DrawState { icons_msdf: self.icons_msdf.push(icon), ..s }.commanded(
                PaintCmd { kind: PaintKind::IconMsdf, start: i, end: i.wrapping_add(1) },
            )
        }
    }
}

impl DrawList {
    fn put_icon(
        &mut self,
        rect: Rect,
        sprite: Option<SpriteId>,
        icon_key: String,
        tint: Color,
        src: Option<Uv>,
        wrap: bool,
    )
        ensures
            final(self)@ == old(self)@.icon_put(rect, sprite, icon_key@, tint, src, wrap),
    {
        proof {
            reveal(DrawState::icon_put);
            reveal(DrawState::flushed);
            reveal(DrawState::commanded);
        }
        let ghost before = self@;
        let corners: Corners = self.current_transform().corners(rect);
        let clip = self.current_clip();
        self.flush_soup();
        let i: u32 = self.icons.len() as u32;
        let ghost mid = self@;
        self.icons.push(IconDraw { corners, sprite, icon_key, tint, clip, src, wrap });
        assert(self@.icons =~= mid.icons.push(
            IconView { corners, sprite, icon_key: icon_key@, tint, clip, src, wrap },
        ));
        self.push_paint_cmd(PaintCmd { kind: PaintKind::Icon, start: i, end: i.wrapping_add(1) });
        assert(self@ =~= before.icon_put(rect, sprite, icon_key@, tint, src, wrap));
    }

    /// An image by name, in the tint in force.
    pub fn icon(&mut self, icon_key: &str, rect: Rect)
        ensures
            final(self)@ == old(self)@.icon(icon_key@, rect),
    {
        let tint = self.current_tint();
        self.put_icon(rect, None, icon_key.to_owned(), tint, None, false);
    }

    /// An image by number.
    pub fn icon_sprite(&mut self, sprite: SpriteId, rect: Rect, tint: Color)
        ensures
            final(self)@ == old(self)@.icon_sprite(sprite, rect, tint),
    {
        self.push_image(sprite, rect, None, tint);
    }

    /// An image that fills `dest`.
    pub fn image(&mut self, sprite: SpriteId, dest: Rect, tint: Color)
        ensures
            final(self)@ == old(self)@.image(sprite, dest, None, tint),
    {
        self.push_image(sprite, dest, None, tint);
    }

    /// A part of an image that fills `dest`.
    pub fn image_cropped(&mut self, sprite: SpriteId, dest: Rect, src: Uv, tint: Color)
        ensures
            final(self)@ == old(self)@.image(sprite, dest, Some(src), tint),
    {
        self.push_image(sprite, dest, Some(src), tint);
    }

    /// An image repeated over `dest`; `tiles` counts the repetitions.
    pub fn image_tiled(&mut self, sprite: SpriteId, dest: Rect, tiles: Uv, tint: Color)
        ensures
            final(self)@ == old(self)@.icon_put(
                dest,
                Some(sprite),
                Seq::empty(),
                tint.times(old(self)@.tint()),
                Some(tiles),
                true,
            ),
    {
        let tinted = tint.times(self.current_tint());
        let name = String::new();
        self.put_icon(dest, Some(sprite), name, tinted, Some(tiles), true);
    }

    fn push_image(&mut self, sprite: SpriteId, dest: Rect, src: Option<Uv>, tint: Color)
        ensures
            final(self)@ == old(self)@.image(sprite, dest, src, tint),
    {
        let tinted = tint.times(self.current_tint());
        let name = String::new();
        self.put_icon(dest, Some(sprite), name, tinted, src, false);
    }

    fn put_nine_slice(
        &mut self,
        rect: Rect,
        nine_slice: Option<NineSliceId>,
        texture_key: String,
        tint: Color,
    )
        ensures
            final(self)@ == old(self)@.nine_slice_put(rect, nine_slice, texture_key@, tint),
    {
        proof {
            reveal(DrawState::nine_slice_put);
            reveal(DrawState::flushed);
            reveal(DrawState::commanded);
        }
        let ghost before = self@;
        let transform = self.current_transform();
        let clip = self.current_clip();
        self.flush_soup();
        let i: u32 = self.nine_slices.len() as u32;
        let ghost mid = self@;
        self.nine_slices.push(
            NineSliceDraw { local: rect, transform, nine_slice, texture_key, tint, clip },
        );
        assert(self@.nine_slices =~= mid.nine_slices.push(
            NineSliceView { local: rect, transform, nine_slice, texture_key: texture_key@, tint, clip },
        ));
        self.push_paint_cmd(
            PaintCmd { kind: PaintKind::NineSlice, start: i, end: i.wrapping_add(1) },
        );
        assert(self@ =~= before.nine_slice_put(rect, nine_slice, texture_key@, tint));
    }

    /// A panel by name, in the tint in force.
    pub fn nine_slice(&mut self, rect: Rect, texture_key: &str)
        ensures
            final(self)@ == old(self)@.nine_slice(rect, texture_key@),
    {
        let tint = self.current_tint();
        self.put_nine_slice(rect, None, texture_key.to_owned(), tint);
    }

    /// A panel by number.
    pub fn nine_slice_id(&mut self, id: NineSliceId, rect: Rect, tint: Color)
        ensures
            final(self)@ == old(self)@.nine_slice_put(
                rect,
                Some(id),
                Seq::empty(),
                tint.times(old(self)@.tint()),
            ),
    {
        let tinted = tint.times(self.current_tint());
        let name = String::new();
        self.put_nine_slice(rect, Some(id), name, tinted);
    }

    /// A vector icon fitted into `rect`; one without extent is refused.
    pub fn icon_msdf(&mut self, rect: Rect, glyph: IconGlyph, tint: Color)
        ensures
            final(self)@ == old(self)@.icon_msdf(rect, glyph, tint),
    {
        proof {
            reveal(DrawState::icon_msdf);
            reveal(DrawState::flushed);
            reveal(DrawState::commanded);
        }
        let ghost before = self@;
        if rect.is_empty() {
            self.refuse();
            return;
        }
        let transform = self.current_transform();
        let clip = self.current_clip();
        let tinted = tint.times(self.current_tint());
        self.flush_soup();
        let i: u32 = self.icons_msdf.len() as u32;
        self.icons_msdf.push(IconMsdf { local: rect, transform, glyph, tint: tinted, clip });
        self.push_paint_cmd(PaintCmd { kind: PaintKind::IconMsdf, start: i, end: i.wrapping_add(1) });
        assert(self@ =~= before.icon_msdf(rect, glyph, tint));
    }

    /// A vector icon of a set, where the set has it.
    pub fn phosphor_icon(&mut self, rect: Rect, glyph: Option<IconGlyph>, tint: Color)
        ensures
            final(self)@ == (match glyph {
                Some(glyph) => old(self)@.icon_msdf(rect, glyph, tint),
                None => old(self)@,
            }),
    {
        match glyph {
            Some(glyph) => self.icon_msdf(rect, glyph, tint),
            None => {},
        }
    }
}

} // verus!
