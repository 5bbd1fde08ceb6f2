//! Image buttons: a picture to click.

use crate::button::{draw_chrome, ButtonVisual};
use crate::draw_list::{DrawList, SpriteId};
use crate::geometry::{Color, Rect};
use crate::image::{Extent, Image, ImageAlign, ImageFit, ImageView};
use crate::input::InputState;
use crate::material::Tone;
use crate::scalar::{ratio, Scalar};
use crate::style::{StyleKey, StyleResolver};
use vstd::prelude::*;

verus! {

/// A button that shows a picture.
#[derive(Debug, Clone)]
pub struct ImageButton {
    /// The picture.
    pub image: Image,
    /// Whether it can be clicked.
    pub enabled: bool,
    /// The room around the picture, a quarter of the style's where there is none.
    pub padding: Option<Scalar>,
    /// Whether it has a face.
    pub chrome: bool,
}

/// What an [`ImageButton`] is made of.
pub struct ImageButtonView {
    /// The picture.
    pub image: ImageView,
    /// Whether it can be clicked.
    pub enabled: bool,
    /// The room around the picture, a quarter of the style's where there is none.
    pub padding: Option<Scalar>,
    /// Whether it has a face.
    pub chrome: bool,
}

impl View for ImageButton {
    type V = ImageButtonView;

    open spec fn view(&self) -> ImageButtonView {
        ImageButtonView {
            image: self.image@,
            enabled: self.enabled,
            padding: self.padding,
            chrome: self.chrome,
        }
    }
}

impl ImageButtonView {
    /// A button as it is made around a picture.
    pub open spec fn of(image: ImageView) -> ImageButtonView {
        ImageButtonView { image, enabled: true, padding: None, chrome: true }
    }

    /// Whether the pointer is over it.
    pub open spec fn hovered(self, rect: Rect, input: &InputState) -> bool {
        self.enabled && input.over(rect)
    }

    /// Whether it was clicked.
    pub open spec fn clicked(self, rect: Rect, input: &InputState) -> bool {
        !rect.is_empty() && self.hovered(rect, input) && input.mouse_clicked
    }

    /// The face in its state.
    pub open spec fn visual(self, rect: Rect, input: &InputState) -> ButtonVisual {
        ButtonVisual {
            enabled: self.enabled,
            hovered: self.hovered(rect, input),
            pressed: self.hovered(rect, input) && input.mouse_down,
            tone: Tone::Default,
        }
    }

    /// Where the picture lies.
    pub open spec fn inner(self, rect: Rect, s: &StyleResolver) -> Rect {
        rect.inset(
            match self.padding {
                Some(p) => p,
                None => s.scalar(StyleKey::Padding).times(ratio(25, 100)),
            },
        )
    }

    /// What lies over the picture: a disabled button is dimmed, and a bare one
    /// shows its state here.
    pub open spec fn overlay(self, v: ButtonVisual) -> Option<Color> {
        if !self.enabled {
            Some(Color::black(ratio(4, 10)))
        } else if self.chrome {
            None
        } else if v.pressed {
            Some(Color::black(ratio(2, 10)))
        } else if v.hovered {
            Some(Color::white(ratio(8, 100)))
        } else {
            None
        }
    }

    /// What drawing the button adds.
    pub open spec fn drawn(
        self,
        l: crate::draw_list::DrawState,
        s: &StyleResolver,
        rect: Rect,
        input: &InputState,
    ) -> crate::draw_list::DrawState {
        if rect.is_empty() {
            l
        } else {
            let v = self.visual(rect, input);
            let l = if self.chrome {
                crate::material::material_drawn(
                    l,
                    s,
                    rect,
                    s.scalar(StyleKey::BorderRadius),
                    v.material(),
                )
            } else {
                l
            };
            let l = self.image.drawn(l, self.inner(rect, s));
            match self.overlay(v) {
                Some(color) => l.quad(rect, color),
                None => l,
            }
        }
    }
}

impl ImageButton {
    /// A button with a picture by number.
    pub fn sprite(id: SpriteId) -> (r: Self)
        ensures
            r@ == ImageButtonView::of(ImageView::of(crate::image::SourceView::Sprite(id))),
    {
        Self::from_image(Image::sprite(id))
    }

    /// A button with a picture by name.
    pub fn key(key: &str) -> (r: Self)
        ensures
            r@ == ImageButtonView::of(ImageView::of(crate::image::SourceView::Key(key@))),
    {
        Self::from_image(Image::key(key))
    }

    /// A button around a picture.
    pub fn from_image(image: Image) -> (r: Self)
        ensures
            r@ == ImageButtonView::of(image@),
    {
        ImageButton { image, enabled: true, padding: None, chrome: true }
    }

    /// With a picture of this natural size.
    pub fn natural_size(self, w: Scalar, h: Scalar) -> (r: Self)
        ensures
            r@ == (ImageButtonView {
                image: ImageView { natural: Some(Extent { w, h }), ..self@.image },
                ..self@
            }),
    {
        ImageButton {
            image: self.image.natural_size(w, h),
            enabled: self.enabled,
            padding: self.padding,
            chrome: self.chrome,
        }
    }

    /// With a picture scaled in this way.
    pub fn fit(self, fit: ImageFit) -> (r: Self)
        ensures
            r@ == (ImageButtonView { image: ImageView { fit, ..self@.image }, ..self@ }),
    {
        ImageButton {
            image: self.image.fit(fit),
            enabled: self.enabled,
            padding: self.padding,
            chrome: self.chrome,
        }
    }

    /// With a picture in this place.
    pub fn align(self, align: ImageAlign) -> (r: Self)
        ensures
            r@ == (ImageButtonView { image: ImageView { align, ..self@.image }, ..self@ }),
    {
        ImageButton {
            image: self.image.align(align),
            enabled: self.enabled,
            padding: self.padding,
            chrome: self.chrome,
        }
    }

    /// With a picture in this tint.
    pub fn tint(self, tint: Color) -> (r: Self)
        ensures
            r@ == (ImageButtonView { image: ImageView { tint, ..self@.image }, ..self@ }),
    {
        ImageButton {
            image: self.image.tint(tint),
            enabled: self.enabled,
            padding: self.padding,
            chrome: self.chrome,
        }
    }

    /// Enabled or not.
    pub fn enabled(self, enabled: bool) -> (r: Self)
        ensures
            r@ == (ImageButtonView { enabled, ..self@ }),
    {
        let mut r = self;
        r.enabled = enabled;
        r
    }

    /// With this room around the picture.
    pub fn padding(self, padding: Scalar) -> (r: Self)
        ensures
            r@ == (ImageButtonView { padding: Some(padding), ..self@ }),
    {
        let mut r = self;
        r.padding = Some(padding);
        r
    }

    /// Without a face.
    pub fn bare(self) -> (r: Self)
        ensures
            r@ == (ImageButtonView { chrome: false, ..self@ }),
    {
        let mut r = self;
        r.chrome = false;
        r
    }

    fn overlay(&self, v: ButtonVisual) -> (r: Option<Color>)
        ensures
            r == self@.overlay(v),
    {
        if !self.enabled {
            Some(Color::black(ratio(4, 10)))
        } else if self.chrome {
            None
        } else if v.pressed {
            Some(Color::black(ratio(2, 10)))
        } else if v.hovered {
            Some(Color::white(ratio(8, 100)))
        } else {
            None
        }
    }

    /// Draw the button; tells whether it was clicked. One without extent draws
    /// nothing and is never clicked.
    pub fn draw(&self, rect: Rect, list: &mut DrawList, s: &StyleResolver, input: &InputState) -> (clicked: bool)
        ensures
            clicked == self@.clicked(rect, input),
            final(list)@ == self@.drawn(old(list)@, s, rect, input),
    {
        if rect.is_empty() {
            return false;
        }
        let hovered = self.enabled && input.over(rect);
        let v = ButtonVisual {
            enabled: self.enabled,
            hovered,
            pressed: hovered && input.mouse_down,
            tone: Tone::Default,
        };
        if self.chrome {
            draw_chrome(list, s, rect, s.scalar(StyleKey::BorderRadius), &v);
        }
        let pad = match self.padding {
            Some(p) => p,
            None => s.scalar(StyleKey::Padding).times(ratio(25, 100)),
        };
        self.image.draw(rect.inset(pad), list);
        match self.overlay(v) {
            Some(color) => list.quad(rect, color),
            None => {},
        }
        hovered && input.mouse_clicked
    }
}

/// A disabled button, or one whose pointer a higher layer took, is never clicked.
pub proof fn law_inert_button_never_clicks(b: ImageButtonView, rect: Rect, input: &InputState)
    requires
        !b.enabled || input.mouse_consumed,
    ensures
        !b.clicked(rect, input),
        !b.visual(rect, input).hovered,
        !b.visual(rect, input).pressed,
{
}

/// A click over an enabled button is reported, and nothing else is.
pub proof fn law_click_over_the_button_is_reported(b: ImageButtonView, rect: Rect, input: &InputState)
    requires
        !rect.is_empty(),
        b.enabled,
        !input.mouse_consumed,
    ensures
        b.clicked(rect, input) <==> rect.contains(input.mouse_x, input.mouse_y)
            && input.mouse_clicked,
        b.visual(rect, input).pressed <==> rect.contains(input.mouse_x, input.mouse_y)
            && input.mouse_down,
{
}

} // verus!
