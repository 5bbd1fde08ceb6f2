//! Style keys, and the values they resolve to.

use crate::geometry::Color;
use crate::scalar::{whole, Scalar};
use crate::text::FontHandle;
use vstd::prelude::*;

verus! {

/// What a widget asks the style for.
#[derive(Clone, Copy, Debug, PartialEq, Eq, Structural, Hash)]
pub enum StyleKey {
    /// Surface behind everything.
    Background,
    /// Dim layer behind an overlay.
    Scrim,
    /// Panel fill.
    Panel,
    /// Panel border.
    PanelBorder,
    /// Text.
    Text,
    /// Subdued text.
    TextDim,
    /// Emphasized text.
    TextHighlight,
    /// Text on an accent face.
    OnAccent,
    /// Text on a danger face.
    OnDanger,
    /// Accent.
    Accent,
    /// Information.
    Info,
    /// Success.
    Success,
    /// Caution.
    Warning,
    /// Failure.
    Error,
    /// Button at rest.
    Button,
    /// Hovered button.
    ButtonHover,
    /// Pressed button.
    ButtonPressed,
    /// Input field fill.
    InputBackground,
    /// Input field border.
    InputBorder,
    /// Border of a focused input field.
    InputFocusBorder,
    /// Tab that is active.
    TabActive,
    /// Tab that is hovered.
    TabHover,
    /// Other tabs.
    TabInactive,
    /// Slab that a raised control rests on.
    Plinth,
    /// Sheen at the top of a face.
    FaceTop,
    /// The same, hovered.
    FaceTopHover,
    /// The same, pressed.
    FaceTopPressed,
    /// Sheen at the bottom of a face.
    FaceBottom,
    /// The same, hovered.
    FaceBottomHover,
    /// The same, pressed.
    FaceBottomPressed,
    /// Accent face, top.
    AccentFaceTop,
    /// The same, hovered.
    AccentFaceTopHover,
    /// The same, pressed.
    AccentFaceTopPressed,
    /// Accent face, bottom.
    AccentFaceBottom,
    /// The same, hovered.
    AccentFaceBottomHover,
    /// The same, pressed.
    AccentFaceBottomPressed,
    /// Danger face, top.
    DangerFaceTop,
    /// The same, hovered.
    DangerFaceTopHover,
    /// The same, pressed.
    DangerFaceTopPressed,
    /// Danger face, bottom.
    DangerFaceBottom,
    /// The same, hovered.
    DangerFaceBottomHover,
    /// The same, pressed.
    DangerFaceBottomPressed,
    /// Light line under the top edge of a face.
    EdgeHighlight,
    /// The same, hovered.
    EdgeHighlightHover,
    /// The same, pressed.
    EdgeHighlightPressed,
    /// Light line along the bottom edge of a sunken surface.
    EdgeShadow,
    /// Shadow inside a sunken surface.
    InnerShadow,
    /// Size of text.
    FontSize,
    /// Space inside a control.
    Padding,
    /// Space between controls.
    Spacing,
    /// Corner radius.
    BorderRadius,
    /// Border width.
    BorderWidth,
    /// How far a pressed face drops.
    Travel,
    /// Depth of the shadow inside a sunken surface.
    InnerShadowDepth,
    /// Height of a button.
    ButtonHeight,
    /// Height of the menu bar.
    MenuRowHeight,
    /// Height of a dock's tab row.
    DockTabHeight,
    /// Width of a dock's splitter.
    DockSplitterWidth,
    /// Size of a toolbar button.
    ToolbarButtonSize,
    /// Space around toolbar buttons.
    ToolbarPadding,
}

/// The value given last for `key`, or `missing`.
pub open spec fn given<T>(values: Seq<(StyleKey, T)>, key: StyleKey, missing: T) -> T
    decreases values.len(),
{
    if values.len() == 0 {
        missing
    } else if values.last().0 == key {
        values.last().1
    } else {
        given(values.drop_last(), key, missing)
    }
}

/// Resolves style keys. What is given later wins, so that an overlay is a
/// resolver with more values given.
#[derive(Debug)]
pub struct StyleResolver {
    /// Colors given, in order.
    pub colors: Vec<(StyleKey, Color)>,
    /// Scalars given, in order.
    pub scalars: Vec<(StyleKey, Scalar)>,
    /// Font, the default one where there is none.
    pub font: Option<FontHandle>,
}

impl StyleResolver {
    /// Nothing given: every color clear, every scalar 0.
    pub fn new(font: Option<FontHandle>) -> (r: Self)
        ensures
            r.colors@ == Seq::<(StyleKey, Color)>::empty(),
            r.scalars@ == Seq::<(StyleKey, Scalar)>::empty(),
            r.font == font,
    {
        StyleResolver { colors: Vec::new(), scalars: Vec::new(), font }
    }

    #[verifier::opaque]
    pub open spec fn spec_color(&self, key: StyleKey) -> Color {
        given(self.colors@, key, Color::clear())
    }

    #[verifier::opaque]
    pub open spec fn spec_scalar(&self, key: StyleKey) -> Scalar {
        given(self.scalars@, key, whole(0))
    }

    /// The color of `key`.
    #[verifier::when_used_as_spec(spec_color)]
    pub fn color(&self, key: StyleKey) -> (r: Color)
        ensures
            r == self.spec_color(key),
    {
        proof {
            reveal(StyleResolver::spec_color);
        }
        let mut i: usize = self.colors.len();
        assert(self.colors@.take(i as int) =~= self.colors@);
        while i > 0
            invariant
                i <= self.colors@.len(),
                given(self.colors@.take(i as int), key, Color::clear()) == given(
                    self.colors@,
                    key,
                    Color::clear(),
                ),
            decreases i,
        {
            assert(self.colors@.take(i as int).drop_last() =~= self.colors@.take(i - 1));
            i = i - 1;
            if self.colors[i].0 == key {
                proof {
                    reveal(StyleResolver::spec_color);
                }
                return self.colors[i].1;
            }
        }
        Color::clear()
    }

    /// The scalar of `key`.
    #[verifier::when_used_as_spec(spec_scalar)]
    pub fn scalar(&self, key: StyleKey) -> (r: Scalar)
        ensures
            r == self.spec_scalar(key),
    {
        proof {
            reveal(StyleResolver::spec_scalar);
        }
        let mut i: usize = self.scalars.len();
        assert(self.scalars@.take(i as int) =~= self.scalars@);
        while i > 0
            invariant
                i <= self.scalars@.len(),
                given(self.scalars@.take(i as int), key, whole(0)) == given(
                    self.scalars@,
                    key,
                    whole(0),
                ),
            decreases i,
        {
            assert(self.scalars@.take(i as int).drop_last() =~= self.scalars@.take(i - 1));
            i = i - 1;
            if self.scalars[i].0 == key {
                proof {
                    reveal(StyleResolver::spec_scalar);
                }
                return self.scalars[i].1;
            }
        }
        whole(0)
    }

    /// Give `key` a color.
    pub fn set_color(&mut self, key: StyleKey, color: Color)
        ensures
            final(self).colors@ == old(self).colors@.push((key, color)),
            final(self).scalars == old(self).scalars,
            final(self).font == old(self).font,
            final(self).color(key) == color,
            forall|other: StyleKey|
                other != key ==> #[trigger] final(self).color(other) == old(self).color(other),
    {
        self.colors.push((key, color));
        proof {
            reveal(StyleResolver::spec_color);
            assert(self.colors@.drop_last() =~= old(self).colors@);
        }
    }

    /// Give `key` a scalar.
    pub fn set_scalar(&mut self, key: StyleKey, scalar: Scalar)
        ensures
            final(self).scalars@ == old(self).scalars@.push((key, scalar)),
            final(self).colors == old(self).colors,
            final(self).font == old(self).font,
            final(self).scalar(key) == scalar,
            forall|other: StyleKey|
                other != key ==> #[trigger] final(self).scalar(other) == old(self).scalar(other),
    {
        self.scalars.push((key, scalar));
        proof {
            reveal(StyleResolver::spec_scalar);
            assert(self.scalars@.drop_last() =~= old(self).scalars@);
        }
    }
}

/// Of several values for a key the last one holds, a value for one key changes no
/// other, and a key without a value has the one for missing keys.
pub proof fn law_last_given_value_holds<T>(values: Seq<(StyleKey, T)>, key: StyleKey, other: StyleKey, value: T, missing: T)
    ensures
        given(values.push((key, value)), key, missing) == value,
        other != key ==> given(values.push((key, value)), other, missing) == given(
            values,
            other,
            missing,
        ),
        given(Seq::<(StyleKey, T)>::empty(), key, missing) == missing,
{
    assert(values.push((key, value)).drop_last() == values);
}

} // verus!
