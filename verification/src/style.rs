//! The style of one box, built from the properties of its block.
use crate::color::{color_of, decode_color, Color};
use crate::error::CssError;
use crate::font::{font_of, Font, FontView};
use crate::number::{parse_pixel_decimal, parse_pixels, pixel_decimal_of, pixels_of, Decimal};
use crate::property::{
    given, model_of, resolve_chars, resolve_given, resolved, Properties, Property, PropertyMap,
};
use crate::spacing::{sides, spacing_of, Spacing};
use crate::table::Replicate;
use crate::text::{clean_value, cleaned, string_of};
use vstd::prelude::*;

verus! {

/// The style of one box.
///
/// A style is built once from the properties of a block. Laying out and
/// painting read it and do not change it.
#[derive(Clone, Debug, PartialEq, Eq)]
pub struct Style {
    /// The width of the content in pixels, if the block gives one. Without
    /// it the width is taken from the text, or from the default.
    pub width: Option<i32>,
    /// The height of the content in pixels, if the block gives one.
    pub height: Option<i32>,
    /// The colour that fills the box.
    pub background_color: Color,
    /// The font of the text.
    pub font: Font,
    /// The text of the box, if it has any.
    pub content: Option<String>,
    /// The radius of the corners in pixels, before it is limited and scaled
    /// for painting.
    pub border_radius: Decimal,
    /// The margin in pixels: top, right, bottom, left.
    pub margin: [i32; 4],
    /// The padding in pixels: top, right, bottom, left.
    pub padding: [i32; 4],
}

/// The model of a `Style`.
pub ghost struct StyleView {
    pub width: Option<i32>,
    pub height: Option<i32>,
    pub background_color: Color,
    pub font: FontView,
    pub content: Option<Seq<char>>,
    pub border_radius: Decimal,
    pub margin: [i32; 4],
    pub padding: [i32; 4],
}

impl View for Style {
    type V = StyleView;

    open spec fn view(&self) -> StyleView {
        StyleView {
            width: self.width,
            height: self.height,
            background_color: self.background_color,
            font: self.font@,
            content: match self.content {
                Some(text) => Some(text@),
                None => None,
            },
            border_radius: self.border_radius,
            margin: self.margin,
            padding: self.padding,
        }
    }
}

/// The size that the raw value `value` gives explicitly: a whole number of
/// pixels that is not negative. Any other value, `auto` among them, leaves
/// the size to be found later.
pub open spec fn explicit_size(value: Seq<char>) -> Option<i32> {
    match pixels_of(value) {
        Some(pixels) => if pixels >= 0 {
            Some(pixels)
        } else {
            None
        },
        None => None,
    }
}

/// The explicit size that the cascade gives through `property`, if any.
pub open spec fn size_of(css: Properties, universal: Option<Properties>, property: Property) -> Option<
    i32,
> {
    match resolved(css, universal, property.name()) {
        Some(value) => explicit_size(value),
        None => None,
    }
}

/// The radius of the corners: what `border-radius` gives if it is a number
/// followed by the pixel unit, else none.
pub open spec fn radius_of(css: Properties, universal: Option<Properties>) -> Decimal {
    match resolved(css, universal, Property::BorderRadius.name()) {
        Some(value) => match pixel_decimal_of(value) {
            Some(radius) => radius,
            None => Decimal::whole(0),
        },
        None => Decimal::whole(0),
    }
}

/// The text of the box: what `content` gives, made clean of the white space
/// around it and of its double quotes; no text if `content` is not given.
pub open spec fn content_of(css: Properties, universal: Option<Properties>) -> Option<Seq<char>> {
    match resolved(css, universal, Property::Content.name()) {
        Some(value) => Some(clean_value(value)),
        None => None,
    }
}

/// The colour that fills the box: black if `background-color` is not given,
/// the colour that its token denotes if it denotes one, else an error.
pub open spec fn background_of(css: Properties, universal: Option<Properties>) -> Result<
    Color,
    CssError<'static>,
> {
    match given(css, universal, Property::BackgroundColor) {
        Some(token) => match color_of(token) {
            Some(color) => Ok(color),
            None => Err(CssError::ContentError("Invalid background color")),
        },
        None => Ok(Color::black()),
    }
}

/// The style of a block with the properties `css`, with `universal` as the
/// fallback.
///
/// A block without properties of its own is an error. So is a background
/// colour that is given and denotes no colour, and so is what makes the font
/// an error; they are reported in this order. Every other property that is
/// missing or malformed falls back to its default.
pub open spec fn style_of(css: Properties, universal: Option<Properties>) -> Result<
    StyleView,
    CssError<'static>,
> {
    if css.len() == 0 {
        Err(CssError::ContentError("Empty selector block"))
    } else {
        match background_of(css, universal) {
            Err(error) => Err(error),
            Ok(background_color) => match font_of(css, universal) {
                Err(error) => Err(error),
                Ok(font) => Ok(
                    StyleView {
                        width: size_of(css, universal, Property::Width),
                        height: size_of(css, universal, Property::Height),
                        background_color,
                        font,
                        content: content_of(css, universal),
                        border_radius: radius_of(css, universal),
                        margin: sides(css, universal, Spacing::Margin),
                        padding: sides(css, universal, Spacing::Padding),
                    },
                ),
            },
        }
    }
}

/// Resolves an explicit size.
fn resolve_size(css: &PropertyMap, universal: Option<&PropertyMap>, property: Property) -> (out:
    Option<i32>)
    ensures
        out == size_of(css@, model_of(universal), property),
{
    match resolve_chars(css, universal, property) {
        Some(value) => match parse_pixels(&value) {
            Some(pixels) => if pixels >= 0 {
                Some(pixels)
            } else {
                None
            },
            None => None,
        },
        None => None,
    }
}

impl Style {
    /// Builds the style of a block with the properties `css`, with
    /// `all_selector` as the fallback.
    pub fn new(css: &PropertyMap, all_selector: Option<&PropertyMap>) -> (out: Result<
        Style,
        CssError<'static>,
    >)
        ensures
            match out {
                Ok(style) => style_of(css@, model_of(all_selector)) == Ok::<
                    StyleView,
                    CssError<'static>,
                >(style@),
                Err(error) => style_of(css@, model_of(all_selector)) == Err::<
                    StyleView,
                    CssError<'static>,
                >(error),
            },
    {
        if css.is_empty() {
            return Err(CssError::ContentError("Empty selector block"));
        }
        let background_color = match resolve_given(css, all_selector, Property::BackgroundColor) {
            Some(token) => match decode_color(&token) {
                Some(color) => color,
                None => {
                    return Err(CssError::ContentError("Invalid background color"));
                },
            },
            None => Color::from_bytes(0, 0, 0),
        };
        let font = match Font::new(css, all_selector) {
            Ok(font) => font,
            Err(error) => {
                return Err(error);
            },
        };
        let width = resolve_size(css, all_selector, Property::Width);
        let height = resolve_size(css, all_selector, Property::Height);
        let border_radius = match resolve_chars(css, all_selector, Property::BorderRadius) {
            Some(value) => match parse_pixel_decimal(&value) {
                Some(radius) => radius,
                None => Decimal::from_units(0),
            },
            None => Decimal::from_units(0),
        };
        let padding = spacing_of(css, all_selector, Spacing::Padding);
        let margin = spacing_of(css, all_selector, Spacing::Margin);
        let content = match resolve_chars(css, all_selector, Property::Content) {
            Some(value) => Some(string_of(&cleaned(&value))),
            None => None,
        };
        Ok(Style { padding, margin, border_radius, content, font, width, height, background_color })
    }
}

/// An explicit size is never negative.
pub proof fn lemma_explicit_size_is_not_negative(
    css: Properties,
    universal: Option<Properties>,
    property: Property,
)
    ensures
        size_of(css, universal, property) matches Some(pixels) ==> pixels >= 0,
{
}

/// A block without properties of its own has no style, whatever the
/// universal block holds.
pub proof fn lemma_empty_block_has_no_style(universal: Option<Properties>)
    ensures
        style_of(Seq::<(Seq<char>, Seq<char>)>::empty(), universal) == Err::<
            StyleView,
            CssError<'static>,
        >(CssError::ContentError("Empty selector block")),
{
}

impl Replicate for Style {
    fn replicate(&self) -> (out: Self) {
        Style {
            width: self.width,
            height: self.height,
            background_color: self.background_color,
            font: Font {
                color: self.font.color,
                size: self.font.size,
                family: self.font.family.clone(),
                style: self.font.style,
                weight: self.font.weight,
                text_align: self.font.text_align,
                letter_spacing: self.font.letter_spacing,
            },
            content: match &self.content {
                Some(text) => Some(text.clone()),
                None => None,
            },
            border_radius: self.border_radius,
            margin: self.margin,
            padding: self.padding,
        }
    }
}

} // verus!
