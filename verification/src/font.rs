//! The font of a box: how its text is set.
use crate::color::{color_of, decode_color, Color};
use crate::error::CssError;
use crate::number::{
    decimal_of, parse_decimal, parse_pixel_decimal, pixel_decimal_of, strip_unit, without_unit,
    Decimal,
};
use crate::property::{
    given, model_of, resolve_chars, resolve_given, resolved, Properties, Property, PropertyMap,
};
use crate::text::{clean_value, cleaned, is_word, string_of};
use vstd::prelude::*;
use vstd::string::StringExecFns;

verus! {

/// How heavy the strokes of the text are.
#[derive(Clone, Copy, Debug, PartialEq, Eq, Structural)]
pub enum FontWeight {
    Normal,
    Bold,
}

/// How the text leans.
#[derive(Clone, Copy, Debug, PartialEq, Eq, Structural)]
pub enum FontSlant {
    Normal,
    Italic,
    Oblique,
}

/// Where the text stands in its box.
///
/// The alignment is read when the style is built, but a value that is none of
/// the three known ones is only an error once a box with text is painted:
/// until then it is kept as `Unrecognized`.
#[derive(Clone, Copy, Debug, PartialEq, Eq, Structural)]
pub enum TextAlign {
    Left,
    Center,
    Right,
    Unrecognized,
}

/// The font size of a box that gives none, in pixels.
pub const DEFAULT_FONT_SIZE: i32 = 12;

/// The font of a box.
#[derive(Clone, Debug, PartialEq, Eq)]
pub struct Font {
    /// The colour of the text. Text is painted without transparency: the
    /// alpha of this colour is 1.
    pub color: Color,
    /// The size of the text in pixels.
    pub size: Decimal,
    /// The name of the font family.
    pub family: String,
    /// The slant of the text.
    pub style: FontSlant,
    /// The weight of the text.
    pub weight: FontWeight,
    /// The alignment of the text in its box.
    pub text_align: TextAlign,
    /// The space added between letters, in pixels.
    pub letter_spacing: Decimal,
}

/// The model of a `Font`.
pub ghost struct FontView {
    pub color: Color,
    pub size: Decimal,
    pub family: Seq<char>,
    pub style: FontSlant,
    pub weight: FontWeight,
    pub text_align: TextAlign,
    pub letter_spacing: Decimal,
}

impl View for Font {
    type V = FontView;

    open spec fn view(&self) -> FontView {
        FontView {
            color: self.color,
            size: self.size,
            family: self.family@,
            style: self.style,
            weight: self.weight,
            text_align: self.text_align,
            letter_spacing: self.letter_spacing,
        }
    }
}

/// The family of a box that gives none.
pub open spec fn default_family() -> Seq<char> {
    "Arial"@
}

/// The size of the text: what `font-size` gives if it is a number followed by
/// the pixel unit, else 12 pixels. A size that is given and malformed falls
/// back to these 12 pixels, not to what the universal block gives.
pub open spec fn font_size(css: Properties, universal: Option<Properties>) -> Decimal {
    match resolved(css, universal, Property::FontSize.name()) {
        Some(value) => match pixel_decimal_of(value) {
            Some(size) => size,
            None => Decimal::whole(DEFAULT_FONT_SIZE as int),
        },
        None => Decimal::whole(DEFAULT_FONT_SIZE as int),
    }
}

/// The space between letters: what `letter-spacing` gives if it is a number,
/// with or without the pixel unit, else none.
pub open spec fn letter_spacing(css: Properties, universal: Option<Properties>) -> Decimal {
    match resolved(css, universal, Property::LetterSpacing.name()) {
        Some(value) => {
            let number = match strip_unit(value) {
                Some(stripped) => stripped,
                None => value,
            };
            match decimal_of(number) {
                Some(space) => space,
                None => Decimal::whole(0),
            }
        },
        None => Decimal::whole(0),
    }
}

/// The family: what `font-family` gives, made clean of the white space
/// around it and of its double quotes, else Arial.
pub open spec fn font_family(css: Properties, universal: Option<Properties>) -> Seq<char> {
    match resolved(css, universal, Property::FontFamily.name()) {
        Some(value) => clean_value(value),
        None => default_family(),
    }
}

/// The colour of the text: black if `color` is not given, the colour that its
/// token denotes without its transparency if it denotes one, else an error.
pub open spec fn font_color(css: Properties, universal: Option<Properties>) -> Result<
    Color,
    CssError<'static>,
> {
    match given(css, universal, Property::Color) {
        Some(token) => match color_of(token) {
            Some(color) => Ok(color.solid()),
            None => Err(CssError::FontError("Invalid font color")),
        },
        None => Ok(Color::black()),
    }
}

/// The weight that the token `token` denotes.
pub open spec fn weight_of(token: Seq<char>) -> Option<FontWeight> {
    if token == "bold"@ {
        Some(FontWeight::Bold)
    } else if token == "normal"@ {
        Some(FontWeight::Normal)
    } else {
        None
    }
}

/// The weight of the text: normal if `font-weight` is not given, the weight
/// that its token denotes if it denotes one, else an error.
pub open spec fn font_weight(css: Properties, universal: Option<Properties>) -> Result<
    FontWeight,
    CssError<'static>,
> {
    match given(css, universal, Property::FontWeight) {
        Some(token) => match weight_of(token) {
            Some(weight) => Ok(weight),
            None => Err(CssError::FontError("Invalid font weight")),
        },
        None => Ok(FontWeight::Normal),
    }
}

/// The slant that the token `token` denotes.
pub open spec fn slant_of(token: Seq<char>) -> Option<FontSlant> {
    if token == "italic"@ {
        Some(FontSlant::Italic)
    } else if token == "oblique"@ {
        Some(FontSlant::Oblique)
    } else if token == "normal"@ {
        Some(FontSlant::Normal)
    } else {
        None
    }
}

/// The slant of the text: normal if `font-style` is not given, the slant that
/// its token denotes if it denotes one, else an error.
pub open spec fn font_slant(css: Properties, universal: Option<Properties>) -> Result<
    FontSlant,
    CssError<'static>,
> {
    match given(css, universal, Property::FontStyle) {
        Some(token) => match slant_of(token) {
            Some(slant) => Ok(slant),
            None => Err(CssError::FontError("Invalid font style")),
        },
        None => Ok(FontSlant::Normal),
    }
}

/// The alignment that the token `token` denotes; `Unrecognized` for a token
/// that is none of `left`, `center` and `right`.
pub open spec fn align_of(token: Seq<char>) -> TextAlign {
    if token == "left"@ {
        TextAlign::Left
    } else if token == "center"@ {
        TextAlign::Center
    } else if token == "right"@ {
        TextAlign::Right
    } else {
        TextAlign::Unrecognized
    }
}

/// The alignment of the text: left if `text-align` is not given, else what
/// its token denotes.
pub open spec fn text_align(css: Properties, universal: Option<Properties>) -> TextAlign {
    match given(css, universal, Property::TextAlign) {
        Some(token) => align_of(token),
        None => TextAlign::Left,
    }
}

/// The font of a block with the properties `css`, with `universal` as the
/// fallback. An invalid colour is reported before an invalid weight, and that
/// before an invalid slant.
pub open spec fn font_of(css: Properties, universal: Option<Properties>) -> Result<
    FontView,
    CssError<'static>,
> {
    match font_color(css, universal) {
        Err(error) => Err(error),
        Ok(color) => match font_weight(css, universal) {
            Err(error) => Err(error),
            Ok(weight) => match font_slant(css, universal) {
                Err(error) => Err(error),
                Ok(style) => Ok(
                    FontView {
                        color,
                        size: font_size(css, universal),
                        family: font_family(css, universal),
                        style,
                        weight,
                        text_align: text_align(css, universal),
                        letter_spacing: letter_spacing(css, universal),
                    },
                ),
            },
        },
    }
}

/// Reads a weight token.
pub fn parse_weight(token: &Vec<char>) -> (out: Option<FontWeight>)
    ensures
        out == weight_of(token@),
{
    if is_word(token, "bold") {
        Some(FontWeight::Bold)
    } else if is_word(token, "normal") {
        Some(FontWeight::Normal)
    } else {
        None
    }
}

/// Reads a slant token.
pub fn parse_slant(token: &Vec<char>) -> (out: Option<FontSlant>)
    ensures
        out == slant_of(token@),
{
    if is_word(token, "italic") {
        Some(FontSlant::Italic)
    } else if is_word(token, "oblique") {
        Some(FontSlant::Oblique)
    } else if is_word(token, "normal") {
        Some(FontSlant::Normal)
    } else {
        None
    }
}

/// Reads an alignment token.
pub fn parse_align(token: &Vec<char>) -> (out: TextAlign)
    ensures
        out == align_of(token@),
{
    if is_word(token, "left") {
        TextAlign::Left
    } else if is_word(token, "center") {
        TextAlign::Center
    } else if is_word(token, "right") {
        TextAlign::Right
    } else {
        TextAlign::Unrecognized
    }
}

impl Font {
    /// Builds the font of a block with the properties `css`, with
    /// `all_selector` as the fallback.
    ///
    /// A size, a family or a letter spacing that is missing or malformed
    /// falls back to its default. A colour, a weight or a slant that is given
    /// and is none that is known is an error.
    pub fn new(css: &PropertyMap, all_selector: Option<&PropertyMap>) -> (out: Result<
        Font,
        CssError<'static>,
    >)
        ensures
            match out {
                Ok(font) => font_of(css@, model_of(all_selector)) == Ok::<
                    FontView,
                    CssError<'static>,
                >(font@),
                Err(error) => font_of(css@, model_of(all_selector)) == Err::<
                    FontView,
                    CssError<'static>,
                >(error),
            },
    {
        let color = match resolve_given(css, all_selector, Property::Color) {
            Some(token) => match decode_color(&token) {
                Some(color) => color.to_solid(),
                None => {
                    return Err(CssError::FontError("Invalid font color"));
                },
            },
            None => Color::from_bytes(0, 0, 0),
        };
        let weight = match resolve_given(css, all_selector, Property::FontWeight) {
            Some(token) => match parse_weight(&token) {
                Some(weight) => weight,
                None => {
                    return Err(CssError::FontError("Invalid font weight"));
                },
            },
            None => FontWeight::Normal,
        };
        let style = match resolve_given(css, all_selector, Property::FontStyle) {
            Some(token) => match parse_slant(&token) {
                Some(slant) => slant,
                None => {
                    return Err(CssError::FontError("Invalid font style"));
                },
            },
            None => FontSlant::Normal,
        };
        let size = match resolve_chars(css, all_selector, Property::FontSize) {
            Some(value) => match parse_pixel_decimal(&value) {
                Some(size) => size,
                None => Decimal::from_units(DEFAULT_FONT_SIZE),
            },
            None => Decimal::from_units(DEFAULT_FONT_SIZE),
        };
        let family = match resolve_chars(css, all_selector, Property::FontFamily) {
            Some(value) => string_of(&cleaned(&value)),
            None => String::from_str("Arial"),
        };
        let letter_spacing = match resolve_chars(css, all_selector, Property::LetterSpacing) {
            Some(value) => {
                let space = match without_unit(&value) {
                    Some(stripped) => parse_decimal(&stripped),
                    None => parse_decimal(&value),
                };
                match space {
                    Some(space) => space,
                    None => Decimal::from_units(0),
                }
            },
            None => Decimal::from_units(0),
        };
        let text_align = match resolve_given(css, all_selector, Property::TextAlign) {
            Some(token) => parse_align(&token),
            None => TextAlign::Left,
        };
        Ok(Font { color, size, family, style, weight, text_align, letter_spacing })
    }
}

} // verus!
