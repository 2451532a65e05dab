//! The properties of a block and the cascade that resolves them.
//!
//! A block gives raw values to property names. A value that a block does not
//! give is taken from the universal block `*`, if the sheet has one and it
//! gives that value. The universal block only fills gaps: it never replaces a
//! value that the block gives itself.
use crate::table::{lookup, Table};
use crate::text::chars_of;
use vstd::prelude::*;

verus! {

/// The properties of one block: from property name to raw value.
pub type PropertyMap = Table<String>;

/// The model of a `PropertyMap`: its entries as pairs of name and value.
pub type Properties = Seq<(Seq<char>, Seq<char>)>;

/// The property names that the library reads. Any other name in a block is
/// ignored.
#[derive(Clone, Copy, Debug, PartialEq, Eq, Structural)]
pub enum Property {
    Width,
    Height,
    BackgroundColor,
    Margin,
    MarginTop,
    MarginRight,
    MarginBottom,
    MarginLeft,
    Padding,
    PaddingTop,
    PaddingRight,
    PaddingBottom,
    PaddingLeft,
    BorderRadius,
    Content,
    FontFamily,
    FontSize,
    FontWeight,
    FontStyle,
    Color,
    TextAlign,
    LetterSpacing,
}

impl Property {
    /// The name under which a block gives this property.
    pub open spec fn name(self) -> Seq<char> {
        match self {
            Property::Width => "width"@,
            Property::Height => "height"@,
            Property::BackgroundColor => "background-color"@,
            Property::Margin => "margin"@,
            Property::MarginTop => "margin-top"@,
            Property::MarginRight => "margin-right"@,
            Property::MarginBottom => "margin-bottom"@,
            Property::MarginLeft => "margin-left"@,
            Property::Padding => "padding"@,
            Property::PaddingTop => "padding-top"@,
            Property::PaddingRight => "padding-right"@,
            Property::PaddingBottom => "padding-bottom"@,
            Property::PaddingLeft => "padding-left"@,
            Property::BorderRadius => "border-radius"@,
            Property::Content => "content"@,
            Property::FontFamily => "font-family"@,
            Property::FontSize => "font-size"@,
            Property::FontWeight => "font-weight"@,
            Property::FontStyle => "font-style"@,
            Property::Color => "color"@,
            Property::TextAlign => "text-align"@,
            Property::LetterSpacing => "letter-spacing"@,
        }
    }

    /// The name under which a block gives this property.
    pub fn key(self) -> (out: &'static str)
        ensures
            out@ == self.name(),
    {
        match self {
            Property::Width => "width",
            Property::Height => "height",
            Property::BackgroundColor => "background-color",
            Property::Margin => "margin",
            Property::MarginTop => "margin-top",
            Property::MarginRight => "margin-right",
            Property::MarginBottom => "margin-bottom",
            Property::MarginLeft => "margin-left",
            Property::Padding => "padding",
            Property::PaddingTop => "padding-top",
            Property::PaddingRight => "padding-right",
            Property::PaddingBottom => "padding-bottom",
            Property::PaddingLeft => "padding-left",
            Property::BorderRadius => "border-radius",
            Property::Content => "content",
            Property::FontFamily => "font-family",
            Property::FontSize => "font-size",
            Property::FontWeight => "font-weight",
            Property::FontStyle => "font-style",
            Property::Color => "color",
            Property::TextAlign => "text-align",
            Property::LetterSpacing => "letter-spacing",
        }
    }
}

/// The raw value that the cascade gives to `name`: the value of the block's
/// own entry if it has one, else the value of the universal block's entry if
/// there is a universal block and it has one, else nothing.
pub open spec fn resolved(css: Properties, universal: Option<Properties>, name: Seq<char>) -> Option<
    Seq<char>,
> {
    match lookup(css, name) {
        Some(value) => Some(value),
        None => match universal {
            Some(fallback) => lookup(fallback, name),
            None => None,
        },
    }
}

/// The model of an optional `PropertyMap`.
pub open spec fn model_of(universal: Option<&PropertyMap>) -> Option<Properties> {
    match universal {
        Some(map) => Some(map@),
        None => None,
    }
}

/// Resolves the property `name` for a block with the properties `css`, with
/// `universal` as the fallback.
pub fn resolve<'a>(css: &'a PropertyMap, universal: Option<&'a PropertyMap>, name: &str) -> (out:
    Option<&'a String>)
    ensures
        match out {
            Some(value) => resolved(css@, model_of(universal), name@) == Some(value@),
            None => resolved(css@, model_of(universal), name@) is None,
        },
{
    match css.get(name) {
        Some(value) => Some(value),
        None => match universal {
            Some(fallback) => fallback.get(name),
            None => None,
        },
    }
}

/// Resolves `property` and hands out the characters of its raw value.
pub fn resolve_chars(css: &PropertyMap, universal: Option<&PropertyMap>, property: Property) -> (out:
    Option<Vec<char>>)
    ensures
        match out {
            Some(value) => resolved(css@, model_of(universal), property.name()) == Some(value@),
            None => resolved(css@, model_of(universal), property.name()) is None,
        },
{
    match resolve(css, universal, property.key()) {
        Some(value) => Some(chars_of(value.as_str())),
        None => None,
    }
}

/// The token that the cascade gives to `property`: its raw value, unless that
/// value is empty. An empty value counts as not given.
pub open spec fn given(css: Properties, universal: Option<Properties>, property: Property) -> Option<
    Seq<char>,
> {
    match resolved(css, universal, property.name()) {
        Some(value) => if value.len() == 0 {
            None
        } else {
            Some(value)
        },
        None => None,
    }
}

/// Resolves `property` and hands out its token, unless the value is empty.
pub fn resolve_given(css: &PropertyMap, universal: Option<&PropertyMap>, property: Property) -> (out:
    Option<Vec<char>>)
    ensures
        match out {
            Some(value) => given(css@, model_of(universal), property) == Some(value@),
            None => given(css@, model_of(universal), property) is None,
        },
{
    match resolve_chars(css, universal, property) {
        Some(value) => if value.len() == 0 {
            None
        } else {
            Some(value)
        },
        None => None,
    }
}

/// The universal block never overrides. Where the block gives a value to
/// `name` itself, the cascade resolves `name` to that value, whatever the
/// universal block holds.
pub proof fn lemma_own_value_wins(
    css: Properties,
    universal: Option<Properties>,
    name: Seq<char>,
    value: Seq<char>,
)
    requires
        lookup(css, name) == Some(value),
    ensures
        resolved(css, universal, name) == Some(value),
{
}

/// The universal block fills gaps. Where the block gives no value to `name`,
/// the cascade resolves `name` to what the universal block gives, and to
/// nothing where there is no universal block.
pub proof fn lemma_universal_fills_gap(
    css: Properties,
    universal: Option<Properties>,
    name: Seq<char>,
)
    requires
        lookup(css, name) is None,
    ensures
        resolved(css, universal, name) == match universal {
            Some(fallback) => lookup(fallback, name),
            None => None,
        },
{
}

} // verus!
