//! The geometry of a box: its final size, its surface and where its text
//! stands.
//!
//! A size that the style leaves open is taken from the measured text. The
//! drawing backend measures; this module is handed what it found. A size that
//! is still open after that, because the box has no text or nothing could be
//! measured, is the minimum size. Nothing is an error here: sizing is lenient.
use crate::font::TextAlign;
use crate::style::{Style, StyleView};
use vstd::prelude::*;

verus! {

/// The extents of a line of text as the backend measured them, in whole
/// pixels, each rounded towards zero.
#[derive(Clone, Copy, Debug, PartialEq, Eq, Structural)]
pub struct TextExtents {
    /// The width of the text.
    pub width: i32,
    /// The height of the text.
    pub height: i32,
    /// The distance from the baseline up to the top of the text, without
    /// sign.
    pub bearing: i32,
}

impl View for TextExtents {
    type V = TextExtents;

    open spec fn view(&self) -> TextExtents {
        *self
    }
}

/// The width and the height of content whose size nothing gives, in pixels.
pub const MINIMUM_SIZE: i32 = 5;

/// A point of the surface, in pixels from its top left corner.
#[derive(Clone, Copy, Debug, PartialEq, Eq, Structural)]
pub struct Point {
    pub x: i64,
    pub y: i64,
}

/// The geometry of one box.
#[derive(Clone, Copy, Debug, PartialEq, Eq, Structural)]
pub struct Layout {
    /// The final width of the content.
    pub width: i32,
    /// The final height of the content.
    pub height: i32,
    /// The width of the surface: content, padding and margin.
    pub surface_width: i64,
    /// The height of the surface: content, padding and margin.
    pub surface_height: i64,
    /// The top left corner of the padding box.
    pub origin: Point,
    /// The width of the padding box: content and padding.
    pub box_width: i64,
    /// The height of the padding box: content and padding.
    pub box_height: i64,
    /// Where the text starts, on its baseline, for each alignment that is
    /// known; nothing for an alignment that is not.
    pub anchor: Option<Point>,
}

/// The text that the box shows: its content, unless that is empty.
pub open spec fn shown_text(style: StyleView) -> Option<Seq<char>> {
    match style.content {
        Some(text) => if text.len() == 0 {
            None
        } else {
            Some(text)
        },
        None => None,
    }
}

/// The extents that count for the box: those that were measured, if the box
/// shows text.
pub open spec fn counted(style: StyleView, extents: Option<TextExtents>) -> Option<TextExtents> {
    if shown_text(style) is Some {
        extents
    } else {
        None
    }
}

/// The final width of the content: the explicit width, else the measured
/// width of the text, else the minimum size.
pub open spec fn final_width(style: StyleView, extents: Option<TextExtents>) -> i32 {
    match style.width {
        Some(width) => width,
        None => match counted(style, extents) {
            Some(measured) => measured.width,
            None => MINIMUM_SIZE,
        },
    }
}

/// The final height of the content: the explicit height, else the measured
/// height of the text, else the minimum size.
pub open spec fn final_height(style: StyleView, extents: Option<TextExtents>) -> i32 {
    match style.height {
        Some(height) => height,
        None => match counted(style, extents) {
            Some(measured) => measured.height,
            None => MINIMUM_SIZE,
        },
    }
}

/// Half of `x`, rounded towards zero.
pub open spec fn half(x: int) -> int {
    if x >= 0 {
        x / 2
    } else {
        -((-x) / 2)
    }
}

/// Where text of the measured width and bearing starts in a box of the final
/// width `width`: from the left, after margin and padding; centred, by the
/// halves of the two widths, after the left padding; from the right, by the
/// difference of the two widths. Nothing for an alignment that is not known.
pub open spec fn anchor_of(style: StyleView, width: int, text_width: int, bearing: int) -> Option<
    Point,
> {
    match style.font.text_align {
        TextAlign::Left => Some(
            Point {
                x: (style.padding[3] + style.margin[3]) as i64,
                y: (bearing + style.padding[0] + style.margin[0]) as i64,
            },
        ),
        TextAlign::Center => Some(
            Point {
                x: (half(width) - half(text_width) + style.padding[3]) as i64,
                y: (bearing + style.padding[0]) as i64,
            },
        ),
        TextAlign::Right => Some(Point { x: (width - text_width) as i64, y: bearing as i64 }),
        TextAlign::Unrecognized => None,
    }
}

/// The geometry of a box with the style `style`, where `extents` is what the
/// backend measured of its text, if it measured anything.
pub open spec fn layout_of(style: StyleView, extents: Option<TextExtents>) -> Layout {
    let width = final_width(style, extents);
    let height = final_height(style, extents);
    let (text_width, bearing) = match counted(style, extents) {
        Some(measured) => (measured.width, measured.bearing),
        None => (0i32, 0i32),
    };
    Layout {
        width,
        height,
        surface_width: (width + style.margin[1] + style.margin[3] + style.padding[1]
            + style.padding[3]) as i64,
        surface_height: (height + style.margin[0] + style.margin[2] + style.padding[0]
            + style.padding[2]) as i64,
        origin: Point { x: style.margin[3] as i64, y: style.margin[0] as i64 },
        box_width: (width + style.padding[1] + style.padding[3]) as i64,
        box_height: (height + style.padding[0] + style.padding[2]) as i64,
        anchor: anchor_of(style, width as int, text_width as int, bearing as int),
    }
}

impl Style {
    /// The text that the box shows: its content, unless that is empty. Where
    /// this is some text, the backend is to measure it in the font of the
    /// style before the box is laid out.
    pub fn shown_text(&self) -> (out: Option<&String>)
        ensures
            match out {
                Some(text) => shown_text(self@) == Some(text@),
                None => shown_text(self@) is None,
            },
    {
        match &self.content {
            Some(text) => if text.as_str().is_empty() {
                None
            } else {
                Some(text)
            },
            None => None,
        }
    }

    /// Lays the box out. `extents` is what the backend measured of the text
    /// that the box shows; it does not count for a box that shows none.
    pub fn layout(&self, extents: Option<TextExtents>) -> (out: Layout)
        ensures
            out == layout_of(self@, extents),
    {
        let counted: Option<TextExtents> = if self.shown_text().is_some() {
            extents
        } else {
            None
        };
        let width: i32 = match self.width {
            Some(width) => width,
            None => match counted {
                Some(measured) => measured.width,
                None => MINIMUM_SIZE,
            },
        };
        let height: i32 = match self.height {
            Some(height) => height,
            None => match counted {
                Some(measured) => measured.height,
                None => MINIMUM_SIZE,
            },
        };
        let (text_width, bearing): (i32, i32) = match counted {
            Some(measured) => (measured.width, measured.bearing),
            None => (0, 0),
        };
        let top: i64 = self.margin[0] as i64;
        let right: i64 = self.margin[1] as i64;
        let bottom: i64 = self.margin[2] as i64;
        let left: i64 = self.margin[3] as i64;
        let inner_top: i64 = self.padding[0] as i64;
        let inner_right: i64 = self.padding[1] as i64;
        let inner_bottom: i64 = self.padding[2] as i64;
        let inner_left: i64 = self.padding[3] as i64;
        let wide: i64 = width as i64;
        let high: i64 = height as i64;
        let text_wide: i64 = text_width as i64;
        let rise: i64 = bearing as i64;
        let anchor = match self.font.text_align {
            TextAlign::Left => Some(
                Point { x: inner_left + left, y: rise + inner_top + top },
            ),
            TextAlign::Center => Some(
                Point { x: wide / 2 - text_wide / 2 + inner_left, y: rise + inner_top },
            ),
            TextAlign::Right => Some(Point { x: wide - text_wide, y: rise }),
            TextAlign::Unrecognized => None,
        };
        Layout {
            width,
            height,
            surface_width: wide + right + left + inner_right + inner_left,
            surface_height: high + top + bottom + inner_top + inner_bottom,
            origin: Point { x: left, y: top },
            box_width: wide + inner_right + inner_left,
            box_height: high + inner_top + inner_bottom,
            anchor,
        }
    }
}

/// The surface is the content with its padding and its margin. Whatever the
/// style and whatever was measured, the width of the surface is the final
/// width of the content plus the left and right margin and padding, and its
/// height is the final height plus the top and bottom margin and padding.
pub proof fn lemma_surface_size(style: StyleView, extents: Option<TextExtents>)
    ensures
        layout_of(style, extents).surface_width == final_width(style, extents) + style.margin[3]
            + style.margin[1] + style.padding[3] + style.padding[1],
        layout_of(style, extents).surface_height == final_height(style, extents) + style.margin[0]
            + style.margin[2] + style.padding[0] + style.padding[2],
{
}

/// An explicit size is final: text and measurement do not change it.
pub proof fn lemma_explicit_size_is_final(
    style: StyleView,
    extents: Option<TextExtents>,
    width: i32,
    height: i32,
)
    requires
        style.width == Some(width),
        style.height == Some(height),
    ensures
        layout_of(style, extents).width == width,
        layout_of(style, extents).height == height,
        layout_of(style, extents).surface_width == width + style.margin[3] + style.margin[1]
            + style.padding[3] + style.padding[1],
        layout_of(style, extents).surface_height == height + style.margin[0] + style.margin[2]
            + style.padding[0] + style.padding[2],
{
}

/// A box without explicit size takes the size of its text: where the style
/// gives neither width nor height and the box shows text that was measured,
/// the final size is the measured size.
pub proof fn lemma_size_from_text(style: StyleView, measured: TextExtents)
    requires
        style.width is None,
        style.height is None,
        shown_text(style) is Some,
    ensures
        layout_of(style, Some(measured)).width == measured.width,
        layout_of(style, Some(measured)).height == measured.height,
        layout_of(style, Some(measured)).surface_width == measured.width + style.margin[3]
            + style.margin[1] + style.padding[3] + style.padding[1],
        layout_of(style, Some(measured)).surface_height == measured.height + style.margin[0]
            + style.margin[2] + style.padding[0] + style.padding[2],
{
}

/// A box with neither explicit size nor text has the minimum size, whatever
/// is handed in as measured.
pub proof fn lemma_minimum_size(style: StyleView, extents: Option<TextExtents>)
    requires
        style.width is None,
        style.height is None,
        shown_text(style) is None,
    ensures
        layout_of(style, extents).width == 5,
        layout_of(style, extents).height == 5,
{
}

} // verus!
