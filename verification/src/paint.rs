//! The drawing operations that paint one box, in their order.
//!
//! The library draws nothing itself. It lays down what a raster backend has
//! to do, with every number that the backend is to be handed.
use crate::color::Color;
use crate::error::CssError;
use crate::font::{FontSlant, FontWeight, TextAlign};
use crate::layout::{layout_of, shown_text, Layout, TextExtents};
use crate::number::{Decimal, Ratio};
use crate::style::{Style, StyleView};
use vstd::prelude::*;

verus! {

/// The largest corner radius that is painted, in millionths of a pixel: a
/// larger radius is painted as this one.
pub const RADIUS_LIMIT_MICROS: i64 = 20_000_000;

/// By what a corner radius is divided before it is painted, in millionths:
/// 3.33.
pub const RADIUS_DIVISOR_MICROS: i64 = 3_330_000;

/// One drawing operation.
#[derive(Clone, Debug, PartialEq, Eq)]
pub enum PaintOp {
    /// Create the surface with this size in pixels.
    CreateSurface { width: i64, height: i64 },
    /// Paint with this colour from now on.
    SetSource { color: Color },
    /// Lay out the path of a rectangle with rounded corners: its top left
    /// corner, its size and the radius of its corners, in pixels.
    RoundedRectangle { x: i64, y: i64, width: i64, height: i64, radius: Ratio },
    /// Fill the path.
    Fill,
    /// Set text in this font from now on; the size is in pixels.
    SelectFont { family: String, size: Decimal, weight: FontWeight, slant: FontSlant },
    /// Move to this point.
    MoveTo { x: i64, y: i64 },
    /// Draw this text, starting on its baseline at the current point.
    ShowText { text: String },
    /// Encode the surface as a PNG image.
    Encode,
}

/// The model of a `PaintOp`.
pub ghost enum PaintOpView {
    CreateSurface { width: i64, height: i64 },
    SetSource { color: Color },
    RoundedRectangle { x: i64, y: i64, width: i64, height: i64, radius: Ratio },
    Fill,
    SelectFont { family: Seq<char>, size: Decimal, weight: FontWeight, slant: FontSlant },
    MoveTo { x: i64, y: i64 },
    ShowText { text: Seq<char> },
    Encode,
}

impl View for PaintOp {
    type V = PaintOpView;

    open spec fn view(&self) -> PaintOpView {
        match *self {
            PaintOp::CreateSurface { width, height } => PaintOpView::CreateSurface {
                width,
                height,
            },
            PaintOp::SetSource { color } => PaintOpView::SetSource { color },
            PaintOp::RoundedRectangle { x, y, width, height, radius } => PaintOpView::RoundedRectangle {
                x,
                y,
                width,
                height,
                radius,
            },
            PaintOp::Fill => PaintOpView::Fill,
            PaintOp::SelectFont { family, size, weight, slant } => PaintOpView::SelectFont {
                family: family@,
                size,
                weight,
                slant,
            },
            PaintOp::MoveTo { x, y } => PaintOpView::MoveTo { x, y },
            PaintOp::ShowText { text } => PaintOpView::ShowText { text: text@ },
            PaintOp::Encode => PaintOpView::Encode,
        }
    }
}

/// The models of the operations `ops`, in order.
pub open spec fn ops_view(ops: Seq<PaintOp>) -> Seq<PaintOpView> {
    Seq::new(ops.len(), |i: int| ops[i]@)
}

/// The radius with which the corners are painted: the border radius, or 20
/// pixels if it is larger than that, divided by 3.33.
pub open spec fn corner_radius(border_radius: Decimal) -> Ratio {
    Ratio {
        num: if border_radius.micros > RADIUS_LIMIT_MICROS {
            RADIUS_LIMIT_MICROS
        } else {
            border_radius.micros
        },
        den: RADIUS_DIVISOR_MICROS,
    }
}

/// The operations that fill the box: the surface, the background colour, the
/// path of the padding box and its filling.
pub open spec fn shape_ops(style: StyleView, layout: Layout) -> Seq<PaintOpView> {
    seq![
        PaintOpView::CreateSurface { width: layout.surface_width, height: layout.surface_height },
        PaintOpView::SetSource { color: style.background_color },
        PaintOpView::RoundedRectangle {
            x: layout.origin.x,
            y: layout.origin.y,
            width: layout.box_width,
            height: layout.box_height,
            radius: corner_radius(style.border_radius),
        },
        PaintOpView::Fill,
    ]
}

/// The operations that set the text `text` at the point `(x, y)`: the font,
/// the colour of the text without transparency, the move and the text.
pub open spec fn text_ops(style: StyleView, text: Seq<char>, x: i64, y: i64) -> Seq<PaintOpView> {
    seq![
        PaintOpView::SelectFont {
            family: style.font.family,
            size: style.font.size,
            weight: style.font.weight,
            slant: style.font.style,
        },
        PaintOpView::SetSource { color: style.font.color.solid() },
        PaintOpView::MoveTo { x, y },
        PaintOpView::ShowText { text },
    ]
}

/// The operations that paint a box with the style `style`, where `extents`
/// is what the backend measured of its text: the filled shape, then the text
/// if the box shows any, then the encoding. A box that shows text with an
/// alignment that is not known is an error; a box without text is painted
/// whatever its alignment.
pub open spec fn painting_of(style: StyleView, extents: Option<TextExtents>) -> Result<
    Seq<PaintOpView>,
    CssError<'static>,
> {
    let layout = layout_of(style, extents);
    match shown_text(style) {
        None => Ok(shape_ops(style, layout).push(PaintOpView::Encode)),
        Some(text) => match layout.anchor {
            None => Err(CssError::ContentError("Invalid text-align")),
            Some(at) => Ok(
                (shape_ops(style, layout) + text_ops(style, text, at.x, at.y)).push(
                    PaintOpView::Encode,
                ),
            ),
        },
    }
}

/// The radius with which the corners of a box with the border radius
/// `border_radius` are painted.
pub fn corner_radius_of(border_radius: Decimal) -> (out: Ratio)
    ensures
        out == corner_radius(border_radius),
{
    Ratio {
        num: if border_radius.micros > RADIUS_LIMIT_MICROS {
            RADIUS_LIMIT_MICROS
        } else {
            border_radius.micros
        },
        den: RADIUS_DIVISOR_MICROS,
    }
}

impl Style {
    /// The operations that paint the box, in their order. `extents` is what
    /// the backend measured of the text that the box shows.
    pub fn compose(&self, extents: Option<TextExtents>) -> (out: Result<
        Vec<PaintOp>,
        CssError<'static>,
    >)
        ensures
            match out {
                Ok(ops) => painting_of(self@, extents) == Ok::<Seq<PaintOpView>, CssError<'static>>(
                    ops_view(ops@),
                ),
                Err(error) => painting_of(self@, extents) == Err::<
                    Seq<PaintOpView>,
                    CssError<'static>,
                >(error),
            },
    {
        let layout = self.layout(extents);
        let mut ops: Vec<PaintOp> = Vec::new();
        ops.push(
            PaintOp::CreateSurface { width: layout.surface_width, height: layout.surface_height },
        );
        ops.push(PaintOp::SetSource { color: self.background_color });
        ops.push(
            PaintOp::RoundedRectangle {
                x: layout.origin.x,
                y: layout.origin.y,
                width: layout.box_width,
                height: layout.box_height,
                radius: corner_radius_of(self.border_radius),
            },
        );
        ops.push(PaintOp::Fill);
        proof {
            assert(ops_view(ops@) =~= shape_ops(self@, layout));
        }
        match self.shown_text() {
            None => {},
            Some(text) => {
                match layout.anchor {
                    None => {
                        return Err(CssError::ContentError("Invalid text-align"));
                    },
                    Some(at) => {
                        ops.push(
                            PaintOp::SelectFont {
                                family: self.font.family.clone(),
                                size: self.font.size,
                                weight: self.font.weight,
                                slant: self.font.style,
                            },
                        );
                        ops.push(PaintOp::SetSource { color: self.font.color.to_solid() });
                        ops.push(PaintOp::MoveTo { x: at.x, y: at.y });
                        ops.push(PaintOp::ShowText { text: text.clone() });
                        proof {
                            assert(ops_view(ops@) =~= shape_ops(self@, layout) + text_ops(
                                self@,
                                text@,
                                at.x,
                                at.y,
                            ));
                        }
                    },
                }
            },
        }
        let ghost before = ops_view(ops@);
        ops.push(PaintOp::Encode);
        proof {
            assert(ops_view(ops@) =~= before.push(PaintOpView::Encode));
        }
        Ok(ops)
    }
}

/// Painting fails for one reason only: the box shows text and the alignment
/// of the text is not known. No size, no colour and no measurement is an
/// error, nor is an unknown alignment of a box without text.
pub proof fn lemma_painting_fails_on_alignment_only(style: StyleView, extents: Option<TextExtents>)
    ensures
        painting_of(style, extents) is Err <==> shown_text(style) is Some && style.font.text_align
            == TextAlign::Unrecognized,
        painting_of(style, extents) is Err ==> painting_of(style, extents) == Err::<
            Seq<PaintOpView>,
            CssError<'static>,
        >(CssError::ContentError("Invalid text-align")),
{
}

/// The order of painting is fixed. A painting begins with the surface, the
/// background colour, the path of the padding box and its filling, and ends
/// with the encoding; a box with text has the four operations of its text
/// before the encoding, and a box without text has nothing there.
pub proof fn lemma_painting_order(style: StyleView, extents: Option<TextExtents>)
    requires
        painting_of(style, extents) is Ok,
    ensures
        ({
            let ops = painting_of(style, extents)->Ok_0;
            &&& ops.len() == if shown_text(style) is Some {
                9int
            } else {
                5int
            }
            &&& ops[0] is CreateSurface
            &&& ops[1] == (PaintOpView::SetSource { color: style.background_color })
            &&& ops[2] is RoundedRectangle
            &&& ops[3] is Fill
            &&& ops.last() is Encode
            &&& shown_text(style) is Some ==> {
                &&& ops[4] is SelectFont
                &&& ops[5] is SetSource
                &&& ops[6] is MoveTo
                &&& ops[7] == (PaintOpView::ShowText { text: shown_text(style)->Some_0 })
            }
        }),
{
}

/// The painted corner radius never exceeds 20 pixels divided by 3.33, and
/// is the border radius divided by 3.33 up to there.
pub proof fn lemma_corner_radius_is_limited(border_radius: Decimal)
    ensures
        corner_radius(border_radius).den == 3_330_000,
        corner_radius(border_radius).num <= 20_000_000,
        border_radius.micros <= 20_000_000 ==> corner_radius(border_radius).num
            == border_radius.micros,
{
}

} // verus!
