//! Styled boxes from a small style-sheet language.
//!
//! A style sheet is a list of blocks, `name { property: value; ... }`. Each
//! block describes one independent box: its size, spacing, background and an
//! optional line of text. The library turns the text of a style sheet into
//! typed styles, resolves the final geometry of every box and lays down the
//! ordered drawing operations that a raster backend has to perform.
//!
//! Rendering alternates with the backend once: a box that shows text is laid
//! out from the extents of that text, which only the backend can measure. So
//! a caller parses, has the backend measure the text of each style that
//! shows any, and hands the extents to `render`, which returns for every box
//! the operations that paint it.
use vstd::prelude::*;

pub mod color;
pub mod error;
pub mod font;
pub mod layout;
pub mod number;
pub mod paint;
pub mod property;
pub mod spacing;
pub mod style;
pub mod table;
pub mod text;
pub mod tokenizer;

use crate::error::CssError;
use crate::font::{text_align, TextAlign};
use crate::layout::{layout_of, TextExtents};
use crate::paint::{ops_view, painting_of, PaintOp, PaintOpView};
use crate::property::{model_of, Properties, Property, PropertyMap};
use crate::spacing::{sides, Spacing};
use crate::style::{content_of, size_of, style_of, Style, StyleView};
use crate::table::{
    distinct_names, lemma_lookup_absent, lemma_lookup_at, lemma_upsert_distinct, lookup, upsert, Table,
};
use crate::text::chars_of;
use crate::tokenizer::{blocks_of, blocks_view, chunks, chunks_of, read_blocks, Block};

verus! {

/// The styles of a sheet: from the name of each block to its style, in the
/// order of the blocks.
pub type StyleSheet = Table<Style>;

/// The model of a `StyleSheet`.
pub type Sheet = Seq<(Seq<char>, StyleView)>;

/// What the backend measured: from the name of a block to the extents of the
/// text that its box shows.
pub type Measurements = Table<TextExtents>;

/// The operations that paint the box of one block.
#[derive(Clone, Debug, PartialEq, Eq)]
pub struct Rendered {
    /// The name of the block.
    pub name: String,
    /// The operations, in their order.
    pub ops: Vec<PaintOp>,
}

impl View for Rendered {
    type V = (Seq<char>, Seq<PaintOpView>);

    open spec fn view(&self) -> (Seq<char>, Seq<PaintOpView>) {
        (self.name@, ops_view(self.ops@))
    }
}

/// The models of the renderings `done`, in order.
pub open spec fn rendered_view(done: Seq<Rendered>) -> Seq<(Seq<char>, Seq<PaintOpView>)> {
    Seq::new(done.len(), |i: int| done[i]@)
}

/// The name of the universal block, whose properties every block falls back
/// to.
pub open spec fn universal_name() -> Seq<char> {
    "*"@
}

/// The properties of the universal block: those of the first block named
/// `*`, if the sheet has one.
pub open spec fn universal_of(blocks: Seq<(Seq<char>, Properties)>) -> Option<Properties> {
    lookup(blocks, universal_name())
}

/// The styles of the blocks `blocks`, with `universal` as the fallback of
/// each. The blocks are taken in order and the error of the first block whose
/// style cannot be built ends the building. A later block replaces the style
/// of an earlier block of the same name.
pub open spec fn styles_of(blocks: Seq<(Seq<char>, Properties)>, universal: Option<Properties>) -> Result<
    Sheet,
    CssError<'static>,
>
    decreases blocks.len(),
{
    if blocks.len() == 0 {
        Ok(Seq::<(Seq<char>, StyleView)>::empty())
    } else {
        match styles_of(blocks.drop_last(), universal) {
            Err(error) => Err(error),
            Ok(before) => match style_of(blocks.last().1, universal) {
                Err(error) => Err(error),
                Ok(style) => Ok(upsert(before, blocks.last().0, style)),
            },
        }
    }
}

/// The styles that the text `text` of a style sheet gives.
///
/// A text without any block is an error. So is a piece of the text that is
/// no block, and so is a block whose style cannot be built. All the pieces
/// are read before the first style is built.
pub open spec fn sheet_of(text: Seq<char>) -> Result<Sheet, CssError<'static>> {
    let pieces = chunks(text);
    if pieces.len() == 0 {
        Err(CssError::ContentError("Empty style sheet"))
    } else {
        match blocks_of(pieces) {
            Err(error) => Err(error),
            Ok(blocks) => styles_of(blocks, universal_of(blocks)),
        }
    }
}

/// The operations that paint the boxes of the sheet `sheet`, one entry for
/// each style in the order of the sheet, where `extents` holds what was
/// measured. The boxes are independent of each other. The error of the first
/// box that cannot be painted ends the rendering: nothing is returned of the
/// boxes before it.
pub open spec fn rendering_of(sheet: Sheet, extents: Seq<(Seq<char>, TextExtents)>) -> Result<
    Seq<(Seq<char>, Seq<PaintOpView>)>,
    CssError<'static>,
>
    decreases sheet.len(),
{
    if sheet.len() == 0 {
        Ok(Seq::<(Seq<char>, Seq<PaintOpView>)>::empty())
    } else {
        match rendering_of(sheet.drop_last(), extents) {
            Err(error) => Err(error),
            Ok(before) => match painting_of(sheet.last().1, lookup(extents, sheet.last().0)) {
                Err(error) => Err(error),
                Ok(ops) => Ok(before.push((sheet.last().0, ops))),
            },
        }
    }
}

/// What rendering gives for something that parses to `parsed`: the error of
/// the parsing, or the rendering of the sheet.
pub open spec fn rendering_of_parsed(
    parsed: Result<Sheet, CssError<'static>>,
    extents: Seq<(Seq<char>, TextExtents)>,
) -> Result<Seq<(Seq<char>, Seq<PaintOpView>)>, CssError<'static>> {
    match parsed {
        Err(error) => Err(error),
        Ok(sheet) => rendering_of(sheet, extents),
    }
}

/// Where the blocks up to a place give an error, all the blocks give it.
pub proof fn lemma_styles_error(
    blocks: Seq<(Seq<char>, Properties)>,
    universal: Option<Properties>,
    upto: int,
)
    requires
        0 <= upto <= blocks.len(),
        styles_of(blocks.take(upto), universal) is Err,
    ensures
        styles_of(blocks, universal) == styles_of(blocks.take(upto), universal),
    decreases blocks.len() - upto,
{
    if upto < blocks.len() {
        assert(blocks.take(upto + 1).drop_last() =~= blocks.take(upto));
        lemma_styles_error(blocks, universal, upto + 1);
    } else {
        assert(blocks.take(upto) =~= blocks);
    }
}

/// Where the styles up to a place give an error, all the styles give it.
pub proof fn lemma_rendering_error(
    sheet: Sheet,
    extents: Seq<(Seq<char>, TextExtents)>,
    upto: int,
)
    requires
        0 <= upto <= sheet.len(),
        rendering_of(sheet.take(upto), extents) is Err,
    ensures
        rendering_of(sheet, extents) == rendering_of(sheet.take(upto), extents),
    decreases sheet.len() - upto,
{
    if upto < sheet.len() {
        assert(sheet.take(upto + 1).drop_last() =~= sheet.take(upto));
        lemma_rendering_error(sheet, extents, upto + 1);
    } else {
        assert(sheet.take(upto) =~= sheet);
    }
}

/// The properties of the universal block among `blocks`.
fn universal_block(blocks: &Vec<Block>) -> (out: Option<&PropertyMap>)
    ensures
        model_of(out) == universal_of(blocks_view(blocks@)),
{
    let star = "*".to_owned();
    let mut i: usize = 0;
    while i < blocks.len()
        invariant
            i <= blocks@.len(),
            star@ == universal_name(),
            forall|k: int| 0 <= k < i ==> (#[trigger] blocks_view(blocks@)[k]).0 != universal_name(),
        decreases blocks@.len() - i,
    {
        if blocks[i].selector == star {
            proof {
                lemma_lookup_at(blocks_view(blocks@), universal_name(), i as int);
            }
            return Some(&blocks[i].properties);
        }
        i = i + 1;
    }
    proof {
        lemma_lookup_absent(blocks_view(blocks@), universal_name());
    }
    None
}

/// Builds the styles of the blocks `blocks`.
fn build_styles(blocks: &Vec<Block>, universal: Option<&PropertyMap>) -> (out: Result<
    StyleSheet,
    CssError<'static>,
>)
    ensures
        match out {
            Ok(sheet) => styles_of(blocks_view(blocks@), model_of(universal)) == Ok::<
                Sheet,
                CssError<'static>,
            >(sheet@),
            Err(error) => styles_of(blocks_view(blocks@), model_of(universal)) == Err::<
                Sheet,
                CssError<'static>,
            >(error),
        },
{
    let mut sheet: StyleSheet = Table::new();
    let mut i: usize = 0;
    let ghost all = blocks_view(blocks@);
    proof {
        assert(all.take(0) =~= Seq::<(Seq<char>, Properties)>::empty());
    }
    while i < blocks.len()
        invariant
            i <= blocks@.len(),
            all == blocks_view(blocks@),
            styles_of(all.take(i as int), model_of(universal)) == Ok::<Sheet, CssError<'static>>(
                sheet@,
            ),
        decreases blocks@.len() - i,
    {
        proof {
            assert(all.take(i as int + 1).drop_last() =~= all.take(i as int));
            assert(all.take(i as int + 1).last() == blocks@[i as int]@);
        }
        match Style::new(&blocks[i].properties, universal) {
            Ok(style) => {
                sheet.insert(blocks[i].selector.clone(), style);
            },
            Err(error) => {
                proof {
                    lemma_styles_error(all, model_of(universal), i as int + 1);
                }
                return Err(error);
            },
        }
        i = i + 1;
    }
    proof {
        assert(all.take(blocks@.len() as int) =~= all);
    }
    Ok(sheet)
}

/// Parses the text of a style sheet into the styles of its blocks.
pub fn parse(css: &str) -> (out: Result<StyleSheet, CssError<'static>>)
    ensures
        match out {
            Ok(sheet) => sheet_of(css@) == Ok::<Sheet, CssError<'static>>(sheet@)
                && sheet.well_formed(),
            Err(error) => sheet_of(css@) == Err::<Sheet, CssError<'static>>(error),
        },
{
    proof {
        if sheet_of(css@) is Ok {
            lemma_parsed_sheet(css@);
        }
    }
    let text = chars_of(css);
    let pieces = chunks_of(&text);
    if pieces.len() == 0 {
        return Err(CssError::ContentError("Empty style sheet"));
    }
    let blocks = match read_blocks(&pieces) {
        Ok(blocks) => blocks,
        Err(error) => {
            return Err(error);
        },
    };
    let universal = universal_block(&blocks);
    build_styles(&blocks, universal)
}

/// What can be rendered: the text of a style sheet, or styles that were
/// parsed before and perhaps changed since.
pub trait Parseable: Sized {
    /// The styles that this stands for, or why it stands for none.
    spec fn parsed(self) -> Result<Sheet, CssError<'static>>;

    /// The styles that this stands for.
    fn parse(self) -> (out: Result<StyleSheet, CssError<'static>>)
        ensures
            match out {
                Ok(sheet) => self.parsed() == Ok::<Sheet, CssError<'static>>(sheet@),
                Err(error) => self.parsed() == Err::<Sheet, CssError<'static>>(error),
            },
    ;
}

impl<'a> Parseable for &'a str {
    open spec fn parsed(self) -> Result<Sheet, CssError<'static>> {
        sheet_of(self@)
    }

    fn parse(self) -> (out: Result<StyleSheet, CssError<'static>>) {
        crate::parse(self)
    }
}

impl Parseable for StyleSheet {
    open spec fn parsed(self) -> Result<Sheet, CssError<'static>> {
        Ok(self@)
    }

    fn parse(self) -> (out: Result<StyleSheet, CssError<'static>>) {
        Ok(self)
    }
}

impl<'a> Parseable for &'a StyleSheet {
    open spec fn parsed(self) -> Result<Sheet, CssError<'static>> {
        Ok(self@)
    }

    fn parse(self) -> (out: Result<StyleSheet, CssError<'static>>) {
        Ok(self.replicate())
    }
}

impl<'a> Parseable for Table<&'a Style> {
    open spec fn parsed(self) -> Result<Sheet, CssError<'static>> {
        Ok(self@)
    }

    fn parse(self) -> (out: Result<StyleSheet, CssError<'static>>) {
        Ok(self.replicate_borrowed())
    }
}

/// Lays down the operations that paint every box of `sheet`, in the order of
/// the sheet. `extents` holds, under the name of its block, what the backend
/// measured of the text of each box that shows text; a box whose text was not
/// measured is laid out as if its text had no extent.
pub fn render_sheet(sheet: &StyleSheet, extents: &Measurements) -> (out: Result<
    Vec<Rendered>,
    CssError<'static>,
>)
    ensures
        match out {
            Ok(done) => rendering_of(sheet@, extents@) == Ok::<
                Seq<(Seq<char>, Seq<PaintOpView>)>,
                CssError<'static>,
            >(rendered_view(done@)),
            Err(error) => rendering_of(sheet@, extents@) == Err::<
                Seq<(Seq<char>, Seq<PaintOpView>)>,
                CssError<'static>,
            >(error),
        },
{
    let mut done: Vec<Rendered> = Vec::new();
    let mut i: usize = 0;
    proof {
        assert(sheet@.take(0) =~= Seq::<(Seq<char>, StyleView)>::empty());
        assert(rendered_view(done@) =~= Seq::<(Seq<char>, Seq<PaintOpView>)>::empty());
    }
    while i < sheet.len()
        invariant
            i <= sheet@.len(),
            rendering_of(sheet@.take(i as int), extents@) == Ok::<
                Seq<(Seq<char>, Seq<PaintOpView>)>,
                CssError<'static>,
            >(rendered_view(done@)),
        decreases sheet@.len() - i,
    {
        proof {
            assert(sheet@.take(i as int + 1).drop_last() =~= sheet@.take(i as int));
            assert(sheet@.take(i as int + 1).last() == sheet@[i as int]);
        }
        let (name, style) = sheet.entry(i);
        let measured: Option<TextExtents> = match extents.get(name.as_str()) {
            Some(found) => Some(*found),
            None => None,
        };
        match style.compose(measured) {
            Ok(ops) => {
                let ghost before = rendered_view(done@);
                let entry = Rendered { name: name.clone(), ops };
                done.push(entry);
                proof {
                    assert(rendered_view(done@) =~= before.push(entry@));
                }
            },
            Err(error) => {
                proof {
                    lemma_rendering_error(sheet@, extents@, i as int + 1);
                }
                return Err(error);
            },
        }
        i = i + 1;
    }
    proof {
        assert(sheet@.take(sheet@.len() as int) =~= sheet@);
    }
    Ok(done)
}

/// Renders `css`: parses it if it is text, and lays down the operations that
/// paint every box, in the order of the sheet. The first error ends the
/// rendering; nothing is returned of the boxes before it.
pub fn render<T: Parseable>(css: T, extents: &Measurements) -> (out: Result<
    Vec<Rendered>,
    CssError<'static>,
>)
    ensures
        match out {
            Ok(done) => rendering_of_parsed(css.parsed(), extents@) == Ok::<
                Seq<(Seq<char>, Seq<PaintOpView>)>,
                CssError<'static>,
            >(rendered_view(done@)),
            Err(error) => rendering_of_parsed(css.parsed(), extents@) == Err::<
                Seq<(Seq<char>, Seq<PaintOpView>)>,
                CssError<'static>,
            >(error),
        },
{
    let styles = match css.parse() {
        Ok(styles) => styles,
        Err(error) => {
            return Err(error);
        },
    };
    render_sheet(&styles, extents)
}

/// Rendering is a function of the styles alone. Rendering the text of a
/// style sheet gives what rendering the styles gives that parsing this text
/// returns, handed over or lent, for whatever was measured: the same
/// operations for the same boxes in the same order.
pub proof fn lemma_render_round_trip(
    text: &str,
    styles: StyleSheet,
    extents: Seq<(Seq<char>, TextExtents)>,
)
    requires
        sheet_of(text@) == Ok::<Sheet, CssError<'static>>(styles@),
    ensures
        rendering_of_parsed(text.parsed(), extents) == rendering_of_parsed(
            styles.parsed(),
            extents,
        ),
        rendering_of_parsed(text.parsed(), extents) == rendering_of_parsed(
            (&styles).parsed(),
            extents,
        ),
{
}

/// Rendering text that does not parse fails with the error of the parsing.
pub proof fn lemma_render_reports_parse_error(
    text: &str,
    extents: Seq<(Seq<char>, TextExtents)>,
    error: CssError<'static>,
)
    requires
        sheet_of(text@) == Err::<Sheet, CssError<'static>>(error),
    ensures
        rendering_of_parsed(text.parsed(), extents) == Err::<
            Seq<(Seq<char>, Seq<PaintOpView>)>,
            CssError<'static>,
        >(error),
{
}

/// No name occurs twice among the styles that are built from blocks.
pub proof fn lemma_styles_distinct(
    blocks: Seq<(Seq<char>, Properties)>,
    universal: Option<Properties>,
)
    requires
        styles_of(blocks, universal) is Ok,
    ensures
        distinct_names(styles_of(blocks, universal)->Ok_0),
    decreases blocks.len(),
{
    if blocks.len() > 0 {
        lemma_styles_distinct(blocks.drop_last(), universal);
        let before = styles_of(blocks.drop_last(), universal)->Ok_0;
        let style = style_of(blocks.last().1, universal)->Ok_0;
        lemma_upsert_distinct(before, blocks.last().0, style);
    }
}

/// A sheet that parses has at least one style, and no name occurs twice in
/// it.
pub proof fn lemma_parsed_sheet(text: Seq<char>)
    requires
        sheet_of(text) is Ok,
    ensures
        distinct_names(sheet_of(text)->Ok_0),
{
    let blocks = blocks_of(chunks(text))->Ok_0;
    lemma_styles_distinct(blocks, universal_of(blocks));
}

/// A rendering has one entry for each style, under the name of the style
/// and in the order of the sheet, and each entry is the painting of its
/// style alone: no box depends on another.
pub proof fn lemma_rendering_entries(sheet: Sheet, extents: Seq<(Seq<char>, TextExtents)>)
    requires
        rendering_of(sheet, extents) is Ok,
    ensures
        rendering_of(sheet, extents)->Ok_0.len() == sheet.len(),
        forall|i: int|
            0 <= i < sheet.len() ==> {
                &&& painting_of((#[trigger] sheet[i]).1, lookup(extents, sheet[i].0)) is Ok
                &&& rendering_of(sheet, extents)->Ok_0[i] == (
                    sheet[i].0,
                    painting_of(sheet[i].1, lookup(extents, sheet[i].0))->Ok_0,
                )
            },
    decreases sheet.len(),
{
    if sheet.len() > 0 {
        let front = sheet.drop_last();
        lemma_rendering_entries(front, extents);
        let before = rendering_of(front, extents)->Ok_0;
        let all = rendering_of(sheet, extents)->Ok_0;
        let last = painting_of(sheet.last().1, lookup(extents, sheet.last().0))->Ok_0;
        assert(all == before.push((sheet.last().0, last)));
        assert forall|i: int| 0 <= i < sheet.len() implies {
            &&& painting_of((#[trigger] sheet[i]).1, lookup(extents, sheet[i].0)) is Ok
            &&& all[i] == (sheet[i].0, painting_of(sheet[i].1, lookup(extents, sheet[i].0))->Ok_0)
        } by {
            if i < sheet.len() - 1 {
                assert(front[i] == sheet[i]);
                assert(all[i] == before[i]);
            } else {
                assert(sheet[i] == sheet.last());
                assert(all[i] == (sheet.last().0, last));
            }
        }
    }
}

/// Rendering fails exactly where some box cannot be painted, and then with
/// the error of the first such box in the order of the sheet.
pub proof fn lemma_rendering_fails_fast(
    sheet: Sheet,
    extents: Seq<(Seq<char>, TextExtents)>,
    at: int,
)
    requires
        0 <= at < sheet.len(),
        painting_of(sheet[at].1, lookup(extents, sheet[at].0)) is Err,
        forall|i: int|
            0 <= i < at ==> painting_of((#[trigger] sheet[i]).1, lookup(extents, sheet[i].0)) is Ok,
    ensures
        rendering_of(sheet, extents) == Err::<Seq<(Seq<char>, Seq<PaintOpView>)>, CssError<'static>>(
            painting_of(sheet[at].1, lookup(extents, sheet[at].0))->Err_0,
        ),
{
    let head = sheet.take(at + 1);
    assert(head.drop_last() =~= sheet.take(at));
    assert(head.last() == sheet[at]);
    lemma_rendering_succeeds(sheet.take(at), extents);
    lemma_rendering_error(sheet, extents, at + 1);
}

/// Rendering succeeds where every box can be painted.
pub proof fn lemma_rendering_succeeds(sheet: Sheet, extents: Seq<(Seq<char>, TextExtents)>)
    requires
        forall|i: int|
            0 <= i < sheet.len() ==> painting_of((#[trigger] sheet[i]).1, lookup(extents, sheet[i].0)) is Ok,
    ensures
        rendering_of(sheet, extents) is Ok,
    decreases sheet.len(),
{
    if sheet.len() > 0 {
        assert forall|i: int| 0 <= i < sheet.drop_last().len() implies painting_of(
            (#[trigger] sheet.drop_last()[i]).1,
            lookup(extents, sheet.drop_last()[i].0),
        ) is Ok by {
            assert(sheet.drop_last()[i] == sheet[i]);
        }
        lemma_rendering_succeeds(sheet.drop_last(), extents);
        assert(sheet.last() == sheet[sheet.len() - 1]);
    }
}

/// Rendering styles that are lent one by one gives what rendering the table
/// that owns them gives.
pub proof fn lemma_render_borrowed(
    styles: StyleSheet,
    lent: Table<&Style>,
    extents: Seq<(Seq<char>, TextExtents)>,
)
    requires
        lent@ == styles@,
    ensures
        rendering_of_parsed(lent.parsed(), extents) == rendering_of_parsed(
            styles.parsed(),
            extents,
        ),
{
}

/// A box without explicit size takes its size from its text, from the block
/// on. Where a block gives no explicit width and no explicit height, gives
/// `content` that is not empty once it is clean, and has a style, the box of
/// that style is laid out with the measured width and height, and its
/// surface is these plus the margin and the padding of the block.
pub proof fn lemma_block_sized_by_text(
    css: Properties,
    universal: Option<Properties>,
    measured: TextExtents,
)
    requires
        style_of(css, universal) is Ok,
        size_of(css, universal, Property::Width) is None,
        size_of(css, universal, Property::Height) is None,
        content_of(css, universal) matches Some(text) && text.len() > 0,
    ensures
        ({
            let layout = layout_of(style_of(css, universal)->Ok_0, Some(measured));
            let margin = sides(css, universal, Spacing::Margin);
            let padding = sides(css, universal, Spacing::Padding);
            &&& layout.width == measured.width
            &&& layout.height == measured.height
            &&& layout.surface_width == measured.width + margin[3] + margin[1] + padding[3]
                + padding[1]
            &&& layout.surface_height == measured.height + margin[0] + margin[2] + padding[0]
                + padding[2]
        }),
{
}

/// A box with neither explicit size nor text has the minimum size, from the
/// block on: where a block gives no explicit width, no explicit height and
/// no `content`, and has a style, the box of that style is 5 pixels wide and
/// 5 pixels high whatever is handed in as measured, and painting it is no
/// error.
pub proof fn lemma_block_of_minimum_size(
    css: Properties,
    universal: Option<Properties>,
    extents: Option<TextExtents>,
)
    requires
        style_of(css, universal) is Ok,
        size_of(css, universal, Property::Width) is None,
        size_of(css, universal, Property::Height) is None,
        content_of(css, universal) is None,
    ensures
        layout_of(style_of(css, universal)->Ok_0, extents).width == 5,
        layout_of(style_of(css, universal)->Ok_0, extents).height == 5,
        painting_of(style_of(css, universal)->Ok_0, extents) is Ok,
{
}

/// The same for a whole style sheet. Where the text of a sheet is read as
/// one block named `name` with the properties `css`, and this block gives no
/// explicit size, gives text and an alignment that is known, and has a
/// style, then rendering the text with the extents `measured` under `name`
/// succeeds with one entry, under `name`, whose first operation creates a
/// surface of the measured width and height plus the margin and the padding
/// of the block.
pub proof fn lemma_sheet_sized_by_text(
    text: Seq<char>,
    name: Seq<char>,
    css: Properties,
    extents: Seq<(Seq<char>, TextExtents)>,
    measured: TextExtents,
)
    requires
        chunks(text).len() > 0,
        blocks_of(chunks(text)) == Ok::<Seq<(Seq<char>, Properties)>, CssError<'static>>(
            seq![(name, css)],
        ),
        lookup(extents, name) == Some(measured),
        style_of(css, universal_of(seq![(name, css)])) is Ok,
        size_of(css, universal_of(seq![(name, css)]), Property::Width) is None,
        size_of(css, universal_of(seq![(name, css)]), Property::Height) is None,
        content_of(css, universal_of(seq![(name, css)])) matches Some(shown) && shown.len() > 0,
        text_align(css, universal_of(seq![(name, css)])) != TextAlign::Unrecognized,
    ensures
        ({
            let universal = universal_of(seq![(name, css)]);
            let margin = sides(css, universal, Spacing::Margin);
            let padding = sides(css, universal, Spacing::Padding);
            let done = rendering_of_parsed(sheet_of(text), extents);
            &&& done is Ok
            &&& done->Ok_0.len() == 1
            &&& done->Ok_0[0].0 == name
            &&& done->Ok_0[0].1[0] == (PaintOpView::CreateSurface {
                width: (measured.width + margin[3] + margin[1] + padding[3] + padding[1]) as i64,
                height: (measured.height + margin[0] + margin[2] + padding[0] + padding[2]) as i64,
            })
        }),
{
    let blocks = seq![(name, css)];
    let universal = universal_of(blocks);
    let style = style_of(css, universal)->Ok_0;
    assert(blocks.drop_last() =~= Seq::<(Seq<char>, Properties)>::empty());
    assert(blocks.last() == (name, css));
    assert(styles_of(blocks.drop_last(), universal) == Ok::<Sheet, CssError<'static>>(
        Seq::<(Seq<char>, StyleView)>::empty(),
    ));
    let sheet = upsert(Seq::<(Seq<char>, StyleView)>::empty(), name, style);
    assert(sheet =~= seq![(name, style)]);
    assert(sheet_of(text) == Ok::<Sheet, CssError<'static>>(sheet));
    assert(sheet.drop_last() =~= Seq::<(Seq<char>, StyleView)>::empty());
    assert(sheet.last() == (name, style));
    assert(rendering_of(sheet.drop_last(), extents) == Ok::<
        Seq<(Seq<char>, Seq<PaintOpView>)>,
        CssError<'static>,
    >(Seq::<(Seq<char>, Seq<PaintOpView>)>::empty()));
    lemma_block_sized_by_text(css, universal, measured);
}

} // verus!
