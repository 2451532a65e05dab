//! Taking the text of a style sheet apart into blocks and declarations.
//!
//! The text is cut after every closing brace. Each piece that is not blank
//! has to be one block: a selector, an opening brace, declarations and the
//! closing brace. What a block and a declaration look like is given by two
//! regular expressions, which the `regex` crate matches; the cutting, the
//! reading of the matches and the building of the property maps are done
//! here.
use crate::error::CssError;
use crate::property::{Properties, PropertyMap};
use crate::table::{upsert, Table};
use crate::text::{
    chars_of, clean_value, cleaned, keep_non_empty, non_empty, slice_of, split, split_at,
    string_of, texts, trim, trimmed, Separator,
};
use vstd::prelude::*;

verus! {

/// The pattern of a block. Its first group is the selector, its second what
/// stands between the braces.
pub const BLOCK_PATTERN: &'static str = r"(?P<selector>\S+)\s*\{\s*(?P<properties>[^}]+)\s*\}";

/// The pattern of a declaration. Its first group is the name of the
/// property, its second the raw value.
pub const PROPERTY_PATTERN: &'static str = r"(?P<property>[\w-]+):\s*(?P<value>[^;]+);";

/// The matches of a pattern in a text, in the order in which they are found.
/// A match is the list of its groups: first the whole match, then each group
/// of the pattern in the order of the opening brackets. A group that took no
/// part in the match is `None`.
pub type Matches = Seq<Seq<Option<Seq<char>>>>;

/// What the `regex` crate finds of `pattern` in `text`: the successive
/// matches that do not overlap, each with its groups; `None` if it does not
/// accept `pattern`.
pub uninterp spec fn regex_captures(pattern: Seq<char>, text: Seq<char>) -> Option<Matches>;

/// Matches `pattern` against `text`.
///
/// Trusted: compiles the pattern with `regex::Regex::new` and walks
/// `Regex::captures_iter` over the text, copying of every match the text of
/// each group that `Captures::iter` yields. The contract claims only that the
/// outcome is the one fixed value that the crate gives for this pattern and
/// this text.
#[verifier::external_body]
fn captures(pattern: &str, text: &str) -> (out: Option<Vec<Vec<Option<String>>>>)
    ensures
        out.deep_view() == regex_captures(pattern@, text@),
{
    let compiled = regex::Regex::new(pattern).ok()?;
    Some(
        compiled.captures_iter(text).map(
            |found| found.iter().map(|group| group.map(|m| m.as_str().to_string())).collect(),
        ).collect(),
    )
}

/// What matching `pattern` against `text` gives: the matches, or a parse
/// error for a pattern that the `regex` crate does not accept.
pub open spec fn matches_of(pattern: Seq<char>, text: Seq<char>) -> Result<
    Matches,
    CssError<'static>,
> {
    match regex_captures(pattern, text) {
        Some(found) => Ok(found),
        None => Err(CssError::ParseError),
    }
}

/// Finds the matches of `pattern` in `text`, each with its groups.
pub fn find_all(pattern: &str, text: &str) -> (out: Result<
    Vec<Vec<Option<String>>>,
    CssError<'static>,
>)
    ensures
        match out {
            Ok(found) => matches_of(pattern@, text@) == Ok::<Matches, CssError<'static>>(
                found.deep_view(),
            ),
            Err(error) => matches_of(pattern@, text@) == Err::<Matches, CssError<'static>>(error),
        },
{
    match captures(pattern, text) {
        Some(found) => Ok(found),
        None => Err(CssError::ParseError),
    }
}

/// One block of a style sheet.
#[derive(Debug)]
pub struct Block {
    /// The name of the block.
    pub selector: String,
    /// What the block declares.
    pub properties: PropertyMap,
}

impl View for Block {
    type V = (Seq<char>, Properties);

    open spec fn view(&self) -> (Seq<char>, Properties) {
        (self.selector@, self.properties@)
    }
}

/// The models of the blocks `blocks`, in order.
pub open spec fn blocks_view(blocks: Seq<Block>) -> Seq<(Seq<char>, Properties)> {
    Seq::new(blocks.len(), |i: int| blocks[i]@)
}

/// The first and the second group of a match of a pattern with two groups;
/// nothing for a match with another number of groups or with a group that
/// took no part.
pub open spec fn pair_of(groups: Seq<Option<Seq<char>>>) -> Option<(Seq<char>, Seq<char>)> {
    if groups.len() == 3 {
        match (groups[1], groups[2]) {
            (Some(first), Some(second)) => Some((first, second)),
            _ => None,
        }
    } else {
        None
    }
}

/// The property map that the matches of the declaration pattern give: each
/// match puts its value, made clean, under its name without the white space
/// around it, so that the last declaration of a property wins.
pub open spec fn declarations(found: Matches) -> Properties
    decreases found.len(),
{
    if found.len() == 0 {
        Seq::<(Seq<char>, Seq<char>)>::empty()
    } else {
        let before = declarations(found.drop_last());
        match pair_of(found.last()) {
            Some((name, value)) => upsert(before, trim(name), clean_value(value)),
            None => before,
        }
    }
}

/// The selector and the body of a block, from the matches of the block
/// pattern in its text: the groups of the first match. No match, or a first
/// match without both groups, is an error.
pub open spec fn block_parts(found: Matches) -> Result<(Seq<char>, Seq<char>), CssError<'static>> {
    if found.len() == 0 {
        Err(CssError::ContentError("Not a selector block"))
    } else {
        match pair_of(found[0]) {
            Some(parts) => Ok(parts),
            None => Err(CssError::ContentError("Not a selector block")),
        }
    }
}

/// The block that the piece `chunk` of a style sheet is: its selector and
/// its property map. A pattern that the `regex` crate does not accept is a
/// parse error; a piece that is no block is a content error.
pub open spec fn block_of(chunk: Seq<char>) -> Result<(Seq<char>, Properties), CssError<'static>> {
    match matches_of(BLOCK_PATTERN@, chunk) {
        Err(error) => Err(error),
        Ok(found) => match block_parts(found) {
            Err(error) => Err(error),
            Ok((selector, body)) => match matches_of(PROPERTY_PATTERN@, body) {
                Err(error) => Err(error),
                Ok(declared) => Ok((selector, declarations(declared))),
            },
        },
    }
}

/// `parts` with a closing brace added to each part but the last.
pub open spec fn closed(parts: Seq<Seq<char>>) -> Seq<Seq<char>> {
    Seq::new(
        parts.len(),
        |i: int|
            if i < parts.len() - 1 {
                parts[i].push('}')
            } else {
                parts[i]
            },
    )
}

/// `parts` with the white space around each part taken away.
pub open spec fn all_trimmed(parts: Seq<Seq<char>>) -> Seq<Seq<char>> {
    Seq::new(parts.len(), |i: int| trim(parts[i]))
}

/// The pieces of the style sheet `text`: it is cut after every closing
/// brace, each piece loses the white space around it, and blank pieces are
/// dropped.
pub open spec fn chunks(text: Seq<char>) -> Seq<Seq<char>> {
    non_empty(all_trimmed(closed(split(text, Separator::Is('}')))))
}

/// The blocks that the pieces `pieces` are, in order; the error of the first
/// piece that is no block.
pub open spec fn blocks_of(pieces: Seq<Seq<char>>) -> Result<
    Seq<(Seq<char>, Properties)>,
    CssError<'static>,
>
    decreases pieces.len(),
{
    if pieces.len() == 0 {
        Ok(Seq::<(Seq<char>, Properties)>::empty())
    } else {
        match blocks_of(pieces.drop_last()) {
            Err(error) => Err(error),
            Ok(before) => match block_of(pieces.last()) {
                Err(error) => Err(error),
                Ok(block) => Ok(before.push(block)),
            },
        }
    }
}

/// Where the pieces up to a place give an error, all the pieces give it.
pub proof fn lemma_blocks_error(pieces: Seq<Seq<char>>, upto: int)
    requires
        0 <= upto <= pieces.len(),
        blocks_of(pieces.take(upto)) is Err,
    ensures
        blocks_of(pieces) == blocks_of(pieces.take(upto)),
    decreases pieces.len() - upto,
{
    if upto < pieces.len() {
        assert(pieces.take(upto + 1).drop_last() =~= pieces.take(upto));
        lemma_blocks_error(pieces, upto + 1);
    } else {
        assert(pieces.take(upto) =~= pieces);
    }
}

/// The groups of a match, read as the first and the second group.
pub fn pair_from(groups: &Vec<Option<String>>) -> (out: Option<(&String, &String)>)
    ensures
        match out {
            Some((first, second)) => pair_of(groups.deep_view()) == Some((first@, second@)),
            None => pair_of(groups.deep_view()) is None,
        },
{
    if groups.len() != 3 {
        return None;
    }
    proof {
        assert(groups.deep_view()[1] == groups@[1].deep_view());
        assert(groups.deep_view()[2] == groups@[2].deep_view());
    }
    match (&groups[1], &groups[2]) {
        (Some(first), Some(second)) => Some((first, second)),
        _ => None,
    }
}

/// `value` without the white space around it.
fn trimmed_text(value: &String) -> (out: Vec<char>)
    ensures
        out@ == trim(value@),
{
    let raw = chars_of(value.as_str());
    trimmed(&raw)
}

/// Builds the property map from the matches of the declaration pattern.
pub fn declarations_from(found: &Vec<Vec<Option<String>>>) -> (out: PropertyMap)
    ensures
        out@ == declarations(found.deep_view()),
        out.well_formed(),
{
    let mut out: PropertyMap = Table::new();
    let mut i: usize = 0;
    proof {
        assert(found.deep_view().take(0) =~= Seq::<Seq<Option<Seq<char>>>>::empty());
    }
    while i < found.len()
        invariant
            i <= found@.len(),
            out@ == declarations(found.deep_view().take(i as int)),
            out.well_formed(),
        decreases found@.len() - i,
    {
        proof {
            assert(found.deep_view().take(i as int + 1).drop_last() =~= found.deep_view().take(
                i as int,
            ));
            assert(found.deep_view().take(i as int + 1).last() == found@[i as int].deep_view());
        }
        match pair_from(&found[i]) {
            Some((name, value)) => {
                let key = trimmed_text(name);
                let raw = chars_of(value.as_str());
                let clean = cleaned(&raw);
                out.insert(string_of(&key), string_of(&clean));
            },
            None => {},
        }
        i = i + 1;
    }
    proof {
        assert(found.deep_view().take(found@.len() as int) =~= found.deep_view());
    }
    out
}

/// Reads the selector and the body of a block from the matches of the block
/// pattern in its text.
pub fn block_parts_from(found: &Vec<Vec<Option<String>>>) -> (out: Result<
    (&String, &String),
    CssError<'static>,
>)
    ensures
        match out {
            Ok((selector, body)) => block_parts(found.deep_view()) == Ok::<
                (Seq<char>, Seq<char>),
                CssError<'static>,
            >((selector@, body@)),
            Err(error) => block_parts(found.deep_view()) == Err::<
                (Seq<char>, Seq<char>),
                CssError<'static>,
            >(error),
        },
{
    if found.len() == 0 {
        return Err(CssError::ContentError("Not a selector block"));
    }
    proof {
        assert(found.deep_view()[0] == found@[0].deep_view());
    }
    match pair_from(&found[0]) {
        Some(parts) => Ok(parts),
        None => Err(CssError::ContentError("Not a selector block")),
    }
}

/// Reads one piece of a style sheet as a block.
pub fn read_block(chunk: &Vec<char>) -> (out: Result<Block, CssError<'static>>)
    ensures
        match out {
            Ok(block) => block_of(chunk@) == Ok::<(Seq<char>, Properties), CssError<'static>>(
                block@,
            ) && block.properties.well_formed(),
            Err(error) => block_of(chunk@) == Err::<(Seq<char>, Properties), CssError<'static>>(
                error,
            ),
        },
{
    let text = string_of(chunk);
    let found = match find_all(BLOCK_PATTERN, text.as_str()) {
        Ok(found) => found,
        Err(error) => {
            return Err(error);
        },
    };
    let (selector, body) = match block_parts_from(&found) {
        Ok(parts) => parts,
        Err(error) => {
            return Err(error);
        },
    };
    let declared = match find_all(PROPERTY_PATTERN, body.as_str()) {
        Ok(declared) => declared,
        Err(error) => {
            return Err(error);
        },
    };
    let properties = declarations_from(&declared);
    Ok(Block { selector: selector.clone(), properties })
}

/// Cuts the text of a style sheet into its pieces.
pub fn chunks_of(text: &Vec<char>) -> (out: Vec<Vec<char>>)
    ensures
        texts(out@) == chunks(text@),
{
    let parts = split_at(text, Separator::Is('}'));
    let mut pieces: Vec<Vec<char>> = Vec::new();
    let mut i: usize = 0;
    let ghost goal = all_trimmed(closed(texts(parts@)));
    while i < parts.len()
        invariant
            i <= parts@.len(),
            goal == all_trimmed(closed(texts(parts@))),
            texts(pieces@) =~= goal.take(i as int),
        decreases parts@.len() - i,
    {
        let mut part = slice_of(&parts[i], 0, parts[i].len());
        proof {
            assert(part@ =~= parts@[i as int]@);
        }
        if i < parts.len() - 1 {
            part.push('}');
        }
        let piece = trimmed(&part);
        let ghost done = texts(pieces@);
        pieces.push(piece);
        proof {
            assert(texts(pieces@) =~= done.push(piece@));
            assert(goal[i as int] == piece@);
        }
        i = i + 1;
    }
    proof {
        assert(goal.take(parts@.len() as int) =~= goal);
    }
    keep_non_empty(&pieces)
}

/// Reads the pieces of a style sheet as blocks, in order. The first piece
/// that is no block ends the reading with its error.
pub fn read_blocks(pieces: &Vec<Vec<char>>) -> (out: Result<Vec<Block>, CssError<'static>>)
    ensures
        match out {
            Ok(blocks) => blocks_of(texts(pieces@)) == Ok::<
                Seq<(Seq<char>, Properties)>,
                CssError<'static>,
            >(blocks_view(blocks@)),
            Err(error) => blocks_of(texts(pieces@)) == Err::<
                Seq<(Seq<char>, Properties)>,
                CssError<'static>,
            >(error),
        },
{
    let mut blocks: Vec<Block> = Vec::new();
    let mut i: usize = 0;
    proof {
        assert(texts(pieces@).take(0) =~= Seq::<Seq<char>>::empty());
        assert(blocks_view(blocks@) =~= Seq::<(Seq<char>, Properties)>::empty());
    }
    while i < pieces.len()
        invariant
            i <= pieces@.len(),
            blocks_of(texts(pieces@).take(i as int)) == Ok::<
                Seq<(Seq<char>, Properties)>,
                CssError<'static>,
            >(blocks_view(blocks@)),
        decreases pieces@.len() - i,
    {
        proof {
            assert(texts(pieces@).take(i as int + 1).drop_last() =~= texts(pieces@).take(
                i as int,
            ));
            assert(texts(pieces@).take(i as int + 1).last() == pieces@[i as int]@);
        }
        match read_block(&pieces[i]) {
            Ok(block) => {
                let ghost done = blocks_view(blocks@);
                blocks.push(block);
                proof {
                    assert(blocks_view(blocks@) =~= done.push(block@));
                }
            },
            Err(error) => {
                proof {
                    lemma_blocks_error(texts(pieces@), i as int + 1);
                }
                return Err(error);
            },
        }
        i = i + 1;
    }
    proof {
        assert(texts(pieces@).take(pieces@.len() as int) =~= texts(pieces@));
    }
    Ok(blocks)
}

} // verus!
