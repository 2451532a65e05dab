//! Margins and paddings: four sides from a shorthand and from single sides.
use crate::number::{parse_pixels, pixels_of};
use crate::property::{model_of, resolve_chars, resolved, Properties, Property, PropertyMap};
use crate::table::{lemma_lookup_upsert, lookup, upsert};
use crate::text::{texts, words, words_of};
use vstd::prelude::*;

verus! {

/// Which of the two spacings of a box.
#[derive(Clone, Copy, Debug, PartialEq, Eq, Structural)]
pub enum Spacing {
    Margin,
    Padding,
}

impl Spacing {
    /// The property that gives all four sides at once.
    pub open spec fn shorthand(self) -> Property {
        match self {
            Spacing::Margin => Property::Margin,
            Spacing::Padding => Property::Padding,
        }
    }

    /// The property that gives the one side at place `side`.
    pub open spec fn side(self, side: int) -> Property {
        match self {
            Spacing::Margin => if side == 0 {
                Property::MarginTop
            } else if side == 1 {
                Property::MarginRight
            } else if side == 2 {
                Property::MarginBottom
            } else {
                Property::MarginLeft
            },
            Spacing::Padding => if side == 0 {
                Property::PaddingTop
            } else if side == 1 {
                Property::PaddingRight
            } else if side == 2 {
                Property::PaddingBottom
            } else {
                Property::PaddingLeft
            },
        }
    }

    /// The property that gives all four sides at once.
    pub fn shorthand_property(self) -> (out: Property)
        ensures
            out == self.shorthand(),
    {
        match self {
            Spacing::Margin => Property::Margin,
            Spacing::Padding => Property::Padding,
        }
    }

    /// The property that gives the one side at place `side`.
    pub fn side_property(self, side: usize) -> (out: Property)
        ensures
            out == self.side(side as int),
    {
        match self {
            Spacing::Margin => if side == 0 {
                Property::MarginTop
            } else if side == 1 {
                Property::MarginRight
            } else if side == 2 {
                Property::MarginBottom
            } else {
                Property::MarginLeft
            },
            Spacing::Padding => if side == 0 {
                Property::PaddingTop
            } else if side == 1 {
                Property::PaddingRight
            } else if side == 2 {
                Property::PaddingBottom
            } else {
                Property::PaddingLeft
            },
        }
    }
}

/// The pixel counts among `tokens`, in their order: of each token that is an
/// integer followed by the pixel unit, the integer. Other tokens are left out.
pub open spec fn pixel_values(tokens: Seq<Seq<char>>) -> Seq<i32>
    decreases tokens.len(),
{
    if tokens.len() == 0 {
        Seq::<i32>::empty()
    } else {
        match pixels_of(tokens.last()) {
            Some(value) => pixel_values(tokens.drop_last()).push(value),
            None => pixel_values(tokens.drop_last()),
        }
    }
}

/// The four sides, in the order top, right, bottom, left, that a shorthand
/// with the values `values` stands for: one value is all four sides; two are
/// top and bottom, then right and left; three are top, then right and left,
/// then bottom; four are the four sides. Any other count gives zero on every
/// side.
pub open spec fn expand(values: Seq<i32>) -> [i32; 4] {
    if values.len() == 1 {
        [values[0], values[0], values[0], values[0]]
    } else if values.len() == 2 {
        [values[0], values[1], values[0], values[1]]
    } else if values.len() == 3 {
        [values[0], values[1], values[2], values[1]]
    } else if values.len() == 4 {
        [values[0], values[1], values[2], values[3]]
    } else {
        [0i32, 0i32, 0i32, 0i32]
    }
}

/// The four sides that the raw shorthand value `value` stands for.
pub open spec fn shorthand_sides(value: Seq<char>) -> [i32; 4] {
    expand(pixel_values(words(value)))
}

/// The four sides that the cascade gives through the shorthand alone.
pub open spec fn base_sides(css: Properties, universal: Option<Properties>, kind: Spacing) -> [i32; 4] {
    match resolved(css, universal, kind.shorthand().name()) {
        Some(value) => shorthand_sides(value),
        None => [0i32, 0i32, 0i32, 0i32],
    }
}

/// What the property of the one side at place `side` gives, if the cascade
/// resolves it to a whole number of pixels.
pub open spec fn own_side(css: Properties, universal: Option<Properties>, kind: Spacing, side: int) -> Option<
    i32,
> {
    match resolved(css, universal, kind.side(side).name()) {
        Some(value) => pixels_of(value),
        None => None,
    }
}

/// The side at place `side` of the spacing `kind`: what the property of that
/// side gives if it gives a whole number of pixels, else what the shorthand
/// gives for that side.
pub open spec fn side_of(css: Properties, universal: Option<Properties>, kind: Spacing, side: int) -> i32 {
    match own_side(css, universal, kind, side) {
        Some(value) => value,
        None => base_sides(css, universal, kind)[side],
    }
}

/// The four sides of the spacing `kind`, in the order top, right, bottom,
/// left.
pub open spec fn sides(css: Properties, universal: Option<Properties>, kind: Spacing) -> [i32; 4] {
    [
        side_of(css, universal, kind, 0),
        side_of(css, universal, kind, 1),
        side_of(css, universal, kind, 2),
        side_of(css, universal, kind, 3),
    ]
}

/// Expands the values of a shorthand into the four sides.
pub fn expand_values(values: &Vec<i32>) -> (out: [i32; 4])
    ensures
        out == expand(values@),
{
    if values.len() == 1 {
        [values[0], values[0], values[0], values[0]]
    } else if values.len() == 2 {
        [values[0], values[1], values[0], values[1]]
    } else if values.len() == 3 {
        [values[0], values[1], values[2], values[1]]
    } else if values.len() == 4 {
        [values[0], values[1], values[2], values[3]]
    } else {
        [0i32, 0i32, 0i32, 0i32]
    }
}

/// Reads a raw shorthand value into the four sides.
pub fn parse_shorthand(value: &Vec<char>) -> (out: [i32; 4])
    ensures
        out == shorthand_sides(value@),
{
    let tokens = words_of(value);
    let mut values: Vec<i32> = Vec::new();
    let mut i: usize = 0;
    proof {
        assert(texts(tokens@).take(0) =~= Seq::<Seq<char>>::empty());
    }
    while i < tokens.len()
        invariant
            i <= tokens@.len(),
            values@ == pixel_values(texts(tokens@).take(i as int)),
        decreases tokens@.len() - i,
    {
        proof {
            assert(texts(tokens@).take(i as int + 1).drop_last() =~= texts(tokens@).take(
                i as int,
            ));
            assert(texts(tokens@).take(i as int + 1).last() == tokens@[i as int]@);
        }
        match parse_pixels(&tokens[i]) {
            Some(v) => {
                values.push(v);
            },
            None => {},
        }
        i = i + 1;
    }
    proof {
        assert(texts(tokens@).take(tokens@.len() as int) =~= texts(tokens@));
    }
    expand_values(&values)
}

/// Resolves the one side at place `side` of the spacing `kind`.
fn resolve_side(
    css: &PropertyMap,
    universal: Option<&PropertyMap>,
    kind: Spacing,
    side: usize,
    base: i32,
) -> (out: i32)
    ensures
        out == match own_side(css@, model_of(universal), kind, side as int) {
            Some(value) => value,
            None => base,
        },
{
    match resolve_chars(css, universal, kind.side_property(side)) {
        Some(value) => match parse_pixels(&value) {
            Some(pixels) => pixels,
            None => base,
        },
        None => base,
    }
}

/// The four sides of the spacing `kind` of a block with the properties `css`,
/// with `universal` as the fallback. The property of a single side always
/// wins over the shorthand.
pub fn spacing_of(css: &PropertyMap, universal: Option<&PropertyMap>, kind: Spacing) -> (out: [i32; 4])
    ensures
        out == sides(css@, model_of(universal), kind),
{
    let base: [i32; 4] = match resolve_chars(css, universal, kind.shorthand_property()) {
        Some(value) => parse_shorthand(&value),
        None => [0i32, 0i32, 0i32, 0i32],
    };
    [
        resolve_side(css, universal, kind, 0, base[0]),
        resolve_side(css, universal, kind, 1, base[1]),
        resolve_side(css, universal, kind, 2, base[2]),
        resolve_side(css, universal, kind, 3, base[3]),
    ]
}

/// Where every token is a whole number of pixels, none is left out: the
/// pixel values are the lengths of the tokens, one for one.
pub proof fn lemma_pixel_values_of_lengths(tokens: Seq<Seq<char>>)
    requires
        forall|i: int| 0 <= i < tokens.len() ==> pixels_of(#[trigger] tokens[i]) is Some,
    ensures
        pixel_values(tokens).len() == tokens.len(),
        forall|i: int|
            0 <= i < tokens.len() ==> pixels_of(tokens[i]) == Some(
                #[trigger] pixel_values(tokens)[i],
            ),
    decreases tokens.len(),
{
    if tokens.len() > 0 {
        let front = tokens.drop_last();
        assert forall|i: int| 0 <= i < front.len() implies pixels_of(#[trigger] front[i]) is Some by {
            assert(front[i] == tokens[i]);
        }
        lemma_pixel_values_of_lengths(front);
        assert(pixels_of(tokens[tokens.len() - 1]) is Some);
        assert forall|i: int| 0 <= i < tokens.len() implies pixels_of(tokens[i]) == Some(
            #[trigger] pixel_values(tokens)[i],
        ) by {
            if i < front.len() {
                assert(front[i] == tokens[i]);
                assert(pixel_values(tokens)[i] == pixel_values(front)[i]);
            }
        }
    }
}

/// The expansion of a shorthand. A shorthand value of one to four words,
/// each a whole number of pixels, stands for these sides, in the order top,
/// right, bottom, left: one length `a` for `a a a a`; two lengths `a b` for
/// `a b a b`; three lengths `a b c` for `a b c b`; four lengths `a b c d` for
/// `a b c d`.
pub proof fn lemma_shorthand_expansion(value: Seq<char>, lengths: Seq<i32>)
    requires
        1 <= lengths.len() <= 4,
        words(value).len() == lengths.len(),
        forall|i: int|
            0 <= i < lengths.len() ==> pixels_of(#[trigger] words(value)[i]) == Some(lengths[i]),
    ensures
        lengths.len() == 1 ==> shorthand_sides(value) == [
            lengths[0],
            lengths[0],
            lengths[0],
            lengths[0],
        ],
        lengths.len() == 2 ==> shorthand_sides(value) == [
            lengths[0],
            lengths[1],
            lengths[0],
            lengths[1],
        ],
        lengths.len() == 3 ==> shorthand_sides(value) == [
            lengths[0],
            lengths[1],
            lengths[2],
            lengths[1],
        ],
        lengths.len() == 4 ==> shorthand_sides(value) == [
            lengths[0],
            lengths[1],
            lengths[2],
            lengths[3],
        ],
{
    lemma_pixel_values_of_lengths(words(value));
    assert(pixel_values(words(value)) =~= lengths);
}

/// A side of its own always wins. Where the cascade resolves the property of
/// one side to a whole number of pixels, that side is this number, whatever
/// the shorthand says.
pub proof fn lemma_own_side_wins(
    css: Properties,
    universal: Option<Properties>,
    kind: Spacing,
    side: int,
    pixels: i32,
)
    requires
        0 <= side < 4,
        own_side(css, universal, kind, side) == Some(pixels),
    ensures
        sides(css, universal, kind)[side] == pixels,
{
}

/// Without a side of its own, a side is what the shorthand gives for it.
pub proof fn lemma_side_from_shorthand(
    css: Properties,
    universal: Option<Properties>,
    kind: Spacing,
    side: int,
)
    requires
        0 <= side < 4,
        own_side(css, universal, kind, side) is None,
    ensures
        sides(css, universal, kind)[side] == base_sides(css, universal, kind)[side],
{
}

/// The name of a shorthand is the name of none of its sides.
pub proof fn lemma_shorthand_is_no_side(kind: Spacing, side: int)
    ensures
        kind.shorthand().name() != kind.side(side).name(),
{
    reveal_strlit("margin");
    reveal_strlit("margin-top");
    reveal_strlit("margin-right");
    reveal_strlit("margin-bottom");
    reveal_strlit("margin-left");
    reveal_strlit("padding");
    reveal_strlit("padding-top");
    reveal_strlit("padding-right");
    reveal_strlit("padding-bottom");
    reveal_strlit("padding-left");
    assert(kind.shorthand().name().len() < kind.side(side).name().len());
}

/// The sides depend on the properties only through what a lookup finds: two
/// blocks in which every name is looked up alike have the same sides.
pub proof fn lemma_sides_by_lookup(
    first: Properties,
    second: Properties,
    universal: Option<Properties>,
    kind: Spacing,
)
    requires
        forall|name: Seq<char>| #[trigger] lookup(first, name) == lookup(second, name),
    ensures
        sides(first, universal, kind) == sides(second, universal, kind),
{
    assert(lookup(first, kind.shorthand().name()) == lookup(second, kind.shorthand().name()));
    assert forall|side: int| 0 <= side < 4 implies own_side(first, universal, kind, side)
        == own_side(second, universal, kind, side) by {
        assert(lookup(first, kind.side(side).name()) == lookup(second, kind.side(side).name()));
    }
    assert(side_of(first, universal, kind, 0) == side_of(second, universal, kind, 0));
    assert(side_of(first, universal, kind, 1) == side_of(second, universal, kind, 1));
    assert(side_of(first, universal, kind, 2) == side_of(second, universal, kind, 2));
    assert(side_of(first, universal, kind, 3) == side_of(second, universal, kind, 3));
}

/// The order of declaration does not matter. A block that declares the
/// shorthand and then one side has the same sides as the block that declares
/// that side and then the shorthand.
pub proof fn lemma_sides_in_any_order(
    before: Properties,
    universal: Option<Properties>,
    kind: Spacing,
    side: int,
    shorthand_value: Seq<char>,
    side_value: Seq<char>,
)
    ensures
        sides(
            upsert(
                upsert(before, kind.shorthand().name(), shorthand_value),
                kind.side(side).name(),
                side_value,
            ),
            universal,
            kind,
        ) == sides(
            upsert(
                upsert(before, kind.side(side).name(), side_value),
                kind.shorthand().name(),
                shorthand_value,
            ),
            universal,
            kind,
        ),
{
    let whole = kind.shorthand().name();
    let part = kind.side(side).name();
    let first = upsert(upsert(before, whole, shorthand_value), part, side_value);
    let second = upsert(upsert(before, part, side_value), whole, shorthand_value);
    lemma_shorthand_is_no_side(kind, side);
    assert forall|name: Seq<char>| #[trigger] lookup(first, name) == lookup(second, name) by {
        lemma_lookup_upsert(upsert(before, whole, shorthand_value), part, side_value, name);
        lemma_lookup_upsert(before, whole, shorthand_value, name);
        lemma_lookup_upsert(upsert(before, part, side_value), whole, shorthand_value, name);
        lemma_lookup_upsert(before, part, side_value, name);
    }
    lemma_sides_by_lookup(first, second, universal, kind);
}

} // verus!
