//! Colours and the tokens that denote them.
//!
//! A colour has four channels: red, green, blue and alpha. A channel is kept
//! as an exact ratio, where 0 is none and 1 is full. A token denotes its
//! channels as numbers out of 255, so a channel is such a number over 255.
//! Every form of token gives a channel in the same shape, the millionths of
//! the number over the millionths of 255, so that two tokens for the same
//! colour give the same value.
use crate::number::{decimal_of, parse_decimal, Decimal, Ratio, MICROS_PER_UNIT};
use crate::text::{
    chars_of, ends_with, has_prefix, has_suffix, is_word, slice_of, split, split_at, starts_with,
    texts, trim, trimmed, without, without_char, Separator,
};
use vstd::prelude::*;

verus! {

/// What stands for a full channel in a colour token, 255, in millionths. A
/// channel is the millionths of its component over this number, whatever the
/// form of the token: equal colours are equal values.
pub const FULL_MICROS: i64 = 255_000_000;

/// A colour with its alpha.
#[derive(Clone, Copy, Debug, PartialEq, Eq, Structural)]
pub struct Color {
    pub red: Ratio,
    pub green: Ratio,
    pub blue: Ratio,
    pub alpha: Ratio,
}

impl Color {
    /// The colour without transparency whose channels are `red`, `green` and
    /// `blue` out of 255.
    pub open spec fn opaque(red: int, green: int, blue: int) -> Color {
        Color {
            red: Ratio { num: (red * MICROS_PER_UNIT) as i64, den: FULL_MICROS },
            green: Ratio { num: (green * MICROS_PER_UNIT) as i64, den: FULL_MICROS },
            blue: Ratio { num: (blue * MICROS_PER_UNIT) as i64, den: FULL_MICROS },
            alpha: Ratio { num: FULL_MICROS, den: FULL_MICROS },
        }
    }

    /// The colour without transparency whose channels are `red`, `green` and
    /// `blue` out of 255.
    pub fn from_bytes(red: u8, green: u8, blue: u8) -> (out: Color)
        ensures
            out == Color::opaque(red as int, green as int, blue as int),
    {
        Color {
            red: Ratio { num: red as i64 * MICROS_PER_UNIT, den: FULL_MICROS },
            green: Ratio { num: green as i64 * MICROS_PER_UNIT, den: FULL_MICROS },
            blue: Ratio { num: blue as i64 * MICROS_PER_UNIT, den: FULL_MICROS },
            alpha: Ratio { num: FULL_MICROS, den: FULL_MICROS },
        }
    }

    /// Black without transparency: the colour of what is given no colour.
    pub open spec fn black() -> Color {
        Color::opaque(0, 0, 0)
    }

    /// This colour without transparency.
    pub open spec fn solid(self) -> Color {
        Color { alpha: Ratio { num: FULL_MICROS, den: FULL_MICROS }, ..self }
    }

    /// This colour without transparency.
    pub fn to_solid(self) -> (out: Color)
        ensures
            out == self.solid(),
    {
        Color { red: self.red, green: self.green, blue: self.blue, alpha: Ratio { num: FULL_MICROS, den: FULL_MICROS } }
    }
}

/// The channel that the component `component` of a colour token denotes:
/// the component over 255.
pub open spec fn channel(component: Decimal) -> Ratio {
    Ratio { num: component.micros, den: FULL_MICROS }
}

/// The colour that the name `token` denotes, if it is one of the five names.
pub open spec fn named_color(token: Seq<char>) -> Option<Color> {
    if token == "black"@ {
        Some(Color::opaque(0, 0, 0))
    } else if token == "white"@ {
        Some(Color::opaque(255, 255, 255))
    } else if token == "red"@ {
        Some(Color::opaque(255, 0, 0))
    } else if token == "green"@ {
        Some(Color::opaque(0, 255, 0))
    } else if token == "blue"@ {
        Some(Color::opaque(0, 0, 255))
    } else {
        None
    }
}

/// Whether `c` is a hexadecimal digit, in either case.
pub open spec fn is_hex_digit(c: char) -> bool {
    ||| '0' <= c <= '9'
    ||| 'a' <= c <= 'f'
    ||| 'A' <= c <= 'F'
}

/// The value of the hexadecimal digit `c`.
pub open spec fn hex_value(c: char) -> int {
    if '0' <= c <= '9' {
        c as int - '0' as int
    } else if 'a' <= c <= 'f' {
        c as int - 'a' as int + 10
    } else {
        c as int - 'A' as int + 10
    }
}

/// The byte that the two hexadecimal digits `high` and `low` denote.
pub open spec fn hex_pair(high: char, low: char) -> int {
    hex_value(high) * 16 + hex_value(low)
}

/// The colour that a token of the form `#rrggbb` denotes: a number sign and
/// exactly six hexadecimal digits, two for each of red, green and blue.
pub open spec fn hex_color(token: Seq<char>) -> Option<Color> {
    if token.len() == 7 && token[0] == '#' && (forall|i: int|
        1 <= i < 7 ==> is_hex_digit(#[trigger] token[i])) {
        Some(
            Color::opaque(
                hex_pair(token[1], token[2]),
                hex_pair(token[3], token[4]),
                hex_pair(token[5], token[6]),
            ),
        )
    } else {
        None
    }
}

/// The numbers that the pieces denote, each without the white space around
/// it; nothing if one of them denotes no number.
pub open spec fn decimals(pieces: Seq<Seq<char>>) -> Option<Seq<Decimal>>
    decreases pieces.len(),
{
    if pieces.len() == 0 {
        Some(Seq::<Decimal>::empty())
    } else {
        match (decimals(pieces.drop_last()), decimal_of(trim(pieces.last()))) {
            (Some(before), Some(last)) => Some(before.push(last)),
            _ => None,
        }
    }
}

/// The components between the brackets of a token that begins with `opening`
/// and ends with a closing bracket: what stands between them, cut at the
/// commas. Nothing if the token has not that form or a component is no number.
pub open spec fn components(token: Seq<char>, opening: Seq<char>) -> Option<Seq<Decimal>> {
    if has_prefix(token, opening) && has_suffix(token, ")"@) && token.len() >= opening.len()
        + ")"@.len() {
        decimals(
            split(
                token.subrange(opening.len() as int, token.len() - ")"@.len()),
                Separator::Is(','),
            ),
        )
    } else {
        None
    }
}

/// The colour that a token of the form `rgb(r, g, b)` denotes: exactly three
/// components, each over 255, without transparency.
pub open spec fn rgb_color(token: Seq<char>) -> Option<Color> {
    match components(token, "rgb("@) {
        Some(c) => if c.len() == 3 {
            Some(
                Color {
                    red: channel(c[0]),
                    green: channel(c[1]),
                    blue: channel(c[2]),
                    alpha: Ratio { num: FULL_MICROS, den: FULL_MICROS },
                },
            )
        } else {
            None
        },
        None => None,
    }
}

/// The colour that a token of the form `rgba(r, g, b, a)` denotes: exactly
/// four components, each over 255, the alpha too. A component above 255
/// gives a channel above 1; nothing is clamped.
pub open spec fn rgba_color(token: Seq<char>) -> Option<Color> {
    match components(token, "rgba("@) {
        Some(c) => if c.len() == 4 {
            Some(
                Color {
                    red: channel(c[0]),
                    green: channel(c[1]),
                    blue: channel(c[2]),
                    alpha: channel(c[3]),
                },
            )
        } else {
            None
        },
        None => None,
    }
}

/// The colour that `token` denotes. The forms are tried in this order: a
/// name, `#rrggbb`, `rgb(..)`, `rgba(..)`. A name may stand in double
/// quotes: it is read without them. A token of none of these forms, or
/// malformed in the first form that it begins like, denotes no colour.
pub open spec fn color_of(token: Seq<char>) -> Option<Color> {
    if named_color(without(token, '"')) is Some {
        named_color(without(token, '"'))
    } else if has_prefix(token, "#"@) {
        hex_color(token)
    } else if has_prefix(token, "rgb("@) {
        rgb_color(token)
    } else if has_prefix(token, "rgba("@) {
        rgba_color(token)
    } else {
        None
    }
}

/// The value of `c` as a hexadecimal digit, if it is one.
pub fn hex_digit_of(c: char) -> (out: Option<u8>)
    ensures
        out is Some <==> is_hex_digit(c),
        out matches Some(v) ==> v == hex_value(c) && v < 16,
{
    if '0' <= c && c <= '9' {
        Some((c as u32 - '0' as u32) as u8)
    } else if 'a' <= c && c <= 'f' {
        Some((c as u32 - 'a' as u32 + 10) as u8)
    } else if 'A' <= c && c <= 'F' {
        Some((c as u32 - 'A' as u32 + 10) as u8)
    } else {
        None
    }
}

/// The byte that the two hexadecimal digits at `at` and `at + 1` denote.
fn hex_byte(token: &Vec<char>, at: usize) -> (out: Option<u8>)
    requires
        at + 1 < token@.len(),
        at < 6,
    ensures
        out is Some <==> is_hex_digit(token@[at as int]) && is_hex_digit(token@[at + 1]),
        out matches Some(v) ==> v == hex_pair(token@[at as int], token@[at + 1]),
{
    match (hex_digit_of(token[at]), hex_digit_of(token[at + 1])) {
        (Some(high), Some(low)) => Some(high * 16 + low),
        _ => None,
    }
}

/// Reads a token of the form `#rrggbb`.
fn parse_hex(token: &Vec<char>) -> (out: Option<Color>)
    ensures
        out == hex_color(token@),
{
    if token.len() != 7 || token[0] != '#' {
        return None;
    }
    match (hex_byte(token, 1), hex_byte(token, 3), hex_byte(token, 5)) {
        (Some(red), Some(green), Some(blue)) => Some(Color::from_bytes(red, green, blue)),
        _ => None,
    }
}

/// Reads the components of a token that begins with `opening` and ends with
/// a closing bracket.
fn parse_components(token: &Vec<char>, opening: &str) -> (out: Option<Vec<Decimal>>)
    ensures
        out is Some <==> components(token@, opening@) is Some,
        out matches Some(c) ==> components(token@, opening@) == Some(c@),
{
    let head = chars_of(opening);
    let tail = chars_of(")");
    if !starts_with(token, &head) || !ends_with(token, &tail) {
        return None;
    }
    if token.len() - head.len() < tail.len() {
        return None;
    }
    let inner = slice_of(token, head.len(), token.len() - tail.len());
    let pieces = split_at(&inner, Separator::Is(','));
    let mut out: Vec<Decimal> = Vec::new();
    let mut all: bool = true;
    let mut i: usize = 0;
    proof {
        assert(texts(pieces@).take(0) =~= Seq::<Seq<char>>::empty());
    }
    while i < pieces.len()
        invariant
            i <= pieces@.len(),
            all ==> decimals(texts(pieces@).take(i as int)) == Some(out@),
            !all ==> decimals(texts(pieces@).take(i as int)) is None,
        decreases pieces@.len() - i,
    {
        proof {
            assert(texts(pieces@).take(i as int + 1).drop_last() =~= texts(pieces@).take(
                i as int,
            ));
            assert(texts(pieces@).take(i as int + 1).last() == pieces@[i as int]@);
        }
        let piece = trimmed(&pieces[i]);
        match parse_decimal(&piece) {
            Some(number) => {
                if all {
                    out.push(number);
                }
            },
            None => {
                all = false;
            },
        }
        i = i + 1;
    }
    proof {
        assert(texts(pieces@).take(pieces@.len() as int) =~= texts(pieces@));
    }
    if all {
        Some(out)
    } else {
        None
    }
}

/// The channel that the component `component` denotes.
fn channel_of(component: Decimal) -> (out: Ratio)
    ensures
        out == channel(component),
{
    Ratio { num: component.micros, den: FULL_MICROS }
}

/// Reads a token of the form `rgb(r, g, b)`.
fn parse_rgb(token: &Vec<char>) -> (out: Option<Color>)
    ensures
        out == rgb_color(token@),
{
    match parse_components(token, "rgb(") {
        Some(c) => {
            if c.len() == 3 {
                Some(
                    Color {
                        red: channel_of(c[0]),
                        green: channel_of(c[1]),
                        blue: channel_of(c[2]),
                        alpha: Ratio { num: FULL_MICROS, den: FULL_MICROS },
                    },
                )
            } else {
                None
            }
        },
        None => None,
    }
}

/// Reads a token of the form `rgba(r, g, b, a)`.
fn parse_rgba(token: &Vec<char>) -> (out: Option<Color>)
    ensures
        out == rgba_color(token@),
{
    match parse_components(token, "rgba(") {
        Some(c) => {
            if c.len() == 4 {
                Some(
                    Color {
                        red: channel_of(c[0]),
                        green: channel_of(c[1]),
                        blue: channel_of(c[2]),
                        alpha: channel_of(c[3]),
                    },
                )
            } else {
                None
            }
        },
        None => None,
    }
}

/// Reads one of the five colour names.
fn parse_named(token: &Vec<char>) -> (out: Option<Color>)
    ensures
        out == named_color(token@),
{
    if is_word(token, "black") {
        Some(Color::from_bytes(0, 0, 0))
    } else if is_word(token, "white") {
        Some(Color::from_bytes(255, 255, 255))
    } else if is_word(token, "red") {
        Some(Color::from_bytes(255, 0, 0))
    } else if is_word(token, "green") {
        Some(Color::from_bytes(0, 255, 0))
    } else if is_word(token, "blue") {
        Some(Color::from_bytes(0, 0, 255))
    } else {
        None
    }
}

/// Decodes a colour token that is held as characters.
pub fn decode_color(token: &Vec<char>) -> (out: Option<Color>)
    ensures
        out == color_of(token@),
{
    let bare = without_char(token, '"');
    let named = parse_named(&bare);
    if named.is_some() {
        return named;
    }
    let sign = chars_of("#");
    let rgb = chars_of("rgb(");
    let rgba = chars_of("rgba(");
    if starts_with(token, &sign) {
        parse_hex(token)
    } else if starts_with(token, &rgb) {
        parse_rgb(token)
    } else if starts_with(token, &rgba) {
        parse_rgba(token)
    } else {
        None
    }
}

/// Decodes a colour token: a name, `#rrggbb`, `rgb(r, g, b)` or
/// `rgba(r, g, b, a)`. Returns `None` for a token that denotes no colour.
pub fn get_color(color: &str) -> (out: Option<Color>)
    ensures
        out == color_of(color@),
{
    let token = chars_of(color);
    decode_color(&token)
}

/// One colour, one value. The colour of three bytes is the colour of the
/// three components with these values, as `rgb(..)` gives it: a name,
/// `#rrggbb` and `rgb(..)` for the same colour are the same value.
pub proof fn lemma_one_form(red: u8, green: u8, blue: u8)
    ensures
        Color::opaque(red as int, green as int, blue as int) == (Color {
            red: channel(Decimal::whole(red as int)),
            green: channel(Decimal::whole(green as int)),
            blue: channel(Decimal::whole(blue as int)),
            alpha: channel(Decimal::whole(255)),
        }),
{
}

} // verus!
