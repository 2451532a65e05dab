//! Numbers as they are written in a style sheet.
//!
//! Lengths and colour components may carry a fraction. They are held in fixed
//! point, as a whole count of millionths, so that every value has exactly one
//! representation and no rounding depends on the machine. Quantities that are
//! derived by a division, such as a colour channel, are kept as exact ratios.
use crate::text::{has_suffix, slice_of, split, split_at, Separator};
use vstd::prelude::*;

verus! {

/// The number of millionths in one unit.
pub const MICROS_PER_UNIT: i64 = 1_000_000;

/// A decimal number in fixed point: `micros` millionths.
#[derive(Clone, Copy, Debug, PartialEq, Eq, Structural)]
pub struct Decimal {
    pub micros: i64,
}

/// An exact quotient `num / den`.
#[derive(Clone, Copy, Debug, PartialEq, Eq, Structural)]
pub struct Ratio {
    pub num: i64,
    pub den: i64,
}

impl Decimal {
    /// The decimal that stands for the whole number `units`.
    pub open spec fn whole(units: int) -> Decimal {
        Decimal { micros: (units * MICROS_PER_UNIT) as i64 }
    }

    /// The decimal that stands for the whole number `units`.
    pub fn from_units(units: i32) -> (out: Decimal)
        ensures
            out == Decimal::whole(units as int),
            out.micros == units * 1_000_000,
    {
        let wide: i64 = units as i64;
        Decimal { micros: wide * MICROS_PER_UNIT }
    }
}

/// Whether `c` is one of the ten decimal digits.
pub open spec fn is_digit(c: char) -> bool {
    '0' <= c <= '9'
}

/// The value of the decimal digit `c`.
pub open spec fn digit_value(c: char) -> int {
    c as int - '0' as int
}

/// Whether `s` holds decimal digits and nothing else.
pub open spec fn all_digits(s: Seq<char>) -> bool {
    forall|i: int| 0 <= i < s.len() ==> is_digit(#[trigger] s[i])
}

/// The number that the digit string `s` denotes in base ten; zero for the
/// empty string.
pub open spec fn digits_value(s: Seq<char>) -> int
    decreases s.len(),
{
    if s.len() == 0 {
        0
    } else {
        digits_value(s.drop_last()) * 10 + digit_value(s.last())
    }
}

/// Whether `s` starts with a sign character.
pub open spec fn has_sign(s: Seq<char>) -> bool {
    s.len() > 0 && (s[0] == '+' || s[0] == '-')
}

/// Whether `s` starts with a minus sign.
pub open spec fn is_negative(s: Seq<char>) -> bool {
    s.len() > 0 && s[0] == '-'
}

/// `s` without its leading sign character, if it has one.
pub open spec fn unsigned(s: Seq<char>) -> Seq<char> {
    if has_sign(s) {
        s.skip(1)
    } else {
        s
    }
}

/// The integer that `s` denotes: an optional sign followed by one or more
/// decimal digits. Anything else denotes no integer.
pub open spec fn integer_value(s: Seq<char>) -> Option<int> {
    let body = unsigned(s);
    if body.len() > 0 && all_digits(body) {
        Some(
            if is_negative(s) {
                -digits_value(body)
            } else {
                digits_value(body)
            },
        )
    } else {
        None
    }
}

/// The integer that `s` denotes, if it denotes one that fits in 32 bits.
pub open spec fn integer_of(s: Seq<char>) -> Option<i32> {
    match integer_value(s) {
        Some(v) => if i32::MIN <= v <= i32::MAX {
            Some(v as i32)
        } else {
            None
        },
        None => None,
    }
}

/// The digit that `c` stands for, if it is a decimal digit.
pub fn digit_of(c: char) -> (out: Option<u8>)
    ensures
        out is Some <==> is_digit(c),
        out matches Some(d) ==> d == digit_value(c) && d <= 9,
{
    if '0' <= c && c <= '9' {
        Some((c as u32 - '0' as u32) as u8)
    } else {
        None
    }
}

/// Reads the digits `token[from..to]` as a number, up to `cap`.
///
/// Returns `None` when a character of the range is no digit. Otherwise
/// returns the value of the range, or `cap + 1` when the value exceeds `cap`.
fn read_digits(token: &Vec<char>, from: usize, to: usize, cap: i64) -> (out: Option<i64>)
    requires
        from <= to <= token@.len(),
        0 <= cap <= 900_000_000_000_000_000,
    ensures
        out is Some <==> all_digits(token@.subrange(from as int, to as int)),
        out matches Some(v) ==> {
            let exact = digits_value(token@.subrange(from as int, to as int));
            &&& 0 <= exact
            &&& (exact <= cap ==> v == exact)
            &&& (exact > cap ==> v == cap + 1)
        },
{
    let mut acc: i64 = 0;
    let mut i: usize = from;
    while i < to
        invariant
            from <= i <= to <= token@.len(),
            0 <= cap <= 900_000_000_000_000_000,
            all_digits(token@.subrange(from as int, i as int)),
            0 <= digits_value(token@.subrange(from as int, i as int)),
            digits_value(token@.subrange(from as int, i as int)) <= cap ==> acc == digits_value(
                token@.subrange(from as int, i as int),
            ),
            digits_value(token@.subrange(from as int, i as int)) > cap ==> acc == cap + 1,
        decreases to - i,
    {
        let ghost before = token@.subrange(from as int, i as int);
        let ghost after = token@.subrange(from as int, i as int + 1);
        proof {
            assert(after.drop_last() =~= before);
            assert(after.last() == token@[i as int]);
        }
        match digit_of(token[i]) {
            None => {
                proof {
                    let whole = token@.subrange(from as int, to as int);
                    assert(whole[i as int - from as int] == token@[i as int]);
                }
                return None;
            },
            Some(d) => {
                proof {
                    assert forall|k: int| 0 <= k < after.len() implies is_digit(
                        #[trigger] after[k],
                    ) by {
                        if k < before.len() {
                            assert(after[k] == before[k]);
                        }
                    }
                }
                if acc > cap {
                    acc = cap + 1;
                } else {
                    let next: i64 = acc * 10 + d as i64;
                    if next > cap {
                        acc = cap + 1;
                    } else {
                        acc = next;
                    }
                }
            },
        }
        i = i + 1;
    }
    Some(acc)
}

/// Reads `token` as a 32-bit integer: an optional sign and decimal digits.
pub fn parse_integer(token: &Vec<char>) -> (out: Option<i32>)
    ensures
        out == integer_of(token@),
{
    let n = token.len();
    let signed = n > 0 && (token[0] == '+' || token[0] == '-');
    let negative = n > 0 && token[0] == '-';
    let from: usize = if signed {
        1
    } else {
        0
    };
    proof {
        assert(unsigned(token@) =~= token@.subrange(from as int, n as int));
    }
    if from == n {
        return None;
    }
    match read_digits(token, from, n, 2_147_483_648) {
        None => None,
        Some(v) => {
            if negative {
                if v > 2_147_483_648 {
                    None
                } else {
                    Some((-v) as i32)
                }
            } else if v > 2_147_483_647 {
                None
            } else {
                Some(v as i32)
            }
        },
    }
}

/// The first six characters of `frac`, followed by zeros where `frac` has
/// fewer than six.
pub open spec fn six_places(frac: Seq<char>) -> Seq<char> {
    Seq::new(
        6,
        |i: int|
            if i < frac.len() {
                frac[i]
            } else {
                '0'
            },
    )
}

/// The number of millionths that `s` denotes in plain decimal notation: an
/// optional sign, digits, and optionally a point followed by digits, with at
/// least one digit in all. Fraction digits after the sixth are dropped.
/// Anything else denotes no number.
pub open spec fn decimal_value(s: Seq<char>) -> Option<int> {
    let parts = split(unsigned(s), Separator::Is('.'));
    let whole = parts[0];
    let frac = if parts.len() == 2 {
        parts[1]
    } else {
        Seq::<char>::empty()
    };
    if parts.len() <= 2 && all_digits(whole) && all_digits(frac) && whole.len() + frac.len() > 0 {
        let magnitude = digits_value(whole) * MICROS_PER_UNIT + digits_value(six_places(frac));
        Some(
            if is_negative(s) {
                -magnitude
            } else {
                magnitude
            },
        )
    } else {
        None
    }
}

/// The decimal that `s` denotes, if it denotes one whose millionths fit in
/// 64 bits.
pub open spec fn decimal_of(s: Seq<char>) -> Option<Decimal> {
    match decimal_value(s) {
        Some(v) => if i64::MIN <= v <= i64::MAX {
            Some(Decimal { micros: v as i64 })
        } else {
            None
        },
        None => None,
    }
}

/// The unit that marks a length in pixels.
pub open spec fn pixel_unit() -> Seq<char> {
    seq!['p', 'x']
}

/// `s` without the pixel unit at its end, if it ends in that unit.
pub open spec fn strip_unit(s: Seq<char>) -> Option<Seq<char>> {
    if has_suffix(s, pixel_unit()) {
        Some(s.take(s.len() - 2))
    } else {
        None
    }
}

/// The whole number of pixels that `s` denotes: an integer followed by the
/// pixel unit.
pub open spec fn pixels_of(s: Seq<char>) -> Option<i32> {
    match strip_unit(s) {
        Some(number) => integer_of(number),
        None => None,
    }
}

/// The length in pixels that `s` denotes: a decimal number followed by the
/// pixel unit.
pub open spec fn pixel_decimal_of(s: Seq<char>) -> Option<Decimal> {
    match strip_unit(s) {
        Some(number) => decimal_of(number),
        None => None,
    }
}

/// Reads `token` as a decimal number in plain notation.
pub fn parse_decimal(token: &Vec<char>) -> (out: Option<Decimal>)
    ensures
        out == decimal_of(token@),
{
    let n = token.len();
    let signed = n > 0 && (token[0] == '+' || token[0] == '-');
    let negative = n > 0 && token[0] == '-';
    let from: usize = if signed {
        1
    } else {
        0
    };
    let body = slice_of(token, from, n);
    proof {
        assert(body@ =~= unsigned(token@));
    }
    let parts = split_at(&body, Separator::Is('.'));
    if parts.len() > 2 {
        return None;
    }
    let none: Vec<char> = Vec::new();
    let whole = &parts[0];
    let frac = if parts.len() == 2 {
        &parts[1]
    } else {
        &none
    };
    proof {
        let spec_parts = split(unsigned(token@), Separator::Is('.'));
        assert(spec_parts[0] == whole@);
        assert(frac@ =~= if spec_parts.len() == 2 {
            spec_parts[1]
        } else {
            Seq::<char>::empty()
        });
        assert(whole@.subrange(0, whole@.len() as int) =~= whole@);
        assert(frac@.subrange(0, frac@.len() as int) =~= frac@);
    }
    if whole.len() == 0 && frac.len() == 0 {
        return None;
    }
    let units = match read_digits(whole, 0, whole.len(), 9_223_372_036_854) {
        None => {
            return None;
        },
        Some(v) => v,
    };
    if read_digits(frac, 0, frac.len(), 0).is_none() {
        return None;
    }
    let mut places: Vec<char> = Vec::new();
    let mut k: usize = 0;
    while k < 6
        invariant
            k <= 6,
            places@ == six_places(frac@).take(k as int),
        decreases 6 - k,
    {
        let c = if k < frac.len() {
            frac[k]
        } else {
            '0'
        };
        places.push(c);
        proof {
            assert(places@ =~= six_places(frac@).take(k as int + 1));
        }
        k = k + 1;
    }
    proof {
        assert(places@ =~= six_places(frac@));
        assert(places@.subrange(0, 6) =~= places@);
        assert(all_digits(places@));
    }
    let parts_of_unit = match read_digits(&places, 0, 6, 999_999) {
        None => {
            return None;
        },
        Some(v) => v,
    };
    proof {
        lemma_six_digits(places@);
        assert(pow10(6) == 1_000_000) by {
            reveal_with_fuel(pow10, 7);
        }
    }
    if units > 9_223_372_036_854 {
        return None;
    }
    let magnitude: i128 = units as i128 * 1_000_000 + parts_of_unit as i128;
    let value: i128 = if negative {
        -magnitude
    } else {
        magnitude
    };
    if value < -9_223_372_036_854_775_808 || value > 9_223_372_036_854_775_807 {
        None
    } else {
        Some(Decimal { micros: value as i64 })
    }
}

/// A string of six digits denotes a number below one million.
proof fn lemma_six_digits(s: Seq<char>)
    requires
        s.len() <= 6,
        all_digits(s),
    ensures
        0 <= digits_value(s) < pow10(s.len()),
    decreases s.len(),
{
    if s.len() > 0 {
        assert(all_digits(s.drop_last())) by {
            assert forall|i: int| 0 <= i < s.drop_last().len() implies is_digit(
                #[trigger] s.drop_last()[i],
            ) by {
                assert(s.drop_last()[i] == s[i]);
            }
        }
        lemma_six_digits(s.drop_last());
        assert(is_digit(s[s.len() - 1]));
    }
}

/// Ten to the power `n`.
pub open spec fn pow10(n: nat) -> int
    decreases n,
{
    if n == 0 {
        1
    } else {
        10 * pow10((n - 1) as nat)
    }
}

/// `token` without the pixel unit at its end, if it ends in that unit.
pub fn without_unit(token: &Vec<char>) -> (out: Option<Vec<char>>)
    ensures
        out is Some <==> strip_unit(token@) is Some,
        out matches Some(number) ==> strip_unit(token@) == Some(number@),
{
    let n = token.len();
    if n >= 2 && token[n - 2] == 'p' && token[n - 1] == 'x' {
        proof {
            assert(token@.skip(n - 2) =~= pixel_unit());
        }
        Some(slice_of(token, 0, n - 2))
    } else {
        proof {
            if n >= 2 {
                assert(token@.skip(n - 2)[0] == token@[n - 2]);
                assert(token@.skip(n - 2)[1] == token@[n - 1]);
            }
        }
        None
    }
}

/// Reads `token` as a whole number of pixels.
pub fn parse_pixels(token: &Vec<char>) -> (out: Option<i32>)
    ensures
        out == pixels_of(token@),
{
    match without_unit(token) {
        Some(number) => parse_integer(&number),
        None => None,
    }
}

/// Reads `token` as a length in pixels that may carry a fraction.
pub fn parse_pixel_decimal(token: &Vec<char>) -> (out: Option<Decimal>)
    ensures
        out == pixel_decimal_of(token@),
{
    match without_unit(token) {
        Some(number) => parse_decimal(&number),
        None => None,
    }
}

} // verus!
