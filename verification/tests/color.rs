use css_image::color::{decode_color, get_color, hex_digit_of, Color};
use css_image::number::Ratio;

fn channels(color: Color) -> [f64; 4] {
    [
        color.red.num as f64 / color.red.den as f64,
        color.green.num as f64 / color.green.den as f64,
        color.blue.num as f64 / color.blue.den as f64,
        color.alpha.num as f64 / color.alpha.den as f64,
    ]
}

#[test]
fn named_colours() {
    assert_eq!(channels(get_color("black").unwrap()), [0., 0., 0., 1.]);
    assert_eq!(channels(get_color("white").unwrap()), [1., 1., 1., 1.]);
    assert_eq!(channels(get_color("red").unwrap()), [1., 0., 0., 1.]);
    assert_eq!(channels(get_color("green").unwrap()), [0., 1., 0., 1.]);
    assert_eq!(channels(get_color("blue").unwrap()), [0., 0., 1., 1.]);
}

#[test]
fn named_colours_are_exact_ratios() {
    assert_eq!(get_color("white"), Some(Color::from_bytes(255, 255, 255)));
    let red = get_color("red").unwrap();
    assert_eq!(red.red, Ratio { num: 255_000_000, den: 255_000_000 });
    assert_eq!(red.green, Ratio { num: 0, den: 255_000_000 });
    assert_eq!(red.blue, Ratio { num: 0, den: 255_000_000 });
    assert_eq!(red.alpha, Ratio { num: 255_000_000, den: 255_000_000 });
}

#[test]
fn one_colour_is_one_value() {
    assert_eq!(get_color("red"), get_color("rgb(255,0,0)"));
    assert_eq!(get_color("red"), get_color("#ff0000"));
    assert_eq!(get_color("red"), get_color("rgba(255, 0, 0, 255)"));
    assert_eq!(get_color("red"), get_color("rgb(255.0, 0.000, 0)"));
    assert_eq!(get_color("white"), get_color("#FFFFFF"));
    assert_eq!(get_color("black"), get_color("rgb(0,0,0)"));
    assert_eq!(get_color("#0a0B0c"), get_color("rgb(10, 11, 12)"));
    assert_ne!(get_color("red"), get_color("rgb(254,0,0)"));
}

#[test]
fn names_may_stand_in_quotes() {
    assert_eq!(get_color("\"red\""), get_color("red"));
    assert_eq!(get_color("\"white\""), Some(Color::from_bytes(255, 255, 255)));
    assert_eq!(get_color("b\"lu\"e"), get_color("blue"));
    assert_eq!(get_color("\"idk\""), None);
    assert_eq!(get_color("\"#ffffff\""), None);
    assert_eq!(get_color("\"rgb(1,2,3)\""), None);
}

#[test]
fn names_match_exactly() {
    assert_eq!(get_color("Red"), None);
    assert_eq!(get_color(" red"), None);
    assert_eq!(get_color("yellow"), None);
    assert_eq!(get_color(""), None);
}

#[test]
fn hex_colours() {
    assert_eq!(channels(get_color("#FFFFFF").unwrap()), [1., 1., 1., 1.]);
    assert_eq!(channels(get_color("#ffffff").unwrap()), [1., 1., 1., 1.]);
    assert_eq!(channels(get_color("#000000").unwrap()), [0., 0., 0., 1.]);
    assert_eq!(get_color("#2244ff"), Some(Color::from_bytes(0x22, 0x44, 0xff)));
    assert_eq!(get_color("#0a0B0c"), Some(Color::from_bytes(10, 11, 12)));
}

#[test]
fn malformed_hex_is_no_colour() {
    assert_eq!(get_color("#"), None);
    assert_eq!(get_color("#fff"), None);
    assert_eq!(get_color("#fffff"), None);
    assert_eq!(get_color("#fffffff"), None);
    assert_eq!(get_color("#gg0000"), None);
    assert_eq!(get_color("#+f+f+f"), None);
    assert_eq!(get_color("#ff ff f"), None);
}

#[test]
fn rgb_colours() {
    assert_eq!(channels(get_color("rgb(255,0,0)").unwrap()), [1., 0., 0., 1.]);
    assert_eq!(channels(get_color("rgb(255, 255, 255)").unwrap()), [1., 1., 1., 1.]);
    assert_eq!(channels(get_color("rgb( 0 ,255,  0 )").unwrap()), [0., 1., 0., 1.]);
    let half = get_color("rgb(127.5, 51, 0)").unwrap();
    assert_eq!(half.red, Ratio { num: 127_500_000, den: 255_000_000 });
    assert_eq!(half.green, Ratio { num: 51_000_000, den: 255_000_000 });
    assert_eq!(half.alpha, Ratio { num: 255_000_000, den: 255_000_000 });
    assert_eq!(channels(half), [0.5, 0.2, 0., 1.]);
}

#[test]
fn malformed_rgb_is_no_colour() {
    assert_eq!(get_color("rgb(255,0)"), None);
    assert_eq!(get_color("rgb(255,0,0,0)"), None);
    assert_eq!(get_color("rgb(255,zero,0)"), None);
    assert_eq!(get_color("rgb(255,,0)"), None);
    assert_eq!(get_color("rgb()"), None);
    assert_eq!(get_color("rgb("), None);
    assert_eq!(get_color("rgb(1,2,3"), None);
    assert_eq!(get_color("rgb 1,2,3)"), None);
}

#[test]
fn rgba_colours_scale_alpha_like_a_channel() {
    let colour = get_color("rgba(255, 0, 51, 255)").unwrap();
    assert_eq!(channels(colour), [1., 0., 0.2, 1.]);
    let faint = get_color("rgba(0,0,0,51)").unwrap();
    assert_eq!(faint.alpha, Ratio { num: 51_000_000, den: 255_000_000 });
    assert_eq!(channels(faint), [0., 0., 0., 0.2]);
}

#[test]
fn rgba_alpha_is_not_clamped() {
    let over = get_color("rgba(0,0,0,510)").unwrap();
    assert_eq!(over.alpha, Ratio { num: 510_000_000, den: 255_000_000 });
    assert_eq!(channels(over)[3], 2.);
    let channel = get_color("rgb(510,0,0)").unwrap();
    assert_eq!(channels(channel)[0], 2.);
}

#[test]
fn malformed_rgba_is_no_colour() {
    assert_eq!(get_color("rgba(1,2,3)"), None);
    assert_eq!(get_color("rgba(1,2,3,4,5)"), None);
    assert_eq!(get_color("rgba(1,2,3,x)"), None);
    assert_eq!(get_color("rgba(1,2,3,4"), None);
}

#[test]
fn other_tokens_are_no_colour() {
    assert_eq!(get_color("idk"), None);
    assert_eq!(get_color("hsl(1,2,3)"), None);
    assert_eq!(get_color("255,0,0"), None);
}

#[test]
fn decoding_characters_equals_decoding_text() {
    let token: Vec<char> = "#2244ff".chars().collect();
    assert_eq!(decode_color(&token), get_color("#2244ff"));
}

#[test]
fn solid_drops_transparency_only() {
    let faint = get_color("rgba(10,20,30,40)").unwrap();
    let solid = faint.to_solid();
    assert_eq!(solid.red, faint.red);
    assert_eq!(solid.green, faint.green);
    assert_eq!(solid.blue, faint.blue);
    assert_eq!(solid.alpha, Ratio { num: 255_000_000, den: 255_000_000 });
}

#[test]
fn hex_digits() {
    assert_eq!(hex_digit_of('0'), Some(0));
    assert_eq!(hex_digit_of('9'), Some(9));
    assert_eq!(hex_digit_of('a'), Some(10));
    assert_eq!(hex_digit_of('F'), Some(15));
    assert_eq!(hex_digit_of('g'), None);
    assert_eq!(hex_digit_of('+'), None);
}
