use css_image::color::Color;
use css_image::error::CssError;
use css_image::font::{Font, TextAlign};
use css_image::layout::{Point, TextExtents};
use css_image::number::{Decimal, Ratio};
use css_image::paint::{corner_radius_of, PaintOp};
use css_image::property::PropertyMap;
use css_image::style::Style;

fn style(pairs: &[(&str, &str)]) -> Style {
    let mut map = PropertyMap::new();
    for (name, value) in pairs {
        map.insert(name.to_string(), value.to_string());
    }
    Style::new(&map, None).unwrap()
}

fn extents(width: i32, height: i32, bearing: i32) -> Option<TextExtents> {
    Some(TextExtents { width, height, bearing })
}

#[test]
fn explicit_size_without_content() {
    let boxed = style(&[
        ("width", "100px"),
        ("height", "100px"),
        ("margin", "1px 2px 3px 4px"),
        ("padding", "10px 20px 30px 40px"),
    ]);
    let layout = boxed.layout(None);
    assert_eq!(layout.width, 100);
    assert_eq!(layout.height, 100);
    assert_eq!(layout.surface_width, 100 + 2 + 4 + 20 + 40);
    assert_eq!(layout.surface_height, 100 + 1 + 3 + 10 + 30);
    assert_eq!(layout.origin, Point { x: 4, y: 1 });
    assert_eq!(layout.box_width, 100 + 20 + 40);
    assert_eq!(layout.box_height, 100 + 10 + 30);
}

#[test]
fn explicit_size_is_not_changed_by_text() {
    let boxed = style(&[("width", "100px"), ("height", "50px"), ("content", "aaaa")]);
    let layout = boxed.layout(extents(31, 9, 8));
    assert_eq!((layout.width, layout.height), (100, 50));
    assert_eq!((layout.surface_width, layout.surface_height), (100, 50));
}

#[test]
fn size_from_measured_text() {
    let boxed = style(&[("content", "aaaa"), ("margin", "3px"), ("padding", "2px 5px")]);
    let layout = boxed.layout(extents(31, 9, 8));
    assert_eq!((layout.width, layout.height), (31, 9));
    assert_eq!(layout.surface_width, 31 + 3 + 3 + 5 + 5);
    assert_eq!(layout.surface_height, 9 + 3 + 3 + 2 + 2);
}

#[test]
fn one_open_size_is_measured() {
    let boxed = style(&[("content", "aaaa"), ("width", "100px")]);
    let layout = boxed.layout(extents(31, 9, 8));
    assert_eq!((layout.width, layout.height), (100, 9));
    let boxed = style(&[("content", "aaaa"), ("height", "100px")]);
    let layout = boxed.layout(extents(31, 9, 8));
    assert_eq!((layout.width, layout.height), (31, 100));
}

#[test]
fn minimum_size_without_size_and_content() {
    let boxed = style(&[("background-color", "red")]);
    let layout = boxed.layout(None);
    assert_eq!((layout.width, layout.height), (5, 5));
    assert_eq!((layout.surface_width, layout.surface_height), (5, 5));
    assert!(boxed.compose(None).is_ok());
}

#[test]
fn measurement_does_not_count_without_text() {
    let boxed = style(&[("background-color", "red")]);
    let layout = boxed.layout(extents(31, 9, 8));
    assert_eq!((layout.width, layout.height), (5, 5));
    let empty = style(&[("content", "")]);
    assert_eq!(empty.shown_text(), None);
    let layout = empty.layout(extents(31, 9, 8));
    assert_eq!((layout.width, layout.height), (5, 5));
}

#[test]
fn unmeasured_text_has_the_minimum_size() {
    let boxed = style(&[("content", "aaaa")]);
    let layout = boxed.layout(None);
    assert_eq!((layout.width, layout.height), (5, 5));
    assert_eq!(layout.anchor, Some(Point { x: 0, y: 0 }));
}

#[test]
fn shown_text_is_the_content_unless_empty() {
    assert_eq!(style(&[("content", "Hi")]).shown_text(), Some(&"Hi".to_string()));
    assert_eq!(style(&[("content", "")]).shown_text(), None);
    assert_eq!(style(&[("width", "1px")]).shown_text(), None);
}

#[test]
fn anchor_from_the_left() {
    let boxed = style(&[
        ("content", "aaaa"),
        ("margin", "1px 2px 3px 4px"),
        ("padding", "10px 20px 30px 40px"),
    ]);
    let layout = boxed.layout(extents(31, 9, 8));
    assert_eq!(layout.anchor, Some(Point { x: 40 + 4, y: 8 + 10 + 1 }));
}

#[test]
fn anchor_in_the_centre() {
    let boxed = style(&[
        ("content", "aaaa"),
        ("width", "101px"),
        ("text-align", "center"),
        ("margin", "1px 2px 3px 4px"),
        ("padding", "10px 20px 30px 40px"),
    ]);
    let layout = boxed.layout(extents(31, 9, 8));
    assert_eq!(layout.anchor, Some(Point { x: 50 - 15 + 40, y: 8 + 10 }));
}

#[test]
fn anchor_from_the_right() {
    let boxed = style(&[
        ("content", "aaaa"),
        ("width", "100px"),
        ("text-align", "right"),
        ("margin", "1px 2px 3px 4px"),
        ("padding", "10px 20px 30px 40px"),
    ]);
    let layout = boxed.layout(extents(31, 9, 8));
    assert_eq!(layout.anchor, Some(Point { x: 100 - 31, y: 8 }));
}

#[test]
fn halves_round_towards_zero() {
    let mut boxed = style(&[("content", "aaaa"), ("text-align", "center")]);
    boxed.width = Some(-3);
    let layout = boxed.layout(extents(-5, 1, 0));
    assert_eq!(layout.anchor, Some(Point { x: -1 - -2, y: 0 }));
}

#[test]
fn largest_sizes_do_not_overflow() {
    let mut boxed = style(&[("content", "aaaa")]);
    boxed.width = Some(i32::MAX);
    boxed.height = Some(i32::MAX);
    boxed.margin = [i32::MAX; 4];
    boxed.padding = [i32::MAX; 4];
    let layout = boxed.layout(extents(i32::MIN, i32::MIN, i32::MAX));
    assert_eq!(layout.surface_width, 5 * i32::MAX as i64);
    assert_eq!(layout.surface_height, 5 * i32::MAX as i64);
    assert_eq!(layout.anchor, Some(Point { x: 2 * i32::MAX as i64, y: 3 * i32::MAX as i64 }));
}

#[test]
fn painting_a_box_without_text() {
    let boxed = style(&[
        ("width", "100px"),
        ("height", "50px"),
        ("background-color", "#2244ff"),
        ("margin", "1px 2px 3px 4px"),
        ("padding", "10px 20px 30px 40px"),
        ("border-radius", "10px"),
    ]);
    let ops = boxed.compose(None).unwrap();
    assert_eq!(
        ops,
        vec![
            PaintOp::CreateSurface { width: 166, height: 94 },
            PaintOp::SetSource { color: Color::from_bytes(0x22, 0x44, 0xff) },
            PaintOp::RoundedRectangle {
                x: 4,
                y: 1,
                width: 160,
                height: 90,
                radius: Ratio { num: 10_000_000, den: 3_330_000 },
            },
            PaintOp::Fill,
            PaintOp::Encode,
        ]
    );
}

#[test]
fn painting_a_box_with_text() {
    let boxed = style(&[
        ("content", "Hi"),
        ("color", "red"),
        ("font-family", "Georgia"),
        ("font-size", "20px"),
        ("font-weight", "bold"),
        ("font-style", "italic"),
        ("padding", "2px"),
    ]);
    let ops = boxed.compose(extents(14, 10, 9)).unwrap();
    assert_eq!(
        ops,
        vec![
            PaintOp::CreateSurface { width: 18, height: 14 },
            PaintOp::SetSource { color: Color::from_bytes(0, 0, 0) },
            PaintOp::RoundedRectangle {
                x: 0,
                y: 0,
                width: 18,
                height: 14,
                radius: Ratio { num: 0, den: 3_330_000 },
            },
            PaintOp::Fill,
            PaintOp::SelectFont {
                family: "Georgia".to_string(),
                size: Decimal { micros: 20_000_000 },
                weight: boxed.font.weight,
                slant: boxed.font.style,
            },
            PaintOp::SetSource { color: Color::from_bytes(255, 0, 0) },
            PaintOp::MoveTo { x: 2, y: 11 },
            PaintOp::ShowText { text: "Hi".to_string() },
            PaintOp::Encode,
        ]
    );
}

#[test]
fn text_is_painted_without_transparency() {
    let mut boxed = style(&[("content", "Hi")]);
    boxed.font.color = Color {
        red: Ratio { num: 1, den: 2 },
        green: Ratio { num: 1, den: 3 },
        blue: Ratio { num: 1, den: 4 },
        alpha: Ratio { num: 1, den: 5 },
    };
    let ops = boxed.compose(extents(14, 10, 9)).unwrap();
    assert_eq!(
        ops[5],
        PaintOp::SetSource {
            color: Color {
                red: Ratio { num: 1, den: 2 },
                green: Ratio { num: 1, den: 3 },
                blue: Ratio { num: 1, den: 4 },
                alpha: Ratio { num: 255_000_000, den: 255_000_000 },
            }
        }
    );
}

#[test]
fn unknown_alignment_fails_only_with_text() {
    let with_text = style(&[("content", "Hi"), ("text-align", "justify")]);
    assert_eq!(with_text.font.text_align, TextAlign::Unrecognized);
    assert_eq!(
        with_text.compose(extents(14, 10, 9)),
        Err(CssError::ContentError("Invalid text-align"))
    );
    let without_text = style(&[("width", "10px"), ("text-align", "justify")]);
    assert_eq!(without_text.compose(None).unwrap().len(), 5);
    let empty_text = style(&[("content", ""), ("text-align", "justify")]);
    assert_eq!(empty_text.compose(None).unwrap().len(), 5);
}

#[test]
fn corner_radius_is_limited_and_scaled() {
    let radius = |micros| corner_radius_of(Decimal { micros });
    assert_eq!(radius(0), Ratio { num: 0, den: 3_330_000 });
    assert_eq!(radius(3_330_000), Ratio { num: 3_330_000, den: 3_330_000 });
    assert_eq!(radius(20_000_000), Ratio { num: 20_000_000, den: 3_330_000 });
    assert_eq!(radius(20_000_001), Ratio { num: 20_000_000, den: 3_330_000 });
    assert_eq!(radius(i64::MAX), Ratio { num: 20_000_000, den: 3_330_000 });
    assert_eq!(radius(-1), Ratio { num: -1, den: 3_330_000 });
    let ten = radius(10_000_000);
    assert_eq!(ten.num as f64 / ten.den as f64, 10. / 3.33);
    let most = radius(30_000_000);
    assert_eq!(most.num as f64 / most.den as f64, 20. / 3.33);
}

#[test]
fn default_font_is_the_font_of_an_empty_block() {
    let boxed = style(&[("width", "1px")]);
    assert_eq!(boxed.font, Font::new(&PropertyMap::new(), None).unwrap());
}
