use css_image::error::CssError;
use css_image::layout::TextExtents;
use css_image::paint::PaintOp;
use css_image::style::Style;
use css_image::table::Table;
use css_image::{parse, render, render_sheet, Measurements};

/// What a backend might measure of a short text.
fn measured(name: &str, width: i32, height: i32, bearing: i32) -> Measurements {
    let mut extents = Measurements::new();
    extents.insert(name.to_string(), TextExtents { width, height, bearing });
    extents
}

#[test]
fn test_auto_sizes() {
    let css = r#"
        body {
        width: 100px;
        content: "aaa";
        text-align: right;
        }
        "#;

    let result = render(css, &measured("body", 18, 7, 7));
    assert!(result.is_ok());
    let ops = &result.unwrap()[0].ops;
    assert_eq!(ops[0], PaintOp::CreateSurface { width: 100, height: 7 });
    assert_eq!(ops[6], PaintOp::MoveTo { x: 82, y: 7 });

    let css = r#"
        body {
        height: 100px;
        content: "aaa";
        text-align: center;
        }
        "#;

    let result = render(css, &measured("body", 18, 7, 7));
    assert!(result.is_ok());
    let ops = &result.unwrap()[0].ops;
    assert_eq!(ops[0], PaintOp::CreateSurface { width: 18, height: 100 });
    assert_eq!(ops[6], PaintOp::MoveTo { x: 0, y: 7 });
}

#[test]
fn test_parse_render() {
    let css = r#"
        body {
        color: #ffffff;
        width: 100px;
        height: 100px;
        background-color: #ffffff;
        margin: 10px 20px 30px 40px;
        padding: 10px 20px 30px 40px;
        content: "Hello, World!";
        border-radius: 10px;
        }
        "#;

    let result = render(css, &measured("body", 70, 9, 9));
    assert!(result.is_ok());
}

#[test]
fn test_parse_then_render() {
    let css = r#"
        body {
        color: #ffffff;
        width: 100px;
        height: 100px;
        background-color: #ffffff;
        margin: 10px 20px 30px 40px;
        padding: 10px 20px 30px 40px;
        content: "hello, world!";
        border-radius: 10px;
        }
        "#;

    let result = parse(css);
    assert!(result.is_ok());

    let result = render(result.unwrap(), &measured("body", 70, 9, 9));
    assert!(result.is_ok());

    let result = result.unwrap();
    assert!(result.iter().any(|entry| entry.name == "body"));
}

#[test]
fn rendering_text_equals_rendering_its_styles() {
    let css = r#"
        * { font-family: Georgia; margin: 2px; }
        title { content: "Report"; text-align: center; width: 120px; }
        chip { background-color: rgba(10, 20, 30, 128); padding: 4px 8px; }
        "#;
    let mut extents = measured("title", 44, 11, 10);
    extents.insert("chip".to_string(), TextExtents { width: 3, height: 3, bearing: 3 });

    let direct = render(css, &extents);
    let styles = parse(css).unwrap();
    let by_reference = render_sheet(&styles, &extents);
    assert!(direct.is_ok());
    let lent = render(&styles, &extents);
    assert_eq!(direct, lent);
    let staged = render(styles, &extents);
    assert_eq!(direct, staged);
    assert_eq!(direct, by_reference);
}

#[test]
fn rendering_borrowed_styles() {
    let css = "a { width: 10px; } b { content: \"x\"; text-align: right; }";
    let styles = parse(css).unwrap();
    let extents = measured("b", 6, 7, 7);
    let mut lent: Table<&Style> = Table::new();
    lent.insert("a".to_string(), styles.get("a").unwrap());
    lent.insert("b".to_string(), styles.get("b").unwrap());
    assert_eq!(render(lent, &extents), render_sheet(&styles, &extents));
}

#[test]
fn box_of_text_alone_has_the_measured_size() {
    let done = render("body { content: \"aaaa\"; }", &measured("body", 31, 9, 8)).unwrap();
    assert_eq!(done.len(), 1);
    assert_eq!(done[0].name, "body");
    assert_eq!(done[0].ops[0], PaintOp::CreateSurface { width: 31, height: 9 });
    let done = render(
        "body { content: \"aaaa\"; margin: 1px 2px 3px 4px; padding: 5px; }",
        &measured("body", 31, 9, 8),
    )
    .unwrap();
    assert_eq!(done[0].ops[0], PaintOp::CreateSurface { width: 31 + 4 + 2 + 10, height: 9 + 1 + 3 + 10 });
    let done = render("body { color: red; }", &measured("body", 31, 9, 8)).unwrap();
    assert_eq!(done[0].ops[0], PaintOp::CreateSurface { width: 5, height: 5 });
}

#[test]
fn rendering_keeps_the_order_of_the_sheet() {
    let css = "b { width: 1px; } a { width: 2px; } c { width: 3px; }";
    let done = render(css, &Measurements::new()).unwrap();
    let names: Vec<&str> = done.iter().map(|entry| entry.name.as_str()).collect();
    assert_eq!(names, vec!["b", "a", "c"]);
}

#[test]
fn rendering_reports_the_error_of_parsing() {
    assert_eq!(
        render("", &Measurements::new()),
        Err(CssError::ContentError("Empty style sheet"))
    );
    assert_eq!(
        render("a { color: nope; }", &Measurements::new()),
        Err(CssError::FontError("Invalid font color"))
    );
}

#[test]
fn first_bad_box_ends_the_rendering() {
    let css = r#"
        good { width: 10px; }
        bad { content: "x"; text-align: justify; }
        later { width: 10px; }
        "#;
    let styles = parse(css).unwrap();
    assert_eq!(styles.len(), 3);
    assert_eq!(
        render_sheet(&styles, &Measurements::new()),
        Err(CssError::ContentError("Invalid text-align"))
    );
}

#[test]
fn content_can_be_changed_between_parsing_and_rendering() {
    let css = "body { width: 100px; height: 100px; background-color: #FFFFFF; }";
    let mut styles = parse(css).unwrap();
    let mut body = styles.get("body").unwrap().clone();
    body.content = Some("Hello, World!".to_string());
    styles.insert("body".to_string(), body);

    let done = render(styles, &measured("body", 70, 9, 9)).unwrap();
    assert_eq!(done.len(), 1);
    assert_eq!(done[0].ops.len(), 9);
    assert_eq!(done[0].ops[7], PaintOp::ShowText { text: "Hello, World!".to_string() });
}
