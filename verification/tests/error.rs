use css_image::error::CssError;

#[test]
fn test_css_error() {
    let error = CssError::SizeError("Test");
    assert_eq!(error.to_string(), "SizeError: Test");

    let error = CssError::ContentError("Test");
    assert_eq!(error.to_string(), "ContentError: Test");

    let error = CssError::ParseError;
    assert_eq!(error.to_string(), "ParseError: Failed to parse CSS");

    let error = CssError::FontError("Test");
    assert_eq!(error.to_string(), "FontError: Test");

    let error = CssError::SizeError("Test");
    assert_eq!(error.to_string(), "SizeError: Test");

    let error = CssError::SizeError("Test");
    assert_eq!(error.to_string(), "SizeError: Test");

    let error = "";
    let error = CssError::from(error);
    assert_eq!(error.to_string(), "ContentError: &str");

    let error = "".parse::<f32>().unwrap_err();
    let error = CssError::from(error);
    assert_eq!(error.to_string(), "SizeError: ParseFloatError");

    let error = "".parse::<i32>().unwrap_err();
    let error = CssError::from(error);
    assert_eq!(error.to_string(), "SizeError: ParseIntError");
}
