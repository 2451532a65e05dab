use css_image::color::Color;
use css_image::error::CssError;
use css_image::number::Decimal;
use css_image::property::PropertyMap;
use css_image::font::TextAlign;
use css_image::style::Style;
use css_image::table::Table;
use css_image::tokenizer::{
    block_parts_from, chunks_of, declarations_from, find_all, pair_from, read_block, read_blocks,
    BLOCK_PATTERN, PROPERTY_PATTERN,
};
use css_image::{parse, Parseable};

fn chars(text: &str) -> Vec<char> {
    text.chars().collect()
}

fn strings(pieces: Vec<Vec<char>>) -> Vec<String> {
    pieces.into_iter().map(|piece| piece.into_iter().collect()).collect()
}

fn group(text: &str) -> Option<String> {
    Some(text.to_string())
}

#[test]
fn universal_fallback() {
    let styles = parse("* { width: 50px; } body { height: 20px; }").unwrap();
    let body = styles.get("body").unwrap();
    assert_eq!(body.width, Some(50));
    assert_eq!(body.height, Some(20));
    let universal = styles.get("*").unwrap();
    assert_eq!(universal.width, Some(50));
    assert_eq!(universal.height, None);
}

#[test]
fn universal_block_may_come_last() {
    let styles = parse("body { height: 20px; } * { width: 50px; }").unwrap();
    assert_eq!(styles.get("body").unwrap().width, Some(50));
    assert_eq!(styles.name_at(0).unwrap(), "body");
    assert_eq!(styles.name_at(1).unwrap(), "*");
}

#[test]
fn universal_block_never_overrides() {
    let styles = parse("* { width: 50px; color: red; } body { width: 7px; }").unwrap();
    let body = styles.get("body").unwrap();
    assert_eq!(body.width, Some(7));
    assert_eq!(body.font.color, Color::from_bytes(255, 0, 0));
}

#[test]
fn first_universal_block_is_the_fallback() {
    let styles = parse("* { width: 1px; } * { width: 2px; } a { height: 3px; }").unwrap();
    assert_eq!(styles.get("a").unwrap().width, Some(1));
    assert_eq!(styles.len(), 2);
}

#[test]
fn empty_input_is_an_error() {
    assert_eq!(parse("").err(), Some(CssError::ContentError("Empty style sheet")));
    assert_eq!(parse("  \n\t ").err(), Some(CssError::ContentError("Empty style sheet")));
}

#[test]
fn block_without_properties_is_an_error() {
    assert_eq!(parse("body { }").err(), Some(CssError::ContentError("Empty selector block")));
    assert_eq!(
        parse("a { width: 1px; } body { }").err(),
        Some(CssError::ContentError("Empty selector block"))
    );
    assert_eq!(
        parse("body { nonsense }").err(),
        Some(CssError::ContentError("Empty selector block"))
    );
    assert_eq!(
        Style::new(&PropertyMap::new(), None).err(),
        Some(CssError::ContentError("Empty selector block"))
    );
}

#[test]
fn block_without_name_is_an_error() {
    assert_eq!(
        parse("{ width: 1px; }").err(),
        Some(CssError::ContentError("Not a selector block"))
    );
    assert_eq!(parse("body {}").err(), Some(CssError::ContentError("Not a selector block")));
}

#[test]
fn stray_text_is_an_error() {
    assert_eq!(parse("hello").err(), Some(CssError::ContentError("Not a selector block")));
    assert_eq!(
        parse("a { width: 1px; } trailing").err(),
        Some(CssError::ContentError("Not a selector block"))
    );
    assert_eq!(
        parse("a { width: 1px; ").err(),
        Some(CssError::ContentError("Not a selector block"))
    );
}

#[test]
fn pieces_are_read_before_styles_are_built() {
    let css = "a { color: nope; } { width: 1px; }";
    assert_eq!(parse(css).err(), Some(CssError::ContentError("Not a selector block")));
    let css = "a { color: nope; } b { background-color: nope; }";
    assert_eq!(parse(css).err(), Some(CssError::FontError("Invalid font color")));
}

#[test]
fn invalid_tokens_are_errors() {
    assert_eq!(
        parse("a { background-color: idk; }").err(),
        Some(CssError::ContentError("Invalid background color"))
    );
    assert_eq!(
        parse("a { background-color: #12; }").err(),
        Some(CssError::ContentError("Invalid background color"))
    );
    assert_eq!(
        parse("a { color: rgb(1,2); }").err(),
        Some(CssError::FontError("Invalid font color"))
    );
    assert_eq!(
        parse("a { font-weight: 700; }").err(),
        Some(CssError::FontError("Invalid font weight"))
    );
    assert_eq!(
        parse("a { font-style: bent; }").err(),
        Some(CssError::FontError("Invalid font style"))
    );
    assert_eq!(
        parse("a { background-color: x; color: y; }").err(),
        Some(CssError::ContentError("Invalid background color"))
    );
}

#[test]
fn malformed_sizes_stay_open() {
    let styles = parse("a { width: auto; height: 10; border-radius: big; }").unwrap();
    let a = styles.get("a").unwrap();
    assert_eq!(a.width, None);
    assert_eq!(a.height, None);
    assert_eq!(a.border_radius, Decimal { micros: 0 });
    let styles = parse("a { width: -5px; height: 0px; border-radius: 2.5px; }").unwrap();
    let a = styles.get("a").unwrap();
    assert_eq!(a.width, None);
    assert_eq!(a.height, Some(0));
    assert_eq!(a.border_radius, Decimal { micros: 2_500_000 });
}

#[test]
fn defaults_of_a_style() {
    let styles = parse("a { unknown: 1; }").unwrap();
    let a = styles.get("a").unwrap();
    assert_eq!(a.width, None);
    assert_eq!(a.height, None);
    assert_eq!(a.background_color, Color::from_bytes(0, 0, 0));
    assert_eq!(a.margin, [0; 4]);
    assert_eq!(a.padding, [0; 4]);
    assert_eq!(a.border_radius, Decimal { micros: 0 });
    assert_eq!(a.content, None);
}

#[test]
fn last_declaration_of_a_property_wins() {
    let styles = parse("a { width: 1px; width: 2px; }").unwrap();
    assert_eq!(styles.get("a").unwrap().width, Some(2));
}

#[test]
fn later_block_replaces_an_earlier_one_of_its_name() {
    let styles = parse("a { width: 1px; } b { width: 2px; } a { height: 3px; }").unwrap();
    assert_eq!(styles.len(), 2);
    assert_eq!(styles.name_at(0).unwrap(), "a");
    assert_eq!(styles.get("a").unwrap().width, None);
    assert_eq!(styles.get("a").unwrap().height, Some(3));
}

#[test]
fn values_lose_quotes_and_surrounding_space() {
    let styles = parse("a { content:   \"Hello, World!\"  ; font-family: \"Gill Sans\"; }").unwrap();
    let a = styles.get("a").unwrap();
    assert_eq!(a.content, Some("Hello, World!".to_string()));
    assert_eq!(a.font.family, "Gill Sans");
}

#[test]
fn pieces_of_a_sheet() {
    assert_eq!(strings(chunks_of(&chars("a{b}c{d}"))), vec!["a{b}", "c{d}"]);
    assert_eq!(strings(chunks_of(&chars("  a { b }  \n c { d }  e "))), vec!["a { b }", "c { d }", "e"]);
    assert_eq!(strings(chunks_of(&chars("}}"))), vec!["}", "}"]);
    assert_eq!(strings(chunks_of(&chars(" \n "))), Vec::<String>::new());
    assert_eq!(strings(chunks_of(&chars(""))), Vec::<String>::new());
}

#[test]
fn matches_come_with_their_groups() {
    let found = find_all(PROPERTY_PATTERN, "width: 100px; color: red ;").unwrap();
    assert_eq!(
        found,
        vec![
            vec![group("width: 100px;"), group("width"), group("100px")],
            vec![group("color: red ;"), group("color"), group("red ")],
        ]
    );
    let found = find_all(BLOCK_PATTERN, "body { width: 1px; }").unwrap();
    assert_eq!(found, vec![vec![group("body { width: 1px; }"), group("body"), group("width: 1px; ")]]);
    assert_eq!(find_all(BLOCK_PATTERN, "no block here").unwrap(), Vec::<Vec<Option<String>>>::new());
}

#[test]
fn groups_that_take_no_part_are_none() {
    let found = find_all("(a)|(b)", "ab").unwrap();
    assert_eq!(found, vec![vec![group("a"), group("a"), None], vec![group("b"), None, group("b")]]);
}

#[test]
fn unacceptable_pattern_is_a_parse_error() {
    assert_eq!(find_all("(", "text"), Err(CssError::ParseError));
    assert_eq!(find_all("[z-a]", "text"), Err(CssError::ParseError));
}

#[test]
fn pairs_of_groups() {
    let both = vec![group("a:b;"), group("a"), group("b")];
    let (first, second) = pair_from(&both).unwrap();
    assert_eq!((first.as_str(), second.as_str()), ("a", "b"));
    assert_eq!(pair_from(&vec![group("a"), group("a"), None]), None);
    assert_eq!(pair_from(&vec![group("a"), None, group("a")]), None);
    assert_eq!(pair_from(&vec![group("a"), group("a")]), None);
    assert_eq!(pair_from(&vec![group("a"), group("a"), group("b"), group("c")]), None);
    assert_eq!(pair_from(&vec![]), None);
}

#[test]
fn block_parts_are_the_groups_of_the_first_match() {
    let found = vec![
        vec![group("a { x }"), group("a"), group("x ")],
        vec![group("b { y }"), group("b"), group("y ")],
    ];
    let (selector, body) = block_parts_from(&found).unwrap();
    assert_eq!((selector.as_str(), body.as_str()), ("a", "x "));
    assert_eq!(block_parts_from(&vec![]), Err(CssError::ContentError("Not a selector block")));
    assert_eq!(
        block_parts_from(&vec![vec![group("a")]]),
        Err(CssError::ContentError("Not a selector block"))
    );
}

#[test]
fn declarations_build_the_property_map() {
    let found = vec![
        vec![group("width: 1px;"), group("width"), group("1px")],
        vec![group("content: \" Hi \" ;"), group("content"), group("\" Hi \" ")],
        vec![group("skipped"), group("skipped"), None],
        vec![group("width: 2px;"), group(" width "), group(" 2px ")],
    ];
    let map = declarations_from(&found);
    assert_eq!(map.len(), 2);
    assert_eq!(map.get("width").unwrap(), "2px");
    assert_eq!(map.get("content").unwrap(), " Hi ");
    assert_eq!(map.name_at(0).unwrap(), "width");
}

#[test]
fn reading_one_block() {
    let block = read_block(&chars("card { width: 200px; content: \"Hi\"; }")).unwrap();
    assert_eq!(block.selector, "card");
    assert_eq!(block.properties.len(), 2);
    assert_eq!(block.properties.get("width").unwrap(), "200px");
    assert_eq!(block.properties.get("content").unwrap(), "Hi");
    assert_eq!(
        read_block(&chars("card")).err(),
        Some(CssError::ContentError("Not a selector block"))
    );
}

#[test]
fn reading_blocks_stops_at_the_first_bad_piece() {
    let pieces = vec![chars("a { x: 1; }"), chars("b { y: 2; }")];
    let blocks = read_blocks(&pieces).unwrap();
    assert_eq!(blocks.len(), 2);
    assert_eq!(blocks[1].selector, "b");
    let pieces = vec![chars("a { x: 1; }"), chars("oops"), chars("b { y: 2; }")];
    assert_eq!(read_blocks(&pieces).err(), Some(CssError::ContentError("Not a selector block")));
    assert_eq!(read_blocks(&Vec::new()).unwrap().len(), 0);
}

#[test]
fn text_and_styles_both_parse() {
    let css = "a { width: 1px; }";
    let from_text = Parseable::parse(css).unwrap();
    let again = Parseable::parse(from_text.clone()).unwrap();
    assert_eq!(from_text.get("a"), again.get("a"));
    assert_eq!(again.len(), 1);
    let lent = Parseable::parse(&from_text).unwrap();
    assert_eq!(lent.len(), 1);
    assert_eq!(lent.name_at(0), from_text.name_at(0));
    assert_eq!(lent.get("a"), from_text.get("a"));
    assert!(Parseable::parse("").is_err());
}

#[test]
fn a_block_with_a_width_only() {
    let mut map = PropertyMap::new();
    map.insert("width".to_string(), "10px".to_string());
    let style = Style::new(&map, None).unwrap();
    assert_eq!(style.width, Some(10));
    assert_eq!(style.height, None);
    assert_eq!(style.background_color, Color::from_bytes(0, 0, 0));
    assert_eq!(style.margin, [0; 4]);
    assert_eq!(style.padding, [0; 4]);
    assert_eq!(style.border_radius, Decimal { micros: 0 });
    assert_eq!(style.content, None);
    assert_eq!(style.font.family, "Arial");
    assert_eq!(style.font.size, Decimal { micros: 12_000_000 });
    assert_eq!(style.font.text_align, TextAlign::Left);
    assert_eq!(style.font.letter_spacing, Decimal { micros: 0 });
}

#[test]
fn quoted_content_handed_to_the_builder() {
    let mut map = PropertyMap::new();
    map.insert("content".to_string(), "\"Hello, World!\"".to_string());
    map.insert("border-radius".to_string(), "10px".to_string());
    let style = Style::new(&map, None).unwrap();
    assert_eq!(style.content, Some("Hello, World!".to_string()));
    assert_eq!(style.border_radius, Decimal { micros: 10_000_000 });

    let mut map = PropertyMap::new();
    map.insert("content".to_string(), "  \" padded \"  ".to_string());
    let style = Style::new(&map, None).unwrap();
    assert_eq!(style.content, Some(" padded ".to_string()));

    let mut map = PropertyMap::new();
    map.insert("content".to_string(), "\"\"".to_string());
    let style = Style::new(&map, None).unwrap();
    assert_eq!(style.content, Some("".to_string()));
    assert_eq!(style.shown_text(), None);
}

#[test]
fn quoted_background_name_handed_to_the_builder() {
    let mut map = PropertyMap::new();
    map.insert("background-color".to_string(), "\"blue\"".to_string());
    let style = Style::new(&map, None).unwrap();
    assert_eq!(style.background_color, Color::from_bytes(0, 0, 255));
}

#[test]
fn borrowed_styles_parse_to_copies() {
    let styles = parse("a { width: 1px; } b { content: \"x\"; }").unwrap();
    let mut lent: Table<&Style> = Table::new();
    lent.insert("b".to_string(), styles.get("b").unwrap());
    lent.insert("a".to_string(), styles.get("a").unwrap());
    let owned = Parseable::parse(lent).unwrap();
    assert_eq!(owned.len(), 2);
    assert_eq!(owned.name_at(0).unwrap(), "b");
    assert_eq!(owned.name_at(1).unwrap(), "a");
    assert_eq!(owned.get("a"), styles.get("a"));
    assert_eq!(owned.get("b"), styles.get("b"));
}

#[test]
fn the_example_of_a_card() {
    let styles = parse("card { width: 200px; background-color: #2244ff; content: \"Hi\"; }").unwrap();
    let card = styles.get("card").unwrap();
    assert_eq!(card.width, Some(200));
    assert_eq!(card.background_color, Color::from_bytes(0x22, 0x44, 0xff));
    assert_eq!(card.content, Some("Hi".to_string()));
}

#[test]
fn many_blocks_on_one_line() {
    let css = r#"
    one { background-color: #FFFFFF; width: 100px; height: 100px; content: "aaaa"; color: red; font-size: 20; font-weight: bold; font-style: italic; }
    two { background-color: #FFFFFF; width: 100px; height: 100px; content: "aaaa"; color: red; font-size: 20; font-weight: bold; font-style: italic; }
    "#;
    let styles = parse(css).unwrap();
    assert_eq!(styles.len(), 2);
    let two = styles.get("two").unwrap();
    assert_eq!(two.font.size, Decimal { micros: 12_000_000 });
    assert_eq!(two.content, Some("aaaa".to_string()));
}
