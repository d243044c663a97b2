use b9_css::sheet::{find_char, load, parse_declaration, split_at_char, trim, ParseError};
use b9_css::style::style_label;

fn pair(name: &str, value: &str) -> (String, String) {
    (name.to_string(), value.to_string())
}

#[test]
fn loads_blocks_into_table() {
    let text = "\n.title {\n  color: #111111;\n  font-size: 20px;\n}\nh1 { margin-top : 4px ; }\n";
    let table = load(text).unwrap();
    assert_eq!(table.get("title").unwrap(), &vec![pair("color", "#111111"), pair("font-size", "20px")]);
    assert_eq!(table.get("h1").unwrap(), &vec![pair("margin-top", "4px")]);
    assert!(table.get(".title").is_none());
    assert!(table.get("h2").is_none());
}

#[test]
fn later_block_replaces_earlier() {
    let table = load("a { color: red; } a { color: blue }").unwrap();
    assert_eq!(table.get("a").unwrap(), &vec![pair("color", "blue")]);
}

#[test]
fn value_keeps_later_colons() {
    let table = load("x { font-family: a:b ; ; }").unwrap();
    assert_eq!(table.get("x").unwrap(), &vec![pair("font-family", "a:b")]);
}

#[test]
fn empty_stylesheet_is_empty_table() {
    let table = load("  \n ").unwrap();
    assert!(table.get("").is_none());
    assert!(table.get("a").is_none());
}

#[test]
fn parse_errors() {
    assert_eq!(load("color: red; }").err(), Some(ParseError::MissingOpenBrace));
    assert_eq!(load(" { color: red; }").err(), Some(ParseError::EmptySelector));
    assert_eq!(load("a { b { color: red; } }").err(), Some(ParseError::NestedBlock));
    assert_eq!(load("a { color red; }").err(), Some(ParseError::MissingColon));
    assert_eq!(load("a { : red; }").err(), Some(ParseError::EmptyProperty));
    assert_eq!(load("a { color: red; } b { color: blue;").err(), Some(ParseError::UnclosedBlock));
    // the first error in the text wins
    assert_eq!(load("a { x } { y: z; }").err(), Some(ParseError::MissingColon));
}

#[test]
fn loaded_table_styles_a_label() {
    let table = load(".title { color: #111111; font-size: 20px; }").unwrap();
    let out = style_label(&table, &vec!["title".to_string()], "h2", "Hi");
    assert!(out.markup.unwrap().starts_with("<span foreground=\"#111111\" size=\"22pt\""));
}

#[test]
fn text_helpers() {
    assert_eq!(trim("  a b \t\n"), "a b");
    assert_eq!(trim("   "), "");
    assert_eq!(find_char("ab:c:d", ':'), Some(2));
    assert_eq!(find_char("abc", ':'), None);
    assert_eq!(split_at_char("a;b;;", ';'), vec!["a", "b", "", ""]);
    assert_eq!(split_at_char("", ';'), vec![""]);
    assert_eq!(parse_declaration("  "), Ok(None));
    assert_eq!(parse_declaration(" color : red "), Ok(Some(pair("color", "red"))));
}

