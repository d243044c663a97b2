use b9_css::emit::markup;
use b9_css::properties::{resolve, resolve_for_label};
use b9_css::rules::{get_rule, RuleTable};
use b9_css::style::{style, style_label, style_link, style_select, ElementKind};
use b9_css::text::{replace_all, same_text};

fn rule(name: &str, value: &str) -> (String, String) {
    (name.to_string(), value.to_string())
}

fn classes(names: &[&str]) -> Vec<String> {
    names.iter().map(|n| n.to_string()).collect()
}

fn label_block(sel: &str, margins: [&str; 4]) -> String {
    format!(
        "{} {{ margin-top: {}px; margin-bottom: {}px; margin-left: {}px; margin-right: {}px; border-style: none; border-color: black; border-width: 0; border-radius: 0; padding: 0; }}\n",
        sel, margins[0], margins[1], margins[2], margins[3]
    )
}

#[test]
fn empty_rules_resolve_to_defaults() {
    let p = resolve(&vec![]);
    assert_eq!(p.line_height, "1");
    assert_eq!(p.font_size, "11px");
    assert_eq!(p.color, "#ffffff");
    assert_eq!(p.background_color, "#202020");
    assert_eq!(p.font_family, "Noto Sans");
    assert_eq!(p.font_weight, "normal");
    assert_eq!(p.text_align, "start");
    assert_eq!(p.underline, "none");
    assert_eq!(p.underline_color, "black");
    assert_eq!(p.overline, "none");
    assert_eq!(p.overline_color, "black");
    assert_eq!(p.strikethrough, "false");
    assert_eq!(p.strikethrough_color, "black");
    assert_eq!(p.margin_top, "0");
    assert_eq!(p.margin_bottom, "0");
    assert_eq!(p.margin_left, "0");
    assert_eq!(p.margin_right, "0");
    assert_eq!(p.border_style, "none");
    assert_eq!(p.border_color, "black");
    assert_eq!(p.border_width, "0");
    assert_eq!(p.border_radius, "0");
    assert_eq!(p.padding, "0");
}

#[test]
fn later_rule_wins_within_selector() {
    let rules = vec![rule("color", "red"), rule("color", "blue")];
    assert_eq!(resolve(&rules).color, "blue");
    assert_eq!(get_rule(&rules, "color", "#ffffff"), "blue");
    assert_eq!(get_rule(&rules, "padding", "0"), "0");
}

#[test]
fn text_align_is_read() {
    let rules = vec![rule("text-align", "center"), rule("font-weight", "bold")];
    let p = resolve(&rules);
    assert_eq!(p.text_align, "center");
    assert_eq!(p.font_weight, "bold");
}

#[test]
fn heading_size_beats_stylesheet() {
    let mut table = RuleTable::new();
    table.insert(".big", vec![rule("font-size", "50px")]);
    let out = style_label(&table, &classes(&["big"]), "h1", "Title");
    let m = out.markup.unwrap();
    assert!(m.contains("size=\"24pt\""));
    assert!(!m.contains("50pt"));
}

#[test]
fn every_heading_level_has_its_size() {
    let rules = vec![rule("font-size", "50px")];
    let expected = [("h1", "24pt"), ("h2", "22pt"), ("h3", "20pt"), ("h4", "18pt"), ("h5", "16pt"), ("h6", "14pt"), ("p", "50pt")];
    for (tag, size) in expected {
        assert_eq!(resolve_for_label(&rules, tag).font_size, size);
    }
}

#[test]
fn font_size_is_emitted_in_points() {
    let rules = vec![rule("font-size", "18px")];
    let p = resolve_for_label(&rules, "label");
    assert_eq!(p.font_size, "18pt");
    assert!(markup(&p, "x").contains("size=\"18pt\""));
    assert_eq!(resolve_for_label(&vec![], "label").font_size, "11pt");
}

#[test]
fn margin_unit_is_stripped_and_restored() {
    let rules = vec![rule("margin-top", "12px"), rule("margin-left", "3")];
    let p = resolve(&rules);
    assert_eq!(p.margin_top, "12");
    assert_eq!(p.margin_left, "3");
    let mut table = RuleTable::new();
    table.insert("box", rules);
    let out = style_label(&table, &classes(&["box"]), "label", "x");
    assert_eq!(out.registrations, vec![label_block("box", ["12", "0", "3", "0"])]);
}

#[test]
fn unmatched_classes_register_nothing() {
    let mut table = RuleTable::new();
    table.insert("title", vec![rule("color", "#111111")]);
    let alone = style_label(&table, &classes(&["title"]), "label", "Hi");
    let mixed = style_label(&table, &classes(&["missing", "title", "absent"]), "label", "Hi");
    assert_eq!(alone.registrations.len(), 1);
    assert_eq!(mixed.registrations, alone.registrations);
    assert_eq!(mixed.markup, alone.markup);
    let none = style_label(&table, &classes(&["missing"]), "label", "Hi");
    assert!(none.markup.is_none());
    assert!(none.registrations.is_empty());
}

#[test]
fn registrations_accumulate_per_matched_class() {
    let mut table = RuleTable::new();
    table.insert("a1", vec![rule("margin-top", "1px")]);
    table.insert("b2", vec![rule("color", "green")]);
    table.insert("label", vec![rule("padding", "4")]);
    let out = style_label(&table, &classes(&["a1", "zz", "b2"]), "label", "t");
    let first = label_block("a1", ["1", "0", "0", "0"]);
    let second = first.clone() + &label_block("b2", ["0", "0", "0", "0"]);
    let third = second.clone()
        + "label { margin-top: 0px; margin-bottom: 0px; margin-left: 0px; margin-right: 0px; border-style: none; border-color: black; border-width: 0; border-radius: 0; padding: 4; }\n";
    assert_eq!(out.registrations, vec![first, second, third]);
    // the tag's own rules come last, so its markup is the one kept
    assert!(out.markup.unwrap().starts_with("<span foreground=\"#ffffff\""));
}

#[test]
fn end_to_end_heading_label() {
    let mut table = RuleTable::new();
    table.insert(".title", vec![rule("color", "#111111"), rule("font-size", "20px")]);
    let out = style_label(&table, &classes(&["title"]), "h2", "Hi");
    assert_eq!(
        out.markup.unwrap(),
        "<span foreground=\"#111111\" size=\"22pt\" line_height=\"1\" font_family=\"Noto Sans\" font_weight=\"normal\" underline=\"none\" underline_color=\"black\" overline=\"none\" overline_color=\"black\" strikethrough=\"false\" strikethrough_color=\"black\">Hi</span>"
    );
    assert_eq!(out.registrations, vec![label_block("title", ["0", "0", "0", "0"])]);
}

#[test]
fn styling_twice_gives_the_same_output() {
    let mut table = RuleTable::new();
    table.insert("x", vec![rule("underline", "single"), rule("margin-right", "2px")]);
    table.insert("h3", vec![rule("color", "#abcdef")]);
    let a = style_label(&table, &classes(&["x"]), "h3", "same");
    let b = style_label(&table, &classes(&["x"]), "h3", "same");
    assert_eq!(a.markup, b.markup);
    assert_eq!(a.registrations, b.registrations);
}

#[test]
fn selection_control_blocks() {
    let mut table = RuleTable::new();
    table.insert("menu", vec![rule("color", "red"), rule("margin-bottom", "5px")]);
    table.insert("select", vec![rule("font-size", "13px")]);
    let out = style_select(&table, &classes(&["menu"]));
    assert!(out.markup.is_none());
    let menu = ".menu { color: red; background-color: #202020; font-size: 11px; font-family: Noto Sans; margin-top: 0px; margin-bottom: 5px; margin-left: 0px; margin-right: 0px; border-style: none; border-color: black; border-width: 0; border-radius: 0; padding: 0; }\n".to_string();
    let select = ".select { color: #ffffff; background-color: #202020; font-size: 13px; font-family: Noto Sans; margin-top: 0px; margin-bottom: 0px; margin-left: 0px; margin-right: 0px; border-style: none; border-color: black; border-width: 0; border-radius: 0; padding: 0; }\n";
    assert_eq!(out.registrations, vec![menu.clone(), menu + select]);
}

#[test]
fn link_is_styled_as_anchor_label() {
    let mut table = RuleTable::new();
    table.insert("a", vec![rule("color", "#0000ff"), rule("underline", "single")]);
    let out = style_link(&table, "home");
    let m = out.markup.unwrap();
    assert!(m.starts_with("<span foreground=\"#0000ff\" size=\"11pt\""));
    assert!(m.contains("underline=\"single\""));
    assert!(m.ends_with(">home</span>"));
    assert_eq!(out.registrations, vec![label_block("a", ["0", "0", "0", "0"])]);
}

#[test]
fn dispatch_by_element_kind() {
    let mut table = RuleTable::new();
    table.insert("c", vec![rule("color", "red")]);
    table.insert("select", vec![rule("color", "blue")]);
    let cls = classes(&["c"]);
    let passive = style(&table, &ElementKind::Passive, &cls, "c", "x");
    assert!(passive.markup.is_none());
    assert!(passive.registrations.is_empty());
    let text = style(&table, &ElementKind::TextLabel, &cls, "p", "x");
    assert_eq!(text.registrations, style_label(&table, &cls, "p", "x").registrations);
    let select = style(&table, &ElementKind::SelectionControl, &cls, "p", "x");
    assert_eq!(select.registrations.len(), 2);
    let link = style(&table, &ElementKind::Link, &cls, "p", "x");
    assert!(link.markup.is_none());
    assert!(link.registrations.is_empty());
}

#[test]
fn insert_replaces_rule_set() {
    let mut table = RuleTable::new();
    table.insert("k", vec![rule("color", "red")]);
    table.insert(".k", vec![rule("color", "blue")]);
    assert_eq!(table.get("k").unwrap(), &vec![rule("color", "blue")]);
    assert!(table.get(".k").is_none());
    assert!(table.get("other").is_none());
}

#[test]
fn replacement_of_units() {
    assert_eq!(replace_all("12px", "px", ""), "12");
    assert_eq!(replace_all("1px 2px", "px", "pt"), "1pt 2pt");
    assert_eq!(replace_all("ppx", "px", "pt"), "ppt");
    assert_eq!(replace_all("", "px", "pt"), "");
    assert_eq!(replace_all("1em", "px", "pt"), "1em");
    assert!(same_text("héllo", "héllo"));
    assert!(!same_text("abc", "abd"));
    assert!(!same_text("ab", "abc"));
}
