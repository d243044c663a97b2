use vstd::prelude::*;
use vstd::string::*;

use crate::rules::{get_rule, value_or};
use crate::text::{replace_all, replaced, same_text};

verus! {

/// A fully resolved style: every property has a value.
pub struct Properties {
    pub line_height: String,
    pub color: String,
    pub background_color: String,
    pub font_family: String,
    pub font_weight: String,
    pub text_align: String,
    pub underline: String,
    pub underline_color: String,
    pub overline: String,
    pub overline_color: String,
    pub strikethrough: String,
    pub strikethrough_color: String,
    pub margin_top: String,
    pub margin_bottom: String,
    pub margin_left: String,
    pub margin_right: String,
    pub border_style: String,
    pub border_color: String,
    pub border_width: String,
    pub border_radius: String,
    pub padding: String,
    pub font_size: String,
}

/// The characters of each field of a `Properties` record.
pub struct PropertiesView {
    pub line_height: Seq<char>,
    pub color: Seq<char>,
    pub background_color: Seq<char>,
    pub font_family: Seq<char>,
    pub font_weight: Seq<char>,
    pub text_align: Seq<char>,
    pub underline: Seq<char>,
    pub underline_color: Seq<char>,
    pub overline: Seq<char>,
    pub overline_color: Seq<char>,
    pub strikethrough: Seq<char>,
    pub strikethrough_color: Seq<char>,
    pub margin_top: Seq<char>,
    pub margin_bottom: Seq<char>,
    pub margin_left: Seq<char>,
    pub margin_right: Seq<char>,
    pub border_style: Seq<char>,
    pub border_color: Seq<char>,
    pub border_width: Seq<char>,
    pub border_radius: Seq<char>,
    pub padding: Seq<char>,
    pub font_size: Seq<char>,
}

impl View for Properties {
    type V = PropertiesView;

    open spec fn view(&self) -> PropertiesView {
        PropertiesView {
            line_height: self.line_height@,
            color: self.color@,
            background_color: self.background_color@,
            font_family: self.font_family@,
            font_weight: self.font_weight@,
            text_align: self.text_align@,
            underline: self.underline@,
            underline_color: self.underline_color@,
            overline: self.overline@,
            overline_color: self.overline_color@,
            strikethrough: self.strikethrough@,
            strikethrough_color: self.strikethrough_color@,
            margin_top: self.margin_top@,
            margin_bottom: self.margin_bottom@,
            margin_left: self.margin_left@,
            margin_right: self.margin_right@,
            border_style: self.border_style@,
            border_color: self.border_color@,
            border_width: self.border_width@,
            border_radius: self.border_radius@,
            padding: self.padding@,
            font_size: self.font_size@,
        }
    }
}

/// A margin value with its "px" unit removed.
pub open spec fn unitless(v: Seq<char>) -> Seq<char> {
    replaced(v, "px"@, Seq::empty())
}

/// The style that a rule set gives: for each property the value of its last
/// rule, or the property's default.
pub open spec fn resolved(rules: Seq<(String, String)>) -> PropertiesView {
    PropertiesView {
        line_height: value_or(rules, "line-height"@, "1"@),
        color: value_or(rules, "color"@, "#ffffff"@),
        background_color: value_or(rules, "background-color"@, "#202020"@),
        font_family: value_or(rules, "font-family"@, "Noto Sans"@),
        font_weight: value_or(rules, "font-weight"@, "normal"@),
        text_align: value_or(rules, "text-align"@, "start"@),
        underline: value_or(rules, "underline"@, "none"@),
        underline_color: value_or(rules, "underline-color"@, "black"@),
        overline: value_or(rules, "overline"@, "none"@),
        overline_color: value_or(rules, "overline-color"@, "black"@),
        strikethrough: value_or(rules, "strikethrough"@, "false"@),
        strikethrough_color: value_or(rules, "strikethrough-color"@, "black"@),
        margin_top: unitless(value_or(rules, "margin-top"@, "0"@)),
        margin_bottom: unitless(value_or(rules, "margin-bottom"@, "0"@)),
        margin_left: unitless(value_or(rules, "margin-left"@, "0"@)),
        margin_right: unitless(value_or(rules, "margin-right"@, "0"@)),
        border_style: value_or(rules, "border-style"@, "none"@),
        border_color: value_or(rules, "border-color"@, "black"@),
        border_width: value_or(rules, "border-width"@, "0"@),
        border_radius: value_or(rules, "border-radius"@, "0"@),
        padding: value_or(rules, "padding"@, "0"@),
        font_size: value_or(rules, "font-size"@, "11px"@),
    }
}

fn margin(rules: &Vec<(String, String)>, property: &str) -> (r: String)
    ensures
        r@ == unitless(value_or(rules@, property@, "0"@)),
{
    let v = get_rule(rules, property, "0");
    proof {
        reveal_strlit("px");
        reveal_strlit("");
        assert(""@ =~= Seq::<char>::empty());
    }
    replace_all(v.as_str(), "px", "")
}

/// Resolves a rule set into a complete style, with defaults for the
/// properties that it does not set.
pub fn resolve(rules: &Vec<(String, String)>) -> (p: Properties)
    ensures
        p@ == resolved(rules@),
{
    Properties {
        line_height: get_rule(rules, "line-height", "1"),
        color: get_rule(rules, "color", "#ffffff"),
        background_color: get_rule(rules, "background-color", "#202020"),
        font_family: get_rule(rules, "font-family", "Noto Sans"),
        font_weight: get_rule(rules, "font-weight", "normal"),
        text_align: get_rule(rules, "text-align", "start"),
        underline: get_rule(rules, "underline", "none"),
        underline_color: get_rule(rules, "underline-color", "black"),
        overline: get_rule(rules, "overline", "none"),
        overline_color: get_rule(rules, "overline-color", "black"),
        strikethrough: get_rule(rules, "strikethrough", "false"),
        strikethrough_color: get_rule(rules, "strikethrough-color", "black"),
        margin_top: margin(rules, "margin-top"),
        margin_bottom: margin(rules, "margin-bottom"),
        margin_left: margin(rules, "margin-left"),
        margin_right: margin(rules, "margin-right"),
        border_style: get_rule(rules, "border-style", "none"),
        border_color: get_rule(rules, "border-color", "black"),
        border_width: get_rule(rules, "border-width", "0"),
        border_radius: get_rule(rules, "border-radius", "0"),
        padding: get_rule(rules, "padding", "0"),
        font_size: get_rule(rules, "font-size", "11px"),
    }
}

/// The font size that a heading tag imposes, whatever the rules say.
pub open spec fn heading_size(tag: Seq<char>) -> Option<Seq<char>> {
    if tag == "h1"@ {
        Some("24px"@)
    } else if tag == "h2"@ {
        Some("22px"@)
    } else if tag == "h3"@ {
        Some("20px"@)
    } else if tag == "h4"@ {
        Some("18px"@)
    } else if tag == "h5"@ {
        Some("16px"@)
    } else if tag == "h6"@ {
        Some("14px"@)
    } else {
        None
    }
}

fn heading_font_size(tag: &str) -> (r: Option<String>)
    ensures
        r is None <==> heading_size(tag@) is None,
        r matches Some(s) ==> heading_size(tag@) == Some(s@),
{
    if same_text(tag, "h1") {
        Some(String::from_str("24px"))
    } else if same_text(tag, "h2") {
        Some(String::from_str("22px"))
    } else if same_text(tag, "h3") {
        Some(String::from_str("20px"))
    } else if same_text(tag, "h4") {
        Some(String::from_str("18px"))
    } else if same_text(tag, "h5") {
        Some(String::from_str("16px"))
    } else if same_text(tag, "h6") {
        Some(String::from_str("14px"))
    } else {
        None
    }
}

/// The style of a text label with tag `tag` under a rule set: a heading's
/// size replaces the rules' one, and the size is given in points.
pub open spec fn label_resolved(rules: Seq<(String, String)>, tag: Seq<char>) -> PropertiesView {
    let p = resolved(rules);
    let size = match heading_size(tag) {
        Some(s) => s,
        None => p.font_size,
    };
    PropertiesView { font_size: replaced(size, "px"@, "pt"@), ..p }
}

/// Resolves a rule set for a text label with tag `tag`.
pub fn resolve_for_label(rules: &Vec<(String, String)>, tag: &str) -> (p: Properties)
    ensures
        p@ == label_resolved(rules@, tag@),
{
    let mut p = resolve(rules);
    if let Some(s) = heading_font_size(tag) {
        p.font_size = s;
    }
    proof {
        reveal_strlit("px");
    }
    p.font_size = replace_all(p.font_size.as_str(), "px", "pt");
    p
}

} // verus!
