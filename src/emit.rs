use vstd::prelude::*;
use vstd::string::*;

use crate::properties::{Properties, PropertiesView};

verus! {

/// The inline markup that shows `label` in the text style of `p`.
pub open spec fn markup_of(p: PropertiesView, label: Seq<char>) -> Seq<char> {
    "<span foreground=\""@ + p.color + "\" size=\""@ + p.font_size + "\" line_height=\""@
        + p.line_height + "\" font_family=\""@ + p.font_family + "\" font_weight=\""@
        + p.font_weight + "\" underline=\""@ + p.underline + "\" underline_color=\""@
        + p.underline_color + "\" overline=\""@ + p.overline + "\" overline_color=\""@
        + p.overline_color + "\" strikethrough=\""@ + p.strikethrough
        + "\" strikethrough_color=\""@ + p.strikethrough_color + "\">"@ + label + "</span>"@
}

/// The margin, border and padding declarations of `p`, closing a block.
pub open spec fn box_fields(p: PropertiesView) -> Seq<char> {
    "margin-top: "@ + p.margin_top + "px; margin-bottom: "@ + p.margin_bottom
        + "px; margin-left: "@ + p.margin_left + "px; margin-right: "@ + p.margin_right
        + "px; border-style: "@ + p.border_style + "; border-color: "@ + p.border_color
        + "; border-width: "@ + p.border_width + "; border-radius: "@ + p.border_radius
        + "; padding: "@ + p.padding + "; }\n"@
}

/// The box-model block of a text label for the selector `sel`.
pub open spec fn label_block(sel: Seq<char>, p: PropertiesView) -> Seq<char> {
    sel + " { "@ + box_fields(p)
}

/// The block of a selection control for the class `class`.
pub open spec fn select_block(class: Seq<char>, p: PropertiesView) -> Seq<char> {
    "."@ + class + " { color: "@ + p.color + "; background-color: "@ + p.background_color
        + "; font-size: "@ + p.font_size + "; font-family: "@ + p.font_family + "; "@
        + box_fields(p)
}

/// Builds the inline markup that shows `label` in the text style of `p`.
pub fn markup(p: &Properties, label: &str) -> (r: String)
    ensures
        r@ == markup_of(p@, label@),
{
    let mut out = String::from_str("<span foreground=\"");
    out.append(p.color.as_str());
    out.append("\" size=\"");
    out.append(p.font_size.as_str());
    out.append("\" line_height=\"");
    out.append(p.line_height.as_str());
    out.append("\" font_family=\"");
    out.append(p.font_family.as_str());
    out.append("\" font_weight=\"");
    out.append(p.font_weight.as_str());
    out.append("\" underline=\"");
    out.append(p.underline.as_str());
    out.append("\" underline_color=\"");
    out.append(p.underline_color.as_str());
    out.append("\" overline=\"");
    out.append(p.overline.as_str());
    out.append("\" overline_color=\"");
    out.append(p.overline_color.as_str());
    out.append("\" strikethrough=\"");
    out.append(p.strikethrough.as_str());
    out.append("\" strikethrough_color=\"");
    out.append(p.strikethrough_color.as_str());
    out.append("\">");
    out.append(label);
    out.append("</span>");
    out
}

fn append_box_fields(out: &mut String, p: &Properties)
    ensures
        final(out)@ == old(out)@ + box_fields(p@),
{
    out.append("margin-top: ");
    out.append(p.margin_top.as_str());
    out.append("px; margin-bottom: ");
    out.append(p.margin_bottom.as_str());
    out.append("px; margin-left: ");
    out.append(p.margin_left.as_str());
    out.append("px; margin-right: ");
    out.append(p.margin_right.as_str());
    out.append("px; border-style: ");
    out.append(p.border_style.as_str());
    out.append("; border-color: ");
    out.append(p.border_color.as_str());
    out.append("; border-width: ");
    out.append(p.border_width.as_str());
    out.append("; border-radius: ");
    out.append(p.border_radius.as_str());
    out.append("; padding: ");
    out.append(p.padding.as_str());
    out.append("; }\n");
    assert(out@ =~= old(out)@ + box_fields(p@));
}

/// Appends the box-model block of a text label for `sel` to `out`.
pub fn append_label_block(out: &mut String, sel: &str, p: &Properties)
    ensures
        final(out)@ == old(out)@ + label_block(sel@, p@),
{
    out.append(sel);
    out.append(" { ");
    append_box_fields(out, p);
    assert(out@ =~= old(out)@ + label_block(sel@, p@));
}

/// Appends the block of a selection control for `class` to `out`.
pub fn append_select_block(out: &mut String, class: &str, p: &Properties)
    ensures
        final(out)@ == old(out)@ + select_block(class@, p@),
{
    out.append(".");
    out.append(class);
    out.append(" { color: ");
    out.append(p.color.as_str());
    out.append("; background-color: ");
    out.append(p.background_color.as_str());
    out.append("; font-size: ");
    out.append(p.font_size.as_str());
    out.append("; font-family: ");
    out.append(p.font_family.as_str());
    out.append("; ");
    append_box_fields(out, p);
    assert(out@ =~= old(out)@ + select_block(class@, p@));
}

} // verus!
