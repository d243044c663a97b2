use vstd::prelude::*;

use crate::properties::{heading_size, label_resolved, resolved, unitless, PropertiesView};
use crate::rules::{value_or, RuleTable};
use crate::style::{
    label_buffer, label_markup, label_registrations, select_buffer, select_registrations,
    styling_of, ElementKind, StylingView,
};
use crate::text::replaced;

verus! {

/// Styling is a pure function of the rule table, the element's kind,
/// classes, tag and label: two stylings of the same inputs are identical.
pub proof fn lemma_styling_is_pure(
    t: RuleTable,
    kind: ElementKind,
    classes: Seq<Seq<char>>,
    tag: Seq<char>,
    label: Seq<char>,
    a: StylingView,
    b: StylingView,
)
    requires
        a == styling_of(t, kind, classes, tag, label),
        b == styling_of(t, kind, classes, tag, label),
    ensures
        a == b,
{
}

/// The style that a rule set gives, when the empty rule set is resolved:
/// every property takes its default.
pub proof fn lemma_defaults()
    ensures
        resolved(Seq::empty()) == (PropertiesView {
            line_height: "1"@,
            color: "#ffffff"@,
            background_color: "#202020"@,
            font_family: "Noto Sans"@,
            font_weight: "normal"@,
            text_align: "start"@,
            underline: "none"@,
            underline_color: "black"@,
            overline: "none"@,
            overline_color: "black"@,
            strikethrough: "false"@,
            strikethrough_color: "black"@,
            margin_top: "0"@,
            margin_bottom: "0"@,
            margin_left: "0"@,
            margin_right: "0"@,
            border_style: "none"@,
            border_color: "black"@,
            border_width: "0"@,
            border_radius: "0"@,
            padding: "0"@,
            font_size: "11px"@,
        }),
{
    reveal_strlit("0");
    reveal_strlit("px");
    let zero = "0"@;
    assert(zero.subrange(1, 1) =~= Seq::<char>::empty());
    assert(seq![zero[0]] =~= zero);
    assert(zero.len() < "px"@.len());
    assert(replaced(Seq::<char>::empty(), "px"@, Seq::empty()) == Seq::<char>::empty());
    assert(replaced(zero, "px"@, Seq::empty()) == seq![zero[0]] + replaced(zero.subrange(1, 1), "px"@, Seq::empty()));
    assert(seq![zero[0]] + Seq::<char>::empty() =~= zero);
    assert(unitless(zero) == zero);
}

/// Within one rule set a later rule for a property overrides every earlier one.
pub proof fn lemma_last_write_wins(rules: Seq<(String, String)>, name: String, value: String, default: Seq<char>)
    ensures
        value_or(rules.push((name, value)), name@, default) == value@,
{
    assert(rules.push((name, value)).last() == (name, value));
}

/// Appending "px" to a text without 'p' and replacing the unit gives the
/// text followed by the replacement.
pub proof fn lemma_unit_replaced(s: Seq<char>, to: Seq<char>)
    requires
        forall|i: int| 0 <= i < s.len() ==> s[i] != 'p',
    ensures
        replaced(s + "px"@, "px"@, to) == s + to,
    decreases s.len(),
{
    reveal_strlit("px");
    let whole = s + "px"@;
    if s.len() == 0 {
        assert(whole =~= "px"@);
        assert(whole.subrange(0, 2) =~= "px"@);
        assert(whole.subrange(2, 2) =~= Seq::<char>::empty());
        assert(replaced(Seq::<char>::empty(), "px"@, to) == Seq::<char>::empty());
        assert(replaced(whole, "px"@, to) == to + replaced(whole.subrange(2, 2), "px"@, to));
        assert(to + Seq::<char>::empty() =~= to);
        assert(s + to =~= to);
    } else {
        assert(whole.subrange(0, 2)[0] != "px"@[0]);
        let rest = s.subrange(1, s.len() as int);
        assert(whole.subrange(1, whole.len() as int) =~= rest + "px"@);
        lemma_unit_replaced(rest, to);
        assert(whole[0] == s[0]);
        assert(replaced(whole, "px"@, to) == seq![s[0]] + replaced(rest + "px"@, "px"@, to));
        assert(seq![s[0]] + (rest + to) =~= s + to);
    }
}

/// A font size in pixels is emitted in points with the same number, and a
/// margin in pixels is stored as the bare number.
pub proof fn lemma_pixel_units(number: Seq<char>)
    requires
        forall|i: int| 0 <= i < number.len() ==> number[i] != 'p',
    ensures
        replaced(number + "px"@, "px"@, "pt"@) == number + "pt"@,
        unitless(number + "px"@) == number,
{
    lemma_unit_replaced(number, "pt"@);
    lemma_unit_replaced(number, Seq::empty());
    assert(number + Seq::<char>::empty() =~= number);
}

/// A heading tag's size wins over whatever size the rules set: an "h1"
/// label is shown at 24pt.
pub proof fn lemma_heading_overrides(rules: Seq<(String, String)>)
    ensures
        label_resolved(rules, "h1"@).font_size == "24pt"@,
        label_resolved(rules, "h2"@).font_size == "22pt"@,
        label_resolved(rules, "h3"@).font_size == "20pt"@,
        label_resolved(rules, "h4"@).font_size == "18pt"@,
        label_resolved(rules, "h5"@).font_size == "16pt"@,
        label_resolved(rules, "h6"@).font_size == "14pt"@,
{
    reveal_strlit("h1");
    reveal_strlit("h2");
    reveal_strlit("h3");
    reveal_strlit("h4");
    reveal_strlit("h5");
    reveal_strlit("h6");
    reveal_strlit("24px");
    reveal_strlit("22px");
    reveal_strlit("20px");
    reveal_strlit("18px");
    reveal_strlit("16px");
    reveal_strlit("14px");
    reveal_strlit("24pt");
    reveal_strlit("22pt");
    reveal_strlit("20pt");
    reveal_strlit("18pt");
    reveal_strlit("16pt");
    reveal_strlit("14pt");
    reveal_strlit("px");
    reveal_strlit("pt");
    assert(heading_size("h1"@) == Some("24px"@));
    assert("h2"@ != "h1"@ && "h3"@ != "h1"@ && "h4"@ != "h1"@ && "h5"@ != "h1"@ && "h6"@ != "h1"@) by {
        assert("h2"@[1] != "h1"@[1]);
        assert("h3"@[1] != "h1"@[1]);
        assert("h4"@[1] != "h1"@[1]);
        assert("h5"@[1] != "h1"@[1]);
        assert("h6"@[1] != "h1"@[1]);
    }
    assert("h3"@ != "h2"@ && "h4"@ != "h2"@ && "h5"@ != "h2"@ && "h6"@ != "h2"@) by {
        assert("h3"@[1] != "h2"@[1]);
        assert("h4"@[1] != "h2"@[1]);
        assert("h5"@[1] != "h2"@[1]);
        assert("h6"@[1] != "h2"@[1]);
    }
    assert("h4"@ != "h3"@ && "h5"@ != "h3"@ && "h6"@ != "h3"@) by {
        assert("h4"@[1] != "h3"@[1]);
        assert("h5"@[1] != "h3"@[1]);
        assert("h6"@[1] != "h3"@[1]);
    }
    assert("h5"@ != "h4"@ && "h6"@ != "h4"@) by {
        assert("h5"@[1] != "h4"@[1]);
        assert("h6"@[1] != "h4"@[1]);
    }
    assert("h6"@ != "h5"@) by {
        assert("h6"@[1] != "h5"@[1]);
    }
    let sizes = seq![seq!['2', '4'], seq!['2', '2'], seq!['2', '0'], seq!['1', '8'], seq!['1', '6'], seq!['1', '4']];
    assert forall|i: int| 0 <= i < 6 implies
        replaced(#[trigger] sizes[i] + "px"@, "px"@, "pt"@) == sizes[i] + "pt"@ by {
        lemma_unit_replaced(sizes[i], "pt"@);
    }
    assert("24px"@ =~= sizes[0] + "px"@ && "24pt"@ =~= sizes[0] + "pt"@);
    assert("22px"@ =~= sizes[1] + "px"@ && "22pt"@ =~= sizes[1] + "pt"@);
    assert("20px"@ =~= sizes[2] + "px"@ && "20pt"@ =~= sizes[2] + "pt"@);
    assert("18px"@ =~= sizes[3] + "px"@ && "18pt"@ =~= sizes[3] + "pt"@);
    assert("16px"@ =~= sizes[4] + "px"@ && "16pt"@ =~= sizes[4] + "pt"@);
    assert("14px"@ =~= sizes[5] + "px"@ && "14pt"@ =~= sizes[5] + "pt"@);
}

/// A selector without rules adds nothing: no block, no registration, and
/// the markup stays that of the earlier selectors.
pub proof fn lemma_unmatched_selector_is_silent(
    t: RuleTable,
    cascade: Seq<Seq<char>>,
    sel: Seq<char>,
    tag: Seq<char>,
    label: Seq<char>,
)
    requires
        t.lookup(sel) is None,
    ensures
        label_buffer(t, cascade.push(sel), tag) == label_buffer(t, cascade, tag),
        label_registrations(t, cascade.push(sel), tag) == label_registrations(t, cascade, tag),
        label_markup(t, cascade.push(sel), tag, label) == label_markup(t, cascade, tag, label),
        select_buffer(t, cascade.push(sel)) == select_buffer(t, cascade),
        select_registrations(t, cascade.push(sel)) == select_registrations(t, cascade),
{
    assert(cascade.push(sel).drop_last() =~= cascade);
}

} // verus!
