use vstd::prelude::*;
use vstd::string::*;

use crate::emit::{append_label_block, append_select_block, label_block, markup, markup_of, select_block};
use crate::properties::{label_resolved, resolve, resolve_for_label, resolved};
use crate::rules::RuleTable;

verus! {

/// The kinds of element that styling distinguishes.
pub enum ElementKind {
    /// A text label, styled through inline markup and a box-model block.
    TextLabel,
    /// A choice widget, styled through one block per matched class.
    SelectionControl,
    /// A link, styled as a text label with the tag "a" that shows its label.
    Link,
    /// A box, text view, separator, picture or entry: nothing is styled.
    Passive,
}

/// What styling one element produces: the markup to set on its text, if any
/// class matched, and the accumulated style text handed to the rendering
/// surface after each matched class, in order.
pub struct Styling {
    pub markup: Option<String>,
    pub registrations: Vec<String>,
}

/// The characters of a `Styling`.
pub struct StylingView {
    pub markup: Option<Seq<char>>,
    pub registrations: Seq<Seq<char>>,
}

/// The characters of each string.
pub open spec fn texts(v: Seq<String>) -> Seq<Seq<char>> {
    v.map_values(|s: String| s@)
}

impl View for Styling {
    type V = StylingView;

    open spec fn view(&self) -> StylingView {
        StylingView {
            markup: match self.markup {
                Some(m) => Some(m@),
                None => None,
            },
            registrations: texts(self.registrations@),
        }
    }
}

/// The style text accumulated by a text label with tag `tag` over the
/// selectors of `cascade`.
pub open spec fn label_buffer(t: RuleTable, cascade: Seq<Seq<char>>, tag: Seq<char>) -> Seq<char>
    decreases cascade.len(),
{
    if cascade.len() == 0 {
        Seq::empty()
    } else {
        let prev = label_buffer(t, cascade.drop_last(), tag);
        match t.lookup(cascade.last()) {
            Some(r) => prev + label_block(cascade.last(), label_resolved(r, tag)),
            None => prev,
        }
    }
}

/// The markup of the last selector of `cascade` that has rules, if any.
pub open spec fn label_markup(t: RuleTable, cascade: Seq<Seq<char>>, tag: Seq<char>, label: Seq<char>) -> Option<Seq<char>>
    decreases cascade.len(),
{
    if cascade.len() == 0 {
        None
    } else {
        match t.lookup(cascade.last()) {
            Some(r) => Some(markup_of(label_resolved(r, tag), label)),
            None => label_markup(t, cascade.drop_last(), tag, label),
        }
    }
}

/// The accumulated text, registered after each selector of `cascade` that has rules.
pub open spec fn label_registrations(t: RuleTable, cascade: Seq<Seq<char>>, tag: Seq<char>) -> Seq<Seq<char>>
    decreases cascade.len(),
{
    if cascade.len() == 0 {
        Seq::empty()
    } else {
        let prev = label_registrations(t, cascade.drop_last(), tag);
        match t.lookup(cascade.last()) {
            Some(r) => prev.push(label_buffer(t, cascade, tag)),
            None => prev,
        }
    }
}

/// The styling of a text label: its classes are followed by its own tag.
pub open spec fn label_styling(t: RuleTable, classes: Seq<Seq<char>>, tag: Seq<char>, label: Seq<char>) -> StylingView {
    let cascade = classes.push(tag);
    StylingView {
        markup: label_markup(t, cascade, tag, label),
        registrations: label_registrations(t, cascade, tag),
    }
}

/// The style text accumulated by a selection control over `cascade`.
pub open spec fn select_buffer(t: RuleTable, cascade: Seq<Seq<char>>) -> Seq<char>
    decreases cascade.len(),
{
    if cascade.len() == 0 {
        Seq::empty()
    } else {
        let prev = select_buffer(t, cascade.drop_last());
        match t.lookup(cascade.last()) {
            Some(r) => prev + select_block(cascade.last(), resolved(r)),
            None => prev,
        }
    }
}

/// The accumulated text, registered after each selector of `cascade` that has rules.
pub open spec fn select_registrations(t: RuleTable, cascade: Seq<Seq<char>>) -> Seq<Seq<char>>
    decreases cascade.len(),
{
    if cascade.len() == 0 {
        Seq::empty()
    } else {
        let prev = select_registrations(t, cascade.drop_last());
        match t.lookup(cascade.last()) {
            Some(r) => prev.push(select_buffer(t, cascade)),
            None => prev,
        }
    }
}

/// The styling of a selection control: its classes are followed by "select".
pub open spec fn select_styling(t: RuleTable, classes: Seq<Seq<char>>) -> StylingView {
    StylingView { markup: None, registrations: select_registrations(t, classes.push("select"@)) }
}

/// The styling of an element of kind `kind`.
pub open spec fn styling_of(
    t: RuleTable,
    kind: ElementKind,
    classes: Seq<Seq<char>>,
    tag: Seq<char>,
    label: Seq<char>,
) -> StylingView {
    match kind {
        ElementKind::TextLabel => label_styling(t, classes, tag, label),
        ElementKind::SelectionControl => select_styling(t, classes),
        ElementKind::Link => label_styling(t, Seq::empty(), "a"@, label),
        ElementKind::Passive => StylingView { markup: None, registrations: Seq::empty() },
    }
}

fn label_step(
    table: &RuleTable,
    cascade: Ghost<Seq<Seq<char>>>,
    sel: &str,
    tag: &str,
    label: &str,
    buffer: &mut String,
    out: &mut Styling,
)
    requires
        table.wf(),
        old(buffer)@ == label_buffer(*table, cascade@, tag@),
        old(out)@.markup == label_markup(*table, cascade@, tag@, label@),
        old(out)@.registrations == label_registrations(*table, cascade@, tag@),
    ensures
        final(buffer)@ == label_buffer(*table, cascade@.push(sel@), tag@),
        final(out)@.markup == label_markup(*table, cascade@.push(sel@), tag@, label@),
        final(out)@.registrations == label_registrations(*table, cascade@.push(sel@), tag@),
{
    let ghost next = cascade@.push(sel@);
    assert(next.drop_last() =~= cascade@);
    if let Some(rules) = table.get(sel) {
        let p = resolve_for_label(rules, tag);
        out.markup = Some(markup(&p, label));
        append_label_block(buffer, sel, &p);
        let reg = buffer.clone();
        out.registrations.push(reg);
        assert(out@.registrations =~= label_registrations(*table, next, tag@));
    }
}

/// Styles a text label with the given classes, tag and label text.
pub fn style_label(table: &RuleTable, classes: &Vec<String>, tag: &str, label: &str) -> (r: Styling)
    requires
        table.wf(),
    ensures
        r@ == label_styling(*table, texts(classes@), tag@, label@),
{
    let ghost names = texts(classes@);
    let mut buffer = String::new();
    let mut out = Styling { markup: None, registrations: Vec::new() };
    let mut k: usize = 0;
    assert(names.take(0) =~= Seq::<Seq<char>>::empty());
    assert(out@.registrations =~= Seq::<Seq<char>>::empty());
    while k < classes.len()
        invariant
            table.wf(),
            names == texts(classes@),
            k <= classes@.len(),
            buffer@ == label_buffer(*table, names.take(k as int), tag@),
            out@.markup == label_markup(*table, names.take(k as int), tag@, label@),
            out@.registrations == label_registrations(*table, names.take(k as int), tag@),
        decreases classes@.len() - k,
    {
        label_step(table, Ghost(names.take(k as int)), classes[k].as_str(), tag, label, &mut buffer, &mut out);
        assert(names.take(k as int).push(classes@[k as int]@) =~= names.take(k + 1));
        k = k + 1;
    }
    assert(names.take(k as int) =~= names);
    label_step(table, Ghost(names), tag, tag, label, &mut buffer, &mut out);
    out
}

fn select_step(
    table: &RuleTable,
    cascade: Ghost<Seq<Seq<char>>>,
    sel: &str,
    buffer: &mut String,
    out: &mut Styling,
)
    requires
        table.wf(),
        old(out).markup is None,
        old(buffer)@ == select_buffer(*table, cascade@),
        old(out)@.registrations == select_registrations(*table, cascade@),
    ensures
        final(out).markup is None,
        final(buffer)@ == select_buffer(*table, cascade@.push(sel@)),
        final(out)@.registrations == select_registrations(*table, cascade@.push(sel@)),
{
    let ghost next = cascade@.push(sel@);
    assert(next.drop_last() =~= cascade@);
    if let Some(rules) = table.get(sel) {
        let p = resolve(rules);
        append_select_block(buffer, sel, &p);
        let reg = buffer.clone();
        out.registrations.push(reg);
        assert(out@.registrations =~= select_registrations(*table, next));
    }
}

/// Styles a selection control with the given classes.
pub fn style_select(table: &RuleTable, classes: &Vec<String>) -> (r: Styling)
    requires
        table.wf(),
    ensures
        r@ == select_styling(*table, texts(classes@)),
{
    let ghost names = texts(classes@);
    let mut buffer = String::new();
    let mut out = Styling { markup: None, registrations: Vec::new() };
    let mut k: usize = 0;
    assert(names.take(0) =~= Seq::<Seq<char>>::empty());
    assert(out@.registrations =~= Seq::<Seq<char>>::empty());
    while k < classes.len()
        invariant
            table.wf(),
            names == texts(classes@),
            k <= classes@.len(),
            out.markup is None,
            buffer@ == select_buffer(*table, names.take(k as int)),
            out@.registrations == select_registrations(*table, names.take(k as int)),
        decreases classes@.len() - k,
    {
        select_step(table, Ghost(names.take(k as int)), classes[k].as_str(), &mut buffer, &mut out);
        assert(names.take(k as int).push(classes@[k as int]@) =~= names.take(k + 1));
        k = k + 1;
    }
    assert(names.take(k as int) =~= names);
    select_step(table, Ghost(names), "select", &mut buffer, &mut out);
    out
}

/// Styles a link that shows `label`: a text label with no classes and the
/// tag "a" takes its place and is styled.
pub fn style_link(table: &RuleTable, label: &str) -> (r: Styling)
    requires
        table.wf(),
    ensures
        r@ == label_styling(*table, Seq::empty(), "a"@, label@),
{
    let classes: Vec<String> = Vec::new();
    assert(texts(classes@) =~= Seq::<Seq<char>>::empty());
    style_label(table, &classes, "a", label)
}

/// Styles an element of kind `kind` with the given classes, tag and label text.
pub fn style(table: &RuleTable, kind: &ElementKind, classes: &Vec<String>, tag: &str, label: &str) -> (r: Styling)
    requires
        table.wf(),
    ensures
        r@ == styling_of(*table, *kind, texts(classes@), tag@, label@),
{
    match kind {
        ElementKind::TextLabel => style_label(table, classes, tag, label),
        ElementKind::SelectionControl => style_select(table, classes),
        ElementKind::Link => style_link(table, label),
        ElementKind::Passive => {
            let r = Styling { markup: None, registrations: Vec::new() };
            assert(r@.registrations =~= Seq::<Seq<char>>::empty());
            r
        },
    }
}

} // verus!
