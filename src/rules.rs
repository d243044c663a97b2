use vstd::prelude::*;
use vstd::string::*;

use crate::text::same_text;

verus! {

/// The value of the last rule named `name` in `rules`, if any.
pub open spec fn last_value(rules: Seq<(String, String)>, name: Seq<char>) -> Option<Seq<char>>
    decreases rules.len(),
{
    if rules.len() == 0 {
        None
    } else if rules.last().0@ == name {
        Some(rules.last().1@)
    } else {
        last_value(rules.drop_last(), name)
    }
}

/// The value of the last rule named `name`, or `default` where there is none.
pub open spec fn value_or(rules: Seq<(String, String)>, name: Seq<char>, default: Seq<char>) -> Seq<char> {
    match last_value(rules, name) {
        Some(v) => v,
        None => default,
    }
}

/// The key under which a selector is stored: a leading '.' marks a class
/// selector and is dropped, so that classes and tags are looked up by name.
pub open spec fn selector_key(s: Seq<char>) -> Seq<char> {
    if s.len() > 0 && s[0] == '.' {
        s.subrange(1, s.len() as int)
    } else {
        s
    }
}

/// Looks up the value of the last rule named `property`, falling back to
/// `default_value`.
pub fn get_rule(rules: &Vec<(String, String)>, property: &str, default_value: &str) -> (r: String)
    ensures
        r@ == value_or(rules@, property@, default_value@),
{
    let mut i: usize = rules.len();
    assert(rules@.subrange(0, i as int) =~= rules@);
    while i > 0
        invariant
            i <= rules@.len(),
            last_value(rules@, property@) == last_value(rules@.subrange(0, i as int), property@),
        decreases i,
    {
        let ghost prefix = rules@.subrange(0, i as int);
        assert(prefix.drop_last() =~= rules@.subrange(0, i - 1));
        if same_text(rules[i - 1].0.as_str(), property) {
            return rules[i - 1].1.clone();
        }
        i = i - 1;
    }
    assert(rules@.subrange(0, 0) =~= Seq::<(String, String)>::empty());
    String::from_str(default_value)
}

/// Selectors and their rule sets. Each selector appears at most once.
pub struct RuleTable {
    entries: Vec<(String, Vec<(String, String)>)>,
}

impl RuleTable {
    pub closed spec fn entries(&self) -> Seq<(String, Vec<(String, String)>)> {
        self.entries@
    }

    /// No selector is stored twice.
    pub open spec fn wf(&self) -> bool {
        forall|i: int, j: int|
            #![trigger self.entries()[i], self.entries()[j]]
            0 <= i < self.entries().len() && 0 <= j < self.entries().len() && i != j
                ==> self.entries()[i].0@ != self.entries()[j].0@
    }

    /// The rule set stored under `sel`, if any.
    pub open spec fn lookup(&self, sel: Seq<char>) -> Option<Seq<(String, String)>> {
        if exists|i: int| 0 <= i < self.entries().len() && #[trigger] self.entries()[i].0@ == sel {
            let i = choose|i: int| 0 <= i < self.entries().len() && #[trigger] self.entries()[i].0@ == sel;
            Some(self.entries()[i].1@)
        } else {
            None
        }
    }

    /// A table with no selectors.
    pub fn new() -> (t: RuleTable)
        ensures
            t.wf(),
            forall|sel: Seq<char>| t.lookup(sel) is None,
    {
        RuleTable { entries: Vec::new() }
    }

    fn find(&self, sel: &str) -> (r: Option<usize>)
        requires
            self.wf(),
        ensures
            r is None <==> self.lookup(sel@) is None,
            r matches Some(i) ==> i < self.entries().len(),
            r matches Some(i) ==> self.entries()[i as int].0@ == sel@,
            r matches Some(i) ==> self.lookup(sel@) == Some(self.entries()[i as int].1@),
    {
        let mut i: usize = 0;
        while i < self.entries.len()
            invariant
                self.wf(),
                i <= self.entries@.len(),
                forall|j: int| 0 <= j < i ==> self.entries@[j].0@ != sel@,
            decreases self.entries@.len() - i,
        {
            if same_text(self.entries[i].0.as_str(), sel) {
                assert(self.entries()[i as int].0@ == sel@);
                let ghost j = choose|j: int| 0 <= j < self.entries().len() && #[trigger] self.entries()[j].0@ == sel@;
                assert(self.entries()[j].0@ == self.entries()[i as int].0@);
                return Some(i);
            }
            i = i + 1;
        }
        None
    }

    /// The rule set stored under the selector `sel`.
    pub fn get(&self, sel: &str) -> (r: Option<&Vec<(String, String)>>)
        requires
            self.wf(),
        ensures
            r is None <==> self.lookup(sel@) is None,
            r matches Some(v) ==> self.lookup(sel@) == Some(v@),
    {
        match self.find(sel) {
            Some(i) => Some(&self.entries[i].1),
            None => None,
        }
    }

    /// Stores `rules` under `selector` (without a leading '.'), replacing
    /// any rule set stored there before.
    pub fn insert(&mut self, selector: &str, rules: Vec<(String, String)>)
        requires
            old(self).wf(),
        ensures
            final(self).wf(),
            final(self).lookup(selector_key(selector@)) == Some(rules@),
            forall|sel: Seq<char>| sel != selector_key(selector@)
                ==> #[trigger] final(self).lookup(sel) == old(self).lookup(sel),
    {
        let key: String = if selector.unicode_len() > 0 && selector.get_char(0) == '.' {
            String::from_str(selector.substring_char(1, selector.unicode_len()))
        } else {
            String::from_str(selector)
        };
        assert(key@ == selector_key(selector@));
        let ghost pre = self.entries@;
        match self.find(key.as_str()) {
            Some(i) => {
                let k2 = key.clone();
                self.entries.set(i, (k2, rules));
                assert(self.entries()[i as int].0@ == key@);
            }
            None => {
                self.entries.push((key, rules));
                assert(self.entries()[pre.len() as int].0@ == selector_key(selector@));
            }
        }
        assert forall|sel: Seq<char>| sel != selector_key(selector@)
            implies #[trigger] self.lookup(sel) == old(self).lookup(sel) by {
            if exists|j: int| 0 <= j < pre.len() && #[trigger] pre[j].0@ == sel {
                let j = choose|j: int| 0 <= j < pre.len() && #[trigger] pre[j].0@ == sel;
                assert(self.entries()[j].0@ == sel);
            }
            if exists|j: int| 0 <= j < self.entries().len() && #[trigger] self.entries()[j].0@ == sel {
                let j = choose|j: int| 0 <= j < self.entries().len() && #[trigger] self.entries()[j].0@ == sel;
                assert(pre[j].0@ == sel);
            }
        }
    }
}

} // verus!
