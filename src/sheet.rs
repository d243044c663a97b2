use vstd::prelude::*;
use vstd::string::*;

use crate::rules::{selector_key, RuleTable};

verus! {

/// Why a stylesheet could not be read.
#[derive(Debug, Clone, Copy, PartialEq, Eq, Structural)]
pub enum ParseError {
    /// Text before a '}' holds no '{'.
    MissingOpenBrace,
    /// A block has nothing before its '{'.
    EmptySelector,
    /// A block holds a second '{' before its '}'.
    NestedBlock,
    /// A declaration holds no ':'.
    MissingColon,
    /// A declaration has nothing before its ':'.
    EmptyProperty,
    /// Text after the last '}' that is not blank.
    UnclosedBlock,
}

pub open spec fn is_space(c: char) -> bool {
    c == ' ' || c == '\n' || c == '\t' || c == '\r'
}

pub open spec fn trim_start(s: Seq<char>) -> Seq<char>
    decreases s.len(),
{
    if s.len() > 0 && is_space(s[0]) {
        trim_start(s.subrange(1, s.len() as int))
    } else {
        s
    }
}

pub open spec fn trim_end(s: Seq<char>) -> Seq<char>
    decreases s.len(),
{
    if s.len() > 0 && is_space(s.last()) {
        trim_end(s.drop_last())
    } else {
        s
    }
}

/// `s` without leading and trailing white space.
pub open spec fn trimmed(s: Seq<char>) -> Seq<char> {
    trim_end(trim_start(s))
}

/// The position of the first `c` in `s`.
pub open spec fn find(s: Seq<char>, c: char) -> Option<int>
    decreases s.len(),
{
    if s.len() == 0 {
        None
    } else if s[0] == c {
        Some(0)
    } else {
        match find(s.subrange(1, s.len() as int), c) {
            Some(i) => Some(i + 1),
            None => None,
        }
    }
}

/// The pieces of `s` between occurrences of `sep`.
pub open spec fn split(s: Seq<char>, sep: char) -> Seq<Seq<char>>
    decreases s.len(),
{
    match find(s, sep) {
        Some(i) => if 0 <= i < s.len() {
            seq![s.subrange(0, i)] + split(s.subrange(i + 1, s.len() as int), sep)
        } else {
            seq![s]
        },
        None => seq![s],
    }
}

/// A declaration `name: value`; a blank piece declares nothing.
pub open spec fn parse_decl(piece: Seq<char>) -> Result<Option<(Seq<char>, Seq<char>)>, ParseError> {
    let t = trimmed(piece);
    if t.len() == 0 {
        Ok(None)
    } else {
        match find(t, ':') {
            None => Err(ParseError::MissingColon),
            Some(i) => {
                let name = trimmed(t.subrange(0, i));
                if name.len() == 0 {
                    Err(ParseError::EmptyProperty)
                } else {
                    Ok(Some((name, trimmed(t.subrange(i + 1, t.len() as int)))))
                }
            },
        }
    }
}

/// The declarations of the pieces, in order; the first error wins.
pub open spec fn parse_decls(pieces: Seq<Seq<char>>) -> Result<Seq<(Seq<char>, Seq<char>)>, ParseError>
    decreases pieces.len(),
{
    if pieces.len() == 0 {
        Ok(Seq::empty())
    } else {
        match parse_decls(pieces.drop_last()) {
            Err(e) => Err(e),
            Ok(prev) => match parse_decl(pieces.last()) {
                Err(e) => Err(e),
                Ok(None) => Ok(prev),
                Ok(Some(d)) => Ok(prev.push(d)),
            },
        }
    }
}

/// A block `selector { declarations }`, given without its closing '}'.
pub open spec fn parse_block(piece: Seq<char>) -> Result<(Seq<char>, Seq<(Seq<char>, Seq<char>)>), ParseError> {
    match find(piece, '{') {
        None => Err(ParseError::MissingOpenBrace),
        Some(i) => {
            let sel = trimmed(piece.subrange(0, i));
            let body = piece.subrange(i + 1, piece.len() as int);
            if sel.len() == 0 {
                Err(ParseError::EmptySelector)
            } else if find(body, '{') is Some {
                Err(ParseError::NestedBlock)
            } else {
                match parse_decls(split(body, ';')) {
                    Err(e) => Err(e),
                    Ok(d) => Ok((sel, d)),
                }
            }
        },
    }
}

pub open spec fn parse_blocks(pieces: Seq<Seq<char>>) -> Result<Seq<(Seq<char>, Seq<(Seq<char>, Seq<char>)>)>, ParseError>
    decreases pieces.len(),
{
    if pieces.len() == 0 {
        Ok(Seq::empty())
    } else {
        match parse_blocks(pieces.drop_last()) {
            Err(e) => Err(e),
            Ok(prev) => match parse_block(pieces.last()) {
                Err(e) => Err(e),
                Ok(b) => Ok(prev.push(b)),
            },
        }
    }
}

/// The blocks of a stylesheet, in order of appearance.
pub open spec fn parse_sheet(s: Seq<char>) -> Result<Seq<(Seq<char>, Seq<(Seq<char>, Seq<char>)>)>, ParseError> {
    let pieces = split(s, '}');
    match parse_blocks(pieces.drop_last()) {
        Err(e) => Err(e),
        Ok(blocks) => if trimmed(pieces.last()).len() == 0 {
            Ok(blocks)
        } else {
            Err(ParseError::UnclosedBlock)
        },
    }
}

/// The characters of each rule of a rule set.
pub open spec fn pairs(rules: Seq<(String, String)>) -> Seq<(Seq<char>, Seq<char>)> {
    rules.map_values(|r: (String, String)| (r.0@, r.1@))
}

/// The rules of the last block whose selector is stored under `sel`.
pub open spec fn sheet_lookup(blocks: Seq<(Seq<char>, Seq<(Seq<char>, Seq<char>)>)>, sel: Seq<char>) -> Option<Seq<(Seq<char>, Seq<char>)>>
    decreases blocks.len(),
{
    if blocks.len() == 0 {
        None
    } else if selector_key(blocks.last().0) == sel {
        Some(blocks.last().1)
    } else {
        sheet_lookup(blocks.drop_last(), sel)
    }
}

fn is_space_char(c: char) -> (r: bool)
    ensures
        r == is_space(c),
{
    c == ' ' || c == '\n' || c == '\t' || c == '\r'
}

/// `s` without leading and trailing white space.
pub fn trim(s: &str) -> (r: &str)
    ensures
        r@ == trimmed(s@),
{
    let n = s.unicode_len();
    let mut a: usize = 0;
    assert(s@.subrange(0, n as int) =~= s@);
    while a < n && is_space_char(s.get_char(a))
        invariant
            a <= n,
            n == s@.len(),
            trim_start(s@) == trim_start(s@.subrange(a as int, n as int)),
        decreases n - a,
    {
        assert(s@.subrange(a as int, n as int).subrange(1, n - a) =~= s@.subrange(a + 1, n as int));
        a = a + 1;
    }
    let head = s.substring_char(a, n);
    let m = n - a;
    let mut b: usize = m;
    assert(head@.subrange(0, m as int) =~= head@);
    while b > 0 && is_space_char(head.get_char(b - 1))
        invariant
            b <= m,
            m == head@.len(),
            head@ == trim_start(s@),
            trim_end(head@) == trim_end(head@.subrange(0, b as int)),
        decreases b,
    {
        assert(head@.subrange(0, b as int).drop_last() =~= head@.subrange(0, b - 1));
        b = b - 1;
    }
    head.substring_char(0, b)
}

/// The position of the first `c` in `s`.
pub fn find_char(s: &str, c: char) -> (r: Option<usize>)
    ensures
        r is None <==> find(s@, c) is None,
        r matches Some(i) ==> find(s@, c) == Some(i as int) && i < s@.len(),
{
    let n = s.unicode_len();
    let mut i: usize = 0;
    assert(s@.subrange(0, n as int) =~= s@);
    while i < n
        invariant
            i <= n,
            n == s@.len(),
            find(s@, c) == match find(s@.subrange(i as int, n as int), c) {
                Some(k) => Some(k + i),
                None => None,
            },
        decreases n - i,
    {
        let ghost rest = s@.subrange(i as int, n as int);
        if s.get_char(i) == c {
            return Some(i);
        }
        assert(rest.subrange(1, rest.len() as int) =~= s@.subrange(i + 1, n as int));
        i = i + 1;
    }
    None
}

/// The pieces of `s` between occurrences of `sep`.
pub fn split_at_char(s: &str, sep: char) -> (r: Vec<&str>)
    ensures
        r@.map_values(|p: &str| p@) == split(s@, sep),
{
    let n = s.unicode_len();
    let mut out: Vec<&str> = Vec::new();
    let mut start: usize = 0;
    assert(s@.subrange(0, n as int) =~= s@);
    loop
        invariant
            start <= n,
            n == s@.len(),
            split(s@, sep) == out@.map_values(|p: &str| p@) + split(s@.subrange(start as int, n as int), sep),
        decreases n - start,
    {
        let rest = s.substring_char(start, n);
        let ghost prev = out@.map_values(|p: &str| p@);
        match find_char(rest, sep) {
            Some(i) => {
                let piece = rest.substring_char(0, i);
                out.push(piece);
                assert(rest@.subrange(i + 1, rest@.len() as int) =~= s@.subrange(start + i + 1, n as int));
                assert(out@.map_values(|p: &str| p@) =~= prev.push(piece@));
                assert(split(rest@, sep) == seq![piece@] + split(s@.subrange(start + i + 1, n as int), sep));
                assert(prev + (seq![piece@] + split(s@.subrange(start + i + 1, n as int), sep))
                    =~= prev.push(piece@) + split(s@.subrange(start + i + 1, n as int), sep));
                start = start + i + 1;
            },
            None => {
                out.push(rest);
                assert(out@.map_values(|p: &str| p@) =~= prev + seq![rest@]);
                return out;
            },
        }
    }
}

proof fn lemma_decls_error_stays(pieces: Seq<Seq<char>>, k: int)
    requires
        0 <= k <= pieces.len(),
        parse_decls(pieces.take(k)) is Err,
    ensures
        parse_decls(pieces) == parse_decls(pieces.take(k)),
    decreases pieces.len(),
{
    if k < pieces.len() {
        assert(pieces.drop_last().take(k) =~= pieces.take(k));
        lemma_decls_error_stays(pieces.drop_last(), k);
    } else {
        assert(pieces.take(k) =~= pieces);
    }
}

proof fn lemma_blocks_error_stays(pieces: Seq<Seq<char>>, k: int)
    requires
        0 <= k <= pieces.len(),
        parse_blocks(pieces.take(k)) is Err,
    ensures
        parse_blocks(pieces) == parse_blocks(pieces.take(k)),
    decreases pieces.len(),
{
    if k < pieces.len() {
        assert(pieces.drop_last().take(k) =~= pieces.take(k));
        lemma_blocks_error_stays(pieces.drop_last(), k);
    } else {
        assert(pieces.take(k) =~= pieces);
    }
}

/// Reads one declaration `name: value`; a blank piece declares nothing.
pub fn parse_declaration(piece: &str) -> (r: Result<Option<(String, String)>, ParseError>)
    ensures
        r matches Err(e) ==> parse_decl(piece@) == Err::<Option<(Seq<char>, Seq<char>)>, ParseError>(e),
        r matches Ok(None) ==> parse_decl(piece@) == Ok::<Option<(Seq<char>, Seq<char>)>, ParseError>(None),
        r matches Ok(Some(d)) ==> parse_decl(piece@) == Ok::<Option<(Seq<char>, Seq<char>)>, ParseError>(Some((d.0@, d.1@))),
{
    let t = trim(piece);
    let n = t.unicode_len();
    if n == 0 {
        return Ok(None);
    }
    match find_char(t, ':') {
        None => Err(ParseError::MissingColon),
        Some(i) => {
            let name = trim(t.substring_char(0, i));
            if name.unicode_len() == 0 {
                Err(ParseError::EmptyProperty)
            } else {
                let value = trim(t.substring_char(i + 1, n));
                Ok(Some((String::from_str(name), String::from_str(value))))
            }
        },
    }
}

/// Reads the declarations of a block's body, separated by ';'.
pub fn parse_rules(body: &str) -> (r: Result<Vec<(String, String)>, ParseError>)
    ensures
        r matches Err(e) ==> parse_decls(split(body@, ';')) == Err::<Seq<(Seq<char>, Seq<char>)>, ParseError>(e),
        r matches Ok(v) ==> parse_decls(split(body@, ';')) == Ok::<Seq<(Seq<char>, Seq<char>)>, ParseError>(pairs(v@)),
{
    let pieces = split_at_char(body, ';');
    let ghost views = pieces@.map_values(|p: &str| p@);
    let mut out: Vec<(String, String)> = Vec::new();
    let mut k: usize = 0;
    assert(views.take(0) =~= Seq::<Seq<char>>::empty());
    assert(pairs(out@) =~= Seq::<(Seq<char>, Seq<char>)>::empty());
    while k < pieces.len()
        invariant
            k <= pieces@.len(),
            views == pieces@.map_values(|p: &str| p@),
            views == split(body@, ';'),
            parse_decls(views.take(k as int)) == Ok::<Seq<(Seq<char>, Seq<char>)>, ParseError>(pairs(out@)),
        decreases pieces@.len() - k,
    {
        let ghost next = views.take(k + 1);
        assert(next.drop_last() =~= views.take(k as int));
        assert(next.last() == pieces@[k as int]@);
        match parse_declaration(pieces[k]) {
            Err(e) => {
                proof {
                    lemma_decls_error_stays(views, k + 1);
                }
                return Err(e);
            },
            Ok(None) => {},
            Ok(Some(d)) => {
                let ghost before = out@;
                out.push(d);
                assert(pairs(out@) =~= pairs(before).push((d.0@, d.1@)));
            },
        }
        k = k + 1;
    }
    assert(views.take(k as int) =~= views);
    Ok(out)
}

/// Reads one block `selector { declarations }`, given without its closing '}'.
pub fn parse_selector_block(piece: &str) -> (r: Result<(String, Vec<(String, String)>), ParseError>)
    ensures
        r matches Err(e) ==> parse_block(piece@) == Err::<(Seq<char>, Seq<(Seq<char>, Seq<char>)>), ParseError>(e),
        r matches Ok(b) ==> parse_block(piece@) == Ok::<(Seq<char>, Seq<(Seq<char>, Seq<char>)>), ParseError>((b.0@, pairs(b.1@))),
{
    let n = piece.unicode_len();
    match find_char(piece, '{') {
        None => Err(ParseError::MissingOpenBrace),
        Some(i) => {
            let sel = trim(piece.substring_char(0, i));
            let body = piece.substring_char(i + 1, n);
            if sel.unicode_len() == 0 {
                Err(ParseError::EmptySelector)
            } else if find_char(body, '{').is_some() {
                Err(ParseError::NestedBlock)
            } else {
                match parse_rules(body) {
                    Err(e) => Err(e),
                    Ok(rules) => Ok((String::from_str(sel), rules)),
                }
            }
        },
    }
}

/// What a table holds under `sel`, as characters.
pub open spec fn table_rules(t: RuleTable, sel: Seq<char>) -> Option<Seq<(Seq<char>, Seq<char>)>> {
    match t.lookup(sel) {
        Some(r) => Some(pairs(r)),
        None => None,
    }
}

/// Reads a stylesheet into a rule table. Each selector maps to the rules of
/// its last block; a leading '.' of a selector is dropped.
pub fn load(text: &str) -> (r: Result<RuleTable, ParseError>)
    ensures
        r is Ok <==> parse_sheet(text@) is Ok,
        r matches Err(e) ==> parse_sheet(text@) == Err::<Seq<(Seq<char>, Seq<(Seq<char>, Seq<char>)>)>, ParseError>(e),
        r matches Ok(t) ==> t.wf() && forall|sel: Seq<char>|
            #[trigger] table_rules(t, sel) == sheet_lookup(parse_sheet(text@)->Ok_0, sel),
{
    let pieces = split_at_char(text, '}');
    let ghost views = pieces@.map_values(|p: &str| p@);
    assert(views.len() > 0);
    let last = pieces.len() - 1;
    let ghost blocks_in = views.drop_last();
    let ghost mut blocks: Seq<(Seq<char>, Seq<(Seq<char>, Seq<char>)>)> = Seq::empty();
    let mut table = RuleTable::new();
    let mut k: usize = 0;
    assert(blocks_in.take(0) =~= Seq::<Seq<char>>::empty());
    while k < last
        invariant
            last == pieces@.len() - 1,
            k <= last,
            views == pieces@.map_values(|p: &str| p@),
            views == split(text@, '}'),
            blocks_in == views.drop_last(),
            table.wf(),
            parse_blocks(blocks_in.take(k as int)) == Ok::<Seq<(Seq<char>, Seq<(Seq<char>, Seq<char>)>)>, ParseError>(blocks),
            forall|sel: Seq<char>| #[trigger] table_rules(table, sel) == sheet_lookup(blocks, sel),
        decreases last - k,
    {
        let ghost next = blocks_in.take(k + 1);
        assert(next.drop_last() =~= blocks_in.take(k as int));
        assert(next.last() == pieces@[k as int]@);
        match parse_selector_block(pieces[k]) {
            Err(e) => {
                proof {
                    lemma_blocks_error_stays(blocks_in, k + 1);
                }
                return Err(e);
            },
            Ok(b) => {
                let ghost before = table;
                let ghost block = (b.0@, pairs(b.1@));
                let (sel, rules) = b;
                table.insert(sel.as_str(), rules);
                proof {
                    let earlier = blocks;
                    blocks = blocks.push(block);
                    assert(blocks.drop_last() =~= earlier);
                    assert forall|s: Seq<char>| #[trigger] table_rules(table, s) == sheet_lookup(blocks, s) by {
                        if s != selector_key(block.0) {
                            assert(table_rules(before, s) == sheet_lookup(earlier, s));
                        }
                    }
                }
            },
        }
        k = k + 1;
    }
    assert(blocks_in.take(k as int) =~= blocks_in);
    if trim(pieces[last]).unicode_len() == 0 {
        Ok(table)
    } else {
        Err(ParseError::UnclosedBlock)
    }
}

} // verus!
