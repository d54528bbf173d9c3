use vstd::prelude::*;
use crate::table::{has_key, keys_unique, lemma_with_pair_unique, view_pairs, with_pair, TextPairs};

verus! {

/// A node of a configuration document, as far as the loader reads it.
#[derive(Debug)]
pub enum Node {
    /// A string scalar.
    Text(String),
    /// A table of key-value entries, in document order.
    Table(Vec<(Node, Node)>),
    /// Anything else: numbers, booleans, lists, null.
    Other,
}

/// The entries of a table node.
pub open spec fn table_entries(n: Node) -> Option<Seq<(Node, Node)>> {
    match n {
        Node::Table(entries) => Some(entries@),
        _ => None,
    }
}

/// The value stored in table `entries` under the string key `k`, if any:
/// the first such entry, as a YAML index does on a table of distinct keys.
pub open spec fn entry_at(entries: Seq<(Node, Node)>, k: Seq<char>) -> Option<Node>
    decreases entries.len(),
{
    if entries.len() == 0 {
        None
    } else if entries[0].0 matches Node::Text(s) && s@ == k {
        Some(entries[0].1)
    } else {
        entry_at(entries.drop_first(), k)
    }
}

/// The string-to-string pairs of a table, with map semantics: entries whose
/// key or value is not a string are left out; a repeated key keeps its first
/// place and takes the last value.
pub open spec fn string_pairs(entries: Seq<(Node, Node)>) -> TextPairs
    decreases entries.len(),
{
    if entries.len() == 0 {
        Seq::empty()
    } else {
        let rest = string_pairs(entries.drop_last());
        match entries.last() {
            (Node::Text(k), Node::Text(v)) => with_pair(rest, k@, v@),
            _ => rest,
        }
    }
}

pub proof fn lemma_string_pairs_unique(entries: Seq<(Node, Node)>)
    ensures
        keys_unique(string_pairs(entries)),
    decreases entries.len(),
{
    if entries.len() > 0 {
        lemma_string_pairs_unique(entries.drop_last());
        if let (Node::Text(k), Node::Text(v)) = entries.last() {
            lemma_with_pair_unique(string_pairs(entries.drop_last()), k@, v@);
        }
    }
}

fn insert_pair(out: &mut Vec<(String, String)>, k: &String, v: &String)
    requires
        keys_unique(view_pairs(old(out)@)),
    ensures
        view_pairs(final(out)@) == with_pair(view_pairs(old(out)@), k@, v@),
{
    let ghost m = view_pairs(out@);
    let mut i: usize = 0;
    while i < out.len()
        invariant
            m == view_pairs(out@),
            m == view_pairs(old(out)@),
            m.len() == out@.len(),
            keys_unique(m),
            i <= out@.len(),
            forall|j: int| 0 <= j < i ==> m[j].0 != k@,
        decreases out@.len() - i,
    {
        if crate::style::str_eq(out[i].0.as_str(), k.as_str()) {
            assert(m[i as int].0 == k@);
            assert(crate::table::has_key(m, k@));
            let ghost j = crate::table::key_index(m, k@);
            assert(j == i as int) by {
                if j > i as int {
                    assert(m[i as int].0 != m[j].0);
                }
            }
            out.set(i, (k.clone(), v.clone()));
            assert(view_pairs(out@) =~= m.update(i as int, (k@, v@)));
            return;
        }
        i = i + 1;
    }
    out.push((k.clone(), v.clone()));
    assert(view_pairs(out@) =~= m.push((k@, v@)));
}

/// The string pairs of a table, in order and with distinct keys.
pub fn string_pairs_of(entries: &Vec<(Node, Node)>) -> (r: Vec<(String, String)>)
    ensures
        view_pairs(r@) == string_pairs(entries@),
        keys_unique(view_pairs(r@)),
{
    let mut out: Vec<(String, String)> = Vec::new();
    let mut i: usize = 0;
    assert(view_pairs(out@) =~= string_pairs(entries@.subrange(0, 0)));
    while i < entries.len()
        invariant
            i <= entries@.len(),
            view_pairs(out@) == string_pairs(entries@.subrange(0, i as int)),
            keys_unique(view_pairs(out@)),
        decreases entries@.len() - i,
    {
        assert(entries@.subrange(0, i + 1).drop_last() =~= entries@.subrange(0, i as int));
        match &entries[i] {
            (Node::Text(k), Node::Text(v)) => insert_pair(&mut out, k, v),
            _ => {},
        }
        i = i + 1;
        proof {
            lemma_string_pairs_unique(entries@.subrange(0, i as int));
        }
    }
    assert(entries@.subrange(0, entries@.len() as int) =~= entries@);
    out
}

/// The value under string key `k` in a table's entries.
pub fn entry_of<'a>(entries: &'a Vec<(Node, Node)>, k: &str) -> (r: Option<&'a Node>)
    ensures
        match r {
            Some(n) => entry_at(entries@, k@) == Some(*n),
            None => entry_at(entries@, k@) is None,
        },
{
    let mut i: usize = 0;
    assert(entries@.subrange(0, entries@.len() as int) =~= entries@);
    while i < entries.len()
        invariant
            i <= entries@.len(),
            entry_at(entries@, k@) == entry_at(entries@.subrange(i as int, entries@.len() as int), k@),
        decreases entries@.len() - i,
    {
        let ghost rest = entries@.subrange(i as int, entries@.len() as int);
        assert(rest.drop_first() =~= entries@.subrange(i + 1, entries@.len() as int));
        if let Node::Text(s) = &entries[i].0 {
            if crate::style::str_eq(s.as_str(), k) {
                return Some(&entries[i].1);
            }
        }
        i = i + 1;
    }
    None
}

/// The text of a string node, empty for any other node.
pub open spec fn text_of(n: Node) -> Seq<char> {
    match n {
        Node::Text(s) => s@,
        _ => Seq::empty(),
    }
}

/// Both the key and the value of the entry are strings.
pub open spec fn is_string_entry(e: (Node, Node)) -> bool {
    e.0 is Text && e.1 is Text
}

/// The entries read as text pairs.
pub open spec fn entry_texts(entries: Seq<(Node, Node)>) -> TextPairs {
    entries.map_values(|e: (Node, Node)| (text_of(e.0), text_of(e.1)))
}

/// A table whose entries are all strings, with distinct keys, gives exactly
/// its entries as string pairs, in the same order.
pub proof fn lemma_string_pairs_exact(entries: Seq<(Node, Node)>)
    requires
        forall|i: int| 0 <= i < entries.len() ==> is_string_entry(#[trigger] entries[i]),
        keys_unique(entry_texts(entries)),
    ensures
        string_pairs(entries) == entry_texts(entries),
        string_pairs(entries).len() == entries.len(),
    decreases entries.len(),
{
    if entries.len() > 0 {
        let rest = entries.drop_last();
        assert(entry_texts(rest) =~= entry_texts(entries).drop_last());
        assert forall|i: int| 0 <= i < rest.len() implies is_string_entry(#[trigger] rest[i]) by {
            assert(rest[i] == entries[i]);
        }
        lemma_string_pairs_exact(rest);
        let m = entry_texts(rest);
        let n = entries.len() - 1;
        assert(is_string_entry(entries[n]));
        let k = text_of(entries[n].0);
        if has_key(m, k) {
            let i = choose|i: int| 0 <= i < m.len() && m[i].0 == k;
            assert(entry_texts(entries)[i].0 == entry_texts(entries)[n].0);
        }
        assert(!has_key(m, k));
        assert(entry_texts(entries) =~= m.push((k, text_of(entries[n].1))));
    }
}

/// An entry whose key or value is not a string leaves the string pairs of a
/// table as they would be without it, wherever it stands.
pub proof fn lemma_string_pairs_skip(a: Seq<(Node, Node)>, bad: (Node, Node), b: Seq<(Node, Node)>)
    requires
        !is_string_entry(bad),
    ensures
        string_pairs(a.push(bad) + b) == string_pairs(a + b),
    decreases b.len(),
{
    if b.len() == 0 {
        assert(a.push(bad) + b =~= a.push(bad));
        assert(a + b =~= a);
        assert(a.push(bad).drop_last() =~= a);
    } else {
        let b0 = b.drop_last();
        lemma_string_pairs_skip(a, bad, b0);
        assert((a.push(bad) + b).drop_last() =~= a.push(bad) + b0);
        assert((a + b).drop_last() =~= a + b0);
        assert((a.push(bad) + b).last() == b.last());
        assert((a + b).last() == b.last());
    }
}

/// `a` and `b` hold the same text, in the same tables, in the same order.
pub open spec fn same_node(a: Node, b: Node) -> bool
    decreases a,
{
    match a {
        Node::Text(x) => b matches Node::Text(y) && x@ == y@,
        Node::Other => b is Other,
        Node::Table(xs) => b matches Node::Table(ys) && xs@.len() == ys@.len() && forall|i: int|
            0 <= i < xs@.len() ==> same_node(xs@[i].0, ys@[i].0) && same_node(xs@[i].1, ys@[i].1),
    }
}

/// Entry by entry, the two tables hold the same nodes.
pub open spec fn same_entries(xs: Seq<(Node, Node)>, ys: Seq<(Node, Node)>) -> bool {
    xs.len() == ys.len() && forall|i: int|
        0 <= i < xs.len() ==> same_node(xs[i].0, ys[i].0) && same_node(xs[i].1, ys[i].1)
}

pub proof fn lemma_entry_at_same(xs: Seq<(Node, Node)>, ys: Seq<(Node, Node)>, k: Seq<char>)
    requires
        same_entries(xs, ys),
    ensures
        entry_at(xs, k) is None <==> entry_at(ys, k) is None,
        entry_at(xs, k) is Some ==> same_node(entry_at(xs, k)->0, entry_at(ys, k)->0),
    decreases xs.len(),
{
    if xs.len() > 0 {
        assert(same_node(xs[0].0, ys[0].0));
        assert(same_entries(xs.drop_first(), ys.drop_first())) by {
            assert forall|i: int| 0 <= i < xs.len() - 1 implies same_node(xs.drop_first()[i].0, ys.drop_first()[i].0)
                && same_node(xs.drop_first()[i].1, ys.drop_first()[i].1) by {
                assert(same_node(xs[i + 1].0, ys[i + 1].0) && same_node(xs[i + 1].1, ys[i + 1].1));
            }
        }
        lemma_entry_at_same(xs.drop_first(), ys.drop_first(), k);
    }
}

pub proof fn lemma_string_pairs_same(xs: Seq<(Node, Node)>, ys: Seq<(Node, Node)>)
    requires
        same_entries(xs, ys),
    ensures
        string_pairs(xs) == string_pairs(ys),
    decreases xs.len(),
{
    if xs.len() > 0 {
        let n = xs.len() - 1;
        assert(same_node(xs[n].0, ys[n].0) && same_node(xs[n].1, ys[n].1));
        assert(same_entries(xs.drop_last(), ys.drop_last())) by {
            assert forall|i: int| 0 <= i < n implies same_node(xs.drop_last()[i].0, ys.drop_last()[i].0)
                && same_node(xs.drop_last()[i].1, ys.drop_last()[i].1) by {
                assert(same_node(xs[i].0, ys[i].0) && same_node(xs[i].1, ys[i].1));
            }
        }
        lemma_string_pairs_same(xs.drop_last(), ys.drop_last());
    }
}

/// The entries of a table whose key and value are both strings, in order.
pub open spec fn string_entries(entries: Seq<(Node, Node)>) -> Seq<(Node, Node)> {
    entries.filter(|e: (Node, Node)| is_string_entry(e))
}

/// Where the string entries of a table have distinct keys, its string pairs
/// are exactly those entries, in order: every entry whose key or value is not
/// a string is left out, and nothing else.
pub proof fn lemma_string_pairs_filtered(entries: Seq<(Node, Node)>)
    requires
        keys_unique(entry_texts(string_entries(entries))),
    ensures
        string_pairs(entries) == entry_texts(string_entries(entries)),
    decreases entries.len(),
{
    if entries.len() > 0 {
        let rest = entries.drop_last();
        let f = string_entries(rest);
        let e = entries.last();
        reveal_with_fuel(Seq::<(Node, Node)>::filter, 1);
        assert(entry_texts(f).len() == f.len());
        if is_string_entry(e) {
            assert(string_entries(entries) == f.push(e));
            assert(entry_texts(f.push(e)) =~= entry_texts(f).push((text_of(e.0), text_of(e.1))));
            assert(keys_unique(entry_texts(f))) by {
                assert forall|i: int, j: int| 0 <= i < j < entry_texts(f).len() implies
                    entry_texts(f)[i].0 != entry_texts(f)[j].0 by {
                    assert(entry_texts(f.push(e))[i] == entry_texts(f)[i]);
                    assert(entry_texts(f.push(e))[j] == entry_texts(f)[j]);
                }
            }
            lemma_string_pairs_filtered(rest);
            let m = entry_texts(f);
            let k = text_of(e.0);
            if has_key(m, k) {
                let i = choose|i: int| 0 <= i < m.len() && m[i].0 == k;
                assert(entry_texts(f.push(e))[i].0 == entry_texts(f.push(e))[m.len() as int].0);
            }
        } else {
            assert(string_entries(entries) == f);
            lemma_string_pairs_filtered(rest);
        }
    }
}

} // verus!
