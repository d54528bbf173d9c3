use vstd::prelude::*;
use vstd::string::StringSliceAdditionalSpecFns;
use crate::document::{same_node, table_entries, Node};
use crate::error::ConfigError;

verus! {

#[verifier::external_type_specification]
#[verifier::external_body]
pub struct ExYaml(yaml_rust::Yaml);

/// What a YAML node holds, as a `Node`: a string node its text, a hash node
/// its entries in the order of its linked map, any other node `Other`.
pub uninterp spec fn yaml_node(y: yaml_rust::Yaml) -> Node;

/// The documents that `YamlLoader::load_from_str` reads from a text, as
/// nodes, or `None` where its scanner refuses the text.
pub uninterp spec fn yaml_documents(text: Seq<char>) -> Option<Seq<Node>>;

/// The first document of a text, `Other` when the text holds none, or `None`
/// where the scanner refuses the text.
pub open spec fn yaml_document(text: Seq<char>) -> Option<Node> {
    match yaml_documents(text) {
        None => None,
        Some(docs) => Some(if docs.len() == 0 { Node::Other } else { docs[0] }),
    }
}

/// The length in bytes of the last line of `b`.
pub open spec fn line_run(b: Seq<u8>) -> nat
    decreases b.len(),
{
    if b.len() == 0 {
        0
    } else if b.last() == 10u8 {
        0
    } else {
        line_run(b.drop_last()) + 1
    }
}

/// The length in bytes of the longest line of `b`.
pub open spec fn longest_line(b: Seq<u8>) -> nat
    decreases b.len(),
{
    if b.len() == 0 {
        0
    } else {
        let l = longest_line(b.drop_last());
        if line_run(b) > l {
            line_run(b)
        } else {
            l
        }
    }
}

/// How many opening brackets (`[` or `{`) `b` holds.
pub open spec fn bracket_count(b: Seq<u8>) -> nat
    decreases b.len(),
{
    if b.len() == 0 {
        0
    } else {
        bracket_count(b.drop_last()) + if b.last() == 91u8 || b.last() == 123u8 {
            1nat
        } else {
            0nat
        }
    }
}

/// A bound on how deep the collections of a YAML text can nest: a block
/// collection inside another starts at a larger column, and a flow collection
/// opens with a bracket, inside which a single pair may open one more level.
pub open spec fn nesting_bound(b: Seq<u8>) -> nat {
    longest_line(b) + 2 * bracket_count(b)
}

/// The largest `nesting_bound` that the loader accepts.
pub const MAX_NESTING: usize = 512;

/// Relies on `yaml_rust::YamlLoader::load_from_str`: the documents of a YAML
/// text, or the scanner's error. Its parser recurses once per nesting level,
/// so the text's nesting is bounded beforehand.
#[verifier::external_body]
fn parse_yaml(text: &str) -> (r: Result<Vec<yaml_rust::Yaml>, yaml_rust::ScanError>)
    requires
        nesting_bound(text.spec_bytes()) <= MAX_NESTING,
    ensures
        match r {
            Ok(docs) => yaml_documents(text@) == Some(docs@.map_values(|y: yaml_rust::Yaml| yaml_node(y))),
            Err(_) => yaml_documents(text@) is None,
        },
{
    yaml_rust::YamlLoader::load_from_str(text)
}

/// One level of a YAML node: its text, its entries, or neither.
enum Shape {
    Text(String),
    Table(Vec<(yaml_rust::Yaml, yaml_rust::Yaml)>),
    Other,
}

/// Relies on the variants of `yaml_rust::Yaml`: a string node gives its text,
/// a hash node its entries in the order of its linked map.
#[verifier::external_body]
fn shape_of(y: &yaml_rust::Yaml) -> (r: Shape)
    ensures
        match r {
            Shape::Text(s) => yaml_node(*y) matches Node::Text(t) && t@ == s@,
            Shape::Table(entries) => table_entries(yaml_node(*y)) == Some(
                entries@.map_values(|e: (yaml_rust::Yaml, yaml_rust::Yaml)| (yaml_node(e.0), yaml_node(e.1))),
            ),
            Shape::Other => yaml_node(*y) is Other,
        },
{
    match y {
        yaml_rust::Yaml::String(s) => Shape::Text(s.clone()),
        yaml_rust::Yaml::Hash(h) => Shape::Table(h.clone().into_iter().collect()),
        _ => Shape::Other,
    }
}

/// A YAML node as a `Node`.
fn node_of(y: &yaml_rust::Yaml) -> (r: Node)
    ensures
        same_node(r, yaml_node(*y)),
    decreases yaml_node(*y),
{
    match shape_of(y) {
        Shape::Text(s) => Node::Text(s),
        Shape::Table(entries) => {
            let ghost whole = yaml_node(*y);
            let ghost v = table_entries(whole)->0;
            let mut out: Vec<(Node, Node)> = Vec::new();
            let mut i: usize = 0;
            while i < entries.len()
                invariant
                    i <= entries@.len(),
                    whole == yaml_node(*y),
                    table_entries(whole) == Some(v),
                    v == entries@.map_values(|e: (yaml_rust::Yaml, yaml_rust::Yaml)| (yaml_node(e.0), yaml_node(e.1))),
                    out@.len() == i,
                    forall|j: int|
                        0 <= j < i ==> same_node(#[trigger] out@[j].0, v[j].0) && same_node(out@[j].1, v[j].1),
                decreases entries@.len() - i,
            {
                proof {
                    broadcast use vstd::std_specs::vec::axiom_vec_index_decreases;
                    let ghost ws = whole->Table_0;
                    assert(ws@ == v);
                    assert(decreases_to!(whole => ws));
                    assert(decreases_to!(ws => ws[i as int]));
                    let ghost e = ws[i as int];
                    assert(e == (yaml_node(entries@[i as int].0), yaml_node(entries@[i as int].1)));
                    assert(decreases_to!(e => e.0));
                    assert(decreases_to!(e => e.1));
                    assert(decreases_to!(whole => e));
                    assert(decreases_to!(whole => yaml_node(entries@[i as int].0)));
                    assert(decreases_to!(whole => yaml_node(entries@[i as int].1)));
                }
                let k = node_of(&entries[i].0);
                let val = node_of(&entries[i].1);
                out.push((k, val));
                i = i + 1;
            }
            Node::Table(out)
        },
        Shape::Other => Node::Other,
    }
}

/// Whether the text's nesting is within what the loader accepts.
pub fn nesting_fits(text: &str) -> (r: bool)
    ensures
        r == (nesting_bound(text.spec_bytes()) <= MAX_NESTING),
{
    let b = text.as_bytes();
    let ghost s = b@;
    let mut run: usize = 0;
    let mut longest: usize = 0;
    let mut brackets: usize = 0;
    let mut i: usize = 0;
    assert(s.subrange(0, 0) =~= Seq::<u8>::empty());
    while i < b.len()
        invariant
            s == b@,
            s == text.spec_bytes(),
            i <= s.len(),
            run as nat == line_run(s.subrange(0, i as int)),
            longest as nat == longest_line(s.subrange(0, i as int)),
            brackets as nat == bracket_count(s.subrange(0, i as int)),
            run <= longest,
            longest + 2 * brackets <= MAX_NESTING,
        decreases s.len() - i,
    {
        let ghost pre = s.subrange(0, i + 1);
        assert(pre.drop_last() =~= s.subrange(0, i as int));
        if b[i] == 10u8 {
            run = 0;
        } else {
            run = run + 1;
        }
        if run > longest {
            longest = run;
        }
        if b[i] == 91u8 || b[i] == 123u8 {
            brackets = brackets + 1;
        }
        assert(run as nat == line_run(pre));
        assert(longest as nat == longest_line(pre));
        assert(brackets as nat == bracket_count(pre));
        if longest + 2 * brackets > MAX_NESTING {
            proof {
                lemma_nesting_grows(s, i as int + 1);
                assert(s == text.spec_bytes());
                assert(nesting_bound(s) >= longest + 2 * brackets);
            }
            return false;
        }
        i = i + 1;
    }
    assert(s.subrange(0, s.len() as int) =~= s);
    true
}

/// The bound of a text is at least that of each of its prefixes.
proof fn lemma_nesting_grows(s: Seq<u8>, n: int)
    requires
        0 <= n <= s.len(),
    ensures
        longest_line(s.subrange(0, n)) <= longest_line(s),
        bracket_count(s.subrange(0, n)) <= bracket_count(s),
    decreases s.len() - n,
{
    if n < s.len() {
        lemma_nesting_grows(s, n + 1);
        assert(s.subrange(0, n + 1).drop_last() =~= s.subrange(0, n));
    } else {
        assert(s.subrange(0, n) =~= s);
    }
}

/// The first document of a YAML text as a `Node` (`Other` when the text holds
/// no document). Fails with `TooDeep` when the text's nesting bound is over
/// the limit, else with `YamlScan` where the scanner refuses the text.
pub fn parse_document(text: &str) -> (r: Result<Node, ConfigError>)
    ensures
        nesting_bound(text.spec_bytes()) > MAX_NESTING ==> r matches Err(ConfigError::TooDeep),
        nesting_bound(text.spec_bytes()) <= MAX_NESTING ==> match yaml_document(text@) {
            None => r matches Err(ConfigError::YamlScan(_)),
            Some(doc) => r matches Ok(n) && same_node(n, doc),
        },
{
    if !nesting_fits(text) {
        return Err(ConfigError::TooDeep);
    }
    match parse_yaml(text) {
        Err(e) => Err(ConfigError::YamlScan(e)),
        Ok(docs) => {
            if docs.len() == 0 {
                Ok(Node::Other)
            } else {
                Ok(node_of(&docs[0]))
            }
        },
    }
}

} // verus!
