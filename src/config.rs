use vstd::prelude::*;
use vstd::string::StringSliceAdditionalSpecFns;
use crate::document::{
    entry_at, entry_of, entry_texts, is_string_entry, lemma_string_pairs_exact,
    lemma_string_pairs_skip, string_pairs, same_entries, same_node,
    lemma_entry_at_same, lemma_string_pairs_same, lemma_string_pairs_filtered, string_entries, string_pairs_of, table_entries, Node,
};
use crate::error::ConfigError;
use crate::style::{resolve_style, resolves_style, style_size, Style};
use crate::table::{keys_unique, view_pairs, TextPairs};
use crate::yaml::{nesting_bound, parse_document, yaml_document, MAX_NESTING};

verus! {

/// A validated configuration: the snippets in document order, and their style.
#[derive(Debug)]
pub struct Config {
    pub mappings: Vec<(String, String)>,
    pub style: Style,
}

impl Config {
    /// The snippets as text pairs.
    pub open spec fn pairs(&self) -> TextPairs {
        view_pairs(self.mappings@)
    }

    /// No two snippets share a key.
    pub open spec fn wf(&self) -> bool {
        keys_unique(self.pairs())
    }
}

/// The entries of the table stored under `k` in the top-level table `doc`.
pub open spec fn block_of(doc: Node, k: Seq<char>) -> Option<Seq<(Node, Node)>> {
    match table_entries(doc) {
        Some(top) => match entry_at(top, k) {
            Some(n) => table_entries(n),
            None => None,
        },
        None => None,
    }
}

/// Whether `r` is what loading the document `doc` gives: a missing or
/// non-table `mappings` block fails first, then a missing or non-table
/// `style` block, then an unknown size name.
pub open spec fn loads(doc: Node, r: Result<Config, ConfigError>) -> bool {
    match block_of(doc, "mappings"@) {
        None => r matches Err(ConfigError::MissingMappings),
        Some(m) => match block_of(doc, "style"@) {
            None => r matches Err(ConfigError::MissingStyle),
            Some(s) => match r {
                Ok(c) => c.pairs() == string_pairs(m) && resolves_style(string_pairs(s), Ok(c.style)),
                Err(e) => resolves_style(string_pairs(s), Err(e)),
            },
        },
    }
}

fn block<'a>(doc: &'a Node, k: &str) -> (r: Option<&'a Vec<(Node, Node)>>)
    ensures
        match r {
            Some(entries) => block_of(*doc, k@) == Some(entries@),
            None => block_of(*doc, k@) is None,
        },
{
    match doc {
        Node::Table(top) => match entry_of(top, k) {
            Some(Node::Table(entries)) => Some(entries),
            _ => None,
        },
        _ => None,
    }
}

/// Builds a configuration from a parsed document.
pub fn load_document(doc: &Node) -> (r: Result<Config, ConfigError>)
    ensures
        loads(*doc, r),
        r matches Ok(c) ==> c.wf(),
{
    let mappings = match block(doc, "mappings") {
        Some(entries) => string_pairs_of(entries),
        None => return Err(ConfigError::MissingMappings),
    };
    let style = match block(doc, "style") {
        Some(entries) => resolve_style(&string_pairs_of(entries))?,
        None => return Err(ConfigError::MissingStyle),
    };
    Ok(Config { mappings, style })
}

/// Builds a configuration from the text of a YAML document. Fails with
/// `TooDeep` when the text nests beyond the loader's bound, with `YamlScan`
/// where the text is not YAML, and otherwise as its first document does.
pub fn load_config(source: &str) -> (r: Result<Config, ConfigError>)
    ensures
        nesting_bound(source.spec_bytes()) > MAX_NESTING ==> r matches Err(ConfigError::TooDeep),
        nesting_bound(source.spec_bytes()) <= MAX_NESTING ==> match yaml_document(source@) {
            None => r matches Err(ConfigError::YamlScan(_)),
            Some(doc) => loads(doc, r),
        },
        r matches Ok(c) ==> c.wf(),
{
    match parse_document(source) {
        Err(e) => Err(e),
        Ok(doc) => {
            let r = load_document(&doc);
            proof {
                if nesting_bound(source.spec_bytes()) <= MAX_NESTING {
                    lemma_loads_same(doc, yaml_document(source@)->0, r);
                }
            }
            r
        },
    }
}

proof fn lemma_block_same(a: Node, b: Node, k: Seq<char>)
    requires
        same_node(a, b),
    ensures
        block_of(a, k) is None <==> block_of(b, k) is None,
        block_of(a, k) is Some ==> same_entries(block_of(a, k)->0, block_of(b, k)->0),
{
    if let Node::Table(xs) = a {
        let ys = b->Table_0;
        assert(same_entries(xs@, ys@));
        lemma_entry_at_same(xs@, ys@, k);
        if let Some(n) = entry_at(xs@, k) {
            let m = entry_at(ys@, k)->0;
            if let Node::Table(ns) = n {
                let ms = m->Table_0;
                assert(same_entries(ns@, ms@));
            }
        }
    }
}

/// Documents that hold the same text in the same tables load alike.
pub proof fn lemma_loads_same(a: Node, b: Node, r: Result<Config, ConfigError>)
    requires
        same_node(a, b),
        loads(a, r),
    ensures
        loads(b, r),
{
    lemma_block_same(a, b, "mappings"@);
    lemma_block_same(a, b, "style"@);
    if let Some(m) = block_of(a, "mappings"@) {
        lemma_string_pairs_same(m, block_of(b, "mappings"@)->0);
    }
    if let Some(s) = block_of(a, "style"@) {
        lemma_string_pairs_same(s, block_of(b, "style"@)->0);
    }
}

/// A document whose `mappings` block holds only string entries with distinct
/// keys, and whose `style` block is well formed, loads, and its snippets are
/// exactly those entries in the same order.
pub proof fn lemma_load_round_trip(doc: Node, r: Result<Config, ConfigError>)
    requires
        loads(doc, r),
        block_of(doc, "mappings"@) is Some,
        forall|i: int|
            0 <= i < block_of(doc, "mappings"@)->0.len() ==> is_string_entry(
                #[trigger] block_of(doc, "mappings"@)->0[i],
            ),
        keys_unique(entry_texts(block_of(doc, "mappings"@)->0)),
        block_of(doc, "style"@) is Some,
        style_size(string_pairs(block_of(doc, "style"@)->0)) is Ok,
    ensures
        r is Ok,
        r->Ok_0.pairs() == entry_texts(block_of(doc, "mappings"@)->0),
        r->Ok_0.mappings@.len() == block_of(doc, "mappings"@)->0.len(),
{
    let m = block_of(doc, "mappings"@)->0;
    lemma_string_pairs_exact(m);
    assert(r->Ok_0.pairs().len() == r->Ok_0.mappings@.len());
}

/// One entry of the `mappings` block whose key or value is not a string is
/// left out, and changes nothing else: the snippets are those of the block
/// without it.
pub proof fn lemma_load_skips_entry(
    doc: Node,
    a: Seq<(Node, Node)>,
    bad: (Node, Node),
    b: Seq<(Node, Node)>,
    r: Result<Config, ConfigError>,
)
    requires
        loads(doc, r),
        block_of(doc, "mappings"@) == Some(a.push(bad) + b),
        !is_string_entry(bad),
        r is Ok,
    ensures
        r->Ok_0.pairs() == string_pairs(a + b),
{
    lemma_string_pairs_skip(a, bad, b);
}

/// Where the string entries of the `mappings` block have distinct keys, the
/// snippets of a loaded document are exactly those entries, in order; every
/// entry whose key or value is not a string is left out.
pub proof fn lemma_load_keeps_string_entries(doc: Node, r: Result<Config, ConfigError>)
    requires
        loads(doc, r),
        r is Ok,
        block_of(doc, "mappings"@) is Some,
        keys_unique(entry_texts(string_entries(block_of(doc, "mappings"@)->0))),
    ensures
        r->Ok_0.pairs() == entry_texts(string_entries(block_of(doc, "mappings"@)->0)),
{
    lemma_string_pairs_filtered(block_of(doc, "mappings"@)->0);
}

/// A document without a `mappings` table fails to load with
/// `MissingMappings`; it never gives an empty set of snippets.
pub proof fn lemma_missing_mappings(doc: Node, r: Result<Config, ConfigError>)
    requires
        loads(doc, r),
        block_of(doc, "mappings"@) is None,
    ensures
        r matches Err(ConfigError::MissingMappings),
{
}

} // verus!
