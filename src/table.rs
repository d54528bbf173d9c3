use vstd::prelude::*;

verus! {

/// Key-value pairs of text, as sequences of characters, in order.
pub type TextPairs = Seq<(Seq<char>, Seq<char>)>;

pub open spec fn view_pairs(v: Seq<(String, String)>) -> TextPairs {
    v.map_values(|p: (String, String)| (p.0@, p.1@))
}

pub open spec fn keys_unique(m: TextPairs) -> bool {
    forall|i: int, j: int| 0 <= i < j < m.len() ==> m[i].0 != m[j].0
}

pub open spec fn has_key(m: TextPairs, k: Seq<char>) -> bool {
    exists|i: int| 0 <= i < m.len() && m[i].0 == k
}

/// Position of key `k` in `m`, meaningful when `has_key(m, k)`.
pub open spec fn key_index(m: TextPairs, k: Seq<char>) -> int {
    choose|i: int| 0 <= i < m.len() && m[i].0 == k
}

/// The value stored under `k`, if any.
pub open spec fn value_of(m: TextPairs, k: Seq<char>) -> Option<Seq<char>> {
    if has_key(m, k) {
        Some(m[key_index(m, k)].1)
    } else {
        None
    }
}

/// Map insertion on ordered pairs: a present key keeps its place and takes
/// the new value, a new key goes last.
pub open spec fn with_pair(m: TextPairs, k: Seq<char>, v: Seq<char>) -> TextPairs {
    if has_key(m, k) {
        m.update(key_index(m, k), (k, v))
    } else {
        m.push((k, v))
    }
}

pub proof fn lemma_with_pair_unique(m: TextPairs, k: Seq<char>, v: Seq<char>)
    requires
        keys_unique(m),
    ensures
        keys_unique(with_pair(m, k, v)),
{
    if has_key(m, k) {
        let i = key_index(m, k);
        let r = with_pair(m, k, v);
        assert forall|a: int, b: int| 0 <= a < b < r.len() implies r[a].0 != r[b].0 by {
            assert(r[a].0 == m[a].0);
            assert(r[b].0 == m[b].0);
        }
    }
}

/// Looks up `k` among pairs whose keys are distinct.
pub fn find_value<'a>(pairs: &'a Vec<(String, String)>, k: &str) -> (r: Option<&'a String>)
    requires
        keys_unique(view_pairs(pairs@)),
    ensures
        match r {
            Some(s) => value_of(view_pairs(pairs@), k@) == Some(s@),
            None => value_of(view_pairs(pairs@), k@) is None,
        },
{
    let ghost m = view_pairs(pairs@);
    let mut i: usize = 0;
    while i < pairs.len()
        invariant
            m == view_pairs(pairs@),
            m.len() == pairs@.len(),
            keys_unique(m),
            i <= pairs@.len(),
            forall|j: int| 0 <= j < i ==> m[j].0 != k@,
        decreases pairs@.len() - i,
    {
        if crate::style::str_eq(pairs[i].0.as_str(), k) {
            assert(m[i as int].0 == k@);
            assert(has_key(m, k@));
            let ghost j = key_index(m, k@);
            assert(j == i as int) by {
                if j < i as int {
                } else if j > i as int {
                    assert(m[i as int].0 != m[j].0);
                }
            }
            return Some(&pairs[i].1);
        }
        i = i + 1;
    }
    None
}

} // verus!
