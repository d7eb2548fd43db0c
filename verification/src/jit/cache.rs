//! Cache of natively compiled functions, keyed by a fingerprint of the chunk.

use vstd::prelude::*;

verus! {

/// Maps a function fingerprint to the address of its native code.
pub struct JitCache {
    entries: Vec<(String, usize)>,
}

/// The map made by a list of entries, a later entry for a key replacing an earlier one.
pub open spec fn entries_map(es: Seq<(String, usize)>) -> Map<Seq<char>, usize>
    decreases es.len(),
{
    if es.len() == 0 {
        Map::empty()
    } else {
        entries_map(es.drop_last()).insert(es.last().0@, es.last().1)
    }
}

proof fn lemma_entries_found(es: Seq<(String, usize)>, i: int, k: Seq<char>)
    requires
        0 <= i < es.len(),
        es[i].0@ == k,
        forall|j: int| i < j < es.len() ==> es[j].0@ != k,
    ensures
        entries_map(es).contains_key(k),
        entries_map(es)[k] == es[i].1,
    decreases es.len(),
{
    if i < es.len() - 1 {
        lemma_entries_found(es.drop_last(), i, k);
    }
}

proof fn lemma_entries_absent(es: Seq<(String, usize)>, k: Seq<char>)
    requires
        forall|j: int| 0 <= j < es.len() ==> es[j].0@ != k,
    ensures
        !entries_map(es).contains_key(k),
    decreases es.len(),
{
    if es.len() > 0 {
        lemma_entries_absent(es.drop_last(), k);
    }
}

impl View for JitCache {
    type V = Map<Seq<char>, usize>;

    closed spec fn view(&self) -> Map<Seq<char>, usize> {
        entries_map(self.entries@)
    }
}

impl JitCache {
    pub fn new() -> (r: JitCache)
        ensures
            r@ == Map::<Seq<char>, usize>::empty(),
    {
        let r = JitCache { entries: Vec::new() };
        assert(r@ =~= Map::<Seq<char>, usize>::empty());
        r
    }

    /// The code address stored for `key`.
    pub fn get(&self, key: &str) -> (r: Option<usize>)
        ensures
            match r {
                Some(p) => self@.contains_key(key@) && self@[key@] == p,
                None => !self@.contains_key(key@),
            },
    {
        let k = key.to_owned();
        let mut i = self.entries.len();
        while i > 0
            invariant
                i <= self.entries@.len(),
                k@ == key@,
                forall|j: int| i <= j < self.entries@.len() ==> self.entries@[j].0@ != k@,
            decreases i,
        {
            i = i - 1;
            if self.entries[i].0 == k {
                proof {
                    lemma_entries_found(self.entries@, i as int, k@);
                }
                return Some(self.entries[i].1);
            }
        }
        proof {
            lemma_entries_absent(self.entries@, k@);
        }
        None
    }

    /// Stores the code address for `key`, replacing an earlier one.
    pub fn insert(&mut self, key: String, ptr: usize)
        ensures
            final(self)@ == old(self)@.insert(key@, ptr),
    {
        let ghost old_entries = self.entries@;
        self.entries.push((key, ptr));
        assert(self.entries@.drop_last() =~= old_entries);
    }
}

/// A lookup gives back what the last insertion for that key stored, and an
/// insertion leaves the other keys as they were.
pub proof fn law_get_after_insert(m: Map<Seq<char>, usize>, k: Seq<char>, p: usize, other: Seq<char>)
    requires
        other != k,
    ensures
        m.insert(k, p).contains_key(k),
        m.insert(k, p)[k] == p,
        m.insert(k, p).contains_key(other) == m.contains_key(other),
        m.contains_key(other) ==> m.insert(k, p)[other] == m[other],
{
}

} // verus!
