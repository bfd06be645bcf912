//! Lookup tables from fixed-size byte keys (passkeys, info-hashes) to ids.

use vstd::prelude::*;

use crate::ids::bytes_equal;

verus! {

/// The map that a list of `(key, id)` pairs spells; a later pair wins.
pub open spec fn index_map<const N: usize>(s: Seq<([u8; N], u32)>) -> Map<Seq<u8>, u32>
    decreases s.len(),
{
    if s.len() == 0 {
        Map::empty()
    } else {
        index_map(s.drop_last()).insert(s.last().0@, s.last().1)
    }
}

/// No key occurs twice.
pub open spec fn distinct_keys<const N: usize>(s: Seq<([u8; N], u32)>) -> bool {
    forall|i: int, j: int| 0 <= i < j < s.len() ==> (#[trigger] s[i]).0@ != (#[trigger] s[j]).0@
}

proof fn lemma_index_found<const N: usize>(s: Seq<([u8; N], u32)>, i: int)
    requires
        distinct_keys(s),
        0 <= i < s.len(),
    ensures
        index_map(s).contains_key(s[i].0@),
        index_map(s)[s[i].0@] == s[i].1,
    decreases s.len(),
{
    if i < s.len() - 1 {
        assert(s[i].0@ != s[s.len() - 1].0@);
        assert(s.drop_last()[i] == s[i]);
        lemma_index_found(s.drop_last(), i);
    }
}

proof fn lemma_index_missing<const N: usize>(s: Seq<([u8; N], u32)>, k: Seq<u8>)
    requires
        forall|i: int| 0 <= i < s.len() ==> (#[trigger] s[i]).0@ != k,
    ensures
        !index_map(s).contains_key(k),
    decreases s.len(),
{
    if s.len() > 0 {
        assert(s[s.len() - 1].0@ != k);
        assert forall|i: int| 0 <= i < s.drop_last().len() implies (
        #[trigger] s.drop_last()[i]).0@ != k by {
            assert(s.drop_last()[i] == s[i]);
        }
        lemma_index_missing(s.drop_last(), k);
    }
}

proof fn lemma_index_update<const N: usize>(s: Seq<([u8; N], u32)>, i: int, v: u32)
    requires
        distinct_keys(s),
        0 <= i < s.len(),
    ensures
        index_map(s.update(i, (s[i].0, v))) == index_map(s).insert(s[i].0@, v),
    decreases s.len(),
{
    let u = s.update(i, (s[i].0, v));
    if i == s.len() - 1 {
        assert(u.drop_last() =~= s.drop_last());
        assert(index_map(u) =~= index_map(s).insert(s[i].0@, v));
    } else {
        assert(u.drop_last() =~= s.drop_last().update(i, (s[i].0, v)));
        assert(s.drop_last()[i] == s[i]);
        assert forall|a: int, b: int| 0 <= a < b < s.drop_last().len() implies (
        #[trigger] s.drop_last()[a]).0@ != (#[trigger] s.drop_last()[b]).0@ by {
            assert(s.drop_last()[a] == s[a] && s.drop_last()[b] == s[b]);
        }
        lemma_index_update(s.drop_last(), i, v);
        assert(s[i].0@ != s.last().0@);
        assert(index_map(u) =~= index_map(s).insert(s[i].0@, v));
    }
}

/// A table from `N`-byte keys to ids, each key at most once.
#[derive(Clone, Debug)]
pub struct IdIndex<const N: usize> {
    entries: Vec<([u8; N], u32)>,
}

impl<const N: usize> View for IdIndex<N> {
    type V = Map<Seq<u8>, u32>;

    closed spec fn view(&self) -> Map<Seq<u8>, u32> {
        index_map(self.entries@)
    }
}

impl<const N: usize> IdIndex<N> {
    /// The stored pairs hold each key once.
    pub closed spec fn wf(&self) -> bool {
        distinct_keys(self.entries@)
    }

    /// An empty table.
    pub fn new() -> (r: IdIndex<N>)
        ensures
            r.wf(),
            r@ == Map::<Seq<u8>, u32>::empty(),
    {
        IdIndex { entries: Vec::new() }
    }

    /// The id stored under `key`.
    pub fn get(&self, key: &[u8; N]) -> (r: Option<u32>)
        requires
            self.wf(),
        ensures
            r == if self@.contains_key(key@) {
                Some(self@[key@])
            } else {
                None::<u32>
            },
    {
        let mut i: usize = 0;
        while i < self.entries.len()
            invariant
                0 <= i <= self.entries@.len(),
                distinct_keys(self.entries@),
                forall|j: int| 0 <= j < i ==> (#[trigger] self.entries@[j]).0@ != key@,
            decreases self.entries@.len() - i,
        {
            if bytes_equal(&self.entries[i].0, key) {
                proof {
                    lemma_index_found(self.entries@, i as int);
                }
                return Some(self.entries[i].1);
            }
            i += 1;
        }
        proof {
            lemma_index_missing(self.entries@, key@);
        }
        None
    }

    /// Stores `id` under `key`, replacing what was there.
    pub fn insert(&mut self, key: [u8; N], id: u32)
        requires
            old(self).wf(),
        ensures
            final(self).wf(),
            final(self)@ == old(self)@.insert(key@, id),
    {
        let ghost s = self.entries@;
        let mut i: usize = 0;
        while i < self.entries.len()
            invariant
                0 <= i <= self.entries@.len(),
                self.entries@ == s,
                old(self).entries@ == s,
                distinct_keys(s),
                forall|j: int| 0 <= j < i ==> (#[trigger] s[j]).0@ != key@,
            decreases self.entries@.len() - i,
        {
            if bytes_equal(&self.entries[i].0, &key) {
                let k = self.entries[i].0;
                assert(k == s[i as int].0 && k@ == key@);
                self.entries.set(i, (k, id));
                proof {
                    assert(self.entries@ == s.update(i as int, (s[i as int].0, id)));
                    lemma_index_update(s, i as int, id);
                    assert forall|a: int, b: int| 0 <= a < b < self.entries@.len() implies (
                    #[trigger] self.entries@[a]).0@ != (#[trigger] self.entries@[b]).0@ by {
                        assert(self.entries@[a].0 == s[a].0 && self.entries@[b].0 == s[b].0);
                    }
                }
                return;
            }
            i += 1;
        }
        self.entries.push((key, id));
        proof {
            assert(self.entries@.drop_last() =~= s);
            assert forall|a: int, b: int| 0 <= a < b < self.entries@.len() implies (
            #[trigger] self.entries@[a]).0@ != (#[trigger] self.entries@[b]).0@ by {
                assert(self.entries@[a] == s[a]);
                if b < s.len() {
                    assert(self.entries@[b] == s[b]);
                }
            }
        }
    }
}

} // verus!
