//! A small environment mapping with unique keys, modelled as a
//! `Map<Seq<char>, Seq<char>>`.

use vstd::prelude::*;

use crate::strutil::str_eq;

verus! {

/// The mapping denoted by an association list, later entries overriding
/// earlier ones.
pub open spec fn assoc_map(s: Seq<(String, String)>) -> Map<Seq<char>, Seq<char>>
    decreases s.len(),
{
    if s.len() == 0 {
        Map::empty()
    } else {
        assoc_map(s.drop_last()).insert(s.last().0@, s.last().1@)
    }
}

/// The value of the first entry of `s` whose key is `k`, if any.
pub open spec fn assoc_first(s: Seq<(String, String)>, k: Seq<char>) -> Option<Seq<char>>
    decreases s.len(),
{
    if s.len() == 0 {
        None
    } else if s.first().0@ == k {
        Some(s.first().1@)
    } else {
        assoc_first(s.drop_first(), k)
    }
}

/// No two entries of `s` share a key.
pub open spec fn keys_unique(s: Seq<(String, String)>) -> bool {
    forall|i: int, j: int| 0 <= i < j < s.len() ==> (#[trigger] s[i]).0@ != (#[trigger] s[j]).0@
}

/// If no entry of `s` has key `k`, the denoted map has no entry at `k`.
pub proof fn lemma_assoc_map_absent(s: Seq<(String, String)>, k: Seq<char>)
    requires
        forall|i: int| 0 <= i < s.len() ==> (#[trigger] s[i]).0@ != k,
    ensures
        !assoc_map(s).dom().contains(k),
    decreases s.len(),
{
    if s.len() > 0 {
        lemma_assoc_map_absent(s.drop_last(), k);
    }
}

/// If keys are unique and entry `i` has key `k`, the denoted map takes entry
/// `i`'s value at `k`.
pub proof fn lemma_assoc_map_at(s: Seq<(String, String)>, i: int)
    requires
        keys_unique(s),
        0 <= i < s.len(),
    ensures
        assoc_map(s).dom().contains(s[i].0@),
        assoc_map(s)[s[i].0@] == s[i].1@,
    decreases s.len(),
{
    if i == s.len() - 1 {
    } else {
        lemma_assoc_map_at(s.drop_last(), i);
    }
}

/// Removing the unique entry with key `k` from the list removes `k` from the
/// denoted map.
proof fn lemma_assoc_map_remove(s: Seq<(String, String)>, i: int)
    requires
        keys_unique(s),
        0 <= i < s.len(),
    ensures
        assoc_map(s.remove(i)) == assoc_map(s).remove(s[i].0@),
    decreases s.len(),
{
    let k = s[i].0@;
    if i == s.len() - 1 {
        assert(s.remove(i) =~= s.drop_last());
        lemma_assoc_map_absent(s.drop_last(), k);
        assert(assoc_map(s.drop_last()) =~= assoc_map(s).remove(k));
    } else {
        lemma_assoc_map_remove(s.drop_last(), i);
        assert(s.remove(i).drop_last() =~= s.drop_last().remove(i));
        assert(s.remove(i).last() == s.last());
        // the removed key differs from the last entry's key
        assert(k != s.last().0@);
        assert(assoc_map(s.drop_last()).remove(k).insert(s.last().0@, s.last().1@) =~= assoc_map(
            s.drop_last(),
        ).insert(s.last().0@, s.last().1@).remove(k));
    }
}

/// An environment mapping: variable names to values, every name occurring at
/// most once. Viewed as a `Map<Seq<char>, Seq<char>>`.
#[derive(Debug, Clone)]
pub struct EnvMap {
    pub entries: Vec<(String, String)>,
}

impl View for EnvMap {
    type V = Map<Seq<char>, Seq<char>>;

    open spec fn view(&self) -> Map<Seq<char>, Seq<char>> {
        assoc_map(self.entries@)
    }
}

impl EnvMap {
    /// Keys are pairwise distinct.
    pub open spec fn wf(&self) -> bool {
        keys_unique(self.entries@)
    }

    /// The empty environment.
    pub fn new() -> (r: EnvMap)
        ensures
            r.wf(),
            r@ == Map::<Seq<char>, Seq<char>>::empty(),
    {
        EnvMap { entries: Vec::new() }
    }

    /// Sets `k` to `v`, replacing any previous value of `k`.
    pub fn insert(&mut self, k: String, v: String)
        requires
            old(self).wf(),
        ensures
            final(self).wf(),
            final(self)@ == old(self)@.insert(k@, v@),
    {
        let ghost s0 = self.entries@;
        let n = self.entries.len();
        let mut i: usize = 0;
        while i < n
            invariant
                n == self.entries@.len(),
                0 <= i <= n,
                self.entries@ == s0,
                s0 == old(self).entries@,
                keys_unique(s0),
                forall|j: int| 0 <= j < i ==> (#[trigger] s0[j]).0@ != k@,
            decreases n - i,
        {
            if str_eq(self.entries[i].0.as_str(), k.as_str()) {
                proof {
                    lemma_assoc_map_remove(s0, i as int);
                }
                let ghost ii = i as int;
                self.entries.remove(i);
                self.entries.push((k, v));
                proof {
                    assert(self.entries@.drop_last() =~= s0.remove(ii));
                    assert(self.entries@.last() == (k, v));
                    assert(assoc_map(self.entries@) =~= assoc_map(s0).insert(k@, v@));
                    let m = self.entries@.len() as int;
                    assert forall|a: int, b: int|
                        0 <= a < b < m implies (#[trigger] self.entries@[a]).0@
                        != (#[trigger] self.entries@[b]).0@ by {
                        let a0 = if a < ii {
                            a
                        } else {
                            a + 1
                        };
                        assert(self.entries@[a] == s0[a0]);
                        if b == m - 1 {
                            // the surviving entry `a` does not have key `k`,
                            // since entry `ii` was the unique one that did
                            assert(s0[ii].0@ == k@);
                            if a0 < ii {
                                assert(s0[a0].0@ != s0[ii].0@);
                            } else {
                                assert(s0[ii].0@ != s0[a0].0@);
                            }
                        } else {
                            let b0 = if b < ii {
                                b
                            } else {
                                b + 1
                            };
                            assert(self.entries@[b] == s0[b0]);
                            assert(s0[a0].0@ != s0[b0].0@);
                        }
                    }
                }
                return ;
            }
            i = i + 1;
        }
        self.entries.push((k, v));
        proof {
            assert(self.entries@.drop_last() =~= s0);
            lemma_assoc_map_absent(s0, k@);
        }
    }

    /// Whether `k` is present.
    pub fn contains_key(&self, k: &str) -> (r: bool)
        requires
            self.wf(),
        ensures
            r == self@.dom().contains(k@),
    {
        let n = self.entries.len();
        let mut i: usize = 0;
        while i < n
            invariant
                n == self.entries@.len(),
                0 <= i <= n,
                self.wf(),
                forall|j: int| 0 <= j < i ==> (#[trigger] self.entries@[j]).0@ != k@,
            decreases n - i,
        {
            if str_eq(self.entries[i].0.as_str(), k) {
                proof {
                    lemma_assoc_map_at(self.entries@, i as int);
                }
                return true;
            }
            i = i + 1;
        }
        proof {
            lemma_assoc_map_absent(self.entries@, k@);
        }
        false
    }

    /// The value at `k`, if any.
    pub fn get(&self, k: &str) -> (r: Option<&String>)
        requires
            self.wf(),
        ensures
            match r {
                Some(v) => self@.dom().contains(k@) && v@ == self@[k@],
                None => !self@.dom().contains(k@),
            },
    {
        let n = self.entries.len();
        let mut i: usize = 0;
        while i < n
            invariant
                n == self.entries@.len(),
                0 <= i <= n,
                self.wf(),
                forall|j: int| 0 <= j < i ==> (#[trigger] self.entries@[j]).0@ != k@,
            decreases n - i,
        {
            if str_eq(self.entries[i].0.as_str(), k) {
                proof {
                    lemma_assoc_map_at(self.entries@, i as int);
                }
                return Some(&self.entries[i].1);
            }
            i = i + 1;
        }
        proof {
            lemma_assoc_map_absent(self.entries@, k@);
        }
        None
    }
}

} // verus!
