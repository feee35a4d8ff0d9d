//! The rename registry: one record per accepted replacement whose output
//! path differs from its input path. Keys are unique; recording an existing
//! key replaces its value (last write wins).

use vstd::prelude::*;

use crate::text::str_eq;

verus! {

pub open spec fn unique_keys(s: Seq<(String, String)>) -> bool {
    forall|i: int, j: int| 0 <= i < j < s.len() ==> s[i].0@ != s[j].0@
}

/// The value recorded under `key`, preferring the latest record.
pub open spec fn spec_lookup(s: Seq<(String, String)>, key: Seq<char>) -> Option<Seq<char>>
    decreases s.len(),
{
    if s.len() == 0 {
        None
    } else if s.last().0@ == key {
        Some(s.last().1@)
    } else {
        spec_lookup(s.drop_last(), key)
    }
}

/// `spec_lookup` misses exactly when no record carries the key.
pub proof fn lemma_lookup_none_iff(s: Seq<(String, String)>, key: Seq<char>)
    ensures
        (spec_lookup(s, key) is None) <==> (forall|i: int| 0 <= i < s.len() ==> s[i].0@ != key),
    decreases s.len(),
{
    if s.len() > 0 {
        lemma_lookup_none_iff(s.drop_last(), key);
        if s.last().0@ != key {
            assert forall|i: int| 0 <= i < s.len() - 1 implies s.drop_last()[i] == s[i] by {}
        }
    }
}

pub struct RenameRegistry {
    pub entries: Vec<(String, String)>,
}

impl RenameRegistry {
    /// An empty registry.
    pub fn new() -> (r: Self)
        ensures
            r.entries@.len() == 0,
            unique_keys(r.entries@),
    {
        RenameRegistry { entries: Vec::new() }
    }

    pub fn len(&self) -> (n: usize)
        ensures
            n == self.entries@.len(),
    {
        self.entries.len()
    }

    /// The record at position `i`, in insertion order.
    pub fn get(&self, i: usize) -> (r: (String, String))
        requires
            i < self.entries@.len(),
        ensures
            r.0@ == self.entries@[i as int].0@,
            r.1@ == self.entries@[i as int].1@,
    {
        let p = &self.entries[i];
        (p.0.clone(), p.1.clone())
    }

    /// Record that the entry read under `old_path` was written under
    /// `new_path`. An existing record with the same key is replaced.
    pub fn record(&mut self, old_path: String, new_path: String)
        requires
            unique_keys(old(self).entries@),
        ensures
            unique_keys(final(self).entries@),
            ({
                let s = old(self).entries@;
                if exists|i: int| 0 <= i < s.len() && s[i].0@ == old_path@ {
                    final(self).entries@ == s.remove(
                        choose|i: int| 0 <= i < s.len() && s[i].0@ == old_path@,
                    ).push((old_path, new_path))
                } else {
                    final(self).entries@ == s.push((old_path, new_path))
                }
            }),
            spec_lookup(final(self).entries@, old_path@) == Some(new_path@),
    {
        let n = self.entries.len();
        let mut i: usize = 0;
        let ghost s = self.entries@;
        while i < n
            invariant
                n == self.entries@.len(),
                0 <= i <= n,
                s == self.entries@,
                s == old(self).entries@,
                unique_keys(s),
                forall|j: int| 0 <= j < i ==> s[j].0@ != old_path@,
            decreases n - i,
        {
            if str_eq(self.entries[i].0.as_str(), old_path.as_str()) {
                self.entries.remove(i);
                self.entries.push((old_path, new_path));
                proof {
                    let s2 = self.entries@;
                    assert(s2 == s.remove(i as int).push((old_path, new_path)));
                    assert(0 <= i < s.len() && s[i as int].0@ == old_path@);
                    let w = choose|w: int| 0 <= w < s.len() && s[w].0@ == old_path@;
                    assert(w == i) by {
                        if w < i {
                            assert(s[w].0@ != s[i as int].0@);
                        } else if w > i {
                            assert(s[i as int].0@ != s[w].0@);
                        }
                    };
                    assert forall|a: int| 0 <= a < s2.len() - 1 implies s2[a] == (if a < i {
                        s[a]
                    } else {
                        s[a + 1]
                    }) by {}
                    assert(s2.last() == (old_path, new_path));
                    assert forall|a: int, b: int| 0 <= a < b < s2.len() implies s2[a].0@
                        != s2[b].0@ by {
                        if b == s2.len() - 1 {
                            let a0 = if a < i {
                                a
                            } else {
                                a + 1
                            };
                            assert(s2[a] == s[a0]);
                            assert(a0 != i);
                            assert(s[a0].0@ != s[i as int].0@);
                        }
                    }
                    assert(spec_lookup(s2, old_path@) == Some(new_path@));
                }
                return ;
            }
            i = i + 1;
        }
        self.entries.push((old_path, new_path));
        proof {
            let s2 = self.entries@;
            assert(s2 == s.push((old_path, new_path)));
            assert(s2.last() == (old_path, new_path));
            assert forall|a: int, b: int| 0 <= a < b < s2.len() implies s2[a].0@ != s2[b].0@ by {
                if b == s2.len() - 1 {
                    assert(s2[a] == s[a]);
                    assert(s2[b].0@ == old_path@);
                }
            }
            assert(spec_lookup(s2, old_path@) == Some(new_path@));
        }
    }

    /// The path currently recorded for `key`, when there is one.
    pub fn lookup(&self, key: &str) -> (r: Option<String>)
        ensures
            match r {
                Some(v) => spec_lookup(self.entries@, key@) == Some(v@),
                None => spec_lookup(self.entries@, key@) is None,
            },
    {
        let n = self.entries.len();
        let mut i: usize = n;
        proof {
            assert(self.entries@.subrange(0, n as int) =~= self.entries@);
        }
        while i > 0
            invariant
                n == self.entries@.len(),
                0 <= i <= n,
                spec_lookup(self.entries@, key@) == spec_lookup(
                    self.entries@.subrange(0, i as int),
                    key@,
                ),
            decreases i,
        {
            i = i - 1;
            let p = &self.entries[i];
            let ghost pre = self.entries@.subrange(0, i + 1);
            proof {
                assert(pre.last() == self.entries@[i as int]);
            }
            if str_eq(p.0.as_str(), key) {
                return Some(p.1.clone());
            }
            proof {
                assert(pre.drop_last() =~= self.entries@.subrange(0, i as int));
            }
        }
        proof {
            assert(self.entries@.subrange(0, 0) =~= Seq::<(String, String)>::empty());
        }
        None
    }
}

} // verus!
