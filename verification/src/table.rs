//! Insertion-ordered tables keyed by strings. Inserting a fresh key appends
//! it; inserting a present key replaces its value in place, keeping the key's
//! original position. `CountMap` maps modloader tokens to counts for one
//! version; `Aggregate` maps versions to their `CountMap`s.

use vstd::prelude::*;
use crate::strutil::str_eq;

verus! {

/// Insert-or-replace on a sequence of keyed entries: the first entry with
/// key `k` has its value replaced in place; with no such entry, `(k, v)` is
/// appended.
pub open spec fn insert_entry<V>(s: Seq<(Seq<char>, V)>, k: Seq<char>, v: V) -> Seq<
    (Seq<char>, V),
>
    decreases s.len(),
{
    if s.len() == 0 {
        seq![(k, v)]
    } else if s[0].0 == k {
        seq![(k, v)] + s.subrange(1, s.len() as int)
    } else {
        seq![s[0]] + insert_entry(s.subrange(1, s.len() as int), k, v)
    }
}

pub open spec fn has_key<V>(s: Seq<(Seq<char>, V)>, k: Seq<char>) -> bool {
    exists|i: int| 0 <= i < s.len() && (#[trigger] s[i]).0 == k
}

pub open spec fn distinct_keys<V>(s: Seq<(Seq<char>, V)>) -> bool {
    forall|i: int, j: int| 0 <= i < j < s.len() ==> (#[trigger] s[i]).0 != (#[trigger] s[j]).0
}

proof fn lemma_insert_entry_found<V>(s: Seq<(Seq<char>, V)>, k: Seq<char>, v: V, j: int)
    requires
        0 <= j < s.len(),
        s[j].0 == k,
        forall|i: int| 0 <= i < j ==> (#[trigger] s[i]).0 != k,
    ensures
        insert_entry(s, k, v) =~= s.update(j, (k, v)),
    decreases s.len(),
{
    if j == 0 {
        assert(insert_entry(s, k, v) =~= s.update(0, (k, v)));
    } else {
        let t = s.subrange(1, s.len() as int);
        assert forall|i: int| 0 <= i < j - 1 implies (#[trigger] t[i]).0 != k by {
            assert(t[i] == s[i + 1]);
        }
        lemma_insert_entry_found(t, k, v, j - 1);
        assert(insert_entry(s, k, v) =~= s.update(j, (k, v)));
    }
}

proof fn lemma_insert_entry_fresh<V>(s: Seq<(Seq<char>, V)>, k: Seq<char>, v: V)
    requires
        !has_key(s, k),
    ensures
        insert_entry(s, k, v) =~= s.push((k, v)),
    decreases s.len(),
{
    if s.len() > 0 {
        let t = s.subrange(1, s.len() as int);
        assert(!has_key(t, k)) by {
            if has_key(t, k) {
                let i = choose|i: int| 0 <= i < t.len() && (#[trigger] t[i]).0 == k;
                assert(s[i + 1] == t[i]);
            }
        }
        lemma_insert_entry_fresh(t, k, v);
        assert(insert_entry(s, k, v) =~= s.push((k, v)));
    }
}

/// Finds the first entry of `v` whose key equals `key`.
fn find_key<V>(v: &Vec<(String, V)>, key: &str) -> (r: Option<usize>)
    ensures
        match r {
            Some(i) => i < v@.len() && v@[i as int].0@ == key@ && forall|j: int|
                0 <= j < i ==> (#[trigger] v@[j]).0@ != key@,
            None => forall|j: int| 0 <= j < v@.len() ==> (#[trigger] v@[j]).0@ != key@,
        },
{
    let n: usize = v.len();
    let mut i: usize = 0;
    while i < n
        invariant
            i <= n,
            n == v@.len(),
            forall|j: int| 0 <= j < i ==> (#[trigger] v@[j]).0@ != key@,
        decreases n - i,
    {
        if str_eq(v[i].0.as_str(), key) {
            return Some(i);
        }
        i = i + 1;
    }
    None
}

/// An insertion-ordered map from modloader tokens to counts.
pub struct CountMap {
    entries: Vec<(String, i64)>,
}

impl View for CountMap {
    type V = Seq<(Seq<char>, i64)>;

    closed spec fn view(&self) -> Seq<(Seq<char>, i64)> {
        Seq::new(self.entries@.len(), |i: int| (self.entries@[i].0@, self.entries@[i].1))
    }
}

impl CountMap {
    pub open spec fn wf(&self) -> bool {
        distinct_keys(self@)
    }

    pub fn new() -> (r: CountMap)
        ensures
            r@ == Seq::<(Seq<char>, i64)>::empty(),
            r.wf(),
    {
        let r = CountMap { entries: Vec::new() };
        proof {
            assert(r@ =~= Seq::<(Seq<char>, i64)>::empty());
        }
        r
    }

    pub fn len(&self) -> (n: usize)
        ensures
            n == self@.len(),
    {
        self.entries.len()
    }

    pub fn key_at(&self, i: usize) -> (k: &String)
        requires
            i < self@.len(),
        ensures
            k@ == self@[i as int].0,
    {
        &self.entries[i].0
    }

    pub fn count_at(&self, i: usize) -> (c: i64)
        requires
            i < self@.len(),
        ensures
            c == self@[i as int].1,
    {
        self.entries[i].1
    }

    /// Empties the map, handing its entries back.
    pub fn take(&mut self) -> (r: CountMap)
        ensures
            r@ == old(self)@,
            r.wf() == old(self).wf(),
            final(self)@ == Seq::<(Seq<char>, i64)>::empty(),
            final(self).wf(),
    {
        let mut swapped: Vec<(String, i64)> = Vec::new();
        core::mem::swap(&mut self.entries, &mut swapped);
        let r = CountMap { entries: swapped };
        proof {
            assert(self@ =~= Seq::<(Seq<char>, i64)>::empty());
            assert(r@ =~= old(self)@);
        }
        r
    }

    pub fn insert(&mut self, key: String, value: i64)
        requires
            old(self).wf(),
        ensures
            final(self).wf(),
            final(self)@ == insert_entry(old(self)@, key@, value),
    {
        match find_key(&self.entries, key.as_str()) {
            Some(i) => {
                let _ = self.entries.remove(i);
                self.entries.insert(i, (key, value));
                proof {
                    assert(self@ =~= old(self)@.update(i as int, (key@, value)));
                    assert forall|a: int| 0 <= a < i implies (#[trigger] old(self)@[a]).0 != key@
                        by {}
                    lemma_insert_entry_found(old(self)@, key@, value, i as int);
                    assert forall|a: int, b: int| 0 <= a < b < self@.len() implies (
                    #[trigger] self@[a]).0 != (#[trigger] self@[b]).0 by {
                        assert(old(self)@[a].0 != old(self)@[b].0);
                        assert(self@[a].0 == if a == i {
                            key@
                        } else {
                            old(self)@[a].0
                        });
                    }
                }
            },
            None => {
                self.entries.push((key, value));
                proof {
                    assert(self@ =~= old(self)@.push((key@, value)));
                    assert(!has_key(old(self)@, key@));
                    lemma_insert_entry_fresh(old(self)@, key@, value);
                    assert forall|a: int, b: int| 0 <= a < b < self@.len() implies (
                    #[trigger] self@[a]).0 != (#[trigger] self@[b]).0 by {
                        if b < self@.len() - 1 {
                            assert(old(self)@[a].0 != old(self)@[b].0);
                        } else {
                            assert(old(self)@[a].0 != key@);
                        }
                    }
                }
            },
        }
    }
}

/// The insertion-ordered aggregate: one entry per version, each holding that
/// version's `CountMap`.
pub struct Aggregate {
    entries: Vec<(String, CountMap)>,
}

impl View for Aggregate {
    type V = Seq<(Seq<char>, Seq<(Seq<char>, i64)>)>;

    closed spec fn view(&self) -> Seq<(Seq<char>, Seq<(Seq<char>, i64)>)> {
        Seq::new(self.entries@.len(), |i: int| (self.entries@[i].0@, self.entries@[i].1@))
    }
}

impl Aggregate {
    pub open spec fn wf(&self) -> bool {
        distinct_keys(self@)
    }

    pub fn new() -> (r: Aggregate)
        ensures
            r@ == Seq::<(Seq<char>, Seq<(Seq<char>, i64)>)>::empty(),
            r.wf(),
    {
        let r = Aggregate { entries: Vec::new() };
        proof {
            assert(r@ =~= Seq::<(Seq<char>, Seq<(Seq<char>, i64)>)>::empty());
        }
        r
    }

    pub fn len(&self) -> (n: usize)
        ensures
            n == self@.len(),
    {
        self.entries.len()
    }

    pub fn key_at(&self, i: usize) -> (k: &String)
        requires
            i < self@.len(),
        ensures
            k@ == self@[i as int].0,
    {
        &self.entries[i].0
    }

    pub fn value_at(&self, i: usize) -> (m: &CountMap)
        requires
            i < self@.len(),
        ensures
            m@ == self@[i as int].1,
    {
        &self.entries[i].1
    }

    pub fn insert(&mut self, key: String, value: CountMap)
        requires
            old(self).wf(),
        ensures
            final(self).wf(),
            final(self)@ == insert_entry(old(self)@, key@, value@),
    {
        match find_key(&self.entries, key.as_str()) {
            Some(i) => {
                let _ = self.entries.remove(i);
                self.entries.insert(i, (key, value));
                proof {
                    assert(self@ =~= old(self)@.update(i as int, (key@, value@)));
                    assert forall|a: int| 0 <= a < i implies (#[trigger] old(self)@[a]).0 != key@
                        by {}
                    lemma_insert_entry_found(old(self)@, key@, value@, i as int);
                    assert forall|a: int, b: int| 0 <= a < b < self@.len() implies (
                    #[trigger] self@[a]).0 != (#[trigger] self@[b]).0 by {
                        assert(old(self)@[a].0 != old(self)@[b].0);
                        assert(self@[a].0 == if a == i {
                            key@
                        } else {
                            old(self)@[a].0
                        });
                    }
                }
            },
            None => {
                self.entries.push((key, value));
                proof {
                    assert(self@ =~= old(self)@.push((key@, value@)));
                    assert(!has_key(old(self)@, key@));
                    lemma_insert_entry_fresh(old(self)@, key@, value@);
                    assert forall|a: int, b: int| 0 <= a < b < self@.len() implies (
                    #[trigger] self@[a]).0 != (#[trigger] self@[b]).0 by {
                        if b < self@.len() - 1 {
                            assert(old(self)@[a].0 != old(self)@[b].0);
                        } else {
                            assert(old(self)@[a].0 != key@);
                        }
                    }
                }
            },
        }
    }
}

} // verus!
