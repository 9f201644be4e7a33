//! A counter table with string keys: the library's model of a map from
//! strings (endpoints, user agents, model names) to monotonically
//! increasing counters. Keys are kept pairwise distinct, so each key
//! denotes exactly one counter.

use vstd::prelude::*;
use crate::sums::{
    sum_u64s,
    lemma_sum_push,
    lemma_sum_update,
    lemma_sum_nonneg,
    lemma_sum_element_bound,
};

verus! {

pub struct CountMap {
    pub entries: Vec<(String, u64)>,
}

impl CountMap {
    /// Keys are pairwise distinct.
    pub open spec fn wf(self) -> bool {
        forall|i: int, j: int|
            0 <= i < j < self.entries@.len() ==> self.entries@[i].0@ != self.entries@[j].0@
    }

    pub open spec fn spec_len(self) -> nat {
        self.entries@.len()
    }

    pub open spec fn key_seq(self) -> Seq<Seq<char>> {
        self.entries@.map_values(|p: (String, u64)| p.0@)
    }

    pub open spec fn has_key(self, k: Seq<char>) -> bool {
        exists|i: int| 0 <= i < self.entries@.len() && self.entries@[i].0@ == k
    }

    pub open spec fn index_of(self, k: Seq<char>) -> int {
        choose|i: int| 0 <= i < self.entries@.len() && self.entries@[i].0@ == k
    }

    /// The counter stored under `k`; zero when `k` is absent.
    pub open spec fn count(self, k: Seq<char>) -> u64 {
        if self.has_key(k) {
            self.entries@[self.index_of(k)].1
        } else {
            0
        }
    }

    pub open spec fn counts(self) -> Seq<u64> {
        self.entries@.map_values(|p: (String, u64)| p.1)
    }

    /// The sum of all counters in the table.
    pub open spec fn total(self) -> int {
        sum_u64s(self.counts())
    }

    /// In a well-formed table, the index that `index_of` picks for the key
    /// of entry `i` is `i` itself.
    proof fn lemma_index_of_entry(self, i: int)
        requires
            self.wf(),
            0 <= i < self.entries@.len(),
        ensures
            self.has_key(self.entries@[i].0@),
            self.index_of(self.entries@[i].0@) == i,
    {
        let k = self.entries@[i].0@;
        assert(self.has_key(k));
        let j = self.index_of(k);
        assert(0 <= j < self.entries@.len() && self.entries@[j].0@ == k);
        if i < j {
            assert(self.entries@[i].0@ != self.entries@[j].0@);
        } else if j < i {
            assert(self.entries@[j].0@ != self.entries@[i].0@);
        }
    }

    pub fn new() -> (r: CountMap)
        ensures
            r.wf(),
            r.spec_len() == 0,
            r.total() == 0,
            forall|k: Seq<char>| !r.has_key(k) && r.count(k) == 0,
    {
        let r = CountMap { entries: Vec::new() };
        proof {
            assert(r.counts() =~= Seq::<u64>::empty());
        }
        r
    }

    /// Adds `amount` to the counter under `key`, creating the counter at
    /// zero first when the key is new.
    pub fn add(&mut self, key: &String, amount: u64)
        requires
            old(self).wf(),
            old(self).count(key@) + amount <= u64::MAX,
        ensures
            final(self).wf(),
            final(self).count(key@) == old(self).count(key@) + amount,
            forall|k: Seq<char>| k != key@ ==> final(self).count(k) == old(self).count(k),
            forall|k: Seq<char>| final(self).has_key(k) <==> (old(self).has_key(k) || k == key@),
            final(self).total() == old(self).total() + amount,
    {
        let ghost orig = *old(self);
        let n = self.entries.len();
        let mut i: usize = 0;
        while i < n
            invariant
                *self == orig,
                orig == *old(self),
                orig.wf(),
                orig.count(key@) + amount <= u64::MAX,
                n == self.entries@.len(),
                i <= n,
                forall|j: int| 0 <= j < i ==> self.entries@[j].0@ != key@,
            decreases n - i,
        {
            if self.entries[i].0 == *key {
                proof {
                    orig.lemma_index_of_entry(i as int);
                    assert(orig.count(key@) == orig.entries@[i as int].1);
                }
                let v = self.entries[i].1;
                let k2 = self.entries[i].0.clone();
                self.entries.set(i, (k2, v + amount));
                proof {
                    let se = self.entries@;
                    let oe = orig.entries@;
                    assert forall|a: int, b: int| 0 <= a < b < se.len() implies se[a].0@
                        != se[b].0@ by {
                        assert(se[a].0@ == oe[a].0@);
                        assert(se[b].0@ == oe[b].0@);
                    }
                    self.lemma_index_of_entry(i as int);
                    assert(self.count(key@) == orig.count(key@) + amount);
                    assert forall|k: Seq<char>| k != key@ implies self.count(k) == orig.count(
                        k,
                    ) && (self.has_key(k) <==> orig.has_key(k)) by {
                        if orig.has_key(k) {
                            let j = orig.index_of(k);
                            assert(oe[j].0@ == k);
                            assert(j != i);
                            assert(se[j].0@ == k);
                            assert(self.has_key(k));
                        }
                        if self.has_key(k) {
                            let j = self.index_of(k);
                            assert(se[j].0@ == k);
                            assert(j != i);
                            assert(oe[j].0@ == k);
                            assert(orig.has_key(k));
                            orig.lemma_index_of_entry(j);
                            self.lemma_index_of_entry(j);
                        }
                    }
                    assert(self.counts() =~= orig.counts().update(i as int, (v + amount) as u64));
                    lemma_sum_update(orig.counts(), i as int, (v + amount) as u64);
                }
                return ;
            }
            i += 1;
        }
        proof {
            if orig.has_key(key@) {
                let j = orig.index_of(key@);
                assert(orig.entries@[j].0@ == key@);
            }
            assert(!orig.has_key(key@));
            assert(orig.count(key@) == 0);
        }
        let kc = key.clone();
        self.entries.push((kc, amount));
        proof {
            let se = self.entries@;
            let oe = orig.entries@;
            let m = oe.len() as int;
            assert forall|a: int, b: int| 0 <= a < b < se.len() implies se[a].0@ != se[b].0@ by {
                if b < m {
                    assert(se[a].0@ == oe[a].0@);
                    assert(se[b].0@ == oe[b].0@);
                } else {
                    assert(se[a].0@ == oe[a].0@);
                    assert(se[b].0@ == key@);
                }
            }
            assert(se[m].0@ == key@);
            assert(self.has_key(key@));
            self.lemma_index_of_entry(m);
            assert(self.count(key@) == amount);
            assert forall|k: Seq<char>| k != key@ implies self.count(k) == orig.count(k) && (
            self.has_key(k) <==> orig.has_key(k)) by {
                if orig.has_key(k) {
                    let j = orig.index_of(k);
                    assert(oe[j].0@ == k);
                    assert(se[j].0@ == k);
                    assert(self.has_key(k));
                }
                if self.has_key(k) {
                    let j = self.index_of(k);
                    assert(se[j].0@ == k);
                    assert(j != m);
                    assert(oe[j].0@ == k);
                    assert(orig.has_key(k));
                    orig.lemma_index_of_entry(j);
                    self.lemma_index_of_entry(j);
                }
            }
            assert(self.counts() =~= orig.counts().push(amount));
            lemma_sum_push(orig.counts(), amount);
        }
    }

    /// Reads the counter under `key`; zero when the key is absent.
    pub fn get(&self, key: &String) -> (r: u64)
        requires
            self.wf(),
        ensures
            r == self.count(key@),
    {
        let n = self.entries.len();
        let mut i: usize = 0;
        while i < n
            invariant
                n == self.entries@.len(),
                i <= n,
                self.wf(),
                forall|j: int| 0 <= j < i ==> self.entries@[j].0@ != key@,
            decreases n - i,
        {
            if self.entries[i].0 == *key {
                proof {
                    self.lemma_index_of_entry(i as int);
                }
                return self.entries[i].1;
            }
            i += 1;
        }
        proof {
            if self.has_key(key@) {
                let j = self.index_of(key@);
                assert(self.entries@[j].0@ == key@);
            }
        }
        0
    }

    /// A deep copy: same keys, same counters.
    pub fn duplicate(&self) -> (r: CountMap)
        requires
            self.wf(),
        ensures
            r.wf(),
            r.entries@.len() == self.entries@.len(),
            forall|i: int|
                0 <= i < self.entries@.len() ==> #[trigger] r.entries@[i].0@
                    == self.entries@[i].0@ && r.entries@[i].1 == self.entries@[i].1,
            forall|k: Seq<char>| r.has_key(k) <==> self.has_key(k),
            forall|k: Seq<char>| #[trigger] r.count(k) == self.count(k),
            r.counts() =~= self.counts(),
            r.total() == self.total(),
    {
        let n = self.entries.len();
        let mut out: Vec<(String, u64)> = Vec::new();
        let mut i: usize = 0;
        while i < n
            invariant
                n == self.entries@.len(),
                i <= n,
                out@.len() == i,
                forall|j: int|
                    0 <= j < i ==> #[trigger] out@[j].0@ == self.entries@[j].0@ && out@[j].1
                        == self.entries@[j].1,
            decreases n - i,
        {
            let k = self.entries[i].0.clone();
            let v = self.entries[i].1;
            out.push((k, v));
            i += 1;
        }
        let r = CountMap { entries: out };
        proof {
            assert forall|a: int, b: int| 0 <= a < b < r.entries@.len() implies r.entries@[a].0@
                != r.entries@[b].0@ by {
                assert(r.entries@[a].0@ == self.entries@[a].0@);
                assert(r.entries@[b].0@ == self.entries@[b].0@);
            }
            assert forall|k: Seq<char>| r.has_key(k) <==> self.has_key(k) by {
                if r.has_key(k) {
                    let j = r.index_of(k);
                    assert(self.entries@[j].0@ == k);
                }
                if self.has_key(k) {
                    let j = self.index_of(k);
                    assert(r.entries@[j].0@ == k);
                }
            }
            assert forall|k: Seq<char>| #[trigger] r.count(k) == self.count(k) by {
                if self.has_key(k) {
                    let l = self.index_of(k);
                    assert(self.entries@[l].0@ == k);
                    assert(r.entries@[l].0@ == k);
                    self.lemma_index_of_entry(l);
                    r.lemma_index_of_entry(l);
                }
            }
            assert forall|j: int| 0 <= j < r.entries@.len() implies r.counts()[j]
                == self.counts()[j] by {
                assert(r.entries@[j].0@ == self.entries@[j].0@ && r.entries@[j].1
                    == self.entries@[j].1);
            }
            assert(r.counts() =~= self.counts());
        }
        r
    }

    pub fn num_entries(&self) -> (r: usize)
        ensures
            r == self.spec_len(),
    {
        self.entries.len()
    }

    pub fn key_at(&self, i: usize) -> (r: &String)
        requires
            i < self.spec_len(),
        ensures
            r@ == self.entries@[i as int].0@,
    {
        &self.entries[i].0
    }

    pub fn count_at(&self, i: usize) -> (r: u64)
        requires
            i < self.spec_len(),
        ensures
            r == self.entries@[i as int].1,
    {
        self.entries[i].1
    }

    /// Each counter is bounded by the table's total.
    pub proof fn lemma_count_le_total(self, k: Seq<char>)
        requires
            self.wf(),
        ensures
            self.count(k) <= self.total(),
    {
        if self.has_key(k) {
            let i = self.index_of(k);
            assert(self.counts()[i] == self.entries@[i].1);
            lemma_sum_element_bound(self.counts(), i);
        } else {
            lemma_sum_nonneg(self.counts());
        }
    }

    /// When every key present in a well-formed table is one fixed key,
    /// the sum of all counters is the counter of that key.
    pub proof fn lemma_single_key_total(self, p: Seq<char>)
        requires
            self.wf(),
            forall|k: Seq<char>| self.has_key(k) ==> k == p,
        ensures
            self.total() == self.count(p),
    {
        let e = self.entries@;
        if e.len() == 0 {
            assert(self.counts() =~= Seq::<u64>::empty());
            if self.has_key(p) {
                let j = self.index_of(p);
                assert(0 <= j < 0);
            }
        } else {
            assert forall|i: int| 0 <= i < e.len() implies e[i].0@ == p by {
                assert(self.has_key(e[i].0@));
            }
            if e.len() >= 2 {
                assert(e[0].0@ == p && e[1].0@ == p);
                assert(false);
            }
            self.lemma_index_of_entry(0);
            assert(self.count(p) == e[0].1);
            assert(self.counts().len() == 1);
            assert(self.counts().last() == e[0].1);
            assert(self.counts().drop_last() =~= Seq::<u64>::empty());
            assert(sum_u64s(Seq::<u64>::empty()) == 0);
            assert(self.total() == e[0].1);
        }
    }
}

} // verus!
