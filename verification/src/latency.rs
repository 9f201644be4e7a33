//! Per-path windows of recent response latencies. Each path keeps a
//! bounded window: at most `LATENCY_CAP` samples, oldest evicted first,
//! insertion order preserved.

use vstd::prelude::*;

verus! {

/// Capacity of one path's latency window.
pub const LATENCY_CAP: usize = 100;

/// The suffix of `t` holding its most recent `cap` elements (all of `t`
/// when it is shorter).
pub open spec fn last_up_to(t: Seq<u64>, cap: int) -> Seq<u64> {
    if t.len() <= cap {
        t
    } else {
        t.skip(t.len() - cap)
    }
}

/// One insertion into a bounded window: append, then evict the oldest
/// element if the capacity is exceeded.
pub open spec fn trim_push(s: Seq<u64>, e: u64) -> Seq<u64> {
    last_up_to(s.push(e), LATENCY_CAP as int)
}

/// The window after inserting the samples `xs`, one by one, into `s`.
pub open spec fn after_inserts(s: Seq<u64>, xs: Seq<u64>) -> Seq<u64>
    decreases xs.len(),
{
    if xs.len() == 0 {
        s
    } else {
        after_inserts(trim_push(s, xs[0]), xs.drop_first())
    }
}

/// Trimming early never changes the final suffix: keeping only the last
/// `cap` elements before appending more leaves the last `cap` of the
/// whole history unchanged.
proof fn lemma_last_up_to_absorb(u: Seq<u64>, w: Seq<u64>, cap: int)
    requires
        0 <= cap,
    ensures
        last_up_to(last_up_to(u, cap) + w, cap) =~= last_up_to(u + w, cap),
{
}

/// The window that grows from `s` by the samples `xs` is the most recent
/// suffix of the full history `s + xs`.
proof fn lemma_after_inserts_general(s: Seq<u64>, xs: Seq<u64>)
    requires
        s.len() <= LATENCY_CAP,
    ensures
        after_inserts(s, xs) == last_up_to(s + xs, LATENCY_CAP as int),
    decreases xs.len(),
{
    let cap = LATENCY_CAP as int;
    if xs.len() == 0 {
        assert(s + xs =~= s);
    } else {
        let s1 = trim_push(s, xs[0]);
        lemma_after_inserts_general(s1, xs.drop_first());
        lemma_last_up_to_absorb(s.push(xs[0]), xs.drop_first(), cap);
        assert(s.push(xs[0]) + xs.drop_first() =~= s + xs);
    }
}

/// Law: inserting the samples `xs` for one path, starting from an empty
/// window, leaves exactly the most recently inserted values, in
/// insertion order — all of them when they fit the capacity, otherwise
/// the last `LATENCY_CAP` of them.
pub proof fn lemma_latency_window(xs: Seq<u64>)
    ensures
        xs.len() <= LATENCY_CAP ==> after_inserts(Seq::<u64>::empty(), xs) == xs,
        xs.len() > LATENCY_CAP ==> after_inserts(Seq::<u64>::empty(), xs) == xs.skip(
            xs.len() - LATENCY_CAP as int,
        ),
{
    lemma_after_inserts_general(Seq::<u64>::empty(), xs);
    assert(Seq::<u64>::empty() + xs =~= xs);
}

pub struct LatencyTable {
    pub entries: Vec<(String, Vec<u64>)>,
}

impl LatencyTable {
    /// Keys are pairwise distinct and every window respects the capacity.
    pub open spec fn wf(self) -> bool {
        &&& forall|i: int, j: int|
            0 <= i < j < self.entries@.len() ==> self.entries@[i].0@ != self.entries@[j].0@
        &&& forall|i: int|
            0 <= i < self.entries@.len() ==> #[trigger] self.entries@[i].1@.len() <= LATENCY_CAP
    }

    pub open spec fn spec_len(self) -> nat {
        self.entries@.len()
    }

    pub open spec fn has_key(self, k: Seq<char>) -> bool {
        exists|i: int| 0 <= i < self.entries@.len() && self.entries@[i].0@ == k
    }

    pub open spec fn index_of(self, k: Seq<char>) -> int {
        choose|i: int| 0 <= i < self.entries@.len() && self.entries@[i].0@ == k
    }

    /// The latency window stored for path `k`; empty when `k` is absent.
    pub open spec fn times(self, k: Seq<char>) -> Seq<u64> {
        if self.has_key(k) {
            self.entries@[self.index_of(k)].1@
        } else {
            Seq::<u64>::empty()
        }
    }

    proof fn lemma_index_of_entry(self, i: int)
        requires
            self.wf(),
            0 <= i < self.entries@.len(),
        ensures
            self.has_key(self.entries@[i].0@),
            self.index_of(self.entries@[i].0@) == i,
    {
        let k = self.entries@[i].0@;
        assert(self.has_key(k));
        let j = self.index_of(k);
        assert(0 <= j < self.entries@.len() && self.entries@[j].0@ == k);
        if i < j {
            assert(self.entries@[i].0@ != self.entries@[j].0@);
        } else if j < i {
            assert(self.entries@[j].0@ != self.entries@[i].0@);
        }
    }

    pub fn new() -> (r: LatencyTable)
        ensures
            r.wf(),
            r.spec_len() == 0,
            forall|k: Seq<char>| !r.has_key(k) && r.times(k) == Seq::<u64>::empty(),
    {
        LatencyTable { entries: Vec::new() }
    }

    /// Appends one sample to the window of `key`, evicting the oldest
    /// sample when the window already holds `LATENCY_CAP` of them.
    pub fn record(&mut self, key: &String, elapsed_ms: u64)
        requires
            old(self).wf(),
        ensures
            final(self).wf(),
            final(self).times(key@) == trim_push(old(self).times(key@), elapsed_ms),
            forall|k: Seq<char>| k != key@ ==> final(self).times(k) == old(self).times(k),
            forall|k: Seq<char>| final(self).has_key(k) <==> (old(self).has_key(k) || k == key@),
    {
        let ghost orig = *old(self);
        let n = self.entries.len();
        let mut i: usize = 0;
        while i < n
            invariant
                *self == orig,
                orig == *old(self),
                orig.wf(),
                n == self.entries@.len(),
                i <= n,
                forall|j: int| 0 <= j < i ==> self.entries@[j].0@ != key@,
            decreases n - i,
        {
            if self.entries[i].0 == *key {
                proof {
                    orig.lemma_index_of_entry(i as int);
                    assert(orig.times(key@) == orig.entries@[i as int].1@);
                }
                let ghost oldwin = self.entries@[i as int].1@;
                let mut pair = self.entries.remove(i);
                if pair.1.len() >= LATENCY_CAP {
                    pair.1.remove(0);
                }
                pair.1.push(elapsed_ms);
                proof {
                    if oldwin.len() >= LATENCY_CAP {
                        assert(pair.1@ =~= trim_push(oldwin, elapsed_ms));
                    } else {
                        assert(pair.1@ =~= trim_push(oldwin, elapsed_ms));
                    }
                }
                self.entries.insert(i, pair);
                proof {
                    let se = self.entries@;
                    let oe = orig.entries@;
                    assert(se =~= oe.update(i as int, (pair.0, pair.1)));
                    assert(pair.0@ == key@);
                    assert forall|a: int, b: int| 0 <= a < b < se.len() implies se[a].0@
                        != se[b].0@ by {
                        assert(se[a].0@ == oe[a].0@);
                        assert(se[b].0@ == oe[b].0@);
                    }
                    self.lemma_index_of_entry(i as int);
                    assert(self.times(key@) == trim_push(orig.times(key@), elapsed_ms));
                    assert forall|k: Seq<char>| k != key@ implies self.times(k) == orig.times(k)
                        && (self.has_key(k) <==> orig.has_key(k)) by {
                        if orig.has_key(k) {
                            let j = orig.index_of(k);
                            assert(oe[j].0@ == k);
                            assert(se[j].0@ == k);
                            assert(self.has_key(k));
                        }
                        if self.has_key(k) {
                            let j = self.index_of(k);
                            assert(se[j].0@ == k);
                            assert(j != i);
                            assert(oe[j].0@ == k);
                            assert(orig.has_key(k));
                            orig.lemma_index_of_entry(j);
                            self.lemma_index_of_entry(j);
                        }
                    }
                }
                return ;
            }
            i += 1;
        }
        proof {
            if orig.has_key(key@) {
                let j = orig.index_of(key@);
                assert(orig.entries@[j].0@ == key@);
            }
            assert(!orig.has_key(key@));
            assert(orig.times(key@) == Seq::<u64>::empty());
        }
        let kc = key.clone();
        let mut win: Vec<u64> = Vec::new();
        win.push(elapsed_ms);
        proof {
            assert(win@ =~= trim_push(Seq::<u64>::empty(), elapsed_ms));
        }
        self.entries.push((kc, win));
        proof {
            let se = self.entries@;
            let oe = orig.entries@;
            let m = oe.len() as int;
            assert forall|a: int, b: int| 0 <= a < b < se.len() implies se[a].0@ != se[b].0@ by {
                if b < m {
                    assert(se[a].0@ == oe[a].0@);
                    assert(se[b].0@ == oe[b].0@);
                } else {
                    assert(se[a].0@ == oe[a].0@);
                    assert(se[b].0@ == key@);
                }
            }
            assert(se[m].0@ == key@);
            assert(self.has_key(key@));
            self.lemma_index_of_entry(m);
            assert(self.times(key@) == trim_push(orig.times(key@), elapsed_ms));
            assert forall|k: Seq<char>| k != key@ implies self.times(k) == orig.times(k) && (
            self.has_key(k) <==> orig.has_key(k)) by {
                if orig.has_key(k) {
                    let j = orig.index_of(k);
                    assert(oe[j].0@ == k);
                    assert(se[j].0@ == k);
                    assert(self.has_key(k));
                }
                if self.has_key(k) {
                    let j = self.index_of(k);
                    assert(se[j].0@ == k);
                    assert(j != m);
                    assert(oe[j].0@ == k);
                    assert(orig.has_key(k));
                    orig.lemma_index_of_entry(j);
                    self.lemma_index_of_entry(j);
                }
            }
        }
    }

    /// The number of samples currently held for `key`.
    pub fn times_len(&self, key: &String) -> (r: usize)
        requires
            self.wf(),
        ensures
            r == self.times(key@).len(),
    {
        let n = self.entries.len();
        let mut i: usize = 0;
        while i < n
            invariant
                n == self.entries@.len(),
                i <= n,
                self.wf(),
                forall|j: int| 0 <= j < i ==> self.entries@[j].0@ != key@,
            decreases n - i,
        {
            if self.entries[i].0 == *key {
                proof {
                    self.lemma_index_of_entry(i as int);
                }
                return self.entries[i].1.len();
            }
            i += 1;
        }
        proof {
            if self.has_key(key@) {
                let j = self.index_of(key@);
                assert(self.entries@[j].0@ == key@);
            }
        }
        0
    }

    /// The `i`-th oldest sample currently held for `key`.
    pub fn time_at(&self, key: &String, i: usize) -> (r: u64)
        requires
            self.wf(),
            i < self.times(key@).len(),
        ensures
            r == self.times(key@)[i as int],
    {
        let n = self.entries.len();
        let mut j: usize = 0;
        while j < n
            invariant
                n == self.entries@.len(),
                j <= n,
                self.wf(),
                i < self.times(key@).len(),
                forall|l: int| 0 <= l < j ==> self.entries@[l].0@ != key@,
            decreases n - j,
        {
            if self.entries[j].0 == *key {
                proof {
                    self.lemma_index_of_entry(j as int);
                }
                return self.entries[j].1[i];
            }
            j += 1;
        }
        proof {
            if self.has_key(key@) {
                let l = self.index_of(key@);
                assert(self.entries@[l].0@ == key@);
            }
            assert(false);
        }
        0
    }

    /// A deep copy: same paths, same windows.
    pub fn duplicate(&self) -> (r: LatencyTable)
        requires
            self.wf(),
        ensures
            r.wf(),
            r.entries@.len() == self.entries@.len(),
            forall|i: int|
                0 <= i < self.entries@.len() ==> #[trigger] r.entries@[i].0@
                    == self.entries@[i].0@ && r.entries@[i].1@ == self.entries@[i].1@,
            forall|k: Seq<char>| r.has_key(k) <==> self.has_key(k),
            forall|k: Seq<char>| #[trigger] r.times(k) == self.times(k),
    {
        let n = self.entries.len();
        let mut out: Vec<(String, Vec<u64>)> = Vec::new();
        let mut i: usize = 0;
        while i < n
            invariant
                n == self.entries@.len(),
                i <= n,
                out@.len() == i,
                forall|j: int|
                    0 <= j < i ==> #[trigger] out@[j].0@ == self.entries@[j].0@ && out@[j].1@
                        == self.entries@[j].1@,
            decreases n - i,
        {
            let k = self.entries[i].0.clone();
            let src = &self.entries[i].1;
            let wn = src.len();
            let mut w: Vec<u64> = Vec::new();
            let mut l: usize = 0;
            while l < wn
                invariant
                    wn == src@.len(),
                    l <= wn,
                    w@.len() == l,
                    forall|x: int| 0 <= x < l ==> w@[x] == src@[x],
                decreases wn - l,
            {
                w.push(src[l]);
                l += 1;
            }
            proof {
                assert(w@ =~= src@);
            }
            out.push((k, w));
            i += 1;
        }
        let r = LatencyTable { entries: out };
        proof {
            assert forall|a: int, b: int| 0 <= a < b < r.entries@.len() implies r.entries@[a].0@
                != r.entries@[b].0@ by {
                assert(r.entries@[a].0@ == self.entries@[a].0@);
                assert(r.entries@[b].0@ == self.entries@[b].0@);
            }
            assert forall|k: Seq<char>| r.has_key(k) <==> self.has_key(k) by {
                if r.has_key(k) {
                    let j = r.index_of(k);
                    assert(self.entries@[j].0@ == k);
                }
                if self.has_key(k) {
                    let j = self.index_of(k);
                    assert(r.entries@[j].0@ == k);
                }
            }
            assert forall|k: Seq<char>| #[trigger] r.times(k) == self.times(k) by {
                if self.has_key(k) {
                    let l = self.index_of(k);
                    assert(self.entries@[l].0@ == k);
                    assert(r.entries@[l].0@ == k);
                    self.lemma_index_of_entry(l);
                    r.lemma_index_of_entry(l);
                }
            }
        }
        r
    }

    pub fn num_paths(&self) -> (r: usize)
        ensures
            r == self.spec_len(),
    {
        self.entries.len()
    }

    pub fn path_at(&self, i: usize) -> (r: &String)
        requires
            i < self.spec_len(),
        ensures
            r@ == self.entries@[i as int].0@,
    {
        &self.entries[i].0
    }

    pub fn window_at(&self, i: usize) -> (r: &Vec<u64>)
        requires
            i < self.spec_len(),
        ensures
            r@ == self.entries@[i as int].1@,
    {
        &self.entries[i].1
    }
}

} // verus!
