//! A histogram of operation sizes: for each size, how many operations asked
//! for it. Counts saturate at `u64::MAX` instead of overflowing.

use vstd::prelude::*;

verus! {

/// How often `size` was recorded in `m` (zero when never).
pub open spec fn count_in(m: Map<u64, u64>, size: u64) -> u64 {
    if m.contains_key(size) {
        m[size]
    } else {
        0
    }
}

/// `m` after one more operation of `size`, the count saturating.
pub open spec fn bumped(m: Map<u64, u64>, size: u64) -> Map<u64, u64> {
    m.insert(size, count_in(m, size).saturating_add(1))
}

/// `size` is recorded in `m` and no recorded size is larger.
pub open spec fn is_largest_size(m: Map<u64, u64>, size: u64) -> bool {
    m.contains_key(size) && forall|k: u64| #[trigger] m.contains_key(k) ==> k <= size
}

/// The largest size recorded in a non-empty `m`.
pub open spec fn largest_size(m: Map<u64, u64>) -> u64 {
    choose|size: u64| is_largest_size(m, size)
}

/// `n` capped at `u64::MAX`.
pub open spec fn capped(n: nat) -> nat {
    if n > u64::MAX as nat {
        u64::MAX as nat
    } else {
        n
    }
}

/// The map of a list of `(size, count)` entries.
pub open spec fn entries_map(s: Seq<(u64, u64)>) -> Map<u64, u64>
    decreases s.len(),
{
    if s.len() == 0 {
        Map::empty()
    } else {
        entries_map(s.drop_last()).insert(s.last().0, s.last().1)
    }
}

/// No size occurs twice in a list of entries.
pub open spec fn distinct_sizes(s: Seq<(u64, u64)>) -> bool {
    forall|i: int, j: int| 0 <= i < j < s.len() ==> s[i].0 != s[j].0
}

/// The sum of the counts of a list of entries.
pub open spec fn counts_sum(s: Seq<(u64, u64)>) -> nat
    decreases s.len(),
{
    if s.len() == 0 {
        0
    } else {
        counts_sum(s.drop_last()) + s.last().1 as nat
    }
}

proof fn lemma_entries_map(s: Seq<(u64, u64)>)
    requires
        distinct_sizes(s),
    ensures
        forall|i: int|
            0 <= i < s.len() ==> #[trigger] entries_map(s).contains_key(s[i].0)
                && entries_map(s)[s[i].0] == s[i].1,
        forall|k: u64|
            #[trigger] entries_map(s).contains_key(k) ==> exists|i: int|
                0 <= i < s.len() && s[i].0 == k,
    decreases s.len(),
{
    if s.len() > 0 {
        let t = s.drop_last();
        assert(distinct_sizes(t));
        lemma_entries_map(t);
        assert forall|i: int| 0 <= i < s.len() implies #[trigger] entries_map(s).contains_key(s[i].0)
            && entries_map(s)[s[i].0] == s[i].1 by {
            if i < s.len() - 1 {
                assert(t[i] == s[i]);
                assert(entries_map(t).contains_key(t[i].0));
                assert(s[i].0 != s.last().0);
            }
        }
        assert forall|k: u64| #[trigger] entries_map(s).contains_key(k) implies exists|i: int|
            0 <= i < s.len() && s[i].0 == k by {
            if k != s.last().0 {
                assert(entries_map(t).contains_key(k));
                let i = choose|i: int| 0 <= i < t.len() && t[i].0 == k;
                assert(t[i] == s[i]);
            } else {
                assert(s[s.len() - 1].0 == k);
            }
        }
    }
}

proof fn lemma_entries_map_update(s: Seq<(u64, u64)>, i: int, e: (u64, u64))
    requires
        distinct_sizes(s),
        0 <= i < s.len(),
        e.0 == s[i].0,
    ensures
        entries_map(s.update(i, e)) == entries_map(s).insert(e.0, e.1),
    decreases s.len(),
{
    let u = s.update(i, e);
    if i == s.len() - 1 {
        assert(u.drop_last() =~= s.drop_last());
        assert(entries_map(u) =~= entries_map(s).insert(e.0, e.1));
    } else {
        assert(u.drop_last() =~= s.drop_last().update(i, e));
        assert(distinct_sizes(s.drop_last()));
        lemma_entries_map_update(s.drop_last(), i, e);
        assert(s.last().0 != e.0);
        assert(entries_map(u) =~= entries_map(s).insert(e.0, e.1));
    }
}

proof fn lemma_counts_sum_update(s: Seq<(u64, u64)>, i: int, e: (u64, u64))
    requires
        0 <= i < s.len(),
    ensures
        counts_sum(s.update(i, e)) + s[i].1 == counts_sum(s) + e.1,
    decreases s.len(),
{
    let u = s.update(i, e);
    if i < s.len() - 1 {
        assert(u.drop_last() =~= s.drop_last().update(i, e));
        lemma_counts_sum_update(s.drop_last(), i, e);
    } else {
        assert(u.drop_last() =~= s.drop_last());
    }
}

/// Counts of operations by size.
pub struct Histogram {
    entries: Vec<(u64, u64)>,
}

impl View for Histogram {
    type V = Map<u64, u64>;

    closed spec fn view(&self) -> Map<u64, u64> {
        entries_map(self.entries@)
    }
}

impl Histogram {
    /// No size is held twice.
    pub closed spec fn wf(&self) -> bool {
        distinct_sizes(self.entries@)
    }

    /// The number of operations recorded: the sum of all counts.
    pub closed spec fn ops(&self) -> nat {
        counts_sum(self.entries@)
    }

    /// An empty histogram.
    pub fn new() -> (r: Histogram)
        ensures
            r.wf(),
            r@ == Map::<u64, u64>::empty(),
            r.ops() == 0,
    {
        Histogram { entries: Vec::new() }
    }

    /// Forgets every recorded operation.
    pub fn clear(&mut self)
        ensures
            final(self).wf(),
            final(self)@ == Map::<u64, u64>::empty(),
            final(self).ops() == 0,
    {
        self.entries.clear();
        assert(self.entries@ =~= Seq::<(u64, u64)>::empty());
    }

    /// Records one more operation of `size`.
    pub fn bump(&mut self, size: u64)
        requires
            old(self).wf(),
        ensures
            final(self).wf(),
            final(self)@ == bumped(old(self)@, size),
            final(self).ops() == old(self).ops() + if count_in(old(self)@, size) == u64::MAX {
                0nat
            } else {
                1nat
            },
    {
        let ghost s = self.entries@;
        proof {
            lemma_entries_map(s);
        }
        let n = self.entries.len();
        let mut i: usize = 0;
        while i < n
            invariant
                n == s.len(),
                self.entries@ == s,
                old(self).entries@ == s,
                distinct_sizes(s),
                i <= n,
                forall|j: int| 0 <= j < i ==> s[j].0 != size,
            decreases n - i,
        {
            if self.entries[i].0 == size {
                let c = self.entries[i].1;
                let e = (size, c.saturating_add(1));
                self.entries.set(i, e);
                proof {
                    lemma_entries_map(s);
                    let u = self.entries@;
                    assert(u == s.update(i as int, e));
                    assert(distinct_sizes(u));
                    lemma_counts_sum_update(s, i as int, e);
                    assert(count_in(entries_map(s), size) == c);
                    lemma_entries_map_update(s, i as int, e);
                }
                return;
            }
            i = i + 1;
        }
        self.entries.push((size, 1));
        proof {
            let u = self.entries@;
            assert(u.drop_last() =~= s);
            assert(!entries_map(s).contains_key(size));
            assert(entries_map(u) =~= bumped(entries_map(s), size));
        }
    }

    /// Tells whether no operation was recorded.
    pub fn is_empty(&self) -> (r: bool)
        requires
            self.wf(),
        ensures
            r == (self@ == Map::<u64, u64>::empty()),
    {
        proof {
            lemma_entries_map(self.entries@);
            if self.entries@.len() > 0 {
                assert(self@.contains_key(self.entries@[0].0));
            } else {
                assert(self@ =~= Map::<u64, u64>::empty());
            }
        }
        self.entries.len() == 0
    }

    /// How often `size` was recorded.
    pub fn count(&self, size: u64) -> (r: u64)
        requires
            self.wf(),
        ensures
            r == count_in(self@, size),
    {
        proof {
            lemma_entries_map(self.entries@);
        }
        let n = self.entries.len();
        let mut i: usize = 0;
        while i < n
            invariant
                n == self.entries@.len(),
                i <= n,
                forall|j: int| 0 <= j < i ==> self.entries@[j].0 != size,
                distinct_sizes(self.entries@),
            decreases n - i,
        {
            if self.entries[i].0 == size {
                proof {
                    lemma_entries_map(self.entries@);
                }
                return self.entries[i].1;
            }
            i = i + 1;
        }
        0
    }

    /// The number of recorded operations, saturating at `u64::MAX`.
    pub fn total_ops(&self) -> (r: u64)
        ensures
            r as nat == capped(self.ops()),
    {
        let ghost s = self.entries@;
        let n = self.entries.len();
        let mut acc: u64 = 0;
        let mut i: usize = 0;
        assert(s.take(0) =~= Seq::<(u64, u64)>::empty());
        while i < n
            invariant
                n == s.len(),
                s == self.entries@,
                i <= n,
                acc as nat == capped(counts_sum(s.take(i as int))),
            decreases n - i,
        {
            assert(s.take(i + 1).drop_last() =~= s.take(i as int));
            acc = acc.saturating_add(self.entries[i].1);
            i = i + 1;
        }
        assert(s.take(n as int) =~= s);
        acc
    }

    /// The largest recorded size. Sizes are distinct, so this is also the
    /// greatest `(size, count)` pair in lexicographic order.
    pub fn max_size(&self) -> (r: u64)
        requires
            self.wf(),
            self@ != Map::<u64, u64>::empty(),
        ensures
            is_largest_size(self@, r),
            r == largest_size(self@),
    {
        let ghost s = self.entries@;
        proof {
            lemma_entries_map(s);
            if s.len() == 0 {
                assert(self@ == Map::<u64, u64>::empty());
            }
        }
        let n = self.entries.len();
        let mut best = self.entries[0].0;
        let mut i: usize = 1;
        while i < n
            invariant
                n == s.len(),
                s == self.entries@,
                1 <= i <= n,
                exists|j: int| 0 <= j < i && s[j].0 == best,
                forall|j: int| 0 <= j < i ==> s[j].0 <= best,
            decreases n - i,
        {
            if self.entries[i].0 > best {
                best = self.entries[i].0;
            }
            i = i + 1;
        }
        proof {
            assert forall|k: u64| #[trigger] self@.contains_key(k) implies k <= best by {
                let j = choose|j: int| 0 <= j < s.len() && s[j].0 == k;
            }
            assert(is_largest_size(self@, best));
            let other = largest_size(self@);
            assert(is_largest_size(self@, other));
        }
        best
    }
}

} // verus!
