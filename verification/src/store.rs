//! Ordered key-value store: one logical namespace of blobs keyed by the
//! 16-byte derived key read as an unsigned integer, held in ascending key
//! order with exact accounting of the stored bytes.

use vstd::prelude::*;

verus! {

/// Whether the pairs are held in strictly ascending key order.
pub open spec fn sorted_by_key(s: Seq<(u128, Vec<u8>)>) -> bool {
    forall|i: int, j: int|
        #![trigger s[i], s[j]]
        0 <= i < j < s.len() ==> s[i].0 < s[j].0
}

/// Total length of the stored blobs.
pub open spec fn sum_lens(s: Seq<(u128, Vec<u8>)>) -> int
    decreases s.len(),
{
    if s.len() == 0 {
        0
    } else {
        sum_lens(s.drop_last()) + s.last().1@.len()
    }
}

/// The map each pair sequence stands for; later pairs win.
pub open spec fn seq_to_map(s: Seq<(u128, Vec<u8>)>) -> Map<u128, Seq<u8>>
    decreases s.len(),
{
    if s.len() == 0 {
        Map::empty()
    } else {
        seq_to_map(s.drop_last()).insert(s.last().0, s.last().1@)
    }
}

/// The map holds a key exactly when some pair carries it.
pub proof fn lemma_map_contains(s: Seq<(u128, Vec<u8>)>, k: u128)
    ensures
        seq_to_map(s).contains_key(k) <==> exists|i: int|
            0 <= i < s.len() && (#[trigger] s[i]).0 == k,
    decreases s.len(),
{
    if s.len() == 0 {
    } else {
        lemma_map_contains(s.drop_last(), k);
        if s.last().0 == k {
            assert(s[s.len() - 1].0 == k);
        } else if exists|i: int| 0 <= i < s.len() && (#[trigger] s[i]).0 == k {
            let i = choose|i: int| 0 <= i < s.len() && (#[trigger] s[i]).0 == k;
            assert(s.drop_last()[i] == s[i]);
        }
    }
}

/// Under unique keys the map's value at a pair's key is that pair's blob.
pub proof fn lemma_map_get(s: Seq<(u128, Vec<u8>)>, i: int)
    requires
        sorted_by_key(s),
        0 <= i < s.len(),
    ensures
        seq_to_map(s).contains_key(s[i].0),
        seq_to_map(s)[s[i].0] == s[i].1@,
    decreases s.len(),
{
    if i == s.len() - 1 {
    } else {
        assert(s[i].0 < s.last().0);
        assert(s.drop_last()[i] == s[i]);
        lemma_map_get(s.drop_last(), i);
    }
}

/// The total blob length is nonnegative and bounds each blob.
pub proof fn lemma_sum_bounds(s: Seq<(u128, Vec<u8>)>, i: int)
    requires
        0 <= i < s.len(),
    ensures
        sum_lens(s) >= s[i].1@.len(),
        sum_lens(s) >= 0,
    decreases s.len(),
{
    lemma_sum_nonneg(s.drop_last());
    if i == s.len() - 1 {
    } else {
        assert(s.drop_last()[i] == s[i]);
        lemma_sum_bounds(s.drop_last(), i);
    }
}

/// The total blob length is never negative.
pub proof fn lemma_sum_nonneg(s: Seq<(u128, Vec<u8>)>)
    ensures
        sum_lens(s) >= 0,
    decreases s.len(),
{
    if s.len() == 0 {
    } else {
        lemma_sum_nonneg(s.drop_last());
    }
}

/// Inserting a pair adds its blob length to the total.
pub proof fn lemma_sum_insert(s: Seq<(u128, Vec<u8>)>, i: int, p: (u128, Vec<u8>))
    requires
        0 <= i <= s.len(),
    ensures
        sum_lens(s.insert(i, p)) == sum_lens(s) + p.1@.len(),
    decreases s.len(),
{
    let s2 = s.insert(i, p);
    if i == s.len() {
        assert(s2.drop_last() =~= s);
    } else {
        assert(s2.last() == s.last());
        assert(s2.drop_last() =~= s.drop_last().insert(i, p));
        lemma_sum_insert(s.drop_last(), i, p);
    }
}

/// Removing a pair subtracts its blob length from the total.
pub proof fn lemma_sum_remove(s: Seq<(u128, Vec<u8>)>, i: int)
    requires
        0 <= i < s.len(),
    ensures
        sum_lens(s.remove(i)) == sum_lens(s) - s[i].1@.len(),
    decreases s.len(),
{
    let s2 = s.remove(i);
    if i == s.len() - 1 {
        assert(s2 =~= s.drop_last());
    } else {
        assert(s2.last() == s.last());
        assert(s2.drop_last() =~= s.drop_last().remove(i));
        lemma_sum_remove(s.drop_last(), i);
    }
}

/// The store: pairs in strictly ascending key order, with the running total
/// of stored blob bytes.
pub struct KvStore {
    entries: Vec<(u128, Vec<u8>)>,
    total: u64,
}

impl View for KvStore {
    type V = Map<u128, Seq<u8>>;

    closed spec fn view(&self) -> Map<u128, Seq<u8>> {
        seq_to_map(self.entries@)
    }
}

impl KvStore {
    /// The pairs in storage order.
    pub closed spec fn seq_view(&self) -> Seq<(u128, Vec<u8>)> {
        self.entries@
    }

    /// Number of stored pairs.
    pub open spec fn spec_len(&self) -> nat {
        self.seq_view().len()
    }

    /// Running total of stored blob bytes.
    pub closed spec fn total_spec(&self) -> u64 {
        self.total
    }

    /// Well-formed: ascending keys and exact accounting.
    pub open spec fn wf(&self) -> bool {
        &&& sorted_by_key(self.seq_view())
        &&& self.total_spec() == sum_lens(self.seq_view())
    }

    /// An empty store.
    pub fn new() -> (s: Self)
        ensures
            s.wf(),
            s@ =~= Map::<u128, Seq<u8>>::empty(),
            s.spec_len() == 0,
            s.total_spec() == 0,
    {
        KvStore { entries: Vec::new(), total: 0 }
    }

    /// Number of stored pairs.
    pub fn len(&self) -> (r: usize)
        ensures
            r == self.spec_len(),
    {
        self.entries.len()
    }

    /// Running total of stored blob bytes.
    pub fn total(&self) -> (r: u64)
        ensures
            r == self.total_spec(),
    {
        self.total
    }

    /// An empty store holds no bytes and maps no key.
    pub proof fn lemma_empty(&self)
        requires
            self.wf(),
            self.spec_len() == 0,
        ensures
            self.total_spec() == 0,
            self@ =~= Map::<u128, Seq<u8>>::empty(),
    {
    }

    /// Point lookup by key.
    pub fn get(&self, k: u128) -> (r: Option<&Vec<u8>>)
        requires
            self.wf(),
        ensures
            match r {
                Some(v) => self@.contains_key(k) && v@ == self@[k],
                None => !self@.contains_key(k),
            },
    {
        let n = self.entries.len();
        let mut i: usize = 0;
        while i < n
            invariant
                self.wf(),
                n == self.spec_len(),
                i <= n,
                forall|j: int| 0 <= j < i ==> (#[trigger] self.seq_view()[j]).0 != k,
            decreases n - i,
        {
            if self.entries[i].0 == k {
                proof {
                    lemma_map_get(self.seq_view(), i as int);
                }
                return Some(&self.entries[i].1);
            }
            i = i + 1;
        }
        proof {
            lemma_map_contains(self.seq_view(), k);
        }
        None
    }

    /// Inserts or overwrites the blob under a key; last write wins. Fails
    /// only when the new running total would not fit in 64 bits, and then
    /// changes nothing.
    pub fn put(&mut self, k: u128, v: Vec<u8>) -> (ok: bool)
        requires
            old(self).wf(),
        ensures
            final(self).wf(),
            ok ==> final(self)@ == old(self)@.insert(k, v@),
            ok ==> (final(self).spec_len() == if old(self)@.contains_key(k) {
                old(self).spec_len() as int
            } else {
                old(self).spec_len() + 1 as int
            }),
            !ok ==> *final(self) == *old(self),
            old(self).total_spec() + v@.len() <= u64::MAX ==> ok,
            ok ==> final(self).total_spec() == old(self).total_spec() + v@.len() - (
            if old(self)@.contains_key(k) {
                old(self)@[k].len() as int
            } else {
                0
            }),
    {
        let ghost s0 = self.entries@;
        let n = self.entries.len();
        let mut i: usize = 0;
        while i < n && self.entries[i].0 < k
            invariant
                self.wf(),
                self.entries@ == s0,
                n == self.spec_len(),
                i <= n,
                forall|j: int| 0 <= j < i ==> (#[trigger] s0[j]).0 < k,
            decreases n - i,
        {
            i = i + 1;
        }
        if i < n && self.entries[i].0 == k {
            // overwrite in place: the key set is unchanged
            let old_len = self.entries[i].1.len();
            proof {
                lemma_map_get(s0, i as int);
                lemma_sum_bounds(s0, i as int);
                lemma_sum_remove(s0, i as int);
            }
            let reduced = self.total - old_len as u64;
            let new_total = match reduced.checked_add(v.len() as u64) {
                Some(t) => t,
                None => {
                    return false;
                },
            };
            self.entries.remove(i);
            self.entries.insert(i, (k, v));
            self.total = new_total;
            proof {
                let s2 = self.entries@;
                assert forall|a: int, b: int|
                    #![trigger s2[a], s2[b]]
                    0 <= a < b < s2.len() implies s2[a].0 < s2[b].0 by {
                    assert(s2[a].0 == s0[a].0);
                    assert(s2[b].0 == s0[b].0);
                }
                lemma_sum_insert(s0.remove(i as int), i as int, s2[i as int]);
                assert(s0.remove(i as int).insert(i as int, s2[i as int]) =~= s2);
                lemma_put_view(s0, s2, i as int, k);
            }
            true
        } else {
            // fresh key: it stands between the smaller and the larger keys
            let new_total = match self.total.checked_add(v.len() as u64) {
                Some(t) => t,
                None => {
                    return false;
                },
            };
            self.entries.insert(i, (k, v));
            self.total = new_total;
            proof {
                let s2 = self.entries@;
                assert(s2 =~= s0.insert(i as int, s2[i as int]));
                assert forall|a: int, b: int|
                    #![trigger s2[a], s2[b]]
                    0 <= a < b < s2.len() implies s2[a].0 < s2[b].0 by {
                    if b < i {
                        assert(s2[a] == s0[a] && s2[b] == s0[b]);
                    } else if a > i {
                        assert(s2[a] == s0[a - 1] && s2[b] == s0[b - 1]);
                    } else if a < i && b == i {
                        assert(s2[a] == s0[a]);
                    } else if a == i && b > i {
                        assert(s2[b] == s0[b - 1]);
                        assert(s0[b - 1].0 != k) by {
                            lemma_map_contains(s0, s0[b - 1].0);
                        }
                    } else if a < i && b > i {
                        assert(s2[a] == s0[a] && s2[b] == s0[b - 1]);
                    }
                }
                lemma_sum_insert(s0, i as int, s2[i as int]);
                lemma_map_contains(s0, k);
                lemma_fresh_view(s0, s2, i as int, k);
            }
            true
        }
    }

    /// Removes and returns the pair with the least key; `None` exactly when
    /// the store is empty.
    pub fn pop_first(&mut self) -> (r: Option<(u128, Vec<u8>)>)
        requires
            old(self).wf(),
        ensures
            final(self).wf(),
            match r {
                Some(p) => {
                    &&& old(self)@.contains_key(p.0)
                    &&& p.1@ == old(self)@[p.0]
                    &&& forall|q: u128| #[trigger] old(self)@.contains_key(q) ==> p.0 <= q
                    &&& final(self)@ == old(self)@.remove(p.0)
                    &&& final(self).spec_len() == old(self).spec_len() - 1
                    &&& final(self).total_spec() == old(self).total_spec() - p.1@.len()
                },
                None => *final(self) == *old(self) && old(self).spec_len() == 0 && old(self)@
                    =~= Map::<u128, Seq<u8>>::empty(),
            },
    {
        let ghost s0 = self.entries@;
        if self.entries.len() == 0 {
            return None;
        }
        proof {
            lemma_map_get(s0, 0);
            lemma_sum_bounds(s0, 0);
            lemma_sum_remove(s0, 0);
        }
        let p = self.entries.remove(0);
        self.total = self.total - p.1.len() as u64;
        proof {
            let s2 = self.entries@;
            assert forall|a: int, b: int|
                #![trigger s2[a], s2[b]]
                0 <= a < b < s2.len() implies s2[a].0 < s2[b].0 by {
                assert(s2[a] == s0[a + 1] && s2[b] == s0[b + 1]);
            }
            assert forall|q: u128| #[trigger] seq_to_map(s0).contains_key(q) implies s0[0].0
                <= q by {
                lemma_map_contains(s0, q);
                let j = choose|j: int| 0 <= j < s0.len() && (#[trigger] s0[j]).0 == q;
                if j > 0 {
                    assert(s0[0].0 < s0[j].0);
                }
            }
            lemma_pop_view(s0, s2);
        }
        Some(p)
    }
}

/// View change of an in-place overwrite at a key already present.
proof fn lemma_put_view(s0: Seq<(u128, Vec<u8>)>, s2: Seq<(u128, Vec<u8>)>, i: int, k: u128)
    requires
        sorted_by_key(s0),
        sorted_by_key(s2),
        0 <= i < s0.len(),
        s2.len() == s0.len(),
        s0[i].0 == k,
        s2[i].0 == k,
        forall|j: int| 0 <= j < s0.len() && j != i ==> #[trigger] s2[j] == s0[j],
    ensures
        seq_to_map(s2) == seq_to_map(s0).insert(k, s2[i].1@),
{
    let m0 = seq_to_map(s0);
    let m2 = seq_to_map(s2);
    let target = m0.insert(k, s2[i].1@);
    assert forall|q: u128| #[trigger] m2.contains_key(q) implies target.contains_key(q) by {
        lemma_map_contains(s2, q);
        let j = choose|j: int| 0 <= j < s2.len() && (#[trigger] s2[j]).0 == q;
        if j != i {
            lemma_map_contains(s0, q);
        }
    }
    assert forall|q: u128| #[trigger] target.contains_key(q) implies m2.contains_key(q) by {
        if q == k {
            lemma_map_get(s2, i);
        } else {
            lemma_map_contains(s0, q);
            let j = choose|j: int| 0 <= j < s0.len() && (#[trigger] s0[j]).0 == q;
            assert(s2[j].0 == q);
            lemma_map_contains(s2, q);
        }
    }
    assert forall|q: u128| #[trigger] m2.contains_key(q) implies m2[q] == target[q] by {
        lemma_map_contains(s2, q);
        let j = choose|j: int| 0 <= j < s2.len() && (#[trigger] s2[j]).0 == q;
        lemma_map_get(s2, j);
        if j == i {
            assert(q == k);
        } else {
            assert(s0[j].0 == q);
            lemma_map_get(s0, j);
        }
    }
    assert(m2 =~= target);
}

/// View change of inserting a pair under a fresh key.
proof fn lemma_fresh_view(s0: Seq<(u128, Vec<u8>)>, s2: Seq<(u128, Vec<u8>)>, i: int, k: u128)
    requires
        sorted_by_key(s0),
        sorted_by_key(s2),
        0 <= i <= s0.len(),
        s2.len() == s0.len() + 1,
        s2[i].0 == k,
        !seq_to_map(s0).contains_key(k),
        forall|j: int| 0 <= j < i ==> #[trigger] s2[j] == s0[j],
        forall|j: int| i < j < s2.len() ==> #[trigger] s2[j] == s0[j - 1],
    ensures
        seq_to_map(s2) == seq_to_map(s0).insert(k, s2[i].1@),
{
    let m0 = seq_to_map(s0);
    let m2 = seq_to_map(s2);
    let target = m0.insert(k, s2[i].1@);
    assert forall|q: u128| #[trigger] m2.contains_key(q) implies target.contains_key(q) by {
        lemma_map_contains(s2, q);
        let j = choose|j: int| 0 <= j < s2.len() && (#[trigger] s2[j]).0 == q;
        if j != i {
            lemma_map_contains(s0, q);
            if j < i {
                assert(s0[j].0 == q);
            } else {
                assert(s0[j - 1].0 == q);
            }
        }
    }
    assert forall|q: u128| #[trigger] target.contains_key(q) implies m2.contains_key(q) by {
        lemma_map_contains(s2, q);
        if q == k {
            assert(s2[i].0 == q);
        } else {
            lemma_map_contains(s0, q);
            let j = choose|j: int| 0 <= j < s0.len() && (#[trigger] s0[j]).0 == q;
            if j < i {
                assert(s2[j].0 == q);
            } else {
                assert(s2[j + 1].0 == q);
            }
        }
    }
    assert forall|q: u128| #[trigger] m2.contains_key(q) implies m2[q] == target[q] by {
        lemma_map_contains(s2, q);
        let j = choose|j: int| 0 <= j < s2.len() && (#[trigger] s2[j]).0 == q;
        lemma_map_get(s2, j);
        if j == i {
            assert(q == k);
        } else if j < i {
            assert(s0[j].0 == q);
            lemma_map_get(s0, j);
            assert(q != k) by {
                lemma_map_contains(s0, q);
            }
        } else {
            assert(s0[j - 1].0 == q);
            lemma_map_get(s0, j - 1);
            assert(q != k) by {
                lemma_map_contains(s0, q);
            }
        }
    }
    assert(m2 =~= target);
}

/// View change of removing the first pair.
proof fn lemma_pop_view(s0: Seq<(u128, Vec<u8>)>, s2: Seq<(u128, Vec<u8>)>)
    requires
        sorted_by_key(s0),
        sorted_by_key(s2),
        s0.len() > 0,
        s2.len() == s0.len() - 1,
        forall|j: int| 0 <= j < s2.len() ==> #[trigger] s2[j] == s0[j + 1],
    ensures
        seq_to_map(s2) == seq_to_map(s0).remove(s0[0].0),
{
    let k = s0[0].0;
    let m0 = seq_to_map(s0);
    let m2 = seq_to_map(s2);
    let target = m0.remove(k);
    assert forall|q: u128| #[trigger] m2.contains_key(q) implies target.contains_key(q) by {
        lemma_map_contains(s2, q);
        let j = choose|j: int| 0 <= j < s2.len() && (#[trigger] s2[j]).0 == q;
        assert(s0[j + 1].0 == q);
        lemma_map_contains(s0, q);
        assert(s0[0].0 < s0[j + 1].0);
    }
    assert forall|q: u128| #[trigger] target.contains_key(q) implies m2.contains_key(q) by {
        lemma_map_contains(s0, q);
        let j = choose|j: int| 0 <= j < s0.len() && (#[trigger] s0[j]).0 == q;
        assert(j != 0);
        assert(s2[j - 1].0 == q);
        lemma_map_contains(s2, q);
    }
    assert forall|q: u128| #[trigger] m2.contains_key(q) implies m2[q] == target[q] by {
        lemma_map_contains(s2, q);
        let j = choose|j: int| 0 <= j < s2.len() && (#[trigger] s2[j]).0 == q;
        lemma_map_get(s2, j);
        assert(s0[j + 1].0 == q);
        lemma_map_get(s0, j + 1);
        assert(s0[0].0 < s0[j + 1].0);
    }
    assert(m2 =~= target);
}

} // verus!
