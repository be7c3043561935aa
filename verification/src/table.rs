//! A small association table keyed by `u64`, with a `Map` view.
//!
//! The store keeps several keyed collections (entity ownership, live
//! entities, persisted records, the WAL queue). This table backs them all:
//! a vector of key/value pairs with pairwise-distinct keys, so every
//! operation's contract can be stated over a mathematical `Map`.
use vstd::prelude::*;

verus! {

/// The mathematical content of a key/value sequence: later pairs win,
/// though a well-formed table never repeats a key.
pub open spec fn map_of<V>(s: Seq<(u64, V)>) -> Map<u64, V>
    decreases s.len(),
{
    if s.len() == 0 {
        Map::empty()
    } else {
        map_of(s.drop_last()).insert(s.last().0, s.last().1)
    }
}

/// No key occurs twice.
pub open spec fn distinct_keys<V>(s: Seq<(u64, V)>) -> bool {
    forall|i: int, j: int| 0 <= i < j < s.len() ==> (#[trigger] s[i]).0 != (#[trigger] s[j]).0
}

/// A key is in the map exactly when some pair carries it.
pub proof fn lemma_map_of_contains<V>(s: Seq<(u64, V)>, k: u64)
    ensures
        map_of(s).dom().contains(k) <==> exists|i: int| 0 <= i < s.len() && (#[trigger] s[i]).0 == k,
    decreases s.len(),
{
    if s.len() > 0 {
        lemma_map_of_contains(s.drop_last(), k);
        if s.last().0 == k {
            assert(s[s.len() - 1].0 == k);
        } else if map_of(s).dom().contains(k) {
            let i = choose|i: int| 0 <= i < s.drop_last().len() && (#[trigger] s.drop_last()[i]).0 == k;
            assert(s[i].0 == k);
        } else if exists|i: int| 0 <= i < s.len() && (#[trigger] s[i]).0 == k {
            let i = choose|i: int| 0 <= i < s.len() && (#[trigger] s[i]).0 == k;
            assert(s.drop_last()[i].0 == k);
        }
    }
}

/// With distinct keys, the pair at any index gives the map's value there.
pub proof fn lemma_map_of_get<V>(s: Seq<(u64, V)>, i: int)
    requires
        distinct_keys(s),
        0 <= i < s.len(),
    ensures
        map_of(s).dom().contains(s[i].0),
        map_of(s)[s[i].0] == s[i].1,
    decreases s.len(),
{
    if i == s.len() - 1 {
        assert(s.last() == s[i]);
    } else {
        assert(distinct_keys(s.drop_last()));
        lemma_map_of_get(s.drop_last(), i);
        assert(s.drop_last()[i] == s[i]);
        assert(s.last().0 != s[i].0);
    }
}

/// Removing the pair at an index removes exactly its key from the map.
pub proof fn lemma_map_of_remove_idx<V>(s: Seq<(u64, V)>, i: int)
    requires
        distinct_keys(s),
        0 <= i < s.len(),
    ensures
        distinct_keys(s.remove(i)),
        map_of(s.remove(i)) == map_of(s).remove(s[i].0),
    decreases s.len(),
{
    assert(distinct_keys(s.remove(i)));
    if i == s.len() - 1 {
        assert(s.remove(i) =~= s.drop_last());
        lemma_map_of_contains(s.drop_last(), s[i].0);
        assert(!map_of(s.drop_last()).dom().contains(s[i].0));
        assert(map_of(s.drop_last()) =~= map_of(s).remove(s[i].0));
    } else {
        assert(distinct_keys(s.drop_last()));
        lemma_map_of_remove_idx(s.drop_last(), i);
        assert(s.remove(i).drop_last() =~= s.drop_last().remove(i));
        assert(s.remove(i).last() == s.last());
        assert(map_of(s.remove(i)) == map_of(s.drop_last().remove(i)).insert(s.last().0, s.last().1));
        assert(s.last().0 != s[i].0);
        assert(map_of(s.drop_last()).remove(s[i].0).insert(s.last().0, s.last().1)
            =~= map_of(s.drop_last()).insert(s.last().0, s.last().1).remove(s[i].0));
    }
}

/// Appending a pair inserts its key.
pub proof fn lemma_map_of_push<V>(s: Seq<(u64, V)>, k: u64, v: V)
    ensures
        map_of(s.push((k, v))) == map_of(s).insert(k, v),
{
    assert(s.push((k, v)).drop_last() =~= s);
    assert(s.push((k, v)).last() == (k, v));
}

/// An association table from `u64` keys to values, with distinct keys.
#[derive(Debug)]
pub struct Table<V> {
    entries: Vec<(u64, V)>,
}

impl<V> View for Table<V> {
    type V = Map<u64, V>;

    closed spec fn view(&self) -> Map<u64, V> {
        map_of(self.entries@)
    }
}

impl<V> Table<V> {
    /// The underlying pair sequence, for iteration contracts.
    pub closed spec fn kvs(&self) -> Seq<(u64, V)> {
        self.entries@
    }

    /// Well-formed: keys are pairwise distinct.
    pub open spec fn wf(&self) -> bool {
        distinct_keys(self.kvs())
    }

    /// The view is the mathematical content of the pair sequence.
    pub proof fn lemma_view(&self)
        ensures
            self@ == map_of(self.kvs()),
    {
    }

    /// Every pair of a well-formed table is reflected in its view.
    pub proof fn lemma_at(&self, i: int)
        requires
            self.wf(),
            0 <= i < self.kvs().len(),
        ensures
            self@.dom().contains(self.kvs()[i].0),
            self@[self.kvs()[i].0] == self.kvs()[i].1,
    {
        lemma_map_of_get(self.kvs(), i);
    }

    /// Every key of the view appears at some index.
    pub proof fn lemma_dom_to_idx(&self, k: u64)
        requires
            self@.dom().contains(k),
        ensures
            exists|i: int| 0 <= i < self.kvs().len() && (#[trigger] self.kvs()[i]).0 == k,
    {
        lemma_map_of_contains(self.kvs(), k);
    }

    /// An empty table.
    pub fn new() -> (r: Table<V>)
        ensures
            r@ == Map::<u64, V>::empty(),
            r.kvs() == Seq::<(u64, V)>::empty(),
            r.wf(),
    {
        Table { entries: Vec::new() }
    }

    /// Number of entries.
    pub fn len(&self) -> (r: usize)
        ensures
            r == self.kvs().len(),
    {
        self.entries.len()
    }

    /// The key at an index.
    pub fn key_at(&self, i: usize) -> (r: u64)
        requires
            i < self.kvs().len(),
        ensures
            r == self.kvs()[i as int].0,
    {
        self.entries[i].0
    }

    /// The value at an index.
    pub fn val_at(&self, i: usize) -> (r: &V)
        requires
            i < self.kvs().len(),
        ensures
            *r == self.kvs()[i as int].1,
    {
        &self.entries[i].1
    }

    /// Whether a key is present.
    pub fn contains(&self, k: u64) -> (r: bool)
        ensures
            r == self@.dom().contains(k),
    {
        let mut i: usize = 0;
        while i < self.entries.len()
            invariant
                0 <= i <= self.kvs().len(),
                forall|j: int| 0 <= j < i ==> (#[trigger] self.kvs()[j]).0 != k,
            decreases self.kvs().len() - i,
        {
            if self.entries[i].0 == k {
                proof {
                    lemma_map_of_contains(self.kvs(), k);
                }
                return true;
            }
            i += 1;
        }
        proof {
            lemma_map_of_contains(self.kvs(), k);
        }
        false
    }

    /// Look a key up.
    pub fn get(&self, k: u64) -> (r: Option<&V>)
        requires
            self.wf(),
        ensures
            match r {
                Some(v) => self@.dom().contains(k) && *v == self@[k],
                None => !self@.dom().contains(k),
            },
    {
        let mut i: usize = 0;
        while i < self.entries.len()
            invariant
                self.wf(),
                0 <= i <= self.kvs().len(),
                forall|j: int| 0 <= j < i ==> (#[trigger] self.kvs()[j]).0 != k,
            decreases self.kvs().len() - i,
        {
            if self.entries[i].0 == k {
                proof {
                    lemma_map_of_get(self.kvs(), i as int);
                }
                return Some(&self.entries[i].1);
            }
            i += 1;
        }
        proof {
            lemma_map_of_contains(self.kvs(), k);
        }
        None
    }

    /// Remove a key, returning its value if it was present.
    pub fn remove(&mut self, k: u64) -> (r: Option<V>)
        requires
            old(self).wf(),
        ensures
            final(self).wf(),
            final(self)@ == old(self)@.remove(k),
            !old(self)@.dom().contains(k) ==> *final(self) == *old(self),
            match r {
                Some(v) => old(self)@.dom().contains(k) && v == old(self)@[k],
                None => !old(self)@.dom().contains(k),
            },
    {
        let mut i: usize = 0;
        while i < self.entries.len()
            invariant
                self == old(self),
                self.wf(),
                0 <= i <= self.kvs().len(),
                forall|j: int| 0 <= j < i ==> (#[trigger] self.kvs()[j]).0 != k,
            decreases self.kvs().len() - i,
        {
            if self.entries[i].0 == k {
                proof {
                    lemma_map_of_get(self.kvs(), i as int);
                    lemma_map_of_remove_idx(self.kvs(), i as int);
                }
                let v = self.entries.remove(i);
                return Some(v.1);
            }
            i += 1;
        }
        proof {
            lemma_map_of_contains(self.kvs(), k);
            assert(old(self)@.remove(k) =~= old(self)@);
        }
        None
    }

    /// Insert a key, replacing any previous value under it.
    pub fn insert(&mut self, k: u64, v: V)
        requires
            old(self).wf(),
        ensures
            final(self).wf(),
            final(self)@ == old(self)@.insert(k, v),
    {
        self.remove(k);
        proof {
            lemma_map_of_contains(self.kvs(), k);
            lemma_map_of_push(self.kvs(), k, v);
            assert(old(self)@.remove(k).insert(k, v) =~= old(self)@.insert(k, v));
        }
        let ghost pre = self.kvs();
        self.entries.push((k, v));
        proof {
            assert(self.kvs() =~= pre.push((k, v)));
            assert forall|i: int, j: int| 0 <= i < j < self.kvs().len() implies
                (#[trigger] self.kvs()[i]).0 != (#[trigger] self.kvs()[j]).0 by {
                if j == self.kvs().len() - 1 {
                    lemma_map_of_contains(pre, k);
                }
            }
        }
    }
}

impl<V: Copy> Table<V> {
    /// A copy of the table.
    pub fn duplicate(&self) -> (r: Table<V>)
        ensures
            r.kvs() == self.kvs(),
            r@ == self@,
            r.wf() == self.wf(),
    {
        let mut out: Vec<(u64, V)> = Vec::new();
        let mut i: usize = 0;
        while i < self.entries.len()
            invariant
                0 <= i <= self.kvs().len(),
                out@ =~= self.kvs().take(i as int),
            decreases self.kvs().len() - i,
        {
            out.push(self.entries[i]);
            i += 1;
        }
        proof {
            assert(out@ =~= self.kvs());
        }
        Table { entries: out }
    }
}

impl Table<u64> {
    /// Remove every entry whose value equals `v`, keeping the rest.
    pub fn remove_where_val(&mut self, v: u64)
        requires
            old(self).wf(),
        ensures
            final(self).wf(),
            forall|k: u64| #[trigger] final(self)@.dom().contains(k)
                <==> old(self)@.dom().contains(k) && old(self)@[k] != v,
            forall|k: u64| #[trigger] final(self)@.dom().contains(k)
                ==> final(self)@[k] == old(self)@[k],
    {
        let mut doomed: Vec<u64> = Vec::new();
        let n = self.entries.len();
        let mut i: usize = 0;
        while i < n
            invariant
                self == old(self),
                self.wf(),
                n == self.kvs().len(),
                0 <= i <= n,
                forall|j: int| 0 <= j < i && (#[trigger] self.kvs()[j]).1 == v
                    ==> doomed@.contains(self.kvs()[j].0),
                forall|x: u64| #[trigger] doomed@.contains(x)
                    ==> self@.dom().contains(x) && self@[x] == v,
            decreases n - i,
        {
            if self.entries[i].1 == v {
                proof {
                    lemma_map_of_get(self.kvs(), i as int);
                }
                let ghost pre = doomed@;
                doomed.push(self.entries[i].0);
                proof {
                    assert(doomed@ =~= pre.push(self.kvs()[i as int].0));
                    assert forall|x: u64| #[trigger] doomed@.contains(x) implies
                        self@.dom().contains(x) && self@[x] == v by {
                        if x != self.kvs()[i as int].0 {
                            let w = choose|w: int| 0 <= w < doomed@.len() && doomed@[w] == x;
                            assert(pre[w] == x);
                            assert(pre.contains(x));
                        }
                    }
                    assert forall|j: int| 0 <= j < i + 1 && (#[trigger] self.kvs()[j]).1 == v
                        implies doomed@.contains(self.kvs()[j].0) by {
                        if j < i {
                            let w = choose|w: int| 0 <= w < pre.len() && pre[w] == self.kvs()[j].0;
                            assert(doomed@[w] == self.kvs()[j].0);
                        } else {
                            assert(doomed@[doomed@.len() - 1] == self.kvs()[j].0);
                        }
                    }
                }
            } else {
                proof {
                    assert forall|j: int| 0 <= j < i + 1 && (#[trigger] self.kvs()[j]).1 == v
                        implies doomed@.contains(self.kvs()[j].0) by {
                    }
                }
            }
            i += 1;
        }
        let m = doomed.len();
        let mut j: usize = 0;
        while j < m
            invariant
                m == doomed@.len(),
                0 <= j <= m,
                self.wf(),
                forall|jj: int| 0 <= jj < old(self).kvs().len()
                    && (#[trigger] old(self).kvs()[jj]).1 == v
                    ==> doomed@.contains(old(self).kvs()[jj].0),
                forall|x: u64| #[trigger] doomed@.contains(x)
                    ==> old(self)@.dom().contains(x) && old(self)@[x] == v,
                forall|k: u64| #[trigger] self@.dom().contains(k)
                    <==> old(self)@.dom().contains(k) && !doomed@.take(j as int).contains(k),
                forall|k: u64| #[trigger] self@.dom().contains(k) ==> self@[k] == old(self)@[k],
            decreases m - j,
        {
            let ghost prej = j as int;
            let ghost prevm = self@;
            let k = doomed[j];
            self.remove(k);
            j += 1;
            proof {
                assert(self@ == prevm.remove(k));
                assert(doomed@.take(j as int) =~= doomed@.take(prej).push(k));
                assert forall|kk: u64| #[trigger] self@.dom().contains(kk)
                    <==> old(self)@.dom().contains(kk) && !doomed@.take(j as int).contains(kk) by {
                    if doomed@.take(prej).push(k).contains(kk) && kk != k {
                        let w = choose|w: int| 0 <= w < doomed@.take(prej).push(k).len()
                            && doomed@.take(prej).push(k)[w] == kk;
                        assert(doomed@.take(prej)[w] == kk);
                        assert(doomed@.take(prej).contains(kk));
                    }
                    if doomed@.take(prej).contains(kk) {
                        let w = choose|w: int| 0 <= w < doomed@.take(prej).len()
                            && doomed@.take(prej)[w] == kk;
                        assert(doomed@.take(prej).push(k)[w] == kk);
                        assert(doomed@.take(prej).push(k).contains(kk));
                    }
                    if kk == k {
                        assert(doomed@.take(j as int)[prej] == k);
                        assert(doomed@.take(j as int).contains(kk));
                    }
                }
            }
        }
        proof {
            assert forall|k: u64| #[trigger] self@.dom().contains(k)
                <==> old(self)@.dom().contains(k) && old(self)@[k] != v by {
                assert(doomed@.take(m as int) =~= doomed@);
                if old(self)@.dom().contains(k) && old(self)@[k] == v {
                    lemma_map_of_contains(old(self).kvs(), k);
                    let jj = choose|jj: int| 0 <= jj < old(self).kvs().len()
                        && (#[trigger] old(self).kvs()[jj]).0 == k;
                    lemma_map_of_get(old(self).kvs(), jj);
                    assert(doomed@.contains(k));
                }
                if old(self)@.dom().contains(k) && old(self)@[k] != v && doomed@.contains(k) {
                    assert(old(self)@[k] == v);
                }
            }
        }
    }
}

} // verus!
