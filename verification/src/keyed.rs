//! A small map keyed by row or column index, kept in ascending key order.
//!
//! The grid hands its staged edits, deletions and picked rows out in index
//! order, so they are held that way: each lookup is a scan, and listing them
//! in order costs nothing.

use vstd::prelude::*;

verus! {

/// Values keyed by an index, each key at most once, in ascending key order.
pub struct KeyedVec<V> {
    entries: Vec<(usize, V)>,
}

/// Whether the keys of `s` strictly ascend.
pub open spec fn ascending<V>(s: Seq<(usize, V)>) -> bool {
    forall|i: int, j: int| 0 <= i < j < s.len() ==> #[trigger] s[i].0 < #[trigger] s[j].0
}

/// The map the entries of `s` spell out.
pub open spec fn map_of<V>(s: Seq<(usize, V)>) -> Map<usize, V>
    decreases s.len(),
{
    if s.len() == 0 {
        Map::empty()
    } else {
        map_of(s.drop_last()).insert(s.last().0, s.last().1)
    }
}

/// Whether `k` is the key of an entry of `s`.
pub open spec fn has_key<V>(s: Seq<(usize, V)>, k: usize) -> bool {
    exists|i: int| 0 <= i < s.len() && (#[trigger] s[i]).0 == k
}

/// In ascending entries, the map holds exactly their keys, each with its own
/// value, and as many keys as there are entries.
pub proof fn lemma_map_of<V>(s: Seq<(usize, V)>)
    requires
        ascending(s),
    ensures
        forall|k: usize| #[trigger] map_of(s).contains_key(k) <==> has_key(s, k),
        forall|i: int|
            0 <= i < s.len() ==> map_of(s).contains_key(#[trigger] s[i].0) && map_of(s)[s[i].0]
                == s[i].1,
        map_of(s).dom().finite(),
        map_of(s).dom().len() == s.len(),
    decreases s.len(),
{
    if s.len() > 0 {
        let t = s.drop_last();
        assert(ascending(t)) by {
            assert forall|i: int, j: int| 0 <= i < j < t.len() implies #[trigger] t[i].0
                < #[trigger] t[j].0 by {
                assert(t[i] == s[i] && t[j] == s[j]);
            }
        }
        lemma_map_of(t);
        let last = s.last();
        assert(!map_of(t).contains_key(last.0)) by {
            if map_of(t).contains_key(last.0) {
                let i = choose|i: int| 0 <= i < t.len() && (#[trigger] t[i]).0 == last.0;
                assert(t[i] == s[i]);
                assert(s[i].0 < s[s.len() - 1].0);
            }
        }
        assert forall|k: usize| #[trigger] map_of(s).contains_key(k) <==> has_key(s, k) by {
            if map_of(s).contains_key(k) {
                if k == last.0 {
                    assert(s[s.len() - 1].0 == k);
                } else {
                    assert(map_of(t).contains_key(k));
                    let i = choose|i: int| 0 <= i < t.len() && (#[trigger] t[i]).0 == k;
                    assert(s[i] == t[i]);
                }
            }
            if has_key(s, k) {
                let i = choose|i: int| 0 <= i < s.len() && (#[trigger] s[i]).0 == k;
                if i < s.len() - 1 {
                    assert(t[i] == s[i]);
                    assert(has_key(t, k));
                }
            }
        }
        assert forall|i: int| 0 <= i < s.len() implies map_of(s).contains_key(#[trigger] s[i].0)
            && map_of(s)[s[i].0] == s[i].1 by {
            if i < s.len() - 1 {
                assert(t[i] == s[i]);
                assert(s[i].0 < s[s.len() - 1].0);
            }
        }
        assert(map_of(s).dom() =~= map_of(t).dom().insert(last.0));
    } else {
        assert(map_of(s).dom() =~= Set::<usize>::empty());
    }
}

/// Two ascending entry lists with the same keys and the same value at each
/// key spell out the same map.
proof fn lemma_same_map<V>(s: Seq<(usize, V)>, m: Map<usize, V>)
    requires
        ascending(s),
        forall|k: usize| #[trigger] m.contains_key(k) <==> has_key(s, k),
        forall|i: int| 0 <= i < s.len() ==> m.contains_key(#[trigger] s[i].0) && m[s[i].0] == s[i].1,
    ensures
        map_of(s) == m,
{
    lemma_map_of(s);
    assert forall|k: usize| #[trigger] map_of(s).contains_key(k) implies map_of(s)[k] == m[k] by {
        let i = choose|i: int| 0 <= i < s.len() && (#[trigger] s[i]).0 == k;
        assert(map_of(s)[s[i].0] == s[i].1);
    }
    assert(map_of(s) =~= m);
}

/// Putting a new value at a key already held keeps the entries in order
/// and maps the key to the new value.
proof fn lemma_replace<V>(s: Seq<(usize, V)>, p: int, k: usize, v: V)
    requires
        ascending(s),
        0 <= p < s.len(),
        s[p].0 == k,
    ensures
        ascending(s.update(p, (k, v))),
        map_of(s.update(p, (k, v))) == map_of(s).insert(k, v),
{
    lemma_map_of(s);
    let t = s.update(p, (k, v));
    let m = map_of(s).insert(k, v);
    assert forall|i: int, j: int| 0 <= i < j < t.len() implies #[trigger] t[i].0 < #[trigger] t[j].0 by {
        assert(t[i].0 == s[i].0 && t[j].0 == s[j].0);
    }
    assert forall|key: usize| #[trigger] m.contains_key(key) <==> has_key(t, key) by {
        if m.contains_key(key) && key != k {
            let i = choose|i: int| 0 <= i < s.len() && (#[trigger] s[i]).0 == key;
            assert(t[i].0 == key);
        }
        if key == k {
            assert(t[p].0 == k);
        }
        if has_key(t, key) {
            let i = choose|i: int| 0 <= i < t.len() && (#[trigger] t[i]).0 == key;
            assert(s[i].0 == key);
        }
    }
    assert forall|i: int| 0 <= i < t.len() implies m.contains_key(#[trigger] t[i].0) && m[t[i].0] == t[i].1 by {
        if i != p {
            assert(t[i] == s[i]);
            assert(s[i].0 != k);
        }
    }
    lemma_same_map(t, m);
}

/// Putting a key not held at the place where it belongs keeps the entries
/// in order and adds the key.
proof fn lemma_insert_at<V>(s: Seq<(usize, V)>, p: int, k: usize, v: V)
    requires
        ascending(s),
        0 <= p <= s.len(),
        forall|i: int| 0 <= i < p ==> #[trigger] s[i].0 < k,
        p < s.len() ==> s[p].0 > k,
    ensures
        ascending(s.insert(p, (k, v))),
        map_of(s.insert(p, (k, v))) == map_of(s).insert(k, v),
{
    lemma_map_of(s);
    let t = s.insert(p, (k, v));
    let m = map_of(s).insert(k, v);
    assert forall|i: int, j: int| 0 <= i < j < t.len() implies #[trigger] t[i].0 < #[trigger] t[j].0 by {
        if j < p {
            assert(t[i] == s[i] && t[j] == s[j]);
        } else if j == p {
            assert(t[i] == s[i]);
        } else if i < p {
            assert(t[i] == s[i] && t[j] == s[j - 1]);
            if j - 1 > p {
                assert(s[p].0 < s[j - 1].0);
            }
        } else if i == p {
            assert(t[j] == s[j - 1]);
            if j - 1 > p {
                assert(s[p].0 < s[j - 1].0);
            }
        } else {
            assert(t[i] == s[i - 1] && t[j] == s[j - 1]);
        }
    }
    assert forall|key: usize| #[trigger] m.contains_key(key) <==> has_key(t, key) by {
        if m.contains_key(key) {
            if key == k {
                assert(t[p].0 == k);
            } else {
                let i = choose|i: int| 0 <= i < s.len() && (#[trigger] s[i]).0 == key;
                if i < p {
                    assert(t[i] == s[i]);
                } else {
                    assert(t[i + 1] == s[i]);
                }
            }
        }
        if has_key(t, key) {
            let i = choose|i: int| 0 <= i < t.len() && (#[trigger] t[i]).0 == key;
            if i < p {
                assert(t[i] == s[i]);
                assert(has_key(s, key));
            } else if i > p {
                assert(t[i] == s[i - 1]);
                assert(has_key(s, key));
            }
        }
    }
    assert forall|i: int| 0 <= i < t.len() implies m.contains_key(#[trigger] t[i].0) && m[t[i].0] == t[i].1 by {
        if i < p {
            assert(t[i] == s[i]);
        } else if i > p {
            assert(t[i] == s[i - 1]);
            if i - 1 > p {
                assert(s[p].0 < s[i - 1].0);
            }
            assert(s[i - 1].0 > k);
        }
    }
    lemma_same_map(t, m);
}

impl<V> View for KeyedVec<V> {
    type V = Map<usize, V>;

    closed spec fn view(&self) -> Map<usize, V> {
        map_of(self.entries@)
    }
}

impl<V> KeyedVec<V> {
    /// Whether the entries are held in strictly ascending key order.
    pub closed spec fn wf(&self) -> bool {
        ascending(self.entries@)
    }

    /// The entries in ascending key order.
    pub closed spec fn items(&self) -> Seq<(usize, V)> {
        self.entries@
    }

    /// The entries, in ascending key order, are the map's own.
    pub proof fn lemma_items(&self)
        requires
            self.wf(),
        ensures
            ascending(self.items()),
            forall|k: usize| #[trigger] self@.contains_key(k) <==> has_key(self.items(), k),
            forall|i: int|
                0 <= i < self.items().len() ==> self@.contains_key(#[trigger] self.items()[i].0)
                    && self@[self.items()[i].0] == self.items()[i].1,
            self@.dom().finite(),
            self@.dom().len() == self.items().len(),
    {
        lemma_map_of(self.entries@);
    }

    /// An empty map.
    pub fn new() -> (r: Self)
        ensures
            r.wf(),
            r@ == Map::<usize, V>::empty(),
            r.items().len() == 0,
    {
        KeyedVec { entries: Vec::new() }
    }

    /// The entries, in ascending key order.
    pub fn entries(&self) -> (r: &Vec<(usize, V)>)
        ensures
            r@ == self.items(),
    {
        &self.entries
    }

    /// How many keys the map holds.
    pub fn len(&self) -> (r: usize)
        requires
            self.wf(),
        ensures
            r == self@.dom().len(),
    {
        proof {
            lemma_map_of(self.entries@);
        }
        self.entries.len()
    }

    /// Whether the map holds no key.
    pub fn is_empty(&self) -> (r: bool)
        requires
            self.wf(),
        ensures
            r == (self@.dom().len() == 0),
    {
        self.len() == 0
    }

    /// Where `k` is, or would go: the first entry whose key is not below it.
    fn position(&self, k: usize) -> (p: usize)
        requires
            self.wf(),
        ensures
            p <= self.entries@.len(),
            forall|i: int| 0 <= i < p ==> #[trigger] self.entries@[i].0 < k,
            p < self.entries@.len() ==> self.entries@[p as int].0 >= k,
    {
        let mut p: usize = 0;
        while p < self.entries.len() && self.entries[p].0 < k
            invariant
                p <= self.entries@.len(),
                forall|i: int| 0 <= i < p ==> #[trigger] self.entries@[i].0 < k,
            decreases self.entries@.len() - p,
        {
            p = p + 1;
        }
        p
    }

    /// The value held at `k`, if any.
    pub fn get(&self, k: usize) -> (r: Option<&V>)
        requires
            self.wf(),
        ensures
            match r {
                Some(v) => self@.contains_key(k) && *v == self@[k],
                None => !self@.contains_key(k),
            },
    {
        proof {
            lemma_map_of(self.entries@);
        }
        let p = self.position(k);
        if p < self.entries.len() && self.entries[p].0 == k {
            Some(&self.entries[p].1)
        } else {
            proof {
                if has_key(self.entries@, k) {
                    let i = choose|i: int|
                        0 <= i < self.entries@.len() && (#[trigger] self.entries@[i]).0 == k;
                    if i > p {
                        assert(self.entries@[p as int].0 < self.entries@[i].0);
                    }
                }
            }
            None
        }
    }

    /// Whether the map holds `k`.
    pub fn contains_key(&self, k: usize) -> (r: bool)
        requires
            self.wf(),
        ensures
            r == self@.contains_key(k),
    {
        self.get(k).is_some()
    }

    /// Put `v` at `k`, replacing what was there.
    pub fn insert(&mut self, k: usize, v: V)
        requires
            old(self).wf(),
        ensures
            final(self).wf(),
            final(self)@ == old(self)@.insert(k, v),
    {
        let ghost s = self.entries@;
        let p = self.position(k);
        if p < self.entries.len() && self.entries[p].0 == k {
            self.entries.remove(p);
            self.entries.insert(p, (k, v));
            proof {
                assert(self.entries@ =~= s.update(p as int, (k, v)));
                lemma_replace(s, p as int, k, v);
            }
        } else {
            self.entries.insert(p, (k, v));
            proof {
                lemma_insert_at(s, p as int, k, v);
            }
        }
    }

    /// Take `k` out, handing back what it held.
    pub fn remove(&mut self, k: usize) -> (r: Option<V>)
        requires
            old(self).wf(),
        ensures
            final(self).wf(),
            final(self)@ == old(self)@.remove(k),
            match r {
                Some(v) => old(self)@.contains_key(k) && v == old(self)@[k],
                None => !old(self)@.contains_key(k),
            },
    {
        let ghost s = self.entries@;
        proof {
            lemma_map_of(s);
        }
        let p = self.position(k);
        if p < self.entries.len() && self.entries[p].0 == k {
            let (_, v) = self.entries.remove(p);
            let ghost t = self.entries@;
            let ghost m = map_of(s).remove(k);
            assert(ascending(t)) by {
                assert forall|i: int, j: int| 0 <= i < j < t.len() implies #[trigger] t[i].0
                    < #[trigger] t[j].0 by {
                    if j < p {
                        assert(t[i] == s[i] && t[j] == s[j]);
                    } else if i < p {
                        assert(t[i] == s[i] && t[j] == s[j + 1]);
                    } else {
                        assert(t[i] == s[i + 1] && t[j] == s[j + 1]);
                    }
                }
            }
            assert forall|key: usize| #[trigger] m.contains_key(key) <==> has_key(t, key) by {
                if m.contains_key(key) {
                    let i = choose|i: int| 0 <= i < s.len() && (#[trigger] s[i]).0 == key;
                    assert(i != p);
                    if i < p {
                        assert(t[i] == s[i]);
                    } else {
                        assert(t[i - 1] == s[i]);
                    }
                }
                if has_key(t, key) {
                    let i = choose|i: int| 0 <= i < t.len() && (#[trigger] t[i]).0 == key;
                    if i < p {
                        assert(t[i] == s[i]);
                        assert(s[i].0 < s[p as int].0);
                    } else {
                        assert(t[i] == s[i + 1]);
                        assert(s[p as int].0 < s[i + 1].0);
                    }
                    assert(has_key(s, key));
                }
            }
            assert forall|i: int| 0 <= i < t.len() implies m.contains_key(#[trigger] t[i].0)
                && m[t[i].0] == t[i].1 by {
                if i < p {
                    assert(t[i] == s[i]);
                    assert(s[i].0 < s[p as int].0);
                } else {
                    assert(t[i] == s[i + 1]);
                    assert(s[p as int].0 < s[i + 1].0);
                }
            }
            proof {
                lemma_same_map(t, m);
            }
            Some(v)
        } else {
            proof {
                if has_key(s, k) {
                    let i = choose|i: int| 0 <= i < s.len() && (#[trigger] s[i]).0 == k;
                    if i > p {
                        assert(s[p as int].0 < s[i].0);
                    }
                }
                assert(map_of(s).remove(k) =~= map_of(s));
            }
            None
        }
    }

    /// Put `v` at `k`, a key above every key held: it goes last.
    pub fn push_back(&mut self, k: usize, v: V)
        requires
            old(self).wf(),
            forall|i: int| 0 <= i < old(self).items().len() ==> #[trigger] old(self).items()[i].0 < k,
        ensures
            final(self).wf(),
            final(self).items() == old(self).items().push((k, v)),
            final(self)@ == old(self)@.insert(k, v),
    {
        let ghost s = self.entries@;
        self.entries.push((k, v));
        assert(self.entries@.drop_last() =~= s);
        assert(ascending(self.entries@)) by {
            assert forall|i: int, j: int| 0 <= i < j < self.entries@.len() implies #[trigger] self.entries@[i].0
                < #[trigger] self.entries@[j].0 by {
                if j < s.len() {
                    assert(self.entries@[i] == s[i] && self.entries@[j] == s[j]);
                } else {
                    assert(self.entries@[i] == s[i]);
                    assert(old(self).items()[i] == s[i]);
                    assert(self.entries@[j] == (k, v));
                }
            }
        }
    }

    /// Forget every key.
    pub fn clear(&mut self)
        ensures
            final(self).wf(),
            final(self)@ == Map::<usize, V>::empty(),
    {
        self.entries.clear();
    }
}

} // verus!
