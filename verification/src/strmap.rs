//! A map keyed by strings, kept as a vector of pairs with distinct keys.

use vstd::prelude::*;
use crate::text::str_equal;

verus! {

/// No two pairs of `p` share a key.
pub open spec fn keys_unique<V>(p: Seq<(Seq<char>, V)>) -> bool {
    forall|i: int, j: int|
        0 <= i < p.len() && 0 <= j < p.len() && i != j ==> #[trigger] p[i].0 != #[trigger] p[j].0
}

/// Some pair of `p` has the key `k`.
pub open spec fn has_key<V>(p: Seq<(Seq<char>, V)>, k: Seq<char>) -> bool {
    exists|i: int| 0 <= i < p.len() && #[trigger] p[i].0 == k
}

/// The map that the pairs `p` stand for.
pub open spec fn pairs_to_map<V>(p: Seq<(Seq<char>, V)>) -> Map<Seq<char>, V> {
    Map::new(
        |k: Seq<char>| has_key(p, k),
        |k: Seq<char>| p[choose|i: int| 0 <= i < p.len() && #[trigger] p[i].0 == k].1,
    )
}

/// Each pair of `p` is an entry of the map.
pub proof fn lemma_pairs_lookup<V>(p: Seq<(Seq<char>, V)>, i: int)
    requires
        keys_unique(p),
        0 <= i < p.len(),
    ensures
        pairs_to_map(p).contains_key(p[i].0),
        pairs_to_map(p)[p[i].0] == p[i].1,
{
    let k = p[i].0;
    assert(has_key(p, k));
    let j = choose|j: int| 0 <= j < p.len() && #[trigger] p[j].0 == k;
    assert(j == i);
}

/// Appending a pair with a new key inserts it into the map.
pub proof fn lemma_pairs_push<V>(p: Seq<(Seq<char>, V)>, k: Seq<char>, v: V)
    requires
        keys_unique(p),
        !has_key(p, k),
    ensures
        keys_unique(p.push((k, v))),
        pairs_to_map(p.push((k, v))) =~= pairs_to_map(p).insert(k, v),
{
    let q = p.push((k, v));
    assert forall|i: int, j: int|
        0 <= i < q.len() && 0 <= j < q.len() && i != j implies #[trigger] q[i].0
        != #[trigger] q[j].0 by {
        if i < p.len() && j < p.len() {
            assert(q[i] == p[i] && q[j] == p[j]);
        } else if i < p.len() {
            assert(q[i] == p[i]);
        } else {
            assert(q[j] == p[j]);
        }
    }
    assert forall|key: Seq<char>| #[trigger] has_key(q, key) == (has_key(p, key) || key == k) by {
        if has_key(p, key) {
            let i = choose|i: int| 0 <= i < p.len() && #[trigger] p[i].0 == key;
            assert(q[i] == p[i]);
        }
        if has_key(q, key) && key != k {
            let i = choose|i: int| 0 <= i < q.len() && #[trigger] q[i].0 == key;
            assert(q[i] == p[i]);
        }
        if key == k {
            assert(q[p.len() as int].0 == k);
        }
    }
    assert forall|key: Seq<char>| #[trigger] pairs_to_map(q).contains_key(key) implies pairs_to_map(
        q,
    )[key] == pairs_to_map(p).insert(k, v)[key] by {
        let j = choose|j: int| 0 <= j < q.len() && #[trigger] q[j].0 == key;
        if key == k {
            assert(q[p.len() as int].0 == k);
            assert(j == p.len());
        } else {
            assert(j < p.len());
            assert(q[j] == p[j]);
            lemma_pairs_lookup(p, j);
        }
    }
}

/// Inserting a pair with a new key at any position inserts it into the map.
pub proof fn lemma_pairs_insert<V>(p: Seq<(Seq<char>, V)>, pos: int, k: Seq<char>, v: V)
    requires
        keys_unique(p),
        !has_key(p, k),
        0 <= pos <= p.len(),
    ensures
        keys_unique(p.insert(pos, (k, v))),
        pairs_to_map(p.insert(pos, (k, v))) =~= pairs_to_map(p).insert(k, v),
{
    let q = p.insert(pos, (k, v));
    assert forall|a: int| 0 <= a < q.len() && a != pos implies #[trigger] q[a] == p[if a < pos {
        a
    } else {
        a - 1
    }] by {}
    assert(q[pos] == (k, v));
    assert forall|a: int, b: int|
        0 <= a < q.len() && 0 <= b < q.len() && a != b implies #[trigger] q[a].0
        != #[trigger] q[b].0 by {
        let a1 = if a < pos { a } else { a - 1 };
        let b1 = if b < pos { b } else { b - 1 };
        if a != pos && b != pos {
            assert(q[a] == p[a1] && q[b] == p[b1]);
        } else if a != pos {
            assert(q[a] == p[a1]);
        } else {
            assert(q[b] == p[b1]);
        }
    }
    assert forall|key: Seq<char>| #[trigger] has_key(q, key) == (has_key(p, key) || key == k) by {
        if has_key(p, key) {
            let a = choose|a: int| 0 <= a < p.len() && #[trigger] p[a].0 == key;
            let a1 = if a < pos { a } else { a + 1 };
            assert(q[a1] == p[a]);
        }
        if has_key(q, key) && key != k {
            let a = choose|a: int| 0 <= a < q.len() && #[trigger] q[a].0 == key;
            let a1 = if a < pos { a } else { a - 1 };
            assert(q[a] == p[a1]);
        }
        if key == k {
            assert(q[pos].0 == k);
        }
    }
    assert forall|key: Seq<char>| #[trigger] pairs_to_map(q).contains_key(key) implies pairs_to_map(
        q,
    )[key] == pairs_to_map(p).insert(k, v)[key] by {
        let a = choose|a: int| 0 <= a < q.len() && #[trigger] q[a].0 == key;
        if key == k {
            assert(a == pos);
        } else {
            let a1 = if a < pos { a } else { a - 1 };
            assert(q[a] == p[a1]);
            lemma_pairs_lookup(p, a1);
        }
    }
}

/// The pairs before position `i` stand for a map to which the pair at `i` adds a
/// new key.
pub proof fn lemma_pairs_take_next<V>(p: Seq<(Seq<char>, V)>, i: int)
    requires
        keys_unique(p),
        0 <= i < p.len(),
    ensures
        keys_unique(p.take(i)),
        !has_key(p.take(i), p[i].0),
        pairs_to_map(p.take(i + 1)) =~= pairs_to_map(p.take(i)).insert(p[i].0, p[i].1),
{
    let t = p.take(i);
    assert forall|a: int, b: int|
        0 <= a < t.len() && 0 <= b < t.len() && a != b implies #[trigger] t[a].0
        != #[trigger] t[b].0 by {
        assert(t[a] == p[a] && t[b] == p[b]);
    }
    if has_key(t, p[i].0) {
        let a = choose|a: int| 0 <= a < t.len() && #[trigger] t[a].0 == p[i].0;
        assert(t[a] == p[a]);
    }
    lemma_pairs_push(t, p[i].0, p[i].1);
    assert(p.take(i + 1) =~= t.push((p[i].0, p[i].1)));
}

/// Removing the pair at `i` removes its key from the map.
pub proof fn lemma_pairs_remove<V>(p: Seq<(Seq<char>, V)>, i: int)
    requires
        keys_unique(p),
        0 <= i < p.len(),
    ensures
        keys_unique(p.remove(i)),
        pairs_to_map(p.remove(i)) =~= pairs_to_map(p).remove(p[i].0),
{
    let q = p.remove(i);
    let k = p[i].0;
    assert forall|a: int| 0 <= a < q.len() implies #[trigger] q[a] == p[if a < i {
        a
    } else {
        a + 1
    }] by {}
    assert forall|a: int, b: int|
        0 <= a < q.len() && 0 <= b < q.len() && a != b implies #[trigger] q[a].0
        != #[trigger] q[b].0 by {
        let a1 = if a < i { a } else { a + 1 };
        let b1 = if b < i { b } else { b + 1 };
        assert(q[a] == p[a1] && q[b] == p[b1]);
    }
    assert forall|key: Seq<char>| #[trigger] has_key(q, key) == (has_key(p, key) && key != k) by {
        if has_key(q, key) {
            let a = choose|a: int| 0 <= a < q.len() && #[trigger] q[a].0 == key;
            let a1 = if a < i { a } else { a + 1 };
            assert(q[a] == p[a1]);
            assert(p[a1].0 == key);
        }
        if has_key(p, key) && key != k {
            let a = choose|a: int| 0 <= a < p.len() && #[trigger] p[a].0 == key;
            assert(a != i);
            let a1 = if a < i { a } else { a - 1 };
            assert(q[a1] == p[a]);
        }
    }
    assert forall|key: Seq<char>| #[trigger] pairs_to_map(q).contains_key(key) implies pairs_to_map(
        q,
    )[key] == pairs_to_map(p)[key] by {
        let a = choose|a: int| 0 <= a < q.len() && #[trigger] q[a].0 == key;
        let a1 = if a < i { a } else { a + 1 };
        assert(q[a] == p[a1]);
        lemma_pairs_lookup(p, a1);
    }
}

/// A map from strings to `V`: a vector of `(key, value)` pairs in which no key
/// occurs twice.
pub struct StrMap<V> {
    entries: Vec<(String, V)>,
}

impl<V> View for StrMap<V> {
    type V = Map<Seq<char>, V>;

    open spec fn view(&self) -> Map<Seq<char>, V> {
        pairs_to_map(self.pairs())
    }
}

impl<V> StrMap<V> {
    /// The entries in the order they are kept, keys taken by their text.
    pub closed spec fn pairs(&self) -> Seq<(Seq<char>, V)> {
        self.entries@.map_values(|e: (String, V)| (e.0@, e.1))
    }

    /// The keys are distinct.
    pub open spec fn wf(&self) -> bool {
        keys_unique(self.pairs())
    }

    /// Each kept entry is an entry of the map, and there are no others.
    pub proof fn lemma_pairs_are_entries(&self)
        requires
            self.wf(),
        ensures
            forall|i: int|
                0 <= i < self.pairs().len() ==> self@.contains_key(#[trigger] self.pairs()[i].0)
                    && self@[self.pairs()[i].0] == self.pairs()[i].1,
            forall|k: Seq<char>|
                #[trigger] self@.contains_key(k) ==> exists|i: int|
                    0 <= i < self.pairs().len() && #[trigger] self.pairs()[i].0 == k,
            self@.dom().finite(),
            self@.dom().len() == self.pairs().len(),
    {
        assert forall|i: int| 0 <= i < self.pairs().len() implies self@.contains_key(
            #[trigger] self.pairs()[i].0,
        ) && self@[self.pairs()[i].0] == self.pairs()[i].1 by {
            lemma_pairs_lookup(self.pairs(), i);
        }
        lemma_dom_len(self.pairs());
    }

    /// All the pairs stand for the whole map.
    pub proof fn lemma_all_pairs(&self)
        ensures
            pairs_to_map(self.pairs().take(self.pairs().len() as int)) == self@,
    {
        assert(self.pairs().take(self.pairs().len() as int) =~= self.pairs());
    }

    /// The empty map.
    pub fn new() -> (r: Self)
        ensures
            r.wf(),
            r@ == Map::<Seq<char>, V>::empty(),
            r.pairs().len() == 0,
    {
        let r = StrMap { entries: Vec::new() };
        assert(r@ =~= Map::<Seq<char>, V>::empty());
        r
    }

    /// The number of entries.
    pub fn len(&self) -> (r: usize)
        ensures
            r == self.pairs().len(),
    {
        self.entries.len()
    }

    /// Whether the map has no entry.
    pub fn is_empty(&self) -> (r: bool)
        requires
            self.wf(),
        ensures
            r == (self@.dom() == Set::<Seq<char>>::empty()),
            r == (self.pairs().len() == 0),
    {
        proof {
            if self.pairs().len() > 0 {
                lemma_pairs_lookup(self.pairs(), 0);
                assert(self@.dom().contains(self.pairs()[0].0));
            } else {
                assert(self@.dom() =~= Set::<Seq<char>>::empty());
            }
        }
        self.entries.len() == 0
    }

    /// The key of the `i`-th kept entry.
    pub fn key_at(&self, i: usize) -> (r: &String)
        requires
            i < self.pairs().len(),
        ensures
            r@ == self.pairs()[i as int].0,
    {
        &self.entries[i].0
    }

    /// The value of the `i`-th kept entry.
    pub fn value_at(&self, i: usize) -> (r: &V)
        requires
            i < self.pairs().len(),
        ensures
            *r == self.pairs()[i as int].1,
    {
        &self.entries[i].1
    }

    /// The position of the entry for `k`, if there is one.
    fn index_of(&self, k: &str) -> (r: Option<usize>)
        requires
            self.wf(),
        ensures
            match r {
                Some(i) => i < self.pairs().len() && self.pairs()[i as int].0 == k@,
                None => !self@.contains_key(k@),
            },
    {
        let n = self.entries.len();
        let mut i: usize = 0;
        while i < n
            invariant
                i <= n,
                n == self.pairs().len(),
                forall|j: int| 0 <= j < i ==> #[trigger] self.pairs()[j].0 != k@,
            decreases n - i,
        {
            if str_equal(self.entries[i].0.as_str(), k) {
                return Some(i);
            }
            i = i + 1;
        }
        None
    }

    /// Whether `k` has an entry.
    pub fn contains_key(&self, k: &str) -> (r: bool)
        requires
            self.wf(),
        ensures
            r == self@.contains_key(k@),
    {
        match self.index_of(k) {
            Some(i) => {
                proof {
                    lemma_pairs_lookup(self.pairs(), i as int);
                }
                true
            },
            None => false,
        }
    }

    /// The value for `k`, if any.
    pub fn get(&self, k: &str) -> (r: Option<&V>)
        requires
            self.wf(),
        ensures
            match r {
                Some(v) => self@.contains_key(k@) && *v == self@[k@],
                None => !self@.contains_key(k@),
            },
    {
        match self.index_of(k) {
            Some(i) => {
                proof {
                    lemma_pairs_lookup(self.pairs(), i as int);
                }
                Some(&self.entries[i].1)
            },
            None => None,
        }
    }

    /// Removes the entry for `k` and returns its value, if there was one.
    pub fn remove(&mut self, k: &str) -> (r: Option<V>)
        requires
            old(self).wf(),
        ensures
            final(self).wf(),
            final(self)@ == old(self)@.remove(k@),
            match r {
                Some(v) => old(self)@.contains_key(k@) && v == old(self)@[k@],
                None => !old(self)@.contains_key(k@),
            },
    {
        match self.index_of(k) {
            Some(i) => {
                proof {
                    lemma_pairs_lookup(self.pairs(), i as int);
                    lemma_pairs_remove(self.pairs(), i as int);
                }
                let ghost before = self.pairs();
                let (_, v) = self.entries.remove(i);
                assert(self.pairs() =~= before.remove(i as int));
                Some(v)
            },
            None => {
                assert(self@ =~= self@.remove(k@));
                None
            },
        }
    }

    /// Sets the value for `k` to `v`, replacing any value it had.
    pub fn insert(&mut self, k: String, v: V)
        requires
            old(self).wf(),
        ensures
            final(self).wf(),
            final(self)@ == old(self)@.insert(k@, v),
    {
        let _ = self.remove(k.as_str());
        let ghost before = self.pairs();
        assert(!self@.contains_key(k@));
        assert(!has_key(before, k@));
        proof {
            lemma_pairs_push(before, k@, v);
        }
        self.entries.push((k, v));
        assert(self.pairs() =~= before.push((k@, v)));
        assert(self@ =~= old(self)@.insert(k@, v));
    }
}

/// The map of pairs with distinct keys has as many entries as there are pairs.
proof fn lemma_dom_len<V>(p: Seq<(Seq<char>, V)>)
    requires
        keys_unique(p),
    ensures
        pairs_to_map(p).dom().finite(),
        pairs_to_map(p).dom().len() == p.len(),
    decreases p.len(),
{
    if p.len() == 0 {
        assert(pairs_to_map(p).dom() =~= Set::<Seq<char>>::empty());
    } else {
        let q = p.drop_last();
        let last = p.last();
        assert(keys_unique(q)) by {
            assert forall|i: int, j: int|
                0 <= i < q.len() && 0 <= j < q.len() && i != j implies #[trigger] q[i].0
                != #[trigger] q[j].0 by {
                assert(q[i] == p[i] && q[j] == p[j]);
            }
        }
        assert(!has_key(q, last.0)) by {
            if has_key(q, last.0) {
                let i = choose|i: int| 0 <= i < q.len() && #[trigger] q[i].0 == last.0;
                assert(q[i] == p[i]);
                assert(p[i].0 == p[p.len() - 1].0);
            }
        }
        lemma_dom_len(q);
        lemma_pairs_push(q, last.0, last.1);
        assert(q.push((last.0, last.1)) =~= p);
    }
}

} // verus!
