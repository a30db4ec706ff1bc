//! In-memory models of the kernel's per-entry-atomic hash maps: a set of
//! presence keys for the policy maps and an association map for the
//! container and listener maps.  Entries are held in vectors; the view of a
//! store is the mathematical `Set` or `Map` it represents.

use vstd::prelude::*;

verus! {

/// A map key that can decide its own equality.
pub trait MapKey: Sized + Copy {
    fn same_key(&self, other: &Self) -> (r: bool)
        ensures
            r <==> *self == *other,
    ;
}

/// A set of presence keys, as the kernel policy maps hold: a key's
/// membership means "allow".
pub struct KeySet<K> {
    entries: Vec<K>,
}

impl<K> View for KeySet<K> {
    type V = Set<K>;

    closed spec fn view(&self) -> Set<K> {
        self.entries@.to_set()
    }
}

impl<K: MapKey> KeySet<K> {
    /// An empty set.
    pub fn new() -> (r: KeySet<K>)
        ensures
            r@ == Set::<K>::empty(),
    {
        let r = KeySet { entries: Vec::new() };
        proof {
            assert(r.entries@.to_set() =~= Set::<K>::empty());
        }
        r
    }

    /// The stored keys, in insertion order.
    pub fn keys(&self) -> (r: &Vec<K>)
        ensures
            r@.to_set() == self@,
    {
        &self.entries
    }

    /// Membership test.
    pub fn contains(&self, k: &K) -> (r: bool)
        ensures
            r <==> self@.contains(*k),
    {
        let n = self.entries.len();
        let mut i: usize = 0;
        while i < n
            invariant
                n == self.entries@.len(),
                0 <= i <= n,
                forall|j: int| 0 <= j < i ==> self.entries@[j] != *k,
            decreases n - i,
        {
            if self.entries[i].same_key(k) {
                assert(self.entries@.contains(*k));
                return true;
            }
            i += 1;
        }
        assert(!self.entries@.contains(*k));
        false
    }

    /// Adds a key; adding a present key changes nothing.
    pub fn insert(&mut self, k: K)
        ensures
            final(self)@ == old(self)@.insert(k),
    {
        if !self.contains(&k) {
            let ghost before = self.entries@;
            self.entries.push(k);
            proof {
                lemma_push_contains(before, k);
                assert(self.entries@.to_set() =~= before.to_set().insert(k));
            }
        } else {
            proof {
                assert(self@ =~= old(self)@.insert(k));
            }
        }
    }

    /// Removes a key; removing an absent key changes nothing.
    pub fn remove(&mut self, k: &K)
        ensures
            final(self)@ == old(self)@.remove(*k),
    {
        let n = self.entries.len();
        let mut kept: Vec<K> = Vec::new();
        let mut i: usize = 0;
        while i < n
            invariant
                n == self.entries@.len(),
                0 <= i <= n,
                forall|x: K|
                    kept@.contains(x) <==> (self.entries@.take(i as int).contains(x) && x != *k),
            decreases n - i,
        {
            let e = self.entries[i];
            let ghost kept_before = kept@;
            let ghost taken = self.entries@.take(i as int);
            let keep_it = !e.same_key(k);
            if keep_it {
                kept.push(e);
            }
            proof {
                assert(self.entries@.take(i + 1) =~= taken.push(e));
                lemma_push_contains(taken, e);
                if keep_it {
                    lemma_push_contains(kept_before, e);
                }
                assert forall|x: K|
                    kept@.contains(x) <==> (self.entries@.take(i + 1).contains(x) && x
                        != *k) by {
                    assert(self.entries@.take(i + 1).contains(x) <==> (taken.contains(x) || x
                        == e));
                    if keep_it {
                        assert(kept@ == kept_before.push(e));
                        assert(kept_before.push(e).contains(x) <==> (kept_before.contains(x) || x
                            == e));
                    }
                }
            }
            i += 1;
        }
        proof {
            assert(self.entries@.take(n as int) =~= self.entries@);
        }
        self.entries = kept;
        proof {
            assert(self@ =~= old(self)@.remove(*k));
        }
    }
}

/// Index of an entry holding the given key, when one exists.
pub open spec fn entry_index<K, V>(s: Seq<(K, V)>, k: K) -> int {
    choose|i: int| 0 <= i < s.len() && s[i].0 == k
}

/// The map an association list represents.  Meaningful when keys are
/// distinct, which `AssocMap` maintains.
pub open spec fn assoc_view<K, V>(s: Seq<(K, V)>) -> Map<K, V> {
    Map::new(
        |k: K| exists|i: int| 0 <= i < s.len() && s[i].0 == k,
        |k: K| s[entry_index(s, k)].1,
    )
}

/// An association map with distinct keys, as the kernel container and
/// listener maps hold.
pub struct AssocMap<K, V> {
    entries: Vec<(K, V)>,
}

impl<K, V> View for AssocMap<K, V> {
    type V = Map<K, V>;

    closed spec fn view(&self) -> Map<K, V> {
        assoc_view(self.entries@)
    }
}

impl<K, V> AssocMap<K, V> {
    /// Keys are pairwise distinct, so each key names one entry.
    pub closed spec fn wf(&self) -> bool {
        forall|i: int, j: int|
            0 <= i < j < self.entries@.len() ==> self.entries@[i].0 != self.entries@[j].0
    }
}

impl<K: MapKey, V: Copy> AssocMap<K, V> {
    /// An empty map.
    pub fn new() -> (r: AssocMap<K, V>)
        ensures
            r@ == Map::<K, V>::empty(),
            r.wf(),
    {
        let r = AssocMap { entries: Vec::new() };
        proof {
            assert(r@ =~= Map::<K, V>::empty());
        }
        r
    }

    /// Looks a key up.
    pub fn get(&self, k: &K) -> (r: Option<&V>)
        requires
            self.wf(),
        ensures
            match r {
                Some(v) => self@.contains_key(*k) && *v == self@[*k],
                None => !self@.contains_key(*k),
            },
    {
        let n = self.entries.len();
        let mut i: usize = 0;
        while i < n
            invariant
                self.wf(),
                n == self.entries@.len(),
                0 <= i <= n,
                forall|j: int| 0 <= j < i ==> self.entries@[j].0 != *k,
            decreases n - i,
        {
            if self.entries[i].0.same_key(k) {
                proof {
                    assert(self@.contains_key(*k));
                    let m = entry_index(self.entries@, *k);
                    assert(0 <= m < self.entries@.len() && self.entries@[m].0 == *k);
                    assert(m == i);
                }
                return Some(&self.entries[i].1);
            }
            i += 1;
        }
        proof {
            assert(!self@.contains_key(*k));
        }
        None
    }

    /// Inserts or overwrites one entry.
    pub fn insert(&mut self, k: K, v: V)
        requires
            old(self).wf(),
        ensures
            final(self).wf(),
            final(self)@ == old(self)@.insert(k, v),
    {
        let n = self.entries.len();
        let mut i: usize = 0;
        while i < n
            invariant
                self.wf(),
                self.entries@ == old(self).entries@,
                n == self.entries@.len(),
                0 <= i <= n,
                forall|j: int| 0 <= j < i ==> self.entries@[j].0 != k,
            decreases n - i,
        {
            if self.entries[i].0.same_key(&k) {
                let ghost before = self.entries@;
                self.entries[i] = (k, v);
                proof {
                    lemma_assoc_update(before, self.entries@, i as int, k, v);
                }
                return ;
            }
            i += 1;
        }
        let ghost before = self.entries@;
        self.entries.push((k, v));
        proof {
            assert(self.entries@.drop_last() =~= before);
            lemma_assoc_push(before, self.entries@, k, v);
        }
    }

    /// Removes one entry; removing an absent key changes nothing.
    pub fn remove(&mut self, k: &K)
        requires
            old(self).wf(),
        ensures
            final(self).wf(),
            final(self)@ == old(self)@.remove(*k),
    {
        let n = self.entries.len();
        let mut i: usize = 0;
        while i < n
            invariant
                self.wf(),
                self.entries@ == old(self).entries@,
                n == self.entries@.len(),
                0 <= i <= n,
                forall|j: int| 0 <= j < i ==> self.entries@[j].0 != *k,
            decreases n - i,
        {
            if self.entries[i].0.same_key(k) {
                let ghost before = self.entries@;
                self.entries.remove(i);
                proof {
                    lemma_assoc_remove_at(before, self.entries@, i as int, *k);
                }
                return ;
            }
            i += 1;
        }
        proof {
            assert(!self@.contains_key(*k));
            assert(self@ =~= old(self)@.remove(*k));
        }
    }
}

/// Overwriting the entry of a present key updates the represented map at
/// that key alone.
proof fn lemma_assoc_update<K, V>(before: Seq<(K, V)>, after: Seq<(K, V)>, i: int, k: K, v: V)
    requires
        forall|a: int, b: int| 0 <= a < b < before.len() ==> before[a].0 != before[b].0,
        0 <= i < before.len(),
        before[i].0 == k,
        after == before.update(i, (k, v)),
    ensures
        assoc_view(after) == assoc_view(before).insert(k, v),
        forall|a: int, b: int| 0 <= a < b < after.len() ==> after[a].0 != after[b].0,
{
    assert forall|a: int, b: int| 0 <= a < b < after.len() implies after[a].0 != after[b].0 by {
        assert(after[a] == if a == i { (k, v) } else { before[a] });
        assert(after[b] == if b == i { (k, v) } else { before[b] });
    }
    assert forall|x: K| #[trigger]
        assoc_view(after).contains_key(x) <==> assoc_view(before).insert(k, v).contains_key(
            x,
        ) by {
        if assoc_view(after).contains_key(x) {
            let j = choose|j: int| 0 <= j < after.len() && after[j].0 == x;
            if j != i {
                assert(before[j].0 == x);
            }
        }
        if assoc_view(before).insert(k, v).contains_key(x) {
            if x == k {
                assert(after[i].0 == x);
            } else {
                let j = choose|j: int| 0 <= j < before.len() && before[j].0 == x;
                assert(after[j].0 == x);
            }
        }
    }
    assert forall|x: K| assoc_view(after).contains_key(x) implies #[trigger] assoc_view(after)[x]
        == assoc_view(before).insert(k, v)[x] by {
        let m = entry_index(after, x);
        assert(0 <= m < after.len() && after[m].0 == x);
        if x == k {
            assert(m == i);
        } else {
            assert(m != i);
            assert(before[m].0 == x);
            let mb = entry_index(before, x);
            assert(0 <= mb < before.len() && before[mb].0 == x);
            assert(mb == m);
        }
    }
    assert(assoc_view(after) =~= assoc_view(before).insert(k, v));
}

/// Appending an entry with a fresh key inserts one binding.
proof fn lemma_assoc_push<K, V>(before: Seq<(K, V)>, after: Seq<(K, V)>, k: K, v: V)
    requires
        forall|a: int, b: int| 0 <= a < b < before.len() ==> before[a].0 != before[b].0,
        forall|j: int| 0 <= j < before.len() ==> before[j].0 != k,
        after == before.push((k, v)),
    ensures
        assoc_view(after) == assoc_view(before).insert(k, v),
        forall|a: int, b: int| 0 <= a < b < after.len() ==> after[a].0 != after[b].0,
{
    assert forall|a: int, b: int| 0 <= a < b < after.len() implies after[a].0 != after[b].0 by {
        assert(after[a] == before[a]);
        assert(after[b] == if b == before.len() { (k, v) } else { before[b] });
    }
    assert forall|x: K| #[trigger]
        assoc_view(after).contains_key(x) <==> assoc_view(before).insert(k, v).contains_key(
            x,
        ) by {
        if assoc_view(after).contains_key(x) {
            let j = choose|j: int| 0 <= j < after.len() && after[j].0 == x;
            if j < before.len() {
                assert(before[j].0 == x);
            } else {
                assert(x == k);
            }
        }
        if assoc_view(before).insert(k, v).contains_key(x) {
            if x == k {
                assert(after[after.len() - 1].0 == x);
            } else {
                let j = choose|j: int| 0 <= j < before.len() && before[j].0 == x;
                assert(after[j].0 == x);
            }
        }
    }
    assert forall|x: K| assoc_view(after).contains_key(x) implies #[trigger] assoc_view(after)[x]
        == assoc_view(before).insert(k, v)[x] by {
        let m = entry_index(after, x);
        assert(0 <= m < after.len() && after[m].0 == x);
        if x == k {
            assert(m == after.len() - 1);
        } else {
            assert(m < before.len());
            assert(before[m].0 == x);
            let mb = entry_index(before, x);
            assert(0 <= mb < before.len() && before[mb].0 == x);
            assert(after[mb].0 == x);
        }
    }
    assert(assoc_view(after) =~= assoc_view(before).insert(k, v));
}

/// Removing the entry of a key deletes that binding alone.
proof fn lemma_assoc_remove_at<K, V>(before: Seq<(K, V)>, after: Seq<(K, V)>, i: int, k: K)
    requires
        forall|a: int, b: int| 0 <= a < b < before.len() ==> before[a].0 != before[b].0,
        0 <= i < before.len(),
        before[i].0 == k,
        after == before.remove(i),
    ensures
        assoc_view(after) == assoc_view(before).remove(k),
        forall|a: int, b: int| 0 <= a < b < after.len() ==> after[a].0 != after[b].0,
{
    before.remove_ensures(i);
    assert forall|a: int, b: int| 0 <= a < b < after.len() implies after[a].0 != after[b].0 by {
        assert(after[a] == if a < i {
            before[a]
        } else {
            before[a + 1]
        });
        assert(after[b] == if b < i {
            before[b]
        } else {
            before[b + 1]
        });
    }
    assert forall|x: K| #[trigger]
        assoc_view(after).contains_key(x) <==> assoc_view(before).remove(k).contains_key(x) by {
        if assoc_view(after).contains_key(x) {
            let j = choose|j: int| 0 <= j < after.len() && after[j].0 == x;
            if j < i {
                assert(before[j].0 == x);
            } else {
                assert(before[j + 1].0 == x);
            }
            assert(x != k);
        }
        if assoc_view(before).remove(k).contains_key(x) {
            let j = choose|j: int| 0 <= j < before.len() && before[j].0 == x;
            assert(j != i);
            if j < i {
                assert(after[j].0 == x);
            } else {
                assert(after[j - 1].0 == x);
            }
        }
    }
    assert forall|x: K| assoc_view(after).contains_key(x) implies #[trigger] assoc_view(after)[x]
        == assoc_view(before).remove(k)[x] by {
        let m = entry_index(after, x);
        assert(0 <= m < after.len() && after[m].0 == x);
        let mb = entry_index(before, x);
        assert(0 <= mb < before.len() && before[mb].0 == x);
        if m < i {
            assert(after[m] == before[m]);
            assert(mb == m);
        } else {
            assert(after[m] == before[m + 1]);
            assert(mb == m + 1);
        }
    }
    assert(assoc_view(after) =~= assoc_view(before).remove(k));
}

/// Membership of one element in a sequence after a push.
pub proof fn lemma_push_contains_elem<A>(s: Seq<A>, v: A, x: A)
    ensures
        s.push(v).contains(x) <==> (s.contains(x) || x == v),
{
    if s.push(v).contains(x) {
        let j = choose|j: int| 0 <= j < s.push(v).len() && #[trigger] s.push(v)[j] == x;
        if j < s.len() {
            assert(s[j] == x);
        }
    }
    if s.contains(x) {
        let j = choose|j: int| 0 <= j < s.len() && #[trigger] s[j] == x;
        assert(s.push(v)[j] == x);
    }
    assert(s.push(v)[s.len() as int] == v);
}

/// Membership in a sequence after a push.
pub proof fn lemma_push_contains<A>(s: Seq<A>, v: A)
    ensures
        forall|x: A| #![auto] s.push(v).contains(x) <==> (s.contains(x) || x == v),
{
    assert forall|x: A| #![auto] s.push(v).contains(x) <==> (s.contains(x) || x == v) by {
        if s.push(v).contains(x) {
            let j = choose|j: int| 0 <= j < s.push(v).len() && #[trigger] s.push(v)[j] == x;
            if j < s.len() {
                assert(s[j] == x);
            }
        }
        if s.contains(x) {
            let j = choose|j: int| 0 <= j < s.len() && #[trigger] s[j] == x;
            assert(s.push(v)[j] == x);
        }
        assert(s.push(v)[s.len() as int] == v);
    }
}

} // verus!
