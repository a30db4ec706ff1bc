//! Transactional policy reload: the difference between the current key
//! set and a newly compiled one is applied as insertions first, removals
//! second, so that a flow allowed before and after the change is allowed
//! at every instant in between.

use vstd::prelude::*;

use crate::classify::flow_allowed;
use crate::maps::PolicyKey;
use crate::search::key_matches;
use crate::store::{lemma_push_contains_elem, KeySet, MapKey};

verus! {

/// One single-entry atomic operation on a presence-key map.
#[derive(Debug, Clone, Copy)]
pub enum MapOp<K> {
    Insert(K),
    Remove(K),
}

/// The key set after one operation.
pub open spec fn apply_op<K>(s: Set<K>, op: MapOp<K>) -> Set<K> {
    match op {
        MapOp::Insert(k) => s.insert(k),
        MapOp::Remove(k) => s.remove(k),
    }
}

/// The key set after a sequence of operations.
pub open spec fn apply_ops<K>(s: Set<K>, ops: Seq<MapOp<K>>) -> Set<K>
    decreases ops.len(),
{
    if ops.len() == 0 {
        s
    } else {
        apply_op(apply_ops(s, ops.drop_last()), ops.last())
    }
}

/// A well-formed reload plan from `initial` to `target`: the first `n`
/// operations are exactly the missing insertions, the rest remove only
/// keys outside the target, and every needed insertion appears.
pub open spec fn reload_plan_ok<K>(
    initial: Set<K>,
    target: Set<K>,
    ops: Seq<MapOp<K>>,
    n: int,
) -> bool {
    &&& 0 <= n <= ops.len()
    &&& forall|m: int| 0 <= m < n ==> (#[trigger] ops[m]) is Insert
    &&& forall|m: int|
        n <= m < ops.len() ==> ((#[trigger] ops[m]) is Remove && !target.contains(ops[m]->Remove_0)
            && initial.contains(ops[m]->Remove_0))
    &&& forall|k: K|
        target.contains(k) && !initial.contains(k) ==> exists|m: int|
            0 <= m < n && #[trigger] ops[m] == MapOp::Insert(k)
    &&& forall|m: int| 0 <= m < n ==> target.contains((#[trigger] ops[m])->Insert_0)
    &&& forall|k: K|
        initial.contains(k) && !target.contains(k) ==> exists|m: int|
            n <= m < ops.len() && #[trigger] ops[m] == MapOp::Remove(k)
}

/// Computes the reload plan: insert the compiled keys the map lacks,
/// then remove the keys the new document no longer emits.
pub fn plan_reload<K: MapKey>(current: &KeySet<K>, target: &Vec<K>) -> (r: (
    Vec<MapOp<K>>,
    usize,
))
    ensures
        r.1 <= r.0@.len(),
        reload_plan_ok(current@, target@.to_set(), r.0@, r.1 as int),
{
    let mut ops: Vec<MapOp<K>> = Vec::new();
    let nt = target.len();
    let mut i: usize = 0;
    while i < nt
        invariant
            nt == target@.len(),
            0 <= i <= nt,
            forall|m: int| 0 <= m < ops@.len() ==> (#[trigger] ops@[m]) is Insert,
            forall|m: int|
                0 <= m < ops@.len() ==> target@.to_set().contains((#[trigger] ops@[m])->Insert_0)
                    && !current@.contains(ops@[m]->Insert_0),
            forall|k: K|
                target@.take(i as int).contains(k) && !current@.contains(k) ==> exists|m: int|
                    0 <= m < ops@.len() && #[trigger] ops@[m] == MapOp::Insert(k),
        decreases nt - i,
    {
        let k = target[i];
        let ghost before = ops@;
        if !current.contains(&k) {
            ops.push(MapOp::Insert(k));
        }
        proof {
            assert(target@.take(i + 1).drop_last() =~= target@.take(i as int));
            assert(target@.take(i + 1).last() == target@[i as int]);
            assert(target@.contains(target@[i as int]));
            assert forall|k2: K|
                target@.take(i + 1).contains(k2) && !current@.contains(k2) implies exists|m: int|
                0 <= m < ops@.len() && #[trigger] ops@[m] == MapOp::Insert(k2) by {
                lemma_push_contains_elem(target@.take(i as int), target@[i as int], k2);
                if target@.take(i as int).contains(k2) {
                    let m = choose|m: int|
                        0 <= m < before.len() && #[trigger] before[m] == MapOp::Insert(k2);
                    assert(ops@[m] == MapOp::Insert(k2));
                } else {
                    assert(k2 == target@[i as int]);
                    assert(ops@[ops@.len() - 1] == MapOp::Insert(k2));
                }
            }
        }
        i += 1;
    }
    let n = ops.len();
    proof {
        assert(target@.take(nt as int) =~= target@);
    }
    let stored = current.keys();
    let ns = stored.len();
    let ghost insert_ops = ops@;
    let mut j: usize = 0;
    while j < ns
        invariant
            n as int == insert_ops.len(),
            ns == stored@.len(),
            stored@.to_set() == current@,
            nt == target@.len(),
            0 <= j <= ns,
            insert_ops.len() <= ops@.len(),
            ops@.take(n as int) == insert_ops,
            forall|m: int|
                n <= m < ops@.len() ==> ((#[trigger] ops@[m]) is Remove && !target@.to_set()
                    .contains(ops@[m]->Remove_0) && current@.contains(ops@[m]->Remove_0)),
            forall|k: K|
                stored@.take(j as int).contains(k) && !target@.to_set().contains(k) ==> exists|
                    m: int,
                |
                    n <= m < ops@.len() && #[trigger] ops@[m] == MapOp::Remove(k),
        decreases ns - j,
    {
        let k = stored[j];
        let ghost before = ops@;
        let mut found = false;
        let mut t: usize = 0;
        while t < nt
            invariant
                nt == target@.len(),
                0 <= t <= nt,
                found <==> exists|b: int| 0 <= b < t && #[trigger] target@[b] == k,
            decreases nt - t,
        {
            if target[t].same_key(&k) {
                found = true;
            }
            t += 1;
        }
        if !found {
            proof {
                assert(!target@.contains(k));
            }
            ops.push(MapOp::Remove(k));
            proof {
                assert(stored@.contains(k));
                assert(ops@.take(n as int) =~= insert_ops);
            }
        } else {
            proof {
                let b = choose|b: int| 0 <= b < nt && #[trigger] target@[b] == k;
                assert(target@.contains(k));
            }
        }
        proof {
            assert(stored@.take(j + 1).drop_last() =~= stored@.take(j as int));
            assert(stored@.take(j + 1).last() == stored@[j as int]);
            assert forall|k2: K|
                stored@.take(j + 1).contains(k2) && !target@.to_set().contains(k2) implies exists|
                m: int,
            |
                n <= m < ops@.len() && #[trigger] ops@[m] == MapOp::Remove(k2) by {
                lemma_push_contains_elem(stored@.take(j as int), stored@[j as int], k2);
                if stored@.take(j as int).contains(k2) {
                    let m = choose|m: int|
                        n <= m < before.len() && #[trigger] before[m] == MapOp::Remove(k2);
                    assert(ops@[m] == MapOp::Remove(k2));
                } else {
                    assert(k2 == stored@[j as int]);
                    assert(!target@.contains(k2));
                    assert(ops@[ops@.len() - 1] == MapOp::Remove(k2));
                }
            }
        }
        j += 1;
    }
    proof {
        assert(stored@.take(ns as int) =~= stored@);
        assert forall|m: int| 0 <= m < n implies (#[trigger] ops@[m]) is Insert by {
            assert(ops@[m] == insert_ops[m]);
        }
        assert forall|m: int| 0 <= m < n implies target@.to_set().contains(
            (#[trigger] ops@[m])->Insert_0,
        ) by {
            assert(ops@[m] == insert_ops[m]);
        }
        assert forall|k: K|
            target@.to_set().contains(k) && !current@.contains(k) implies exists|m: int|
            0 <= m < n && #[trigger] ops@[m] == MapOp::Insert(k) by {
            let m = choose|m: int|
                0 <= m < insert_ops.len() && #[trigger] insert_ops[m] == MapOp::Insert(k);
            assert(ops@[m] == MapOp::Insert(k));
        }
    }
    (ops, n)
}

/// Applies one operation to a live presence-key map.
pub fn apply_one<K: MapKey>(map: &mut KeySet<K>, op: &MapOp<K>)
    ensures
        final(map)@ == apply_op(old(map)@, *op),
{
    match op {
        MapOp::Insert(k) => map.insert(*k),
        MapOp::Remove(k) => map.remove(k),
    }
}

/// Applies a whole plan, in order.
pub fn apply_all<K: MapKey>(map: &mut KeySet<K>, ops: &Vec<MapOp<K>>)
    ensures
        final(map)@ == apply_ops(old(map)@, ops@),
{
    let n = ops.len();
    let mut i: usize = 0;
    while i < n
        invariant
            n == ops@.len(),
            0 <= i <= n,
            map@ == apply_ops(old(map)@, ops@.take(i as int)),
        decreases n - i,
    {
        apply_one(map, &ops[i]);
        proof {
            assert(ops@.take(i + 1).drop_last() =~= ops@.take(i as int));
            assert(ops@.take(i + 1).last() == ops@[i as int]);
        }
        i += 1;
    }
    proof {
        assert(ops@.take(n as int) =~= ops@);
    }
}

/// A full reload of the policy map: applying a well-formed plan ends in
/// exactly the target set.
pub proof fn lemma_reload_reaches_target<K>(
    initial: Set<K>,
    target: Set<K>,
    ops: Seq<MapOp<K>>,
    n: int,
)
    requires
        reload_plan_ok(initial, target, ops, n),
    ensures
        apply_ops(initial, ops) =~= target,
{
    let len = ops.len() as int;
    assert(ops.take(len) =~= ops);
    lemma_insert_phase(initial, ops, n);
    lemma_remove_phase(initial, target, ops, n, len);
    lemma_target_held(initial, target, ops, n, len);
    let s = apply_ops(initial, ops.take(len));
    assert forall|k: K| s.contains(k) implies target.contains(k) by {
        assert(apply_ops(initial, ops.take(n)).contains(k));
        if !initial.contains(k) {
            let a = choose|a: int| #![auto] 0 <= a < n && ops[a] == MapOp::Insert(k);
            assert(target.contains(ops[a]->Insert_0));
        } else {
            if !target.contains(k) {
                let a = choose|a: int| n <= a < ops.len() && #[trigger] ops[a] == MapOp::Remove(k);
                assert(exists|b: int| #![auto] n <= b < len && ops[b] == MapOp::Remove(k));
                assert(false);
            }
        }
    }
}

/// During the insert phase the state is the initial set plus the keys
/// inserted so far.
proof fn lemma_insert_phase<K>(initial: Set<K>, ops: Seq<MapOp<K>>, m: int)
    requires
        0 <= m <= ops.len(),
        forall|a: int| 0 <= a < m ==> (#[trigger] ops[a]) is Insert,
    ensures
        forall|k: K|
            #![trigger apply_ops(initial, ops.take(m)).contains(k)]
            apply_ops(initial, ops.take(m)).contains(k) <==> (initial.contains(k) || exists|a: int|
                0 <= a < m && ops[a] == MapOp::Insert(k)),
    decreases m,
{
    if m > 0 {
        lemma_insert_phase(initial, ops, m - 1);
        assert(ops.take(m).drop_last() =~= ops.take(m - 1));
        assert(ops.take(m).last() == ops[m - 1]);
        let v = ops[m - 1]->Insert_0;
        assert(ops[m - 1] == MapOp::Insert(v));
        assert(apply_ops(initial, ops.take(m)) == apply_ops(initial, ops.take(m - 1)).insert(v));
        assert forall|k: K|
            #![trigger apply_ops(initial, ops.take(m)).contains(k)]
            apply_ops(initial, ops.take(m)).contains(k) <==> (initial.contains(k) || exists|a: int|
                0 <= a < m && ops[a] == MapOp::Insert(k)) by {
            if apply_ops(initial, ops.take(m)).contains(k) {
                if k == v {
                    assert(0 <= m - 1 < m && ops[m - 1] == MapOp::Insert(k));
                } else {
                    assert(apply_ops(initial, ops.take(m - 1)).contains(k));
                    if !initial.contains(k) {
                        let a = choose|a: int|
                            #![auto]
                            0 <= a < m - 1 && ops[a] == MapOp::Insert(k);
                        assert(0 <= a < m && ops[a] == MapOp::Insert(k));
                    }
                }
            }
            if initial.contains(k) {
                assert(apply_ops(initial, ops.take(m - 1)).contains(k));
            }
            if exists|a: int| #![auto] 0 <= a < m && ops[a] == MapOp::Insert(k) {
                let a = choose|a: int| #![auto] 0 <= a < m && ops[a] == MapOp::Insert(k);
                if a < m - 1 {
                    assert(exists|b: int| #![auto] 0 <= b < m - 1 && ops[b] == MapOp::Insert(k));
                    assert(apply_ops(initial, ops.take(m - 1)).contains(k));
                } else {
                    assert(k == v);
                }
            }
        }
    } else {
        assert(ops.take(0) =~= Seq::<MapOp<K>>::empty());
        assert(apply_ops(initial, ops.take(0)) == initial);
        assert forall|k: K|
            #![trigger apply_ops(initial, ops.take(0)).contains(k)]
            apply_ops(initial, ops.take(0)).contains(k) <==> (initial.contains(k) || exists|a: int|
                0 <= a < 0 && ops[a] == MapOp::Insert(k)) by {
            if exists|a: int| #![auto] 0 <= a < 0 && ops[a] == MapOp::Insert(k) {
                assert(false);
            }
        }
    }
}

/// During the remove phase the state is the insert-phase result minus
/// the keys removed so far.
proof fn lemma_remove_phase<K>(
    initial: Set<K>,
    target: Set<K>,
    ops: Seq<MapOp<K>>,
    n: int,
    m: int,
)
    requires
        reload_plan_ok(initial, target, ops, n),
        n <= m <= ops.len(),
    ensures
        forall|k: K|
            #![trigger apply_ops(initial, ops.take(m)).contains(k)]
            apply_ops(initial, ops.take(m)).contains(k) <==> (apply_ops(
                initial,
                ops.take(n),
            ).contains(k) && !(exists|a: int| n <= a < m && ops[a] == MapOp::Remove(k))),
    decreases m - n,
{
    if m > n {
        lemma_remove_phase(initial, target, ops, n, m - 1);
        assert(ops.take(m).drop_last() =~= ops.take(m - 1));
        assert(ops.take(m).last() == ops[m - 1]);
        let v = ops[m - 1]->Remove_0;
        assert(ops[m - 1] == MapOp::Remove(v));
        assert(apply_ops(initial, ops.take(m)) == apply_ops(initial, ops.take(m - 1)).remove(v));
        assert forall|k: K|
            #![trigger apply_ops(initial, ops.take(m)).contains(k)]
            apply_ops(initial, ops.take(m)).contains(k) <==> (apply_ops(
                initial,
                ops.take(n),
            ).contains(k) && !(exists|a: int| n <= a < m && ops[a] == MapOp::Remove(k))) by {
            if apply_ops(initial, ops.take(m)).contains(k) {
                assert(k != v);
                assert(apply_ops(initial, ops.take(m - 1)).contains(k));
                if exists|a: int| #![auto] n <= a < m && ops[a] == MapOp::Remove(k) {
                    let a = choose|a: int| #![auto] n <= a < m && ops[a] == MapOp::Remove(k);
                    if a < m - 1 {
                        assert(exists|b: int| #![auto] n <= b < m - 1 && ops[b] == MapOp::Remove(k));
                        assert(false);
                    } else {
                        assert(k == v);
                        assert(false);
                    }
                }
            }
            if apply_ops(initial, ops.take(n)).contains(k) && !(exists|a: int|
                #![auto]
                n <= a < m && ops[a] == MapOp::Remove(k)) {
                assert(!(exists|a: int| #![auto] n <= a < m - 1 && ops[a] == MapOp::Remove(k)));
                assert(apply_ops(initial, ops.take(m - 1)).contains(k));
                assert(k != v) by {
                    if k == v {
                        assert(n <= m - 1 < m && ops[m - 1] == MapOp::Remove(k));
                    }
                }
            }
        }
    }
}

/// After the insert phase the state holds every key of the target set,
/// and removals never touch one.
proof fn lemma_target_held<K>(
    initial: Set<K>,
    target: Set<K>,
    ops: Seq<MapOp<K>>,
    n: int,
    m: int,
)
    requires
        reload_plan_ok(initial, target, ops, n),
        n <= m <= ops.len(),
    ensures
        forall|k: K| target.contains(k) ==> apply_ops(initial, ops.take(m)).contains(k),
{
    lemma_insert_phase(initial, ops, n);
    lemma_remove_phase(initial, target, ops, n, m);
    assert forall|k: K| target.contains(k) implies apply_ops(
        initial,
        ops.take(m),
    ).contains(k) by {
        if !initial.contains(k) {
            let a = choose|a: int| 0 <= a < n && #[trigger] ops[a] == MapOp::Insert(k);
            assert(exists|b: int| #![auto] 0 <= b < n && ops[b] == MapOp::Insert(k));
        }
        assert(apply_ops(initial, ops.take(n)).contains(k));
        if exists|a: int| #![auto] n <= a < m && ops[a] == MapOp::Remove(k) {
            let a = choose|a: int| #![auto] n <= a < m && ops[a] == MapOp::Remove(k);
            assert(!target.contains(ops[a]->Remove_0));
            assert(false);
        }
    }
}

/// Reload is atomic for the flows it keeps: a flow allowed under both the
/// initial and the target policy is allowed after every prefix of a
/// well-formed reload plan — at no instant does it get dropped.
pub proof fn lemma_reload_atomic(
    initial: Set<PolicyKey>,
    target: Set<PolicyKey>,
    ops: Seq<MapOp<PolicyKey>>,
    n: int,
    m: int,
    flow: PolicyKey,
)
    requires
        reload_plan_ok(initial, target, ops, n),
        0 <= m <= ops.len(),
        flow_allowed(initial, flow),
        flow_allowed(target, flow),
    ensures
        flow_allowed(apply_ops(initial, ops.take(m)), flow),
{
    if m <= n {
        lemma_insert_phase(initial, ops, m);
        let rule = choose|rule: PolicyKey| #[trigger]
            initial.contains(rule) && key_matches(rule, flow);
        assert(apply_ops(initial, ops.take(m)).contains(rule));
    } else {
        lemma_target_held(initial, target, ops, n, m);
        let rule = choose|rule: PolicyKey| #[trigger]
            target.contains(rule) && key_matches(rule, flow);
        assert(apply_ops(initial, ops.take(m)).contains(rule));
    }
}

} // verus!
