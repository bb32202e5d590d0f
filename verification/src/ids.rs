//! Ordered containers keyed by worker and block ids.

use std::collections::{BTreeMap, BTreeSet};
use vstd::prelude::*;
use vstd::std_specs::cmp::OrdSpec;
use vstd::std_specs::iter::IteratorSpec;

verus! {

broadcast use vstd::std_specs::btree::group_btree_axioms;

/// A strictly increasing sequence of block ids.
pub open spec fn ascending(s: Seq<i64>) -> bool {
    forall|i: int, j: int| 0 <= i < j < s.len() ==> s[i] < s[j]
}

/// A strictly increasing sequence of worker ids.
pub open spec fn ascending_workers(s: Seq<u32>) -> bool {
    forall|i: int, j: int| 0 <= i < j < s.len() ==> s[i] < s[j]
}

/// The elements of `s` in increasing order.
pub open spec fn in_order(s: Set<i64>) -> Seq<i64> {
    choose|q: Seq<i64>| ascending(q) && q.to_set() == s
}

/// The worker ids of `s` in increasing order.
pub open spec fn workers_in_order(s: Set<u32>) -> Seq<u32> {
    choose|q: Seq<u32>| ascending_workers(q) && q.to_set() == s
}

/// A strictly increasing sequence is determined by the ids that it holds.
pub proof fn ascending_is_unique(a: Seq<i64>, b: Seq<i64>)
    requires
        ascending(a),
        ascending(b),
        a.to_set() == b.to_set(),
    ensures
        a == b,
    decreases a.len(),
{
    if a.len() == 0 {
        if b.len() > 0 {
            assert(b.to_set().contains(b[0]));
            assert(a.to_set().contains(b[0]));
        }
        assert(a =~= b);
    } else {
        assert(a.to_set().contains(a.last()));
        assert(b.to_set().contains(a.last()));
        let i = choose|i: int| 0 <= i < b.len() && b[i] == a.last();
        assert(b.to_set().contains(b.last()));
        assert(a.to_set().contains(b.last()));
        let j = choose|j: int| 0 <= j < a.len() && a[j] == b.last();
        assert(a.last() == b.last());
        let a0 = a.drop_last();
        let b0 = b.drop_last();
        assert forall|x: i64| a0.to_set().contains(x) == b0.to_set().contains(x) by {
            if a0.contains(x) {
                let k = choose|k: int| 0 <= k < a0.len() && a0[k] == x;
                assert(a[k] == x);
                assert(a.to_set().contains(x));
                assert(b.to_set().contains(x));
                let m = choose|m: int| 0 <= m < b.len() && b[m] == x;
                assert(b0[m] == x);
            }
            if b0.contains(x) {
                let k = choose|k: int| 0 <= k < b0.len() && b0[k] == x;
                assert(b[k] == x);
                assert(b.to_set().contains(x));
                assert(a.to_set().contains(x));
                let m = choose|m: int| 0 <= m < a.len() && a[m] == x;
                assert(a0[m] == x);
            }
        }
        assert(a0.to_set() =~= b0.to_set());
        ascending_is_unique(a0, b0);
        assert(a =~= a0.push(a.last()));
        assert(b =~= b0.push(b.last()));
    }
}

/// There are only so many block ids.
pub proof fn ids_are_finite(s: Set<i64>)
    ensures
        s.finite(),
{
    let range = vstd::set_lib::set_int_range(i64::MIN as int, i64::MAX + 1);
    vstd::set_lib::lemma_int_range(i64::MIN as int, i64::MAX + 1);
    let all = range.map(|x: int| x as i64);
    range.lemma_map_finite(|x: int| x as i64);
    assert forall|x: i64| s.contains(x) implies all.contains(x) by {
        assert(range.contains(x as int));
    }
    vstd::set_lib::lemma_set_subset_finite(all, s);
}

/// Every set of block ids has a listing in increasing order.
pub proof fn in_order_lists(s: Set<i64>)
    ensures
        ascending(in_order(s)),
        in_order(s).to_set() == s,
{
    ids_are_finite(s);
    finite_set_is_listed(s);
}

proof fn finite_set_is_listed(s: Set<i64>)
    requires
        s.finite(),
    ensures
        ascending(in_order(s)),
        in_order(s).to_set() == s,
    decreases s.len(),
{
    if s.len() == 0 {
        assert(Seq::<i64>::empty().to_set() =~= s);
        assert(ascending(Seq::<i64>::empty()));
    } else {
        let x = s.choose();
        let rest = s.remove(x);
        finite_set_is_listed(rest);
        let q = in_order(rest);
        let r = with_member(q, x, q.len());
        member_is_placed(q, x, q.len());
        assert(r.to_set() =~= s);
    }
}

/// The first `n` elements of an increasing sequence with `x` at its place.
spec fn with_member(q: Seq<i64>, x: i64, n: nat) -> Seq<i64>
    decreases n,
{
    if n == 0 || n > q.len() {
        seq![x]
    } else if q[n - 1] < x {
        q.take(n as int).push(x)
    } else {
        with_member(q, x, (n - 1) as nat).push(q[n - 1])
    }
}

proof fn member_is_placed(q: Seq<i64>, x: i64, n: nat)
    requires
        ascending(q),
        n <= q.len(),
        !q.contains(x),
    ensures
        ascending(with_member(q, x, n)),
        with_member(q, x, n).to_set() == q.take(n as int).to_set().insert(x),
        q.take(q.len() as int) == q,
    decreases n,
{
    assert(q.take(q.len() as int) =~= q);
    if n == 0 {
        push_extends(Seq::<i64>::empty(), x);
        assert(Seq::<i64>::empty().push(x) =~= seq![x]);
        assert(q.take(0) =~= Seq::<i64>::empty());
    } else if q[n - 1] < x {
        push_extends(q.take(n as int), x);
    } else {
        let shorter = with_member(q, x, (n - 1) as nat);
        let last = q[n - 1];
        member_is_placed(q, x, (n - 1) as nat);
        take_step(q, n - 1);
        push_extends(shorter, last);
        push_extends(q.take(n - 1), last);
        assert(q.contains(last));
        assert forall|i: int| 0 <= i < shorter.len() implies shorter[i] < last by {
            assert(shorter.to_set().contains(shorter[i]));
            if shorter[i] != x {
                let front = q.take(n - 1);
                assert(front.contains(shorter[i]));
                let j = choose|j: int| 0 <= j < front.len() && front[j] == shorter[i];
                assert(q[j] < q[n - 1]);
            }
        }
        assert(with_member(q, x, n).to_set() =~= q.take(n as int).to_set().insert(x));
    }
}

/// A strictly increasing sequence of worker ids is determined by the ids that
/// it holds.
pub proof fn ascending_workers_is_unique(a: Seq<u32>, b: Seq<u32>)
    requires
        ascending_workers(a),
        ascending_workers(b),
        a.to_set() == b.to_set(),
    ensures
        a == b,
{
    let f = |x: u32| x as i64;
    let aa = a.map_values(f);
    let bb = b.map_values(f);
    assert forall|x: i64| aa.to_set().contains(x) == bb.to_set().contains(x) by {
        if aa.contains(x) {
            let k = choose|k: int| 0 <= k < aa.len() && aa[k] == x;
            assert(a.to_set().contains(a[k]));
            assert(b.to_set().contains(a[k]));
            let m = choose|m: int| 0 <= m < b.len() && b[m] == a[k];
            assert(bb[m] == x);
        }
        if bb.contains(x) {
            let k = choose|k: int| 0 <= k < bb.len() && bb[k] == x;
            assert(b.to_set().contains(b[k]));
            assert(a.to_set().contains(b[k]));
            let m = choose|m: int| 0 <= m < a.len() && a[m] == b[k];
            assert(aa[m] == x);
        }
    }
    assert(aa.to_set() =~= bb.to_set());
    ascending_is_unique(aa, bb);
    assert(a.len() == aa.len() && b.len() == bb.len());
    assert forall|i: int| 0 <= i < a.len() implies a[i] == b[i] by {
        assert(aa[i] == bb[i]);
    }
    assert(a =~= b);
}

/// Every set of worker ids has a listing in increasing order.
pub proof fn workers_in_order_lists(s: Set<u32>)
    ensures
        ascending_workers(workers_in_order(s)),
        workers_in_order(s).to_set() == s,
{
    let wide = s.map(|x: u32| x as i64);
    in_order_lists(wide);
    let q = in_order(wide);
    let r = q.map_values(|x: i64| x as u32);
    assert forall|i: int| 0 <= i < q.len() implies s.contains(r[i]) && q[i] == r[i] by {
        assert(q.to_set().contains(q[i]));
        assert(wide.contains(q[i]));
    }
    assert forall|x: u32| r.to_set().contains(x) == s.contains(x) by {
        if s.contains(x) {
            assert(wide.contains(x as i64));
            assert(q.to_set().contains(x as i64));
            let i = choose|i: int| 0 <= i < q.len() && q[i] == x as i64;
            assert(r[i] == x);
        }
    }
    assert(r.to_set() =~= s);
    assert(ascending_workers(r));
}

/// One more element of a sequence.
pub proof fn take_step<T>(s: Seq<T>, i: int)
    requires
        0 <= i < s.len(),
    ensures
        s.take(i + 1) == s.take(i).push(s[i]),
        s.take(i + 1).drop_last() == s.take(i),
        forall|x: T| #[trigger]
            s.take(i + 1).contains(x) == (s.take(i).contains(x) || x == s[i]),
{
    let t0 = s.take(i);
    let t1 = s.take(i + 1);
    assert(t1 =~= t0.push(s[i]));
    assert(t1.drop_last() =~= t0);
    assert forall|x: T| #[trigger] t1.contains(x) == (t0.contains(x) || x == s[i]) by {
        assert(t1[i] == s[i]);
        if t0.contains(x) {
            let j = choose|j: int| 0 <= j < t0.len() && t0[j] == x;
            assert(t1[j] == x);
        }
        if t1.contains(x) && x != s[i] {
            let j = choose|j: int| 0 <= j < t1.len() && t1[j] == x;
            assert(t0[j] == x);
        }
    }
}

/// The set of a sequence with one more element.
pub proof fn push_extends<T>(s: Seq<T>, x: T)
    ensures
        s.push(x).to_set() == s.to_set().insert(x),
{
    let t = s.push(x);
    assert forall|k: T| t.contains(k) == (s.contains(k) || k == x) by {
        assert(t[s.len() as int] == x);
        if s.contains(k) {
            let j = choose|j: int| 0 <= j < s.len() && s[j] == k;
            assert(t[j] == k);
        }
    }
    assert(t.to_set() =~= s.to_set().insert(x));
}

/// One step of collecting the members of `wanted` along an ascending list:
/// what is collected is those members seen so far, in ascending order.
pub proof fn step_members(ids: Seq<u32>, i: int, wanted: Set<u32>, prev: Seq<u32>)
    requires
        0 <= i < ids.len(),
        ascending_workers(ids),
        ascending_workers(prev),
        forall|k: u32| #[trigger]
            prev.contains(k) <==> wanted.contains(k) && ids.take(i).contains(k),
    ensures
        !prev.contains(ids[i]),
        ascending_workers(prev.push(ids[i])),
        wanted.contains(ids[i]) ==> forall|k: u32| #[trigger]
            prev.push(ids[i]).contains(k) <==> wanted.contains(k) && ids.take(i + 1).contains(k),
        !wanted.contains(ids[i]) ==> forall|k: u32| #[trigger]
            prev.contains(k) <==> wanted.contains(k) && ids.take(i + 1).contains(k),
{
    let id = ids[i];
    let t0 = ids.take(i);
    let done = prev.push(id);
    take_step(ids, i);
    push_extends(prev, id);
    assert(!t0.contains(id)) by {
        if t0.contains(id) {
            let j = choose|j: int| 0 <= j < t0.len() && t0[j] == id;
            assert(ids[j] == id);
        }
    }
    assert forall|a: int, b: int| 0 <= a < b < done.len() implies done[a] < done[b] by {
        if b == prev.len() {
            assert(prev.contains(prev[a]));
            let j = choose|j: int| 0 <= j < t0.len() && t0[j] == prev[a];
            assert(ids[j] == prev[a]);
        }
    }
    assert forall|k: u32| #[trigger] done.contains(k) == (prev.contains(k) || k == id) by {
        assert(done.to_set().contains(k) == prev.to_set().insert(id).contains(k));
    }
}

/// What was collected along a whole list is exactly the wanted members.
pub proof fn all_members(ids: Seq<u32>, wanted: Set<u32>, done: Seq<u32>)
    requires
        wanted.subset_of(ids.to_set()),
        ascending_workers(done),
        forall|k: u32| #[trigger]
            done.contains(k) <==> wanted.contains(k) && ids.take(ids.len() as int).contains(k),
    ensures
        done.to_set() == wanted,
        done == workers_in_order(wanted),
{
    assert(ids.take(ids.len() as int) =~= ids);
    assert forall|k: u32| done.to_set().contains(k) == wanted.contains(k) by {
        if wanted.contains(k) {
            assert(ids.to_set().contains(k));
        }
    }
    assert(done.to_set() =~= wanted);
    ascending_workers_is_unique(done, workers_in_order(wanted));
}

/// An ordered map from worker id to a value, seen as a map to the values'
/// views.
pub struct IdMap<V> {
    entries: BTreeMap<u32, V>,
}

impl<V: View> View for IdMap<V> {
    type V = Map<u32, V::V>;

    closed spec fn view(&self) -> Map<u32, V::V> {
        self.entries@.map_values(|v: V| v@)
    }
}

impl<V: View> IdMap<V> {
    pub fn new() -> (r: Self)
        ensures
            r@ == Map::<u32, V::V>::empty(),
    {
        let r = IdMap { entries: BTreeMap::new() };
        assert(r@ =~= Map::<u32, V::V>::empty());
        r
    }

    pub fn contains_key(&self, id: u32) -> (r: bool)
        ensures
            r == self@.contains_key(id),
    {
        self.entries.contains_key(&id)
    }

    pub fn get(&self, id: u32) -> (r: Option<&V>)
        ensures
            match r {
                Some(v) => self@.contains_key(id) && v@ == self@[id],
                None => !self@.contains_key(id),
            },
    {
        self.entries.get(&id)
    }

    pub fn insert(&mut self, id: u32, value: V)
        ensures
            final(self)@ == old(self)@.insert(id, value@),
    {
        self.entries.insert(id, value);
        assert(self@ =~= old(self)@.insert(id, value@));
    }

    pub fn remove(&mut self, id: u32) -> (r: Option<V>)
        ensures
            final(self)@ == old(self)@.remove(id),
            match r {
                Some(v) => old(self)@.contains_key(id) && v@ == old(self)@[id],
                None => !old(self)@.contains_key(id),
            },
    {
        let r = self.entries.remove(&id);
        assert(self@ =~= old(self)@.remove(id));
        r
    }

    /// The keys in increasing order.
    pub fn ids(&self) -> (r: Vec<u32>)
        ensures
            r@ == workers_in_order(self@.dom()),
            ascending_workers(r@),
            r@.to_set() == self@.dom(),
    {
        let mut r: Vec<u32> = Vec::new();
        for kv in it: self.entries.iter()
            invariant
                r@.len() == it.index(),
                forall|j: int| 0 <= j < r@.len() ==> r@[j] == *it.seq()[j].0,
                it.seq() == vstd::std_specs::btree::spec_btree_map_iter(&self.entries).remaining(),
                vstd::std_specs::btree::increasing_seq(
                    it.seq().map_values(|kv: (&u32, &V)| *kv.0),
                ),
        {
            r.push(*kv.0);
        }
        proof {
            let all = vstd::std_specs::btree::spec_btree_map_iter(&self.entries).remaining();
            assert(r@ =~= all.map_values(|kv: (&u32, &V)| *kv.0));
            assert(vstd::std_specs::btree::increasing_seq(r@));
            assert forall|i: int, j: int| 0 <= i < j < r@.len() implies r@[i] < r@[j] by {
                assert(r@[i].cmp_spec(&r@[j]) is Less);
            }
            assert forall|k: u32| r@.to_set().contains(k) == self@.dom().contains(k) by {
                if r@.contains(k) {
                    let j = choose|j: int| 0 <= j < r@.len() && r@[j] == k;
                    assert(self.entries@.contains_key(*all[j].0));
                }
                if self.entries@.contains_key(k) {
                    assert(all.contains((&k, &self.entries@[k])));
                    let j = choose|j: int| 0 <= j < all.len() && all[j] == (&k, &self.entries@[k]);
                    assert(r@[j] == k);
                }
            }
            assert(r@.to_set() =~= self@.dom());
            ascending_workers_is_unique(r@, workers_in_order(self@.dom()));
        }
        r
    }
}

/// An ordered set of block ids.
pub struct BlockIds {
    ids: BTreeSet<i64>,
}

impl View for BlockIds {
    type V = Set<i64>;

    closed spec fn view(&self) -> Set<i64> {
        self.ids@
    }
}

impl BlockIds {
    pub fn new() -> (r: Self)
        ensures
            r@ == Set::<i64>::empty(),
    {
        BlockIds { ids: BTreeSet::new() }
    }

    pub fn contains(&self, id: i64) -> (r: bool)
        ensures
            r == self@.contains(id),
    {
        self.ids.contains(&id)
    }

    pub fn insert(&mut self, id: i64)
        ensures
            final(self)@ == old(self)@.insert(id),
    {
        self.ids.insert(id);
    }

    pub fn remove(&mut self, id: i64)
        ensures
            final(self)@ == old(self)@.remove(id),
    {
        self.ids.remove(&id);
    }

    /// The number of ids held.
    pub fn len(&self) -> (r: usize)
        ensures
            r == self@.len(),
    {
        self.ids.len()
    }

    pub fn is_empty(&self) -> (r: bool)
        ensures
            r == (self@ == Set::<i64>::empty()),
    {
        let r = self.ids.is_empty();
        assert(r ==> self@ =~= Set::<i64>::empty());
        r
    }

    /// Adds every id of `ids`.
    pub fn extend(&mut self, ids: &Vec<i64>)
        ensures
            final(self)@ == old(self)@.union(ids@.to_set()),
    {
        let mut i: usize = 0;
        while i < ids.len()
            invariant
                i <= ids.len(),
                self@ == old(self)@.union(ids@.take(i as int).to_set()),
            decreases ids.len() - i,
        {
            self.insert(ids[i]);
            proof {
                let before = ids@.take(i as int);
                let after = ids@.take(i + 1);
                assert(after =~= before.push(ids@[i as int]));
                assert forall|x: i64| after.to_set().contains(x) == (before.to_set().contains(x) || x
                    == ids@[i as int]) by {
                    if before.contains(x) {
                        let k = choose|k: int| 0 <= k < before.len() && before[k] == x;
                        assert(after[k] == x);
                    }
                    assert(after[i as int] == ids@[i as int]);
                }
                assert(self@ =~= old(self)@.union(after.to_set()));
            }
            i += 1;
        }
        assert(ids@.take(ids@.len() as int) =~= ids@);
    }

    /// The ids in increasing order.
    pub fn to_vec(&self) -> (r: Vec<i64>)
        ensures
            r@ == in_order(self@),
            ascending(r@),
            r@.to_set() == self@,
    {
        let mut r: Vec<i64> = Vec::new();
        for id in it: self.ids.iter()
            invariant
                r@.len() == it.index(),
                forall|j: int| 0 <= j < r@.len() ==> r@[j] == *it.seq()[j],
                it.seq() == vstd::std_specs::btree::spec_btree_keys_iter(&self.ids).remaining(),
        {
            r.push(*id);
        }
        proof {
            let all = vstd::std_specs::btree::spec_btree_keys_iter(&self.ids).remaining();
            assert(r@ =~= all.unref());
            assert(r@.to_set() =~= self@);
            assert(vstd::laws_cmp::obeys_cmp::<&i64>()) by {
                reveal(vstd::laws_cmp::obeys_cmp_partial_ord);
                reveal(vstd::laws_cmp::obeys_cmp_ord);
            }
            assert(vstd::std_specs::btree::increasing_seq(all));
            assert forall|i: int, j: int| 0 <= i < j < r@.len() implies r@[i] < r@[j] by {
                assert(OrdSpec::cmp_spec(&all[i], &all[j]) is Less);
            }
            ascending_is_unique(r@, in_order(self@));
        }
        r
    }
}

impl Clone for BlockIds {
    fn clone(&self) -> (r: Self)
        ensures
            r@ == self@,
    {
        BlockIds { ids: self.ids.clone() }
    }
}

/// A map from block id to a flag.
pub struct BlockFlags {
    flags: BTreeMap<i64, bool>,
}

impl View for BlockFlags {
    type V = Map<i64, bool>;

    closed spec fn view(&self) -> Map<i64, bool> {
        self.flags@
    }
}

impl BlockFlags {
    pub fn new() -> (r: Self)
        ensures
            r@ == Map::<i64, bool>::empty(),
    {
        BlockFlags { flags: BTreeMap::new() }
    }

    pub fn insert(&mut self, id: i64, flag: bool)
        ensures
            final(self)@ == old(self)@.insert(id, flag),
    {
        self.flags.insert(id, flag);
    }

    /// Adds the ids that are flagged true to `ids` and removes those that are
    /// flagged false.
    pub fn patch(&self, ids: &mut BlockIds)
        ensures
            forall|id: i64| #[trigger]
                final(ids)@.contains(id) == (if self@.contains_key(id) {
                    self@[id]
                } else {
                    old(ids)@.contains(id)
                }),
    {
        let ghost mut seen = Set::<i64>::empty();
        for kv in it: self.flags.iter()
            invariant
                it.seq() == vstd::std_specs::btree::spec_btree_map_iter(&self.flags).remaining(),
                forall|id: i64| #[trigger]
                    seen.contains(id) <==> exists|j: int|
                        0 <= j < it.index() && *(#[trigger] it.seq()[j]).0 == id,
                forall|id: i64| #[trigger]
                    ids@.contains(id) == (if seen.contains(id) {
                        self@.contains_key(id) && self@[id]
                    } else {
                        old(ids)@.contains(id)
                    }),
        {
            let ghost at = it.index();
            let ghost all = it.seq();
            let ghost before = seen;
            assert(self.flags@.contains_key(*all[at].0) && self.flags@[*all[at].0] == *all[at].1);
            if *kv.1 {
                ids.insert(*kv.0);
            } else {
                ids.remove(*kv.0);
            }
            proof {
                assert(*kv.0 == *all[at].0);
                seen = seen.insert(*kv.0);
                assert forall|id: i64| #[trigger] seen.contains(id) <==> exists|j: int|
                    0 <= j < at + 1 && *(#[trigger] all[j]).0 == id by {
                    if before.contains(id) {
                        let j = choose|j: int| 0 <= j < at && *(#[trigger] all[j]).0 == id;
                        assert(*all[j].0 == id);
                    }
                }
            }
        }
        proof {
            let all = vstd::std_specs::btree::spec_btree_map_iter(&self.flags).remaining();
            assert forall|id: i64| seen.contains(id) == self@.contains_key(id) by {
                if self.flags@.contains_key(id) {
                    assert(all.contains((&id, &self.flags@[id])));
                    let j = choose|j: int| 0 <= j < all.len() && all[j] == (&id, &self.flags@[id]);
                    assert(*all[j].0 == id);
                }
                if seen.contains(id) {
                    let j = choose|j: int| 0 <= j < all.len() && *(#[trigger] all[j]).0 == id;
                    assert(self.flags@.contains_key(*all[j].0));
                }
            }
        }
    }
}

} // verus!
