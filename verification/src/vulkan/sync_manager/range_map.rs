use vstd::prelude::*;
use vstd::laws_eq::obeys_concrete_eq;

use super::interval::{is_empty_range, spec_is_empty_range, KeyRange};
use super::ResourceAccessInfo;
use nodit::NoditMap;

verus! {

/// The set of values carried by a list of `(range, value)` entries.
pub open spec fn values_of<V>(entries: Seq<(KeyRange, V)>) -> Set<V> {
    Set::new(|v: V| exists|i: int| 0 <= i < entries.len() && entries[i].1 == v)
}

/// The set of values that a point-wise map holds at the points of `key`.
pub open spec fn values_in<V>(m: Map<u64, V>, key: KeyRange) -> Set<V> {
    Set::new(|v: V| exists|p: u64| key.has(p as int) && m.contains_key(p) && m[p] == v)
}

/// `m` with every point of `key` set to `v`.
pub open spec fn overwritten<V>(m: Map<u64, V>, key: KeyRange, v: V) -> Map<u64, V> {
    Map::new(
        |p: u64| m.contains_key(p) || key.has(p as int),
        |p: u64|
            if key.has(p as int) {
                v
            } else {
                m[p]
            },
    )
}

/// `m` without the points of `key`.
pub open spec fn removed<V>(m: Map<u64, V>, key: KeyRange) -> Map<u64, V> {
    Map::new(|p: u64| m.contains_key(p) && !key.has(p as int), |p: u64| m[p])
}

/// A map from ranges of points to values.
pub trait RangeMapLike: Sized {
    type Value: Copy;

    /// The value at each covered point.
    spec fn view(&self) -> Map<u64, Self::Value>;

    /// The keys this map takes without panicking.
    spec fn accepts(&self, key: KeyRange) -> bool;

    /// The keys that a map made by `new_with_max_range(max_range)` takes.
    spec fn fresh_accepts(max_range: KeyRange, key: KeyRange) -> bool;

    /// The maximal ranges a map can be made for.
    spec fn can_create(max_range: KeyRange) -> bool;

    /// `r` is a list of entries that `get_all(key)` may return.
    spec fn reports(&self, key: KeyRange, r: Seq<(KeyRange, Self::Value)>) -> bool;

    /// `r` is a list of entries that `overwrite` or `cut` over `key` may return.
    spec fn reports_cut(&self, key: KeyRange, r: Seq<(KeyRange, Self::Value)>) -> bool;

    fn new_with_max_range(max_range: KeyRange) -> (r: Self)
        requires
            max_range.valid(),
            Self::can_create(max_range),
        ensures
            r.view() == Map::<u64, Self::Value>::empty(),
            forall|k: KeyRange| r.accepts(k) == Self::fresh_accepts(max_range, k),
    ;

    /// Returns all values that overlap with the given key.
    fn get_all(&self, key: &KeyRange) -> (r: Vec<(KeyRange, Self::Value)>)
        requires
            key.valid(),
            self.accepts(*key),
        ensures
            self.reports(*key, r@),
            values_of(r@) == values_in(self.view(), *key),
    ;

    /// Overwrites the values in the range, and returns all values that were overwritten.
    fn overwrite(&mut self, key: KeyRange, value: Self::Value) -> (r: Vec<(KeyRange, Self::Value)>)
        requires
            key.valid(),
            old(self).accepts(key),
        ensures
            forall|k: KeyRange| final(self).accepts(k) == old(self).accepts(k),
            old(self).reports_cut(key, r@),
            !spec_is_empty_range(key) ==> final(self).view() == overwritten(old(self).view(), key, value),
            !spec_is_empty_range(key) ==> values_of(r@) == values_in(old(self).view(), key),
    ;

    /// Inserts the given value at the given key, if there is no value at that key.
    /// Otherwise, returns the user supplied value.
    fn insert_if_empty(&mut self, key: KeyRange, value: Self::Value) -> (r: Result<(), Self::Value>)
        requires
            key.valid(),
            old(self).accepts(key),
        ensures
            forall|k: KeyRange| final(self).accepts(k) == old(self).accepts(k),
            r is Ok <==> values_in(old(self).view(), key).is_empty(),
            r is Ok && !spec_is_empty_range(key) ==> final(self).view() == overwritten(old(self).view(), key, value),
            r is Err ==> r == Err::<(), Self::Value>(value) && *final(self) == *old(self),
    {
        let found = self.get_all(&key);
        if found.len() == 0 {
            proof {
                if !values_in(self.view(), key).is_empty() {
                    let v = values_in(self.view(), key).choose();
                    assert(values_in(self.view(), key).contains(v));
                    assert(!values_of(found@).contains(v));
                }
            }
            let _ = self.overwrite(key, value);
            Ok(())
        } else {
            proof {
                assert(values_of(found@).contains(found@[0].1));
            }
            Err(value)
        }
    }

    /// Removes all values in the range, and returns them.
    /// Will split values that overlap with the range.
    fn cut(&mut self, key: KeyRange) -> (r: Vec<(KeyRange, Self::Value)>)
        requires
            key.valid(),
            old(self).accepts(key),
        ensures
            forall|k: KeyRange| final(self).accepts(k) == old(self).accepts(k),
            old(self).reports_cut(key, r@),
            !spec_is_empty_range(key) ==> final(self).view() == removed(old(self).view(), key),
            !spec_is_empty_range(key) ==> values_of(r@) == values_in(old(self).view(), key),
    ;
}


/// The maximal runs of equal values among the filled slots `start .. n` of `s`, in order, each
/// with the points it covers: a run is a stretch of consecutive filled slots that hold one
/// value, and the filled slot just after a run holds another value. Each slot is taken in turn:
/// a filled slot extends the last run when it follows it directly with the same value, and
/// starts a new run otherwise.
pub open spec fn runs_upto<V>(s: Seq<Option<V>>, start: int, n: int) -> Seq<(KeyRange, V)>
    decreases n - start,
{
    if n <= start {
        Seq::empty()
    } else {
        let prev = runs_upto(s, start, n - 1);
        match s[n - 1] {
            None => prev,
            Some(v) => if prev.len() > 0 && prev.last().0.end == n - 2 && prev.last().1 == v {
                prev.update(prev.len() - 1, (KeyRange { start: prev.last().0.start, end: (n - 1) as u64 }, v))
            } else {
                prev.push((KeyRange { start: (n - 1) as u64, end: (n - 1) as u64 }, v))
            },
        }
    }
}

/// What the runs of the slots `start .. n` are: ascending, disjoint stretches inside
/// `start .. n` whose every slot holds the run's value, which together cover every filled slot,
/// and of which two that touch hold different values.
pub proof fn lemma_runs<V>(s: Seq<Option<V>>, start: int, n: int)
    requires
        0 <= start <= n <= s.len(),
        s.len() <= u64::MAX,
    ensures
        forall|i: int| #![trigger runs_upto(s, start, n)[i]] 0 <= i < runs_upto(s, start, n).len() ==> start
            <= runs_upto(s, start, n)[i].0.start <= runs_upto(s, start, n)[i].0.end < n,
        forall|i: int, j: int| 0 <= i < j < runs_upto(s, start, n).len() ==> (#[trigger] runs_upto(s, start, n)[i]).0.end
            < (#[trigger] runs_upto(s, start, n)[j]).0.start,
        forall|i: int, p: int| 0 <= i < runs_upto(s, start, n).len() && #[trigger] runs_upto(s, start, n)[i].0.has(p)
            ==> s[p] == Some(runs_upto(s, start, n)[i].1),
        forall|p: int| start <= p < n && (#[trigger] s[p]) is Some ==> exists|i: int|
            0 <= i < runs_upto(s, start, n).len() && #[trigger] runs_upto(s, start, n)[i].0.has(p),
        forall|i: int| 0 <= i < runs_upto(s, start, n).len() - 1 && (#[trigger] runs_upto(s, start, n)[i]).0.end + 1
            == runs_upto(s, start, n)[i + 1].0.start ==> runs_upto(s, start, n)[i].1 != runs_upto(s, start, n)[i + 1].1,
    decreases n - start,
{
    if n > start {
        lemma_runs(s, start, n - 1);
        let prev = runs_upto(s, start, n - 1);
        let cur = runs_upto(s, start, n);
        match s[n - 1] {
            None => {
                assert forall|p: int| start <= p < n && (#[trigger] s[p]) is Some implies exists|i: int|
                    0 <= i < cur.len() && #[trigger] cur[i].0.has(p) by {
                    assert(p < n - 1);
                }
            },
            Some(v) => {
                if prev.len() > 0 && prev.last().0.end == n - 2 && prev.last().1 == v {
                    let k = prev.len() - 1;
                    assert(prev[k] == prev.last());
                    assert forall|i: int| #![trigger cur[i]] 0 <= i < cur.len() implies start <= cur[i].0.start
                        <= cur[i].0.end < n by {
                        if i < k {
                            assert(cur[i] == prev[i]);
                        }
                    }
                    assert forall|i: int, j: int| 0 <= i < j < cur.len() implies (#[trigger] cur[i]).0.end
                        < (#[trigger] cur[j]).0.start by {
                        assert(cur[i] == prev[i]);
                        if j < k {
                            assert(cur[j] == prev[j]);
                        } else {
                            assert(cur[j].0.start == prev[k].0.start);
                            assert(prev[i].0.end < prev[k].0.start);
                        }
                    }
                    assert forall|i: int, p: int| 0 <= i < cur.len() && #[trigger] cur[i].0.has(p) implies s[p]
                        == Some(cur[i].1) by {
                        if i < k {
                            assert(cur[i] == prev[i]);
                        } else if p < n - 1 {
                            assert(prev[k].0.has(p));
                        }
                    }
                    assert forall|p: int| start <= p < n && (#[trigger] s[p]) is Some implies exists|i: int|
                        0 <= i < cur.len() && #[trigger] cur[i].0.has(p) by {
                        if p < n - 1 {
                            let i = choose|i: int| 0 <= i < prev.len() && #[trigger] prev[i].0.has(p);
                            if i < k {
                                assert(cur[i] == prev[i]);
                            } else {
                                assert(cur[k].0.has(p));
                            }
                        } else {
                            assert(cur[k].0.has(p));
                        }
                    }
                    assert forall|i: int| 0 <= i < cur.len() - 1 && (#[trigger] cur[i]).0.end + 1 == cur[i + 1].0.start
                        implies cur[i].1 != cur[i + 1].1 by {
                        assert(cur[i] == prev[i]);
                        if i + 1 < k {
                            assert(cur[i + 1] == prev[i + 1]);
                        } else {
                            assert(cur[i + 1].0.start == prev[i + 1].0.start && cur[i + 1].1 == prev[i + 1].1);
                            assert(prev[i].0.end + 1 == prev[i + 1].0.start);
                        }
                    }
                } else {
                    let k = prev.len() as int;
                    assert(cur[k] == (KeyRange { start: (n - 1) as u64, end: (n - 1) as u64 }, v));
                    if prev.len() > 0 {
                        assert(prev[k - 1] == prev.last());
                        assert(prev[k - 1].0.end < n - 1);
                    }
                    assert forall|i: int| #![trigger cur[i]] 0 <= i < cur.len() implies start <= cur[i].0.start
                        <= cur[i].0.end < n by {
                        if i < k {
                            assert(cur[i] == prev[i]);
                        }
                    }
                    assert forall|i: int, j: int| 0 <= i < j < cur.len() implies (#[trigger] cur[i]).0.end
                        < (#[trigger] cur[j]).0.start by {
                        assert(cur[i] == prev[i]);
                        if j < k {
                            assert(cur[j] == prev[j]);
                        } else {
                            assert(prev[i].0.end < n - 1);
                        }
                    }
                    assert forall|i: int, p: int| 0 <= i < cur.len() && #[trigger] cur[i].0.has(p) implies s[p]
                        == Some(cur[i].1) by {
                        if i < k {
                            assert(cur[i] == prev[i]);
                        }
                    }
                    assert forall|p: int| start <= p < n && (#[trigger] s[p]) is Some implies exists|i: int|
                        0 <= i < cur.len() && #[trigger] cur[i].0.has(p) by {
                        if p < n - 1 {
                            let i = choose|i: int| 0 <= i < prev.len() && #[trigger] prev[i].0.has(p);
                            assert(cur[i] == prev[i]);
                        } else {
                            assert(cur[k].0.has(p));
                        }
                    }
                    assert forall|i: int| 0 <= i < cur.len() - 1 && (#[trigger] cur[i]).0.end + 1 == cur[i + 1].0.start
                        implies cur[i].1 != cur[i + 1].1 by {
                        assert(cur[i] == prev[i]);
                        if i + 1 < k {
                            assert(cur[i + 1] == prev[i + 1]);
                        } else {
                            assert(i == k - 1);
                            assert(prev[i] == prev.last());
                        }
                    }
                }
            },
        }
    }
}

/// A range map over the points `0..size`, kept as one optional value per point.
pub struct SmallArrayRangeMap<V> {
    values: Vec<Option<V>>,
}

impl<V: Copy> SmallArrayRangeMap<V> {
    /// The value slots, one per point.
    pub closed spec fn slots(&self) -> Seq<Option<V>> {
        self.values@
    }

    /// Makes a map of `size` empty slots.
    pub fn new(size: usize) -> (r: Self)
        ensures
            r.slots() == Seq::new(size as nat, |i: int| None::<V>),
    {
        let mut values: Vec<Option<V>> = Vec::new();
        let mut i: usize = 0;
        while i < size
            invariant
                i <= size,
                values@ == Seq::new(i as nat, |j: int| None::<V>),
            decreases size - i,
        {
            values.push(None);
            i = i + 1;
        }
        Self { values }
    }

    /// The entries reported for `key`: the maximal runs of equal values among the filled slots
    /// of `key`, each with the points it covers.
    pub open spec fn spec_get_all(&self, key: KeyRange) -> Seq<(KeyRange, V)> {
        runs_upto(self.slots(), key.start as int, key.end + 1)
    }

}

impl<V: Copy + PartialEq> SmallArrayRangeMap<V> {
    fn get_all_internal(&self, key: &KeyRange) -> (r: Vec<(KeyRange, V)>)
        requires
            key.valid(),
            key.end < self.slots().len(),
            obeys_concrete_eq::<V>(),
        ensures
            r@ == self.spec_get_all(*key),
    {
        let ghost s = self.values@;
        let len = self.values.len();
        assert(len == s.len());
        let mut out: Vec<(KeyRange, V)> = Vec::new();
        let first: usize = key.start as usize;
        let last: usize = key.end as usize;
        let mut i: usize = first;
        while i <= last
            invariant
                first == key.start,
                last == key.end,
                first <= i <= last + 1,
                last < s.len(),
                len == s.len(),
                s == self.values@,
                obeys_concrete_eq::<V>(),
                out@ == runs_upto(s, first as int, i as int),
                out@.len() > 0 ==> out@.last().0.end < i,
            decreases last + 1 - i,
        {
            proof {
                reveal(obeys_concrete_eq);
            }
            match self.values[i] {
                Some(next) => {
                    let n = out.len();
                    let extend = n > 0 && out[n - 1].0.end + 1 == i as u64 && out[n - 1].1 == next;
                    if extend {
                        let run_start = out[n - 1].0.start;
                        out.set(n - 1, (KeyRange { start: run_start, end: i as u64 }, next));
                    } else {
                        out.push((KeyRange { start: i as u64, end: i as u64 }, next));
                    }
                },
                None => {},
            }
            i = i + 1;
        }
        out
    }
}

/// Values whose `==` is equality of the values themselves.
pub trait PlainEq: Copy + PartialEq {
    proof fn lemma_plain_eq()
        ensures
            obeys_concrete_eq::<Self>(),
    ;
}

impl PlainEq for i32 {
    proof fn lemma_plain_eq() {
        broadcast use vstd::laws_eq::group_laws_eq;
    }
}

/// The point-wise contents of an array of slots.
pub open spec fn slots_view<V>(s: Seq<Option<V>>) -> Map<u64, V> {
    Map::new(|p: u64| p < s.len() && s[p as int] is Some, |p: u64| s[p as int].unwrap())
}

/// `s` with the slots `key.start ..= key.end` set to `value`.
pub open spec fn slots_written<V>(s: Seq<Option<V>>, key: KeyRange, value: Option<V>) -> Seq<Option<V>> {
    Seq::new(s.len(), |i: int| if key.has(i) { value } else { s[i] })
}

/// The runs of the slots of `key` carry exactly the values the slots hold on `key`.
proof fn lemma_slots_values<V>(s: Seq<Option<V>>, key: KeyRange)
    requires
        key.valid(),
        key.end < s.len(),
        s.len() <= u64::MAX,
    ensures
        values_of(runs_upto(s, key.start as int, key.end + 1)) == values_in(slots_view(s), key),
{
    let r = runs_upto(s, key.start as int, key.end + 1);
    lemma_runs(s, key.start as int, key.end + 1);
    assert forall|v: V| values_of(r).contains(v) <==> values_in(slots_view(s), key).contains(v) by {
        if values_of(r).contains(v) {
            let i = choose|i: int| 0 <= i < r.len() && r[i].1 == v;
            let p = r[i].0.start;
            assert(r[i].0.has(p as int));
            assert(s[p as int] == Some(v));
            assert(key.has(p as int));
            assert(slots_view(s).contains_key(p) && slots_view(s)[p] == v);
        }
        if values_in(slots_view(s), key).contains(v) {
            let p = choose|p: u64| key.has(p as int) && slots_view(s).contains_key(p) && slots_view(s)[p] == v;
            assert(s[p as int] is Some);
            let i = choose|i: int| 0 <= i < r.len() && #[trigger] r[i].0.has(p as int);
            assert(s[p as int] == Some(r[i].1));
            assert(r[i].1 == v);
        }
    }
    assert(values_of(r) =~= values_in(slots_view(s), key));
}

impl<V: PlainEq> SmallArrayRangeMap<V> {
    fn overwrite_internal(&mut self, key: KeyRange, value: Option<V>) -> (r: Vec<(KeyRange, V)>)
        requires
            key.valid(),
            key.end < old(self).slots().len(),
        ensures
            spec_is_empty_range(key) ==> r@ == Seq::<(KeyRange, V)>::empty() && final(self).slots() == old(self).slots(),
            !spec_is_empty_range(key) ==> r@ == old(self).spec_get_all(key)
                && final(self).slots() == slots_written(old(self).slots(), key, value),
    {
        if is_empty_range(&key) {
            return Vec::new();
        }
        proof {
            V::lemma_plain_eq();
        }
        let overwritten = self.get_all_internal(&key);
        let len = self.values.len();
        let first: usize = key.start as usize;
        let last: usize = key.end as usize;
        let mut i: usize = first;
        let ghost old_slots = self.values@;
        while i <= last
            invariant
                first == key.start,
                last == key.end,
                first <= i <= last + 1,
                last < len,
                len == self.values@.len(),
                old_slots.len() == len,
                forall|j: int| 0 <= j < len ==> #[trigger] self.values@[j] == if first <= j < i {
                    value
                } else {
                    old_slots[j]
                },
            decreases last + 1 - i,
        {
            self.values.set(i, value);
            i = i + 1;
        }
        assert(self.values@ =~= slots_written(old_slots, key, value));
        overwritten
    }
}

impl<V: PlainEq> RangeMapLike for SmallArrayRangeMap<V> {
    type Value = V;

    open spec fn view(&self) -> Map<u64, V> {
        slots_view(self.slots())
    }

    open spec fn accepts(&self, key: KeyRange) -> bool {
        key.end < self.slots().len()
    }

    /// A map made for `max_range` has a slot for each point of it.
    open spec fn fresh_accepts(max_range: KeyRange, key: KeyRange) -> bool {
        key.end <= max_range.end
    }

    open spec fn can_create(max_range: KeyRange) -> bool {
        max_range.start == 0 && max_range.end < usize::MAX
    }

    open spec fn reports(&self, key: KeyRange, r: Seq<(KeyRange, V)>) -> bool {
        r == self.spec_get_all(key)
    }

    open spec fn reports_cut(&self, key: KeyRange, r: Seq<(KeyRange, V)>) -> bool {
        if spec_is_empty_range(key) {
            r == Seq::<(KeyRange, V)>::empty()
        } else {
            r == self.spec_get_all(key)
        }
    }

    fn new_with_max_range(max_range: KeyRange) -> (r: Self) {
        let r = Self::new((max_range.end + 1) as usize);
        assert(r.view() =~= Map::<u64, V>::empty());
        r
    }

    fn get_all(&self, key: &KeyRange) -> (r: Vec<(KeyRange, V)>)
        ensures
            r@ == self.spec_get_all(*key),
    {
        let _ = self.values.len();
        proof {
            V::lemma_plain_eq();
            lemma_slots_values(self.slots(), *key);
        }
        let r = self.get_all_internal(key);
        assert(self.reports(*key, r@));
        r
    }

    fn overwrite(&mut self, key: KeyRange, value: V) -> (r: Vec<(KeyRange, V)>)
        ensures
            spec_is_empty_range(key) ==> r@ == Seq::<(KeyRange, V)>::empty() && final(self).slots() == old(self).slots(),
            !spec_is_empty_range(key) ==> r@ == old(self).spec_get_all(key)
                && final(self).slots() == slots_written(old(self).slots(), key, Some(value)),
    {
        let _ = self.values.len();
        let ghost s = self.slots();
        let r = self.overwrite_internal(key, Some(value));
        assert(old(self).reports_cut(key, r@));
        proof {
            if !spec_is_empty_range(key) {
                lemma_slots_values(s, key);
                assert(self.view() =~= overwritten(slots_view(s), key, value));
            }
        }
        r
    }

    fn cut(&mut self, key: KeyRange) -> (r: Vec<(KeyRange, V)>)
        ensures
            spec_is_empty_range(key) ==> r@ == Seq::<(KeyRange, V)>::empty() && final(self).slots() == old(self).slots(),
            !spec_is_empty_range(key) ==> r@ == old(self).spec_get_all(key)
                && final(self).slots() == slots_written(old(self).slots(), key, None),
    {
        let _ = self.values.len();
        let ghost s = self.slots();
        let r = self.overwrite_internal(key, None);
        proof {
            if !spec_is_empty_range(key) {
                lemma_slots_values(s, key);
                assert(self.view() =~= removed(slots_view(s), key));
            }
        }
        r
    }
}


#[verifier::external_type_specification]
#[verifier::external_body]
#[verifier::reject_recursive_types(I)]
#[verifier::reject_recursive_types(K)]
#[verifier::reject_recursive_types(V)]
pub struct ExNoditMap<I, K, V>(NoditMap<I, K, V>);

#[verifier::external_type_specification]
#[verifier::external_body]
#[verifier::reject_recursive_types(I)]
pub struct ExNoditInterval<I>(nodit::Interval<I>);

/// The `NoditMap` that stores accesses by `u64` point.
pub type AccessNoditMap = NoditMap<u64, nodit::Interval<u64>, ResourceAccessInfo>;

/// What a `NoditMap` of accesses holds: the access recorded at each covered point.
pub uninterp spec fn nodit_points(map: AccessNoditMap) -> Map<u64, ResourceAccessInfo>;

/// `entries` are valid intervals in ascending order, pairwise disjoint, and each point of
/// an entry holds the entry's value in `m`.
pub open spec fn entries_of<V>(entries: Seq<(KeyRange, V)>, m: Map<u64, V>) -> bool {
    &&& forall|i: int| 0 <= i < entries.len() ==> (#[trigger] entries[i]).0.valid()
    &&& forall|i: int, j: int|
        0 <= i < j < entries.len() ==> (#[trigger] entries[i]).0.end < (#[trigger] entries[j]).0.start
    &&& forall|i: int, p: u64|
        0 <= i < entries.len() && #[trigger] entries[i].0.has(p as int) ==> m.contains_key(p)
            && m[p] == entries[i].1
}

/// Every point of `key` that `m` holds lies in one of `entries`.
pub open spec fn covers_key<V>(entries: Seq<(KeyRange, V)>, m: Map<u64, V>, key: KeyRange) -> bool {
    forall|p: u64|
        key.has(p as int) && #[trigger] m.contains_key(p) ==> exists|i: int|
            0 <= i < entries.len() && #[trigger] entries[i].0.has(p as int)
}

/// `NoditMap::new`: a map without entries.
#[verifier::external_body]
fn nodit_new() -> (r: AccessNoditMap)
    ensures
        nodit_points(r).dom() == Set::<u64>::empty(),
{
    NoditMap::new()
}

/// `NoditMap::overlapping`: the stored entries that overlap `key`, in ascending order.
/// The claim: each returned entry overlaps `key` and holds its value at each of its points,
/// the entries are disjoint and ascending, and every held point of `key` lies in one of them.
/// How the held points are split into entries is not stated.
#[verifier::external_body]
fn nodit_overlapping(map: &AccessNoditMap, key: KeyRange) -> (r: Vec<
    (KeyRange, ResourceAccessInfo),
>)
    requires
        key.valid(),
    ensures
        entries_of(r@, nodit_points(*map)),
        covers_key(r@, nodit_points(*map), key),
        forall|i: int| 0 <= i < r@.len() ==> (#[trigger] r@[i]).0.meets(key),
{
    map.overlapping(&nodit::interval::ii(key.start, key.end)).map(
        |(k, v)| (KeyRange { start: *k.start(), end: *k.end() }, *v),
    ).collect()
}

/// `NoditMap::cut`: removes every point of `key` and returns the removed pieces, clipped
/// to `key`, in ascending order. The split of the removed points into pieces is not stated.
#[verifier::external_body]
fn nodit_cut(map: &mut AccessNoditMap, key: KeyRange) -> (r: Vec<
    (KeyRange, ResourceAccessInfo),
>)
    requires
        key.valid(),
    ensures
        nodit_points(*final(map)) == removed(nodit_points(*old(map)), key),
        entries_of(r@, nodit_points(*old(map))),
        covers_key(r@, nodit_points(*old(map)), key),
        forall|i: int, p: u64| 0 <= i < r@.len() && #[trigger] r@[i].0.has(p as int) ==> key.has(p as int),
{
    map.cut(&nodit::interval::ii(key.start, key.end)).map(
        |(k, v)| (KeyRange { start: *k.start(), end: *k.end() }, v),
    ).collect()
}

/// `NoditMap::insert_overwrite`: cuts `key` out of the map (returning the cut pieces as
/// `nodit_cut` does) and stores `value` over all of `key`.
#[verifier::external_body]
fn nodit_insert_overwrite(
    map: &mut AccessNoditMap,
    key: KeyRange,
    value: ResourceAccessInfo,
) -> (r: Vec<(KeyRange, ResourceAccessInfo)>)
    requires
        key.valid(),
    ensures
        nodit_points(*final(map)) == overwritten(nodit_points(*old(map)), key, value),
        entries_of(r@, nodit_points(*old(map))),
        covers_key(r@, nodit_points(*old(map)), key),
        forall|i: int, p: u64| 0 <= i < r@.len() && #[trigger] r@[i].0.has(p as int) ==> key.has(p as int),
{
    map.insert_overwrite(nodit::interval::ii(key.start, key.end), value).map(
        |(k, v)| (KeyRange { start: *k.start(), end: *k.end() }, v),
    ).collect()
}

/// `NoditMap::insert_strict`: stores `value` over `key` when no held point lies in `key`;
/// otherwise leaves the map as it was and gives `value` back.
#[verifier::external_body]
fn nodit_insert_strict(
    map: &mut AccessNoditMap,
    key: KeyRange,
    value: ResourceAccessInfo,
) -> (r: Result<(), ResourceAccessInfo>)
    requires
        key.valid(),
    ensures
        r is Ok <==> (forall|p: u64| key.has(p as int) ==> !(#[trigger] nodit_points(*old(map)).contains_key(p))),
        r is Ok ==> nodit_points(*final(map)) == overwritten(nodit_points(*old(map)), key, value),
        r matches Err(v) ==> v == value && *final(map) == *old(map),
{
    match map.insert_strict(nodit::interval::ii(key.start, key.end), value) {
        Ok(()) => Ok(()),
        Err(e) => Err(e.value),
    }
}

/// Entries that cover every held point of `key` and lie in the map carry exactly the
/// values the map holds on `key`, provided each entry reaches into `key`.
proof fn lemma_entries_values<V>(entries: Seq<(KeyRange, V)>, m: Map<u64, V>, key: KeyRange)
    requires
        key.valid(),
        entries_of(entries, m),
        covers_key(entries, m, key),
        forall|i: int| 0 <= i < entries.len() ==> (#[trigger] entries[i]).0.meets(key),
    ensures
        values_of(entries) == values_in(m, key),
{
    assert forall|v: V| values_of(entries).contains(v) <==> values_in(m, key).contains(v) by {
        if values_of(entries).contains(v) {
            let i = choose|i: int| 0 <= i < entries.len() && entries[i].1 == v;
            let e = entries[i];
            let p: u64 = if e.0.start <= key.start { key.start } else { e.0.start };
            assert(e.0.has(p as int) && key.has(p as int));
            assert(m.contains_key(p) && m[p] == v);
        }
        if values_in(m, key).contains(v) {
            let p = choose|p: u64| key.has(p as int) && m.contains_key(p) && m[p] == v;
            let i = choose|i: int| 0 <= i < entries.len() && #[trigger] entries[i].0.has(p as int);
            assert(entries[i].1 == v);
        }
    }
    assert(values_of(entries) =~= values_in(m, key));
}

/// A range map over `u64` points holding accesses, kept in a `NoditMap`.
pub struct RangeMap {
    inner: AccessNoditMap,
}

impl RangeMap {
    pub fn new() -> (r: Self)
        ensures
            r.view() == Map::<u64, ResourceAccessInfo>::empty(),
    {
        RangeMap { inner: nodit_new() }
    }
}

impl RangeMapLike for RangeMap {
    type Value = ResourceAccessInfo;

    closed spec fn view(&self) -> Map<u64, ResourceAccessInfo> {
        nodit_points(self.inner)
    }

    open spec fn accepts(&self, key: KeyRange) -> bool {
        true
    }

    open spec fn fresh_accepts(max_range: KeyRange, key: KeyRange) -> bool {
        true
    }

    open spec fn can_create(max_range: KeyRange) -> bool {
        true
    }

    open spec fn reports(&self, key: KeyRange, r: Seq<(KeyRange, ResourceAccessInfo)>) -> bool {
        &&& entries_of(r, self.view())
        &&& covers_key(r, self.view(), key)
        &&& forall|i: int| 0 <= i < r.len() ==> (#[trigger] r[i]).0.meets(key)
    }

    open spec fn reports_cut(&self, key: KeyRange, r: Seq<(KeyRange, ResourceAccessInfo)>) -> bool {
        &&& entries_of(r, self.view())
        &&& covers_key(r, self.view(), key)
        &&& forall|i: int, p: u64| 0 <= i < r.len() && #[trigger] r[i].0.has(p as int) ==> key.has(p as int)
    }

    fn new_with_max_range(_max_range: KeyRange) -> (r: Self) {
        Self::new()
    }

    fn get_all(&self, key: &KeyRange) -> (r: Vec<(KeyRange, ResourceAccessInfo)>)
        ensures
            entries_of(r@, self.view()),
            covers_key(r@, self.view(), *key),
    {
        let r = nodit_overlapping(&self.inner, *key);
        proof {
            lemma_entries_values(r@, self.view(), *key);
        }
        r
    }

    fn overwrite(&mut self, key: KeyRange, value: ResourceAccessInfo) -> (r: Vec<(KeyRange, ResourceAccessInfo)>)
        ensures
            final(self).view() == overwritten(old(self).view(), key, value),
            entries_of(r@, old(self).view()),
            covers_key(r@, old(self).view(), key),
    {
        let ghost m = self.view();
        let r = nodit_insert_overwrite(&mut self.inner, key, value);
        proof {
            assert forall|i: int| 0 <= i < r@.len() implies (#[trigger] r@[i]).0.meets(key) by {
                assert(r@[i].0.has(r@[i].0.start as int));
            }
            lemma_entries_values(r@, m, key);
        }
        r
    }

    fn cut(&mut self, key: KeyRange) -> (r: Vec<(KeyRange, ResourceAccessInfo)>)
        ensures
            final(self).view() == removed(old(self).view(), key),
            entries_of(r@, old(self).view()),
            covers_key(r@, old(self).view(), key),
    {
        let ghost m = self.view();
        let r = nodit_cut(&mut self.inner, key);
        proof {
            assert forall|i: int| 0 <= i < r@.len() implies (#[trigger] r@[i]).0.meets(key) by {
                assert(r@[i].0.has(r@[i].0.start as int));
            }
            lemma_entries_values(r@, m, key);
        }
        r
    }

    fn insert_if_empty(&mut self, key: KeyRange, value: ResourceAccessInfo) -> (r: Result<(), ResourceAccessInfo>)
        ensures
            r is Ok ==> final(self).view() == overwritten(old(self).view(), key, value),
    {
        let ghost m = self.view();
        let r = nodit_insert_strict(&mut self.inner, key, value);
        proof {
            if !values_in(m, key).is_empty() {
                let v = values_in(m, key).choose();
                assert(values_in(m, key).contains(v));
                let p = choose|p: u64| key.has(p as int) && m.contains_key(p) && m[p] == v;
                assert(m.contains_key(p));
            }
            if r is Err {
                let p = choose|p: u64| key.has(p as int) && m.contains_key(p);
                assert(values_in(m, key).contains(m[p]));
            }
        }
        r
    }
}


/// Whether `range` reaches over both ends of `max_range`.
pub open spec fn spec_is_max_range(max_range: KeyRange, range: KeyRange) -> bool {
    range.has(max_range.start as int) && range.has(max_range.end as int)
}

/// The point-wise map holding `v` on all of `range`.
pub open spec fn filled<V>(range: KeyRange, v: V) -> Map<u64, V> {
    Map::new(|p: u64| range.has(p as int), |p: u64| v)
}

/// `m` is a map made for `max_range` that holds `v` at every point of it.
pub open spec fn filled_fresh<M: RangeMapLike>(m: M, max_range: KeyRange, v: M::Value) -> bool {
    &&& m.view() == filled(max_range, v)
    &&& forall|k: KeyRange| #[trigger] m.accepts(k) == M::fresh_accepts(max_range, k)
}

/// What `OptRangeMap::overwrite(key, value)` does: from `old` it makes `new` and returns `r`.
/// A key over the whole range replaces everything by one value and returns what it held; any
/// other key makes the map granular, as a granular map holding the old value over the whole
/// range would be, and returns what that map returns.
pub open spec fn overwrite_post<M: RangeMapLike>(
    old: OptRangeMap<M>,
    key: KeyRange,
    value: M::Value,
    new: OptRangeMap<M>,
    r: Seq<(KeyRange, M::Value)>,
) -> bool {
    &&& new.wf()
    &&& new.max_range() == old.max_range()
    &&& spec_is_empty_range(key) ==> r == Seq::<(KeyRange, M::Value)>::empty() && new == old
    &&& !spec_is_empty_range(key) && spec_is_max_range(old.max_range(), key) ==> {
        &&& new.whole() == Some(Some(value))
        &&& match old.whole() {
            Some(None) => r == Seq::<(KeyRange, M::Value)>::empty(),
            Some(Some(v)) => r == seq![(old.max_range(), v)],
            None => old.granular().reports(key, r),
        }
    }
    &&& !spec_is_empty_range(key) && !spec_is_max_range(old.max_range(), key) ==> {
        &&& new.whole() is None
        &&& new.granular().view() == overwritten(old.view(), key, value)
        &&& match old.whole() {
            Some(None) => r == Seq::<(KeyRange, M::Value)>::empty(),
            Some(Some(v)) => exists|m: M| #[trigger] filled_fresh(m, old.max_range(), v) && m.reports_cut(key, r),
            None => old.granular().reports_cut(key, r),
        }
    }
}

/// What `OptRangeMap::cut(key)` does: from `old` it makes `new` and returns `r`.
/// A key over the whole range empties the map and returns what it held; any other key cuts as
/// a granular map holding the old value over the whole range would.
pub open spec fn cut_post<M: RangeMapLike>(
    old: OptRangeMap<M>,
    key: KeyRange,
    new: OptRangeMap<M>,
    r: Seq<(KeyRange, M::Value)>,
) -> bool {
    &&& new.wf()
    &&& new.max_range() == old.max_range()
    &&& spec_is_empty_range(key) ==> r == Seq::<(KeyRange, M::Value)>::empty() && new == old
    &&& !spec_is_empty_range(key) && spec_is_max_range(old.max_range(), key) ==> {
        &&& new.whole() == Some(None::<M::Value>)
        &&& match old.whole() {
            Some(None) => r == Seq::<(KeyRange, M::Value)>::empty(),
            Some(Some(v)) => r == seq![(old.max_range(), v)],
            None => old.granular().reports_cut(key, r) && values_of(r) == values_in(old.view(), key),
        }
    }
    &&& !spec_is_empty_range(key) && !spec_is_max_range(old.max_range(), key) ==> {
        &&& new.whole() is None
        &&& new.granular().view() == removed(old.view(), key)
        &&& match old.whole() {
            Some(None) => r == Seq::<(KeyRange, M::Value)>::empty(),
            Some(Some(v)) => exists|m: M| #[trigger] filled_fresh(m, old.max_range(), v) && m.reports_cut(key, r),
            None => old.granular().reports_cut(key, r) && values_of(r) == values_in(old.view(), key),
        }
    }
}

/// The state of an optimised range map: one value (or none) over the whole range,
/// or a granular map.
pub enum FullRangeOpt<M: RangeMapLike> {
    All(Option<M::Value>),
    Granular(M),
}

/// A range map that stores a value covering its whole range without a granular map.
pub struct OptRangeMap<M: RangeMapLike> {
    max_range: KeyRange,
    inner: FullRangeOpt<M>,
}

impl<M: RangeMapLike> OptRangeMap<M> {
    /// The range the map was made for.
    pub closed spec fn max_range(&self) -> KeyRange {
        self.max_range
    }

    /// `Some(o)` when one value `o` (or none) covers the whole map; `None` when it is granular.
    pub closed spec fn whole(&self) -> Option<Option<M::Value>> {
        match self.inner {
            FullRangeOpt::All(o) => Some(o),
            FullRangeOpt::Granular(_) => None,
        }
    }

    /// The granular map, when there is one.
    pub closed spec fn granular(&self) -> M {
        match self.inner {
            FullRangeOpt::Granular(m) => m,
            FullRangeOpt::All(_) => arbitrary(),
        }
    }

    /// The map made for `max_range` that holds `o` (or nothing) over all of it.
    pub closed spec fn uniform(max_range: KeyRange, o: Option<M::Value>) -> Self {
        OptRangeMap { max_range, inner: FullRangeOpt::All(o) }
    }

    /// A map with one value (or none) over its whole range is the uniform map of that value.
    pub proof fn lemma_uniform(max_range: KeyRange, o: Option<M::Value>, m: Self)
        ensures
            Self::uniform(max_range, o).max_range() == max_range,
            Self::uniform(max_range, o).whole() == Some(o),
            m.max_range() == max_range && m.whole() == Some(o) ==> m == Self::uniform(max_range, o),
    {
    }

    /// The value at each covered point.
    pub open spec fn view(&self) -> Map<u64, M::Value> {
        match self.whole() {
            Some(None) => Map::empty(),
            Some(Some(v)) => filled(self.max_range(), v),
            None => self.granular().view(),
        }
    }

    /// A granular map takes the keys a fresh one for the max range takes.
    pub open spec fn wf(&self) -> bool {
        &&& self.max_range().valid()
        &&& self.whole() is None ==> forall|k: KeyRange| #[trigger]
            self.granular().accepts(k) == M::fresh_accepts(self.max_range(), k)
    }

    /// What `get_all(key)` returns.
    pub open spec fn reports(&self, key: KeyRange, r: Seq<(KeyRange, M::Value)>) -> bool {
        if spec_is_empty_range(key) {
            r == Seq::<(KeyRange, M::Value)>::empty()
        } else {
            match self.whole() {
                Some(None) => r == Seq::<(KeyRange, M::Value)>::empty(),
                Some(Some(v)) => r == seq![(key, v)],
                None => self.granular().reports(key, r),
            }
        }
    }

    /// The keys `get_all` takes without panicking.
    pub open spec fn get_ok(&self, key: KeyRange) -> bool {
        &&& key.valid()
        &&& !spec_is_empty_range(key) && self.whole() is None ==> M::fresh_accepts(self.max_range(), key)
    }

    /// The keys `overwrite` takes without panicking.
    pub open spec fn overwrite_ok(&self, key: KeyRange) -> bool {
        &&& key.valid()
        &&& !spec_is_empty_range(key) ==> if spec_is_max_range(self.max_range(), key) {
            self.whole() is None ==> M::fresh_accepts(self.max_range(), key)
        } else {
            &&& M::fresh_accepts(self.max_range(), key)
            &&& self.whole() is Some ==> M::can_create(self.max_range())
            &&& self.whole() matches Some(Some(_)) ==> M::fresh_accepts(self.max_range(), self.max_range())
        }
    }

    /// The keys `cut` takes without panicking.
    pub open spec fn cut_ok(&self, key: KeyRange) -> bool {
        &&& key.valid()
        &&& !spec_is_empty_range(key) && !spec_is_max_range(self.max_range(), key) ==> {
            &&& self.whole() is Some ==> M::can_create(self.max_range())
            &&& self.whole() matches Some(Some(_)) ==> M::fresh_accepts(self.max_range(), self.max_range())
                && M::fresh_accepts(self.max_range(), key)
        }
        &&& !spec_is_empty_range(key) && self.whole() is None ==> M::fresh_accepts(self.max_range(), key)
    }

    pub fn new(max_range: KeyRange) -> (r: Self)
        ensures
            r == Self::uniform(max_range, None),
            r.max_range() == max_range,
            r.whole() == Some(None::<M::Value>),
            max_range.valid() ==> r.wf(),
    {
        OptRangeMap { max_range, inner: FullRangeOpt::All(None) }
    }

    pub fn new_from(inner: M, max_range: KeyRange) -> (r: Self)
        ensures
            r.max_range() == max_range,
            r.whole() is None,
            r.granular() == inner,
    {
        OptRangeMap { max_range, inner: FullRangeOpt::Granular(inner) }
    }

    /// The range the map was made for.
    pub fn get_max_range(&self) -> (r: KeyRange)
        ensures
            r == self.max_range(),
    {
        self.max_range
    }

    /// Whether the map keeps a granular map.
    pub fn is_granular(&self) -> (r: bool)
        ensures
            r == (self.whole() is None),
    {
        match &self.inner {
            FullRangeOpt::Granular(_) => true,
            FullRangeOpt::All(_) => false,
        }
    }

    pub fn is_max_range(&self, range: &KeyRange) -> (r: bool)
        ensures
            r == spec_is_max_range(self.max_range(), *range),
    {
        range.contains(self.max_range.start) && range.contains(self.max_range.end)
    }

    pub fn new_with_max_range(max_range: KeyRange) -> (r: Self)
        ensures
            r == Self::uniform(max_range, None),
            r.max_range() == max_range,
            r.whole() == Some(None::<M::Value>),
            max_range.valid() ==> r.wf(),
    {
        Self::new(max_range)
    }

    /// Returns all values that overlap with the given key.
    pub fn get_all(&self, key: &KeyRange) -> (r: Vec<(KeyRange, M::Value)>)
        requires
            self.wf(),
            self.get_ok(*key),
        ensures
            self.reports(*key, r@),
            !spec_is_empty_range(*key) && self.whole() is None ==> values_of(r@) == values_in(
                self.view(),
                *key,
            ),
    {
        if is_empty_range(key) {
            return Vec::new();
        }
        match &self.inner {
            FullRangeOpt::All(None) => Vec::new(),
            FullRangeOpt::All(Some(value)) => {
                let mut r = Vec::new();
                r.push((*key, *value));
                proof {
                    assert(r@ == seq![(*key, *value)]);
                }
                r
            },
            FullRangeOpt::Granular(inner) => {
                assert(*inner == self.granular());
                assert(self.granular().accepts(*key));
                inner.get_all(key)
            },
        }
    }

    /// A granular map for the map's range holding `v` at every point of it.
    fn filled_granular(&self, v: M::Value) -> (r: M)
        requires
            self.wf(),
            M::can_create(self.max_range()),
            M::fresh_accepts(self.max_range(), self.max_range()),
        ensures
            filled_fresh(r, self.max_range(), v),
    {
        let mut inner = M::new_with_max_range(self.max_range);
        let _ = inner.overwrite(self.max_range, v);
        assert(inner.view() =~= filled(self.max_range(), v));
        inner
    }

    /// Overwrites the values in the range, and returns all values that were overwritten.
    pub fn overwrite(&mut self, key: KeyRange, value: M::Value) -> (r: Vec<(KeyRange, M::Value)>)
        requires
            old(self).wf(),
            old(self).overwrite_ok(key),
        ensures
            overwrite_post(*old(self), key, value, *final(self), r@),
    {
        if is_empty_range(&key) {
            return Vec::new();
        }
        if self.is_max_range(&key) {
            let prev = match &self.inner {
                FullRangeOpt::All(None) => Vec::new(),
                FullRangeOpt::All(Some(v)) => {
                    let mut prev: Vec<(KeyRange, M::Value)> = Vec::new();
                    prev.push((self.max_range, *v));
                    assert(prev@ =~= seq![(self.max_range(), *v)]);
                    prev
                },
                FullRangeOpt::Granular(_) => self.get_all(&key),
            };
            self.inner = FullRangeOpt::All(Some(value));
            return prev;
        }
        match &self.inner {
            FullRangeOpt::All(v) => {
                match v {
                    Some(v) => {
                        let mut inner = self.filled_granular(*v);
                        let ghost m = inner;
                        let prev = inner.overwrite(key, value);
                        self.inner = FullRangeOpt::Granular(inner);
                        proof {
                            assert(filled_fresh(m, old(self).max_range(), *v) && m.reports_cut(key, prev@));
                        }
                        prev
                    },
                    None => {
                        let mut inner = M::new_with_max_range(self.max_range);
                        let _ = inner.overwrite(key, value);
                        self.inner = FullRangeOpt::Granular(inner);
                        proof {
                            assert(old(self).view() =~= Map::<u64, M::Value>::empty());
                        }
                        Vec::new()
                    },
                }
            },
            FullRangeOpt::Granular(_) => {
                match &mut self.inner {
                    FullRangeOpt::Granular(inner) => {
                        assert(*inner == old(self).granular());
                        assert(old(self).granular().accepts(key));
                        inner.overwrite(key, value)
                    },
                    FullRangeOpt::All(_) => Vec::new(),
                }
            },
        }
    }

    /// Whether `get_all(key)` reports nothing: for an empty key, for a map without value, or
    /// for a granular map that holds nothing on the key.
    pub open spec fn reports_nothing(&self, key: KeyRange) -> bool {
        ||| spec_is_empty_range(key)
        ||| self.whole() == Some(None::<M::Value>)
        ||| self.whole() is None && values_in(self.view(), key).is_empty()
    }

    /// Inserts the given value at the given key, if there is no value at that key.
    /// Otherwise, returns the user supplied value.
    pub fn insert_if_empty(&mut self, key: KeyRange, value: M::Value) -> (r: Result<(), M::Value>)
        requires
            old(self).wf(),
            old(self).get_ok(key),
            old(self).overwrite_ok(key),
        ensures
            r is Ok <==> old(self).reports_nothing(key),
            r is Ok ==> exists|e: Seq<(KeyRange, M::Value)>| #[trigger] overwrite_post(*old(self), key, value, *final(self), e),
            r is Err ==> r == Err::<(), M::Value>(value) && *final(self) == *old(self),
    {
        let found = self.get_all(&key);
        if found.len() == 0 {
            proof {
                if !spec_is_empty_range(key) && self.whole() is None && !values_in(self.view(), key).is_empty() {
                    let v = values_in(self.view(), key).choose();
                    assert(values_in(self.view(), key).contains(v));
                    assert(!values_of(found@).contains(v));
                }
            }
            let _ = self.overwrite(key, value);
            Ok(())
        } else {
            proof {
                if self.whole() is None && !spec_is_empty_range(key) {
                    assert(values_of(found@).contains(found@[0].1));
                }
            }
            Err(value)
        }
    }

    /// Removes all values in the range, and returns them. A value covering more than the
    /// range is split: it stays on the rest.
    pub fn cut(&mut self, key: KeyRange) -> (r: Vec<(KeyRange, M::Value)>)
        requires
            old(self).wf(),
            old(self).cut_ok(key),
        ensures
            cut_post(*old(self), key, *final(self), r@),
    {
        if is_empty_range(&key) {
            return Vec::new();
        }
        let is_max_range = self.is_max_range(&key);
        match &self.inner {
            FullRangeOpt::All(v) => {
                match v {
                    Some(v) => {
                        if is_max_range {
                            let mut prev: Vec<(KeyRange, M::Value)> = Vec::new();
                            prev.push((self.max_range, *v));
                            assert(prev@ =~= seq![(self.max_range(), *v)]);
                            self.inner = FullRangeOpt::All(None);
                            prev
                        } else {
                            let mut inner = self.filled_granular(*v);
                            let ghost m = inner;
                            let prev = inner.cut(key);
                            self.inner = FullRangeOpt::Granular(inner);
                            proof {
                                assert(filled_fresh(m, old(self).max_range(), *v) && m.reports_cut(key, prev@));
                            }
                            prev
                        }
                    },
                    None => {
                        if !is_max_range {
                            self.inner = FullRangeOpt::Granular(M::new_with_max_range(self.max_range));
                            proof {
                                assert(removed(old(self).view(), key) =~= Map::<u64, M::Value>::empty());
                            }
                        }
                        Vec::new()
                    },
                }
            },
            FullRangeOpt::Granular(_) => {
                let prev = match &mut self.inner {
                    FullRangeOpt::Granular(inner) => {
                        assert(*inner == old(self).granular());
                        assert(old(self).granular().accepts(key));
                        inner.cut(key)
                    },
                    FullRangeOpt::All(_) => Vec::new(),
                };
                if is_max_range {
                    self.inner = FullRangeOpt::All(None);
                }
                prev
            },
        }
    }
}

} // verus!
