pub mod interval;
pub mod laws;
pub mod range_map;
pub mod resource_access;

use std::collections::HashMap;
use vstd::prelude::*;

use self::interval::{is_empty_range, spec_is_empty_range, KeyRange};
use self::range_map::{
    covers_key, cut_post, entries_of, filled_fresh, overwrite_post, overwritten, removed, spec_is_max_range, values_in, values_of,
    OptRangeMap,
    RangeMap, RangeMapLike, SmallArrayRangeMap,
};
use self::resource_access::{BufferAccess, BufferAccessInfo, ImageAccess, ImageAccessInfo, ImageSubresourceRange};
use crate::vulkan::command_buffer::{BufferMemoryBarrier, CmdPipelineBarrier, ImageMemoryBarrier};
use crate::vulkan::flags::{LAYOUT_UNDEFINED, QUEUE_FAMILY_IGNORED};

verus! {

/// One access (or the union of several accesses) to a resource, with the pipeline
/// stages and access kinds it involves, as the raw `VkPipelineStageFlags2` and
/// `VkAccessFlags2` bit masks.
#[derive(Clone, Copy, Debug, PartialEq, Eq, Structural)]
pub enum ResourceAccessInfo {
    Read { stage: u64, access: u64 },
    Write { stage: u64, access: u64 },
}

impl ResourceAccessInfo {
    pub open spec fn spec_stage(self) -> u64 {
        match self {
            ResourceAccessInfo::Read { stage, .. } => stage,
            ResourceAccessInfo::Write { stage, .. } => stage,
        }
    }

    pub open spec fn spec_access(self) -> u64 {
        match self {
            ResourceAccessInfo::Read { access, .. } => access,
            ResourceAccessInfo::Write { access, .. } => access,
        }
    }

    /// The union of two accesses: the stages and access kinds of both; a write if either is one.
    pub open spec fn spec_combine(self, other: Self) -> Self {
        if self is Read && other is Read {
            ResourceAccessInfo::Read {
                stage: self.spec_stage() | other.spec_stage(),
                access: self.spec_access() | other.spec_access(),
            }
        } else {
            ResourceAccessInfo::Write {
                stage: self.spec_stage() | other.spec_stage(),
                access: self.spec_access() | other.spec_access(),
            }
        }
    }

    pub open spec fn spec_empty() -> Self {
        ResourceAccessInfo::Read { stage: 0, access: 0 }
    }

    pub fn stage(&self) -> (r: u64)
        ensures
            r == self.spec_stage(),
    {
        match self {
            ResourceAccessInfo::Read { stage, .. } => *stage,
            ResourceAccessInfo::Write { stage, .. } => *stage,
        }
    }

    pub fn access(&self) -> (r: u64)
        ensures
            r == self.spec_access(),
    {
        match self {
            ResourceAccessInfo::Read { access, .. } => *access,
            ResourceAccessInfo::Write { access, .. } => *access,
        }
    }

    pub fn combine(&self, other: &Self) -> (r: Self)
        ensures
            r == self.spec_combine(*other),
    {
        let combined_stage = self.stage() | other.stage();
        let combined_access = self.access() | other.access();
        match (self, other) {
            (ResourceAccessInfo::Read { .. }, ResourceAccessInfo::Read { .. }) => ResourceAccessInfo::Read {
                stage: combined_stage,
                access: combined_access,
            },
            _ => ResourceAccessInfo::Write { stage: combined_stage, access: combined_access },
        }
    }

    pub fn into_combined(self, other: Self) -> (r: Self)
        ensures
            r == self.spec_combine(other),
    {
        self.combine(&other)
    }

    /// The access that waits for nothing: a read of no stage.
    pub fn empty() -> (r: Self)
        ensures
            r == Self::spec_empty(),
    {
        ResourceAccessInfo::Read { stage: 0, access: 0 }
    }
}


/// Whether bit `b` of `x` is set.
pub open spec fn has_bit(x: u64, b: u64) -> bool {
    (x >> b) & 1 == 1
}

proof fn lemma_or_bits(x: u64, y: u64)
    ensures
        forall|b: u64| #![trigger has_bit(x | y, b)] b < 64 ==> (has_bit(x | y, b) <==> has_bit(x, b) || has_bit(y, b)),
        (x | y == 0) <==> (x == 0 && y == 0),
{
    assert(forall|b: u64| #![trigger has_bit(x | y, b)] b < 64 ==> (has_bit(x | y, b) <==> has_bit(x, b) || has_bit(y, b))) by (bit_vector);
    assert((x | y == 0) <==> (x == 0 && y == 0)) by (bit_vector);
}

proof fn lemma_zero_bits(b: u64)
    ensures
        !has_bit(0, b),
{
    assert(!has_bit(0, b)) by (bit_vector);
}

/// Whether `w` takes part in a combination: every access does, or, when `skip_idle`, only
/// those that access memory.
pub open spec fn counts(w: ResourceAccessInfo, skip_idle: bool) -> bool {
    !skip_idle || w.spec_access() != 0
}

/// The accesses of `s` combined from the left, starting from the empty access; when
/// `skip_idle`, accesses of no memory access kind are left out.
pub open spec fn combined(s: Seq<ResourceAccessInfo>, skip_idle: bool) -> ResourceAccessInfo
    decreases s.len(),
{
    if s.len() == 0 {
        ResourceAccessInfo::spec_empty()
    } else {
        let rest = combined(s.drop_last(), skip_idle);
        if counts(s.last(), skip_idle) {
            rest.spec_combine(s.last())
        } else {
            rest
        }
    }
}

/// The combination of accesses holds exactly what its parts hold: a stage or access bit is set
/// when some counted access sets it, it is a write when some counted access writes, and it
/// accesses nothing when every counted access accesses nothing. So it does not depend on the
/// order or the repetition of the accesses.
pub proof fn lemma_combined(s: Seq<ResourceAccessInfo>, skip_idle: bool)
    ensures
        forall|b: u64| #![trigger has_bit(combined(s, skip_idle).spec_access(), b)] b < 64 ==> (has_bit(combined(s, skip_idle).spec_access(), b) <==> exists|i: int|
            0 <= i < s.len() && counts(s[i], skip_idle) && has_bit(s[i].spec_access(), b)),
        forall|b: u64| #![trigger has_bit(combined(s, skip_idle).spec_stage(), b)] b < 64 ==> (has_bit(combined(s, skip_idle).spec_stage(), b) <==> exists|i: int|
            0 <= i < s.len() && counts(s[i], skip_idle) && has_bit(s[i].spec_stage(), b)),
        (combined(s, skip_idle) is Write) <==> exists|i: int| 0 <= i < s.len() && counts(s[i], skip_idle) && s[i] is Write,
        (combined(s, skip_idle).spec_access() == 0) <==> forall|i: int| 0 <= i < s.len() && counts(s[i], skip_idle) ==> s[i].spec_access() == 0,
    decreases s.len(),
{
    if s.len() == 0 {
        assert forall|b: u64| b < 64 implies !has_bit(combined(s, skip_idle).spec_access(), b) && !has_bit(combined(s, skip_idle).spec_stage(), b) by {
            lemma_zero_bits(b);
        }
    } else {
        let t = s.drop_last();
        let x = s.last();
        lemma_combined(t, skip_idle);
        let c = combined(t, skip_idle);
        lemma_or_bits(c.spec_access(), x.spec_access());
        lemma_or_bits(c.spec_stage(), x.spec_stage());
        assert forall|i: int| 0 <= i < t.len() implies t[i] == s[i] by {}
        assert forall|b: u64| b < 64 implies (has_bit(combined(s, skip_idle).spec_access(), b) <==> exists|i: int|
            0 <= i < s.len() && counts(s[i], skip_idle) && has_bit(s[i].spec_access(), b)) by {
            if has_bit(combined(s, skip_idle).spec_access(), b) {
                if !(exists|i: int| 0 <= i < t.len() && counts(t[i], skip_idle) && has_bit(t[i].spec_access(), b)) {
                    assert(s[s.len() - 1] == x);
                }
            }
            if exists|i: int| 0 <= i < s.len() && counts(s[i], skip_idle) && has_bit(s[i].spec_access(), b) {
                let i = choose|i: int| 0 <= i < s.len() && counts(s[i], skip_idle) && has_bit(s[i].spec_access(), b);
                if i < t.len() {
                    assert(t[i] == s[i]);
                }
            }
        }
        assert forall|b: u64| b < 64 implies (has_bit(combined(s, skip_idle).spec_stage(), b) <==> exists|i: int|
            0 <= i < s.len() && counts(s[i], skip_idle) && has_bit(s[i].spec_stage(), b)) by {
            if has_bit(combined(s, skip_idle).spec_stage(), b) {
                if !(exists|i: int| 0 <= i < t.len() && counts(t[i], skip_idle) && has_bit(t[i].spec_stage(), b)) {
                    assert(s[s.len() - 1] == x);
                }
            }
            if exists|i: int| 0 <= i < s.len() && counts(s[i], skip_idle) && has_bit(s[i].spec_stage(), b) {
                let i = choose|i: int| 0 <= i < s.len() && counts(s[i], skip_idle) && has_bit(s[i].spec_stage(), b);
                if i < t.len() {
                    assert(t[i] == s[i]);
                }
            }
        }
        if combined(s, skip_idle) is Write {
            if !(exists|i: int| 0 <= i < t.len() && counts(t[i], skip_idle) && t[i] is Write) {
                assert(s[s.len() - 1] == x);
            }
        }
        if exists|i: int| 0 <= i < s.len() && counts(s[i], skip_idle) && s[i] is Write {
            let i = choose|i: int| 0 <= i < s.len() && counts(s[i], skip_idle) && s[i] is Write;
            if i < t.len() {
                assert(t[i] == s[i]);
            }
        }
        if combined(s, skip_idle).spec_access() != 0 {
            if forall|i: int| 0 <= i < t.len() && counts(t[i], skip_idle) ==> t[i].spec_access() == 0 {
                assert(s[s.len() - 1] == x);
            }
        }
        if exists|i: int| 0 <= i < s.len() && counts(s[i], skip_idle) && s[i].spec_access() != 0 {
            let i = choose|i: int| 0 <= i < s.len() && counts(s[i], skip_idle) && s[i].spec_access() != 0;
            if i < t.len() {
                assert(t[i] == s[i]);
            }
        }
    }
}

/// Combines accesses into one, from the left, starting from the empty access; when
/// `skip_idle`, accesses of no memory access kind are left out.
pub fn combine_all(s: &Vec<ResourceAccessInfo>, skip_idle: bool) -> (r: ResourceAccessInfo)
    ensures
        r == combined(s@, skip_idle),
{
    let mut acc = ResourceAccessInfo::empty();
    let mut i: usize = 0;
    while i < s.len()
        invariant
            0 <= i <= s@.len(),
            acc == combined(s@.take(i as int), skip_idle),
        decreases s@.len() - i,
    {
        let w = s[i];
        assert(s@.take(i + 1).drop_last() =~= s@.take(i as int));
        if !skip_idle || w.access() != 0 {
            acc = acc.into_combined(w);
        }
        i = i + 1;
    }
    assert(s@.take(s@.len() as int) =~= s@);
    acc
}

/// The range to record an access under: the range as it is.
pub fn limit_range_to(range: &KeyRange, max_range: &KeyRange) -> (r: KeyRange)
    ensures
        r == *range,
{
    *range
}

/// The map covering each point of an entry of `e` with that entry's value.
pub open spec fn cover_map<V>(e: Seq<(KeyRange, V)>) -> Map<u64, V> {
    Map::new(
        |p: u64| exists|i: int| 0 <= i < e.len() && #[trigger] e[i].0.has(p as int),
        |p: u64| e[choose|i: int| 0 <= i < e.len() && #[trigger] e[i].0.has(p as int)].1,
    )
}

/// Valid, ascending, pairwise disjoint entries.
pub open spec fn disjoint_entries<V>(e: Seq<(KeyRange, V)>) -> bool {
    &&& forall|i: int| 0 <= i < e.len() ==> (#[trigger] e[i]).0.valid()
    &&& forall|i: int, j: int| 0 <= i < j < e.len() ==> (#[trigger] e[i]).0.end < (#[trigger] e[j]).0.start
}

/// `a` and `b` hold the same value, or both none, at `p`.
pub open spec fn agrees_at<V>(a: Map<u64, V>, b: Map<u64, V>, p: u64) -> bool {
    &&& a.contains_key(p) == b.contains_key(p)
    &&& a.contains_key(p) ==> a[p] == b[p]
}

/// Overwriting the entries of `e` one after another over `base`.
proof fn lemma_cover_step<V>(base: Map<u64, V>, e: Seq<(KeyRange, V)>, k: int)
    requires
        disjoint_entries(e),
        0 <= k < e.len(),
    ensures
        overwritten(base.union_prefer_right(cover_map(e.take(k))), e[k].0, e[k].1) == base.union_prefer_right(
            cover_map(e.take(k + 1)),
        ),
{
    let a = e.take(k);
    let b = e.take(k + 1);
    let lhs = overwritten(base.union_prefer_right(cover_map(a)), e[k].0, e[k].1);
    let rhs = base.union_prefer_right(cover_map(b));
    assert forall|p: u64| #[trigger] lhs.contains_key(p) == rhs.contains_key(p) by {
        if cover_map(a).contains_key(p) {
            let i = choose|i: int| 0 <= i < a.len() && #[trigger] a[i].0.has(p as int);
            assert(b[i] == a[i]);
        }
        if cover_map(b).contains_key(p) && !e[k].0.has(p as int) {
            let i = choose|i: int| 0 <= i < b.len() && #[trigger] b[i].0.has(p as int);
            assert(i != k);
            assert(a[i] == b[i]);
        }
        if e[k].0.has(p as int) {
            assert(b[k].0.has(p as int));
        }
    }
    assert forall|p: u64| #[trigger] rhs.contains_key(p) implies lhs[p] == rhs[p] by {
        if cover_map(b).contains_key(p) {
            let i = choose|i: int| 0 <= i < b.len() && #[trigger] b[i].0.has(p as int);
            assert(rhs[p] == b[i].1);
            assert(b[i] == e[i]);
            if e[k].0.has(p as int) {
                assert(lhs[p] == e[k].1);
                if i < k {
                    assert(e[i].0.end < e[k].0.start);
                }
                assert(i == k);
            } else {
                assert(i != k);
                assert(a[i] == b[i]);
                assert(cover_map(a).contains_key(p));
                let j = choose|j: int| 0 <= j < a.len() && #[trigger] a[j].0.has(p as int);
                assert(a[j] == e[j]);
                if i < j {
                    assert(e[i].0.end < e[j].0.start);
                } else if j < i {
                    assert(e[j].0.end < e[i].0.start);
                }
                assert(lhs[p] == cover_map(a)[p]);
                assert(cover_map(a)[p] == a[j].1);
            }
        } else {
            assert(!e[k].0.has(p as int)) by {
                if e[k].0.has(p as int) {
                    assert(b[k].0.has(p as int));
                }
            }
            if cover_map(a).contains_key(p) {
                let i = choose|i: int| 0 <= i < a.len() && #[trigger] a[i].0.has(p as int);
                assert(b[i] == a[i]);
            }
            assert(lhs[p] == base[p]);
        }
    }
    assert(lhs =~= rhs);
}

/// Entries lying in `m` that cover every held point of `key` hold just what `m` holds on `key`.
proof fn lemma_cover_agrees<V>(e: Seq<(KeyRange, V)>, m: Map<u64, V>, key: KeyRange)
    requires
        entries_of(e, m),
        covers_key(e, m, key),
    ensures
        forall|p: u64| key.has(p as int) ==> #[trigger] agrees_at(cover_map(e), m, p),
{
    assert forall|p: u64| key.has(p as int) implies #[trigger] agrees_at(cover_map(e), m, p) by {
        if cover_map(e).contains_key(p) {
            let i = choose|i: int| 0 <= i < e.len() && #[trigger] e[i].0.has(p as int);
            assert(m.contains_key(p) && m[p] == e[i].1);
        }
        if m.contains_key(p) {
            let i = choose|i: int| 0 <= i < e.len() && #[trigger] e[i].0.has(p as int);
            assert(cover_map(e).contains_key(p));
        }
    }
}

/// Maps that agree on the points of `key` hold the same values there.
proof fn lemma_values_agree<V>(a: Map<u64, V>, b: Map<u64, V>, key: KeyRange)
    requires
        forall|p: u64| key.has(p as int) ==> #[trigger] agrees_at(a, b, p),
    ensures
        values_in(a, key) == values_in(b, key),
{
    assert forall|v: V| values_in(a, key).contains(v) <==> values_in(b, key).contains(v) by {
        if values_in(a, key).contains(v) {
            let p = choose|p: u64| key.has(p as int) && a.contains_key(p) && a[p] == v;
            assert(agrees_at(a, b, p));
        }
        if values_in(b, key).contains(v) {
            let p = choose|p: u64| key.has(p as int) && b.contains_key(p) && b[p] == v;
            assert(agrees_at(a, b, p));
        }
    }
    assert(values_in(a, key) =~= values_in(b, key));
}

/// On the points of its range, an overwrite of an optimised map writes the key as a plain map
/// would.
pub proof fn lemma_overwrite_on_range<M: RangeMapLike>(
    old: OptRangeMap<M>,
    key: KeyRange,
    value: M::Value,
    new: OptRangeMap<M>,
    r: Seq<(KeyRange, M::Value)>,
)
    requires
        overwrite_post(old, key, value, new, r),
    ensures
        forall|p: u64| old.max_range().has(p as int) ==> #[trigger] agrees_at(
            new.view(),
            overwritten(old.view(), key, value),
            p,
        ),
{
    assert forall|p: u64| old.max_range().has(p as int) implies #[trigger] agrees_at(
        new.view(),
        overwritten(old.view(), key, value),
        p,
    ) by {
        if !spec_is_empty_range(key) && spec_is_max_range(old.max_range(), key) {
            assert(key.has(p as int));
        }
    }
}

/// On the points of its range, a cut of an optimised map removes the key as from a plain map.
pub proof fn lemma_cut_on_range<M: RangeMapLike>(
    old: OptRangeMap<M>,
    key: KeyRange,
    new: OptRangeMap<M>,
    r: Seq<(KeyRange, M::Value)>,
)
    requires
        cut_post(old, key, new, r),
    ensures
        forall|p: u64| old.max_range().has(p as int) ==> #[trigger] agrees_at(new.view(), removed(old.view(), key), p),
{
    assert forall|p: u64| old.max_range().has(p as int) implies #[trigger] agrees_at(
        new.view(),
        removed(old.view(), key),
        p,
    ) by {
        if !spec_is_empty_range(key) && spec_is_max_range(old.max_range(), key) {
            assert(key.has(p as int));
        }
    }
}

/// What an overwrite of an optimised access map returns lies in the old map and covers what it
/// held on the key.
pub proof fn lemma_overwrite_entries(
    old: OptRangeMap<RangeMap>,
    key: KeyRange,
    value: ResourceAccessInfo,
    new: OptRangeMap<RangeMap>,
    r: Seq<(KeyRange, ResourceAccessInfo)>,
)
    requires
        old.wf(),
        overwrite_post(old, key, value, new, r),
    ensures
        entries_of(r, old.view()),
        covers_key(r, old.view(), key),
{
    if spec_is_empty_range(key) {
        assert forall|p: u64| key.has(p as int) && #[trigger] old.view().contains_key(p) implies exists|i: int|
            0 <= i < r.len() && #[trigger] r[i].0.has(p as int) by {}
    } else {
        match old.whole() {
            Some(Some(v)) => {
                if !spec_is_max_range(old.max_range(), key) {
                    let m = choose|m: RangeMap| #[trigger] filled_fresh(m, old.max_range(), v) && m.reports_cut(key, r);
                } else {
                    assert forall|p: u64| key.has(p as int) && #[trigger] old.view().contains_key(p) implies exists|i: int|
                        0 <= i < r.len() && #[trigger] r[i].0.has(p as int) by {
                        assert(r[0].0.has(p as int));
                    }
                }
            },
            _ => {},
        }
    }
}

/// What a cut of an optimised access map returns lies in the old map, inside the key, and
/// covers what it held on the key.
pub proof fn lemma_cut_entries(
    old: OptRangeMap<RangeMap>,
    key: KeyRange,
    new: OptRangeMap<RangeMap>,
    r: Seq<(KeyRange, ResourceAccessInfo)>,
)
    requires
        old.wf(),
        cut_post(old, key, new, r),
    ensures
        entries_of(r, old.view()),
        covers_key(r, old.view(), key),
        forall|i: int, p: u64| 0 <= i < r.len() && #[trigger] r[i].0.has(p as int) ==> key.has(p as int),
{
    if spec_is_empty_range(key) {
        assert forall|p: u64| key.has(p as int) && #[trigger] old.view().contains_key(p) implies exists|i: int|
            0 <= i < r.len() && #[trigger] r[i].0.has(p as int) by {}
    } else {
        match old.whole() {
            Some(Some(v)) => {
                if !spec_is_max_range(old.max_range(), key) {
                    let m = choose|m: RangeMap| #[trigger] filled_fresh(m, old.max_range(), v) && m.reports_cut(key, r);
                } else {
                    assert forall|p: u64| key.has(p as int) && #[trigger] old.view().contains_key(p) implies exists|i: int|
                        0 <= i < r.len() && #[trigger] r[i].0.has(p as int) by {
                        assert(r[0].0.has(p as int));
                    }
                }
            },
            _ => {},
        }
    }
}

/// The layout map of a fresh image of `mip_level_count` levels: every level undefined.
pub open spec fn fresh_layouts(mip_level_count: u64) -> OptRangeMap<SmallArrayRangeMap<i32>> {
    OptRangeMap::uniform(KeyRange { start: 0, end: (mip_level_count - 1) as u64 }, Some(LAYOUT_UNDEFINED))
}

/// Makes the layout map of a fresh image: all of `0 .. mip_level_count` undefined.
fn new_layouts(mip_level_count: u64) -> (r: OptRangeMap<SmallArrayRangeMap<i32>>)
    requires
        mip_level_count > 0,
    ensures
        r == fresh_layouts(mip_level_count),
        r.wf(),
{
    let max_range = KeyRange::ie(0, mip_level_count);
    let mut layouts = OptRangeMap::new_with_max_range(max_range);
    let _ = layouts.overwrite(max_range, LAYOUT_UNDEFINED);
    proof {
        OptRangeMap::<SmallArrayRangeMap<i32>>::lemma_uniform(max_range, Some(LAYOUT_UNDEFINED), layouts);
    }
    layouts
}

/// The read recorded at `p` when `value` is read into the reads `reads`: combined into the read
/// already there, or `value` where none was.
pub open spec fn read_at(reads: Map<u64, ResourceAccessInfo>, value: ResourceAccessInfo, p: u64) -> ResourceAccessInfo {
    if reads.contains_key(p) {
        reads[p].spec_combine(value)
    } else {
        value
    }
}

/// Reading `value` over `range` into the reads `before` gave `after`: on the points of the
/// range, `value` combined into the read already there, or `value` where none was; elsewhere
/// the reads as they were.
pub open spec fn reads_recorded(
    before: OptRangeMap<RangeMap>,
    range: KeyRange,
    value: ResourceAccessInfo,
    after: OptRangeMap<RangeMap>,
) -> bool {
    &&& after.wf()
    &&& after.max_range() == before.max_range()
    &&& forall|p: u64| before.max_range().has(p as int) && range.has(p as int) ==> #[trigger] after.view().contains_key(p)
        && after.view()[p] == read_at(before.view(), value, p)
    &&& forall|p: u64| before.max_range().has(p as int) && !range.has(p as int) ==> #[trigger] agrees_at(
        after.view(),
        before.view(),
        p,
    )
}

/// The record of a resource nothing has accessed yet: no writes and no reads over `max_range`.
pub open spec fn fresh_rw(max_range: KeyRange) -> (OptRangeMap<RangeMap>, OptRangeMap<RangeMap>) {
    (OptRangeMap::uniform(max_range, None), OptRangeMap::uniform(max_range, None))
}

/// A read recorded by combining with `into_combined` is recorded as `reads_recorded` says.
proof fn lemma_reads_combined(
    before: OptRangeMap<RangeMap>,
    range: KeyRange,
    value: ResourceAccessInfo,
    after: OptRangeMap<RangeMap>,
)
    requires
        after.wf(),
        after.max_range() == before.max_range(),
        forall|p: u64|
            before.max_range().has(p as int) && range.has(p as int) ==> {
                &&& #[trigger] after.view().contains_key(p)
                &&& before.view().contains_key(p) ==> call_ensures(
                    ResourceAccessInfo::into_combined,
                    (before.view()[p], value),
                    after.view()[p],
                )
                &&& !before.view().contains_key(p) ==> after.view()[p] == value
            },
        forall|p: u64|
            before.max_range().has(p as int) && !range.has(p as int) ==> #[trigger] agrees_at(
                after.view(),
                before.view(),
                p,
            ),
    ensures
        reads_recorded(before, range, value, after),
{
    assert forall|p: u64| before.max_range().has(p as int) && range.has(p as int) implies #[trigger] after.view().contains_key(p)
        && after.view()[p] == read_at(before.view(), value, p) by {
        assert(after.view().contains_key(p));
    }
}

/// Stores the last write, and all *subsequent* reads.
pub struct ResourceRW {
    /// The last write to the resource.
    write: OptRangeMap<RangeMap>,
    /// All subsequent reads from the resource.
    reads: OptRangeMap<RangeMap>,
}

impl ResourceRW {
    pub closed spec fn write_map(&self) -> OptRangeMap<RangeMap> {
        self.write
    }

    pub closed spec fn reads_map(&self) -> OptRangeMap<RangeMap> {
        self.reads
    }

    /// The last writes and the reads since, as a pair.
    pub open spec fn maps(&self) -> (OptRangeMap<RangeMap>, OptRangeMap<RangeMap>) {
        (self.write_map(), self.reads_map())
    }

    /// Both maps are well formed over one range.
    pub open spec fn wf(&self) -> bool {
        &&& self.write_map().wf()
        &&& self.reads_map().wf()
        &&& self.write_map().max_range() == self.reads_map().max_range()
    }

    pub fn new(max_range: KeyRange) -> (r: Self)
        requires
            max_range.valid(),
        ensures
            r.wf(),
            r.write_map() == OptRangeMap::<RangeMap>::uniform(max_range, None),
            r.reads_map() == OptRangeMap::<RangeMap>::uniform(max_range, None),
    {
        ResourceRW {
            write: OptRangeMap::new_with_max_range(max_range),
            reads: OptRangeMap::new_with_max_range(max_range),
        }
    }

    /// Records a write over `range` and returns the accesses it has to wait for: on each point
    /// of the range, the reads made since the last write, or the last write where none was.
    pub fn add_write(&mut self, range: KeyRange, value: ResourceAccessInfo) -> (r: Vec<ResourceAccessInfo>)
        requires
            old(self).wf(),
            range.valid(),
        ensures
            final(self).wf(),
            rw_step(old(self).maps(), range, true, value, final(self).maps(), r@),
    {
        let ghost w0 = self.write;
        let ghost r0 = self.reads;
        let old_writes = self.write.overwrite(range, value);
        let old_reads = self.reads.cut(range);
        proof {
            lemma_overwrite_entries(w0, range, value, self.write, old_writes@);
            lemma_cut_entries(r0, range, self.reads, old_reads@);
        }
        let mut range_map = RangeMap::new_with_max_range(range);
        let mut i: usize = 0;
        proof {
            assert(Map::<u64, ResourceAccessInfo>::empty().union_prefer_right(cover_map(old_writes@.take(0)))
                =~= range_map.view());
        }
        while i < old_writes.len()
            invariant
                0 <= i <= old_writes@.len(),
                disjoint_entries(old_writes@),
                range_map.view() == Map::<u64, ResourceAccessInfo>::empty().union_prefer_right(
                    cover_map(old_writes@.take(i as int)),
                ),
            decreases old_writes@.len() - i,
        {
            let (key, value) = old_writes[i];
            proof {
                lemma_cover_step(Map::<u64, ResourceAccessInfo>::empty(), old_writes@, i as int);
            }
            let _ = range_map.overwrite(key, value);
            i = i + 1;
        }
        let ghost wc = cover_map(old_writes@);
        proof {
            assert(old_writes@.take(old_writes@.len() as int) =~= old_writes@);
            assert(range_map.view() =~= wc);
            assert(wc.union_prefer_right(cover_map(old_reads@.take(0))) =~= wc);
        }
        let mut j: usize = 0;
        while j < old_reads.len()
            invariant
                0 <= j <= old_reads@.len(),
                disjoint_entries(old_reads@),
                range_map.view() == wc.union_prefer_right(cover_map(old_reads@.take(j as int))),
            decreases old_reads@.len() - j,
        {
            let (key, value) = old_reads[j];
            proof {
                lemma_cover_step(wc, old_reads@, j as int);
            }
            let _ = range_map.overwrite(key, value);
            j = j + 1;
        }
        let entries = range_map.get_all(&range);
        let mut out: Vec<ResourceAccessInfo> = Vec::new();
        let mut k: usize = 0;
        while k < entries.len()
            invariant
                0 <= k <= entries@.len(),
                out@ == entries@.take(k as int).map_values(|e: (KeyRange, ResourceAccessInfo)| e.1),
            decreases entries@.len() - k,
        {
            out.push(entries[k].1);
            proof {
                assert(entries@.take(k + 1) =~= entries@.take(k as int).push(entries@[k as int]));
            }
            k = k + 1;
        }
        proof {
            assert(old_reads@.take(old_reads@.len() as int) =~= old_reads@);
            assert(entries@.take(entries@.len() as int) =~= entries@);
            let rc = cover_map(old_reads@);
            lemma_cover_agrees(old_writes@, w0.view(), range);
            lemma_cover_agrees(old_reads@, r0.view(), range);
            assert forall|p: u64| range.has(p as int) implies #[trigger] agrees_at(
                wc.union_prefer_right(rc),
                w0.view().union_prefer_right(r0.view()),
                p,
            ) by {
                assert(agrees_at(wc, w0.view(), p));
                assert(agrees_at(rc, r0.view(), p));
            }
            lemma_values_agree(wc.union_prefer_right(rc), w0.view().union_prefer_right(r0.view()), range);
            assert(overwrite_post(old(self).maps().0, range, value, self.maps().0, old_writes@));
            assert(cut_post(old(self).maps().1, range, self.maps().1, old_reads@));
            assert(out@.to_set() =~= values_of(entries@)) by {
                assert forall|v: ResourceAccessInfo| out@.to_set().contains(v) <==> values_of(entries@).contains(v) by {
                    if out@.to_set().contains(v) {
                        let i = choose|i: int| 0 <= i < out@.len() && out@[i] == v;
                        assert(entries@[i].1 == v);
                    }
                    if values_of(entries@).contains(v) {
                        let i = choose|i: int| 0 <= i < entries@.len() && entries@[i].1 == v;
                        assert(out@[i] == v);
                        assert(out@.contains(v));
                    }
                }
            }
        }
        out
    }

    /// Records a read over `range` and returns the accesses it has to wait for: the last
    /// writes on `range`. On each point of the range the read is combined by `combine_values`
    /// into the read already recorded there, or recorded as it is where none was.
    pub fn add_read<F: Fn(ResourceAccessInfo, ResourceAccessInfo) -> ResourceAccessInfo>(
        &mut self,
        range: KeyRange,
        value: ResourceAccessInfo,
        combine_values: F,
    ) -> (r: Vec<ResourceAccessInfo>)
        requires
            old(self).wf(),
            range.valid(),
            forall|a: ResourceAccessInfo, b: ResourceAccessInfo| call_requires(combine_values, (a, b)),
        ensures
            final(self).wf(),
            final(self).write_map() == old(self).write_map(),
            exists|e: Seq<(KeyRange, ResourceAccessInfo)>| #[trigger] old(self).write_map().reports(range, e)
                && r@ == e.map_values(|x: (KeyRange, ResourceAccessInfo)| x.1),
            range.meets(old(self).write_map().max_range()) ==> r@.to_set() == values_in(
                old(self).write_map().view(),
                range,
            ),
            final(self).reads_map().max_range() == old(self).reads_map().max_range(),
            forall|p: u64|
                old(self).reads_map().max_range().has(p as int) && range.has(p as int) ==> {
                    &&& #[trigger] final(self).reads_map().view().contains_key(p)
                    &&& old(self).reads_map().view().contains_key(p) ==> call_ensures(
                        combine_values,
                        (old(self).reads_map().view()[p], value),
                        final(self).reads_map().view()[p],
                    )
                    &&& !old(self).reads_map().view().contains_key(p) ==> final(self).reads_map().view()[p] == value
                },
            forall|p: u64|
                old(self).reads_map().max_range().has(p as int) && !range.has(p as int) ==> #[trigger] agrees_at(
                    final(self).reads_map().view(),
                    old(self).reads_map().view(),
                    p,
                ),
    {
        let ghost r0 = self.reads;
        let ghost w0 = self.write;
        let ghost max = r0.max_range();
        let pieces = self.reads.cut(range);
        let ghost r1 = self.reads;
        proof {
            lemma_cut_entries(r0, range, r1, pieces@);
            lemma_cut_on_range(r0, range, r1, pieces@);
        }
        let _ = self.reads.overwrite(range, value);
        let ghost r2 = self.reads;
        proof {
            assert(exists|e: Seq<(KeyRange, ResourceAccessInfo)>| #[trigger] overwrite_post(r1, range, value, r2, e));
            let e = choose|e: Seq<(KeyRange, ResourceAccessInfo)>| #[trigger] overwrite_post(r1, range, value, r2, e);
            lemma_overwrite_on_range(r1, range, value, r2, e);
            assert forall|p: u64| max.has(p as int) && !range.has(p as int) implies #[trigger] agrees_at(r2.view(), r0.view(), p) by {
                assert(agrees_at(r2.view(), overwritten(r1.view(), range, value), p));
                assert(agrees_at(r1.view(), removed(r0.view(), range), p));
            }
            assert forall|p: u64| max.has(p as int) && range.has(p as int) implies #[trigger] r2.view().contains_key(p)
                && r2.view()[p] == value by {
                assert(agrees_at(r2.view(), overwritten(r1.view(), range, value), p));
            }
        }
        let ghost mut res: Seq<ResourceAccessInfo> = Seq::empty();
        let mut i: usize = 0;
        while i < pieces.len()
            invariant
                0 <= i <= pieces@.len(),
                self.write == w0,
                self.reads.wf(),
                self.reads.max_range() == max,
                entries_of(pieces@, r0.view()),
                covers_key(pieces@, r0.view(), range),
                forall|k: int, p: u64| 0 <= k < pieces@.len() && #[trigger] pieces@[k].0.has(p as int) ==> range.has(p as int),
                forall|a: ResourceAccessInfo, b: ResourceAccessInfo| call_requires(combine_values, (a, b)),
                res.len() == i,
                forall|k: int| 0 <= k < i ==> call_ensures(combine_values, (pieces@[k].1, value), #[trigger] res[k]),
                forall|p: u64| max.has(p as int) && range.has(p as int) ==> {
                    &&& #[trigger] self.reads.view().contains_key(p)
                    &&& (forall|k: int| 0 <= k < i ==> !pieces@[k].0.has(p as int)) ==> self.reads.view()[p] == value
                    &&& forall|k: int| 0 <= k < i && pieces@[k].0.has(p as int) ==> self.reads.view()[p] == res[k]
                },
                forall|p: u64| max.has(p as int) && !range.has(p as int) ==> #[trigger] agrees_at(self.reads.view(), r0.view(), p),
            decreases pieces@.len() - i,
        {
            let (k, v) = pieces[i];
            let nv = combine_values(v, value);
            let ghost c0 = self.reads;
            let ghost ik = i as int;
            let ov = self.reads.overwrite(k, nv);
            i = i + 1;
            proof {
                assert(pieces@[ik].0.valid());
                lemma_overwrite_on_range(c0, k, nv, self.reads, ov@);
                let res0 = res;
                res = res.push(nv);
                assert(k == pieces@[ik].0);
                assert forall|p: u64| max.has(p as int) && range.has(p as int) implies {
                    &&& #[trigger] self.reads.view().contains_key(p)
                    &&& (forall|m: int| 0 <= m < i ==> !pieces@[m].0.has(p as int)) ==> self.reads.view()[p] == value
                    &&& forall|m: int| 0 <= m < i && pieces@[m].0.has(p as int) ==> self.reads.view()[p] == res[m]
                } by {
                    assert(agrees_at(self.reads.view(), overwritten(c0.view(), k, nv), p));
                    assert(c0.view().contains_key(p));
                    if k.has(p as int) {
                        assert(self.reads.view()[p] == nv);
                        assert(pieces@[ik].0.has(p as int));
                        assert forall|m: int| 0 <= m < i && pieces@[m].0.has(p as int) implies self.reads.view()[p] == res[m] by {
                            if m < ik {
                                assert(pieces@[m].0.end < pieces@[ik].0.start);
                            }
                        }
                    } else {
                        assert(self.reads.view()[p] == c0.view()[p]);
                        assert(!pieces@[ik].0.has(p as int));
                        if forall|m: int| 0 <= m < i ==> !#[trigger] pieces@[m].0.has(p as int) {
                            assert(forall|m: int| 0 <= m < ik ==> !#[trigger] pieces@[m].0.has(p as int));
                            assert(c0.view()[p] == value);
                        }
                        assert forall|m: int| 0 <= m < i && pieces@[m].0.has(p as int) implies self.reads.view()[p] == res[m] by {
                            assert(m < ik);
                            assert(res[m] == res0[m]);
                        }
                    }
                }
                assert forall|p: u64| max.has(p as int) && !range.has(p as int) implies #[trigger] agrees_at(self.reads.view(), r0.view(), p) by {
                    assert(agrees_at(self.reads.view(), overwritten(c0.view(), k, nv), p));
                    assert(agrees_at(c0.view(), r0.view(), p));
                    if k.has(p as int) {
                        assert(pieces@[ik].0.has(p as int));
                    }
                }
                assert forall|m: int| 0 <= m < i implies call_ensures(combine_values, (pieces@[m].1, value), #[trigger] res[m]) by {}
            }
        }
        proof {
            assert forall|p: u64| max.has(p as int) && range.has(p as int) && r0.view().contains_key(p) implies call_ensures(
                combine_values,
                (r0.view()[p], value),
                self.reads.view()[p],
            ) by {
                let m = choose|m: int| 0 <= m < pieces@.len() && #[trigger] pieces@[m].0.has(p as int);
                assert(r0.view()[p] == pieces@[m].1);
                assert(self.reads.view().contains_key(p));
                assert(self.reads.view()[p] == res[m]);
            }
            assert forall|p: u64| max.has(p as int) && range.has(p as int) && !r0.view().contains_key(p) implies self.reads.view()[p] == value by {
                assert forall|m: int| 0 <= m < pieces@.len() implies !pieces@[m].0.has(p as int) by {
                    if pieces@[m].0.has(p as int) {
                        assert(r0.view().contains_key(p));
                    }
                }
                assert(self.reads.view().contains_key(p));
            }
        }
        let entries = self.write.get_all(&range);
        let mut out: Vec<ResourceAccessInfo> = Vec::new();
        let mut k: usize = 0;
        while k < entries.len()
            invariant
                0 <= k <= entries@.len(),
                out@ == entries@.take(k as int).map_values(|e: (KeyRange, ResourceAccessInfo)| e.1),
            decreases entries@.len() - k,
        {
            out.push(entries[k].1);
            proof {
                assert(entries@.take(k + 1) =~= entries@.take(k as int).push(entries@[k as int]));
            }
            k = k + 1;
        }
        proof {
            assert(entries@.take(entries@.len() as int) =~= entries@);
            let w = self.write;
            if range.meets(w.max_range()) {
                assert(out@.to_set() =~= values_in(w.view(), range)) by {
                    match w.whole() {
                        Some(None) => {},
                        Some(Some(v)) => {
                            let p: u64 = if w.max_range().start <= range.start {
                                range.start
                            } else {
                                w.max_range().start
                            };
                            assert(range.has(p as int));
                            assert(w.max_range().has(p as int));
                            assert(w.view().contains_key(p));
                            assert(w.view()[p] == v);
                            assert(values_in(w.view(), range).contains(v));
                            assert(out@[0] == v);
                            assert(out@.to_set().contains(v));
                        },
                        None => {
                            assert forall|v: ResourceAccessInfo| out@.to_set().contains(v) <==> values_of(
                                entries@,
                            ).contains(v) by {
                                if out@.to_set().contains(v) {
                                    let i = choose|i: int| 0 <= i < out@.len() && out@[i] == v;
                                    assert(entries@[i].1 == v);
                                }
                                if values_of(entries@).contains(v) {
                                    let i = choose|i: int| 0 <= i < entries@.len() && entries@[i].1 == v;
                                    assert(out@[i] == v);
                                    assert(out@.contains(v));
                                }
                            }
                        },
                    }
                }
            }
        }
        out
    }
}

/// An internal check of the synchronisation failed. Each stops the renderer.
#[derive(Clone, Copy, Debug, PartialEq, Eq, Structural)]
pub enum SyncError {
    /// The accessed mip levels reach past the slots of the image's layout map.
    LayoutSlotOutOfRange,
    /// All slots in the range map should be filled, but no layout was recorded for the access.
    LayoutMissing,
    /// A recorded layout range does not lie inside the accessed mip levels.
    LayoutOutsideAccess,
}

impl SyncError {
    /// The message the renderer stops with.
    pub fn message(&self) -> (r: &'static str)
        ensures
            *self is LayoutSlotOutOfRange ==> r@ == "index out of bounds: the layout map has no slot for this mip level"@,
            *self is LayoutMissing ==> r@ == "All slots in the range map should be filled"@,
            *self is LayoutOutsideAccess ==> r@ == "A recorded layout range lies outside the accessed mip levels"@,
    {
        match self {
            SyncError::LayoutSlotOutOfRange => "index out of bounds: the layout map has no slot for this mip level",
            SyncError::LayoutMissing => "All slots in the range map should be filled",
            SyncError::LayoutOutsideAccess => "A recorded layout range lies outside the accessed mip levels",
        }
    }
}

/// Whether every recorded layout stretch lies inside the accessed levels.
fn all_inside(e: &Vec<(KeyRange, i32)>, range: &KeyRange) -> (r: bool)
    ensures
        r == entries_inside(e@, *range),
{
    let mut i: usize = 0;
    while i < e.len()
        invariant
            0 <= i <= e@.len(),
            forall|j: int| 0 <= j < i ==> #[trigger] entry_inside(e@[j], *range),
        decreases e@.len() - i,
    {
        let k = e[i].0;
        if !(k.is_valid() && range.contains(k.start) && range.contains(k.end)) {
            assert(!entry_inside(e@[i as int], *range));
            return false;
        }
        i = i + 1;
    }
    true
}

/// A recorded layout stretch lies inside the accessed levels.
pub open spec fn entry_inside(e: (KeyRange, i32), range: KeyRange) -> bool {
    e.0.valid() && range.has(e.0.start as int) && range.has(e.0.end as int)
}

/// Every stretch of an access's result lies inside the accessed levels.
pub open spec fn entries_inside_all(v: Seq<(KeyRange, i32, Vec<ResourceAccessInfo>)>, range: KeyRange) -> bool {
    forall|i: int| 0 <= i < v.len() ==> #[trigger] entry_inside((v[i].0, v[i].1), range)
}

/// Every recorded layout stretch lies inside the accessed levels.
pub open spec fn entries_inside(e: Seq<(KeyRange, i32)>, range: KeyRange) -> bool {
    forall|i: int| 0 <= i < e.len() ==> #[trigger] entry_inside(e[i], range)
}

/// One access to the record of a resource: with the last writes and the reads since
/// `before`, an access (a write when `is_write`) of `value` to `range` waits for `waits` and
/// leaves `after`. A write replaces the last writes on `range`, clears the reads there, and
/// waits, on each point of the range, for the reads since the last write, or for the last
/// write where none was made. A read leaves the last writes, waits for those on `range`, and
/// is recorded with the reads.
pub open spec fn rw_step(
    before: (OptRangeMap<RangeMap>, OptRangeMap<RangeMap>),
    range: KeyRange,
    is_write: bool,
    value: ResourceAccessInfo,
    after: (OptRangeMap<RangeMap>, OptRangeMap<RangeMap>),
    waits: Seq<ResourceAccessInfo>,
) -> bool {
    if is_write {
        &&& exists|e: Seq<(KeyRange, ResourceAccessInfo)>| #[trigger] overwrite_post(before.0, range, value, after.0, e)
        &&& exists|e: Seq<(KeyRange, ResourceAccessInfo)>| #[trigger] cut_post(before.1, range, after.1, e)
        &&& waits.to_set() == values_in(before.0.view().union_prefer_right(before.1.view()), range)
    } else {
        &&& after.0 == before.0
        &&& exists|e: Seq<(KeyRange, ResourceAccessInfo)>| #[trigger] before.0.reports(range, e)
            && waits == e.map_values(|x: (KeyRange, ResourceAccessInfo)| x.1)
        &&& range.meets(before.0.max_range()) ==> waits.to_set() == values_in(before.0.view(), range)
        &&& reads_recorded(before.1, range, value, after.1)
    }
}

/// The recorded form of an access of `stage` and `access`: a write when `is_write`, else a read.
pub open spec fn access_as(is_write: bool, stage: u64, access: u64) -> ResourceAccessInfo {
    if is_write {
        ResourceAccessInfo::Write { stage, access }
    } else {
        ResourceAccessInfo::Read { stage, access }
    }
}

/// One stretch of an image access: an access of `info` in `layout` to the levels `stretch`,
/// which were in `old_layout`. It counts as a write when it writes memory or changes the layout.
pub open spec fn image_step(
    before: (OptRangeMap<RangeMap>, OptRangeMap<RangeMap>),
    stretch: KeyRange,
    old_layout: i32,
    layout: i32,
    info: ImageAccessInfo,
    after: (OptRangeMap<RangeMap>, OptRangeMap<RangeMap>),
    waits: Seq<ResourceAccessInfo>,
) -> bool {
    rw_step(
        before,
        stretch,
        info.spec_is_write(layout, Some(old_layout)),
        access_as(info.spec_is_write(layout, Some(old_layout)), info.stage, info.access),
        after,
        waits,
    )
}

/// The stretches of an image access taken in turn: `st[i]` is the record before stretch `i`,
/// and `st[i + 1]` the one after it.
pub open spec fn image_steps(
    st: Seq<(OptRangeMap<RangeMap>, OptRangeMap<RangeMap>)>,
    v: Seq<(KeyRange, i32, Vec<ResourceAccessInfo>)>,
    layout: i32,
    info: ImageAccessInfo,
) -> bool {
    &&& st.len() == v.len() + 1
    &&& forall|i: int| 0 <= i < v.len() ==> #[trigger] image_step(st[i], v[i].0, v[i].1, layout, info, st[i + 1], v[i].2@)
}

/// What recording an access to buffer `key` (of `max_size` bytes) does: it changes only the
/// record of that buffer, by the access step on its last writes and the reads since, and waits
/// for `waits`.
pub open spec fn buffer_access_post(
    before: SyncManagerInternal,
    key: u64,
    max_size: u64,
    info: BufferAccessInfo,
    after: SyncManagerInternal,
    waits: Seq<ResourceAccessInfo>,
) -> bool {
    &&& after.wf()
    &&& after.image_map() == before.image_map()
    &&& after.layout_map() == before.layout_map()
    &&& after.buffer_counter() == before.buffer_counter()
    &&& after.image_counter() == before.image_counter()
    &&& after.buffer_map() == before.buffer_map().insert(key, after.buffer_map()[key])
    &&& rw_step(
        before.prior_buffer_rw(key, max_size),
        info.spec_range(),
        info.spec_is_write(),
        access_as(info.spec_is_write(), info.stage, info.access),
        after.buffer_map()[key].maps(),
        waits,
    )
}

/// What recording an access to the mip levels of image `key` (of `mip_level_count` levels) in
/// `layout` does. The layout map is overwritten first; the access fails when the map has no slot
/// for an accessed level, when no old layout was recorded for it, or when a recorded stretch
/// does not lie inside the accessed levels, and only then are the image's accesses left as they
/// were. Otherwise each recorded stretch, in turn, is an image step on the image's last writes
/// and the reads since.
pub open spec fn image_access_post(
    before: SyncManagerInternal,
    key: u64,
    mip_level_count: u64,
    layout: i32,
    access: ImageAccessInfo,
    after: SyncManagerInternal,
    r: Result<Vec<(KeyRange, i32, Vec<ResourceAccessInfo>)>, SyncError>,
) -> bool {
    &&& after.wf()
    &&& after.buffer_map() == before.buffer_map()
    &&& after.buffer_counter() == before.buffer_counter()
    &&& after.image_counter() == before.image_counter()
    &&& after.layout_map() == before.layout_map().insert(key, after.layout_map()[key])
    &&& r is Err ==> after.image_map() == before.image_map()
    &&& r is Ok ==> after.image_map() == before.image_map().insert(key, after.image_map()[key])
    &&& (r == Err::<Vec<(KeyRange, i32, Vec<ResourceAccessInfo>)>, SyncError>(SyncError::LayoutSlotOutOfRange))
        <==> !before.prior_layouts(key, mip_level_count).overwrite_ok(access.spec_range())
    &&& r == Err::<Vec<(KeyRange, i32, Vec<ResourceAccessInfo>)>, SyncError>(SyncError::LayoutSlotOutOfRange)
        ==> after.layout_map()[key] == before.prior_layouts(key, mip_level_count)
    &&& before.prior_layouts(key, mip_level_count).overwrite_ok(access.spec_range()) ==> exists|
        e: Seq<(KeyRange, i32)>,
    | #[trigger]
        overwrite_post(
            before.prior_layouts(key, mip_level_count),
            access.spec_range(),
            layout,
            after.layout_map()[key],
            e,
        ) && match r {
            Err(SyncError::LayoutMissing) => e.len() == 0,
            Err(SyncError::LayoutOutsideAccess) => e.len() > 0 && !entries_inside(e, access.spec_range()),
            Err(SyncError::LayoutSlotOutOfRange) => false,
            Ok(v) => {
                &&& e.len() > 0
                &&& entries_inside(e, access.spec_range())
                &&& v@.len() == e.len()
                &&& forall|i: int| 0 <= i < v@.len() ==> (#[trigger] v@[i]).0 == e[i].0 && v@[i].1 == e[i].1
                &&& exists|st: Seq<(OptRangeMap<RangeMap>, OptRangeMap<RangeMap>)>| #[trigger]
                    image_steps(st, v@, layout, access) && st[0] == before.prior_rw(key, mip_level_count)
                        && st[v@.len() as int] == after.image_map()[key].maps()
            },
        }
}

/// The barrier a buffer access needs after waiting for `waits`: none when no waited access
/// accesses memory; otherwise one from the combined accesses that do, to the new access, on
/// the accessed bytes.
pub open spec fn spec_buffer_barrier(waits: Seq<ResourceAccessInfo>, a: BufferAccess) -> Option<BufferMemoryBarrier> {
    let c = combined(waits, true);
    if c.spec_access() == 0 {
        None
    } else {
        Some(
            BufferMemoryBarrier {
                src_stage_mask: c.spec_stage(),
                src_access_mask: c.spec_access(),
                dst_stage_mask: a.access.stage,
                dst_access_mask: a.access.access,
                src_queue_family_index: QUEUE_FAMILY_IGNORED,
                dst_queue_family_index: QUEUE_FAMILY_IGNORED,
                buffer: a.buffer,
                offset: a.access.offset,
                size: a.access.size,
            },
        )
    }
}

/// The barrier an image access needs on the mip levels `stretch`, which were in `old_layout`,
/// after waiting for `waits`: from all of them combined to the new access, with the layout
/// transition from `old_layout` to the access's layout.
pub open spec fn spec_image_barrier(
    waits: Seq<ResourceAccessInfo>,
    stretch: KeyRange,
    old_layout: i32,
    a: ImageAccess,
) -> ImageMemoryBarrier {
    let c = combined(waits, false);
    ImageMemoryBarrier {
        src_stage_mask: c.spec_stage(),
        src_access_mask: c.spec_access(),
        dst_stage_mask: a.access.stage,
        dst_access_mask: a.access.access,
        old_layout,
        new_layout: a.layout,
        src_queue_family_index: QUEUE_FAMILY_IGNORED,
        dst_queue_family_index: QUEUE_FAMILY_IGNORED,
        image: a.image,
        subresource_range: ImageSubresourceRange {
            aspect_mask: a.access.subresource_range.aspect_mask,
            base_mip_level: stretch.start as u32,
            level_count: (stretch.end + 1 - stretch.start) as u32,
            base_array_layer: a.access.subresource_range.base_array_layer,
            layer_count: a.access.subresource_range.layer_count,
        },
    }
}

/// Makes the barrier a buffer access needs after waiting for `waits`.
pub fn buffer_barrier(waits: &Vec<ResourceAccessInfo>, a: &BufferAccess) -> (r: Option<BufferMemoryBarrier>)
    ensures
        r == spec_buffer_barrier(waits@, *a),
{
    let c = combine_all(waits, true);
    if c.access() == 0 {
        None
    } else {
        Some(
            BufferMemoryBarrier {
                src_stage_mask: c.stage(),
                src_access_mask: c.access(),
                dst_stage_mask: a.access.stage,
                dst_access_mask: a.access.access,
                src_queue_family_index: QUEUE_FAMILY_IGNORED,
                dst_queue_family_index: QUEUE_FAMILY_IGNORED,
                buffer: a.buffer,
                offset: a.access.offset,
                size: a.access.size,
            },
        )
    }
}

/// Makes the barrier an image access needs on the mip levels `stretch`.
pub fn image_barrier(
    waits: &Vec<ResourceAccessInfo>,
    stretch: KeyRange,
    old_layout: i32,
    a: &ImageAccess,
) -> (r: ImageMemoryBarrier)
    requires
        stretch.valid(),
        stretch.end < u64::MAX,
    ensures
        r == spec_image_barrier(waits@, stretch, old_layout, *a),
{
    let c = combine_all(waits, false);
    ImageMemoryBarrier {
        src_stage_mask: c.stage(),
        src_access_mask: c.access(),
        dst_stage_mask: a.access.stage,
        dst_access_mask: a.access.access,
        old_layout,
        new_layout: a.layout,
        src_queue_family_index: QUEUE_FAMILY_IGNORED,
        dst_queue_family_index: QUEUE_FAMILY_IGNORED,
        image: a.image,
        subresource_range: ImageSubresourceRange {
            aspect_mask: a.access.subresource_range.aspect_mask,
            base_mip_level: stretch.start as u32,
            level_count: (stretch.end + 1 - stretch.start) as u32,
            base_array_layer: a.access.subresource_range.base_array_layer,
            layer_count: a.access.subresource_range.layer_count,
        },
    }
}

/// The values of the `Some` entries of `s`, in order.
pub open spec fn somes<T>(s: Seq<Option<T>>) -> Seq<T>
    decreases s.len(),
{
    if s.len() == 0 {
        Seq::empty()
    } else {
        let rest = somes(s.drop_last());
        match s.last() {
            Some(x) => rest.push(x),
            None => rest,
        }
    }
}

/// The sequences of `s` one after another.
pub open spec fn concat<T>(s: Seq<Seq<T>>) -> Seq<T>
    decreases s.len(),
{
    if s.len() == 0 {
        Seq::empty()
    } else {
        concat(s.drop_last()) + s.last()
    }
}

/// The barriers an image access needs, one per recorded stretch, in order.
pub open spec fn image_barriers_of(v: Seq<(KeyRange, i32, Vec<ResourceAccessInfo>)>, a: ImageAccess) -> Seq<
    ImageMemoryBarrier,
> {
    Seq::new(v.len(), |i: int| spec_image_barrier(v[i].2@, v[i].0, v[i].1, a))
}

/// Recording buffer access `a` takes the records from `before` to `after` and needs `barrier`.
pub open spec fn buffer_barrier_step(
    before: SyncManagerInternal,
    a: BufferAccess,
    after: SyncManagerInternal,
    barrier: Option<BufferMemoryBarrier>,
) -> bool {
    exists|waits: Seq<ResourceAccessInfo>| #[trigger]
        buffer_access_post(before, a.buffer.key, a.buffer.size, a.access, after, waits) && barrier
            == spec_buffer_barrier(waits, a)
}

/// Recording image access `a` takes the records from `before` to `after` and needs
/// `barriers`, or fails.
pub open spec fn image_barrier_step(
    before: SyncManagerInternal,
    a: ImageAccess,
    after: SyncManagerInternal,
    barriers: Result<Seq<ImageMemoryBarrier>, SyncError>,
) -> bool {
    exists|r: Result<Vec<(KeyRange, i32, Vec<ResourceAccessInfo>)>, SyncError>| #[trigger]
        image_access_post(before, a.image.key, a.image.mip_levels as u64, a.layout, a.access, after, r)
            && barriers == match r {
            Ok(v) => Ok(image_barriers_of(v@, a)),
            Err(e) => Err(e),
        }
}

/// The accesses recorded in turn, the buffer accesses first: `st` are the records between the
/// steps, `bo` the barriers of the buffer accesses and `ib` those of the image accesses
/// recorded so far.
pub open spec fn accesses_trace(
    st: Seq<SyncManagerInternal>,
    bo: Seq<Option<BufferMemoryBarrier>>,
    ib: Seq<Seq<ImageMemoryBarrier>>,
    bufs: Seq<BufferAccess>,
    imgs: Seq<ImageAccess>,
) -> bool {
    &&& bo.len() == bufs.len()
    &&& ib.len() <= imgs.len()
    &&& st.len() == bufs.len() + ib.len() + 1
    &&& forall|i: int| 0 <= i < bufs.len() ==> #[trigger] buffer_barrier_step(st[i], bufs[i], st[i + 1], bo[i])
    &&& forall|j: int| 0 <= j < ib.len() ==> #[trigger] image_barrier_step(
        st[bufs.len() + j],
        imgs[j],
        st[bufs.len() + j + 1],
        Ok(ib[j]),
    )
}

/// The accesses that can be recorded: buffer ranges that can be formed, on buffers of some
/// bytes; images of some mip levels, accessed on one layer and some levels.
pub open spec fn accesses_ok(bufs: Seq<BufferAccess>, imgs: Seq<ImageAccess>) -> bool {
    &&& forall|i: int| 0 <= i < bufs.len() ==> (#[trigger] bufs[i]).access.range_ok() && bufs[i].buffer.size > 0
    &&& forall|i: int| 0 <= i < imgs.len() ==> {
        &&& (#[trigger] imgs[i]).image.mip_levels > 0
        &&& imgs[i].access.subresource_range.base_array_layer == 0
        &&& imgs[i].access.subresource_range.layer_count == 1
        &&& imgs[i].access.subresource_range.level_count > 0
    }
}

/// What the synchronisation records of each resource, keyed by resource key.
pub struct SyncManagerInternal {
    buffers: HashMap<u64, ResourceRW>,
    images: HashMap<u64, ResourceRW>,
    /// The layout of each mip level of each image.
    image_layouts: HashMap<u64, OptRangeMap<SmallArrayRangeMap<i32>>>,
    buffer_key_counter: u64,
    image_key_counter: u64,
}

impl SyncManagerInternal {
    pub closed spec fn buffer_map(&self) -> Map<u64, ResourceRW> {
        self.buffers@
    }

    pub closed spec fn image_map(&self) -> Map<u64, ResourceRW> {
        self.images@
    }

    pub closed spec fn layout_map(&self) -> Map<u64, OptRangeMap<SmallArrayRangeMap<i32>>> {
        self.image_layouts@
    }

    pub closed spec fn buffer_counter(&self) -> u64 {
        self.buffer_key_counter
    }

    pub closed spec fn image_counter(&self) -> u64 {
        self.image_key_counter
    }

    pub open spec fn wf(&self) -> bool {
        &&& forall|k: u64| #[trigger] self.buffer_map().contains_key(k) ==> self.buffer_map()[k].wf()
        &&& forall|k: u64| #[trigger] self.image_map().contains_key(k) ==> self.image_map()[k].wf()
        &&& forall|k: u64| #[trigger] self.layout_map().contains_key(k) ==> self.layout_map()[k].wf()
    }

    /// The last writes and the reads since of buffer `key` (of `max_size` bytes) before an
    /// access: the recorded ones, or a fresh record.
    pub open spec fn prior_buffer_rw(&self, key: u64, max_size: u64) -> (OptRangeMap<RangeMap>, OptRangeMap<RangeMap>) {
        if self.buffer_map().contains_key(key) {
            self.buffer_map()[key].maps()
        } else {
            fresh_rw(KeyRange { start: 0, end: (max_size - 1) as u64 })
        }
    }

    /// The bytes the record of buffer `key` covers (or will cover, once made for `max_size`).
    pub open spec fn buffer_range(&self, key: u64, max_size: u64) -> KeyRange {
        if self.buffer_map().contains_key(key) {
            self.buffer_map()[key].write_map().max_range()
        } else {
            KeyRange { start: 0, end: (max_size - 1) as u64 }
        }
    }

    pub fn new() -> (r: Self)
        ensures
            r.wf(),
            r.buffer_map() == Map::<u64, ResourceRW>::empty(),
            r.image_map() == Map::<u64, ResourceRW>::empty(),
            r.layout_map() == Map::<u64, OptRangeMap<SmallArrayRangeMap<i32>>>::empty(),
            r.buffer_counter() == 0,
            r.image_counter() == 0,
    {
        broadcast use vstd::std_specs::hash::group_hash_axioms;

        SyncManagerInternal {
            buffers: HashMap::new(),
            images: HashMap::new(),
            image_layouts: HashMap::new(),
            buffer_key_counter: 0,
            image_key_counter: 0,
        }
    }

    /// Hands out a fresh buffer key.
    pub fn get_buffer(&mut self) -> (r: u64)
        requires
            old(self).buffer_counter() < u64::MAX,
        ensures
            r == old(self).buffer_counter(),
            final(self).buffer_counter() == old(self).buffer_counter() + 1,
            final(self).image_counter() == old(self).image_counter(),
            final(self).buffer_map() == old(self).buffer_map(),
            final(self).image_map() == old(self).image_map(),
            final(self).layout_map() == old(self).layout_map(),
    {
        let key = self.buffer_key_counter;
        self.buffer_key_counter = self.buffer_key_counter + 1;
        key
    }

    /// Hands out a fresh image key.
    pub fn get_image(&mut self) -> (r: u64)
        requires
            old(self).image_counter() < u64::MAX,
        ensures
            r == old(self).image_counter(),
            final(self).image_counter() == old(self).image_counter() + 1,
            final(self).buffer_counter() == old(self).buffer_counter(),
            final(self).buffer_map() == old(self).buffer_map(),
            final(self).image_map() == old(self).image_map(),
            final(self).layout_map() == old(self).layout_map(),
    {
        let key = self.image_key_counter;
        self.image_key_counter = self.image_key_counter + 1;
        key
    }

    /// Forgets a buffer.
    pub fn remove_buffer(&mut self, key: u64)
        requires
            old(self).wf(),
        ensures
            final(self).wf(),
            final(self).buffer_map() == old(self).buffer_map().remove(key),
            final(self).image_map() == old(self).image_map(),
            final(self).layout_map() == old(self).layout_map(),
            final(self).buffer_counter() == old(self).buffer_counter(),
            final(self).image_counter() == old(self).image_counter(),
    {
        broadcast use vstd::std_specs::hash::group_hash_axioms;

        let ghost old_buffers = self.buffers@;
        let _ = self.buffers.remove(&key);
        assert(self.image_map() == old(self).image_map());
        assert(self.layout_map() == old(self).layout_map());
        assert forall|k: u64| #[trigger] self.buffer_map().contains_key(k) implies self.buffer_map()[k].wf() by {
            assert(old(self).buffer_map().contains_key(k));
            assert(self.buffer_map()[k] == old(self).buffer_map()[k]);
        }
    }

    /// Forgets an image, with its accesses and layouts.
    pub fn remove_image(&mut self, key: u64)
        requires
            old(self).wf(),
        ensures
            final(self).wf(),
            final(self).buffer_map() == old(self).buffer_map(),
            final(self).image_map() == old(self).image_map().remove(key),
            final(self).layout_map() == old(self).layout_map().remove(key),
            final(self).buffer_counter() == old(self).buffer_counter(),
            final(self).image_counter() == old(self).image_counter(),
    {
        broadcast use vstd::std_specs::hash::group_hash_axioms;

        let ghost old_images = self.images@;
        let ghost old_layouts = self.image_layouts@;
        let _ = self.images.remove(&key);
        let _ = self.image_layouts.remove(&key);
        assert(self.buffer_map() == old(self).buffer_map());
        assert forall|k: u64| #[trigger] self.image_map().contains_key(k) implies self.image_map()[k].wf() by {
            assert(old(self).image_map().contains_key(k));
            assert(self.image_map()[k] == old(self).image_map()[k]);
        }
        assert forall|k: u64| #[trigger] self.layout_map().contains_key(k) implies self.layout_map()[k].wf() by {
            assert(old(self).layout_map().contains_key(k));
            assert(self.layout_map()[k] == old(self).layout_map()[k]);
        }
    }

    /// Clears the accesses, but not the layouts. Call this after the device is idle.
    pub fn clear_all(&mut self)
        requires
            old(self).wf(),
        ensures
            final(self).wf(),
            final(self).buffer_map() == Map::<u64, ResourceRW>::empty(),
            final(self).image_map() == Map::<u64, ResourceRW>::empty(),
            final(self).layout_map() == old(self).layout_map(),
            final(self).buffer_counter() == old(self).buffer_counter(),
            final(self).image_counter() == old(self).image_counter(),
    {
        broadcast use vstd::std_specs::hash::group_hash_axioms;

        self.buffers.clear();
        self.images.clear();
        assert(self.layout_map() == old(self).layout_map());
    }

    /// The layouts recorded for image `key`, by mip level.
    pub open spec fn layouts_of(&self, key: u64) -> Map<u64, i32> {
        if self.layout_map().contains_key(key) {
            self.layout_map()[key].view()
        } else {
            Map::empty()
        }
    }

    /// Every recorded image has a layout at every mip level of its layout map's range.
    pub open spec fn layouts_full(&self) -> bool {
        forall|k: u64, p: u64|
            #![trigger self.layout_map()[k].view().contains_key(p)]
            self.layout_map().contains_key(k) && self.layout_map()[k].max_range().has(p as int)
                ==> self.layout_map()[k].view().contains_key(p)
    }

    /// The layout map of image `key` before an access: the recorded one, or a fresh one.
    pub open spec fn prior_layouts(&self, key: u64, mip_level_count: u64) -> OptRangeMap<SmallArrayRangeMap<i32>> {
        if self.layout_map().contains_key(key) {
            self.layout_map()[key]
        } else {
            fresh_layouts(mip_level_count)
        }
    }

    /// The last writes and the reads since of image `key` before an access: the recorded ones,
    /// or a fresh record.
    pub open spec fn prior_rw(&self, key: u64, mip_level_count: u64) -> (OptRangeMap<RangeMap>, OptRangeMap<RangeMap>) {
        if self.image_map().contains_key(key) {
            self.image_map()[key].maps()
        } else {
            fresh_rw(KeyRange { start: 0, end: (mip_level_count - 1) as u64 })
        }
    }

    /// Records an access to the mip levels of image `key` (of `mip_level_count` levels) in
    /// `layout`, and returns, for each stretch of levels recorded in one old layout, the stretch,
    /// the old layout and the accesses the new one has to wait for there.
    ///
    /// The layout map is overwritten first. It fails when the map has no slot for an accessed
    /// level, when no old layout was recorded for the access, or when a recorded stretch does
    /// not lie inside the accessed levels; only then are the image's accesses left as they were.
    #[verifier::rlimit(40)]
    pub fn add_image_access(&mut self, key: u64, mip_level_count: u64, layout: i32, access: ImageAccessInfo) -> (r:
        Result<Vec<(KeyRange, i32, Vec<ResourceAccessInfo>)>, SyncError>)
        requires
            old(self).wf(),
            mip_level_count > 0,
            access.subresource_range.base_array_layer == 0,
            access.subresource_range.layer_count == 1,
            access.subresource_range.level_count > 0,
        ensures
            image_access_post(*old(self), key, mip_level_count, layout, access, *final(self), r),
    {
        broadcast use vstd::std_specs::hash::group_hash_axioms;

        let max_range = KeyRange::ie(0, mip_level_count);
        let ghost prev = *self;
        let mut layout_entry = match self.image_layouts.remove(&key) {
            Some(l) => l,
            None => new_layouts(mip_level_count),
        };
        let ghost prior = layout_entry;
        assert(prior == prev.prior_layouts(key, mip_level_count));
        let range = access.range();
        let lmax = layout_entry.get_max_range();
        let fits = range.end <= lmax.end;
        let ok = if is_empty_range(&range) {
            true
        } else if layout_entry.is_max_range(&range) {
            !layout_entry.is_granular() || fits
        } else {
            fits && (layout_entry.is_granular() || (lmax.start == 0 && lmax.end < usize::MAX as u64))
        };
        if !ok {
            self.image_layouts.insert(key, layout_entry);
            proof { self.lemma_layouts_insert(&prev, key); }
            return Err(SyncError::LayoutSlotOutOfRange);
        }
        let old_layouts = layout_entry.overwrite(range, layout);
        self.image_layouts.insert(key, layout_entry);
        proof {
            self.lemma_layouts_insert(&prev, key);
            assert(overwrite_post(prior, range, layout, self.layout_map()[key], old_layouts@));
        }
        if old_layouts.len() == 0 {
            return Err(SyncError::LayoutMissing);
        }
        if !all_inside(&old_layouts, &range) {
            return Err(SyncError::LayoutOutsideAccess);
        }
        assert(entries_inside(old_layouts@, range));
        let mut entry = match self.images.remove(&key) {
            Some(e) => e,
            None => ResourceRW::new(max_range),
        };
        let ghost st: Seq<(OptRangeMap<RangeMap>, OptRangeMap<RangeMap>)> = seq![entry.maps()];
        assert(st[0] == prev.prior_rw(key, mip_level_count));
        let mut out: Vec<(KeyRange, i32, Vec<ResourceAccessInfo>)> = Vec::new();
        let mut j: usize = 0;
        while j < old_layouts.len()
            invariant
                0 <= j <= old_layouts@.len(),
                entry.wf(),
                out@.len() == j,
                st.len() == j + 1,
                st[0] == prev.prior_rw(key, mip_level_count),
                st[j as int] == entry.maps(),
                image_steps(st, out@, layout, access),
                entries_inside(old_layouts@, range),
                forall|m: int| 0 <= m < j ==> (#[trigger] out@[m]).0 == old_layouts@[m].0 && out@[m].1
                    == old_layouts@[m].1,
            decreases old_layouts@.len() - j,
        {
            let (k, old_layout) = old_layouts[j];
            assert(entry_inside(old_layouts@[j as int], range));
            let stretch = limit_range_to(&k, &range);
            let ghost before = entry.maps();
            let waits = if access.is_write(layout, Some(old_layout)) {
                entry.add_write(stretch, ResourceAccessInfo::Write { stage: access.stage, access: access.access })
            } else {
                let w = entry.add_read(
                    stretch,
                    ResourceAccessInfo::Read { stage: access.stage, access: access.access },
                    ResourceAccessInfo::into_combined,
                );
                proof {
                    lemma_reads_combined(
                        before.1,
                        stretch,
                        ResourceAccessInfo::Read { stage: access.stage, access: access.access },
                        entry.maps().1,
                    );
                }
                w
            };
            assert(image_step(before, stretch, old_layout, layout, access, entry.maps(), waits@));
            let ghost out0 = out@;
            let ghost st0 = st;
            out.push((stretch, old_layout, waits));
            proof {
                st = st.push(entry.maps());
                assert forall|m: int| 0 <= m < out@.len() implies #[trigger] image_step(
                    st[m],
                    out@[m].0,
                    out@[m].1,
                    layout,
                    access,
                    st[m + 1],
                    out@[m].2@,
                ) by {
                    if m < j {
                        assert(out@[m] == out0[m]);
                        assert(st[m] == st0[m] && st[m + 1] == st0[m + 1]);
                    }
                }
            }
            j = j + 1;
        }
        self.images.insert(key, entry);
        proof {
            assert forall|k2: u64| #[trigger] self.image_map().contains_key(k2) implies self.image_map()[k2].wf() by {
                if k2 != key {
                    assert(prev.image_map().contains_key(k2));
                    assert(self.image_map()[k2] == prev.image_map()[k2]);
                }
            }
            assert(self.buffer_map() == prev.buffer_map());
            assert(self.image_map() =~= prev.image_map().insert(key, self.image_map()[key]));
            assert(self.layout_map()[key] == layout_entry);
            assert(overwrite_post(prior, range, layout, self.layout_map()[key], old_layouts@));
            assert(exists|st: Seq<(OptRangeMap<RangeMap>, OptRangeMap<RangeMap>)>| #[trigger]
                image_steps(st, out@, layout, access) && st[0] == old(self).prior_rw(key, mip_level_count)
                    && st[out@.len() as int] == self.image_map()[key].maps());
        }
        let r: Result<Vec<(KeyRange, i32, Vec<ResourceAccessInfo>)>, SyncError> = Ok(out);
        proof {
            let v = out;
            assert(overwrite_post(old(self).prior_layouts(key, mip_level_count), access.spec_range(), layout, self.layout_map()[key], old_layouts@));
            assert(old_layouts@.len() > 0);
            assert(entries_inside(old_layouts@, access.spec_range()));
            assert(v@.len() == old_layouts@.len());
            assert(forall|i: int| 0 <= i < v@.len() ==> (#[trigger] v@[i]).0 == old_layouts@[i].0 && v@[i].1 == old_layouts@[i].1);
            assert(r == Ok::<Vec<(KeyRange, i32, Vec<ResourceAccessInfo>)>, SyncError>(v));
            let e = old_layouts@;
            assert(exists|st: Seq<(OptRangeMap<RangeMap>, OptRangeMap<RangeMap>)>| #[trigger]
                image_steps(st, v@, layout, access) && st[0] == old(self).prior_rw(key, mip_level_count)
                    && st[v@.len() as int] == self.image_map()[key].maps());
            assert(match r {
                Err(SyncError::LayoutMissing) => e.len() == 0,
                Err(SyncError::LayoutOutsideAccess) => e.len() > 0 && !entries_inside(e, access.spec_range()),
                Err(SyncError::LayoutSlotOutOfRange) => false,
                Ok(v) => {
                    &&& e.len() > 0
                    &&& entries_inside(e, access.spec_range())
                    &&& v@.len() == e.len()
                    &&& forall|i: int| 0 <= i < v@.len() ==> (#[trigger] v@[i]).0 == e[i].0 && v@[i].1 == e[i].1
                    &&& exists|st: Seq<(OptRangeMap<RangeMap>, OptRangeMap<RangeMap>)>| #[trigger]
                        image_steps(st, v@, layout, access) && st[0] == old(self).prior_rw(key, mip_level_count)
                            && st[v@.len() as int] == self.image_map()[key].maps()
                },
            });
        }
        r
    }

    proof fn lemma_layouts_insert(&self, prev: &Self, key: u64)
        requires
            prev.wf(),
            self.buffers == prev.buffers,
            self.images == prev.images,
            self.image_layouts@ == prev.image_layouts@.remove(key).insert(key, self.image_layouts@[key]),
            self.image_layouts@[key].wf(),
        ensures
            self.wf(),
            self.buffer_map() == prev.buffer_map(),
            self.image_map() == prev.image_map(),
            self.layout_map() == prev.layout_map().insert(key, self.layout_map()[key]),
    {
        assert(self.layout_map() =~= prev.layout_map().insert(key, self.layout_map()[key]));
        assert(self.buffer_map() == prev.buffer_map());
        assert(self.image_map() == prev.image_map());
        assert forall|k: u64| #[trigger] self.layout_map().contains_key(k) implies self.layout_map()[k].wf() by {
            if k != key {
                assert(prev.layout_map().contains_key(k));
            }
        }
    }

    /// Records an access to the buffer `key` (of `max_size` bytes) and returns the accesses it
    /// has to wait for.
    pub fn add_buffer_access(&mut self, key: u64, max_size: u64, access: BufferAccessInfo) -> (r: Vec<
        ResourceAccessInfo,
    >)
        requires
            old(self).wf(),
            access.range_ok(),
            !old(self).buffer_map().contains_key(key) ==> max_size > 0,
        ensures
            buffer_access_post(*old(self), key, max_size, access, *final(self), r@),
    {
        broadcast use vstd::std_specs::hash::group_hash_axioms;

        let ghost old_buffers = self.buffers@;
        let mut entry = match self.buffers.remove(&key) {
            Some(e) => e,
            None => ResourceRW::new(KeyRange::ie(0, max_size)),
        };
        let ghost e0 = entry;
        assert(e0.wf());
        let range = access.range();
        let r = if access.is_write() {
            entry.add_write(range, ResourceAccessInfo::Write { stage: access.stage, access: access.access })
        } else {
            entry.add_read(range, ResourceAccessInfo::Read { stage: access.stage, access: access.access }, ResourceAccessInfo::into_combined)
        };
        self.buffers.insert(key, entry);
        assert(self.image_map() == old(self).image_map());
        assert(self.layout_map() == old(self).layout_map());
        proof {
            assert(self.buffer_map() =~= old(self).buffer_map().insert(key, entry));
            assert(e0.maps() == old(self).prior_buffer_rw(key, max_size));
            assert forall|k: u64| #[trigger] self.buffer_map().contains_key(k) implies self.buffer_map()[k].wf() by {
                if k != key {
                    assert(old(self).buffer_map().contains_key(k));
                    assert(self.buffer_map()[k] == old(self).buffer_map()[k]);
                }
            }
        }
        r
    }

    /// Records the accesses of a command, the buffer accesses first, each in turn, and returns
    /// the pipeline barrier that has to come before the command: a buffer barrier for each
    /// buffer access that has to wait for an access of memory, and an image barrier for each
    /// stretch of levels of each image access. Fails as soon as an image access fails.
    pub fn add_accesses(&mut self, buffer_accesses: Vec<BufferAccess>, image_accesses: Vec<ImageAccess>) -> (r:
        Result<CmdPipelineBarrier, SyncError>)
        requires
            old(self).wf(),
            accesses_ok(buffer_accesses@, image_accesses@),
        ensures
            final(self).wf(),
            exists|
                st: Seq<SyncManagerInternal>,
                bo: Seq<Option<BufferMemoryBarrier>>,
                ib: Seq<Seq<ImageMemoryBarrier>>,
            | #[trigger] accesses_trace(st, bo, ib, buffer_accesses@, image_accesses@) && st[0] == *old(self)
                && match r {
                Ok(cmd) => {
                    &&& ib.len() == image_accesses@.len()
                    &&& st.last() == *final(self)
                    &&& cmd.dependency_flags == 0
                    &&& cmd.memory_barriers@.len() == 0
                    &&& cmd.buffer_memory_barriers@ == somes(bo)
                    &&& cmd.image_memory_barriers@ == concat(ib)
                },
                Err(e) => {
                    &&& ib.len() < image_accesses@.len()
                    &&& image_barrier_step(st.last(), image_accesses@[ib.len() as int], *final(self), Err(e))
                },
            },
    {
        let ghost s0 = *self;
        let ghost mut st: Seq<SyncManagerInternal> = seq![*self];
        let ghost mut bo: Seq<Option<BufferMemoryBarrier>> = Seq::empty();
        let ghost mut ib: Seq<Seq<ImageMemoryBarrier>> = Seq::empty();
        let ghost bufs = buffer_accesses@;
        let ghost imgs = image_accesses@;
        let mut buffer_barriers: Vec<BufferMemoryBarrier> = Vec::new();
        let mut i: usize = 0;
        while i < buffer_accesses.len()
            invariant
                0 <= i <= bufs.len(),
                bufs == buffer_accesses@,
                imgs == image_accesses@,
                accesses_ok(bufs, imgs),
                self.wf(),
                ib.len() == 0,
                bo.len() == i,
                st.len() == i + 1,
                st[0] == s0,
                s0 == *old(self),
                st[i as int] == *self,
                forall|k: int| 0 <= k < i ==> #[trigger] buffer_barrier_step(st[k], bufs[k], st[k + 1], bo[k]),
                buffer_barriers@ == somes(bo),
            decreases bufs.len() - i,
        {
            let a = buffer_accesses[i];
            assert(a.access.range_ok() && a.buffer.size > 0);
            let ghost before = *self;
            let waits = self.add_buffer_access(a.buffer.key, a.buffer.size, a.access);
            let b = buffer_barrier(&waits, &a);
            match b {
                Some(x) => buffer_barriers.push(x),
                None => {},
            }
            proof {
                assert(buffer_barrier_step(before, a, *self, b));
                let st0 = st;
                let bo0 = bo;
                st = st.push(*self);
                bo = bo.push(b);
                assert(bo.drop_last() =~= bo0);
                assert forall|k: int| 0 <= k < i + 1 implies #[trigger] buffer_barrier_step(st[k], bufs[k], st[k + 1], bo[k]) by {
                    if k < i {
                        assert(st[k] == st0[k] && st[k + 1] == st0[k + 1] && bo[k] == bo0[k]);
                    }
                }
            }
            i = i + 1;
        }
        let mut image_barriers: Vec<ImageMemoryBarrier> = Vec::new();
        let mut j: usize = 0;
        while j < image_accesses.len()
            invariant
                0 <= j <= imgs.len(),
                bufs == buffer_accesses@,
                imgs == image_accesses@,
                accesses_ok(bufs, imgs),
                self.wf(),
                bo.len() == bufs.len(),
                ib.len() == j,
                st.len() == bufs.len() + j + 1,
                st[0] == s0,
                s0 == *old(self),
                st[bufs.len() + j] == *self,
                forall|k: int| 0 <= k < bufs.len() ==> #[trigger] buffer_barrier_step(st[k], bufs[k], st[k + 1], bo[k]),
                forall|k: int| 0 <= k < j ==> #[trigger] image_barrier_step(
                    st[bufs.len() + k],
                    imgs[k],
                    st[bufs.len() + k + 1],
                    Ok(ib[k]),
                ),
                buffer_barriers@ == somes(bo),
                image_barriers@ == concat(ib),
            decreases imgs.len() - j,
        {
            let a = image_accesses[j];
            assert(a.image.mip_levels > 0);
            let ghost before = *self;
            let res = self.add_image_access(a.image.key, a.image.mip_levels as u64, a.layout, a.access);
            let stretches = match res {
                Ok(v) => v,
                Err(e) => {
                    proof {
                        assert(image_barrier_step(before, a, *self, Err(e)));
                        assert(accesses_trace(st, bo, ib, bufs, imgs));
                        assert(st.last() == before);
                    }
                    return Err(e);
                },
            };
            let ghost out0 = image_barriers@;
            let mut k: usize = 0;
            while k < stretches.len()
                invariant
                    0 <= k <= stretches@.len(),
                    image_barriers@ == out0 + image_barriers_of(stretches@, a).take(k as int),
                    entries_inside_all(stretches@, a.access.spec_range()),
                    a.access.subresource_range.level_count > 0,
                decreases stretches@.len() - k,
            {
                let ghost ik = k as int;
                assert(entry_inside((stretches@[ik].0, stretches@[ik].1), a.access.spec_range()));
                let b = image_barrier(&stretches[k].2, stretches[k].0, stretches[k].1, &a);
                image_barriers.push(b);
                assert(image_barriers_of(stretches@, a).take(k + 1) =~= image_barriers_of(stretches@, a).take(ik).push(b));
                k = k + 1;
            }
            proof {
                let x = image_barriers_of(stretches@, a);
                assert(x.take(x.len() as int) =~= x);
                assert(image_barrier_step(before, a, *self, Ok(x)));
                let st0 = st;
                let ib0 = ib;
                st = st.push(*self);
                ib = ib.push(x);
                assert(ib.drop_last() =~= ib0);
                assert forall|m: int| 0 <= m < bufs.len() implies #[trigger] buffer_barrier_step(st[m], bufs[m], st[m + 1], bo[m]) by {
                    assert(st[m] == st0[m] && st[m + 1] == st0[m + 1]);
                }
                assert forall|m: int| 0 <= m < j + 1 implies #[trigger] image_barrier_step(
                    st[bufs.len() + m],
                    imgs[m],
                    st[bufs.len() + m + 1],
                    Ok(ib[m]),
                ) by {
                    if m < j {
                        assert(st[bufs.len() + m] == st0[bufs.len() + m] && st[bufs.len() + m + 1] == st0[bufs.len() + m + 1]);
                        assert(ib[m] == ib0[m]);
                    }
                }
            }
            j = j + 1;
        }
        proof {
            assert(accesses_trace(st, bo, ib, bufs, imgs));
        }
        Ok(CmdPipelineBarrier {
            dependency_flags: 0,
            memory_barriers: Vec::new(),
            buffer_memory_barriers: buffer_barriers,
            image_memory_barriers: image_barriers,
        })
    }
}

} // verus!
