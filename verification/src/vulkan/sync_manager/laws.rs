//! What holds of the synchronisation across its operations.
use vstd::prelude::*;

use super::interval::{spec_is_empty_range, KeyRange};
use super::range_map::{
    cut_post, overwrite_post, overwritten, spec_is_max_range, values_in, OptRangeMap, RangeMap, RangeMapLike,
    SmallArrayRangeMap,
};
use super::resource_access::{BufferAccessInfo, ImageAccessInfo};
use crate::vulkan::flags::LAYOUT_UNDEFINED;
use super::{
    agrees_at, buffer_access_post, combined, fresh_layouts, has_bit, image_access_post, lemma_combined,
    lemma_overwrite_on_range, lemma_values_agree,
    ResourceAccessInfo, SyncError,
    SyncManagerInternal,
};

verus! {

/// After an overwrite of a non-empty key, every point of the key inside the map's range holds
/// the new value.
pub proof fn lemma_overwrite_holds<M: RangeMapLike>(
    old: OptRangeMap<M>,
    key: KeyRange,
    value: M::Value,
    new: OptRangeMap<M>,
    r: Seq<(KeyRange, M::Value)>,
)
    requires
        overwrite_post(old, key, value, new, r),
        !spec_is_empty_range(key),
    ensures
        forall|p: u64| key.has(p as int) && old.max_range().has(p as int) ==> #[trigger] new.view().contains_key(p)
            && new.view()[p] == value,
{
}

/// Every point of a key inside the map's range, after an overwrite, holds the new value; so,
/// on a non-empty part of the key, the map holds that value and no other.
pub proof fn lemma_overwrite_values<M: RangeMapLike>(
    old: OptRangeMap<M>,
    key: KeyRange,
    value: M::Value,
    new: OptRangeMap<M>,
    r: Seq<(KeyRange, M::Value)>,
    part: KeyRange,
)
    requires
        overwrite_post(old, key, value, new, r),
        !spec_is_empty_range(key),
        part.valid(),
        key.has(part.start as int) && key.has(part.end as int),
        old.max_range().has(part.start as int) && old.max_range().has(part.end as int),
    ensures
        values_in(new.view(), part) == set![value],
{
    lemma_overwrite_holds(old, key, value, new, r);
    let m = new.view();
    assert(new.view().contains_key(part.start));
    assert(part.has(part.start as int) && m.contains_key(part.start) && m[part.start] == value);
    assert forall|v: M::Value| values_in(m, part).contains(v) <==> v == value by {
        if v == value {
            assert(part.has(part.start as int) && m.contains_key(part.start) && m[part.start] == v);
        }
        if values_in(m, part).contains(v) {
            let p = choose|p: u64| part.has(p as int) && m.contains_key(p) && m[p] == v;
            assert(key.has(p as int) && old.max_range().has(p as int));
            assert(m.contains_key(p));
        }
    }
    assert(values_in(m, part) =~= set![value]);
}

/// After a cut of a non-empty key, no point of the key holds a value.
pub proof fn lemma_cut_removes<M: RangeMapLike>(
    old: OptRangeMap<M>,
    key: KeyRange,
    new: OptRangeMap<M>,
    r: Seq<(KeyRange, M::Value)>,
)
    requires
        cut_post(old, key, new, r),
        !spec_is_empty_range(key),
    ensures
        forall|p: u64| key.has(p as int) ==> !(#[trigger] new.view().contains_key(p)),
{
}

/// Combining accesses is commutative, associative and idempotent, and the empty access
/// changes nothing.
pub proof fn lemma_combine_laws(a: ResourceAccessInfo, b: ResourceAccessInfo, c: ResourceAccessInfo)
    ensures
        a.spec_combine(b) == b.spec_combine(a),
        a.spec_combine(b).spec_combine(c) == a.spec_combine(b.spec_combine(c)),
        a.spec_combine(a) == a,
        ResourceAccessInfo::spec_empty().spec_combine(a) == a,
{
    let (sa, sb, sc) = (a.spec_stage(), b.spec_stage(), c.spec_stage());
    let (xa, xb, xc) = (a.spec_access(), b.spec_access(), c.spec_access());
    assert(sa | sb == sb | sa && xa | xb == xb | xa) by (bit_vector);
    assert((sa | sb) | sc == sa | (sb | sc) && (xa | xb) | xc == xa | (xb | xc)) by (bit_vector);
    assert(sa | sa == sa && xa | xa == xa) by (bit_vector);
    assert(0u64 | sa == sa && 0u64 | xa == xa) by (bit_vector);
}

/// An access to a buffer right after a write to it, on bytes the write covered, waits for that
/// write and nothing else, and its barrier waits for just the write's stages and access kinds.
pub proof fn lemma_access_after_write(
    s0: SyncManagerInternal,
    key: u64,
    size: u64,
    write: BufferAccessInfo,
    s1: SyncManagerInternal,
    waits1: Seq<ResourceAccessInfo>,
    access: BufferAccessInfo,
    s2: SyncManagerInternal,
    waits2: Seq<ResourceAccessInfo>,
)
    requires
        buffer_access_post(s0, key, size, write, s1, waits1),
        write.spec_is_write(),
        !spec_is_empty_range(write.spec_range()),
        buffer_access_post(s1, key, size, access, s2, waits2),
        !spec_is_empty_range(access.spec_range()),
        write.spec_range().has(access.spec_range().start as int) && write.spec_range().has(access.spec_range().end as int),
        s0.buffer_range(key, size).has(access.spec_range().start as int) && s0.buffer_range(key, size).has(
            access.spec_range().end as int,
        ),
    ensures
        waits2.to_set() == set![ResourceAccessInfo::Write { stage: write.stage, access: write.access }],
        write.access != 0 ==> forall|b: u64| #![trigger has_bit(combined(waits2, true).spec_access(), b)] b < 64 ==> (has_bit(
            combined(waits2, true).spec_access(),
            b,
        ) <==> has_bit(write.access, b)),
        write.access != 0 ==> forall|b: u64| #![trigger has_bit(combined(waits2, true).spec_stage(), b)] b < 64 ==> (has_bit(
            combined(waits2, true).spec_stage(),
            b,
        ) <==> has_bit(write.stage, b)),
{
    let w = ResourceAccessInfo::Write { stage: write.stage, access: write.access };
    let prior = s0.prior_buffer_rw(key, size);
    let after1 = s1.buffer_map()[key].maps();
    let range = access.spec_range();
    OptRangeMap::<RangeMap>::lemma_uniform(KeyRange { start: 0, end: (size - 1) as u64 }, None, prior.0);
    assert(prior.0.max_range() == s0.buffer_range(key, size));
    let e = choose|e: Seq<(KeyRange, ResourceAccessInfo)>| #[trigger] overwrite_post(prior.0, write.spec_range(), w, after1.0, e);
    lemma_overwrite_values(prior.0, write.spec_range(), w, after1.0, e, range);
    let c = choose|c: Seq<(KeyRange, ResourceAccessInfo)>| #[trigger] cut_post(prior.1, write.spec_range(), after1.1, c);
    lemma_cut_removes(prior.1, write.spec_range(), after1.1, c);
    assert(s1.buffer_map().contains_key(key));
    assert(s1.prior_buffer_rw(key, size) == after1);
    assert(range.meets(after1.0.max_range()));
    if access.spec_is_write() {
        assert forall|p: u64| range.has(p as int) implies #[trigger] agrees_at(
            after1.0.view().union_prefer_right(after1.1.view()),
            after1.0.view(),
            p,
        ) by {
            assert(!after1.1.view().contains_key(p));
        }
        lemma_values_agree(after1.0.view().union_prefer_right(after1.1.view()), after1.0.view(), range);
    }
    assert(waits2.to_set() == values_in(after1.0.view(), range));
    if write.access != 0 {
        lemma_combined(waits2, true);
        assert forall|b: u64| b < 64 implies (has_bit(combined(waits2, true).spec_access(), b) <==> has_bit(write.access, b))
            && (has_bit(combined(waits2, true).spec_stage(), b) <==> has_bit(write.stage, b)) by {
            if has_bit(combined(waits2, true).spec_access(), b) {
                let i = choose|i: int| 0 <= i < waits2.len() && super::counts(waits2[i], true) && has_bit(waits2[i].spec_access(), b);
                assert(waits2.to_set().contains(waits2[i]));
                assert(waits2[i] == w);
            }
            if has_bit(combined(waits2, true).spec_stage(), b) {
                let i = choose|i: int| 0 <= i < waits2.len() && super::counts(waits2[i], true) && has_bit(waits2[i].spec_stage(), b);
                assert(waits2.to_set().contains(waits2[i]));
                assert(waits2[i] == w);
            }
            assert(waits2.to_set().contains(w));
            let i = choose|i: int| 0 <= i < waits2.len() && waits2[i] == w;
            assert(super::counts(waits2[i], true));
        }
    }
}

/// After an image access succeeds, the accessed levels inside the layout map's range are in
/// the access's layout.
pub proof fn lemma_image_access_sets_layout(
    s0: SyncManagerInternal,
    key: u64,
    mip_level_count: u64,
    layout: i32,
    info: ImageAccessInfo,
    s1: SyncManagerInternal,
    r: Result<Vec<(KeyRange, i32, Vec<ResourceAccessInfo>)>, SyncError>,
)
    requires
        image_access_post(s0, key, mip_level_count, layout, info, s1, r),
        r is Ok,
    ensures
        forall|p: u64| info.spec_range().has(p as int) && s0.prior_layouts(key, mip_level_count).max_range().has(p as int)
            ==> #[trigger] s1.layouts_of(key).contains_key(p) && s1.layouts_of(key)[p] == layout,
{
    let prior = s0.prior_layouts(key, mip_level_count);
    let range = info.spec_range();
    assert(r != Err::<Vec<(KeyRange, i32, Vec<ResourceAccessInfo>)>, SyncError>(SyncError::LayoutSlotOutOfRange));
    let e = choose|e: Seq<(KeyRange, i32)>| #[trigger] overwrite_post(prior, range, layout, s1.layout_map()[key], e)
        && match r {
        Err(SyncError::LayoutMissing) => e.len() == 0,
        Err(SyncError::LayoutOutsideAccess) => e.len() > 0 && !super::entries_inside(e, range),
        Err(SyncError::LayoutSlotOutOfRange) => false,
        Ok(v) => e.len() > 0,
    };
    assert(s1.layout_map().contains_key(key));
    if spec_is_empty_range(range) {
        assert(e.len() == 0);
    } else {
        lemma_overwrite_holds(prior, range, layout, s1.layout_map()[key], e);
    }
}

/// The first access to a buffer the synchronisation does not know (a new one, a removed one,
/// or any after `clear_all`) waits for nothing.
pub proof fn lemma_first_buffer_access(
    s0: SyncManagerInternal,
    key: u64,
    size: u64,
    info: BufferAccessInfo,
    s1: SyncManagerInternal,
    waits: Seq<ResourceAccessInfo>,
)
    requires
        buffer_access_post(s0, key, size, info, s1, waits),
        !s0.buffer_map().contains_key(key),
    ensures
        waits.len() == 0,
{
    let prior = s0.prior_buffer_rw(key, size);
    OptRangeMap::<RangeMap>::lemma_uniform(KeyRange { start: 0, end: (size - 1) as u64 }, None, prior.0);
    OptRangeMap::<RangeMap>::lemma_uniform(KeyRange { start: 0, end: (size - 1) as u64 }, None, prior.1);
    assert(prior.0.view() =~= Map::<u64, ResourceAccessInfo>::empty());
    assert(prior.0.view().union_prefer_right(prior.1.view()) =~= Map::<u64, ResourceAccessInfo>::empty());
    if !spec_is_empty_range(info.spec_range()) && info.spec_is_write() {
        assert(waits.to_set() =~= Set::<ResourceAccessInfo>::empty());
        if waits.len() > 0 {
            assert(waits.to_set().contains(waits[0]));
        }
    }
}

/// The first access to all levels of an image the synchronisation has no layouts of finds them
/// all undefined, as one stretch; when it also has no accesses of it, that stretch waits for
/// nothing.
pub proof fn lemma_first_image_access(
    s0: SyncManagerInternal,
    key: u64,
    mip_level_count: u64,
    layout: i32,
    info: ImageAccessInfo,
    s1: SyncManagerInternal,
    r: Result<Vec<(KeyRange, i32, Vec<ResourceAccessInfo>)>, SyncError>,
)
    requires
        image_access_post(s0, key, mip_level_count, layout, info, s1, r),
        !s0.layout_map().contains_key(key),
        mip_level_count > 0,
        info.spec_range() == (KeyRange { start: 0, end: (mip_level_count - 1) as u64 }),
    ensures
        r matches Ok(v) && v@.len() == 1 && v@[0].0 == info.spec_range() && v@[0].1 == LAYOUT_UNDEFINED,
        r matches Ok(v) && (!s0.image_map().contains_key(key) && layout != LAYOUT_UNDEFINED ==> v@[0].2@.len() == 0),
{
    let range = info.spec_range();
    let prior = s0.prior_layouts(key, mip_level_count);
    OptRangeMap::<super::range_map::SmallArrayRangeMap<i32>>::lemma_uniform(range, Some(LAYOUT_UNDEFINED), prior);
    assert(prior.overwrite_ok(range));
    let e = choose|e: Seq<(KeyRange, i32)>| #[trigger] overwrite_post(prior, range, layout, s1.layout_map()[key], e)
        && match r {
        Err(SyncError::LayoutMissing) => e.len() == 0,
        Err(SyncError::LayoutOutsideAccess) => e.len() > 0 && !super::entries_inside(e, range),
        Err(SyncError::LayoutSlotOutOfRange) => false,
        Ok(v) => {
            &&& e.len() > 0
            &&& super::entries_inside(e, range)
            &&& v@.len() == e.len()
            &&& forall|i: int| 0 <= i < v@.len() ==> (#[trigger] v@[i]).0 == e[i].0 && v@[i].1 == e[i].1
            &&& exists|st: Seq<(OptRangeMap<RangeMap>, OptRangeMap<RangeMap>)>| #[trigger]
                super::image_steps(st, v@, layout, info) && st[0] == s0.prior_rw(key, mip_level_count)
                    && st[v@.len() as int] == s1.image_map()[key].maps()
        },
    };
    assert(e == seq![(range, LAYOUT_UNDEFINED)]);
    assert(super::entry_inside(e[0], range));
    assert(super::entries_inside(e, range));
    match r {
        Ok(v) => {
            assert(v@[0].0 == e[0].0 && v@[0].1 == e[0].1);
            if !s0.image_map().contains_key(key) && layout != LAYOUT_UNDEFINED {
                let st = choose|st: Seq<(OptRangeMap<RangeMap>, OptRangeMap<RangeMap>)>| #[trigger]
                    super::image_steps(st, v@, layout, info) && st[0] == s0.prior_rw(key, mip_level_count)
                        && st[v@.len() as int] == s1.image_map()[key].maps();
                assert(super::image_step(st[0], v@[0].0, v@[0].1, layout, info, st[1], v@[0].2@));
                let w0 = st[0];
                OptRangeMap::<RangeMap>::lemma_uniform(range, None, w0.0);
                OptRangeMap::<RangeMap>::lemma_uniform(range, None, w0.1);
                assert(w0.0.view().union_prefer_right(w0.1.view()) =~= Map::<u64, ResourceAccessInfo>::empty());
                let waits = v@[0].2@;
                assert(waits.to_set() =~= Set::<ResourceAccessInfo>::empty());
                if waits.len() > 0 {
                    assert(waits.to_set().contains(waits[0]));
                }
            }
        },
        Err(_) => {},
    }
}


/// A write to a buffer right after a read of it, on bytes the read covered, waits for the
/// reads recorded there; when no read was recorded on the read's bytes before it, that is the
/// read itself and nothing else.
pub proof fn lemma_write_after_read(
    s0: SyncManagerInternal,
    key: u64,
    size: u64,
    read: BufferAccessInfo,
    s1: SyncManagerInternal,
    waits1: Seq<ResourceAccessInfo>,
    write: BufferAccessInfo,
    s2: SyncManagerInternal,
    waits2: Seq<ResourceAccessInfo>,
)
    requires
        buffer_access_post(s0, key, size, read, s1, waits1),
        !read.spec_is_write(),
        buffer_access_post(s1, key, size, write, s2, waits2),
        write.spec_is_write(),
        !spec_is_empty_range(write.spec_range()),
        read.spec_range().has(write.spec_range().start as int) && read.spec_range().has(write.spec_range().end as int),
        s0.buffer_range(key, size).has(write.spec_range().start as int) && s0.buffer_range(key, size).has(
            write.spec_range().end as int,
        ),
    ensures
        waits2.to_set() == values_in(s1.prior_buffer_rw(key, size).1.view(), write.spec_range()),
        (forall|p: u64| #[trigger] read.spec_range().has(p as int) ==> !s0.prior_buffer_rw(key, size).1.view().contains_key(p))
            ==> waits2.to_set() == set![ResourceAccessInfo::Read { stage: read.stage, access: read.access }],
{
    let rd = ResourceAccessInfo::Read { stage: read.stage, access: read.access };
    let prior = s0.prior_buffer_rw(key, size);
    let after1 = s1.buffer_map()[key].maps();
    let range = write.spec_range();
    OptRangeMap::<RangeMap>::lemma_uniform(KeyRange { start: 0, end: (size - 1) as u64 }, None, prior.1);
    assert(prior.1.max_range() == s0.buffer_range(key, size));
    assert(s1.buffer_map().contains_key(key));
    assert(s1.prior_buffer_rw(key, size) == after1);
    let u = after1.0.view().union_prefer_right(after1.1.view());
    assert forall|p: u64| range.has(p as int) implies #[trigger] agrees_at(u, after1.1.view(), p) by {
        assert(prior.1.max_range().has(p as int) && read.spec_range().has(p as int));
        assert(after1.1.view().contains_key(p));
    }
    lemma_values_agree(u, after1.1.view(), range);
    if forall|p: u64| #[trigger] read.spec_range().has(p as int) ==> !prior.1.view().contains_key(p) {
        let m = after1.1.view();
        assert forall|v: ResourceAccessInfo| values_in(m, range).contains(v) <==> v == rd by {
            if values_in(m, range).contains(v) {
                let p = choose|p: u64| range.has(p as int) && m.contains_key(p) && m[p] == v;
                assert(prior.1.max_range().has(p as int) && read.spec_range().has(p as int));
                assert(m.contains_key(p));
            }
            if v == rd {
                let p = range.start;
                assert(range.has(p as int));
                assert(prior.1.max_range().has(p as int) && read.spec_range().has(p as int));
                assert(m.contains_key(p));
            }
        }
        assert(values_in(m, range) =~= set![rd]);
    }
}

/// A fresh image holds a layout, the undefined one, at every mip level.
pub proof fn lemma_fresh_layouts_full(mip_level_count: u64)
    requires
        mip_level_count > 0,
    ensures
        fresh_layouts(mip_level_count).max_range() == (KeyRange { start: 0, end: (mip_level_count - 1) as u64 }),
        forall|p: u64| p < mip_level_count ==> #[trigger] fresh_layouts(mip_level_count).view().contains_key(p)
            && fresh_layouts(mip_level_count).view()[p] == LAYOUT_UNDEFINED,
{
    let max = KeyRange { start: 0, end: (mip_level_count - 1) as u64 };
    OptRangeMap::<SmallArrayRangeMap<i32>>::lemma_uniform(max, Some(LAYOUT_UNDEFINED), fresh_layouts(mip_level_count));
    assert forall|p: u64| p < mip_level_count implies #[trigger] fresh_layouts(mip_level_count).view().contains_key(p)
        && fresh_layouts(mip_level_count).view()[p] == LAYOUT_UNDEFINED by {
        assert(max.has(p as int));
    }
}

/// Every mip level keeps a layout: after an image access, each level of the layout map's range
/// is in the access's layout where the access reached it (unless the map had no slot for the
/// access), and in its old layout elsewhere; so a map with a layout at every level keeps one.
pub proof fn lemma_layouts_kept(
    s0: SyncManagerInternal,
    key: u64,
    mip_level_count: u64,
    layout: i32,
    info: ImageAccessInfo,
    s1: SyncManagerInternal,
    r: Result<Vec<(KeyRange, i32, Vec<ResourceAccessInfo>)>, SyncError>,
)
    requires
        image_access_post(s0, key, mip_level_count, layout, info, s1, r),
    ensures
        s1.layout_map().contains_key(key),
        s1.layout_map()[key].max_range() == s0.prior_layouts(key, mip_level_count).max_range(),
        r != Err::<Vec<(KeyRange, i32, Vec<ResourceAccessInfo>)>, SyncError>(SyncError::LayoutSlotOutOfRange) ==> forall|p: u64|
            s0.prior_layouts(key, mip_level_count).max_range().has(p as int) ==> #[trigger] agrees_at(
                s1.layouts_of(key),
                overwritten(s0.prior_layouts(key, mip_level_count).view(), info.spec_range(), layout),
                p,
            ),
        r == Err::<Vec<(KeyRange, i32, Vec<ResourceAccessInfo>)>, SyncError>(SyncError::LayoutSlotOutOfRange) ==> s1.layouts_of(
            key,
        ) == s0.prior_layouts(key, mip_level_count).view(),
        (forall|p: u64| s0.prior_layouts(key, mip_level_count).max_range().has(p as int) ==> #[trigger] s0.prior_layouts(
            key,
            mip_level_count,
        ).view().contains_key(p)) ==> forall|p: u64| s0.prior_layouts(key, mip_level_count).max_range().has(p as int)
            ==> #[trigger] s1.layouts_of(key).contains_key(p),
{
    let prior = s0.prior_layouts(key, mip_level_count);
    let range = info.spec_range();
    assert(s1.layout_map().contains_key(key));
    if r == Err::<Vec<(KeyRange, i32, Vec<ResourceAccessInfo>)>, SyncError>(SyncError::LayoutSlotOutOfRange) {
        assert(s1.layout_map()[key] == prior);
    } else {
        assert(prior.overwrite_ok(range));
        let e = choose|e: Seq<(KeyRange, i32)>| #[trigger] overwrite_post(prior, range, layout, s1.layout_map()[key], e)
            && match r {
            Err(SyncError::LayoutMissing) => e.len() == 0,
            Err(SyncError::LayoutOutsideAccess) => e.len() > 0 && !super::entries_inside(e, range),
            Err(SyncError::LayoutSlotOutOfRange) => false,
            Ok(v) => e.len() > 0,
        };
        lemma_overwrite_on_range(prior, range, layout, s1.layout_map()[key], e);
        assert forall|p: u64| prior.max_range().has(p as int) implies #[trigger] agrees_at(
            s1.layouts_of(key),
            overwritten(prior.view(), range, layout),
            p,
        ) by {
            assert(agrees_at(s1.layout_map()[key].view(), overwritten(prior.view(), range, layout), p));
        }
        if forall|p: u64| prior.max_range().has(p as int) ==> #[trigger] prior.view().contains_key(p) {
            assert forall|p: u64| prior.max_range().has(p as int) implies #[trigger] s1.layouts_of(key).contains_key(p) by {
                assert(agrees_at(s1.layouts_of(key), overwritten(prior.view(), range, layout), p));
                assert(prior.view().contains_key(p));
            }
        }
    }
}


/// Every mip level keeps a layout: when every recorded image has a layout at every level of
/// its range, it still does after any image access (to an image of at least one level), and
/// the accessed image's layout map covers levels `0 .. mip_level_count` when it was new.
pub proof fn lemma_layouts_stay_full(
    s0: SyncManagerInternal,
    key: u64,
    mip_level_count: u64,
    layout: i32,
    info: ImageAccessInfo,
    s1: SyncManagerInternal,
    r: Result<Vec<(KeyRange, i32, Vec<ResourceAccessInfo>)>, SyncError>,
)
    requires
        image_access_post(s0, key, mip_level_count, layout, info, s1, r),
        s0.layouts_full(),
        mip_level_count > 0,
    ensures
        s1.layouts_full(),
        !s0.layout_map().contains_key(key) ==> s1.layout_map()[key].max_range() == (KeyRange {
            start: 0,
            end: (mip_level_count - 1) as u64,
        }),
{
    let prior = s0.prior_layouts(key, mip_level_count);
    if !s0.layout_map().contains_key(key) {
        lemma_fresh_layouts_full(mip_level_count);
        assert forall|p: u64| prior.max_range().has(p as int) implies #[trigger] prior.view().contains_key(p) by {
            assert(p < mip_level_count);
        }
    } else {
        assert forall|p: u64| prior.max_range().has(p as int) implies #[trigger] prior.view().contains_key(p) by {
            assert(s0.layout_map()[key].view().contains_key(p));
        }
    }
    lemma_layouts_kept(s0, key, mip_level_count, layout, info, s1, r);
    assert forall|k: u64, p: u64|
        s1.layout_map().contains_key(k) && s1.layout_map()[k].max_range().has(p as int) implies
        #[trigger] s1.layout_map()[k].view().contains_key(p) by {
        if k == key {
            assert(s1.layouts_of(key).contains_key(p));
        } else {
            assert(s1.layout_map()[k] == s0.layout_map()[k]);
            assert(s0.layout_map()[k].view().contains_key(p));
        }
    }
}

} // verus!
