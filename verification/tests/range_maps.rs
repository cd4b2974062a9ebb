use round_cat::vulkan::sync_manager::interval::{is_empty_range, KeyRange};
use round_cat::vulkan::sync_manager::range_map::{OptRangeMap, RangeMap, RangeMapLike, SmallArrayRangeMap};
use round_cat::vulkan::sync_manager::ResourceAccessInfo;

fn read(stage: u64) -> ResourceAccessInfo {
    ResourceAccessInfo::Read { stage, access: 0x20 }
}

#[test]
fn key_ranges() {
    let r = KeyRange::ie(2, 5);
    assert_eq!(r, KeyRange { start: 2, end: 4 });
    assert!(r.contains(2) && r.contains(4) && !r.contains(5));
    assert!(r.is_valid());
    assert!(!KeyRange { start: 3, end: 2 }.is_valid());
    assert!(!is_empty_range(&KeyRange::ii(3, 3)));
    assert!(!is_empty_range(&KeyRange::ii(3, 4)));
    assert!(is_empty_range(&KeyRange { start: 4, end: 3 }));
}

#[test]
fn small_array_map_starts_empty() {
    let m: SmallArrayRangeMap<i32> = SmallArrayRangeMap::new(4);
    assert!(m.get_all(&KeyRange::ii(0, 3)).is_empty());
}

#[test]
fn small_array_map_reports_runs() {
    let mut m: SmallArrayRangeMap<i32> = SmallArrayRangeMap::new(6);
    assert!(m.overwrite(KeyRange::ii(0, 5), 7).is_empty());
    let old = m.overwrite(KeyRange::ii(2, 3), 9);
    // Each run of equal values is reported with the points it covers inside the key.
    assert_eq!(old, vec![(KeyRange::ii(2, 3), 7)]);
    assert_eq!(
        m.get_all(&KeyRange::ii(0, 5)),
        vec![(KeyRange::ii(0, 1), 7), (KeyRange::ii(2, 3), 9), (KeyRange::ii(4, 5), 7)]
    );
    let cut = m.cut(KeyRange::ii(1, 4));
    assert_eq!(cut, vec![(KeyRange::ii(1, 1), 7), (KeyRange::ii(2, 3), 9), (KeyRange::ii(4, 4), 7)]);
    assert_eq!(m.get_all(&KeyRange::ii(0, 5)), vec![(KeyRange::ii(0, 0), 7), (KeyRange::ii(5, 5), 7)]);
}

#[test]
fn small_array_map_reports_the_points_of_each_run() {
    let mut m: SmallArrayRangeMap<i32> = SmallArrayRangeMap::new(4);
    assert!(m.overwrite(KeyRange::ii(0, 3), 2).is_empty());
    assert_eq!(m.overwrite(KeyRange::ii(0, 2), 1), vec![(KeyRange::ii(0, 2), 2)]);
    assert_eq!(m.get_all(&KeyRange::ii(0, 3)), vec![(KeyRange::ii(0, 2), 1), (KeyRange::ii(3, 3), 2)]);
    assert_eq!(m.get_all(&KeyRange::ii(1, 3)), vec![(KeyRange::ii(1, 2), 1), (KeyRange::ii(3, 3), 2)]);
}

#[test]
fn opt_array_map_behaves_as_the_array_map() {
    let mut o: OptRangeMap<SmallArrayRangeMap<i32>> = OptRangeMap::new_with_max_range(KeyRange::ii(0, 3));
    let mut a: SmallArrayRangeMap<i32> = SmallArrayRangeMap::new(4);
    assert!(o.overwrite(KeyRange::ii(0, 3), 5).is_empty());
    assert!(a.overwrite(KeyRange::ii(0, 3), 5).is_empty());
    assert_eq!(o.overwrite(KeyRange::ii(0, 3), 6), vec![(KeyRange::ii(0, 3), 5)]);
    assert_eq!(a.overwrite(KeyRange::ii(0, 3), 6), vec![(KeyRange::ii(0, 3), 5)]);
    assert_eq!(o.cut(KeyRange::ii(1, 2)), vec![(KeyRange::ii(1, 2), 6)]);
    assert_eq!(a.cut(KeyRange::ii(1, 2)), vec![(KeyRange::ii(1, 2), 6)]);
    let expected = vec![(KeyRange::ii(0, 0), 6), (KeyRange::ii(3, 3), 6)];
    assert_eq!(o.get_all(&KeyRange::ii(0, 3)), expected);
    assert_eq!(a.get_all(&KeyRange::ii(0, 3)), expected);
}

#[test]
fn small_array_insert_if_empty() {
    let mut m: SmallArrayRangeMap<i32> = SmallArrayRangeMap::new(4);
    assert_eq!(m.insert_if_empty(KeyRange::ii(0, 2), 1), Ok(()));
    assert_eq!(m.insert_if_empty(KeyRange::ii(1, 3), 2), Err(2));
}

#[test]
fn nodit_range_map_overwrite_and_cut() {
    let mut m = RangeMap::new();
    assert!(m.overwrite(KeyRange::ii(0, 9), read(1)).is_empty());
    let old = m.overwrite(KeyRange::ii(3, 5), read(2));
    assert_eq!(old, vec![(KeyRange::ii(3, 5), read(1))]);
    assert_eq!(
        m.get_all(&KeyRange::ii(0, 9)),
        vec![(KeyRange::ii(0, 2), read(1)), (KeyRange::ii(3, 5), read(2)), (KeyRange::ii(6, 9), read(1))]
    );
    let cut = m.cut(KeyRange::ii(5, 6));
    assert_eq!(cut, vec![(KeyRange::ii(5, 5), read(2)), (KeyRange::ii(6, 6), read(1))]);
    assert!(m.get_all(&KeyRange::ii(5, 6)).is_empty());
    assert_eq!(m.insert_if_empty(KeyRange::ii(5, 6), read(3)), Ok(()));
    assert_eq!(m.insert_if_empty(KeyRange::ii(6, 7), read(4)), Err(read(4)));
}

#[test]
fn opt_range_map_keeps_one_value_over_the_whole_range() {
    let mut m: OptRangeMap<RangeMap> = OptRangeMap::new_with_max_range(KeyRange::ii(0, 9));
    assert!(!m.is_granular());
    assert!(m.is_max_range(&KeyRange::ii(0, 20)));
    assert!(!m.is_max_range(&KeyRange::ii(1, 9)));
    assert!(m.overwrite(KeyRange::ii(0, 9), read(1)).is_empty());
    assert!(!m.is_granular());
    assert_eq!(m.get_all(&KeyRange::ii(2, 4)), vec![(KeyRange::ii(2, 4), read(1))]);
    // Overwriting a part splits the value over the whole range, as a plain map would.
    assert_eq!(m.overwrite(KeyRange::ii(2, 4), read(2)), vec![(KeyRange::ii(2, 4), read(1))]);
    assert!(m.is_granular());
    assert_eq!(
        m.get_all(&KeyRange::ii(0, 9)),
        vec![(KeyRange::ii(0, 1), read(1)), (KeyRange::ii(2, 4), read(2)), (KeyRange::ii(5, 9), read(1))]
    );
    assert_eq!(
        m.cut(KeyRange::ii(0, 9)),
        vec![(KeyRange::ii(0, 1), read(1)), (KeyRange::ii(2, 4), read(2)), (KeyRange::ii(5, 9), read(1))]
    );
    assert!(!m.is_granular());
    assert!(m.get_all(&KeyRange::ii(0, 9)).is_empty());
    assert_eq!(m.get_max_range(), KeyRange::ii(0, 9));
}

#[test]
fn opt_range_map_cut_splits_the_whole_value() {
    let mut m: OptRangeMap<RangeMap> = OptRangeMap::new(KeyRange::ii(0, 9));
    assert!(m.overwrite(KeyRange::ii(0, 9), read(1)).is_empty());
    assert_eq!(m.cut(KeyRange::ii(3, 5)), vec![(KeyRange::ii(3, 5), read(1))]);
    assert!(m.is_granular());
    assert_eq!(m.get_all(&KeyRange::ii(0, 9)), vec![(KeyRange::ii(0, 2), read(1)), (KeyRange::ii(6, 9), read(1))]);
    assert!(m.get_all(&KeyRange::ii(3, 5)).is_empty());
}

#[test]
fn opt_range_map_writes_one_point_keys() {
    let mut m: OptRangeMap<RangeMap> = OptRangeMap::new(KeyRange::ii(0, 9));
    assert!(m.overwrite(KeyRange::ii(4, 4), read(1)).is_empty());
    assert_eq!(m.get_all(&KeyRange::ii(0, 9)), vec![(KeyRange::ii(4, 4), read(1))]);
    assert_eq!(m.insert_if_empty(KeyRange::ii(7, 7), read(2)), Ok(()));
    assert_eq!(m.insert_if_empty(KeyRange::ii(7, 7), read(3)), Err(read(3)));
    assert_eq!(m.cut(KeyRange::ii(4, 4)), vec![(KeyRange::ii(4, 4), read(1))]);
    assert_eq!(m.get_all(&KeyRange::ii(0, 9)), vec![(KeyRange::ii(7, 7), read(2))]);
}

#[test]
fn small_array_map_writes_one_point_keys() {
    let mut m: SmallArrayRangeMap<i32> = SmallArrayRangeMap::new(4);
    assert!(m.overwrite(KeyRange::ii(3, 3), 5).is_empty());
    assert_eq!(m.get_all(&KeyRange::ii(3, 3)), vec![(KeyRange::ii(3, 3), 5)]);
    assert_eq!(m.insert_if_empty(KeyRange::ii(3, 3), 6), Err(6));
    assert_eq!(m.insert_if_empty(KeyRange::ii(2, 2), 6), Ok(()));
}

#[test]
fn opt_range_map_insert_if_empty() {
    let mut m: OptRangeMap<RangeMap> = OptRangeMap::new(KeyRange::ii(0, 9));
    assert_eq!(m.insert_if_empty(KeyRange::ii(2, 4), read(1)), Ok(()));
    assert_eq!(m.insert_if_empty(KeyRange::ii(3, 5), read(2)), Err(read(2)));
    assert_eq!(m.insert_if_empty(KeyRange::ii(5, 6), read(3)), Ok(()));
    assert_eq!(m.get_all(&KeyRange::ii(0, 9)), vec![(KeyRange::ii(2, 4), read(1)), (KeyRange::ii(5, 6), read(3))]);
}
