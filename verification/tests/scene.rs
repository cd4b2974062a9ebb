use round_cat::loader::asset::AssetId;
use round_cat::scene::share_by_id;

#[test]
fn shared_assets_are_set_up_once() {
    let (a, b, c) = (AssetId(4), AssetId(1), AssetId(9));
    let (unique, index) = share_by_id(&vec![a, b, a, c, b]);
    assert_eq!(unique, vec![a, b, c]);
    assert_eq!(index, vec![0, 1, 0, 2, 1]);
}

#[test]
fn nothing_to_share_in_an_empty_scene() {
    let (unique, index) = share_by_id(&vec![]);
    assert!(unique.is_empty());
    assert!(index.is_empty());
}
