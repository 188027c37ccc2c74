use lapiz::bundle::BundleId;
use lapiz::index::{
    asset_change_result, bundle_upsert_status, check_tag_assignment, check_tag_owner, edit_revision,
    EditRevision,
    decide_tag_upsert, tag_assign_result, tag_change_result, tag_unassign_result, Asset,
    AssetError, AssetFilter, ItemStatus, StoredTag, Tag, TagFilter, TagId, TagUpsert,
    UntypedAssetId,
};

struct TestAsset;

impl Asset for TestAsset {
    const TYPE_NAME: &'static str = "test_asset";
}

fn tag(bundle: u128, asset_ty: Option<&str>) -> Tag {
    Tag {
        id: TagId(7),
        bundle_id: BundleId(bundle),
        relative_path: "t.tag".to_string(),
        name: "T".to_string(),
        asset_ty: asset_ty.map(|s| s.to_string()),
    }
}

fn stored(bundle: u128, asset_ty: Option<&str>, last_modified: i64, is_deleted: bool) -> StoredTag {
    StoredTag {
        bundle_id: BundleId(bundle),
        asset_ty: asset_ty.map(|s| s.to_string()),
        last_modified,
        is_deleted,
    }
}

#[test]
fn asset_filter_builds_untyped_query() {
    let filter = AssetFilter::<TestAsset>::new()
        .with_tag(TagId(3))
        .with_bundle(BundleId(4))
        .with_deleted(true)
        .into_untyped();
    assert_eq!(filter.ty.as_deref(), Some("test_asset"));
    assert_eq!(filter.tag, Some(TagId(3)));
    assert_eq!(filter.bundle, Some(BundleId(4)));
    assert!(filter.is_deleted);
    let plain = AssetFilter::<TestAsset>::new().into_untyped();
    assert_eq!(plain.tag, None);
    assert_eq!(plain.bundle, None);
    assert!(!plain.is_deleted);
}

#[test]
fn tag_filter_query_params() {
    assert_eq!(TagFilter::new().query_params(), (0, None));
    let all = TagFilter { asset_ty: Some(None), is_deleted: false };
    assert_eq!(all.query_params(), (1, None));
    assert_eq!(
        TagFilter::of_asset::<TestAsset>().query_params(),
        (2, Some("test_asset".to_string()))
    );
}

#[test]
fn tag_upsert_decisions() {
    let t = tag(1, Some("brush"));
    assert!(matches!(decide_tag_upsert(None, &t, 5), Ok(TagUpsert::Insert)));
    assert!(matches!(
        decide_tag_upsert(Some(stored(2, Some("brush"), 5, false)), &t, 5),
        Err(AssetError::DuplicateTagDefinition {
            tag_id: TagId(7),
            first_bundle_id: BundleId(2),
            second_bundle_id: BundleId(1)
        })
    ));
    assert!(matches!(
        decide_tag_upsert(Some(stored(1, None, 1, true)), &t, 5),
        Ok(TagUpsert::Keep)
    ));
    assert!(matches!(
        decide_tag_upsert(Some(stored(1, None, 1, false)), &t, 5),
        Err(AssetError::TagAssetTypeChanged { .. })
    ));
    assert!(matches!(
        decide_tag_upsert(Some(stored(1, Some("brush"), 5, false)), &t, 5),
        Ok(TagUpsert::Keep)
    ));
    assert!(matches!(
        decide_tag_upsert(Some(stored(1, Some("brush"), 4, false)), &t, 5),
        Ok(TagUpsert::Update)
    ));
}

#[test]
fn tag_owner_and_assignment_checks() {
    let t = tag(1, None);
    assert!(check_tag_owner(None, &t).is_ok());
    assert!(check_tag_owner(Some(BundleId(1)), &t).is_ok());
    assert!(matches!(
        check_tag_owner(Some(BundleId(9)), &t),
        Err(AssetError::DuplicateTagDefinition { .. })
    ));
    let a = UntypedAssetId(11);
    assert!(matches!(
        check_tag_assignment(a, TagId(7), None, Some(None)),
        Err(AssetError::AssetNotFound(UntypedAssetId(11)))
    ));
    assert!(matches!(
        check_tag_assignment(a, TagId(7), Some("brush".into()), None),
        Err(AssetError::TagNotFound(TagId(7)))
    ));
    assert!(check_tag_assignment(a, TagId(7), Some("brush".into()), Some(None)).is_ok());
    assert!(check_tag_assignment(a, TagId(7), Some("brush".into()), Some(Some("brush".into()))).is_ok());
    assert!(matches!(
        check_tag_assignment(a, TagId(7), Some("brush".into()), Some(Some("palette".into()))),
        Err(AssetError::InvalidTagAssetType { .. })
    ));
    assert_eq!(bundle_upsert_status(true), ItemStatus::Outdated);
    assert_eq!(bundle_upsert_status(false), ItemStatus::UpToDate);
}

#[test]
fn changed_row_counts_decide_the_outcome() {
    let asset = UntypedAssetId(5);
    let tag = TagId(6);
    assert!(matches!(tag_change_result(tag, 0), Err(AssetError::TagNotFound(TagId(6)))));
    assert!(tag_change_result(tag, 1).is_ok());
    assert!(matches!(asset_change_result(asset, 0), Err(AssetError::AssetNotFound(UntypedAssetId(5)))));
    assert!(asset_change_result(asset, 2).is_ok());
    assert!(matches!(
        tag_assign_result(asset, tag, 0),
        Err(AssetError::TagAlreadyAssigned { asset_id: UntypedAssetId(5), tag_id: TagId(6) })
    ));
    assert!(tag_assign_result(asset, tag, 1).is_ok());
    assert!(matches!(tag_unassign_result(asset, tag, false, 1), Err(AssetError::TagNotFound(TagId(6)))));
    assert!(matches!(
        tag_unassign_result(asset, tag, true, 0),
        Err(AssetError::TagNotAssigned { asset_id: UntypedAssetId(5), tag_id: TagId(6) })
    ));
    assert!(tag_unassign_result(asset, tag, true, 1).is_ok());
}

#[test]
fn edits_go_to_the_in_memory_revision() {
    assert_eq!(edit_revision(3, true), EditRevision::Reuse(3));
    assert_eq!(edit_revision(3, false), EditRevision::Create(4));
    assert_eq!(edit_revision(0, false), EditRevision::Create(1));
}

#[test]
fn builder_order_does_not_matter() {
    let a = AssetFilter::<TestAsset>::new()
        .with_tag(TagId(1))
        .with_bundle(BundleId(10))
        .with_deleted(true)
        .into_untyped();
    let b = AssetFilter::<TestAsset>::new()
        .with_deleted(true)
        .with_bundle(BundleId(10))
        .with_tag(TagId(1))
        .into_untyped();
    assert_eq!(a.ty.as_deref(), Some("test_asset"));
    assert_eq!(a.ty, b.ty);
    assert_eq!(a.tag, b.tag);
    assert_eq!(a.bundle, b.bundle);
    assert_eq!(a.is_deleted, b.is_deleted);
}
