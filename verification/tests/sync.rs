use lapiz::bundle::BundleId;
use lapiz::index::{TagId, UntypedAssetId};
use lapiz::manifest::{manifest_assets, AssetMetadata, BundleManifest};
use lapiz::sync::{first_revisions, removed_assets, removed_tags, unloaded_bundles};

fn scanned() -> Vec<AssetMetadata> {
    let mut m = BundleManifest::new();
    m.insert_asset(UntypedAssetId(1), "a.brush".to_string());
    m.insert_asset(UntypedAssetId(2), "b.brush".to_string());
    let mut v = manifest_assets(
        &m,
        &vec![Some("brush".to_string()), Some("brush".to_string())],
        BundleId::new(9),
        0,
    );
    let mut again = manifest_assets(
        &m,
        &vec![Some("brush".to_string()), None],
        BundleId::new(9),
        0,
    );
    again[0].revision = 3;
    again[0].relative_path = "a.rev3.brush".to_string();
    v.append(&mut again);
    v
}

#[test]
fn each_asset_is_recorded_from_its_first_revision() {
    let assets = scanned();
    assert_eq!(first_revisions(&assets), vec![true, true, false]);
    assert_eq!(first_revisions(&Vec::new()), Vec::<bool>::new());
}

#[test]
fn assets_no_longer_scanned_are_removed() {
    let assets = scanned();
    let stored = vec![UntypedAssetId(4), UntypedAssetId(1), UntypedAssetId(2), UntypedAssetId(5)];
    assert_eq!(
        removed_assets(&stored, &assets),
        vec![UntypedAssetId(4), UntypedAssetId(5)]
    );
    assert_eq!(removed_assets(&stored, &Vec::new()), stored);
}

#[test]
fn tags_no_longer_defined_are_removed() {
    let mut m = BundleManifest::new();
    m.insert_tag(TagId(1), "one.tag".to_string());
    let stored = vec![TagId(1), TagId(2)];
    assert_eq!(removed_tags(&stored, &m), vec![TagId(2)]);
}

#[test]
fn bundles_no_longer_loaded_are_removed() {
    let stored = vec![BundleId::new(1), BundleId::new(2), BundleId::new(3)];
    let loaded = vec![BundleId::new(2)];
    assert_eq!(unloaded_bundles(&stored, &loaded), vec![BundleId::new(1), BundleId::new(3)]);
    assert_eq!(unloaded_bundles(&stored, &stored), Vec::<BundleId>::new());
}
