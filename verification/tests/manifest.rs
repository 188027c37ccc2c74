use lapiz::bundle::BundleId;
use lapiz::index::{AssetError, TagId, UntypedAssetId};
use lapiz::manifest::{
    asset_tag_paths, entries_of, manifest_assets, paths_to_ids, tag_relative_path, BundleManifest,
};
use lapiz::path::forward_slashes;

fn sample() -> BundleManifest {
    let mut m = BundleManifest::new();
    m.insert_asset(UntypedAssetId(30), "c.brush".to_string());
    m.insert_asset(UntypedAssetId(10), "a.brush".to_string());
    m.insert_asset(UntypedAssetId(20), "b.unknown".to_string());
    m.insert_tag(TagId(5), "tags/red.tag".to_string());
    m
}

#[test]
fn entries_come_in_increasing_identifier_order() {
    let m = sample();
    let e = entries_of(&m.assets);
    assert_eq!(
        e,
        vec![
            (10, "a.brush".to_string()),
            (20, "b.unknown".to_string()),
            (30, "c.brush".to_string())
        ]
    );
}

#[test]
fn inserting_again_replaces_the_path() {
    let mut m = sample();
    m.insert_asset(UntypedAssetId(10), "moved.brush".to_string());
    assert_eq!(m.asset_path(UntypedAssetId(10)), Some(&"moved.brush".to_string()));
    assert_eq!(m.asset_path(UntypedAssetId(99)), None);
    assert!(m.has_tag(TagId(5)));
    assert!(!m.has_tag(TagId(6)));
}

#[test]
fn only_assets_with_a_known_type_are_listed() {
    let m = sample();
    let types = vec![Some("brush".to_string()), None, Some("brush".to_string())];
    let found = manifest_assets(&m, &types, BundleId::new(7), 1_700_000_000);
    assert_eq!(found.len(), 2);
    assert_eq!(found[0].asset_id, UntypedAssetId(10));
    assert_eq!(found[0].ty, "brush");
    assert_eq!(found[0].bundle_id, BundleId::new(7));
    assert_eq!(found[0].relative_path, "a.brush");
    assert_eq!(found[0].revision, 0);
    assert_eq!(found[0].last_modified, 1_700_000_000);
    assert!(!found[0].in_memory);
    assert_eq!(found[1].asset_id, UntypedAssetId(30));
    assert_eq!(found[1].relative_path, "c.brush");
}

#[test]
fn paths_map_back_to_identifiers() {
    let m = sample();
    assert_eq!(
        paths_to_ids(&m),
        vec![
            ("a.brush".to_string(), UntypedAssetId(10)),
            ("b.unknown".to_string(), UntypedAssetId(20)),
            ("c.brush".to_string(), UntypedAssetId(30))
        ]
    );
}

#[test]
fn tag_lists_are_read_at_manifest_paths() {
    let m = sample();
    let types = vec![Some("brush".to_string()), None, Some("brush".to_string())];
    let found = manifest_assets(&m, &types, BundleId::new(7), 0);
    match asset_tag_paths(&m, &found) {
        Ok(paths) => assert_eq!(paths, vec!["a.brush".to_string(), "c.brush".to_string()]),
        Err(_) => panic!("every scanned asset has a path"),
    }
}

#[test]
fn asset_without_manifest_path_is_an_error() {
    let m = sample();
    let mut found = manifest_assets(&m, &vec![Some("brush".to_string()), None, None], BundleId::new(7), 0);
    let mut stray = manifest_assets(&m, &vec![Some("x".to_string()), None, None], BundleId::new(7), 0);
    stray[0].asset_id = UntypedAssetId(77);
    found.append(&mut stray);
    assert!(matches!(
        asset_tag_paths(&m, &found),
        Err(AssetError::AssetPathNotFound(UntypedAssetId(77)))
    ));
}

#[test]
fn recorded_paths_are_cleaned() {
    let mut m = BundleManifest::new();
    let p = m.record_asset(UntypedAssetId(4), "brushes//./round.brush");
    assert_eq!(p, "brushes/round.brush");
    assert_eq!(m.asset_path(UntypedAssetId(4)), Some(&"brushes/round.brush".to_string()));
    let t = m.record_tag(TagId(8), "tags/old/../red.tag");
    assert_eq!(t, "tags/red.tag");
    assert!(m.has_tag(TagId(8)));
}

#[test]
fn tag_paths_use_forward_slashes() {
    assert_eq!(tag_relative_path("tags/./red.tag"), "tags/red.tag");
    assert_eq!(tag_relative_path("tags\\blue.tag"), "tags/blue.tag");
    assert_eq!(tag_relative_path("a/../b//c.tag"), "b/c.tag");
}

#[test]
fn forward_slashes_replace_every_backslash() {
    assert_eq!(forward_slashes("a\\b\\\\c"), "a/b//c");
    assert_eq!(forward_slashes("plain/path"), "plain/path");
    assert_eq!(forward_slashes(""), "");
}
